//! Destructive editing of an audio clip's frames (trim and reverse) and the
//! selection and playback ranges of the clip editor. Samples are of any copyable
//! type; the editor's gain and fade arithmetic is done by its caller.

use vstd::prelude::*;

verus! {

/// The channels of a clip, all of the same length, at least one of them.
pub struct ClipChannels<T> {
    channels: Vec<Vec<T>>,
}

/// The channels' sample sequences.
pub open spec fn channel_views<T>(channels: Seq<Vec<T>>) -> Seq<Seq<T>> {
    channels.map_values(|c: Vec<T>| c@)
}

/// The range `start..end` clamped to a clip of `len` frames: the start is moved
/// to the last frame at most and the end to the clip's end at most; empty ranges
/// (and empty clips) give `None`.
pub open spec fn clamped_range(len: nat, start: nat, end: nat) -> Option<(nat, nat)> {
    if len == 0 {
        None
    } else {
        let s = if start < len - 1 { start } else { (len - 1) as nat };
        let e = if end < len { end } else { len };
        if e <= s {
            None
        } else {
            Some((s, e))
        }
    }
}

/// `s` with the part `start..end` in reverse order.
pub open spec fn reversed_range<T>(s: Seq<T>, start: int, end: int) -> Seq<T> {
    Seq::new(s.len(), |i: int| if start <= i < end { s[start + end - 1 - i] } else { s[i] })
}

impl<T> ClipChannels<T> {
    /// The samples of each channel.
    pub closed spec fn view(&self) -> Seq<Seq<T>> {
        channel_views(self.channels@)
    }

    /// At least one channel, all of the same length.
    pub open spec fn well_formed(&self) -> bool {
        &&& self.view().len() >= 1
        &&& forall|i: int| 0 <= i < self.view().len() ==> #[trigger] self.view()[i].len() == self.view()[0].len()
    }

    /// Number of frames.
    pub open spec fn frames(&self) -> nat {
        self.view()[0].len()
    }
}

impl<T: Copy> ClipChannels<T> {
    /// A clip of one empty channel.
    pub fn empty() -> (c: Self)
        ensures
            c.well_formed(),
            c.view() == seq![Seq::<T>::empty()],
    {
        let mut channels: Vec<Vec<T>> = Vec::new();
        channels.push(Vec::new());
        let c = ClipChannels { channels };
        assert(c.view() =~= seq![Seq::<T>::empty()]);
        c
    }

    /// Builds a clip from channels of possibly different lengths: the shorter ones
    /// are padded with `fill` to the longest; no channel at all gives one empty channel.
    pub fn from_channels(channels: Vec<Vec<T>>, fill: T) -> (c: Self)
        ensures
            c.well_formed(),
            c.view().len() == if channels@.len() == 0 { 1 } else { channels@.len() },
            forall|i: int|
                0 <= i < channels@.len() ==> #[trigger] c.view()[i].take(channels@[i]@.len() as int)
                    == channels@[i]@,
            forall|i: int, k: int|
                0 <= i < channels@.len() && channels@[i]@.len() <= k < c.frames() ==> #[trigger] c.view()[i][k] == fill,
            forall|i: int| 0 <= i < channels@.len() ==> channels@[i]@.len() <= c.frames(),
            channels@.len() > 0 ==> exists|i: int| 0 <= i < channels@.len() && channels@[i]@.len() == c.frames(),
            channels@.len() == 0 ==> c.frames() == 0,
    {
        let ghost orig = channels@;
        let mut channels = channels;
        if channels.len() == 0 {
            channels.push(Vec::new());
        }
        let ghost start = channels@;
        let mut max_len: usize = 0;
        let mut i: usize = 0;
        while i < channels.len()
            invariant
                channels@ == start,
                i <= channels@.len(),
                forall|j: int| 0 <= j < i ==> channels@[j]@.len() <= max_len,
                i > 0 ==> exists|j: int| 0 <= j < i && channels@[j]@.len() == max_len,
                i == 0 ==> max_len == 0,
            decreases channels@.len() - i,
        {
            if channels[i].len() > max_len {
                max_len = channels[i].len();
            }
            i += 1;
        }
        let mut i: usize = 0;
        while i < channels.len()
            invariant
                channels@.len() == start.len(),
                i <= channels@.len(),
                forall|j: int| 0 <= j < start.len() ==> start[j]@.len() <= max_len,
                forall|j: int| 0 <= j < i ==> #[trigger] channels@[j]@.len() == max_len,
                forall|j: int| 0 <= j < i ==> #[trigger] channels@[j]@.take(start[j]@.len() as int) == start[j]@,
                forall|j: int, k: int| 0 <= j < i && start[j]@.len() <= k < max_len ==> #[trigger] channels@[j]@[k] == fill,
                forall|j: int| i <= j < channels@.len() ==> #[trigger] channels@[j] == start[j],
            decreases channels@.len() - i,
        {
            let ghost before = channels@[i as int]@;
            let ghost outer = channels@;
            let channel = &mut channels[i];
            while channel.len() < max_len
                invariant
                    before.len() <= max_len,
                    before.len() <= channel@.len() <= max_len,
                    channel@.take(before.len() as int) == before,
                    forall|k: int| before.len() <= k < channel@.len() ==> #[trigger] channel@[k] == fill,
                decreases max_len - channel@.len(),
            {
                let ghost prev = channel@;
                channel.push(fill);
                assert(channel@.take(before.len() as int) =~= prev.take(before.len() as int));
            }
            i += 1;
        }
        let c = ClipChannels { channels };
        proof {
            assert forall|j: int| 0 <= j < c.view().len() implies #[trigger] c.view()[j].len() == c.view()[0].len() by {
                assert(c.view()[j] == c.channels@[j]@);
                assert(c.view()[0] == c.channels@[0]@);
            }
            assert forall|j: int| 0 <= j < orig.len() implies #[trigger] c.view()[j].take(orig[j]@.len() as int) == orig[j]@ by {
                assert(c.view()[j] == c.channels@[j]@);
                assert(start[j] == orig[j]);
            }
            assert forall|j: int, k: int| 0 <= j < orig.len() && orig[j]@.len() <= k < c.frames() implies #[trigger] c.view()[j][k] == fill by {
                assert(c.view()[j] == c.channels@[j]@);
                assert(c.view()[0] == c.channels@[0]@);
                assert(start[j] == orig[j]);
            }
            assert(c.view()[0] == c.channels@[0]@);
            if orig.len() > 0 {
                let j = choose|j: int| 0 <= j < start.len() && start[j]@.len() == max_len;
                assert(start[j] == orig[j]);
            }
        }
        c
    }

    /// Number of frames.
    pub fn len(&self) -> (n: usize)
        requires
            self.well_formed(),
        ensures
            n == self.frames(),
    {
        assert(self.view()[0] == self.channels@[0]@);
        self.channels[0].len()
    }

    /// Whether the clip has no frames.
    pub fn is_empty(&self) -> (r: bool)
        requires
            self.well_formed(),
        ensures
            r == (self.frames() == 0),
    {
        self.len() == 0
    }

    /// Number of channels.
    pub fn channel_count(&self) -> (n: usize)
        ensures
            n == self.view().len(),
    {
        self.channels.len()
    }

    /// The sample of `channel` at frame `index`, when both exist.
    pub fn sample(&self, channel: usize, index: usize) -> (r: Option<T>)
        ensures
            r == if channel < self.view().len() && index < self.view()[channel as int].len() {
                Some(self.view()[channel as int][index as int])
            } else {
                None::<T>
            },
    {
        if channel < self.channels.len() {
            assert(self.view()[channel as int] == self.channels@[channel as int]@);
            if index < self.channels[channel].len() {
                return Some(self.channels[channel][index]);
            }
        }
        None
    }

    /// `start..end` clamped to the clip (see `clamped_range`).
    pub fn clamp_range(&self, start: usize, end: usize) -> (r: Option<(usize, usize)>)
        requires
            self.well_formed(),
        ensures
            match clamped_range(self.frames(), start as nat, end as nat) {
                Some((s, e)) => r == Some((s as usize, e as usize)),
                None => r is None,
            },
    {
        let len = self.len();
        if len == 0 {
            return None;
        }
        let clamped_start = if start < len - 1 { start } else { len - 1 };
        let clamped_end = if end < len { end } else { len };
        if clamped_end <= clamped_start {
            None
        } else {
            Some((clamped_start, clamped_end))
        }
    }

    /// Keeps only frames `start..end` (clamped to the clip) of every channel. When
    /// the clamped range is empty, the clip keeps its number of channels (at least
    /// one) but loses all frames.
    pub fn trim_to_range(&mut self, start: usize, end: usize)
        requires
            old(self).well_formed(),
        ensures
            final(self).well_formed(),
            match clamped_range(old(self).frames(), start as nat, end as nat) {
                Some((s, e)) => final(self).view() == old(self).view().map_values(
                    |c: Seq<T>| c.subrange(s as int, e as int),
                ),
                None => final(self).view() == Seq::new(old(self).view().len(), |i: int| Seq::<T>::empty()),
            },
    {
        match self.clamp_range(start, end) {
            Some((s, e)) => {
                let ghost old_view = self.view();
                let mut i: usize = 0;
                while i < self.channels.len()
                    invariant
                        s < e <= old(self).frames(),
                        old(self).well_formed(),
                        old_view == old(self).view(),
                        self.channels@.len() == old_view.len(),
                        i <= self.channels@.len(),
                        forall|j: int| 0 <= j < i ==> #[trigger] self.channels@[j]@ == old_view[j].subrange(s as int, e as int),
                        forall|j: int| i <= j < self.channels@.len() ==> #[trigger] self.channels@[j]@ == old_view[j],
                    decreases self.channels@.len() - i,
                {
                    assert(old_view[i as int].len() == old_view[0].len());
                    let mut trimmed: Vec<T> = Vec::new();
                    let mut k: usize = s;
                    while k < e
                        invariant
                            i < self.channels@.len(),
                            s <= k <= e,
                            e <= self.channels@[i as int]@.len(),
                            trimmed@ == self.channels@[i as int]@.subrange(s as int, k as int),
                        decreases e - k,
                    {
                        trimmed.push(self.channels[i][k]);
                        k += 1;
                    }
                    self.channels.set(i, trimmed);
                    i += 1;
                }
                proof {
                    assert(self.view() =~= old_view.map_values(|c: Seq<T>| c.subrange(s as int, e as int)));
                    assert forall|j: int| 0 <= j < self.view().len() implies #[trigger] self.view()[j].len() == self.view()[0].len() by {
                        assert(old_view[j].len() == old_view[0].len());
                    }
                }
            },
            None => {
                let count = if self.channels.len() > 1 { self.channels.len() } else { 1 };
                let mut channels: Vec<Vec<T>> = Vec::new();
                let mut i: usize = 0;
                while i < count
                    invariant
                        i <= count,
                        channels@.len() == i,
                        forall|j: int| 0 <= j < i ==> #[trigger] channels@[j]@ == Seq::<T>::empty(),
                    decreases count - i,
                {
                    channels.push(Vec::new());
                    i += 1;
                }
                self.channels = channels;
                assert(self.view() =~= Seq::new(old(self).view().len(), |i: int| Seq::<T>::empty()));
            },
        }
    }

    /// Reverses frames `start..end` (clamped to the clip) of every channel; nothing
    /// changes when the clamped range is empty.
    pub fn reverse_range(&mut self, start: usize, end: usize)
        requires
            old(self).well_formed(),
        ensures
            final(self).well_formed(),
            match clamped_range(old(self).frames(), start as nat, end as nat) {
                Some((s, e)) => final(self).view() == old(self).view().map_values(
                    |c: Seq<T>| reversed_range(c, s as int, e as int),
                ),
                None => final(self).view() == old(self).view(),
            },
    {
        if let Some((s, e)) = self.clamp_range(start, end) {
            let ghost old_view = self.view();
            let mut i: usize = 0;
            while i < self.channels.len()
                invariant
                    s < e <= old(self).frames(),
                    old(self).well_formed(),
                    old_view == old(self).view(),
                    self.channels@.len() == old_view.len(),
                    i <= self.channels@.len(),
                    forall|j: int| 0 <= j < i ==> #[trigger] self.channels@[j]@ == reversed_range(old_view[j], s as int, e as int),
                    forall|j: int| i <= j < self.channels@.len() ==> #[trigger] self.channels@[j]@ == old_view[j],
                decreases self.channels@.len() - i,
            {
                assert(old_view[i as int].len() == old_view[0].len());
                let ghost c0 = self.channels@[i as int]@;
                let mut lo: usize = s;
                let mut hi: usize = e;
                let channel = &mut self.channels[i];
                while hi - lo > 1
                    invariant
                        s <= lo,
                        hi <= e,
                        lo <= hi,
                        lo - s == e - hi,
                        e <= c0.len(),
                        channel@.len() == c0.len(),
                        forall|k: int| 0 <= k < channel@.len() ==> #[trigger] channel@[k] == if (s <= k < lo || hi <= k < e) {
                            c0[s + e - 1 - k]
                        } else {
                            c0[k]
                        },
                    decreases hi - lo,
                {
                    let a = channel[lo];
                    let b = channel[hi - 1];
                    channel.set(lo, b);
                    channel.set(hi - 1, a);
                    lo += 1;
                    hi -= 1;
                }
                proof {
                    assert(channel@ =~= reversed_range(c0, s as int, e as int));
                }
                i += 1;
            }
            proof {
                assert(self.view() =~= old_view.map_values(|c: Seq<T>| reversed_range(c, s as int, e as int)));
                assert forall|j: int| 0 <= j < self.view().len() implies #[trigger] self.view()[j].len() == self.view()[0].len() by {
                    assert(old_view[j].len() == old_view[0].len());
                }
            }
        }
    }
}

impl<T> ClipChannels<T> {
    /// Replaces the sample of `channel` at frame `index` (for gain and fades).
    pub fn set_sample(&mut self, channel: usize, index: usize, value: T)
        requires
            old(self).well_formed(),
            channel < old(self).view().len(),
            index < old(self).frames(),
        ensures
            final(self).view() == old(self).view().update(
                channel as int,
                old(self).view()[channel as int].update(index as int, value),
            ),
            final(self).well_formed(),
    {
        assert(self.view()[channel as int] == self.channels@[channel as int]@);
        assert(self.view()[channel as int].len() == self.view()[0].len());
        let ghost old_view = self.view();
        self.channels[channel].set(index, value);
        proof {
            assert(self.view() =~= old_view.update(channel as int, old_view[channel as int].update(index as int, value)));
            assert forall|j: int| 0 <= j < self.view().len() implies #[trigger] self.view()[j].len() == self.view()[0].len() by {
                assert(old_view[j].len() == old_view[0].len());
            }
        }
    }
}

/// The frames played: the selection (its end cut to the clip) when it is not
/// empty, else the whole clip; nothing for an empty clip.
pub open spec fn playback_range(len: nat, selection: Option<(nat, nat)>) -> (nat, nat) {
    if len == 0 {
        (0, 0)
    } else {
        match selection {
            Some((s, e)) => if e > s {
                (s, if e < len { e } else { len })
            } else {
                (0, len)
            },
            None => (0, len),
        }
    }
}

/// Playing a clip with a non-empty selection plays the selection: from its start to
/// its end, or to the clip's end when the selection runs past it.
pub proof fn law_playback_plays_selection(len: nat, s: nat, e: nat)
    requires
        len > 0,
        s < e,
    ensures
        playback_range(len, Some((s, e))) == (s, if e <= len { e } else { len }),
        playback_range(len, Some((s, e))).1 <= len,
{
}

/// Playing a clip without a selection, or with an empty one, plays the whole clip.
pub proof fn law_playback_plays_whole_clip(len: nat, selection: Option<(nat, nat)>)
    requires
        len > 0,
        forall|s: nat, e: nat| selection == Some((s, e)) ==> e <= s,
    ensures
        playback_range(len, selection) == (0nat, len),
{
}

/// The frames played for a clip of `len` frames and the given selection: the
/// selection (its end cut to the clip) when it is not empty, else the whole clip.
/// Playing the selection only and playing the clip choose alike.
pub fn playback_bounds(len: usize, selection: Option<(usize, usize)>, selection_only: bool) -> (r: (usize, usize))
    ensures
        (r.0 as nat, r.1 as nat) == playback_range(
            len as nat,
            match selection {
                Some((s, e)) => Some((s as nat, e as nat)),
                None => None,
            },
        ),
{
    if len == 0 {
        return (0, 0);
    }
    if selection_only {
        if let Some((start, end)) = selection {
            if end > start {
                return (start, if end < len { end } else { len });
            }
        }
        (0, len)
    } else {
        if let Some((start, end)) = selection {
            if end > start {
                return (start, if end < len { end } else { len });
            }
        }
        (0, len)
    }
}

/// The selection kept after the clip changed to `len` frames: dropped when the clip
/// is empty, the selection is empty or starts past the end; otherwise its end is
/// cut to the clip.
pub fn reconciled_selection(len: usize, selection: Option<(usize, usize)>) -> (r: Option<(usize, usize)>)
    ensures
        r == match selection {
            Some((s, e)) => if len == 0 || e <= s || s >= len {
                None
            } else {
                Some((s, if e < len { e } else { len }))
            },
            None => None::<(usize, usize)>,
        },
{
    if len == 0 {
        return None;
    }
    match selection {
        Some((start, end)) => {
            if end <= start || start >= len {
                None
            } else {
                let clamped_end = if end < len { end } else { len };
                let clamped_start = if start < len - 1 { start } else { len - 1 };
                Some((clamped_start, clamped_end))
            }
        },
        None => None,
    }
}

/// The range an edit (reverse, normalize, fade) applies to: the selection, or the
/// whole clip of `len` frames, its end raised to at least one frame past its start.
pub fn edit_span(len: usize, selection: Option<(usize, usize)>) -> (r: (usize, usize))
    requires
        selection matches Some((s, e)) ==> s < usize::MAX,
    ensures
        ({
            let (s, e) = match selection {
                Some(sel) => sel,
                None => (0usize, len),
            };
            r == (s, if e > s + 1 { e } else { (s + 1) as usize })
        }),
{
    let (start, end) = match selection {
        Some(sel) => sel,
        None => (0, len),
    };
    let min_end = start + 1;
    (start, if end > min_end { end } else { min_end })
}

/// The range a trim keeps: the selection when it is not empty; otherwise the
/// message asking the user to select a region.
pub fn trim_selection(selection: Option<(usize, usize)>) -> (r: Result<(usize, usize), String>)
    ensures
        match selection {
            Some((s, e)) if e > s => r == Ok::<(usize, usize), String>((s, e)),
            _ => r matches Err(m) && m@ == "Select a region before trimming"@,
        },
{
    match selection {
        Some((start, end)) => {
            if end > start {
                return Ok((start, end));
            }
        },
        None => {},
    }
    Err(String::from_str("Select a region before trimming"))
}

/// Reversing the same range twice gives back the samples.
pub proof fn law_reverse_twice<T>(s: Seq<T>, start: int, end: int)
    requires
        0 <= start <= end <= s.len(),
    ensures
        reversed_range(reversed_range(s, start, end), start, end) == s,
{
    assert(reversed_range(reversed_range(s, start, end), start, end) =~= s);
}

} // verus!
