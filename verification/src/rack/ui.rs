//! Decisions behind the channel-rack widget: labels, channel reordering, removal
//! of the channels marked for deletion and the lane shown by the step grid.

use vstd::prelude::*;

use crate::rack::state::{default_step, resized_steps, Channel, ChannelId, ChannelKind, PatternId, Step};

verus! {

/// A "::" separator starts at position `i` of `s`.
pub open spec fn separator_at(s: Seq<char>, i: int) -> bool {
    0 <= i && i + 2 <= s.len() && s[i] == ':' && s[i + 1] == ':'
}

/// `i` is where the last "::" separator of `s` starts.
pub open spec fn is_last_separator(s: Seq<char>, i: int) -> bool {
    &&& separator_at(s, i)
    &&& forall|j: int| i < j ==> !separator_at(s, j)
}

/// The short form of a plugin identifier: the part after its last "::", or the
/// whole identifier when it has none.
pub open spec fn short_uid_of(s: Seq<char>) -> Seq<char> {
    if exists|i: int| is_last_separator(s, i) {
        let i = choose|i: int| is_last_separator(s, i);
        s.subrange(i + 2, s.len() as int)
    } else {
        s
    }
}

/// The short form of a plugin identifier: what follows its last "::", or the
/// whole identifier when it has none.
pub fn short_uid(uid: &str) -> (r: String)
    ensures
        r@ == short_uid_of(uid@),
{
    let n = uid.unicode_len();
    if n >= 2 {
        let mut i: usize = n - 1;
        while i > 0
            invariant
                n == uid@.len(),
                n >= 2,
                0 <= i <= n - 1,
                forall|j: int| i <= j ==> !separator_at(uid@, j),
            decreases i,
        {
            let k = i - 1;
            if uid.get_char(k) == ':' && uid.get_char(k + 1) == ':' {
                proof {
                    assert(is_last_separator(uid@, k as int));
                    assert forall|m: int| is_last_separator(uid@, m) implies m == k by {}
                }
                let tail = uid.substring_char(k + 2, n);
                return String::from_str(tail);
            }
            i = k;
        }
    }
    proof {
        assert forall|m: int| !is_last_separator(uid@, m) by {
            if separator_at(uid@, m) {
                assert(false);
            }
        }
    }
    String::from_str(uid)
}

/// The text shown under a channel for the instrument it plays.
pub open spec fn instrument_label_of(ch: Channel) -> Seq<char> {
    match ch.kind {
        ChannelKind::Automation => "Automation"@,
        ChannelKind::Sample => match ch.instrument_name {
            Some(n) => n@,
            None => "No sample loaded"@,
        },
        ChannelKind::Instrument => match ch.instrument_name {
            Some(n) => n@,
            None => match ch.plugin_uid {
                Some(u) => short_uid_of(u@),
                None => "No instrument loaded"@,
            },
        },
    }
}

/// The text shown under a channel for the instrument it plays: the instrument's
/// name, else (for an instrument channel) the short plugin identifier, else a
/// "nothing loaded" note.
pub fn instrument_label(ch: &Channel) -> (r: String)
    ensures
        r@ == instrument_label_of(*ch),
{
    match ch.kind {
        ChannelKind::Automation => String::from_str("Automation"),
        ChannelKind::Sample => match &ch.instrument_name {
            Some(n) => n.clone(),
            None => String::from_str("No sample loaded"),
        },
        ChannelKind::Instrument => match &ch.instrument_name {
            Some(n) => n.clone(),
            None => match &ch.plugin_uid {
                Some(u) => short_uid(u.as_str()),
                None => String::from_str("No instrument loaded"),
            },
        },
    }
}

/// The badge shown for a channel's kind.
pub open spec fn kind_badge_of(ch: Channel) -> Seq<char> {
    match ch.kind {
        ChannelKind::Instrument => match ch.plugin_uid {
            Some(u) => short_uid_of(u@),
            None => "Instrument"@,
        },
        ChannelKind::Sample => "Sample"@,
        ChannelKind::Automation => "Automation"@,
    }
}

/// The badge shown for a channel's kind: the short plugin identifier of an
/// instrument channel that has one, else the kind's name.
pub fn kind_badge(ch: &Channel) -> (r: String)
    ensures
        r@ == kind_badge_of(*ch),
{
    match ch.kind {
        ChannelKind::Instrument => match &ch.plugin_uid {
            Some(u) => short_uid(u.as_str()),
            None => String::from_str("Instrument"),
        },
        ChannelKind::Sample => String::from_str("Sample"),
        ChannelKind::Automation => String::from_str("Automation"),
    }
}

/// Where a channel dragged from position `from` lands when dropped before position
/// `insert_at` (positions counted before it is taken out).
pub open spec fn drop_target(from: int, insert_at: int, len: int) -> int {
    let target = if insert_at < len { insert_at } else { len };
    if target > from { target - 1 } else { target }
}

/// Moves the first channel with identifier `channel_id` so that it lands before the
/// channel that was at position `insert_at` (or last, when `insert_at` is past the
/// end). Returns whether the order changed; without such a channel nothing changes.
pub fn reorder_channel(channels: &mut Vec<Channel>, channel_id: ChannelId, insert_at: usize) -> (moved: bool)
    ensures
        (forall|j: int| 0 <= j < old(channels)@.len() ==> old(channels)@[j].id != channel_id)
            ==> !moved && final(channels)@ == old(channels)@,
        forall|from: int|
            #![trigger crate::rack::state::is_first_index(crate::rack::state::channel_ids(old(channels)@), channel_id, from)]
            crate::rack::state::is_first_index(crate::rack::state::channel_ids(old(channels)@), channel_id, from)
                ==> {
                let target = drop_target(from, insert_at as int, old(channels)@.len() as int);
                &&& moved == (target != from)
                &&& final(channels)@ == old(channels)@.remove(from).insert(target, old(channels)@[from])
            },
        final(channels)@.to_multiset() == old(channels)@.to_multiset(),
{
    let from_idx = match crate::rack::state::find_channel_index(channels, channel_id) {
        Some(i) => i,
        None => {
            return false;
        },
    };
    proof {
        assert(crate::rack::state::channel_ids(old(channels)@)[from_idx as int] == channel_id);
        assert forall|k: int|
            crate::rack::state::is_first_index(crate::rack::state::channel_ids(old(channels)@), channel_id, k)
            implies k == from_idx by {}
    }
    let len = channels.len();
    let mut target = if insert_at < len { insert_at } else { len };
    proof {
        let o = old(channels)@;
        let i = from_idx as int;
        let t = drop_target(i, insert_at as int, len as int);
        vstd::seq_lib::to_multiset_remove(o, i);
        vstd::seq_lib::to_multiset_insert(o.remove(i), t, o[i]);
        broadcast use vstd::multiset::group_multiset_axioms;
        broadcast use vstd::seq_lib::group_to_multiset_ensures;
        assert(o.contains(o[i]));
        assert(o.to_multiset().remove(o[i]).insert(o[i]) =~= o.to_multiset());
    }
    let channel = channels.remove(from_idx);
    if target > from_idx {
        target = target - 1;
    }
    if target != from_idx {
        channels.insert(target, channel);
        true
    } else {
        channels.insert(from_idx, channel);
        false
    }
}

/// Removes the channels whose identifiers are listed in `ids`, keeping the others in order.
pub fn remove_listed_channels(channels: &mut Vec<Channel>, ids: &Vec<ChannelId>)
    ensures
        final(channels)@ == old(channels)@.filter(|c: Channel| !ids@.contains(c.id)),
{
    let ghost keep = |c: Channel| !ids@.contains(c.id);
    let ghost orig = channels@;
    let ghost mut k: int = 0;
    let mut i: usize = 0;
    while i < channels.len()
        invariant
            orig == old(channels)@,
            keep == (|c: Channel| !ids@.contains(c.id)),
            0 <= i <= channels@.len(),
            0 <= k <= orig.len(),
            channels@.take(i as int) == orig.take(k).filter(keep),
            channels@.skip(i as int) == orig.skip(k),
        decreases channels@.len() - i,
    {
        proof {
            assert(channels@.skip(i as int).len() == orig.skip(k).len());
            assert(channels@[i as int] == orig.skip(k)[0]);
            assert(orig.skip(k)[0] == orig[k]);
            assert(orig.take(k + 1).drop_last() == orig.take(k));
            assert(orig.take(k + 1).last() == orig[k]);
            reveal_with_fuel(Seq::filter, 1);
        }
        let id = channels[i].id;
        let mut listed = false;
        let mut m: usize = 0;
        while m < ids.len()
            invariant
                m <= ids@.len(),
                listed == exists|t: int| 0 <= t < m && ids@[t] == id,
            decreases ids@.len() - m,
        {
            if ids[m] == id {
                listed = true;
            }
            m += 1;
        }
        assert(listed == ids@.contains(id));
        if listed {
            let ghost before = channels@;
            channels.remove(i);
            proof {
                assert(channels@.take(i as int) =~= before.take(i as int));
                assert forall|j: int| 0 <= j < channels@.len() - i implies #[trigger] channels@.skip(i as int)[j] == orig.skip(k + 1)[j] by {
                    assert(channels@[i + j] == before[i + j + 1]);
                    assert(before.skip(i as int)[j + 1] == orig.skip(k)[j + 1]);
                }
                assert(channels@.skip(i as int) =~= orig.skip(k + 1));
                assert(!keep(orig[k]));
                assert(orig.take(k + 1).filter(keep) == orig.take(k).filter(keep));
                k = k + 1;
            }
        } else {
            proof {
                assert(channels@.take(i + 1) =~= channels@.take(i as int).push(orig[k]));
                assert forall|j: int| 0 <= j < channels@.len() - (i + 1) implies #[trigger] channels@.skip(i + 1)[j] == orig.skip(k + 1)[j] by {
                    assert(channels@.skip(i as int)[j + 1] == orig.skip(k)[j + 1]);
                }
                assert(channels@.skip(i + 1) =~= orig.skip(k + 1));
                assert(keep(orig[k]));
                assert(orig.take(k + 1).filter(keep) == orig.take(k).filter(keep).push(orig[k]));
                k = k + 1;
            }
            i += 1;
        }
    }
    proof {
        assert(channels@.take(i as int) == channels@);
        assert(orig.skip(k).len() == 0);
        assert(orig.take(k) == orig);
    }
}

/// Number of steps the step grid shows for a channel: its steps per bar, at least one.
pub open spec fn grid_steps(ch: Channel) -> nat {
    if ch.steps_per_bar > 1 { ch.steps_per_bar as nat } else { 1 }
}

/// The lane of pattern `pat` the step grid edits: the stored lane, or default
/// steps when missing, brought to `grid_steps` steps. What the caller writes
/// through the reference is what the channel then stores for `pat`.
pub fn step_grid_lane(ch: &mut Channel, pat: PatternId) -> (lane: &mut Vec<Step>)
    ensures
        lane@ == resized_steps(
            if old(ch).steps@.contains_key(pat) {
                old(ch).steps@[pat]@
            } else {
                Seq::new(grid_steps(*old(ch)), |k: int| default_step())
            },
            grid_steps(*old(ch)),
        ),
        *final(ch) == (Channel { steps: final(ch).steps, ..*old(ch) }),
        final(ch).steps@ == old(ch).steps@.insert(pat, *final(lane)),
{
    let steps_per_bar: usize = if ch.steps_per_bar > 1 { ch.steps_per_bar as usize } else { 1 };
    let steps = ch.steps.entry(pat).or_insert(vec![Step::default(); steps_per_bar]);
    if steps.len() != steps_per_bar {
        steps.resize(steps_per_bar, Step::default());
    }
    steps
}

} // verus!
