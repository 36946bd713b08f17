//! Mixer skins: colour overrides, read from a skin file, that recolour the mixer
//! part of the palette.

use vstd::prelude::*;

use crate::color::{hex_color_of, hex_color_splits_char, parse_hex_color, Rgba8};

verus! {

/// A colour given in a skin file.
#[derive(Debug, Clone, Copy, PartialEq, Eq, Structural)]
pub struct HexColor(pub Rgba8);

impl HexColor {
    /// Reads a colour as skin files write it (see `parse_hex_color`).
    pub fn parse(input: &str) -> (r: Result<HexColor, String>)
        requires
            !hex_color_splits_char(input@),
        ensures
            match hex_color_of(input@) {
                Ok(c) => r == Ok::<HexColor, String>(HexColor(c)),
                Err(m) => r matches Err(e) && e@ == m,
            },
    {
        match parse_hex_color(input) {
            Ok(c) => Ok(HexColor(c)),
            Err(e) => Err(e),
        }
    }
}

/// The colours of the palette that a mixer skin can override.
#[derive(Debug, Clone, Copy, PartialEq, Eq, Structural)]
pub struct MixerPalette {
    pub mixer_strip_bg: Rgba8,
    pub mixer_strip_selected: Rgba8,
    pub mixer_strip_solo: Rgba8,
    pub mixer_strip_muted: Rgba8,
    pub mixer_strip_border: Rgba8,
    pub mixer_strip_header: Rgba8,
    pub mixer_strip_header_selected: Rgba8,
    pub mixer_slot_bg: Rgba8,
    pub mixer_slot_active: Rgba8,
    pub mixer_slot_border: Rgba8,
    pub mixer_toggle_active: Rgba8,
    pub mixer_toggle_inactive: Rgba8,
    pub mixer_toggle_text: Rgba8,
    pub text_primary: Rgba8,
    pub text_muted: Rgba8,
    pub accent: Rgba8,
    pub accent_alt: Rgba8,
}

/// The colour `current`, or the override when there is one.
pub open spec fn overridden(over: Option<HexColor>, current: Rgba8) -> Rgba8 {
    match over {
        Some(HexColor(c)) => c,
        None => current,
    }
}

fn overridden_color(over: Option<HexColor>, current: Rgba8) -> (c: Rgba8)
    ensures
        c == overridden(over, current),
{
    match over {
        Some(color) => color.0,
        None => current,
    }
}

/// Optional overrides of the mixer colours.
#[derive(Debug, Clone, Copy, Default)]
pub struct MixerSkinColors {
    pub strip_bg: Option<HexColor>,
    pub strip_selected: Option<HexColor>,
    pub strip_solo: Option<HexColor>,
    pub strip_muted: Option<HexColor>,
    pub strip_border: Option<HexColor>,
    pub strip_header: Option<HexColor>,
    pub strip_header_selected: Option<HexColor>,
    pub slot_bg: Option<HexColor>,
    pub slot_active: Option<HexColor>,
    pub slot_border: Option<HexColor>,
    pub toggle_active: Option<HexColor>,
    pub toggle_inactive: Option<HexColor>,
    pub toggle_text: Option<HexColor>,
    pub text_primary: Option<HexColor>,
    pub text_muted: Option<HexColor>,
    pub accent: Option<HexColor>,
    pub accent_alt: Option<HexColor>,
}

/// `palette` after applying the overrides of `colors`.
pub open spec fn skinned(colors: MixerSkinColors, palette: MixerPalette) -> MixerPalette {
    MixerPalette {
        mixer_strip_bg: overridden(colors.strip_bg, palette.mixer_strip_bg),
        mixer_strip_selected: overridden(colors.strip_selected, palette.mixer_strip_selected),
        mixer_strip_solo: overridden(colors.strip_solo, palette.mixer_strip_solo),
        mixer_strip_muted: overridden(colors.strip_muted, palette.mixer_strip_muted),
        mixer_strip_border: overridden(colors.strip_border, palette.mixer_strip_border),
        mixer_strip_header: overridden(colors.strip_header, palette.mixer_strip_header),
        mixer_strip_header_selected: overridden(colors.strip_header_selected, palette.mixer_strip_header_selected),
        mixer_slot_bg: overridden(colors.slot_bg, palette.mixer_slot_bg),
        mixer_slot_active: overridden(colors.slot_active, palette.mixer_slot_active),
        mixer_slot_border: overridden(colors.slot_border, palette.mixer_slot_border),
        mixer_toggle_active: overridden(colors.toggle_active, palette.mixer_toggle_active),
        mixer_toggle_inactive: overridden(colors.toggle_inactive, palette.mixer_toggle_inactive),
        mixer_toggle_text: overridden(colors.toggle_text, palette.mixer_toggle_text),
        text_primary: overridden(colors.text_primary, palette.text_primary),
        text_muted: overridden(colors.text_muted, palette.text_muted),
        accent: overridden(colors.accent, palette.accent),
        accent_alt: overridden(colors.accent_alt, palette.accent_alt),
    }
}

/// `colors` overrides nothing.
pub open spec fn overrides_nothing(colors: MixerSkinColors) -> bool {
    colors.strip_bg is None
        && colors.strip_selected is None
        && colors.strip_solo is None
        && colors.strip_muted is None
        && colors.strip_border is None
        && colors.strip_header is None
        && colors.strip_header_selected is None
        && colors.slot_bg is None
        && colors.slot_active is None
        && colors.slot_border is None
        && colors.toggle_active is None
        && colors.toggle_inactive is None
        && colors.toggle_text is None
        && colors.text_primary is None
        && colors.text_muted is None
        && colors.accent is None
        && colors.accent_alt is None
}

impl MixerSkinColors {
    /// Replaces each palette colour that has an override.
    pub fn apply(&self, palette: &mut MixerPalette)
        ensures
            *final(palette) == skinned(*self, *old(palette)),
    {
        palette.mixer_strip_bg = overridden_color(self.strip_bg, palette.mixer_strip_bg);
        palette.mixer_strip_selected = overridden_color(self.strip_selected, palette.mixer_strip_selected);
        palette.mixer_strip_solo = overridden_color(self.strip_solo, palette.mixer_strip_solo);
        palette.mixer_strip_muted = overridden_color(self.strip_muted, palette.mixer_strip_muted);
        palette.mixer_strip_border = overridden_color(self.strip_border, palette.mixer_strip_border);
        palette.mixer_strip_header = overridden_color(self.strip_header, palette.mixer_strip_header);
        palette.mixer_strip_header_selected = overridden_color(self.strip_header_selected, palette.mixer_strip_header_selected);
        palette.mixer_slot_bg = overridden_color(self.slot_bg, palette.mixer_slot_bg);
        palette.mixer_slot_active = overridden_color(self.slot_active, palette.mixer_slot_active);
        palette.mixer_slot_border = overridden_color(self.slot_border, palette.mixer_slot_border);
        palette.mixer_toggle_active = overridden_color(self.toggle_active, palette.mixer_toggle_active);
        palette.mixer_toggle_inactive = overridden_color(self.toggle_inactive, palette.mixer_toggle_inactive);
        palette.mixer_toggle_text = overridden_color(self.toggle_text, palette.mixer_toggle_text);
        palette.text_primary = overridden_color(self.text_primary, palette.text_primary);
        palette.text_muted = overridden_color(self.text_muted, palette.text_muted);
        palette.accent = overridden_color(self.accent, palette.accent);
        palette.accent_alt = overridden_color(self.accent_alt, palette.accent_alt);
    }

    /// Whether no colour is overridden.
    pub fn is_empty(&self) -> (r: bool)
        ensures
            r == overrides_nothing(*self),
    {
        self.strip_bg.is_none()
            && self.strip_selected.is_none()
            && self.strip_solo.is_none()
            && self.strip_muted.is_none()
            && self.strip_border.is_none()
            && self.strip_header.is_none()
            && self.strip_header_selected.is_none()
            && self.slot_bg.is_none()
            && self.slot_active.is_none()
            && self.slot_border.is_none()
            && self.toggle_active.is_none()
            && self.toggle_inactive.is_none()
            && self.toggle_text.is_none()
            && self.text_primary.is_none()
            && self.text_muted.is_none()
            && self.accent.is_none()
            && self.accent_alt.is_none()
    }
}

/// A mixer skin: the colour overrides it makes.
#[derive(Debug, Clone, Copy, Default)]
pub struct MixerSkin {
    pub colors: MixerSkinColors,
}

impl MixerSkin {
    /// Recolours `palette` with the skin's overrides.
    pub fn apply(&self, palette: &mut MixerPalette)
        ensures
            *final(palette) == skinned(self.colors, *old(palette)),
    {
        self.colors.apply(palette);
    }

    /// Whether the skin overrides no colour.
    pub fn is_empty(&self) -> (r: bool)
        ensures
            r == overrides_nothing(self.colors),
    {
        self.colors.is_empty()
    }
}

/// Applying a skin twice recolours the palette as applying it once does.
pub proof fn law_apply_idempotent(colors: MixerSkinColors, palette: MixerPalette)
    ensures
        skinned(colors, skinned(colors, palette)) == skinned(colors, palette),
{
}

/// A skin that overrides nothing leaves the palette as it is.
pub proof fn law_empty_skin_changes_nothing(colors: MixerSkinColors, palette: MixerPalette)
    requires
        overrides_nothing(colors),
    ensures
        skinned(colors, palette) == palette,
{
}

} // verus!
