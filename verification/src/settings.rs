//! Style settings the renderer reads when drawing the playground.

use vstd::prelude::*;

use crate::color_rgba::ColorRGBA;

verus! {

/// The color palette of the playground.
#[derive(Debug, Clone, Eq, PartialEq, Ord, PartialOrd, Hash, Default)]
pub struct Theme {
    pub color_dark: ColorRGBA,
    pub color_normal: ColorRGBA,
    pub color_light: ColorRGBA,
    pub color_error_dark: ColorRGBA,
    pub color_error_normal: ColorRGBA,
    pub color_error_light: ColorRGBA,
}

/// The palette `Theme::new` returns: grays, and reddened grays for errors.
pub open spec fn default_theme() -> Theme {
    Theme {
        color_dark: ColorRGBA { r: 84, g: 84, b: 84, a: 255 },
        color_normal: ColorRGBA { r: 125, g: 125, b: 125, a: 255 },
        color_light: ColorRGBA { r: 156, g: 156, b: 156, a: 255 },
        color_error_dark: ColorRGBA { r: 255, g: 84, b: 84, a: 255 },
        color_error_normal: ColorRGBA { r: 255, g: 125, b: 125, a: 255 },
        color_error_light: ColorRGBA { r: 255, g: 156, b: 156, a: 255 },
    }
}

impl Theme {
    /// The standard palette.
    pub fn new() -> (t: Theme)
        ensures
            t == default_theme(),
    {
        Theme {
            color_dark: ColorRGBA::opaque(84, 84, 84),
            color_normal: ColorRGBA::opaque(125, 125, 125),
            color_light: ColorRGBA::opaque(156, 156, 156),
            color_error_dark: ColorRGBA::opaque(255, 84, 84),
            color_error_normal: ColorRGBA::opaque(255, 125, 125),
            color_error_light: ColorRGBA::opaque(255, 156, 156),
        }
    }
}

/// Pixel measurements and the palette for drawing the playground grid.
#[derive(Debug, Clone, Eq, PartialEq, Ord, PartialOrd, Hash, Default)]
pub struct PlaygroundStyleSettings {
    pub gap: usize,
    pub border_radius: usize,
    pub cell_size: usize,
    pub font_size: usize,
    pub word_border_dist_from_cell_wall: usize,
    pub word_border_width: usize,
    pub word_border_radius: usize,
    pub between_word_width: usize,
    pub between_word_radius: usize,
    pub theme: Theme,
}

/// The measurements `PlaygroundStyleSettings::new` returns.
pub open spec fn default_playground_style() -> PlaygroundStyleSettings {
    PlaygroundStyleSettings {
        gap: 20,
        border_radius: 20,
        cell_size: 200,
        font_size: 80,
        word_border_dist_from_cell_wall: 20,
        word_border_width: 8,
        word_border_radius: 40,
        between_word_width: 8,
        between_word_radius: 20,
        theme: default_theme(),
    }
}

impl PlaygroundStyleSettings {
    /// The standard playground measurements.
    pub fn new() -> (s: PlaygroundStyleSettings)
        ensures
            s == default_playground_style(),
    {
        PlaygroundStyleSettings {
            gap: 20,
            border_radius: 20,
            cell_size: 200,
            font_size: 80,
            word_border_dist_from_cell_wall: 20,
            word_border_width: 8,
            word_border_radius: 40,
            between_word_width: 8,
            between_word_radius: 20,
            theme: Theme::new(),
        }
    }
}

/// The palette for drawing a word in the side bar.
#[derive(Debug, Clone, Eq, PartialEq, Ord, PartialOrd, Hash, Default)]
pub struct WordStyleSettings {
    pub theme: Theme,
}

impl WordStyleSettings {
    /// The standard side-bar word style.
    pub fn new() -> (s: WordStyleSettings)
        ensures
            s == (WordStyleSettings { theme: default_theme() }),
    {
        WordStyleSettings { theme: Theme::new() }
    }
}

/// All style settings of the application.
#[derive(Debug, Clone, Eq, PartialEq, Ord, PartialOrd, Hash, Default)]
pub struct StyleSettings {
    pub word_style_settings: WordStyleSettings,
    pub playground_style_settings: PlaygroundStyleSettings,
}

impl StyleSettings {
    /// The standard style settings.
    pub fn new() -> (s: StyleSettings)
        ensures
            s == (StyleSettings {
                word_style_settings: WordStyleSettings { theme: default_theme() },
                playground_style_settings: default_playground_style(),
            }),
    {
        StyleSettings {
            word_style_settings: WordStyleSettings::new(),
            playground_style_settings: PlaygroundStyleSettings::new(),
        }
    }
}

} // verus!
