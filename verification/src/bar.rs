//! Styling data for the status bar that accompanies the window manager. The
//! widgets themselves are drawn by the display backend; this is the data they
//! are built from.

use vstd::prelude::*;

verus! {

/// Default font of bar text.
pub const DEFAULT_FONT: &'static str = "serif";

pub const DEFAULT_LAYOUT_PADDING_HORZ: u32 = 4;

pub const DEFAULT_LAYOUT_PADDING_VERT: u32 = 4;

pub const DEFAULT_LAYOUT_SPACING: u32 = 4;

pub const DEFAULT_TEXT_PADDING_HORZ: u32 = 5;

pub const DEFAULT_TEXT_PADDING_VERT: u32 = 0;

/// Style of a text widget on the bar.
#[derive(Clone, Copy, Debug, PartialEq, Eq, Structural)]
pub struct TextWidgetStyle {
    pub foreground: u64,
    pub background: u64,
    pub padding_horz: u32,
    pub padding_vert: u32,
}

impl Default for TextWidgetStyle {
    fn default() -> (r: Self)
        ensures
            r == (TextWidgetStyle {
                foreground: 0xffffffu64,
                background: 0u64,
                padding_horz: DEFAULT_TEXT_PADDING_HORZ,
                padding_vert: DEFAULT_TEXT_PADDING_VERT,
            }),
    {
        TextWidgetStyle {
            foreground: 0xffffff,
            background: 0x000000,
            padding_horz: DEFAULT_TEXT_PADDING_HORZ,
            padding_vert: DEFAULT_TEXT_PADDING_VERT,
        }
    }
}

/// Style of a container widget on the bar (workspace switcher, status area).
#[derive(Clone, Copy, Debug, PartialEq, Eq, Structural)]
pub struct ContainerWidgetStyle {
    pub foreground: u64,
    pub inner_background: u64,
    pub outer_background: u64,
    pub padding_horz: u32,
    pub padding_vert: u32,
    pub text_padding_horz: u32,
    pub text_padding_vert: u32,
    pub spacing: u32,
}

impl Default for ContainerWidgetStyle {
    fn default() -> (r: Self)
        ensures
            r == (ContainerWidgetStyle {
                foreground: 0u64,
                inner_background: 0xffffffu64,
                outer_background: 0u64,
                padding_horz: DEFAULT_LAYOUT_PADDING_HORZ,
                padding_vert: DEFAULT_LAYOUT_PADDING_VERT,
                text_padding_horz: DEFAULT_TEXT_PADDING_HORZ,
                text_padding_vert: DEFAULT_TEXT_PADDING_VERT,
                spacing: DEFAULT_LAYOUT_SPACING,
            }),
    {
        ContainerWidgetStyle {
            foreground: 0x000000,
            inner_background: 0xffffff,
            outer_background: 0x000000,
            padding_horz: DEFAULT_LAYOUT_PADDING_HORZ,
            padding_vert: DEFAULT_LAYOUT_PADDING_VERT,
            text_padding_horz: DEFAULT_TEXT_PADDING_HORZ,
            text_padding_vert: DEFAULT_TEXT_PADDING_VERT,
            spacing: DEFAULT_LAYOUT_SPACING,
        }
    }
}

/// Style of the whole bar.
#[derive(Clone, Copy, Debug, PartialEq, Eq, Structural)]
pub struct BarStyle {
    pub background: u64,
    pub workspaces: ContainerWidgetStyle,
    pub title: TextWidgetStyle,
    pub status: ContainerWidgetStyle,
}

impl Default for BarStyle {
    fn default() -> (r: Self)
        ensures
            r.background == 0,
            r.workspaces == (ContainerWidgetStyle {
                foreground: 0u64,
                inner_background: 0xffffffu64,
                outer_background: 0u64,
                padding_horz: DEFAULT_LAYOUT_PADDING_HORZ,
                padding_vert: DEFAULT_LAYOUT_PADDING_VERT,
                text_padding_horz: DEFAULT_TEXT_PADDING_HORZ,
                text_padding_vert: DEFAULT_TEXT_PADDING_VERT,
                spacing: DEFAULT_LAYOUT_SPACING,
            }),
            r.status == r.workspaces,
            r.title == (TextWidgetStyle {
                foreground: 0xffffffu64,
                background: 0u64,
                padding_horz: DEFAULT_TEXT_PADDING_HORZ,
                padding_vert: DEFAULT_TEXT_PADDING_VERT,
            }),
    {
        BarStyle {
            background: 0x000000,
            workspaces: ContainerWidgetStyle::default(),
            title: TextWidgetStyle::default(),
            status: ContainerWidgetStyle::default(),
        }
    }
}

/// The bar's configuration: an optional status callback command plus the
/// style.
#[derive(Clone, Debug)]
pub struct Configuration {
    /// command whose output feeds the status area
    pub callback: Option<String>,
    /// the bar's style
    pub style: BarStyle,
}

impl Default for Configuration {
    fn default() -> (r: Self)
        ensures
            r.callback is None,
            r.style == BarStyle::spec_default(),
    {
        Configuration { callback: None, style: BarStyle::default() }
    }
}

impl BarStyle {
    /// The built-in bar style.
    pub open spec fn spec_default() -> BarStyle {
        BarStyle {
            background: 0u64,
            workspaces: ContainerWidgetStyle {
                foreground: 0u64,
                inner_background: 0xffffffu64,
                outer_background: 0u64,
                padding_horz: DEFAULT_LAYOUT_PADDING_HORZ,
                padding_vert: DEFAULT_LAYOUT_PADDING_VERT,
                text_padding_horz: DEFAULT_TEXT_PADDING_HORZ,
                text_padding_vert: DEFAULT_TEXT_PADDING_VERT,
                spacing: DEFAULT_LAYOUT_SPACING,
            },
            title: TextWidgetStyle {
                foreground: 0xffffffu64,
                background: 0u64,
                padding_horz: DEFAULT_TEXT_PADDING_HORZ,
                padding_vert: DEFAULT_TEXT_PADDING_VERT,
            },
            status: ContainerWidgetStyle {
                foreground: 0u64,
                inner_background: 0xffffffu64,
                outer_background: 0u64,
                padding_horz: DEFAULT_LAYOUT_PADDING_HORZ,
                padding_vert: DEFAULT_LAYOUT_PADDING_VERT,
                text_padding_horz: DEFAULT_TEXT_PADDING_HORZ,
                text_padding_vert: DEFAULT_TEXT_PADDING_VERT,
                spacing: DEFAULT_LAYOUT_SPACING,
            },
        }
    }
}

} // verus!
