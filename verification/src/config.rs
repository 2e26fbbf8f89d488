//! The window manager's configuration surface: data supplied into the
//! workspace and binding constructors, and the initial-placement policy.

use vstd::prelude::*;
use vstd::string::StringExecFns;
use crate::geometry::Dimensions;
use crate::geometry::clamp_i32;
use crate::layout::LayoutType;
use crate::layout::StackMode;
use crate::layout::StackPosition;

verus! {

/// Where a newly managed window is placed initially.
#[derive(Clone, Copy, Debug, PartialEq, Eq, Structural)]
pub enum WindowPlacement {
    Centered,
    Pointer,
    Wherever,
}

/// The position `calc` computes: clamped into the work area for the pointer
/// policy, centred for the centred policy, and the requested position as-is
/// otherwise. Coordinates saturate at the `i32` range instead of wrapping.
pub open spec fn spec_placement(
    p: WindowPlacement,
    client: Dimensions,
    area: Dimensions,
    pointer: (i32, i32),
) -> (int, int) {
    match p {
        WindowPlacement::Pointer => {
            let x0 = pointer.0 - client.w as int / 2;
            let y0 = pointer.1 - client.h as int / 2;
            let x1 = if x0 < area.x {
                area.x as int
            } else {
                x0
            };
            let y1 = if y0 < area.y {
                area.y as int
            } else {
                y0
            };
            let xmax = area.x + area.w - client.w;
            let ymax = area.y + area.h - client.h;
            (
                clamp_i32(
                    if x1 > xmax {
                        xmax
                    } else {
                        x1
                    },
                ),
                clamp_i32(
                    if y1 > ymax {
                        ymax
                    } else {
                        y1
                    },
                ),
            )
        },
        WindowPlacement::Centered => (
            clamp_i32(area.x + area.w as int / 2 - client.w as int / 2),
            clamp_i32(area.y + area.h as int / 2 - client.h as int / 2),
        ),
        WindowPlacement::Wherever => (client.x as int, client.y as int),
    }
}

impl WindowPlacement {
    /// The initial position for a client of the given dimensions: near the
    /// pointer but kept inside the work area, centred in it, or wherever the
    /// client asked to be.
    pub fn calc(&self, client_dimensions: Dimensions, window_area: Dimensions, pointer: (
        i32,
        i32,
    )) -> (r: (i32, i32))
        ensures
            r.0 == spec_placement(*self, client_dimensions, window_area, pointer).0,
            r.1 == spec_placement(*self, client_dimensions, window_area, pointer).1,
    {
        match self {
            WindowPlacement::Pointer => {
                let x0: i64 = pointer.0 as i64 - (client_dimensions.w / 2) as i64;
                let y0: i64 = pointer.1 as i64 - (client_dimensions.h / 2) as i64;
                let x1: i64 = if x0 < window_area.x as i64 {
                    window_area.x as i64
                } else {
                    x0
                };
                let y1: i64 = if y0 < window_area.y as i64 {
                    window_area.y as i64
                } else {
                    y0
                };
                let xmax: i64 = window_area.x as i64 + window_area.w as i64
                    - client_dimensions.w as i64;
                let ymax: i64 = window_area.y as i64 + window_area.h as i64
                    - client_dimensions.h as i64;
                let x2: i64 = if x1 > xmax {
                    xmax
                } else {
                    x1
                };
                let y2: i64 = if y1 > ymax {
                    ymax
                } else {
                    y1
                };
                (saturate_to_i32(x2), saturate_to_i32(y2))
            },
            WindowPlacement::Centered => {
                let x: i64 = window_area.x as i64 + (window_area.w / 2) as i64 - (
                client_dimensions.w / 2) as i64;
                let y: i64 = window_area.y as i64 + (window_area.h / 2) as i64 - (
                client_dimensions.h / 2) as i64;
                (saturate_to_i32(x), saturate_to_i32(y))
            },
            WindowPlacement::Wherever => client_dimensions.pos(),
        }
    }
}

/// Saturating conversion into the `i32` range.
fn saturate_to_i32(v: i64) -> (r: i32)
    ensures
        r == clamp_i32(v as int),
{
    if v > i32::MAX as i64 {
        i32::MAX
    } else if v < i32::MIN as i64 {
        i32::MIN
    } else {
        v as i32
    }
}

impl Default for WindowPlacement {
    fn default() -> (r: Self)
        ensures
            r == WindowPlacement::Centered,
    {
        WindowPlacement::Centered
    }
}

/// Layout defaults applied to every fresh workspace.
#[derive(Clone, Copy, Debug, PartialEq, Eq, Structural)]
pub struct LayoutConfiguration {
    /// default layout for each workspace
    pub default: LayoutType,
    /// width of the gap between windows in a tiled layout
    pub gap_width: u32,
    /// share of the work area given to the main region, in thousandths
    pub main_ratio: u32,
    /// number of windows in the main area
    pub nmain: u32,
    /// position of the stack relative to the main windows (dynamic layout)
    pub stack_position: StackPosition,
    /// mode of laying out the windows in the stack area (dynamic layout)
    pub stack_mode: StackMode,
}

impl Default for LayoutConfiguration {
    fn default() -> (r: Self)
        ensures
            r == (LayoutConfiguration {
                default: LayoutType::Dynamic,
                gap_width: 5,
                main_ratio: 550,
                nmain: 1,
                stack_position: StackPosition::Right,
                stack_mode: StackMode::Split,
            }),
    {
        LayoutConfiguration {
            default: LayoutType::Dynamic,
            gap_width: 5,
            main_ratio: 550,
            nmain: 1,
            stack_position: StackPosition::Right,
            stack_mode: StackMode::Split,
        }
    }
}

/// Decoration dimensions for clients that ask for no decoration.
#[derive(Clone, Copy, Debug, PartialEq)]
pub struct NoDecorThemingConfiguration {
    /// width of the frame that client windows are reparented to
    pub frame_width: (u32, u32, u32, u32),
    /// width of the border around the inner window
    pub inner_border_width: u32,
    /// width of the border around the frame
    pub outer_border_width: u32,
}

impl Default for NoDecorThemingConfiguration {
    fn default() -> (r: Self)
        ensures
            r == (NoDecorThemingConfiguration {
                frame_width: (0u32, 0u32, 0u32, 0u32),
                inner_border_width: 0u32,
                outer_border_width: 0u32,
            }),
    {
        NoDecorThemingConfiguration {
            frame_width: (0, 0, 0, 0),
            inner_border_width: 0,
            outer_border_width: 0,
        }
    }
}

/// Theming configuration for client decorations.
#[derive(Debug)]
pub struct ThemingConfiguration {
    /// color for active window frame
    pub active_color: u64,
    /// color for passive window frame
    pub inactive_color: u64,
    /// color of inner and outer border
    pub border_color: u64,
    /// use inverted version of active/inactive color for border
    pub invert_border_color: bool,
    /// width of the frame that client windows are reparented to
    pub frame_width: (u32, u32, u32, u32),
    /// width of the border around the inner window
    pub inner_border_width: u32,
    /// width of the border around the frame
    pub outer_border_width: u32,
    /// decoration dimensions for clients that want no decoration
    pub no_decoration: NoDecorThemingConfiguration,
    /// show title string at the top of the frame
    pub show_title: bool,
    /// vertical padding of title
    pub title_vpadding: u32,
    /// horizontal padding of title
    pub title_hpadding: u32,
    /// font to use for title
    pub font: String,
}

impl Default for ThemingConfiguration {
    fn default() -> (r: Self)
        ensures
            r.active_color == 0x30d6ff,
            r.inactive_color == 0x141414,
            r.border_color == 0x141414,
            !r.invert_border_color,
            r.frame_width == (10u32, 1u32, 1u32, 1u32),
            r.inner_border_width == 0,
            r.outer_border_width == 0,
            r.no_decoration == (NoDecorThemingConfiguration {
                frame_width: (0u32, 0u32, 0u32, 0u32),
                inner_border_width: 0u32,
                outer_border_width: 0u32,
            }),
            !r.show_title,
            r.title_vpadding == 0,
            r.title_hpadding == 5,
            r.font@ == "sans"@,
    {
        ThemingConfiguration {
            active_color: 0x30d6ff,
            inactive_color: 0x141414,
            border_color: 0x141414,
            invert_border_color: false,
            frame_width: (10, 1, 1, 1),
            inner_border_width: 0,
            outer_border_width: 0,
            no_decoration: NoDecorThemingConfiguration::default(),
            show_title: false,
            title_vpadding: 0,
            title_hpadding: 5,
            font: String::from_str("sans"),
        }
    }
}

/// The whole configuration surface. The startup command is looked up on disk
/// by the process entry point and filled in there; the built-in default
/// carries none.
#[derive(Debug)]
pub struct Configuration {
    /// number of workspaces for the primary monitor
    pub primary_workspaces: u32,
    /// number of workspaces for secondary monitors
    pub secondary_workspaces: u32,
    /// script, executable or command to be executed on startup
    pub on_startup: Option<String>,
    /// where windows are placed initially
    pub initial_placement: WindowPlacement,
    /// layout configuration
    pub layout: LayoutConfiguration,
    /// theming configuration
    pub theming: ThemingConfiguration,
}

impl Default for Configuration {
    fn default() -> (r: Self)
        ensures
            r.primary_workspaces == 9,
            r.secondary_workspaces == 9,
            r.on_startup is None,
            r.initial_placement == WindowPlacement::Centered,
            r.layout == (LayoutConfiguration {
                default: LayoutType::Dynamic,
                gap_width: 5,
                main_ratio: 550,
                nmain: 1,
                stack_position: StackPosition::Right,
                stack_mode: StackMode::Split,
            }),
            r.theming.active_color == 0x30d6ff,
            r.theming.inactive_color == 0x141414,
            r.theming.font@ == "sans"@,
    {
        Configuration {
            primary_workspaces: 9,
            secondary_workspaces: 9,
            on_startup: None,
            initial_placement: WindowPlacement::default(),
            layout: LayoutConfiguration::default(),
            theming: ThemingConfiguration::default(),
        }
    }
}

} // verus!
