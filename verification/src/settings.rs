use vstd::prelude::*;

use crate::pipeline::Pipeline;

verus! {

/// The colour scheme of the window.
#[derive(Debug, Clone, Copy, PartialEq, Eq, Structural)]
pub enum Theme {
    System,
    Light,
    Dark,
}

/// The theme at a position of the theme menu: Light at 1, Dark at 2, System
/// anywhere else.
pub open spec fn theme_at(index: u32) -> Theme {
    if index == 1 {
        Theme::Light
    } else if index == 2 {
        Theme::Dark
    } else {
        Theme::System
    }
}

/// The position of a theme in the theme menu.
pub open spec fn theme_index(t: Theme) -> u32 {
    match t {
        Theme::System => 0,
        Theme::Light => 1,
        Theme::Dark => 2,
    }
}

impl Theme {
    /// The theme chosen at a position of the theme menu.
    pub fn from_index(index: u32) -> (r: Theme)
        ensures
            r == theme_at(index),
    {
        match index {
            1 => Theme::Light,
            2 => Theme::Dark,
            _ => Theme::System,
        }
    }

    /// The position of the theme in the theme menu.
    pub fn index(self) -> (r: u32)
        ensures
            r == theme_index(self),
    {
        match self {
            Theme::System => 0,
            Theme::Light => 1,
            Theme::Dark => 2,
        }
    }
}

/// Choosing a theme from the menu and reading its position back gives the
/// same theme.
pub proof fn theme_index_round_trip(t: Theme)
    ensures
        theme_at(theme_index(t)) == t,
{
}

/// Every position names a theme whose position is that one, or the System
/// theme at position 0 for positions past the menu.
pub proof fn theme_positions(index: u32)
    ensures
        index <= 2 ==> theme_index(theme_at(index)) == index,
        index > 2 ==> theme_at(index) == Theme::System && theme_index(theme_at(index)) == 0,
{
}

/// The user's settings.
#[derive(Debug, Clone)]
pub struct Settings {
    pub output_dir: String,
    pub process_copies: bool,
    pub prefer_hardware: bool,
    pub preserve_metadata: bool,
    pub theme: Theme,
    pub last_pipeline: Pipeline,
}

impl Settings {
    /// The default settings, writing to `output_dir`: copies on, hardware and
    /// metadata kept, the system theme, and an empty last pipeline.
    pub fn with_output_dir(output_dir: String) -> (r: Settings)
        ensures
            r.output_dir@ == output_dir@,
            r.process_copies,
            r.prefer_hardware,
            r.preserve_metadata,
            r.theme == Theme::System,
            r.last_pipeline@.name.len() == 0,
            r.last_pipeline@.steps.len() == 0,
    {
        Settings {
            output_dir,
            process_copies: true,
            prefer_hardware: true,
            preserve_metadata: true,
            theme: Theme::System,
            last_pipeline: Pipeline::empty(),
        }
    }
}

} // verus!
