//! State of the user interface that does not depend on how it is drawn.

use vstd::prelude::*;

verus! {

/// Config options for what to show inside the menu
#[derive(Debug, Clone, Copy, PartialEq, Eq, Structural)]
pub struct MenuConfig {
    /// Show export option
    pub export: bool,
}

/// The settings of a video export.
#[derive(Debug, Clone, Copy, PartialEq, Eq)]
pub struct ExportSettings {
    /// Resolution to render at
    resolution: (u32, u32),
    /// Frames per second to render at
    fps: u32,
    /// Whether the export settings dialog is shown
    show: bool,
}

impl Default for ExportSettings {
    fn default() -> (r: Self)
        ensures
            r.spec_resolution() == (1920u32, 1080u32),
            r.spec_fps() == 30,
            !r.spec_shown(),
    {
        ExportSettings { resolution: (1920, 1080), fps: 30, show: false }
    }
}

impl ExportSettings {
    /// The selected resolution.
    pub closed spec fn spec_resolution(&self) -> (u32, u32) {
        self.resolution
    }

    /// The selected frames per second.
    pub closed spec fn spec_fps(&self) -> u32 {
        self.fps
    }

    /// Whether the dialog is shown.
    pub closed spec fn spec_shown(&self) -> bool {
        self.show
    }

    /// Shows these settings, reset to the defaults
    pub fn show(&mut self)
        ensures
            final(self).spec_resolution() == (1920u32, 1080u32),
            final(self).spec_fps() == 30,
            final(self).spec_shown(),
    {
        *self = ExportSettings { resolution: (1920, 1080), fps: 30, show: true };
    }

    /// Whether the dialog is shown
    pub fn is_shown(&self) -> (r: bool)
        ensures
            r == self.spec_shown(),
    {
        self.show
    }

    /// Selects the resolution and frame rate, as the user entered them.
    pub fn set(&mut self, resolution: (u32, u32), fps: u32)
        ensures
            final(self).spec_resolution() == resolution,
            final(self).spec_fps() == fps,
            final(self).spec_shown() == old(self).spec_shown(),
    {
        self.resolution = resolution;
        self.fps = fps;
    }

    /// Closes the dialog when the user confirmed it; returns whether the
    /// dialog was shown and confirmed.
    pub fn confirm(&mut self, ok_clicked: bool) -> (r: bool)
        ensures
            r == ok_clicked,
            final(self).spec_shown() == (old(self).spec_shown() && !ok_clicked),
            final(self).spec_resolution() == old(self).spec_resolution(),
            final(self).spec_fps() == old(self).spec_fps(),
    {
        if ok_clicked && self.show {
            self.show = false;
        }
        ok_clicked
    }

    /// Gets the currently selected resolution.
    pub fn resolution(&self) -> (r: (u32, u32))
        ensures
            r == self.spec_resolution(),
    {
        self.resolution
    }

    /// Gets the currently selected frames per second.
    pub fn fps(&self) -> (r: u32)
        ensures
            r == self.spec_fps(),
    {
        self.fps
    }
}

/// An empty canvas, which draws nothing.
#[derive(Debug, Clone, Copy, PartialEq, Eq, Structural)]
pub struct EmptyCanvas {}

impl EmptyCanvas {
    /// Creates an empty canvas.
    pub fn new() -> (r: Self)
        ensures
            r == (EmptyCanvas {}),
    {
        EmptyCanvas {}
    }
}

/// Horizontal alignment of text
#[derive(Debug, Clone, Copy, PartialEq, Eq, Structural)]
pub enum HAlignment {
    Left,
    Center,
    Right,
}

/// Vertical alignment of text
#[derive(Debug, Clone, Copy, PartialEq, Eq, Structural)]
pub enum VAlignment {
    Top,
    Center,
    Bottom,
}

/// Alignment of text in both directions
#[derive(Debug, Clone, Copy, PartialEq, Eq, Structural)]
pub struct Alignment(pub HAlignment, pub VAlignment);

impl Default for Alignment {
    fn default() -> (r: Self)
        ensures
            r == Alignment(HAlignment::Center, VAlignment::Center),
    {
        Alignment(HAlignment::Center, VAlignment::Center)
    }
}

} // verus!
