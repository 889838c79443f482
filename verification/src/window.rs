//! Read-only window descriptors: the sizes the windowing layer reports to
//! game logic, and the resize events it emits.

use vstd::prelude::*;

verus! {

/// Specifies the mode in which the game window is created.
#[derive(Clone, Copy, Debug, PartialEq, Eq, Structural)]
pub enum PrimWindowMode {
    /// The game opens in a window of the specified or default size.
    Window,
    /// The game opens as a full screen application.
    Fullscreen,
}

impl Default for PrimWindowMode {
    /// Windowed mode unless asked otherwise.
    fn default() -> (r: Self)
        ensures
            r == PrimWindowMode::Window,
    {
        PrimWindowMode::Window
    }
}

/// The main window descriptor.
///
/// Read-only for users of the library, to get information about the window.
#[derive(Clone, Copy, Debug)]
pub struct PrimWindow {
    width: u32,
    height: u32,
}

impl PrimWindow {
    /// The width the window currently reports.
    pub closed spec fn spec_width(&self) -> u32 {
        self.width
    }

    /// The height the window currently reports.
    pub closed spec fn spec_height(&self) -> u32 {
        self.height
    }

    /// Creates the window descriptor from the surface size.
    pub fn new(width: u32, height: u32) -> (r: PrimWindow)
        ensures
            r.spec_width() == width,
            r.spec_height() == height,
    {
        PrimWindow { width, height }
    }

    /// Call in the update loop when the surface size has changed.
    pub fn update(&mut self, width: u32, height: u32)
        ensures
            final(self).spec_width() == width,
            final(self).spec_height() == height,
    {
        self.width = width;
        self.height = height;
    }

    /// The current width of the window.
    pub fn width(&self) -> (r: u32)
        ensures
            r == self.spec_width(),
    {
        self.width
    }

    /// The current height of the window.
    pub fn height(&self) -> (r: u32)
        ensures
            r == self.spec_height(),
    {
        self.height
    }
}

/// An event written when the window is resized.
#[derive(Clone, Copy, Debug)]
pub struct PrimWindowResized {
    new_size: (u32, u32),
}

impl PrimWindowResized {
    /// The size the event reports, as a (width, height) pair.
    pub closed spec fn spec_new_size(&self) -> (u32, u32) {
        self.new_size
    }

    /// Creates a new resized event from the specified width and height.
    pub fn from_size(width: u32, height: u32) -> (r: PrimWindowResized)
        ensures
            r.spec_new_size() == (width, height),
    {
        PrimWindowResized { new_size: (width, height) }
    }

    /// Gets the new window size as a tuple of (width, height).
    pub fn new_size(&self) -> (r: (u32, u32))
        ensures
            r == self.spec_new_size(),
    {
        self.new_size
    }

    /// Gets the new window width.
    pub fn width(&self) -> (r: u32)
        ensures
            r == self.spec_new_size().0,
    {
        self.new_size.0
    }

    /// Gets the new window height.
    pub fn height(&self) -> (r: u32)
        ensures
            r == self.spec_new_size().1,
    {
        self.new_size.1
    }
}

} // verus!
