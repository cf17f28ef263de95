//! The presentation surface's size and what the frame loop does on resize
//! events and on surface errors.
use vstd::prelude::*;

verus! {

/// Width and height, in pixels, that the surface is configured with.
#[derive(Clone, Copy, Debug, PartialEq, Eq, Structural)]
pub struct SurfaceSize {
    pub width: u32,
    pub height: u32,
}

impl SurfaceSize {
    pub fn new(width: u32, height: u32) -> (s: SurfaceSize)
        ensures
            s.width == width,
            s.height == height,
    {
        SurfaceSize { width, height }
    }

    /// Applies a resize event. A zero width or height (a minimized window)
    /// leaves the size as it was and asks for no reconfiguration; any other
    /// size is taken, and the surface must be reconfigured with it.
    pub fn resize(&mut self, width: u32, height: u32) -> (reconfigure: bool)
        ensures
            reconfigure == (width > 0 && height > 0),
            reconfigure ==> *final(self) == (SurfaceSize { width, height }),
            !reconfigure ==> *final(self) == *old(self),
    {
        if width > 0 && height > 0 {
            self.width = width;
            self.height = height;
            true
        } else {
            false
        }
    }
}

/// Why the next surface image could not be acquired.
#[derive(Clone, Copy, Debug, PartialEq, Eq, Structural)]
pub enum SurfaceError {
    Timeout,
    Outdated,
    Lost,
    OutOfMemory,
}

/// What the frame loop does after a failed acquisition.
#[derive(Clone, Copy, Debug, PartialEq, Eq, Structural)]
pub enum FrameRecovery {
    /// Reconfigure the surface at its current size and skip this frame.
    Reconfigure,
    /// Skip this frame and try again on the next.
    SkipFrame,
    /// Stop: the device cannot go on.
    Exit,
}

/// A lost or outdated surface is reconfigured, a timeout skips the frame,
/// running out of memory ends the loop.
pub fn frame_recovery(e: SurfaceError) -> (r: FrameRecovery)
    ensures
        r == match e {
            SurfaceError::Lost | SurfaceError::Outdated => FrameRecovery::Reconfigure,
            SurfaceError::Timeout => FrameRecovery::SkipFrame,
            SurfaceError::OutOfMemory => FrameRecovery::Exit,
        },
{
    match e {
        SurfaceError::Lost | SurfaceError::Outdated => FrameRecovery::Reconfigure,
        SurfaceError::Timeout => FrameRecovery::SkipFrame,
        SurfaceError::OutOfMemory => FrameRecovery::Exit,
    }
}

} // verus!
