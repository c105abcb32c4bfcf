//! Plain values that travel between the window logic and the platform.
use vstd::prelude::*;

verus! {

/// The null object pointer. Objects of the platform (views, windows, classes,
/// timers) are named by their address.
pub const NIL: usize = 0;

/// The affirmative answer of a native predicate.
pub const YES: usize = 1;

/// The bit pattern of the number 0.0. Numbers that only the platform computes
/// with are carried as the bit patterns of their 64-bit representation.
pub const ZERO_BITS: u64 = 0;

/// The bit pattern of the number 1.0.
pub const ONE_BITS: u64 = 0x3ff0_0000_0000_0000;

/// The bit pattern of 0.015, the time between two frames in seconds.
pub const FRAME_INTERVAL_BITS: u64 = 0x3f8e_b851_eb85_1eb8;

/// A size in logical pixels; both numbers are bit patterns.
#[derive(Clone, Copy, Debug, PartialEq, Eq, Structural)]
pub struct Size {
    pub width: u64,
    pub height: u64,
}

/// Which scale factor a window is asked to use.
#[derive(Clone, Copy, Debug, PartialEq, Eq, Structural)]
pub enum WindowScalePolicy {
    /// Use whatever the system uses.
    SystemScaleFactor,
    /// Use this factor, given as a bit pattern.
    ScaleFactor(u64),
}

/// What a window is opened with.
#[derive(Debug, PartialEq, Eq)]
pub struct WindowOpenOptions {
    pub title: String,
    /// The logical size of the window.
    pub size: Size,
    pub scale: WindowScalePolicy,
    /// Whether the window gets an OpenGL context.
    pub opengl: bool,
}

/// The last known extent of a window: its logical size, and the factor that
/// turns it into a physical one.
#[derive(Clone, Copy, Debug, PartialEq, Eq, Structural)]
pub struct WindowInfo {
    pub logical_size: Size,
    pub scale: u64,
}

/// The scale factor that a policy stands for while a window is being opened:
/// the requested one, or 1.0 where the system is to choose.
pub open spec fn scaling(policy: WindowScalePolicy) -> u64 {
    match policy {
        WindowScalePolicy::ScaleFactor(scale) => scale,
        WindowScalePolicy::SystemScaleFactor => ONE_BITS,
    }
}

/// The extent that a window opened with `options` starts with.
pub open spec fn initial_info(options: WindowOpenOptions) -> WindowInfo {
    WindowInfo { logical_size: options.size, scale: scaling(options.scale) }
}

impl WindowScalePolicy {
    /// The scale factor to open a window with.
    pub fn scaling(&self) -> (scale: u64)
        ensures
            scale == scaling(*self),
    {
        match *self {
            WindowScalePolicy::ScaleFactor(scale) => scale,
            WindowScalePolicy::SystemScaleFactor => ONE_BITS,
        }
    }
}

impl WindowInfo {
    /// The extent of a window of the given logical size at the given scale.
    pub fn from_logical_size(logical_size: Size, scale: u64) -> (info: WindowInfo)
        ensures
            info == (WindowInfo { logical_size, scale }),
    {
        WindowInfo { logical_size, scale }
    }

    pub fn logical_size(&self) -> (size: Size)
        ensures
            size == self.logical_size,
    {
        self.logical_size
    }
}

/// A requested factor is used as it is, whatever it is, and without one the
/// factor is the number 1.0; the size is the one that was asked for.
pub proof fn a_window_starts_with_what_was_asked_for(options: WindowOpenOptions, factor: u64)
    ensures
        options.scale == WindowScalePolicy::ScaleFactor(factor) ==> initial_info(options).scale
            == factor,
        options.scale is SystemScaleFactor ==> initial_info(options).scale
            == 0x3ff0_0000_0000_0000,
        initial_info(options).logical_size.width == options.size.width,
        initial_info(options).logical_size.height == options.size.height,
        scaling(options.scale) == initial_info(options).scale,
{
}

} // verus!
