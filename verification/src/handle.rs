//! Window handles as other crates see them.
use raw_window_handle::{
    AppKitDisplayHandle, AppKitWindowHandle, RawDisplayHandle, RawWindowHandle,
};
use vstd::prelude::*;

verus! {

/// `raw_window_handle::RawWindowHandle`, carried through unopened.
#[verifier::external_type_specification]
#[verifier::external_body]
pub struct ExRawWindowHandle(RawWindowHandle);

/// `raw_window_handle::RawDisplayHandle`, carried through unopened.
#[verifier::external_type_specification]
#[verifier::external_body]
pub struct ExRawDisplayHandle(RawDisplayHandle);

/// What an AppKit handle holds: the addresses of its `NSWindow` and of its
/// `NSView`. `None` for a handle of any other windowing system.
pub uninterp spec fn appkit_fields(handle: RawWindowHandle) -> Option<(usize, usize)>;

/// Whether a display handle is the one of AppKit, which holds nothing else.
pub uninterp spec fn is_appkit_display(handle: RawDisplayHandle) -> bool;

/// Builds `RawWindowHandle::AppKit` out of `AppKitWindowHandle::empty` by
/// filling in its two public fields. Trusted: the result is an AppKit handle
/// that holds these two addresses.
#[verifier::external_body]
fn new_appkit_handle(ns_window: usize, ns_view: usize) -> (handle: RawWindowHandle)
    ensures
        appkit_fields(handle) == Some((ns_window, ns_view)),
{
    let mut handle = AppKitWindowHandle::empty();
    handle.ns_window = ns_window as _;
    handle.ns_view = ns_view as _;
    RawWindowHandle::AppKit(handle)
}

/// Reads the two public fields of an `AppKitWindowHandle` out of a
/// `RawWindowHandle`. Trusted: the result is what the handle holds, and
/// nothing where the handle is of another variant.
#[verifier::external_body]
fn read_appkit_handle(handle: RawWindowHandle) -> (fields: Option<(usize, usize)>)
    ensures
        fields == appkit_fields(handle),
{
    match handle {
        RawWindowHandle::AppKit(handle) => {
            Some((handle.ns_window as usize, handle.ns_view as usize))
        },
        _ => None,
    }
}

/// Builds `RawDisplayHandle::AppKit` out of `AppKitDisplayHandle::empty`.
/// Trusted: the result is the display handle of AppKit.
#[verifier::external_body]
fn new_appkit_display() -> (handle: RawDisplayHandle)
    ensures
        is_appkit_display(handle),
{
    RawDisplayHandle::AppKit(AppKitDisplayHandle::empty())
}

/// The addresses that identify a window to other crates; either can be nil.
#[derive(Clone, Copy, Debug, PartialEq, Eq, Structural)]
pub struct AppKitHandle {
    pub ns_window: usize,
    pub ns_view: usize,
}

impl AppKitHandle {
    /// The handle in the form that other crates take.
    pub fn to_raw(&self) -> (handle: RawWindowHandle)
        ensures
            appkit_fields(handle) == Some((self.ns_window, self.ns_view)),
    {
        new_appkit_handle(self.ns_window, self.ns_view)
    }

    /// The addresses in a handle of another crate, if it is one of AppKit.
    pub fn from_raw(handle: RawWindowHandle) -> (fields: Option<AppKitHandle>)
        ensures
            match appkit_fields(handle) {
                Some((ns_window, ns_view)) => fields == Some(AppKitHandle { ns_window, ns_view }),
                None => fields is None,
            },
    {
        match read_appkit_handle(handle) {
            Some((ns_window, ns_view)) => Some(AppKitHandle { ns_window, ns_view }),
            None => None,
        }
    }
}

/// The display of every window: AppKit has one, and its handle holds nothing.
pub fn raw_display_handle() -> (handle: RawDisplayHandle)
    ensures
        is_appkit_display(handle),
{
    new_appkit_display()
}

} // verus!
