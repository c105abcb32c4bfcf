use baseview::handle::{raw_display_handle, AppKitHandle};
use baseview::state::WindowInner;
use raw_window_handle::{RawDisplayHandle, RawWindowHandle, XlibWindowHandle};

fn inner() -> WindowInner {
    WindowInner { open: true, ns_app: None, ns_window: Some(48), ns_view: 32, gl_context: None }
}

#[test]
fn appkit_handles_keep_their_addresses() {
    let handle = AppKitHandle { ns_window: 16, ns_view: 32 };
    assert_eq!(AppKitHandle::from_raw(handle.to_raw()), Some(handle));
}

#[test]
fn appkit_handles_fill_in_the_right_fields() {
    let handle = AppKitHandle { ns_window: 16, ns_view: 32 };
    match handle.to_raw() {
        RawWindowHandle::AppKit(raw) => {
            assert_eq!(raw.ns_window as usize, 16);
            assert_eq!(raw.ns_view as usize, 32);
        }
        _ => panic!("not an AppKit handle"),
    }
}

#[test]
fn handles_of_other_systems_are_not_taken() {
    let handle = RawWindowHandle::Xlib(XlibWindowHandle::empty());
    assert_eq!(AppKitHandle::from_raw(handle), None);
}

#[test]
fn an_open_window_is_published() {
    assert_eq!(inner().appkit_handle(), AppKitHandle { ns_window: 48, ns_view: 32 });
    assert_eq!(
        AppKitHandle::from_raw(inner().raw_window_handle()),
        Some(AppKitHandle { ns_window: 48, ns_view: 32 })
    );
}

#[test]
fn a_window_without_native_window_is_published_with_nil() {
    let parented = WindowInner { ns_window: None, ..inner() };
    assert_eq!(
        AppKitHandle::from_raw(parented.raw_window_handle()),
        Some(AppKitHandle { ns_window: 0, ns_view: 32 })
    );
}

#[test]
fn a_closed_window_is_published_as_nothing() {
    let closed = WindowInner { open: false, ..inner() };
    assert_eq!(
        AppKitHandle::from_raw(closed.raw_window_handle()),
        Some(AppKitHandle { ns_window: 0, ns_view: 0 })
    );
}

#[test]
fn the_display_is_the_one_of_appkit() {
    assert!(matches!(raw_display_handle(), RawDisplayHandle::AppKit(_)));
}
