use baseview::ancestor::ViewQuery;
use baseview::close::{CloseCommand, CloseStep, Teardown};
use baseview::finalize::{FinalizeClose, FinalizeCommand, FinalizeStep};
use baseview::handle::AppKitHandle;
use baseview::open::{OpenCommand, OpenStep, Opening};
use baseview::state::Windows;
use baseview::values::{Size, WindowInfo, WindowOpenOptions, WindowScalePolicy};
use baseview::window::{Window, WindowHandle};

const VIEW: usize = 70;

fn options() -> WindowOpenOptions {
    WindowOpenOptions {
        title: String::from("life"),
        size: Size { width: 3, height: 4 },
        scale: WindowScalePolicy::ScaleFactor(5),
        opengl: false,
    }
}

fn open(
    windows: &mut Windows<u8>,
    (mut opening, mut step): (Opening, OpenStep),
) -> Option<WindowHandle> {
    loop {
        let reply = match step {
            OpenStep::Ask(OpenCommand::CreateView(_)) => VIEW,
            OpenStep::Ask(_) => 11,
            OpenStep::Opened(handle) => return Some(handle),
            OpenStep::Ended => return None,
        };
        assert!(opening.can_resume(windows, reply));
        step = opening.resume(windows, reply);
    }
}

fn open_inside_a_host(windows: &mut Windows<u8>) -> WindowHandle {
    let parent = AppKitHandle { ns_window: 0, ns_view: 60 };
    let begun = Window::open_parented(parent.to_raw(), options()).unwrap();
    open(windows, begun).unwrap()
}

/// Carries a teardown through; no view is above the window.
fn tear_down(windows: &mut Windows<u8>, (mut teardown, mut step): (Teardown, CloseStep)) {
    while let CloseStep::Ask(command) = step {
        if let CloseCommand::Find(query) = command {
            assert_eq!(query, ViewQuery::Superview(VIEW));
        }
        assert!(teardown.can_resume(windows, 0));
        step = teardown.resume(windows, 0);
    }
}

fn finalize(windows: &mut Windows<u8>, stored: usize) -> Vec<FinalizeCommand> {
    let (mut finalization, mut step) = FinalizeClose::finalize_close_callback(VIEW);
    let mut commands = Vec::new();
    while let FinalizeStep::Ask(command) = step {
        commands.push(command);
        let reply = if command == FinalizeCommand::StateOf(VIEW) { stored } else { 0 };
        assert!(finalization.can_resume(windows, reply));
        step = finalization.resume(windows, reply);
    }
    commands
}

#[test]
fn a_window_inside_a_host_leaves_nothing() {
    let mut windows = Windows::new();
    let mut handle = open_inside_a_host(&mut windows);
    let key = handle.key();
    let begun = handle.close(&mut windows);
    tear_down(&mut windows, begun);
    assert!(!handle.is_open(&windows));
    let commands = finalize(&mut windows, key);
    assert_eq!(
        commands,
        vec![
            FinalizeCommand::StateOf(VIEW),
            FinalizeCommand::ClearState(VIEW),
            FinalizeCommand::RemoveFromSuperview(VIEW),
            FinalizeCommand::Release(VIEW),
        ]
    );
    assert!(windows.contains(key));
    assert!(handle.release(&mut windows));
    assert!(!windows.contains(key));
}

#[test]
fn a_window_on_its_own_leaves_nothing() {
    let mut windows = Windows::new();
    assert!(open(&mut windows, Window::open_blocking(options())).is_none());
    let begun = windows.close(1);
    tear_down(&mut windows, begun);
    assert!(windows.contains(1));
    let commands = finalize(&mut windows, 1);
    assert_eq!(commands[2], FinalizeCommand::DropState(1));
    assert!(!windows.contains(1));
}

#[test]
fn keys_are_not_used_twice() {
    let mut windows = Windows::new();
    assert!(open(&mut windows, Window::open_blocking(options())).is_none());
    let begun = windows.close(1);
    tear_down(&mut windows, begun);
    finalize(&mut windows, 1);
    assert_eq!(open_inside_a_host(&mut windows).key(), 2);
}

#[test]
fn a_new_extent_is_recorded() {
    let mut windows = Windows::new();
    let handle = open_inside_a_host(&mut windows);
    let key = handle.key();
    assert_eq!(
        windows.get(key).unwrap().window_info,
        WindowInfo::from_logical_size(Size { width: 3, height: 4 }, 5)
    );
    let info = WindowInfo::from_logical_size(Size { width: 8, height: 9 }, 6);
    windows.set_window_info(key, info);
    let state = windows.get(key).unwrap();
    assert_eq!(state.window_info, info);
    assert_eq!(state.window_inner.ns_view, VIEW);
    assert_eq!(state.frame_timer, Some(11));
    assert!(state.attached && state.handle && handle.is_open(&windows));
}
