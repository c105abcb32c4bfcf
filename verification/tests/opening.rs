use baseview::handle::AppKitHandle;
use baseview::open::{OpenCommand, OpenStep, Opening};
use baseview::state::Windows;
use baseview::values::{
    Size, WindowInfo, WindowOpenOptions, WindowScalePolicy, FRAME_INTERVAL_BITS, ONE_BITS,
    ZERO_BITS,
};
use baseview::window::{Window, WindowHandle};
use raw_window_handle::{RawWindowHandle, XlibWindowHandle};

fn options(opengl: bool) -> WindowOpenOptions {
    WindowOpenOptions {
        title: String::from("a window"),
        size: Size { width: 512.0f64.to_bits(), height: 256.0f64.to_bits() },
        scale: WindowScalePolicy::SystemScaleFactor,
        opengl,
    }
}

/// Answers the `n`-th command with `100 + n`.
fn carry_through(
    windows: &mut Windows<u8>,
    mut opening: Opening,
    mut step: OpenStep,
) -> (Vec<OpenCommand>, Option<WindowHandle>) {
    let mut commands = Vec::new();
    loop {
        match step {
            OpenStep::Ask(command) => {
                let reply = 100 + commands.len();
                commands.push(command);
                assert!(opening.can_resume(windows, reply));
                step = opening.resume(windows, reply);
            }
            OpenStep::Opened(handle) => return (commands, Some(handle)),
            OpenStep::Ended => return (commands, None),
        }
    }
}

fn parent() -> RawWindowHandle {
    AppKitHandle { ns_window: 7, ns_view: 8 }.to_raw()
}

#[test]
fn bit_patterns_are_those_of_the_numbers() {
    assert_eq!(f64::from_bits(ZERO_BITS), 0.0);
    assert_eq!(f64::from_bits(ONE_BITS), 1.0);
    assert_eq!(f64::from_bits(FRAME_INTERVAL_BITS), 0.015);
}

#[test]
fn scaling_follows_the_policy() {
    assert_eq!(WindowScalePolicy::SystemScaleFactor.scaling(), 1.0f64.to_bits());
    assert_eq!(WindowScalePolicy::ScaleFactor(1.5f64.to_bits()).scaling(), 1.5f64.to_bits());
}

#[test]
fn window_info_keeps_size_and_scale() {
    let size = Size { width: 1, height: 2 };
    let info = WindowInfo::from_logical_size(size, 3);
    assert_eq!(info.logical_size(), size);
    assert_eq!(info.scale, 3);
}

#[test]
fn opening_inside_a_window_does_this() {
    let mut windows: Windows<u8> = Windows::new();
    let (opening, step) = Window::open_parented(parent(), options(true)).unwrap();
    let (commands, handle) = carry_through(&mut windows, opening, step);
    assert_eq!(
        commands,
        vec![
            OpenCommand::NewPool,
            OpenCommand::CreateView(options(true)),
            OpenCommand::CreateGlContext(AppKitHandle { ns_window: 0, ns_view: 101 }),
            OpenCommand::BuildHandler(Window { key: 1 }),
            OpenCommand::StoreState { view: 101, state: 1 },
            OpenCommand::CreateTimer {
                state: 1,
                fire_date: 0.0f64.to_bits(),
                interval: 0.015f64.to_bits(),
                flags: 0,
                order: 0,
            },
            OpenCommand::AddTimer(105),
            OpenCommand::AddSubview { parent: 8, view: 101 },
            OpenCommand::DrainPool(100),
        ]
    );
    let handle = handle.unwrap();
    assert_eq!(handle.key(), 1);
    assert!(handle.is_open(&windows));
    let state = windows.get(1).unwrap();
    assert_eq!(state.window_inner.ns_app, None);
    assert_eq!(state.window_inner.ns_window, None);
    assert_eq!(state.window_inner.ns_view, 101);
    assert_eq!(state.window_inner.gl_context, Some(102));
    assert_eq!(state.frame_timer, Some(105));
    assert_eq!(state.window_info.scale, 1.0f64.to_bits());
    assert!(state.attached && state.handle && !state.handler_borrowed);
    assert_eq!(Window { key: 1 }.gl_context(&windows), Some(&102));
}

#[test]
fn opening_on_its_own_does_this() {
    let mut windows: Windows<u8> = Windows::new();
    let scaled = || WindowOpenOptions {
        scale: WindowScalePolicy::ScaleFactor(2.0f64.to_bits()),
        ..options(false)
    };
    let (opening, step) = Window::open_blocking(scaled());
    let (commands, handle) = carry_through(&mut windows, opening, step);
    assert_eq!(
        commands,
        vec![
            OpenCommand::NewPool,
            OpenCommand::SharedApp,
            OpenCommand::SetActivationPolicyRegular(101),
            OpenCommand::ActivateIgnoringOtherApps(101),
            OpenCommand::CreateWindow {
                x: 0.0f64.to_bits(),
                y: 0.0f64.to_bits(),
                size: Size { width: 512.0f64.to_bits(), height: 256.0f64.to_bits() },
                titled: true,
                closable: true,
                miniaturizable: true,
                buffered: true,
                deferred: false,
            },
            OpenCommand::CenterWindow(104),
            OpenCommand::SetTitle(104, String::from("a window")),
            OpenCommand::MakeKeyAndOrderFront(104),
            OpenCommand::CreateView(scaled()),
            OpenCommand::BuildHandler(Window { key: 1 }),
            OpenCommand::StoreState { view: 108, state: 1 },
            OpenCommand::CreateTimer {
                state: 1,
                fire_date: 0,
                interval: FRAME_INTERVAL_BITS,
                flags: 0,
                order: 0,
            },
            OpenCommand::AddTimer(111),
            OpenCommand::SetContentView { window: 104, view: 108 },
            OpenCommand::SetDelegate { window: 104, view: 108 },
            OpenCommand::DrainPool(100),
            OpenCommand::RunApp(101),
        ]
    );
    assert!(handle.is_none());
    let state = windows.get(1).unwrap();
    assert_eq!(state.window_inner.ns_app, Some(101));
    assert_eq!(state.window_inner.ns_window, Some(104));
    assert_eq!(state.window_inner.gl_context, None);
    assert_eq!(state.window_info.scale, 2.0f64.to_bits());
    assert!(state.attached && !state.handle);
}

#[test]
fn an_own_window_gets_its_context_for_both_objects() {
    let mut windows: Windows<u8> = Windows::new();
    let (opening, step) = Window::open_blocking(options(true));
    let (commands, _) = carry_through(&mut windows, opening, step);
    assert_eq!(
        commands[9],
        OpenCommand::CreateGlContext(AppKitHandle { ns_window: 104, ns_view: 108 })
    );
    assert_eq!(commands.len(), 18);
}

#[test]
fn only_macos_windows_can_be_parents() {
    let parent = RawWindowHandle::Xlib(XlibWindowHandle::empty());
    assert!(Window::open_parented(parent, options(false)).is_none());
}

#[test]
fn a_view_must_exist() {
    let mut windows: Windows<u8> = Windows::new();
    let (mut opening, _) = Window::open_parented(parent(), options(false)).unwrap();
    assert!(matches!(opening.resume(&mut windows, 5), OpenStep::Ask(OpenCommand::CreateView(_))));
    assert!(!opening.can_resume(&windows, 0));
    assert!(opening.can_resume(&windows, 6));
}

#[test]
fn an_opening_that_is_over_cannot_go_on() {
    let mut windows: Windows<u8> = Windows::new();
    let (mut opening, _) = Window::open_parented(parent(), options(false)).unwrap();
    for _ in 0..opening.script_len() {
        assert!(opening.can_resume(&windows, 6));
        opening.resume(&mut windows, 6);
    }
    assert!(!opening.can_resume(&windows, 6));
}

#[test]
fn every_window_gets_a_key_of_its_own() {
    let mut windows: Windows<u8> = Windows::new();
    let mut keys = Vec::new();
    for _ in 0..3 {
        let (opening, step) = Window::open_parented(parent(), options(false)).unwrap();
        keys.push(carry_through(&mut windows, opening, step).1.unwrap().key());
    }
    assert_eq!(keys, vec![1, 2, 3]);
}

#[test]
fn a_window_is_not_built_before_its_view_stores_it() {
    let mut windows: Windows<u8> = Windows::new();
    let (mut opening, _) = Window::open_parented(parent(), options(false)).unwrap();
    opening.resume(&mut windows, 5);
    opening.resume(&mut windows, 6);
    let state = windows.get(1).unwrap();
    assert!(state.window_inner.open && !state.attached && state.handle);
    opening.resume(&mut windows, 0);
    assert!(!windows.get(1).unwrap().attached);
    opening.resume(&mut windows, 0);
    assert!(windows.get(1).unwrap().attached);
    assert_eq!(windows.get(1).unwrap().frame_timer, None);
}
