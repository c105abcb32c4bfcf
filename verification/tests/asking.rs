use baseview::clipboard::{copy_to_clipboard, ClipboardCommand, ClipboardStep};
use baseview::focus::{Focus, FocusCommand, FocusStep, HasFocus};
use baseview::handle::AppKitHandle;
use baseview::open::OpenStep;
use baseview::resize::ResizeCommand;
use baseview::state::{WindowInner, Windows};
use baseview::values::{Size, WindowOpenOptions, WindowScalePolicy};
use baseview::window::Window;

/// A table with one window, whose key is 1 and whose view is 10.
fn one_window() -> Windows<u8> {
    let mut windows = Windows::new();
    let options = WindowOpenOptions {
        title: String::new(),
        size: Size { width: 0, height: 0 },
        scale: WindowScalePolicy::SystemScaleFactor,
        opengl: false,
    };
    let parent = AppKitHandle { ns_window: 0, ns_view: 5 };
    let (mut opening, mut step) = Window::open_parented(parent.to_raw(), options).unwrap();
    while let OpenStep::Ask(_) = step {
        step = opening.resume(&mut windows, 10);
    }
    windows
}

/// Asks for the focus of a view in window 20 whose first responder is 30.
fn ask(is_key_window: usize, is_equal: usize) -> bool {
    let windows = one_window();
    let (mut question, step) = Window { key: 1 }.has_focus(&windows);
    assert_eq!(step, FocusStep::Ask(FocusCommand::WindowOf(10)));
    assert_eq!(question.resume(20), FocusStep::Ask(FocusCommand::FirstResponder(20)));
    assert_eq!(question.resume(30), FocusStep::Ask(FocusCommand::IsKeyWindow(20)));
    assert_eq!(question.resume(is_key_window), FocusStep::Ask(FocusCommand::IsEqual(10, 30)));
    match question.resume(is_equal) {
        FocusStep::Done(focused) => focused,
        FocusStep::Ask(_) => panic!("one question too many"),
    }
}

#[test]
fn focus_takes_a_key_window_and_its_responder() {
    assert!(ask(1, 1));
    assert!(!ask(0, 1));
    assert!(!ask(1, 0));
    assert!(!ask(0, 0));
    assert!(!ask(2, 1));
}

#[test]
fn a_view_outside_every_window_has_no_focus() {
    let (mut question, _) = HasFocus::begin(10);
    assert_eq!(question.resume(0), FocusStep::Done(false));
}

#[test]
fn focusing_makes_the_view_the_first_responder() {
    let windows = one_window();
    let (mut request, step) = Window { key: 1 }.focus(&windows);
    assert_eq!(step, FocusStep::Ask(FocusCommand::WindowOf(10)));
    assert_eq!(request.resume(20), FocusStep::Ask(FocusCommand::MakeFirstResponder(20, 10)));
    assert_eq!(request.resume(0), FocusStep::Done(()));
}

#[test]
fn focusing_a_view_outside_every_window_does_nothing() {
    let (mut request, _) = Focus::begin(10);
    assert_eq!(request.resume(0), FocusStep::Done(()));
}

#[test]
fn resizing_reaches_everything_that_has_a_size() {
    let size = Size { width: 3, height: 4 };
    let inner = WindowInner {
        open: true,
        ns_app: Some(1),
        ns_window: Some(2),
        ns_view: 10,
        gl_context: Some(6),
    };
    assert_eq!(
        inner.resize(size),
        vec![
            ResizeCommand::SetFrameSize(10, size),
            ResizeCommand::SetNeedsDisplay(10),
            ResizeCommand::ResizeGlContext(6, size),
            ResizeCommand::SetContentSize(2, size),
        ]
    );
    assert_eq!(WindowInner { open: false, ..inner }.resize(size), vec![]);
}

#[test]
fn resizing_a_parented_window_touches_its_view_only() {
    let mut windows = one_window();
    let size = Size { width: 3, height: 4 };
    let mut window = Window { key: 1 };
    assert_eq!(
        window.resize(&windows, size),
        vec![ResizeCommand::SetFrameSize(10, size), ResizeCommand::SetNeedsDisplay(10)]
    );
    assert_eq!(window.gl_context(&windows), None);
    window.close(&mut windows);
    assert_eq!(window.resize(&windows, size), vec![]);
}

#[test]
fn copying_text_does_this() {
    let (mut copy, step) = copy_to_clipboard("some text");
    assert_eq!(step, ClipboardStep::Ask(ClipboardCommand::GeneralPasteboard));
    assert_eq!(
        copy.resume(7),
        ClipboardStep::Ask(ClipboardCommand::NewString(String::from("some text")))
    );
    assert_eq!(copy.resume(8), ClipboardStep::Ask(ClipboardCommand::ClearContents(7)));
    assert_eq!(
        copy.resume(0),
        ClipboardStep::Ask(ClipboardCommand::SetString { pasteboard: 7, string: 8 })
    );
    assert_eq!(copy.resume(0), ClipboardStep::Done);
}
