use baseview::events::{HandlerCall, Turn, TurnKind};
use baseview::handle::AppKitHandle;
use baseview::open::OpenStep;
use baseview::state::Windows;
use baseview::values::{Size, WindowOpenOptions, WindowScalePolicy};
use baseview::window::Window;

/// A table with one window, whose key is 1.
fn one_window() -> Windows<u8> {
    let mut windows = Windows::new();
    let options = WindowOpenOptions {
        title: String::new(),
        size: Size { width: 0, height: 0 },
        scale: WindowScalePolicy::SystemScaleFactor,
        opengl: false,
    };
    let parent = AppKitHandle { ns_window: 0, ns_view: 5 };
    let (mut opening, mut step) = Window::open_parented(parent.to_raw(), options).unwrap();
    while let OpenStep::Ask(_) = step {
        step = opening.resume(&mut windows, 10);
    }
    windows
}

#[test]
fn an_event_is_handed_over_at_once() {
    let mut windows = one_window();
    let (mut turn, call): (Turn<&str>, _) = windows.trigger_event(1, 3);
    assert_eq!(call, HandlerCall::OnEvent(3));
    assert_eq!(turn.kind, TurnKind::Event);
    assert!(windows.get(1).unwrap().handler_borrowed);
    assert_eq!(turn.handler_returned(&mut windows, Some("captured")), None);
    assert!(!windows.get(1).unwrap().handler_borrowed);
    assert_eq!(turn.into_status(), Some("captured"));
}

#[test]
fn events_that_wait_come_in_order() {
    let mut windows = one_window();
    let (mut turn, call): (Turn<()>, _) = windows.trigger_frame(1);
    assert_eq!(call, HandlerCall::OnFrame);
    assert!(windows.trigger_deferrable_event::<()>(1, 4).is_none());
    assert!(windows.trigger_deferrable_event::<()>(1, 5).is_none());
    assert_eq!(turn.handler_returned(&mut windows, None), Some(HandlerCall::OnEvent(4)));
    // One more comes while the first of them is handled.
    assert!(windows.trigger_deferrable_event::<()>(1, 6).is_none());
    assert_eq!(turn.handler_returned(&mut windows, None), Some(HandlerCall::OnEvent(5)));
    assert_eq!(turn.handler_returned(&mut windows, None), Some(HandlerCall::OnEvent(6)));
    assert_eq!(turn.handler_returned(&mut windows, None), None);
    assert_eq!(windows.get(1).unwrap().deferred_events.len(), 0);
}

#[test]
fn a_deferrable_event_need_not_wait_for_an_idle_handler() {
    let mut windows = one_window();
    let (mut turn, call) = windows.trigger_deferrable_event::<()>(1, 9).unwrap();
    assert_eq!(call, HandlerCall::OnEvent(9));
    assert_eq!(turn.kind, TurnKind::DeferrableEvent);
    assert_eq!(turn.handler_returned(&mut windows, Some(())), None);
    assert_eq!(turn.into_status(), None);
}

#[test]
fn the_status_is_the_one_of_the_event_itself() {
    let mut windows = one_window();
    let (mut turn, _): (Turn<u32>, _) = windows.trigger_event(1, 1);
    windows.trigger_deferrable_event::<u32>(1, 2);
    assert_eq!(turn.handler_returned(&mut windows, Some(11)), Some(HandlerCall::OnEvent(2)));
    assert_eq!(turn.handler_returned(&mut windows, Some(22)), None);
    assert_eq!(turn.into_status(), Some(11));
}

#[test]
fn a_frame_has_no_status() {
    let mut windows = one_window();
    let (mut turn, _): (Turn<u32>, _) = windows.trigger_frame(1);
    assert_eq!(turn.handler_returned(&mut windows, None), None);
    assert_eq!(turn.into_status(), None);
}

#[test]
fn waiting_events_are_sent_one_by_one() {
    let mut windows = one_window();
    windows.trigger_event::<()>(1, 1);
    windows.trigger_deferrable_event::<()>(1, 2);
    assert_eq!(windows.send_deferred_events(1), Some(HandlerCall::OnEvent(2)));
    assert_eq!(windows.send_deferred_events(1), None);
}

#[test]
fn every_firing_draws_one_frame() {
    let mut windows = one_window();
    let mut frames = 0;
    for firing in 0..5 {
        let (mut turn, call): (Turn<()>, _) = windows.trigger_frame(1);
        let mut next = Some(call);
        if firing == 2 {
            assert!(windows.trigger_deferrable_event::<()>(1, 8).is_none());
        }
        while let Some(call) = next {
            if call == HandlerCall::OnFrame {
                frames += 1;
            }
            next = turn.handler_returned(&mut windows, None);
        }
    }
    assert_eq!(frames, 5);
}
