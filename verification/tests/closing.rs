use baseview::ancestor::ViewQuery;
use baseview::close::{CloseCommand, CloseStep, Teardown};
use baseview::events::HandlerCall;
use baseview::finalize::{FinalizeClose, FinalizeCommand, FinalizeStep};
use baseview::handle::AppKitHandle;
use baseview::open::OpenStep;
use baseview::state::{WindowState, Windows};
use baseview::values::{Size, WindowOpenOptions, WindowScalePolicy};
use baseview::window::{Window, WindowHandle};

/// Which view is inside which, and which view stores which state.
struct Tree {
    superviews: Vec<(usize, usize)>,
    states: Vec<(usize, usize)>,
}

fn find(pairs: &[(usize, usize)], key: usize) -> usize {
    for (from, to) in pairs {
        if *from == key {
            return *to;
        }
    }
    0
}

impl Tree {
    fn answer(&self, query: ViewQuery) -> usize {
        match query {
            ViewQuery::Superview(view) => find(&self.superviews, view),
            ViewQuery::ClassOf(view) => view + 1000,
            ViewQuery::StateIvar(class) => class + 1000,
            ViewQuery::StateOf(view) => find(&self.states, view),
        }
    }
}

/// The actions of a teardown, without its questions.
fn tear_down(
    windows: &mut Windows<u8>,
    tree: &Tree,
    (mut teardown, mut step): (Teardown, CloseStep),
) -> Vec<CloseCommand> {
    let mut actions = Vec::new();
    while let CloseStep::Ask(command) = step {
        let reply = match command {
            CloseCommand::Find(query) => tree.answer(query),
            action => {
                actions.push(action);
                0
            }
        };
        assert!(teardown.can_resume(windows, reply));
        step = teardown.resume(windows, reply);
    }
    actions
}

fn finalize(windows: &mut Windows<u8>, view: usize, stored: usize) -> Vec<FinalizeCommand> {
    let mut actions = Vec::new();
    let (mut finalization, mut step) = FinalizeClose::finalize_close_callback(view);
    let mut reply = stored;
    while let FinalizeStep::Ask(command) = step {
        actions.push(command);
        assert!(finalization.can_resume(windows, reply));
        step = finalization.resume(windows, reply);
        reply = 0;
    }
    actions
}

fn options() -> WindowOpenOptions {
    WindowOpenOptions {
        title: String::from("a window"),
        size: Size { width: 0, height: 0 },
        scale: WindowScalePolicy::SystemScaleFactor,
        opengl: false,
    }
}

/// Opens a window whose objects are all `base` and a bit: the pool is `base`,
/// the application `base + 1`, and so on.
fn open(windows: &mut Windows<u8>, base: usize, blocking: bool) -> Option<WindowHandle> {
    let (mut opening, mut step) = if blocking {
        Window::open_blocking(options())
    } else {
        let parent = AppKitHandle { ns_window: 0, ns_view: 5 };
        Window::open_parented(parent.to_raw(), options()).unwrap()
    };
    let mut reply = base;
    loop {
        match step {
            OpenStep::Ask(_) => {
                step = opening.resume(windows, reply);
                reply += 1;
            }
            OpenStep::Opened(handle) => return Some(handle),
            OpenStep::Ended => return None,
        }
    }
}

// A parented window has its view at `base + 1` and its timer at `base + 4`, a
// window on its own has its application at `base + 1`, its native window at
// `base + 4`, its view at `base + 8` and its timer at `base + 11`.

#[test]
fn closing_an_own_window_stops_the_application_before_the_native_window_goes() {
    let mut windows = Windows::new();
    open(&mut windows, 100, true);
    let tree = Tree { superviews: vec![(108, 50)], states: vec![(108, 1)] };
    let begun = windows.close(1);
    assert_eq!(
        tear_down(&mut windows, &tree, begun),
        vec![
            CloseCommand::RemoveTimer(111),
            CloseCommand::RemoveObserver(108),
            CloseCommand::ScheduleFinalize(108),
            CloseCommand::StopApp(101),
            CloseCommand::StopMainLoop,
            CloseCommand::WakeMainLoop,
            CloseCommand::CloseWindow(104),
        ]
    );
    let state = windows.get(1).unwrap();
    assert!(!state.window_inner.open && state.attached);
    assert_eq!(state.window_inner.ns_app, None);
    assert_eq!(state.window_inner.ns_window, None);
    assert_eq!(state.frame_timer, None);
}

#[test]
fn closing_from_the_inside_leaves_the_native_window() {
    let mut windows = Windows::new();
    open(&mut windows, 100, true);
    let tree = Tree { superviews: vec![], states: vec![] };
    let begun = windows.close_inner(1);
    let actions = tear_down(&mut windows, &tree, begun);
    assert_eq!(actions.len(), 6);
    assert_eq!(actions[5], CloseCommand::WakeMainLoop);
    assert_eq!(windows.get(1).unwrap().window_inner.ns_window, Some(104));
}

#[test]
fn closing_inside_a_foreign_host_leaves_the_host_alone() {
    let mut windows = Windows::new();
    let mut handle = open(&mut windows, 100, false).unwrap();
    let tree = Tree { superviews: vec![(101, 50), (50, 51)], states: vec![(101, 1)] };
    assert!(handle.is_open(&windows));
    let begun = handle.close(&mut windows);
    assert!(!handle.is_open(&windows));
    assert_eq!(
        tear_down(&mut windows, &tree, begun),
        vec![
            CloseCommand::RemoveTimer(104),
            CloseCommand::RemoveObserver(101),
            CloseCommand::ScheduleFinalize(101),
        ]
    );
}

#[test]
fn closing_reaches_the_own_window_around() {
    let mut windows = Windows::new();
    open(&mut windows, 100, true);
    let handle = open(&mut windows, 200, false).unwrap();
    // The outer window's view is two levels up.
    let tree = Tree {
        superviews: vec![(201, 50), (50, 108), (108, 51)],
        states: vec![(108, 1), (201, 2)],
    };
    let begun = Window { key: 2 }.close(&mut windows);
    assert_eq!(
        tear_down(&mut windows, &tree, begun),
        vec![
            CloseCommand::RemoveTimer(204),
            CloseCommand::RemoveObserver(201),
            CloseCommand::ScheduleFinalize(201),
            CloseCommand::RemoveTimer(111),
            CloseCommand::RemoveObserver(108),
            CloseCommand::ScheduleFinalize(108),
            CloseCommand::StopApp(101),
            CloseCommand::StopMainLoop,
            CloseCommand::WakeMainLoop,
        ]
    );
    assert!(!handle.is_open(&windows));
    let outer = windows.get(1).unwrap();
    assert!(!outer.window_inner.open);
    assert_eq!(outer.window_inner.ns_window, Some(104));
    assert_eq!(outer.clones, 0);
}

#[test]
fn an_application_window_does_not_close_what_is_around_it() {
    let mut windows = Windows::new();
    open(&mut windows, 100, true);
    open(&mut windows, 200, true);
    let tree = Tree { superviews: vec![(208, 108)], states: vec![(108, 1), (208, 2)] };
    let begun = windows.close(2);
    let actions = tear_down(&mut windows, &tree, begun);
    assert_eq!(actions.len(), 7);
    assert!(windows.get(1).unwrap().window_inner.open);
    assert_eq!(windows.get(1).unwrap().clones, 0);
}

#[test]
fn a_teardown_stops_at_a_closed_window() {
    let mut windows = Windows::new();
    open(&mut windows, 100, true);
    open(&mut windows, 200, false);
    let nowhere = Tree { superviews: vec![], states: vec![] };
    let begun = windows.close(1);
    tear_down(&mut windows, &nowhere, begun);
    let tree = Tree { superviews: vec![(201, 108)], states: vec![(108, 1)] };
    let begun = windows.close(2);
    assert_eq!(
        tear_down(&mut windows, &tree, begun),
        vec![
            CloseCommand::RemoveTimer(204),
            CloseCommand::RemoveObserver(201),
            CloseCommand::ScheduleFinalize(201),
        ]
    );
}

#[test]
fn closing_twice_does_nothing_more() {
    let mut windows = Windows::new();
    open(&mut windows, 100, true);
    let tree = Tree { superviews: vec![], states: vec![] };
    let begun = windows.close(1);
    tear_down(&mut windows, &tree, begun);
    assert_eq!(windows.close(1).1, CloseStep::Done);
    assert_eq!(windows.close_inner(1).1, CloseStep::Done);
}

#[test]
fn the_search_comes_before_every_action() {
    let mut windows = Windows::new();
    open(&mut windows, 100, false);
    let (mut teardown, step) = windows.close(1);
    assert_eq!(teardown.key(), 1);
    assert_eq!(step, CloseStep::Ask(CloseCommand::Find(ViewQuery::Superview(101))));
    assert!(!windows.get(1).unwrap().window_inner.open);
    assert_eq!(
        teardown.resume(&mut windows, 0),
        CloseStep::Ask(CloseCommand::RemoveTimer(104))
    );
}

#[test]
fn a_teardown_wants_states_that_exist() {
    let mut windows = Windows::new();
    open(&mut windows, 100, false);
    let (mut teardown, _) = windows.close(1);
    teardown.resume(&mut windows, 50);
    teardown.resume(&mut windows, 51);
    let step = teardown.resume(&mut windows, 52);
    assert_eq!(step, CloseStep::Ask(CloseCommand::Find(ViewQuery::StateOf(50))));
    assert!(!teardown.can_resume(&windows, 9));
    assert!(teardown.can_resume(&windows, 0));
}

#[test]
fn a_closed_window_can_still_answer_its_handler() {
    let mut windows: Windows<u8> = Windows::new();
    open(&mut windows, 100, false);
    let (mut turn, _) = windows.trigger_frame::<()>(1);
    let begun = windows.close(1);
    let tree = Tree { superviews: vec![], states: vec![] };
    tear_down(&mut windows, &tree, begun);
    assert!(windows.trigger_deferrable_event::<()>(1, 7).is_none());
    assert_eq!(turn.handler_returned(&mut windows, None), Some(HandlerCall::OnEvent(7)));
    assert_eq!(turn.handler_returned(&mut windows, None), None);
}

#[test]
fn finalizing_drops_what_nothing_holds() {
    let mut windows = Windows::new();
    open(&mut windows, 100, true);
    let tree = Tree { superviews: vec![], states: vec![] };
    let begun = windows.close(1);
    tear_down(&mut windows, &tree, begun);
    assert_eq!(
        finalize(&mut windows, 108, 1),
        vec![
            FinalizeCommand::StateOf(108),
            FinalizeCommand::ClearState(108),
            FinalizeCommand::DropState(1),
            FinalizeCommand::RemoveFromSuperview(108),
            FinalizeCommand::Release(108),
        ]
    );
    assert!(!windows.contains(1));
}

#[test]
fn finalizing_spares_what_the_program_holds() {
    let mut windows = Windows::new();
    let handle = open(&mut windows, 100, false).unwrap();
    let tree = Tree { superviews: vec![], states: vec![] };
    let begun = windows.close(1);
    tear_down(&mut windows, &tree, begun);
    assert_eq!(
        finalize(&mut windows, 101, 1),
        vec![
            FinalizeCommand::StateOf(101),
            FinalizeCommand::ClearState(101),
            FinalizeCommand::RemoveFromSuperview(101),
            FinalizeCommand::Release(101),
        ]
    );
    assert!(!handle.is_open(&windows));
    assert!(handle.release(&mut windows));
    assert!(!windows.contains(1));
}

#[test]
fn finalizing_spares_what_is_referenced() {
    let mut windows = Windows::new();
    let handle = open(&mut windows, 100, false).unwrap();
    let reference = WindowState::from_view(&mut windows, 1);
    assert_eq!(reference.key(), 1);
    let tree = Tree { superviews: vec![], states: vec![] };
    let begun = windows.close(1);
    tear_down(&mut windows, &tree, begun);
    finalize(&mut windows, 101, 1);
    assert!(!handle.release(&mut windows));
    assert!(windows.contains(1));
    assert!(windows.release(reference));
    assert!(!windows.contains(1));
}

#[test]
fn finalizing_twice_drops_once() {
    let mut windows: Windows<u8> = Windows::new();
    assert_eq!(
        finalize(&mut windows, 108, 0),
        vec![
            FinalizeCommand::StateOf(108),
            FinalizeCommand::RemoveFromSuperview(108),
            FinalizeCommand::Release(108),
        ]
    );
}

#[test]
fn open_windows_are_not_finalized() {
    let mut windows: Windows<u8> = Windows::new();
    open(&mut windows, 100, false);
    let (finalization, _) = FinalizeClose::finalize_close_callback(101);
    assert!(!finalization.can_resume(&windows, 1));
    assert!(!finalization.can_resume(&windows, 2));
    assert!(finalization.can_resume(&windows, 0));
}

#[test]
fn references_can_be_given_back() {
    let mut windows: Windows<u8> = Windows::new();
    let handle = open(&mut windows, 100, false).unwrap();
    let reference = windows.retain(1);
    assert_eq!(windows.get(1).unwrap().clones, 1);
    assert!(!windows.release(reference));
    assert_eq!(windows.get(1).unwrap().clones, 0);
    assert!(!handle.release(&mut windows));
    assert!(windows.contains(1));
}

#[test]
fn handle_and_window_show_the_same_window() {
    let mut windows: Windows<u8> = Windows::new();
    let handle = open(&mut windows, 100, false).unwrap();
    let window = Window { key: handle.key() };
    let open_handle = Some(AppKitHandle { ns_window: 0, ns_view: 101 });
    assert_eq!(AppKitHandle::from_raw(handle.raw_window_handle(&windows)), open_handle);
    assert_eq!(AppKitHandle::from_raw(window.raw_window_handle(&windows)), open_handle);
    windows.close(1);
    let closed = Some(AppKitHandle { ns_window: 0, ns_view: 0 });
    assert_eq!(AppKitHandle::from_raw(handle.raw_window_handle(&windows)), closed);
    assert_eq!(AppKitHandle::from_raw(window.raw_window_handle(&windows)), closed);
}

#[test]
fn references_are_given_back_before_the_native_window_closes() {
    let mut windows = Windows::new();
    open(&mut windows, 100, true);
    open(&mut windows, 200, true);
    let tree = Tree { superviews: vec![(208, 108)], states: vec![(108, 1)] };
    let (mut teardown, mut step) = windows.close(2);
    let mut most = 0;
    while step != CloseStep::Ask(CloseCommand::CloseWindow(204)) {
        let reply = match step {
            CloseStep::Ask(CloseCommand::Find(query)) => tree.answer(query),
            _ => 0,
        };
        step = teardown.resume(&mut windows, reply);
        most = most.max(windows.get(1).unwrap().clones);
    }
    assert_eq!(most, 1);
    assert_eq!(windows.get(1).unwrap().clones, 0);
    assert_eq!(teardown.resume(&mut windows, 0), CloseStep::Done);
}

#[test]
fn the_last_reference_of_a_teardown_drops_the_state() {
    let mut windows = Windows::new();
    open(&mut windows, 100, true);
    open(&mut windows, 200, true);
    let nowhere = Tree { superviews: vec![], states: vec![] };
    let begun = windows.close(1);
    tear_down(&mut windows, &nowhere, begun);
    let (mut teardown, _) = windows.close(2);
    teardown.resume(&mut windows, 108);
    teardown.resume(&mut windows, 51);
    teardown.resume(&mut windows, 52);
    let mut step = teardown.resume(&mut windows, 1);
    // The view of the outer window lets go while the reference is held.
    finalize(&mut windows, 108, 1);
    assert!(windows.contains(1));
    let mut actions = Vec::new();
    while let CloseStep::Ask(action) = step {
        actions.push(action);
        assert!(teardown.can_resume(&windows, 0));
        step = teardown.resume(&mut windows, 0);
    }
    assert_eq!(actions.len(), 8);
    assert_eq!(actions[6], CloseCommand::DropState(1));
    assert_eq!(actions[7], CloseCommand::CloseWindow(204));
    assert!(!windows.contains(1));
}

#[test]
fn a_teardown_wants_its_references_counted() {
    let mut windows = Windows::new();
    open(&mut windows, 100, true);
    open(&mut windows, 200, false);
    let (mut teardown, _) = windows.close(2);
    teardown.resume(&mut windows, 108);
    teardown.resume(&mut windows, 51);
    teardown.resume(&mut windows, 52);
    teardown.resume(&mut windows, 1);
    assert!(teardown.can_resume(&windows, 0));
    // A table in which nobody has counted the reference.
    let mut others = Windows::new();
    open(&mut others, 100, true);
    open(&mut others, 200, false);
    assert!(!teardown.can_resume(&others, 0));
}

#[test]
fn many_closings_tear_each_window_down_once() {
    let mut windows = Windows::new();
    open(&mut windows, 100, true);
    open(&mut windows, 200, false);
    let tree = Tree { superviews: vec![(201, 108)], states: vec![(108, 1), (201, 2)] };
    let mut actions = Vec::new();
    for round in 0..6 {
        let key = if round < 2 { 2 } else { 1 + round % 2 };
        let begun = if round % 3 == 0 { windows.close(key) } else { windows.close_inner(key) };
        actions.extend(tear_down(&mut windows, &tree, begun));
        assert!(!windows.get(1).unwrap().window_inner.open);
        assert!(!windows.get(2).unwrap().window_inner.open);
    }
    for action in [
        CloseCommand::RemoveTimer(111),
        CloseCommand::RemoveObserver(108),
        CloseCommand::ScheduleFinalize(108),
        CloseCommand::StopApp(101),
        CloseCommand::RemoveTimer(204),
        CloseCommand::RemoveObserver(201),
        CloseCommand::ScheduleFinalize(201),
    ] {
        assert_eq!(actions.iter().filter(|taken| **taken == action).count(), 1);
    }
}

#[test]
fn finalizing_waits_for_a_running_handler() {
    let mut windows: Windows<u8> = Windows::new();
    open(&mut windows, 100, true);
    let (mut turn, _) = windows.trigger_frame::<()>(1);
    let begun = windows.close(1);
    let tree = Tree { superviews: vec![], states: vec![] };
    tear_down(&mut windows, &tree, begun);
    let (finalization, _) = FinalizeClose::finalize_close_callback(108);
    assert!(!finalization.can_resume(&windows, 1));
    assert_eq!(turn.handler_returned(&mut windows, None), None);
    assert!(finalization.can_resume(&windows, 1));
    assert_eq!(finalize(&mut windows, 108, 1)[2], FinalizeCommand::DropState(1));
}

#[test]
fn a_view_can_let_go_while_an_event_is_handled() {
    let mut windows: Windows<u8> = Windows::new();
    open(&mut windows, 100, true);
    let reference = WindowState::from_view(&mut windows, 1);
    let (mut turn, _) = windows.trigger_event::<()>(1, 3);
    let begun = windows.close(1);
    let tree = Tree { superviews: vec![], states: vec![] };
    tear_down(&mut windows, &tree, begun);
    finalize(&mut windows, 108, 1);
    assert_eq!(turn.handler_returned(&mut windows, Some(())), None);
    assert!(windows.release(reference));
    assert!(!windows.contains(1));
}

#[test]
fn a_view_can_let_go_while_the_program_has_its_handle() {
    let mut windows: Windows<u8> = Windows::new();
    let handle = open(&mut windows, 100, false).unwrap();
    let (mut turn, _) = windows.trigger_frame::<()>(1);
    let begun = windows.close(1);
    let tree = Tree { superviews: vec![], states: vec![] };
    tear_down(&mut windows, &tree, begun);
    let actions = finalize(&mut windows, 101, 1);
    assert!(!actions.contains(&FinalizeCommand::DropState(1)));
    assert!(windows.get(1).unwrap().handler_borrowed);
    assert_eq!(turn.handler_returned(&mut windows, None), None);
    assert!(handle.release(&mut windows));
}

#[test]
fn a_handle_keeps_its_window() {
    let mut windows: Windows<u8> = Windows::new();
    open(&mut windows, 100, true);
    let handle = open(&mut windows, 200, false).unwrap();
    let reference = windows.retain(2);
    let tree = Tree { superviews: vec![(201, 108)], states: vec![(108, 1)] };
    let begun = windows.close(2);
    tear_down(&mut windows, &tree, begun);
    finalize(&mut windows, 201, 2);
    finalize(&mut windows, 108, 1);
    assert!(!windows.release(reference));
    assert!(!windows.contains(1) && windows.contains(2));
    assert!(!handle.is_open(&windows));
    assert!(handle.release(&mut windows));
}
