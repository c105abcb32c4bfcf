//! What closing windows again and again amounts to.
use crate::ancestor::ViewTree;
use crate::close::{
    closes, enters, idle, level_commands, CloseCommand, CloseStep, TeardownView,
};
use crate::close_laws::{
    close_run, closing_does, fits, inner_closing_does, lemma_level_done, lemma_torn_down_closes,
    level_done, native_window_closed, next_level, open_keys, torn_down,
};
use crate::counting::{lemma_times_add, times};
use crate::state::{WindowInner, WindowView};
use vstd::prelude::*;

verus! {

/// A way to close a window.
pub enum Closing {
    /// Closing the window, its native window included.
    Whole(usize),
    /// Closing it because its native window is about to close by itself.
    Inner(usize),
}

impl Closing {
    /// The window that is to be closed.
    pub open spec fn target(self) -> usize {
        match self {
            Closing::Whole(key) => key,
            Closing::Inner(key) => key,
        }
    }

    /// How the closing begins.
    pub open spec fn begins<E>(self, windows: Map<usize, WindowView<E>>) -> (
        TeardownView,
        Map<usize, WindowView<E>>,
        CloseStep,
    ) {
        match self {
            Closing::Whole(key) => closes(windows, key),
            Closing::Inner(key) => enters(idle(None, key), windows, key),
        }
    }

    /// What the closing does from its beginning to its end: its actions, and
    /// the table that it leaves.
    pub open spec fn does<E>(self, tree: ViewTree, windows: Map<usize, WindowView<E>>) -> (
        Seq<CloseCommand>,
        Map<usize, WindowView<E>>,
    ) {
        let key = self.target();
        let (actions, last) = torn_down(tree, windows, key, open_keys(windows).len());
        if self is Whole && windows[key].window_inner.open {
            let (end, after_all) = native_window_closed(Some(key), last);
            (actions + end, after_all)
        } else {
            (actions, last)
        }
    }
}

/// What a sequence of closings does, one after the other.
pub open spec fn closings_do<E>(
    tree: ViewTree,
    windows: Map<usize, WindowView<E>>,
    closings: Seq<Closing>,
) -> (Seq<CloseCommand>, Map<usize, WindowView<E>>)
    decreases closings.len(),
{
    if closings.len() == 0 {
        (Seq::empty(), windows)
    } else {
        let (actions, before) = closings_do(tree, windows, closings.drop_last());
        let (more, after) = closings.last().does(tree, before);
        (actions + more, after)
    }
}

/// Whether all of these closings are of windows of the table.
pub open spec fn all_known<E>(windows: Map<usize, WindowView<E>>, closings: Seq<Closing>) -> bool {
    forall|i: int|
        0 <= i < closings.len() ==> windows.contains_key(#[trigger] closings[i].target())
}

/// A closing, carried through to its end, does what it is said to do, whether
/// the window is open or not.
pub proof fn a_closing_does<E>(
    tree: ViewTree,
    windows: Map<usize, WindowView<E>>,
    closing: Closing,
) -> (turns: nat)
    requires
        fits(tree, windows),
        windows.dom().finite(),
        windows.contains_key(closing.target()),
    ensures
        close_run(tree, closing.begins(windows), turns) == Some(closing.does(tree, windows)),
{
    match closing {
        Closing::Whole(key) => {
            if windows[key].window_inner.open {
                closing_does(tree, windows, key)
            } else {
                0
            }
        },
        Closing::Inner(key) => inner_closing_does(tree, windows, key),
    }
}

/// What a window shares with no other, besides its view.
pub struct Unshared {
    pub app: bool,
    pub timer: bool,
}

/// Whether no window but `key` has the view that stands in `state`, nor the
/// application or the timer where it is said to be unshared.
pub open spec fn are_apart<E>(
    windows: Map<usize, WindowView<E>>,
    key: usize,
    state: WindowView<E>,
    unshared: Unshared,
) -> bool {
    forall|other: usize| #[trigger]
        windows.contains_key(other) && other != key ==> {
            &&& windows[other].window_inner.ns_view != state.window_inner.ns_view
            &&& unshared.app && windows[other].window_inner.ns_app is Some
                ==> windows[other].window_inner.ns_app != state.window_inner.ns_app
            &&& unshared.timer && windows[other].frame_timer is Some
                ==> windows[other].frame_timer != state.frame_timer
        }
}

/// Whether `actions` hold exactly `count` times each action for the view of the
/// window `state`, and for its timer and its application where it shares them
/// with no other window.
pub open spec fn done_times<E>(
    actions: Seq<CloseCommand>,
    state: WindowView<E>,
    unshared: Unshared,
    count: nat,
) -> bool {
    let view = state.window_inner.ns_view;
    &&& times(actions, CloseCommand::RemoveObserver(view)) == count
    &&& times(actions, CloseCommand::ScheduleFinalize(view)) == count
    &&& unshared.timer ==> (state.frame_timer matches Some(timer) ==> times(
        actions,
        CloseCommand::RemoveTimer(timer),
    ) == count)
    &&& unshared.app ==> (state.window_inner.ns_app matches Some(app) ==> times(
        actions,
        CloseCommand::StopApp(app),
    ) == count)
}

proof fn lemma_done_times_add<E>(
    first: Seq<CloseCommand>,
    second: Seq<CloseCommand>,
    state: WindowView<E>,
    unshared: Unshared,
    once: nat,
    again: nat,
)
    requires
        done_times(first, state, unshared, once),
        done_times(second, state, unshared, again),
    ensures
        done_times(first + second, state, unshared, once + again),
{
    let view = state.window_inner.ns_view;
    lemma_times_add(first, second, CloseCommand::RemoveObserver(view));
    lemma_times_add(first, second, CloseCommand::ScheduleFinalize(view));
    if let Some(timer) = state.frame_timer {
        lemma_times_add(first, second, CloseCommand::RemoveTimer(timer));
    }
    if let Some(app) = state.window_inner.ns_app {
        lemma_times_add(first, second, CloseCommand::StopApp(app));
    }
}

proof fn lemma_level_commands_times(
    inner: WindowInner,
    frame_timer: Option<usize>,
    command: CloseCommand,
)
    ensures
        times(level_commands(inner, frame_timer), command) == match command {
            CloseCommand::RemoveTimer(timer) => if frame_timer == Some(timer) {
                1nat
            } else {
                0nat
            },
            CloseCommand::RemoveObserver(view) => if inner.ns_view == view {
                1nat
            } else {
                0nat
            },
            CloseCommand::ScheduleFinalize(view) => if inner.ns_view == view {
                1nat
            } else {
                0nat
            },
            CloseCommand::StopApp(app) => if inner.ns_app == Some(app) {
                1nat
            } else {
                0nat
            },
            CloseCommand::StopMainLoop => if inner.ns_app is Some {
                1nat
            } else {
                0nat
            },
            CloseCommand::WakeMainLoop => if inner.ns_app is Some {
                1nat
            } else {
                0nat
            },
            _ => 0nat,
        },
{
    let first = match frame_timer {
        Some(timer) => seq![CloseCommand::RemoveTimer(timer)],
        None => seq![],
    };
    let second = seq![
        CloseCommand::RemoveObserver(inner.ns_view),
        CloseCommand::ScheduleFinalize(inner.ns_view),
    ];
    let third = match inner.ns_app {
        Some(app) => seq![
            CloseCommand::StopApp(app),
            CloseCommand::StopMainLoop,
            CloseCommand::WakeMainLoop,
        ],
        None => seq![],
    };
    lemma_times_add(first, second, command);
    lemma_times_add(first + second, third, command);
    reveal_with_fuel(times, 4);
}

/// How often a window is dealt with when it turns from the state `before` to
/// the state `after`: once if it has been closed, and never if not.
pub open spec fn closed_times<E>(before: WindowView<E>, after: WindowView<E>) -> nat {
    if before.window_inner.open && !after.window_inner.open {
        1
    } else {
        0
    }
}

/// The actions for one level are those for the window `key` if it is the window
/// of that level, and have nothing to do with it otherwise.
proof fn lemma_level_times<E>(
    windows: Map<usize, WindowView<E>>,
    target: usize,
    key: usize,
    state: WindowView<E>,
    unshared: Unshared,
)
    requires
        windows.contains_key(target),
        are_apart(windows, key, state, unshared),
        target == key ==> windows[key] == state,
    ensures
        done_times(
            level_commands(windows[target].window_inner, windows[target].frame_timer),
            state,
            unshared,
            if target == key {
                1
            } else {
                0
            },
        ),
        are_apart(level_done(windows, target), key, state, unshared),
{
    let (inner, timer) = (windows[target].window_inner, windows[target].frame_timer);
    let view = state.window_inner.ns_view;
    lemma_level_commands_times(inner, timer, CloseCommand::RemoveObserver(view));
    lemma_level_commands_times(inner, timer, CloseCommand::ScheduleFinalize(view));
    if let Some(timer_of_key) = state.frame_timer {
        lemma_level_commands_times(inner, timer, CloseCommand::RemoveTimer(timer_of_key));
    }
    if let Some(app) = state.window_inner.ns_app {
        lemma_level_commands_times(inner, timer, CloseCommand::StopApp(app));
    }
    let done = level_done(windows, target);
    assert forall|other: usize| #[trigger] done.contains_key(other) && other != key implies {
        &&& done[other].window_inner.ns_view != state.window_inner.ns_view
        &&& unshared.app && done[other].window_inner.ns_app is Some
            ==> done[other].window_inner.ns_app != state.window_inner.ns_app
        &&& unshared.timer && done[other].frame_timer is Some
            ==> done[other].frame_timer != state.frame_timer
    } by {
        assert(windows.contains_key(other));
    }
}

/// Whether the window `key`, which was open in the state `state`, is still in
/// that state, or has been closed; and nobody else has what it has.
pub open spec fn is_followed<E>(
    windows: Map<usize, WindowView<E>>,
    key: usize,
    state: WindowView<E>,
    unshared: Unshared,
) -> bool {
    &&& windows.contains_key(key)
    &&& windows[key].window_inner.open ==> windows[key] == state
    &&& are_apart(windows, key, state, unshared)
}

/// A teardown deals once with a window that it closes, and not at all with one
/// that it finds closed or does not reach.
proof fn lemma_torn_down_times<E>(
    tree: ViewTree,
    windows: Map<usize, WindowView<E>>,
    target: usize,
    levels: nat,
    key: usize,
    state: WindowView<E>,
    unshared: Unshared,
)
    requires
        fits(tree, windows),
        windows.dom().finite(),
        windows.contains_key(target),
        is_followed(windows, key, state, unshared),
    ensures
        ({
            let (actions, last) = torn_down(tree, windows, target, levels);
            &&& fits(tree, last)
            &&& last.dom() == windows.dom()
            &&& is_followed(last, key, state, unshared)
            &&& last[key].window_inner.open ==> windows[key].window_inner.open
            &&& done_times(actions, state, unshared, closed_times(windows[key], last[key]))
        }),
    decreases levels,
{
    if levels > 0 && windows[target].window_inner.open {
        let here = level_commands(windows[target].window_inner, windows[target].frame_timer);
        let done = level_done(windows, target);
        lemma_level_done(tree, windows, target);
        lemma_level_times(windows, target, key, state, unshared);
        assert(done.contains_key(key));
        match next_level(tree, windows, target) {
            Some(found) => {
                let rest = torn_down(tree, done, found, (levels - 1) as nat);
                lemma_torn_down_times(tree, done, found, (levels - 1) as nat, key, state, unshared);
                lemma_done_times_add(
                    here,
                    rest.0,
                    state,
                    unshared,
                    closed_times(windows[key], done[key]),
                    closed_times(done[key], rest.1[key]),
                );
            },
            None => {},
        }
    }
}

/// So does a closing, whose native window is nothing to any other window.
proof fn lemma_closing_times<E>(
    tree: ViewTree,
    windows: Map<usize, WindowView<E>>,
    closing: Closing,
    key: usize,
    state: WindowView<E>,
    unshared: Unshared,
)
    requires
        fits(tree, windows),
        windows.dom().finite(),
        windows.contains_key(closing.target()),
        is_followed(windows, key, state, unshared),
    ensures
        ({
            let (actions, last) = closing.does(tree, windows);
            &&& fits(tree, last)
            &&& last.dom() == windows.dom()
            &&& is_followed(last, key, state, unshared)
            &&& last[key].window_inner.open ==> windows[key].window_inner.open
            &&& closing.target() == key ==> !last[key].window_inner.open
            &&& done_times(actions, state, unshared, closed_times(windows[key], last[key]))
        }),
{
    let target = closing.target();
    let levels = open_keys(windows).len();
    let (actions, torn) = torn_down(tree, windows, target, levels);
    lemma_torn_down_times(tree, windows, target, levels, key, state, unshared);
    lemma_torn_down_closes(tree, windows, target, levels);
    if closing is Whole && windows[target].window_inner.open {
        let (end, last) = native_window_closed(Some(target), torn);
        assert(last.dom() =~= torn.dom());
        assert(open_keys(last) =~= open_keys(torn));
        assert(fits(tree, last)) by {
            assert forall|other: usize| #[trigger] last.contains_key(other) implies {
                let view = last[other].window_inner.ns_view;
                &&& tree.bounded(view)
                &&& tree.ancestor(view) matches Some(found) ==> last.contains_key(found)
                &&& last[other].is_held()
            } by {
                assert(torn.contains_key(other));
            }
            assert forall|other: usize| #[trigger] last.contains_key(other) implies
                last[other].clones + open_keys(last).len() <= usize::MAX by {
                assert(torn.contains_key(other));
            }
        }
        assert(are_apart(last, key, state, unshared)) by {
            assert forall|other: usize| #[trigger]
                last.contains_key(other) && other != key implies {
                &&& last[other].window_inner.ns_view != state.window_inner.ns_view
                &&& unshared.app && last[other].window_inner.ns_app is Some
            ==> last[other].window_inner.ns_app != state.window_inner.ns_app
                &&& unshared.timer && last[other].frame_timer is Some
            ==> last[other].frame_timer != state.frame_timer
            } by {
                assert(torn.contains_key(other));
            }
        }
        assert(done_times(end, state, unshared, 0)) by {
            reveal_with_fuel(times, 2);
        }
        lemma_done_times_add(actions, end, state, unshared, closed_times(windows[key], torn[key]), 0);
    }
}

/// However often and by whichever way windows are closed, a window that starts
/// open is torn down once: it is closed from the first closing of it, or of a
/// window inside it, and never open again; over all of them its observer is
/// removed, its finalization is scheduled, its timer is removed and its
/// application is stopped exactly once if it is closed in the end, and not at
/// all otherwise. No other window may have its view; of a timer or an
/// application that another window has too, nothing is said here.
pub proof fn a_window_is_torn_down_once<E>(
    tree: ViewTree,
    windows: Map<usize, WindowView<E>>,
    closings: Seq<Closing>,
    key: usize,
    unshared: Unshared,
)
    requires
        fits(tree, windows),
        windows.dom().finite(),
        all_known(windows, closings),
        windows.contains_key(key),
        windows[key].window_inner.open,
        are_apart(windows, key, windows[key], unshared),
    ensures
        ({
            let (actions, last) = closings_do(tree, windows, closings);
            let count: nat = if last[key].window_inner.open {
                0
            } else {
                1
            };
            &&& done_times(actions, windows[key], unshared, count)
            &&& last[key].window_inner.open ==> last[key] == windows[key]
            &&& forall|i: int|
                0 <= i < closings.len() && #[trigger] closings[i].target() == key
                    ==> !last[key].window_inner.open
        }),
        forall|n: int|
            0 <= n <= closings.len() && !(#[trigger] closings_do(
                tree,
                windows,
                closings.take(n),
            )).1[key].window_inner.open ==> !closings_do(
                tree,
                windows,
                closings,
            ).1[key].window_inner.open,
{
    lemma_closings_times(tree, windows, closings, key, unshared);
    assert forall|n: int|
        0 <= n <= closings.len() && !(#[trigger] closings_do(
            tree,
            windows,
            closings.take(n),
        )).1[key].window_inner.open implies !closings_do(
        tree,
        windows,
        closings,
    ).1[key].window_inner.open by {
        lemma_closed_by_then(tree, windows, closings, key, unshared, n);
    }
}

proof fn lemma_closings_times<E>(
    tree: ViewTree,
    windows: Map<usize, WindowView<E>>,
    closings: Seq<Closing>,
    key: usize,
    unshared: Unshared,
)
    requires
        fits(tree, windows),
        windows.dom().finite(),
        all_known(windows, closings),
        windows.contains_key(key),
        windows[key].window_inner.open,
        are_apart(windows, key, windows[key], unshared),
    ensures
        ({
            let (actions, last) = closings_do(tree, windows, closings);
            &&& fits(tree, last)
            &&& last.dom() == windows.dom()
            &&& is_followed(last, key, windows[key], unshared)
            &&& done_times(actions, windows[key], unshared, closed_times(windows[key], last[key]))
            &&& forall|i: int|
                0 <= i < closings.len() && #[trigger] closings[i].target() == key
                    ==> !last[key].window_inner.open
        }),
    decreases closings.len(),
{
    let state = windows[key];
    if closings.len() > 0 {
        let fewer = closings.drop_last();
        assert forall|i: int| 0 <= i < fewer.len() implies windows.contains_key(
            #[trigger] fewer[i].target(),
        ) by {
            assert(fewer[i] == closings[i]);
        }
        lemma_closings_times(tree, windows, fewer, key, unshared);
        let (actions, before) = closings_do(tree, windows, fewer);
        let closing = closings.last();
        assert(windows.contains_key(closings[closings.len() - 1].target()));
        lemma_closing_times(tree, before, closing, key, state, unshared);
        let (more, last) = closing.does(tree, before);
        lemma_done_times_add(
            actions,
            more,
            state,
            unshared,
            closed_times(state, before[key]),
            closed_times(before[key], last[key]),
        );
        assert forall|i: int|
            0 <= i < closings.len() && #[trigger] closings[i].target() == key implies
            !last[key].window_inner.open by {
            if i < fewer.len() {
                assert(fewer[i].target() == key);
            }
        }
    }
}

proof fn lemma_closed_by_then<E>(
    tree: ViewTree,
    windows: Map<usize, WindowView<E>>,
    closings: Seq<Closing>,
    key: usize,
    unshared: Unshared,
    n: int,
)
    requires
        fits(tree, windows),
        windows.dom().finite(),
        all_known(windows, closings),
        windows.contains_key(key),
        windows[key].window_inner.open,
        are_apart(windows, key, windows[key], unshared),
        0 <= n <= closings.len(),
        !closings_do(tree, windows, closings.take(n)).1[key].window_inner.open,
    ensures
        !closings_do(tree, windows, closings).1[key].window_inner.open,
    decreases closings.len(),
{
    if n == closings.len() {
        assert(closings.take(n) =~= closings);
    } else {
        let fewer = closings.drop_last();
        assert(fewer.take(n) =~= closings.take(n));
        assert forall|i: int| 0 <= i < fewer.len() implies windows.contains_key(
            #[trigger] fewer[i].target(),
        ) by {
            assert(fewer[i] == closings[i]);
        }
        lemma_closed_by_then(tree, windows, fewer, key, unshared, n);
        lemma_closings_times(tree, windows, fewer, key, unshared);
        let before = closings_do(tree, windows, fewer).1;
        assert(windows.contains_key(closings[closings.len() - 1].target()));
        lemma_closing_times(tree, before, closings.last(), key, windows[key], unshared);
    }
}

} // verus!
