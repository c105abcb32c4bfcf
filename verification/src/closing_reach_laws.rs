//! Which windows a closing reaches, what it does for each of them, and how it
//! leaves them.
use crate::ancestor::{ViewQuery, ViewTree};
use crate::close::{
    can_resume, close_next, closes, enters, finishes, idle, level_commands, stripped, CloseCommand,
    ClosePhaseView, CloseStep, TeardownView,
};
use crate::close_laws::{
    close_run, fits, lemma_level_done, level_done, native_window_closed, next_level, open_keys,
    torn_down,
};
use crate::closing_sequence_laws::{a_closing_does, Closing};
use crate::counting::times;
use crate::state::{kept_if_held, WindowInner, WindowView};
use vstd::prelude::*;

verus! {

/// The place of an action among those for one window.
pub open spec fn close_rank(command: CloseCommand) -> int {
    match command {
        CloseCommand::Find(_) => 0,
        CloseCommand::RemoveTimer(_) => 1,
        CloseCommand::RemoveObserver(_) => 2,
        CloseCommand::ScheduleFinalize(_) => 3,
        CloseCommand::StopApp(_) => 4,
        CloseCommand::StopMainLoop => 5,
        CloseCommand::WakeMainLoop => 6,
        CloseCommand::DropState(_) => 7,
        CloseCommand::CloseWindow(_) => 8,
    }
}

/// Whether an action is one for a window with this native side and this timer:
/// its timer is removed if it has one, its view stops observing and is finalized
/// later, and its application is stopped, together with the main loop, if it has
/// one; whatever else the window has.
pub open spec fn is_action_for(
    command: CloseCommand,
    inner: WindowInner,
    frame_timer: Option<usize>,
) -> bool {
    match command {
        CloseCommand::RemoveTimer(timer) => frame_timer == Some(timer),
        CloseCommand::RemoveObserver(view) => view == inner.ns_view,
        CloseCommand::ScheduleFinalize(view) => view == inner.ns_view,
        CloseCommand::StopApp(app) => inner.ns_app == Some(app),
        CloseCommand::StopMainLoop => inner.ns_app is Some,
        CloseCommand::WakeMainLoop => inner.ns_app is Some,
        _ => false,
    }
}

/// The actions for one window are all those for it and no others, each of them
/// once: first the timer, then the observer, then the finalization, and then the
/// application, the main loop and its waking up.
pub proof fn one_window_is_dealt_with_whole(
    inner: WindowInner,
    frame_timer: Option<usize>,
    command: CloseCommand,
)
    ensures
        ({
            let commands = level_commands(inner, frame_timer);
            &&& commands.contains(command) <==> is_action_for(command, inner, frame_timer)
            &&& forall|i: int, j: int|
                0 <= i < j < commands.len() ==> close_rank(#[trigger] commands[i]) < close_rank(
                    #[trigger] commands[j],
                )
        }),
{
    let commands = level_commands(inner, frame_timer);
    let n: int = if frame_timer is Some {
        1
    } else {
        0
    };
    if let Some(timer) = frame_timer {
        assert(commands[0] == CloseCommand::RemoveTimer(timer));
    }
    assert(commands[n] == CloseCommand::RemoveObserver(inner.ns_view));
    assert(commands[n + 1] == CloseCommand::ScheduleFinalize(inner.ns_view));
    if let Some(app) = inner.ns_app {
        assert(commands[n + 2] == CloseCommand::StopApp(app));
        assert(commands[n + 3] == CloseCommand::StopMainLoop);
        assert(commands[n + 4] == CloseCommand::WakeMainLoop);
    }
}

/// The window that a closing of `key` comes to after `hops` windows: each time
/// the one around the last, as long as that one is open and does not run the
/// application itself.
pub open spec fn reached<E>(
    tree: ViewTree,
    windows: Map<usize, WindowView<E>>,
    key: usize,
    hops: nat,
) -> Option<usize>
    decreases hops,
{
    if hops == 0 {
        Some(key)
    } else {
        match reached(tree, windows, key, (hops - 1) as nat) {
            Some(last) => if windows[last].window_inner.open && windows[last].window_inner.ns_app
                is None {
                tree.ancestor(windows[last].window_inner.ns_view)
            } else {
                None
            },
            None => None,
        }
    }
}

/// Whether a closing of `key` finds the window `other` open and closes it.
pub open spec fn is_hit<E>(
    tree: ViewTree,
    windows: Map<usize, WindowView<E>>,
    key: usize,
    other: usize,
) -> bool {
    &&& windows[other].window_inner.open
    &&& exists|hops: nat| #[trigger] reached(tree, windows, key, hops) == Some(other)
}

/// The way from `key` is the way from the window around it, one later.
proof fn lemma_reached_shifts<E>(
    tree: ViewTree,
    windows: Map<usize, WindowView<E>>,
    key: usize,
    found: usize,
    hops: nat,
)
    requires
        windows[key].window_inner.open,
        windows[key].window_inner.ns_app is None,
        tree.ancestor(windows[key].window_inner.ns_view) == Some(found),
    ensures
        reached(tree, windows, key, hops + 1) == reached(tree, windows, found, hops),
    decreases hops,
{
    if hops == 0 {
        assert(reached(tree, windows, key, 0) == Some(key));
    } else {
        lemma_reached_shifts(tree, windows, key, found, (hops - 1) as nat);
    }
}

/// Where the way from `found` after `key` is done leads, it led before.
proof fn lemma_reached_then<E>(
    tree: ViewTree,
    windows: Map<usize, WindowView<E>>,
    key: usize,
    from: usize,
    hops: nat,
)
    requires
        windows.contains_key(key),
        reached(tree, level_done(windows, key), from, hops) is Some,
    ensures
        reached(tree, windows, from, hops) == reached(tree, level_done(windows, key), from, hops),
    decreases hops,
{
    if hops > 0 {
        lemma_reached_then(tree, windows, key, from, (hops - 1) as nat);
    }
}

/// Where the way from `from` leads before `key` is done, it leads afterwards,
/// unless it comes past `key`.
proof fn lemma_reached_still<E>(
    tree: ViewTree,
    windows: Map<usize, WindowView<E>>,
    key: usize,
    from: usize,
    hops: nat,
)
    requires
        windows.contains_key(key),
        reached(tree, windows, from, hops) is Some,
        forall|i: nat| i < hops ==> #[trigger] reached(tree, windows, from, i) != Some(key),
    ensures
        reached(tree, level_done(windows, key), from, hops) == reached(tree, windows, from, hops),
    decreases hops,
{
    if hops > 0 {
        let fewer = (hops - 1) as nat;
        lemma_reached_still(tree, windows, key, from, fewer);
        assert(reached(tree, windows, from, fewer) != Some(key));
    }
}

/// What is reached after `key` is done is what was reached before, but for `key`
/// itself, from which the way begins.
proof fn lemma_hit_after_level<E>(
    tree: ViewTree,
    windows: Map<usize, WindowView<E>>,
    key: usize,
    found: usize,
    other: usize,
)
    requires
        windows.contains_key(key),
        windows[key].window_inner.open,
        next_level(tree, windows, key) == Some(found),
        other != key,
    ensures
        is_hit(tree, windows, key, other) <==> is_hit(
            tree,
            level_done(windows, key),
            found,
            other,
        ),
{
    let done = level_done(windows, key);
    if is_hit(tree, done, found, other) {
        let hops = choose|hops: nat| #[trigger] reached(tree, done, found, hops) == Some(other);
        lemma_reached_then(tree, windows, key, found, hops);
        lemma_reached_shifts(tree, windows, key, found, hops);
        assert(reached(tree, windows, key, hops + 1) == Some(other));
    }
    if is_hit(tree, windows, key, other) {
        let hops = choose|hops: nat| #[trigger] reached(tree, windows, key, hops) == Some(other);
        lemma_hit_from(tree, windows, key, found, other, hops);
    }
}

proof fn lemma_hit_from<E>(
    tree: ViewTree,
    windows: Map<usize, WindowView<E>>,
    key: usize,
    found: usize,
    other: usize,
    hops: nat,
)
    requires
        windows.contains_key(key),
        windows[key].window_inner.open,
        next_level(tree, windows, key) == Some(found),
        other != key,
        reached(tree, windows, key, hops) == Some(other),
    ensures
        exists|fewer: nat| #[trigger]
            reached(tree, level_done(windows, key), found, fewer) == Some(other),
    decreases hops,
{
    let after = (hops - 1) as nat;
    lemma_reached_shifts(tree, windows, key, found, after);
    if exists|i: nat| i < after && #[trigger] reached(tree, windows, found, i) == Some(key) {
        // The way comes back to `key`, so it is shorter from there.
        let i = choose|i: nat| i < after && #[trigger] reached(tree, windows, found, i) == Some(
            key,
        );
        lemma_reached_joins(tree, windows, found, key, i, (after - i) as nat);
        lemma_hit_from(tree, windows, key, found, other, (after - i) as nat);
    } else {
        lemma_reached_still(tree, windows, key, found, after);
        assert(reached(tree, level_done(windows, key), found, after) == Some(other));
    }
}

/// The way from a window that is on the way is the rest of the way.
proof fn lemma_reached_joins<E>(
    tree: ViewTree,
    windows: Map<usize, WindowView<E>>,
    from: usize,
    middle: usize,
    first: nat,
    rest: nat,
)
    requires
        reached(tree, windows, from, first) == Some(middle),
    ensures
        reached(tree, windows, from, first + rest) == reached(tree, windows, middle, rest),
    decreases rest,
{
    if rest > 0 {
        lemma_reached_joins(tree, windows, from, middle, first, (rest - 1) as nat);
    }
}

/// Whether `after` is how a teardown leaves a window that it closes.
pub open spec fn is_left_closed<E>(before: WindowView<E>, after: WindowView<E>) -> bool {
    &&& !after.window_inner.open
    &&& after.window_inner.ns_app is None
    &&& after.window_inner.ns_window == before.window_inner.ns_window
    &&& after.window_inner.ns_view == before.window_inner.ns_view
    &&& after.window_inner.gl_context == before.window_inner.gl_context
    &&& after.window_info == before.window_info
    &&& after.frame_timer is None
    &&& after.handler_borrowed == before.handler_borrowed
    &&& after.deferred_events == before.deferred_events
    &&& after.attached == before.attached
    &&& after.handle == before.handle
    &&& after.clones == before.clones
}

proof fn lemma_torn_down_leaves<E>(
    tree: ViewTree,
    windows: Map<usize, WindowView<E>>,
    key: usize,
    levels: nat,
    other: usize,
)
    requires
        fits(tree, windows),
        windows.dom().finite(),
        windows.contains_key(key),
        windows.contains_key(other),
        open_keys(windows).len() <= levels,
    ensures
        ({
            let last = torn_down(tree, windows, key, levels).1;
            &&& last.dom() == windows.dom()
            &&& is_hit(tree, windows, key, other) ==> is_left_closed(windows[other], last[other])
            &&& !is_hit(tree, windows, key, other) ==> last[other] == windows[other]
        }),
    decreases levels,
{
    assert(reached(tree, windows, key, 0) == Some(key));
    if !windows[key].window_inner.open {
        assert forall|hops: nat| hops > 0 implies #[trigger] reached(tree, windows, key, hops)
            is None by {
            lemma_reached_ends(tree, windows, key, hops);
        }
    } else {
        assert(open_keys(windows).contains(key));
        assert(levels > 0);
        let done = level_done(windows, key);
        lemma_level_done(tree, windows, key);
        match next_level(tree, windows, key) {
            Some(found) => {
                lemma_torn_down_leaves(tree, done, found, (levels - 1) as nat, other);
                if other != key {
                    lemma_hit_after_level(tree, windows, key, found, other);
                }
            },
            None => {
                assert forall|hops: nat| hops > 0 implies #[trigger] reached(
                    tree,
                    windows,
                    key,
                    hops,
                ) is None by {
                    lemma_reached_ends(tree, windows, key, hops);
                }
            },
        }
    }
}

/// There is no way from a window that is closed, runs the application or has
/// none around it.
proof fn lemma_reached_ends<E>(
    tree: ViewTree,
    windows: Map<usize, WindowView<E>>,
    key: usize,
    hops: nat,
)
    requires
        !windows[key].window_inner.open || next_level(tree, windows, key) is None,
        hops > 0,
    ensures
        reached(tree, windows, key, hops) is None,
    decreases hops,
{
    assert(reached(tree, windows, key, 0) == Some(key));
    if hops > 1 {
        lemma_reached_ends(tree, windows, key, (hops - 1) as nat);
    }
}

proof fn lemma_torn_down_acts<E>(
    tree: ViewTree,
    windows: Map<usize, WindowView<E>>,
    key: usize,
    levels: nat,
    command: CloseCommand,
)
    requires
        fits(tree, windows),
        windows.dom().finite(),
        windows.contains_key(key),
        open_keys(windows).len() <= levels,
    ensures
        torn_down(tree, windows, key, levels).0.contains(command) <==> exists|other: usize|
            {
                &&& #[trigger] windows.contains_key(other)
                &&& is_hit(tree, windows, key, other)
                &&& is_action_for(command, windows[other].window_inner, windows[other].frame_timer)
            },
    decreases levels,
{
    assert(reached(tree, windows, key, 0) == Some(key));
    let actions = torn_down(tree, windows, key, levels).0;
    if !windows[key].window_inner.open {
        assert forall|hops: nat| hops > 0 implies #[trigger] reached(tree, windows, key, hops)
            is None by {
            lemma_reached_ends(tree, windows, key, hops);
        }
    } else {
        assert(open_keys(windows).contains(key));
        assert(levels > 0);
        let state = windows[key];
        let done = level_done(windows, key);
        let here = level_commands(state.window_inner, state.frame_timer);
        lemma_level_done(tree, windows, key);
        one_window_is_dealt_with_whole(state.window_inner, state.frame_timer, command);
        match next_level(tree, windows, key) {
            Some(found) => {
                let rest = torn_down(tree, done, found, (levels - 1) as nat).0;
                lemma_torn_down_acts(tree, done, found, (levels - 1) as nat, command);
                lemma_contains_add(here, rest, command);
                assert forall|other: usize| #[trigger] windows.contains_key(other) && other != key
                    implies done.contains_key(other) && done[other] == windows[other] && (is_hit(
                    tree,
                    windows,
                    key,
                    other,
                ) <==> is_hit(tree, done, found, other)) by {
                    lemma_hit_after_level(tree, windows, key, found, other);
                }
                assert(!is_hit(tree, done, found, key));
                if rest.contains(command) {
                    let other = choose|other: usize|
                        {
                            &&& #[trigger] done.contains_key(other)
                            &&& is_hit(tree, done, found, other)
                            &&& is_action_for(
                                command,
                                done[other].window_inner,
                                done[other].frame_timer,
                            )
                        };
                    assert(windows.contains_key(other));
                }
            },
            None => {
                assert forall|hops: nat| hops > 0 implies #[trigger] reached(
                    tree,
                    windows,
                    key,
                    hops,
                ) is None by {
                    lemma_reached_ends(tree, windows, key, hops);
                }
            },
        }
    }
}

proof fn lemma_contains_add(
    first: Seq<CloseCommand>,
    second: Seq<CloseCommand>,
    command: CloseCommand,
)
    ensures
        (first + second).contains(command) <==> first.contains(command) || second.contains(
            command,
        ),
{
    let both = first + second;
    if first.contains(command) {
        let i = choose|i: int| 0 <= i < first.len() && first[i] == command;
        assert(both[i] == command);
    }
    if second.contains(command) {
        let i = choose|i: int| 0 <= i < second.len() && second[i] == command;
        assert(both[first.len() + i] == command);
    }
}

/// A closing, by either way, carried through to its end, closes the windows that
/// it reaches, at any distance, and no others. Each of them has lost its timer
/// and its application and is otherwise as it was, except that the native window
/// of a window that was closed whole is taken out. A window that it does not
/// reach, or finds closed, is not touched.
pub proof fn a_closing_leaves_each_window_so<E>(
    tree: ViewTree,
    windows: Map<usize, WindowView<E>>,
    closing: Closing,
    other: usize,
) -> (turns: nat)
    requires
        fits(tree, windows),
        windows.dom().finite(),
        windows.contains_key(closing.target()),
        windows.contains_key(other),
    ensures
        ({
            let start = match closing {
                Closing::Whole(key) => closes(windows, key),
                Closing::Inner(key) => enters(idle(None, key), windows, key),
            };
            let run = close_run(tree, start, turns);
            let (before, after) = (windows[other], (run->0).1[other]);
            let hit = is_hit(tree, windows, closing.target(), other);
            let taken_out = closing == Closing::Whole(other);
            &&& run is Some
            &&& (run->0).1.dom() == windows.dom()
            &&& !hit ==> after == before
            &&& hit && !taken_out ==> is_left_closed(before, after)
            &&& hit && taken_out ==> {
                &&& after.window_inner.ns_window is None
                &&& is_left_closed(
                    WindowView {
                        window_inner: WindowInner { ns_window: None, ..before.window_inner },
                        ..before
                    },
                    after,
                )
            }
        }),
{
    let target = closing.target();
    let levels = open_keys(windows).len();
    let torn = torn_down(tree, windows, target, levels).1;
    lemma_torn_down_leaves(tree, windows, target, levels, other);
    lemma_torn_down_leaves(tree, windows, target, levels, target);
    assert(reached(tree, windows, target, 0) == Some(target));
    assert(closing.does(tree, windows).1.dom() =~= windows.dom());
    a_closing_does(tree, windows, closing)
}

/// The actions of a closing are those for the windows that it reaches and finds
/// open, and no others; and the native window is closed exactly if the window was
/// to be closed whole, was open and has one, as the very last action.
pub proof fn a_closing_does_this_for_each_window<E>(
    tree: ViewTree,
    windows: Map<usize, WindowView<E>>,
    closing: Closing,
    command: CloseCommand,
    ns_window: usize,
) -> (turns: nat)
    requires
        fits(tree, windows),
        windows.dom().finite(),
        windows.contains_key(closing.target()),
    ensures
        ({
            let start = match closing {
                Closing::Whole(key) => closes(windows, key),
                Closing::Inner(key) => enters(idle(None, key), windows, key),
            };
            let run = close_run(tree, start, turns);
            let actions = (run->0).0;
            let inner = windows[closing.target()].window_inner;
            &&& run is Some
            &&& !(command is CloseWindow) ==> (actions.contains(command) <==> exists|other: usize|
                {
                    &&& #[trigger] windows.contains_key(other)
                    &&& is_hit(tree, windows, closing.target(), other)
                    &&& is_action_for(
                        command,
                        windows[other].window_inner,
                        windows[other].frame_timer,
                    )
                })
            &&& actions.contains(CloseCommand::CloseWindow(ns_window)) <==> closing is Whole
                && inner.open && inner.ns_window == Some(ns_window)
            &&& closing is Whole && inner.open && inner.ns_window == Some(ns_window)
                ==> actions.last() == CloseCommand::CloseWindow(ns_window)
        }),
{
    let target = closing.target();
    let levels = open_keys(windows).len();
    let (actions, torn) = torn_down(tree, windows, target, levels);
    lemma_torn_down_acts(tree, windows, target, levels, command);
    lemma_torn_down_acts(tree, windows, target, levels, CloseCommand::CloseWindow(ns_window));
    lemma_torn_down_leaves(tree, windows, target, levels, target);
    assert(reached(tree, windows, target, 0) == Some(target));
    if closing is Whole && windows[target].window_inner.open {
        let end = native_window_closed(Some(target), torn).0;
        lemma_contains_add(actions, end, command);
        lemma_contains_add(actions, end, CloseCommand::CloseWindow(ns_window));
        if let Some(own) = windows[target].window_inner.ns_window {
            assert(end[0] == CloseCommand::CloseWindow(own));
            assert((actions + end).last() == CloseCommand::CloseWindow(own));
        }
    }
    a_closing_does(tree, windows, closing)
}

/// What is done for the first `count` windows on the way, one after the other.
pub open spec fn done_on_the_way<E>(
    tree: ViewTree,
    windows: Map<usize, WindowView<E>>,
    key: usize,
    count: nat,
) -> Seq<CloseCommand>
    decreases count,
{
    if count == 0 {
        Seq::empty()
    } else {
        let state = windows[reached(tree, windows, key, (count - 1) as nat)->0];
        done_on_the_way(tree, windows, key, (count - 1) as nat) + level_commands(
            state.window_inner,
            state.frame_timer,
        )
    }
}

/// Whether the first `count` windows on the way are open, and no two of them are
/// the same.
pub open spec fn way_is_open<E>(
    tree: ViewTree,
    windows: Map<usize, WindowView<E>>,
    key: usize,
    count: nat,
) -> bool {
    &&& forall|i: nat|
        i < count ==> (#[trigger] reached(tree, windows, key, i) matches Some(at)
            && windows[at].window_inner.open)
    &&& forall|i: nat, j: nat|
        i < j < count ==> #[trigger] reached(tree, windows, key, i) != #[trigger] reached(
            tree,
            windows,
            key,
            j,
        )
}

proof fn lemma_way_goes_on<E>(
    tree: ViewTree,
    windows: Map<usize, WindowView<E>>,
    key: usize,
    found: usize,
    count: nat,
    full: nat,
)
    requires
        windows.contains_key(key),
        windows[key].window_inner.open,
        next_level(tree, windows, key) == Some(found),
        way_is_open(tree, windows, key, full),
        count < full,
    ensures
        ({
            let state = windows[key];
            let done = level_done(windows, key);
            &&& done_on_the_way(tree, windows, key, count + 1) == level_commands(
                state.window_inner,
                state.frame_timer,
            ) + done_on_the_way(tree, done, found, count)
            &&& way_is_open(tree, done, found, count)
        }),
    decreases count,
{
    let state = windows[key];
    let done = level_done(windows, key);
    let here = level_commands(state.window_inner, state.frame_timer);
    assert(reached(tree, windows, key, 0) == Some(key));
    assert forall|i: nat| i < count implies #[trigger] reached(tree, done, found, i) == reached(
        tree,
        windows,
        key,
        i + 1,
    ) && reached(tree, done, found, i) is Some && reached(tree, done, found, i) != Some(key) by {
        lemma_reached_shifts(tree, windows, key, found, i);
        assert(reached(tree, windows, key, i + 1) is Some);
        assert forall|k: nat| k < i implies #[trigger] reached(tree, windows, found, k) != Some(
            key,
        ) by {
            lemma_reached_shifts(tree, windows, key, found, k);
            assert(reached(tree, windows, key, 0) != reached(tree, windows, key, k + 1));
        }
        lemma_reached_still(tree, windows, key, found, i);
        assert(reached(tree, windows, key, 0) != reached(tree, windows, key, i + 1));
    }
    assert(way_is_open(tree, done, found, count)) by {
        assert forall|i: nat| i < count implies (#[trigger] reached(tree, done, found, i) matches Some(
            at,
        ) && done[at].window_inner.open) by {
            assert(reached(tree, windows, key, i + 1) is Some);
        }
        assert forall|i: nat, j: nat| i < j < count implies #[trigger] reached(
            tree,
            done,
            found,
            i,
        ) != #[trigger] reached(tree, done, found, j) by {
            assert(reached(tree, windows, key, i + 1) != reached(tree, windows, key, j + 1));
        }
    }
    if count == 0 {
        reveal_with_fuel(done_on_the_way, 2);
        assert(Seq::<CloseCommand>::empty() + here =~= here + Seq::<CloseCommand>::empty());
    } else {
        let fewer = (count - 1) as nat;
        lemma_way_goes_on(tree, windows, key, found, fewer, full);
        assert(reached(tree, done, found, fewer) == reached(tree, windows, key, count));
        let at = reached(tree, done, found, fewer)->0;
        assert(done[at] == windows[at]);
        let there = level_commands(windows[at].window_inner, windows[at].frame_timer);
        assert(done_on_the_way(tree, done, found, count) == done_on_the_way(
            tree,
            done,
            found,
            fewer,
        ) + there);
        assert(done_on_the_way(tree, windows, key, count + 1) == done_on_the_way(
            tree,
            windows,
            key,
            count,
        ) + there);
        assert((here + done_on_the_way(tree, done, found, fewer)) + there =~= here + (
        done_on_the_way(tree, done, found, fewer) + there));
    }
}

proof fn lemma_torn_down_outwards<E>(
    tree: ViewTree,
    windows: Map<usize, WindowView<E>>,
    key: usize,
    levels: nat,
    count: nat,
)
    requires
        fits(tree, windows),
        windows.dom().finite(),
        windows.contains_key(key),
        open_keys(windows).len() <= levels,
        way_is_open(tree, windows, key, count),
    ensures
        done_on_the_way(tree, windows, key, count).is_prefix_of(
            torn_down(tree, windows, key, levels).0,
        ),
    decreases count,
{
    if count > 0 {
        assert(reached(tree, windows, key, 0) == Some(key));
        assert(open_keys(windows).contains(key));
        assert(levels > 0);
        lemma_level_done(tree, windows, key);
        let state = windows[key];
        let here = level_commands(state.window_inner, state.frame_timer);
        match next_level(tree, windows, key) {
            Some(found) => {
                let fewer = (count - 1) as nat;
                let done = level_done(windows, key);
                lemma_way_goes_on(tree, windows, key, found, fewer, count);
                lemma_torn_down_outwards(tree, done, found, (levels - 1) as nat, fewer);
                let first = done_on_the_way(tree, done, found, fewer);
                let rest = torn_down(tree, done, found, (levels - 1) as nat).0;
                assert((here + first).is_prefix_of(here + rest));
            },
            None => {
                if count > 1 {
                    lemma_reached_ends(tree, windows, key, 1);
                    assert(reached(tree, windows, key, 1) is Some);
                }
                reveal_with_fuel(done_on_the_way, 2);
                assert(Seq::<CloseCommand>::empty() + here =~= here);
            },
        }
    }
}

/// A closing goes from the inside out: all that is done for a window is done
/// before anything is done for the window around it, however many there are.
pub proof fn a_closing_goes_outwards<E>(
    tree: ViewTree,
    windows: Map<usize, WindowView<E>>,
    closing: Closing,
    count: nat,
) -> (turns: nat)
    requires
        fits(tree, windows),
        windows.dom().finite(),
        windows.contains_key(closing.target()),
        way_is_open(tree, windows, closing.target(), count),
    ensures
        ({
            let run = close_run(tree, closing.begins(windows), turns);
            &&& run is Some
            &&& done_on_the_way(tree, windows, closing.target(), count).is_prefix_of((run->0).0)
        }),
{
    let levels = open_keys(windows).len();
    lemma_torn_down_outwards(tree, windows, closing.target(), levels, count);
    a_closing_does(tree, windows, closing)
}

/// Closing an open window begins with the question for the view around it, before
/// anything is done that could disturb the views; and the window is marked closed
/// by then, with nothing else changed.
pub proof fn closing_begins_with_the_search<E>(
    windows: Map<usize, WindowView<E>>,
    key: usize,
    closing: Closing,
    other: usize,
)
    requires
        closing.target() == key,
        windows.contains_key(key),
        windows[key].window_inner.open,
    ensures
        ({
            let (t, after, step) = match closing {
                Closing::Whole(_) => closes(windows, key),
                Closing::Inner(_) => enters(idle(None, key), windows, key),
            };
            let view = windows[key].window_inner.ns_view;
            &&& step == CloseStep::Ask(CloseCommand::Find(ViewQuery::Superview(view)))
            &&& t.key == key
            &&& !after[key].window_inner.open
            &&& after[key].window_inner.ns_app == windows[key].window_inner.ns_app
            &&& after[key].window_inner.ns_window == windows[key].window_inner.ns_window
            &&& after[key].frame_timer == windows[key].frame_timer
            &&& after[key].attached == windows[key].attached
            &&& other != key ==> (after.contains_key(other) <==> windows.contains_key(other))
            &&& other != key && windows.contains_key(other) ==> after[other] == windows[other]
        }),
{
}

/// What a teardown takes out of the state of a window: its timer and its
/// application, and nothing else.
pub proof fn a_teardown_takes_timer_and_application<E>(state: WindowView<E>)
    ensures
        stripped(state).frame_timer is None,
        stripped(state).window_inner.ns_app is None,
        stripped(state).window_inner.open == state.window_inner.open,
        stripped(state).window_inner.ns_window == state.window_inner.ns_window,
        stripped(state).window_inner.ns_view == state.window_inner.ns_view,
        stripped(state).window_inner.gl_context == state.window_inner.gl_context,
        stripped(state).window_info == state.window_info,
        stripped(state).handler_borrowed == state.handler_borrowed,
        stripped(state).deferred_events == state.deferred_events,
        stripped(state).attached == state.attached,
        stripped(state).handle == state.handle,
        stripped(state).clones == state.clones,
{
}

proof fn lemma_finishing_announces<E>(
    t: TeardownView,
    windows: Map<usize, WindowView<E>>,
    key: usize,
)
    requires
        windows.contains_key(key),
    ensures
        ({
            let (_, after, step) = finishes(t, windows);
            !after.contains_key(key) <==> step == CloseStep::Ask(CloseCommand::DropState(key))
        }),
    decreases t.held.len(),
{
    if t.held.len() > 0 {
        let last = t.held.last();
        let state = windows[last].released();
        let table = kept_if_held(windows, last, state);
        if state.is_held() {
            let next = TeardownView {
                phase: ClosePhaseView::Working(Seq::empty()),
                propagate: None,
                held: t.held.drop_last(),
                ..t
            };
            lemma_finishing_announces(next, table, key);
        }
    }
}

/// A step of a teardown drops a window if and only if it says so.
pub proof fn a_teardown_announces_what_it_drops<E>(
    t: TeardownView,
    windows: Map<usize, WindowView<E>>,
    reply: usize,
    key: usize,
)
    requires
        can_resume(t, windows, reply),
        windows.contains_key(key),
        t.phase matches ClosePhaseView::Working(commands) ==> !commands.contains(
            CloseCommand::DropState(key),
        ),
    ensures
        ({
            let (_, after, step) = close_next(t, windows, reply);
            !after.contains_key(key) <==> step == CloseStep::Ask(CloseCommand::DropState(key))
        }),
{
    match t.phase {
        ClosePhaseView::Working(commands) => if commands.len() > 0 {
            assert(commands.contains(commands[0]));
        } else {
            match t.propagate {
                Some(ancestor) => {
                    lemma_finishing_announces(
                        TeardownView { key: ancestor, propagate: None, ..t },
                        windows,
                        key,
                    );
                },
                None => {
                    lemma_finishing_announces(t, windows, key);
                },
            }
        },
        _ => {},
    }
}

/// A teardown can go on whenever the windows that it is about are in the table,
/// its references are counted, and what it is answered names no window, or one
/// to which one more reference can be counted.
pub proof fn a_teardown_can_go_on<E>(
    t: TeardownView,
    windows: Map<usize, WindowView<E>>,
    reply: usize,
)
    requires
        windows.contains_key(t.key),
        t.closing matches Some(key) ==> windows.contains_key(key),
        t.propagate matches Some(key) ==> windows.contains_key(key),
        forall|key: usize| #[trigger]
            times(t.held, key) > 0 ==> windows.contains_key(key) && windows[key].clones >= times(
                t.held,
                key,
            ),
        reply == 0 || windows.contains_key(reply) && windows[reply].clones < usize::MAX,
    ensures
        can_resume(t, windows, reply),
{
}

/// Once everything is done for a window, the teardown is about the window that
/// it goes on to, if there is one and it is open, and begins with its search.
pub proof fn a_teardown_goes_on_with_the_next_window<E>(
    t: TeardownView,
    windows: Map<usize, WindowView<E>>,
    reply: usize,
    next: usize,
)
    requires
        t.phase == ClosePhaseView::Working(Seq::empty()),
        t.propagate == Some(next),
        windows.contains_key(next),
        windows[next].window_inner.open,
    ensures
        ({
            let (then, after, step) = close_next(t, windows, reply);
            let view = windows[next].window_inner.ns_view;
            &&& then.key == next
            &&& then.closing == t.closing
            &&& then.held == t.held
            &&& then.propagate is None
            &&& !after[next].window_inner.open
            &&& step == CloseStep::Ask(CloseCommand::Find(ViewQuery::Superview(view)))
        }),
{
}

} // verus!
