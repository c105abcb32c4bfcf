//! What a teardown amounts to as a whole.
use crate::ancestor::{
    search_finds_the_nearest, search_from, search_next, search_outcome, search_reports_none,
    AncestorSearch, SearchStep, ViewTree,
};
use crate::close::{
    can_resume, close_next, closes, ends, enters, finishes, idle, lent, level_commands, searched,
    stripped, works, CloseCommand, ClosePhaseView, CloseStep, TeardownView,
};
use crate::counting::{lemma_times_bounds, lemma_times_push, times};
use crate::events::{delivered, InboxOp};
use crate::finalize::can_detach;
use crate::state::{kept_if_held, WindowInner, WindowView};
use vstd::prelude::*;

verus! {

impl ViewTree {
    /// The state that the nearest view above `view` stores, if there is one.
    pub open spec fn ancestor(self, view: usize) -> Option<usize> {
        if exists|hops: nat| self.nearest_at(view, hops) {
            let hops = choose|hops: nat| self.nearest_at(view, hops);
            Some((self.state_of)(self.above(view, hops)))
        } else {
            None
        }
    }

    /// Whether the levels above `view` come to an end, or to a view that stores
    /// a state.
    pub open spec fn bounded(self, view: usize) -> bool {
        exists|hops: nat| self.nearest_at(view, hops) || #[trigger] self.ends_at(view, hops)
    }
}

/// The answer to a command of a teardown, on a view tree that stays as it is.
/// Nothing depends on the answers to the other commands.
pub open spec fn reply_to(tree: ViewTree, command: CloseCommand) -> usize {
    match command {
        CloseCommand::Find(query) => tree.answer(query),
        _ => 0,
    }
}

/// A teardown carried through to its end on the view tree `tree`: the actions
/// it takes, in order and without its questions, and the windows it leaves.
/// `None` where it is still going after `turns` answers, or where it may not be
/// resumed with the answer that the tree gives.
pub open spec fn close_run<E>(
    tree: ViewTree,
    now: (TeardownView, Map<usize, WindowView<E>>, CloseStep),
    turns: nat,
) -> Option<(Seq<CloseCommand>, Map<usize, WindowView<E>>)>
    decreases turns,
{
    match now.2 {
        CloseStep::Done => Some((Seq::empty(), now.1)),
        CloseStep::Ask(command) => if turns == 0 || !can_resume(
            now.0,
            now.1,
            reply_to(tree, command),
        ) {
            None
        } else {
            let rest = close_run(
                tree,
                close_next(now.0, now.1, reply_to(tree, command)),
                (turns - 1) as nat,
            );
            if command is Find {
                rest
            } else {
                after(seq![command], rest)
            }
        },
    }
}

/// The actions `first`, and then those of `rest`.
pub open spec fn after<E>(
    first: Seq<CloseCommand>,
    rest: Option<(Seq<CloseCommand>, Map<usize, WindowView<E>>)>,
) -> Option<(Seq<CloseCommand>, Map<usize, WindowView<E>>)> {
    match rest {
        Some((actions, windows)) => Some((first + actions, windows)),
        None => None,
    }
}

/// The table once the open window `key` has been closed and its timer and its
/// application have been taken out.
pub open spec fn level_done<E>(windows: Map<usize, WindowView<E>>, key: usize) -> Map<
    usize,
    WindowView<E>,
> {
    windows.insert(key, stripped(windows[key].closed()))
}

/// The window that the teardown of the open window `key` goes on to: the one
/// around it, unless `key` runs the application.
pub open spec fn next_level<E>(
    tree: ViewTree,
    windows: Map<usize, WindowView<E>>,
    key: usize,
) -> Option<usize> {
    match windows[key].window_inner.ns_app {
        Some(_) => None,
        None => tree.ancestor(windows[key].window_inner.ns_view),
    }
}

/// What tearing down `key` does, from the inside out: the actions for `key` if
/// it is open, then those for the window around it, and so on, for at most
/// `levels` windows.
pub open spec fn torn_down<E>(
    tree: ViewTree,
    windows: Map<usize, WindowView<E>>,
    key: usize,
    levels: nat,
) -> (Seq<CloseCommand>, Map<usize, WindowView<E>>)
    decreases levels,
{
    let state = windows[key];
    if levels == 0 || !state.window_inner.open {
        (Seq::empty(), windows)
    } else {
        let here = level_commands(state.window_inner, state.frame_timer);
        let done = level_done(windows, key);
        match next_level(tree, windows, key) {
            Some(found) => {
                let (rest, last) = torn_down(tree, done, found, (levels - 1) as nat);
                (here + rest, last)
            },
            None => (here, done),
        }
    }
}

/// The open windows of a table.
pub open spec fn open_keys<E>(windows: Map<usize, WindowView<E>>) -> Set<usize> {
    windows.dom().filter(|key: usize| windows[key].window_inner.open)
}

/// Whether `more` references to each window can be counted, and one for each
/// open window besides.
pub open spec fn has_count_for<E>(windows: Map<usize, WindowView<E>>, more: nat) -> bool {
    forall|key: usize| #[trigger]
        windows.contains_key(key) ==> windows[key].clones + more + open_keys(windows).len()
            <= usize::MAX
}

/// Whether the view tree fits the table: above every window the levels end or
/// come to a stored state, every stored state is that of a window, every window
/// is held by something, and the references to it can be counted.
pub open spec fn fits<E>(tree: ViewTree, windows: Map<usize, WindowView<E>>) -> bool {
    &&& has_count_for(windows, 0)
    &&& forall|key: usize| #[trigger]
        windows.contains_key(key) ==> {
            let view = windows[key].window_inner.ns_view;
            &&& tree.bounded(view)
            &&& tree.ancestor(view) matches Some(found) ==> windows.contains_key(found)
            &&& windows[key].is_held()
        }
}

/// The table with the references `held` counted on top.
pub open spec fn holding<E>(windows: Map<usize, WindowView<E>>, held: Seq<usize>) -> Map<
    usize,
    WindowView<E>,
> {
    windows.map_entries(
        |key: usize, state: WindowView<E>|
            WindowView { clones: (state.clones + times(held, key)) as usize, ..state },
    )
}

/// Whether the references `held` are to windows of the table, and can be
/// counted.
pub open spec fn can_hold<E>(windows: Map<usize, WindowView<E>>, held: Seq<usize>) -> bool {
    &&& has_count_for(windows, held.len())
    &&& forall|key: usize| #[trigger] times(held, key) > 0 ==> windows.contains_key(key)
}

proof fn lemma_holding_lends<E>(windows: Map<usize, WindowView<E>>, held: Seq<usize>)
    requires
        can_hold(windows, held),
    ensures
        lent(holding(windows, held), held),
        forall|key: usize| #[trigger]
            windows.contains_key(key) ==> holding(windows, held)[key].clones == windows[key].clones
                + times(held, key),
{
    assert forall|key: usize| #[trigger] windows.contains_key(key) implies holding(
        windows,
        held,
    )[key].clones == windows[key].clones + times(held, key) by {
        lemma_times_bounds(held, key);
    }
    assert forall|key: usize| #[trigger] times(held, key) > 0 implies holding(
        windows,
        held,
    ).contains_key(key) && times(held, key) <= holding(windows, held)[key].clones by {
        assert(windows.contains_key(key));
    }
}

/// A teardown that finishes gives back every reference, and drops no state that
/// something else holds.
proof fn lemma_finishing_gives_back<E>(t: TeardownView, windows: Map<usize, WindowView<E>>)
    requires
        t.propagate is None,
        can_hold(windows, t.held),
        forall|key: usize| #[trigger] windows.contains_key(key) ==> windows[key].is_held(),
    ensures
        finishes(t, holding(windows, t.held)) == ends(
            TeardownView { held: Seq::empty(), ..t },
            windows,
        ),
    decreases t.held.len(),
{
    let before = holding(windows, t.held);
    if t.held.len() == 0 {
        assert(t.held =~= Seq::empty());
        assert(before =~= windows);
    } else {
        let key = t.held.last();
        let fewer = t.held.drop_last();
        lemma_holding_lends(windows, t.held);
        assert(times(t.held, key) == times(fewer, key) + 1);
        assert(windows.contains_key(key));
        assert forall|other: usize| #[trigger] times(fewer, other) > 0 implies windows.contains_key(
            other,
        ) by {
            assert(times(t.held, other) > 0);
        }
        lemma_holding_lends(windows, fewer);
        assert(before[key].released().is_held());
        assert(before.insert(key, before[key].released()) =~= holding(windows, fewer));
        let next = TeardownView {
            phase: ClosePhaseView::Working(Seq::empty()),
            propagate: None,
            held: fewer,
            ..t
        };
        lemma_finishing_gives_back(next, windows);
        assert(finishes(t, before) == finishes(next, holding(windows, fewer)));
    }
}

proof fn lemma_search_outcome(tree: ViewTree, view: usize) -> (turns: nat)
    requires
        tree.bounded(view),
    ensures
        search_outcome(tree, search_from(view), turns) == Some(tree.ancestor(view)),
{
    if exists|hops: nat| tree.nearest_at(view, hops) {
        let hops = choose|hops: nat| tree.nearest_at(view, hops);
        search_finds_the_nearest(tree, view, hops, 4 * hops);
        4 * hops
    } else {
        let hops = choose|hops: nat|
            tree.nearest_at(view, hops) || #[trigger] tree.ends_at(view, hops);
        search_reports_none(tree, view, hops, 4 * hops);
        4 * hops
    }
}

/// Questions leave no trace: a teardown whose search ends with `ancestor` does
/// what it does from there on.
proof fn lemma_run_of_search<E>(
    tree: ViewTree,
    t: TeardownView,
    windows: Map<usize, WindowView<E>>,
    search: AncestorSearch,
    ancestor: Option<usize>,
    asked: nat,
    turns: nat,
) -> (more: nat)
    requires
        search_outcome(tree, search, asked) == Some(ancestor),
        t.phase == ClosePhaseView::Searching(search),
        windows.contains_key(t.key),
        t.closing matches Some(key) ==> windows.contains_key(key),
        lent(windows, t.held),
        ancestor matches Some(found) ==> windows.contains_key(found) && windows[found].clones
            < usize::MAX,
    ensures
        close_run(
            tree,
            (t, windows, CloseStep::Ask(CloseCommand::Find(search.awaiting))),
            more,
        ) == close_run(tree, searched(t, windows, ancestor), turns),
    decreases asked,
{
    let reply = tree.answer(search.awaiting);
    let (next, step) = search_next(search, reply);
    let t2 = TeardownView { phase: ClosePhaseView::Searching(next), ..t };
    assert(searched(t2, windows, ancestor) == searched(t, windows, ancestor));
    match step {
        SearchStep::Ask(query) => {
            let more = lemma_run_of_search(
                tree,
                t2,
                windows,
                next,
                ancestor,
                (asked - 1) as nat,
                turns,
            );
            assert(next.awaiting == query);
            more + 1
        },
        _ => turns + 1,
    }
}

/// Commands are carried out in order.
proof fn lemma_run_of_work<E>(
    tree: ViewTree,
    t: TeardownView,
    windows: Map<usize, WindowView<E>>,
    commands: Seq<CloseCommand>,
    turns: nat,
)
    requires
        forall|i: int| 0 <= i < commands.len() ==> !(#[trigger] commands[i] is Find),
        t.closing matches Some(key) ==> windows.contains_key(key),
        lent(windows, t.held),
        t.propagate matches Some(ancestor) ==> windows.contains_key(ancestor),
    ensures
        close_run(tree, works(t, windows, commands), turns + commands.len()) == after(
            commands,
            close_run(
                tree,
                works(
                    TeardownView { phase: ClosePhaseView::Working(Seq::empty()), ..t },
                    windows,
                    Seq::empty(),
                ),
                turns,
            ),
        ),
    decreases commands.len(),
{
    let last = works(
        TeardownView { phase: ClosePhaseView::Working(Seq::empty()), ..t },
        windows,
        Seq::<CloseCommand>::empty(),
    );
    let end = close_run(tree, last, turns);
    if commands.len() == 0 {
        assert(commands =~= Seq::<CloseCommand>::empty());
        assert(works(t, windows, commands) == last);
        match end {
            Some((actions, _)) => {
                assert(commands + actions =~= actions);
            },
            None => {},
        }
    } else {
        let rest = commands.drop_first();
        let t2 = TeardownView { phase: ClosePhaseView::Working(rest), ..t };
        lemma_run_of_work(tree, t2, windows, rest, turns);
        assert(works(t2, windows, rest) == close_next(t2, windows, 0));
        match end {
            Some((actions, _)) => {
                assert(seq![commands[0]] + (rest + actions) =~= commands + actions);
            },
            None => {},
        }
    }
}

/// The native window of `closing` is taken out of its state and closed.
pub open spec fn native_window_closed<E>(
    closing: Option<usize>,
    windows: Map<usize, WindowView<E>>,
) -> (Seq<CloseCommand>, Map<usize, WindowView<E>>) {
    match closing {
        Some(key) => match windows[key].window_inner.ns_window {
            Some(ns_window) => (
                seq![CloseCommand::CloseWindow(ns_window)],
                windows.insert(
                    key,
                    WindowView {
                        window_inner: WindowInner { ns_window: None, ..windows[key].window_inner },
                        ..windows[key]
                    },
                ),
            ),
            None => (seq![], windows),
        },
        None => (seq![], windows),
    }
}

proof fn lemma_run_of_end<E>(tree: ViewTree, t: TeardownView, windows: Map<usize, WindowView<E>>)
    requires
        t.held.len() == 0,
        t.closing matches Some(key) ==> windows.contains_key(key),
    ensures
        close_run(tree, ends(t, windows), 1) == Some(
            native_window_closed(t.closing, windows),
        ),
{
    let now = ends(t, windows);
    let next = close_next(now.0, now.1, 0);
    assert(close_run(tree, next, 0) == Some((Seq::<CloseCommand>::empty(), now.1)));
    match now.2 {
        CloseStep::Ask(command) => {
            assert(seq![command] + Seq::<CloseCommand>::empty() =~= seq![command]);
        },
        CloseStep::Done => {},
    }
}

pub(crate) proof fn lemma_level_done<E>(
    tree: ViewTree,
    windows: Map<usize, WindowView<E>>,
    key: usize,
)
    requires
        fits(tree, windows),
        windows.dom().finite(),
        windows.contains_key(key),
        windows[key].window_inner.open,
    ensures
        fits(tree, level_done(windows, key)),
        level_done(windows, key).dom() == windows.dom(),
        open_keys(level_done(windows, key)) == open_keys(windows).remove(key),
        open_keys(level_done(windows, key)).len() == open_keys(windows).len() - 1,
{
    let done = level_done(windows, key);
    assert(done.dom() =~= windows.dom());
    assert(open_keys(done) =~= open_keys(windows).remove(key));
    assert(open_keys(windows).contains(key));
    assert(open_keys(done).len() == open_keys(windows).len() - 1);
    assert forall|other: usize| #[trigger] done.contains_key(other) implies {
        let view = done[other].window_inner.ns_view;
        &&& tree.bounded(view)
        &&& tree.ancestor(view) matches Some(found) ==> done.contains_key(found)
        &&& done[other].is_held()
    } by {
        assert(windows.contains_key(other));
        assert(done[other].window_inner.ns_view == windows[other].window_inner.ns_view);
    }
    assert forall|other: usize| #[trigger] done.contains_key(other) implies done[other].clones
        + open_keys(done).len() <= usize::MAX by {
        assert(windows.contains_key(other));
    }
}

/// What a level does to the table, while references are held: the same as if
/// none were, and the window around is held on to.
proof fn lemma_level_holds<E>(
    tree: ViewTree,
    t: TeardownView,
    windows: Map<usize, WindowView<E>>,
    key: usize,
) -> (held: Seq<usize>)
    requires
        fits(tree, windows),
        can_hold(windows, t.held),
        windows.dom().finite(),
        windows.contains_key(key),
        windows[key].window_inner.open,
    ensures
        ({
            let ancestor = tree.ancestor(windows[key].window_inner.ns_view);
            let (t1, closed, _) = enters(t, holding(windows, t.held), key);
            let t3 = TeardownView { held, propagate: next_level(tree, windows, key), ..t1 };
            &&& can_hold(level_done(windows, key), held)
            &&& lent(closed, t.held)
            &&& closed.contains_key(key)
            &&& ancestor matches Some(found) ==> closed.contains_key(found) && closed[found].clones
                < usize::MAX
            &&& searched(t1, closed, ancestor) == works(
                t3,
                holding(level_done(windows, key), held),
                level_commands(windows[key].window_inner, windows[key].frame_timer),
            )
        }),
{
    let ancestor = tree.ancestor(windows[key].window_inner.ns_view);
    let done = level_done(windows, key);
    let before = holding(windows, t.held);
    let (t1, closed, _) = enters(t, before, key);
    let held = match ancestor {
        Some(found) => t.held.push(found),
        None => t.held,
    };
    lemma_holding_lends(windows, t.held);
    lemma_level_done(tree, windows, key);
    assert(closed == before.insert(key, before[key].closed()));
    assert(lent(closed, t.held)) by {
        assert forall|other: usize| #[trigger] times(t.held, other) > 0 implies {
            &&& closed.contains_key(other)
            &&& times(t.held, other) <= closed[other].clones
        } by {
            assert(before.contains_key(other));
        }
    }
    assert forall|other: usize| #[trigger] times(held, other) > 0 implies done.contains_key(
        other,
    ) by {
        if let Some(found) = ancestor {
            lemma_times_push(t.held, found, other);
        }
        if times(t.held, other) > 0 {
            assert(windows.contains_key(other));
        }
    }
    assert forall|other: usize| #[trigger] done.contains_key(other) implies done[other].clones
        + held.len() + open_keys(done).len() <= usize::MAX by {
        assert(windows.contains_key(other));
    }
    lemma_holding_lends(done, held);
    if let Some(found) = ancestor {
        assert(windows.contains_key(found));
        lemma_times_bounds(t.held, found);
    }
    let retained = match ancestor {
        Some(found) => closed.insert(found, closed[found].retained()),
        None => closed,
    };
    let after = retained.insert(key, stripped(retained[key]));
    let expected = holding(done, held);
    assert(after.dom() =~= expected.dom());
    assert forall|other: usize| #[trigger] after.contains_key(other) implies after[other]
        == expected[other] by {
        assert(windows.contains_key(other));
        assert(done.contains_key(other));
        if let Some(found) = ancestor {
            lemma_times_push(t.held, found, other);
        }
    }
    assert(after =~= expected);
    held
}

/// A teardown that turns to an open window takes the actions for that window,
/// and then goes on from there.
proof fn lemma_run_of_level<E>(
    tree: ViewTree,
    t: TeardownView,
    windows: Map<usize, WindowView<E>>,
    key: usize,
) -> (held: Seq<usize>)
    requires
        fits(tree, windows),
        can_hold(windows, t.held),
        windows.dom().finite(),
        windows.contains_key(key),
        windows[key].window_inner.open,
        t.closing matches Some(closing) ==> windows.contains_key(closing),
    ensures
        can_hold(level_done(windows, key), held),
        forall|turns: nat|
            exists|more: nat|
                close_run(tree, enters(t, holding(windows, t.held), key), more) == after(
                    level_commands(windows[key].window_inner, windows[key].frame_timer),
                    #[trigger] close_run(
                        tree,
                        works(
                            TeardownView {
                                key,
                                held,
                                propagate: next_level(tree, windows, key),
                                phase: ClosePhaseView::Working(Seq::empty()),
                                ..t
                            },
                            holding(level_done(windows, key), held),
                            Seq::empty(),
                        ),
                        turns,
                    ),
                ),
{
    let view = windows[key].window_inner.ns_view;
    let here = level_commands(windows[key].window_inner, windows[key].frame_timer);
    let ancestor = tree.ancestor(view);
    let asked = lemma_search_outcome(tree, view);
    let held = lemma_level_holds(tree, t, windows, key);
    lemma_level_done(tree, windows, key);
    let table = holding(level_done(windows, key), held);
    lemma_holding_lends(level_done(windows, key), held);
    let begun = enters(t, holding(windows, t.held), key);
    let (t1, closed, first) = begun;
    let t3 = TeardownView { held, propagate: next_level(tree, windows, key), ..t1 };
    let t4 = TeardownView { phase: ClosePhaseView::Working(Seq::empty()), ..t3 };
    assert(t4 == (TeardownView {
        key,
        held,
        propagate: next_level(tree, windows, key),
        phase: ClosePhaseView::Working(Seq::empty()),
        ..t
    }));
    let then = works(t4, table, Seq::<CloseCommand>::empty());
    assert forall|turns: nat|
        exists|more: nat|
            close_run(tree, begun, more) == after(
                here,
                #[trigger] close_run(tree, then, turns),
            ) by {
        lemma_run_of_work(tree, t3, table, here, turns);
        let more = lemma_run_of_search(
            tree,
            t1,
            closed,
            search_from(view),
            ancestor,
            asked,
            turns + here.len(),
        );
        assert(close_run(tree, begun, more) == after(here, close_run(tree, then, turns)));
    }
    held
}

/// A teardown does what it amounts to, and then deals with the native window.
proof fn lemma_run_of_teardown<E>(
    tree: ViewTree,
    t: TeardownView,
    windows: Map<usize, WindowView<E>>,
    key: usize,
    levels: nat,
) -> (turns: nat)
    requires
        fits(tree, windows),
        can_hold(windows, t.held),
        windows.contains_key(key),
        windows.dom().finite(),
        open_keys(windows).len() <= levels,
        t.closing matches Some(closing) ==> windows.contains_key(closing),
    ensures
        ({
            let (actions, last) = torn_down(tree, windows, key, levels);
            close_run(tree, enters(t, holding(windows, t.held), key), turns) == after(
                actions,
                Some(native_window_closed(t.closing, last)),
            )
        }),
    decreases levels,
{
    let state = windows[key];
    let ended = native_window_closed(t.closing, windows);
    if !state.window_inner.open {
        let t = TeardownView { key, propagate: None, ..t };
        lemma_finishing_gives_back(t, windows);
        lemma_run_of_end(tree, TeardownView { held: Seq::empty(), ..t }, windows);
        assert(Seq::<CloseCommand>::empty() + ended.0 =~= ended.0);
        1
    } else {
        assert(open_keys(windows).contains(key));
        assert(levels > 0);
        let here = level_commands(state.window_inner, state.frame_timer);
        let done = level_done(windows, key);
        lemma_level_done(tree, windows, key);
        let held = lemma_run_of_level(tree, t, windows, key);
        let next = TeardownView {
            key,
            held,
            propagate: next_level(tree, windows, key),
            phase: ClosePhaseView::Working(Seq::empty()),
            ..t
        };
        let then = works(next, holding(done, held), Seq::<CloseCommand>::empty());
        let turns: nat = match next_level(tree, windows, key) {
            Some(found) => {
                let turns = lemma_run_of_teardown(tree, next, done, found, (levels - 1) as nat);
                let (rest, end) = torn_down(tree, done, found, (levels - 1) as nat);
                assert(here + (rest + native_window_closed(t.closing, end).0) =~= (here + rest)
                    + native_window_closed(t.closing, end).0);
                turns
            },
            None => {
                lemma_finishing_gives_back(next, done);
                lemma_run_of_end(tree, TeardownView { held: Seq::empty(), ..next }, done);
                1
            },
        };
        let begun = enters(t, holding(windows, t.held), key);
        choose|more: nat|
            close_run(tree, begun, more) == after(here, close_run(tree, then, turns))
    }
}

proof fn lemma_nothing_held<E>(windows: Map<usize, WindowView<E>>)
    requires
        has_count_for(windows, 0),
    ensures
        can_hold(windows, Seq::empty()),
        holding(windows, Seq::empty()) == windows,
{
    assert(holding(windows, Seq::empty()) =~= windows);
}

/// Closing an open window, carried through to its end, does exactly this: it
/// tears the window down, then the window around it unless the first one runs
/// the application, and so on outwards up to a window that is closed already or
/// has none around it; and at the very end it closes the native window of the
/// window that was asked to close, and of no other. It always comes to its end,
/// and holds no reference to any window then.
pub proof fn closing_does<E>(tree: ViewTree, windows: Map<usize, WindowView<E>>, key: usize) -> (turns:
    nat)
    requires
        fits(tree, windows),
        windows.dom().finite(),
        windows.contains_key(key),
        windows[key].window_inner.open,
    ensures
        ({
            let (actions, last) = torn_down(tree, windows, key, open_keys(windows).len());
            let (end, after_all) = native_window_closed(Some(key), last);
            close_run(tree, closes(windows, key), turns) == Some((actions + end, after_all))
        }),
{
    lemma_nothing_held(windows);
    lemma_run_of_teardown(tree, idle(Some(key), key), windows, key, open_keys(windows).len())
}

/// Closing from the inside, because the native window is about to close by
/// itself, does the same but for the native window.
pub proof fn inner_closing_does<E>(
    tree: ViewTree,
    windows: Map<usize, WindowView<E>>,
    key: usize,
) -> (turns: nat)
    requires
        fits(tree, windows),
        windows.dom().finite(),
        windows.contains_key(key),
    ensures
        close_run(tree, enters(idle(None, key), windows, key), turns) == Some(
            torn_down(tree, windows, key, open_keys(windows).len()),
        ),
{
    let (actions, last) = torn_down(tree, windows, key, open_keys(windows).len());
    assert(actions + Seq::<CloseCommand>::empty() =~= actions);
    lemma_nothing_held(windows);
    lemma_run_of_teardown(tree, idle(None, key), windows, key, open_keys(windows).len())
}

/// A window is closed once: closing it again, by either way, asks for nothing
/// and changes nothing.
pub proof fn closing_again_does_nothing<E>(windows: Map<usize, WindowView<E>>, key: usize)
    requires
        !windows[key].window_inner.open,
    ensures
        closes(windows, key).1 == windows,
        closes(windows, key).2 is Done,
        enters(idle(None, key), windows, key).1 == windows,
        enters(idle(None, key), windows, key).2 is Done,
{
}

/// A window is closed from the moment that its closing begins, before any
/// native call is made.
pub proof fn closing_takes_effect_at_once<E>(windows: Map<usize, WindowView<E>>, key: usize)
    ensures
        !closes(windows, key).1[key].window_inner.open,
        !enters(idle(None, key), windows, key).1[key].window_inner.open,
{
}

/// The window that runs the application is cleaned up first, then the run loop
/// is stopped, and only then is its native window closed. The windows around
/// it, if any, are left alone.
pub proof fn standalone_closing_order<E>(
    tree: ViewTree,
    windows: Map<usize, WindowView<E>>,
    key: usize,
    app: usize,
    ns_window: usize,
) -> (turns: nat)
    requires
        fits(tree, windows),
        windows.dom().finite(),
        windows.contains_key(key),
        windows[key].window_inner.open,
        windows[key].window_inner.ns_app == Some(app),
        windows[key].window_inner.ns_window == Some(ns_window),
    ensures
        ({
            let view = windows[key].window_inner.ns_view;
            let timer = match windows[key].frame_timer {
                Some(timer) => seq![CloseCommand::RemoveTimer(timer)],
                None => seq![],
            };
            let run = close_run(tree, closes(windows, key), turns);
            let gone = stripped(windows[key].closed());
            &&& run is Some
            &&& (run->0).0 == timer + seq![
                CloseCommand::RemoveObserver(view),
                CloseCommand::ScheduleFinalize(view),
                CloseCommand::StopApp(app),
                CloseCommand::StopMainLoop,
                CloseCommand::WakeMainLoop,
                CloseCommand::CloseWindow(ns_window),
            ]
            &&& (run->0).1 == windows.insert(
                key,
                WindowView {
                    window_inner: WindowInner { ns_window: None, ..gone.window_inner },
                    ..gone
                },
            )
        }),
{
    let turns = closing_does(tree, windows, key);
    assert(open_keys(windows).contains(key));
    assert(open_keys(windows).len() > 0);
    let run = close_run(tree, closes(windows, key), turns);
    let view = windows[key].window_inner.ns_view;
    let timer = match windows[key].frame_timer {
        Some(timer) => seq![CloseCommand::RemoveTimer(timer)],
        None => seq![],
    };
    assert((run->0).0 =~= timer + seq![
        CloseCommand::RemoveObserver(view),
        CloseCommand::ScheduleFinalize(view),
        CloseCommand::StopApp(app),
        CloseCommand::StopMainLoop,
        CloseCommand::WakeMainLoop,
        CloseCommand::CloseWindow(ns_window),
    ]);
    let gone = stripped(windows[key].closed());
    assert((run->0).1 =~= windows.insert(
        key,
        WindowView {
            window_inner: WindowInner { ns_window: None, ..gone.window_inner },
            ..gone
        },
    ));
    turns
}

/// A window inside a host that is not of this library leaves the host's run
/// loop, and every other window, alone.
pub proof fn hosted_closing_leaves_the_host_alone<E>(
    tree: ViewTree,
    windows: Map<usize, WindowView<E>>,
    key: usize,
) -> (turns: nat)
    requires
        fits(tree, windows),
        windows.dom().finite(),
        windows.contains_key(key),
        windows[key].window_inner.open,
        windows[key].window_inner.ns_app is None,
        windows[key].window_inner.ns_window is None,
        tree.ancestor(windows[key].window_inner.ns_view) is None,
    ensures
        ({
            let view = windows[key].window_inner.ns_view;
            let timer = match windows[key].frame_timer {
                Some(timer) => seq![CloseCommand::RemoveTimer(timer)],
                None => seq![],
            };
            close_run(tree, closes(windows, key), turns) == Some(
                (
                    timer + seq![
                        CloseCommand::RemoveObserver(view),
                        CloseCommand::ScheduleFinalize(view),
                    ],
                    windows.insert(key, stripped(windows[key].closed())),
                ),
            )
        }),
{
    let turns = closing_does(tree, windows, key);
    assert(open_keys(windows).contains(key));
    assert(open_keys(windows).len() > 0);
    let run = close_run(tree, closes(windows, key), turns);
    let view = windows[key].window_inner.ns_view;
    let timer = match windows[key].frame_timer {
        Some(timer) => seq![CloseCommand::RemoveTimer(timer)],
        None => seq![],
    };
    assert((run->0).0 =~= timer + seq![
        CloseCommand::RemoveObserver(view),
        CloseCommand::ScheduleFinalize(view),
    ]);
    assert((run->0).1 =~= windows.insert(key, stripped(windows[key].closed())));
    turns
}

/// Closing a window inside another window of this library closes that one too,
/// whatever is around it. Right after the inner window, and in the same way, the
/// outer one loses its timer, stops observing and is scheduled for finalization;
/// and if it runs the application, the application and its run loop are stopped,
/// and nothing follows but the closing of the inner window's native window.
pub proof fn closing_reaches_the_window_around<E>(
    tree: ViewTree,
    windows: Map<usize, WindowView<E>>,
    key: usize,
    outer: usize,
) -> (turns: nat)
    requires
        fits(tree, windows),
        windows.dom().finite(),
        windows.contains_key(key),
        windows[key].window_inner.open,
        windows[key].window_inner.ns_app is None,
        tree.ancestor(windows[key].window_inner.ns_view) == Some(outer),
    ensures
        ({
            let run = close_run(tree, closes(windows, key), turns);
            let (actions, last) = run->0;
            let (inner_state, outer_state) = (windows[key], windows[outer]);
            let view = outer_state.window_inner.ns_view;
            let both = level_commands(inner_state.window_inner, inner_state.frame_timer)
                + level_commands(outer_state.window_inner, outer_state.frame_timer);
            &&& run is Some
            &&& !last[key].window_inner.open
            &&& !last[outer].window_inner.open
            &&& outer != key && outer_state.window_inner.open ==> {
                &&& both.is_prefix_of(actions)
                &&& outer_state.frame_timer matches Some(timer) ==> actions.contains(
                    CloseCommand::RemoveTimer(timer),
                )
                &&& last[outer].frame_timer is None
                &&& actions.contains(CloseCommand::RemoveObserver(view))
                &&& actions.contains(CloseCommand::ScheduleFinalize(view))
                &&& outer_state.window_inner.ns_app matches Some(app) ==> {
                    &&& actions.contains(CloseCommand::StopApp(app))
                    &&& actions.contains(CloseCommand::StopMainLoop)
                    &&& actions.contains(CloseCommand::WakeMainLoop)
                    &&& actions == both + native_window_closed(Some(key), windows).0
                }
            }
        }),
{
    let turns = closing_does(tree, windows, key);
    let levels = open_keys(windows).len();
    assert(open_keys(windows).contains(key));
    assert(levels > 0);
    let done = level_done(windows, key);
    lemma_level_done(tree, windows, key);
    lemma_torn_down_closes(tree, done, outer, (levels - 1) as nat);
    lemma_torn_down_keeps_closed(tree, done, outer, (levels - 1) as nat, key);
    if outer != key && windows[outer].window_inner.open {
        assert(open_keys(done).contains(outer));
        assert(levels - 1 > 0);
        let (actions, last) = close_run(tree, closes(windows, key), turns)->0;
        let state = windows[outer];
        assert(done[outer] == state);
        let first = level_commands(windows[key].window_inner, windows[key].frame_timer);
        let second = level_commands(state.window_inner, state.frame_timer);
        let rest = torn_down(tree, done, outer, (levels - 1) as nat);
        let further = match next_level(tree, done, outer) {
            Some(found) => {
                let after_outer = level_done(done, outer);
                lemma_torn_down_keeps_closed(
                    tree,
                    after_outer,
                    found,
                    (levels - 2) as nat,
                    outer,
                );
                torn_down(tree, after_outer, found, (levels - 2) as nat).0
            },
            None => Seq::empty(),
        };
        assert(rest.0 =~= second + further);
        assert((first + second).is_prefix_of(actions));
        lemma_level_commands(state.window_inner, state.frame_timer);
        assert forall|command: CloseCommand| #[trigger] second.contains(command) implies
            actions.contains(command) by {
            let i = choose|i: int| 0 <= i < second.len() && second[i] == command;
            assert(actions[first.len() + i] == command);
        }
        lemma_torn_down_keeps_window(tree, done, outer, (levels - 1) as nat, key);
        if state.window_inner.ns_app is Some {
            assert(actions =~= (first + second) + native_window_closed(Some(key), windows).0);
        }
    }
    turns
}

proof fn lemma_level_commands(inner: WindowInner, frame_timer: Option<usize>)
    ensures
        ({
            let commands = level_commands(inner, frame_timer);
            &&& frame_timer matches Some(timer) ==> commands.contains(
                CloseCommand::RemoveTimer(timer),
            )
            &&& commands.contains(CloseCommand::RemoveObserver(inner.ns_view))
            &&& commands.contains(CloseCommand::ScheduleFinalize(inner.ns_view))
            &&& inner.ns_app matches Some(app) ==> {
                &&& commands.contains(CloseCommand::StopApp(app))
                &&& commands.contains(CloseCommand::StopMainLoop)
                &&& commands.contains(CloseCommand::WakeMainLoop)
            }
        }),
{
    let commands = level_commands(inner, frame_timer);
    let n: int = if frame_timer is Some {
        1
    } else {
        0
    };
    if let Some(timer) = frame_timer {
        assert(commands[0] == CloseCommand::RemoveTimer(timer));
    }
    assert(commands[n] == CloseCommand::RemoveObserver(inner.ns_view));
    assert(commands[n + 1] == CloseCommand::ScheduleFinalize(inner.ns_view));
    if let Some(app) = inner.ns_app {
        assert(commands[n + 2] == CloseCommand::StopApp(app));
        assert(commands[n + 3] == CloseCommand::StopMainLoop);
        assert(commands[n + 4] == CloseCommand::WakeMainLoop);
    }
}

/// A teardown leaves the native windows in the table alone.
proof fn lemma_torn_down_keeps_window<E>(
    tree: ViewTree,
    windows: Map<usize, WindowView<E>>,
    key: usize,
    levels: nat,
    other: usize,
)
    ensures
        torn_down(tree, windows, key, levels).1[other].window_inner.ns_window
            == windows[other].window_inner.ns_window,
    decreases levels,
{
    if levels > 0 && windows[key].window_inner.open {
        let done = level_done(windows, key);
        match next_level(tree, windows, key) {
            Some(found) => {
                lemma_torn_down_keeps_window(tree, done, found, (levels - 1) as nat, other);
            },
            None => {},
        }
    }
}

pub(crate) proof fn lemma_torn_down_closes<E>(
    tree: ViewTree,
    windows: Map<usize, WindowView<E>>,
    key: usize,
    levels: nat,
)
    requires
        fits(tree, windows),
        windows.dom().finite(),
        windows.contains_key(key),
        open_keys(windows).len() <= levels,
    ensures
        !torn_down(tree, windows, key, levels).1[key].window_inner.open,
{
    if windows[key].window_inner.open {
        assert(open_keys(windows).contains(key));
        assert(levels > 0);
        let done = level_done(windows, key);
        lemma_level_done(tree, windows, key);
        match next_level(tree, windows, key) {
            Some(found) => {
                lemma_torn_down_keeps_closed(tree, done, found, (levels - 1) as nat, key);
            },
            None => {},
        }
    }
}

proof fn lemma_torn_down_keeps_closed<E>(
    tree: ViewTree,
    windows: Map<usize, WindowView<E>>,
    key: usize,
    levels: nat,
    other: usize,
)
    requires
        !windows[other].window_inner.open,
    ensures
        !torn_down(tree, windows, key, levels).1[other].window_inner.open,
        windows[other].frame_timer is None ==> torn_down(
            tree,
            windows,
            key,
            levels,
        ).1[other].frame_timer is None,
    decreases levels,
{
    if levels > 0 && windows[key].window_inner.open {
        let done = level_done(windows, key);
        match next_level(tree, windows, key) {
            Some(found) => {
                lemma_torn_down_keeps_closed(tree, done, found, (levels - 1) as nat, other);
            },
            None => {},
        }
    }
}

/// The frame timer of a window is removed before anything else is done to close
/// the window, and the window has none afterwards, so that no further frame is
/// asked for.
pub proof fn closing_cancels_the_frame_timer<E>(
    tree: ViewTree,
    windows: Map<usize, WindowView<E>>,
    key: usize,
    timer: usize,
) -> (turns: nat)
    requires
        fits(tree, windows),
        windows.dom().finite(),
        windows.contains_key(key),
        windows[key].window_inner.open,
        windows[key].frame_timer == Some(timer),
    ensures
        ({
            let run = close_run(tree, closes(windows, key), turns);
            &&& run is Some
            &&& (run->0).0.len() > 0
            &&& (run->0).0[0] == CloseCommand::RemoveTimer(timer)
            &&& (run->0).1[key].frame_timer is None
        }),
{
    let turns = closing_does(tree, windows, key);
    let levels = open_keys(windows).len();
    assert(open_keys(windows).contains(key));
    assert(levels > 0);
    let done = level_done(windows, key);
    match next_level(tree, windows, key) {
        Some(found) => {
            lemma_torn_down_keeps_closed(tree, done, found, (levels - 1) as nat, key);
        },
        None => {},
    }
    turns
}

/// Whether `after` differs from `before` only as a teardown may make it differ
/// that holds the references `held_before` first and `held_after` then: no
/// closed window is open again; views, contexts and waiting events are where
/// they were; no window has been let go of by what held it, and apart from the
/// references of the teardown, which stay counted, each has as many as it had.
/// A window is gone only if nothing but the teardown held it.
pub open spec fn nothing_destroyed<E>(
    before: Map<usize, WindowView<E>>,
    held_before: Seq<usize>,
    after: Map<usize, WindowView<E>>,
    held_after: Seq<usize>,
) -> bool {
    &&& lent(after, held_after)
    &&& forall|key: usize| #[trigger]
        after.contains_key(key) ==> before.contains_key(key) && {
            let (old_state, new_state) = (before[key], after[key]);
            &&& new_state.window_inner.open ==> old_state.window_inner.open
            &&& new_state.window_inner.ns_view == old_state.window_inner.ns_view
            &&& new_state.window_inner.gl_context == old_state.window_inner.gl_context
            &&& new_state.window_info == old_state.window_info
            &&& new_state.frame_timer is Some ==> new_state.frame_timer == old_state.frame_timer
            &&& new_state.handler_borrowed == old_state.handler_borrowed
            &&& new_state.deferred_events == old_state.deferred_events
            &&& new_state.attached == old_state.attached
            &&& new_state.handle == old_state.handle
            &&& new_state.clones - times(held_after, key) == old_state.clones - times(
                held_before,
                key,
            )
        }
    &&& forall|key: usize| #[trigger]
        before.contains_key(key) && !after.contains_key(key) ==> {
            &&& !before[key].attached
            &&& !before[key].handle
            &&& before[key].clones == times(held_before, key)
        }
}

proof fn lemma_finishing_destroys_nothing<E>(t: TeardownView, windows: Map<usize, WindowView<E>>)
    requires
        t.closing matches Some(key) ==> windows.contains_key(key),
        lent(windows, t.held),
    ensures
        nothing_destroyed(
            windows,
            t.held,
            finishes(t, windows).1,
            finishes(t, windows).0.held,
        ),
    decreases t.held.len(),
{
    if t.held.len() > 0 {
        let key = t.held.last();
        let fewer = t.held.drop_last();
        assert(times(t.held, key) > 0);
        let state = windows[key].released();
        let next = TeardownView {
            phase: ClosePhaseView::Working(Seq::empty()),
            propagate: None,
            held: fewer,
            ..t
        };
        let table = kept_if_held(windows, key, state);
        assert forall|other: usize| #[trigger] times(fewer, other) > 0 implies {
            &&& table.contains_key(other)
            &&& times(fewer, other) <= table[other].clones
        } by {
            assert(times(t.held, other) > 0);
        }
        if state.is_held() {
            lemma_finishing_destroys_nothing(next, table);
            let (end, after, _) = finishes(next, table);
            assert(finishes(t, windows) == finishes(next, table));
            assert forall|other: usize| #[trigger] after.contains_key(other) implies {
                &&& windows.contains_key(other)
                &&& after[other].clones - times(end.held, other) == windows[other].clones - times(
                    t.held,
                    other,
                )
            } by {
                assert(table.contains_key(other));
            }
            assert forall|other: usize| #[trigger]
                windows.contains_key(other) && !after.contains_key(other) implies {
                &&& !windows[other].attached
                &&& !windows[other].handle
                &&& windows[other].clones == times(t.held, other)
            } by {
                assert(table.contains_key(other));
            }
        }
    }
}

proof fn lemma_entering_destroys_nothing<E>(
    t: TeardownView,
    windows: Map<usize, WindowView<E>>,
    key: usize,
)
    requires
        windows.contains_key(key),
        t.closing matches Some(closing) ==> windows.contains_key(closing),
        lent(windows, t.held),
    ensures
        nothing_destroyed(
            windows,
            t.held,
            enters(t, windows, key).1,
            enters(t, windows, key).0.held,
        ),
{
    if !windows[key].window_inner.open {
        lemma_finishing_destroys_nothing(TeardownView { key, propagate: None, ..t }, windows);
    }
}

proof fn lemma_searching_destroys_nothing<E>(
    t: TeardownView,
    windows: Map<usize, WindowView<E>>,
    ancestor: Option<usize>,
)
    requires
        windows.contains_key(t.key),
        lent(windows, t.held),
        ancestor matches Some(found) ==> windows.contains_key(found) && windows[found].clones
            < usize::MAX,
    ensures
        nothing_destroyed(
            windows,
            t.held,
            searched(t, windows, ancestor).1,
            searched(t, windows, ancestor).0.held,
        ),
{
    let (table, held) = match ancestor {
        Some(found) => (windows.insert(found, windows[found].retained()), t.held.push(found)),
        None => (windows, t.held),
    };
    let after = table.insert(t.key, stripped(table[t.key]));
    assert(level_commands(table[t.key].window_inner, table[t.key].frame_timer).len() > 0);
    assert(searched(t, windows, ancestor).1 == after);
    assert(searched(t, windows, ancestor).0.held == held);
    assert forall|key: usize| times(held, key) == #[trigger] times(t.held, key) + if ancestor
        == Some(key) {
        1nat
    } else {
        0nat
    } by {
        if let Some(found) = ancestor {
            lemma_times_push(t.held, found, key);
        }
    }
    assert forall|key: usize| #[trigger] times(held, key) > 0 implies {
        &&& after.contains_key(key)
        &&& times(held, key) <= after[key].clones
    } by {
        assert(times(held, key) == times(t.held, key) + if ancestor == Some(key) {
            1nat
        } else {
            0nat
        });
    }
    assert forall|key: usize| #[trigger] after.contains_key(key) implies {
        &&& windows.contains_key(key)
        &&& after[key].clones - times(held, key) == windows[key].clones - times(t.held, key)
    } by {
        assert(times(held, key) == times(t.held, key) + if ancestor == Some(key) {
            1nat
        } else {
            0nat
        });
    }
}

/// No step of a teardown destroys anything, so a handler that is running while
/// its window closes can finish; no step opens a window again; and the
/// references that the teardown takes are those that it gives back.
pub proof fn teardown_destroys_nothing<E>(
    t: TeardownView,
    windows: Map<usize, WindowView<E>>,
    reply: usize,
)
    requires
        can_resume(t, windows, reply),
    ensures
        nothing_destroyed(
            windows,
            t.held,
            close_next(t, windows, reply).1,
            close_next(t, windows, reply).0.held,
        ),
{
    match t.phase {
        ClosePhaseView::Searching(search) => {
            let (search, step) = search_next(search, reply);
            let t = TeardownView { phase: ClosePhaseView::Searching(search), ..t };
            match step {
                SearchStep::Ask(query) => {},
                SearchStep::Found(found) => {
                    lemma_searching_destroys_nothing(t, windows, Some(found));
                },
                SearchStep::NotFound => {
                    lemma_searching_destroys_nothing(t, windows, None);
                },
            }
        },
        ClosePhaseView::Working(commands) => if commands.len() == 0 {
            match t.propagate {
                Some(ancestor) => {
                    lemma_entering_destroys_nothing(t, windows, ancestor);
                },
                None => {
                    lemma_finishing_destroys_nothing(t, windows);
                },
            }
        },
        ClosePhaseView::Finished => {},
    }
}

/// Neither does its beginning, at which it holds no reference.
pub proof fn closing_destroys_nothing<E>(windows: Map<usize, WindowView<E>>, key: usize)
    requires
        windows.contains_key(key),
    ensures
        closes(windows, key).1.dom() == windows.dom(),
        closes(windows, key).0.held.len() == 0,
        nothing_destroyed(windows, Seq::empty(), closes(windows, key).1, Seq::empty()),
        enters(idle(None, key), windows, key).1.dom() == windows.dom(),
        enters(idle(None, key), windows, key).0.held.len() == 0,
        nothing_destroyed(
            windows,
            Seq::empty(),
            enters(idle(None, key), windows, key).1,
            Seq::empty(),
        ),
{
    lemma_entering_destroys_nothing(idle(Some(key), key), windows, key);
    lemma_entering_destroys_nothing(idle(None, key), windows, key);
    assert(closes(windows, key).1.dom() =~= windows.dom());
    assert(enters(idle(None, key), windows, key).1.dom() =~= windows.dom());
}

proof fn lemma_finishing_holds_nothing<E>(t: TeardownView, windows: Map<usize, WindowView<E>>)
    ensures
        finishes(t, windows).2 == CloseStep::Ask(
            CloseCommand::DropState(finishes(t, windows).2->0->DropState_0),
        ) || finishes(t, windows).0.held.len() == 0,
    decreases t.held.len(),
{
    if t.held.len() > 0 {
        let key = t.held.last();
        let next = TeardownView {
            phase: ClosePhaseView::Working(Seq::empty()),
            propagate: None,
            held: t.held.drop_last(),
            ..t
        };
        lemma_finishing_holds_nothing(
            next,
            kept_if_held(windows, key, windows[key].released()),
        );
    }
}

/// By the time that a teardown closes a native window, or ends, it has given
/// back every reference that it has taken.
pub proof fn references_go_before_the_native_window<E>(
    t: TeardownView,
    windows: Map<usize, WindowView<E>>,
    reply: usize,
    ns_window: usize,
)
    requires
        t.phase !is Finished,
        t.phase matches ClosePhaseView::Working(commands) ==> !commands.contains(
            CloseCommand::CloseWindow(ns_window),
        ),
    ensures
        ({
            let (next, _, step) = close_next(t, windows, reply);
            step is Done || step == CloseStep::Ask(CloseCommand::CloseWindow(ns_window))
                ==> next.held.len() == 0
        }),
{
    if let ClosePhaseView::Working(commands) = t.phase {
        if commands.len() > 0 {
            assert(commands.contains(commands[0]));
        } else {
            match t.propagate {
                Some(ancestor) => {
                    lemma_finishing_holds_nothing(
                        TeardownView { key: ancestor, propagate: None, ..t },
                        windows,
                    );
                },
                None => {
                    lemma_finishing_holds_nothing(t, windows);
                },
            }
        }
    }
}

/// A window whose view stores its state can be finalized once its closing has
/// begun and its handler has returned, or at once if something besides the view
/// keeps the state; and no step of a teardown takes that away again.
pub proof fn closing_leads_to_finalization<E>(
    windows: Map<usize, WindowView<E>>,
    key: usize,
    t: TeardownView,
    reply: usize,
    other: usize,
)
    requires
        windows.contains_key(key),
        windows[key].attached,
    ensures
        ({
            let closed = closes(windows, key).1;
            let inner_closed = enters(idle(None, key), windows, key).1;
            let ready = windows[key].handler_borrowed ==> windows[key].clones > 0
                || windows[key].handle;
            &&& ready ==> can_detach(closed, key) && can_detach(inner_closed, key)
            &&& windows[key].deferred_events.len() == 0 ==> {
                &&& can_detach(delivered(closed, key, InboxOp::Returned), key)
                &&& can_detach(delivered(inner_closed, key, InboxOp::Returned), key)
            }
        }),
        can_resume(t, windows, reply) && can_detach(windows, other) && (
        windows[other].handler_borrowed ==> windows[other].clones > times(t.held, other)
            || windows[other].handle)
            ==> can_detach(close_next(t, windows, reply).1, other),
{
    closing_destroys_nothing(windows, key);
    closing_takes_effect_at_once(windows, key);
    assert(closes(windows, key).1.contains_key(key));
    assert(enters(idle(None, key), windows, key).1.contains_key(key));
    if can_resume(t, windows, reply) && can_detach(windows, other) {
        teardown_destroys_nothing(t, windows, reply);
        let after = close_next(t, windows, reply).1;
        assert(windows.contains_key(other) && !after.contains_key(other) ==> false);
    }
}

} // verus!
