//! What opening a window amounts to as a whole.
use crate::ancestor::ViewTree;
use crate::close::{closes, stripped, CloseCommand};
use crate::close_laws::{
    close_run, closing_does, fits, hosted_closing_leaves_the_host_alone, open_keys,
    standalone_closing_order,
};
use crate::finalize::{finalized, finalizing_drops_the_state, finalizing_spares_a_held_state};
use crate::open::{OpenMode, OpeningView};
use crate::state::{kept_if_held, WindowView};
use crate::values::NIL;
use vstd::prelude::*;

verus! {

impl OpeningView {
    /// The opening as it was after its first `n` answers.
    pub open spec fn earlier(self, n: int) -> OpeningView {
        OpeningView {
            replies: self.replies.take(n),
            key: if n >= self.build_at() {
                self.key
            } else {
                NIL
            },
            ..self
        }
    }

    /// The state of a window that has been opened, if nobody has touched it
    /// meanwhile.
    pub open spec fn opened_state<E>(self) -> WindowView<E> {
        WindowView {
            attached: true,
            frame_timer: Some(self.timer()),
            handle: self.mode is Parented,
            ..self.new_state()
        }
    }
}

/// The commands of an opening are those of one script, though each of them is
/// chosen when only the answers before it are known.
pub proof fn opening_follows_one_script(opening: OpeningView, n: int)
    requires
        0 <= n <= opening.replies.len(),
        n < opening.script().len(),
    ensures
        opening.earlier(n).script().len() == opening.script().len(),
        opening.earlier(n).script()[n] == opening.script()[n],
{
    let early = opening.earlier(n);
    let view_at = opening.view_at();
    let build_at = opening.build_at();
    if n <= view_at {
        assert(early.script()[n] == early.preparation()[n]);
        assert(opening.script()[n] == opening.preparation()[n]);
    } else {
        assert(early.ns_view() == opening.ns_view());
        if n < build_at {
            assert(early.script()[n] == early.context()[0]);
            assert(opening.script()[n] == opening.context()[0]);
        } else if n < build_at + 4 {
            assert(early.script()[n] == early.initialization()[n - build_at]);
            assert(opening.script()[n] == opening.initialization()[n - build_at]);
        } else {
            assert(early.script()[n] == early.placement()[n - build_at - 4]);
            assert(opening.script()[n] == opening.placement()[n - build_at - 4]);
        }
    }
}

/// An opening and the table after these answers, if nobody else touches the
/// table meanwhile. `None` where one of the answers may not be given.
pub open spec fn open_run<E>(
    start: OpeningView,
    windows: Map<usize, WindowView<E>>,
    next_key: usize,
    replies: Seq<usize>,
) -> Option<(OpeningView, Map<usize, WindowView<E>>)>
    decreases replies.len(),
{
    if replies.len() == 0 {
        Some((start, windows))
    } else {
        match open_run(start, windows, next_key, replies.drop_last()) {
            Some((opening, windows)) => if opening.can_resume(windows, next_key, replies.last()) {
                let opening = opening.answered(replies.last(), next_key);
                Some((opening, opening.applied(windows)))
            } else {
                None
            },
            None => None,
        }
    }
}

/// The window's state after the opening has got `n` answers, `n` being enough
/// for the window to be in the table.
pub open spec fn state_during<E>(opening: OpeningView, n: int) -> WindowView<E> {
    if n < opening.build_at() + 2 {
        opening.new_state()
    } else if n < opening.build_at() + 4 {
        WindowView { attached: true, ..opening.new_state() }
    } else {
        opening.opened_state()
    }
}

proof fn lemma_state_during<E>(whole: OpeningView, opening: OpeningView, n: int)
    requires
        opening.build_at() <= n <= opening.replies.len(),
        n == opening.replies.len(),
        n <= whole.replies.len(),
        opening == (OpeningView { replies: whole.replies.take(n), ..whole }),
    ensures
        state_during::<E>(opening, n) == state_during::<E>(whole, n),
{
    assert(opening.replies[opening.view_at()] == whole.replies[whole.view_at()]);
}

pub(crate) proof fn lemma_open_run<E>(
    start: OpeningView,
    windows: Map<usize, WindowView<E>>,
    next_key: usize,
    replies: Seq<usize>,
)
    requires
        start.replies.len() == 0,
        start.key == NIL,
        replies.len() <= start.script().len(),
        replies.len() > start.view_at() ==> replies[start.view_at()] != NIL,
        NIL < next_key < usize::MAX,
        !windows.contains_key(next_key),
    ensures
        ({
            let built = replies.len() >= start.build_at();
            let opening = OpeningView {
                replies,
                key: if built {
                    next_key
                } else {
                    NIL
                },
                ..start
            };
            open_run(start, windows, next_key, replies) == Some(
                (
                    opening,
                    if built {
                        windows.insert(next_key, state_during(opening, replies.len() as int))
                    } else {
                        windows
                    },
                ),
            )
        }),
    decreases replies.len(),
{
    if replies.len() == 0 {
        assert(start.replies =~= replies);
    } else {
        let n = replies.len() as int;
        let fewer = replies.drop_last();
        lemma_open_run(start, windows, next_key, fewer);
        let (before, table) = open_run(start, windows, next_key, fewer)->0;
        assert(fewer.push(replies.last()) =~= replies);
        assert(before.script().len() == start.script().len());
        let opening = before.answered(replies.last(), next_key);
        assert(opening.replies == replies);
        assert(before.can_resume(table, next_key, replies.last()));
        if n > start.build_at() {
            assert(before == (OpeningView { replies: opening.replies.take(n - 1), ..opening }));
            lemma_state_during::<E>(opening, before, n - 1);
            assert(opening.applied(table) =~= windows.insert(
                next_key,
                state_during(opening, n),
            ));
        }
    }
}

/// Opening a window adds one window to the table, under a new key: it is open,
/// stored by its view, has the frame timer that was made for it, nothing waits
/// for its handler, and it is held by the program's handle if it was opened
/// inside another window. No other window changes.
pub proof fn opening_adds_one_window<E>(
    opening: OpeningView,
    windows: Map<usize, WindowView<E>>,
    next_key: usize,
)
    requires
        opening.replies.len() == opening.script().len(),
        opening.ns_view() != NIL,
        opening.key == next_key,
        NIL < next_key < usize::MAX,
        !windows.contains_key(next_key),
    ensures
        open_run(
            OpeningView { replies: Seq::empty(), key: NIL, ..opening },
            windows,
            next_key,
            opening.replies,
        ) == Some((opening, windows.insert(next_key, opening.opened_state()))),
        opening.opened_state::<E>().is_sound(),
        opening.opened_state::<E>().is_built(),
{
    let start = OpeningView { replies: Seq::empty(), key: NIL, ..opening };
    assert(start.script().len() == opening.script().len());
    lemma_open_run(start, windows, next_key, opening.replies);
}

/// Closing a window that was opened on its own undoes what opening it set
/// going: the timer that was made is removed, the application that was run is
/// stopped, and the native window that was created is closed, in this order.
pub proof fn closing_undoes_blocking<E>(
    tree: ViewTree,
    opening: OpeningView,
    windows: Map<usize, WindowView<E>>,
) -> (turns: nat)
    requires
        opening.mode is Blocking,
        opening.replies.len() == opening.script().len(),
        fits(tree, windows.insert(opening.key, opening.opened_state())),
        windows.dom().finite(),
    ensures
        ({
            let opened = windows.insert(opening.key, opening.opened_state());
            let run = close_run(tree, closes(opened, opening.key), turns);
            &&& run is Some
            &&& (run->0).0 == seq![
                CloseCommand::RemoveTimer(opening.timer()),
                CloseCommand::RemoveObserver(opening.ns_view()),
                CloseCommand::ScheduleFinalize(opening.ns_view()),
                CloseCommand::StopApp(opening.replies[1]),
                CloseCommand::StopMainLoop,
                CloseCommand::WakeMainLoop,
                CloseCommand::CloseWindow(opening.replies[4]),
            ]
        }),
{
    let opened = windows.insert(opening.key, opening.opened_state());
    let turns = standalone_closing_order(
        tree,
        opened,
        opening.key,
        opening.replies[1],
        opening.replies[4],
    );
    let run = close_run(tree, closes(opened, opening.key), turns);
    assert((run->0).0 =~= seq![
        CloseCommand::RemoveTimer(opening.timer()),
        CloseCommand::RemoveObserver(opening.ns_view()),
        CloseCommand::ScheduleFinalize(opening.ns_view()),
        CloseCommand::StopApp(opening.replies[1]),
        CloseCommand::StopMainLoop,
        CloseCommand::WakeMainLoop,
        CloseCommand::CloseWindow(opening.replies[4]),
    ]);
    turns
}

/// Closing a window that was opened inside one that is not of this library
/// removes the timer that was made, stops observing, schedules the
/// finalization, and touches nothing of the host.
pub proof fn closing_undoes_parented<E>(
    tree: ViewTree,
    opening: OpeningView,
    windows: Map<usize, WindowView<E>>,
) -> (turns: nat)
    requires
        opening.mode is Parented,
        opening.replies.len() == opening.script().len(),
        fits(tree, windows.insert(opening.key, opening.opened_state())),
        windows.dom().finite(),
        tree.ancestor(opening.ns_view()) is None,
    ensures
        ({
            let opened = windows.insert(opening.key, opening.opened_state());
            close_run(tree, closes(opened, opening.key), turns) == Some(
                (
                    seq![
                        CloseCommand::RemoveTimer(opening.timer()),
                        CloseCommand::RemoveObserver(opening.ns_view()),
                        CloseCommand::ScheduleFinalize(opening.ns_view()),
                    ],
                    windows.insert(
                        opening.key,
                        stripped(opening.opened_state::<E>().closed()),
                    ),
                ),
            )
        }),
{
    let opened = windows.insert(opening.key, opening.opened_state());
    let turns = hosted_closing_leaves_the_host_alone(tree, opened, opening.key);
    let run = close_run(tree, closes(opened, opening.key), turns);
    assert((run->0).0 =~= seq![
        CloseCommand::RemoveTimer(opening.timer()),
        CloseCommand::RemoveObserver(opening.ns_view()),
        CloseCommand::ScheduleFinalize(opening.ns_view()),
    ]);
    assert((run->0).1 =~= windows.insert(
        opening.key,
        stripped(opening.opened_state::<E>().closed()),
    ));
    turns
}

/// A window on its own leaves nothing behind: once it has been opened and closed
/// and its closing has been finalized, the table is as it was before.
pub proof fn blocking_life_leaves_nothing<E>(
    tree: ViewTree,
    opening: OpeningView,
    windows: Map<usize, WindowView<E>>,
) -> (turns: nat)
    requires
        opening.mode is Blocking,
        opening.replies.len() == opening.script().len(),
        opening.key != NIL,
        !windows.contains_key(opening.key),
        fits(tree, windows.insert(opening.key, opening.opened_state())),
        windows.dom().finite(),
    ensures
        ({
            let opened = windows.insert(opening.key, opening.opened_state());
            let run = close_run(tree, closes(opened, opening.key), turns);
            let end = finalized(opening.ns_view(), (run->0).1, opening.key);
            &&& run is Some
            &&& end is Some
            &&& (end->0).1 == windows
        }),
{
    let key = opening.key;
    let opened = windows.insert(key, opening.opened_state());
    let turns = closing_does(tree, opened, key);
    assert(open_keys(opened).contains(key));
    assert(open_keys(opened).len() > 0);
    let closed = (close_run(tree, closes(opened, key), turns)->0).1;
    finalizing_drops_the_state(opening.ns_view(), closed, key);
    assert(closed.remove(key) =~= windows);
    turns
}

/// A window inside a host leaves nothing behind: once it has been opened and
/// closed, its closing has been finalized and the program has given up its
/// handle, the table is as it was before. Until then its state stays.
pub proof fn parented_life_leaves_nothing<E>(
    tree: ViewTree,
    opening: OpeningView,
    windows: Map<usize, WindowView<E>>,
) -> (turns: nat)
    requires
        opening.mode is Parented,
        opening.replies.len() == opening.script().len(),
        opening.key != NIL,
        !windows.contains_key(opening.key),
        fits(tree, windows.insert(opening.key, opening.opened_state())),
        windows.dom().finite(),
        tree.ancestor(opening.ns_view()) is None,
    ensures
        ({
            let opened = windows.insert(opening.key, opening.opened_state());
            let run = close_run(tree, closes(opened, opening.key), turns);
            let end = finalized(opening.ns_view(), (run->0).1, opening.key);
            let left = (end->0).1;
            let given_up = WindowView { handle: false, ..left[opening.key] };
            &&& run is Some
            &&& end is Some
            &&& left.contains_key(opening.key)
            &&& kept_if_held(left, opening.key, given_up) == windows
        }),
{
    let key = opening.key;
    let opened = windows.insert(key, opening.opened_state());
    let turns = closing_undoes_parented(tree, opening, windows);
    let closed = (close_run(tree, closes(opened, key), turns)->0).1;
    finalizing_spares_a_held_state(opening.ns_view(), closed, key);
    let left = (finalized(opening.ns_view(), closed, key)->0).1;
    assert(left.remove(key) =~= windows);
    turns
}

} // verus!
