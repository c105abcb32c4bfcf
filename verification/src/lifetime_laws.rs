//! What holds of a window from its opening to its end.
use crate::close::{can_resume, close_next, closes, enters, idle, TeardownView};
use crate::close_laws::{closing_destroys_nothing, teardown_destroys_nothing};
use crate::counting::times;
use crate::events::{delivered, InboxOp};
use crate::finalize::{can_finalize, finalize_next, FinalizeClose};
use crate::open::OpeningView;
use crate::state::{kept_if_held, WindowView};
use crate::values::WindowInfo;
use vstd::prelude::*;

verus! {

/// Whether every window that was closed is still closed, or gone.
pub open spec fn closed_stay_closed<E>(
    before: Map<usize, WindowView<E>>,
    after: Map<usize, WindowView<E>>,
) -> bool {
    forall|key: usize| #[trigger]
        after.contains_key(key) && before.contains_key(key) && !before[key].window_inner.open
            ==> !after[key].window_inner.open
}

/// Nothing that happens to windows opens a closed one again: not closing one,
/// not finalizing a closing, not an event, not a new extent, not the opening of
/// another window.
pub proof fn no_window_opens_again<E>(
    windows: Map<usize, WindowView<E>>,
    key: usize,
    reply: usize,
    teardown: TeardownView,
    finalization: FinalizeClose,
    op: InboxOp<E>,
    opening: OpeningView,
    info: WindowInfo,
)
    requires
        windows.contains_key(key),
        opening.replies.len() == opening.build_at() ==> !windows.contains_key(opening.key),
    ensures
        closed_stay_closed(windows, closes(windows, key).1),
        closed_stay_closed(windows, enters(idle(None, key), windows, key).1),
        can_resume(teardown, windows, reply) ==> closed_stay_closed(
            windows,
            close_next(teardown, windows, reply).1,
        ),
        can_finalize(finalization, windows, reply) ==> closed_stay_closed(
            windows,
            finalize_next(finalization, windows, reply).1,
        ),
        closed_stay_closed(windows, delivered(windows, key, op)),
        closed_stay_closed(windows, opening.applied(windows)),
        closed_stay_closed(
            windows,
            windows.insert(key, WindowView { window_info: info, ..windows[key] }),
        ),
        closed_stay_closed(windows, windows.insert(key, windows[key].retained())),
        closed_stay_closed(windows, kept_if_held(windows, key, windows[key].released())),
        closed_stay_closed(
            windows,
            kept_if_held(windows, key, WindowView { handle: false, ..windows[key] }),
        ),
{
    closing_destroys_nothing(windows, key);
    if can_resume(teardown, windows, reply) {
        teardown_destroys_nothing(teardown, windows, reply);
    }
}

/// Whether every closed window whose timer was cancelled still has none, or is
/// gone.
pub open spec fn timers_stay_cancelled<E>(
    before: Map<usize, WindowView<E>>,
    after: Map<usize, WindowView<E>>,
) -> bool {
    forall|key: usize| #[trigger]
        after.contains_key(key) && before.contains_key(key) && !before[key].window_inner.open
            && before[key].frame_timer is None ==> after[key].frame_timer is None
}

/// No frame is asked for after a window has been closed: its timer was cancelled
/// then, and nothing that happens to windows gives a closed one a timer again.
/// An opening sets its timer up while its window is open.
pub proof fn no_timer_comes_back<E>(
    windows: Map<usize, WindowView<E>>,
    key: usize,
    reply: usize,
    teardown: TeardownView,
    finalization: FinalizeClose,
    op: InboxOp<E>,
    opening: OpeningView,
    info: WindowInfo,
)
    requires
        windows.contains_key(key),
        opening.replies.len() == opening.build_at() ==> !windows.contains_key(opening.key),
        opening.replies.len() == opening.build_at() + 4 ==> windows[opening.key].window_inner.open,
    ensures
        timers_stay_cancelled(windows, closes(windows, key).1),
        timers_stay_cancelled(windows, enters(idle(None, key), windows, key).1),
        can_resume(teardown, windows, reply) ==> timers_stay_cancelled(
            windows,
            close_next(teardown, windows, reply).1,
        ),
        can_finalize(finalization, windows, reply) ==> timers_stay_cancelled(
            windows,
            finalize_next(finalization, windows, reply).1,
        ),
        timers_stay_cancelled(windows, delivered(windows, key, op)),
        timers_stay_cancelled(windows, opening.applied(windows)),
        timers_stay_cancelled(
            windows,
            windows.insert(key, WindowView { window_info: info, ..windows[key] }),
        ),
        timers_stay_cancelled(windows, windows.insert(key, windows[key].retained())),
        timers_stay_cancelled(windows, kept_if_held(windows, key, windows[key].released())),
        timers_stay_cancelled(
            windows,
            kept_if_held(windows, key, WindowView { handle: false, ..windows[key] }),
        ),
{
    closing_destroys_nothing(windows, key);
    if can_resume(teardown, windows, reply) {
        teardown_destroys_nothing(teardown, windows, reply);
    }
}

/// Taking a reference to a window's state and giving it back changes nothing.
pub proof fn references_balance<E>(windows: Map<usize, WindowView<E>>, key: usize)
    requires
        windows.contains_key(key),
        windows[key].is_held(),
        windows[key].clones < usize::MAX,
    ensures
        ({
            let retained = windows.insert(key, windows[key].retained());
            kept_if_held(retained, key, retained[key].released()) == windows
        }),
{
    let retained = windows.insert(key, windows[key].retained());
    assert(retained[key].released() =~= windows[key]);
    assert(kept_if_held(retained, key, retained[key].released()) =~= windows);
}

/// A state that somebody else holds a reference to stays when the program gives
/// up its handle, when the view lets go of it, and while windows are closed; and
/// a teardown leaves each reference that is not its own counted.
pub proof fn referenced_states_stay<E>(
    windows: Map<usize, WindowView<E>>,
    key: usize,
    finalization: FinalizeClose,
    reply: usize,
    teardown: TeardownView,
    other: usize,
)
    requires
        windows.contains_key(key),
        windows[key].clones > 0,
        windows.contains_key(other),
    ensures
        kept_if_held(
            windows,
            key,
            WindowView { handle: false, ..windows[key] },
        ).contains_key(key),
        finalize_next(finalization, windows, reply).1.contains_key(key),
        closes(windows, other).1.contains_key(key),
        closes(windows, other).1[key].clones == windows[key].clones,
        enters(idle(None, other), windows, other).1.contains_key(key),
        enters(idle(None, other), windows, other).1[key].clones == windows[key].clones,
        can_resume(teardown, windows, reply) && windows[key].clones > times(teardown.held, key)
            ==> {
            let (next, after, _) = close_next(teardown, windows, reply);
            &&& after.contains_key(key)
            &&& after[key].clones > times(next.held, key)
        },
{
    closing_destroys_nothing(windows, other);
    assert(closes(windows, other).1.contains_key(key));
    assert(enters(idle(None, other), windows, other).1.contains_key(key));
    if can_resume(teardown, windows, reply) && windows[key].clones > times(teardown.held, key) {
        teardown_destroys_nothing(teardown, windows, reply);
        let after = close_next(teardown, windows, reply).1;
        assert(windows.contains_key(key) && !after.contains_key(key) ==> false);
    }
}

/// Whether the program still has its handle to the window `key`, and the window
/// is in the table.
pub open spec fn has_handle<E>(windows: Map<usize, WindowView<E>>, key: usize) -> bool {
    windows.contains_key(key) && windows[key].handle
}

/// A handle never outlives its window: until the program gives it up, nothing
/// that happens to windows, this one or another, takes the window out of the
/// table. Only the opening of a window on its own does without a handle in the
/// end, and no program has got that one.
pub proof fn handles_keep_their_windows<E>(
    windows: Map<usize, WindowView<E>>,
    key: usize,
    other: usize,
    reply: usize,
    teardown: TeardownView,
    finalization: FinalizeClose,
    op: InboxOp<E>,
    opening: OpeningView,
    info: WindowInfo,
)
    requires
        has_handle(windows, key),
        windows.contains_key(other),
        opening.mode is Blocking ==> opening.key != key,
    ensures
        has_handle(closes(windows, other).1, key),
        has_handle(enters(idle(None, other), windows, other).1, key),
        can_resume(teardown, windows, reply) ==> has_handle(
            close_next(teardown, windows, reply).1,
            key,
        ),
        has_handle(finalize_next(finalization, windows, reply).1, key),
        has_handle(delivered(windows, other, op), key),
        has_handle(opening.applied(windows), key),
        has_handle(
            windows.insert(other, WindowView { window_info: info, ..windows[other] }),
            key,
        ),
        has_handle(windows.insert(other, windows[other].retained()), key),
        has_handle(kept_if_held(windows, other, windows[other].released()), key),
        other != key ==> has_handle(
            kept_if_held(windows, other, WindowView { handle: false, ..windows[other] }),
            key,
        ),
{
    closing_destroys_nothing(windows, other);
    assert(closes(windows, other).1.contains_key(key));
    assert(enters(idle(None, other), windows, other).1.contains_key(key));
    if can_resume(teardown, windows, reply) {
        teardown_destroys_nothing(teardown, windows, reply);
        let after = close_next(teardown, windows, reply).1;
        assert(windows.contains_key(key) && !after.contains_key(key) ==> false);
    }
}

} // verus!
