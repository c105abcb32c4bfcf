//! The second phase of closing a window: letting go of its state and its view.
//!
//! It runs on the main queue after the handler that may have asked for the
//! closing has returned.
use crate::state::{kept_if_held, WindowView, Windows};
use crate::values::NIL;
use vstd::prelude::*;

verus! {

/// A native action of the finalization. Only the answer to `StateOf` matters.
#[derive(Clone, Copy, Debug, PartialEq, Eq, Structural)]
pub enum FinalizeCommand {
    /// Reads the state that this view stores, nil if it stores none.
    StateOf(usize),
    /// Makes this view store no state.
    ClearState(usize),
    /// Destroys what belongs to this window, of which no state is left.
    DropState(usize),
    /// Takes this view out of the view around it.
    RemoveFromSuperview(usize),
    /// Releases this view.
    Release(usize),
}

/// What the finalization does next.
#[derive(Clone, Copy, Debug, PartialEq, Eq, Structural)]
pub enum FinalizeStep {
    Ask(FinalizeCommand),
    Done,
}

/// The action that the finalization has asked for last.
#[derive(Clone, Copy, Debug, PartialEq, Eq, Structural)]
pub enum FinalizePhase {
    Reading,
    /// With the state that the view has stored up to now.
    Clearing(usize),
    Dropping,
    Removing,
    Releasing,
}

/// A finalization under way.
#[derive(Clone, Copy, Debug, PartialEq, Eq, Structural)]
pub struct FinalizeClose {
    pub view: usize,
    pub phase: FinalizePhase,
}

/// A finalization that has asked which state `view` stores.
pub open spec fn finalize_from(view: usize) -> FinalizeClose {
    FinalizeClose { view, phase: FinalizePhase::Reading }
}

/// The state once its view has let go of it.
pub open spec fn detached<E>(state: WindowView<E>) -> WindowView<E> {
    WindowView { attached: false, ..state }
}

/// How the finalization goes on once `reply` answers what it has asked for. A
/// state that is still stored is taken from the view, and dropped unless
/// something else holds it; then the view is taken out of its surroundings and
/// released.
pub open spec fn finalize_next<E>(
    f: FinalizeClose,
    windows: Map<usize, WindowView<E>>,
    reply: usize,
) -> (FinalizeClose, Map<usize, WindowView<E>>, FinalizeStep) {
    let removing = FinalizeClose { phase: FinalizePhase::Removing, ..f };
    let remove = FinalizeStep::Ask(FinalizeCommand::RemoveFromSuperview(f.view));
    match f.phase {
        FinalizePhase::Reading => if reply == NIL {
            (removing, windows, remove)
        } else {
            (
                FinalizeClose { phase: FinalizePhase::Clearing(reply), ..f },
                windows,
                FinalizeStep::Ask(FinalizeCommand::ClearState(f.view)),
            )
        },
        FinalizePhase::Clearing(key) => {
            let state = detached(windows[key]);
            let windows = kept_if_held(windows, key, state);
            if state.is_held() {
                (removing, windows, remove)
            } else {
                (
                    FinalizeClose { phase: FinalizePhase::Dropping, ..f },
                    windows,
                    FinalizeStep::Ask(FinalizeCommand::DropState(key)),
                )
            }
        },
        FinalizePhase::Dropping => (removing, windows, remove),
        FinalizePhase::Removing => (
            FinalizeClose { phase: FinalizePhase::Releasing, ..f },
            windows,
            FinalizeStep::Ask(FinalizeCommand::Release(f.view)),
        ),
        FinalizePhase::Releasing => (f, windows, FinalizeStep::Done),
    }
}

/// Whether the window `key` is one whose closing can be finalized: it has been
/// closed, its view stores its state, and its handler has returned, or something
/// besides the view keeps the state that it runs on.
pub open spec fn can_detach<E>(windows: Map<usize, WindowView<E>>, key: usize) -> bool {
    &&& windows.contains_key(key)
    &&& windows[key].attached
    &&& !windows[key].window_inner.open
    &&& windows[key].handler_borrowed ==> windows[key].clones > 0 || windows[key].handle
}

/// Whether the finalization can be resumed with `reply`.
pub open spec fn can_finalize<E>(
    f: FinalizeClose,
    windows: Map<usize, WindowView<E>>,
    reply: usize,
) -> bool {
    match f.phase {
        FinalizePhase::Reading => reply != NIL ==> can_detach(windows, reply),
        FinalizePhase::Clearing(key) => can_detach(windows, key),
        _ => true,
    }
}

impl FinalizeClose {
    /// Begins to finalize the closing of the window whose view is `view`.
    pub fn finalize_close_callback(view: usize) -> (result: (FinalizeClose, FinalizeStep))
        ensures
            result == (
                finalize_from(view),
                FinalizeStep::Ask(FinalizeCommand::StateOf(view)),
            ),
    {
        (
            FinalizeClose { view, phase: FinalizePhase::Reading },
            FinalizeStep::Ask(FinalizeCommand::StateOf(view)),
        )
    }

    /// Whether `resume` may be called with this answer.
    pub fn can_resume<E>(&self, windows: &Windows<E>, reply: usize) -> (ready: bool)
        ensures
            ready == can_finalize(*self, windows@, reply),
    {
        let key: usize = match self.phase {
            FinalizePhase::Reading => reply,
            FinalizePhase::Clearing(key) => key,
            _ => {
                return true;
            },
        };
        let found = match windows.get(key) {
            Some(state) => {
                state.attached && !state.window_inner.open && (!state.handler_borrowed
                    || state.clones > 0 || state.handle)
            },
            None => false,
        };
        match self.phase {
            FinalizePhase::Reading => found || reply == NIL,
            _ => found,
        }
    }

    /// Resumes the finalization with the answer to what it has asked for.
    pub fn resume<E>(&mut self, windows: &mut Windows<E>, reply: usize) -> (step: FinalizeStep)
        requires
            can_finalize(*old(self), old(windows)@, reply),
        ensures
            (*final(self), final(windows)@, step) == finalize_next(
                *old(self),
                old(windows)@,
                reply,
            ),
            final(windows).next_key() == old(windows).next_key(),
    {
        let view: usize = self.view;
        match self.phase {
            FinalizePhase::Reading => {
                if reply != NIL {
                    self.phase = FinalizePhase::Clearing(reply);
                    return FinalizeStep::Ask(FinalizeCommand::ClearState(view));
                }
            },
            FinalizePhase::Clearing(key) => {
                let mut state = windows.take(key);
                state.attached = false;
                let dropped = windows.put_if_held(key, state);
                assert(windows@ =~= kept_if_held(
                    old(windows)@,
                    key,
                    detached(old(windows)@[key]),
                ));
                if dropped {
                    self.phase = FinalizePhase::Dropping;
                    return FinalizeStep::Ask(FinalizeCommand::DropState(key));
                }
            },
            FinalizePhase::Dropping => {},
            FinalizePhase::Removing => {
                self.phase = FinalizePhase::Releasing;
                return FinalizeStep::Ask(FinalizeCommand::Release(view));
            },
            FinalizePhase::Releasing => {
                return FinalizeStep::Done;
            },
        }
        self.phase = FinalizePhase::Removing;
        FinalizeStep::Ask(FinalizeCommand::RemoveFromSuperview(view))
    }
}

/// A finalization carried through to its end: its actions in order, and the
/// windows it leaves. `None` where it is still going after `turns` answers, or
/// may not be resumed with the answer. The first answer is `reply`.
pub open spec fn finalize_run<E>(
    now: (FinalizeClose, Map<usize, WindowView<E>>, FinalizeStep),
    reply: usize,
    turns: nat,
) -> Option<(Seq<FinalizeCommand>, Map<usize, WindowView<E>>)>
    decreases turns,
{
    match now.2 {
        FinalizeStep::Done => Some((Seq::empty(), now.1)),
        FinalizeStep::Ask(command) => if turns == 0 || !can_finalize(now.0, now.1, reply) {
            None
        } else {
            match finalize_run(finalize_next(now.0, now.1, reply), 0, (turns - 1) as nat) {
                Some((actions, windows)) => Some((seq![command] + actions, windows)),
                None => None,
            }
        },
    }
}

/// Finalizing the closing of a window whose view stores `stored`, from its
/// beginning to its end.
pub open spec fn finalized<E>(
    view: usize,
    windows: Map<usize, WindowView<E>>,
    stored: usize,
) -> Option<(Seq<FinalizeCommand>, Map<usize, WindowView<E>>)> {
    finalize_run(
        (finalize_from(view), windows, FinalizeStep::Ask(FinalizeCommand::StateOf(view))),
        stored,
        5,
    )
}

/// A state that only the view holds is dropped, after the view has stopped
/// storing it and before the view itself goes.
pub proof fn finalizing_drops_the_state<E>(
    view: usize,
    windows: Map<usize, WindowView<E>>,
    key: usize,
)
    requires
        key != NIL,
        can_detach(windows, key),
        !windows[key].handle,
        windows[key].clones == 0,
    ensures
        finalized(view, windows, key) == Some(
            (
                seq![
                    FinalizeCommand::StateOf(view),
                    FinalizeCommand::ClearState(view),
                    FinalizeCommand::DropState(key),
                    FinalizeCommand::RemoveFromSuperview(view),
                    FinalizeCommand::Release(view),
                ],
                windows.remove(key),
            ),
        ),
{
    reveal_with_fuel(finalize_run, 7);
    assert((finalized(view, windows, key)->0).0 =~= seq![
        FinalizeCommand::StateOf(view),
        FinalizeCommand::ClearState(view),
        FinalizeCommand::DropState(key),
        FinalizeCommand::RemoveFromSuperview(view),
        FinalizeCommand::Release(view),
    ]);
}

/// A state that the program's handle or a running handler holds outlives the
/// view: the window is still in the table, and still closed.
pub proof fn finalizing_spares_a_held_state<E>(
    view: usize,
    windows: Map<usize, WindowView<E>>,
    key: usize,
)
    requires
        key != NIL,
        can_detach(windows, key),
        windows[key].handle || windows[key].clones > 0,
    ensures
        finalized(view, windows, key) == Some(
            (
                seq![
                    FinalizeCommand::StateOf(view),
                    FinalizeCommand::ClearState(view),
                    FinalizeCommand::RemoveFromSuperview(view),
                    FinalizeCommand::Release(view),
                ],
                windows.insert(key, detached(windows[key])),
            ),
        ),
{
    reveal_with_fuel(finalize_run, 6);
    assert((finalized(view, windows, key)->0).0 =~= seq![
        FinalizeCommand::StateOf(view),
        FinalizeCommand::ClearState(view),
        FinalizeCommand::RemoveFromSuperview(view),
        FinalizeCommand::Release(view),
    ]);
}

/// A state is never taken from a view twice: once the view stores none, the
/// finalization touches no window.
pub proof fn finalizing_without_state_drops_nothing<E>(
    view: usize,
    windows: Map<usize, WindowView<E>>,
)
    ensures
        finalized(view, windows, NIL) == Some(
            (
                seq![
                    FinalizeCommand::StateOf(view),
                    FinalizeCommand::RemoveFromSuperview(view),
                    FinalizeCommand::Release(view),
                ],
                windows,
            ),
        ),
{
    reveal_with_fuel(finalize_run, 5);
    assert((finalized(view, windows, NIL)->0).0 =~= seq![
        FinalizeCommand::StateOf(view),
        FinalizeCommand::RemoveFromSuperview(view),
        FinalizeCommand::Release(view),
    ]);
}

/// A finalization never takes the state from under a running handler: the
/// window of a handler's turn stays in the table, at every step.
pub proof fn finalizing_spares_a_running_handler<E>(
    f: FinalizeClose,
    windows: Map<usize, WindowView<E>>,
    reply: usize,
    key: usize,
)
    requires
        can_finalize(f, windows, reply),
        windows.contains_key(key),
        windows[key].handler_borrowed,
    ensures
        finalize_next(f, windows, reply).1.contains_key(key),
        finalize_next(f, windows, reply).1[key].handler_borrowed,
        finalize_next(f, windows, reply).1[key].deferred_events == windows[key].deferred_events,
{
}

/// A view that lets go of a state changes nothing else of it.
pub proof fn letting_go_changes_nothing_else<E>(state: WindowView<E>)
    ensures
        !detached(state).attached,
        detached(state).window_inner == state.window_inner,
        detached(state).window_info == state.window_info,
        detached(state).frame_timer == state.frame_timer,
        detached(state).handler_borrowed == state.handler_borrowed,
        detached(state).deferred_events == state.deferred_events,
        detached(state).handle == state.handle,
        detached(state).clones == state.clones,
{
}

/// A step of a finalization drops a window if and only if it says so, and no
/// other window is touched.
pub proof fn a_dropped_state_is_announced<E>(
    f: FinalizeClose,
    windows: Map<usize, WindowView<E>>,
    reply: usize,
    key: usize,
)
    requires
        can_finalize(f, windows, reply),
        windows.contains_key(key),
    ensures
        ({
            let (_, after, step) = finalize_next(f, windows, reply);
            &&& !after.contains_key(key) <==> step == FinalizeStep::Ask(
                FinalizeCommand::DropState(key),
            )
            &&& f.phase != FinalizePhase::Clearing(key) ==> after.contains_key(key) && after[key]
                == windows[key]
        }),
{
}

/// A finalization can always go on, unless the state that it is to take is not
/// that of a closed window that its view stores, or a handler runs on it that
/// nothing else keeps it for.
pub proof fn a_finalization_can_go_on<E>(
    f: FinalizeClose,
    windows: Map<usize, WindowView<E>>,
    reply: usize,
    key: usize,
)
    ensures
        can_detach(windows, key) <==> {
            &&& windows.contains_key(key)
            &&& windows[key].attached
            &&& !windows[key].window_inner.open
            &&& !windows[key].handler_borrowed || windows[key].clones > 0 || windows[key].handle
        },
        f.phase is Reading ==> (can_finalize(f, windows, reply) <==> reply == 0 || can_detach(
            windows,
            reply,
        )),
        f.phase == FinalizePhase::Clearing(key) ==> (can_finalize(f, windows, reply)
            <==> can_detach(windows, key)),
        f.phase is Dropping || f.phase is Removing || f.phase is Releasing ==> can_finalize(
            f,
            windows,
            reply,
        ),
{
}

} // verus!
