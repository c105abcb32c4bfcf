//! Keyboard focus.
use crate::values::{NIL, YES};
use vstd::prelude::*;

verus! {

/// A question or an order about the focus. Predicates answer [`YES`] or
/// something else; nothing depends on the answer to an order.
#[derive(Clone, Copy, Debug, PartialEq, Eq, Structural)]
pub enum FocusCommand {
    /// The native window that this view is in, nil if it is in none.
    WindowOf(usize),
    /// The object that gets the keyboard events of this native window first.
    FirstResponder(usize),
    /// Whether this native window gets the keyboard events.
    IsKeyWindow(usize),
    /// Whether this view is that object.
    IsEqual(usize, usize),
    /// Makes this native window hand its keyboard events to that view first.
    MakeFirstResponder(usize, usize),
}

/// What comes next: a command whose answer is awaited, or the result.
#[derive(Clone, Copy, Debug, PartialEq, Eq, Structural)]
pub enum FocusStep<R> {
    Ask(FocusCommand),
    Done(R),
}

/// The answer that a focus question waits for, with what is known by then.
#[derive(Clone, Copy, Debug, PartialEq, Eq, Structural)]
pub enum HasFocusPhase {
    Window,
    Responder { window: usize },
    Key { window: usize, responder: usize },
    Equal { is_key_window: usize },
}

/// The question whether a view has the focus, under way.
#[derive(Clone, Copy, Debug, PartialEq, Eq, Structural)]
pub struct HasFocus {
    pub view: usize,
    pub phase: HasFocusPhase,
}

/// The question as it begins, with the native window of `view` asked for.
pub open spec fn has_focus_from(view: usize) -> HasFocus {
    HasFocus { view, phase: HasFocusPhase::Window }
}

/// How the question goes on after an answer. A view outside every window has no
/// focus. Otherwise its window must get the keyboard events and hand them to
/// the view; both are asked before either is judged.
pub open spec fn has_focus_next(question: HasFocus, reply: usize) -> (HasFocus, FocusStep<bool>) {
    let view = question.view;
    match question.phase {
        HasFocusPhase::Window => if reply == NIL {
            (question, FocusStep::Done(false))
        } else {
            (
                HasFocus { phase: HasFocusPhase::Responder { window: reply }, ..question },
                FocusStep::Ask(FocusCommand::FirstResponder(reply)),
            )
        },
        HasFocusPhase::Responder { window } => (
            HasFocus { phase: HasFocusPhase::Key { window, responder: reply }, ..question },
            FocusStep::Ask(FocusCommand::IsKeyWindow(window)),
        ),
        HasFocusPhase::Key { window, responder } => (
            HasFocus { phase: HasFocusPhase::Equal { is_key_window: reply }, ..question },
            FocusStep::Ask(FocusCommand::IsEqual(view, responder)),
        ),
        HasFocusPhase::Equal { is_key_window } => (
            question,
            FocusStep::Done(is_key_window == YES && reply == YES),
        ),
    }
}

impl HasFocus {
    /// Begins to ask whether `view` has the focus.
    pub fn begin(view: usize) -> (result: (HasFocus, FocusStep<bool>))
        ensures
            result == (has_focus_from(view), FocusStep::<bool>::Ask(FocusCommand::WindowOf(view))),
    {
        (
            HasFocus { view, phase: HasFocusPhase::Window },
            FocusStep::Ask(FocusCommand::WindowOf(view)),
        )
    }

    /// Goes on with the answer to the last command.
    pub fn resume(&mut self, reply: usize) -> (step: FocusStep<bool>)
        ensures
            (*final(self), step) == has_focus_next(*old(self), reply),
    {
        match self.phase {
            HasFocusPhase::Window => {
                if reply == NIL {
                    return FocusStep::Done(false);
                }
                self.phase = HasFocusPhase::Responder { window: reply };
                FocusStep::Ask(FocusCommand::FirstResponder(reply))
            },
            HasFocusPhase::Responder { window } => {
                self.phase = HasFocusPhase::Key { window, responder: reply };
                FocusStep::Ask(FocusCommand::IsKeyWindow(window))
            },
            HasFocusPhase::Key { window: _, responder } => {
                self.phase = HasFocusPhase::Equal { is_key_window: reply };
                FocusStep::Ask(FocusCommand::IsEqual(self.view, responder))
            },
            HasFocusPhase::Equal { is_key_window } => {
                FocusStep::Done(is_key_window == YES && reply == YES)
            },
        }
    }
}

/// The answer that a request for the focus waits for.
#[derive(Clone, Copy, Debug, PartialEq, Eq, Structural)]
pub enum FocusPhase {
    Window,
    Ordered,
}

/// A request to give a view the focus, under way.
#[derive(Clone, Copy, Debug, PartialEq, Eq, Structural)]
pub struct Focus {
    pub view: usize,
    pub phase: FocusPhase,
}

/// The request as it begins, with the native window of `view` asked for.
pub open spec fn focus_from(view: usize) -> Focus {
    Focus { view, phase: FocusPhase::Window }
}

/// How the request goes on after an answer: the native window, if there is one,
/// is told to hand its keyboard events to the view.
pub open spec fn focus_next(request: Focus, reply: usize) -> (Focus, FocusStep<()>) {
    match request.phase {
        FocusPhase::Window => if reply == NIL {
            (request, FocusStep::Done(()))
        } else {
            (
                Focus { phase: FocusPhase::Ordered, ..request },
                FocusStep::Ask(FocusCommand::MakeFirstResponder(reply, request.view)),
            )
        },
        FocusPhase::Ordered => (request, FocusStep::Done(())),
    }
}

impl Focus {
    /// Begins to give `view` the focus.
    pub fn begin(view: usize) -> (result: (Focus, FocusStep<()>))
        ensures
            result == (focus_from(view), FocusStep::<()>::Ask(FocusCommand::WindowOf(view))),
    {
        (Focus { view, phase: FocusPhase::Window }, FocusStep::Ask(FocusCommand::WindowOf(view)))
    }

    /// Goes on with the answer to the last command.
    pub fn resume(&mut self, reply: usize) -> (step: FocusStep<()>)
        ensures
            (*final(self), step) == focus_next(*old(self), reply),
    {
        match self.phase {
            FocusPhase::Window => {
                if reply == NIL {
                    return FocusStep::Done(());
                }
                self.phase = FocusPhase::Ordered;
                FocusStep::Ask(FocusCommand::MakeFirstResponder(reply, self.view))
            },
            FocusPhase::Ordered => FocusStep::Done(()),
        }
    }
}

/// A view has the focus exactly if it is in a window that gets the keyboard
/// events and that hands them to this view: so say the questions that are asked
/// and the result that comes of the answers.
pub proof fn focus_means(
    view: usize,
    window: usize,
    responder: usize,
    is_key_window: usize,
    is_equal: usize,
)
    ensures
        window == NIL ==> has_focus_next(has_focus_from(view), window).1 == FocusStep::Done(false),
        window != NIL ==> {
            let (second, ask_responder) = has_focus_next(has_focus_from(view), window);
            let (third, ask_key) = has_focus_next(second, responder);
            let (fourth, ask_equal) = has_focus_next(third, is_key_window);
            &&& ask_responder == FocusStep::<bool>::Ask(FocusCommand::FirstResponder(window))
            &&& ask_key == FocusStep::<bool>::Ask(FocusCommand::IsKeyWindow(window))
            &&& ask_equal == FocusStep::<bool>::Ask(FocusCommand::IsEqual(view, responder))
            &&& has_focus_next(fourth, is_equal).1 == FocusStep::Done(
                is_key_window == YES && is_equal == YES,
            )
        },
{
}

/// A view that is in no window is not given the focus, and nothing is ordered;
/// otherwise its window, and no other, is told once to hand its keyboard events
/// to this view, whatever that order is answered.
pub proof fn focusing_means(view: usize, window: usize, ignored: usize)
    ensures
        window == NIL ==> focus_next(focus_from(view), window).1 is Done,
        window != NIL ==> {
            let (ordered, step) = focus_next(focus_from(view), window);
            &&& step == FocusStep::<()>::Ask(FocusCommand::MakeFirstResponder(window, view))
            &&& focus_next(ordered, ignored).1 is Done
        },
{
}

} // verus!
