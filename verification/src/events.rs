//! How events and frames reach a window's handler.
//!
//! A handler is never entered while it is running. Events that can wait are
//! kept until it returns and are handed to it then, in the order in which they
//! came; everything else must not come at such a time.
use crate::state::{WindowView, Windows};
use vstd::prelude::*;

verus! {

/// A call of a window's handler.
#[derive(Clone, Copy, Debug, PartialEq, Eq)]
pub enum HandlerCall<E> {
    OnEvent(E),
    OnFrame,
}

/// The part of a window's state that events are about.
#[verifier::ext_equal]
pub struct Inbox<E> {
    /// Whether the handler is running.
    pub busy: bool,
    /// The events that wait for it, oldest first.
    pub waiting: Seq<E>,
}

/// Something that happens to a window's inbox.
pub enum InboxOp<E> {
    /// An event comes that cannot wait.
    Event(E),
    /// An event comes that can wait.
    DeferrableEvent(E),
    /// A frame is due.
    Frame,
    /// The handler returns from a call.
    Returned,
}

impl<E> WindowView<E> {
    pub open spec fn inbox(self) -> Inbox<E> {
        Inbox { busy: self.handler_borrowed, waiting: self.deferred_events }
    }

    pub open spec fn with_inbox(self, inbox: Inbox<E>) -> WindowView<E> {
        WindowView { handler_borrowed: inbox.busy, deferred_events: inbox.waiting, ..self }
    }
}

impl<E> Inbox<E> {
    /// An inbox with nothing in it and nobody at it.
    pub open spec fn quiet() -> Inbox<E> {
        Inbox { busy: false, waiting: Seq::empty() }
    }

    /// Events wait only while the handler is running.
    pub open spec fn is_sound(self) -> bool {
        !self.busy ==> self.waiting.len() == 0
    }

    /// Whether `op` may happen now: only what can wait may come while the
    /// handler is running, and only a running handler can return.
    pub open spec fn allows(self, op: InboxOp<E>) -> bool {
        match op {
            InboxOp::Event(_) => !self.busy,
            InboxOp::DeferrableEvent(_) => true,
            InboxOp::Frame => !self.busy,
            InboxOp::Returned => self.busy,
        }
    }

    /// The inbox after `op`, and the call that the handler then gets, if any.
    pub open spec fn next(self, op: InboxOp<E>) -> (Inbox<E>, Option<HandlerCall<E>>) {
        let busy = Inbox { busy: true, ..self };
        match op {
            InboxOp::Event(event) => (busy, Some(HandlerCall::OnEvent(event))),
            InboxOp::DeferrableEvent(event) => if self.busy {
                (Inbox { waiting: self.waiting.push(event), ..self }, None)
            } else {
                (busy, Some(HandlerCall::OnEvent(event)))
            },
            InboxOp::Frame => (busy, Some(HandlerCall::OnFrame)),
            InboxOp::Returned => if self.waiting.len() > 0 {
                (
                    Inbox { waiting: self.waiting.drop_first(), ..self },
                    Some(HandlerCall::OnEvent(self.waiting[0])),
                )
            } else {
                (Inbox { busy: false, ..self }, None)
            },
        }
    }
}

/// The table after `op` has happened to the inbox of `key`.
pub open spec fn delivered<E>(
    windows: Map<usize, WindowView<E>>,
    key: usize,
    op: InboxOp<E>,
) -> Map<usize, WindowView<E>> {
    windows.insert(key, windows[key].with_inbox(windows[key].inbox().next(op).0))
}

/// What a handler was entered for.
#[derive(Clone, Copy, Debug, PartialEq, Eq, Structural)]
pub enum TurnKind {
    Event,
    DeferrableEvent,
    Frame,
}

/// A handler's turn: the call it was entered for, and then a call for each
/// event that came meanwhile. `S` is what a handler says of an event.
#[derive(Debug)]
pub struct Turn<S> {
    pub key: usize,
    pub kind: TurnKind,
    /// Whether the first call has returned.
    pub answered: bool,
    /// What the handler said of the event that it was entered for.
    pub status: Option<S>,
}

/// A turn whose first call is yet to return.
pub open spec fn new_turn<S>(key: usize, kind: TurnKind) -> Turn<S> {
    Turn { key, kind, answered: false, status: None }
}

/// A turn after one more call of the handler has returned with `status`.
pub open spec fn turn_after<S>(turn: Turn<S>, status: Option<S>) -> Turn<S> {
    Turn {
        answered: true,
        status: if turn.kind == TurnKind::Event && !turn.answered {
            status
        } else {
            turn.status
        },
        ..turn
    }
}

impl<E> Windows<E> {
    /// Enters the handler of `key`, which must not be running.
    fn enter_handler(&mut self, key: usize)
        requires
            old(self)@.contains_key(key),
        ensures
            final(self)@ == old(self)@.insert(
                key,
                WindowView { handler_borrowed: true, ..old(self)@[key] },
            ),
            final(self).next_key() == old(self).next_key(),
    {
        let mut state = self.take(key);
        state.handler_borrowed = true;
        self.put(key, state);
        assert(self@ =~= old(self)@.insert(
            key,
            WindowView { handler_borrowed: true, ..old(self)@[key] },
        ));
    }

    /// Hands an event to the handler at once. The handler must not be running.
    pub fn trigger_event<S>(&mut self, key: usize, event: E) -> (result: (Turn<S>, HandlerCall<E>))
        requires
            old(self)@.contains_key(key),
            old(self)@[key].is_built(),
            old(self)@[key].inbox().allows(InboxOp::Event(event)),
        ensures
            result.0 == new_turn::<S>(key, TurnKind::Event),
            Some(result.1) == old(self)@[key].inbox().next(InboxOp::Event(event)).1,
            final(self)@ == delivered(old(self)@, key, InboxOp::Event(event)),
            final(self).next_key() == old(self).next_key(),
    {
        self.enter_handler(key);
        assert(self@ =~= delivered(old(self)@, key, InboxOp::Event(event)));
        (
            Turn { key, kind: TurnKind::Event, answered: false, status: None },
            HandlerCall::OnEvent(event),
        )
    }

    /// Hands an event to the handler at once unless the handler is running:
    /// then the event waits until the handler returns.
    pub fn trigger_deferrable_event<S>(&mut self, key: usize, event: E) -> (result: Option<
        (Turn<S>, HandlerCall<E>),
    >)
        requires
            old(self)@.contains_key(key),
            old(self)@[key].is_built(),
        ensures
            match old(self)@[key].inbox().next(InboxOp::DeferrableEvent(event)).1 {
                Some(call) => result == Some(
                    (new_turn::<S>(key, TurnKind::DeferrableEvent), call),
                ),
                None => result is None,
            },
            final(self)@ == delivered(old(self)@, key, InboxOp::DeferrableEvent(event)),
            final(self).next_key() == old(self).next_key(),
    {
        let mut state = self.take(key);
        let busy = state.handler_borrowed;
        let call = if busy {
            state.deferred_events.push_back(event);
            None
        } else {
            state.handler_borrowed = true;
            Some(HandlerCall::OnEvent(event))
        };
        self.put(key, state);
        assert(self@ =~= delivered(old(self)@, key, InboxOp::DeferrableEvent(event)));
        match call {
            Some(call) => Some(
                (
                    Turn {
                        key,
                        kind: TurnKind::DeferrableEvent,
                        answered: false,
                        status: None,
                    },
                    call,
                ),
            ),
            None => None,
        }
    }

    /// Has the handler draw a frame. The handler must not be running.
    pub fn trigger_frame<S>(&mut self, key: usize) -> (result: (Turn<S>, HandlerCall<E>))
        requires
            old(self)@.contains_key(key),
            old(self)@[key].is_built(),
            old(self)@[key].inbox().allows(InboxOp::Frame),
        ensures
            result.0 == new_turn::<S>(key, TurnKind::Frame),
            Some(result.1) == old(self)@[key].inbox().next(InboxOp::Frame).1,
            final(self)@ == delivered(old(self)@, key, InboxOp::Frame),
            final(self).next_key() == old(self).next_key(),
    {
        self.enter_handler(key);
        assert(self@ =~= delivered(old(self)@, key, InboxOp::Frame));
        (
            Turn { key, kind: TurnKind::Frame, answered: false, status: None },
            HandlerCall::OnFrame,
        )
    }

    /// After a call of the handler has returned: the next waiting event, if
    /// there is one. Otherwise the handler's turn is over.
    pub fn send_deferred_events(&mut self, key: usize) -> (call: Option<HandlerCall<E>>)
        requires
            old(self)@.contains_key(key),
            old(self)@[key].inbox().allows(InboxOp::Returned),
        ensures
            call == old(self)@[key].inbox().next(InboxOp::Returned).1,
            final(self)@ == delivered(old(self)@, key, InboxOp::Returned),
            final(self).next_key() == old(self).next_key(),
    {
        let mut state = self.take(key);
        let ghost waiting = state.deferred_events@;
        let call = match state.deferred_events.pop_front() {
            Some(event) => {
                assert(state.deferred_events@ =~= waiting.drop_first());
                Some(HandlerCall::OnEvent(event))
            },
            None => {
                state.handler_borrowed = false;
                None
            },
        };
        self.put(key, state);
        assert(self@ =~= delivered(old(self)@, key, InboxOp::Returned));
        call
    }
}

impl<S> Turn<S> {
    /// Goes on with the turn once the handler has returned from a call, with
    /// what it said of the event if it was called for one.
    pub fn handler_returned<E>(&mut self, windows: &mut Windows<E>, status: Option<S>) -> (call:
        Option<HandlerCall<E>>)
        requires
            old(windows)@.contains_key(old(self).key),
            old(windows)@[old(self).key].inbox().allows(InboxOp::Returned),
        ensures
            *final(self) == (Turn {
                answered: true,
                status: if old(self).kind == TurnKind::Event && !old(self).answered {
                    status
                } else {
                    old(self).status
                },
                ..*old(self)
            }),
            *final(self) == turn_after(*old(self), status),
            call == old(windows)@[old(self).key].inbox().next(InboxOp::Returned).1,
            final(windows)@ == delivered(old(windows)@, old(self).key, InboxOp::Returned),
            final(windows).next_key() == old(windows).next_key(),
    {
        if self.kind == TurnKind::Event && !self.answered {
            self.status = status;
        }
        self.answered = true;
        windows.send_deferred_events(self.key)
    }

    /// What the handler said of the event that the turn was for.
    pub fn into_status(self) -> (status: Option<S>)
        ensures
            status == self.status,
    {
        self.status
    }
}

/// The events among `ops`, in the order in which they came.
pub open spec fn events_that_came<E>(ops: Seq<InboxOp<E>>) -> Seq<E>
    decreases ops.len(),
{
    if ops.len() == 0 {
        Seq::empty()
    } else {
        let earlier = events_that_came(ops.drop_last());
        match ops.last() {
            InboxOp::Event(event) => earlier.push(event),
            InboxOp::DeferrableEvent(event) => earlier.push(event),
            _ => earlier,
        }
    }
}

/// How many frames among `ops` were due.
pub open spec fn frames_due<E>(ops: Seq<InboxOp<E>>) -> nat
    decreases ops.len(),
{
    if ops.len() == 0 {
        0
    } else {
        frames_due(ops.drop_last()) + if ops.last() is Frame {
            1nat
        } else {
            0nat
        }
    }
}

/// The inbox after `ops`, the events that the handler has got meanwhile, in
/// order, and how many frames it was called for. `None` if one of `ops` came
/// when it was not allowed to.
pub open spec fn inbox_after<E>(start: Inbox<E>, ops: Seq<InboxOp<E>>) -> Option<
    (Inbox<E>, Seq<E>, nat),
>
    decreases ops.len(),
{
    if ops.len() == 0 {
        Some((start, Seq::empty(), 0))
    } else {
        match inbox_after(start, ops.drop_last()) {
            Some((inbox, handed, frames)) => if inbox.allows(ops.last()) {
                let (inbox, call) = inbox.next(ops.last());
                match call {
                    Some(HandlerCall::OnEvent(event)) => Some((inbox, handed.push(event), frames)),
                    Some(HandlerCall::OnFrame) => Some((inbox, handed, frames + 1)),
                    None => Some((inbox, handed, frames)),
                }
            } else {
                None
            },
            None => None,
        }
    }
}

/// No event is lost, handed over twice or overtaken: whatever happens, the
/// events that came are those that the handler got, in the order in which they
/// came, followed by those that are still waiting. And whenever the handler is
/// not running, none is waiting, so the handler has got them all.
pub proof fn events_arrive_in_order<E>(ops: Seq<InboxOp<E>>)
    ensures
        inbox_after(Inbox::quiet(), ops) matches Some((inbox, handed, _)) ==> {
            &&& events_that_came(ops) == handed + inbox.waiting
            &&& inbox.is_sound()
            &&& !inbox.busy ==> handed == events_that_came(ops)
        },
    decreases ops.len(),
{
    if ops.len() == 0 {
        assert(Seq::<E>::empty() + Seq::<E>::empty() =~= Seq::<E>::empty());
    } else {
        events_arrive_in_order(ops.drop_last());
        match (inbox_after(Inbox::quiet(), ops.drop_last()), inbox_after(Inbox::quiet(), ops)) {
            (Some((before, handed, _)), Some((after, handed_now, _))) => {
                assert(events_that_came(ops) =~= handed_now + after.waiting);
                if !after.busy {
                    assert(handed_now + after.waiting =~= handed_now);
                }
            },
            _ => {},
        }
    }
}

/// The handler is called for as many frames as were due, whatever events come
/// in between: for each of them once, and for no other.
pub proof fn frames_are_drawn_once<E>(start: Inbox<E>, ops: Seq<InboxOp<E>>)
    ensures
        inbox_after(start, ops) matches Some((_, _, frames)) ==> frames == frames_due(ops),
    decreases ops.len(),
{
    if ops.len() > 0 {
        frames_are_drawn_once(start, ops.drop_last());
    }
}

/// What a timer that fires `count` times brings, if the handler returns from
/// each frame before the next one is due.
pub open spec fn firings<E>(count: nat) -> Seq<InboxOp<E>>
    decreases count,
{
    if count == 0 {
        Seq::empty()
    } else {
        firings((count - 1) as nat).push(InboxOp::Frame).push(InboxOp::Returned)
    }
}

/// A timer that fires `count` times at a handler that is not running makes it
/// draw exactly `count` frames, and each of them is allowed.
pub proof fn a_timer_draws_a_frame_per_firing<E>(count: nat)
    ensures
        inbox_after(Inbox::<E>::quiet(), firings(count)) == Some(
            (Inbox::<E>::quiet(), Seq::<E>::empty(), count),
        ),
        frames_due(firings::<E>(count)) == count,
    decreases count,
{
    if count > 0 {
        let earlier = firings::<E>((count - 1) as nat);
        a_timer_draws_a_frame_per_firing::<E>((count - 1) as nat);
        let drawn = earlier.push(InboxOp::Frame);
        assert(drawn.drop_last() =~= earlier);
        let busy = Inbox { busy: true, ..Inbox::<E>::quiet() };
        assert(inbox_after(Inbox::<E>::quiet(), drawn) == Some((busy, Seq::<E>::empty(), count)));
        let all = drawn.push(InboxOp::Returned);
        assert(all == firings::<E>(count));
        assert(all.drop_last() =~= drawn);
        assert(inbox_after(Inbox::<E>::quiet(), all) == Some(
            (Inbox::<E>::quiet(), Seq::<E>::empty(), count),
        ));
        frames_are_drawn_once(Inbox::<E>::quiet(), firings::<E>(count));
    }
}

/// An event that can wait is never refused, and the handler is not entered for
/// it while it is running.
pub proof fn deferrable_events_always_come<E>(inbox: Inbox<E>, event: E)
    ensures
        inbox.allows(InboxOp::DeferrableEvent(event)),
        inbox.busy ==> inbox.next(InboxOp::DeferrableEvent(event)).1 is None,
        !inbox.busy ==> inbox.next(InboxOp::DeferrableEvent(event)) == inbox.next(
            InboxOp::Event(event),
        ),
{
}

/// What happens to one window's inbox changes nothing else of that window, and
/// no other window.
pub proof fn events_touch_only_the_inbox<E>(
    windows: Map<usize, WindowView<E>>,
    key: usize,
    op: InboxOp<E>,
    other: usize,
)
    requires
        windows.contains_key(key),
    ensures
        delivered(windows, key, op).dom() == windows.dom(),
        delivered(windows, key, op)[key].with_inbox(windows[key].inbox()) == windows[key],
        other != key ==> delivered(windows, key, op)[other] == windows[other],
{
    assert(delivered(windows, key, op).dom() =~= windows.dom());
}

/// When a call returns and events are waiting, the oldest of them is handed over
/// at once and the others stay, in their order; when none is waiting, the handler
/// is free. Nothing is handed over in any other case, and the handler is free in
/// no other case.
pub proof fn returning_hands_over_the_oldest<E>(windows: Map<usize, WindowView<E>>, key: usize)
    requires
        windows.contains_key(key),
        windows[key].handler_borrowed,
    ensures
        ({
            let waiting = windows[key].deferred_events;
            let call = windows[key].inbox().next(InboxOp::Returned).1;
            let after = delivered(windows, key, InboxOp::Returned)[key];
            &&& windows[key].inbox().allows(InboxOp::Returned)
            &&& waiting.len() > 0 ==> {
                &&& call == Some(HandlerCall::OnEvent(waiting[0]))
                &&& after.handler_borrowed
                &&& after.deferred_events.len() == waiting.len() - 1
                &&& forall|i: int|
                    0 <= i < waiting.len() - 1 ==> #[trigger] after.deferred_events[i] == waiting[i
                        + 1]
            }
            &&& waiting.len() == 0 ==> {
                &&& call is None
                &&& !after.handler_borrowed
                &&& after.deferred_events.len() == 0
            }
        }),
{
}

/// The handler returning this many times, with nothing coming in between.
pub open spec fn all_returned<E>(count: nat) -> Seq<InboxOp<E>> {
    Seq::new(count, |i: int| InboxOp::Returned)
}

/// While events are waiting, each return hands over one of them, oldest first.
pub proof fn each_return_hands_over_one<E>(inbox: Inbox<E>, count: nat)
    requires
        inbox.busy,
        count <= inbox.waiting.len(),
    ensures
        inbox_after(inbox, all_returned(count)) == Some(
            (
                Inbox { busy: true, waiting: inbox.waiting.skip(count as int) },
                inbox.waiting.take(count as int),
                0nat,
            ),
        ),
    decreases count,
{
    if count == 0 {
        assert(inbox.waiting.skip(0) =~= inbox.waiting);
        assert(inbox.waiting.take(0) =~= Seq::empty());
    } else {
        let fewer = (count - 1) as nat;
        each_return_hands_over_one(inbox, fewer);
        assert(all_returned::<E>(count).drop_last() =~= all_returned::<E>(fewer));
        let left = inbox.waiting.skip(fewer as int);
        assert(left[0] == inbox.waiting[fewer as int]);
        assert(left.drop_first() =~= inbox.waiting.skip(count as int));
        assert(inbox.waiting.take(fewer as int).push(left[0]) =~= inbox.waiting.take(
            count as int,
        ));
    }
}

/// A turn comes to its end: if nothing more comes, the handler is free after one
/// return for each waiting event and one more, and by then it has got all of
/// them, in order.
pub proof fn a_turn_hands_over_everything<E>(inbox: Inbox<E>)
    requires
        inbox.busy,
    ensures
        inbox_after(inbox, all_returned(inbox.waiting.len() + 1)) == Some(
            (Inbox { busy: false, waiting: Seq::<E>::empty() }, inbox.waiting, 0nat),
        ),
{
    let count = inbox.waiting.len();
    each_return_hands_over_one(inbox, count);
    assert(all_returned::<E>(count + 1).drop_last() =~= all_returned::<E>(count));
    assert(inbox.waiting.skip(count as int) =~= Seq::empty());
    assert(inbox.waiting.take(count as int) =~= inbox.waiting);
}

/// What comes to a handler that is not running is handed over at once, and the
/// handler is running from then on. An event that comes while it is running is
/// put behind those that wait already, and changes nothing else; what cannot
/// wait does not come then.
pub proof fn what_comes_is_handed_over_or_waits<E>(
    windows: Map<usize, WindowView<E>>,
    key: usize,
    event: E,
)
    requires
        windows.contains_key(key),
    ensures
        ({
            let (state, inbox) = (windows[key], windows[key].inbox());
            let at_once = delivered(windows, key, InboxOp::Event(event))[key];
            let deferrable = delivered(windows, key, InboxOp::DeferrableEvent(event))[key];
            let frame = delivered(windows, key, InboxOp::Frame)[key];
            &&& inbox.allows(InboxOp::Event(event)) <==> !state.handler_borrowed
            &&& inbox.allows(InboxOp::Frame) <==> !state.handler_borrowed
            &&& inbox.allows(InboxOp::DeferrableEvent(event))
            &&& inbox.allows(InboxOp::Returned) <==> state.handler_borrowed
            &&& !state.handler_borrowed ==> {
                &&& inbox.next(InboxOp::Event(event)).1 == Some(HandlerCall::OnEvent(event))
                &&& inbox.next(InboxOp::DeferrableEvent(event)).1 == Some(
                    HandlerCall::OnEvent(event),
                )
                &&& inbox.next(InboxOp::Frame).1 == Some(HandlerCall::<E>::OnFrame)
                &&& at_once.handler_borrowed && deferrable.handler_borrowed
                    && frame.handler_borrowed
                &&& at_once.deferred_events == state.deferred_events
                &&& deferrable.deferred_events == state.deferred_events
                &&& frame.deferred_events == state.deferred_events
            }
            &&& state.handler_borrowed ==> {
                &&& inbox.next(InboxOp::DeferrableEvent(event)).1 is None
                &&& deferrable.handler_borrowed
                &&& deferrable.deferred_events.len() == state.deferred_events.len() + 1
                &&& deferrable.deferred_events.last() == event
                &&& forall|i: int|
                    0 <= i < state.deferred_events.len() ==> #[trigger]
                    deferrable.deferred_events[i] == state.deferred_events[i]
            }
        }),
{
}

/// Whatever happens to one window's inbox, everything else about the window, and
/// every other window, is as it was.
pub proof fn an_inbox_is_all_that_changes<E>(
    windows: Map<usize, WindowView<E>>,
    key: usize,
    op: InboxOp<E>,
    other: usize,
)
    requires
        windows.contains_key(key),
    ensures
        ({
            let after = delivered(windows, key, op);
            &&& after.contains_key(other) <==> windows.contains_key(other)
            &&& other != key && windows.contains_key(other) ==> after[other] == windows[other]
            &&& after[key].window_inner == windows[key].window_inner
            &&& after[key].window_info == windows[key].window_info
            &&& after[key].frame_timer == windows[key].frame_timer
            &&& after[key].attached == windows[key].attached
            &&& after[key].handle == windows[key].handle
            &&& after[key].clones == windows[key].clones
        }),
{
}

/// A turn begins without an answer, for the window and the reason that it is
/// begun for.
pub proof fn a_turn_begins_unanswered<S>(key: usize, kind: TurnKind)
    ensures
        new_turn::<S>(key, kind).key == key,
        new_turn::<S>(key, kind).kind == kind,
        !new_turn::<S>(key, kind).answered,
        new_turn::<S>(key, kind).status is None,
{
}

/// A turn after all of these calls have returned.
pub open spec fn turn_after_all<S>(turn: Turn<S>, statuses: Seq<Option<S>>) -> Turn<S>
    decreases statuses.len(),
{
    if statuses.len() == 0 {
        turn
    } else {
        turn_after(turn_after_all(turn, statuses.drop_last()), statuses.last())
    }
}

/// What comes of a turn for an event is what the handler said of that event, the
/// first one that it was called for, whatever it says of those that came
/// meanwhile; a turn for anything else gives no answer. A turn stays one of its
/// window and for its reason.
pub proof fn a_turn_answers_for_its_own_event<S>(
    key: usize,
    kind: TurnKind,
    statuses: Seq<Option<S>>,
)
    ensures
        ({
            let turn = turn_after_all(new_turn::<S>(key, kind), statuses);
            &&& turn.key == key
            &&& turn.kind == kind
            &&& turn.answered <==> statuses.len() > 0
            &&& kind is Event && statuses.len() > 0 ==> turn.status == statuses[0]
            &&& !(kind is Event) || statuses.len() == 0 ==> turn.status is None
        }),
    decreases statuses.len(),
{
    if statuses.len() > 0 {
        a_turn_answers_for_its_own_event::<S>(key, kind, statuses.drop_last());
    }
}

} // verus!
