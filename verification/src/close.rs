//! Tearing a window down.
//!
//! Closing has two phases. The first one, here called the teardown, runs at
//! once: it marks the window closed, cancels its frame timer, stops observing
//! notifications, and either stops the application or closes the window around
//! this one. It destroys nothing, because a handler of the very window may be
//! running. The second phase, [`crate::finalize`], is only scheduled by the
//! first, and lets go of the state and of the view.
use crate::ancestor::{search_from, search_next, AncestorSearch, SearchStep, ViewQuery};
use crate::counting::{lemma_times_bounds, lemma_times_push, times};
use crate::state::{kept_if_held, StateRef, WindowInner, WindowView, Windows};
use crate::values::NIL;
use std::collections::VecDeque;
use vstd::prelude::*;

verus! {

/// A native action of a teardown. Only the answer to `Find` matters.
#[derive(Clone, Copy, Debug, PartialEq, Eq, Structural)]
pub enum CloseCommand {
    /// Answers a question about the view tree.
    Find(ViewQuery),
    /// Removes this timer from the current run loop.
    RemoveTimer(usize),
    /// Removes this view from the default notification center.
    RemoveObserver(usize),
    /// Has the closing of this view's window finalized once the main queue gets
    /// to it.
    ScheduleFinalize(usize),
    /// Tells this application object to stop.
    StopApp(usize),
    /// Stops the main run loop.
    StopMainLoop,
    /// Wakes the main run loop up, so that it sees that it was stopped.
    WakeMainLoop,
    /// Destroys what belongs to this window, of which no state is left.
    DropState(usize),
    /// Closes this native window.
    CloseWindow(usize),
}

/// What a teardown does next.
#[derive(Clone, Copy, Debug, PartialEq, Eq, Structural)]
pub enum CloseStep {
    /// Wants this done; the answer, or anything where there is none, resumes
    /// the teardown.
    Ask(CloseCommand),
    /// Ends.
    Done,
}

/// How far the teardown of the current window has come.
pub enum ClosePhase {
    /// Looks for a window around the current one.
    Searching(AncestorSearch),
    /// Has these actions left for the current window.
    Working(VecDeque<CloseCommand>),
    /// Has nothing left to do.
    Finished,
}

/// A teardown under way.
pub struct Teardown {
    /// The window that is being torn down.
    key: usize,
    /// The window whose native window is closed at the end.
    closing: Option<usize>,
    phase: ClosePhase,
    /// The window to tear down after the current one.
    propagate: Option<usize>,
    /// References to the windows that were found around others, given back at
    /// the end.
    held: Vec<StateRef>,
}

/// A [`ClosePhase`] as contracts speak of it.
#[verifier::ext_equal]
pub enum ClosePhaseView {
    Searching(AncestorSearch),
    Working(Seq<CloseCommand>),
    Finished,
}

/// A [`Teardown`] as contracts speak of it.
#[verifier::ext_equal]
pub struct TeardownView {
    pub key: usize,
    pub closing: Option<usize>,
    pub phase: ClosePhaseView,
    pub propagate: Option<usize>,
    pub held: Seq<usize>,
}

/// The windows that these references are to.
pub open spec fn keys_of(references: Seq<StateRef>) -> Seq<usize> {
    references.map_values(|reference: StateRef| reference.key())
}

impl View for ClosePhase {
    type V = ClosePhaseView;

    open spec fn view(&self) -> ClosePhaseView {
        match *self {
            ClosePhase::Searching(search) => ClosePhaseView::Searching(search),
            ClosePhase::Working(commands) => ClosePhaseView::Working(commands@),
            ClosePhase::Finished => ClosePhaseView::Finished,
        }
    }
}

impl View for Teardown {
    type V = TeardownView;

    closed spec fn view(&self) -> TeardownView {
        TeardownView {
            key: self.key,
            closing: self.closing,
            phase: self.phase@,
            propagate: self.propagate,
            held: keys_of(self.held@),
        }
    }
}

/// What is done to one open window, after the search for a window around it:
/// its timer is cancelled, it stops observing, its finalization is scheduled,
/// and the application is stopped if this is the window that runs it.
pub open spec fn level_commands(inner: WindowInner, frame_timer: Option<usize>) -> Seq<
    CloseCommand,
> {
    (match frame_timer {
        Some(timer) => seq![CloseCommand::RemoveTimer(timer)],
        None => seq![],
    }) + seq![
        CloseCommand::RemoveObserver(inner.ns_view),
        CloseCommand::ScheduleFinalize(inner.ns_view),
    ] + (match inner.ns_app {
        Some(app) => seq![
            CloseCommand::StopApp(app),
            CloseCommand::StopMainLoop,
            CloseCommand::WakeMainLoop,
        ],
        None => seq![],
    })
}

/// Whether the references `held` are counted in the states that they are to.
pub open spec fn lent<E>(windows: Map<usize, WindowView<E>>, held: Seq<usize>) -> bool {
    forall|key: usize| #[trigger]
        times(held, key) > 0 ==> windows.contains_key(key) && times(held, key)
            <= windows[key].clones
}

/// The end of a teardown. One that was asked for by closing a window takes the
/// native window out of that window's state and closes it.
pub open spec fn ends<E>(t: TeardownView, windows: Map<usize, WindowView<E>>) -> (
    TeardownView,
    Map<usize, WindowView<E>>,
    CloseStep,
) {
    let finished = TeardownView { phase: ClosePhaseView::Finished, ..t };
    match t.closing {
        Some(key) => {
            let state = windows[key];
            match state.window_inner.ns_window {
                Some(ns_window) => (
                    finished,
                    windows.insert(
                        key,
                        WindowView {
                            window_inner: WindowInner { ns_window: None, ..state.window_inner },
                            ..state
                        },
                    ),
                    CloseStep::Ask(CloseCommand::CloseWindow(ns_window)),
                ),
                None => (finished, windows, CloseStep::Done),
            }
        },
        None => (finished, windows, CloseStep::Done),
    }
}

/// Finishes a teardown: gives back its references, the last one first, and ends
/// once it has none. A state that nothing holds any more is dropped.
pub open spec fn finishes<E>(t: TeardownView, windows: Map<usize, WindowView<E>>) -> (
    TeardownView,
    Map<usize, WindowView<E>>,
    CloseStep,
)
    decreases t.held.len(),
{
    if t.held.len() == 0 {
        ends(t, windows)
    } else {
        let key = t.held.last();
        let state = windows[key].released();
        let windows = kept_if_held(windows, key, state);
        let t = TeardownView {
            phase: ClosePhaseView::Working(Seq::empty()),
            propagate: None,
            held: t.held.drop_last(),
            ..t
        };
        if state.is_held() {
            finishes(t, windows)
        } else {
            (t, windows, CloseStep::Ask(CloseCommand::DropState(key)))
        }
    }
}

/// Turns a teardown to the window `key`. Nothing is left to do if that window
/// is closed already. Otherwise it is closed from here on, and the search for a
/// window around it begins.
pub open spec fn enters<E>(t: TeardownView, windows: Map<usize, WindowView<E>>, key: usize) -> (
    TeardownView,
    Map<usize, WindowView<E>>,
    CloseStep,
) {
    let t = TeardownView { key, propagate: None, ..t };
    if windows[key].window_inner.open {
        let search = search_from(windows[key].window_inner.ns_view);
        (
            TeardownView { phase: ClosePhaseView::Searching(search), ..t },
            windows.insert(key, windows[key].closed()),
            CloseStep::Ask(CloseCommand::Find(search.awaiting)),
        )
    } else {
        finishes(t, windows)
    }
}

/// Carries out `commands`, then turns to the next window, if there is one.
pub open spec fn works<E>(
    t: TeardownView,
    windows: Map<usize, WindowView<E>>,
    commands: Seq<CloseCommand>,
) -> (TeardownView, Map<usize, WindowView<E>>, CloseStep) {
    if commands.len() > 0 {
        (
            TeardownView { phase: ClosePhaseView::Working(commands.drop_first()), ..t },
            windows,
            CloseStep::Ask(commands[0]),
        )
    } else {
        match t.propagate {
            Some(ancestor) => enters(t, windows, ancestor),
            None => finishes(t, windows),
        }
    }
}

/// The state without its timer and its application object, which a teardown
/// takes out of it.
pub open spec fn stripped<E>(state: WindowView<E>) -> WindowView<E> {
    WindowView {
        window_inner: WindowInner { ns_app: None, ..state.window_inner },
        frame_timer: None,
        ..state
    }
}

/// Goes on once the search has ended. A window that was found is held on to,
/// and is the next to be torn down unless the current window stops the
/// application itself.
pub open spec fn searched<E>(
    t: TeardownView,
    windows: Map<usize, WindowView<E>>,
    ancestor: Option<usize>,
) -> (TeardownView, Map<usize, WindowView<E>>, CloseStep) {
    let (windows, held) = match ancestor {
        Some(found) => (windows.insert(found, windows[found].retained()), t.held.push(found)),
        None => (windows, t.held),
    };
    let state = windows[t.key];
    let propagate = match state.window_inner.ns_app {
        Some(_) => None,
        None => ancestor,
    };
    works(
        TeardownView { held, propagate, ..t },
        windows.insert(t.key, stripped(state)),
        level_commands(state.window_inner, state.frame_timer),
    )
}

/// How a teardown goes on once `reply` answers what it has asked for.
pub open spec fn close_next<E>(
    t: TeardownView,
    windows: Map<usize, WindowView<E>>,
    reply: usize,
) -> (TeardownView, Map<usize, WindowView<E>>, CloseStep) {
    match t.phase {
        ClosePhaseView::Searching(search) => {
            let (search, step) = search_next(search, reply);
            let t = TeardownView { phase: ClosePhaseView::Searching(search), ..t };
            match step {
                SearchStep::Ask(query) => (
                    t,
                    windows,
                    CloseStep::Ask(CloseCommand::Find(query)),
                ),
                SearchStep::Found(found) => searched(t, windows, Some(found)),
                SearchStep::NotFound => searched(t, windows, None),
            }
        },
        ClosePhaseView::Working(commands) => works(t, windows, commands),
        ClosePhaseView::Finished => (t, windows, CloseStep::Done),
    }
}

/// A teardown that has not begun.
pub open spec fn idle(closing: Option<usize>, key: usize) -> TeardownView {
    TeardownView {
        key,
        closing,
        phase: ClosePhaseView::Finished,
        propagate: None,
        held: Seq::empty(),
    }
}

/// Closing the window `key`: a teardown that ends with its native window, and
/// nothing at all if the window is closed already.
pub open spec fn closes<E>(windows: Map<usize, WindowView<E>>, key: usize) -> (
    TeardownView,
    Map<usize, WindowView<E>>,
    CloseStep,
) {
    if windows[key].window_inner.open {
        enters(idle(Some(key), key), windows, key)
    } else {
        (idle(None, key), windows, CloseStep::Done)
    }
}

/// Whether a teardown can be resumed with `reply`: the windows that it is about
/// are in the table, so is the one that `reply` names where it names one, and
/// its references are counted.
pub open spec fn can_resume<E>(
    t: TeardownView,
    windows: Map<usize, WindowView<E>>,
    reply: usize,
) -> bool {
    &&& t.closing matches Some(key) ==> windows.contains_key(key)
    &&& lent(windows, t.held)
    &&& match t.phase {
        ClosePhaseView::Searching(search) => {
            &&& windows.contains_key(t.key)
            &&& search.awaiting is StateOf && reply != NIL ==> windows.contains_key(reply)
                && windows[reply].clones < usize::MAX
        },
        ClosePhaseView::Working(commands) => commands.len() == 0 ==> (t.propagate matches Some(
            ancestor,
        ) ==> windows.contains_key(ancestor)),
        ClosePhaseView::Finished => true,
    }
}

/// Collects what is to be done to one window.
fn plan_level(inner: &WindowInner, frame_timer: Option<usize>) -> (commands: VecDeque<CloseCommand>)
    ensures
        commands@ == level_commands(*inner, frame_timer),
{
    let mut commands: VecDeque<CloseCommand> = VecDeque::new();
    if let Some(timer) = frame_timer {
        commands.push_back(CloseCommand::RemoveTimer(timer));
    }
    commands.push_back(CloseCommand::RemoveObserver(inner.ns_view));
    commands.push_back(CloseCommand::ScheduleFinalize(inner.ns_view));
    if let Some(app) = inner.ns_app {
        commands.push_back(CloseCommand::StopApp(app));
        commands.push_back(CloseCommand::StopMainLoop);
        commands.push_back(CloseCommand::WakeMainLoop);
    }
    assert(commands@ =~= level_commands(*inner, frame_timer));
    commands
}

impl Teardown {
    fn idle(closing: Option<usize>, key: usize) -> (teardown: Teardown)
        ensures
            teardown@ == idle(closing, key),
    {
        let teardown = Teardown {
            key,
            closing,
            phase: ClosePhase::Finished,
            propagate: None,
            held: Vec::new(),
        };
        assert(teardown@ =~= idle(closing, key));
        teardown
    }

    /// The window that is being torn down.
    pub fn key(&self) -> (key: usize)
        ensures
            key == self@.key,
    {
        self.key
    }

    fn end<E>(&mut self, windows: &mut Windows<E>) -> (step: CloseStep)
        requires
            old(self)@.closing matches Some(key) ==> old(windows)@.contains_key(key),
        ensures
            (final(self)@, final(windows)@, step) == ends(old(self)@, old(windows)@),
            final(windows).next_key() == old(windows).next_key(),
    {
        self.phase = ClosePhase::Finished;
        if let Some(key) = self.closing {
            let mut state = windows.take(key);
            let ns_window = state.window_inner.ns_window;
            state.window_inner.ns_window = None;
            windows.put(key, state);
            match ns_window {
                Some(ns_window) => {
                    assert(windows@ =~= ends(old(self)@, old(windows)@).1);
                    CloseStep::Ask(CloseCommand::CloseWindow(ns_window))
                },
                None => {
                    assert(state@ =~= old(windows)@[key]);
                    assert(windows@ =~= old(windows)@);
                    CloseStep::Done
                },
            }
        } else {
            CloseStep::Done
        }
    }

    fn finish<E>(&mut self, windows: &mut Windows<E>) -> (step: CloseStep)
        requires
            old(self)@.closing matches Some(key) ==> old(windows)@.contains_key(key),
            lent(old(windows)@, old(self)@.held),
        ensures
            (final(self)@, final(windows)@, step) == finishes(old(self)@, old(windows)@),
            final(windows).next_key() == old(windows).next_key(),
        decreases old(self)@.held.len(),
    {
        match self.held.pop() {
            Some(reference) => {
                let key: usize = reference.key();
                assert(old(self)@.held.last() == key);
                assert(self@.held =~= old(self)@.held.drop_last());
                assert(times(old(self)@.held, key) > 0);
                let dropped = windows.release(reference);
                self.phase = ClosePhase::Working(VecDeque::new());
                self.propagate = None;
                assert(self.phase@ =~= ClosePhaseView::Working(Seq::empty()));
                if dropped {
                    CloseStep::Ask(CloseCommand::DropState(key))
                } else {
                    assert forall|other: usize| #[trigger] times(self@.held, other) > 0 implies {
                        &&& windows@.contains_key(other)
                        &&& times(self@.held, other) <= windows@[other].clones
                    } by {
                        assert(times(old(self)@.held, other) > 0);
                    }
                    self.finish(windows)
                }
            },
            None => self.end(windows),
        }
    }

    fn enter<E>(&mut self, windows: &mut Windows<E>, key: usize) -> (step: CloseStep)
        requires
            old(windows)@.contains_key(key),
            old(self)@.closing matches Some(key) ==> old(windows)@.contains_key(key),
            lent(old(windows)@, old(self)@.held),
        ensures
            (final(self)@, final(windows)@, step) == enters(old(self)@, old(windows)@, key),
            final(windows).next_key() == old(windows).next_key(),
    {
        self.key = key;
        self.propagate = None;
        let mut state = windows.take(key);
        let open = state.window_inner.open;
        let ns_view: usize = state.window_inner.ns_view;
        state.window_inner.open = false;
        windows.put(key, state);
        if open {
            let search = AncestorSearch::find_baseview_ancestor(ns_view);
            self.phase = ClosePhase::Searching(search);
            assert(windows@ =~= enters(old(self)@, old(windows)@, key).1);
            CloseStep::Ask(CloseCommand::Find(search.awaiting))
        } else {
            assert(state@ =~= old(windows)@[key]);
            assert(windows@ =~= old(windows)@);
            self.finish(windows)
        }
    }

    fn work<E>(&mut self, windows: &mut Windows<E>, commands: VecDeque<CloseCommand>) -> (step:
        CloseStep)
        requires
            old(self)@.closing matches Some(key) ==> old(windows)@.contains_key(key),
            lent(old(windows)@, old(self)@.held),
            commands@.len() == 0 ==> (old(self)@.propagate matches Some(ancestor) ==> old(
                windows,
            )@.contains_key(ancestor)),
        ensures
            (final(self)@, final(windows)@, step) == works(
                old(self)@,
                old(windows)@,
                commands@,
            ),
            final(windows).next_key() == old(windows).next_key(),
    {
        let mut commands = commands;
        let ghost all = commands@;
        match commands.pop_front() {
            Some(command) => {
                self.phase = ClosePhase::Working(commands);
                assert(commands@ =~= all.drop_first());
                CloseStep::Ask(command)
            },
            None => {
                match self.propagate {
                    Some(ancestor) => self.enter(windows, ancestor),
                    None => self.finish(windows),
                }
            },
        }
    }

    fn go_on<E>(&mut self, windows: &mut Windows<E>, ancestor: Option<usize>) -> (step: CloseStep)
        requires
            old(self)@.closing matches Some(key) ==> old(windows)@.contains_key(key),
            lent(old(windows)@, old(self)@.held),
            old(windows)@.contains_key(old(self)@.key),
            ancestor matches Some(found) ==> old(windows)@.contains_key(found) && old(
                windows,
            )@[found].clones < usize::MAX,
        ensures
            (final(self)@, final(windows)@, step) == searched(
                old(self)@,
                old(windows)@,
                ancestor,
            ),
            final(windows).next_key() == old(windows).next_key(),
    {
        if let Some(found) = ancestor {
            let reference = windows.retain(found);
            self.held.push(reference);
            assert(keys_of(self.held@) =~= old(self)@.held.push(found));
        }
        let ghost held_windows = windows@;
        assert(lent(held_windows, self@.held)) by {
            if let Some(found) = ancestor {
                assert forall|other: usize| #[trigger] times(self@.held, other) > 0 implies {
                    &&& held_windows.contains_key(other)
                    &&& times(self@.held, other) <= held_windows[other].clones
                } by {
                    lemma_times_push(old(self)@.held, found, other);
                }
            }
        }
        let key: usize = self.key;
        let mut state = windows.take(key);
        let commands = plan_level(&state.window_inner, state.frame_timer);
        self.propagate = match state.window_inner.ns_app {
            Some(_) => None,
            None => ancestor,
        };
        state.window_inner.ns_app = None;
        state.frame_timer = None;
        windows.put(key, state);
        assert(windows@ =~= held_windows.insert(key, stripped(held_windows[key])));
        self.work(windows, commands)
    }

    /// Whether the references that the teardown holds are counted.
    fn are_lent<E>(&self, windows: &Windows<E>) -> (counted: bool)
        ensures
            counted == lent(windows@, self@.held),
    {
        let ghost held = self@.held;
        let mut i: usize = 0;
        while i < self.held.len()
            invariant
                i <= self.held.len(),
                held == self@.held,
                held.len() == self.held.len(),
                forall|n: int|
                    0 <= n < i ==> windows@.contains_key(#[trigger] held[n]) && times(held, held[n])
                        <= windows@[held[n]].clones,
            decreases self.held.len() - i,
        {
            let key: usize = self.held[i].key();
            assert(held[i as int] == key);
            let mut count: usize = 0;
            let mut j: usize = 0;
            while j < self.held.len()
                invariant
                    j <= self.held.len(),
                    held == self@.held,
                    held.len() == self.held.len(),
                    count == times(held.take(j as int), key),
                    count <= j,
                decreases self.held.len() - j,
            {
                assert(held.take(j + 1) =~= held.take(j as int).push(held[j as int]));
                proof {
                    lemma_times_push(held.take(j as int), held[j as int], key);
                }
                if self.held[j].key() == key {
                    count = count + 1;
                }
                j = j + 1;
            }
            assert(held.take(j as int) =~= held);
            let enough = match windows.get(key) {
                Some(state) => count <= state.clones,
                None => false,
            };
            if !enough {
                proof {
                    lemma_times_bounds(held, key);
                }
                return false;
            }
            i = i + 1;
        }
        assert forall|key: usize| #[trigger] times(held, key) > 0 implies windows@.contains_key(key)
            && times(held, key) <= windows@[key].clones by {
            lemma_times_bounds(held, key);
        }
        true
    }

    /// Whether `resume` may be called with this answer.
    pub fn can_resume<E>(&self, windows: &Windows<E>, reply: usize) -> (ready: bool)
        ensures
            ready == can_resume(self@, windows@, reply),
    {
        let closing_found = match self.closing {
            Some(key) => windows.contains(key),
            None => true,
        };
        closing_found && self.are_lent(windows) && match &self.phase {
            ClosePhase::Searching(search) => {
                windows.contains(self.key) && match search.awaiting {
                    ViewQuery::StateOf(_) => {
                        reply == NIL || match windows.get(reply) {
                            Some(state) => state.clones < usize::MAX,
                            None => false,
                        }
                    },
                    _ => true,
                }
            },
            ClosePhase::Working(commands) => {
                commands.len() > 0 || match self.propagate {
                    Some(ancestor) => windows.contains(ancestor),
                    None => true,
                }
            },
            ClosePhase::Finished => true,
        }
    }

    /// Resumes the teardown with the answer to what it has asked for.
    pub fn resume<E>(&mut self, windows: &mut Windows<E>, reply: usize) -> (step: CloseStep)
        requires
            can_resume(old(self)@, old(windows)@, reply),
        ensures
            (final(self)@, final(windows)@, step) == close_next(
                old(self)@,
                old(windows)@,
                reply,
            ),
            final(windows).next_key() == old(windows).next_key(),
    {
        let mut phase = ClosePhase::Finished;
        std::mem::swap(&mut phase, &mut self.phase);
        match phase {
            ClosePhase::Searching(search) => {
                let mut search = search;
                let step = search.answer(reply);
                self.phase = ClosePhase::Searching(search);
                match step {
                    SearchStep::Ask(query) => CloseStep::Ask(CloseCommand::Find(query)),
                    SearchStep::Found(found) => self.go_on(windows, Some(found)),
                    SearchStep::NotFound => self.go_on(windows, None),
                }
            },
            ClosePhase::Working(commands) => self.work(windows, commands),
            ClosePhase::Finished => CloseStep::Done,
        }
    }
}

impl<E> Windows<E> {
    /// Closes a window: tears it down, then closes its native window. Does
    /// nothing if the window is closed already.
    pub fn close(&mut self, key: usize) -> (result: (Teardown, CloseStep))
        requires
            old(self)@.contains_key(key),
            old(self)@[key].is_built(),
        ensures
            (result.0@, final(self)@, result.1) == closes(old(self)@, key),
            final(self).next_key() == old(self).next_key(),
    {
        let open = match self.get(key) {
            Some(state) => state.window_inner.open,
            None => false,
        };
        if open {
            let mut teardown = Teardown::idle(Some(key), key);
            let step = teardown.enter(self, key);
            (teardown, step)
        } else {
            (Teardown::idle(None, key), CloseStep::Done)
        }
    }

    /// Tears a window down and leaves its native window alone, which is about
    /// to close by itself. Does nothing if the window is closed already.
    pub fn close_inner(&mut self, key: usize) -> (result: (Teardown, CloseStep))
        requires
            old(self)@.contains_key(key),
            old(self)@[key].is_built(),
        ensures
            (result.0@, final(self)@, result.1) == enters(idle(None, key), old(self)@, key),
            final(self).next_key() == old(self).next_key(),
    {
        let mut teardown = Teardown::idle(None, key);
        let step = teardown.enter(self, key);
        (teardown, step)
    }
}

} // verus!
