//! The windows of a program and what each of them consists of.
//!
//! A window is reached from several places at once: from the native view that
//! stores its state, from the handle that the program keeps, and from the event
//! handlers that are running on its behalf. All of them name it by a key, and
//! the table of windows keeps its state for as long as one of them holds it.
use crate::values::{WindowInfo, NIL};
use std::collections::{HashMap, VecDeque};
use vstd::prelude::*;

verus! {

/// The native side of a window.
#[derive(Clone, Copy, Debug, PartialEq, Eq)]
pub struct WindowInner {
    pub open: bool,
    /// The application object; only for a window that runs the application.
    pub ns_app: Option<usize>,
    /// The native window; only for a window that is not inside another one.
    pub ns_window: Option<usize>,
    /// The native view; never nil.
    pub ns_view: usize,
    /// The OpenGL context, if the window was opened with one.
    pub gl_context: Option<usize>,
}

/// Everything that is known of a window.
pub struct WindowState<E> {
    pub window_inner: WindowInner,
    /// The last known extent of the window.
    pub window_info: WindowInfo,
    /// The timer that asks for frames while the window is open.
    pub frame_timer: Option<usize>,
    /// Whether the event handler is running.
    pub handler_borrowed: bool,
    /// Events that came while the event handler was running, oldest first.
    pub deferred_events: VecDeque<E>,
    /// Whether the native view stores this state.
    pub attached: bool,
    /// Whether the program still has its handle.
    pub handle: bool,
    /// How many more references to this state are held.
    pub clones: usize,
}

/// A window's state as contracts speak of it.
#[verifier::ext_equal]
pub struct WindowView<E> {
    pub window_inner: WindowInner,
    pub window_info: WindowInfo,
    pub frame_timer: Option<usize>,
    pub handler_borrowed: bool,
    pub deferred_events: Seq<E>,
    pub attached: bool,
    pub handle: bool,
    pub clones: usize,
}

impl<E> View for WindowState<E> {
    type V = WindowView<E>;

    open spec fn view(&self) -> WindowView<E> {
        WindowView {
            window_inner: self.window_inner,
            window_info: self.window_info,
            frame_timer: self.frame_timer,
            handler_borrowed: self.handler_borrowed,
            deferred_events: self.deferred_events@,
            attached: self.attached,
            handle: self.handle,
            clones: self.clones,
        }
    }
}

impl<E> WindowView<E> {
    /// Whether anything still holds this state.
    pub open spec fn is_held(self) -> bool {
        self.attached || self.handle || self.clones > 0
    }

    /// Whether the window's event handler exists: an open window that its view
    /// does not store yet is still being built.
    pub open spec fn is_built(self) -> bool {
        self.window_inner.open ==> self.attached
    }

    /// What holds of the state of every window.
    pub open spec fn is_sound(self) -> bool {
        &&& self.window_inner.ns_view != NIL
        &&& self.is_held()
        &&& !self.handler_borrowed ==> self.deferred_events.len() == 0
    }

    /// This state after the window has stopped being open.
    pub open spec fn closed(self) -> WindowView<E> {
        WindowView { window_inner: WindowInner { open: false, ..self.window_inner }, ..self }
    }

    /// This state with one more reference to it.
    pub open spec fn retained(self) -> WindowView<E> {
        WindowView { clones: (self.clones + 1) as usize, ..self }
    }

    /// This state with one reference less.
    pub open spec fn released(self) -> WindowView<E> {
        WindowView { clones: (self.clones - 1) as usize, ..self }
    }
}

/// The table without `key` if nothing holds `state` any more, and with `state`
/// as the window of `key` otherwise.
pub open spec fn kept_if_held<E>(
    windows: Map<usize, WindowView<E>>,
    key: usize,
    state: WindowView<E>,
) -> Map<usize, WindowView<E>> {
    if state.is_held() {
        windows.insert(key, state)
    } else {
        windows.remove(key)
    }
}

/// One reference to a window's state, to be given back with
/// [`Windows::release`].
#[derive(Debug)]
pub struct StateRef {
    key: usize,
}

impl StateRef {
    pub closed spec fn spec_key(&self) -> usize {
        self.key
    }

    /// The key of the window.
    #[verifier::when_used_as_spec(spec_key)]
    pub fn key(&self) -> (key: usize)
        ensures
            key == self.key(),
    {
        self.key
    }
}

/// The table of all windows.
pub struct Windows<E> {
    states: HashMap<usize, WindowState<E>>,
    next_key: usize,
}

impl<E> View for Windows<E> {
    type V = Map<usize, WindowView<E>>;

    closed spec fn view(&self) -> Map<usize, WindowView<E>> {
        self.states@.map_values(|state: WindowState<E>| state@)
    }
}

impl<E> Windows<E> {
    /// The key that the next window will get. No window has had it before.
    pub closed spec fn next_key(&self) -> usize {
        self.next_key
    }

    /// What holds of every table: its windows are sound and finitely many, and
    /// the key of the next window is neither nil nor that of a window.
    pub open spec fn is_valid(&self) -> bool {
        &&& self@.dom().finite()
        &&& self.next_key() > NIL
        &&& !self@.contains_key(self.next_key())
        &&& forall|key: usize| #[trigger]
            self@.contains_key(key) ==> NIL < key < self.next_key() && self@[key].is_sound()
    }

    #[verifier::type_invariant]
    closed spec fn all_sound(self) -> bool {
        &&& self.next_key > NIL
        &&& forall|key: usize| #[trigger]
            self.states@.contains_key(key) ==> NIL < key < self.next_key
                && self.states@[key]@.is_sound()
    }

    /// A table without windows.
    pub fn new() -> (windows: Self)
        ensures
            windows@ == Map::<usize, WindowView<E>>::empty(),
            windows.next_key() == 1,
            windows.is_valid(),
    {
        let windows = Windows { states: HashMap::new(), next_key: 1 };
        assert(windows@ =~= Map::<usize, WindowView<E>>::empty());
        windows
    }

    /// The state of a window, if there is such a window.
    pub fn get(&self, key: usize) -> (state: Option<&WindowState<E>>)
        ensures
            match state {
                Some(state) => {
                    &&& self@.contains_key(key)
                    &&& state@ == self@[key]
                    &&& state@.is_sound()
                    &&& NIL < key < self.next_key()
                },
                None => !self@.contains_key(key),
            },
            self.is_valid(),
    {
        broadcast use vstd::std_specs::hash::group_hash_axioms;

        proof {
            use_type_invariant(self);
            assert(self@.dom() =~= self.states@.dom());
        }
        self.states.get(&key)
    }

    /// Whether there is such a window.
    pub fn contains(&self, key: usize) -> (found: bool)
        ensures
            found == self@.contains_key(key),
            self.is_valid(),
    {
        self.get(key).is_some()
    }

    /// Whether one more window can be added.
    pub fn has_room(&self) -> (room: bool)
        ensures
            room == (self.next_key() < usize::MAX),
            self.is_valid(),
    {
        broadcast use vstd::std_specs::hash::group_hash_axioms;

        proof {
            use_type_invariant(self);
            assert(self@.dom() =~= self.states@.dom());
        }
        self.next_key < usize::MAX
    }

    /// Takes a window's state out of the table.
    pub(crate) fn take(&mut self, key: usize) -> (state: WindowState<E>)
        requires
            old(self)@.contains_key(key),
        ensures
            final(self)@ == old(self)@.remove(key),
            final(self).next_key() == old(self).next_key(),
            state@ == old(self)@[key],
            state@.is_sound(),
            NIL < key < old(self).next_key(),
    {
        broadcast use vstd::std_specs::hash::group_hash_axioms;

        proof {
            use_type_invariant(&*self);
        }
        let mut states: HashMap<usize, WindowState<E>> = HashMap::new();
        std::mem::swap(&mut states, &mut self.states);
        let state = states.remove(&key).unwrap();
        self.states = states;
        assert(self@ =~= old(self)@.remove(key));
        state
    }

    /// Puts a window's state into the table.
    pub(crate) fn put(&mut self, key: usize, state: WindowState<E>)
        requires
            NIL < key < old(self).next_key(),
            state@.is_sound(),
        ensures
            final(self)@ == old(self)@.insert(key, state@),
            final(self).next_key() == old(self).next_key(),
    {
        broadcast use vstd::std_specs::hash::group_hash_axioms;

        proof {
            use_type_invariant(&*self);
        }
        let mut states: HashMap<usize, WindowState<E>> = HashMap::new();
        std::mem::swap(&mut states, &mut self.states);
        states.insert(key, state);
        self.states = states;
        assert(self@ =~= old(self)@.insert(key, state@));
    }

    /// Adds a window under a key of its own.
    pub(crate) fn add(&mut self, state: WindowState<E>) -> (key: usize)
        requires
            old(self).next_key() < usize::MAX,
            state@.is_sound(),
        ensures
            key == old(self).next_key(),
            key != NIL,
            !old(self)@.contains_key(key),
            final(self)@ == old(self)@.insert(key, state@),
            final(self).next_key() == key + 1,
    {
        proof {
            use_type_invariant(&*self);
        }
        let key: usize = self.next_key;
        self.next_key = key + 1;
        self.put(key, state);
        key
    }

    /// Puts a window's state back, unless nothing holds it any more: then the
    /// state is dropped. Says whether it was.
    pub(crate) fn put_if_held(&mut self, key: usize, state: WindowState<E>) -> (dropped: bool)
        requires
            NIL < key < old(self).next_key(),
            !old(self)@.contains_key(key),
            state@.is_held() ==> state@.is_sound(),
        ensures
            final(self)@ == kept_if_held(old(self)@, key, state@),
            final(self).next_key() == old(self).next_key(),
            dropped == !state@.is_held(),
    {
        if state.attached || state.handle || state.clones > 0 {
            self.put(key, state);
            false
        } else {
            assert(self@ =~= old(self)@.remove(key));
            true
        }
    }

    /// Records a new extent of a window. Nothing else changes.
    pub fn set_window_info(&mut self, key: usize, info: WindowInfo)
        requires
            old(self)@.contains_key(key),
        ensures
            final(self)@ == old(self)@.insert(
                key,
                WindowView { window_info: info, ..old(self)@[key] },
            ),
            final(self).next_key() == old(self).next_key(),
    {
        let mut state = self.take(key);
        state.window_info = info;
        self.put(key, state);
        assert(self@ =~= old(self)@.insert(
            key,
            WindowView { window_info: info, ..old(self)@[key] },
        ));
    }

    /// Takes one more reference to a window's state.
    pub fn retain(&mut self, key: usize) -> (reference: StateRef)
        requires
            old(self)@.contains_key(key),
            old(self)@[key].clones < usize::MAX,
        ensures
            reference.key() == key,
            final(self)@ == old(self)@.insert(key, old(self)@[key].retained()),
            final(self).next_key() == old(self).next_key(),
    {
        let mut state = self.take(key);
        state.clones = state.clones + 1;
        self.put(key, state);
        assert(self@ =~= old(self)@.insert(key, old(self)@[key].retained()));
        StateRef { key }
    }

    /// Gives back a reference. The state is dropped, and the result is `true`,
    /// if this was the last thing that held it.
    pub fn release(&mut self, reference: StateRef) -> (dropped: bool)
        requires
            old(self)@.contains_key(reference.key()),
            old(self)@[reference.key()].clones > 0,
        ensures
            final(self)@ == kept_if_held(
                old(self)@,
                reference.key(),
                old(self)@[reference.key()].released(),
            ),
            dropped == !old(self)@[reference.key()].released().is_held(),
            final(self).next_key() == old(self).next_key(),
    {
        let key: usize = reference.key;
        let mut state = self.take(key);
        state.clones = state.clones - 1;
        let dropped = self.put_if_held(key, state);
        assert(self@ =~= kept_if_held(old(self)@, key, old(self)@[key].released()));
        dropped
    }
}

impl<E> WindowState<E> {
    /// A reference to the state that a native view stores. The state cannot go
    /// away while the reference is held, even if the view lets go of it.
    pub fn from_view(windows: &mut Windows<E>, stored: usize) -> (reference: StateRef)
        requires
            old(windows)@.contains_key(stored),
            old(windows)@[stored].attached,
            old(windows)@[stored].clones < usize::MAX,
        ensures
            reference.key() == stored,
            final(windows)@ == old(windows)@.insert(stored, old(windows)@[stored].retained()),
            final(windows).next_key() == old(windows).next_key(),
    {
        windows.retain(stored)
    }
}

/// A state is kept exactly as long as its view stores it, the program has its
/// handle, or a reference to it is left; each of these keeps it by itself.
pub proof fn a_state_is_kept_as_long_as_it_is_held<E>(
    windows: Map<usize, WindowView<E>>,
    key: usize,
    state: WindowView<E>,
    other: usize,
)
    ensures
        state.is_held() <==> state.attached || state.handle || state.clones > 0,
        ({
            let after = kept_if_held(windows, key, state);
            &&& after.contains_key(key) <==> state.attached || state.handle || state.clones > 0
            &&& after.contains_key(key) ==> after[key] == state
            &&& other != key ==> (after.contains_key(other) <==> windows.contains_key(other))
            &&& other != key && windows.contains_key(other) ==> after[other] == windows[other]
        }),
{
}

/// Taking a reference counts one more, giving one back counts one less, closing
/// says that the window is not open, and none of them touches anything else.
pub proof fn a_reference_is_counted_and_nothing_else<E>(state: WindowView<E>)
    ensures
        state.clones < usize::MAX ==> state.retained().clones == state.clones + 1,
        state.clones > 0 ==> state.released().clones == state.clones - 1,
        state.retained() == (WindowView { clones: state.retained().clones, ..state }),
        state.released() == (WindowView { clones: state.released().clones, ..state }),
        !state.closed().window_inner.open,
        state.closed().clones == state.clones,
        state.closed().attached == state.attached,
        state.closed().handle == state.handle,
        state.closed().frame_timer == state.frame_timer,
        state.closed().window_info == state.window_info,
        state.closed().handler_borrowed == state.handler_borrowed,
        state.closed().deferred_events == state.deferred_events,
        state.closed().window_inner == (WindowInner {
            open: state.closed().window_inner.open,
            ..state.window_inner
        }),
{
}

/// A window is built as soon as its view stores its state, and a closed window
/// always is: nothing else matters.
pub proof fn a_window_is_built_once_its_view_stores_it<E>(state: WindowView<E>)
    ensures
        state.is_built() <==> state.attached || !state.window_inner.open,
        state.is_sound() <==> {
            &&& state.window_inner.ns_view != 0
            &&& state.attached || state.handle || state.clones > 0
            &&& state.handler_borrowed || state.deferred_events.len() == 0
        },
{
}

} // verus!
