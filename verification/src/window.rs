//! A window as the program and its handlers see it.
use crate::close::{closes, CloseStep, Teardown};
use crate::focus::{focus_from, has_focus_from, Focus, FocusCommand, FocusStep, HasFocus};
use crate::handle::{appkit_fields, AppKitHandle};
use crate::resize::{resize_commands, ResizeCommand};
use crate::state::{kept_if_held, WindowInner, WindowView, Windows};
use crate::values::{Size, NIL};
use raw_window_handle::RawWindowHandle;
use vstd::prelude::*;

verus! {

/// What other crates may know of a window: its native window, nil if it has
/// none of its own, and its view. Nothing once it is closed.
pub open spec fn published(inner: WindowInner) -> AppKitHandle {
    if inner.open {
        AppKitHandle {
            ns_window: match inner.ns_window {
                Some(ns_window) => ns_window,
                None => NIL,
            },
            ns_view: inner.ns_view,
        }
    } else {
        AppKitHandle { ns_window: NIL, ns_view: NIL }
    }
}

impl WindowInner {
    /// The addresses by which other crates may reach the window.
    pub fn appkit_handle(&self) -> (handle: AppKitHandle)
        ensures
            handle == published(*self),
    {
        if self.open {
            let ns_window: usize = match self.ns_window {
                Some(ns_window) => ns_window,
                None => NIL,
            };
            return AppKitHandle { ns_window, ns_view: self.ns_view };
        }
        AppKitHandle { ns_window: NIL, ns_view: NIL }
    }

    /// The same in the form that other crates take.
    pub fn raw_window_handle(&self) -> (handle: RawWindowHandle)
        ensures
            appkit_fields(handle) == Some((published(*self).ns_window, published(*self).ns_view)),
    {
        self.appkit_handle().to_raw()
    }
}

/// The program's hold on a window that it has opened inside another one.
#[derive(Debug)]
pub struct WindowHandle {
    key: usize,
}

impl WindowHandle {
    pub closed spec fn spec_key(&self) -> usize {
        self.key
    }

    /// The key of the window.
    #[verifier::when_used_as_spec(spec_key)]
    pub fn key(&self) -> (key: usize)
        ensures
            key == self.key(),
    {
        self.key
    }

    pub(crate) fn to_window(key: usize) -> (handle: WindowHandle)
        ensures
            handle.key() == key,
    {
        WindowHandle { key }
    }

    /// Closes the window. Does nothing if it is closed already.
    pub fn close<E>(&mut self, windows: &mut Windows<E>) -> (result: (Teardown, CloseStep))
        requires
            old(windows)@.contains_key(old(self).key()),
            old(windows)@[old(self).key()].is_built(),
        ensures
            final(self).key() == old(self).key(),
            (result.0@, final(windows)@, result.1) == closes(old(windows)@, old(self).key()),
            final(windows).next_key() == old(windows).next_key(),
    {
        windows.close(self.key)
    }

    /// Whether the window is open.
    pub fn is_open<E>(&self, windows: &Windows<E>) -> (open: bool)
        requires
            windows@.contains_key(self.key()),
        ensures
            open == windows@[self.key()].window_inner.open,
    {
        match windows.get(self.key) {
            Some(state) => state.window_inner.open,
            None => false,
        }
    }

    /// The window as other crates may reach it.
    pub fn raw_window_handle<E>(&self, windows: &Windows<E>) -> (handle: RawWindowHandle)
        requires
            windows@.contains_key(self.key()),
        ensures
            ({
                let known = published(windows@[self.key()].window_inner);
                appkit_fields(handle) == Some((known.ns_window, known.ns_view))
            }),
    {
        let state = windows.get(self.key).unwrap();
        state.window_inner.raw_window_handle()
    }

    /// Gives the handle up. The state of the window is dropped, and the result
    /// is `true`, if nothing else holds it.
    pub fn release<E>(self, windows: &mut Windows<E>) -> (dropped: bool)
        requires
            old(windows)@.contains_key(self.key()),
        ensures
            ({
                let state = WindowView { handle: false, ..old(windows)@[self.key()] };
                &&& final(windows)@ == kept_if_held(old(windows)@, self.key(), state)
                &&& dropped == !state.is_held()
            }),
            final(windows).next_key() == old(windows).next_key(),
    {
        let key: usize = self.key;
        let mut state = windows.take(key);
        state.handle = false;
        let dropped = windows.put_if_held(key, state);
        assert(windows@ =~= kept_if_held(
            old(windows)@,
            key,
            WindowView { handle: false, ..old(windows)@[key] },
        ));
        dropped
    }
}

/// A window as its handlers see it.
#[derive(Clone, Copy, Debug, PartialEq, Eq, Structural)]
pub struct Window {
    pub key: usize,
}

impl Window {
    /// Closes the window. Does nothing if it is closed already.
    pub fn close<E>(&mut self, windows: &mut Windows<E>) -> (result: (Teardown, CloseStep))
        requires
            old(windows)@.contains_key(old(self).key),
            old(windows)@[old(self).key].is_built(),
        ensures
            *final(self) == *old(self),
            (result.0@, final(windows)@, result.1) == closes(old(windows)@, old(self).key),
            final(windows).next_key() == old(windows).next_key(),
    {
        windows.close(self.key)
    }

    /// Begins to find out whether the window has the keyboard focus.
    pub fn has_focus<E>(&mut self, windows: &Windows<E>) -> (result: (HasFocus, FocusStep<bool>))
        requires
            windows@.contains_key(old(self).key),
        ensures
            *final(self) == *old(self),
            ({
                let view = windows@[old(self).key].window_inner.ns_view;
                result == (
                    has_focus_from(view),
                    FocusStep::<bool>::Ask(FocusCommand::WindowOf(view)),
                )
            }),
    {
        let view: usize = windows.get(self.key).unwrap().window_inner.ns_view;
        HasFocus::begin(view)
    }

    /// Begins to give the window the keyboard focus.
    pub fn focus<E>(&mut self, windows: &Windows<E>) -> (result: (Focus, FocusStep<()>))
        requires
            windows@.contains_key(old(self).key),
        ensures
            *final(self) == *old(self),
            ({
                let view = windows@[old(self).key].window_inner.ns_view;
                result == (
                    focus_from(view),
                    FocusStep::<()>::Ask(FocusCommand::WindowOf(view)),
                )
            }),
    {
        let view: usize = windows.get(self.key).unwrap().window_inner.ns_view;
        Focus::begin(view)
    }

    /// What gives the window a new size, whose numbers are whole: nothing once
    /// it is closed.
    pub fn resize<E>(&mut self, windows: &Windows<E>, size: Size) -> (commands: Vec<ResizeCommand>)
        requires
            windows@.contains_key(old(self).key),
        ensures
            *final(self) == *old(self),
            commands@ == resize_commands(windows@[old(self).key].window_inner, size),
    {
        windows.get(self.key).unwrap().window_inner.resize(size)
    }

    /// The OpenGL context of the window, if it was opened with one.
    pub fn gl_context<'a, E>(&self, windows: &'a Windows<E>) -> (context: Option<&'a usize>)
        requires
            windows@.contains_key(self.key),
        ensures
            match windows@[self.key].window_inner.gl_context {
                Some(gl_context) => context == Some(&gl_context),
                None => context is None,
            },
    {
        windows.get(self.key).unwrap().window_inner.gl_context.as_ref()
    }

    /// The window as other crates may reach it.
    pub fn raw_window_handle<E>(&self, windows: &Windows<E>) -> (handle: RawWindowHandle)
        requires
            windows@.contains_key(self.key),
        ensures
            ({
                let known = published(windows@[self.key].window_inner);
                appkit_fields(handle) == Some((known.ns_window, known.ns_view))
            }),
    {
        let state = windows.get(self.key).unwrap();
        state.window_inner.raw_window_handle()
    }
}

/// A closed window is published as nothing, and an open one with its view.
pub proof fn only_open_windows_are_published(inner: WindowInner)
    requires
        inner.ns_view != NIL,
    ensures
        inner.open <==> published(inner).ns_view == inner.ns_view,
        inner.open <==> published(inner) != (AppKitHandle { ns_window: NIL, ns_view: NIL }),
{
}

/// The program's handle and the window that handlers see are about one state:
/// once either of them has begun to close the window, the other finds it closed
/// and published as nothing.
pub proof fn handle_and_window_agree<E>(windows: Map<usize, WindowView<E>>, key: usize)
    ensures
        !closes(windows, key).1[key].window_inner.open,
        published(closes(windows, key).1[key].window_inner) == (AppKitHandle {
            ns_window: NIL,
            ns_view: NIL,
        }),
{
}

/// What is published of an open window is its own native window whenever it has
/// one, nil whenever it has none, and its view: whatever else there is to the
/// window. Of a closed window both are nil.
pub proof fn an_open_window_is_published_whole(inner: WindowInner, ns_window: usize)
    ensures
        inner.open && inner.ns_window == Some(ns_window) ==> published(inner).ns_window
            == ns_window,
        inner.open && inner.ns_window is None ==> published(inner).ns_window == 0,
        inner.open ==> published(inner).ns_view == inner.ns_view,
        !inner.open ==> published(inner).ns_window == 0 && published(inner).ns_view == 0,
{
}

} // verus!
