//! Opening a window.
//!
//! A window is opened either inside a window of somebody else, or on its own,
//! in which case it also runs the application until it is closed. In both cases
//! it is added to the table before its handler is built, because the handler is
//! built with the window at hand; the view stores the state only afterwards.
use crate::handle::{appkit_fields, AppKitHandle};
use crate::state::{WindowInner, WindowState, WindowView, Windows};
use crate::values::{
    initial_info, Size, WindowInfo, WindowOpenOptions, FRAME_INTERVAL_BITS, NIL, ZERO_BITS,
};
use crate::window::{Window, WindowHandle};
use raw_window_handle::RawWindowHandle;
use std::collections::VecDeque;
use vstd::prelude::*;

verus! {

/// A native action of opening a window. Some answer with an object.
#[derive(Debug, PartialEq, Eq)]
pub enum OpenCommand {
    /// Answers a new autorelease pool.
    NewPool,
    /// Answers the application object.
    SharedApp,
    /// Makes this application one that appears in the Dock and can have windows.
    SetActivationPolicyRegular(usize),
    /// Brings this application to the foreground, whatever else is there.
    ActivateIgnoringOtherApps(usize),
    /// Answers a new native window with this content rectangle and these traits.
    CreateWindow {
        x: u64,
        y: u64,
        size: Size,
        titled: bool,
        closable: bool,
        miniaturizable: bool,
        buffered: bool,
        deferred: bool,
    },
    /// Puts this native window into the middle of the screen.
    CenterWindow(usize),
    /// Gives this native window a title.
    SetTitle(usize, String),
    /// Shows this native window in front and gives it the keyboard events.
    MakeKeyAndOrderFront(usize),
    /// Answers a new view for a window that is opened with these options.
    CreateView(WindowOpenOptions),
    /// Answers a new OpenGL context for what this handle names.
    CreateGlContext(AppKitHandle),
    /// Builds the handler of this window.
    BuildHandler(Window),
    /// Makes a view store the state of a window.
    StoreState { view: usize, state: usize },
    /// Answers a new timer that asks for a frame of this window. Both times are
    /// bit patterns, in seconds.
    CreateTimer { state: usize, fire_date: u64, interval: u64, flags: u64, order: i64 },
    /// Adds this timer to the current run loop.
    AddTimer(usize),
    /// Puts a view into another one.
    AddSubview { parent: usize, view: usize },
    /// Makes a view the content of a native window.
    SetContentView { window: usize, view: usize },
    /// Has a native window report to a view.
    SetDelegate { window: usize, view: usize },
    /// Drains this autorelease pool.
    DrainPool(usize),
    /// Runs this application until it is stopped.
    RunApp(usize),
}

/// What comes next.
#[derive(Debug)]
pub enum OpenStep {
    /// Wants this done; the answer, or anything where there is none, goes on.
    Ask(OpenCommand),
    /// Ends: the window is open, and this is the program's hold on it.
    Opened(WindowHandle),
    /// Ends: the application has stopped running.
    Ended,
}

/// Where a window is opened.
#[derive(Clone, Copy, Debug, PartialEq, Eq, Structural)]
pub enum OpenMode {
    /// Inside this view.
    Parented(usize),
    /// On its own.
    Blocking,
}

/// An opening under way.
#[derive(Debug)]
pub struct Opening {
    pub mode: OpenMode,
    pub options: WindowOpenOptions,
    /// The answers so far.
    pub replies: Vec<usize>,
    /// The key of the window, once it is in the table.
    pub key: usize,
}

/// An [`Opening`] as contracts speak of it.
#[verifier::ext_equal]
pub struct OpeningView {
    pub mode: OpenMode,
    pub options: WindowOpenOptions,
    pub replies: Seq<usize>,
    pub key: usize,
}

impl View for Opening {
    type V = OpeningView;

    open spec fn view(&self) -> OpeningView {
        OpeningView {
            mode: self.mode,
            options: self.options,
            replies: self.replies@,
            key: self.key,
        }
    }
}

impl OpeningView {
    /// Which answer is the view.
    pub open spec fn view_at(self) -> int {
        match self.mode {
            OpenMode::Parented(_) => 1,
            OpenMode::Blocking => 8,
        }
    }

    /// How many answers come before the handler is built.
    pub open spec fn build_at(self) -> int {
        self.view_at() + if self.options.opengl {
            2int
        } else {
            1int
        }
    }

    pub open spec fn ns_view(self) -> usize {
        self.replies[self.view_at()]
    }

    pub open spec fn timer(self) -> usize {
        self.replies[self.build_at() + 2]
    }

    /// The application object, for a window on its own.
    pub open spec fn ns_app(self) -> Option<usize> {
        match self.mode {
            OpenMode::Parented(_) => None,
            OpenMode::Blocking => Some(self.replies[1]),
        }
    }

    /// The native window, for a window on its own.
    pub open spec fn ns_window(self) -> Option<usize> {
        match self.mode {
            OpenMode::Parented(_) => None,
            OpenMode::Blocking => Some(self.replies[4]),
        }
    }

    /// What leads up to the view, and the view.
    pub open spec fn preparation(self) -> Seq<OpenCommand> {
        match self.mode {
            OpenMode::Parented(_) => seq![
                OpenCommand::NewPool,
                OpenCommand::CreateView(self.options),
            ],
            OpenMode::Blocking => {
                let app = self.replies[1];
                let window = self.replies[4];
                seq![
                    OpenCommand::NewPool,
                    OpenCommand::SharedApp,
                    OpenCommand::SetActivationPolicyRegular(app),
                    OpenCommand::ActivateIgnoringOtherApps(app),
                    OpenCommand::CreateWindow {
                        x: ZERO_BITS,
                        y: ZERO_BITS,
                        size: self.options.size,
                        titled: true,
                        closable: true,
                        miniaturizable: true,
                        buffered: true,
                        deferred: false,
                    },
                    OpenCommand::CenterWindow(window),
                    OpenCommand::SetTitle(window, self.options.title),
                    OpenCommand::MakeKeyAndOrderFront(window),
                    OpenCommand::CreateView(self.options),
                ]
            },
        }
    }

    /// The OpenGL context, if one is wanted. It is made for the native window,
    /// nil if there is none, and the view.
    pub open spec fn context(self) -> Seq<OpenCommand> {
        if self.options.opengl {
            seq![
                OpenCommand::CreateGlContext(
                    gl_handle(self.ns_window(), self.ns_view()),
                ),
            ]
        } else {
            seq![]
        }
    }

    /// What makes the view a window of this library: its handler, its state and
    /// its frame timer, which first fires at once and then after every frame
    /// interval.
    pub open spec fn initialization(self) -> Seq<OpenCommand> {
        seq![
            OpenCommand::BuildHandler(Window { key: self.key }),
            OpenCommand::StoreState { view: self.ns_view(), state: self.key },
            OpenCommand::CreateTimer {
                state: self.key,
                fire_date: ZERO_BITS,
                interval: FRAME_INTERVAL_BITS,
                flags: 0,
                order: 0,
            },
            OpenCommand::AddTimer(self.timer()),
        ]
    }

    /// What puts the view into its surroundings. The pool is drained after
    /// that, and before the application runs.
    pub open spec fn placement(self) -> Seq<OpenCommand> {
        let view = self.ns_view();
        match self.mode {
            OpenMode::Parented(parent) => seq![
                OpenCommand::AddSubview { parent, view },
                OpenCommand::DrainPool(self.replies[0]),
            ],
            OpenMode::Blocking => seq![
                OpenCommand::SetContentView { window: self.replies[4], view },
                OpenCommand::SetDelegate { window: self.replies[4], view },
                OpenCommand::DrainPool(self.replies[0]),
                OpenCommand::RunApp(self.replies[1]),
            ],
        }
    }

    /// Everything that the opening does, in order, given the answers. A command
    /// depends only on the answers before it.
    pub open spec fn script(self) -> Seq<OpenCommand> {
        self.preparation() + self.context() + self.initialization() + self.placement()
    }

    /// The native side of the window, once the answers say what it is.
    pub open spec fn inner(self) -> WindowInner {
        WindowInner {
            open: true,
            ns_app: self.ns_app(),
            ns_window: self.ns_window(),
            ns_view: self.ns_view(),
            gl_context: if self.options.opengl {
                Some(self.replies[self.view_at() + 1])
            } else {
                None
            },
        }
    }

    /// The state that the window is added to the table with: open, held by the
    /// program, and not yet stored by its view.
    pub open spec fn new_state<E>(self) -> WindowView<E> {
        WindowView {
            window_inner: self.inner(),
            window_info: initial_info(self.options),
            frame_timer: None,
            handler_borrowed: false,
            deferred_events: Seq::empty(),
            attached: false,
            handle: true,
            clones: 0,
        }
    }

    /// The opening after one more answer. It gets its key when the handler is
    /// about to be built.
    pub open spec fn answered(self, reply: usize, next_key: usize) -> OpeningView {
        let replies = self.replies.push(reply);
        OpeningView {
            replies,
            key: if replies.len() == self.build_at() {
                next_key
            } else {
                self.key
            },
            ..self
        }
    }

    /// What the latest answer means for the table: the window is added before
    /// its handler is built; it is stored by its view after that; and at the
    /// end of its initialization it has its timer, and the program gets its
    /// handle or, for a window on its own, does without.
    pub open spec fn applied<E>(self, windows: Map<usize, WindowView<E>>) -> Map<
        usize,
        WindowView<E>,
    > {
        let done = self.replies.len() - self.build_at();
        if done == 0 {
            windows.insert(self.key, self.new_state())
        } else if done == 2 {
            windows.insert(self.key, WindowView { attached: true, ..windows[self.key] })
        } else if done == 4 {
            windows.insert(
                self.key,
                WindowView {
                    frame_timer: Some(self.timer()),
                    handle: windows[self.key].handle && self.mode is Parented,
                    ..windows[self.key]
                },
            )
        } else {
            windows
        }
    }

    /// Whether `step` is what follows the answers so far: the next command of
    /// the script, or the end.
    pub open spec fn is_next(self, step: OpenStep) -> bool {
        let n = self.replies.len() as int;
        if n < self.script().len() {
            step == OpenStep::Ask(self.script()[n])
        } else {
            match self.mode {
                OpenMode::Parented(_) => step matches OpenStep::Opened(handle) && handle.key()
                    == self.key,
                OpenMode::Blocking => step is Ended,
            }
        }
    }

    /// Whether the opening can go on with `reply`: it is not over, the view
    /// exists, there is room for the window when it is added, and it is in the
    /// table afterwards.
    pub open spec fn can_resume<E>(
        self,
        windows: Map<usize, WindowView<E>>,
        next_key: usize,
        reply: usize,
    ) -> bool {
        let replies = self.replies.push(reply);
        let done = replies.len() - self.build_at();
        &&& self.replies.len() < self.script().len()
        &&& replies.len() > self.view_at() ==> replies[self.view_at()] != NIL
        &&& done == 0 ==> next_key < usize::MAX
        &&& done == 2 || done == 4 ==> windows.contains_key(self.key)
        &&& done == 4 ==> windows[self.key].attached
    }
}

/// The handle that an OpenGL context is made for.
pub open spec fn gl_handle(ns_window: Option<usize>, ns_view: usize) -> AppKitHandle {
    AppKitHandle {
        ns_window: match ns_window {
            Some(ns_window) => ns_window,
            None => NIL,
        },
        ns_view,
    }
}

impl Window {
    /// Begins to open a window inside the window that `parent` names. `None` if
    /// that is not a macOS window.
    pub fn open_parented(parent: RawWindowHandle, options: WindowOpenOptions) -> (result: Option<
        (Opening, OpenStep),
    >)
        ensures
            match appkit_fields(parent) {
                Some((_, ns_view)) => {
                    &&& result matches Some((opening, step))
                    &&& opening@ == (OpeningView {
                        mode: OpenMode::Parented(ns_view),
                        options,
                        replies: Seq::empty(),
                        key: NIL,
                    })
                    &&& opening@.is_next(step)
                },
                None => result is None,
            },
    {
        match AppKitHandle::from_raw(parent) {
            Some(parent) => {
                let opening = Opening {
                    mode: OpenMode::Parented(parent.ns_view),
                    options,
                    replies: Vec::new(),
                    key: NIL,
                };
                Some((opening, OpenStep::Ask(OpenCommand::NewPool)))
            },
            None => None,
        }
    }

    /// Begins to open a window on its own, which ends when the application has
    /// stopped running.
    pub fn open_blocking(options: WindowOpenOptions) -> (result: (Opening, OpenStep))
        ensures
            result.0@ == (OpeningView {
                mode: OpenMode::Blocking,
                options,
                replies: Seq::empty(),
                key: NIL,
            }),
            result.0@.is_next(result.1),
    {
        let opening = Opening {
            mode: OpenMode::Blocking,
            options,
            replies: Vec::new(),
            key: NIL,
        };
        (opening, OpenStep::Ask(OpenCommand::NewPool))
    }

    /// What an OpenGL context is made for.
    pub fn create_gl_context(ns_window: Option<usize>, ns_view: usize) -> (handle: AppKitHandle)
        ensures
            handle == gl_handle(ns_window, ns_view),
    {
        let ns_window: usize = match ns_window {
            Some(ns_window) => ns_window,
            None => NIL,
        };
        AppKitHandle { ns_window, ns_view }
    }
}

impl Opening {
    fn view_at(&self) -> (position: usize)
        ensures
            position == self@.view_at(),
    {
        match self.mode {
            OpenMode::Parented(_) => 1,
            OpenMode::Blocking => 8,
        }
    }

    fn build_at(&self) -> (position: usize)
        ensures
            position == self@.build_at(),
    {
        let view_at: usize = self.view_at();
        if self.options.opengl {
            view_at + 2
        } else {
            view_at + 1
        }
    }

    /// The command that follows the answers so far.
    fn command(&self) -> (command: OpenCommand)
        requires
            self@.replies.len() < self@.script().len(),
        ensures
            command == self@.script()[self@.replies.len() as int],
    {
        let n: usize = self.replies.len();
        let view_at: usize = self.view_at();
        let build_at: usize = self.build_at();
        if n <= view_at {
            assert(self@.script()[n as int] == self@.preparation()[n as int]);
            return self.preparation();
        }
        let view: usize = self.replies[view_at];
        if n < build_at {
            assert(self@.script()[n as int] == self@.context()[0]);
            let ns_window = match self.mode {
                OpenMode::Parented(_) => None,
                OpenMode::Blocking => Some(self.replies[4]),
            };
            return OpenCommand::CreateGlContext(Window::create_gl_context(ns_window, view));
        }
        if n < build_at + 4 {
            assert(self@.script()[n as int] == self@.initialization()[n - build_at]);
            return self.initialization(n - build_at, view);
        }
        assert(self@.script()[n as int] == self@.placement()[n - build_at - 4]);
        self.placement(n - build_at - 4, view)
    }

    fn preparation(&self) -> (command: OpenCommand)
        requires
            self@.replies.len() <= self@.view_at(),
        ensures
            command == self@.preparation()[self@.replies.len() as int],
    {
        let n: usize = self.replies.len();
        match self.mode {
            OpenMode::Parented(_) => {
                if n == 0 {
                    OpenCommand::NewPool
                } else {
                    self.create_view()
                }
            },
            OpenMode::Blocking => {
                match n {
                    0 => OpenCommand::NewPool,
                    1 => OpenCommand::SharedApp,
                    2 => OpenCommand::SetActivationPolicyRegular(self.replies[1]),
                    3 => OpenCommand::ActivateIgnoringOtherApps(self.replies[1]),
                    4 => OpenCommand::CreateWindow {
                        x: ZERO_BITS,
                        y: ZERO_BITS,
                        size: self.info().logical_size(),
                        titled: true,
                        closable: true,
                        miniaturizable: true,
                        buffered: true,
                        deferred: false,
                    },
                    5 => OpenCommand::CenterWindow(self.replies[4]),
                    6 => OpenCommand::SetTitle(self.replies[4], self.options.title.clone()),
                    7 => OpenCommand::MakeKeyAndOrderFront(self.replies[4]),
                    _ => self.create_view(),
                }
            },
        }
    }

    /// The command that makes the view, with all that the window is opened with.
    fn create_view(&self) -> (command: OpenCommand)
        ensures
            command == OpenCommand::CreateView(self@.options),
    {
        OpenCommand::CreateView(
            WindowOpenOptions {
                title: self.options.title.clone(),
                size: self.options.size,
                scale: self.options.scale,
                opengl: self.options.opengl,
            },
        )
    }

    fn initialization(&self, position: usize, view: usize) -> (command: OpenCommand)
        requires
            position < 4,
            self@.replies.len() == self@.build_at() + position,
            view == self@.ns_view(),
        ensures
            command == self@.initialization()[position as int],
    {
        match position {
            0 => OpenCommand::BuildHandler(Window { key: self.key }),
            1 => OpenCommand::StoreState { view, state: self.key },
            2 => OpenCommand::CreateTimer {
                state: self.key,
                fire_date: ZERO_BITS,
                interval: FRAME_INTERVAL_BITS,
                flags: 0,
                order: 0,
            },
            _ => OpenCommand::AddTimer(self.replies[self.replies.len() - 1]),
        }
    }

    fn placement(&self, position: usize, view: usize) -> (command: OpenCommand)
        requires
            position < self@.placement().len(),
            self@.replies.len() == self@.build_at() + 4 + position,
            view == self@.ns_view(),
        ensures
            command == self@.placement()[position as int],
    {
        match self.mode {
            OpenMode::Parented(parent) => {
                match position {
                    0 => OpenCommand::AddSubview { parent, view },
                    _ => OpenCommand::DrainPool(self.replies[0]),
                }
            },
            OpenMode::Blocking => {
                match position {
                    0 => OpenCommand::SetContentView { window: self.replies[4], view },
                    1 => OpenCommand::SetDelegate { window: self.replies[4], view },
                    2 => OpenCommand::DrainPool(self.replies[0]),
                    _ => OpenCommand::RunApp(self.replies[1]),
                }
            },
        }
    }

    /// The extent that the window starts with.
    pub fn info(&self) -> (info: WindowInfo)
        ensures
            info == initial_info(self@.options),
    {
        WindowInfo::from_logical_size(self.options.size, self.options.scale.scaling())
    }

    /// The state that the window starts with.
    fn init<E>(&self) -> (state: WindowState<E>)
        requires
            self@.replies.len() == self@.build_at(),
        ensures
            state@ == self@.new_state::<E>(),
    {
        let view_at: usize = self.view_at();
        let (ns_app, ns_window) = match self.mode {
            OpenMode::Parented(_) => (None, None),
            OpenMode::Blocking => (Some(self.replies[1]), Some(self.replies[4])),
        };
        let gl_context = if self.options.opengl {
            Some(self.replies[view_at + 1])
        } else {
            None
        };
        let state = WindowState {
            window_inner: WindowInner {
                open: true,
                ns_app,
                ns_window,
                ns_view: self.replies[view_at],
                gl_context,
            },
            window_info: self.info(),
            frame_timer: None,
            handler_borrowed: false,
            deferred_events: VecDeque::new(),
            attached: false,
            handle: true,
            clones: 0,
        };
        assert(state@ =~= self@.new_state::<E>());
        state
    }

    /// How many commands the opening has in all.
    pub fn script_len(&self) -> (len: usize)
        ensures
            len == self@.script().len(),
    {
        match self.mode {
            OpenMode::Parented(_) => self.build_at() + 6,
            OpenMode::Blocking => self.build_at() + 8,
        }
    }

    /// Whether `resume` may be called with this answer.
    pub fn can_resume<E>(&self, windows: &Windows<E>, reply: usize) -> (ready: bool)
        ensures
            ready == self@.can_resume(windows@, windows.next_key(), reply),
    {
        let n: usize = self.replies.len();
        if n >= self.script_len() {
            return false;
        }
        let view_at: usize = self.view_at();
        let build_at: usize = self.build_at();
        let view_exists = if n < view_at {
            true
        } else if n == view_at {
            reply != NIL
        } else {
            self.replies[view_at] != NIL
        };
        view_exists && if n + 1 == build_at {
            windows.has_room()
        } else if n + 1 == build_at + 2 {
            windows.contains(self.key)
        } else if n + 1 == build_at + 4 {
            match windows.get(self.key) {
                Some(state) => state.attached,
                None => false,
            }
        } else {
            true
        }
    }

    /// Goes on with the answer to the last command.
    pub fn resume<E>(&mut self, windows: &mut Windows<E>, reply: usize) -> (step: OpenStep)
        requires
            old(self)@.can_resume(old(windows)@, old(windows).next_key(), reply),
        ensures
            final(self)@ == old(self)@.answered(reply, old(windows).next_key()),
            final(windows)@ == final(self)@.applied(old(windows)@),
            final(self)@.is_next(step),
            final(self)@.replies.len() == final(self)@.build_at() ==> final(self)@.key != NIL
                && !old(windows)@.contains_key(final(self)@.key),
            final(windows).next_key() == if final(self)@.replies.len() == final(self)@.build_at() {
                old(windows).next_key() + 1
            } else {
                old(windows).next_key() as int
            },
    {
        self.replies.push(reply);
        let n: usize = self.replies.len();
        let build_at: usize = self.build_at();
        if n == build_at {
            let state = self.init();
            self.key = windows.add(state);
        } else if n == build_at + 2 {
            let key: usize = self.key;
            let mut state = windows.take(key);
            state.attached = true;
            windows.put(key, state);
            assert(windows@ =~= self@.applied(old(windows)@));
        } else if n == build_at + 4 {
            let key: usize = self.key;
            let mut state = windows.take(key);
            state.frame_timer = Some(self.replies[build_at + 2]);
            match self.mode {
                OpenMode::Parented(_) => {},
                OpenMode::Blocking => {
                    state.handle = false;
                },
            }
            windows.put(key, state);
            assert(windows@ =~= self@.applied(old(windows)@));
        }
        if n < self.script_len() {
            OpenStep::Ask(self.command())
        } else {
            match self.mode {
                OpenMode::Parented(_) => OpenStep::Opened(WindowHandle::to_window(self.key)),
                OpenMode::Blocking => OpenStep::Ended,
            }
        }
    }
}

} // verus!
