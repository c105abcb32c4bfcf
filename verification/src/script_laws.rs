//! What the commands of an opening have to do with each other: which of them
//! there are, in which order, and which of them speak of the same object.
//!
//! An object is known by the answer to the command that asked for it. These laws
//! find that answer by where the command stands.
use crate::handle::AppKitHandle;
use crate::open::{gl_handle, OpenCommand, OpenMode, OpenStep, OpeningView};
use crate::open_laws::{lemma_open_run, open_run};
use crate::state::WindowView;
use crate::values::{WindowScalePolicy, NIL};
use vstd::prelude::*;

verus! {

/// The place of a command among all that there are.
pub open spec fn open_rank(command: OpenCommand) -> int {
    match command {
        OpenCommand::NewPool => 0,
        OpenCommand::SharedApp => 1,
        OpenCommand::SetActivationPolicyRegular(_) => 2,
        OpenCommand::ActivateIgnoringOtherApps(_) => 3,
        OpenCommand::CreateWindow { .. } => 4,
        OpenCommand::CenterWindow(_) => 5,
        OpenCommand::SetTitle(_, _) => 6,
        OpenCommand::MakeKeyAndOrderFront(_) => 7,
        OpenCommand::CreateView(_) => 8,
        OpenCommand::CreateGlContext(_) => 9,
        OpenCommand::BuildHandler(_) => 10,
        OpenCommand::StoreState { .. } => 11,
        OpenCommand::CreateTimer { .. } => 12,
        OpenCommand::AddTimer(_) => 13,
        OpenCommand::AddSubview { .. } => 14,
        OpenCommand::SetContentView { .. } => 15,
        OpenCommand::SetDelegate { .. } => 16,
        OpenCommand::DrainPool(_) => 17,
        OpenCommand::RunApp(_) => 18,
    }
}

/// Which command stands at `i`, and how many commands there are.
proof fn lemma_ranks(opening: OpeningView, i: int)
    requires
        0 <= i < opening.script().len(),
    ensures
        opening.mode is Blocking ==> {
            &&& opening.script().len() == opening.build_at() + 8
            &&& opening.build_at() == if opening.options.opengl {
                10int
            } else {
                9int
            }
            &&& open_rank(opening.script()[i]) == if i < opening.build_at() {
                i
            } else if i < opening.build_at() + 4 {
                i - opening.build_at() + 10
            } else {
                i - opening.build_at() + 11
            }
        },
        opening.mode is Parented ==> {
            &&& opening.script().len() == opening.build_at() + 6
            &&& opening.build_at() == if opening.options.opengl {
                3int
            } else {
                2int
            }
            &&& open_rank(opening.script()[i]) == if i == 0 {
                0
            } else if i < opening.build_at() {
                i + 7
            } else if i < opening.build_at() + 5 {
                i - opening.build_at() + 10
            } else {
                17
            }
        },
{
    let view_at = opening.view_at();
    let build_at = opening.build_at();
    if i <= view_at {
        assert(opening.script()[i] == opening.preparation()[i]);
    } else if i < build_at {
        assert(opening.script()[i] == opening.context()[0]);
    } else if i < build_at + 4 {
        assert(opening.script()[i] == opening.initialization()[i - build_at]);
    } else {
        assert(opening.script()[i] == opening.placement()[i - build_at - 4]);
    }
}

/// The commands of an opening come in one order, and none comes twice: the
/// application and the native window before the view, the view before its OpenGL
/// context, then the handler, the state and the timer, then the view is placed,
/// then the pool is drained, and last of all the application runs.
pub proof fn an_opening_has_one_order(opening: OpeningView, i: int, j: int)
    requires
        0 <= i < j < opening.script().len(),
    ensures
        open_rank(opening.script()[i]) < open_rank(opening.script()[j]),
{
    lemma_ranks(opening, i);
    lemma_ranks(opening, j);
}

/// Whether the opening has a command of this rank.
pub open spec fn has_command(opening: OpeningView, rank: int) -> bool {
    exists|i: int|
        0 <= i < opening.script().len() && open_rank(#[trigger] opening.script()[i]) == rank
}

/// Every opening makes a pool, a view, a handler and a timer, stores the state,
/// starts the timer and drains the pool. One inside a view adds its view there,
/// with or without OpenGL; one on its own, with or without OpenGL, gets hold of
/// the application, makes and shows a native window, puts the view into it and
/// runs the application. An OpenGL context is made exactly if it is wanted, and
/// nothing else is done.
pub proof fn an_opening_does_all_of_it(opening: OpeningView)
    ensures
        ({
            let own = opening.mode is Blocking;
            &&& has_command(opening, 0)
            &&& forall|rank: int|
                1 <= rank <= 7 || rank == 15 || rank == 16 || rank == 18 ==> (
                #[trigger] has_command(opening, rank) <==> own)
            &&& has_command(opening, 8)
            &&& has_command(opening, 9) <==> opening.options.opengl
            &&& forall|rank: int| 10 <= rank <= 13 ==> #[trigger] has_command(opening, rank)
            &&& has_command(opening, 14) <==> !own
            &&& has_command(opening, 17)
        }),
{
    let build_at = opening.build_at();
    let len = opening.script().len() as int;
    assert(len >= 8) by {
        assert(opening.script().len() == opening.preparation().len() + opening.context().len()
            + opening.initialization().len() + opening.placement().len());
    }
    assert forall|rank: int|
        #[trigger] has_command(opening, rank) == {
            ||| rank == 0
            ||| rank == 8
            ||| rank == 9 && opening.options.opengl
            ||| 10 <= rank <= 13
            ||| rank == 14 && opening.mode is Parented
            ||| rank == 17
            ||| opening.mode is Blocking && (1 <= rank <= 7 || 15 <= rank <= 16 || rank == 18)
        } by {
        lemma_ranks(opening, 0);
        let i = match opening.mode {
            OpenMode::Blocking => if rank <= 9 {
                rank
            } else if rank <= 13 {
                rank - 10 + build_at
            } else {
                rank - 11 + build_at
            },
            OpenMode::Parented(_) => if rank == 0 {
                0
            } else if rank <= 9 {
                rank - 7
            } else if rank <= 14 {
                rank - 10 + build_at
            } else {
                build_at + 5
            },
        };
        if 0 <= i < len {
            lemma_ranks(opening, i);
            assert(open_rank(opening.script()[i]) == rank ==> has_command(opening, rank));
        }
        if has_command(opening, rank) {
            let k = choose|k: int|
                0 <= k < opening.script().len() && open_rank(#[trigger] opening.script()[k])
                    == rank;
            lemma_ranks(opening, k);
        }
    }
}

/// Where a command stands determines which one it is.
proof fn lemma_position(opening: OpeningView, i: int)
    requires
        0 <= i < opening.script().len(),
    ensures
        opening.script()[i] is NewPool ==> i == 0,
        opening.script()[i] is SharedApp ==> i == 1,
        opening.script()[i] is CreateWindow ==> i == 4,
        opening.script()[i] is CreateView ==> i == opening.view_at(),
        opening.script()[i] is CreateGlContext ==> i == opening.view_at() + 1,
        opening.script()[i] is CreateTimer ==> i == opening.build_at() + 2,
{
    lemma_ranks(opening, i);
}

/// The command at `i`, taken out of the part of the script that it stands in.
proof fn lemma_parts(opening: OpeningView, i: int)
    requires
        0 <= i < opening.script().len(),
    ensures
        ({
            let command = opening.script()[i];
            let (view_at, build_at) = (opening.view_at(), opening.build_at());
            &&& i <= view_at ==> command == opening.preparation()[i]
            &&& view_at < i < build_at ==> command == opening.context()[0]
            &&& build_at <= i < build_at + 4 ==> command == opening.initialization()[i - build_at]
            &&& build_at + 4 <= i ==> command == opening.placement()[i - build_at - 4] && i
                - build_at - 4 < opening.placement().len()
        }),
{
}

/// The view that is put into its surroundings, made the delegate, stored a state
/// in and given an OpenGL context is the one that was asked for, and it is the
/// view of the window: whatever else was asked for in between.
pub proof fn the_view_is_the_one_that_was_made(opening: OpeningView, made: int, used: int)
    requires
        opening.replies.len() == opening.script().len(),
        0 <= made < opening.script().len(),
        0 <= used < opening.script().len(),
        opening.script()[made] is CreateView,
    ensures
        ({
            let view = opening.replies[made];
            &&& opening.inner().ns_view == view
            &&& match opening.script()[used] {
                OpenCommand::CreateGlContext(handle) => handle.ns_view == view,
                OpenCommand::StoreState { view: stored_in, .. } => stored_in == view,
                OpenCommand::AddSubview { view: added, .. } => added == view,
                OpenCommand::SetContentView { view: content, .. } => content == view,
                OpenCommand::SetDelegate { view: delegate, .. } => delegate == view,
                _ => true,
            }
        }),
{
    lemma_position(opening, made);
    lemma_ranks(opening, used);
    lemma_parts(opening, used);
}

/// The native window that is centered, titled, shown, filled and observed is the
/// one that was asked for, and it is the native window of the window.
pub proof fn the_native_window_is_the_one_that_was_made(
    opening: OpeningView,
    made: int,
    used: int,
)
    requires
        opening.replies.len() == opening.script().len(),
        0 <= made < opening.script().len(),
        0 <= used < opening.script().len(),
        opening.script()[made] is CreateWindow,
    ensures
        ({
            let ns_window = opening.replies[made];
            &&& opening.inner().ns_window == Some(ns_window)
            &&& match opening.script()[used] {
                OpenCommand::CenterWindow(window) => window == ns_window,
                OpenCommand::SetTitle(window, _) => window == ns_window,
                OpenCommand::MakeKeyAndOrderFront(window) => window == ns_window,
                OpenCommand::CreateGlContext(handle) => handle.ns_window == ns_window,
                OpenCommand::SetContentView { window, .. } => window == ns_window,
                OpenCommand::SetDelegate { window, .. } => window == ns_window,
                _ => true,
            }
        }),
{
    lemma_position(opening, made);
    lemma_ranks(opening, made);
    lemma_ranks(opening, used);
    lemma_parts(opening, used);
}

/// The application that is set up and run is the shared one, and it is the one
/// that the window stops.
pub proof fn the_application_is_the_shared_one(opening: OpeningView, asked: int, used: int)
    requires
        opening.replies.len() == opening.script().len(),
        0 <= asked < opening.script().len(),
        0 <= used < opening.script().len(),
        opening.script()[asked] is SharedApp,
    ensures
        ({
            let app = opening.replies[asked];
            &&& opening.inner().ns_app == Some(app)
            &&& match opening.script()[used] {
                OpenCommand::SetActivationPolicyRegular(object) => object == app,
                OpenCommand::ActivateIgnoringOtherApps(object) => object == app,
                OpenCommand::RunApp(object) => object == app,
                _ => true,
            }
        }),
{
    lemma_position(opening, asked);
    lemma_ranks(opening, asked);
    lemma_ranks(opening, used);
    lemma_parts(opening, used);
}

/// The pool that is drained is the one that was made, the timer that is started
/// is the one that was made and the one that the window cancels, and the OpenGL
/// context of the window is the one that was made.
pub proof fn pool_timer_and_context_are_those_that_were_made(
    opening: OpeningView,
    made: int,
    used: int,
)
    requires
        opening.replies.len() == opening.script().len(),
        0 <= made < opening.script().len(),
        0 <= used < opening.script().len(),
    ensures
        ({
            let object = opening.replies[made];
            match opening.script()[made] {
                OpenCommand::NewPool => opening.script()[used] matches OpenCommand::DrainPool(pool)
                    ==> pool == object,
                OpenCommand::CreateTimer { .. } => {
                    &&& opening.timer() == object
                    &&& opening.script()[used] matches OpenCommand::AddTimer(timer) ==> timer
                        == object
                },
                OpenCommand::CreateGlContext(_) => opening.inner().gl_context == Some(object),
                _ => true,
            }
        }),
{
    lemma_position(opening, made);
    lemma_ranks(opening, made);
    lemma_ranks(opening, used);
    lemma_parts(opening, used);
}

/// A window inside another one has no native window and no application of its
/// own, its OpenGL context is made without a native window, and its view is added
/// to the view that it is opened in. Without OpenGL a window has no context.
pub proof fn a_parented_window_has_only_its_view(opening: OpeningView, parent: usize, i: int)
    requires
        0 <= i < opening.script().len(),
    ensures
        !opening.options.opengl ==> opening.inner().gl_context is None,
        opening.mode == OpenMode::Parented(parent) ==> {
            &&& opening.inner().ns_window is None
            &&& opening.inner().ns_app is None
            &&& opening.script()[i] matches OpenCommand::CreateGlContext(handle)
                ==> handle.ns_window == 0
            &&& opening.script()[i] matches OpenCommand::AddSubview { parent: around, .. }
                ==> around == parent
        },
{
    lemma_ranks(opening, i);
    lemma_parts(opening, i);
}

/// The values that the commands carry: the native window has its corner at 0.0,
/// the size that was asked for, a title bar, and buttons to close and to
/// miniaturize it, is buffered and made at once; it gets the title that was asked
/// for; the view is made with all the options; handler, state and timer are those
/// of this window; and the timer fires at once and then every 0.015 seconds.
pub proof fn the_commands_carry_what_was_asked_for(opening: OpeningView, i: int)
    requires
        0 <= i < opening.script().len(),
    ensures
        match opening.script()[i] {
            OpenCommand::CreateWindow {
                x,
                y,
                size,
                titled,
                closable,
                miniaturizable,
                buffered,
                deferred,
            } => {
                &&& x == 0 && y == 0
                &&& size.width == opening.options.size.width
                &&& size.height == opening.options.size.height
                &&& titled && closable && miniaturizable && buffered && !deferred
            },
            OpenCommand::SetTitle(_, title) => title == opening.options.title,
            OpenCommand::CreateView(options) => options == opening.options,
            OpenCommand::BuildHandler(window) => window.key == opening.key,
            OpenCommand::StoreState { state, .. } => state == opening.key,
            OpenCommand::CreateTimer { state, fire_date, interval, flags, order } => {
                &&& state == opening.key
                &&& fire_date == 0
                &&& interval == 0x3f8e_b851_eb85_1eb8
                &&& flags == 0 && order == 0
            },
            _ => true,
        },
{
    lemma_ranks(opening, i);
    lemma_parts(opening, i);
}

/// An OpenGL context is made for the view and the native window, nil if there is
/// none.
pub proof fn a_context_is_made_for_both(ns_window: usize, ns_view: usize)
    ensures
        gl_handle(Some(ns_window), ns_view) == (AppKitHandle { ns_window, ns_view }),
        gl_handle(None, ns_view) == (AppKitHandle { ns_window: 0, ns_view }),
{
}

/// What follows the answers so far is the command at that place, and once all
/// commands are answered the opening is over: a window inside another one is
/// handed to the program under its key, and one on its own has ended.
pub proof fn an_opening_asks_in_turn(opening: OpeningView, step: OpenStep)
    requires
        opening.is_next(step),
    ensures
        ({
            let asked = opening.replies.len() as int;
            &&& asked < opening.script().len() ==> step == OpenStep::Ask(opening.script()[asked])
            &&& asked >= opening.script().len() && opening.mode is Parented ==> (
            step matches OpenStep::Opened(handle) && handle.key() == opening.key)
            &&& asked >= opening.script().len() && opening.mode is Blocking ==> step is Ended
        }),
{
}

/// A window that has been opened is open, stored by its view and untouched; it
/// has the objects that were made for it and the extent that was asked for; and
/// the program has a handle to it exactly if it was opened inside another one.
pub proof fn an_opened_window_is_this<E>(opening: OpeningView, factor: u64)
    ensures
        ({
            let state = opening.opened_state::<E>();
            &&& state.window_inner.open
            &&& state.window_inner.ns_app == opening.inner().ns_app
            &&& state.window_inner.ns_window == opening.inner().ns_window
            &&& state.window_inner.ns_view == opening.inner().ns_view
            &&& state.window_inner.gl_context == opening.inner().gl_context
            &&& state.window_info.logical_size.width == opening.options.size.width
            &&& state.window_info.logical_size.height == opening.options.size.height
            &&& opening.options.scale == WindowScalePolicy::ScaleFactor(factor)
                ==> state.window_info.scale == factor
            &&& opening.options.scale is SystemScaleFactor ==> state.window_info.scale
                == 0x3ff0_0000_0000_0000
            &&& state.frame_timer == Some(opening.timer())
            &&& !state.handler_borrowed
            &&& state.deferred_events.len() == 0
            &&& state.attached
            &&& state.handle <==> opening.mode is Parented
            &&& state.clones == 0
        }),
{
}

/// How an opening that has got its first answers stands: the window is in the
/// table from the moment that its handler is to be built, with everything that
/// was made for it, open and held by a handle; its view stores it once that
/// has been done; it has its timer once that has been started, and from then on
/// the handle is left to the program or, on its own, is given up. No other
/// window is touched at any time.
pub proof fn a_window_comes_into_being<E>(
    start: OpeningView,
    windows: Map<usize, WindowView<E>>,
    next_key: usize,
    replies: Seq<usize>,
    build: int,
    store: int,
    begin: int,
    other: usize,
)
    requires
        start.replies.len() == 0,
        start.key == NIL,
        replies.len() <= start.script().len(),
        replies.len() > start.view_at() ==> replies[start.view_at()] != NIL,
        NIL < next_key < usize::MAX,
        !windows.contains_key(next_key),
        0 <= build < start.script().len(),
        0 <= store < start.script().len(),
        0 <= begin < start.script().len(),
        start.script()[build] is BuildHandler,
        start.script()[store] is StoreState,
        start.script()[begin] is AddTimer,
    ensures
        ({
            let run = open_run(start, windows, next_key, replies);
            let (opening, table) = run->0;
            let state = table[next_key];
            let n = replies.len() as int;
            &&& run is Some
            &&& opening.mode == start.mode && opening.options == start.options
            &&& opening.replies == replies
            &&& other != next_key ==> (table.contains_key(other) <==> windows.contains_key(other))
            &&& other != next_key && windows.contains_key(other) ==> table[other]
                == windows[other]
            &&& table.contains_key(next_key) <==> n >= build
            &&& n >= build ==> {
                &&& opening.key == next_key
                &&& state.window_inner.open
                &&& state.window_inner.ns_view == opening.inner().ns_view
                &&& state.window_inner.ns_window == opening.inner().ns_window
                &&& state.window_inner.ns_app == opening.inner().ns_app
                &&& state.window_inner.gl_context == opening.inner().gl_context
                &&& state.attached <==> n > store
                &&& n > begin ==> state.frame_timer == Some(opening.timer())
                &&& n <= begin ==> state.frame_timer is None
                &&& state.handle <==> n <= begin || start.mode is Parented
                &&& !state.handler_borrowed
                &&& state.deferred_events.len() == 0
                &&& state.clones == 0
            }
        }),
{
    lemma_ranks(start, build);
    lemma_ranks(start, store);
    lemma_ranks(start, begin);
    lemma_open_run(start, windows, next_key, replies);
}

/// An opening that is not over can go on whenever its view is not nil, there is
/// room for one more window, and its own window, once it is there, is still in
/// the table and stored by its view.
pub proof fn an_opening_can_go_on<E>(
    opening: OpeningView,
    windows: Map<usize, WindowView<E>>,
    next_key: usize,
    reply: usize,
    made: int,
)
    requires
        opening.replies.len() < opening.script().len(),
        0 <= made < opening.script().len(),
        opening.script()[made] is CreateView,
        opening.replies.len() == made ==> reply != 0,
        opening.replies.len() > made ==> opening.replies[made] != 0,
        next_key < usize::MAX,
        windows.contains_key(opening.key),
        windows[opening.key].attached,
    ensures
        opening.can_resume(windows, next_key, reply),
{
    lemma_position(opening, made);
}

} // verus!
