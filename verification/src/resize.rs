//! Giving a window a new size.
use crate::state::WindowInner;
use crate::values::Size;
use vstd::prelude::*;

verus! {

/// A native action of resizing a window.
#[derive(Clone, Copy, Debug, PartialEq, Eq, Structural)]
pub enum ResizeCommand {
    /// Gives this view this size.
    SetFrameSize(usize, Size),
    /// Has this view drawn again.
    SetNeedsDisplay(usize),
    /// Gives the view of this OpenGL context this size.
    ResizeGlContext(usize, Size),
    /// Makes the content of this native window this large.
    SetContentSize(usize, Size),
}

/// What gives a window a new size: the view first, then the view of its OpenGL
/// context, then its own native window; and nothing once the window is closed.
pub open spec fn resize_commands(inner: WindowInner, size: Size) -> Seq<ResizeCommand> {
    if inner.open {
        seq![
            ResizeCommand::SetFrameSize(inner.ns_view, size),
            ResizeCommand::SetNeedsDisplay(inner.ns_view),
        ] + (match inner.gl_context {
            Some(context) => seq![ResizeCommand::ResizeGlContext(context, size)],
            None => seq![],
        }) + (match inner.ns_window {
            Some(ns_window) => seq![ResizeCommand::SetContentSize(ns_window, size)],
            None => seq![],
        })
    } else {
        seq![]
    }
}

impl WindowInner {
    /// What gives the window a new size.
    pub fn resize(&self, size: Size) -> (commands: Vec<ResizeCommand>)
        ensures
            commands@ == resize_commands(*self, size),
    {
        let mut commands: Vec<ResizeCommand> = Vec::new();
        if self.open {
            commands.push(ResizeCommand::SetFrameSize(self.ns_view, size));
            commands.push(ResizeCommand::SetNeedsDisplay(self.ns_view));
            if let Some(context) = self.gl_context {
                commands.push(ResizeCommand::ResizeGlContext(context, size));
            }
            if let Some(ns_window) = self.ns_window {
                commands.push(ResizeCommand::SetContentSize(ns_window, size));
            }
        }
        assert(commands@ =~= resize_commands(*self, size));
        commands
    }
}

/// The place of a command among the others.
pub open spec fn resize_rank(command: ResizeCommand) -> int {
    match command {
        ResizeCommand::SetFrameSize(_, _) => 0,
        ResizeCommand::SetNeedsDisplay(_) => 1,
        ResizeCommand::ResizeGlContext(_, _) => 2,
        ResizeCommand::SetContentSize(_, _) => 3,
    }
}

/// Every part that an open window has gets the new size, and no other part does:
/// its view, which is also drawn again; its OpenGL context exactly if it has one,
/// with or without a native window; and its native window exactly if it has one,
/// with or without a context. Each is dealt with once, in this order. A closed
/// window has nothing done to it.
pub proof fn every_part_gets_the_size(inner: WindowInner, size: Size)
    ensures
        ({
            let commands = resize_commands(inner, size);
            &&& forall|view: usize, to: Size| #[trigger]
                commands.contains(ResizeCommand::SetFrameSize(view, to)) <==> inner.open && view
                    == inner.ns_view && to == size
            &&& forall|view: usize| #[trigger]
                commands.contains(ResizeCommand::SetNeedsDisplay(view)) <==> inner.open && view
                    == inner.ns_view
            &&& forall|context: usize, to: Size| #[trigger]
                commands.contains(ResizeCommand::ResizeGlContext(context, to)) <==> inner.open
                    && inner.gl_context == Some(context) && to == size
            &&& forall|ns_window: usize, to: Size| #[trigger]
                commands.contains(ResizeCommand::SetContentSize(ns_window, to)) <==> inner.open
                    && inner.ns_window == Some(ns_window) && to == size
            &&& forall|i: int, j: int|
                0 <= i < j < commands.len() ==> resize_rank(#[trigger] commands[i]) < resize_rank(
                    #[trigger] commands[j],
                )
        }),
{
    let commands = resize_commands(inner, size);
    if inner.open {
        assert(commands[0] == ResizeCommand::SetFrameSize(inner.ns_view, size));
        assert(commands[1] == ResizeCommand::SetNeedsDisplay(inner.ns_view));
        if let Some(context) = inner.gl_context {
            assert(commands[2] == ResizeCommand::ResizeGlContext(context, size));
        }
        if let Some(ns_window) = inner.ns_window {
            assert(commands[commands.len() - 1] == ResizeCommand::SetContentSize(
                ns_window,
                size,
            ));
        }
    }
}

} // verus!
