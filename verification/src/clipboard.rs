//! Copying text to the clipboard.
use vstd::prelude::*;

verus! {

/// A native action of copying text.
#[derive(Debug, PartialEq, Eq)]
pub enum ClipboardCommand {
    /// Answers the general pasteboard.
    GeneralPasteboard,
    /// Answers a new string object with this text.
    NewString(String),
    /// Empties this pasteboard.
    ClearContents(usize),
    /// Puts this string object on that pasteboard, as plain text.
    SetString { pasteboard: usize, string: usize },
}

/// What comes next.
#[derive(Debug, PartialEq, Eq)]
pub enum ClipboardStep {
    Ask(ClipboardCommand),
    Done,
}

/// A copy under way.
#[derive(Debug)]
pub struct ClipboardCopy {
    pub text: String,
    /// The answers so far.
    pub replies: Vec<usize>,
}

/// Everything that copying `text` does, given the answers: the string object is
/// made before the pasteboard is emptied.
pub open spec fn clipboard_script(text: String, replies: Seq<usize>) -> Seq<ClipboardCommand> {
    seq![
        ClipboardCommand::GeneralPasteboard,
        ClipboardCommand::NewString(text),
        ClipboardCommand::ClearContents(replies[0]),
        ClipboardCommand::SetString { pasteboard: replies[0], string: replies[1] },
    ]
}

/// The command that follows `replies.len()` answers.
pub open spec fn clipboard_step(text: String, replies: Seq<usize>) -> ClipboardStep {
    if replies.len() < clipboard_script(text, replies).len() {
        ClipboardStep::Ask(clipboard_script(text, replies)[replies.len() as int])
    } else {
        ClipboardStep::Done
    }
}

/// Begins to copy `string` to the clipboard.
pub fn copy_to_clipboard(string: &str) -> (result: (ClipboardCopy, ClipboardStep))
    ensures
        result.0.text@ == string@,
        result.0.replies@ == Seq::<usize>::empty(),
        result.1 == clipboard_step(result.0.text, Seq::empty()),
{
    (
        ClipboardCopy { text: string.to_owned(), replies: Vec::new() },
        ClipboardStep::Ask(ClipboardCommand::GeneralPasteboard),
    )
}

impl ClipboardCopy {
    /// Goes on with the answer to the last command.
    pub fn resume(&mut self, reply: usize) -> (step: ClipboardStep)
        requires
            old(self).replies@.len() < 4,
        ensures
            final(self).text == old(self).text,
            final(self).replies@ == old(self).replies@.push(reply),
            step == clipboard_step(old(self).text, old(self).replies@.push(reply)),
    {
        self.replies.push(reply);
        match self.replies.len() {
            1 => ClipboardStep::Ask(ClipboardCommand::NewString(self.text.clone())),
            2 => ClipboardStep::Ask(ClipboardCommand::ClearContents(self.replies[0])),
            3 => ClipboardStep::Ask(
                ClipboardCommand::SetString {
                    pasteboard: self.replies[0],
                    string: self.replies[1],
                },
            ),
            _ => ClipboardStep::Done,
        }
    }
}

/// Whatever the platform answers, the text that ends up on the pasteboard is
/// the one that was to be copied, and the pasteboard that was emptied is the
/// one that gets it.
pub proof fn clipboard_gets_the_text(text: String, pasteboard: usize, string: usize, ignored: usize)
    ensures
        clipboard_step(text, seq![]) == ClipboardStep::Ask(ClipboardCommand::GeneralPasteboard),
        clipboard_step(text, seq![pasteboard]) == ClipboardStep::Ask(
            ClipboardCommand::NewString(text),
        ),
        clipboard_step(text, seq![pasteboard, string]) == ClipboardStep::Ask(
            ClipboardCommand::ClearContents(pasteboard),
        ),
        clipboard_step(text, seq![pasteboard, string, ignored]) == ClipboardStep::Ask(
            ClipboardCommand::SetString { pasteboard, string },
        ),
        clipboard_step(text, seq![pasteboard, string, ignored, ignored]) is Done,
{
}

/// After any answers, the next thing is fixed by how many there are, and the
/// objects in it are those of the first two answers, whatever came later.
pub proof fn copying_goes_step_by_step(text: String, replies: Seq<usize>)
    ensures
        ({
            let step = clipboard_step(text, replies);
            &&& replies.len() == 0 ==> step == ClipboardStep::Ask(
                ClipboardCommand::GeneralPasteboard,
            )
            &&& replies.len() == 1 ==> step == ClipboardStep::Ask(
                ClipboardCommand::NewString(text),
            )
            &&& replies.len() == 2 ==> step == ClipboardStep::Ask(
                ClipboardCommand::ClearContents(replies[0]),
            )
            &&& replies.len() == 3 ==> step == ClipboardStep::Ask(
                ClipboardCommand::SetString { pasteboard: replies[0], string: replies[1] },
            )
            &&& replies.len() >= 4 ==> step is Done
        }),
{
}

} // verus!
