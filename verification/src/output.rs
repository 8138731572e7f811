//! Delivery of transcribed text: the output mode, the decision of what a
//! given text and mode ask the desktop layer to do, and log truncation.
//!
//! Typing keystrokes and writing the clipboard are the desktop layer's
//! work; the handler here decides which of them to perform. The caller
//! carries the returned command out.

use vstd::prelude::*;

verus! {

/// How transcribed text is delivered.
#[derive(Debug, Clone, Copy, PartialEq, Eq, Structural)]
pub enum OutputMode {
    /// Type the text as keystrokes.
    Keystrokes,
    /// Copy the text to the clipboard.
    Clipboard,
    /// Copy to the clipboard, then paste.
    Both,
    /// Only log the text; no typing and no clipboard.
    Logger,
}

/// What the desktop layer is asked to do with a transcription.
#[derive(Debug, Clone)]
pub enum OutputCommand {
    /// Empty text: do nothing.
    Nothing,
    /// Type the text as keystrokes.
    TypeText(String),
    /// Copy the text to the clipboard.
    CopyToClipboard(String),
    /// Copy the text to the clipboard, then paste it.
    CopyAndPaste(String),
    /// Log the text (already truncated for the log) and do nothing else.
    LogOnly(String),
}

/// Handler that turns transcribed text into an output command according
/// to the configured mode.
#[derive(Debug, Clone)]
pub struct OutputHandler {
    mode: OutputMode,
}

/// The longest text the log-only mode writes out before truncation.
pub const LOG_TEXT_LIMIT: usize = 100;

impl OutputHandler {
    /// The configured output mode.
    pub closed spec fn spec_mode(self) -> OutputMode {
        self.mode
    }

    /// Create a new output handler.
    pub fn new(mode: OutputMode) -> (r: Result<Self, crate::CoreError>)
        ensures
            r is Ok,
            r matches Ok(h) ==> h.spec_mode() == mode,
    {
        Ok(OutputHandler { mode })
    }

    /// The current output mode.
    pub fn mode(&self) -> (r: OutputMode)
        ensures
            r == self.spec_mode(),
    {
        self.mode
    }

    /// Set the output mode.
    pub fn set_mode(&mut self, mode: OutputMode)
        ensures
            final(self).spec_mode() == mode,
    {
        self.mode = mode;
    }

    /// Decide what to do with transcribed text: nothing for empty text;
    /// otherwise type it, copy it, copy-and-paste it, or log it
    /// (truncated), according to the mode.
    pub fn output(&self, text: &str) -> (r: OutputCommand)
        ensures
            text@.len() == 0 ==> r is Nothing,
            text@.len() > 0 && self.spec_mode() == OutputMode::Keystrokes ==> (r matches
                OutputCommand::TypeText(s) && s@ == text@),
            text@.len() > 0 && self.spec_mode() == OutputMode::Clipboard ==> (r matches
                OutputCommand::CopyToClipboard(s) && s@ == text@),
            text@.len() > 0 && self.spec_mode() == OutputMode::Both ==> (r matches
                OutputCommand::CopyAndPaste(s) && s@ == text@),
            text@.len() > 0 && self.spec_mode() == OutputMode::Logger ==> (r matches
                OutputCommand::LogOnly(s) && s@ == spec_truncated_for_log(
                text@,
                LOG_TEXT_LIMIT as int,
            )),
    {
        if text.unicode_len() == 0 {
            return OutputCommand::Nothing;
        }
        match self.mode {
            OutputMode::Keystrokes => OutputCommand::TypeText(String::from_str(text)),
            OutputMode::Clipboard => OutputCommand::CopyToClipboard(String::from_str(text)),
            OutputMode::Both => OutputCommand::CopyAndPaste(String::from_str(text)),
            OutputMode::Logger => OutputCommand::LogOnly(truncate_for_log(text, LOG_TEXT_LIMIT)),
        }
    }
}

/// What log truncation yields: the text itself when it has at most
/// `max_len` characters, else its first `max_len` characters with an
/// ellipsis of three dots.
pub open spec fn spec_truncated_for_log(text: Seq<char>, max_len: int) -> Seq<char> {
    if text.len() <= max_len {
        text
    } else {
        text.subrange(0, max_len) + seq!['.', '.', '.']
    }
}

/// Truncate text for logging: texts longer than `max_len` characters are
/// cut there and continued with three dots.
pub fn truncate_for_log(text: &str, max_len: usize) -> (r: String)
    ensures
        r@ == spec_truncated_for_log(text@, max_len as int),
{
    let n = text.unicode_len();
    if n <= max_len {
        String::from_str(text)
    } else {
        let head = text.substring_char(0, max_len);
        let r = String::from_str(head).concat("...");
        proof {
            reveal_strlit("...");
            assert("..."@ =~= seq!['.', '.', '.']);
        }
        r
    }
}

} // verus!
