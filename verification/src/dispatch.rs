//! From the command line to what is to be done: a plain send, or a prompt
//! that waits for a response.

use crate::protocol::PromptView;
use crate::session::Prompt;
use crate::text::{text_view, texts_view};
use vstd::prelude::*;
use vstd::string::StringExecFns;

verus! {

/// The seconds a prompt waits for a response unless told otherwise.
pub const DEFAULT_TIMEOUT_SECS: u32 = 3600;

/// The command line as a whole.
#[derive(Debug, PartialEq, Eq)]
pub struct Args {
    /// A configuration file to read on top of the well-known ones.
    pub config: Option<String>,
    pub command: Command,
}

/// What the command line asks for.
#[derive(Debug, PartialEq, Eq)]
#[allow(inconsistent_fields)]
pub enum Command {
    /// Send a single message to the configured chat.
    Send {
        /// Deliver without a notification sound.
        silent: bool,
        /// Paths of images to attach, in order.
        image: Vec<String>,
        /// The text to send.
        message: Option<String>,
    },
    /// Show a prompt and wait for a button press.
    Wait {
        /// Deliver without a notification sound.
        silent: bool,
        /// The text of the prompt.
        message: String,
        /// The text on each button, in order.
        button: Vec<String>,
        /// The seconds to wait for a press.
        timeout: u32,
    },
}

/// A command as a mathematical value.
#[allow(inconsistent_fields)]
pub enum CommandView {
    Send { silent: bool, image: Seq<Seq<char>>, message: Option<Seq<char>> },
    Wait { silent: bool, message: Seq<char>, button: Seq<Seq<char>>, timeout: nat },
}

impl View for Command {
    type V = CommandView;

    open spec fn view(&self) -> CommandView {
        match *self {
            Command::Send { silent, image, message } => CommandView::Send {
                silent,
                image: texts_view(image@),
                message: text_view(message),
            },
            Command::Wait { silent, message, button, timeout } => CommandView::Wait {
                silent,
                message: message@,
                button: texts_view(button@),
                timeout: timeout as nat,
            },
        }
    }
}

/// A plain send.
#[derive(Debug, PartialEq, Eq)]
#[allow(inconsistent_fields)]
pub enum Outgoing {
    /// A text and nothing else.
    Text { text: String, silent: bool },
    /// One image with a caption, which may be empty.
    Photo { file: String, caption: String, silent: bool },
    /// Several images as one album; the caption, if any, goes with the
    /// first of them.
    Album { files: Vec<String>, caption: Option<String>, silent: bool },
}

/// A plain send as a mathematical value.
#[allow(inconsistent_fields)]
pub enum OutgoingView {
    Text { text: Seq<char>, silent: bool },
    Photo { file: Seq<char>, caption: Seq<char>, silent: bool },
    Album { files: Seq<Seq<char>>, caption: Option<Seq<char>>, silent: bool },
}

impl View for Outgoing {
    type V = OutgoingView;

    open spec fn view(&self) -> OutgoingView {
        match *self {
            Outgoing::Text { text, silent } => OutgoingView::Text { text: text@, silent },
            Outgoing::Photo { file, caption, silent } => OutgoingView::Photo {
                file: file@,
                caption: caption@,
                silent,
            },
            Outgoing::Album { files, caption, silent } => OutgoingView::Album {
                files: texts_view(files@),
                caption: text_view(caption),
                silent,
            },
        }
    }
}

/// What is to be done.
#[derive(Debug, PartialEq, Eq)]
pub enum Intent {
    Send(Outgoing),
    Wait { prompt: Prompt, silent: bool, timeout_secs: u32 },
}

/// An intent as a mathematical value.
pub enum IntentView {
    Send(OutgoingView),
    Wait { prompt: PromptView, silent: bool, timeout_secs: nat },
}

impl View for Intent {
    type V = IntentView;

    open spec fn view(&self) -> IntentView {
        match *self {
            Intent::Send(outgoing) => IntentView::Send(outgoing@),
            Intent::Wait { prompt, silent, timeout_secs } => IntentView::Wait {
                prompt: prompt@,
                silent,
                timeout_secs: timeout_secs as nat,
            },
        }
    }
}

/// Why a command leads to nothing.
#[derive(Clone, Copy, Debug, PartialEq, Eq, Structural)]
pub enum DispatchError {
    /// A send with neither a message nor an image.
    NothingToSend,
}

impl DispatchError {
    /// The text of the report for this error.
    pub open spec fn message(self) -> Seq<char> {
        "Nothing to send"@
    }

    /// A one-line report.
    pub fn describe(&self) -> (text: String)
        ensures
            text@ == self.message(),
    {
        String::from_str("Nothing to send")
    }
}

/// What a command asks for.
///
/// A send needs a message or an image. Without images the message goes out
/// as text; one image goes out as a photo with the message as its caption
/// (empty when there is none); several go out as an album that carries the
/// message, if any. A wait becomes a prompt with one option per button.
pub open spec fn plan(command: CommandView) -> Result<IntentView, DispatchError> {
    match command {
        CommandView::Send { silent, image, message } => if image.len() == 0 {
            match message {
                Some(text) => Ok(IntentView::Send(OutgoingView::Text { text, silent })),
                None => Err(DispatchError::NothingToSend),
            }
        } else if image.len() == 1 {
            Ok(
                IntentView::Send(
                    OutgoingView::Photo {
                        file: image[0],
                        caption: match message {
                            Some(text) => text,
                            None => Seq::empty(),
                        },
                        silent,
                    },
                ),
            )
        } else {
            Ok(IntentView::Send(OutgoingView::Album { files: image, caption: message, silent }))
        },
        CommandView::Wait { silent, message, button, timeout } => Ok(
            IntentView::Wait {
                prompt: PromptView { text: message, options: button },
                silent,
                timeout_secs: timeout,
            },
        ),
    }
}

/// Works out what a command asks for, or why it asks for nothing.
pub fn dispatch(command: Command) -> (intent: Result<Intent, DispatchError>)
    ensures
        match intent {
            Ok(intent) => plan(command@) == Ok::<IntentView, DispatchError>(intent@),
            Err(error) => plan(command@) == Err::<IntentView, DispatchError>(error),
        },
{
    match command {
        Command::Send { silent, image, message } => {
            let mut image = image;
            if image.len() == 0 {
                match message {
                    Some(text) => Ok(Intent::Send(Outgoing::Text { text, silent })),
                    None => Err(DispatchError::NothingToSend),
                }
            } else if image.len() == 1 {
                let file = image.remove(0);
                let caption = match message {
                    Some(text) => text,
                    None => String::new(),
                };
                Ok(Intent::Send(Outgoing::Photo { file, caption, silent }))
            } else {
                Ok(Intent::Send(Outgoing::Album { files: image, caption: message, silent }))
            }
        },
        Command::Wait { silent, message, button, timeout } => Ok(
            Intent::Wait {
                prompt: Prompt { text: message, options: button },
                silent,
                timeout_secs: timeout,
            },
        ),
    }
}

} // verus!
