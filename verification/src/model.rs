//! Plain data exchanged with the backend collaborator, and the rule that
//! turns a raw message (text plus optional media) into its display text.

use vstd::prelude::*;
use vstd::string::StringExecFns;
use crate::text::{trim_of, trimmed};

verus! {

/// How many messages one transcript load asks the backend for.
pub const MESSAGE_LOAD_LIMIT: usize = 50;

/// A conversation thread: an opaque integer id and a display title.
#[derive(Debug)]
pub struct DialogSummary {
    pub id: i64,
    pub title: String,
}

impl Clone for DialogSummary {
    /// An exact copy; contracts may rely on the clone being equal.
    fn clone(&self) -> (r: Self)
        ensures
            r == *self,
    {
        DialogSummary { id: self.id, title: self.title.clone() }
    }
}

/// One message of a transcript; `id` is unique within its dialog.
#[derive(Debug)]
pub struct MessageSummary {
    pub id: i32,
    pub from: String,
    pub text: String,
    pub date: String,
}

impl Clone for MessageSummary {
    /// An exact copy; contracts may rely on the clone being equal.
    fn clone(&self) -> (r: Self)
        ensures
            r == *self,
    {
        MessageSummary {
            id: self.id,
            from: self.from.clone(),
            text: self.text.clone(),
            date: self.date.clone(),
        }
    }
}

/// A request the controller issues to the backend collaborator.
#[derive(Debug)]
pub enum TelegramRequest {
    LoadDialogs,
    LoadMessages { dialog_id: i64, limit: usize },
    SendMessage { dialog_id: i64, text: String },
    Shutdown,
}

/// An event the backend collaborator delivers to the controller.
#[derive(Debug)]
pub enum TelegramEvent {
    DialogsLoaded(Vec<DialogSummary>),
    MessagesLoaded { dialog_id: i64, messages: Vec<MessageSummary> },
    MessageSent { dialog_id: i64, message: MessageSummary },
    IncomingMessage { dialog_id: i64, message: MessageSummary },
    Error(String),
}

/// Where the login conversation stands.
#[derive(Debug)]
pub enum AuthStatus {
    NeedPhone,
    NeedCode,
    NeedPassword { hint: Option<String> },
    Authorized,
}

/// What the login screen shows: a prompt, the typed input (possibly
/// masked), and an optional hint and error.
pub struct AuthView<'a> {
    pub title: &'a str,
    pub prompt: &'a str,
    pub input: &'a str,
    pub masked: bool,
    pub hint: Option<&'a str>,
    pub error: Option<&'a str>,
}

/// A freshly fetched transcript page arrives newest first; the transcript
/// stores messages oldest first. Reverse the page.
pub fn into_chronological(newest_first: Vec<MessageSummary>) -> (r: Vec<MessageSummary>)
    ensures
        r@ == newest_first@.reverse(),
{
    let ghost orig = newest_first@;
    let mut src = newest_first;
    let mut r: Vec<MessageSummary> = Vec::new();
    proof {
        assert(orig.subrange(0, orig.len() as int) =~= orig);
        assert(r@ =~= orig.subrange(orig.len() as int, orig.len() as int).reverse());
    }
    while src.len() > 0
        invariant
            src@.len() <= orig.len(),
            src@ == orig.subrange(0, src@.len() as int),
            r@ == orig.subrange(src@.len() as int, orig.len() as int).reverse(),
        decreases src@.len(),
    {
        let ghost k = src@.len() as int;
        let m = src.pop().unwrap();
        proof {
            assert(src@ =~= orig.subrange(0, k - 1));
            assert(m == orig[k - 1]);
        }
        r.push(m);
        proof {
            assert(r@ =~= orig.subrange(k - 1, orig.len() as int).reverse());
        }
    }
    proof {
        assert(r@ =~= orig.reverse());
    }
    r
}

/// The media a message carries, reduced to what the transcript shows.
#[derive(Debug)]
pub enum MediaSummary {
    Sticker { emoji: String, animated: bool },
    Other,
}

/// The characters the transcript shows for a message with body `text` and
/// media `media`: the body when it has visible characters, otherwise a
/// media placeholder.
pub open spec fn spec_display_text(text: Seq<char>, media: Option<MediaSummary>) -> Seq<char> {
    if trim_of(text).len() > 0 {
        text
    } else {
        match media {
            Some(MediaSummary::Sticker { emoji, animated }) => {
                if trim_of(emoji@).len() > 0 {
                    "sticker: "@ + trim_of(emoji@)
                } else if animated {
                    "sticker: animated"@
                } else {
                    "sticker: sticker"@
                }
            },
            Some(MediaSummary::Other) => "[media]"@,
            None => Seq::<char>::empty(),
        }
    }
}

/// Display text for a message: its body when that is non-blank, otherwise
/// a placeholder describing the media it carries.
pub fn message_display_text(text: &str, media: &Option<MediaSummary>) -> (r: String)
    ensures
        r@ == spec_display_text(text@, *media),
{
    let t = trimmed(text);
    if !t.as_str().is_empty() {
        return text.to_owned();
    }
    match media {
        Some(MediaSummary::Sticker { emoji, animated }) => {
            let e = trimmed(emoji.as_str());
            if !e.as_str().is_empty() {
                let out = String::from_str("sticker: ");
                out.concat(e.as_str())
            } else if *animated {
                String::from_str("sticker: animated")
            } else {
                String::from_str("sticker: sticker")
            }
        },
        Some(MediaSummary::Other) => String::from_str("[media]"),
        None => String::new(),
    }
}

} // verus!
