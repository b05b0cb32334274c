//! The completion client, as far as it decides: which prompt to send, how to
//! read a reply, and when to give up.
//!
//! Sending is left to the caller. A call starts with [`CompletionCall::new`];
//! the caller sends [`CompletionCall::prompt_to_send`] and hands the reply to
//! [`CompletionCall::on_reply`], which ends the call or asks for the one
//! retry.

use crate::extract::{extracted, parse_json_object_from_text, InvalidStructuredResponse};
use crate::json::{json_document, read_json_document, Json};
use crate::text::{chars_of, string_of_range, trim, trim_bounds};
use vstd::prelude::*;
use vstd::string::StringExecFns;

verus! {

/// What is added to the prompt when the first reply held no object.
pub const RETRY_NOTE: &'static str =
    "\n\nIMPORTANT: Your previous response was invalid JSON. Return ONLY valid JSON that matches the required schema. Do not include newlines inside string values.";

/// What is reported when the reply of the service is no JSON document.
pub const ENVELOPE_ERROR: &'static str = "Gemini response parse failed";

/// Why a completion call failed.
#[derive(Debug, PartialEq, Eq)]
pub enum CompletionError {
    /// The request did not get through, the service answered with an error
    /// status, or its reply could not be read. Never retried.
    Transport { message: String },
    /// The service replied twice without a usable object; `last` is the
    /// failure of the second reply.
    Unparsable { last: InvalidStructuredResponse },
}

/// A completion call in progress.
#[derive(Debug, PartialEq, Eq)]
pub struct CompletionCall {
    /// The prompt as the caller wrote it.
    pub prompt: String,
    /// Whether the one retry has been used.
    pub retried: bool,
}

/// What a reply leads to.
#[derive(Debug, PartialEq, Eq)]
pub enum CompletionStep {
    /// The call succeeded with this object.
    Done(Json),
    /// The reply held no object: send the prompt of this call once more.
    Retry(CompletionCall),
    /// The call failed.
    Failed(CompletionError),
}

/// What came back from the service: the body of a successful reply, or a
/// description of what went wrong on the way.
pub enum Reply<'a> {
    Body(&'a str),
    Broken(&'a str),
}

/// The texts of the parts of a candidate, one after the other. A part
/// without a text adds nothing.
pub open spec fn joined_parts(parts: Seq<Json>) -> Seq<char>
    decreases parts.len(),
{
    if parts.len() == 0 {
        Seq::empty()
    } else {
        joined_parts(parts.drop_last()) + (match parts.last().field("text"@) {
            Some(t) => match t.text() {
                Some(s) => s,
                None => Seq::empty(),
            },
            None => Seq::empty(),
        })
    }
}

/// The parts of the first candidate of a reply, if the reply has the shape
/// `candidates[0].content.parts`.
pub open spec fn first_candidate_parts(doc: Json) -> Option<Seq<Json>> {
    match doc.field("candidates"@) {
        Some(c) => match c.items() {
            Some(list) => if list.len() > 0 {
                match list[0].field("content"@) {
                    Some(content) => match content.field("parts"@) {
                        Some(p) => p.items(),
                        None => None,
                    },
                    None => None,
                }
            } else {
                None
            },
            None => None,
        },
        None => None,
    }
}

/// The text that a reply of the service carries: its `text` member when that
/// is a non-blank string, else the joined parts of its first candidate; in
/// both cases trimmed. A reply of another shape carries the empty text.
pub open spec fn response_text(doc: Json) -> Seq<char> {
    let direct = match doc.field("text"@) {
        Some(t) => match t.text() {
            Some(s) => trim(s),
            None => Seq::empty(),
        },
        None => Seq::empty(),
    };
    if direct.len() > 0 {
        direct
    } else {
        match first_candidate_parts(doc) {
            Some(parts) => trim(joined_parts(parts)),
            None => Seq::empty(),
        }
    }
}

/// The completion text that a reply carries, or `None` for a reply that
/// cannot be read: a broken exchange, or a body that is no JSON document.
pub open spec fn reply_text(reply: Reply) -> Option<Seq<char>> {
    match reply {
        Reply::Broken(_) => None,
        Reply::Body(body) => match json_document(body@) {
            Some(envelope) => Some(response_text(envelope)),
            None => None,
        },
    }
}

/// What is reported for a reply that cannot be read.
pub open spec fn unread_reason(reply: Reply) -> Seq<char> {
    match reply {
        Reply::Broken(message) => message@,
        Reply::Body(_) => ENVELOPE_ERROR@,
    }
}

impl CompletionError {
    /// The failure described in words.
    pub open spec fn message_text(self) -> Seq<char> {
        match self {
            CompletionError::Transport { message } => message@,
            CompletionError::Unparsable { last } => "Failed to get valid JSON from Gemini: "@
                + last.message_text(),
        }
    }

    /// The failure described in words.
    pub fn message(&self) -> (r: String)
        ensures
            r@ == self.message_text(),
    {
        match self {
            CompletionError::Transport { message } => message.clone(),
            CompletionError::Unparsable { last } => {
                let mut r = String::from_str("Failed to get valid JSON from Gemini: ");
                r.append(last.message().as_str());
                r
            },
        }
    }
}

/// The trimmed form of a text, as characters.
fn trimmed_chars(v: &Vec<char>) -> (r: String)
    ensures
        r@ == trim(v@),
{
    let (a, b) = trim_bounds(v);
    string_of_range(v, a, b)
}

/// The parts of the first candidate of a reply.
fn candidate_parts(doc: &Json) -> (r: Option<&Vec<Json>>)
    ensures
        match r {
            Some(parts) => first_candidate_parts(*doc) == Some(parts@),
            None => first_candidate_parts(*doc) is None,
        },
{
    let candidates = match doc.get("candidates") {
        Some(c) => c,
        None => {
            return None;
        },
    };
    let list = match candidates.as_array() {
        Some(l) => l,
        None => {
            return None;
        },
    };
    if list.len() == 0 {
        return None;
    }
    let content = match list[0].get("content") {
        Some(c) => c,
        None => {
            return None;
        },
    };
    match content.get("parts") {
        Some(p) => p.as_array(),
        None => None,
    }
}

/// Reads the text out of a reply of the service.
pub fn gemini_response_text(response: &Json) -> (r: String)
    ensures
        r@ == response_text(*response),
{
    match response.get("text") {
        Some(t) => match t.as_str() {
            Some(s) => {
                let direct = trimmed_chars(&chars_of(s));
                if !direct.as_str().is_empty() {
                    return direct;
                }
            },
            None => {},
        },
        None => {},
    }
    match candidate_parts(response) {
        Some(parts) => {
            let mut joined: Vec<char> = Vec::new();
            let mut i: usize = 0;
            assert(parts@.take(0) =~= Seq::<Json>::empty());
            while i < parts.len()
                invariant
                    i <= parts.len(),
                    joined@ == joined_parts(parts@.take(i as int)),
                decreases parts.len() - i,
            {
                proof {
                    let next = parts@.take(i + 1);
                    assert(next.drop_last() =~= parts@.take(i as int));
                    assert(next.last() == parts@[i as int]);
                }
                match parts[i].get("text") {
                    Some(t) => match t.as_str() {
                        Some(s) => {
                            let piece = chars_of(s);
                            let mut k: usize = 0;
                            let ghost before = joined@;
                            while k < piece.len()
                                invariant
                                    k <= piece.len(),
                                    joined@ == before + piece@.take(k as int),
                                decreases piece.len() - k,
                            {
                                joined.push(piece[k]);
                                assert(piece@.take(k + 1) =~= piece@.take(k as int).push(
                                    piece@[k as int],
                                ));
                                k += 1;
                            }
                            assert(piece@.take(piece.len() as int) =~= piece@);
                        },
                        None => {
                            assert(joined@ + Seq::<char>::empty() =~= joined@);
                        },
                    },
                    None => {
                        assert(joined@ + Seq::<char>::empty() =~= joined@);
                    },
                }
                i += 1;
            }
            assert(parts@.take(parts.len() as int) =~= parts@);
            trimmed_chars(&joined)
        },
        None => String::new(),
    }
}

impl CompletionCall {
    /// A call that has not been sent yet.
    pub fn new(prompt: String) -> (r: CompletionCall)
        ensures
            r.prompt == prompt,
            !r.retried,
    {
        CompletionCall { prompt, retried: false }
    }

    /// The prompt of the next request: the caller's prompt, followed by the
    /// corrective note when this is the retry.
    pub open spec fn outgoing(self) -> Seq<char> {
        if self.retried {
            self.prompt@ + RETRY_NOTE@
        } else {
            self.prompt@
        }
    }

    /// The prompt to send now.
    pub fn prompt_to_send(&self) -> (r: String)
        ensures
            r@ == self.outgoing(),
    {
        let mut r = self.prompt.clone();
        if self.retried {
            r.append(RETRY_NOTE);
        }
        r
    }

    /// Takes the reply to the request that was sent last.
    ///
    /// A broken exchange and a body that is no JSON document fail the call at
    /// once. A body whose text yields an object ends the call with that
    /// object. A body without one asks for the retry if it has not been used,
    /// and fails the call with the extraction failure if it has.
    pub fn on_reply(self, reply: Reply) -> (r: CompletionStep)
        ensures
            match r {
                CompletionStep::Done(doc) => {
                    &&& reply_text(reply) matches Some(text)
                    &&& extracted(text) == Some(doc)
                },
                CompletionStep::Retry(next) => {
                    &&& reply_text(reply) matches Some(text)
                    &&& extracted(text) is None
                    &&& !self.retried
                    &&& next.retried
                    &&& next.prompt == self.prompt
                },
                CompletionStep::Failed(CompletionError::Transport { message }) => {
                    &&& reply_text(reply) is None
                    &&& message@ == unread_reason(reply)
                },
                CompletionStep::Failed(CompletionError::Unparsable { last }) => {
                    &&& reply_text(reply) matches Some(text)
                    &&& extracted(text) is None
                    &&& self.retried
                    &&& last.describes(text)
                },
            },
    {
        let body = match reply {
            Reply::Broken(m) => {
                return CompletionStep::Failed(
                    CompletionError::Transport { message: String::from_str(m) },
                );
            },
            Reply::Body(body) => body,
        };
        let envelope = match read_json_document(body) {
            Some(doc) => doc,
            None => {
                return CompletionStep::Failed(
                    CompletionError::Transport { message: String::from_str(ENVELOPE_ERROR) },
                );
            },
        };
        let text = gemini_response_text(&envelope);
        match parse_json_object_from_text(text.as_str()) {
            Ok(doc) => CompletionStep::Done(doc),
            Err(e) => if self.retried {
                CompletionStep::Failed(CompletionError::Unparsable { last: e })
            } else {
                CompletionStep::Retry(CompletionCall { prompt: self.prompt, retried: true })
            },
        }
    }
}

} // verus!
