//! The client-facing message schema of the streaming transport.
//!
//! Inbound frames carry one JSON chat message and are bounded in size;
//! outbound frames are a small discriminated set. The demultiplexer's raw
//! fragments become protocol messages here, with cosmetic cleanup applied to
//! the user-visible channel only.

use vstd::prelude::*;

verus! {

use crate::json::{JsonVal, obj_lookup};

/// The largest inbound frame accepted, in bytes: one mebibyte.
pub const MAX_MESSAGE_SIZE: usize = 1048576;

/// What a client may announce about itself.
pub struct ClientCapabilities {
    pub supports_thinking: bool,
}

/// One inbound message.
pub enum ClientMessage {
    /// A chat turn: the user text, and optionally the client's capabilities.
    Chat { content: String, capabilities: Option<ClientCapabilities> },
}

/// One outbound message.
pub enum ServerMessage {
    /// The complete answer, for non-streaming delivery.
    Response { content: String },
    /// One chunk of the user-visible answer.
    Partial { content: String },
    /// The thinking channel opened for this turn.
    Thinking { started: bool },
    /// One chunk of the model's hidden reasoning.
    ThinkingFragment { content: String },
    /// A terminal failure of the turn.
    Error { message: String },
    /// A heartbeat between intent resolution and the first token.
    Typing,
    /// The end-of-turn marker.
    Done { timestamp: i64 },
}

/// Whether an inbound frame of the given size is admitted; anything over
/// the bound is rejected with a terminal error and the connection closes.
pub fn admit_frame(len: usize) -> (r: bool)
    ensures
        r == (len <= MAX_MESSAGE_SIZE),
{
    len <= MAX_MESSAGE_SIZE
}

/// What a parsed inbound document means: a `chat` message carries its
/// `content` text and, optionally, a `capabilities` object whose
/// `supports_thinking` flag defaults to false; anything else is rejected.
pub open spec fn client_message_of(t: JsonVal) -> Option<(Seq<char>, Option<bool>)> {
    match t {
        JsonVal::Obj(o) => match (obj_lookup(o@, "type"@), obj_lookup(o@, "content"@)) {
            (Some(JsonVal::Str(ty)), Some(JsonVal::Str(content))) => {
                if ty@ == "chat"@ {
                    match obj_lookup(o@, "capabilities"@) {
                        Some(JsonVal::Obj(caps)) => match obj_lookup(caps@, "supports_thinking"@) {
                            Some(JsonVal::Bool(b)) => Some((content@, Some(b))),
                            _ => Some((content@, Some(false))),
                        },
                        Some(_) => None,
                        None => Some((content@, None)),
                    }
                } else {
                    None
                }
            },
            _ => None,
        },
        _ => None,
    }
}

/// Parses one inbound chat frame from its JSON document.
pub fn parse_client_message(t: &JsonVal) -> (r: Option<ClientMessage>)
    ensures
        match r {
            Some(m) => m matches ClientMessage::Chat { content, capabilities }
                && client_message_of(*t) == Some(
                (
                    content@,
                    match capabilities {
                        Some(c) => Some(c.supports_thinking),
                        None => None,
                    },
                ),
            ),
            None => client_message_of(*t) is None,
        },
{
    let ty = match t.get("type") {
        Some(v) => match v.as_str() {
            Some(s) => s,
            None => {
                return None;
            },
        },
        None => {
            return None;
        },
    };
    if !crate::text::str_eq(ty.as_str(), "chat") {
        return None;
    }
    let content = match t.get("content") {
        Some(v) => match v.as_str() {
            Some(s) => s.clone(),
            None => {
                return None;
            },
        },
        None => {
            return None;
        },
    };
    match t.get("capabilities") {
        Some(caps) => match caps {
            JsonVal::Obj(_) => {
                let flag = match caps.get("supports_thinking") {
                    Some(v) => match v.as_bool() {
                        Some(b) => b,
                        None => false,
                    },
                    None => false,
                };
                Some(
                    ClientMessage::Chat {
                        content,
                        capabilities: Some(ClientCapabilities { supports_thinking: flag }),
                    },
                )
            },
            _ => None,
        },
        None => Some(ClientMessage::Chat { content, capabilities: None }),
    }
}

/// Whether the client opted into the thinking channel: absent capabilities
/// mean no.
pub fn wants_thinking(m: &ClientMessage) -> (r: bool)
    ensures
        m matches ClientMessage::Chat { capabilities, .. } ==> r == match capabilities {
            Some(c) => c.supports_thinking,
            None => false,
        },
{
    match m {
        ClientMessage::Chat { capabilities, .. } => match capabilities {
            Some(c) => c.supports_thinking,
            None => false,
        },
    }
}

/// Turns one raw demultiplexer fragment into the protocol message the client
/// sees: hidden reasoning passes through verbatim, user-visible text gets
/// the cosmetic cleanup.
pub fn frag_to_message(f: &crate::demux::Frag) -> (r: ServerMessage)
    ensures
        match f {
            crate::demux::Frag::Thinking(p) => r matches ServerMessage::ThinkingFragment { content }
                && content@ == p@,
            crate::demux::Frag::Visible(p) => r matches ServerMessage::Partial { content }
                && content@ == crate::clean::clean_spec(p@),
        },
{
    match f {
        crate::demux::Frag::Thinking(p) => ServerMessage::ThinkingFragment {
            content: crate::text::chars_to_string(p),
        },
        crate::demux::Frag::Visible(p) => {
            let text = crate::text::chars_to_string(p);
            ServerMessage::Partial { content: crate::clean::clean_response_text(text.as_str()) }
        },
    }
}

} // verus!
