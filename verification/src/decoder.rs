//! Decoding one trimmed event-record frame into a protocol event.
//!
//! A frame is tried as the in-band error shape first; otherwise its fixed
//! textual prefix is stripped and the remainder is either the terminal
//! sentinel or the payload bytes of one event. A frame that fits none of
//! these is malformed, which callers surface as a decode error.

use vstd::prelude::*;

use crate::text::trim_ascii_start;
use crate::text::trim_start_spec;

verus! {

/// The in-band error a frame can carry in place of a payload: the remote
/// message and the error-kind tag.
#[derive(Debug, Clone, PartialEq, Eq)]
pub struct ErrorPayload {
    pub message: String,
    pub kind: String,
}

/// What one decoded frame means.
#[derive(Debug, Clone, PartialEq, Eq)]
pub enum DecodedEvent {
    /// A payload event; the bytes are the JSON document after the prefix.
    Payload(Vec<u8>),
    /// The terminal sentinel: the stream is over.
    End,
    /// An in-band error object stood in place of a payload.
    ProtocolError(ErrorPayload),
    /// The frame fits no wire shape: neither error object nor prefixed record.
    Malformed,
}

/// The mathematical value of a decoded frame.
pub enum EventModel {
    Payload(Seq<u8>),
    End,
    ProtocolError(Seq<char>, Seq<char>),
    Malformed,
}

impl View for DecodedEvent {
    type V = EventModel;

    open spec fn view(&self) -> EventModel {
        match self {
            DecodedEvent::Payload(b) => EventModel::Payload(b@),
            DecodedEvent::End => EventModel::End,
            DecodedEvent::ProtocolError(e) => EventModel::ProtocolError(e.message@, e.kind@),
            DecodedEvent::Malformed => EventModel::Malformed,
        }
    }
}

/// An event that ends the stream: everything except a payload.
pub open spec fn is_terminal(e: EventModel) -> bool {
    !(e is Payload)
}

/// The field marker every data record starts with: `data:`.
pub open spec fn data_prefix() -> Seq<u8> {
    seq![100u8, 97u8, 116u8, 97u8, 58u8]
}

/// The terminal sentinel literal: `[DONE]`.
pub open spec fn done_token() -> Seq<u8> {
    seq![91u8, 68u8, 79u8, 78u8, 69u8, 93u8]
}

/// `s` begins with `p`.
pub open spec fn starts_with_spec(s: Seq<u8>, p: Seq<u8>) -> bool {
    p.len() <= s.len() && s.take(p.len() as int) == p
}

/// What the error-shape parse of a frame yields: the message and kind
/// strings when the bytes are a JSON object whose `error` member carries
/// a string `message` (the kind tag is its `type` member, or empty when
/// that is absent), and nothing otherwise. The result depends on the
/// bytes alone.
pub uninterp spec fn error_shape_of(s: Seq<u8>) -> Option<(Seq<char>, Seq<char>)>;

/// Relies on `serde_json::from_slice` and the `Value` accessors `get` and
/// `as_str` to try a frame as the in-band error object; their result is a
/// function of the frame bytes alone, named by [`error_shape_of`].
#[verifier::external_body]
fn parse_error_shape(frame: &[u8]) -> (r: Option<ErrorPayload>)
    ensures
        r is Some <==> error_shape_of(frame@) is Some,
        r is Some ==> r.unwrap().message@ == error_shape_of(frame@).unwrap().0
            && r.unwrap().kind@ == error_shape_of(frame@).unwrap().1,
{
    let v: serde_json::Value = serde_json::from_slice(frame).ok()?;
    let e = v.get("error")?;
    let message = e.get("message")?.as_str()?.to_owned();
    let kind = match e.get("type").and_then(serde_json::Value::as_str) {
        Some(t) => t.to_owned(),
        None => String::new(),
    };
    Some(ErrorPayload { message, kind })
}

/// The meaning of one trimmed frame: the error shape wins outright; then
/// the prefix is stripped and the remainder is the terminal sentinel or
/// the payload; anything else is malformed.
pub open spec fn decode_frame_spec(f: Seq<u8>) -> EventModel {
    if error_shape_of(f) is Some {
        EventModel::ProtocolError(error_shape_of(f).unwrap().0, error_shape_of(f).unwrap().1)
    } else if starts_with_spec(f, data_prefix()) {
        let rest = trim_start_spec(f.skip(data_prefix().len() as int));
        if starts_with_spec(rest, done_token()) {
            EventModel::End
        } else {
            EventModel::Payload(rest)
        }
    } else {
        EventModel::Malformed
    }
}

/// A frame whose JSON matches the error shape is always reported as a
/// protocol error and never attempted as a payload, whatever else the
/// bytes might look like.
pub proof fn lemma_error_shape_precedence(f: Seq<u8>)
    ensures
        error_shape_of(f) is Some ==> decode_frame_spec(f) == EventModel::ProtocolError(
            error_shape_of(f).unwrap().0,
            error_shape_of(f).unwrap().1,
        ),
{
}

/// Whether the slice begins with the `data:` marker.
fn has_data_prefix(frame: &[u8]) -> (r: bool)
    ensures
        r == starts_with_spec(frame@, data_prefix()),
{
    if frame.len() < 5 {
        return false;
    }
    let ok = *vstd::slice::slice_index_get(frame, 0) == 100 && *vstd::slice::slice_index_get(
        frame,
        1,
    ) == 97 && *vstd::slice::slice_index_get(frame, 2) == 116 && *vstd::slice::slice_index_get(
        frame,
        3,
    ) == 97 && *vstd::slice::slice_index_get(frame, 4) == 58;
    proof {
        if ok {
            assert(frame@.take(5) =~= data_prefix());
        } else {
            if frame@.take(5) == data_prefix() {
                assert(forall|k: int| 0 <= k < 5 ==> frame@[k] == #[trigger] frame@.take(5)[k]);
            }
        }
    }
    ok
}

/// Whether the slice begins with the `[DONE]` sentinel.
fn has_done_prefix(rest: &[u8]) -> (r: bool)
    ensures
        r == starts_with_spec(rest@, done_token()),
{
    if rest.len() < 6 {
        return false;
    }
    let ok = *vstd::slice::slice_index_get(rest, 0) == 91 && *vstd::slice::slice_index_get(
        rest,
        1,
    ) == 68 && *vstd::slice::slice_index_get(rest, 2) == 79 && *vstd::slice::slice_index_get(
        rest,
        3,
    ) == 78 && *vstd::slice::slice_index_get(rest, 4) == 69 && *vstd::slice::slice_index_get(
        rest,
        5,
    ) == 93;
    proof {
        if ok {
            assert(rest@.take(6) =~= done_token());
        } else {
            if rest@.take(6) == done_token() {
                assert(forall|k: int| 0 <= k < 6 ==> rest@[k] == #[trigger] rest@.take(6)[k]);
            }
        }
    }
    ok
}

/// Decodes one trimmed frame, in the order the wire shape fixes: error
/// shape first, then terminal sentinel, then payload.
pub fn decode_frame(frame: &[u8]) -> (r: DecodedEvent)
    ensures
        r@ == decode_frame_spec(frame@),
{
    match parse_error_shape(frame) {
        Option::Some(e) => DecodedEvent::ProtocolError(e),
        Option::None => {
            if has_data_prefix(frame) {
                let rest = trim_ascii_start(
                    vstd::slice::slice_subrange(frame, 5, frame.len()),
                );
                proof {
                    assert(frame@.subrange(5, frame@.len() as int) =~= frame@.skip(5));
                }
                if has_done_prefix(rest) {
                    DecodedEvent::End
                } else {
                    DecodedEvent::Payload(vstd::slice::slice_to_vec(rest))
                }
            } else {
                DecodedEvent::Malformed
            }
        },
    }
}

} // verus!
