//! Decode errors. Structural errors abort the enclosing decode; per-element
//! failures are aggregated so that no child message is lost.

use vstd::prelude::*;
use crate::strutil::push_char;

verus! {

/// The mathematical model of a decode error.
#[verifier::ext_equal]
pub ghost enum DecodeErrorData {
    /// A JSON object was required and something else was found; carries the
    /// canonical text of the offending value.
    NotAnObject(Seq<char>),
    /// The interaction JSON has no request entry.
    MissingRequest,
    /// The interaction JSON has no response array.
    MissingResponse,
    /// One or more nested elements failed to decode; carries every child
    /// message, never only the first.
    Aggregate(Seq<Seq<char>>),
}

/// A decode error.
#[derive(Debug, PartialEq)]
pub enum DecodeError {
    NotAnObject(String),
    MissingRequest,
    MissingResponse,
    Aggregate(Vec<String>),
}

impl View for DecodeError {
    type V = DecodeErrorData;

    open spec fn view(&self) -> DecodeErrorData {
        match self {
            DecodeError::NotAnObject(s) => DecodeErrorData::NotAnObject(s@),
            DecodeError::MissingRequest => DecodeErrorData::MissingRequest,
            DecodeError::MissingResponse => DecodeErrorData::MissingResponse,
            DecodeError::Aggregate(msgs) => DecodeErrorData::Aggregate(
                Seq::new(
                    msgs@.len(),
                    |i: int|
                        if 0 <= i < msgs@.len() {
                            msgs@[i]@
                        } else {
                            Seq::empty()
                        },
                ),
            ),
        }
    }
}

/// The child messages joined with a comma and a space, in order.
pub open spec fn spec_join_msgs(msgs: Seq<Seq<char>>, i: int) -> Seq<char>
    decreases msgs.len() - i,
{
    if i < 0 || i >= msgs.len() {
        Seq::empty()
    } else if i + 1 == msgs.len() {
        msgs[i]
    } else {
        msgs[i] + seq![',', ' '] + spec_join_msgs(msgs, i + 1)
    }
}

/// The rendering of an error as one message. An aggregate holds every child
/// message, joined in order.
pub open spec fn spec_error_message(e: DecodeErrorData) -> Seq<char> {
    match e {
        DecodeErrorData::NotAnObject(s) => "expected a JSON object, got "@ + s,
        DecodeErrorData::MissingRequest => "no 'request' entry in the interaction"@,
        DecodeErrorData::MissingResponse => "no 'response' array in the interaction"@,
        DecodeErrorData::Aggregate(msgs) => "failed to decode the response messages - "@
            + spec_join_msgs(msgs, 0),
    }
}

fn join_msgs_from(msgs: &Vec<String>, i: usize) -> (r: String)
    requires
        i <= msgs@.len(),
    ensures
        r@ == spec_join_msgs(
            Seq::new(
                msgs@.len(),
                |k: int|
                    if 0 <= k < msgs@.len() {
                        msgs@[k]@
                    } else {
                        Seq::empty()
                    },
            ),
            i as int,
        ),
    decreases msgs@.len() - i,
{
    let ghost model = Seq::new(
        msgs@.len(),
        |k: int|
            if 0 <= k < msgs@.len() {
                msgs@[k]@
            } else {
                Seq::empty()
            },
    );
    let mut out = String::new();
    if i < msgs.len() {
        out.append(msgs[i].as_str());
        if i + 1 < msgs.len() {
            push_char(&mut out, ',');
            push_char(&mut out, ' ');
            let rest = join_msgs_from(msgs, i + 1);
            out.append(rest.as_str());
            assert(out@ =~= spec_join_msgs(model, i as int));
        } else {
            assert(out@ =~= spec_join_msgs(model, i as int));
        }
    } else {
        assert(out@ =~= spec_join_msgs(model, i as int));
    }
    out
}

impl DecodeError {
    /// Renders the error as one message; an aggregate shows every child
    /// message.
    pub fn message(&self) -> (r: String)
        ensures
            r@ == spec_error_message(self@),
    {
        match self {
            DecodeError::NotAnObject(s) => {
                let mut out = String::from_str("expected a JSON object, got ");
                out.append(s.as_str());
                out
            },
            DecodeError::MissingRequest => String::from_str(
                "no 'request' entry in the interaction",
            ),
            DecodeError::MissingResponse => String::from_str(
                "no 'response' array in the interaction",
            ),
            DecodeError::Aggregate(msgs) => {
                let mut out = String::from_str("failed to decode the response messages - ");
                let joined = join_msgs_from(msgs, 0);
                out.append(joined.as_str());
                out
            },
        }
    }
}

} // verus!
