//! Requests and replies of the token endpoints, as plain values.
//!
//! The library decides what is sent and what a reply means; sending is left
//! to the caller. A request names its method, address, headers and body; a
//! reply is either a transport failure or a status with the fields found in
//! the body.

use crate::encoding::{form_encoded_text, push_form_encoded};
use crate::error::{Error, ErrorView};
use crate::scope::ScopeSet;
use crate::token::{Token, TokenView};
use vstd::prelude::*;
use vstd::string::*;

verus! {

/// The request methods the token endpoints are called with.
#[derive(Debug, Clone, Copy, PartialEq, Eq, Structural)]
pub enum Method {
    Get,
    Post,
}

/// A named value: a header, a query parameter or a form field.
#[derive(Debug)]
pub struct Field {
    pub name: String,
    pub value: String,
}

impl View for Field {
    type V = (Seq<char>, Seq<char>);

    open spec fn view(&self) -> (Seq<char>, Seq<char>) {
        (self.name@, self.value@)
    }
}

impl Field {
    /// The field `name` with the value `value`.
    pub fn new(name: &str, value: &str) -> (field: Field)
        ensures
            field@ == (name@, value@),
    {
        Field { name: name.to_owned(), value: value.to_owned() }
    }
}

/// The fields of a sequence, as pairs of name and value.
pub open spec fn field_pairs(fields: Seq<Field>) -> Seq<(Seq<char>, Seq<char>)> {
    Seq::new(fields.len(), |i: int| fields[i]@)
}

/// A field as it stands in a form: name and value in form encoding, with an
/// equals sign between them.
pub open spec fn form_pair(field: (Seq<char>, Seq<char>)) -> Seq<char> {
    form_encoded_text(field.0) + seq!['='] + form_encoded_text(field.1)
}

/// The text of a form: its fields in their order, with an ampersand between
/// neighbours.
pub open spec fn form_text(fields: Seq<(Seq<char>, Seq<char>)>) -> Seq<char>
    decreases fields.len(),
{
    if fields.len() == 0 {
        Seq::empty()
    } else if fields.len() == 1 {
        form_pair(fields[0])
    } else {
        form_text(fields.drop_last()) + seq!['&'] + form_pair(fields.last())
    }
}

/// Appends the text of the form with the given fields to `out`.
pub fn push_form(out: &mut String, fields: &[Field])
    ensures
        final(out)@ == old(out)@ + form_text(field_pairs(fields@)),
{
    proof {
        reveal_strlit("&");
        reveal_strlit("=");
        assert("&"@ =~= seq!['&']);
        assert("="@ =~= seq!['=']);
    }
    let ghost all = field_pairs(fields@);
    let mut i: usize = 0;
    assert(out@ =~= old(out)@ + form_text(all.take(0)));
    while i < fields.len()
        invariant
            i <= fields.len(),
            all == field_pairs(fields@),
            "&"@ == seq!['&'],
            "="@ == seq!['='],
            out@ == old(out)@ + form_text(all.take(i as int)),
        decreases fields.len() - i,
    {
        let ghost before = out@;
        if i > 0 {
            out.append("&");
        }
        push_form_encoded(out, fields[i].name.as_str());
        out.append("=");
        push_form_encoded(out, fields[i].value.as_str());
        proof {
            let next = all.take(i + 1);
            assert(next.drop_last() =~= all.take(i as int));
            assert(next.last() == fields@[i as int]@);
            if i == 0 {
                assert(out@ =~= before + form_pair(next[0]));
            } else {
                assert(out@ =~= before + seq!['&'] + form_pair(next.last()));
            }
            assert(out@ =~= old(out)@ + form_text(next));
        }
        i += 1;
    }
    assert(all.take(i as int) =~= all);
}

/// What an [`HttpRequest`] holds, as mathematical values.
pub struct RequestView {
    pub method: Method,
    pub uri: Seq<char>,
    pub headers: Seq<(Seq<char>, Seq<char>)>,
    pub body: Seq<char>,
}

/// An outbound request to a token endpoint: the address with its query, the
/// headers, and the body, which is empty or a form.
#[derive(Debug)]
pub struct HttpRequest {
    pub method: Method,
    pub uri: String,
    pub headers: Vec<Field>,
    pub body: String,
}

impl View for HttpRequest {
    type V = RequestView;

    open spec fn view(&self) -> RequestView {
        RequestView {
            method: self.method,
            uri: self.uri@,
            headers: field_pairs(self.headers@),
            body: self.body@,
        }
    }
}

/// The fields of a token endpoint's answer, as far as the body held them.
#[derive(Debug)]
pub struct TokenBody {
    pub access_token: Option<String>,
    pub expires_in: Option<u64>,
}

/// What came back from an outbound call.
#[derive(Debug)]
pub enum HttpReply {
    /// No answer: the connection failed or the call timed out.
    Unreachable(String),
    /// An answer with its status; `body` is `None` where the body could not
    /// be read as a token answer at all.
    Answered { status: u16, body: Option<TokenBody> },
}

/// Detail of the failure reported for an answer with a non-success status.
pub const FAILURE_STATUS: &'static str = "token endpoint answered with a failure status";

/// Detail of the failure reported for an answer without a token or lifetime.
pub const INCOMPLETE_ANSWER: &'static str = "token answer lacks a token or a lifetime";

/// Detail of the failure reported for a lifetime that cannot be represented.
pub const LIFETIME_OUT_OF_RANGE: &'static str = "token lifetime is out of range";

/// Whether a status reports success.
pub open spec fn is_success(status: u16) -> bool {
    200 <= status < 300
}

/// The transport failure that a reply amounts to, if any: no answer at all,
/// with the detail given, or an answer with a non-success status.
pub open spec fn transport_failure(reply: HttpReply) -> Option<ErrorView> {
    match reply {
        HttpReply::Unreachable(detail) => Some(ErrorView::TransportError(detail@)),
        HttpReply::Answered { status, body } => if is_success(status) {
            None
        } else {
            Some(ErrorView::TransportError(FAILURE_STATUS@))
        },
    }
}

/// What a reply to a token request means at `now` for a request with the
/// scope set `key`: the token it carries, expiring `expires_in` seconds
/// from `now`, or the failure.
///
/// No answer or a non-success status is a transport failure. An answer
/// without a readable body, without a token or lifetime, or with a lifetime
/// that leads beyond the representable instants is an exchange failure.
pub open spec fn reply_outcome(reply: HttpReply, key: Seq<Seq<char>>, now: u64) -> Result<
    TokenView,
    ErrorView,
> {
    match transport_failure(reply) {
        Some(failure) => Err(failure),
        None => match reply {
            HttpReply::Answered {
                status,
                body: Some(TokenBody { access_token: Some(value), expires_in: Some(lifetime) }),
            } => if now + lifetime <= u64::MAX {
                Ok(TokenView { value: value@, scopes: key, expires_at: (now + lifetime) as u64 })
            } else {
                Err(ErrorView::ExchangeError(LIFETIME_OUT_OF_RANGE@))
            },
            _ => Err(ErrorView::ExchangeError(INCOMPLETE_ANSWER@)),
        },
    }
}

/// The outcome of an issue as mathematical values.
pub open spec fn outcome_view(outcome: Result<Token, Error>) -> Result<TokenView, ErrorView> {
    match outcome {
        Ok(token) => Ok(token@),
        Err(error) => Err(error@),
    }
}

/// The transport failure that a reply amounts to, if any.
pub fn reply_failure(reply: &HttpReply) -> (failure: Option<Error>)
    ensures
        match failure {
            Some(error) => transport_failure(*reply) == Some(error@),
            None => transport_failure(*reply) is None,
        },
{
    match reply {
        HttpReply::Unreachable(detail) => Some(Error::TransportError(detail.clone())),
        HttpReply::Answered { status, body } => {
            if *status < 200 || *status >= 300 {
                Some(Error::TransportError(FAILURE_STATUS.to_owned()))
            } else {
                None
            }
        },
    }
}

/// Reads the reply to a token request made for the scope set `key` and
/// received at `now`.
pub fn token_from_reply(reply: HttpReply, key: ScopeSet, now: u64) -> (outcome: Result<
    Token,
    Error,
>)
    ensures
        outcome_view(outcome) == reply_outcome(reply, key@, now),
{
    match reply_failure(&reply) {
        Some(failure) => Err(failure),
        None => match reply {
            HttpReply::Answered {
                status,
                body: Some(TokenBody { access_token: Some(value), expires_in: Some(lifetime) }),
            } => {
                match now.checked_add(lifetime) {
                    Some(expires_at) => Ok(Token::new(value, key, expires_at)),
                    None => Err(Error::ExchangeError(LIFETIME_OUT_OF_RANGE.to_owned())),
                }
            },
            _ => Err(Error::ExchangeError(INCOMPLETE_ANSWER.to_owned())),
        },
    }
}

} // verus!
