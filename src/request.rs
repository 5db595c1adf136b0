//! What a request asks for and what is answered: the payload's fields, the
//! stored key of a new message, and the decisions of the three operations.

use vstd::prelude::*;
use crate::access::{authorize, grants, TokenRecord};
use crate::listing::listing;
use crate::ring::{appended, byte_len, from_marker, Queue};

verus! {

/// Why a request is turned down.
#[derive(PartialEq, Eq, Structural, Clone, Copy, Debug)]
pub enum ServiceError {
    /// The payload is missing, is not a JSON object of strings, or lacks a field.
    BadRequest,
    /// The token could not be validated.
    AuthenticationFailed,
    /// The token's roles do not cover the operation.
    AuthorizationDenied,
    /// The message has as many bytes as the bound, or more.
    MessageTooLong,
    /// The log could not be reached.
    InternalUnavailable,
}

/// A field of the payload as the contracts see it: its name, and its value
/// unless the payload gives `null`.
pub type FieldView = (Seq<char>, Option<Seq<char>>);

/// One field of a payload.
pub struct Field {
    pub name: String,
    pub value: Option<String>,
}

impl View for Field {
    type V = FieldView;

    open spec fn view(&self) -> FieldView {
        (
            self.name@,
            match self.value {
                Some(s) => Some(s@),
                None => None,
            },
        )
    }
}

#[verifier::external_type_specification]
#[verifier::external_body]
pub struct ExJsonError(serde_json::Error);

/// The fields of the JSON object `text`, by name, where every value is a
/// string or `null`; `None` where `text` is no such object.
pub uninterp spec fn json_string_fields(text: Seq<char>) -> Option<Seq<FieldView>>;

/// Relies on serde_json::from_str, read into a BTreeMap of names to optional
/// strings: it fails on every text that is not such an object, and what it
/// gives depends on the text alone.
#[verifier::external_body]
fn decode_fields(text: &str) -> (r: Result<Vec<Field>, serde_json::Error>)
    ensures
        r is Ok <==> json_string_fields(text@) is Some,
        r is Ok ==> r->Ok_0@.map_values(|f: Field| f@) == json_string_fields(text@)->0,
{
    serde_json::from_str::<std::collections::BTreeMap<String, Option<String>>>(text).map(
        |m| m.into_iter().map(|(name, value)| Field { name, value }).collect(),
    )
}

/// The string that `fields` gives for `name`: the value of the first field
/// with that name, where it is not `null`.
pub open spec fn given(fields: Seq<FieldView>, name: Seq<char>) -> Option<Seq<char>>
    decreases fields.len(),
{
    if fields.len() == 0 {
        None
    } else if fields[0].0 == name {
        fields[0].1
    } else {
        given(fields.drop_first(), name)
    }
}

/// The fields of a request's payload.
pub struct Query {
    fields: Vec<Field>,
}

impl View for Query {
    type V = Seq<FieldView>;

    closed spec fn view(&self) -> Seq<FieldView> {
        self.fields@.map_values(|f: Field| f@)
    }
}

/// Reads a payload: there must be one, and it must be a JSON object whose
/// values are strings or `null`.
pub fn parse_query(text: Option<&str>) -> (r: Result<Query, ServiceError>)
    ensures
        match text {
            None => r == Err::<Query, ServiceError>(ServiceError::BadRequest),
            Some(t) => match json_string_fields(t@) {
                None => r == Err::<Query, ServiceError>(ServiceError::BadRequest),
                Some(fs) => r is Ok && r->Ok_0@ == fs,
            },
        },
{
    match text {
        None => Err(ServiceError::BadRequest),
        Some(t) => match decode_fields(t) {
            Ok(fields) => Ok(Query { fields }),
            Err(_) => Err(ServiceError::BadRequest),
        },
    }
}

impl Query {
    /// The string given for `name`, if any.
    pub fn text_field(&self, name: &str) -> (r: Option<String>)
        ensures
            match given(self@, name@) {
                Some(v) => r is Some && r->0@ == v,
                None => r is None,
            },
    {
        let wanted = name.to_owned();
        let ghost fs = self@;
        let n = self.fields.len();
        let mut i: usize = 0;
        assert(fs.subrange(0, n as int) =~= fs);
        while i < n
            invariant
                n == self.fields@.len(),
                fs == self@,
                fs.len() == n,
                i <= n,
                wanted@ == name@,
                given(fs, name@) == given(fs.subrange(i as int, n as int), name@),
            decreases n - i,
        {
            let ghost rest = fs.subrange(i as int, n as int);
            assert(rest[0] == self.fields@[i as int]@);
            if self.fields[i].name == wanted {
                return match &self.fields[i].value {
                    Some(v) => Some(v.clone()),
                    None => None,
                };
            }
            assert(rest.drop_first() =~= fs.subrange(i + 1, n as int));
            i = i + 1;
        }
        None
    }

    /// The string given for `name`; a bad request where there is none.
    pub fn required(&self, name: &str) -> (r: Result<String, ServiceError>)
        ensures
            match given(self@, name@) {
                Some(v) => r is Ok && r->Ok_0@ == v,
                None => r == Err::<String, ServiceError>(ServiceError::BadRequest),
            },
    {
        match self.text_field(name) {
            Some(v) => Ok(v),
            None => Err(ServiceError::BadRequest),
        }
    }
}

/// The ten decimal digits in order.
pub open spec fn digits() -> Seq<char> {
    seq!['0', '1', '2', '3', '4', '5', '6', '7', '8', '9']
}

/// `n` written in decimal, without leading zeros.
pub open spec fn decimal(n: nat) -> Seq<char>
    decreases n,
{
    if n < 10 {
        seq![digits()[n as int]]
    } else {
        decimal(n / 10) + seq![digits()[(n % 10) as int]]
    }
}

/// Appends `n` in decimal to `out`.
fn push_decimal(out: &mut String, n: u128)
    ensures
        final(out)@ == old(out)@ + decimal(n as nat),
    decreases n,
{
    let table = "0123456789";
    proof {
        reveal_strlit("0123456789");
    }
    assert(table@ =~= digits());
    assert(table.is_ascii());
    if n >= 10 {
        push_decimal(out, n / 10);
    }
    let d = (n % 10) as usize;
    let digit = table.substring_ascii(d, d + 1);
    assert(digit@ =~= seq![digits()[d as int]]);
    out.append(digit);
    assert(final(out)@ =~= old(out)@ + decimal(n as nat));
}

/// The key under which a message of `subject` is stored when it arrives at
/// `millis` milliseconds after the Unix epoch: the subject followed by the
/// time in decimal.
pub fn message_key(subject: &str, millis: u128) -> (r: String)
    ensures
        r@ == subject@ + decimal(millis as nat),
{
    let mut key = subject.to_owned();
    push_decimal(&mut key, millis);
    key
}

/// Lets the request through when `token` holds one of the roles in
/// `required_role`.
pub fn check_access(token: &TokenRecord, required_role: u8) -> (r: Result<(), ServiceError>)
    ensures
        grants(token.role_bitmask, required_role) ==> r is Ok,
        !grants(token.role_bitmask, required_role) ==> r == Err::<(), ServiceError>(
            ServiceError::AuthorizationDenied,
        ),
{
    if authorize(token, required_role) {
        Ok(())
    } else {
        Err(ServiceError::AuthorizationDenied)
    }
}

/// Appends the payload's `message` for an admitted `token`, under the key
/// made of the token's subject and `millis`. A payload without a message is a
/// bad request; a message of `max_len()` bytes or more is refused. In both
/// cases the log is left as it was.
pub fn append_message(queue: &mut Queue, token: &TokenRecord, millis: u128, query: &Query) -> (r:
    Result<(), ServiceError>)
    requires
        old(queue).wf(),
    ensures
        final(queue).wf(),
        final(queue).capacity() == old(queue).capacity(),
        final(queue).max_len() == old(queue).max_len(),
        match given(query@, "message"@) {
            None => r == Err::<(), ServiceError>(ServiceError::BadRequest) && final(queue)@ == old(
                queue,
            )@,
            Some(v) => if byte_len(v) >= old(queue).max_len() {
                r == Err::<(), ServiceError>(ServiceError::MessageTooLong) && final(queue)@ == old(
                    queue,
                )@
            } else {
                r is Ok && final(queue)@ == appended(
                    old(queue)@,
                    (token.subject_id@ + decimal(millis as nat), v),
                )
            },
        },
{
    let message = match query.required("message") {
        Ok(m) => m,
        Err(e) => return Err(e),
    };
    let key = message_key(token.subject_id.as_str(), millis);
    match queue.push(key, message) {
        Ok(()) => Ok(()),
        Err(()) => Err(ServiceError::MessageTooLong),
    }
}

/// The listing of the log from the payload's `start_key`; a bad request where
/// the payload gives none.
pub fn messages_from(queue: &Queue, query: &Query) -> (r: Result<String, ServiceError>)
    requires
        queue.wf(),
    ensures
        match given(query@, "start_key"@) {
            None => r == Err::<String, ServiceError>(ServiceError::BadRequest),
            Some(k) => r is Ok && r->Ok_0@ == listing(from_marker(queue@, k)),
        },
{
    match query.required("start_key") {
        Ok(k) => Ok(queue.get_from(k.as_str())),
        Err(e) => Err(e),
    }
}

} // verus!
