//! JSON documents, as far as the data processors look into them.
//!
//! The documents are `serde_json` values, and fields are pulled out of them
//! with `rs_jsonpath`. Neither is verified here: each call into them is a
//! function of this module whose contract is taken on trust. What such a call
//! gives back is a function of its arguments alone, so each result has a
//! name, and the contracts of the verified functions are stated over those
//! names. A document stands in contracts for its JSON text.
//!
//! Not every payload is handed to `serde_json`: one that is longer than any
//! PUBLISH carries, or that holds a number with an exponent of ten digits or
//! more, is read as no document. `can_be_read` says which are handed on.

use vstd::prelude::*;
use serde_json::Value;

verus! {

/// `serde_json::Value`, a JSON document. Nothing is known of what is in one
/// but what the functions of this module say.
#[verifier::external_type_specification]
#[verifier::external_body]
pub struct ExValue(serde_json::Value);

/// The JSON text of a document.
pub uninterp spec fn json_text(value: Value) -> Seq<char>;

/// The text of the document that `serde_json::from_slice` reads from bytes,
/// or nothing where it reads none.
pub uninterp spec fn json_parse(bytes: Seq<u8>) -> Option<Seq<char>>;

/// The text of the member that `serde_json::Value::get` finds under a key
/// in the document of a given text, or nothing where it finds none.
pub uninterp spec fn json_member(document: Seq<char>, key: Seq<char>) -> Option<Seq<char>>;

/// The texts of the elements that `serde_json::Value::as_array` finds in
/// the document of a given text, or nothing where the document is no array.
pub uninterp spec fn json_elements(document: Seq<char>) -> Option<Seq<Seq<char>>>;

/// The text that `rs_jsonpath::look` finds for a path in the document of a
/// given text, or nothing where it fails.
pub uninterp spec fn json_look(document: Seq<char>, path: Seq<char>) -> Option<Seq<char>>;

/// The texts of a list of documents, in the list's order.
pub open spec fn json_texts(values: Seq<Value>) -> Seq<Seq<char>> {
    Seq::new(values.len(), |i: int| json_text(values[i]))
}

/// Whether a character is an ASCII letter, an ASCII digit or an underscore.
pub open spec fn plain_char(c: char) -> bool {
    ('a' <= c && c <= 'z') || ('A' <= c && c <= 'Z') || ('0' <= c && c <= '9') || c == '_'
}

/// Whether a path is the bare name of a member: made of letters, digits and
/// underscores only.
pub open spec fn plain_key(path: Seq<char>) -> bool {
    forall|i: int| 0 <= i < path.len() ==> plain_char(#[trigger] path[i])
}

/// The longest payload that is read as a document. No PUBLISH carries one
/// that long.
pub const MAX_DOCUMENT_LENGTH: usize = 268_435_455;

/// The most digits the exponent of a number may have in a payload that is
/// read as a document.
pub const MAX_EXPONENT_DIGITS: u8 = 9;

/// Where a walk through the bytes of a JSON text stands.
///
/// A string runs from a quote to the next quote that is not behind a
/// backslash. Outside strings, an exponent is an `e` or `E`, a sign or none,
/// and the digits that follow.
#[derive(Clone, Copy, Debug, PartialEq, Eq, Structural)]
pub enum Walk {
    /// Outside any string, and not in an exponent.
    Plain,
    /// Outside any string, right behind an `e` or `E`.
    Marked,
    /// Outside any string, behind an `e` or `E`, a sign or none, and this
    /// many digits.
    Counting(u8),
    /// Inside a string.
    Text,
    /// Inside a string, right behind a backslash.
    Escaped,
    /// Behind an exponent of more than `MAX_EXPONENT_DIGITS` digits that
    /// stands outside any string.
    TooLong,
}

/// Whether a byte is an ASCII digit.
pub open spec fn is_digit(b: u8) -> bool {
    0x30 <= b <= 0x39
}

/// Where the walk stands behind one more byte.
pub open spec fn walk_on(at: Walk, b: u8) -> Walk {
    match at {
        Walk::TooLong => Walk::TooLong,
        Walk::Escaped => Walk::Text,
        Walk::Text => if b == 0x22 {
            Walk::Plain
        } else if b == 0x5c {
            Walk::Escaped
        } else {
            Walk::Text
        },
        _ => if b == 0x22 {
            Walk::Text
        } else if b == 0x65 || b == 0x45 {
            Walk::Marked
        } else if is_digit(b) {
            match at {
                Walk::Marked => Walk::Counting(1),
                Walk::Counting(n) => if n >= MAX_EXPONENT_DIGITS {
                    Walk::TooLong
                } else {
                    Walk::Counting((n + 1) as u8)
                },
                _ => Walk::Plain,
            }
        } else if at == Walk::Marked && (b == 0x2b || b == 0x2d) {
            Walk::Counting(0)
        } else {
            Walk::Plain
        },
    }
}

/// Where the walk stands behind all of the bytes.
pub open spec fn walk(bytes: Seq<u8>) -> Walk
    decreases bytes.len(),
{
    if bytes.len() == 0 {
        Walk::Plain
    } else {
        walk_on(walk(bytes.drop_last()), bytes.last())
    }
}

/// The payloads that are read as documents: those of at most
/// `MAX_DOCUMENT_LENGTH` bytes in which no exponent outside a string has
/// more than `MAX_EXPONENT_DIGITS` digits.
pub open spec fn readable(bytes: Seq<u8>) -> bool {
    bytes.len() <= MAX_DOCUMENT_LENGTH && walk(bytes) != Walk::TooLong
}

/// The text of the document that a payload is read as: that which
/// `serde_json::from_slice` reads from a payload that is readable, and
/// nothing for any other.
pub open spec fn read_document(payload: Seq<u8>) -> Option<Seq<char>> {
    if readable(payload) {
        json_parse(payload)
    } else {
        None
    }
}

/// `serde_json::from_slice`, with its error dropped: the document read from
/// `payload`, if the bytes are JSON.
///
/// It is called on readable payloads only. On others it may not return:
/// it adds up the exponent of a number in 32 bits, from the digits behind
/// `e` and from the count of the digits before it, and takes the absolute
/// value of the sum. With at most nine digits behind `e` and at most
/// `MAX_DOCUMENT_LENGTH` digits before it the sum stays within 32 bits. It
/// reads a number only outside strings, and takes a string to run from a
/// quote to the next quote that is not behind a backslash, as `Walk` does.
#[verifier::external_body]
pub(crate) fn parse(payload: &[u8]) -> (document: Option<Value>)
    requires
        readable(payload@),
    ensures
        match json_parse(payload@) {
            Some(text) => document matches Some(found) && json_text(found) == text,
            None => document is None,
        },
{
    serde_json::from_slice(payload).ok()
}

/// `serde_json::Value::get` with a text as index: the member of an object
/// under `key`; none where `document` is no object or has no such member.
#[verifier::external_body]
pub(crate) fn member<'v>(document: &'v Value, key: &str) -> (found: Option<&'v Value>)
    ensures
        match json_member(json_text(*document), key@) {
            Some(text) => found matches Some(value) && json_text(*value) == text,
            None => found is None,
        },
{
    document.get(key)
}

/// `serde_json::Value::as_array`: the elements of a document that is an
/// array, in their order.
#[verifier::external_body]
pub(crate) fn elements(document: &Value) -> (found: Option<&Vec<Value>>)
    ensures
        match json_elements(json_text(*document)) {
            Some(texts) => found matches Some(values) && json_texts(values@) == texts,
            None => found is None,
        },
{
    document.as_array()
}

/// `rs_jsonpath::look`, with the document as its own root and the error
/// dropped. It is called with the bare name of a member only: for such a
/// path it reads the document and writes nothing.
#[verifier::external_body]
pub(crate) fn look(document: &Value, key: &str) -> (found: Option<String>)
    requires
        plain_key(key@),
    ensures
        match json_look(json_text(*document), key@) {
            Some(text) => found matches Some(value) && value@ == text,
            None => found is None,
        },
{
    rs_jsonpath::look(document, document, key.to_string()).ok()
}

fn step(at: Walk, b: u8) -> (next: Walk)
    ensures
        next == walk_on(at, b),
{
    match at {
        Walk::TooLong => Walk::TooLong,
        Walk::Escaped => Walk::Text,
        Walk::Text => if b == 0x22 {
            Walk::Plain
        } else if b == 0x5c {
            Walk::Escaped
        } else {
            Walk::Text
        },
        _ => if b == 0x22 {
            Walk::Text
        } else if b == 0x65 || b == 0x45 {
            Walk::Marked
        } else if 0x30 <= b && b <= 0x39 {
            match at {
                Walk::Marked => Walk::Counting(1),
                Walk::Counting(n) => if n >= MAX_EXPONENT_DIGITS {
                    Walk::TooLong
                } else {
                    Walk::Counting(n + 1)
                },
                _ => Walk::Plain,
            }
        } else {
            match at {
                Walk::Marked => if b == 0x2b || b == 0x2d {
                    Walk::Counting(0)
                } else {
                    Walk::Plain
                },
                _ => Walk::Plain,
            }
        },
    }
}

/// Whether a payload is read as a document: whether it is short enough and
/// holds no exponent of more than nine digits outside a string.
pub fn can_be_read(payload: &[u8]) -> (yes: bool)
    ensures
        yes == readable(payload@),
{
    if payload.len() > MAX_DOCUMENT_LENGTH {
        return false;
    }
    let mut at = Walk::Plain;
    let mut i: usize = 0;
    assert(payload@.take(0) =~= Seq::<u8>::empty());
    while i < payload.len()
        invariant
            i <= payload.len(),
            at == walk(payload@.take(i as int)),
        decreases payload.len() - i,
    {
        proof {
            let longer = payload@.take(i + 1);
            assert(longer.drop_last() =~= payload@.take(i as int));
            assert(longer.last() == payload@[i as int]);
        }
        at = step(at, payload[i]);
        i = i + 1;
    }
    assert(payload@.take(i as int) =~= payload@);
    match at {
        Walk::TooLong => false,
        _ => true,
    }
}

/// Reads a payload as a JSON document; none where the payload is not
/// readable or is no JSON.
pub fn document(payload: &[u8]) -> (document: Option<Value>)
    ensures
        match read_document(payload@) {
            Some(text) => document matches Some(found) && json_text(found) == text,
            None => document is None,
        },
{
    if can_be_read(payload) {
        parse(payload)
    } else {
        None
    }
}

/// The entries that a document of a given text carries: the elements of its
/// member `entries` where it has one, else its own elements; none where what
/// is looked at is no array.
pub open spec fn entry_texts(document: Seq<char>) -> Option<Seq<Seq<char>>> {
    match json_member(document, "entries"@) {
        Some(listed) => json_elements(listed),
        None => json_elements(document),
    }
}

/// The entries a document carries: those listed under `entries` in an
/// object, or the elements of an array.
pub fn entries<'v>(document: &'v Value) -> (found: Option<&'v Vec<Value>>)
    ensures
        match entry_texts(json_text(*document)) {
            Some(texts) => found matches Some(values) && json_texts(values@) == texts,
            None => found is None,
        },
{
    match member(document, "entries") {
        Some(listed) => elements(listed),
        None => elements(document),
    }
}

} // verus!
