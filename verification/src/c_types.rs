//! Ownership-tagged envelopes for moving bytes and text across the boundary,
//! and the discriminated result envelope that replaces exceptions there.
//!
//! An envelope is always in one of three states: null (carries nothing, the
//! canonical empty encoding), live (carries a byte sequence that the current
//! owner must eventually release), or released (its content has been given
//! back; reading or releasing it again is a protocol violation, and the
//! contracts below rule it out).

use vstd::prelude::*;
use vstd::slice::slice_to_vec;
use vstd::string::StrSliceExecFns;
use vstd::utf8::{decode_utf8, encode_utf8, valid_utf8};

verus! {

/// A payload type with a canonical empty value.
///
/// The result envelope fills its inactive slot with this value, so that
/// release logic is total over the envelope and never touches uninitialized
/// data.
pub trait Empty: Sized {
    /// The canonical empty value, as a mathematical object.
    spec fn empty_spec() -> Self;

    /// Produces the canonical empty value.
    fn empty() -> (r: Self)
        ensures
            r == Self::empty_spec(),
    ;
}

/// The payload of an operation that succeeds without returning data.
pub struct RustVoid {}

impl Empty for RustVoid {
    open spec fn empty_spec() -> Self {
        RustVoid {  }
    }

    fn empty() -> (r: Self) {
        RustVoid {  }
    }
}

/// True when the text contains no NUL character, so that it can cross the
/// boundary under C-string semantics.
pub open spec fn nul_free(s: Seq<char>) -> bool {
    forall|i: int| 0 <= i < s.len() ==> s[i] != '\u{0}'
}

/// A typed decoding failure at the boundary.
#[derive(Debug)]
pub enum BoundaryError {
    /// The bytes of a string envelope are not valid text.
    InvalidEncoding,
    /// A content identifier string did not parse; carries the parser's
    /// message.
    InvalidKey(String),
}

impl BoundaryError {
    /// The human-readable message carried to the host.
    pub open spec fn message_spec(&self) -> Seq<char> {
        match self {
            BoundaryError::InvalidEncoding => "invalid text encoding"@,
            BoundaryError::InvalidKey(m) => m@,
        }
    }

    /// Renders the error as the message text placed in an error envelope.
    pub fn message(&self) -> (r: String)
        ensures
            r@ == self.message_spec(),
    {
        match self {
            BoundaryError::InvalidEncoding => "invalid text encoding".to_owned(),
            BoundaryError::InvalidKey(m) => m.clone(),
        }
    }
}

/// A byte buffer crossing the boundary, tagged with its ownership state.
pub enum RustBytes {
    /// The canonical empty encoding: carries nothing, decodes to the empty
    /// sequence, and releasing it is a no-op.
    Null,
    /// Carries bytes that the current owner must release exactly once.
    Live(Vec<u8>),
    /// Already released; must not be read or released again.
    Released,
}

impl RustBytes {
    pub open spec fn is_live(&self) -> bool {
        self is Live
    }

    pub open spec fn is_released(&self) -> bool {
        self is Released
    }

    /// The byte sequence the envelope carries; a null envelope carries the
    /// empty sequence.
    pub open spec fn spec_content(&self) -> Seq<u8> {
        match self {
            RustBytes::Live(v) => v@,
            _ => Seq::empty(),
        }
    }

    /// Copies a byte sequence into a fresh live envelope.
    ///
    /// Round-trip law, first half: the envelope's content is exactly the
    /// input, so `decode`, which returns the content unchanged, gives every
    /// byte sequence back, the empty one included. In the content model the
    /// composition is the identity; the two contracts carry the whole law.
    pub fn encode(value: &Vec<u8>) -> (r: RustBytes)
        ensures
            r.is_live(),
            r.spec_content() == value@,
    {
        RustBytes::Live(slice_to_vec(value.as_slice()))
    }

    /// Copies the carried bytes out without taking ownership: the envelope
    /// must still be released by its owner afterwards.
    ///
    /// Round-trip law, second half: the result is exactly `spec_content`,
    /// which `encode` filled with the encoded sequence.
    pub fn decode(&self) -> (r: Vec<u8>)
        requires
            !self.is_released(),
        ensures
            r@ == self.spec_content(),
    {
        match self {
            RustBytes::Live(v) => slice_to_vec(v.as_slice()),
            _ => Vec::new(),
        }
    }

    /// The canonical release operation: a no-op on a null envelope, frees a
    /// live one. Releasing twice is ruled out by the precondition.
    pub fn free(&mut self)
        requires
            !old(self).is_released(),
        ensures
            old(self).is_live() ==> *final(self) is Released,
            !old(self).is_live() ==> *final(self) is Null,
    {
        let live = match self {
            RustBytes::Live(_) => true,
            _ => false,
        };
        if live {
            *self = RustBytes::Released;
        } else {
            *self = RustBytes::Null;
        }
    }
}

impl Empty for RustBytes {
    open spec fn empty_spec() -> Self {
        RustBytes::Null
    }

    fn empty() -> (r: Self) {
        RustBytes::Null
    }
}

/// A text buffer crossing the boundary: the string specialization of the
/// byte envelope. It carries the UTF-8 bytes of the text; decoding validates
/// them again, because a live envelope may have been filled by the other
/// side.
pub enum RustString {
    /// The canonical empty encoding: decodes to the empty string.
    Null,
    /// Carries bytes that the current owner must release exactly once.
    Live(Vec<u8>),
    /// Already released; must not be read or released again.
    Released,
}

/// Relies on `String::from_utf8`: it succeeds exactly on valid UTF-8 input
/// and returns the text those bytes encode.
#[verifier::external_body]
fn string_from_utf8(bytes: Vec<u8>) -> (r: Option<String>)
    ensures
        r is Some <==> valid_utf8(bytes@),
        r matches Some(s) ==> s@ == decode_utf8(bytes@),
{
    match String::from_utf8(bytes) {
        Ok(s) => Some(s),
        Err(_) => None,
    }
}

/// How an outgoing message is enveloped: NUL-free text is carried as its
/// UTF-8 bytes; text that cannot cross under C-string semantics falls back
/// to the empty-but-valid null envelope instead of failing again.
pub open spec fn holds_message(e: RustString, m: Seq<char>) -> bool {
    if nul_free(m) {
        e.is_live() && e.spec_content() == encode_utf8(m)
    } else {
        e == RustString::Null
    }
}

/// The error slot was filled from some non-empty message: live with that
/// text's bytes when the text can cross under C-string semantics, the
/// empty-but-valid fallback otherwise.
pub open spec fn holds_some_message(e: RustString) -> bool {
    exists|m: Seq<char>| m.len() > 0 && #[trigger] holds_message(e, m)
}

/// The text an error envelope carries to the engine: its decoded content, or
/// the fixed decoding-failure message when the content is not valid text.
pub open spec fn error_text(e: RustString) -> Seq<char> {
    if valid_utf8(e.spec_content()) {
        decode_utf8(e.spec_content())
    } else {
        "invalid text encoding"@
    }
}

impl RustString {
    pub open spec fn is_live(&self) -> bool {
        self is Live
    }

    pub open spec fn is_released(&self) -> bool {
        self is Released
    }

    /// The bytes the envelope carries; a null envelope carries the empty
    /// sequence.
    pub open spec fn spec_content(&self) -> Seq<u8> {
        match self {
            RustString::Live(v) => v@,
            _ => Seq::empty(),
        }
    }

    /// Copies text into a fresh live envelope as its UTF-8 bytes. The text
    /// must be NUL-free (C-string semantics); `encode_or_empty` is the total
    /// variant used on error paths.
    pub fn encode(value: &str) -> (r: RustString)
        requires
            nul_free(value@),
        ensures
            r.is_live(),
            r.spec_content() == encode_utf8(value@),
    {
        RustString::Live(value.as_bytes_vec())
    }

    /// Total encoding used when a failure must not fail again: text with an
    /// embedded NUL is replaced by the empty-but-valid null envelope.
    pub fn encode_or_empty(value: &str) -> (r: RustString)
        ensures
            !r.is_released(),
            holds_message(r, value@),
    {
        let n = value.unicode_len();
        let mut i: usize = 0;
        let mut has_nul = false;
        while i < n
            invariant
                i <= n,
                n == value@.len(),
                has_nul <==> exists|j: int| 0 <= j < i && value@[j] == '\u{0}',
            decreases n - i,
        {
            if value.get_char(i) == '\u{0}' {
                has_nul = true;
            }
            i = i + 1;
        }
        if has_nul {
            RustString::Null
        } else {
            RustString::encode(value)
        }
    }

    /// Copies the carried text out without taking ownership. Fails with the
    /// typed `InvalidEncoding` error when the carried bytes are not valid
    /// text.
    ///
    /// The contract carries the text round-trip law: whenever the content is
    /// the encoding of some text (as `encode` ensures), decoding returns
    /// exactly that text; see `lemma_string_round_trip`.
    pub fn decode(&self) -> (r: Result<String, BoundaryError>)
        requires
            !self.is_released(),
        ensures
            r is Ok <==> valid_utf8(self.spec_content()),
            r matches Ok(s) ==> s@ == decode_utf8(self.spec_content()),
            r matches Err(e) ==> e is InvalidEncoding,
    {
        let bytes = match self {
            RustString::Live(v) => slice_to_vec(v.as_slice()),
            _ => Vec::new(),
        };
        match string_from_utf8(bytes) {
            Some(s) => Ok(s),
            None => Err(BoundaryError::InvalidEncoding),
        }
    }

    /// Decodes the envelope into message text, total even on invalid bytes:
    /// those yield the fixed decoding-failure message instead.
    pub fn decode_or_fallback(&self) -> (r: String)
        requires
            !self.is_released(),
        ensures
            r@ == error_text(*self),
    {
        match self.decode() {
            Ok(s) => s,
            Err(e) => e.message(),
        }
    }

    /// The canonical release operation: a no-op on a null envelope, frees a
    /// live one. Releasing twice is ruled out by the precondition.
    pub fn free(&mut self)
        requires
            !old(self).is_released(),
        ensures
            old(self).is_live() ==> *final(self) is Released,
            !old(self).is_live() ==> *final(self) is Null,
    {
        let live = match self {
            RustString::Live(_) => true,
            _ => false,
        };
        if live {
            *self = RustString::Released;
        } else {
            *self = RustString::Null;
        }
    }
}

impl Empty for RustString {
    open spec fn empty_spec() -> Self {
        RustString::Null
    }

    fn empty() -> (r: Self) {
        RustString::Null
    }
}

/// Law: valid text survives the string envelope round trip. The bytes that
/// `RustString::encode` writes are valid UTF-8, and decoding them (as
/// `RustString::decode` does) returns exactly the characters that were
/// encoded.
pub proof fn lemma_string_round_trip(s: Seq<char>)
    ensures
        valid_utf8(encode_utf8(s)),
        decode_utf8(encode_utf8(s)) == s,
{
    vstd::utf8::encode_utf8_valid_utf8(s);
    vstd::utf8::encode_utf8_decode_utf8(s);
}

/// Law: a failure is never reported silently. An error envelope holding a
/// non-empty message that can cross the boundary (NUL-free) is live and
/// carries non-empty content, never the empty encoding.
pub proof fn lemma_error_message_nonempty(e: RustString, m: Seq<char>)
    requires
        holds_message(e, m),
        nul_free(m),
        m.len() > 0,
    ensures
        e.is_live(),
        e.spec_content().len() > 0,
{
    assert(encode_utf8(m) == vstd::utf8::encode_scalar(m[0] as u32) + encode_utf8(
        m.drop_first(),
    ));
}

/// The discriminated result envelope: success or failure as data, never as
/// an unwound exception. Exactly one of `err` and `result` is meaningful;
/// the inactive slot always holds the type's canonical empty value.
pub struct RustResult<T> {
    pub ok: bool,
    pub err: RustString,
    pub result: T,
}

impl<T: Empty> RustResult<T> {
    /// Builds the failure variant. The payload slot is filled with the
    /// type's canonical empty value, so release logic need not branch on
    /// which variant is active.
    pub fn error(err: RustString) -> (r: Self)
        ensures
            r.ok == false,
            r.err == err,
            r.result == T::empty_spec(),
    {
        Self { ok: false, err, result: T::empty() }
    }

    /// Builds the success variant; the error slot holds the canonical empty
    /// string envelope.
    pub fn ok(result: T) -> (r: Self)
        ensures
            r.ok == true,
            r.err == RustString::empty_spec(),
            r.result == result,
    {
        Self { ok: true, err: RustString::empty(), result }
    }

    /// Whether the envelope carries a success payload.
    pub fn is_ok(&self) -> (r: bool)
        ensures
            r == self.ok,
    {
        self.ok
    }

    /// Takes the success payload; asking for it on a failure is a programmer
    /// error and is ruled out by the precondition.
    pub fn unwrap_payload(self) -> (r: T)
        requires
            self.ok,
        ensures
            r == self.result,
    {
        self.result
    }

    /// Takes the error envelope; asking for it on a success is a programmer
    /// error and is ruled out by the precondition.
    pub fn unwrap_error(self) -> (r: RustString)
        requires
            !self.ok,
        ensures
            r == self.err,
    {
        self.err
    }
}

/// Canonical release of a string-payload result envelope: releases whichever
/// buffer-bearing fields are present, message and payload alike.
pub fn rust_result_string_free(arg: &mut RustResult<RustString>)
    requires
        !old(arg).err.is_released(),
        !old(arg).result.is_released(),
    ensures
        !final(arg).err.is_live(),
        !final(arg).result.is_live(),
        final(arg).ok == old(arg).ok,
{
    arg.err.free();
    arg.result.free();
}

/// Canonical release of a byte-payload result envelope: releases whichever
/// buffer-bearing fields are present, message and payload alike.
pub fn rust_result_bytes_free(arg: &mut RustResult<RustBytes>)
    requires
        !old(arg).err.is_released(),
        !old(arg).result.is_released(),
    ensures
        !final(arg).err.is_live(),
        !final(arg).result.is_live(),
        final(arg).ok == old(arg).ok,
{
    arg.err.free();
    arg.result.free();
}

} // verus!
