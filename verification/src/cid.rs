//! Storage keys: the self-describing content identifiers that name
//! immutable blocks. A key is parsed from a string into its canonical form
//! and serialized back; a canonical string survives the round trip
//! unchanged.

use crate::c_types::{BoundaryError, RustString};
use vstd::prelude::*;
use vstd::utf8::{decode_utf8, valid_utf8};

verus! {

/// What content-identifier parsing yields for a given string: `None` on
/// malformed input, otherwise the canonical string form of the identifier
/// the input names.
pub uninterp spec fn key_norm(s: Seq<char>) -> Option<Seq<char>>;

/// A string already in canonical form: parsing gives it back unchanged.
pub open spec fn is_canonical_key(s: Seq<char>) -> bool {
    key_norm(s) == Some(s)
}

/// Relies on `Cid::try_from(&str)` and `Cid`'s display form in the cid
/// crate: parsing depends on the characters alone and fails exactly on
/// malformed input; a parsed identifier prints in its canonical form, and
/// that form parses back to the same identifier. A failed parse reports a
/// non-empty message: every arm of the crate's error rendering writes a
/// fixed non-empty description, or forwards a read error's own non-empty
/// text.
#[verifier::external_body]
fn normalize_key(s: &str) -> (r: Result<String, String>)
    ensures
        r is Ok <==> key_norm(s@) is Some,
        r matches Ok(t) ==> key_norm(s@) == Some(t@),
        r matches Ok(t) ==> is_canonical_key(t@),
        r matches Err(m) ==> m@.len() > 0,
{
    match libipld::Cid::try_from(s) {
        Ok(c) => Ok(c.to_string()),
        Err(e) => Err(e.to_string()),
    }
}

/// A validated storage key, held in its canonical string form.
#[derive(Debug)]
pub struct StorageKey {
    text: String,
}

impl View for StorageKey {
    type V = Seq<char>;

    closed spec fn view(&self) -> Seq<char> {
        self.text@
    }
}

impl StorageKey {
    /// Every key this module constructs is canonical: serializing and
    /// re-parsing it yields the same key.
    pub open spec fn wf(&self) -> bool {
        is_canonical_key(self@)
    }

    /// Parses a key from its string form; fails with a typed error carrying
    /// the parser's message on malformed input.
    ///
    /// The last clause is the identifier round-trip law: a canonical string
    /// parses to a key whose string form (see `serialize`) is that string.
    pub fn parse(s: &str) -> (r: Result<StorageKey, BoundaryError>)
        ensures
            r is Ok <==> key_norm(s@) is Some,
            r matches Ok(k) ==> k.wf() && Some(k@) == key_norm(s@),
            r matches Err(e) ==> e is InvalidKey && e.message_spec().len() > 0,
            is_canonical_key(s@) ==> (r matches Ok(k) && k@ == s@),
    {
        match normalize_key(s) {
            Ok(t) => Ok(StorageKey { text: t }),
            Err(m) => Err(BoundaryError::InvalidKey(m)),
        }
    }

    /// Serializes the key back to its canonical string form.
    pub fn serialize(&self) -> (r: String)
        ensures
            r@ == self@,
    {
        self.text.clone()
    }
}

/// What a string envelope names as a key: nothing when it does not carry
/// valid text, otherwise whatever its text parses to.
pub open spec fn envelope_key(content: Seq<u8>) -> Option<Seq<char>> {
    if valid_utf8(content) {
        key_norm(decode_utf8(content))
    } else {
        None
    }
}

impl RustString {
    /// Parses the carried text as a storage key: the typed encoding error
    /// when the envelope does not carry valid text, the typed key error when
    /// the text is not a well-formed identifier.
    pub fn to_key(&self) -> (r: Result<StorageKey, BoundaryError>)
        requires
            !self.is_released(),
        ensures
            r is Ok <==> envelope_key(self.spec_content()) is Some,
            r matches Ok(k) ==> k.wf() && Some(k@) == envelope_key(self.spec_content()),
            !valid_utf8(self.spec_content()) ==> (r matches Err(e) && e is InvalidEncoding),
            valid_utf8(self.spec_content()) && key_norm(decode_utf8(self.spec_content())) is None
                ==> (r matches Err(e) && e is InvalidKey && e.message_spec().len() > 0),
    {
        match self.decode() {
            Ok(s) => StorageKey::parse(s.as_str()),
            Err(e) => Err(e),
        }
    }
}

} // verus!
