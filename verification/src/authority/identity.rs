//! Caller identities: the significant bytes of a principal.

use vstd::prelude::*;

verus! {

/// The most bytes that a principal has.
pub const MAX_IDENTITY_BYTES: usize = 29;

/// An already-authenticated caller identity, held as the principal's bytes:
/// at most `MAX_IDENTITY_BYTES` of them.
#[derive(Debug)]
pub struct Identity {
    bytes: Vec<u8>,
}

impl View for Identity {
    type V = Seq<u8>;

    closed spec fn view(&self) -> Seq<u8> {
        self.bytes@
    }
}

/// The bytes of the anonymous identity: the single tag byte 4.
pub open spec fn anonymous_bytes() -> Seq<u8> {
    seq![4u8]
}

/// What `candid::Principal::from_text` makes of a text: the bytes of the
/// principal it parses to, or `None` where it rejects the text.
pub uninterp spec fn principal_text_bytes(text: Seq<char>) -> Option<Seq<u8>>;

/// Calls `candid::Principal::anonymous` and hands out its significant bytes.
/// Trusted: that principal has length 1 and holds the anonymous tag, 4.
#[verifier::external_body]
fn anonymous_principal() -> (bytes: Vec<u8>)
    ensures
        bytes@ == anonymous_bytes(),
{
    candid::Principal::anonymous().as_slice().to_vec()
}

/// Calls `candid::Principal::from_text`. Trusted: the outcome is a function
/// of the text alone, named `principal_text_bytes`; a principal has at most
/// `MAX_IDENTITY_BYTES` bytes; an error becomes `None`.
#[verifier::external_body]
fn principal_from_text(text: &str) -> (parsed: Option<Vec<u8>>)
    ensures
        match parsed {
            Some(bytes) => principal_text_bytes(text@) == Some(bytes@) && bytes@.len()
                <= MAX_IDENTITY_BYTES,
            None => principal_text_bytes(text@).is_none(),
        },
{
    match candid::Principal::from_text(text) {
        Ok(principal) => Some(principal.as_slice().to_vec()),
        Err(_) => None,
    }
}

/// Whether two byte vectors hold the same bytes.
pub fn same_bytes(a: &Vec<u8>, b: &Vec<u8>) -> (r: bool)
    ensures
        r == (a@ == b@),
{
    if a.len() != b.len() {
        return false;
    }
    let mut i: usize = 0;
    while i < a.len()
        invariant
            i <= a.len(),
            a.len() == b.len(),
            forall|j: int| 0 <= j < i ==> a@[j] == b@[j],
        decreases a.len() - i,
    {
        if a[i] != b[i] {
            return false;
        }
        i += 1;
    }
    proof {
        assert(a@ =~= b@);
    }
    true
}

/// A copy of a byte vector.
pub fn copy_bytes(a: &Vec<u8>) -> (r: Vec<u8>)
    ensures
        r@ == a@,
{
    let mut out: Vec<u8> = Vec::new();
    let mut i: usize = 0;
    while i < a.len()
        invariant
            i <= a.len(),
            out@ == a@.subrange(0, i as int),
        decreases a.len() - i,
    {
        out.push(a[i]);
        i += 1;
        proof {
            assert(out@ =~= a@.subrange(0, i as int));
        }
    }
    proof {
        assert(a@.subrange(0, a.len() as int) =~= a@);
    }
    out
}

impl Identity {
    #[verifier::type_invariant]
    spec fn bounded(self) -> bool {
        self.bytes@.len() <= MAX_IDENTITY_BYTES
    }

    /// The identity that stands for "no caller".
    pub fn anonymous() -> (r: Identity)
        ensures
            r@ == anonymous_bytes(),
    {
        Identity { bytes: anonymous_principal() }
    }

    /// The identity with the given bytes; `None` where they are more than a
    /// principal has.
    pub fn from_bytes(bytes: Vec<u8>) -> (r: Option<Identity>)
        ensures
            match r {
                Some(identity) => identity@ == bytes@ && bytes@.len() <= MAX_IDENTITY_BYTES,
                None => bytes@.len() > MAX_IDENTITY_BYTES,
            },
    {
        if bytes.len() <= MAX_IDENTITY_BYTES {
            Some(Identity { bytes })
        } else {
            None
        }
    }

    /// The bytes of the identity.
    pub fn as_bytes(&self) -> (r: &Vec<u8>)
        ensures
            r@ == self@,
            r@.len() <= MAX_IDENTITY_BYTES,
    {
        proof {
            use_type_invariant(self);
        }
        &self.bytes
    }

    /// Whether this is the anonymous identity.
    pub fn is_anonymous(&self) -> (r: bool)
        ensures
            r == (self@ == anonymous_bytes()),
    {
        let anonymous = anonymous_principal();
        same_bytes(&self.bytes, &anonymous)
    }

    /// Parses the textual form of a principal; `None` where the text is not
    /// one.
    pub fn from_text(text: &str) -> (r: Option<Identity>)
        ensures
            match r {
                Some(identity) => principal_text_bytes(text@) == Some(identity@),
                None => principal_text_bytes(text@).is_none(),
            },
    {
        match principal_from_text(text) {
            Some(bytes) => Some(Identity { bytes }),
            None => None,
        }
    }

    /// Parses the textual form of a principal, falling back to the anonymous
    /// identity where the text is not one.
    pub fn from_text_or_anonymous(text: &str) -> (r: Identity)
        ensures
            r@ == text_identity(text@),
    {
        match principal_from_text(text) {
            Some(bytes) => Identity { bytes },
            None => Identity::anonymous(),
        }
    }
}

/// The identity a text stands for, the anonymous one where it does not parse.
pub open spec fn text_identity(text: Seq<char>) -> Seq<u8> {
    match principal_text_bytes(text) {
        Some(bytes) => bytes,
        None => anonymous_bytes(),
    }
}

impl Clone for Identity {
    fn clone(&self) -> (r: Identity)
        ensures
            r@ == self@,
    {
        proof {
            use_type_invariant(self);
        }
        Identity { bytes: copy_bytes(&self.bytes) }
    }
}

impl PartialEq for Identity {
    fn eq(&self, other: &Identity) -> (r: bool) {
        same_bytes(&self.bytes, &other.bytes)
    }
}

impl Eq for Identity {

}

impl vstd::std_specs::cmp::PartialEqSpecImpl for Identity {
    open spec fn obeys_eq_spec() -> bool {
        true
    }

    open spec fn eq_spec(&self, other: &Identity) -> bool {
        self@ == other@
    }
}

} // verus!
