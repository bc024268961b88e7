//! Password-gated unlock of the signing session.
//!
//! The stored key material is a hex-encoded secret key behind a password.
//! Unlocking checks the entered password against the stored one, decodes
//! the hex, and derives the public identity from the key. File handling and
//! JSON stay outside; this module gets the stored fields as plain text.

use vstd::prelude::*;

verus! {

/// A hex digit, either case.
pub open spec fn is_hex_digit(c: char) -> bool {
    ||| 48 <= c as u32 <= 57
    ||| 97 <= c as u32 <= 102
    ||| 65 <= c as u32 <= 70
}

/// The value of a hex digit.
pub open spec fn hex_val(c: char) -> u8
    recommends
        is_hex_digit(c),
{
    if 48 <= c as u32 <= 57 {
        (c as u32 - 48) as u8
    } else if 97 <= c as u32 <= 102 {
        (c as u32 - 87) as u8
    } else {
        (c as u32 - 55) as u8
    }
}

/// Hex text of even length, digits only.
pub open spec fn valid_hex(s: Seq<char>) -> bool {
    &&& s.len() % 2 == 0
    &&& forall|i: int| 0 <= i < s.len() ==> is_hex_digit(#[trigger] s[i])
}

/// The bytes hex text encodes: two digits each, high first.
pub open spec fn hex_bytes(s: Seq<char>) -> Seq<u8>
    recommends
        valid_hex(s),
{
    Seq::new(
        (s.len() / 2) as nat,
        |i: int| ((hex_val(s[2 * i]) as u32 * 16 + hex_val(s[2 * i + 1]) as u32) as u8),
    )
}

#[verifier::external_type_specification]
#[verifier::external_body]
/// The hex crate's decoding error, carried through unread.
pub struct ExFromHexError(hex::FromHexError);

/// Relies on hex::decode: hex text of even length decodes to its bytes,
/// two digits (either case) per byte; any other text is refused. The call
/// works on the UTF-8 bytes of the text, but no byte of a multi-byte
/// character is ever a hex digit, so this holds character for character.
#[verifier::external_body]
fn hex_decode(s: &str) -> (r: Result<Vec<u8>, hex::FromHexError>)
    ensures
        (r is Ok) == valid_hex(s@),
        r matches Ok(v) ==> v@ == hex_bytes(s@),
{
    hex::decode(s)
}

/// The public identity that a given secret key derives to. The derivation
/// (a secp256k1 public key, rendered in bech32) depends on the key bytes
/// alone.
pub uninterp spec fn public_identity_of(secret: Seq<u8>) -> Seq<char>;

/// Whether the bytes are a valid secret key: 32 bytes forming a nonzero
/// secp256k1 scalar below the group order. Depends on the bytes alone.
pub uninterp spec fn is_valid_secret_key(secret: Seq<u8>) -> bool;

/// Relies on nostr's `SecretKey::from_slice` (accepts exactly the valid
/// 32-byte secp256k1 scalars), `Keys::new`, `Keys::public_key` and
/// `PublicKey::to_bech32` (infallible for a valid key): together they
/// derive the public identity as a function of the secret key bytes alone.
#[verifier::external_body]
fn derive_public_identity(secret: &[u8]) -> (r: Option<String>)
    ensures
        (r is Some) == is_valid_secret_key(secret@),
        secret@.len() != 32 ==> r is None,
        r matches Some(id) ==> id@ == public_identity_of(secret@),
{
    match nostr_sdk::prelude::SecretKey::from_slice(secret) {
        Ok(sk) => {
            let keys = nostr_sdk::prelude::Keys::new(sk);
            match nostr_sdk::prelude::ToBech32::to_bech32(&keys.public_key()) {
                Ok(id) => Some(id),
                Err(_) => None,
            }
        },
        Err(_) => None,
    }
}

/// Character-for-character equality of two texts.
pub fn str_equal(a: &str, b: &str) -> (r: bool)
    ensures
        r == (a@ == b@),
{
    let na = a.unicode_len();
    let nb = b.unicode_len();
    if na != nb {
        return false;
    }
    let mut i: usize = 0;
    while i < na
        invariant
            i <= na,
            na == a@.len(),
            na == b@.len(),
            forall|k: int| 0 <= k < i ==> a@[k] == b@[k],
        decreases na - i,
    {
        if a.get_char(i) != b.get_char(i) {
            return false;
        }
        i = i + 1;
    }
    proof {
        assert(a@ =~= b@);
    }
    true
}

/// An unlocked session: the signing key material, owned for the process
/// lifetime, and the public identity derived from it.
pub struct Session {
    /// The 32 secret key bytes.
    pub secret_key: Vec<u8>,
    /// The derived public identity text.
    pub public_identity: String,
}

impl Session {
    /// The key is valid and the identity is the one it derives to.
    pub open spec fn wf(&self) -> bool {
        &&& self.secret_key@.len() == 32
        &&& is_valid_secret_key(self.secret_key@)
        &&& self.public_identity@ == public_identity_of(self.secret_key@)
    }
}

/// Why an unlock was refused. Both are fatal at startup: the session is
/// never re-derived later.
#[derive(Clone, Copy, PartialEq, Eq, Structural, Debug)]
pub enum AuthError {
    /// The entered password is not the stored one.
    WrongPassword,
    /// The stored key material is not a valid hex-encoded secret key.
    MalformedKey,
}

/// Unlocks the session: the entered password must equal the stored one,
/// and the stored hex must decode to a valid secret key. The password is
/// checked first; each failure names its cause, and success returns the
/// key bytes with the identity they derive to.
pub fn unlock_session(stored_secret_hex: &str, stored_password: &str, entered_password: &str) -> (r:
    Result<Session, AuthError>)
    ensures
        (r == Err::<Session, AuthError>(AuthError::WrongPassword)) == (stored_password@
            != entered_password@),
        (r == Err::<Session, AuthError>(AuthError::MalformedKey)) == (stored_password@
            == entered_password@ && !(valid_hex(stored_secret_hex@) && is_valid_secret_key(
            hex_bytes(stored_secret_hex@),
        ))),
        (r is Ok) == (stored_password@ == entered_password@ && valid_hex(stored_secret_hex@)
            && is_valid_secret_key(hex_bytes(stored_secret_hex@))),
        r matches Ok(sess) ==> sess.wf() && sess.secret_key@ == hex_bytes(stored_secret_hex@)
            && sess.public_identity@ == public_identity_of(hex_bytes(stored_secret_hex@)),
{
    if !str_equal(stored_password, entered_password) {
        return Err(AuthError::WrongPassword);
    }
    let bytes = match hex_decode(stored_secret_hex) {
        Ok(b) => b,
        Err(_) => {
            return Err(AuthError::MalformedKey);
        },
    };
    match derive_public_identity(bytes.as_slice()) {
        Some(id) => Ok(Session { secret_key: bytes, public_identity: id }),
        None => Err(AuthError::MalformedKey),
    }
}

} // verus!
