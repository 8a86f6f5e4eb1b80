//! Key material: a peer's 32-byte public key, the daemon's or client's
//! 32-byte secret key, and the conversions between raw bytes, hex strings
//! and the two key types.

use vstd::prelude::*;

use crate::errors::ErrorKind;
use crate::hexfmt::{hex_bytes_decode, hex_chars_of, hex_decode, hex_encode, lemma_hex_round_trip};
use vstd::string::StringSliceAdditionalSpecFns;

verus! {

/// Whether 32 bytes are the compressed encoding of a valid ed25519 curve
/// point — the criterion `iroh_base::PublicKey::from_bytes` applies.
pub uninterp spec fn valid_public_key(bytes: Seq<u8>) -> bool;

/// The public key that belongs to 32 bytes of secret key material, as
/// `iroh_base::SecretKey::public` derives it.
pub uninterp spec fn public_key_of(secret: Seq<u8>) -> Seq<u8>;

/// Tests whether bytes are a valid public key.
///
/// Relies on `iroh_base::PublicKey::from_bytes`: it succeeds exactly when
/// the 32 bytes are a valid ed25519 curve point.
#[verifier::external_body]
fn check_public_key(bytes: &Vec<u8>) -> (r: bool)
    requires
        bytes@.len() == 32,
    ensures
        r == valid_public_key(bytes@),
{
    let arr: &[u8; 32] = bytes.as_slice().try_into().expect("length checked by caller");
    iroh_base::PublicKey::from_bytes(arr).is_ok()
}

/// Derives the public key of 32 bytes of secret key material.
///
/// Relies on `iroh_base::SecretKey::{from_bytes, public}`: the public key is
/// a function of the secret bytes alone, and `PublicKey::from_bytes` never
/// fails on bytes that came from `PublicKey::as_bytes`.
#[verifier::external_body]
fn derive_public_key(secret: &Vec<u8>) -> (r: Vec<u8>)
    requires
        secret@.len() == 32,
    ensures
        r@ == public_key_of(secret@),
        r@.len() == 32,
        valid_public_key(r@),
{
    let arr: &[u8; 32] = secret.as_slice().try_into().expect("length checked by caller");
    iroh_base::SecretKey::from_bytes(arr).public().as_bytes().to_vec()
}

/// Draws 32 bytes of cryptographic randomness.
///
/// Relies on `rand_chacha::ChaCha20Rng` seeded from the operating system;
/// nothing is promised of the values.
#[verifier::external_body]
fn random_key_bytes() -> (r: Vec<u8>)
    ensures
        r@.len() == 32,
{
    let mut rng = <rand_chacha::ChaCha20Rng as rand_core::SeedableRng>::from_os_rng();
    let mut bytes = vec![0u8; 32];
    rand_core::RngCore::fill_bytes(&mut rng, &mut bytes);
    bytes
}

/// Conversion from exactly 32 bytes of raw key material.
pub trait Bytes32Convert: Sized {
    /// The key material a value of the type stands for.
    spec fn key_material(&self) -> Seq<u8>;

    /// Builds the key from raw bytes; only exactly 32 bytes are accepted.
    fn from_bytes_32(bytes: &[u8]) -> (r: Result<Self, ErrorKind>)
        ensures
            r matches Ok(k) ==> bytes@.len() == 32 && k.key_material() == bytes@,
    ;
}

/// Conversion between a key and the hex string that names it in
/// configuration files and CLI arguments.
pub trait HexConvert: Bytes32Convert {
    /// Parses a hex digit string, given as its ASCII bytes, into a key.
    fn try_from_hex(digits: &[u8]) -> (r: Result<Self, ErrorKind>)
        ensures
            r is Ok ==> hex_bytes_decode(digits@) == Some(r->Ok_0.key_material())
                && r->Ok_0.key_material().len() == 32,
    ;

    /// Renders the key as 64 lowercase hex digits.
    fn to_hex(&self) -> (r: String)
        ensures
            r@ == hex_chars_of(self.key_material()),
    ;
}

/// Copies a byte slice into an owned vector.
pub fn bytes_to_vec(bytes: &[u8]) -> (r: Vec<u8>)
    ensures
        r@ == bytes@,
{
    let mut out: Vec<u8> = Vec::new();
    let mut i: usize = 0;
    while i < bytes.len()
        invariant
            i <= bytes@.len(),
            out@ == bytes@.take(i as int),
        decreases bytes@.len() - i,
    {
        out.push(bytes[i]);
        proof {
            assert(bytes@.take(i + 1) =~= bytes@.take(i as int).push(bytes@[i as int]));
        }
        i = i + 1;
    }
    proof {
        assert(bytes@.take(bytes@.len() as int) =~= bytes@);
    }
    out
}

/// Whether a hex digit string decodes to 32 bytes of key material.
pub open spec fn decodes_to_key(digits: Seq<u8>) -> bool {
    match hex_bytes_decode(digits) {
        Some(b) => b.len() == 32,
        None => false,
    }
}

/// Whether a hex digit string decodes to 32 bytes that are a valid public
/// key.
pub open spec fn decodes_to_public_key(digits: Seq<u8>) -> bool {
    match hex_bytes_decode(digits) {
        Some(b) => b.len() == 32 && valid_public_key(b),
        None => false,
    }
}

/// A peer's identity: the 32 bytes of a valid ed25519 public key.
#[derive(Clone, Debug, PartialEq, Eq)]
pub struct PeerKey {
    bytes: Vec<u8>,
}

impl View for PeerKey {
    type V = Seq<u8>;

    closed spec fn view(&self) -> Seq<u8> {
        self.bytes@
    }
}

impl PeerKey {
    /// What every constructed `PeerKey` satisfies: 32 bytes that are a valid
    /// curve point.
    pub open spec fn wf(&self) -> bool {
        self@.len() == 32 && valid_public_key(self@)
    }

    /// The raw 32 bytes of the key.
    pub fn to_bytes_32(&self) -> (r: &Vec<u8>)
        ensures
            r@ == self@,
    {
        &self.bytes
    }

    /// Whether two peer keys name the same peer.
    pub fn matches(&self, other: &PeerKey) -> (r: bool)
        ensures
            r == (self@ == other@),
    {
        bytes_eq(&self.bytes, &other.bytes)
    }
}

impl Bytes32Convert for PeerKey {
    open spec fn key_material(&self) -> Seq<u8> {
        self@
    }

    /// Accepts exactly 32 bytes that are a valid public key; any other
    /// input is a configuration error.
    fn from_bytes_32(bytes: &[u8]) -> (r: Result<Self, ErrorKind>)
        ensures
            r matches Ok(k) ==> k@ == bytes@ && k.wf(),
            r is Ok <==> bytes@.len() == 32 && valid_public_key(bytes@),
            r is Err ==> r == Err::<Self, ErrorKind>(ErrorKind::Config),
    {
        if bytes.len() != 32 {
            return Err(ErrorKind::Config);
        }
        let owned = bytes_to_vec(bytes);
        if !check_public_key(&owned) {
            return Err(ErrorKind::Config);
        }
        Ok(PeerKey { bytes: owned })
    }
}

impl HexConvert for PeerKey {
    /// Accepts exactly 64 hex digits that decode to a valid public key.
    fn try_from_hex(digits: &[u8]) -> (r: Result<Self, ErrorKind>)
        ensures
            r is Ok ==> hex_bytes_decode(digits@) == Some(r->Ok_0@) && r->Ok_0.wf(),
            r is Ok <==> decodes_to_public_key(digits@),
            r is Err ==> r == Err::<Self, ErrorKind>(ErrorKind::Config),
    {
        match hex_decode(digits) {
            Some(bytes) => Self::from_bytes_32(bytes.as_slice()),
            None => Err(ErrorKind::Config),
        }
    }

    fn to_hex(&self) -> (r: String)
        ensures
            r@ == hex_chars_of(self@),
    {
        hex_encode(self.bytes.as_slice())
    }
}

/// A secret key as its raw 32 bytes; every 32-byte value is a usable
/// ed25519 seed.
#[derive(Clone, Debug, PartialEq, Eq)]
pub struct SecretKeyBytes {
    bytes: Vec<u8>,
}

impl View for SecretKeyBytes {
    type V = Seq<u8>;

    closed spec fn view(&self) -> Seq<u8> {
        self.bytes@
    }
}

impl SecretKeyBytes {
    /// What every constructed `SecretKeyBytes` satisfies.
    pub open spec fn wf(&self) -> bool {
        self@.len() == 32
    }

    /// The raw 32 bytes of the key, as stored in a secret key file.
    pub fn to_bytes_32(&self) -> (r: &Vec<u8>)
        ensures
            r@ == self@,
    {
        &self.bytes
    }

    /// The public key this secret key authenticates as.
    pub fn public_key(&self) -> (r: PeerKey)
        requires
            self.wf(),
        ensures
            r@ == public_key_of(self@),
            r.wf(),
    {
        PeerKey { bytes: derive_public_key(&self.bytes) }
    }
}

impl Bytes32Convert for SecretKeyBytes {
    open spec fn key_material(&self) -> Seq<u8> {
        self@
    }

    /// Accepts exactly 32 bytes; any other length is a configuration error.
    fn from_bytes_32(bytes: &[u8]) -> (r: Result<Self, ErrorKind>)
        ensures
            r matches Ok(k) ==> k@ == bytes@ && k.wf(),
            r is Ok <==> bytes@.len() == 32,
            r is Err ==> r == Err::<Self, ErrorKind>(ErrorKind::Config),
    {
        if bytes.len() != 32 {
            return Err(ErrorKind::Config);
        }
        Ok(SecretKeyBytes { bytes: bytes_to_vec(bytes) })
    }
}

impl HexConvert for SecretKeyBytes {
    /// Accepts exactly 64 hex digits.
    fn try_from_hex(digits: &[u8]) -> (r: Result<Self, ErrorKind>)
        ensures
            r is Ok ==> hex_bytes_decode(digits@) == Some(r->Ok_0@) && r->Ok_0.wf(),
            r is Ok <==> decodes_to_key(digits@),
            r is Err ==> r == Err::<Self, ErrorKind>(ErrorKind::Config),
    {
        match hex_decode(digits) {
            Some(bytes) => Self::from_bytes_32(bytes.as_slice()),
            None => Err(ErrorKind::Config),
        }
    }

    fn to_hex(&self) -> (r: String)
        ensures
            r@ == hex_chars_of(self@),
    {
        hex_encode(self.bytes.as_slice())
    }
}

/// Draws a fresh random secret key.
pub fn generate_secret_key() -> (r: SecretKeyBytes)
    ensures
        r.wf(),
{
    SecretKeyBytes { bytes: random_key_bytes() }
}

/// Resolves the secret key from whichever source is given: a hex string
/// first, else the raw contents of a key file, else a freshly generated key.
pub fn any_secret_key(hex_input: Option<&str>, file_bytes: Option<&Vec<u8>>) -> (r: Result<
    SecretKeyBytes,
    ErrorKind,
>)
    ensures
        r is Ok ==> r->Ok_0.wf(),
        hex_input is Some ==> (r is Ok <==> decodes_to_key(hex_input->Some_0.spec_bytes())),
        hex_input is Some && r is Ok ==> hex_bytes_decode(hex_input->Some_0.spec_bytes()) == Some(
            r->Ok_0@,
        ),
        hex_input is None && file_bytes is Some ==> (r is Ok <==> file_bytes->Some_0@.len() == 32),
        hex_input is None && file_bytes is Some && r is Ok ==> r->Ok_0@ == file_bytes->Some_0@,
        hex_input is None && file_bytes is None ==> r is Ok,
        r is Err ==> r == Err::<SecretKeyBytes, ErrorKind>(ErrorKind::Config),
{
    if let Some(hex_input) = hex_input {
        return SecretKeyBytes::try_from_hex(hex_input.as_bytes());
    }
    if let Some(file) = file_bytes {
        return SecretKeyBytes::from_bytes_32(file.as_slice());
    }
    Ok(generate_secret_key())
}

/// Byte-for-byte equality of two byte vectors.
pub fn bytes_eq(a: &Vec<u8>, b: &Vec<u8>) -> (r: bool)
    ensures
        r == (a@ == b@),
{
    if a.len() != b.len() {
        return false;
    }
    let mut i: usize = 0;
    while i < a.len()
        invariant
            i <= a@.len(),
            a@.len() == b@.len(),
            forall|j: int| 0 <= j < i ==> a@[j] == b@[j],
        decreases a@.len() - i,
    {
        if a[i] != b[i] {
            return false;
        }
        i = i + 1;
    }
    proof {
        assert(a@ =~= b@);
    }
    true
}

/// A secret key survives the trip through its hex rendering: decoding the
/// 64 digits of `to_hex` gives back exactly the key's bytes.
pub proof fn lemma_secret_key_hex_round_trip(key_bytes: Seq<u8>)
    requires
        key_bytes.len() == 32,
    ensures
        hex_bytes_decode(hex_chars_of(key_bytes).map_values(|c: char| c as u8)) == Some(key_bytes),
        hex_chars_of(key_bytes).len() == 64,
{
    lemma_hex_round_trip(key_bytes);
}

/// The round trip run for real: renders the key as hex and parses the hex
/// back, always recovering a key with exactly the original's bytes.
pub fn secret_key_hex_round_trip(key: &SecretKeyBytes) -> (r: Result<SecretKeyBytes, ErrorKind>)
    requires
        key.wf(),
    ensures
        r is Ok && r->Ok_0@ == key@,
{
    let rendered = key.to_hex();
    let rendered_str = rendered.as_str();
    let digits = rendered_str.as_bytes();
    proof {
        lemma_hex_round_trip(key@);
        assert(vstd::utf8::is_ascii_chars(rendered_str@));
        vstd::string::is_ascii_spec_bytes(rendered_str);
        assert(digits@ =~= rendered@.map_values(|c: char| c as u8)) by {
            assert(digits@ =~= Seq::new(rendered@.len(), |i: int| rendered@.index(i) as u8));
        }
    }
    SecretKeyBytes::try_from_hex(digits)
}

} // verus!
