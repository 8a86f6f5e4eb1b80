//! The wire protocol above the transport's bi-stream: the protocol
//! identifier, the one handshake exchange (a little-endian u16 length prefix,
//! the encoded session options, then the fixed welcome token), and the
//! session options themselves.

use vstd::prelude::*;

use crate::errors::ErrorKind;

verus! {

/// Hard cap on the encoded session options, in bytes. A declared length
/// above this closes the connection.
pub const OPT_MAX_LEN: u16 = 4096;

/// The session options a client sends, one frame per session. Every field
/// is optional; the server fills in its own defaults.
#[derive(Clone, Debug, PartialEq, Eq)]
pub struct ClientOpt {
    /// The shell executable to run; must be on the server's allow-list.
    pub shell: Option<String>,
    /// The working directory for the shell.
    pub cwd: Option<String>,
    /// The terminal type to announce to the shell via `TERM`.
    pub term: Option<String>,
}

impl Default for ClientOpt {
    /// The empty options: the server decides everything.
    fn default() -> (r: Self)
        ensures
            r.shell is None && r.cwd is None && r.term is None,
    {
        ClientOpt { shell: None, cwd: None, term: None }
    }
}

/// The protocol identifier announced to the transport, the ASCII bytes of
/// `p2term-proto`.
pub open spec fn alpn_bytes() -> Seq<u8> {
    seq![112u8, 50, 116, 101, 114, 109, 45, 112, 114, 111, 116, 111]
}

/// The welcome token the server writes after a good options frame: the
/// 8 ASCII bytes of `welcome ` (trailing space included).
pub open spec fn welcome_bytes() -> Seq<u8> {
    seq![119u8, 101, 108, 99, 111, 109, 101, 32]
}

/// The default terminal type when the client names none.
pub open spec fn default_term_str() -> Seq<char> {
    "xterm-256color"@
}

/// The protocol identifier as owned bytes.
pub fn alpn() -> (r: Vec<u8>)
    ensures
        r@ == alpn_bytes(),
{
    let mut v: Vec<u8> = Vec::new();
    v.push(112);
    v.push(50);
    v.push(116);
    v.push(101);
    v.push(114);
    v.push(109);
    v.push(45);
    v.push(112);
    v.push(114);
    v.push(111);
    v.push(116);
    v.push(111);
    proof {
        assert(v@ =~= alpn_bytes());
    }
    v
}

/// The welcome token as owned bytes.
pub fn welcome_token() -> (r: Vec<u8>)
    ensures
        r@ == welcome_bytes(),
{
    let mut v: Vec<u8> = Vec::new();
    v.push(119);
    v.push(101);
    v.push(108);
    v.push(99);
    v.push(111);
    v.push(109);
    v.push(101);
    v.push(32);
    proof {
        assert(v@ =~= welcome_bytes());
    }
    v
}

/// The default terminal type as an owned string.
pub fn default_term() -> (r: String)
    ensures
        r@ == default_term_str(),
{
    String::from_str("xterm-256color")
}

/// The two-byte little-endian rendering of a length.
pub open spec fn le16_bytes(n: u16) -> Seq<u8> {
    seq![(n % 256) as u8, (n / 256) as u8]
}

/// The length two little-endian bytes declare.
pub open spec fn u16_from_le(b0: u8, b1: u8) -> u16 {
    (b0 + 256 * b1) as u16
}

/// A length survives the trip through its two-byte rendering, and two bytes
/// survive the trip through the length they declare.
pub proof fn lemma_le16_round_trip(n: u16, b0: u8, b1: u8)
    ensures
        u16_from_le((n % 256) as u8, (n / 256) as u8) == n,
        le16_bytes(u16_from_le(b0, b1)) == seq![b0, b1],
{
    assert(n % 256 + 256 * (n / 256) == n) by (nonlinear_arith);
    let m = (b0 + 256 * b1) as u16;
    assert(m % 256 == b0 && m / 256 == b1) by (nonlinear_arith)
        requires
            m == b0 + 256 * b1 && b0 < 256 && b1 < 256,
    ;
    assert(le16_bytes(m) =~= seq![b0, b1]);
}

/// Reads the length that a two-byte little-endian prefix declares.
pub fn parse_len_prefix(b0: u8, b1: u8) -> (r: u16)
    ensures
        r == u16_from_le(b0, b1),
{
    b0 as u16 + 256 * (b1 as u16)
}

/// Checks a declared options length against the cap: over [`OPT_MAX_LEN`]
/// the handshake fails as oversize.
pub fn validate_options_len(len: u16) -> (r: Result<(), ErrorKind>)
    ensures
        r is Ok <==> len <= OPT_MAX_LEN,
        r is Err ==> r == Err::<(), ErrorKind>(ErrorKind::HandshakeOversize),
{
    if len <= OPT_MAX_LEN {
        Ok(())
    } else {
        Err(ErrorKind::HandshakeOversize)
    }
}

/// Builds the one client→server handshake frame: the payload's length as a
/// little-endian u16, then the payload. A payload over the [`OPT_MAX_LEN`]
/// cap is refused as oversize before anything reaches the wire — a
/// conforming server would close on it anyway.
///
/// The prefix and the payload stand in one buffer here; the caller must
/// still write them as ordinary sequential writes (some transports coalesce
/// only the first buffer of a vectored write).
pub fn encode_options_frame(payload: &Vec<u8>) -> (r: Result<Vec<u8>, ErrorKind>)
    ensures
        r is Ok <==> payload@.len() <= OPT_MAX_LEN,
        r is Ok ==> r->Ok_0@ == le16_bytes(payload@.len() as u16) + payload@,
        r is Err ==> r == Err::<Vec<u8>, ErrorKind>(ErrorKind::HandshakeOversize),
{
    if payload.len() > OPT_MAX_LEN as usize {
        return Err(ErrorKind::HandshakeOversize);
    }
    let len: u16 = payload.len() as u16;
    let mut frame: Vec<u8> = Vec::new();
    frame.push((len % 256) as u8);
    frame.push((len / 256) as u8);
    let mut i: usize = 0;
    while i < payload.len()
        invariant
            i <= payload@.len(),
            payload@.len() <= OPT_MAX_LEN,
            len == payload@.len() as u16,
            frame@ == le16_bytes(len) + payload@.take(i as int),
        decreases payload@.len() - i,
    {
        frame.push(payload[i]);
        proof {
            assert(le16_bytes(len) + payload@.take(i + 1) =~= (le16_bytes(len) + payload@.take(
                i as int,
            )).push(payload@[i as int]));
        }
        i = i + 1;
    }
    proof {
        assert(payload@.take(payload@.len() as int) =~= payload@);
    }
    Ok(frame)
}

/// Whether a received 8-byte reply is exactly the welcome token.
pub fn check_welcome(buf: &Vec<u8>) -> (r: bool)
    ensures
        r == (buf@ == welcome_bytes()),
{
    let expected = welcome_token();
    crate::keys::bytes_eq(buf, &expected)
}

/// The client's side of the welcome: the handshake succeeded exactly when a
/// reply arrived and it is the welcome token, byte for byte.
pub fn confirm_welcome(reply: Option<&Vec<u8>>) -> (r: Result<(), ErrorKind>)
    ensures
        r is Ok <==> reply is Some && reply->Some_0@ == welcome_bytes(),
        r is Err ==> r == Err::<(), ErrorKind>(ErrorKind::HandshakeNoWelcome),
{
    match reply {
        Some(buf) => {
            if check_welcome(buf) {
                Ok(())
            } else {
                Err(ErrorKind::HandshakeNoWelcome)
            }
        },
        None => Err(ErrorKind::HandshakeNoWelcome),
    }
}

} // verus!
