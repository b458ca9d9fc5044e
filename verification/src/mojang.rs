//! The hash that binds a login to this server at the session service.

use vstd::prelude::*;
use vstd::string::{StringExecFns, StringSliceAdditionalSpecFns};
use vstd::utf8::encode_utf8;
use num_bigint::BigInt;
use sha1::{Digest, Sha1};
use crate::fixed::{be_value, byte_span};

verus! {

/// Bytes in a SHA-1 digest.
pub const DIGEST_LENGTH: usize = 20;

/// The SHA-1 digest of `data`.
pub uninterp spec fn sha1_digest(data: Seq<u8>) -> Seq<u8>;

/// `Digest::digest` of `sha1::Sha1`: the SHA-1 digest of `data`, which has
/// twenty bytes.
#[verifier::external_body]
fn sha1(data: &[u8]) -> (out: Vec<u8>)
    ensures
        out@ == sha1_digest(data@),
        out@.len() == DIGEST_LENGTH,
{
    Sha1::digest(data).to_vec()
}

/// The integer that `bytes` spell in big-endian two's complement; no bytes
/// spell zero.
pub open spec fn twos_complement(bytes: Seq<u8>) -> int {
    if bytes.len() > 0 && bytes[0] >= 0x80 {
        be_value(bytes) - byte_span(bytes.len())
    } else {
        be_value(bytes) as int
    }
}

/// The lower-case hexadecimal digit for a value below sixteen.
pub open spec fn hex_digit(d: nat) -> char
    recommends
        d < 16,
{
    if d < 10 {
        ('0' as nat + d) as char
    } else {
        ('a' as nat + d - 10) as char
    }
}

/// The hexadecimal digits of `n`, without leading zeros; one zero for zero.
pub open spec fn hex_digits(n: nat) -> Seq<char>
    decreases n,
{
    if n < 16 {
        seq![hex_digit(n)]
    } else {
        hex_digits(n / 16).push(hex_digit(n % 16))
    }
}

/// The signed hexadecimal rendering of a two's-complement integer: a minus
/// sign for a negative value, then the digits of its magnitude.
pub open spec fn signed_hex(bytes: Seq<u8>) -> Seq<char> {
    let v = twos_complement(bytes);
    if v < 0 {
        seq!['-'] + hex_digits((-v) as nat)
    } else {
        hex_digits(v as nat)
    }
}

/// `BigInt::from_signed_bytes_be` of `num_bigint`, formatted with `{:x}`:
/// the bytes read as a big-endian two's-complement integer, and that
/// integer in lower-case hexadecimal with a minus sign when it is negative.
#[verifier::external_body]
fn hex_of_signed_bytes(bytes: &[u8]) -> (out: String)
    ensures
        out@ == signed_hex(bytes@),
{
    format!("{:x}", BigInt::from_signed_bytes_be(bytes))
}

/// The hash that the session service knows a login by: the signed
/// hexadecimal rendering of the SHA-1 digest of the server id, the shared
/// secret and the encoded public key, in this order.
pub open spec fn session_hash(
    server_id: Seq<char>,
    shared_secret: Seq<u8>,
    encoded_public_key: Seq<u8>,
) -> Seq<char> {
    signed_hex(sha1_digest(encode_utf8(server_id) + shared_secret + encoded_public_key))
}

/// Computes the hash that the session service knows a login by.
pub fn hash(server_id: &str, shared_secret: &[u8], encoded_public_key: &[u8]) -> (out: String)
    ensures
        out@ == session_hash(server_id@, shared_secret@, encoded_public_key@),
{
    let mut input: Vec<u8> = Vec::new();
    input.extend_from_slice(server_id.as_bytes());
    input.extend_from_slice(shared_secret);
    input.extend_from_slice(encoded_public_key);
    assert(input@ =~= encode_utf8(server_id@) + shared_secret@ + encoded_public_key@);
    let digest = sha1(input.as_slice());
    hex_of_signed_bytes(digest.as_slice())
}

/// Where the session service answers whether a player has joined.
pub const AUTH_BASE_URL: &'static str =
    "https://sessionserver.mojang.com/session/minecraft/hasJoined";

/// The status code with which the session service says yes.
pub const STATUS_OK: u16 = 200;

/// Why a login could not be checked with the session service.
#[derive(Debug, Clone, Copy, PartialEq, Eq, Structural)]
pub enum AuthenticationError {
    /// The service did not confirm the session.
    InvalidSession,
    /// The service could not be reached.
    Request,
    /// The answer of the service could not be read.
    Deserialization,
}

/// A property of a player as the session service reports it, such as the
/// textures of the skin.
#[derive(Debug, Clone, PartialEq, Eq)]
pub struct PlayerProperty {
    pub name: String,
    pub value: String,
    pub signature: Option<String>,
}

/// What the session service knows of a player who has joined.
#[derive(Debug, Clone, PartialEq, Eq)]
pub struct AuthenticationResponse {
    pub id: u128,
    pub properties: Vec<PlayerProperty>,
}

/// The address that asks the session service about a player and a hash.
pub open spec fn auth_url_text(username: Seq<char>, server_hash: Seq<char>) -> Seq<char> {
    AUTH_BASE_URL@ + "?username="@ + username + "&serverId="@ + server_hash
}

/// Builds the address that asks the session service about a player and a
/// hash.
pub fn auth_url(username: &str, server_hash: &str) -> (url: String)
    ensures
        url@ == auth_url_text(username@, server_hash@),
{
    let mut url = String::from_str(AUTH_BASE_URL);
    url.append("?username=");
    url.append(username);
    url.append("&serverId=");
    url.append(server_hash);
    url
}

/// Builds the address that asks the session service whether `username` has
/// joined this server.
pub fn session_query(
    server_id: &str,
    shared_secret: &[u8],
    encoded_public_key: &[u8],
    username: &str,
) -> (url: String)
    ensures
        url@ == auth_url_text(
            username@,
            session_hash(server_id@, shared_secret@, encoded_public_key@),
        ),
{
    let server_hash = hash(server_id, shared_secret, encoded_public_key);
    auth_url(username, server_hash.as_str())
}

/// Reads the status code of the session service: every code but 200 means
/// that the session is not valid.
pub fn check_status(status: u16) -> (res: Result<(), AuthenticationError>)
    ensures
        status == STATUS_OK ==> res.is_ok(),
        status != STATUS_OK ==> res == Err::<(), AuthenticationError>(
            AuthenticationError::InvalidSession,
        ),
{
    if status != STATUS_OK {
        Err(AuthenticationError::InvalidSession)
    } else {
        Ok(())
    }
}

} // verus!
