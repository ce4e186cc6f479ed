//! The local endpoint that the desktop application and its relay meet on.

use base64::engine::general_purpose::URL_SAFE_NO_PAD;
use base64::Engine;
use sha2::Digest;
use vstd::prelude::*;
use vstd::string::*;
use vstd::utf8::*;

pub mod client;
pub mod exchange;
pub mod server;

verus! {

/// The size of the buffer that each read of a connection draws into: no read
/// gives more bytes than this.
pub const READ_BUFFER_SIZE: usize = 8192;

/// Why a connection was given up.
#[derive(Debug, Clone, Copy, PartialEq, Eq, Structural)]
pub enum CloseReason {
    /// A read gave no bytes: the peer closed the connection.
    PeerClosed,
    /// A read failed.
    ReadError,
}

/// The SHA-256 digest of a byte string, as the `sha2` crate computes it.
pub uninterp spec fn sha256_digest(data: Seq<u8>) -> Seq<u8>;

/// The URL-safe base64 text of a byte string, without padding, as the `base64`
/// crate's `URL_SAFE_NO_PAD` engine writes it.
pub uninterp spec fn base64url_unpadded(data: Seq<u8>) -> Seq<char>;

/// Calls `sha2::Sha256::digest`. Trusted: the result is the digest of exactly
/// the bytes given and is 32 bytes long, the output size of SHA-256.
#[verifier::external_body]
fn sha256(data: &[u8]) -> (digest: Vec<u8>)
    ensures
        digest@ == sha256_digest(data@),
        digest@.len() == 32,
{
    sha2::Sha256::digest(data).to_vec()
}

/// Calls `Engine::encode` on `base64::engine::general_purpose::URL_SAFE_NO_PAD`.
/// Trusted: the result is the unpadded URL-safe base64 text of exactly the bytes
/// given. The engine panics when the encoded length does not fit in `usize`;
/// the precondition keeps clear of that.
#[verifier::external_body]
fn base64url(data: &[u8]) -> (text: String)
    requires
        4 * (data@.len() / 3) + 3 <= usize::MAX,
    ensures
        text@ == base64url_unpadded(data@),
{
    URL_SAFE_NO_PAD.encode(data)
}

/// The text that `String::from_utf8_lossy` makes of a byte string, in which each
/// invalid sequence is replaced.
pub uninterp spec fn lossy_text(bytes: Seq<u8>) -> Seq<char>;

/// The lenient decoding of a byte string: its decoding where it is valid
/// UTF-8, and otherwise the text in which each invalid sequence is replaced.
pub open spec fn lenient_text(bytes: Seq<u8>) -> Seq<char> {
    if valid_utf8(bytes) {
        decode_utf8(bytes)
    } else {
        lossy_text(bytes)
    }
}

/// Calls `std::str::from_utf8` and copies the text it returns. Trusted: the
/// call succeeds exactly on valid UTF-8, and the text is then the decoding of
/// the bytes.
#[verifier::external_body]
pub(crate) fn decode_strict(bytes: &[u8]) -> (text: Option<String>)
    ensures
        text is Some <==> valid_utf8(bytes@),
        text is Some ==> text->0@ == decode_utf8(bytes@),
{
    match std::str::from_utf8(bytes) {
        Ok(text) => Some(text.to_owned()),
        Err(_) => None,
    }
}

/// Calls `String::from_utf8_lossy`. Trusted: on valid UTF-8 the result is the
/// decoding of the bytes, and otherwise it is a function of the bytes alone.
#[verifier::external_body]
pub(crate) fn decode_lossy(bytes: &[u8]) -> (text: String)
    ensures
        text@ == (if valid_utf8(bytes@) {
            decode_utf8(bytes@)
        } else {
            lossy_text(bytes@)
        }),
{
    String::from_utf8_lossy(bytes).into_owned()
}

/// The pipe namespace that every per-user pipe name starts with.
pub open spec fn pipe_namespace() -> Seq<char> {
    seq!['\\', '\\', '.', '\\', 'p', 'i', 'p', 'e', '\\']
}

/// The file name prefix of every endpoint.
pub open spec fn endpoint_prefix() -> Seq<char> {
    seq!['a', 'p', 'p', '.']
}

/// The per-user pipe name: the pipe namespace, the hash of the home directory
/// in base64, and `app.` followed by the logical name.
pub open spec fn pipe_address(name: Seq<char>, home: Seq<char>) -> Seq<char> {
    pipe_namespace() + base64url_unpadded(sha256_digest(encode_utf8(home))) + endpoint_prefix()
        + name
}

/// A directory with one more component adjoined: a separator is put between
/// the two unless the directory is empty or already ends in one.
pub open spec fn adjoin(dir: Seq<char>, component: Seq<char>) -> Seq<char> {
    if dir.len() == 0 || dir.last() == '/' {
        dir + component
    } else {
        dir + seq!['/'] + component
    }
}

/// The socket path: the file `app.<name>` in the directory `tmp` under the home
/// directory.
pub open spec fn socket_address(name: Seq<char>, home: Seq<char>) -> Seq<char> {
    adjoin(adjoin(home, seq!['t', 'm', 'p']), endpoint_prefix() + name)
}

/// The address of the endpoint for a logical channel name and a home
/// directory, on either platform family.
pub open spec fn endpoint_address(name: Seq<char>, home: Seq<char>, windows: bool) -> Seq<char> {
    if windows {
        pipe_address(name, home)
    } else {
        socket_address(name, home)
    }
}

/// Adjoins one component to a directory path.
fn join(dir: String, component: &str) -> (joined: String)
    ensures
        joined@ == adjoin(dir@, component@),
{
    let n = dir.as_str().unicode_len();
    let mut joined = dir;
    if n > 0 {
        let last = joined.as_str().get_char(n - 1);
        if last != '/' {
            joined.append("/");
            proof {
                reveal_strlit("/");
                assert("/"@ =~= seq!['/']);
            }
        }
    }
    joined.append(component);
    joined
}

/// The name of the pipe of a user whose home directory has the hash given, in
/// base64, for a logical channel name.
pub fn pipe_name(name: &str, home_hash: &str) -> (endpoint: String)
    ensures
        endpoint@ == pipe_namespace() + home_hash@ + endpoint_prefix() + name@,
{
    let mut endpoint = String::from_str("\\\\.\\pipe\\");
    endpoint.append(home_hash);
    endpoint.append("app.");
    endpoint.append(name);
    proof {
        reveal_strlit("\\\\.\\pipe\\");
        reveal_strlit("app.");
        assert("\\\\.\\pipe\\"@ =~= pipe_namespace());
        assert("app."@ =~= endpoint_prefix());
    }
    endpoint
}

/// The path of the socket for a logical channel name under a home directory.
pub fn socket_path(name: &str, home: &str) -> (endpoint: String)
    ensures
        endpoint@ == socket_address(name@, home@),
{
    let mut file = String::from_str("app.");
    file.append(name);
    proof {
        reveal_strlit("app.");
        reveal_strlit("tmp");
        assert("app."@ =~= endpoint_prefix());
        assert("tmp"@ =~= seq!['t', 'm', 'p']);
    }
    let dir = join(String::from_str(home), "tmp");
    join(dir, file.as_str())
}

/// Resolve the path to the IPC socket.
///
/// `home` is the operating user's home directory and `windows` says whether the
/// endpoint is a named pipe. Identical inputs always give the identical address.
pub fn path(name: &str, home: &str, windows: bool) -> (endpoint: String)
    ensures
        endpoint@ == endpoint_address(name@, home@, windows),
{
    if windows {
        // A unique pipe per user. Hashing keeps reserved characters and
        // overlong names out of the pipe namespace.
        let hash = sha256(home.as_bytes());
        let hash_b64 = base64url(hash.as_slice());
        pipe_name(name, hash_b64.as_str())
    } else {
        socket_path(name, home)
    }
}

} // verus!
