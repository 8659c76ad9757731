//! Addresses of servers behind a unix domain socket.
//!
//! Such an address carries the socket's path, written in hexadecimal, in the
//! place of the host: `unix://{hex of the path}:0{request path}`.

use vstd::prelude::*;
use vstd::string::*;
use vstd::utf8::{
    decode_utf8, encode_utf8, encode_utf8_decode_utf8, encode_utf8_valid_utf8,
    is_ascii_chars_encode_utf8, valid_utf8,
};
use crate::text::str_eq;

verus! {

/// The scheme of an address that names a unix domain socket.
pub open spec fn unix_scheme() -> Seq<char> {
    "unix"@
}

/// The lower-case hexadecimal digit for `n`, which is below 16.
pub open spec fn hex_digit(n: u8) -> char {
    if n < 10 {
        ((48 + n) as u8) as char
    } else {
        ((87 + n) as u8) as char
    }
}

/// `bytes` in lower-case hexadecimal, two digits for each byte, the high
/// half first.
pub open spec fn hex_text(bytes: Seq<u8>) -> Seq<char> {
    Seq::new(
        2 * bytes.len(),
        |i: int|
            if i % 2 == 0 {
                hex_digit(bytes[i / 2] / 16)
            } else {
                hex_digit(bytes[i / 2] % 16)
            },
    )
}

/// The value of the hexadecimal digit with character code `c`, of either
/// case.
pub open spec fn hex_value(c: u8) -> Option<u8> {
    if 48 <= c <= 57 {
        Some((c - 48) as u8)
    } else if 97 <= c <= 102 {
        Some((c - 87) as u8)
    } else if 65 <= c <= 70 {
        Some((c - 55) as u8)
    } else {
        None
    }
}

/// The bytes that the hexadecimal text `text` writes: there are some where
/// the length is even and every character is a hexadecimal digit.
pub open spec fn unhex(text: Seq<u8>) -> Option<Seq<u8>> {
    if text.len() % 2 == 0 && (forall|i: int|
        0 <= i < text.len() ==> (#[trigger] hex_value(text[i])).is_some()) {
        Some(
            Seq::new(
                text.len() / 2,
                |i: int|
                    (hex_value(text[2 * i]).unwrap() * 16 + hex_value(
                        text[2 * i + 1],
                    ).unwrap()) as u8,
            ),
        )
    } else {
        None
    }
}

/// The text that `String::from_utf8_lossy` gives for `bytes`.
pub uninterp spec fn utf8_lossy(bytes: Seq<u8>) -> Seq<char>;

/// `hex::encode`: each byte becomes two lower-case hexadecimal digits, the
/// high half first.
#[verifier::external_body]
fn hex_encode(data: &[u8]) -> (r: String)
    ensures
        r@ == hex_text(data@),
{
    hex::encode(data)
}

/// `hex::decode`: succeeds on a text of even length whose characters are all
/// hexadecimal digits of either case, and gives one byte for every two
/// digits, the high half first.
#[verifier::external_body]
fn hex_decode(text: &[u8]) -> (r: Option<Vec<u8>>)
    ensures
        match r {
            Some(bytes) => unhex(text@) == Some(bytes@),
            None => unhex(text@).is_none(),
        },
{
    hex::decode(text).ok()
}

/// `String::from_utf8_lossy`: the text of `bytes`, with a replacement
/// character for what is no valid UTF-8.  Valid UTF-8 is decoded as it is.
#[verifier::external_body]
fn lossy_text(bytes: &[u8]) -> (r: String)
    ensures
        r@ == utf8_lossy(bytes@),
        valid_utf8(bytes@) ==> r@ == decode_utf8(bytes@),
{
    String::from_utf8_lossy(bytes).into_owned()
}

/// The address of a request path at a server behind a unix domain socket.
#[derive(Debug)]
pub struct Uri {
    /// The whole address.
    pub encoded: String,
}

/// The address of `path` at the socket `socket`.
pub open spec fn socket_address(socket: Seq<char>, path: Seq<char>) -> Seq<char> {
    "unix://"@ + hex_text(encode_utf8(socket)) + ":0"@ + path
}

/// The text of `bytes`: what they encode where they are valid UTF-8, and
/// else the text with replacement characters.
pub open spec fn text_of(bytes: Seq<u8>) -> Seq<char> {
    if valid_utf8(bytes) {
        decode_utf8(bytes)
    } else {
        utf8_lossy(bytes)
    }
}

/// The socket path that the host part `host` of an address names: the text
/// of the bytes that the host writes in hexadecimal.
pub open spec fn socket_path(host: Seq<char>) -> Option<Seq<char>> {
    match unhex(encode_utf8(host)) {
        Some(bytes) => Some(text_of(bytes)),
        None => None,
    }
}

/// Reading back what was written in hexadecimal gives the bytes again.
pub proof fn lemma_hex_round_trip(bytes: Seq<u8>)
    ensures
        unhex(encode_utf8(hex_text(bytes))) == Some(bytes),
{
    let h = hex_text(bytes);
    assert forall|i: int| 0 <= i < h.len() implies '\0' <= #[trigger] h[i] <= '\u{7f}' by {
        lemma_hex_digit(bytes[i / 2] / 16);
        lemma_hex_digit(bytes[i / 2] % 16);
    }
    is_ascii_chars_encode_utf8(h);
    let e = encode_utf8(h);
    assert forall|i: int| 0 <= i < e.len() implies (#[trigger] hex_value(e[i])).is_some() by {
        lemma_hex_digit(bytes[i / 2] / 16);
        lemma_hex_digit(bytes[i / 2] % 16);
        assert(e[i] == h[i] as u8);
    }
    let back = unhex(e).unwrap();
    assert forall|i: int| 0 <= i < bytes.len() implies back[i] == bytes[i] by {
        lemma_hex_digit(bytes[i] / 16);
        lemma_hex_digit(bytes[i] % 16);
        assert(e[2 * i] == h[2 * i] as u8);
        assert(e[2 * i + 1] == h[2 * i + 1] as u8);
        assert((2 * i) / 2 == i && (2 * i + 1) / 2 == i);
    }
    assert(back =~= bytes);
}

/// A hexadecimal digit is an ASCII character that stands for its value.
proof fn lemma_hex_digit(n: u8)
    requires
        n < 16,
    ensures
        '\0' <= hex_digit(n) <= '\u{7f}',
        hex_value(hex_digit(n) as u8) == Some(n),
{
}

/// The host part of the address of a socket names that socket's path again.
pub proof fn lemma_socket_path_round_trip(socket: Seq<char>)
    ensures
        socket_path(hex_text(encode_utf8(socket))) == Some(socket),
{
    lemma_hex_round_trip(encode_utf8(socket));
    encode_utf8_valid_utf8(socket);
    encode_utf8_decode_utf8(socket);
}

impl Uri {
    /// The address of the request path `path`, which begins with a slash, at
    /// the socket with path `socket`.
    pub fn new(socket: &str, path: &str) -> (r: Uri)
        ensures
            r.encoded@ == socket_address(socket@, path@),
    {
        let host = hex_encode(socket.as_bytes());
        let mut encoded = String::from_str("unix://");
        encoded.append(host.as_str());
        encoded.append(":0");
        encoded.append(path);
        Uri { encoded }
    }

    /// The socket path that the host part `host` names, or `None` where the
    /// host is no hexadecimal text.
    pub fn socket_path_from_host(host: &str) -> (r: Option<String>)
        ensures
            match r {
                Some(p) => socket_path(host@) == Some(p@),
                None => socket_path(host@).is_none(),
            },
    {
        match hex_decode(host.as_bytes()) {
            Some(raw) => Some(lossy_text(raw.as_slice())),
            None => None,
        }
    }
}

/// The connector for addresses of unix domain sockets.
#[derive(Clone, Copy, Debug)]
pub struct UnixConnector();

impl UnixConnector {
    pub fn new() -> (r: UnixConnector)
        ensures
            r == UnixConnector(),
    {
        UnixConnector()
    }

    /// The path of the socket to connect to for an address with scheme
    /// `scheme` and host `host`, or `None` where the scheme is not `unix` or
    /// the host names no path.
    pub fn connect(&self, scheme: &str, host: &str) -> (r: Option<String>)
        ensures
            match r {
                Some(p) => scheme@ == unix_scheme() && socket_path(host@) == Some(p@),
                None => scheme@ != unix_scheme() || socket_path(host@).is_none(),
            },
    {
        if !str_eq(scheme, "unix") {
            return None;
        }
        Uri::socket_path_from_host(host)
    }
}

} // verus!
