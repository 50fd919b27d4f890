//! The opening handshake: building the HTTP/1.1 Upgrade request, parsing
//! the server's response off a byte stream line by line, and validating it
//! (status, upgrade fields, accept-key derivation, subprotocol
//! negotiation).

use sha1::{Digest, Sha1};
use vstd::prelude::*;
use vstd::slice::slice_to_vec;
use vstd::string::{StrSliceExecFns, StringSliceAdditionalSpecFns};
use vstd::arithmetic::div_mod::lemma_fundamental_div_mod;
use vstd::utf8::{encode_utf8, valid_utf8};

use crate::address::ParsedAddr;
use crate::bytes::bytes_eq;
use crate::error::WebSocketError;
use crate::rng::{fresh_rng, random_bytes};

verus! {

// ---------------------------------------------------------------------------
// The accept key
// ---------------------------------------------------------------------------
/// The 20-byte SHA-1 digest of a byte sequence.
pub uninterp spec fn sha1_of(bytes: Seq<u8>) -> Seq<u8>;

/// The standard base64 encoding (with padding) of a byte sequence.
pub uninterp spec fn base64_of(bytes: Seq<u8>) -> Seq<u8>;

/// Relies on `Sha1::digest`: the SHA-1 digest of the input, 20 bytes, a
/// function of the input alone.
#[verifier::external_body]
fn sha1_digest(bytes: &Vec<u8>) -> (r: Vec<u8>)
    ensures
        r@ == sha1_of(bytes@),
        r@.len() == 20,
{
    Sha1::digest(bytes.as_slice()).to_vec()
}

/// Relies on `base64::encode`: the standard base64 encoding with padding,
/// a function of the input alone.
#[verifier::external_body]
fn base64_encode(bytes: &Vec<u8>) -> (r: Vec<u8>)
    ensures
        r@ == base64_of(bytes@),
{
    base64::encode(bytes.as_slice()).into_bytes()
}

/// The GUID RFC 6455 appends to the client's key before hashing.
pub open spec fn spec_guid() -> Seq<u8> {
    ("258EAFA5-E914-47DA-95CA-C5AB0DC85B11").spec_bytes()
}

/// The accept key a server owes for client key `key`:
/// `base64(SHA1(key ++ GUID))`.
pub open spec fn spec_accept_key(key: Seq<u8>) -> Seq<u8> {
    base64_of(sha1_of(key + spec_guid()))
}

/// Computes the accept key owed for the given client key.
pub fn compute_accept_key(key: &Vec<u8>) -> (r: Vec<u8>)
    ensures
        r@ == spec_accept_key(key@),
{
    let mut joined = slice_to_vec(key.as_slice());
    let mut guid = ("258EAFA5-E914-47DA-95CA-C5AB0DC85B11").as_bytes_vec();
    joined.append(&mut guid);
    let digest = sha1_digest(&joined);
    base64_encode(&digest)
}

// ---------------------------------------------------------------------------
// The handshake state and the request
// ---------------------------------------------------------------------------
/// Clones a list of strings.
fn clone_strings(v: &Vec<String>) -> (r: Vec<String>)
    ensures
        r@ == v@,
{
    let mut out: Vec<String> = Vec::new();
    let mut i: usize = 0;
    while i < v.len()
        invariant
            i <= v@.len(),
            out@ =~= v@.take(i as int),
        decreases v@.len() - i,
    {
        out.push(v[i].clone());
        i += 1;
    }
    assert(out@ =~= v@);
    out
}

/// Clones a list of header pairs.
fn clone_string_pairs(v: &Vec<(String, String)>) -> (r: Vec<(String, String)>)
    ensures
        r@ == v@,
{
    let mut out: Vec<(String, String)> = Vec::new();
    let mut i: usize = 0;
    while i < v.len()
        invariant
            i <= v@.len(),
            out@ =~= v@.take(i as int),
        decreases v@.len() - i,
    {
        let pair = &v[i];
        out.push((pair.0.clone(), pair.1.clone()));
        i += 1;
    }
    assert(out@ =~= v@);
    out
}

/// Everything the opening handshake needs: where to connect, the random
/// key, and what the caller asked to send along.
#[derive(Debug)]
pub struct Handshake {
    /// The request path
    pub path: String,
    /// The host, for the `Host` header
    pub host: String,
    /// The base64-encoded 16-byte random key
    pub key: Vec<u8>,
    /// Extra headers to send, in insertion order
    pub additional_headers: Vec<(String, String)>,
    /// Subprotocols offered to the server
    pub subprotocols: Vec<String>,
}

impl Handshake {
    /// Prepares a handshake for the given address: draws a fresh 16-byte
    /// random nonce and keys the request with its base64 form.
    pub fn new(
        parsed_addr: &ParsedAddr,
        additional_handshake_headers: &Vec<(String, String)>,
        subprotocols: &Vec<String>,
    ) -> (r: Self)
        ensures
            r.path == parsed_addr.path,
            r.host == parsed_addr.host,
            r.additional_headers@ == additional_handshake_headers@,
            r.subprotocols@ == subprotocols@,
            exists|nonce: Seq<u8>| nonce.len() == 16 && r.key@ == base64_of(nonce),
    {
        let mut rng = fresh_rng();
        let nonce = random_bytes(&mut rng, 16);
        let key = base64_encode(&nonce);
        Handshake {
            path: parsed_addr.path.clone(),
            host: parsed_addr.host.clone(),
            key,
            additional_headers: clone_string_pairs(additional_handshake_headers),
            subprotocols: clone_strings(subprotocols),
        }
    }
}

/// The comma-joined subprotocol list, as it appears after
/// `Sec-WebSocket-Protocol: `.
pub open spec fn spec_subprotocol_list(subs: Seq<Seq<char>>) -> Seq<u8>
    decreases subs.len(),
{
    if subs.len() == 0 {
        Seq::<u8>::empty()
    } else {
        spec_subprotocol_list(subs.drop_last()) + (if subs.len() == 1 {
            Seq::<u8>::empty()
        } else {
            (", ").spec_bytes()
        }) + encode_utf8(subs.last())
    }
}

/// One `field: value` header line.
pub open spec fn spec_header_line_bytes(field: Seq<char>, value: Seq<char>) -> Seq<u8> {
    encode_utf8(field) + (": ").spec_bytes() + encode_utf8(value) + ("\r\n").spec_bytes()
}

/// The caller's extra header lines, in insertion order.
pub open spec fn spec_extra_header_lines(headers: Seq<(String, String)>) -> Seq<u8>
    decreases headers.len(),
{
    if headers.len() == 0 {
        Seq::<u8>::empty()
    } else {
        spec_extra_header_lines(headers.drop_last()) + spec_header_line_bytes(
            headers.last().0@,
            headers.last().1@,
        )
    }
}

/// The request line and the fixed headers, through the version line.
pub open spec fn spec_request_prefix(h: Handshake) -> Seq<u8> {
    ("GET ").spec_bytes() + encode_utf8(h.path@) + (" HTTP/1.1\r\n").spec_bytes() + (
    "Host: ").spec_bytes() + encode_utf8(h.host@) + ("\r\n").spec_bytes() + (
    "Upgrade: websocket\r\n").spec_bytes() + ("Connection: Upgrade\r\n").spec_bytes() + (
    "Sec-WebSocket-Key: ").spec_bytes() + h.key@ + ("\r\n").spec_bytes() + (
    "Sec-WebSocket-Version: 13\r\n").spec_bytes()
}

/// The subprotocol header line, present only when subprotocols are offered.
pub open spec fn spec_protocol_section(subs: Seq<String>) -> Seq<u8> {
    if subs.len() > 0 {
        ("Sec-WebSocket-Protocol: ").spec_bytes() + spec_subprotocol_list(
            subs.map_values(|s: String| s@),
        ) + ("\r\n").spec_bytes()
    } else {
        Seq::<u8>::empty()
    }
}

/// The whole Upgrade request, terminated by a blank line.
pub open spec fn spec_request_bytes(h: Handshake) -> Seq<u8> {
    spec_request_prefix(h) + spec_protocol_section(h.subprotocols@) + spec_extra_header_lines(
        h.additional_headers@,
    ) + ("\r\n").spec_bytes()
}

/// Appends a literal's bytes.
fn push_str(out: &mut Vec<u8>, s: &str)
    ensures
        final(out)@ == old(out)@ + s.spec_bytes(),
{
    let mut bytes = s.as_bytes_vec();
    out.append(&mut bytes);
}

/// Appends a string's UTF-8 bytes.
fn push_string(out: &mut Vec<u8>, s: &String)
    ensures
        final(out)@ == old(out)@ + encode_utf8(s@),
{
    push_str(out, s.as_str());
}

impl Handshake {
    /// Builds the HTTP/1.1 Upgrade request, byte for byte: the request
    /// line, the fixed headers, the key and version, the subprotocol offer
    /// if any, the caller's extra headers in order, and the final blank
    /// line.
    pub fn request_bytes(&self) -> (r: Vec<u8>)
        ensures
            r@ == spec_request_bytes(*self),
    {
        let mut out: Vec<u8> = Vec::new();
        push_str(&mut out, "GET ");
        push_string(&mut out, &self.path);
        push_str(&mut out, " HTTP/1.1\r\n");
        push_str(&mut out, "Host: ");
        push_string(&mut out, &self.host);
        push_str(&mut out, "\r\n");
        push_str(&mut out, "Upgrade: websocket\r\n");
        push_str(&mut out, "Connection: Upgrade\r\n");
        push_str(&mut out, "Sec-WebSocket-Key: ");
        let mut key = slice_to_vec(self.key.as_slice());
        out.append(&mut key);
        push_str(&mut out, "\r\n");
        push_str(&mut out, "Sec-WebSocket-Version: 13\r\n");
        assert(out@ =~= spec_request_prefix(*self));
        let ghost prefix = out@;

        if self.subprotocols.len() > 0 {
            push_str(&mut out, "Sec-WebSocket-Protocol: ");
            let ghost subs = self.subprotocols@.map_values(|s: String| s@);
            let ghost with_label = out@;
            let mut i: usize = 0;
            while i < self.subprotocols.len()
                invariant
                    i <= self.subprotocols@.len(),
                    subs == self.subprotocols@.map_values(|s: String| s@),
                    out@ == with_label + spec_subprotocol_list(subs.take(i as int)),
                decreases self.subprotocols@.len() - i,
            {
                if i > 0 {
                    push_str(&mut out, ", ");
                }
                push_string(&mut out, &self.subprotocols[i]);
                proof {
                    assert(subs.take(i + 1).drop_last() =~= subs.take(i as int));
                    assert(subs.take(i + 1).last() == self.subprotocols@[i as int]@);
                    assert(out@ =~= with_label + spec_subprotocol_list(subs.take(i + 1)));
                }
                i += 1;
            }
            push_str(&mut out, "\r\n");
            proof {
                assert(subs.take(subs.len() as int) =~= subs);
                assert(out@ =~= prefix + spec_protocol_section(self.subprotocols@));
            }
        }
        assert(out@ == prefix + spec_protocol_section(self.subprotocols@));
        let ghost with_protocols = out@;

        let mut j: usize = 0;
        while j < self.additional_headers.len()
            invariant
                j <= self.additional_headers@.len(),
                out@ == with_protocols + spec_extra_header_lines(
                    self.additional_headers@.take(j as int),
                ),
            decreases self.additional_headers@.len() - j,
        {
            let pair = &self.additional_headers[j];
            push_string(&mut out, &pair.0);
            push_str(&mut out, ": ");
            push_string(&mut out, &pair.1);
            push_str(&mut out, "\r\n");
            proof {
                assert(self.additional_headers@.take(j + 1).drop_last()
                    =~= self.additional_headers@.take(j as int));
                assert(out@ =~= with_protocols + spec_extra_header_lines(
                    self.additional_headers@.take(j + 1),
                ));
            }
            j += 1;
        }
        proof {
            assert(self.additional_headers@.take(self.additional_headers@.len() as int)
                =~= self.additional_headers@);
        }
        push_str(&mut out, "\r\n");
        proof {
            assert(out@ =~= spec_request_bytes(*self));
        }
        out
    }
}

// ---------------------------------------------------------------------------
// Parsing the response: lines
// ---------------------------------------------------------------------------
/// Whether a byte is an ASCII decimal digit.
pub open spec fn is_digit_byte(b: u8) -> bool {
    0x30 <= b <= 0x39
}

/// The first index at or after `i` holding a non-digit, or the end.
pub open spec fn digits_end(l: Seq<u8>, i: int) -> int
    decreases l.len() - i,
{
    if i < 0 || i >= l.len() {
        i
    } else if is_digit_byte(l[i]) {
        digits_end(l, i + 1)
    } else {
        i
    }
}

proof fn lemma_digits_end(l: Seq<u8>, i: int)
    requires
        0 <= i <= l.len(),
    ensures
        i <= digits_end(l, i) <= l.len(),
        forall|j: int| i <= j < digits_end(l, i) ==> is_digit_byte(l[j]),
        digits_end(l, i) < l.len() ==> !is_digit_byte(l[digits_end(l, i)]),
    decreases l.len() - i,
{
    if i < l.len() && is_digit_byte(l[i]) {
        lemma_digits_end(l, i + 1);
    }
}

/// Scans past a run of ASCII digits, returning the index of the first
/// non-digit at or after `start`.
fn scan_digits(line: &Vec<u8>, start: usize) -> (r: usize)
    requires
        start <= line@.len(),
    ensures
        r == digits_end(line@, start as int),
{
    let mut i = start;
    while i < line.len()
        invariant
            start <= i <= line@.len(),
            digits_end(line@, start as int) == digits_end(line@, i as int),
        decreases line@.len() - i,
    {
        let b = line[i];
        if !(0x30 <= b && b <= 0x39) {
            return i;
        }
        i += 1;
    }
    i
}

/// Copies `l[start..end]`.
fn copy_range(l: &Vec<u8>, start: usize, end: usize) -> (r: Vec<u8>)
    requires
        start <= end <= l@.len(),
    ensures
        r@ == l@.subrange(start as int, end as int),
{
    let mut out: Vec<u8> = Vec::new();
    let mut i = start;
    while i < end
        invariant
            start <= i <= end <= l@.len(),
            out@ =~= l@.subrange(start as int, i as int),
        decreases end - i,
    {
        out.push(l[i]);
        assert(out@ =~= l@.subrange(start as int, i + 1));
        i += 1;
    }
    out
}

/// Whether `expected` occurs in `l` starting at `start`.
fn bytes_at(l: &Vec<u8>, start: usize, expected: &Vec<u8>) -> (r: bool)
    requires
        start + expected@.len() <= l@.len(),
    ensures
        r <==> l@.subrange(start as int, start + expected@.len()) == expected@,
{
    let n = expected.len();
    proof {
        assert(l@.len() == l.len());
    }
    let mut i: usize = 0;
    while i < n
        invariant
            i <= n == expected@.len(),
            start + n <= l@.len(),
            l@.len() <= usize::MAX,
            forall|j: int| 0 <= j < i ==> l@[start + j] == expected@[j],
        decreases n - i,
    {
        if l[start + i] != expected[i] {
            proof {
                assert(l@.subrange(start as int, start + expected@.len())[i as int] != expected@[i as int]);
            }
            return false;
        }
        i += 1;
    }
    proof {
        assert(l@.subrange(start as int, start + expected@.len()) =~= expected@);
    }
    true
}

/// Whether byte `b` occurs in `l[start..end]`.
fn byte_in_range(l: &Vec<u8>, start: usize, end: usize, b: u8) -> (r: bool)
    requires
        start <= end <= l@.len(),
    ensures
        r <==> exists|j: int| start <= j < end && l@[j] == b,
{
    let mut i = start;
    while i < end
        invariant
            start <= i <= end <= l@.len(),
            forall|j: int| start <= j < i ==> l@[j] != b,
        decreases end - i,
    {
        if l[i] == b {
            return true;
        }
        i += 1;
    }
    false
}

/// Whether a byte sequence is a well-formed status line:
/// `HTTP/<digits>.<digits> <3 digits> <reason>` ending in CRLF, the reason
/// nonempty and free of line feeds.
pub open spec fn spec_status_line_ok(l: Seq<u8>) -> bool {
    let p = ("HTTP/").spec_bytes();
    let d1 = digits_end(l, p.len() as int);
    let d2 = digits_end(l, d1 + 1);
    &&& l.len() >= p.len()
    &&& l.subrange(0, p.len() as int) == p
    &&& d1 > p.len()
    &&& d1 < l.len() && l[d1] == 0x2E  // '.'
    &&& d2 > d1 + 1
    &&& d2 < l.len() && l[d2] == 0x20  // ' '
    &&& d2 + 4 < l.len()
    &&& is_digit_byte(l[d2 + 1]) && is_digit_byte(l[d2 + 2]) && is_digit_byte(l[d2 + 3])
    &&& l[d2 + 4] == 0x20  // ' '
    &&& l.len() >= d2 + 8  // at least one reason byte and the CRLF
    &&& (forall|j: int| d2 + 5 <= j < l.len() - 2 ==> l[j] != 0x0A)
    &&& l[l.len() - 2] == 0x0D && l[l.len() - 1] == 0x0A
}

/// The three status-code bytes of a well-formed status line.
pub open spec fn spec_status_code(l: Seq<u8>) -> Seq<u8> {
    let d1 = digits_end(l, ("HTTP/").spec_bytes().len() as int);
    let d2 = digits_end(l, d1 + 1);
    l.subrange(d2 + 1, d2 + 4)
}

/// Parses the response's status line, yielding the three-digit status
/// code. A line that does not match the shape fails with
/// `InvalidHandshakeError`.
pub fn parse_status_line(line: &Vec<u8>) -> (r: Result<Vec<u8>, WebSocketError>)
    ensures
        r is Ok <==> spec_status_line_ok(line@),
        r matches Ok(code) ==> code@ == spec_status_code(line@) && code@.len() == 3,
        r matches Err(e) ==> e is InvalidHandshakeError,
{
    let n = line.len();
    let prefix = ("HTTP/").as_bytes_vec();
    let plen = prefix.len();
    if n < plen {
        return Err(WebSocketError::InvalidHandshakeError);
    }
    if !bytes_at(line, 0, &prefix) {
        return Err(WebSocketError::InvalidHandshakeError);
    }
    let d1 = scan_digits(line, plen);
    proof {
        lemma_digits_end(line@, plen as int);
    }
    if d1 == plen || d1 >= n {
        return Err(WebSocketError::InvalidHandshakeError);
    }
    if line[d1] != 0x2E {
        return Err(WebSocketError::InvalidHandshakeError);
    }
    let d2 = scan_digits(line, d1 + 1);
    proof {
        lemma_digits_end(line@, d1 + 1);
    }
    if d2 == d1 + 1 || d2 >= n {
        return Err(WebSocketError::InvalidHandshakeError);
    }
    if line[d2] != 0x20 {
        return Err(WebSocketError::InvalidHandshakeError);
    }
    if n - d2 < 8 {
        return Err(WebSocketError::InvalidHandshakeError);
    }
    let c1 = line[d2 + 1];
    let c2 = line[d2 + 2];
    let c3 = line[d2 + 3];
    if !(0x30 <= c1 && c1 <= 0x39 && 0x30 <= c2 && c2 <= 0x39 && 0x30 <= c3 && c3 <= 0x39) {
        return Err(WebSocketError::InvalidHandshakeError);
    }
    if line[d2 + 4] != 0x20 {
        return Err(WebSocketError::InvalidHandshakeError);
    }
    if line[n - 2] != 0x0D || line[n - 1] != 0x0A {
        return Err(WebSocketError::InvalidHandshakeError);
    }
    if byte_in_range(line, d2 + 5, n - 2, 0x0A) {
        return Err(WebSocketError::InvalidHandshakeError);
    }
    Ok(copy_range(line, d2 + 1, d2 + 4))
}

/// The first index at or after `i` holding `b`, or the end.
pub open spec fn find_byte(l: Seq<u8>, b: u8, i: int) -> int
    decreases l.len() - i,
{
    if i < 0 || i >= l.len() {
        i
    } else if l[i] == b {
        i
    } else {
        find_byte(l, b, i + 1)
    }
}

proof fn lemma_find_byte(l: Seq<u8>, b: u8, i: int)
    requires
        0 <= i <= l.len(),
    ensures
        i <= find_byte(l, b, i) <= l.len(),
        forall|j: int| i <= j < find_byte(l, b, i) ==> l[j] != b,
        find_byte(l, b, i) < l.len() ==> l[find_byte(l, b, i)] == b,
    decreases l.len() - i,
{
    if i < l.len() && l[i] != b {
        lemma_find_byte(l, b, i + 1);
    }
}

/// Scans for byte `b`, returning the index of its first occurrence at or
/// after `start`, or the length.
fn scan_for_byte(line: &Vec<u8>, b: u8, start: usize) -> (r: usize)
    requires
        start <= line@.len(),
    ensures
        r == find_byte(line@, b, start as int),
{
    let mut i = start;
    while i < line.len()
        invariant
            start <= i <= line@.len(),
            find_byte(line@, b, start as int) == find_byte(line@, b, i as int),
        decreases line@.len() - i,
    {
        if line[i] == b {
            return i;
        }
        i += 1;
    }
    i
}

/// The first index at or after `i` holding a byte other than a space.
pub open spec fn nonspace_from(s: Seq<u8>, i: int) -> int
    decreases s.len() - i,
{
    if i < 0 || i >= s.len() {
        i
    } else if s[i] == 0x20 {
        nonspace_from(s, i + 1)
    } else {
        i
    }
}

proof fn lemma_nonspace_from(s: Seq<u8>, i: int)
    requires
        0 <= i <= s.len(),
    ensures
        i <= nonspace_from(s, i) <= s.len(),
        forall|j: int| i <= j < nonspace_from(s, i) ==> s[j] == 0x20,
        nonspace_from(s, i) < s.len() ==> s[nonspace_from(s, i)] != 0x20,
    decreases s.len() - i,
{
    if i < s.len() && s[i] == 0x20 {
        lemma_nonspace_from(s, i + 1);
    }
}

/// The least index `k <= j` such that `s[k..j]` is all spaces.
pub open spec fn nonspace_back(s: Seq<u8>, j: int) -> int
    decreases j,
{
    if 0 < j <= s.len() && s[j - 1] == 0x20 {
        nonspace_back(s, j - 1)
    } else {
        j
    }
}

proof fn lemma_nonspace_back(s: Seq<u8>, j: int)
    requires
        0 <= j <= s.len(),
    ensures
        0 <= nonspace_back(s, j) <= j,
        forall|k: int| nonspace_back(s, j) <= k < j ==> s[k] == 0x20,
        nonspace_back(s, j) > 0 ==> s[nonspace_back(s, j) - 1] != 0x20,
    decreases j,
{
    if 0 < j && s[j - 1] == 0x20 {
        lemma_nonspace_back(s, j - 1);
    }
}

/// A byte sequence with leading and trailing spaces removed.
pub open spec fn spec_trim_spaces(s: Seq<u8>) -> Seq<u8> {
    let a = nonspace_from(s, 0);
    if a == s.len() {
        Seq::<u8>::empty()
    } else {
        s.subrange(a, nonspace_back(s, s.len() as int))
    }
}

/// Removes leading and trailing spaces.
fn trim_spaces(v: &Vec<u8>) -> (r: Vec<u8>)
    ensures
        r@ == spec_trim_spaces(v@),
{
    proof {
        assert(v@.len() == v.len());
        lemma_nonspace_from(v@, 0);
        lemma_nonspace_back(v@, v@.len() as int);
    }
    let n = v.len();
    let mut a: usize = 0;
    while a < n && v[a] == 0x20
        invariant
            a <= n == v@.len(),
            nonspace_from(v@, 0) == nonspace_from(v@, a as int),
        decreases n - a,
    {
        a += 1;
    }
    assert(a == nonspace_from(v@, 0));
    if a == n {
        return Vec::new();
    }
    let mut b: usize = n;
    while b > 0 && v[b - 1] == 0x20
        invariant
            b <= n == v@.len(),
            nonspace_back(v@, n as int) == nonspace_back(v@, b as int),
        decreases b,
    {
        b -= 1;
    }
    assert(b == nonspace_back(v@, n as int));
    assert(a < b) by {
        if b <= a {
            assert(v@[a as int] == 0x20);
        }
    }
    copy_range(v, a, b)
}

/// What a response header line denotes: `None` for the CRLF-only line that
/// ends the header block and for any line that does not match
/// `field: value` (nonempty field before the first colon, no line feed in
/// the field, the value trimmed of spaces); otherwise the field and value.
pub open spec fn spec_header_line(l: Seq<u8>) -> Option<(Seq<u8>, Seq<u8>)> {
    if l.len() >= 2 && l[l.len() - 2] == 0x0D && l[l.len() - 1] == 0x0A {
        let body = l.subrange(0, l.len() - 2);
        let c = find_byte(body, 0x3A, 0);
        if 0 < c < body.len() && (forall|j: int| 0 <= j < c ==> body[j] != 0x0A) {
            Some((body.subrange(0, c), spec_trim_spaces(body.subrange(c + 1, body.len() as int))))
        } else {
            None
        }
    } else {
        None
    }
}

/// Parses one response header line. `None` ends the header block.
pub fn parse_header_line(line: &Vec<u8>) -> (r: Option<(Vec<u8>, Vec<u8>)>)
    ensures
        r is Some <==> spec_header_line(line@) is Some,
        r matches Some((field, value)) ==> (spec_header_line(line@) matches Some((sf, sv))
            && field@ == sf && value@ == sv),
{
    let n = line.len();
    if n < 2 {
        return None;
    }
    if line[n - 2] != 0x0D || line[n - 1] != 0x0A {
        return None;
    }
    let body = copy_range(line, 0, n - 2);
    let c = scan_for_byte(&body, 0x3A, 0);
    proof {
        lemma_find_byte(body@, 0x3A, 0);
    }
    if c == 0 || c >= body.len() {
        return None;
    }
    if byte_in_range(&body, 0, c, 0x0A) {
        return None;
    }
    let field = copy_range(&body, 0, c);
    let raw_value = copy_range(&body, c + 1, body.len());
    let value = trim_spaces(&raw_value);
    Some((field, value))
}

// ---------------------------------------------------------------------------
// Header lookup and validation
// ---------------------------------------------------------------------------
/// ASCII lowercasing of one byte.
pub open spec fn lower_byte(b: u8) -> u8 {
    if 0x41 <= b <= 0x5A {
        (b + 0x20) as u8
    } else {
        b
    }
}

/// ASCII lowercasing of a byte sequence; header field names compare
/// case-insensitively.
pub open spec fn spec_lower(s: Seq<u8>) -> Seq<u8> {
    s.map_values(|b: u8| lower_byte(b))
}

/// Lowercases ASCII letters in a byte vector.
fn lower_bytes(v: &Vec<u8>) -> (r: Vec<u8>)
    ensures
        r@ == spec_lower(v@),
{
    let mut out: Vec<u8> = Vec::new();
    let mut i: usize = 0;
    while i < v.len()
        invariant
            i <= v@.len(),
            out@.len() == i,
            forall|j: int| 0 <= j < i ==> out@[j] == lower_byte(v@[j]),
        decreases v@.len() - i,
    {
        let b = v[i];
        if 0x41 <= b && b <= 0x5A {
            out.push(b + 0x20);
        } else {
            out.push(b);
        }
        i += 1;
    }
    assert(out@ =~= spec_lower(v@));
    out
}

/// The index of the first header whose lowercased field equals `name`.
pub open spec fn spec_find_header(headers: Seq<(Vec<u8>, Vec<u8>)>, name: Seq<u8>) -> Option<int>
    decreases headers.len(),
{
    if headers.len() == 0 {
        None
    } else if spec_lower(headers[0].0@) == name {
        Some(0)
    } else {
        match spec_find_header(headers.drop_first(), name) {
            Some(i) => Some(i + 1),
            None => None,
        }
    }
}

/// The value of the first header matching `name`; meaningful when one
/// exists.
pub open spec fn spec_header_value(headers: Seq<(Vec<u8>, Vec<u8>)>, name: Seq<u8>) -> Seq<u8> {
    match spec_find_header(headers, name) {
        Some(i) => headers[i].1@,
        None => Seq::<u8>::empty(),
    }
}

proof fn lemma_find_header(headers: Seq<(Vec<u8>, Vec<u8>)>, name: Seq<u8>)
    ensures
        match spec_find_header(headers, name) {
            Some(i) => 0 <= i < headers.len() && spec_lower(headers[i].0@) == name && (forall|
                j: int,
            | 0 <= j < i ==> spec_lower(headers[j].0@) != name),
            None => forall|j: int| 0 <= j < headers.len() ==> spec_lower(headers[j].0@) != name,
        },
    decreases headers.len(),
{
    if headers.len() > 0 && spec_lower(headers[0].0@) != name {
        lemma_find_header(headers.drop_first(), name);
        assert forall|j: int| 1 <= j < headers.len() implies headers.drop_first()[j - 1]
            == headers[j] by {}
    }
}

/// Finds the first header whose lowercased field equals `name`.
pub fn find_header(headers: &Vec<(Vec<u8>, Vec<u8>)>, name: &Vec<u8>) -> (r: Option<usize>)
    ensures
        r matches Some(i) ==> i < headers@.len() && spec_find_header(headers@, name@) == Some(
            i as int,
        ),
        r is None ==> spec_find_header(headers@, name@) is None,
{
    proof {
        lemma_find_header(headers@, name@);
    }
    let mut i: usize = 0;
    while i < headers.len()
        invariant
            i <= headers@.len(),
            forall|j: int| 0 <= j < i ==> spec_lower(headers@[j].0@) != name@,
        decreases headers@.len() - i,
    {
        let field_lower = lower_bytes(&headers[i].0);
        if bytes_eq(&field_lower, name) {
            proof {
                lemma_find_header(headers@, name@);
            }
            return Some(i);
        }
        i += 1;
    }
    proof {
        lemma_find_header(headers@, name@);
    }
    None
}

// ---------------------------------------------------------------------------
// Content length
// ---------------------------------------------------------------------------
/// Whether every byte is an ASCII digit.
pub open spec fn all_digits(s: Seq<u8>) -> bool {
    forall|i: int| 0 <= i < s.len() ==> is_digit_byte(#[trigger] s[i])
}

/// The decimal value of a digit sequence.
pub open spec fn spec_digits_value(s: Seq<u8>) -> int
    decreases s.len(),
{
    if s.len() == 0 {
        0
    } else {
        spec_digits_value(s.drop_last()) * 10 + (s.last() - 0x30)
    }
}

proof fn lemma_digits_prefix(s: Seq<u8>, i: int)
    requires
        all_digits(s),
        0 <= i <= s.len(),
    ensures
        0 <= spec_digits_value(s.take(i)) <= spec_digits_value(s),
    decreases s.len(),
{
    if s.len() == 0 {
        assert(s.take(i) =~= s);
    } else {
        let head = s.drop_last();
        assert(all_digits(head)) by {
            assert(forall|j: int| 0 <= j < head.len() ==> #[trigger] head[j] == s[j]);
        }
        lemma_digits_prefix(head, head.len() as int);
        assert(head.take(head.len() as int) =~= head);
        if i == s.len() {
            assert(s.take(i) =~= s);
        } else {
            assert(s.take(i) =~= head.take(i));
            lemma_digits_prefix(head, i);
        }
    }
}

/// The digit part of a length value: an optional leading `+` is skipped,
/// as `usize` parsing accepts one.
pub open spec fn spec_length_digits(s: Seq<u8>) -> Seq<u8> {
    if s.len() > 0 && s[0] == 0x2B {
        s.skip(1)
    } else {
        s
    }
}

/// What parsing a decimal length yields: the value of the digits, or
/// nothing when the digits are missing or malformed or the value does not
/// fit a `usize`.
pub open spec fn spec_parse_usize(s: Seq<u8>) -> Option<int> {
    let digits = spec_length_digits(s);
    if digits.len() == 0 || !all_digits(digits) {
        None
    } else if spec_digits_value(digits) > usize::MAX {
        None
    } else {
        Some(spec_digits_value(digits))
    }
}

/// Parses a decimal `usize`, as a `Content-Length` value is parsed.
pub fn parse_ascii_usize(v: &Vec<u8>) -> (r: Option<usize>)
    ensures
        r matches Some(m) ==> spec_parse_usize(v@) == Some(m as int),
        r is None ==> spec_parse_usize(v@) is None,
{
    let n = v.len();
    let start: usize = if n > 0 && v[0] == 0x2B {
        1
    } else {
        0
    };
    let ghost digits = spec_length_digits(v@);
    proof {
        assert(digits =~= v@.skip(start as int));
    }
    if start == n {
        return None;
    }
    let mut acc: usize = 0;
    let mut i = start;
    while i < n
        invariant
            start <= i <= n == v@.len(),
            digits =~= v@.skip(start as int),
            digits == spec_length_digits(v@),
            all_digits(digits.take(i - start)),
            acc == spec_digits_value(digits.take(i - start)),
        decreases n - i,
    {
        let b = v[i];
        if !(0x30 <= b && b <= 0x39) {
            proof {
                assert(digits[i - start] == v@[i as int]);
                assert(!all_digits(digits));
            }
            return None;
        }
        let d = (b - 0x30) as usize;
        let limit = (usize::MAX - d) / 10;
        proof {
            lemma_fundamental_div_mod((usize::MAX - d) as int, 10);
            assert(digits.take(i - start + 1).drop_last() =~= digits.take(i - start));
            assert(digits.take(i - start + 1).last() == v@[i as int]);
        }
        if acc > limit {
            proof {
                assert(spec_digits_value(digits.take(i - start + 1)) > usize::MAX);
                if all_digits(digits) {
                    lemma_digits_prefix(digits, i - start + 1);
                }
            }
            return None;
        }
        acc = acc * 10 + d;
        i += 1;
    }
    proof {
        assert(digits.take(n - start) =~= digits);
    }
    Some(acc)
}

/// The body length announced by a header block: the value of the first
/// `Content-Length` header. A missing header means no body; a malformed
/// value fails with `InvalidHandshakeError`.
pub fn body_length(headers: &Vec<(Vec<u8>, Vec<u8>)>) -> (r: Result<Option<usize>, WebSocketError>)
    ensures
        ({
            let found = spec_find_header(headers@, ("content-length").spec_bytes());
            match found {
                None => r matches Ok(b) && b is None,
                Some(i) => match spec_parse_usize(headers@[i].1@) {
                    Some(m) => r matches Ok(b) && b matches Some(got) && got as int == m,
                    None => r matches Err(e) && e is InvalidHandshakeError,
                },
            }
        }),
{
    let name = ("content-length").as_bytes_vec();
    match find_header(headers, &name) {
        None => Ok(None),
        Some(i) => match parse_ascii_usize(&headers[i].1) {
            Some(m) => Ok(Some(m)),
            None => Err(WebSocketError::InvalidHandshakeError),
        },
    }
}

// ---------------------------------------------------------------------------
// Response validation
// ---------------------------------------------------------------------------
/// Relies on `str::from_utf8`: it succeeds exactly on valid UTF-8 input.
#[verifier::external_body]
fn utf8_check(bytes: &Vec<u8>) -> (r: bool)
    ensures
        r == valid_utf8(bytes@),
{
    core::str::from_utf8(bytes.as_slice()).is_ok()
}

/// Whether a status code announces the protocol switch: only a `101`
/// response carries no body and continues into frame exchange.
pub fn is_switching_protocols(status_code: &Vec<u8>) -> (r: bool)
    ensures
        r <==> status_code@ == ("101").spec_bytes(),
{
    bytes_eq(status_code, &("101").as_bytes_vec())
}

/// What a successful handshake yields: the subprotocol the server
/// accepted, if any, and the full header list of its response.
#[derive(Debug)]
pub struct HandshakeSuccess {
    /// The accepted subprotocol, one of those offered
    pub accepted_subprotocol: Option<String>,
    /// All headers of the server's 101 response
    pub headers: Vec<(Vec<u8>, Vec<u8>)>,
}

/// Whether the `Upgrade` header is present and names `websocket`,
/// case-insensitively.
pub open spec fn spec_upgrade_ok(headers: Seq<(Vec<u8>, Vec<u8>)>) -> bool {
    &&& spec_find_header(headers, ("upgrade").spec_bytes()) is Some
    &&& spec_lower(spec_header_value(headers, ("upgrade").spec_bytes())) == (
    "websocket").spec_bytes()
}

/// Whether the `Connection` header is present and names `Upgrade`,
/// case-insensitively.
pub open spec fn spec_connection_ok(headers: Seq<(Vec<u8>, Vec<u8>)>) -> bool {
    &&& spec_find_header(headers, ("connection").spec_bytes()) is Some
    &&& spec_lower(spec_header_value(headers, ("connection").spec_bytes())) == (
    "upgrade").spec_bytes()
}

/// Whether the subprotocol the server names, if any, is one the client
/// offered. A server must not name one when none was offered.
pub open spec fn spec_protocol_ok(
    headers: Seq<(Vec<u8>, Vec<u8>)>,
    offered: Seq<String>,
) -> bool {
    match spec_find_header(headers, ("sec-websocket-protocol").spec_bytes()) {
        None => true,
        Some(i) => offered.len() > 0 && exists|k: int|
            0 <= k < offered.len() && encode_utf8(#[trigger] offered[k]@) == headers[i].1@,
    }
}

/// Whether the server's `Sec-WebSocket-Accept` value is present and equals
/// the accept key owed for the client's key.
pub open spec fn spec_accept_ok(headers: Seq<(Vec<u8>, Vec<u8>)>, key: Seq<u8>) -> bool {
    &&& spec_find_header(headers, ("sec-websocket-accept").spec_bytes()) is Some
    &&& spec_header_value(headers, ("sec-websocket-accept").spec_bytes()) == spec_accept_key(key)
}

/// Whether a 101 response is acceptable: upgrade and connection fields
/// right, no extensions, the named subprotocol one of those offered, and
/// the accept key correct.
pub open spec fn spec_response_ok(headers: Seq<(Vec<u8>, Vec<u8>)>, h: Handshake) -> bool {
    &&& spec_upgrade_ok(headers)
    &&& spec_connection_ok(headers)
    &&& spec_find_header(headers, ("sec-websocket-extensions").spec_bytes()) is None
    &&& spec_protocol_ok(headers, h.subprotocols@)
    &&& spec_accept_ok(headers, h.key@)
}

impl Handshake {
    /// Validates the parsed response.
    ///
    /// A status other than 101 fails with `HandshakeFailedError` carrying
    /// the status code, the headers and the body (or, when the body is not
    /// UTF-8, with `InvalidHandshakeError`). A 101 response is accepted
    /// exactly when the upgrade and connection fields are right, no
    /// extensions were negotiated, any subprotocol the server names was
    /// offered, and the accept key matches the client's key; any violation
    /// fails with `InvalidHandshakeError`.
    pub fn validate_response(
        &self,
        status_code: &Vec<u8>,
        headers: Vec<(Vec<u8>, Vec<u8>)>,
        body: Option<Vec<u8>>,
    ) -> (r: Result<HandshakeSuccess, WebSocketError>)
        ensures
            status_code@ != ("101").spec_bytes() ==> (match body {
                Some(b) => if valid_utf8(b@) {
                    r matches Err(e) && e matches WebSocketError::HandshakeFailedError {
                        status_code: sc,
                        headers: hs,
                        body: bd,
                    } && sc@ == status_code@ && hs == headers && bd == Some(b)
                } else {
                    r matches Err(e) && e is InvalidHandshakeError
                },
                None => r matches Err(e) && e matches WebSocketError::HandshakeFailedError {
                    status_code: sc,
                    headers: hs,
                    body: bd,
                } && sc@ == status_code@ && hs == headers && bd is None,
            }),
            status_code@ == ("101").spec_bytes() ==> {
                &&& (r is Ok <==> spec_response_ok(headers@, *self))
                &&& (r matches Err(e) ==> e is InvalidHandshakeError)
                &&& (r matches Ok(s) ==> {
                    &&& s.headers == headers
                    &&& (match spec_find_header(
                        headers@,
                        ("sec-websocket-protocol").spec_bytes(),
                    ) {
                        None => s.accepted_subprotocol is None,
                        Some(i) => s.accepted_subprotocol matches Some(p) && encode_utf8(p@)
                            == headers@[i].1@,
                    })
                })
            },
    {
        let is_101 = bytes_eq(status_code, &("101").as_bytes_vec());
        if !is_101 {
            match body {
                Some(b) => {
                    if !utf8_check(&b) {
                        return Err(WebSocketError::InvalidHandshakeError);
                    }
                    return Err(
                        WebSocketError::HandshakeFailedError {
                            status_code: slice_to_vec(status_code.as_slice()),
                            headers,
                            body: Some(b),
                        },
                    );
                },
                None => {
                    return Err(
                        WebSocketError::HandshakeFailedError {
                            status_code: slice_to_vec(status_code.as_slice()),
                            headers,
                            body: None,
                        },
                    );
                },
            }
        }

        // check upgrade field
        match find_header(&headers, &("upgrade").as_bytes_vec()) {
            None => {
                return Err(WebSocketError::InvalidHandshakeError);
            },
            Some(i) => {
                let value_lower = lower_bytes(&headers[i].1);
                if !bytes_eq(&value_lower, &("websocket").as_bytes_vec()) {
                    return Err(WebSocketError::InvalidHandshakeError);
                }
            },
        }

        // check connection field
        match find_header(&headers, &("connection").as_bytes_vec()) {
            None => {
                return Err(WebSocketError::InvalidHandshakeError);
            },
            Some(i) => {
                let value_lower = lower_bytes(&headers[i].1);
                if !bytes_eq(&value_lower, &("upgrade").as_bytes_vec()) {
                    return Err(WebSocketError::InvalidHandshakeError);
                }
            },
        }

        // extensions are never negotiated
        match find_header(&headers, &("sec-websocket-extensions").as_bytes_vec()) {
            Some(_) => {
                return Err(WebSocketError::InvalidHandshakeError);
            },
            None => {},
        }

        // check subprotocols
        let mut accepted: Option<String> = None;
        match find_header(&headers, &("sec-websocket-protocol").as_bytes_vec()) {
            Some(i) => {
                if self.subprotocols.len() == 0 {
                    // the server accepted a subprotocol that was not offered
                    return Err(WebSocketError::InvalidHandshakeError);
                }
                let mut matched: Option<usize> = None;
                let mut k: usize = 0;
                while k < self.subprotocols.len()
                    invariant
                        k <= self.subprotocols@.len(),
                        i < headers@.len(),
                        matched matches Some(f) ==> f < k && encode_utf8(
                            self.subprotocols@[f as int]@,
                        ) == headers@[i as int].1@,
                        matched is None ==> forall|j: int|
                            0 <= j < k ==> encode_utf8(#[trigger] self.subprotocols@[j]@)
                                != headers@[i as int].1@,
                    decreases self.subprotocols@.len() - k,
                {
                    if matched.is_none() {
                        let sub_bytes = self.subprotocols[k].as_str().as_bytes_vec();
                        if bytes_eq(&sub_bytes, &headers[i].1) {
                            matched = Some(k);
                        }
                    }
                    k += 1;
                }
                match matched {
                    Some(f) => {
                        accepted = Some(self.subprotocols[f].clone());
                    },
                    None => {
                        return Err(WebSocketError::InvalidHandshakeError);
                    },
                }
            },
            None => {},
        }

        // validate the accept key
        match find_header(&headers, &("sec-websocket-accept").as_bytes_vec()) {
            None => {
                return Err(WebSocketError::InvalidHandshakeError);
            },
            Some(i) => {
                let expected = compute_accept_key(&self.key);
                if !bytes_eq(&headers[i].1, &expected) {
                    return Err(WebSocketError::InvalidHandshakeError);
                }
            },
        }

        Ok(HandshakeSuccess { accepted_subprotocol: accepted, headers })
    }
}

} // verus!
