//! Byte-level pieces of the browser link: Base64, the WebSocket handshake
//! answer and text frames, content types of served files, and the latch
//! that keeps attacks from being lost when frames are sent at a lower rate
//! than they are produced.

use crate::text::contains_text;
use crate::text::ends_with;
use crate::text::lowercase_text;
use crate::text::starts_with;
use crate::text::str_contains;
use crate::text::str_ends_with;
use crate::text::str_eq;
use crate::text::str_split_whitespace;
use crate::text::str_starts_with;
use crate::text::str_to_lowercase;
use crate::text::str_trim;
use crate::text::str_trim_start_matches;
use crate::text::string_push;
use crate::text::strip_leading;
use crate::text::trimmed_text;
use crate::text::whitespace_fields;
use vstd::prelude::*;
use vstd::string::StringExecFns;
use vstd::string::StringSliceAdditionalSpecFns;
use vstd::utf8::decode_utf8;
use vstd::utf8::encode_utf8;
use vstd::utf8::is_char_boundary;

verus! {

/// The character that stands for the six-bit value `v` in Base64.
pub open spec fn base64_char(v: int) -> char {
    if v < 26 {
        ((0x41 + v) as u8) as char
    } else if v < 52 {
        ((0x61 + (v - 26)) as u8) as char
    } else if v < 62 {
        ((0x30 + (v - 52)) as u8) as char
    } else if v == 62 {
        '+'
    } else {
        '/'
    }
}

/// The four characters that encode a group of one, two or three bytes. The
/// group is read as a 24-bit number, missing bytes counting as zero, and cut
/// into four six-bit values; positions that hold no input bit are written
/// as `=`.
pub open spec fn base64_group(group: Seq<u8>) -> Seq<char> {
    let b0 = group[0] as int;
    let b1 = if group.len() > 1 {
        group[1] as int
    } else {
        0
    };
    let b2 = if group.len() > 2 {
        group[2] as int
    } else {
        0
    };
    let n = b0 * 65536 + b1 * 256 + b2;
    seq![
        base64_char(n / 262144),
        base64_char((n / 4096) % 64),
        if group.len() > 1 {
            base64_char((n / 64) % 64)
        } else {
            '='
        },
        if group.len() > 2 {
            base64_char(n % 64)
        } else {
            '='
        },
    ]
}

/// Base64 with the standard alphabet and padding: the input is encoded in
/// groups of three bytes, the last group possibly shorter.
pub open spec fn base64_spec(data: Seq<u8>) -> Seq<char>
    decreases data.len(),
{
    if data.len() == 0 {
        Seq::<char>::empty()
    } else if data.len() <= 3 {
        base64_group(data)
    } else {
        base64_group(data.take(3)) + base64_spec(data.skip(3))
    }
}

fn sextet_char(v: u32) -> (c: char)
    requires
        v < 64,
    ensures
        c == base64_char(v as int),
{
    if v < 26 {
        ((0x41 + v) as u8) as char
    } else if v < 52 {
        ((0x61 + (v - 26)) as u8) as char
    } else if v < 62 {
        ((0x30 + (v - 52)) as u8) as char
    } else if v == 62 {
        '+'
    } else {
        '/'
    }
}

/// Base64 turns every three bytes, and a last one or two, into four
/// characters.
pub proof fn law_base64_length(data: Seq<u8>)
    ensures
        base64_spec(data).len() == 4 * ((data.len() + 2) / 3),
    decreases data.len(),
{
    if data.len() > 3 {
        law_base64_length(data.skip(3));
    }
}

/// Encodes `data` as Base64 with padding.
pub fn base64_encode(data: &[u8]) -> (text: String)
    ensures
        text@ == base64_spec(data@),
{
    let mut result = String::new();
    let mut i: usize = 0;
    proof {
        assert(data@.skip(0) == data@);
    }
    while i < data.len()
        invariant
            i <= data@.len(),
            result@ + base64_spec(data@.skip(i as int)) =~= base64_spec(data@),
        decreases data@.len() - i,
    {
        let remaining: usize = data.len() - i;
        let b0: u32 = data[i] as u32;
        let b1: u32 = if remaining > 1 {
            data[i + 1] as u32
        } else {
            0
        };
        let b2: u32 = if remaining > 2 {
            data[i + 2] as u32
        } else {
            0
        };
        let n: u32 = b0 * 65536 + b1 * 256 + b2;
        let ghost before = result@;
        let ghost rest = data@.skip(i as int);
        let ghost group = if remaining > 3 {
            rest.take(3)
        } else {
            rest
        };
        string_push(&mut result, sextet_char(n / 262144));
        string_push(&mut result, sextet_char((n / 4096) % 64));
        if remaining > 1 {
            string_push(&mut result, sextet_char((n / 64) % 64));
        } else {
            string_push(&mut result, '=');
        }
        if remaining > 2 {
            string_push(&mut result, sextet_char(n % 64));
        } else {
            string_push(&mut result, '=');
        }
        proof {
            assert(result@ == before + base64_group(group));
            if remaining > 3 {
                assert(rest.skip(3) == data@.skip(i + 3));
                assert(base64_spec(rest) == base64_group(group) + base64_spec(rest.skip(3)));
            } else {
                assert(base64_spec(rest) == base64_group(group));
                assert(data@.skip(data@.len() as int) == Seq::<u8>::empty());
            }
        }
        if remaining > 3 {
            i = i + 3;
        } else {
            i = data.len();
        }
    }
    proof {
        assert(data@.skip(data@.len() as int).len() == 0);
    }
    result
}

/// The SHA-1 digest of a byte sequence, as `sha1_smol` computes it.
pub uninterp spec fn sha1_digest(data: Seq<u8>) -> Seq<u8>;

/// `sha1_smol::Sha1::from(..).digest().bytes()`: the 20-byte SHA-1 digest
/// of `data`. The digest is a function of the bytes alone; it is named, not
/// spelled out.
#[verifier::external_body]
fn sha1(data: &[u8]) -> (digest: [u8; 20])
    ensures
        digest@ == sha1_digest(data@),
{
    sha1_smol::Sha1::from(data).digest().bytes()
}

/// The fixed text that the WebSocket protocol appends to a client's key
/// before hashing.
pub open spec fn handshake_magic() -> Seq<u8> {
    "258EAFA5-E914-47DA-95CA-C5AB0DC85B11".spec_bytes()
}

/// The value of the `Sec-WebSocket-Accept` header that answers the client
/// key `key`.
pub fn ws_accept_key(key: &str) -> (token: String)
    ensures
        token@ == base64_spec(sha1_digest(key.spec_bytes() + handshake_magic())),
{
    let magic = "258EAFA5-E914-47DA-95CA-C5AB0DC85B11";
    let mut message: Vec<u8> = Vec::new();
    message.extend_from_slice(key.as_bytes());
    message.extend_from_slice(magic.as_bytes());
    proof {
        assert(message@ == key.spec_bytes() + handshake_magic());
    }
    let digest: [u8; 20] = sha1(message.as_slice());
    base64_encode(&digest)
}

/// The answer that completes the WebSocket handshake for the client key
/// `key`: status line 101, the two upgrade headers, the accept token, and
/// an empty line.
pub fn handshake_response(key: &str) -> (response: String)
    ensures
        response@
            == "HTTP/1.1 101 Switching Protocols\r\nUpgrade: websocket\r\nConnection: Upgrade\r\nSec-WebSocket-Accept: "@
            + base64_spec(sha1_digest(key.spec_bytes() + handshake_magic())) + "\r\n\r\n"@,
{
    let mut response = String::from_str(
        "HTTP/1.1 101 Switching Protocols\r\nUpgrade: websocket\r\nConnection: Upgrade\r\nSec-WebSocket-Accept: ",
    );
    let token = ws_accept_key(key);
    response.append(token.as_str());
    response.append("\r\n\r\n");
    response
}

/// The eight bytes of `n`, most significant first.
pub open spec fn be_u64(n: u64) -> Seq<u8> {
    seq![
        (n / 0x0100_0000_0000_0000) as u8,
        ((n / 0x0001_0000_0000_0000) % 256) as u8,
        ((n / 0x0000_0100_0000_0000) % 256) as u8,
        ((n / 0x0000_0001_0000_0000) % 256) as u8,
        ((n / 0x0000_0000_0100_0000) % 256) as u8,
        ((n / 0x0000_0000_0001_0000) % 256) as u8,
        ((n / 0x0000_0000_0000_0100) % 256) as u8,
        (n % 256) as u8,
    ]
}

/// The header of an unmasked, final WebSocket text frame with a payload of
/// `len` bytes: the byte `0x81`, then the length in one byte if it is below
/// 126, else the marker 126 and two bytes if it is below 65536, else the
/// marker 127 and eight bytes.
pub open spec fn text_frame_header(len: nat) -> Seq<u8> {
    if len < 126 {
        seq![0x81u8, len as u8]
    } else if len < 65536 {
        seq![0x81u8, 126u8, (len / 256) as u8, (len % 256) as u8]
    } else {
        seq![0x81u8, 127u8] + be_u64(len as u64)
    }
}

/// Wraps `payload` into one WebSocket text frame.
pub fn text_frame(payload: &[u8]) -> (frame: Vec<u8>)
    ensures
        frame@ == text_frame_header(payload@.len()) + payload@,
{
    let len: usize = payload.len();
    let mut frame: Vec<u8> = Vec::new();
    frame.push(0x81);
    if len < 126 {
        frame.push(len as u8);
    } else if len < 65536 {
        frame.push(126);
        frame.push((len / 256) as u8);
        frame.push((len % 256) as u8);
    } else {
        let n: u64 = len as u64;
        frame.push(127);
        frame.push((n / 0x0100_0000_0000_0000) as u8);
        frame.push(((n / 0x0001_0000_0000_0000) % 256) as u8);
        frame.push(((n / 0x0000_0100_0000_0000) % 256) as u8);
        frame.push(((n / 0x0000_0001_0000_0000) % 256) as u8);
        frame.push(((n / 0x0000_0000_0100_0000) % 256) as u8);
        frame.push(((n / 0x0000_0000_0001_0000) % 256) as u8);
        frame.push(((n / 0x0000_0000_0000_0100) % 256) as u8);
        frame.push((n % 256) as u8);
    }
    proof {
        assert(frame@ =~= text_frame_header(len as nat));
    }
    frame.extend_from_slice(payload);
    proof {
        assert(frame@ =~= text_frame_header(len as nat) + payload@);
    }
    frame
}

/// The content type served for a path, chosen by the first of these
/// extensions that the path ends with: `.js`, `.css`, `.json`, `.svg`,
/// `.png`, `.html`, `.otf`, `.woff`, `.woff2`. Anything else is an opaque
/// byte stream.
pub open spec fn content_type_spec(path: Seq<char>) -> Seq<char> {
    if ends_with(path, ".js"@) {
        "application/javascript; charset=utf-8"@
    } else if ends_with(path, ".css"@) {
        "text/css; charset=utf-8"@
    } else if ends_with(path, ".json"@) {
        "application/json"@
    } else if ends_with(path, ".svg"@) {
        "image/svg+xml"@
    } else if ends_with(path, ".png"@) {
        "image/png"@
    } else if ends_with(path, ".html"@) {
        "text/html; charset=utf-8"@
    } else if ends_with(path, ".otf"@) {
        "font/otf"@
    } else if ends_with(path, ".woff"@) {
        "font/woff"@
    } else if ends_with(path, ".woff2"@) {
        "font/woff2"@
    } else {
        "application/octet-stream"@
    }
}

/// The content type to serve the file at `path` with.
pub fn content_type_for(path: &str) -> (content_type: &'static str)
    ensures
        content_type@ == content_type_spec(path@),
{
    if str_ends_with(path, ".js") {
        "application/javascript; charset=utf-8"
    } else if str_ends_with(path, ".css") {
        "text/css; charset=utf-8"
    } else if str_ends_with(path, ".json") {
        "application/json"
    } else if str_ends_with(path, ".svg") {
        "image/svg+xml"
    } else if str_ends_with(path, ".png") {
        "image/png"
    } else if str_ends_with(path, ".html") {
        "text/html; charset=utf-8"
    } else if str_ends_with(path, ".otf") {
        "font/otf"
    } else if str_ends_with(path, ".woff") {
        "font/woff"
    } else if str_ends_with(path, ".woff2") {
        "font/woff2"
    } else {
        "application/octet-stream"
    }
}

/// Attacks seen since the last frame that was sent on. Frames are produced
/// far faster than they are shown; an attack lasts one frame, so it is held
/// here until the next frame goes out.
pub struct AttackLatch {
    pending: [bool; 10],
}

impl AttackLatch {
    /// The attacks held, by string index.
    pub closed spec fn pending(&self) -> [bool; 10] {
        self.pending
    }

    /// A latch that holds no attack.
    pub fn new() -> (latch: AttackLatch)
        ensures
            forall|i: int| 0 <= i < 10 ==> !#[trigger] latch.pending()[i],
    {
        AttackLatch { pending: [false;10] }
    }

    /// Adds the attacks of one frame to those held.
    pub fn latch(&mut self, attacks: &[bool; 10])
        ensures
            forall|i: int|
                0 <= i < 10 ==> #[trigger] final(self).pending()[i] == (old(self).pending()[i]
                    || attacks[i]),
    {
        let mut i: usize = 0;
        while i < 10
            invariant
                i <= 10,
                forall|k: int|
                    0 <= k < i ==> #[trigger] self.pending[k] == (old(self).pending[k]
                        || attacks[k]),
                forall|k: int| i <= k < 10 ==> #[trigger] self.pending[k] == old(self).pending[k],
            decreases 10 - i,
        {
            if attacks[i] {
                self.pending[i] = true;
            }
            i = i + 1;
        }
    }

    /// Hands out the attacks held and holds none afterwards.
    pub fn take(&mut self) -> (attacks: [bool; 10])
        ensures
            attacks == old(self).pending(),
            forall|i: int| 0 <= i < 10 ==> !#[trigger] final(self).pending()[i],
    {
        let attacks = self.pending;
        self.pending = [false;10];
        attacks
    }
}

/// What a request's head says, as far as the server cares.
pub struct HttpRequest {
    /// The requested path; `/` unless the request line names one.
    pub path: String,
    /// Whether an `Upgrade` header asks for the WebSocket protocol.
    pub is_upgrade: bool,
    /// The value of the `Sec-WebSocket-Key` header, if there is one.
    pub ws_key: Option<String>,
}

/// The mathematical content of a request head while it is being read.
pub struct RequestView {
    pub path: Seq<char>,
    pub is_upgrade: bool,
    pub ws_key: Option<Seq<char>>,
    /// No line has been taken in yet.
    pub at_request_line: bool,
}

/// Length in bytes of the header name `sec-websocket-key:`.
pub const KEY_HEADER_LEN: usize = 18;

/// Whether a line ends the head: it is empty but for white space.
pub open spec fn ends_head(line: Seq<char>) -> bool {
    trimmed_text(line).len() == 0
}

/// The value of a key header line, given the line without surrounding
/// white space: what follows the first 18 bytes, the length of the header
/// name, trimmed. The header name is matched on the line's lower-case form,
/// so the line itself may hold wider letters; if its byte 18 falls inside a
/// character, the line has no usable value.
pub open spec fn key_value(line: Seq<char>) -> Option<Seq<char>> {
    let bytes = encode_utf8(line);
    if is_char_boundary(bytes, KEY_HEADER_LEN as int) {
        Some(trimmed_text(decode_utf8(bytes.skip(KEY_HEADER_LEN as int))))
    } else {
        None
    }
}

/// The head after one more line, which does not end it. The first line is
/// the request line, whose second field is the path. Every line, the first
/// included, is matched case-insensitively against the two headers that
/// matter.
pub open spec fn head_after(before: RequestView, line: Seq<char>) -> RequestView {
    let text = trimmed_text(line);
    let lower = lowercase_text(text);
    let fields = whitespace_fields(text);
    RequestView {
        path: if before.at_request_line && fields.len() >= 2 {
            fields[1]
        } else {
            before.path
        },
        is_upgrade: before.is_upgrade || (starts_with(lower, "upgrade:"@) && contains_text(
            lower,
            "websocket"@,
        )),
        ws_key: if starts_with(lower, "sec-websocket-key:"@) && key_value(text) is Some {
            key_value(text)
        } else {
            before.ws_key
        },
        at_request_line: false,
    }
}

/// Reads a request head line by line.
pub struct RequestParser {
    path: String,
    is_upgrade: bool,
    ws_key: Option<String>,
    first: bool,
}

impl View for RequestParser {
    type V = RequestView;

    closed spec fn view(&self) -> RequestView {
        RequestView {
            path: self.path@,
            is_upgrade: self.is_upgrade,
            ws_key: match self.ws_key {
                Some(k) => Some(k@),
                None => None,
            },
            at_request_line: self.first,
        }
    }
}

impl RequestParser {
    /// A parser that has seen no line: path `/`, no upgrade, no key.
    pub fn new() -> (p: RequestParser)
        ensures
            p@ == (RequestView {
                path: "/"@,
                is_upgrade: false,
                ws_key: None,
                at_request_line: true,
            }),
    {
        RequestParser { path: String::from_str("/"), is_upgrade: false, ws_key: None, first: true }
    }

    /// Takes in the next line of the head. Returns `false`, and changes
    /// nothing, when the line ends the head; otherwise records what the line
    /// says and returns `true`.
    pub fn feed_line(&mut self, line: &str) -> (more: bool)
        ensures
            more == !ends_head(line@),
            final(self)@ == if more {
                head_after(old(self)@, line@)
            } else {
                old(self)@
            },
    {
        let text = str_trim(line);
        if text.is_empty() {
            return false;
        }
        if self.first {
            let fields = str_split_whitespace(text);
            if fields.len() >= 2 {
                self.path = fields[1].clone();
            }
            self.first = false;
        }
        let lower = str_to_lowercase(text);
        if str_starts_with(lower.as_str(), "upgrade:") && str_contains(
            lower.as_str(),
            "websocket",
        ) {
            self.is_upgrade = true;
        }
        if str_starts_with(lower.as_str(), "sec-websocket-key:") {
            if text.is_char_boundary(KEY_HEADER_LEN) {
                let (_, value) = text.split_at(KEY_HEADER_LEN);
                proof {
                    let bytes = encode_utf8(text@);
                    vstd::utf8::encode_utf8_decode_utf8(value@);
                    assert(value.spec_bytes() == bytes.skip(KEY_HEADER_LEN as int));
                    assert(value@ == decode_utf8(bytes.skip(KEY_HEADER_LEN as int)));
                }
                self.ws_key = Some(str_trim(value).to_owned());
            }
        }
        true
    }

    /// The head as read so far.
    pub fn finish(self) -> (request: HttpRequest)
        ensures
            request.path@ == self@.path,
            request.is_upgrade == self@.is_upgrade,
            match request.ws_key {
                Some(k) => self@.ws_key == Some(k@),
                None => self@.ws_key is None,
            },
    {
        HttpRequest { path: self.path, is_upgrade: self.is_upgrade, ws_key: self.ws_key }
    }
}

/// What the server does with a plain HTTP request.
#[derive(Debug, PartialEq, Eq)]
pub enum Route {
    /// Serve the visualisation page.
    Page,
    /// Serve the named file from the page's directory.
    File { relative: String },
    /// Answer 404.
    NotFound,
}

/// Whether `path` names the visualisation page.
pub open spec fn is_page_path(path: Seq<char>) -> bool {
    path == "/"@ || path == "/visualization.html"@ || path == "/index.html"@
}

/// Whether a relative path could leave the served directory: it holds `..`
/// or a backslash.
pub open spec fn is_unsafe_path(relative: Seq<char>) -> bool {
    contains_text(relative, ".."@) || contains_text(relative, "\\"@)
}

/// Decides how to answer a request for `path`. The page paths give the page
/// if one is loaded; any other path is taken relative to the page's
/// directory, leading slashes dropped, and refused if it could leave that
/// directory.
pub fn route(path: &str, have_page: bool) -> (r: Route)
    ensures
        match r {
            Route::Page => is_page_path(path@) && have_page,
            Route::NotFound => (is_page_path(path@) && !have_page) || (!is_page_path(path@)
                && is_unsafe_path(strip_leading(path@, '/'))),
            Route::File { relative } => {
                &&& !is_page_path(path@)
                &&& relative@ == strip_leading(path@, '/')
                &&& !is_unsafe_path(relative@)
            },
        },
{
    if str_eq(path, "/") || str_eq(path, "/visualization.html") || str_eq(path, "/index.html") {
        if have_page {
            Route::Page
        } else {
            Route::NotFound
        }
    } else {
        let clean = str_trim_start_matches(path, '/');
        if str_contains(clean, "..") || str_contains(clean, "\\") {
            Route::NotFound
        } else {
            Route::File { relative: clean.to_owned() }
        }
    }
}

} // verus!
