//! The opening handshake: the headers of the upgrade request as the HTTP
//! parser reports them, the accept value computed from the client's key,
//! and the text of the `101 Switching Protocols` response.

use crate::byte_order::append_bytes;
use rustc_serialize::base64::{ToBase64, STANDARD};
use vstd::prelude::*;
use vstd::string::*;

verus! {

/// The SHA-1 digest of `data`, as the `sha1` crate computes it.
pub uninterp spec fn sha1_digest(data: Seq<u8>) -> Seq<u8>;

/// The base64 text of `data` in the standard alphabet with padding, as
/// `rustc_serialize` produces it.
pub uninterp spec fn base64_standard(data: Seq<u8>) -> Seq<char>;

/// `sha1::Sha1`: a fresh hasher is fed `data` in one `update` and its
/// `output` fills a 20-byte buffer. The result depends on `data` alone.
#[verifier::external_body]
pub(crate) fn sha1(data: &[u8]) -> (digest: [u8; 20])
    ensures
        digest@ == sha1_digest(data@),
{
    let mut hasher = sha1::Sha1::new();
    hasher.update(data);
    let mut digest = [0u8; 20];
    hasher.output(&mut digest);
    digest
}

/// `rustc_serialize::base64::ToBase64::to_base64` with the `STANDARD`
/// configuration. The result depends on `data` alone.
#[verifier::external_body]
pub(crate) fn to_base64(data: &[u8]) -> (text: String)
    ensures
        text@ == base64_standard(data@),
{
    data.to_base64(STANDARD)
}

/// The GUID that every WebSocket server appends to the client's key.
pub open spec fn magic_guid() -> Seq<u8> {
    "258EAFA5-E914-47DA-95CA-C5AB0DC85B11".spec_bytes()
}

/// The accept value for a client key: the base64 text of the SHA-1 digest
/// of the key followed by the magic GUID.
pub open spec fn spec_gen_key(key: Seq<u8>) -> Seq<char> {
    base64_standard(sha1_digest(key + magic_guid()))
}

/// The response that completes the handshake with the given accept value.
pub open spec fn spec_handshake_response(accept: Seq<char>) -> Seq<char> {
    "HTTP/1.1 101 Switching Protocols\r\nConnection: Upgrade\r\nSec-WebSocket-Accept: "@
        + accept + "\r\nUpgrade: websocket\r\n\r\n"@
}

/// The name of the header that carries the client's key.
pub open spec fn key_header_name() -> Seq<u8> {
    "Sec-WebSocket-Key".spec_bytes()
}

/// Computes the accept value that answers the client key `key`.
pub fn gen_key(key: &[u8]) -> (accept: String)
    ensures
        accept@ == spec_gen_key(key@),
{
    let mut material: Vec<u8> = Vec::new();
    append_bytes(&mut material, key);
    append_bytes(&mut material, "258EAFA5-E914-47DA-95CA-C5AB0DC85B11".as_bytes());
    let digest: [u8; 20] = sha1(material.as_slice());
    to_base64(digest.as_slice())
}

/// Writes out the `101 Switching Protocols` response around the accept
/// value `accept`.
pub fn handshake_response(accept: &str) -> (response: String)
    ensures
        response@ == spec_handshake_response(accept@),
{
    let mut response: String = String::from_str(
        "HTTP/1.1 101 Switching Protocols\r\nConnection: Upgrade\r\nSec-WebSocket-Accept: ",
    );
    response.append(accept);
    response.append("\r\nUpgrade: websocket\r\n\r\n");
    response
}

/// Whether two byte strings are the same.
pub fn bytes_eq(a: &[u8], b: &[u8]) -> (same: bool)
    ensures
        same == (a@ == b@),
{
    if a.len() != b.len() {
        return false;
    }
    let mut i: usize = 0;
    while i < a.len()
        invariant
            i <= a.len(),
            a.len() == b.len(),
            forall|j: int| 0 <= j < i ==> a@[j] == b@[j],
        decreases a.len() - i,
    {
        if a[i] != b[i] {
            return false;
        }
        i += 1;
    }
    assert(a@ =~= b@);
    true
}

/// One header of a request: its name and its value, as raw bytes.
#[derive(Debug)]
pub struct HeaderField {
    pub name: Vec<u8>,
    pub value: Vec<u8>,
}

/// The headers of a request, by name. A name that is reported again
/// replaces what was stored for it.
#[derive(Debug)]
pub struct Headers {
    pub fields: Vec<HeaderField>,
}

impl Headers {
    /// The map that a list of fields stands for: later fields win.
    pub open spec fn map_of(fields: Seq<HeaderField>) -> Map<Seq<u8>, Seq<u8>>
        decreases fields.len(),
    {
        if fields.len() == 0 {
            Map::empty()
        } else {
            Self::map_of(fields.drop_last()).insert(fields.last().name@, fields.last().value@)
        }
    }

    /// No headers.
    pub fn new() -> (headers: Headers)
        ensures
            headers@ == Map::<Seq<u8>, Seq<u8>>::empty(),
    {
        Headers { fields: Vec::new() }
    }

    /// Stores `value` under `name`, in place of any earlier value.
    pub fn insert(&mut self, name: Vec<u8>, value: Vec<u8>)
        ensures
            final(self)@ == old(self)@.insert(name@, value@),
    {
        self.fields.push(HeaderField { name, value });
        assert(self.fields@.drop_last() =~= old(self).fields@);
    }

    /// The value stored under `name`, if there is one.
    pub fn get(&self, name: &[u8]) -> (value: Option<&Vec<u8>>)
        ensures
            match value {
                Some(v) => self@.contains_key(name@) && self@[name@] == v@,
                None => !self@.contains_key(name@),
            },
    {
        let mut i: usize = self.fields.len();
        assert(self.fields@.take(i as int) =~= self.fields@);
        while i > 0
            invariant
                i <= self.fields.len(),
                Self::map_of(self.fields@).contains_key(name@) == Self::map_of(
                    self.fields@.take(i as int),
                ).contains_key(name@),
                Self::map_of(self.fields@).contains_key(name@) ==> Self::map_of(self.fields@)[name@]
                    == Self::map_of(self.fields@.take(i as int))[name@],
            decreases i,
        {
            let ghost prefix = self.fields@.take(i as int);
            assert(prefix.drop_last() =~= self.fields@.take(i - 1));
            i -= 1;
            if bytes_eq(self.fields[i].name.as_slice(), name) {
                return Some(&self.fields[i].value);
            }
        }
        None
    }
}

impl View for Headers {
    type V = Map<Seq<u8>, Seq<u8>>;

    open spec fn view(&self) -> Map<Seq<u8>, Seq<u8>> {
        Self::map_of(self.fields@)
    }
}

/// Collects the headers that the HTTP parser reports, callback by
/// callback: a name first, then the value that belongs to it.
#[derive(Debug)]
pub struct HttpParser {
    pub current_key: Option<Vec<u8>>,
    pub headers: Headers,
}

impl HttpParser {
    /// The name announced last and still waiting for its value.
    pub open spec fn pending(&self) -> Option<Seq<u8>> {
        match self.current_key {
            Some(name) => Some(name@),
            None => None,
        }
    }

    /// A collector that has seen nothing yet.
    pub fn new() -> (parser: HttpParser)
        ensures
            parser.pending() == None::<Seq<u8>>,
            parser.headers@ == Map::<Seq<u8>, Seq<u8>>::empty(),
    {
        HttpParser { current_key: None, headers: Headers::new() }
    }

    /// A header name was found: remember it for the value to come. The
    /// result tells the parser to go on.
    pub fn on_header_field(&mut self, s: &[u8]) -> (go_on: bool)
        ensures
            go_on,
            final(self).pending() == Some(s@),
            final(self).headers@ == old(self).headers@,
    {
        let mut name: Vec<u8> = Vec::new();
        append_bytes(&mut name, s);
        self.current_key = Some(name);
        true
    }

    /// A header value was found: store it under the name announced last.
    /// A value that no name announced is dropped. The result tells the
    /// parser to go on.
    pub fn on_header_value(&mut self, s: &[u8]) -> (go_on: bool)
        ensures
            go_on,
            final(self).pending() == old(self).pending(),
            final(self).headers@ == match old(self).pending() {
                Some(name) => old(self).headers@.insert(name, s@),
                None => old(self).headers@,
            },
    {
        match &self.current_key {
            Some(key) => {
                let name: Vec<u8> = key.clone();
                let mut value: Vec<u8> = Vec::new();
                append_bytes(&mut value, s);
                self.headers.insert(name, value);
            },
            None => {},
        }
        true
    }

    /// The headers are complete. The result tells the parser to stop
    /// there: no body is read.
    pub fn on_headers_complete(&mut self) -> (go_on: bool)
        ensures
            !go_on,
            final(self).pending() == old(self).pending(),
            final(self).headers@ == old(self).headers@,
    {
        false
    }
}

} // verus!
