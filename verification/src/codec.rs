//! The wire format of a frame: masking, decoding from bytes and encoding
//! to bytes, and the laws that tie the two together.

use crate::byte_order::{
    append_bytes, be_bytes, be_value, lemma_be_bytes_len, lemma_be_bytes_two,
    lemma_be_value_bound, lemma_be_value_of_be_bytes, lemma_pow256_widths, read_u16_be,
    read_u64_be, write_u16_be, write_u64_be,
};
use crate::frame::{
    pack_header, DecodeError, FrameView, OpCode, WebSocketFrame, WebSocketFrameHeader,
    PAYLOAD_LEN_U16, PAYLOAD_LEN_U64,
};
use vstd::prelude::*;
use vstd::slice::slice_subrange;

verus! {

/// How many bytes of extended payload length follow a header with the
/// given length code.
pub open spec fn length_field_size(code: u8) -> nat {
    if code == PAYLOAD_LEN_U64 {
        8
    } else if code == PAYLOAD_LEN_U16 {
        2
    } else {
        0
    }
}

/// Every byte of `bytes` XORed with the key byte at its index modulo four.
pub open spec fn spec_apply_mask(mask: Seq<u8>, bytes: Seq<u8>) -> Seq<u8> {
    Seq::new(bytes.len(), |i: int| bytes[i] ^ mask[i % 4])
}

/// The payload length that follows a header with length code `code`, read
/// from the bytes behind the header.
pub open spec fn spec_read_length(code: u8, input: Seq<u8>) -> Result<nat, DecodeError> {
    let size = length_field_size(code);
    if input.len() < size {
        Err(DecodeError::Truncated)
    } else if size == 0 {
        Ok(code as nat)
    } else {
        Ok(be_value(input.subrange(0, size as int)))
    }
}

/// The four bytes of a mask key at the start of `input`.
pub open spec fn spec_read_mask(input: Seq<u8>) -> Result<Seq<u8>, DecodeError> {
    if input.len() < 4 {
        Err(DecodeError::Truncated)
    } else {
        Ok(input.subrange(0, 4))
    }
}

/// The first `len` bytes of `input`.
pub open spec fn spec_read_payload(len: nat, input: Seq<u8>) -> Result<Seq<u8>, DecodeError> {
    if input.len() < len {
        Err(DecodeError::Truncated)
    } else {
        Ok(input.subrange(0, len as int))
    }
}

/// The frame at the start of `input` and the number of bytes it occupies:
/// a big-endian header word, the extended length that the length code
/// calls for, the mask key if the header announces one, then the payload,
/// which is unmasked with that key.
pub open spec fn spec_read(input: Seq<u8>) -> Result<(FrameView, nat), DecodeError> {
    if input.len() < 2 {
        Err(DecodeError::Truncated)
    } else {
        match WebSocketFrameHeader::spec_parse(be_value(input.subrange(0, 2)) as u16) {
            Err(e) => Err(e),
            Ok(header) => match spec_read_length(header.payload_length, input.skip(2)) {
                Err(e) => Err(e),
                Ok(len) => {
                    let mask_at = 2 + length_field_size(header.payload_length) as int;
                    if header.masked {
                        match spec_read_mask(input.skip(mask_at)) {
                            Err(e) => Err(e),
                            Ok(key) => match spec_read_payload(len, input.skip(mask_at + 4)) {
                                Err(e) => Err(e),
                                Ok(raw) => Ok(
                                    (
                                        FrameView {
                                            header,
                                            mask: Some(key),
                                            payload: spec_apply_mask(key, raw),
                                        },
                                        (mask_at + 4 + len) as nat,
                                    ),
                                ),
                            },
                        }
                    } else {
                        match spec_read_payload(len, input.skip(mask_at)) {
                            Err(e) => Err(e),
                            Ok(raw) => Ok(
                                (
                                    FrameView { header, mask: None, payload: raw },
                                    (mask_at + len) as nat,
                                ),
                            ),
                        }
                    }
                },
            },
        }
    }
}

/// How many more bytes must follow `input` before the frame at its start
/// can be told apart further: what is missing of the header word, then of
/// the extended length, then of the mask key and payload together. Zero
/// when the frame is complete, and when its header word cannot be
/// decoded.
pub open spec fn spec_missing(input: Seq<u8>) -> nat {
    if input.len() < 2 {
        (2 - input.len()) as nat
    } else {
        match WebSocketFrameHeader::spec_parse(be_value(input.subrange(0, 2)) as u16) {
            Err(_) => 0,
            Ok(header) => {
                let fixed = 2 + length_field_size(header.payload_length);
                match spec_read_length(header.payload_length, input.skip(2)) {
                    Err(_) => (fixed - input.len()) as nat,
                    Ok(len) => {
                        let total = fixed + (if header.masked { 4nat } else { 0nat }) + len;
                        if input.len() < total {
                            (total - input.len()) as nat
                        } else {
                            0
                        }
                    },
                }
            },
        }
    }
}

/// Nothing is missing exactly when decoding does not fail for want of
/// bytes; and as long as fewer bytes are added than are missing, it does.
pub proof fn lemma_missing(input: Seq<u8>, more: Seq<u8>)
    ensures
        spec_missing(input) == 0 <==> spec_read(input) != Err::<(FrameView, nat), DecodeError>(
            DecodeError::Truncated,
        ),
        more.len() < spec_missing(input) ==> spec_read(input + more) == Err::<
            (FrameView, nat),
            DecodeError,
        >(DecodeError::Truncated),
{
    let longer = input + more;
    if input.len() >= 2 {
        assert(longer.subrange(0, 2) =~= input.subrange(0, 2));
        let parsed = WebSocketFrameHeader::spec_parse(be_value(input.subrange(0, 2)) as u16);
        if let Ok(header) = parsed {
            let size = length_field_size(header.payload_length);
            if input.len() >= 2 + size {
                if size > 0 {
                    assert(longer.skip(2).subrange(0, size as int) =~= input.skip(2).subrange(
                        0,
                        size as int,
                    ));
                }
            }
        }
    }
}

impl FrameView {
    /// The length code that goes on the wire: the one that the length of
    /// the payload determines, whatever code the header holds.
    pub open spec fn spec_wire_code(self) -> u8 {
        WebSocketFrameHeader::spec_determine_len(self.payload.len())
    }

    /// The frame with the length code of its header set to the one that
    /// its payload determines.
    pub open spec fn with_wire_code(self) -> FrameView {
        FrameView {
            header: WebSocketFrameHeader {
                fin: self.header.fin,
                rsv1: self.header.rsv1,
                rsv2: self.header.rsv2,
                rsv3: self.header.rsv3,
                masked: self.header.masked,
                opcode: self.header.opcode,
                payload_length: self.spec_wire_code(),
            },
            mask: self.mask,
            payload: self.payload,
        }
    }

    /// The extended payload length as the encoder writes it: the length
    /// of the payload in two bytes behind the 16-bit marker, in eight
    /// behind the 64-bit marker, nothing behind any other code.
    pub open spec fn spec_encode_length(self) -> Seq<u8> {
        if self.spec_wire_code() == PAYLOAD_LEN_U16 {
            be_bytes(self.payload.len(), 2)
        } else if self.spec_wire_code() == PAYLOAD_LEN_U64 {
            be_bytes(self.payload.len(), 8)
        } else {
            Seq::empty()
        }
    }

    /// The bytes of the frame on the wire: the header word with the
    /// header's flags and opcode and the length code that the payload
    /// determines, the extended length, the payload as it is. No mask key
    /// is written and the payload is never masked.
    pub open spec fn spec_encode(self) -> Seq<u8> {
        be_bytes(self.with_wire_code().header.spec_serialize() as nat, 2)
            + self.spec_encode_length() + self.payload
    }
}

/// Whatever decodes is well formed and lies within the input.
pub proof fn lemma_read_wf(input: Seq<u8>)
    ensures
        spec_read(input) matches Ok((frame, used)) ==> frame.wf() && used <= input.len(),
{
    if input.len() >= 2 {
        let word = be_value(input.subrange(0, 2)) as u16;
        if let Ok(header) = WebSocketFrameHeader::spec_parse(word) {
            WebSocketFrameHeader::lemma_serialize_parse(word);
            let size = length_field_size(header.payload_length);
            if input.len() >= 2 + size && size > 0 {
                lemma_be_value_bound(input.skip(2).subrange(0, size as int));
                lemma_pow256_widths();
            }
        }
    }
}

/// The opcode nibble of the first byte decides between an invalid-opcode
/// error and everything else: with a nibble other than 1, 2, 8, 9 and 10
/// decoding fails with that error and names the nibble; with one of those
/// it never does.
pub proof fn lemma_read_opcode(input: Seq<u8>)
    requires
        input.len() >= 2,
    ensures
        ({
            let n = input[0] & 0x0F;
            if n == 1 || n == 2 || n == 8 || n == 9 || n == 10 {
                !(spec_read(input) matches Err(DecodeError::InvalidOpcode(_)))
            } else {
                spec_read(input) == Err::<(FrameView, nat), DecodeError>(
                    DecodeError::InvalidOpcode(n),
                )
            }
        }),
{
    let first = input[0];
    let second = input[1];
    let word = be_value(input.subrange(0, 2)) as u16;
    assert(be_value(input.subrange(0, 2)) == first as nat * 256 + second as nat) by {
        reveal_with_fuel(be_value, 3);
    }
    assert(((word >> 8) & 0x0F) as u8 == first & 0x0F) by (bit_vector)
        requires
            word == first as u16 * 256 + second as u16,
    ;
    WebSocketFrameHeader::lemma_parse_opcode(word);
}

/// Masking twice with the same key gives back the bytes as they were.
pub proof fn lemma_mask_involution(mask: Seq<u8>, bytes: Seq<u8>)
    ensures
        spec_apply_mask(mask, spec_apply_mask(mask, bytes)) == bytes,
{
    let once = spec_apply_mask(mask, bytes);
    let twice = spec_apply_mask(mask, once);
    assert forall|i: int| 0 <= i < bytes.len() implies twice[i] == bytes[i] by {
        let b = bytes[i];
        let k = mask[i % 4];
        assert((b ^ k) ^ k == b) by (bit_vector);
    }
}

/// Decoding what the encoder wrote for an unmasked frame gives back its
/// flags, opcode and payload unchanged, with the length code that the
/// payload determines, and takes exactly the bytes that the encoder wrote,
/// whatever follows them. A frame whose header holds that code already,
/// as every frame from `from`, `pong` and `close_from` does, comes back
/// as it was.
pub proof fn lemma_read_of_write(frame: FrameView, rest: Seq<u8>)
    requires
        !frame.header.masked,
        frame.mask is None,
        frame.payload.len() <= u64::MAX,
    ensures
        spec_read(frame.spec_encode() + rest) == Ok::<(FrameView, nat), DecodeError>(
            (frame.with_wire_code(), frame.spec_encode().len()),
        ),
        frame.header.payload_length == frame.spec_wire_code() ==> frame.with_wire_code()
            == frame,
{
    let sent = frame.with_wire_code();
    let input = frame.spec_encode() + rest;
    let code = sent.header.payload_length;
    let len = frame.payload.len();
    let word = sent.header.spec_serialize();
    let size = length_field_size(code);
    lemma_pow256_widths();
    lemma_be_bytes_len(word as nat, 2);
    lemma_be_bytes_len(len, 2);
    lemma_be_bytes_len(len, 8);
    assert(input.subrange(0, 2) =~= be_bytes(word as nat, 2));
    lemma_be_value_of_be_bytes(word as nat, 2);
    sent.header.lemma_parse_serialize();
    if size > 0 {
        assert(input.skip(2).subrange(0, size as int) =~= frame.spec_encode_length());
        lemma_be_value_of_be_bytes(len, size);
    }
    assert(input.skip(2 + size as int).subrange(0, len as int) =~= frame.payload);
}

/// What the encoder writes announces the payload that follows: the
/// length code in the second byte is the one that the payload's length
/// determines, and the bytes behind header word and extended length are
/// the payload.
pub proof fn lemma_write_announces_payload(frame: FrameView)
    requires
        frame.payload.len() <= u64::MAX,
    ensures
        frame.spec_encode()[1] & 0x7F == frame.spec_wire_code(),
        frame.spec_encode().len() == 2 + length_field_size(frame.spec_wire_code())
            + frame.payload.len(),
        frame.spec_encode().skip(2 + length_field_size(frame.spec_wire_code()) as int)
            == frame.payload,
        spec_read_length(frame.spec_wire_code(), frame.spec_encode().skip(2)) == Ok::<
            nat,
            DecodeError,
        >(frame.payload.len()),
{
    let sent = frame.with_wire_code();
    let code = frame.spec_wire_code();
    let len = frame.payload.len();
    let word = sent.header.spec_serialize();
    let size = length_field_size(code);
    let wire = frame.spec_encode();
    lemma_pow256_widths();
    lemma_be_bytes_len(word as nat, 2);
    lemma_be_bytes_len(len, 2);
    lemma_be_bytes_len(len, 8);
    lemma_be_bytes_two(word as nat);
    let c = sent.header.opcode.spec_code();
    let (f, r1, r2, r3, m) = (
        sent.header.fin,
        sent.header.rsv1,
        sent.header.rsv2,
        sent.header.rsv3,
        sent.header.masked,
    );
    let low = ((word as nat) % 256) as u8;
    assert(low & 0x7F == code) by (bit_vector)
        requires
            code < 128,
            word == pack_header(f, r1, r2, r3, c, m, code),
            low == (word % 256) as u8,
    ;
    assert(wire[1] == low);
    if size > 0 {
        assert(wire.skip(2).subrange(0, size as int) =~= frame.spec_encode_length());
        lemma_be_value_of_be_bytes(len, size);
    }
    assert(wire.skip(2 + size as int) =~= frame.payload);
}

impl WebSocketFrame {
    /// Takes a header word apart. Fails with `InvalidOpcode` exactly when
    /// the opcode nibble is none of 1, 2, 8, 9 and 10.
    pub fn parse_header(buf: u16) -> (r: Result<WebSocketFrameHeader, DecodeError>)
        ensures
            r == WebSocketFrameHeader::spec_parse(buf),
    {
        let opcode_num: u8 = ((buf >> 8) & 0x0F) as u8;
        match OpCode::from(opcode_num) {
            Some(opcode) => Ok(
                WebSocketFrameHeader {
                    fin: buf & 0x8000 == 0x8000,
                    rsv1: buf & 0x4000 == 0x4000,
                    rsv2: buf & 0x2000 == 0x2000,
                    rsv3: buf & 0x1000 == 0x1000,
                    masked: buf & 0x80 == 0x80,
                    opcode,
                    payload_length: (buf & 0x7F) as u8,
                },
            ),
            None => Err(DecodeError::InvalidOpcode(opcode_num)),
        }
    }

    /// Packs a header into its header word.
    pub fn serialize_header(header: &WebSocketFrameHeader) -> (word: u16)
        ensures
            word == header.spec_serialize(),
    {
        let fin: u16 = if header.fin { 0x8000 } else { 0 };
        let rsv1: u16 = if header.rsv1 { 0x4000 } else { 0 };
        let rsv2: u16 = if header.rsv2 { 0x2000 } else { 0 };
        let rsv3: u16 = if header.rsv3 { 0x1000 } else { 0 };
        let masked: u16 = if header.masked { 0x80 } else { 0 };
        let opcode: u16 = header.opcode.code() as u16;
        fin | rsv1 | rsv2 | rsv3 | (opcode << 8) | masked | ((header.payload_length & 0x7F) as u16)
    }

    /// XORs every byte of `bytes` with the key byte at its index modulo
    /// four. Applying the same key again restores the bytes.
    pub fn apply_mask(mask: [u8; 4], bytes: &mut Vec<u8>)
        ensures
            final(bytes)@ == spec_apply_mask(mask@, old(bytes)@),
    {
        let n: usize = bytes.len();
        let mut i: usize = 0;
        while i < n
            invariant
                i <= n,
                bytes@.len() == n,
                old(bytes)@.len() == n,
                forall|j: int| 0 <= j < i ==> bytes@[j] == old(bytes)@[j] ^ mask@[j % 4],
                forall|j: int| i <= j < n ==> bytes@[j] == old(bytes)@[j],
            decreases n - i,
        {
            let b: u8 = bytes[i] ^ mask[i % 4];
            bytes.set(i, b);
            i += 1;
        }
    }

    /// Reads the payload length that belongs to the length code
    /// `payload_len` from `input`, the bytes behind the header. Fails with
    /// `Truncated` exactly when `input` is shorter than the length field.
    pub fn read_length(payload_len: u8, input: &[u8]) -> (r: Result<u64, DecodeError>)
        ensures
            match r {
                Ok(n) => spec_read_length(payload_len, input@) == Ok::<nat, DecodeError>(n as nat),
                Err(e) => spec_read_length(payload_len, input@) == Err::<nat, DecodeError>(e),
            },
    {
        if payload_len == PAYLOAD_LEN_U64 {
            if input.len() < 8 {
                Err(DecodeError::Truncated)
            } else {
                Ok(read_u64_be(input))
            }
        } else if payload_len == PAYLOAD_LEN_U16 {
            if input.len() < 2 {
                Err(DecodeError::Truncated)
            } else {
                Ok(read_u16_be(input) as u64)
            }
        } else {
            Ok(payload_len as u64)
        }
    }

    /// Reads a mask key, the first four bytes of `input`. Fails with
    /// `Truncated` exactly when `input` has fewer.
    pub fn read_mask(input: &[u8]) -> (r: Result<[u8; 4], DecodeError>)
        ensures
            match r {
                Ok(key) => spec_read_mask(input@) == Ok::<Seq<u8>, DecodeError>(key@),
                Err(e) => spec_read_mask(input@) == Err::<Seq<u8>, DecodeError>(e),
            },
    {
        if input.len() < 4 {
            Err(DecodeError::Truncated)
        } else {
            let key: [u8; 4] = [input[0], input[1], input[2], input[3]];
            assert(key@ =~= input@.subrange(0, 4));
            Ok(key)
        }
    }

    /// Reads a payload, the first `payload_len` bytes of `input`. Fails
    /// with `Truncated` exactly when `input` has fewer.
    pub fn read_payload(payload_len: usize, input: &[u8]) -> (r: Result<Vec<u8>, DecodeError>)
        ensures
            match r {
                Ok(payload) => spec_read_payload(payload_len as nat, input@) == Ok::<
                    Seq<u8>,
                    DecodeError,
                >(payload@),
                Err(e) => spec_read_payload(payload_len as nat, input@) == Err::<
                    Seq<u8>,
                    DecodeError,
                >(e),
            },
    {
        if input.len() < payload_len {
            Err(DecodeError::Truncated)
        } else {
            let mut payload: Vec<u8> = Vec::with_capacity(payload_len);
            append_bytes(&mut payload, slice_subrange(input, 0, payload_len));
            Ok(payload)
        }
    }

    /// Decodes the frame at the start of `input` and tells how many bytes
    /// it took. Fails with `InvalidOpcode` when the header's opcode nibble
    /// names no frame kind, with `Truncated` when `input` ends before the
    /// frame does. Bytes behind the frame are left alone.
    pub fn read(input: &[u8]) -> (r: Result<(WebSocketFrame, usize), DecodeError>)
        ensures
            match r {
                Ok((frame, used)) => spec_read(input@) == Ok::<(FrameView, nat), DecodeError>(
                    (frame@, used as nat),
                ) && frame.wf() && used <= input@.len(),
                Err(e) => spec_read(input@) == Err::<(FrameView, nat), DecodeError>(e),
            },
    {
        if input.len() < 2 {
            return Err(DecodeError::Truncated);
        }
        let word: u16 = read_u16_be(input);
        let header: WebSocketFrameHeader = match Self::parse_header(word) {
            Ok(header) => header,
            Err(e) => {
                return Err(e);
            },
        };
        let after_header: &[u8] = slice_subrange(input, 2, input.len());
        let len: u64 = match Self::read_length(header.payload_length, after_header) {
            Ok(len) => len,
            Err(e) => {
                return Err(e);
            },
        };
        let mask_at: usize = if header.payload_length == PAYLOAD_LEN_U64 {
            10
        } else if header.payload_length == PAYLOAD_LEN_U16 {
            4
        } else {
            2
        };
        let after_length: &[u8] = slice_subrange(input, mask_at, input.len());
        let mut mask_key: Option<[u8; 4]> = None;
        let mut payload_at: usize = mask_at;
        if header.masked {
            match Self::read_mask(after_length) {
                Ok(key) => {
                    mask_key = Some(key);
                    payload_at = mask_at + 4;
                },
                Err(e) => {
                    return Err(e);
                },
            }
        }
        let body: &[u8] = slice_subrange(input, payload_at, input.len());
        if len > body.len() as u64 {
            return Err(DecodeError::Truncated);
        }
        let mut payload: Vec<u8> = match Self::read_payload(len as usize, body) {
            Ok(payload) => payload,
            Err(e) => {
                return Err(e);
            },
        };
        if let Some(key) = mask_key {
            Self::apply_mask(key, &mut payload);
        }
        proof {
            WebSocketFrameHeader::lemma_serialize_parse(word);
            if header.payload_length == PAYLOAD_LEN_U16 {
                lemma_be_value_bound(after_header@.subrange(0, 2));
                lemma_pow256_widths();
            }
        }
        Ok((WebSocketFrame { header, payload, mask: mask_key }, payload_at + len as usize))
    }

    /// Tells how many more bytes to read behind `input`, what was read of
    /// a frame so far, before looking again: zero once `read` can decide,
    /// and never more than the frame still has. A count that does not fit
    /// the result is cut down to the largest that does.
    pub fn missing(input: &[u8]) -> (n: usize)
        ensures
            n as nat == if spec_missing(input@) <= usize::MAX {
                spec_missing(input@)
            } else {
                usize::MAX as nat
            },
    {
        let have: usize = input.len();
        if have < 2 {
            return 2 - have;
        }
        let word: u16 = read_u16_be(input);
        let header: WebSocketFrameHeader = match Self::parse_header(word) {
            Ok(header) => header,
            Err(_) => {
                return 0;
            },
        };
        let fixed: usize = if header.payload_length == PAYLOAD_LEN_U64 {
            10
        } else if header.payload_length == PAYLOAD_LEN_U16 {
            4
        } else {
            2
        };
        let after_header: &[u8] = slice_subrange(input, 2, have);
        let len: u64 = match Self::read_length(header.payload_length, after_header) {
            Ok(len) => len,
            Err(_) => {
                return fixed - have;
            },
        };
        let key_size: u128 = if header.masked { 4 } else { 0 };
        let total: u128 = fixed as u128 + key_size + len as u128;
        if have as u128 >= total {
            0
        } else {
            let rest: u128 = total - have as u128;
            if rest > usize::MAX as u128 {
                usize::MAX
            } else {
                rest as usize
            }
        }
    }

    /// Appends the frame's wire bytes to `output`: the header word, the
    /// payload's length in two or eight bytes where its length code is a
    /// marker, then the payload as it is. The length code written is the
    /// one that the payload's length determines, not the one that the
    /// header holds, so what is announced is what follows. No mask key is
    /// written, whatever the header's mask flag says.
    pub fn write(&self, output: &mut Vec<u8>)
        ensures
            final(output)@ == old(output)@ + self@.spec_encode(),
    {
        let len: usize = self.payload.len();
        let code: u8 = WebSocketFrameHeader::determine_len(len);
        let wire_header = WebSocketFrameHeader {
            fin: self.header.fin,
            rsv1: self.header.rsv1,
            rsv2: self.header.rsv2,
            rsv3: self.header.rsv3,
            masked: self.header.masked,
            opcode: self.header.opcode,
            payload_length: code,
        };
        let word: u16 = Self::serialize_header(&wire_header);
        let word_bytes: [u8; 2] = write_u16_be(word);
        append_bytes(output, word_bytes.as_slice());
        if code == PAYLOAD_LEN_U16 {
            let len_bytes: [u8; 2] = write_u16_be(len as u16);
            append_bytes(output, len_bytes.as_slice());
        } else if code == PAYLOAD_LEN_U64 {
            let len_bytes: [u8; 8] = write_u64_be(len as u64);
            append_bytes(output, len_bytes.as_slice());
        }
        append_bytes(output, self.payload.as_slice());
    }
}

} // verus!
