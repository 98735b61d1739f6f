//! The frame data model: opcodes, the two-byte frame header and the frame
//! itself, with the constructors for the frames this engine sends.

use vstd::prelude::*;
use vstd::string::*;

verus! {

/// Length code announcing a 16-bit extended payload length.
pub const PAYLOAD_LEN_U16: u8 = 126;

/// Length code announcing a 64-bit extended payload length.
pub const PAYLOAD_LEN_U64: u8 = 127;

/// Why a byte sequence could not be decoded into a frame.
#[derive(Debug, Clone, Copy, PartialEq, Eq, Structural)]
pub enum DecodeError {
    /// The opcode nibble of the header names no known frame kind.
    InvalidOpcode(u8),
    /// The input ends before the frame does.
    Truncated,
}

/// The purpose of a frame.
#[derive(Debug, Clone, Copy, PartialEq, Eq, Structural)]
pub enum OpCode {
    TextFrame,
    BinaryFrame,
    ConnectionClose,
    Ping,
    Pong,
}

impl OpCode {
    /// The opcode's number on the wire.
    pub open spec fn spec_code(self) -> u8 {
        match self {
            OpCode::TextFrame => 1,
            OpCode::BinaryFrame => 2,
            OpCode::ConnectionClose => 8,
            OpCode::Ping => 9,
            OpCode::Pong => 0xA,
        }
    }

    /// The opcode that a wire number stands for, if any.
    pub open spec fn spec_from(op: u8) -> Option<OpCode> {
        if op == 1 {
            Some(OpCode::TextFrame)
        } else if op == 2 {
            Some(OpCode::BinaryFrame)
        } else if op == 8 {
            Some(OpCode::ConnectionClose)
        } else if op == 9 {
            Some(OpCode::Ping)
        } else if op == 0xA {
            Some(OpCode::Pong)
        } else {
            None
        }
    }

    /// The opcode's number on the wire.
    pub fn code(self) -> (c: u8)
        ensures
            c == self.spec_code(),
    {
        match self {
            OpCode::TextFrame => 1,
            OpCode::BinaryFrame => 2,
            OpCode::ConnectionClose => 8,
            OpCode::Ping => 9,
            OpCode::Pong => 0xA,
        }
    }

    /// Recognizes a wire number; `None` for every number but 1, 2, 8, 9
    /// and 10.
    pub fn from(op: u8) -> (r: Option<OpCode>)
        ensures
            r == Self::spec_from(op),
    {
        match op {
            1 => Some(OpCode::TextFrame),
            2 => Some(OpCode::BinaryFrame),
            8 => Some(OpCode::ConnectionClose),
            9 => Some(OpCode::Ping),
            0xA => Some(OpCode::Pong),
            _ => None,
        }
    }

    /// An opcode's wire number fits in four bits and is recognized as
    /// that opcode.
    pub proof fn lemma_from_code(op: OpCode)
        ensures
            Self::spec_from(op.spec_code()) == Some(op),
            op.spec_code() < 16,
    {
    }

    /// A number is recognized only as the opcode that has it, and the
    /// numbers recognized are 1, 2, 8, 9 and 10.
    pub proof fn lemma_code_of_from(n: u8)
        ensures
            Self::spec_from(n) matches Some(op) ==> op.spec_code() == n,
            Self::spec_from(n) is Some <==> n == 1 || n == 2 || n == 8 || n == 9 || n == 10,
    {
    }
}

/// The first two bytes of a frame, taken apart.
#[derive(Debug, Clone, Copy, PartialEq, Eq, Structural)]
pub struct WebSocketFrameHeader {
    pub fin: bool,
    pub rsv1: bool,
    pub rsv2: bool,
    pub rsv3: bool,
    pub masked: bool,
    pub opcode: OpCode,
    pub payload_length: u8,
}

impl WebSocketFrameHeader {
    /// The length code for a payload of `len` bytes: the length itself
    /// below 126, the 16-bit marker below 65535, the 64-bit marker from
    /// there on.
    pub open spec fn spec_determine_len(len: nat) -> u8 {
        if len < 126 {
            len as u8
        } else if len < 65535 {
            PAYLOAD_LEN_U16
        } else {
            PAYLOAD_LEN_U64
        }
    }

    /// The header of an unmasked, final frame that carries `len` payload
    /// bytes.
    pub open spec fn spec_new_header(len: nat, opcode: OpCode) -> WebSocketFrameHeader {
        WebSocketFrameHeader {
            fin: true,
            rsv1: false,
            rsv2: false,
            rsv3: false,
            masked: false,
            opcode,
            payload_length: Self::spec_determine_len(len),
        }
    }

    /// Builds the header of an unmasked, final frame that carries `len`
    /// payload bytes.
    pub fn new_header(len: usize, opcode: OpCode) -> (header: WebSocketFrameHeader)
        ensures
            header == Self::spec_new_header(len as nat, opcode),
    {
        WebSocketFrameHeader {
            fin: true,
            rsv1: false,
            rsv2: false,
            rsv3: false,
            masked: false,
            payload_length: Self::determine_len(len),
            opcode,
        }
    }

    /// Picks the length code for a payload of `len` bytes.
    pub fn determine_len(len: usize) -> (code: u8)
        ensures
            code == Self::spec_determine_len(len as nat),
    {
        if len < 126 {
            len as u8
        } else if len < 65535 {
            PAYLOAD_LEN_U16
        } else {
            PAYLOAD_LEN_U64
        }
    }

    /// What a header word says: flags in the top nibble, the opcode in the
    /// next, then the mask flag and seven bits of length code. A word
    /// whose opcode nibble names no frame kind says nothing.
    pub open spec fn spec_parse(buf: u16) -> Result<WebSocketFrameHeader, DecodeError> {
        let opcode_num = ((buf >> 8) & 0x0F) as u8;
        match OpCode::spec_from(opcode_num) {
            Some(opcode) => Ok(
                WebSocketFrameHeader {
                    fin: buf & 0x8000 == 0x8000,
                    rsv1: buf & 0x4000 == 0x4000,
                    rsv2: buf & 0x2000 == 0x2000,
                    rsv3: buf & 0x1000 == 0x1000,
                    masked: buf & 0x80 == 0x80,
                    opcode,
                    payload_length: (buf & 0x7F) as u8,
                },
            ),
            None => Err(DecodeError::InvalidOpcode(opcode_num)),
        }
    }

    /// The header word: one bit per flag, the opcode's number below the
    /// flags of the first byte, the low seven bits of the length code
    /// below the mask flag of the second.
    pub open spec fn spec_serialize(self) -> u16 {
        pack_header(
            self.fin,
            self.rsv1,
            self.rsv2,
            self.rsv3,
            self.opcode.spec_code(),
            self.masked,
            self.payload_length,
        )
    }

    /// A header word parses exactly when its opcode nibble is one of 1,
    /// 2, 8, 9 and 10; any other nibble is reported as an invalid opcode.
    pub proof fn lemma_parse_opcode(buf: u16)
        ensures
            ({
                let n = ((buf >> 8) & 0x0F) as u8;
                if n == 1 || n == 2 || n == 8 || n == 9 || n == 10 {
                    Self::spec_parse(buf) matches Ok(header) && header.opcode.spec_code() == n
                } else {
                    Self::spec_parse(buf) == Err::<WebSocketFrameHeader, DecodeError>(
                        DecodeError::InvalidOpcode(n),
                    )
                }
            }),
    {
        OpCode::lemma_code_of_from(((buf >> 8) & 0x0F) as u8);
    }

    /// A header whose length code fits in seven bits is read back from its
    /// own header word unchanged.
    pub proof fn lemma_parse_serialize(self)
        requires
            self.payload_length < 128,
        ensures
            Self::spec_parse(self.spec_serialize()) == Ok::<WebSocketFrameHeader, DecodeError>(
                self,
            ),
    {
        let c = self.opcode.spec_code();
        let l = self.payload_length;
        let (f, r1, r2, r3, m) = (self.fin, self.rsv1, self.rsv2, self.rsv3, self.masked);
        let w = self.spec_serialize();
        OpCode::lemma_from_code(self.opcode);
        assert({
            &&& ((w >> 8) & 0x0F) as u8 == c
            &&& (w & 0x8000 == 0x8000) == f
            &&& (w & 0x4000 == 0x4000) == r1
            &&& (w & 0x2000 == 0x2000) == r2
            &&& (w & 0x1000 == 0x1000) == r3
            &&& (w & 0x80 == 0x80) == m
            &&& (w & 0x7F) as u8 == l
        }) by (bit_vector)
            requires
                c < 16,
                l < 128,
                w == pack_header(f, r1, r2, r3, c, m, l),
        ;
    }

    /// A header word that parses is the header word of what it parses to,
    /// and the length code parsed from it fits in seven bits.
    pub proof fn lemma_serialize_parse(buf: u16)
        requires
            Self::spec_parse(buf) is Ok,
        ensures
            Self::spec_parse(buf)->Ok_0.spec_serialize() == buf,
            Self::spec_parse(buf)->Ok_0.payload_length < 128,
    {
        let h = Self::spec_parse(buf)->Ok_0;
        let c = ((buf >> 8) & 0x0F) as u8;
        let l = (buf & 0x7F) as u8;
        let (f, r1, r2, r3, m) = (h.fin, h.rsv1, h.rsv2, h.rsv3, h.masked);
        OpCode::lemma_code_of_from(c);
        assert(l < 128 && buf == pack_header(f, r1, r2, r3, c, m, l)) by (bit_vector)
            requires
                c == ((buf >> 8) & 0x0F) as u8,
                l == (buf & 0x7F) as u8,
                f == (buf & 0x8000 == 0x8000),
                r1 == (buf & 0x4000 == 0x4000),
                r2 == (buf & 0x2000 == 0x2000),
                r3 == (buf & 0x1000 == 0x1000),
                m == (buf & 0x80 == 0x80),
        ;
    }
}

/// The sixteen bits of a header word, put together from their parts.
pub open spec fn pack_header(
    fin: bool,
    rsv1: bool,
    rsv2: bool,
    rsv3: bool,
    opcode: u8,
    masked: bool,
    code: u8,
) -> u16 {
    (if fin { 0x8000u16 } else { 0u16 })
        | (if rsv1 { 0x4000u16 } else { 0u16 })
        | (if rsv2 { 0x2000u16 } else { 0u16 })
        | (if rsv3 { 0x1000u16 } else { 0u16 })
        | ((opcode as u16) << 8)
        | (if masked { 0x80u16 } else { 0u16 })
        | ((code & 0x7F) as u16)
}

/// Whether a header's length code can stand before a payload of `len`
/// bytes: a code below 126 is the length itself, the 16-bit marker covers
/// what two bytes can count, the 64-bit marker what eight bytes can.
pub open spec fn length_code_admits(code: u8, len: nat) -> bool {
    if code == PAYLOAD_LEN_U64 {
        len <= u64::MAX
    } else if code == PAYLOAD_LEN_U16 {
        len <= u16::MAX
    } else {
        code < PAYLOAD_LEN_U16 && len == code
    }
}

/// A frame as a mathematical value.
pub struct FrameView {
    pub header: WebSocketFrameHeader,
    pub mask: Option<Seq<u8>>,
    pub payload: Seq<u8>,
}

impl FrameView {
    /// The unmasked, final frame with the given opcode and payload, its
    /// length code chosen by the payload's length.
    pub open spec fn outgoing(opcode: OpCode, payload: Seq<u8>) -> FrameView {
        FrameView {
            header: WebSocketFrameHeader::spec_new_header(payload.len(), opcode),
            mask: None,
            payload,
        }
    }

    /// The header's length code agrees with the payload, and a mask key of
    /// four bytes is present exactly when the header says so.
    pub open spec fn wf(self) -> bool {
        &&& length_code_admits(self.header.payload_length, self.payload.len())
        &&& self.header.masked <==> self.mask is Some
        &&& self.mask matches Some(key) ==> key.len() == 4
    }

    /// The payload that a close frame echoes back: the first two bytes of
    /// what was received, or nothing where there are not two.
    pub open spec fn close_body(received: Seq<u8>) -> Seq<u8> {
        if received.len() >= 2 {
            received.subrange(0, 2)
        } else {
            Seq::empty()
        }
    }

    /// A frame built by `outgoing` is well formed, and its length code is
    /// the one that its payload's length determines.
    pub proof fn lemma_outgoing_wf(opcode: OpCode, payload: Seq<u8>)
        requires
            payload.len() <= u64::MAX,
        ensures
            Self::outgoing(opcode, payload).wf(),
            Self::outgoing(opcode, payload).header.payload_length
                == WebSocketFrameHeader::spec_determine_len(payload.len()),
            !Self::outgoing(opcode, payload).header.masked,
    {
    }
}

/// One WebSocket message unit. The payload is always held unmasked. The
/// length code in the header is the one that was decoded, or the one that
/// the payload had when the frame was built; the encoder goes by the
/// payload alone.
#[derive(Debug)]
pub struct WebSocketFrame {
    pub header: WebSocketFrameHeader,
    pub mask: Option<[u8; 4]>,
    pub payload: Vec<u8>,
}

impl View for WebSocketFrame {
    type V = FrameView;

    open spec fn view(&self) -> FrameView {
        FrameView {
            header: self.header,
            mask: match self.mask {
                Some(key) => Some(key@),
                None => None,
            },
            payload: self.payload@,
        }
    }
}

impl WebSocketFrame {
    /// See `FrameView::wf`.
    pub open spec fn wf(&self) -> bool {
        self@.wf()
    }

    /// Tells whether the header's length code and mask flag agree with the
    /// payload and the mask key that the frame holds.
    pub fn is_well_formed(&self) -> (ok: bool)
        ensures
            ok == self.wf(),
    {
        let code: u8 = self.header.payload_length;
        let len: usize = self.payload.len();
        let length_ok = if code == PAYLOAD_LEN_U64 {
            true
        } else if code == PAYLOAD_LEN_U16 {
            len <= 0xFFFF
        } else {
            code < PAYLOAD_LEN_U16 && len == code as usize
        };
        length_ok && self.header.masked == self.mask.is_some()
    }

    /// A text frame that carries the UTF-8 bytes of `payload`.
    pub fn from(payload: &str) -> (frame: WebSocketFrame)
        ensures
            frame@ == FrameView::outgoing(OpCode::TextFrame, payload.spec_bytes()),
            frame.wf(),
    {
        let bytes: Vec<u8> = payload.as_bytes_vec();
        let len: usize = bytes.len();
        proof {
            FrameView::lemma_outgoing_wf(OpCode::TextFrame, bytes@);
        }
        WebSocketFrame {
            header: WebSocketFrameHeader::new_header(len, OpCode::TextFrame),
            payload: bytes,
            mask: None,
        }
    }

    /// The frame's opcode.
    pub fn get_opcode(&self) -> (opcode: OpCode)
        ensures
            opcode == self.header.opcode,
    {
        self.header.opcode
    }

    /// The pong that answers `ping_frame`: the same payload, byte for byte.
    pub fn pong(ping_frame: &WebSocketFrame) -> (frame: WebSocketFrame)
        ensures
            frame@ == FrameView::outgoing(OpCode::Pong, ping_frame.payload@),
            frame.wf(),
    {
        let payload: Vec<u8> = ping_frame.payload.clone();
        proof {
            FrameView::lemma_outgoing_wf(OpCode::Pong, payload@);
        }
        WebSocketFrame {
            header: WebSocketFrameHeader::new_header(payload.len(), OpCode::Pong),
            payload,
            mask: None,
        }
    }

    /// The close frame that answers `recv_frame`: it echoes the first two
    /// payload bytes, the status code, and is empty where the received
    /// payload has fewer than two bytes.
    pub fn close_from(recv_frame: &WebSocketFrame) -> (frame: WebSocketFrame)
        ensures
            frame@ == FrameView::outgoing(
                OpCode::ConnectionClose,
                FrameView::close_body(recv_frame.payload@),
            ),
            frame.wf(),
    {
        let mut body: Vec<u8> = Vec::new();
        if recv_frame.payload.len() >= 2 {
            body.push(recv_frame.payload[0]);
            body.push(recv_frame.payload[1]);
        }
        assert(body@ =~= FrameView::close_body(recv_frame.payload@));
        proof {
            FrameView::lemma_outgoing_wf(OpCode::ConnectionClose, body@);
        }
        WebSocketFrame {
            header: WebSocketFrameHeader::new_header(body.len(), OpCode::ConnectionClose),
            payload: body,
            mask: None,
        }
    }

    /// Whether this is a close frame.
    pub fn is_close(&self) -> (close: bool)
        ensures
            close == (self.header.opcode == OpCode::ConnectionClose),
    {
        self.header.opcode == OpCode::ConnectionClose
    }
}

} // verus!
