use vstd::prelude::*;

verus! {

/// Opcode of a continuation fragment.
pub const OP_CONTINUATION: u8 = 0x0;

/// Opcode of the first frame of a text message.
pub const OP_TEXT: u8 = 0x1;

/// Opcode of the first frame of a binary message.
pub const OP_BINARY: u8 = 0x2;

/// Opcode of a close control frame.
pub const OP_CLOSE: u8 = 0x8;

/// Opcode of a ping control frame.
pub const OP_PING: u8 = 0x9;

/// Opcode of a pong control frame.
pub const OP_PONG: u8 = 0xA;

/// Largest payload a control frame may carry.
pub const MAX_CONTROL_PAYLOAD: usize = 125;

pub open spec fn is_control(opcode: u8) -> bool {
    opcode == OP_CLOSE || opcode == OP_PING || opcode == OP_PONG
}

/// `256` to the power `n`.
pub open spec fn pow256(n: nat) -> nat
    decreases n,
{
    if n == 0 {
        1
    } else {
        pow256((n - 1) as nat) * 256
    }
}

/// The number that a byte sequence spells, most significant byte first.
pub open spec fn be_value(s: Seq<u8>) -> nat
    decreases s.len(),
{
    if s.len() == 0 {
        0
    } else {
        (be_value(s.drop_last()) * 256 + s.last()) as nat
    }
}

/// The `n` low-order bytes of `v`, most significant byte first.
pub open spec fn be_bytes(v: nat, n: nat) -> Seq<u8>
    decreases n,
{
    if n == 0 {
        Seq::empty()
    } else {
        be_bytes(v / 256, (n - 1) as nat).push((v % 256) as u8)
    }
}

pub proof fn lemma_be_bytes_len(v: nat, n: nat)
    ensures
        be_bytes(v, n).len() == n,
    decreases n,
{
    if n > 0 {
        lemma_be_bytes_len(v / 256, (n - 1) as nat);
    }
}

pub proof fn lemma_be_value_bound(s: Seq<u8>)
    ensures
        be_value(s) < pow256(s.len()),
    decreases s.len(),
{
    if s.len() > 0 {
        lemma_be_value_bound(s.drop_last());
        let a = be_value(s.drop_last());
        let p = pow256((s.len() - 1) as nat);
        assert(a * 256 + s.last() < p * 256) by (nonlinear_arith)
            requires
                a < p,
                s.last() < 256,
        ;
    }
}

/// Reading back the bytes that `be_bytes` wrote gives the number again.
pub proof fn lemma_be_round_trip(v: nat, n: nat)
    requires
        v < pow256(n),
    ensures
        be_value(be_bytes(v, n)) == v,
    decreases n,
{
    if n > 0 {
        let p = pow256((n - 1) as nat);
        assert(v / 256 < p) by (nonlinear_arith)
            requires
                v < p * 256,
        ;
        lemma_be_round_trip(v / 256, (n - 1) as nat);
        let s = be_bytes(v, n);
        assert(s.drop_last() == be_bytes(v / 256, (n - 1) as nat));
    }
}

pub proof fn lemma_pow256_values()
    ensures
        pow256(2) == 0x10000,
        pow256(7) == 0x100_0000_0000_0000,
        pow256(8) == 0x1_0000_0000_0000_0000,
{
    reveal_with_fuel(pow256, 9);
}

/// Reads the number spelled by `buf[start..start + n]`.
fn read_be(buf: &[u8], start: usize, n: usize) -> (r: u64)
    requires
        n <= 8,
        start + n <= buf@.len(),
    ensures
        r as nat == be_value(buf@.subrange(start as int, start + n)),
{
    proof {
        lemma_pow256_values();
    }
    let mut v: u64 = 0;
    let mut i: usize = start;
    let len: usize = buf.len();
    assert(start + n <= len);
    let end: usize = start + n;
    while i < end
        invariant
            end == start + n,
            start <= i <= end,
            n <= 8,
            start + n <= buf@.len(),
            v as nat == be_value(buf@.subrange(start as int, i as int)),
            pow256(7) == 0x100_0000_0000_0000,
        decreases end - i,
    {
        let ghost s = buf@.subrange(start as int, i as int);
        proof {
            lemma_be_value_bound(s);
            lemma_pow_monotone(s.len(), 7);
        }
        let b = buf[i];
        v = v * 256 + b as u64;
        i = i + 1;
        let ghost t = buf@.subrange(start as int, i as int);
        assert(t.drop_last() == s);
    }
    v
}

pub proof fn lemma_pow_monotone(a: nat, b: nat)
    requires
        a <= b,
    ensures
        pow256(a) <= pow256(b),
    decreases b,
{
    if a < b {
        lemma_pow_monotone(a, (b - 1) as nat);
    }
}

/// Appends the `n` low-order bytes of `v`, most significant byte first.
fn push_be(out: &mut Vec<u8>, v: u64, n: usize)
    ensures
        final(out)@ == old(out)@ + be_bytes(v as nat, n as nat),
    decreases n,
{
    if n == 0 {
        assert(old(out)@ + be_bytes(v as nat, 0) == old(out)@);
    } else {
        push_be(out, v / 256, n - 1);
        out.push((v % 256) as u8);
        assert(be_bytes(v as nat, n as nat) == be_bytes((v / 256) as nat, (n - 1) as nat).push(
            (v % 256) as u8,
        ));
    }
}

/// The fixed part of a frame: the two leading bytes, the extended length
/// and the masking key.
pub struct FrameHeader {
    pub fin: bool,
    pub opcode: u8,
    pub mask: Option<[u8; 4]>,
    pub payload_len: u64,
    pub header_len: usize,
}

/// Bytes of extended length that follow the second byte.
pub open spec fn ext_len_size(b1: u8) -> nat {
    if b1 % 128 == 126 {
        2
    } else if b1 % 128 == 127 {
        8
    } else {
        0
    }
}

/// Size of the whole header announced by the second byte.
pub open spec fn header_size(b1: u8) -> nat {
    2 + ext_len_size(b1) + if b1 >= 128 {
        4nat
    } else {
        0nat
    }
}

pub open spec fn header_complete(buf: Seq<u8>) -> bool {
    buf.len() >= 2 && buf.len() >= header_size(buf[1])
}

/// The payload length that a complete header declares.
pub open spec fn declared_len(buf: Seq<u8>) -> nat {
    let l = buf[1] % 128;
    if l == 126 {
        be_value(buf.subrange(2, 4))
    } else if l == 127 {
        be_value(buf.subrange(2, 10))
    } else {
        l as nat
    }
}

/// The masking key of a complete header whose mask bit is set.
pub open spec fn mask_key_of(buf: Seq<u8>) -> Seq<u8> {
    let s = 2 + ext_len_size(buf[1]);
    buf.subrange(s as int, s + 4int)
}

impl FrameHeader {
    /// `self` is what the header at the start of `buf` says.
    pub open spec fn describes(self, buf: Seq<u8>) -> bool {
        &&& header_complete(buf)
        &&& self.fin == (buf[0] >= 128)
        &&& self.opcode == buf[0] % 16
        &&& self.payload_len == declared_len(buf)
        &&& self.header_len == header_size(buf[1])
        &&& (self.mask is Some <==> buf[1] >= 128)
        &&& (self.mask matches Some(k) ==> k@ == mask_key_of(buf))
    }
}

/// Parses the header at the start of `buf`; `None` while `buf` holds less
/// than the whole header.
pub fn parse_header(buf: &[u8]) -> (r: Option<FrameHeader>)
    ensures
        r is None <==> !header_complete(buf@),
        r matches Some(h) ==> h.describes(buf@),
{
    let len: usize = buf.len();
    if len < 2 {
        return None;
    }
    let b0 = buf[0];
    let b1 = buf[1];
    let code = b1 % 128;
    let ext: usize = if code == 126 {
        2
    } else if code == 127 {
        8
    } else {
        0
    };
    let masked = b1 >= 128;
    let header_len: usize = 2 + ext + if masked {
        4
    } else {
        0
    };
    if len < header_len {
        return None;
    }
    let payload_len: u64 = if ext == 0 {
        code as u64
    } else {
        read_be(buf, 2, ext)
    };
    let mask = if masked {
        let s = 2 + ext;
        let k: [u8; 4] = [buf[s], buf[s + 1], buf[s + 2], buf[s + 3]];
        assert(k@ =~= mask_key_of(buf@));
        Some(k)
    } else {
        None
    };
    Some(FrameHeader { fin: b0 >= 128, opcode: b0 % 16, mask, payload_len, header_len })
}

/// XOR of each payload byte with the key byte at its position modulo four.
pub open spec fn mask_seq(p: Seq<u8>, k: Seq<u8>) -> Seq<u8> {
    Seq::new(p.len(), |i: int| p[i] ^ k[i % 4])
}

/// Masks (or, the same thing, unmasks) `payload` with `key`.
pub fn apply_mask(payload: &[u8], key: &[u8; 4]) -> (r: Vec<u8>)
    ensures
        r@ == mask_seq(payload@, key@),
{
    let mut out: Vec<u8> = Vec::with_capacity(payload.len());
    let mut i: usize = 0;
    while i < payload.len()
        invariant
            i <= payload@.len(),
            out@ =~= mask_seq(payload@.subrange(0, i as int), key@),
        decreases payload@.len() - i,
    {
        out.push(payload[i] ^ key[i % 4]);
        i = i + 1;
    }
    assert(payload@.subrange(0, i as int) =~= payload@);
    out
}

/// Masking twice with one key gives the payload back.
pub proof fn lemma_mask_involution(p: Seq<u8>, k: Seq<u8>)
    requires
        k.len() == 4,
    ensures
        mask_seq(mask_seq(p, k), k) == p,
{
    assert forall|i: int| 0 <= i < p.len() implies #[trigger] mask_seq(mask_seq(p, k), k)[i]
        == p[i] by {
        let x = p[i];
        let y = k[i % 4];
        assert((x ^ y) ^ y == x) by (bit_vector);
    }
    assert(mask_seq(mask_seq(p, k), k) =~= p);
}

/// One frame of the wire protocol. `payload` is held unmasked; `mask` is the
/// key that it travels under, if any.
pub struct Frame {
    pub fin: bool,
    pub opcode: u8,
    pub mask: Option<[u8; 4]>,
    pub payload: Vec<u8>,
}

/// The value of a frame.
pub struct FrameView {
    pub fin: bool,
    pub opcode: u8,
    pub mask: Option<Seq<u8>>,
    pub payload: Seq<u8>,
}

impl View for Frame {
    type V = FrameView;

    open spec fn view(&self) -> FrameView {
        FrameView {
            fin: self.fin,
            opcode: self.opcode,
            mask: match self.mask {
                Some(k) => Some(k@),
                None => None,
            },
            payload: self.payload@,
        }
    }
}

/// The length code of the second byte (mask bit clear) and its extension.
pub open spec fn length_field(n: nat) -> Seq<u8> {
    if n < 126 {
        seq![n as u8]
    } else if n <= 65535 {
        seq![126u8] + be_bytes(n, 2)
    } else {
        seq![127u8] + be_bytes(n, 8)
    }
}

/// A frame that can be written: a four-bit opcode, a four-byte key and a
/// length that fits in eight bytes.
pub open spec fn encodable(f: FrameView) -> bool {
    &&& f.opcode < 16
    &&& (f.mask matches Some(k) ==> k.len() == 4)
    &&& f.payload.len() < pow256(8)
}

/// The bytes of a frame on the wire.
pub open spec fn frame_bytes(f: FrameView) -> Seq<u8> {
    let b0 = ((if f.fin {
        128int
    } else {
        0int
    }) + f.opcode) as u8;
    let lf = length_field(f.payload.len());
    match f.mask {
        None => seq![b0] + lf + f.payload,
        Some(k) => seq![b0] + lf.update(0, (lf[0] + 128) as u8) + k + mask_seq(f.payload, k),
    }
}

/// The frame at the start of `buf` and the number of bytes it takes, or
/// `None` while `buf` holds less than the whole frame.
pub open spec fn parse_frame(buf: Seq<u8>) -> Option<(FrameView, nat)> {
    if !header_complete(buf) {
        None
    } else {
        let hs = header_size(buf[1]);
        let end = hs + declared_len(buf);
        if buf.len() < end {
            None
        } else {
            let raw = buf.subrange(hs as int, end as int);
            let mask = if buf[1] >= 128 {
                Some(mask_key_of(buf))
            } else {
                None
            };
            let payload = match mask {
                Some(k) => mask_seq(raw, k),
                None => raw,
            };
            Some((FrameView { fin: buf[0] >= 128, opcode: (buf[0] % 16) as u8, mask, payload }, end))
        }
    }
}

/// Writes the length code (with the mask bit if `masked`) and its extension.
pub fn push_length(out: &mut Vec<u8>, n: usize, masked: bool)
    ensures
        final(out)@ == old(out)@ + (if masked {
            length_field(n as nat).update(0, (length_field(n as nat)[0] + 128) as u8)
        } else {
            length_field(n as nat)
        }),
{
    let bit: u8 = if masked {
        128
    } else {
        0
    };
    let ghost lf = length_field(n as nat);
    if n < 126 {
        out.push(bit + n as u8);
    } else if n <= 65535 {
        out.push(bit + 126);
        push_be(out, n as u64, 2);
    } else {
        out.push(bit + 127);
        push_be(out, n as u64, 8);
    }
    proof {
        lemma_be_bytes_len(n as nat, 2);
        lemma_be_bytes_len(n as nat, 8);
    }
    assert(final(out)@ =~= old(out)@ + (if masked {
        lf.update(0, (lf[0] + 128) as u8)
    } else {
        lf
    }));
}

/// Writes a frame.
pub fn encode_frame(f: &Frame) -> (r: Vec<u8>)
    requires
        f.opcode < 16,
    ensures
        r@ == frame_bytes(f@),
{
    let mut out: Vec<u8> = Vec::new();
    let b0: u8 = if f.fin {
        128 + f.opcode
    } else {
        f.opcode
    };
    out.push(b0);
    match &f.mask {
        None => {
            push_length(&mut out, f.payload.len(), false);
            let mut i: usize = 0;
            let ghost start = out@;
            while i < f.payload.len()
                invariant
                    i <= f.payload@.len(),
                    out@ =~= start + f.payload@.subrange(0, i as int),
                decreases f.payload@.len() - i,
            {
                out.push(f.payload[i]);
                i = i + 1;
            }
        },
        Some(k) => {
            push_length(&mut out, f.payload.len(), true);
            out.push(k[0]);
            out.push(k[1]);
            out.push(k[2]);
            out.push(k[3]);
            let masked = apply_mask(f.payload.as_slice(), k);
            let mut i: usize = 0;
            let ghost start = out@;
            while i < masked.len()
                invariant
                    i <= masked@.len(),
                    out@ =~= start + masked@.subrange(0, i as int),
                decreases masked@.len() - i,
            {
                out.push(masked[i]);
                i = i + 1;
            }
        },
    }
    assert(out@ =~= frame_bytes(f@));
    out
}

/// Copies `buf[start..end]`.
pub fn copy_range(buf: &[u8], start: usize, end: usize) -> (r: Vec<u8>)
    requires
        start <= end <= buf@.len(),
    ensures
        r@ == buf@.subrange(start as int, end as int),
{
    let mut out: Vec<u8> = Vec::new();
    let mut i: usize = start;
    while i < end
        invariant
            start <= i <= end,
            end <= buf@.len(),
            out@ =~= buf@.subrange(start as int, i as int),
        decreases end - i,
    {
        out.push(buf[i]);
        i = i + 1;
    }
    out
}

/// The payload of the frame whose header `h` starts `buf`, unmasked, and the
/// frame's total size; `None` while `buf` holds less than the whole frame.
pub fn frame_payload(buf: &[u8], h: &FrameHeader) -> (r: Option<(Vec<u8>, usize)>)
    requires
        h.describes(buf@),
    ensures
        r is None <==> parse_frame(buf@) is None,
        r matches Some((p, n)) ==> parse_frame(buf@) matches Some((f, m)) && f.payload == p@ && m
            == n,
{
    let len: usize = buf.len();
    if (len - h.header_len) as u64 >= h.payload_len {
        let end: usize = h.header_len + h.payload_len as usize;
        let raw = copy_range(buf, h.header_len, end);
        let payload = match &h.mask {
            Some(k) => apply_mask(raw.as_slice(), k),
            None => raw,
        };
        Some((payload, end))
    } else {
        None
    }
}

/// Reads the frame at the start of `buf`: the frame and the bytes it took,
/// or `None` while `buf` holds less than a whole frame.
pub fn decode_frame(buf: &[u8]) -> (r: Option<(Frame, usize)>)
    ensures
        match r {
            None => parse_frame(buf@) is None,
            Some((f, n)) => parse_frame(buf@) == Some((f@, n as nat)),
        },
{
    match parse_header(buf) {
        None => None,
        Some(h) => match frame_payload(buf, &h) {
            None => None,
            Some((payload, n)) => {
                let f = Frame { fin: h.fin, opcode: h.opcode, mask: h.mask, payload };
                Some((f, n))
            },
        },
    }
}

/// Reading back a written frame gives the frame, whatever follows it.
pub proof fn lemma_frame_round_trip(f: FrameView, rest: Seq<u8>)
    requires
        encodable(f),
    ensures
        parse_frame(frame_bytes(f) + rest) == Some((f, frame_bytes(f).len())),
{
    let n = f.payload.len();
    let bytes = frame_bytes(f);
    let buf = bytes + rest;
    let lf = length_field(n);
    lemma_pow256_values();
    lemma_be_bytes_len(n, 2);
    lemma_be_bytes_len(n, 8);
    let ext: nat = if n < 126 {
        0
    } else if n <= 65535 {
        2
    } else {
        8
    };
    assert(lf.len() == 1 + ext);
    let b0 = ((if f.fin {
        128int
    } else {
        0int
    }) + f.opcode) as u8;
    assert(buf[0] == b0);
    assert(buf[0] >= 128 <==> f.fin);
    assert(buf[0] % 16 == f.opcode);
    let masked = f.mask is Some;
    assert(buf[1] == (if masked {
        (lf[0] + 128) as u8
    } else {
        lf[0]
    }));
    assert(ext_len_size(buf[1]) == ext);
    assert(buf[1] >= 128 <==> masked);
    let hs = header_size(buf[1]);
    assert(hs == 2 + ext + if masked {
        4nat
    } else {
        0nat
    });
    if n >= 126 && n <= 65535 {
        assert(buf.subrange(2, 4) =~= be_bytes(n, 2));
        lemma_be_round_trip(n, 2);
    } else if n > 65535 {
        assert(buf.subrange(2, 10) =~= be_bytes(n, 8));
        lemma_be_round_trip(n, 8);
    }
    assert(declared_len(buf) == n);
    match f.mask {
        Some(k) => {
            assert(mask_key_of(buf) =~= k);
            assert(buf.subrange(hs as int, (hs + n) as int) =~= mask_seq(f.payload, k));
            lemma_mask_involution(f.payload, k);
        },
        None => {
            assert(buf.subrange(hs as int, (hs + n) as int) =~= f.payload);
        },
    }
    assert(bytes.len() == hs + n);
}

/// The unmasked, final frame that carries `payload` under `opcode`.
pub open spec fn server_frame(opcode: u8, payload: Seq<u8>) -> FrameView {
    FrameView { fin: true, opcode, mask: None, payload }
}

/// Writes an unmasked final frame; frames sent to a client are never masked.
pub fn unmasked_frame(opcode: u8, payload: &[u8]) -> (r: Vec<u8>)
    requires
        opcode < 16,
    ensures
        r@ == frame_bytes(server_frame(opcode, payload@)),
{
    let f = Frame { fin: true, opcode, mask: None, payload: copy_range(payload, 0, payload.len()) };
    assert(payload@.subrange(0, payload@.len() as int) =~= payload@);
    encode_frame(&f)
}

/// Writes a text frame carrying `payload`.
pub fn text_frame(payload: &[u8]) -> (r: Vec<u8>)
    ensures
        r@ == frame_bytes(server_frame(OP_TEXT, payload@)),
{
    unmasked_frame(OP_TEXT, payload)
}

/// Writes a control frame, or gives `None` where the payload is longer than
/// a control frame may carry.
pub fn control_frame(opcode: u8, payload: &[u8]) -> (r: Option<Vec<u8>>)
    requires
        is_control(opcode),
    ensures
        r is Some <==> payload@.len() <= MAX_CONTROL_PAYLOAD,
        r matches Some(b) ==> b@ == frame_bytes(server_frame(opcode, payload@)),
{
    if payload.len() > MAX_CONTROL_PAYLOAD {
        None
    } else {
        Some(unmasked_frame(opcode, payload))
    }
}

/// Payload of a close frame: the code, then the reason.
pub open spec fn close_payload(code: u16, reason: Seq<u8>) -> Seq<u8> {
    be_bytes(code as nat, 2) + reason
}

/// Writes a close frame with `code` and `reason`, or gives `None` where the
/// two do not fit in a control frame.
pub fn close_frame(code: u16, reason: &[u8]) -> (r: Option<Vec<u8>>)
    ensures
        r is Some <==> reason@.len() + 2 <= MAX_CONTROL_PAYLOAD,
        r matches Some(b) ==> b@ == frame_bytes(server_frame(OP_CLOSE, close_payload(code, reason@))),
{
    let mut payload: Vec<u8> = Vec::new();
    push_be(&mut payload, code as u64, 2);
    let mut i: usize = 0;
    let ghost start = payload@;
    proof {
        lemma_be_bytes_len(code as nat, 2);
    }
    while i < reason.len()
        invariant
            i <= reason@.len(),
            start.len() == 2,
            payload@ =~= start + reason@.subrange(0, i as int),
        decreases reason@.len() - i,
    {
        payload.push(reason[i]);
        i = i + 1;
    }
    assert(payload@ =~= close_payload(code, reason@));
    control_frame(OP_CLOSE, payload.as_slice())
}

/// Writes a pong frame that mirrors `payload`, or gives `None` where the
/// payload is longer than a control frame may carry.
pub fn pong_frame(payload: &[u8]) -> (r: Option<Vec<u8>>)
    ensures
        r is Some <==> payload@.len() <= MAX_CONTROL_PAYLOAD,
        r matches Some(b) ==> b@ == frame_bytes(server_frame(OP_PONG, payload@)),
{
    control_frame(OP_PONG, payload)
}

/// A payload under 126 bytes has its length in the second byte alone; up to
/// 65535 bytes, the code 126 and two bytes of length follow; beyond, the code
/// 127 and eight bytes of length.
pub proof fn lemma_length_encoding(f: FrameView)
    requires
        encodable(f),
        f.mask is None,
    ensures
        f.payload.len() < 126 ==> frame_bytes(f)[1] == f.payload.len() && frame_bytes(f).len() == 2
            + f.payload.len(),
        126 <= f.payload.len() <= 65535 ==> frame_bytes(f)[1] == 126 && frame_bytes(f).subrange(2, 4)
            == be_bytes(f.payload.len(), 2) && frame_bytes(f).len() == 4 + f.payload.len(),
        65535 < f.payload.len() ==> frame_bytes(f)[1] == 127 && frame_bytes(f).subrange(2, 10)
            == be_bytes(f.payload.len(), 8) && frame_bytes(f).len() == 10 + f.payload.len(),
{
    let n = f.payload.len();
    lemma_be_bytes_len(n, 2);
    lemma_be_bytes_len(n, 8);
    let b = frame_bytes(f);
    if 126 <= n <= 65535 {
        assert(b.subrange(2, 4) =~= be_bytes(n, 2));
    } else if 65535 < n {
        assert(b.subrange(2, 10) =~= be_bytes(n, 8));
    }
}

} // verus!
