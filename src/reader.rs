use vstd::prelude::*;
use vstd::string::StringSliceAdditionalSpecFns;

use crate::frame::{
    copy_range, close_frame, parse_header, frame_payload, pong_frame, FrameHeader, MAX_CONTROL_PAYLOAD,
    OP_BINARY, OP_CLOSE, OP_PING, OP_PONG,
};

verus! {

/// Close code of an orderly shutdown.
pub const NORMAL_CLOSURE: u16 = 1000;

/// Close code of a protocol violation.
pub const PROTOCOL_ERROR: u16 = 1002;

pub const UNMASKED_TEXT: &'static str = "Client frames must be masked";

pub const CONTROL_TOO_LARGE_TEXT: &'static str = "Control frame too large";

pub const FRAGMENTED_CONTROL_TEXT: &'static str = "Control frames must not be fragmented";

pub const UNSUPPORTED_OPCODE_TEXT: &'static str = "Unsupported opcode";

/// Why a connection is being closed.
pub enum CloseCause {
    /// A client frame came without a mask.
    Unmasked,
    /// A control frame declared more than 125 bytes.
    ControlTooLarge,
    /// A control frame came without FIN.
    FragmentedControl,
    /// A frame came with an opcode outside the protocol.
    UnsupportedOpcode,
    /// The peer sent a close frame with this code and reason.
    Peer { code: u16, reason: Vec<u8> },
}

pub enum CauseView {
    Unmasked,
    ControlTooLarge,
    FragmentedControl,
    UnsupportedOpcode,
    Peer { code: u16, reason: Seq<u8> },
}

impl View for CloseCause {
    type V = CauseView;

    open spec fn view(&self) -> CauseView {
        match self {
            CloseCause::Unmasked => CauseView::Unmasked,
            CloseCause::ControlTooLarge => CauseView::ControlTooLarge,
            CloseCause::FragmentedControl => CauseView::FragmentedControl,
            CloseCause::UnsupportedOpcode => CauseView::UnsupportedOpcode,
            CloseCause::Peer { code, reason } => CauseView::Peer { code: *code, reason: reason@ },
        }
    }
}

/// The code that the closing frame carries.
pub open spec fn cause_code(c: CauseView) -> u16 {
    match c {
        CauseView::Peer { code, .. } => code,
        _ => PROTOCOL_ERROR,
    }
}

/// The reason that the closing frame carries.
pub open spec fn cause_reason(c: CauseView) -> Seq<u8> {
    match c {
        CauseView::Unmasked => UNMASKED_TEXT.spec_bytes(),
        CauseView::ControlTooLarge => CONTROL_TOO_LARGE_TEXT.spec_bytes(),
        CauseView::FragmentedControl => FRAGMENTED_CONTROL_TEXT.spec_bytes(),
        CauseView::UnsupportedOpcode => UNSUPPORTED_OPCODE_TEXT.spec_bytes(),
        CauseView::Peer { reason, .. } => reason,
    }
}

/// The reasons of the protocol's own closes fit in a close frame.
pub proof fn lemma_reasons_fit(c: CauseView)
    requires
        !(c is Peer),
    ensures
        cause_reason(c).len() + 2 <= MAX_CONTROL_PAYLOAD,
{
    broadcast use vstd::string::group_string_axioms;

    reveal_strlit("Client frames must be masked");
    reveal_strlit("Control frame too large");
    reveal_strlit("Control frames must not be fragmented");
    reveal_strlit("Unsupported opcode");
    assert(vstd::string::is_ascii(UNMASKED_TEXT));
    assert(vstd::string::is_ascii(CONTROL_TOO_LARGE_TEXT));
    assert(vstd::string::is_ascii(FRAGMENTED_CONTROL_TEXT));
    assert(vstd::string::is_ascii(UNSUPPORTED_OPCODE_TEXT));
}

impl CloseCause {
    pub fn code(&self) -> (r: u16)
        ensures
            r == cause_code(self@),
    {
        match self {
            CloseCause::Peer { code, .. } => *code,
            _ => PROTOCOL_ERROR,
        }
    }

    pub fn reason(&self) -> (r: Vec<u8>)
        ensures
            r@ == cause_reason(self@),
    {
        let text: &[u8] = match self {
            CloseCause::Unmasked => UNMASKED_TEXT.as_bytes(),
            CloseCause::ControlTooLarge => CONTROL_TOO_LARGE_TEXT.as_bytes(),
            CloseCause::FragmentedControl => FRAGMENTED_CONTROL_TEXT.as_bytes(),
            CloseCause::UnsupportedOpcode => UNSUPPORTED_OPCODE_TEXT.as_bytes(),
            CloseCause::Peer { reason, .. } => reason.as_slice(),
        };
        let r = copy_range(text, 0, text.len());
        assert(text@.subrange(0, text@.len() as int) =~= text@);
        r
    }

    /// The close frame to answer with, or `None` where code and reason do
    /// not fit in a control frame.
    pub fn reply_frame(&self) -> (r: Option<Vec<u8>>)
        ensures
            r is Some <==> cause_reason(self@).len() + 2 <= MAX_CONTROL_PAYLOAD,
            !(self@ is Peer) ==> r is Some,
            r matches Some(b) ==> b@ == crate::frame::frame_bytes(
                crate::frame::server_frame(
                    OP_CLOSE,
                    crate::frame::close_payload(cause_code(self@), cause_reason(self@)),
                ),
            ),
    {
        proof {
            if !(self@ is Peer) {
                lemma_reasons_fit(self@);
            }
        }
        let reason = self.reason();
        close_frame(self.code(), reason.as_slice())
    }
}

/// What one call of `MessageReader::next` found at the start of the buffer.
pub enum ReadStep {
    /// The buffer holds less than the next frame, or than the part of it
    /// that decides; nothing was taken.
    Incomplete,
    /// A fragment of a message was taken; the message goes on.
    Fragment { consumed: usize },
    /// A ping was taken; `reply` is the pong to send, or `None` where the
    /// ping's payload cannot be mirrored in a control frame.
    Ping { consumed: usize, reply: Option<Vec<u8>> },
    /// A pong was taken and is ignored.
    Pong { consumed: usize },
    /// The last fragment of a message was taken; `payload` is the whole message.
    Message { consumed: usize, payload: Vec<u8> },
    /// The connection ends: answer with `cause.reply_frame()` and read no more.
    Close { consumed: usize, cause: CloseCause },
    /// The reader had already closed; nothing was taken.
    Closed,
}

pub enum StepView {
    Incomplete,
    Fragment { consumed: nat },
    Ping { consumed: nat, reply: Option<Seq<u8>> },
    Pong { consumed: nat },
    Message { consumed: nat, payload: Seq<u8> },
    Close { consumed: nat, cause: CauseView },
    Closed,
}

impl View for ReadStep {
    type V = StepView;

    open spec fn view(&self) -> StepView {
        match self {
            ReadStep::Incomplete => StepView::Incomplete,
            ReadStep::Fragment { consumed } => StepView::Fragment { consumed: *consumed as nat },
            ReadStep::Ping { consumed, reply } => StepView::Ping {
                consumed: *consumed as nat,
                reply: match reply {
                    Some(b) => Some(b@),
                    None => None,
                },
            },
            ReadStep::Pong { consumed } => StepView::Pong { consumed: *consumed as nat },
            ReadStep::Message { consumed, payload } => StepView::Message {
                consumed: *consumed as nat,
                payload: payload@,
            },
            ReadStep::Close { consumed, cause } => StepView::Close {
                consumed: *consumed as nat,
                cause: cause@,
            },
            ReadStep::Closed => StepView::Closed,
        }
    }
}

/// Reassembles the messages of one connection from the bytes that the
/// client sends, and holds the server's policy on client frames.
pub struct MessageReader {
    /// The fragments taken so far of the message under way.
    pub message: Vec<u8>,
    /// Whether the connection has been closed.
    pub closed: bool,
}

pub struct ReaderView {
    pub message: Seq<u8>,
    pub closed: bool,
}

impl View for MessageReader {
    type V = ReaderView;

    open spec fn view(&self) -> ReaderView {
        ReaderView { message: self.message@, closed: self.closed }
    }
}

/// The state of a reader that has closed.
pub open spec fn closed_state(st: ReaderView) -> ReaderView {
    ReaderView { closed: true, ..st }
}

/// The close code of a peer's close payload, 1000 where it names none.
pub open spec fn peer_code(payload: Seq<u8>) -> u16 {
    if payload.len() >= 2 {
        crate::frame::be_value(payload.subrange(0, 2)) as u16
    } else {
        NORMAL_CLOSURE
    }
}

/// The close reason of a peer's close payload.
pub open spec fn peer_reason(payload: Seq<u8>) -> Seq<u8> {
    if payload.len() >= 2 {
        payload.subrange(2, payload.len() as int)
    } else {
        Seq::empty()
    }
}

/// What a whole, policy-abiding frame does to the reader.
pub open spec fn frame_step(st: ReaderView, f: crate::frame::FrameView, n: nat) -> (
    ReaderView,
    StepView,
) {
    if f.opcode <= OP_BINARY {
        let m = st.message + f.payload;
        if f.fin {
            (ReaderView { message: Seq::empty(), ..st }, StepView::Message { consumed: n, payload: m })
        } else {
            (ReaderView { message: m, ..st }, StepView::Fragment { consumed: n })
        }
    } else if f.opcode == OP_CLOSE {
        (
            closed_state(st),
            StepView::Close {
                consumed: n,
                cause: CauseView::Peer { code: peer_code(f.payload), reason: peer_reason(f.payload) },
            },
        )
    } else if f.opcode == OP_PING {
        (
            st,
            StepView::Ping {
                consumed: n,
                reply: if f.payload.len() <= MAX_CONTROL_PAYLOAD {
                    Some(
                        crate::frame::frame_bytes(crate::frame::server_frame(OP_PONG, f.payload)),
                    )
                } else {
                    None
                },
            },
        )
    } else if f.opcode == OP_PONG {
        (st, StepView::Pong { consumed: n })
    } else {
        (closed_state(st), StepView::Close { consumed: n, cause: CauseView::UnsupportedOpcode })
    }
}

/// What the reader does with the bytes at the start of `buf`: its next state
/// and what it reports.
pub open spec fn next_step(st: ReaderView, buf: Seq<u8>) -> (ReaderView, StepView) {
    if st.closed {
        (st, StepView::Closed)
    } else if !crate::frame::header_complete(buf) {
        (st, StepView::Incomplete)
    } else {
        let hs = crate::frame::header_size(buf[1]);
        let opcode = (buf[0] % 16) as u8;
        if buf[1] < 128 {
            (closed_state(st), StepView::Close { consumed: hs, cause: CauseView::Unmasked })
        } else if crate::frame::is_control(opcode) && crate::frame::declared_len(buf)
            > MAX_CONTROL_PAYLOAD {
            (closed_state(st), StepView::Close { consumed: hs, cause: CauseView::ControlTooLarge })
        } else if crate::frame::is_control(opcode) && buf[0] < 128 {
            (closed_state(st), StepView::Close { consumed: hs, cause: CauseView::FragmentedControl })
        } else {
            match crate::frame::parse_frame(buf) {
                None => (st, StepView::Incomplete),
                Some((f, n)) => frame_step(st, f, n),
            }
        }
    }
}

impl MessageReader {
    pub fn new() -> (r: Self)
        ensures
            r@ == (ReaderView { message: Seq::empty(), closed: false }),
    {
        MessageReader { message: Vec::new(), closed: false }
    }

    pub fn is_closed(&self) -> (r: bool)
        ensures
            r == self@.closed,
    {
        self.closed
    }

    /// Takes the next frame from the start of `buf`, or nothing where it is
    /// not all there yet.
    pub fn next(&mut self, buf: &[u8]) -> (r: ReadStep)
        ensures
            (final(self)@, r@) == next_step(old(self)@, buf@),
    {
        if self.closed {
            return ReadStep::Closed;
        }
        let h = match parse_header(buf) {
            None => {
                return ReadStep::Incomplete;
            },
            Some(h) => h,
        };
        let control = h.opcode == OP_CLOSE || h.opcode == OP_PING || h.opcode == OP_PONG;
        if h.mask.is_none() {
            self.closed = true;
            return ReadStep::Close { consumed: h.header_len, cause: CloseCause::Unmasked };
        }
        if control && h.payload_len > MAX_CONTROL_PAYLOAD as u64 {
            self.closed = true;
            return ReadStep::Close { consumed: h.header_len, cause: CloseCause::ControlTooLarge };
        }
        if control && !h.fin {
            self.closed = true;
            return ReadStep::Close { consumed: h.header_len, cause: CloseCause::FragmentedControl };
        }
        let (payload, n) = match frame_payload(buf, &h) {
            None => {
                return ReadStep::Incomplete;
            },
            Some(p) => p,
        };
        self.take_frame(&h, payload, n)
    }

    fn take_frame(&mut self, h: &FrameHeader, payload: Vec<u8>, n: usize) -> (r: ReadStep)
        requires
            !old(self)@.closed,
            h.opcode < 16,
        ensures
            (final(self)@, r@) == frame_step(
                old(self)@,
                crate::frame::FrameView {
                    fin: h.fin,
                    opcode: h.opcode,
                    mask: match h.mask {
                        Some(k) => Some(k@),
                        None => None,
                    },
                    payload: payload@,
                },
                n as nat,
            ),
    {
        if h.opcode <= OP_BINARY {
            let mut payload = payload;
            self.message.append(&mut payload);
            if h.fin {
                let mut whole: Vec<u8> = Vec::new();
                std::mem::swap(&mut whole, &mut self.message);
                ReadStep::Message { consumed: n, payload: whole }
            } else {
                ReadStep::Fragment { consumed: n }
            }
        } else if h.opcode == OP_CLOSE {
            self.closed = true;
            let cause = if payload.len() >= 2 {
                let code: u16 = payload[0] as u16 * 256 + payload[1] as u16;
                let ghost two = payload@.subrange(0, 2);
                assert(two.drop_last() =~= seq![payload@[0]]);
                assert(seq![payload@[0]].drop_last() =~= Seq::<u8>::empty());
                assert(crate::frame::be_value(Seq::<u8>::empty()) == 0);
                assert(crate::frame::be_value(seq![payload@[0]]) == payload@[0]);
                assert(crate::frame::be_value(two) == code);
                CloseCause::Peer { code, reason: copy_range(payload.as_slice(), 2, payload.len()) }
            } else {
                CloseCause::Peer { code: NORMAL_CLOSURE, reason: Vec::new() }
            };
            ReadStep::Close { consumed: n, cause }
        } else if h.opcode == OP_PING {
            ReadStep::Ping { consumed: n, reply: pong_frame(payload.as_slice()) }
        } else if h.opcode == OP_PONG {
            ReadStep::Pong { consumed: n }
        } else {
            self.closed = true;
            ReadStep::Close { consumed: n, cause: CloseCause::UnsupportedOpcode }
        }
    }
}

/// A masked client frame.
pub open spec fn client_frame(fin: bool, opcode: u8, key: Seq<u8>, payload: Seq<u8>) -> crate::frame::FrameView {
    crate::frame::FrameView { fin, opcode, mask: Some(key), payload }
}

/// A complete masked frame that respects the control-frame rules leaves the
/// checks of `next_step` to `frame_step`.
proof fn lemma_policy_passes(st: ReaderView, f: crate::frame::FrameView, rest: Seq<u8>)
    requires
        !st.closed,
        crate::frame::encodable(f),
        f.mask is Some,
        crate::frame::is_control(f.opcode) ==> f.fin && f.payload.len() <= MAX_CONTROL_PAYLOAD,
    ensures
        next_step(st, crate::frame::frame_bytes(f) + rest) == frame_step(
            st,
            f,
            crate::frame::frame_bytes(f).len(),
        ),
{
    crate::frame::lemma_frame_round_trip(f, rest);
}

/// A message sent as three masked fragments (a text frame without FIN, a
/// continuation without FIN, a final continuation) comes out as the same
/// bytes as when it is sent as one masked text frame.
pub proof fn lemma_fragments_reassemble(
    st: ReaderView,
    a: Seq<u8>,
    b: Seq<u8>,
    c: Seq<u8>,
    k1: Seq<u8>,
    k2: Seq<u8>,
    k3: Seq<u8>,
    k: Seq<u8>,
)
    requires
        !st.closed,
        k1.len() == 4,
        k2.len() == 4,
        k3.len() == 4,
        k.len() == 4,
        a.len() + b.len() + c.len() < crate::frame::pow256(8),
    ensures
        ({
            let b1 = crate::frame::frame_bytes(client_frame(false, crate::frame::OP_TEXT, k1, a));
            let b2 = crate::frame::frame_bytes(
                client_frame(false, crate::frame::OP_CONTINUATION, k2, b),
            );
            let b3 = crate::frame::frame_bytes(
                client_frame(true, crate::frame::OP_CONTINUATION, k3, c),
            );
            let whole = crate::frame::frame_bytes(
                client_frame(true, crate::frame::OP_TEXT, k, a + b + c),
            );
            let (s1, r1) = next_step(st, b1);
            let (s2, r2) = next_step(s1, b2);
            let (s3, r3) = next_step(s2, b3);
            let (t, r) = next_step(st, whole);
            &&& r1 is Fragment
            &&& r2 is Fragment
            &&& r3 matches StepView::Message { payload: p3, .. }
            &&& r matches StepView::Message { payload: p, .. }
            &&& p3 == p
            &&& p == st.message + (a + b + c)
            &&& s3 == t
        }),
{
    let f1 = client_frame(false, crate::frame::OP_TEXT, k1, a);
    let f2 = client_frame(false, crate::frame::OP_CONTINUATION, k2, b);
    let f3 = client_frame(true, crate::frame::OP_CONTINUATION, k3, c);
    let fw = client_frame(true, crate::frame::OP_TEXT, k, a + b + c);
    crate::frame::lemma_pow256_values();
    lemma_policy_passes(st, f1, Seq::empty());
    assert(crate::frame::frame_bytes(f1) + Seq::empty() =~= crate::frame::frame_bytes(f1));
    let s1 = next_step(st, crate::frame::frame_bytes(f1)).0;
    lemma_policy_passes(s1, f2, Seq::empty());
    assert(crate::frame::frame_bytes(f2) + Seq::empty() =~= crate::frame::frame_bytes(f2));
    let s2 = next_step(s1, crate::frame::frame_bytes(f2)).0;
    lemma_policy_passes(s2, f3, Seq::empty());
    assert(crate::frame::frame_bytes(f3) + Seq::empty() =~= crate::frame::frame_bytes(f3));
    lemma_policy_passes(st, fw, Seq::empty());
    assert(crate::frame::frame_bytes(fw) + Seq::empty() =~= crate::frame::frame_bytes(fw));
    assert(st.message + a + b + c =~= st.message + (a + b + c));
}

/// A client frame without a mask closes the connection with code 1002, and
/// the reader takes nothing after it.
pub proof fn lemma_unmasked_closes(
    st: ReaderView,
    f: crate::frame::FrameView,
    rest: Seq<u8>,
    later: Seq<u8>,
)
    requires
        !st.closed,
        crate::frame::encodable(f),
        f.mask is None,
    ensures
        ({
            let (s, r) = next_step(st, crate::frame::frame_bytes(f) + rest);
            &&& r matches StepView::Close { cause, .. }
            &&& cause == CauseView::Unmasked
            &&& cause_code(cause) == PROTOCOL_ERROR
            &&& s.closed
            &&& next_step(s, later) == (s, StepView::Closed)
        }),
{
    crate::frame::lemma_frame_round_trip(f, rest);
}

/// A control frame that declares more than 125 bytes of payload closes the
/// connection with code 1002, and the reader takes nothing after it.
pub proof fn lemma_oversized_control_closes(
    st: ReaderView,
    f: crate::frame::FrameView,
    rest: Seq<u8>,
    later: Seq<u8>,
)
    requires
        !st.closed,
        crate::frame::encodable(f),
        crate::frame::is_control(f.opcode),
        f.payload.len() > MAX_CONTROL_PAYLOAD,
    ensures
        ({
            let (s, r) = next_step(st, crate::frame::frame_bytes(f) + rest);
            &&& r matches StepView::Close { cause, .. }
            &&& cause_code(cause) == PROTOCOL_ERROR
            &&& s.closed
            &&& next_step(s, later) == (s, StepView::Closed)
        }),
{
    crate::frame::lemma_frame_round_trip(f, rest);
}

} // verus!
