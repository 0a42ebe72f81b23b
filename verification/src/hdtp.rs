//! Incremental frame decoder. It consumes a raw byte stream one byte at a
//! time and recovers length-delimited, CRC-16/XMODEM-checked frames:
//! `[0x7E][length: 1..=255][payload: length bytes][check high][check low]`.
//! A completed, check-verified frame is retrievable exactly once; noise,
//! zero-length frames and check failures are discarded and the decoder
//! resynchronizes on the next start marker.

use vstd::prelude::*;
use vstd::utf8::{decode_utf8, valid_utf8};
use crate::crc::{crc16, crc16_compute};
use crate::text::bytes_to_string;

verus! {

pub const START_OF_FRAM: u8 = 0x7E;

pub const MAX_LENGTH: usize = 255;

#[derive(Debug, Clone, Copy, PartialEq, Eq, Structural)]
pub enum MechainState {
    SearchingForFlag,
    ReceivingLength,
    ReceivingPayload,
    ReceivingFcs,
}

#[derive(Debug, Clone, Copy, PartialEq, Eq, Structural)]
pub enum FcsState {
    Start,
    End,
}

#[derive(Debug, Clone, Copy, PartialEq, Eq, Structural)]
pub enum HdtpStatus {
    WaitingForNextFrame,
    RxNotDone,
    RxDone,
    FrameError,
    FcsError,
}

/// The decoder's abstract state: what a `Hdtp` value looks like in contracts.
#[verifier::ext_equal]
pub ghost struct DecoderView {
    pub state: MechainState,
    pub length: u8,
    pub buf: Seq<u8>,
    pub fcs_state: FcsState,
    pub fcs: u16,
    pub expected_fcs: u16,
    pub status: HdtpStatus,
}

pub struct Hdtp {
    rx_frame_state: MechainState,
    rx_frame_length: u8,
    rx_frame_buffer: Vec<u8>,
    rx_fcs_state: FcsState,
    rx_frame_fcs: u16,
    rx_expected_fcs: u16,
    status: HdtpStatus,
}

impl View for Hdtp {
    type V = DecoderView;

    closed spec fn view(&self) -> DecoderView {
        DecoderView {
            state: self.rx_frame_state,
            length: self.rx_frame_length,
            buf: self.rx_frame_buffer@,
            fcs_state: self.rx_fcs_state,
            fcs: self.rx_frame_fcs,
            expected_fcs: self.rx_expected_fcs,
            status: self.status,
        }
    }
}

/// The state of a freshly constructed decoder.
pub open spec fn initial_view() -> DecoderView {
    DecoderView {
        state: MechainState::SearchingForFlag,
        length: 0,
        buf: Seq::empty(),
        fcs_state: FcsState::Start,
        fcs: 0,
        expected_fcs: 0,
        status: HdtpStatus::WaitingForNextFrame,
    }
}

/// The decoder's transition on one input byte.
pub open spec fn spec_input(v: DecoderView, c: u8) -> DecoderView {
    match v.state {
        MechainState::SearchingForFlag => DecoderView {
            state: if c == START_OF_FRAM {
                MechainState::ReceivingLength
            } else {
                MechainState::SearchingForFlag
            },
            length: 0,
            buf: Seq::empty(),
            fcs_state: v.fcs_state,
            fcs: 0,
            expected_fcs: v.expected_fcs,
            status: HdtpStatus::RxNotDone,
        },
        MechainState::ReceivingLength => if c == 0 {
            DecoderView {
                state: MechainState::SearchingForFlag,
                status: HdtpStatus::FrameError,
                ..v
            }
        } else {
            DecoderView { state: MechainState::ReceivingPayload, length: c, ..v }
        },
        MechainState::ReceivingPayload => {
            let buf2 = v.buf.push(c);
            DecoderView {
                state: if buf2.len() == v.length as int {
                    MechainState::ReceivingFcs
                } else {
                    MechainState::ReceivingPayload
                },
                buf: buf2,
                ..v
            }
        },
        MechainState::ReceivingFcs => match v.fcs_state {
            FcsState::Start => DecoderView {
                fcs: v.fcs | (c as u16),
                fcs_state: FcsState::End,
                ..v
            },
            FcsState::End => {
                let received = (v.fcs << 8) | (c as u16);
                let expected = crc16(v.buf);
                DecoderView {
                    state: MechainState::SearchingForFlag,
                    fcs_state: FcsState::Start,
                    fcs: received,
                    expected_fcs: expected,
                    status: if expected == received {
                        HdtpStatus::RxDone
                    } else {
                        HdtpStatus::FcsError
                    },
                    ..v
                }
            },
        },
    }
}

/// The decoder's transition on a whole byte sequence, fed left to right.
pub open spec fn spec_run(v: DecoderView, bytes: Seq<u8>) -> DecoderView
    decreases bytes.len(),
{
    if bytes.len() == 0 {
        v
    } else {
        spec_input(spec_run(v, bytes.drop_last()), bytes.last())
    }
}

/// What retrieval returns and how it changes the decoder: the payload is
/// handed out, decoded as text, exactly when a verified frame is pending
/// and its bytes are valid UTF-8; the decoder then waits for the next
/// frame. In every other case nothing is returned and nothing changes.
pub open spec fn spec_get_msg(v: DecoderView) -> (Option<Seq<char>>, DecoderView) {
    if v.status == HdtpStatus::RxDone && valid_utf8(v.buf) {
        (
            Some(decode_utf8(v.buf)),
            DecoderView { status: HdtpStatus::WaitingForNextFrame, ..v },
        )
    } else {
        (None, v)
    }
}

/// The frame encoding of a payload: start marker, length byte, payload,
/// then the CRC-16/XMODEM check, high byte first.
pub open spec fn spec_encode(payload: Seq<u8>) -> Seq<u8> {
    seq![START_OF_FRAM, payload.len() as u8] + payload + seq![
        (crc16(payload) >> 8) as u8,
        crc16(payload) as u8,
    ]
}

/// Encode a payload as one frame: what a well-behaved sender puts on
/// the wire.
pub fn encode_frame(payload: &Vec<u8>) -> (r: Vec<u8>)
    requires
        1 <= payload@.len() <= MAX_LENGTH,
    ensures
        r@ == spec_encode(payload@),
{
    let mut out: Vec<u8> = Vec::new();
    out.push(START_OF_FRAM);
    let n = payload.len();
    out.push(n as u8);
    for i in 0..n
        invariant
            n == payload@.len(),
            1 <= n <= 255,
            out@ =~= seq![START_OF_FRAM, n as u8] + payload@.take(i as int),
    {
        out.push(payload[i]);
    }
    let crc = crc16_compute(payload);
    out.push((crc >> 8) as u8);
    out.push(crc as u8);
    proof {
        assert(out@ =~= spec_encode(payload@));
    }
    out
}

/// Running the decoder over concatenated input is running it over the
/// parts in order.
pub proof fn lemma_run_concat(v: DecoderView, a: Seq<u8>, b: Seq<u8>)
    ensures
        spec_run(v, a + b) == spec_run(spec_run(v, a), b),
    decreases b.len(),
{
    if b.len() == 0 {
        assert(a + b =~= a);
    } else {
        lemma_run_concat(v, a, b.drop_last());
        assert((a + b).drop_last() =~= a + b.drop_last());
        assert((a + b).last() == b.last());
    }
}

/// Feeding payload bytes while a frame's body is being received appends
/// them to the buffer; the machine advances to the check bytes exactly
/// when the declared length is reached.
proof fn lemma_feed_payload(v: DecoderView, p: Seq<u8>)
    requires
        v.state == MechainState::ReceivingPayload,
        1 <= v.length,
        v.buf.len() + p.len() <= v.length as int,
    ensures
        ({
            let d = spec_run(v, p);
            &&& d.buf == v.buf + p
            &&& d.length == v.length
            &&& d.fcs_state == v.fcs_state
            &&& d.fcs == v.fcs
            &&& d.expected_fcs == v.expected_fcs
            &&& d.status == v.status
            &&& d.state == (if p.len() > 0 && v.buf.len() + p.len() == v.length as int {
                MechainState::ReceivingFcs
            } else {
                MechainState::ReceivingPayload
            })
        }),
    decreases p.len(),
{
    if p.len() == 0 {
        assert(v.buf + p =~= v.buf);
    } else {
        lemma_feed_payload(v, p.drop_last());
        let mid = spec_run(v, p.drop_last());
        assert((v.buf + p.drop_last()).push(p.last()) =~= v.buf + p);
        assert(spec_run(v, p) == spec_input(mid, p.last()));
    }
}

/// Splitting a 16-bit check value into its two bytes and reassembling
/// them, high byte first, gives the value back.
proof fn lemma_fcs_bytes(x: u16)
    ensures
        0u16 | (((x >> 8) as u8) as u16) == ((x >> 8) as u8) as u16,
        ((((x >> 8) as u8) as u16) << 8) | ((x as u8) as u16) == x,
{
    let hi: u8 = (x >> 8) as u8;
    let lo: u8 = x as u8;
    assert(0u16 | (hi as u16) == hi as u16) by (bit_vector);
    assert(((hi as u16) << 8) | (lo as u16) == x) by (bit_vector)
        requires
            hi == (x >> 8) as u8,
            lo == x as u8,
    ;
}

/// How a decoder that is searching for a start marker reacts to one full
/// frame transmission `[0x7E, length, payload, check high, check low]`:
/// it ends searching again, with the payload buffered, the received and
/// computed check values recorded, and the status decided by their
/// comparison alone.
proof fn lemma_feed_frame(v: DecoderView, payload: Seq<u8>, hi: u8, lo: u8)
    requires
        v.state == MechainState::SearchingForFlag,
        v.fcs_state == FcsState::Start,
        1 <= payload.len() <= 255,
    ensures
        ({
            let d = spec_run(
                v,
                seq![START_OF_FRAM, payload.len() as u8] + payload + seq![hi, lo],
            );
            &&& d.state == MechainState::SearchingForFlag
            &&& d.fcs_state == FcsState::Start
            &&& d.buf == payload
            &&& d.fcs == ((hi as u16) << 8) | (lo as u16)
            &&& d.expected_fcs == crc16(payload)
            &&& d.status == (if crc16(payload) == ((hi as u16) << 8) | (lo as u16) {
                HdtpStatus::RxDone
            } else {
                HdtpStatus::FcsError
            })
        }),
{
    let head = seq![START_OF_FRAM, payload.len() as u8];
    let tail = seq![hi, lo];
    lemma_run_concat(v, head + payload, tail);
    lemma_run_concat(v, head, payload);

    // The start marker and the length byte.
    assert(head.drop_last() =~= seq![START_OF_FRAM]);
    assert(seq![START_OF_FRAM].drop_last() =~= Seq::<u8>::empty());
    assert(head.last() == payload.len() as u8);
    assert(seq![START_OF_FRAM].last() == START_OF_FRAM);
    let v1 = spec_input(v, START_OF_FRAM);
    assert(spec_run(v, Seq::<u8>::empty()) == v);
    assert(spec_run(v, seq![START_OF_FRAM]) == v1);
    assert(spec_run(v, head) == spec_input(v1, payload.len() as u8));
    let v2 = spec_run(v, head);
    assert(payload.len() as u8 != 0);
    assert(v2.state == MechainState::ReceivingPayload && v2.length == payload.len() as u8);
    assert(v2.buf =~= Seq::<u8>::empty());

    // The payload body.
    lemma_feed_payload(v2, payload);
    let v3 = spec_run(v2, payload);
    assert(v3.buf =~= payload);
    assert(v3.state == MechainState::ReceivingFcs);

    // The two check bytes, high byte first.
    assert(tail.drop_last() =~= seq![hi]);
    assert(seq![hi].drop_last() =~= Seq::<u8>::empty());
    assert(tail.last() == lo);
    assert(seq![hi].last() == hi);
    let v4 = spec_input(v3, hi);
    assert(spec_run(v3, Seq::<u8>::empty()) == v3);
    assert(spec_run(v3, seq![hi]) == v4);
    assert(spec_run(v3, tail) == spec_input(v4, lo));
    assert(v4.fcs == 0u16 | (hi as u16));
    assert(0u16 | (hi as u16) == hi as u16) by (bit_vector);
    let d = spec_input(v4, lo);
    assert(spec_run(v, head + payload + tail) == d);
}

/// Frame round-trip: encoding any payload of 1 to 255 bytes and feeding
/// the encoded bytes, one at a time, to a decoder that is searching for
/// a start marker leaves exactly that payload pending for retrieval, and
/// leaves the machine ready for the next frame.
pub proof fn lemma_frame_round_trip(v: DecoderView, payload: Seq<u8>)
    requires
        v.state == MechainState::SearchingForFlag,
        v.fcs_state == FcsState::Start,
        1 <= payload.len() <= 255,
    ensures
        ({
            let d = spec_run(v, spec_encode(payload));
            &&& d.status == HdtpStatus::RxDone
            &&& d.buf == payload
            &&& d.state == MechainState::SearchingForFlag
            &&& d.fcs_state == FcsState::Start
            &&& valid_utf8(payload) ==> spec_get_msg(d).0 == Some(decode_utf8(payload))
        }),
{
    let x = crc16(payload);
    lemma_feed_frame(v, payload, (x >> 8) as u8, x as u8);
    lemma_fcs_bytes(x);
}

/// A frame is retrieved at most once: after a successful retrieval the
/// decoder waits for the next frame, and retrieving again, without new
/// input, yields nothing.
pub proof fn lemma_single_retrieval(v: DecoderView)
    ensures
        spec_get_msg(v).0 is Some ==> spec_get_msg(spec_get_msg(v).1).0 is None,
{
}

/// Checksum rejection: a frame transmission whose two check bytes do not
/// reassemble to the payload's CRC-16/XMODEM value leaves no retrievable
/// message, and leaves the decoder ready to accept a new frame on the
/// next start marker.
pub proof fn lemma_checksum_rejection(v: DecoderView, payload: Seq<u8>, hi: u8, lo: u8)
    requires
        v.state == MechainState::SearchingForFlag,
        v.fcs_state == FcsState::Start,
        1 <= payload.len() <= 255,
        ((hi as u16) << 8) | (lo as u16) != crc16(payload),
    ensures
        ({
            let d = spec_run(
                v,
                seq![START_OF_FRAM, payload.len() as u8] + payload + seq![hi, lo],
            );
            &&& d.status == HdtpStatus::FcsError
            &&& d.state == MechainState::SearchingForFlag
            &&& d.fcs_state == FcsState::Start
            &&& spec_get_msg(d).0 is None
        }),
{
    lemma_feed_frame(v, payload, hi, lo);
}

/// Resynchronization: bytes that contain no start marker never move a
/// searching decoder out of its searching state, and never leave a
/// retrievable message at any point while they are fed.
pub proof fn lemma_resync_on_noise(v: DecoderView, noise: Seq<u8>)
    requires
        v.state == MechainState::SearchingForFlag,
        forall|i: int| 0 <= i < noise.len() ==> noise[i] != START_OF_FRAM,
    ensures
        forall|n: int|
            0 <= n <= noise.len() ==> {
                let d = #[trigger] spec_run(v, noise.take(n));
                &&& d.state == MechainState::SearchingForFlag
                &&& n > 0 ==> d.status == HdtpStatus::RxNotDone
                &&& n > 0 ==> spec_get_msg(d).0 is None
            },
    decreases noise.len(),
{
    if noise.len() == 0 {
        assert(noise.take(0) =~= Seq::<u8>::empty());
    } else {
        let shorter = noise.drop_last();
        lemma_resync_on_noise(v, shorter);
        assert forall|n: int| 0 <= n <= noise.len() implies {
            let d = #[trigger] spec_run(v, noise.take(n));
            &&& d.state == MechainState::SearchingForFlag
            &&& n > 0 ==> d.status == HdtpStatus::RxNotDone
            &&& n > 0 ==> spec_get_msg(d).0 is None
        } by {
            if n < noise.len() {
                assert(noise.take(n) =~= shorter.take(n));
            } else {
                assert(noise.take(n) =~= noise);
                assert(noise.drop_last() =~= shorter.take((n - 1) as int));
                let d0 = spec_run(v, noise.drop_last());
                assert(spec_run(v, noise) == spec_input(d0, noise.last()));
                assert(noise.last() != START_OF_FRAM);
            }
        }
    }
}

/// Zero-length rejection: a start marker followed by a declared length
/// of zero is dropped as a frame error; no message becomes retrievable
/// and the decoder searches for the next start marker.
pub proof fn lemma_zero_length_rejection(v: DecoderView)
    requires
        v.state == MechainState::SearchingForFlag,
    ensures
        ({
            let d = spec_run(v, seq![START_OF_FRAM, 0u8]);
            &&& d.status == HdtpStatus::FrameError
            &&& d.state == MechainState::SearchingForFlag
            &&& spec_get_msg(d).0 is None
        }),
{
    let s = seq![START_OF_FRAM, 0u8];
    assert(s.drop_last() =~= seq![START_OF_FRAM]);
    assert(seq![START_OF_FRAM].drop_last() =~= Seq::<u8>::empty());
    assert(s.last() == 0u8);
    assert(seq![START_OF_FRAM].last() == START_OF_FRAM);
    let v1 = spec_input(v, START_OF_FRAM);
    assert(spec_run(v, Seq::<u8>::empty()) == v);
    assert(spec_run(v, seq![START_OF_FRAM]) == v1);
    assert(spec_run(v, s) == spec_input(v1, 0u8));
}

impl Hdtp {
    pub fn new() -> (r: Self)
        ensures
            r@ == initial_view(),
    {
        Hdtp {
            rx_frame_state: MechainState::SearchingForFlag,
            rx_frame_length: 0,
            rx_frame_buffer: Vec::new(),
            rx_fcs_state: FcsState::Start,
            rx_frame_fcs: 0,
            rx_expected_fcs: 0,
            status: HdtpStatus::WaitingForNextFrame,
        }
    }

    /// The retrieval gate the caller observes.
    pub fn status(&self) -> (s: HdtpStatus)
        ensures
            s == self@.status,
    {
        self.status
    }

    /// Feed one byte from the wire into the state machine.
    pub fn input(&mut self, c: u8)
        ensures
            final(self)@ == spec_input(old(self)@, c),
    {
        match self.rx_frame_state {
            MechainState::SearchingForFlag => {
                self.rx_frame_length = 0;
                self.rx_frame_buffer.clear();
                self.rx_frame_fcs = 0;
                self.status = HdtpStatus::RxNotDone;
                if c == START_OF_FRAM {
                    self.rx_frame_state = MechainState::ReceivingLength;
                }
                proof {
                    assert(self@ =~= spec_input(old(self)@, c));
                }
            },
            MechainState::ReceivingLength => {
                if c == 0 {
                    self.rx_frame_state = MechainState::SearchingForFlag;
                    self.status = HdtpStatus::FrameError;
                } else {
                    self.rx_frame_length = c;
                    self.rx_frame_state = MechainState::ReceivingPayload;
                }
                proof {
                    assert(self@ =~= spec_input(old(self)@, c));
                }
            },
            MechainState::ReceivingPayload => {
                self.rx_frame_buffer.push(c);
                if self.rx_frame_buffer.len() == self.rx_frame_length as usize {
                    self.rx_frame_state = MechainState::ReceivingFcs;
                }
                proof {
                    assert(self@ =~= spec_input(old(self)@, c));
                }
            },
            MechainState::ReceivingFcs => {
                match self.rx_fcs_state {
                    FcsState::Start => {
                        self.rx_frame_fcs = self.rx_frame_fcs | (c as u16);
                        self.rx_fcs_state = FcsState::End;
                    },
                    FcsState::End => {
                        self.rx_frame_fcs = (self.rx_frame_fcs << 8) | (c as u16);
                        self.rx_fcs_state = FcsState::Start;
                        self.rx_expected_fcs = crc16_compute(&self.rx_frame_buffer);
                        if self.rx_expected_fcs == self.rx_frame_fcs {
                            self.status = HdtpStatus::RxDone;
                        } else {
                            self.status = HdtpStatus::FcsError;
                        }
                        self.rx_frame_state = MechainState::SearchingForFlag;
                    },
                }
                proof {
                    assert(self@ =~= spec_input(old(self)@, c));
                }
            },
        }
    }

    /// Retrieve the pending frame's payload as text, at most once per frame.
    pub fn get_msg(&mut self) -> (r: Result<String, ()>)
        ensures
            final(self)@ == spec_get_msg(old(self)@).1,
            match r {
                Ok(s) => spec_get_msg(old(self)@).0 == Some(s@),
                Err(()) => spec_get_msg(old(self)@).0 is None,
            },
    {
        match self.status {
            HdtpStatus::RxDone => {
                let mut bytes: Vec<u8> = Vec::new();
                let n = self.rx_frame_buffer.len();
                for i in 0..n
                    invariant
                        n == self.rx_frame_buffer.len(),
                        bytes@ =~= self.rx_frame_buffer@.take(i as int),
                        self == old(self),
                {
                    bytes.push(self.rx_frame_buffer[i]);
                }
                proof {
                    assert(bytes@ =~= self.rx_frame_buffer@);
                }
                match bytes_to_string(bytes) {
                    Some(s) => {
                        self.status = HdtpStatus::WaitingForNextFrame;
                        proof {
                            assert(self@ =~= spec_get_msg(old(self)@).1);
                        }
                        Ok(s)
                    },
                    None => Err(()),
                }
            },
            _ => Err(()),
        }
    }
}

} // verus!
