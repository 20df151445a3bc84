//! E1.31 (sACN) wire codec: the fixed 638-byte data packet and the DMX
//! frame builders shared by the effect and pattern renderers.
//!
//! A packet is root layer, framing layer (sequence byte at offset 111,
//! universe big-endian at 113..115), DMP layer, and a 512-byte DMX payload
//! starting at offset 126.  The sockets that carry these bytes live outside
//! the library; a [`Packetizer`] produces the exact bytes to send.

use vstd::prelude::*;

verus! {

/// Length of the DMX payload carried by every data packet.
pub const DMX_PAYLOAD_LEN: usize = 512;

/// Total length of an E1.31 data packet.
pub const PACKET_LEN: usize = 638;

/// Offset of the sequence byte inside the packet.
pub const SEQ_OFFSET: usize = 111;

/// Offset of the first DMX payload byte inside the packet.
pub const PAYLOAD_OFFSET: usize = 126;

/// Boards expose at most 128 four-byte (RGBW) slots in one universe.
pub const MAX_LEDS: usize = 128;

/// Root layer: preamble, postamble, ACN identifier, flags+length
/// (0x7000 | 622), vector, and the process-wide CID.
pub open spec fn spec_root_layer() -> Seq<u8> {
    seq![
        0x00u8, 0x10, 0x00, 0x00,
        0x41, 0x53, 0x43, 0x2d, 0x45, 0x31, 0x2e, 0x31, 0x37, 0x00, 0x00, 0x00,
        0x72, 0x6e,
        0x00, 0x00, 0x00, 0x04,
        0x12, 0x34, 0x56, 0x78, 0x9a, 0xbc, 0xde, 0xf0,
        0x12, 0x34, 0x56, 0x78, 0x9a, 0xbc, 0xde, 0xf0,
    ]
}

/// UTF-8 source name, 64 bytes, NUL padded.
pub open spec fn spec_source_name() -> Seq<u8> {
    seq![
        0x57u8, 0x4c, 0x45, 0x44, 0x20, 0x52, 0x75, 0x73,
        0x74, 0x20, 0x53, 0x65, 0x72, 0x76, 0x65, 0x72,
    ] + Seq::new(48, |i: int| 0u8)
}

/// Framing layer up to but not including the sequence byte: flags+length
/// (0x7000 | 600), vector, source name, priority 100, sync address 0.
pub open spec fn spec_framing_head() -> Seq<u8> {
    seq![0x72u8, 0x58, 0x00, 0x00, 0x00, 0x02] + spec_source_name() + seq![100u8, 0x00, 0x00]
}

/// The constant 111 bytes before the sequence byte.
pub open spec fn spec_prefix() -> Seq<u8> {
    spec_root_layer() + spec_framing_head()
}

/// Bytes 112..126: options, universe big-endian, DMP layer header
/// (flags+length 0x7000 | 523, vector 0x02, address type 0xa1, first
/// property address, increment, property count 513, DMX start code 0).
pub open spec fn spec_mid(universe: u16) -> Seq<u8> {
    seq![
        0x00u8,
        (universe >> 8) as u8, (universe & 0xff) as u8,
        0x72, 0x0b, 0x02, 0xa1, 0x00, 0x00, 0x00, 0x01, 0x02, 0x01, 0x00,
    ]
}

/// The full 638-byte packet for one universe, sequence number and payload.
pub open spec fn spec_packet(universe: u16, sequence: u8, payload: Seq<u8>) -> Seq<u8> {
    spec_prefix() + seq![sequence] + spec_mid(universe) + payload
}

/// Build the constant prefix (bytes 0..111).
fn build_prefix() -> (r: Vec<u8>)
    ensures
        r@ == spec_prefix(),
{
    let mut v: Vec<u8> = Vec::new();
    v.push(0x00); v.push(0x10); v.push(0x00); v.push(0x00);
    v.push(0x41); v.push(0x53); v.push(0x43); v.push(0x2d);
    v.push(0x45); v.push(0x31); v.push(0x2e); v.push(0x31);
    v.push(0x37); v.push(0x00); v.push(0x00); v.push(0x00);
    v.push(0x72); v.push(0x6e);
    v.push(0x00); v.push(0x00); v.push(0x00); v.push(0x04);
    v.push(0x12); v.push(0x34); v.push(0x56); v.push(0x78);
    v.push(0x9a); v.push(0xbc); v.push(0xde); v.push(0xf0);
    v.push(0x12); v.push(0x34); v.push(0x56); v.push(0x78);
    v.push(0x9a); v.push(0xbc); v.push(0xde); v.push(0xf0);
    v.push(0x72); v.push(0x58);
    v.push(0x00); v.push(0x00); v.push(0x00); v.push(0x02);
    v.push(0x57); v.push(0x4c); v.push(0x45); v.push(0x44);
    v.push(0x20); v.push(0x52); v.push(0x75); v.push(0x73);
    v.push(0x74); v.push(0x20); v.push(0x53); v.push(0x65);
    v.push(0x72); v.push(0x76); v.push(0x65); v.push(0x72);
    let mut k: usize = 0;
    while k < 48
        invariant
            k <= 48,
            v@ == spec_root_layer() + seq![0x72u8, 0x58, 0x00, 0x00, 0x00, 0x02]
                + seq![
                    0x57u8, 0x4c, 0x45, 0x44, 0x20, 0x52, 0x75, 0x73,
                    0x74, 0x20, 0x53, 0x65, 0x72, 0x76, 0x65, 0x72,
                ] + Seq::new(k as nat, |i: int| 0u8),
        decreases 48 - k,
    {
        v.push(0x00);
        assert(Seq::new((k + 1) as nat, |i: int| 0u8)
            =~= Seq::new(k as nat, |i: int| 0u8) + seq![0x00u8]);
        k = k + 1;
    }
    v.push(100); v.push(0x00); v.push(0x00);
    assert(v@ =~= spec_prefix());
    v
}

/// Append bytes 112..126 for the given universe.
fn push_mid(v: &mut Vec<u8>, universe: u16)
    ensures
        final(v)@ == old(v)@ + spec_mid(universe),
{
    v.push(0x00);
    v.push((universe >> 8) as u8);
    v.push((universe & 0xff) as u8);
    v.push(0x72); v.push(0x0b); v.push(0x02); v.push(0xa1);
    v.push(0x00); v.push(0x00); v.push(0x00); v.push(0x01);
    v.push(0x02); v.push(0x01); v.push(0x00);
    assert(v@ =~= old(v)@ + spec_mid(universe));
}

/// Serialize one complete data packet.
pub fn build_packet(universe: u16, sequence: u8, payload: &Vec<u8>) -> (r: Vec<u8>)
    requires
        payload@.len() == DMX_PAYLOAD_LEN,
    ensures
        r@ == spec_packet(universe, sequence, payload@),
        r@.len() == PACKET_LEN,
{
    let mut v = build_prefix();
    v.push(sequence);
    push_mid(&mut v, universe);
    let mut i: usize = 0;
    while i < payload.len()
        invariant
            i <= payload@.len(),
            payload@.len() == 512,
            v@ == spec_prefix() + seq![sequence] + spec_mid(universe)
                + payload@.subrange(0, i as int),
        decreases payload@.len() - i,
    {
        v.push(payload[i]);
        assert(payload@.subrange(0, i + 1 as int)
            =~= payload@.subrange(0, i as int) + seq![payload@[i as int]]);
        i = i + 1;
    }
    assert(payload@.subrange(0, payload@.len() as int) =~= payload@);
    assert(v@ =~= spec_packet(universe, sequence, payload@));
    assert(spec_packet(universe, sequence, payload@).len() == 638);
    v
}

/// Every packet is laid out as the framing promises: the sequence byte sits
/// at offset 111, the universe at 113..115 big-endian, the payload at 126.
pub proof fn lemma_packet_layout(universe: u16, sequence: u8, payload: Seq<u8>)
    requires
        payload.len() == DMX_PAYLOAD_LEN,
    ensures
        spec_packet(universe, sequence, payload).len() == PACKET_LEN,
        spec_packet(universe, sequence, payload)[SEQ_OFFSET as int] == sequence,
        spec_packet(universe, sequence, payload)[113] == (universe >> 8) as u8,
        spec_packet(universe, sequence, payload)[114] == (universe & 0xff) as u8,
        forall|i: int| 0 <= i < DMX_PAYLOAD_LEN ==>
            spec_packet(universe, sequence, payload)[PAYLOAD_OFFSET + i] == payload[i],
{
    assert(spec_prefix().len() == 111);
    assert forall|i: int| 0 <= i < DMX_PAYLOAD_LEN implies
        spec_packet(universe, sequence, payload)[PAYLOAD_OFFSET + i] == payload[i] by {
        assert(spec_packet(universe, sequence, payload)[126 + i] == payload[i]);
    }
}

/// Two packets for the same universe agree on every byte outside the
/// sequence byte and the payload; only offset 111 carries the sequence.
/// This is the header-stability half of the transport invariant.
pub proof fn lemma_headers_identical(universe: u16, s1: u8, s2: u8, p1: Seq<u8>, p2: Seq<u8>)
    requires
        p1.len() == DMX_PAYLOAD_LEN,
        p2.len() == DMX_PAYLOAD_LEN,
    ensures
        forall|i: int| 0 <= i < PAYLOAD_OFFSET && i != SEQ_OFFSET ==>
            spec_packet(universe, s1, p1)[i] == spec_packet(universe, s2, p2)[i],
{
    let a = spec_packet(universe, s1, p1);
    let b = spec_packet(universe, s2, p2);
    assert forall|i: int| 0 <= i < PAYLOAD_OFFSET && i != SEQ_OFFSET implies a[i] == b[i] by {
        if i < 111 {
            assert(a[i] == spec_prefix()[i]);
            assert(b[i] == spec_prefix()[i]);
        } else {
            assert(a[i] == spec_mid(universe)[i - 112]);
            assert(b[i] == spec_mid(universe)[i - 112]);
        }
    }
}

/// Sequence-stamped packet source for one universe.
///
/// Owns nothing but the universe number and the running sequence counter;
/// the caller hands every produced packet to a socket.  Consecutive packets
/// from one `Packetizer` carry sequence bytes that advance by one modulo
/// 256, and identical header bytes — the transport invariant.
pub struct Packetizer {
    /// E1.31 universe stamped into every packet.
    pub universe: u16,
    /// Sequence number the next packet will carry.
    pub sequence: u8,
}

impl Packetizer {
    /// A fresh source starts at sequence zero.
    pub fn new(universe: u16) -> (r: Packetizer)
        ensures
            r.universe == universe,
            r.sequence == 0,
    {
        Packetizer { universe, sequence: 0 }
    }

    /// Stamp the current sequence number into a packet and advance the
    /// counter, wrapping at 255.
    pub fn next_packet(&mut self, payload: &Vec<u8>) -> (r: Vec<u8>)
        requires
            payload@.len() == DMX_PAYLOAD_LEN,
        ensures
            r@ == spec_packet(old(self).universe, old(self).sequence, payload@),
            r@.len() == PACKET_LEN,
            r@[SEQ_OFFSET as int] == old(self).sequence,
            final(self).universe == old(self).universe,
            final(self).sequence == ((old(self).sequence + 1) % 256) as u8,
    {
        let r = build_packet(self.universe, self.sequence, payload);
        self.sequence = if self.sequence == 255 { 0 } else { self.sequence + 1 };
        proof {
            lemma_packet_layout(self.universe, old(self).sequence, payload@);
        }
        r
    }
}

/// The sequence byte advances by exactly one (mod 256) between consecutive
/// packets of one source, and all other header bytes are identical.
pub proof fn lemma_sequence_advances(universe: u16, s: u8, p1: Seq<u8>, p2: Seq<u8>)
    requires
        p1.len() == DMX_PAYLOAD_LEN,
        p2.len() == DMX_PAYLOAD_LEN,
    ensures
        spec_packet(universe, ((s + 1) % 256) as u8, p2)[SEQ_OFFSET as int]
            == ((spec_packet(universe, s, p1)[SEQ_OFFSET as int] + 1) % 256) as u8,
        forall|i: int| 0 <= i < PAYLOAD_OFFSET && i != SEQ_OFFSET ==>
            spec_packet(universe, s, p1)[i]
                == spec_packet(universe, ((s + 1) % 256) as u8, p2)[i],
{
    lemma_packet_layout(universe, s, p1);
    lemma_packet_layout(universe, ((s + 1) % 256) as u8, p2);
    lemma_headers_identical(universe, s, ((s + 1) % 256) as u8, p1, p2);
}

/// The DMX payload a raw-LED frame denotes: the first `min(led_count, 128)`
/// four-byte slots carry `[r, g, b, 0]`, everything after is zero.
pub open spec fn spec_raw_frame(led_count: usize, r: u8, g: u8, b: u8) -> Seq<u8> {
    let n = if led_count > MAX_LEDS { MAX_LEDS as int } else { led_count as int };
    Seq::new(DMX_PAYLOAD_LEN as nat, |i: int|
        if i / 4 < n {
            if i % 4 == 0 { r } else if i % 4 == 1 { g } else if i % 4 == 2 { b } else { 0u8 }
        } else {
            0u8
        })
}

/// Build a 512-byte RGBW frame that lights the first `led_count` slots
/// (clamped to 128) with one colour.
pub fn frame_raw_leds(led_count: usize, r: u8, g: u8, b: u8) -> (f: Vec<u8>)
    ensures
        f@ == spec_raw_frame(led_count, r, g, b),
        f@.len() == DMX_PAYLOAD_LEN,
{
    let n: usize = if led_count > MAX_LEDS { MAX_LEDS } else { led_count };
    let mut f: Vec<u8> = Vec::new();
    let mut i: usize = 0;
    while i < n
        invariant
            i <= n,
            n <= MAX_LEDS,
            n == (if led_count > MAX_LEDS { MAX_LEDS as int } else { led_count as int }),
            f@.len() == 4 * i,
            forall|j: int| 0 <= j < f@.len() ==> f@[j] == spec_raw_frame(led_count, r, g, b)[j],
        decreases n - i,
    {
        f.push(r);
        f.push(g);
        f.push(b);
        f.push(0);
        i = i + 1;
    }
    while f.len() < DMX_PAYLOAD_LEN
        invariant
            4 * n <= f@.len() <= DMX_PAYLOAD_LEN,
            n == (if led_count > MAX_LEDS { MAX_LEDS as int } else { led_count as int }),
            forall|j: int| 0 <= j < f@.len() ==> f@[j] == spec_raw_frame(led_count, r, g, b)[j],
        decreases DMX_PAYLOAD_LEN - f@.len(),
    {
        f.push(0);
    }
    assert(f@ =~= spec_raw_frame(led_count, r, g, b));
    f
}

/// An all-zero payload: what a blackout frame carries.
pub open spec fn spec_zero_frame() -> Seq<u8> {
    Seq::new(DMX_PAYLOAD_LEN as nat, |i: int| 0u8)
}

/// A blackout frame is the raw frame of the colour black, and is all zero
/// whatever the LED count — including `led_count == 0`, where the whole
/// payload is already zero.
pub proof fn lemma_blackout_is_zero(led_count: usize)
    ensures
        spec_raw_frame(led_count, 0, 0, 0) =~= spec_zero_frame(),
        spec_raw_frame(0, 0, 0, 0) =~= spec_zero_frame(),
{
}

/// Build the blackout frame for a universe.
pub fn frame_blackout(led_count: usize) -> (f: Vec<u8>)
    ensures
        f@ == spec_zero_frame(),
        f@.len() == DMX_PAYLOAD_LEN,
{
    let f = frame_raw_leds(led_count, 0, 0, 0);
    proof { lemma_blackout_is_zero(led_count); }
    f
}

/// The payload a per-LED buffer denotes: slot `i` carries the buffer's
/// `i`-th colour (clamped to 128 slots), with the white channel zero.
pub open spec fn spec_buffer_frame(leds: Seq<[u8; 3]>) -> Seq<u8> {
    let n = if leds.len() > MAX_LEDS { MAX_LEDS as int } else { leds.len() as int };
    Seq::new(DMX_PAYLOAD_LEN as nat, |i: int|
        if i / 4 < n {
            if i % 4 == 3 { 0u8 } else { leds[i / 4][i % 4] }
        } else {
            0u8
        })
}

/// Build a 512-byte RGBW frame from a per-LED colour buffer.
pub fn frame_led_buffer(leds: &Vec<[u8; 3]>) -> (f: Vec<u8>)
    ensures
        f@ == spec_buffer_frame(leds@),
        f@.len() == DMX_PAYLOAD_LEN,
{
    let n: usize = if leds.len() > MAX_LEDS { MAX_LEDS } else { leds.len() };
    let mut f: Vec<u8> = Vec::new();
    let mut i: usize = 0;
    while i < n
        invariant
            i <= n,
            n <= MAX_LEDS,
            n == (if leds@.len() > MAX_LEDS { MAX_LEDS as int } else { leds@.len() as int }),
            f@.len() == 4 * i,
            forall|j: int| 0 <= j < f@.len() ==> f@[j] == spec_buffer_frame(leds@)[j],
        decreases n - i,
    {
        let c = leds[i];
        f.push(c[0]);
        f.push(c[1]);
        f.push(c[2]);
        f.push(0);
        i = i + 1;
    }
    while f.len() < DMX_PAYLOAD_LEN
        invariant
            4 * n <= f@.len() <= DMX_PAYLOAD_LEN,
            n == (if leds@.len() > MAX_LEDS { MAX_LEDS as int } else { leds@.len() as int }),
            forall|j: int| 0 <= j < f@.len() ==> f@[j] == spec_buffer_frame(leds@)[j],
        decreases DMX_PAYLOAD_LEN - f@.len(),
    {
        f.push(0);
    }
    assert(f@ =~= spec_buffer_frame(leds@));
    f
}

/// One colour channel scaled by a 0..=255 brightness.
pub open spec fn spec_scale(c: u8, brightness: u8) -> u8 {
    ((c * brightness) / 255) as u8
}

/// Scale a colour channel by a brightness, rounding down.
pub fn scale_channel(c: u8, brightness: u8) -> (r: u8)
    ensures
        r == spec_scale(c, brightness),
        r <= c,
{
    proof {
        assert(c * brightness <= 255 * brightness) by (nonlinear_arith)
            requires c <= 255;
        assert(c * brightness <= c * 255) by (nonlinear_arith)
            requires brightness <= 255;
        assert(c * 255 / 255 == c);
    }
    ((c as u16 * brightness as u16) / 255) as u8
}

/// Build the frame a solid-colour command denotes: every slot carries the
/// colour scaled by the brightness.
pub fn frame_solid_color(led_count: usize, r: u8, g: u8, b: u8, brightness: u8) -> (f: Vec<u8>)
    ensures
        f@ == spec_raw_frame(
            led_count,
            spec_scale(r, brightness),
            spec_scale(g, brightness),
            spec_scale(b, brightness),
        ),
        f@.len() == DMX_PAYLOAD_LEN,
{
    let rs = scale_channel(r, brightness);
    let gs = scale_channel(g, brightness);
    let bs = scale_channel(b, brightness);
    frame_raw_leds(led_count, rs, gs, bs)
}

} // verus!
