//! Wire format of the sensor microcontroller.
//!
//! | Offset | Size | Field                          |
//! |--------|------|--------------------------------|
//! | 0      | 2    | sync word `0xBEEF`, little endian |
//! | 2      | 4    | device timestamp (u32, wrapping)  |
//! | 6      | 2×13 | ADC values (u16 each)             |
//! | 32     | 2    | CRC-16/CCITT-FALSE of bytes 0..32 |

use byteorder::ByteOrder;
use vstd::prelude::*;

verus! {

/// Length of one sensor frame on the wire.
pub const FRAME_SIZE: usize = 34;

/// The value that opens every frame.
pub const SYNC_WORD: u16 = 0xBEEF;

/// Number of ADC channels carried by a frame.
pub const NUM_CHANNELS: usize = 13;

/// One shift-and-reduce step of CRC-16/CCITT-FALSE (polynomial `0x1021`).
pub open spec fn crc16_shift(crc: u16) -> u16 {
    if crc & 0x8000 != 0 {
        (crc << 1) ^ 0x1021
    } else {
        crc << 1
    }
}

/// `n` shift steps applied in turn.
pub open spec fn crc16_shift_n(crc: u16, n: nat) -> u16
    decreases n,
{
    if n == 0 {
        crc
    } else {
        crc16_shift(crc16_shift_n(crc, (n - 1) as nat))
    }
}

/// The register after one more input byte: the byte is folded into the high
/// half and the register shifted eight times.
pub open spec fn crc16_update(crc: u16, byte: u8) -> u16 {
    crc16_shift_n(crc ^ ((byte as u16) << 8), 8)
}

/// CRC-16/CCITT-FALSE of a byte sequence: initial register `0xFFFF`, bytes
/// taken in order, no final xor.
pub open spec fn crc16_spec(data: Seq<u8>) -> u16
    decreases data.len(),
{
    if data.len() == 0 {
        0xFFFF
    } else {
        crc16_update(crc16_spec(data.drop_last()), data.last())
    }
}

/// CRC-16/CCITT-FALSE of `data`.
pub fn crc16(data: &[u8]) -> (crc: u16)
    ensures
        crc == crc16_spec(data@),
{
    let mut crc: u16 = 0xFFFF;
    let mut i: usize = 0;
    while i < data.len()
        invariant
            i <= data.len(),
            crc == crc16_spec(data@.take(i as int)),
        decreases data.len() - i,
    {
        let byte: u8 = data[i];
        crc = crc ^ ((byte as u16) << 8);
        let mut bit: u8 = 0;
        let ghost start = crc;
        while bit < 8
            invariant
                bit <= 8,
                crc == crc16_shift_n(start, bit as nat),
            decreases 8 - bit,
        {
            if crc & 0x8000 != 0 {
                crc = (crc << 1) ^ 0x1021;
            } else {
                crc = crc << 1;
            }
            bit = bit + 1;
        }
        proof {
            let prefix = data@.take(i as int + 1);
            assert(prefix.drop_last() == data@.take(i as int));
            assert(prefix.last() == byte);
        }
        i = i + 1;
    }
    proof {
        assert(data@.take(data.len() as int) == data@);
    }
    crc
}

/// Whether a sync word (low byte `0xEF` first) starts at index `i`.
pub open spec fn sync_at(buf: Seq<u8>, i: int) -> bool {
    0 <= i && i + 1 < buf.len() && buf[i] == 0xEF && buf[i + 1] == 0xBE
}

/// Index of the first sync word in `buf`, if it holds one.
pub fn find_sync(buf: &[u8]) -> (pos: Option<usize>)
    ensures
        match pos {
            Some(p) => sync_at(buf@, p as int) && forall|j: int| 0 <= j < p ==> !sync_at(buf@, j),
            None => forall|j: int| !sync_at(buf@, j),
        },
{
    if buf.len() < 2 {
        return None;
    }
    let mut i: usize = 0;
    while i < buf.len() - 1
        invariant
            buf.len() >= 2,
            forall|j: int| 0 <= j < i ==> !sync_at(buf@, j),
        decreases buf.len() - i,
    {
        if buf[i] == 0xEF && buf[i + 1] == 0xBE {
            return Some(i);
        }
        i = i + 1;
    }
    None
}

/// Value of the two bytes at `at`, low byte first.
pub open spec fn le_u16_at(data: Seq<u8>, at: int) -> int {
    data[at] as int + 256 * (data[at + 1] as int)
}

/// Value of the four bytes at `at`, low byte first.
pub open spec fn le_u32_at(data: Seq<u8>, at: int) -> int {
    data[at] as int + 256 * (data[at + 1] as int) + 65536 * (data[at + 2] as int) + 16777216 * (
    data[at + 3] as int)
}

/// `byteorder::LittleEndian::read_u16`: the first two bytes of `buf` read as
/// a little-endian integer. The outside function panics on a shorter buffer,
/// which the precondition rules out.
#[verifier::external_body]
fn read_u16_le(buf: &[u8]) -> (v: u16)
    requires
        buf@.len() >= 2,
    ensures
        v as int == le_u16_at(buf@, 0),
{
    byteorder::LittleEndian::read_u16(buf)
}

/// `byteorder::LittleEndian::read_u32`: the first four bytes of `buf` read
/// as a little-endian integer. The outside function panics on a shorter
/// buffer, which the precondition rules out.
#[verifier::external_body]
fn read_u32_le(buf: &[u8]) -> (v: u32)
    requires
        buf@.len() >= 4,
    ensures
        v as int == le_u32_at(buf@, 0),
{
    byteorder::LittleEndian::read_u32(buf)
}

/// The integer fields of one frame, as sent.
#[derive(Clone, Copy, Debug)]
pub struct RawFrame {
    /// Microseconds on the device's own wrapping clock.
    pub device_timestamp: u32,
    /// ADC readings in channel order: pedals A, B, C; levers LKL, LKR, LKV,
    /// RKL, RKR; volume; bar sensors at frets 0, 5, 10, 15.
    pub channels: [u16; 13],
}

/// Why a block of bytes is not a frame.
#[derive(Clone, Copy, Debug, PartialEq, Eq, Structural)]
pub enum FrameError {
    /// The block is not exactly `FRAME_SIZE` bytes long.
    WrongSize { len: usize },
    /// The first two bytes are not the sync word.
    BadSync { found: u16 },
    /// The trailing checksum does not match the first 32 bytes.
    CrcMismatch { received: u16, computed: u16 },
}

/// The first fault found in `data`, checking size, then sync word, then
/// checksum; `None` for a well-formed frame.
pub open spec fn frame_fault(data: Seq<u8>) -> Option<FrameError> {
    if data.len() != FRAME_SIZE {
        Some(FrameError::WrongSize { len: data.len() as usize })
    } else if le_u16_at(data, 0) != SYNC_WORD {
        Some(FrameError::BadSync { found: le_u16_at(data, 0) as u16 })
    } else if le_u16_at(data, 32) != crc16_spec(data.take(32)) {
        Some(
            FrameError::CrcMismatch {
                received: le_u16_at(data, 32) as u16,
                computed: crc16_spec(data.take(32)),
            },
        )
    } else {
        None
    }
}

/// Whether `r` is the outcome of decoding `data`: the fault if there is one,
/// otherwise the timestamp and the thirteen channel readings at their offsets.
pub open spec fn decodes_to(data: Seq<u8>, r: Result<RawFrame, FrameError>) -> bool {
    match r {
        Ok(frame) => {
            &&& frame_fault(data) is None
            &&& frame.device_timestamp as int == le_u32_at(data, 2)
            &&& forall|c: int|
                0 <= c < NUM_CHANNELS ==> (#[trigger] frame.channels[c]) as int == le_u16_at(
                    data,
                    6 + 2 * c,
                )
        },
        Err(e) => frame_fault(data) == Some(e),
    }
}

/// Decodes one frame. Fails on a wrong length, a wrong sync word or a
/// checksum mismatch, in that order of precedence.
pub fn parse_frame(data: &[u8]) -> (r: Result<RawFrame, FrameError>)
    ensures
        decodes_to(data@, r),
{
    if data.len() != FRAME_SIZE {
        return Err(FrameError::WrongSize { len: data.len() });
    }
    let sync: u16 = read_u16_le(&data[0..2]);
    if sync != SYNC_WORD {
        return Err(FrameError::BadSync { found: sync });
    }
    let device_timestamp: u32 = read_u32_le(&data[2..6]);
    let mut channels: [u16; 13] = [0u16;13];
    let mut c: usize = 0;
    while c < NUM_CHANNELS
        invariant
            c <= NUM_CHANNELS,
            data@.len() == FRAME_SIZE,
            forall|k: int| 0 <= k < c ==> (#[trigger] channels[k]) as int == le_u16_at(data@, 6 + 2 * k),
        decreases NUM_CHANNELS - c,
    {
        let at: usize = 6 + 2 * c;
        channels[c] = read_u16_le(&data[at..at + 2]);
        c = c + 1;
    }
    let received: u16 = read_u16_le(&data[32..34]);
    let computed: u16 = crc16(&data[0..32]);
    proof {
        assert(data@.subrange(0, 32) == data@.take(32));
    }
    if received != computed {
        return Err(FrameError::CrcMismatch { received, computed });
    }
    Ok(RawFrame { device_timestamp, channels })
}

/// Per-channel ADC range: the raw value at rest and the raw value at full
/// travel, for each of the thirteen channels.
#[derive(Clone, Copy, Debug)]
pub struct Calibration {
    /// `(min_raw, max_raw)` per channel.
    pub ranges: [(u16, u16); 13],
}

/// Width of a calibrated range, never less than one count.
pub open spec fn range_span(lo: u16, hi: u16) -> int {
    if hi > lo {
        hi - lo
    } else {
        1
    }
}

/// Counts above the rest value, limited to the range `0 ..= range_span`.
pub open spec fn range_offset(raw: u16, lo: u16, hi: u16) -> int {
    if raw <= lo {
        0
    } else if raw - lo >= range_span(lo, hi) {
        range_span(lo, hi)
    } else {
        raw - lo
    }
}

impl Calibration {
    /// Every channel spans 200 ..= 3800 of the 12-bit converter's 0 ..= 4095,
    /// leaving a margin at both rails.
    pub fn default_ranges() -> (cal: Calibration)
        ensures
            forall|c: int| 0 <= c < NUM_CHANNELS ==> (#[trigger] cal.ranges[c]) == (200u16, 3800u16),
    {
        Calibration { ranges: [(200u16, 3800u16);13] }
    }

    /// Position of `raw` within channel `channel`'s range as an exact
    /// fraction `(numerator, denominator)`: 0 at or below the rest value,
    /// 1 at or above full travel, linear in between.
    pub fn fraction(&self, channel: usize, raw: u16) -> (f: (u32, u32))
        requires
            channel < NUM_CHANNELS,
        ensures
            f.1 as int == range_span(self.ranges[channel as int].0, self.ranges[channel as int].1),
            f.0 as int == range_offset(
                raw,
                self.ranges[channel as int].0,
                self.ranges[channel as int].1,
            ),
            f.0 <= f.1,
            f.1 >= 1,
    {
        let (lo, hi) = self.ranges[channel];
        let span: u32 = if hi > lo {
            (hi - lo) as u32
        } else {
            1
        };
        let offset: u32 = if raw <= lo {
            0
        } else if (raw - lo) as u32 >= span {
            span
        } else {
            (raw - lo) as u32
        };
        (offset, span)
    }
}

impl Default for Calibration {
    fn default() -> (cal: Calibration)
        ensures
            forall|c: int| 0 <= c < NUM_CHANNELS ==> (#[trigger] cal.ranges[c]) == (200u16, 3800u16),
    {
        Calibration::default_ranges()
    }
}

/// Whether a sync word starts somewhere in `buf`.
pub open spec fn has_sync(buf: Seq<u8>) -> bool {
    exists|p: int| sync_at(buf, p)
}

/// Whether `p` is the position of the first sync word in `buf`.
pub open spec fn first_sync_at(buf: Seq<u8>, p: int) -> bool {
    sync_at(buf, p) && forall|j: int| 0 <= j < p ==> !sync_at(buf, j)
}

/// The position of the first sync word in a `buf` that holds one.
pub open spec fn first_sync(buf: Seq<u8>) -> int {
    choose|p: int| first_sync_at(buf, p)
}

/// Where the next frame-sized block starts in the pending bytes, if one is
/// there to take: at the first sync word, provided at least a frame's length
/// is pending in all and a frame's length follows from the sync word on.
pub open spec fn next_block(pending: Seq<u8>) -> Option<int> {
    if pending.len() >= FRAME_SIZE && has_sync(pending) && 0 <= first_sync(pending)
        && first_sync(pending) + FRAME_SIZE <= pending.len() {
        Some(first_sync(pending))
    } else {
        None
    }
}

/// What stays pending after one attempt to take a frame.
///
/// With fewer than a frame's length pending, everything stays. Otherwise
/// bytes ahead of the first sync word are discarded; without any sync word
/// all but the last byte are discarded (it may be the first half of a sync
/// word). A whole frame's length behind the sync word is removed as well.
pub open spec fn pending_after(pending: Seq<u8>) -> Seq<u8> {
    if pending.len() < FRAME_SIZE {
        pending
    } else if !has_sync(pending) {
        pending.skip(pending.len() - 1)
    } else {
        match next_block(pending) {
            Some(p) => pending.skip(p + FRAME_SIZE),
            None => pending.skip(first_sync(pending)),
        }
    }
}

/// Whether one attempt to take a frame out of the pending bytes `before`
/// gives the outcome `out` and leaves `after` pending: the next block, if
/// there is one, is decoded, whether it turns out well-formed or not.
pub open spec fn takes_frame(
    before: Seq<u8>,
    out: Option<Result<RawFrame, FrameError>>,
    after: Seq<u8>,
) -> bool {
    &&& after == pending_after(before)
    &&& match next_block(before) {
        Some(p) => out matches Some(r) && decodes_to(before.subrange(p, p + FRAME_SIZE), r),
        None => out is None,
    }
}

/// The frame-sized blocks that repeated attempts take out of the pending
/// bytes, in order, until an attempt takes none.
pub open spec fn blocks(pending: Seq<u8>) -> Seq<Seq<u8>>
    decreases pending.len(),
{
    match next_block(pending) {
        Some(p) => seq![pending.subrange(p, p + FRAME_SIZE)] + blocks(
            pending.skip(p + FRAME_SIZE),
        ),
        None => Seq::<Seq<u8>>::empty(),
    }
}

/// What stays pending when repeated attempts have taken all they can.
pub open spec fn residue(pending: Seq<u8>) -> Seq<u8>
    decreases pending.len(),
{
    match next_block(pending) {
        Some(p) => residue(pending.skip(p + FRAME_SIZE)),
        None => pending_after(pending),
    }
}

proof fn lemma_first_sync_below(buf: Seq<u8>, q: int)
    requires
        sync_at(buf, q),
    ensures
        exists|p: int| 0 <= p <= q && first_sync_at(buf, p),
    decreases q,
{
    if exists|j: int| 0 <= j < q && sync_at(buf, j) {
        let j = choose|j: int| 0 <= j < q && sync_at(buf, j);
        lemma_first_sync_below(buf, j);
    } else {
        assert(first_sync_at(buf, q));
    }
}

/// The first sync word is where a search from the front finds it.
proof fn lemma_first_sync_is(buf: Seq<u8>, p: int)
    requires
        first_sync_at(buf, p),
    ensures
        has_sync(buf),
        first_sync(buf) == p,
{
    let q = first_sync(buf);
    assert(first_sync_at(buf, q));
    if q < p {
        assert(!sync_at(buf, q));
    } else if p < q {
        assert(!sync_at(buf, p));
    }
}

/// Reassembles frames from a byte stream that arrives in arbitrary pieces.
pub struct FrameAssembler {
    buf: Vec<u8>,
}

impl View for FrameAssembler {
    type V = Seq<u8>;

    /// The bytes received and not yet consumed or discarded.
    closed spec fn view(&self) -> Seq<u8> {
        self.buf@
    }
}

impl FrameAssembler {
    /// An assembler with nothing pending.
    pub fn new() -> (a: FrameAssembler)
        ensures
            a@ == Seq::<u8>::empty(),
    {
        FrameAssembler { buf: Vec::new() }
    }

    /// Number of pending bytes.
    pub fn pending(&self) -> (n: usize)
        ensures
            n == self@.len(),
    {
        self.buf.len()
    }

    /// Appends newly received bytes.
    pub fn push_bytes(&mut self, bytes: &[u8])
        ensures
            final(self)@ == old(self)@ + bytes@,
    {
        self.buf.extend_from_slice(bytes);
    }

    /// Makes one attempt to take a frame out of the pending bytes. `None`
    /// means more input is needed; `Some(Err(_))` is a block that started
    /// with a sync word yet failed to decode, and is consumed.
    pub fn next_frame(&mut self) -> (out: Option<Result<RawFrame, FrameError>>)
        ensures
            takes_frame(old(self)@, out, final(self)@),
    {
        if self.buf.len() < FRAME_SIZE {
            return None;
        }
        match find_sync(self.buf.as_slice()) {
            None => {
                let keep_from: usize = self.buf.len() - 1;
                let rest = self.buf.split_off(keep_from);
                self.buf = rest;
                None
            },
            Some(p) => {
                proof {
                    lemma_first_sync_is(old(self)@, p as int);
                }
                let rest = self.buf.split_off(p);
                if rest.len() < FRAME_SIZE {
                    self.buf = rest;
                    return None;
                }
                let mut block = rest;
                let after = block.split_off(FRAME_SIZE);
                self.buf = after;
                let r = parse_frame(block.as_slice());
                proof {
                    assert(block@ == old(self)@.subrange(p as int, p + FRAME_SIZE));
                    assert(after@ == old(self)@.skip(p + FRAME_SIZE));
                }
                Some(r)
            },
        }
    }

    /// Takes every frame the pending bytes hold: attempts are repeated until
    /// one takes nothing. The outcomes come in stream order, one per block,
    /// and less than a frame's length stays pending.
    pub fn take_frames(&mut self) -> (frames: Vec<Result<RawFrame, FrameError>>)
        ensures
            frames@.len() == blocks(old(self)@).len(),
            forall|k: int|
                0 <= k < frames@.len() ==> decodes_to(blocks(old(self)@)[k], #[trigger] frames@[k]),
            final(self)@ == residue(old(self)@),
            final(self)@.len() < FRAME_SIZE,
    {
        let mut frames: Vec<Result<RawFrame, FrameError>> = Vec::new();
        loop
            invariant
                blocks(old(self)@) =~= blocks(old(self)@).take(frames@.len() as int) + blocks(
                    self@,
                ),
                frames@.len() <= blocks(old(self)@).len(),
                forall|k: int|
                    0 <= k < frames@.len() ==> decodes_to(
                        blocks(old(self)@)[k],
                        #[trigger] frames@[k],
                    ),
                residue(self@) == residue(old(self)@),
            decreases self@.len(),
        {
            let ghost before = self@;
            let ghost done = frames@.len() as int;
            let out = self.next_frame();
            proof {
                law_taking_frames_makes_progress(before, out, self@);
            }
            match out {
                Some(r) => {
                    frames.push(r);
                    proof {
                        let p = next_block(before)->0;
                        let all = blocks(old(self)@);
                        assert(blocks(before) == seq![before.subrange(p, p + FRAME_SIZE)] + blocks(
                            self@,
                        ));
                        assert(all[done] == (all.take(done) + blocks(before))[done]);
                        assert(all[done] == before.subrange(p, p + FRAME_SIZE));
                        assert(all.take(done + 1) + blocks(self@) =~= all);
                    }
                },
                None => {
                    proof {
                        assert(blocks(before) == Seq::<Seq<u8>>::empty());
                        assert(blocks(old(self)@).take(done) + blocks(before) =~= blocks(
                            old(self)@,
                        ).take(done));
                        assert(blocks(old(self)@).len() == done);
                    }
                    return frames;
                },
            }
        }
    }
}

/// Taking frames terminates and wastes nothing it could still need. Every
/// frame taken removes at least a frame's length from the pending bytes;
/// when none is taken, less than a frame's length stays pending, so the
/// next attempt waits for input; and the pending bytes never grow.
pub proof fn law_taking_frames_makes_progress(
    before: Seq<u8>,
    out: Option<Result<RawFrame, FrameError>>,
    after: Seq<u8>,
)
    requires
        takes_frame(before, out, after),
    ensures
        after.len() <= before.len(),
        out is Some ==> after.len() + FRAME_SIZE <= before.len(),
        out is None ==> after.len() < FRAME_SIZE,
{
    if before.len() >= FRAME_SIZE && has_sync(before) {
        let q = choose|q: int| sync_at(before, q);
        lemma_first_sync_below(before, q);
        let p = first_sync(before);
        assert(first_sync_at(before, p));
    }
}

/// A frame at the head of the pending bytes is taken as it stands: if the
/// pending bytes begin with a sync word and hold a frame's length, the next
/// frame taken is the decoding of exactly those first bytes, and what
/// follows them stays pending.
pub proof fn law_frame_at_head_is_taken(
    before: Seq<u8>,
    out: Option<Result<RawFrame, FrameError>>,
    after: Seq<u8>,
)
    requires
        before.len() >= FRAME_SIZE,
        sync_at(before, 0),
        takes_frame(before, out, after),
    ensures
        out matches Some(r) && decodes_to(before.take(FRAME_SIZE as int), r),
        after == before.skip(FRAME_SIZE as int),
{
    assert(first_sync_at(before, 0));
    lemma_first_sync_is(before, 0);
    assert(before.subrange(0, FRAME_SIZE as int) == before.take(FRAME_SIZE as int));
}

/// Bytes without a frame cannot hide one: a frame that arrives behind
/// pending bytes that hold no sync word, and that do not end in the first
/// half of one, is found at its own first byte.
pub proof fn law_garbage_does_not_shift_sync(garbage: Seq<u8>, frame: Seq<u8>)
    requires
        !has_sync(garbage),
        garbage.len() == 0 || garbage.last() != 0xEF,
        sync_at(frame, 0),
    ensures
        first_sync_at(garbage + frame, garbage.len() as int),
{
    let all = garbage + frame;
    assert(all[garbage.len() as int] == frame[0]);
    assert(all[garbage.len() as int + 1] == frame[1]);
    assert forall|j: int| 0 <= j < garbage.len() implies !sync_at(all, j) by {
        if j + 1 < garbage.len() {
            assert(all[j] == garbage[j] && all[j + 1] == garbage[j + 1]);
            assert(!sync_at(garbage, j));
        } else {
            assert(all[j] == garbage.last());
        }
    }
}

/// Bytes ahead of the pending ones change nothing as long as no sync word
/// starts among them.
proof fn lemma_leading_garbage(garbage: Seq<u8>, rest: Seq<u8>)
    requires
        forall|j: int| 0 <= j < garbage.len() ==> !sync_at(garbage + rest, j),
    ensures
        blocks(garbage + rest) == blocks(rest),
{
    let all = garbage + rest;
    let g = garbage.len() as int;
    assert forall|j: int| sync_at(rest, j) <==> sync_at(all, g + j) by {
        if 0 <= j && j + 1 < rest.len() {
            assert(all[g + j] == rest[j]);
            assert(all[g + j + 1] == rest[j + 1]);
        }
    }
    if has_sync(rest) {
        let w = choose|w: int| sync_at(rest, w);
        lemma_first_sync_below(rest, w);
        let q = first_sync(rest);
        assert(first_sync_at(rest, q));
        assert forall|j: int| 0 <= j < g + q implies !sync_at(all, j) by {
            if j >= g {
                assert(!sync_at(rest, j - g));
            }
        }
        assert(sync_at(all, g + q));
        lemma_first_sync_is(all, g + q);
        if q + FRAME_SIZE <= rest.len() {
            assert(next_block(rest) == Some(q));
            assert(next_block(all) == Some(g + q));
            assert(all.subrange(g + q, g + q + FRAME_SIZE) == rest.subrange(q, q + FRAME_SIZE));
            assert(all.skip(g + q + FRAME_SIZE) == rest.skip(q + FRAME_SIZE));
        } else {
            assert(next_block(rest) is None);
            assert(next_block(all) is None);
        }
    } else {
        if has_sync(all) {
            let w = choose|w: int| sync_at(all, w);
            assert(w >= g);
            assert(sync_at(rest, w - g));
        }
        assert(next_block(rest) is None);
        assert(next_block(all) is None);
    }
}

/// How the byte stream is cut into reads does not matter. Taking frames
/// from `first`, then receiving `second` and taking frames again, yields
/// the blocks that taking frames from both together yields.
pub proof fn law_reads_may_be_split(first: Seq<u8>, second: Seq<u8>)
    ensures
        blocks(first + second) == blocks(first) + blocks(residue(first) + second),
    decreases first.len(),
{
    let all = first + second;
    match next_block(first) {
        Some(p) => {
            let w = choose|w: int| sync_at(first, w);
            lemma_first_sync_below(first, w);
            assert(first_sync_at(first, p));
            assert forall|j: int| 0 <= j < p implies !sync_at(all, j) by {
                assert(all[j] == first[j] && all[j + 1] == first[j + 1]);
                assert(!sync_at(first, j));
            }
            assert(all[p] == first[p] && all[p + 1] == first[p + 1]);
            lemma_first_sync_is(all, p);
            assert(next_block(all) == Some(p));
            let tail = first.skip(p + FRAME_SIZE);
            assert(all.subrange(p, p + FRAME_SIZE) == first.subrange(p, p + FRAME_SIZE));
            assert(all.skip(p + FRAME_SIZE) == tail + second);
            law_reads_may_be_split(tail, second);
            assert(residue(first) == residue(tail));
            assert(blocks(all) =~= blocks(first) + blocks(residue(first) + second));
        },
        None => {
            let kept = pending_after(first);
            let dropped = first.len() - kept.len();
            if first.len() >= FRAME_SIZE && has_sync(first) {
                let w = choose|w: int| sync_at(first, w);
                lemma_first_sync_below(first, w);
                assert(first_sync_at(first, first_sync(first)));
            }
            assert(kept == first.skip(dropped));
            let garbage = first.take(dropped);
            assert(garbage + (kept + second) =~= all);
            assert forall|j: int| 0 <= j < garbage.len() implies !sync_at(
                garbage + (kept + second),
                j,
            ) by {
                if sync_at(all, j) {
                    assert(j + 1 < first.len());
                    assert(all[j] == first[j] && all[j + 1] == first[j + 1]);
                    assert(sync_at(first, j));
                }
            }
            lemma_leading_garbage(garbage, kept + second);
            assert(blocks(first) == Seq::<Seq<u8>>::empty());
            assert(blocks(all) =~= blocks(first) + blocks(residue(first) + second));
        },
    }
}

} // verus!
