//! CC1101 transmit logic: the 3-chip OOK encoding of a bit string, and the
//! SPI frames and register plan the radio is driven with.
use vstd::prelude::*;
use vstd::string::*;

verus! {

/// The chip at position `j` of the on-air chip stream for `bits`: each
/// logical bit `b` becomes the three chips `1`, `0`, `b`; everything after
/// the last bit is silence.
pub open spec fn chip_at(bits: Seq<char>, j: int) -> bool {
    if 0 <= j < 3 * bits.len() {
        let r = j % 3;
        if r == 0 {
            true
        } else if r == 1 {
            false
        } else {
            bits[j / 3] == '1'
        }
    } else {
        false
    }
}

/// The chips `start .. start + count` read as a big-endian binary number.
pub open spec fn chips_value(bits: Seq<char>, start: int, count: nat) -> nat
    decreases count,
{
    if count == 0 {
        0
    } else {
        2 * chips_value(bits, start, (count - 1) as nat) + (if chip_at(
            bits,
            start + count - 1,
        ) {
            1nat
        } else {
            0nat
        })
    }
}

/// Number of silent chips appended after a frame (about 10 ms).
pub open spec fn silence_chips() -> nat {
    30
}

/// Number of bytes of the encoded payload: the chips of the bits plus the
/// trailing silence, padded with zero chips to a whole byte.
pub open spec fn encoded_len(n: nat) -> nat {
    (3 * n + silence_chips() + 7) / 8
}

/// The encoded payload: byte `k` holds chips `8k .. 8k + 8`, most
/// significant bit first.
pub open spec fn spec_encode(bits: Seq<char>) -> Seq<u8> {
    Seq::new(encoded_len(bits.len()), |k: int| chips_value(bits, 8 * k, 8) as u8)
}

/// A string made of the characters `'0'` and `'1'` only.
pub open spec fn is_bit_string(s: Seq<char>) -> bool {
    forall|i: int| 0 <= i < s.len() ==> #[trigger] s[i] == '0' || s[i] == '1'
}

proof fn lemma_chips_value_bound(bits: Seq<char>, start: int, count: nat)
    ensures
        chips_value(bits, start, count) < vstd::arithmetic::power2::pow2(count),
    decreases count,
{
    if count > 0 {
        lemma_chips_value_bound(bits, start, (count - 1) as nat);
        vstd::arithmetic::power2::lemma_pow2_unfold(count);
    } else {
        vstd::arithmetic::power2::lemma2_to64();
    }
}

/// The weight of chip `i` (0 to 7) within a byte: most significant first.
pub open spec fn chip_weight(i: int) -> nat {
    seq![128nat, 64, 32, 16, 8, 4, 2, 1][i]
}

/// Chip `j` of a packed payload: bit `7 - j % 8` of byte `j / 8`.
pub open spec fn payload_chip(payload: Seq<u8>, j: int) -> bool {
    (payload[j / 8] as nat / chip_weight(j % 8)) % 2 == 1
}

/// Chip `start + i` as a number.
pub open spec fn chip_bit(bits: Seq<char>, start: int, i: int) -> nat {
    if chip_at(bits, start + i) {
        1
    } else {
        0
    }
}

proof fn lemma_byte_value(bits: Seq<char>, start: int)
    ensures
        chips_value(bits, start, 8) == 128 * chip_bit(bits, start, 0) + 64 * chip_bit(bits, start, 1)
            + 32 * chip_bit(bits, start, 2) + 16 * chip_bit(bits, start, 3) + 8 * chip_bit(
            bits,
            start,
            4,
        ) + 4 * chip_bit(bits, start, 5) + 2 * chip_bit(bits, start, 6) + chip_bit(bits, start, 7),
{
    reveal_with_fuel(chips_value, 9);
}

proof fn lemma_digit(v: nat, w: nat, m: nat, c: nat, r: nat)
    requires
        w > 0,
        c <= 1,
        r < w,
        v == (2 * m + c) * w + r,
    ensures
        (v / w) % 2 == c,
{
    vstd::arithmetic::div_mod::lemma_fundamental_div_mod_converse(
        v as int,
        w as int,
        (2 * m + c) as int,
        r as int,
    );
    vstd::arithmetic::div_mod::lemma_fundamental_div_mod_converse(
        (2 * m + c) as int,
        2,
        m as int,
        c as int,
    );
}

proof fn lemma_byte_readback(bits: Seq<char>, start: int, i: int)
    requires
        0 <= i < 8,
    ensures
        (chips_value(bits, start, 8) / chip_weight(i)) % 2 == chip_bit(bits, start, i),
        chips_value(bits, start, 8) < 256,
{
    let c0 = chip_bit(bits, start, 0);
    let c1 = chip_bit(bits, start, 1);
    let c2 = chip_bit(bits, start, 2);
    let c3 = chip_bit(bits, start, 3);
    let c4 = chip_bit(bits, start, 4);
    let c5 = chip_bit(bits, start, 5);
    let c6 = chip_bit(bits, start, 6);
    let c7 = chip_bit(bits, start, 7);
    lemma_byte_value(bits, start);
    let v = chips_value(bits, start, 8);
    if i == 0 {
        lemma_digit(v, 128, 0, c0, 64 * c1 + 32 * c2 + 16 * c3 + 8 * c4 + 4 * c5 + 2 * c6 + c7);
    } else if i == 1 {
        lemma_digit(v, 64, c0, c1, 32 * c2 + 16 * c3 + 8 * c4 + 4 * c5 + 2 * c6 + c7);
    } else if i == 2 {
        lemma_digit(v, 32, 2 * c0 + c1, c2, 16 * c3 + 8 * c4 + 4 * c5 + 2 * c6 + c7);
    } else if i == 3 {
        lemma_digit(v, 16, 4 * c0 + 2 * c1 + c2, c3, 8 * c4 + 4 * c5 + 2 * c6 + c7);
    } else if i == 4 {
        lemma_digit(v, 8, 8 * c0 + 4 * c1 + 2 * c2 + c3, c4, 4 * c5 + 2 * c6 + c7);
    } else if i == 5 {
        lemma_digit(v, 4, 16 * c0 + 8 * c1 + 4 * c2 + 2 * c3 + c4, c5, 2 * c6 + c7);
    } else if i == 6 {
        lemma_digit(v, 2, 32 * c0 + 16 * c1 + 8 * c2 + 4 * c3 + 2 * c4 + c5, c6, c7);
    } else {
        lemma_digit(v, 1, 64 * c0 + 32 * c1 + 16 * c2 + 8 * c3 + 4 * c4 + 2 * c5 + c6, c7, 0);
    }
}

/// The payload carries the chip stream exactly: chip `j` read back from it
/// is chip `j` of the stream, which is `1`, `0`, bit `j / 3` for the bits and
/// silence after them; at least 30 and at most 37 silent chips follow the
/// last bit.
pub proof fn lemma_encode_readback(bits: Seq<char>, j: int)
    requires
        0 <= j < 8 * spec_encode(bits).len(),
    ensures
        payload_chip(spec_encode(bits), j) == chip_at(bits, j),
        j % 3 == 0 && j < 3 * bits.len() ==> payload_chip(spec_encode(bits), j),
        j % 3 == 1 ==> !payload_chip(spec_encode(bits), j),
        j % 3 == 2 && j < 3 * bits.len() ==> (payload_chip(spec_encode(bits), j) <==> bits[j
            / 3] == '1'),
        j >= 3 * bits.len() ==> !payload_chip(spec_encode(bits), j),
        3 * bits.len() + 30 <= 8 * spec_encode(bits).len() < 3 * bits.len() + 38,
{
    let k = j / 8;
    let i = j % 8;
    lemma_byte_readback(bits, 8 * k, i);
    assert(8 * k + i == j);
    assert(spec_encode(bits)[k] as nat == chips_value(bits, 8 * k, 8));
}

/// The radio chip and the on-air format it transmits.
pub struct Cc1101;

impl Cc1101 {
    /// Encode `bits` (a `'0'`/`'1'` string of any length) into the 3-chip
    /// `1 0 b` form the fans expect, append 30 silent chips and pack the chips
    /// most significant bit first into bytes, padding the last byte with zero
    /// chips.
    pub fn encode(bits: &str) -> (out: Vec<u8>)
        requires
            is_bit_string(bits@),
            3 * bits@.len() + 32 <= usize::MAX,
        ensures
            out@ == spec_encode(bits@),
    {
        broadcast use vstd::string::is_ascii_spec_bytes;

        assert(is_ascii(bits)) by {
            assert forall|i: int| 0 <= i < bits@.len() implies '\0' <= #[trigger] bits@[i]
                <= '\u{7f}' by {}
        }
        let raw = bits.as_bytes();
        let n = raw.len();
        proof {
            assert(raw@.len() == bits@.len());
        }
        let chip_count = 3 * n + 30;
        let byte_count = (chip_count - 1) / 8 + 1;
        let mut out: Vec<u8> = Vec::new();
        let mut k: usize = 0;
        while k < byte_count
            invariant
                n == bits@.len(),
                raw@ =~= Seq::new(bits@.len(), |i| bits@[i] as u8),
                is_bit_string(bits@),
                3 * n + 32 <= usize::MAX,
                chip_count == 3 * n + 30,
                byte_count == encoded_len(n as nat),
                k <= byte_count,
                out@.len() == k,
                forall|q: int| 0 <= q < k ==> out@[q] == spec_encode(bits@)[q],
            decreases byte_count - k,
        {
            let mut acc: u8 = 0;
            let mut i: usize = 0;
            while i < 8
                invariant
                    n == bits@.len(),
                    raw@ =~= Seq::new(bits@.len(), |i| bits@[i] as u8),
                    is_bit_string(bits@),
                    chip_count == 3 * n + 30,
                    k < byte_count,
                    byte_count == encoded_len(n as nat),
                    i <= 8,
                    acc == chips_value(bits@, 8 * k, i as nat),
                decreases 8 - i,
            {
                proof {
                    lemma_chips_value_bound(bits@, 8 * k, i as nat);
                    vstd::arithmetic::power2::lemma_pow2_strictly_increases(i as nat, 8);
                    vstd::arithmetic::power2::lemma2_to64();
                }
                let j = 8 * k + i;
                let chip: u8 = if j < 3 * n {
                    let r = j % 3;
                    if r == 0 {
                        1
                    } else if r == 1 {
                        0
                    } else {
                        if raw[j / 3] == 49 {
                            1
                        } else {
                            0
                        }
                    }
                } else {
                    0
                };
                proof {
                    let jj = j as int;
                    if jj < 3 * n && jj % 3 == 2 {
                        assert(bits@[jj / 3] == '0' || bits@[jj / 3] == '1');
                    }
                    assert(chip == (if chip_at(bits@, 8 * k + i) { 1u8 } else { 0u8 }));
                }
                acc = acc * 2 + chip;
                i = i + 1;
            }
            out.push(acc);
            k = k + 1;
        }
        assert(out@ =~= spec_encode(bits@));
        out
    }
}

} // verus!

verus! {

/// Header flag of a single-register write.
pub const WRITE_SINGLE: u8 = 0x00;

/// Header flag of a burst write.
pub const WRITE_BURST: u8 = 0x40;

/// Header flag of a burst read; status registers must be read with it.
pub const READ_BURST: u8 = 0xC0;

/// Command strobe: reset the chip.
pub const SRES: u8 = 0x30;

/// Command strobe: calibrate the frequency synthesizer.
pub const SCAL: u8 = 0x33;

/// Command strobe: enable transmission.
pub const STX: u8 = 0x35;

/// Command strobe: go idle.
pub const SIDLE: u8 = 0x36;

/// Command strobe: flush the TX FIFO.
pub const SFTX: u8 = 0x3B;

/// Register: packet length.
pub const PKTLEN: u8 = 0x06;

/// Register: power amplifier table.
pub const PATABLE: u8 = 0x3E;

/// Register: the TX FIFO.
pub const TX_FIFO: u8 = 0x3F;

/// Status register: part number.
pub const PARTNUM: u8 = 0x30;

/// Status register: chip version.
pub const VERSION: u8 = 0x31;

/// Status register: main radio state.
pub const MARCSTATE: u8 = 0x35;

/// Crystal frequency in Hz.
pub const FXOSC_HZ: u64 = 26_000_000;

/// One step of driving the chip over SPI.
pub enum SpiOp {
    /// Send a one-byte command strobe.
    Strobe(u8),
    /// Write one register.
    WriteReg(u8, u8),
    /// Write consecutive bytes starting at a register.
    WriteBurst(u8, Vec<u8>),
    /// Wait this many microseconds.
    SleepMicros(u64),
}

/// The abstract value of an [`SpiOp`].
pub enum SpiOpView {
    Strobe(u8),
    WriteReg(u8, u8),
    WriteBurst(u8, Seq<u8>),
    SleepMicros(u64),
}

impl View for SpiOp {
    type V = SpiOpView;

    open spec fn view(&self) -> SpiOpView {
        match self {
            SpiOp::Strobe(c) => SpiOpView::Strobe(*c),
            SpiOp::WriteReg(a, v) => SpiOpView::WriteReg(*a, *v),
            SpiOp::WriteBurst(a, d) => SpiOpView::WriteBurst(*a, d@),
            SpiOp::SleepMicros(us) => SpiOpView::SleepMicros(*us),
        }
    }
}

/// The abstract values of a list of operations.
pub open spec fn ops_view(ops: Seq<SpiOp>) -> Seq<SpiOpView> {
    Seq::new(ops.len(), |i: int| ops[i]@)
}

/// One register write per `(address, value)` pair, in order.
pub open spec fn reg_writes(regs: Seq<(u8, u8)>) -> Seq<SpiOpView> {
    Seq::new(regs.len(), |i: int| SpiOpView::WriteReg(regs[i].0, regs[i].1))
}

/// The static register profile written at init time (TI's 300 MHz OOK
/// reference profile): packet/FIFO mode, no sync, preamble, whitening or
/// CRC; about 3000 baud; PATABLE index 1 as the carrier-on level.
pub open spec fn init_regs() -> Seq<(u8, u8)> {
    seq![
        (0x00u8, 0x29u8),
        (0x02, 0x06),
        (0x03, 0x47),
        (0x04, 0x00),
        (0x05, 0x00),
        (0x07, 0x04),
        (0x08, 0x00),
        (0x0B, 0x06),
        (0x0C, 0x00),
        (0x10, 0x86),
        (0x11, 0xE4),
        (0x12, 0x30),
        (0x13, 0x22),
        (0x14, 0xF8),
        (0x15, 0x00),
        (0x17, 0x30),
        (0x18, 0x18),
        (0x19, 0x16),
        (0x20, 0xFB),
        (0x22, 0x11),
        (0x23, 0xE9),
        (0x24, 0x2A),
        (0x25, 0x00),
        (0x26, 0x1F),
        (0x2C, 0x81),
        (0x2D, 0x35),
        (0x2E, 0x09),
    ]
}

/// The 24-bit FREQ word for a carrier frequency: `f * 2^16 / Fxosc`.
pub open spec fn freq_word(frequency_hz: u32) -> nat {
    ((frequency_hz as nat) * 65536) / 26_000_000
}

/// The plan run by `init` before it reads the chip id: reset, wait 5 ms,
/// write the static profile, program FREQ2/FREQ1/FREQ0 from the frequency,
/// write PATABLE as `[0, power]` (off, on), idle, calibrate, wait 800 µs.
pub open spec fn init_plan(frequency_hz: u32, power: u8) -> Seq<SpiOpView> {
    let f = freq_word(frequency_hz);
    seq![SpiOpView::Strobe(SRES), SpiOpView::SleepMicros(5000)] + reg_writes(init_regs()) + seq![
        SpiOpView::WriteReg(0x0D, ((f / 0x1_0000) % 256) as u8),
        SpiOpView::WriteReg(0x0E, ((f / 0x100) % 256) as u8),
        SpiOpView::WriteReg(0x0F, (f % 256) as u8),
        SpiOpView::WriteBurst(PATABLE, seq![0u8, power]),
        SpiOpView::Strobe(SIDLE),
        SpiOpView::Strobe(SCAL),
        SpiOpView::SleepMicros(800),
    ]
}

/// The plan that loads and starts one frame: idle, flush the TX FIFO, write
/// the payload into it, transmit.
pub open spec fn frame_plan(payload: Seq<u8>) -> Seq<SpiOpView> {
    seq![
        SpiOpView::Strobe(SIDLE),
        SpiOpView::Strobe(SFTX),
        SpiOpView::WriteBurst(TX_FIFO, payload),
        SpiOpView::Strobe(STX),
    ]
}

/// Why `init` refused the chip: the id registers do not look like a CC1101.
pub struct ChipIdMismatch {
    pub partnum: u8,
    pub version: u8,
}

/// The uppercase hexadecimal digit for `d` (0 to 15).
pub open spec fn hex_digit(d: nat) -> char {
    seq!['0', '1', '2', '3', '4', '5', '6', '7', '8', '9', 'A', 'B', 'C', 'D', 'E', 'F'][d as int]
}

/// Two uppercase hexadecimal digits for `b`.
pub open spec fn hex_byte(b: u8) -> Seq<char> {
    seq![hex_digit((b / 16) as nat), hex_digit((b % 16) as nat)]
}

fn hex_byte_text(b: u8) -> (r: String)
    ensures
        r@ == hex_byte(b),
{
    let digits = "0123456789ABCDEF";
    proof {
        reveal_strlit("0123456789ABCDEF");
        assert(digits@ =~= seq![
            '0', '1', '2', '3', '4', '5', '6', '7', '8', '9', 'A', 'B', 'C', 'D', 'E', 'F'
        ]);
    }
    let hi = (b / 16) as usize;
    let lo = (b % 16) as usize;
    let mut r = String::from_str(digits.substring_char(hi, hi + 1));
    r.append(digits.substring_char(lo, lo + 1));
    assert(r@ =~= hex_byte(b));
    r
}

impl ChipIdMismatch {
    /// The error text: the id registers read and the values expected.
    pub fn message(&self) -> (r: String)
        ensures
            r@ == "CC1101 not responding: PARTNUM=0x"@ + hex_byte(self.partnum) + " VERSION=0x"@
                + hex_byte(self.version) + " (expected PARTNUM=0x00, VERSION≈0x04/0x14)"@,
    {
        let mut r = String::from_str("CC1101 not responding: PARTNUM=0x");
        r.append(hex_byte_text(self.partnum).as_str());
        r.append(" VERSION=0x");
        r.append(hex_byte_text(self.version).as_str());
        r.append(" (expected PARTNUM=0x00, VERSION≈0x04/0x14)");
        r
    }
}

impl Cc1101 {
    /// The SPI bytes that write `val` to register `addr`.
    pub fn write_reg_frame(addr: u8, val: u8) -> (r: [u8; 2])
        ensures
            r@ == seq![addr | WRITE_SINGLE, val],
    {
        let r = [addr | WRITE_SINGLE, val];
        assert(r@ =~= seq![addr | WRITE_SINGLE, val]);
        r
    }

    /// The SPI bytes that write `data` to consecutive registers from `addr`.
    pub fn write_burst_frame(addr: u8, data: &[u8]) -> (r: Vec<u8>)
        ensures
            r@ == seq![addr | WRITE_BURST] + data@,
    {
        let mut r: Vec<u8> = Vec::new();
        r.push(addr | WRITE_BURST);
        let mut i: usize = 0;
        while i < data.len()
            invariant
                i <= data@.len(),
                r@ == seq![addr | WRITE_BURST] + data@.subrange(0, i as int),
            decreases data@.len() - i,
        {
            r.push(data[i]);
            i = i + 1;
            assert(r@ =~= seq![addr | WRITE_BURST] + data@.subrange(0, i as int));
        }
        assert(data@.subrange(0, data@.len() as int) =~= data@);
        r
    }

    /// The SPI bytes that read status register `addr`; the value comes back
    /// in the second byte.
    pub fn read_status_frame(addr: u8) -> (r: [u8; 2])
        ensures
            r@ == seq![addr | READ_BURST, 0u8],
    {
        let r = [addr | READ_BURST, 0u8];
        assert(r@ =~= seq![addr | READ_BURST, 0u8]);
        r
    }

    /// The operations `init` runs before it checks the chip id.
    pub fn init_ops(frequency_hz: u32, power: u8) -> (r: Vec<SpiOp>)
        ensures
            ops_view(r@) == init_plan(frequency_hz, power),
    {
        let regs: Vec<(u8, u8)> = vec![
            (0x00u8, 0x29u8),
            (0x02, 0x06),
            (0x03, 0x47),
            (0x04, 0x00),
            (0x05, 0x00),
            (0x07, 0x04),
            (0x08, 0x00),
            (0x0B, 0x06),
            (0x0C, 0x00),
            (0x10, 0x86),
            (0x11, 0xE4),
            (0x12, 0x30),
            (0x13, 0x22),
            (0x14, 0xF8),
            (0x15, 0x00),
            (0x17, 0x30),
            (0x18, 0x18),
            (0x19, 0x16),
            (0x20, 0xFB),
            (0x22, 0x11),
            (0x23, 0xE9),
            (0x24, 0x2A),
            (0x25, 0x00),
            (0x26, 0x1F),
            (0x2C, 0x81),
            (0x2D, 0x35),
            (0x2E, 0x09),
        ];
        assert(regs@ =~= init_regs());
        let mut ops: Vec<SpiOp> = Vec::new();
        ops.push(SpiOp::Strobe(SRES));
        ops.push(SpiOp::SleepMicros(5000));
        let mut i: usize = 0;
        while i < regs.len()
            invariant
                regs@ == init_regs(),
                i <= regs@.len(),
                ops_view(ops@) == seq![SpiOpView::Strobe(SRES), SpiOpView::SleepMicros(5000)]
                    + reg_writes(init_regs().subrange(0, i as int)),
            decreases regs@.len() - i,
        {
            let (a, v) = regs[i];
            let ghost prev = ops@;
            assert(init_regs()[i as int] == (a, v));
            ops.push(SpiOp::WriteReg(a, v));
            assert(ops@ == prev.push(SpiOp::WriteReg(a, v)));
            assert(ops_view(ops@) =~= ops_view(prev).push(SpiOpView::WriteReg(a, v)));
            assert(reg_writes(init_regs().subrange(0, i + 1)) =~= reg_writes(
                init_regs().subrange(0, i as int),
            ).push(SpiOpView::WriteReg(a, v)));
            i = i + 1;
            assert(ops_view(ops@) =~= seq![SpiOpView::Strobe(SRES), SpiOpView::SleepMicros(5000)]
                + reg_writes(init_regs().subrange(0, i as int)));
        }
        assert(init_regs().subrange(0, regs@.len() as int) =~= init_regs());
        assert(ops_view(ops@) =~= seq![SpiOpView::Strobe(SRES), SpiOpView::SleepMicros(5000)]
            + reg_writes(init_regs()));
        let word: u64 = ((frequency_hz as u64) << 16) / FXOSC_HZ;
        assert(((frequency_hz as u64) << 16) == (frequency_hz as u64) * 65536) by (bit_vector);
        let f2 = ((word >> 16) & 0xFF) as u8;
        let f1 = ((word >> 8) & 0xFF) as u8;
        let f0 = (word & 0xFF) as u8;
        assert(f2 == ((word / 0x1_0000) % 256) as u8) by (bit_vector)
            requires
                f2 == ((word >> 16) & 0xFF) as u8,
        ;
        assert(f1 == ((word / 0x100) % 256) as u8) by (bit_vector)
            requires
                f1 == ((word >> 8) & 0xFF) as u8,
        ;
        assert(f0 == (word % 256) as u8) by (bit_vector)
            requires
                f0 == (word & 0xFF) as u8,
        ;
        let ghost before = ops_view(ops@);
        ops.push(SpiOp::WriteReg(0x0D, f2));
        ops.push(SpiOp::WriteReg(0x0E, f1));
        ops.push(SpiOp::WriteReg(0x0F, f0));
        let mut table: Vec<u8> = Vec::new();
        table.push(0);
        table.push(power);
        assert(table@ =~= seq![0u8, power]);
        ops.push(SpiOp::WriteBurst(PATABLE, table));
        ops.push(SpiOp::Strobe(SIDLE));
        ops.push(SpiOp::Strobe(SCAL));
        ops.push(SpiOp::SleepMicros(800));
        assert(ops_view(ops@) =~= init_plan(frequency_hz, power));
        ops
    }

    /// Check the id registers read after init: PARTNUM must be 0 and VERSION
    /// neither 0 nor 0xFF (those mean MISO is dead).
    pub fn check_chip_id(partnum: u8, version: u8) -> (r: Result<(), ChipIdMismatch>)
        ensures
            r is Ok <==> (partnum == 0 && version != 0 && version != 0xFF),
            r matches Err(e) ==> e.partnum == partnum && e.version == version,
    {
        if partnum != 0x00 || version == 0x00 || version == 0xFF {
            Err(ChipIdMismatch { partnum, version })
        } else {
            Ok(())
        }
    }

    /// The PKTLEN write for a payload: its length, kept to the low byte as
    /// the register holds.
    pub fn pktlen_op(payload_len: usize) -> (r: SpiOp)
        ensures
            r@ == SpiOpView::WriteReg(PKTLEN, (payload_len % 256) as u8),
    {
        SpiOp::WriteReg(PKTLEN, (payload_len % 256) as u8)
    }

    /// The operations that load `payload` and start sending it.
    pub fn frame_ops(payload: &Vec<u8>) -> (r: Vec<SpiOp>)
        ensures
            ops_view(r@) == frame_plan(payload@),
    {
        let mut ops: Vec<SpiOp> = Vec::new();
        ops.push(SpiOp::Strobe(SIDLE));
        ops.push(SpiOp::Strobe(SFTX));
        ops.push(SpiOp::WriteBurst(TX_FIFO, payload.clone()));
        ops.push(SpiOp::Strobe(STX));
        assert(ops_view(ops@) =~= frame_plan(payload@));
        ops
    }

    /// True when a MARCSTATE reading means the chip is back in IDLE (the
    /// frame has drained).
    pub fn is_idle(marcstate: u8) -> (r: bool)
        ensures
            r == (marcstate & 0x1F == 0x01),
    {
        marcstate & 0x1F == 0x01
    }
}

} // verus!

verus! {

/// `2^e` for an exponent nibble (0 to 15).
pub open spec fn nibble_pow2(e: nat) -> nat {
    seq![1nat, 2, 4, 8, 16, 32, 64, 128, 256, 512, 1024, 2048, 4096, 8192, 16384, 32768][e as int]
}

/// The data rate in baud that MDMCFG4 (exponent in its low nibble) and
/// MDMCFG3 (mantissa) select with the 26 MHz crystal, per the CC1101
/// datasheet: `(256 + M) * 2^E * Fxosc / 2^28`, rounded down.
pub open spec fn data_rate(mdmcfg4: u8, mdmcfg3: u8) -> nat {
    ((256 + mdmcfg3 as nat) * nibble_pow2((mdmcfg4 % 16) as nat) * 26_000_000nat) / 268_435_456nat
}

/// The register plan written at init is TI's 300 MHz OOK profile, entry for
/// entry: reset and a 5 ms wait, the 27 static registers in order (among
/// them MDMCFG4 = 0x86 and MDMCFG3 = 0xE4, a data rate of about 3000 baud,
/// i.e. 333 µs per chip, the fans' chip rate), FREQ2/FREQ1/FREQ0, PATABLE
/// as off then `power`, idle, calibrate and an 800 µs wait.
pub proof fn lemma_init_profile(frequency_hz: u32, power: u8)
    ensures
        init_plan(frequency_hz, power).len() == 36,
        init_plan(frequency_hz, power)[0] == SpiOpView::Strobe(0x30),
        init_plan(frequency_hz, power)[1] == SpiOpView::SleepMicros(5000),
        init_plan(frequency_hz, power)[2] == SpiOpView::WriteReg(0x00, 0x29),
        init_plan(frequency_hz, power)[3] == SpiOpView::WriteReg(0x02, 0x06),
        init_plan(frequency_hz, power)[4] == SpiOpView::WriteReg(0x03, 0x47),
        init_plan(frequency_hz, power)[5] == SpiOpView::WriteReg(0x04, 0x00),
        init_plan(frequency_hz, power)[6] == SpiOpView::WriteReg(0x05, 0x00),
        init_plan(frequency_hz, power)[7] == SpiOpView::WriteReg(0x07, 0x04),
        init_plan(frequency_hz, power)[8] == SpiOpView::WriteReg(0x08, 0x00),
        init_plan(frequency_hz, power)[9] == SpiOpView::WriteReg(0x0B, 0x06),
        init_plan(frequency_hz, power)[10] == SpiOpView::WriteReg(0x0C, 0x00),
        init_plan(frequency_hz, power)[11] == SpiOpView::WriteReg(0x10, 0x86),
        init_plan(frequency_hz, power)[12] == SpiOpView::WriteReg(0x11, 0xE4),
        init_plan(frequency_hz, power)[13] == SpiOpView::WriteReg(0x12, 0x30),
        init_plan(frequency_hz, power)[14] == SpiOpView::WriteReg(0x13, 0x22),
        init_plan(frequency_hz, power)[15] == SpiOpView::WriteReg(0x14, 0xF8),
        init_plan(frequency_hz, power)[16] == SpiOpView::WriteReg(0x15, 0x00),
        init_plan(frequency_hz, power)[17] == SpiOpView::WriteReg(0x17, 0x30),
        init_plan(frequency_hz, power)[18] == SpiOpView::WriteReg(0x18, 0x18),
        init_plan(frequency_hz, power)[19] == SpiOpView::WriteReg(0x19, 0x16),
        init_plan(frequency_hz, power)[20] == SpiOpView::WriteReg(0x20, 0xFB),
        init_plan(frequency_hz, power)[21] == SpiOpView::WriteReg(0x22, 0x11),
        init_plan(frequency_hz, power)[22] == SpiOpView::WriteReg(0x23, 0xE9),
        init_plan(frequency_hz, power)[23] == SpiOpView::WriteReg(0x24, 0x2A),
        init_plan(frequency_hz, power)[24] == SpiOpView::WriteReg(0x25, 0x00),
        init_plan(frequency_hz, power)[25] == SpiOpView::WriteReg(0x26, 0x1F),
        init_plan(frequency_hz, power)[26] == SpiOpView::WriteReg(0x2C, 0x81),
        init_plan(frequency_hz, power)[27] == SpiOpView::WriteReg(0x2D, 0x35),
        init_plan(frequency_hz, power)[28] == SpiOpView::WriteReg(0x2E, 0x09),
        init_plan(frequency_hz, power)[29] matches SpiOpView::WriteReg(0x0D, _),
        init_plan(frequency_hz, power)[30] matches SpiOpView::WriteReg(0x0E, _),
        init_plan(frequency_hz, power)[31] matches SpiOpView::WriteReg(0x0F, _),
        init_plan(frequency_hz, power)[32] == SpiOpView::WriteBurst(0x3E, seq![0u8, power]),
        init_plan(frequency_hz, power)[33] == SpiOpView::Strobe(0x36),
        init_plan(frequency_hz, power)[34] == SpiOpView::Strobe(0x33),
        init_plan(frequency_hz, power)[35] == SpiOpView::SleepMicros(800),
        init_plan(frequency_hz, power)[11] matches SpiOpView::WriteReg(_, m4)
            && init_plan(frequency_hz, power)[12] matches SpiOpView::WriteReg(_, m3) && 2995
            <= data_rate(m4, m3) <= 3005 && 332 <= 1_000_000nat / data_rate(m4, m3) <= 334,
{
    let plan = init_plan(frequency_hz, power);
    let head = seq![SpiOpView::Strobe(SRES), SpiOpView::SleepMicros(5000)];
    assert(reg_writes(init_regs()).len() == 27);
    assert forall|k: int| 0 <= k < 27 implies #[trigger] plan[2 + k] == SpiOpView::WriteReg(
        init_regs()[k].0,
        init_regs()[k].1,
    ) by {
        assert(plan[2 + k] == reg_writes(init_regs())[k]);
    }
    assert(plan[11] == SpiOpView::WriteReg(0x10, 0x86));
    assert(plan[12] == SpiOpView::WriteReg(0x11, 0xE4));
    assert(data_rate(0x86, 0xE4) == 3000) by {
        assert(nibble_pow2(6) == 64);
        assert((256 + 0xE4nat) * 64 * 26_000_000nat == 805_376_000_000nat);
        assert(805_376_000_000nat / 268_435_456nat == 3000);
    }
    assert(1_000_000nat / 3000nat == 333);
    assert(plan[2] == SpiOpView::WriteReg(0x00, 0x29));
    assert(plan[28] == SpiOpView::WriteReg(0x2E, 0x09));
}

} // verus!

verus! {

/// FREQ2/FREQ1/FREQ0 written at init hold the largest 24-bit word whose
/// carrier (`word * Fxosc / 2^16`) does not exceed the requested frequency:
/// the radio is tuned to within one synthesizer step (about 397 Hz) below
/// it.
pub proof fn lemma_init_frequency(frequency_hz: u32, power: u8)
    ensures
        init_plan(frequency_hz, power)[29] matches SpiOpView::WriteReg(_, f2)
            && init_plan(frequency_hz, power)[30] matches SpiOpView::WriteReg(_, f1)
            && init_plan(frequency_hz, power)[31] matches SpiOpView::WriteReg(_, f0) && {
            let w = f2 as nat * 65536 + f1 as nat * 256 + f0 as nat;
            &&& w * 26_000_000 <= frequency_hz as nat * 65536
            &&& frequency_hz as nat * 65536 < (w + 1) * 26_000_000
        },
{
    let plan = init_plan(frequency_hz, power);
    let f = freq_word(frequency_hz);
    let x: nat = frequency_hz as nat * 65536;
    assert(plan[29] == SpiOpView::WriteReg(0x0D, ((f / 0x1_0000) % 256) as u8));
    assert(plan[30] == SpiOpView::WriteReg(0x0E, ((f / 0x100) % 256) as u8));
    assert(plan[31] == SpiOpView::WriteReg(0x0F, (f % 256) as u8));
    vstd::arithmetic::div_mod::lemma_fundamental_div_mod(x as int, 26_000_000);
    assert(f * 26_000_000 <= x < (f + 1) * 26_000_000);
    assert(x <= 0xFFFF_FFFFnat * 65536);
    assert(f < 0x100_0000) by {
        vstd::arithmetic::div_mod::lemma_div_is_ordered(x as int, 0xFFFF_FFFFint * 65536, 26_000_000);
    }
    let w64: u64 = f as u64;
    assert(w64 < 0x100_0000 ==> ((w64 / 0x10000) % 256) * 0x10000 + ((w64 / 0x100) % 256) * 0x100
        + w64 % 256 == w64) by (bit_vector);
}

} // verus!
