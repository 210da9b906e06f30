//! Timing tables for transmitting an OOK chip stream through librpitx.
use vstd::prelude::*;
use vstd::string::*;
use crate::text::{i32_text, signed_decimal};

verus! {

/// The chip levels of a chip string: `'0'` is off, `'1'` is on, any other
/// character is skipped.
pub open spec fn chip_levels(s: Seq<char>) -> Seq<u8>
    decreases s.len(),
{
    if s.len() == 0 {
        seq![]
    } else {
        let rest = chip_levels(s.drop_last());
        if s.last() == '0' {
            rest.push(0u8)
        } else if s.last() == '1' {
            rest.push(1u8)
        } else {
            rest
        }
    }
}

/// The samples handed to the transmitter: one level and one duration per
/// chip, and the length of the whole message in microseconds.
pub struct OokTiming {
    pub values: Vec<u8>,
    pub durations: Vec<u32>,
    pub total_us: u32,
}

impl OokTiming {
    /// The samples for `chip_bits` with every chip held `chip_us`
    /// microseconds; the error `empty chip stream` when it holds no `'0'` or
    /// `'1'`.
    pub fn from_chips(chip_bits: &str, chip_us: u32) -> (r: Result<OokTiming, String>)
        requires
            chip_levels(chip_bits@).len() * chip_us <= u32::MAX,
        ensures
            match r {
                Ok(t) => {
                    &&& chip_levels(chip_bits@).len() > 0
                    &&& t.values@ == chip_levels(chip_bits@)
                    &&& t.durations@ == Seq::new(t.values@.len(), |i: int| chip_us)
                    &&& t.total_us == t.values@.len() * chip_us
                },
                Err(e) => chip_levels(chip_bits@).len() == 0 && e@ == "empty chip stream"@,
            },
    {
        let n = chip_bits.unicode_len();
        let mut values: Vec<u8> = Vec::new();
        let mut durations: Vec<u32> = Vec::new();
        let mut i: usize = 0;
        while i < n
            invariant
                n == chip_bits@.len(),
                i <= n,
                values@ == chip_levels(chip_bits@.subrange(0, i as int)),
                durations@ == Seq::new(values@.len(), |j: int| chip_us),
            decreases n - i,
        {
            let c = chip_bits.get_char(i);
            let ghost prefix = chip_bits@.subrange(0, i + 1);
            assert(prefix.drop_last() =~= chip_bits@.subrange(0, i as int));
            if c == '0' {
                values.push(0);
                durations.push(chip_us);
            } else if c == '1' {
                values.push(1);
                durations.push(chip_us);
            }
            assert(durations@ =~= Seq::new(values@.len(), |j: int| chip_us));
            i = i + 1;
        }
        assert(chip_bits@.subrange(0, n as int) =~= chip_bits@);
        if values.len() == 0 {
            return Err(String::from_str("empty chip stream"));
        }
        let mut total: u32 = 0;
        let mut k: usize = 0;
        while k < durations.len()
            invariant
                durations@ == Seq::new(values@.len(), |j: int| chip_us),
                values@.len() * chip_us <= u32::MAX,
                k <= durations@.len(),
                total == k * chip_us,
            decreases durations@.len() - k,
        {
            proof {
                vstd::arithmetic::mul::lemma_mul_is_distributive_add_other_way(
                    chip_us as int,
                    k as int,
                    1,
                );
                vstd::arithmetic::mul::lemma_mul_inequality(
                    (k + 1) as int,
                    values@.len() as int,
                    chip_us as int,
                );
            }
            total = total + durations[k];
            k = k + 1;
        }
        Ok(OokTiming { values, durations, total_us: total })
    }
}

/// The result of a transmission for the transmitter's return code: success
/// for 0, else an error naming the code.
pub fn send_outcome(rc: i32) -> (r: Result<(), String>)
    ensures
        rc == 0 <==> r is Ok,
        r matches Err(e) ==> e@ == "rpitx_send_ook_timing rc="@ + signed_decimal(rc as int),
{
    if rc == 0 {
        Ok(())
    } else {
        let mut e = String::from_str("rpitx_send_ook_timing rc=");
        let code = i32_text(rc);
        e.append(code.as_str());
        Err(e)
    }
}

} // verus!
