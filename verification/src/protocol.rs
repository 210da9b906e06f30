//! The fans' 25-bit RF message: a 4-bit preamble, the 14-bit fan id and a
//! 7-bit command id from a vocabulary shared by every fan.
use vstd::prelude::*;
use vstd::string::*;
use crate::cc1101::is_bit_string;
use crate::text::same_text;

verus! {

/// The command id of each RF command name, as the remote sends it.
pub open spec fn command_id_of(cmd: Seq<char>) -> Option<Seq<char>> {
    if cmd == "reverse"@ {
        Some("0001000"@)
    } else if cmd == "light"@ {
        Some("0000010"@)
    } else if cmd == "stop"@ {
        Some("0000100"@)
    } else if cmd == "speed1"@ {
        Some("0010000"@)
    } else if cmd == "speed2"@ {
        Some("0010100"@)
    } else if cmd == "speed3"@ {
        Some("0100000"@)
    } else if cmd == "speed4"@ {
        Some("0110000"@)
    } else if cmd == "speed5"@ {
        Some("1000100"@)
    } else if cmd == "speed6"@ {
        Some("1000000"@)
    } else if cmd == "pair"@ {
        Some("0100100"@)
    } else {
        None
    }
}

/// The preamble that starts every message.
pub open spec fn preamble() -> Seq<char> {
    "1111"@
}

/// The message for command `cmd` to the fan `fan_id`: preamble, fan id,
/// command id; `None` for a command not in the vocabulary.
pub open spec fn rf_message(fan_id: Seq<char>, cmd: Seq<char>) -> Option<Seq<char>> {
    match command_id_of(cmd) {
        Some(id) => Some(preamble() + fan_id + id),
        None => None,
    }
}

/// The command id for the RF command `cmd`, if it is one of the vocabulary.
pub fn command_id(cmd: &str) -> (r: Option<&'static str>)
    ensures
        match r {
            Some(id) => command_id_of(cmd@) == Some(id@),
            None => command_id_of(cmd@) is None,
        },
{
    if same_text(cmd, "reverse") {
        Some("0001000")
    } else if same_text(cmd, "light") {
        Some("0000010")
    } else if same_text(cmd, "stop") {
        Some("0000100")
    } else if same_text(cmd, "speed1") {
        Some("0010000")
    } else if same_text(cmd, "speed2") {
        Some("0010100")
    } else if same_text(cmd, "speed3") {
        Some("0100000")
    } else if same_text(cmd, "speed4") {
        Some("0110000")
    } else if same_text(cmd, "speed5") {
        Some("1000100")
    } else if same_text(cmd, "speed6") {
        Some("1000000")
    } else if same_text(cmd, "pair") {
        Some("0100100")
    } else {
        None
    }
}

/// The bit string to transmit for command `cmd` to the fan `fan_id`, or
/// `None` for an unknown command. A known command needs a 14-byte fan id.
pub fn rf_bits(fan_id: &str, cmd: &str) -> (r: Option<String>)
    requires
        command_id_of(cmd@) is Some ==> fan_id.spec_bytes().len() == 14,
    ensures
        match r {
            Some(bits) => rf_message(fan_id@, cmd@) == Some(bits@),
            None => rf_message(fan_id@, cmd@) is None,
        },
{
    match command_id(cmd) {
        Some(id) => {
            let mut bits = String::from_str("1111");
            bits.append(fan_id);
            bits.append(id);
            Some(bits)
        },
        None => None,
    }
}

/// Every command id is seven bits, and no two commands share one.
pub proof fn lemma_command_ids(c1: Seq<char>, c2: Seq<char>)
    ensures
        command_id_of(c1) matches Some(id) ==> id.len() == 7 && is_bit_string(id),
        (command_id_of(c1) is Some && command_id_of(c1) == command_id_of(c2)) ==> c1 == c2,
{
    reveal_strlit("reverse");
    reveal_strlit("light");
    reveal_strlit("stop");
    reveal_strlit("speed1");
    reveal_strlit("speed2");
    reveal_strlit("speed3");
    reveal_strlit("speed4");
    reveal_strlit("speed5");
    reveal_strlit("speed6");
    reveal_strlit("pair");
    reveal_strlit("0001000");
    reveal_strlit("0000010");
    reveal_strlit("0000100");
    reveal_strlit("0010000");
    reveal_strlit("0010100");
    reveal_strlit("0100000");
    reveal_strlit("0110000");
    reveal_strlit("1000100");
    reveal_strlit("1000000");
    reveal_strlit("0100100");
    assert(seven_bit_code("0001000"@) == 8);
    assert(seven_bit_code("0000010"@) == 2);
    assert(seven_bit_code("0000100"@) == 4);
    assert(seven_bit_code("0010000"@) == 16);
    assert(seven_bit_code("0010100"@) == 20);
    assert(seven_bit_code("0100000"@) == 32);
    assert(seven_bit_code("0110000"@) == 48);
    assert(seven_bit_code("1000100"@) == 68);
    assert(seven_bit_code("1000000"@) == 64);
    assert(seven_bit_code("0100100"@) == 36);
}

/// The value of the first seven characters of `s` read as binary digits.
pub open spec fn seven_bit_code(s: Seq<char>) -> int {
    64 * (if s[0] == '1' { 1int } else { 0 }) + 32 * (if s[1] == '1' { 1int } else { 0 }) + 16 * (
    if s[2] == '1' { 1int } else { 0 }) + 8 * (if s[3] == '1' { 1int } else { 0 }) + 4 * (if s[4]
        == '1' { 1int } else { 0 }) + 2 * (if s[5] == '1' { 1int } else { 0 }) + (if s[6] == '1' {
        1int
    } else {
        0
    })
}

/// A message to a fan with a 14-bit id is 25 bits: 4 of preamble, 14 of
/// fan id and 7 of command, all `'0'` or `'1'`, and so can be encoded.
pub proof fn lemma_message_shape(fan_id: Seq<char>, cmd: Seq<char>)
    requires
        fan_id.len() == 14,
        is_bit_string(fan_id),
        command_id_of(cmd) is Some,
    ensures
        rf_message(fan_id, cmd) matches Some(m) ==> m.len() == 25 && is_bit_string(m)
            && m.subrange(0, 4) == preamble() && m.subrange(4, 18) == fan_id && Some(
            m.subrange(18, 25),
        ) == command_id_of(cmd),
{
    lemma_command_ids(cmd, cmd);
    reveal_strlit("1111");
    let id = command_id_of(cmd)->0;
    let m = preamble() + fan_id + id;
    assert(m.subrange(0, 4) =~= preamble());
    assert(m.subrange(4, 18) =~= fan_id);
    assert(m.subrange(18, 25) =~= id);
    assert forall|i: int| 0 <= i < m.len() implies #[trigger] m[i] == '0' || m[i] == '1' by {
        if i < 4 {
        } else if i < 18 {
            assert(m[i] == fan_id[i - 4]);
        } else {
            assert(m[i] == id[i - 18]);
        }
    }
}

/// The remote's command codes as seven-bit numbers: `reverse` 8, `light` 2,
/// `stop` 4, `speed1` to `speed6` 16, 20, 32, 48, 68 and 64, `pair` 36.
pub proof fn lemma_command_codes()
    ensures
        command_id_of("reverse"@) matches Some(id) && seven_bit_code(id) == 8,
        command_id_of("light"@) matches Some(id) && seven_bit_code(id) == 2,
        command_id_of("stop"@) matches Some(id) && seven_bit_code(id) == 4,
        command_id_of("speed1"@) matches Some(id) && seven_bit_code(id) == 16,
        command_id_of("speed2"@) matches Some(id) && seven_bit_code(id) == 20,
        command_id_of("speed3"@) matches Some(id) && seven_bit_code(id) == 32,
        command_id_of("speed4"@) matches Some(id) && seven_bit_code(id) == 48,
        command_id_of("speed5"@) matches Some(id) && seven_bit_code(id) == 68,
        command_id_of("speed6"@) matches Some(id) && seven_bit_code(id) == 64,
        command_id_of("pair"@) matches Some(id) && seven_bit_code(id) == 36,
{
    reveal_strlit("reverse");
    reveal_strlit("light");
    reveal_strlit("stop");
    reveal_strlit("speed1");
    reveal_strlit("speed2");
    reveal_strlit("speed3");
    reveal_strlit("speed4");
    reveal_strlit("speed5");
    reveal_strlit("speed6");
    reveal_strlit("pair");
    reveal_strlit("0001000");
    reveal_strlit("0000010");
    reveal_strlit("0000100");
    reveal_strlit("0010000");
    reveal_strlit("0010100");
    reveal_strlit("0100000");
    reveal_strlit("0110000");
    reveal_strlit("1000100");
    reveal_strlit("1000000");
    reveal_strlit("0100100");
    assert("light"@.len() != "reverse"@.len());
    assert("stop"@.len() != "reverse"@.len());
    assert("stop"@.len() != "light"@.len());
    assert("speed1"@.len() != "reverse"@.len());
    assert("speed1"@.len() != "light"@.len());
    assert("speed1"@.len() != "stop"@.len());
    assert("speed2"@.len() != "reverse"@.len());
    assert("speed2"@.len() != "light"@.len());
    assert("speed2"@.len() != "stop"@.len());
    assert("speed2"@[5] != "speed1"@[5]);
    assert("speed3"@.len() != "reverse"@.len());
    assert("speed3"@.len() != "light"@.len());
    assert("speed3"@.len() != "stop"@.len());
    assert("speed3"@[5] != "speed1"@[5]);
    assert("speed3"@[5] != "speed2"@[5]);
    assert("speed4"@.len() != "reverse"@.len());
    assert("speed4"@.len() != "light"@.len());
    assert("speed4"@.len() != "stop"@.len());
    assert("speed4"@[5] != "speed1"@[5]);
    assert("speed4"@[5] != "speed2"@[5]);
    assert("speed4"@[5] != "speed3"@[5]);
    assert("speed5"@.len() != "reverse"@.len());
    assert("speed5"@.len() != "light"@.len());
    assert("speed5"@.len() != "stop"@.len());
    assert("speed5"@[5] != "speed1"@[5]);
    assert("speed5"@[5] != "speed2"@[5]);
    assert("speed5"@[5] != "speed3"@[5]);
    assert("speed5"@[5] != "speed4"@[5]);
    assert("speed6"@.len() != "reverse"@.len());
    assert("speed6"@.len() != "light"@.len());
    assert("speed6"@.len() != "stop"@.len());
    assert("speed6"@[5] != "speed1"@[5]);
    assert("speed6"@[5] != "speed2"@[5]);
    assert("speed6"@[5] != "speed3"@[5]);
    assert("speed6"@[5] != "speed4"@[5]);
    assert("speed6"@[5] != "speed5"@[5]);
    assert("pair"@.len() != "reverse"@.len());
    assert("pair"@.len() != "light"@.len());
    assert("pair"@[0] != "stop"@[0]);
    assert("pair"@.len() != "speed1"@.len());
    assert("pair"@.len() != "speed2"@.len());
    assert("pair"@.len() != "speed3"@.len());
    assert("pair"@.len() != "speed4"@.len());
    assert("pair"@.len() != "speed5"@.len());
    assert("pair"@.len() != "speed6"@.len());
    assert(seven_bit_code("0001000"@) == 8);
    assert(seven_bit_code("0000010"@) == 2);
    assert(seven_bit_code("0000100"@) == 4);
    assert(seven_bit_code("0010000"@) == 16);
    assert(seven_bit_code("0010100"@) == 20);
    assert(seven_bit_code("0100000"@) == 32);
    assert(seven_bit_code("0110000"@) == 48);
    assert(seven_bit_code("1000100"@) == 68);
    assert(seven_bit_code("1000000"@) == 64);
    assert(seven_bit_code("0100100"@) == 36);
}

} // verus!
