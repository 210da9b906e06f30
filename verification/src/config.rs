//! Settings: defaults of the configuration file, the transport choice, the
//! HomeKit pairing pin and the bridge's name.
use vstd::prelude::*;
use vstd::string::*;
use crate::text::{trim, trimmed};

verus! {

/// How RF frames reach the ESPHome bridge.
#[derive(PartialEq, Eq, Structural, Clone, Copy, Debug)]
pub enum Transport {
    /// Through Home Assistant's REST API, which forwards the
    /// `transmit_fan_bits` action to the bridge.
    HaRest,
    /// Straight to the bridge's web server.
    Http,
}

/// `homeassistant.listen` defaults to on.
pub fn default_true() -> (r: bool)
    ensures
        r,
{
    true
}

/// Four transmissions per command unless configured.
pub fn default_repeat() -> (r: u32)
    ensures
        r == 4,
{
    4
}

/// Home Assistant's REST API is the default transport.
pub fn default_transport() -> (r: Transport)
    ensures
        r == Transport::HaRest,
{
    Transport::HaRest
}

/// The bridge's web server listens on port 80 unless configured.
pub fn default_http_port() -> (r: u16)
    ensures
        r == 80,
{
    80
}

/// The HomeKit accessory server's default port.
pub fn default_hk_port() -> (r: u16)
    ensures
        r == 51826,
{
    51826
}

/// The directory HomeKit pairing data is kept in by default.
pub fn default_hk_persist() -> (r: String)
    ensures
        r@ == "homekit"@,
{
    String::from_str("homekit")
}

/// The default HomeKit setup pin.
pub fn default_hk_pin() -> (r: String)
    ensures
        r@ == "03141592"@,
{
    String::from_str("03141592")
}

/// The HomeKit listener binds every interface by default.
pub fn default_hk_bind() -> (r: String)
    ensures
        r@ == "0.0.0.0"@,
{
    String::from_str("0.0.0.0")
}

/// The `http` transport needs the bridge's address (`esphome.http`); the
/// configuration is usable unless that is missing.
pub fn transport_configured(transport: Transport, has_http_block: bool) -> (r: bool)
    ensures
        r == !(transport == Transport::Http && !has_http_block),
{
    !(transport == Transport::Http && !has_http_block)
}

/// A decimal digit character.
pub open spec fn is_digit(c: char) -> bool {
    '0' <= c <= '9'
}

/// The decimal digits of `s`, in order, as values; other characters are
/// skipped.
pub open spec fn pin_digits(s: Seq<char>) -> Seq<u8>
    decreases s.len(),
{
    if s.len() == 0 {
        seq![]
    } else {
        let rest = pin_digits(s.drop_last());
        if is_digit(s.last()) {
            rest.push((s.last() as u32 - '0' as u32) as u8)
        } else {
            rest
        }
    }
}

/// The eight pin digits of `s`: its first eight decimal digits, zeros
/// where it has fewer.
pub open spec fn pin_of(s: Seq<char>) -> Seq<u8> {
    let d = pin_digits(s);
    Seq::new(8, |i: int| if i < d.len() { d[i] } else { 0u8 })
}

/// The HomeKit pin from the configured text: its first eight decimal digits,
/// padded with zeros.
pub fn parse_pin(s: &str) -> (r: [u8; 8])
    ensures
        r@ == pin_of(s@),
{
    let n = s.unicode_len();
    let mut digits: Vec<u8> = Vec::new();
    let mut i: usize = 0;
    while i < n
        invariant
            n == s@.len(),
            i <= n,
            digits@ == pin_digits(s@.subrange(0, i as int)),
        decreases n - i,
    {
        let c = s.get_char(i);
        assert(s@.subrange(0, i + 1).drop_last() =~= s@.subrange(0, i as int));
        if '0' <= c && c <= '9' {
            digits.push(((c as u32) - ('0' as u32)) as u8);
        }
        i = i + 1;
    }
    assert(s@.subrange(0, n as int) =~= s@);
    let mut out = [0u8; 8];
    let mut k: usize = 0;
    while k < 8 && k < digits.len()
        invariant
            digits@ == pin_digits(s@),
            k <= 8,
            k <= digits@.len(),
            forall|j: int| 0 <= j < k ==> out@[j] == digits@[j],
            forall|j: int| k <= j < 8 ==> out@[j] == 0u8,
            out@.len() == 8,
        decreases 8 - k,
    {
        out[k] = digits[k];
        k = k + 1;
    }
    assert(out@ =~= pin_of(s@));
    out
}

/// The bridge's name when none is configured: the trimmed contents of the
/// hostname file where it was read and is not blank, else `onlyfansd`.
pub open spec fn bridge_name_from(contents: Option<Seq<char>>) -> Seq<char> {
    match contents {
        Some(c) => if trimmed(c).len() > 0 {
            trimmed(c)
        } else {
            "onlyfansd"@
        },
        None => "onlyfansd"@,
    }
}

/// The host name to present as the bridge's name, from what the hostname
/// file held (`None` where it could not be read).
pub fn hostname_from(contents: Option<String>) -> (r: String)
    ensures
        r@ == bridge_name_from(
            match contents {
                Some(c) => Some(c@),
                None => None,
            },
        ),
{
    match contents {
        Some(c) => {
            let t = trim(c.as_str());
            if t.unicode_len() > 0 {
                String::from_str(t)
            } else {
                String::from_str("onlyfansd")
            }
        },
        None => String::from_str("onlyfansd"),
    }
}

} // verus!
