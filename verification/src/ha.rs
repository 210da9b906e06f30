//! Requests to Home Assistant and to the ESPHome bridge: endpoints, headers,
//! the RF payload of the web-server transport, and the entity states mirrored
//! to Home Assistant.
use vstd::prelude::*;
use vstd::string::*;
use crate::entity::{
    all_ascii,
    ascii_title,
    fan_light_words,
    fan_word,
    fan_entity,
    fan_entity_id,
    fan_friendly,
    fan_friendly_name,
    light_entity,
    light_entity_id,
    light_friendly,
    light_friendly_name,
};
use crate::state::{FanState, LightState, off_word, on_word};
use crate::text::{ascii_lowered, decimal, lowercase, lowercase_of, u64_text};

verus! {

/// Home Assistant's endpoint that sets the state of `entity_id`.
pub fn state_endpoint(base_url: &str, entity_id: &str) -> (r: String)
    ensures
        r@ == base_url@ + "/api/states/"@ + entity_id@,
{
    let mut r = String::from_str(base_url);
    r.append("/api/states/");
    r.append(entity_id);
    r
}

/// Home Assistant's endpoint for the bridge's `transmit_fan_bits` action.
pub fn transmit_endpoint(base_url: &str, device: &str) -> (r: String)
    ensures
        r@ == base_url@ + "/api/services/esphome/"@ + device@ + "_transmit_fan_bits"@,
{
    let mut r = String::from_str(base_url);
    r.append("/api/services/esphome/");
    r.append(device);
    r.append("_transmit_fan_bits");
    r
}

/// The `Authorization` header value for a Home Assistant token.
pub fn bearer(token: &str) -> (r: String)
    ensures
        r@ == "Bearer "@ + token@,
{
    let mut r = String::from_str("Bearer ");
    r.append(token);
    r
}

/// The bridge web server's endpoint that sets the `rf_tx` text entity.
pub fn rf_http_url(host: &str, port: u16) -> (r: String)
    ensures
        r@ == "http://"@ + host@ + ":"@ + decimal(port as nat) + "/text/rf_tx/set"@,
{
    let mut r = String::from_str("http://");
    r.append(host);
    r.append(":");
    r.append(u64_text(port as u64).as_str());
    r.append("/text/rf_tx/set");
    r
}

/// The nonce of the `counter`-th web-server transmission: the counter
/// modulo 100000, so that it stays at most five digits.
pub open spec fn nonce_of(counter: u64) -> nat {
    (counter % 100_000) as nat
}

/// The value posted to `rf_tx`: `<bits>:<repeat>:<nonce>`. The nonce makes
/// two identical commands in a row differ, so the bridge does not drop the
/// second as unchanged.
pub fn rf_http_value(bits: &str, repeat: u32, counter: u64) -> (r: String)
    ensures
        r@ == bits@ + ":"@ + decimal(repeat as nat) + ":"@ + decimal(nonce_of(counter)),
{
    let mut r = String::from_str(bits);
    r.append(":");
    r.append(u64_text(repeat as u64).as_str());
    r.append(":");
    r.append(u64_text(counter % 100_000).as_str());
    r
}

/// A fan's state as mirrored to Home Assistant.
pub struct FanStateUpdate {
    pub entity_id: String,
    pub state: String,
    pub percentage: u32,
    pub direction: String,
    pub supported_features: u32,
    pub friendly_name: String,
}

/// A light's state as mirrored to Home Assistant.
pub struct LightStateUpdate {
    pub entity_id: String,
    pub state: String,
    pub friendly_name: String,
}

/// The update that mirrors the fan state of `room` to Home Assistant, or
/// `None` where mirroring is off (`homeassistant.listen: false`). The state
/// word is sent in lower case; feature flags 5 are speed and direction.
pub fn fan_update(listen: bool, room: &str, st: &FanState) -> (r: Option<FanStateUpdate>)
    ensures
        !listen <==> r is None,
        r matches Some(u) ==> {
            &&& u.entity_id@ == fan_entity(room@)
            &&& u.state@ == lowercase_of(st.state@)
            &&& u.percentage == st.percentage
            &&& u.direction@ == st.direction@
            &&& u.supported_features == 5
            &&& u.friendly_name@ == fan_friendly(room@)
            &&& all_ascii(st.state@) ==> u.state@ == ascii_lowered(st.state@)
            &&& all_ascii(room@) ==> u.friendly_name@ == ascii_title(room@) + fan_word()
        },
{
    if !listen {
        return None;
    }
    Some(
        FanStateUpdate {
            entity_id: fan_entity_id(room),
            state: lowercase(st.state.as_str()),
            percentage: st.percentage,
            direction: st.direction.clone(),
            supported_features: 5,
            friendly_name: fan_friendly_name(room),
        },
    )
}

/// The update that mirrors the light state of `room` to Home Assistant, or
/// `None` where mirroring is off.
pub fn light_update(listen: bool, room: &str, st: &LightState) -> (r: Option<LightStateUpdate>)
    ensures
        !listen <==> r is None,
        r matches Some(u) ==> {
            &&& u.entity_id@ == light_entity(room@)
            &&& u.state@ == lowercase_of(st.state@)
            &&& u.friendly_name@ == light_friendly(room@)
            &&& all_ascii(st.state@) ==> u.state@ == ascii_lowered(st.state@)
            &&& all_ascii(room@) ==> u.friendly_name@ == ascii_title(room@) + fan_light_words()
        },
{
    if !listen {
        return None;
    }
    Some(
        LightStateUpdate {
            entity_id: light_entity_id(room),
            state: lowercase(st.state.as_str()),
            friendly_name: light_friendly_name(room),
        },
    )
}

/// The state words Home Assistant is sent: `ON` as `on`, `OFF` as `off`.
pub proof fn lemma_state_words()
    ensures
        all_ascii(on_word()) && ascii_lowered(on_word()) == seq!['o', 'n'],
        all_ascii(off_word()) && ascii_lowered(off_word()) == seq!['o', 'f', 'f'],
{
    assert(ascii_lowered(on_word()) =~= seq!['o', 'n']);
    assert(ascii_lowered(off_word()) =~= seq!['o', 'f', 'f']);
}

/// Web-server nonces stay below 100000, and two transmissions in a row
/// never share one.
pub proof fn lemma_nonce(counter: u64)
    requires
        counter < u64::MAX,
    ensures
        nonce_of(counter) < 100_000,
        nonce_of(counter) != nonce_of((counter + 1) as u64),
{
}

} // verus!
