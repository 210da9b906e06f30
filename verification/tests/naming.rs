use onlyfansd::config::{
    default_hk_bind, default_hk_persist, default_hk_pin, default_hk_port, default_http_port,
    default_repeat, default_transport, default_true, hostname_from, parse_pin, transport_configured,
    Transport,
};
use onlyfansd::entity::{
    fan_entity_id, fan_friendly_name, light_entity_id, light_friendly_name, room_of_fan_entity,
    room_of_light_entity, title_case,
};
use onlyfansd::ha::{bearer, fan_update, light_update, rf_http_url, rf_http_value, state_endpoint, transmit_endpoint};
use onlyfansd::speed::fan_state_for;
use onlyfansd::state::LightState;
use onlyfansd::text::{i32_text, replace_all, same_text, strip_prefix, strip_suffix, u64_text};
use onlyfansd::ws::ws_url;

#[test]
fn title_case_words() {
    assert_eq!(title_case("living_room"), "Living Room");
    assert_eq!(title_case("upstairs"), "Upstairs");
    assert_eq!(title_case("a__b"), "A  B");
    assert_eq!(title_case(""), "");
    assert_eq!(title_case("_x"), " X");
    assert_eq!(title_case("ßtraße"), "SStraße");
}

#[test]
fn entity_ids_and_rooms() {
    assert_eq!(fan_entity_id("living_room"), "fan.living_room_fan");
    assert_eq!(light_entity_id("living_room"), "light.living_room_fan_light");
    assert_eq!(room_of_fan_entity("fan.living_room_fan"), Some("living_room"));
    assert_eq!(room_of_fan_entity("fan._fan"), Some(""));
    assert_eq!(room_of_fan_entity("fan.fan"), None);
    assert_eq!(room_of_fan_entity("light.x_fan_light"), None);
    assert_eq!(room_of_light_entity("light.x_fan_light"), Some("x"));
    assert_eq!(room_of_light_entity("light.x_fan"), None);
}

#[test]
fn friendly_names() {
    assert_eq!(fan_friendly_name("parents_room"), "Parents Room Fan");
    assert_eq!(light_friendly_name("parents_room"), "Parents Room Fan Light");
}

#[test]
fn config_defaults() {
    assert!(default_true());
    assert_eq!(default_repeat(), 4);
    assert_eq!(default_transport(), Transport::HaRest);
    assert_eq!(default_http_port(), 80);
    assert_eq!(default_hk_port(), 51826);
    assert_eq!(default_hk_persist(), "homekit");
    assert_eq!(default_hk_pin(), "03141592");
    assert_eq!(default_hk_bind(), "0.0.0.0");
}

#[test]
fn transport_needs_http_block() {
    assert!(transport_configured(Transport::HaRest, false));
    assert!(transport_configured(Transport::Http, true));
    assert!(!transport_configured(Transport::Http, false));
}

#[test]
fn pin_parsing() {
    assert_eq!(parse_pin("03141592"), [0, 3, 1, 4, 1, 5, 9, 2]);
    assert_eq!(parse_pin("031-45-154"), [0, 3, 1, 4, 5, 1, 5, 4]);
    assert_eq!(parse_pin("12"), [1, 2, 0, 0, 0, 0, 0, 0]);
    assert_eq!(parse_pin("1234567890"), [1, 2, 3, 4, 5, 6, 7, 8]);
    assert_eq!(parse_pin("١٢"), [0; 8]);
}

#[test]
fn hostname_fallbacks() {
    assert_eq!(hostname_from(Some("  fanpi \n".to_string())), "fanpi");
    assert_eq!(hostname_from(Some(" \n".to_string())), "onlyfansd");
    assert_eq!(hostname_from(None), "onlyfansd");
}

#[test]
fn endpoints() {
    assert_eq!(
        state_endpoint("http://ha:8123", "fan.a_fan"),
        "http://ha:8123/api/states/fan.a_fan"
    );
    assert_eq!(
        transmit_endpoint("http://ha:8123", "fan_remote1"),
        "http://ha:8123/api/services/esphome/fan_remote1_transmit_fan_bits"
    );
    assert_eq!(bearer("abc"), "Bearer abc");
    assert_eq!(
        rf_http_url("fan-remote1.local", 80),
        "http://fan-remote1.local:80/text/rf_tx/set"
    );
    assert_eq!(rf_http_value("1111", 4, 7), "1111:4:7");
    assert_eq!(rf_http_value("1111", 6, 123_456), "1111:6:23456");
    assert_eq!(rf_http_value("1", 0, 100_000), "1:0:0");
}

#[test]
fn state_updates() {
    let st = fan_state_for(100, "forward".to_string());
    let u = fan_update(true, "living_room", &st).unwrap();
    assert_eq!(u.entity_id, "fan.living_room_fan");
    assert_eq!(u.state, "on");
    assert_eq!(u.percentage, 100);
    assert_eq!(u.direction, "forward");
    assert_eq!(u.supported_features, 5);
    assert_eq!(u.friendly_name, "Living Room Fan");
    assert!(fan_update(false, "living_room", &st).is_none());
    let l = light_update(true, "upstairs", &LightState { state: "OFF".to_string() }).unwrap();
    assert_eq!(l.entity_id, "light.upstairs_fan_light");
    assert_eq!(l.state, "off");
    assert_eq!(l.friendly_name, "Upstairs Fan Light");
    assert!(light_update(false, "upstairs", &LightState::default()).is_none());
}

#[test]
fn websocket_urls() {
    assert_eq!(ws_url("http://10.0.0.5:8123"), "ws://10.0.0.5:8123/api/websocket");
    assert_eq!(ws_url("https://ha.example"), "wss://ha.example/api/websocket");
    assert_eq!(ws_url("ha.local"), "ha.local/api/websocket");
}

#[test]
fn text_helpers() {
    assert_eq!(u64_text(0), "0");
    assert_eq!(u64_text(18_446_744_073_709_551_615), "18446744073709551615");
    assert_eq!(i32_text(-42), "-42");
    assert_eq!(i32_text(0), "0");
    assert_eq!(replace_all("aXbXXc", "X", "yy"), "ayybyyyyc");
    assert_eq!(replace_all("aaa", "aa", "b"), "ba");
    assert!(same_text("ab", "ab"));
    assert!(!same_text("ab", "abc"));
    assert_eq!(strip_prefix("fan.x", "fan."), Some("x"));
    assert_eq!(strip_prefix("fa", "fan."), None);
    assert_eq!(strip_suffix("x_fan", "_fan"), Some("x"));
    assert_eq!(strip_suffix("x_fa", "_fan"), None);
}

#[test]
fn entity_ids_read_back_as_their_room() {
    for room in ["living_room", "", "fan.x_fan", "a_fan_light"] {
        assert_eq!(room_of_fan_entity(&fan_entity_id(room)), Some(room));
        assert_eq!(room_of_light_entity(&light_entity_id(room)), Some(room));
    }
}

#[test]
fn consecutive_nonces_differ() {
    for c in [0u64, 99_999, 100_000, 123_456_789] {
        assert_ne!(rf_http_value("1", 4, c), rf_http_value("1", 4, c + 1));
    }
}

#[test]
fn title_case_of_ascii_names_is_stable() {
    for name in ["living_room", "a__b", "_x_", "Den", "kids_room_2"] {
        let t = title_case(name);
        assert_eq!(t.len(), name.len());
        assert!(!t.contains('_'));
        assert_eq!(title_case(&t), t);
    }
}

#[test]
fn hostname_trims_unicode_white_space() {
    assert_eq!(hostname_from(Some("\u{3000}\tpi-zero\u{a0}\u{2028}".to_string())), "pi-zero");
    assert_eq!(hostname_from(Some("a b".to_string())), "a b");
    assert_eq!(hostname_from(Some("\u{85}\u{202f}".to_string())), "onlyfansd");
}
