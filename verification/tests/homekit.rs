use onlyfansd::daemon::{plan_service, ServicePlan};
use onlyfansd::homekit::{
    accessory_id, fan_characteristics, mac_from_nanos, rotation_direction_value, service_iids,
    HkCommand,
};
use onlyfansd::speed::fan_state_for;
use onlyfansd::state::{FanState, RoomTable};
use onlyfansd::ws::{IdsField, WsAction, WsMessage, WsPayload, WsSession};
use onlyfansd::daemon::ServiceData;

#[test]
fn fan_power_commands() {
    let on = HkCommand::fan_power("den".to_string(), true);
    assert_eq!((on.domain.as_str(), on.service.as_str(), on.room.as_str()), ("fan", "turn_on", "den"));
    assert_eq!(on.data.percentage, Some(35));
    let off = HkCommand::fan_power("den".to_string(), false);
    assert_eq!(off.service, "turn_off");
    assert_eq!(off.data.percentage, None);
}

#[test]
fn rotation_commands() {
    let zero = HkCommand::rotation_speed("den".to_string(), 0);
    assert_eq!(zero.service, "turn_off");
    let some = HkCommand::rotation_speed("den".to_string(), 70);
    assert_eq!(some.service, "set_percentage");
    assert_eq!(some.data.percentage, Some(70));
    let rev = HkCommand::rotation_direction("den".to_string(), 1);
    assert_eq!(rev.service, "set_direction");
    assert_eq!(rev.data.direction.as_deref(), Some("reverse"));
    let fwd = HkCommand::rotation_direction("den".to_string(), 0);
    assert_eq!(fwd.data.direction.as_deref(), Some("forward"));
}

#[test]
fn light_commands_and_entities() {
    let on = HkCommand::light_power("den".to_string(), true);
    assert_eq!((on.domain.as_str(), on.service.as_str()), ("light", "toggle"));
    assert_eq!(on.entity_id().as_deref(), Some("light.den_fan_light"));
    let off = HkCommand::light_power("den".to_string(), false);
    assert_eq!(off.service, "toggle");
    assert_eq!(off.data.percentage, None);
    assert_eq!(HkCommand::fan_power("den".to_string(), true).entity_id().as_deref(), Some("fan.den_fan"));
    let other = HkCommand {
        domain: "switch".to_string(),
        service: "turn_on".to_string(),
        room: "den".to_string(),
        data: ServiceData { percentage: None, direction: None },
    };
    assert_eq!(other.entity_id(), None);
}

#[test]
fn homekit_fan_on_schedules_35_percent() {
    let mut fans = RoomTable::new();
    fans.insert("den".to_string(), "00011001111000".to_string());
    let cmd = HkCommand::fan_power("den".to_string(), true);
    let entity = cmd.entity_id().unwrap();
    match plan_service(&fans, &cmd.domain, &cmd.service, &entity, &cmd.data) {
        ServicePlan::Speed { room, percentage } => {
            assert_eq!(room, "den");
            assert_eq!(percentage, 35);
        }
        _ => panic!("expected a speed plan"),
    }
}

#[test]
fn characteristics_pushed_to_homekit() {
    let st = fan_state_for(100, "reverse".to_string());
    assert_eq!(fan_characteristics(&st), (true, 100, false));
    let big = FanState { state: "OFF".to_string(), percentage: 400, direction: "forward".to_string() };
    assert_eq!(fan_characteristics(&big), (false, 100, true));
    assert_eq!(rotation_direction_value(true), 0);
    assert_eq!(rotation_direction_value(false), 1);
}

#[test]
fn accessory_numbers() {
    assert_eq!(accessory_id(0), 2);
    assert_eq!(accessory_id(3), 5);
    assert_eq!(service_iids(9), (11, 16));
    assert_eq!(mac_from_nanos(0x0123_4567_89AB_CDEF), [0x02, 0x67, 0x89, 0xAB, 0xCD, 0xEF]);
}

#[test]
fn websocket_session_flow() {
    let mut s = WsSession::new();
    assert!(matches!(s.step(WsMessage::Text(WsPayload::AuthRequired)), WsAction::SendAuth));
    assert!(matches!(s.step(WsMessage::Text(WsPayload::AuthOk)), WsAction::Subscribe { id: 2 }));
    assert!(matches!(s.step(WsMessage::Text(WsPayload::AuthOk)), WsAction::Subscribe { id: 3 }));
    assert!(matches!(s.step(WsMessage::Text(WsPayload::AuthInvalid)), WsAction::AuthRejected));
    assert!(matches!(s.step(WsMessage::Text(WsPayload::Unparsable)), WsAction::WarnUnparsable));
    assert!(matches!(s.step(WsMessage::Text(WsPayload::ResultFailed)), WsAction::WarnCommandFailed));
    assert!(matches!(s.step(WsMessage::Close), WsAction::Closed));
    assert!(matches!(s.step(WsMessage::Failed), WsAction::Failed));
    assert_eq!(s.msg_id, 3);
}

fn event(domain: &str, target: Option<IdsField>, data: Option<IdsField>) -> WsMessage {
    WsMessage::Text(WsPayload::Event {
        domain: domain.to_string(),
        service: "turn_on".to_string(),
        target_ids: target,
        data_ids: data,
        data: ServiceData { percentage: None, direction: None },
    })
}

#[test]
fn websocket_events() {
    let mut s = WsSession::new();
    match s.step(event("fan", Some(IdsField::Text("fan.a_fan".to_string())), None)) {
        WsAction::Dispatch { domain, service, entity_ids, .. } => {
            assert_eq!((domain.as_str(), service.as_str()), ("fan", "turn_on"));
            assert_eq!(entity_ids, vec!["fan.a_fan".to_string()]);
        }
        _ => panic!("expected a dispatch"),
    }
    let list = IdsField::List(vec![Some("light.a_fan_light".to_string()), None, Some("light.b_fan_light".to_string())]);
    match s.step(event("light", None, Some(list))) {
        WsAction::Dispatch { entity_ids, .. } => {
            assert_eq!(entity_ids, vec!["light.a_fan_light".to_string(), "light.b_fan_light".to_string()]);
        }
        _ => panic!("expected a dispatch"),
    }
    // A target field of another shape hides the service data's ids.
    assert!(matches!(
        s.step(event("fan", Some(IdsField::Other), Some(IdsField::Text("fan.a_fan".to_string())))),
        WsAction::Ignore
    ));
    assert!(matches!(s.step(event("switch", Some(IdsField::Text("x".to_string())), None)), WsAction::Ignore));
    assert!(matches!(s.step(event("fan", None, None)), WsAction::Ignore));
}

#[test]
fn homekit_light_switch_toggles_from_recorded_state() {
    let mut fans = RoomTable::new();
    fans.insert("den".to_string(), "00011001111000".to_string());
    let mut state = onlyfansd::daemon::SharedState::new();
    for (switch_to, expected) in [(true, "ON"), (true, "OFF"), (false, "ON")] {
        let cmd = HkCommand::light_power("den".to_string(), switch_to);
        let entity = cmd.entity_id().unwrap();
        match plan_service(&fans, &cmd.domain, &cmd.service, &entity, &cmd.data) {
            ServicePlan::Light { room, service, .. } => {
                let next = state.light_after_service(&room, service);
                assert_eq!(next.state, expected);
                state.set_light(room, next);
            }
            _ => panic!("expected a light plan"),
        }
    }
}
