use onlyfansd::daemon::SpeedDebounce;
use onlyfansd::daemon::{plan_service, LightService, ServiceData, ServicePlan, SharedState};
use onlyfansd::speed::{fan_state_for, snapped_percentage, speed_command, speed_snap};
use onlyfansd::state::{default_direction, FanState, LightState, RoomTable};

fn fans() -> RoomTable<String> {
    let mut t = RoomTable::new();
    t.insert("living_room".to_string(), "00011001111000".to_string());
    t.insert("upstairs".to_string(), "01111011000010".to_string());
    t
}

fn data(percentage: Option<u64>, direction: Option<&str>) -> ServiceData {
    ServiceData { percentage, direction: direction.map(|d| d.to_string()) }
}

fn speed_of(plan: ServicePlan) -> Option<(String, u32)> {
    match plan {
        ServicePlan::Speed { room, percentage } => Some((room, percentage)),
        _ => None,
    }
}

#[test]
fn speed_snap_table() {
    assert_eq!(speed_snap(0), 6);
    assert_eq!(speed_snap(8), 6);
    assert_eq!(speed_snap(9), 5);
    assert_eq!(speed_snap(25), 5);
    assert_eq!(speed_snap(35), 4);
    assert_eq!(speed_snap(50), 3);
    assert_eq!(speed_snap(75), 2);
    assert_eq!(speed_snap(92), 0);
    assert_eq!(speed_snap(91), 1);
    assert_eq!(speed_snap(100), 0);
    assert_eq!(speed_snap(250), 0);
}

#[test]
fn snapped_percentages() {
    let got: Vec<u32> = (0..6).map(snapped_percentage).collect();
    assert_eq!(got, vec![100, 83, 67, 50, 33, 17]);
    for s in 0..6 {
        assert_eq!(speed_snap(snapped_percentage(s)), s);
    }
}

#[test]
fn speed_commands() {
    assert_eq!(speed_command(0), "speed1");
    assert_eq!(speed_command(5), "speed6");
    assert_eq!(speed_command(6), "stop");
}

#[test]
fn fan_state_for_percentages() {
    let on = fan_state_for(35, "reverse".to_string());
    assert_eq!(on.state, "ON");
    assert_eq!(on.percentage, 33);
    assert_eq!(on.direction, "reverse");
    let off = fan_state_for(3, "forward".to_string());
    assert_eq!(off.state, "OFF");
    assert_eq!(off.percentage, 0);
    let again = fan_state_for(on.percentage, on.direction.clone());
    assert_eq!(again.percentage, on.percentage);
}

#[test]
fn defaults() {
    let f = FanState::default();
    assert_eq!((f.state.as_str(), f.percentage, f.direction.as_str()), ("OFF", 0, "forward"));
    assert_eq!(LightState::default().state, "OFF");
    assert_eq!(default_direction(), "forward");
}

#[test]
fn room_table_read_after_write() {
    let mut t: RoomTable<u32> = RoomTable::new();
    assert_eq!(t.len(), 0);
    t.insert("a".to_string(), 1);
    t.insert("b".to_string(), 2);
    t.insert("a".to_string(), 3);
    assert_eq!(t.len(), 2);
    assert_eq!(t.get("a"), Some(&3));
    assert_eq!(t.get("b"), Some(&2));
    assert_eq!(t.get("c"), None);
    assert!(t.contains_key("b"));
    assert!(!t.contains_key("B"));
    let (k, v) = t.entry(0);
    assert_eq!((k.as_str(), *v), ("a", 3));
}

#[test]
fn plan_fan_turn_on_defaults_to_35() {
    let p = plan_service(&fans(), "fan", "turn_on", "fan.living_room_fan", &data(None, None));
    assert_eq!(speed_of(p), Some(("living_room".to_string(), 35)));
    let p = plan_service(&fans(), "fan", "turn_on", "fan.living_room_fan", &data(Some(80), None));
    assert_eq!(speed_of(p), Some(("living_room".to_string(), 80)));
}

#[test]
fn plan_fan_turn_off_and_set_percentage() {
    let p = plan_service(&fans(), "fan", "turn_off", "fan.upstairs_fan", &data(Some(80), None));
    assert_eq!(speed_of(p), Some(("upstairs".to_string(), 0)));
    let p = plan_service(&fans(), "fan", "set_percentage", "fan.upstairs_fan", &data(None, None));
    assert_eq!(speed_of(p), Some(("upstairs".to_string(), 0)));
    // The percentage is kept to its low 32 bits.
    let p = plan_service(
        &fans(),
        "fan",
        "set_percentage",
        "fan.upstairs_fan",
        &data(Some((1u64 << 32) + 50), None),
    );
    assert_eq!(speed_of(p), Some(("upstairs".to_string(), 50)));
}

#[test]
fn plan_fan_set_direction() {
    match plan_service(&fans(), "fan", "set_direction", "fan.upstairs_fan", &data(None, Some("reverse"))) {
        ServicePlan::Direction { room, fan_id, direction } => {
            assert_eq!(room, "upstairs");
            assert_eq!(fan_id, "01111011000010");
            assert_eq!(direction, "reverse");
        }
        _ => panic!("expected a direction change"),
    }
    match plan_service(&fans(), "fan", "set_direction", "fan.upstairs_fan", &data(None, None)) {
        ServicePlan::Direction { direction, .. } => assert_eq!(direction, "forward"),
        _ => panic!("expected a direction change"),
    }
}

#[test]
fn plan_ignores_unknown_rooms_and_services() {
    assert!(matches!(
        plan_service(&fans(), "fan", "turn_on", "fan.garage_fan", &data(None, None)),
        ServicePlan::Ignore
    ));
    assert!(matches!(
        plan_service(&fans(), "fan", "turn_on", "light.upstairs_fan_light", &data(None, None)),
        ServicePlan::Ignore
    ));
    assert!(matches!(
        plan_service(&fans(), "fan", "oscillate", "fan.upstairs_fan", &data(None, None)),
        ServicePlan::Ignore
    ));
    assert!(matches!(
        plan_service(&fans(), "switch", "turn_on", "fan.upstairs_fan", &data(None, None)),
        ServicePlan::Ignore
    ));
    assert!(matches!(
        plan_service(&fans(), "light", "set_percentage", "light.upstairs_fan_light", &data(None, None)),
        ServicePlan::Ignore
    ));
}

#[test]
fn plan_light_services() {
    for (svc, expected) in [
        ("turn_on", LightService::TurnOn),
        ("turn_off", LightService::TurnOff),
        ("toggle", LightService::Toggle),
    ] {
        match plan_service(&fans(), "light", svc, "light.living_room_fan_light", &data(None, None)) {
            ServicePlan::Light { room, fan_id, service } => {
                assert_eq!(room, "living_room");
                assert_eq!(fan_id, "00011001111000");
                assert_eq!(service, expected);
            }
            _ => panic!("expected a light plan"),
        }
    }
}

#[test]
fn shared_state_fan_and_light() {
    let mut s = SharedState::new();
    assert_eq!(s.fan_or_default("x").state, "OFF");
    assert_eq!(s.direction_of("x"), "forward");
    let st = fan_state_for(100, "reverse".to_string());
    s.set_fan("x".to_string(), st);
    assert_eq!(s.fan_or_default("x").percentage, 100);
    assert_eq!(s.direction_of("x"), "reverse");
    assert_eq!(s.fan_or_default("y").percentage, 0);
    let turned = s.with_direction("x", "forward".to_string());
    assert_eq!((turned.state.as_str(), turned.percentage, turned.direction.as_str()), ("ON", 100, "forward"));
    let sched = s.scheduled_state("x", 50);
    assert_eq!((sched.state.as_str(), sched.percentage, sched.direction.as_str()), ("ON", 50, "reverse"));

    assert!(!s.light_is_on("x"));
    let l = s.light_after_service("x", LightService::Toggle);
    assert_eq!(l.state, "ON");
    s.set_light("x".to_string(), l);
    assert!(s.light_is_on("x"));
    assert_eq!(s.light_after_service("x", LightService::Toggle).state, "OFF");
    assert_eq!(s.light_after_service("x", LightService::TurnOn).state, "ON");
    assert_eq!(s.light_after_service("x", LightService::TurnOff).state, "OFF");
    assert_eq!(s.light_or_default("x").state, "ON");
    assert_eq!(s.light_or_default("z").state, "OFF");
}

#[test]
fn speed_change_for_room() {
    let mut s = SharedState::new();
    s.set_fan("upstairs".to_string(), fan_state_for(100, "reverse".to_string()));
    let c = s.speed_change(&fans(), "upstairs", 35).unwrap();
    assert_eq!(c.fan_id, "01111011000010");
    assert_eq!(c.command, "speed5");
    assert_eq!((c.new_state.state.as_str(), c.new_state.percentage), ("ON", 33));
    assert_eq!(c.new_state.direction, "reverse");
    let stop = s.speed_change(&fans(), "living_room", 0).unwrap();
    assert_eq!(stop.command, "stop");
    assert_eq!(stop.new_state.state, "OFF");
    assert!(s.speed_change(&fans(), "garage", 50).is_none());
}

#[test]
fn plan_rf_commands() {
    let f = fans();
    let light = plan_service(&f, "light", "turn_off", "light.upstairs_fan_light", &data(None, None));
    assert_eq!(light.rf_command(), Some("light"));
    let dir = plan_service(&f, "fan", "set_direction", "fan.upstairs_fan", &data(None, None));
    assert_eq!(dir.rf_command(), Some("reverse"));
    let speed = plan_service(&f, "fan", "turn_on", "fan.upstairs_fan", &data(None, None));
    assert_eq!(speed.rf_command(), None);
    assert_eq!(ServicePlan::Ignore.rf_command(), None);
}

#[test]
fn toggling_twice_restores_the_light() {
    let mut s = SharedState::new();
    let first = s.light_after_service("den", LightService::Toggle);
    s.set_light("den".to_string(), first);
    let second = s.light_after_service("den", LightService::Toggle);
    assert_eq!(second.state, "OFF");
}

#[test]
fn only_the_latest_speed_request_applies() {
    let mut d = SpeedDebounce::new();
    assert_eq!(d.generation("den"), 0);
    let g1 = d.schedule("den");
    assert!(d.is_current("den", g1));
    let g2 = d.schedule("den");
    assert_eq!(g2, g1 + 1);
    assert!(!d.is_current("den", g1));
    assert!(d.is_current("den", g2));
    let other = d.schedule("hall");
    assert!(d.is_current("den", g2));
    assert!(d.is_current("hall", other));
    assert!(!d.is_current("attic", 0));
}
