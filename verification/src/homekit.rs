//! The HomeKit side: the commands a HomeKit controller's changes become, the
//! values pushed back to it, and the identifiers of the bridged accessories.
use vstd::prelude::*;
use vstd::string::*;
use crate::daemon::{PlanView, ServiceData, low_u32, plan_of};
use crate::entity::{
    fan_entity,
    fan_entity_id,
    lemma_entity_roundtrip,
    light_entity,
    light_entity_id,
};
use crate::state::{FanState, forward_text, forward_word, on_text, on_word, reverse_word};
use crate::text::same_text;

verus! {

/// The abstract value of an [`HkCommand`].
pub struct HkCommandView {
    pub domain: Seq<char>,
    pub service: Seq<char>,
    pub room: Seq<char>,
    pub percentage: Option<u64>,
    pub direction: Option<Seq<char>>,
}

/// A command a HomeKit controller issued, routed through the same service
/// handling as Home Assistant's calls: domain `fan` or `light`, a service
/// name, the room, and the call's data.
pub struct HkCommand {
    pub domain: String,
    pub service: String,
    pub room: String,
    pub data: ServiceData,
}

impl View for HkCommand {
    type V = HkCommandView;

    open spec fn view(&self) -> HkCommandView {
        HkCommandView {
            domain: self.domain@,
            service: self.service@,
            room: self.room@,
            percentage: self.data.percentage,
            direction: match self.data.direction {
                Some(d) => Some(d@),
                None => None,
            },
        }
    }
}

/// The entity id a command targets: the room's fan or light entity, `None`
/// for another domain.
pub open spec fn command_entity(c: HkCommandView) -> Option<Seq<char>> {
    if c.domain == "fan"@ {
        Some(fan_entity(c.room))
    } else if c.domain == "light"@ {
        Some(light_entity(c.room))
    } else {
        None
    }
}

/// The direction word for HomeKit's rotation direction value: 1 is
/// counter-clockwise (`reverse`), anything else `forward`.
pub open spec fn direction_for_value(value: i32) -> Seq<char> {
    if value == 1 {
        reverse_word()
    } else {
        forward_word()
    }
}

fn text(s: &str) -> (r: String)
    ensures
        r@ == s@,
{
    String::from_str(s)
}

fn no_data() -> (r: ServiceData)
    ensures
        r.percentage is None,
        r.direction is None,
{
    ServiceData { percentage: None, direction: None }
}

impl HkCommand {
    /// The fan's power was switched: on asks for 35 %, off turns it off.
    pub fn fan_power(room: String, on: bool) -> (r: HkCommand)
        ensures
            r@.domain == "fan"@,
            r@.room == room@,
            on ==> r@.service == "turn_on"@ && r@.percentage == Some(35u64) && r@.direction
                is None,
            !on ==> r@.service == "turn_off"@ && r@.percentage is None && r@.direction is None,
    {
        if on {
            HkCommand {
                domain: text("fan"),
                service: text("turn_on"),
                room,
                data: ServiceData { percentage: Some(35), direction: None },
            }
        } else {
            HkCommand { domain: text("fan"), service: text("turn_off"), room, data: no_data() }
        }
    }

    /// The fan's rotation speed was set to `percentage` (already rounded and
    /// clamped to 0..100): 0 turns the fan off, anything else sets it.
    pub fn rotation_speed(room: String, percentage: u64) -> (r: HkCommand)
        ensures
            r@.domain == "fan"@,
            r@.room == room@,
            r@.direction is None,
            percentage == 0 ==> r@.service == "turn_off"@ && r@.percentage is None,
            percentage != 0 ==> r@.service == "set_percentage"@ && r@.percentage == Some(
                percentage,
            ),
    {
        if percentage == 0 {
            HkCommand { domain: text("fan"), service: text("turn_off"), room, data: no_data() }
        } else {
            HkCommand {
                domain: text("fan"),
                service: text("set_percentage"),
                room,
                data: ServiceData { percentage: Some(percentage), direction: None },
            }
        }
    }

    /// The fan's rotation direction was set: 1 (counter-clockwise) is
    /// `reverse`, anything else `forward`.
    pub fn rotation_direction(room: String, value: i32) -> (r: HkCommand)
        ensures
            r@.domain == "fan"@,
            r@.service == "set_direction"@,
            r@.room == room@,
            r@.percentage is None,
            r@.direction == Some(direction_for_value(value)),
    {
        proof {
            reveal_strlit("reverse");
        }
        let direction = if value == 1 {
            text("reverse")
        } else {
            forward_text()
        };
        proof {
            assert("reverse"@ =~= reverse_word());
        }
        HkCommand {
            domain: text("fan"),
            service: text("set_direction"),
            room,
            data: ServiceData { percentage: None, direction: Some(direction) },
        }
    }

    /// The light's power was switched. The fan's light only toggles, so
    /// both switching on and switching off ask for `toggle`, whatever `on`
    /// is, and the daemon decides the new state from the one it recorded.
    pub fn light_power(room: String, on: bool) -> (r: HkCommand)
        ensures
            r@.domain == "light"@,
            r@.service == "toggle"@,
            r@.room == room@,
            r@.percentage is None,
            r@.direction is None,
    {
        HkCommand { domain: text("light"), service: text("toggle"), room, data: no_data() }
    }

    /// The entity id the command targets, `None` for a domain other than
    /// `fan` and `light`.
    pub fn entity_id(&self) -> (r: Option<String>)
        ensures
            match r {
                Some(e) => command_entity(self@) == Some(e@),
                None => command_entity(self@) is None,
            },
    {
        if same_text(self.domain.as_str(), "fan") {
            Some(fan_entity_id(self.room.as_str()))
        } else if same_text(self.domain.as_str(), "light") {
            Some(light_entity_id(self.room.as_str()))
        } else {
            None
        }
    }
}

/// HomeKit's rotation direction value for a direction: 0 (clockwise) for
/// forward, 1 (counter-clockwise) otherwise.
pub fn rotation_direction_value(forward: bool) -> (r: i32)
    ensures
        r == (if forward {
            0i32
        } else {
            1i32
        }),
{
    if forward {
        0
    } else {
        1
    }
}

/// The abstract values pushed to a fan accessory for a fan state.
pub open spec fn characteristics_of(st: crate::state::FanStateView) -> (bool, u8, bool) {
    (
        st.state == on_word(),
        (if st.percentage > 100 {
            100
        } else {
            st.percentage
        }) as u8,
        st.direction != reverse_word(),
    )
}

/// The values pushed to HomeKit for a fan state: power on exactly when the
/// state is `ON`, the percentage capped at 100, and forward unless the
/// direction is `reverse`.
pub fn fan_characteristics(st: &FanState) -> (r: (bool, u8, bool))
    ensures
        r == characteristics_of(st@),
{
    let on = on_text();
    proof {
        reveal_strlit("reverse");
        assert("reverse"@ =~= reverse_word());
    }
    let pct = if st.percentage > 100 {
        100u8
    } else {
        st.percentage as u8
    };
    (st.state == on, pct, !same_text(st.direction.as_str(), "reverse"))
}

/// The power value pushed to HomeKit for a light: on exactly when its state
/// is `ON`.
pub fn light_characteristic(st: &crate::state::LightState) -> (r: bool)
    ensures
        r == (st.state@ == on_word()),
{
    let on = on_text();
    st.state == on
}

/// The accessory id of the fan of the room at `index` in the sorted room
/// list; id 1 is the bridge itself.
pub fn accessory_id(index: usize) -> (r: u64)
    requires
        index + 2 <= u64::MAX,
    ensures
        r == index + 2,
{
    (index as u64) + 2
}

/// Instance ids of the fan and light services of a ceiling fan accessory,
/// given how many characteristics its information service has: the fan
/// service follows them and its own id, the light service follows the fan
/// service's four characteristics.
pub fn service_iids(info_chars: u64) -> (r: (u64, u64))
    requires
        info_chars + 7 <= u64::MAX,
    ensures
        r.0 == 1 + info_chars + 1,
        r.1 == r.0 + 4 + 1,
{
    let fan_iid = 1 + info_chars + 1;
    let fan_chars_count: u64 = 4;
    (fan_iid, fan_iid + fan_chars_count + 1)
}

/// The locally administered MAC address made from a nanosecond clock
/// reading: `02`, then bytes 4 down to 0 of `nanos`.
pub fn mac_from_nanos(nanos: u64) -> (r: [u8; 6])
    ensures
        r@ == seq![
            2u8,
            ((nanos / 0x1_0000_0000) % 256) as u8,
            ((nanos / 0x100_0000) % 256) as u8,
            ((nanos / 0x1_0000) % 256) as u8,
            ((nanos / 0x100) % 256) as u8,
            (nanos % 256) as u8,
        ],
{
    let b1 = ((nanos >> 32) & 0xff) as u8;
    let b2 = ((nanos >> 24) & 0xff) as u8;
    let b3 = ((nanos >> 16) & 0xff) as u8;
    let b4 = ((nanos >> 8) & 0xff) as u8;
    let b5 = (nanos & 0xff) as u8;
    assert(b1 == ((nanos / 0x1_0000_0000) % 256) as u8) by (bit_vector)
        requires
            b1 == ((nanos >> 32) & 0xff) as u8,
    ;
    assert(b2 == ((nanos / 0x100_0000) % 256) as u8) by (bit_vector)
        requires
            b2 == ((nanos >> 24) & 0xff) as u8,
    ;
    assert(b3 == ((nanos / 0x1_0000) % 256) as u8) by (bit_vector)
        requires
            b3 == ((nanos >> 16) & 0xff) as u8,
    ;
    assert(b4 == ((nanos / 0x100) % 256) as u8) by (bit_vector)
        requires
            b4 == ((nanos >> 8) & 0xff) as u8,
    ;
    assert(b5 == (nanos % 256) as u8) by (bit_vector)
        requires
            b5 == (nanos & 0xff) as u8,
    ;
    let r = [2u8, b1, b2, b3, b4, b5];
    assert(r@ =~= seq![2u8, b1, b2, b3, b4, b5]);
    r
}

/// A HomeKit command for a room with a configured fan is handled exactly as
/// the matching Home Assistant call: switching the fan on asks for 35 %, a
/// rotation speed sets it (0 turns the fan off), a direction change sends
/// `reverse` and records the direction, and the light switch toggles the
/// light from its recorded state.
pub proof fn lemma_homekit_commands_plan(
    fans: Map<Seq<char>, String>,
    room: Seq<char>,
    c: HkCommandView,
)
    requires
        fans.contains_key(room),
        c.room == room,
        command_entity(c) is Some,
        c.domain == "fan"@ ==> c.service == "turn_on"@ || c.service == "turn_off"@ || c.service
            == "set_percentage"@ || c.service == "set_direction"@,
        c.domain == "light"@ ==> c.service == "toggle"@,
    ensures
        plan_of(fans, c.domain, c.service, command_entity(c)->0, c.percentage, c.direction)
            == if c.domain == "light"@ {
            PlanView::Light {
                room,
                fan_id: fans[room]@,
                service: crate::daemon::LightService::Toggle,
            }
        } else if c.service == "turn_on"@ {
            PlanView::Speed {
                room,
                percentage: match c.percentage {
                    Some(v) => low_u32(v),
                    None => 35,
                },
            }
        } else if c.service == "turn_off"@ {
            PlanView::Speed { room, percentage: 0 }
        } else if c.service == "set_percentage"@ {
            PlanView::Speed {
                room,
                percentage: match c.percentage {
                    Some(v) => low_u32(v),
                    None => 0,
                },
            }
        } else {
            PlanView::Direction {
                room,
                fan_id: fans[room]@,
                direction: match c.direction {
                    Some(d) => d,
                    None => forward_word(),
                },
            }
        },
{
    lemma_entity_roundtrip(room);
    reveal_strlit("fan");
    reveal_strlit("light");
    reveal_strlit("turn_on");
    reveal_strlit("turn_off");
    reveal_strlit("set_percentage");
    reveal_strlit("set_direction");
    reveal_strlit("toggle");
    assert("fan"@.len() == 3 && "light"@.len() == 5);
    assert("turn_on"@.len() == 7 && "turn_off"@.len() == 8 && "set_percentage"@.len() == 14
        && "set_direction"@.len() == 13 && "toggle"@.len() == 6);
    assert("fan"@ != "light"@);
    assert("turn_on"@ != "turn_off"@);
    assert("toggle"@ != "turn_on"@ && "toggle"@ != "turn_off"@);
    assert("set_percentage"@ != "turn_on"@ && "set_percentage"@ != "turn_off"@);
    assert("set_direction"@ != "turn_on"@ && "set_direction"@ != "turn_off"@
        && "set_direction"@ != "set_percentage"@);
    if c.domain == "fan"@ {
        assert(command_entity(c)->0 == fan_entity(room));
    } else {
        assert(command_entity(c)->0 == light_entity(room));
    }
}

/// The values pushed to HomeKit for a fan: power on exactly for `ON`, the
/// rotation speed is the state's percentage whenever it is at most 100 (else
/// 100), whatever the on/off word, and the direction is forward unless it is
/// `reverse`.
pub proof fn lemma_characteristics(st: crate::state::FanStateView, word: Seq<char>)
    ensures
        characteristics_of(st).0 <==> st.state == on_word(),
        st.percentage <= 100 ==> characteristics_of(st).1 as u32 == st.percentage,
        st.percentage > 100 ==> characteristics_of(st).1 == 100,
        characteristics_of(crate::state::FanStateView { state: word, ..st }).1
            == characteristics_of(st).1,
        characteristics_of(st).2 <==> st.direction != reverse_word(),
{
}

} // verus!
