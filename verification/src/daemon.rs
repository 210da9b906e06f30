//! The daemon's decisions: what a Home Assistant or HomeKit service call does
//! to a room, and the per-room state those decisions read and write.
use vstd::prelude::*;
use vstd::string::*;
use crate::entity::{fan_room, light_room, room_of_fan_entity, room_of_light_entity};
use crate::speed::{fan_state_for, snap, speed_command, speed_command_of, speed_snap, state_for};
use crate::state::{
    FanState,
    FanStateView,
    LightState,
    RoomTable,
    default_fan_view,
    forward_text,
    forward_word,
    off_text,
    off_word,
    on_text,
    on_word,
};
use crate::text::same_text;

verus! {

/// The light services the daemon acts on.
#[derive(PartialEq, Eq, Structural, Clone, Copy, Debug)]
pub enum LightService {
    TurnOn,
    TurnOff,
    Toggle,
}

/// What a service call carries besides its target: `percentage` when it is
/// an unsigned integer, `direction` when it is a string.
pub struct ServiceData {
    pub percentage: Option<u64>,
    pub direction: Option<String>,
}

/// What to do for one entity of a service call.
pub enum ServicePlan {
    /// Nothing: the entity or the service is not one the daemon handles.
    Ignore,
    /// Show the fan of `room` at `percentage` at once and send the matching
    /// speed command after the debounce delay.
    Speed { room: String, percentage: u32 },
    /// Send `reverse` to `fan_id`, then record `direction` for the fan.
    Direction { room: String, fan_id: String, direction: String },
    /// Send `light` to `fan_id`, then record the light state `service` leads to.
    Light { room: String, fan_id: String, service: LightService },
}

/// The abstract value of a [`ServicePlan`].
pub enum PlanView {
    Ignore,
    Speed { room: Seq<char>, percentage: u32 },
    Direction { room: Seq<char>, fan_id: Seq<char>, direction: Seq<char> },
    Light { room: Seq<char>, fan_id: Seq<char>, service: LightService },
}

impl View for ServicePlan {
    type V = PlanView;

    open spec fn view(&self) -> PlanView {
        match self {
            ServicePlan::Ignore => PlanView::Ignore,
            ServicePlan::Speed { room, percentage } => PlanView::Speed {
                room: room@,
                percentage: *percentage,
            },
            ServicePlan::Direction { room, fan_id, direction } => PlanView::Direction {
                room: room@,
                fan_id: fan_id@,
                direction: direction@,
            },
            ServicePlan::Light { room, fan_id, service } => PlanView::Light {
                room: room@,
                fan_id: fan_id@,
                service: *service,
            },
        }
    }
}

/// The RF command a plan sends before it records the new state: `reverse`
/// for a direction change and `light` (the remote's only light command, a
/// toggle) for every light service; a speed plan sends its command later.
pub open spec fn plan_command(p: PlanView) -> Option<Seq<char>> {
    match p {
        PlanView::Direction { .. } => Some("reverse"@),
        PlanView::Light { .. } => Some("light"@),
        _ => None,
    }
}

impl ServicePlan {
    /// The RF command to send at once for this plan, if any.
    pub fn rf_command(&self) -> (r: Option<&'static str>)
        ensures
            match r {
                Some(c) => plan_command(self@) == Some(c@),
                None => plan_command(self@) is None,
            },
    {
        match self {
            ServicePlan::Direction { .. } => Some("reverse"),
            ServicePlan::Light { .. } => Some("light"),
            _ => None,
        }
    }
}

/// The low 32 bits of `v`, as `v as u32` keeps them.
pub open spec fn low_u32(v: u64) -> u32 {
    (v % 0x1_0000_0000) as u32
}

/// A percentage from the call's data, or `default` where it has none.
pub open spec fn percentage_or(p: Option<u64>, default: u32) -> u32 {
    match p {
        Some(v) => low_u32(v),
        None => default,
    }
}

/// What the daemon does for `entity` of a call of `service` in `domain`,
/// given the configured fans (room to fan id) and the call's data.
pub open spec fn plan_of(
    fans: Map<Seq<char>, String>,
    domain: Seq<char>,
    service: Seq<char>,
    entity: Seq<char>,
    percentage: Option<u64>,
    direction: Option<Seq<char>>,
) -> PlanView {
    if domain == "fan"@ {
        match fan_room(entity) {
            Some(room) => if !fans.contains_key(room) {
                PlanView::Ignore
            } else if service == "turn_on"@ {
                PlanView::Speed { room, percentage: percentage_or(percentage, 35) }
            } else if service == "turn_off"@ {
                PlanView::Speed { room, percentage: 0 }
            } else if service == "set_percentage"@ {
                PlanView::Speed { room, percentage: percentage_or(percentage, 0) }
            } else if service == "set_direction"@ {
                PlanView::Direction {
                    room,
                    fan_id: fans[room]@,
                    direction: match direction {
                        Some(d) => d,
                        None => forward_word(),
                    },
                }
            } else {
                PlanView::Ignore
            },
            None => PlanView::Ignore,
        }
    } else if domain == "light"@ {
        match light_room(entity) {
            Some(room) => if !fans.contains_key(room) {
                PlanView::Ignore
            } else if service == "turn_on"@ {
                PlanView::Light { room, fan_id: fans[room]@, service: LightService::TurnOn }
            } else if service == "turn_off"@ {
                PlanView::Light { room, fan_id: fans[room]@, service: LightService::TurnOff }
            } else if service == "toggle"@ {
                PlanView::Light { room, fan_id: fans[room]@, service: LightService::Toggle }
            } else {
                PlanView::Ignore
            },
            None => PlanView::Ignore,
        }
    } else {
        PlanView::Ignore
    }
}

fn low_u32_exec(v: u64) -> (r: u32)
    ensures
        r == low_u32(v),
{
    (v % 0x1_0000_0000) as u32
}

fn percentage_or_exec(p: Option<u64>, default: u32) -> (r: u32)
    ensures
        r == percentage_or(p, default),
{
    match p {
        Some(v) => low_u32_exec(v),
        None => default,
    }
}

/// Decide what a service call does for one of its entities: which room it
/// targets (only rooms with a configured fan id count) and what to send and
/// record for it.
pub fn plan_service(
    fans: &RoomTable<String>,
    domain: &str,
    service: &str,
    entity_id: &str,
    data: &ServiceData,
) -> (r: ServicePlan)
    ensures
        r@ == plan_of(
            fans@,
            domain@,
            service@,
            entity_id@,
            data.percentage,
            match data.direction {
                Some(d) => Some(d@),
                None => None,
            },
        ),
{
    if same_text(domain, "fan") {
        let room = match room_of_fan_entity(entity_id) {
            Some(room) => room,
            None => return ServicePlan::Ignore,
        };
        let fan_id = match fans.get(room) {
            Some(id) => id,
            None => return ServicePlan::Ignore,
        };
        if same_text(service, "turn_on") {
            ServicePlan::Speed {
                room: String::from_str(room),
                percentage: percentage_or_exec(data.percentage, 35),
            }
        } else if same_text(service, "turn_off") {
            ServicePlan::Speed { room: String::from_str(room), percentage: 0 }
        } else if same_text(service, "set_percentage") {
            ServicePlan::Speed {
                room: String::from_str(room),
                percentage: percentage_or_exec(data.percentage, 0),
            }
        } else if same_text(service, "set_direction") {
            let direction = match &data.direction {
                Some(d) => d.clone(),
                None => forward_text(),
            };
            ServicePlan::Direction { room: String::from_str(room), fan_id: fan_id.clone(), direction }
        } else {
            ServicePlan::Ignore
        }
    } else if same_text(domain, "light") {
        let room = match room_of_light_entity(entity_id) {
            Some(room) => room,
            None => return ServicePlan::Ignore,
        };
        let fan_id = match fans.get(room) {
            Some(id) => id,
            None => return ServicePlan::Ignore,
        };
        if same_text(service, "turn_on") {
            ServicePlan::Light {
                room: String::from_str(room),
                fan_id: fan_id.clone(),
                service: LightService::TurnOn,
            }
        } else if same_text(service, "turn_off") {
            ServicePlan::Light {
                room: String::from_str(room),
                fan_id: fan_id.clone(),
                service: LightService::TurnOff,
            }
        } else if same_text(service, "toggle") {
            ServicePlan::Light {
                room: String::from_str(room),
                fan_id: fan_id.clone(),
                service: LightService::Toggle,
            }
        } else {
            ServicePlan::Ignore
        }
    } else {
        ServicePlan::Ignore
    }
}

/// The state of the fan of `room` in `m`, or the default state where `m`
/// has none.
pub open spec fn fan_view_or_default(m: Map<Seq<char>, FanState>, room: Seq<char>) -> FanStateView {
    if m.contains_key(room) {
        m[room]@
    } else {
        default_fan_view()
    }
}

/// The direction of the fan of `room` in `m`, `forward` where `m` has none.
pub open spec fn direction_or_forward(m: Map<Seq<char>, FanState>, room: Seq<char>) -> Seq<char> {
    fan_view_or_default(m, room).direction
}

/// Whether the light of `room` is on in `m`: only a recorded `ON` counts.
pub open spec fn light_on_in(m: Map<Seq<char>, LightState>, room: Seq<char>) -> bool {
    m.contains_key(room) && m[room]@.state == on_word()
}

/// Whether the light is on after `service`, given whether it was on.
pub open spec fn light_after(on: bool, service: LightService) -> bool {
    match service {
        LightService::TurnOn => true,
        LightService::TurnOff => false,
        LightService::Toggle => !on,
    }
}

/// The state word for a light that is on or off.
pub open spec fn light_word(on: bool) -> Seq<char> {
    if on {
        on_word()
    } else {
        off_word()
    }
}

/// The RF command and the state to record once the debounced speed change
/// for a room is applied.
pub struct SpeedChange {
    pub fan_id: String,
    pub command: String,
    pub new_state: FanState,
}

/// The per-room state saved across restarts.
pub struct PersistedState {
    pub fans: RoomTable<FanState>,
    pub lights: RoomTable<LightState>,
}

impl Default for PersistedState {
    fn default() -> (r: Self)
        ensures
            r.fans@ == Map::<Seq<char>, FanState>::empty(),
            r.lights@ == Map::<Seq<char>, LightState>::empty(),
    {
        PersistedState { fans: RoomTable::new(), lights: RoomTable::new() }
    }
}

/// The state the daemon keeps per room: fan and light state as last set.
pub struct SharedState {
    pub fan_states: RoomTable<FanState>,
    pub light_states: RoomTable<LightState>,
}

impl SharedState {
    /// No room has a recorded state.
    pub fn new() -> (r: Self)
        ensures
            r.fan_states@ == Map::<Seq<char>, FanState>::empty(),
            r.light_states@ == Map::<Seq<char>, LightState>::empty(),
    {
        SharedState { fan_states: RoomTable::new(), light_states: RoomTable::new() }
    }

    /// The state restored from what was saved.
    pub fn from_persisted(saved: PersistedState) -> (r: Self)
        ensures
            r.fan_states@ == saved.fans@,
            r.light_states@ == saved.lights@,
    {
        SharedState { fan_states: saved.fans, light_states: saved.lights }
    }

    /// The recorded state of the fan of `room`, or the default state.
    pub fn fan_or_default(&self, room: &str) -> (r: FanState)
        ensures
            r@ == fan_view_or_default(self.fan_states@, room@),
    {
        match self.fan_states.get(room) {
            Some(st) => st.clone(),
            None => FanState::default(),
        }
    }

    /// The recorded state of the light of `room`, or off.
    pub fn light_or_default(&self, room: &str) -> (r: LightState)
        ensures
            self.light_states@.contains_key(room@) ==> r@ == self.light_states@[room@]@,
            !self.light_states@.contains_key(room@) ==> r@.state == off_word(),
    {
        match self.light_states.get(room) {
            Some(st) => st.clone(),
            None => LightState::default(),
        }
    }

    /// The recorded direction of the fan of `room`, `forward` where none is.
    pub fn direction_of(&self, room: &str) -> (r: String)
        ensures
            r@ == direction_or_forward(self.fan_states@, room@),
    {
        match self.fan_states.get(room) {
            Some(st) => st.direction.clone(),
            None => forward_text(),
        }
    }

    /// Whether the light of `room` is recorded as on.
    pub fn light_is_on(&self, room: &str) -> (r: bool)
        ensures
            r == light_on_in(self.light_states@, room@),
    {
        match self.light_states.get(room) {
            Some(st) => {
                let on = on_text();
                st.state == on
            },
            None => false,
        }
    }

    /// Record `st` as the state of the fan of `room`.
    pub fn set_fan(&mut self, room: String, st: FanState)
        ensures
            final(self).fan_states@ == old(self).fan_states@.insert(room@, st),
            final(self).light_states@ == old(self).light_states@,
    {
        self.fan_states.insert(room, st);
    }

    /// Record `st` as the state of the light of `room`.
    pub fn set_light(&mut self, room: String, st: LightState)
        ensures
            final(self).light_states@ == old(self).light_states@.insert(room@, st),
            final(self).fan_states@ == old(self).fan_states@,
    {
        self.light_states.insert(room, st);
    }

    /// The state shown at once when the fan of `room` is asked for
    /// `percentage`: snapped, with the room's recorded direction.
    pub fn scheduled_state(&self, room: &str, percentage: u32) -> (r: FanState)
        ensures
            r@ == state_for(percentage, direction_or_forward(self.fan_states@, room@)),
    {
        fan_state_for(percentage, self.direction_of(room))
    }

    /// The fan state after a direction change: the recorded state of the
    /// room (or the default) with `direction` in place.
    pub fn with_direction(&self, room: &str, direction: String) -> (r: FanState)
        ensures
            r@ == (FanStateView {
                direction: direction@,
                ..fan_view_or_default(self.fan_states@, room@)
            }),
    {
        let current = self.fan_or_default(room);
        FanState { state: current.state, percentage: current.percentage, direction }
    }

    /// The light state after `service`, given the recorded state of `room`.
    pub fn light_after_service(&self, room: &str, service: LightService) -> (r: LightState)
        ensures
            r@.state == light_word(light_after(light_on_in(self.light_states@, room@), service)),
    {
        let on = self.light_is_on(room);
        let now_on = match service {
            LightService::TurnOn => true,
            LightService::TurnOff => false,
            LightService::Toggle => !on,
        };
        if now_on {
            LightState { state: on_text() }
        } else {
            LightState { state: off_text() }
        }
    }

    /// The debounced speed change for `room`: `None` when no fan id is
    /// configured for it, else the command for the snapped speed (`stop` or
    /// `speed1` to `speed6`) and the state to record, with the room's
    /// recorded direction.
    pub fn speed_change(&self, fans: &RoomTable<String>, room: &str, percentage: u32) -> (r:
        Option<SpeedChange>)
        ensures
            match r {
                None => !fans@.contains_key(room@),
                Some(c) => fans@.contains_key(room@) && c.fan_id@ == fans@[room@]@
                    && c.command@ == speed_command_of(snap(percentage)) && c.new_state@
                    == state_for(percentage, direction_or_forward(self.fan_states@, room@)),
            },
    {
        let fan_id = match fans.get(room) {
            Some(id) => id.clone(),
            None => return None,
        };
        let direction = self.direction_of(room);
        let snapped = speed_snap(percentage);
        proof {
            crate::speed::lemma_snap_range(percentage);
        }
        let command = speed_command(snapped);
        let new_state = fan_state_for(percentage, direction);
        Some(SpeedChange { fan_id, command, new_state })
    }
}

/// The generation of the latest speed request for `room` in `m`, 0 before
/// the first.
pub open spec fn generation_in(m: Map<Seq<char>, u64>, room: Seq<char>) -> u64 {
    if m.contains_key(room) {
        m[room]
    } else {
        0
    }
}

/// Whether the request of generation `g` is still the latest for `room`.
pub open spec fn is_current_in(m: Map<Seq<char>, u64>, room: Seq<char>, g: u64) -> bool {
    m.contains_key(room) && m[room] == g
}

/// The speed requests scheduled per room: each request gets the next
/// generation, and only the latest one of a room is applied once its
/// debounce delay has passed.
pub struct SpeedDebounce {
    generations: RoomTable<u64>,
}

impl View for SpeedDebounce {
    type V = Map<Seq<char>, u64>;

    closed spec fn view(&self) -> Map<Seq<char>, u64> {
        self.generations@
    }
}

impl SpeedDebounce {
    /// No request scheduled yet.
    pub fn new() -> (r: Self)
        ensures
            r@ == Map::<Seq<char>, u64>::empty(),
    {
        SpeedDebounce { generations: RoomTable::new() }
    }

    /// The generation of the latest request for `room`, 0 before the first.
    pub fn generation(&self, room: &str) -> (r: u64)
        ensures
            r == generation_in(self@, room@),
    {
        match self.generations.get(room) {
            Some(g) => *g,
            None => 0,
        }
    }

    /// Record a new request for `room`; it supersedes every earlier one.
    pub fn schedule(&mut self, room: &str) -> (g: u64)
        requires
            generation_in(old(self)@, room@) < u64::MAX,
        ensures
            g == generation_in(old(self)@, room@) + 1,
            final(self)@ == old(self)@.insert(room@, g),
    {
        let g = self.generation(room) + 1;
        self.generations.insert(String::from_str(room), g);
        g
    }

    /// Whether the request of generation `g` for `room` is still the latest,
    /// and so is to be applied.
    pub fn is_current(&self, room: &str, g: u64) -> (r: bool)
        ensures
            r == is_current_in(self@, room@, g),
    {
        match self.generations.get(room) {
            Some(latest) => *latest == g,
            None => false,
        }
    }
}

/// Of two requests for a room in a row, only the second is applied, and a
/// request for one room does not supersede one for another.
pub proof fn lemma_last_request_wins(m: Map<Seq<char>, u64>, room: Seq<char>, other: Seq<char>)
    requires
        generation_in(m, room) < u64::MAX - 1,
        other != room,
    ensures
        ({
            let g1 = (generation_in(m, room) + 1) as u64;
            let m1 = m.insert(room, g1);
            let g2 = (generation_in(m1, room) + 1) as u64;
            let m2 = m1.insert(room, g2);
            &&& is_current_in(m1, room, g1)
            &&& !is_current_in(m2, room, g1)
            &&& is_current_in(m2, room, g2)
            &&& forall|g: u64| is_current_in(m2, other, g) == is_current_in(m, other, g)
        }),
{
}

/// The requests of a room after `k` more requests for it, starting from `m`.
pub open spec fn after_requests(m: Map<Seq<char>, u64>, room: Seq<char>, k: nat) -> Map<
    Seq<char>,
    u64,
>
    decreases k,
{
    if k == 0 {
        m
    } else {
        let p = after_requests(m, room, (k - 1) as nat);
        p.insert(room, (generation_in(p, room) + 1) as u64)
    }
}

proof fn lemma_after_requests_generation(m: Map<Seq<char>, u64>, room: Seq<char>, k: nat)
    requires
        generation_in(m, room) + k <= u64::MAX,
    ensures
        generation_in(after_requests(m, room, k), room) == generation_in(m, room) + k,
        k > 0 ==> after_requests(m, room, k).contains_key(room),
        forall|other: Seq<char>|
            other != room ==> #[trigger] after_requests(m, room, k).contains_key(other)
                == m.contains_key(other) && (m.contains_key(other) ==> after_requests(
                m,
                room,
                k,
            )[other] == m[other]),
    decreases k,
{
    if k > 0 {
        lemma_after_requests_generation(m, room, (k - 1) as nat);
    }
}

/// In a burst of `k` requests for a room, where the `i`-th got generation
/// `base + i`, only the last is still current when the timers fire, and
/// other rooms' requests are untouched.
pub proof fn lemma_burst_last_wins(m: Map<Seq<char>, u64>, room: Seq<char>, k: nat, i: nat)
    requires
        generation_in(m, room) + k <= u64::MAX,
        1 <= i <= k,
    ensures
        is_current_in(after_requests(m, room, k), room, (generation_in(m, room) + i) as u64)
            <==> i == k,
        forall|other: Seq<char>, g: u64|
            other != room ==> is_current_in(after_requests(m, room, k), other, g)
                == is_current_in(m, other, g),
{
    lemma_after_requests_generation(m, room, k);
}

/// Every plan that acts targets a room with a configured fan: the room is
/// the one the entity id names, and the fan id sent to is that room's.
/// A call for a room without a configured fan, fan or light, is ignored.
pub proof fn lemma_plan_targets_configured_room(
    fans: Map<Seq<char>, String>,
    domain: Seq<char>,
    service: Seq<char>,
    entity: Seq<char>,
    percentage: Option<u64>,
    direction: Option<Seq<char>>,
)
    ensures
        match plan_of(fans, domain, service, entity, percentage, direction) {
            PlanView::Ignore => true,
            PlanView::Speed { room, .. } => domain == "fan"@ && fan_room(entity) == Some(room)
                && fans.contains_key(room),
            PlanView::Direction { room, fan_id, .. } => domain == "fan"@ && fan_room(entity)
                == Some(room) && fans.contains_key(room) && fan_id == fans[room]@,
            PlanView::Light { room, fan_id, .. } => domain == "light"@ && light_room(entity)
                == Some(room) && fans.contains_key(room) && fan_id == fans[room]@,
        },
        (domain == "light"@ && light_room(entity) is Some && !fans.contains_key(
            light_room(entity)->0,
        ))
            ==> plan_of(fans, domain, service, entity, percentage, direction) is Ignore,
        (domain == "fan"@ && fan_room(entity) is Some && !fans.contains_key(
            fan_room(entity)->0,
        ))
            ==> plan_of(fans, domain, service, entity, percentage, direction) is Ignore,
        (domain != "fan"@ && domain != "light"@) ==> plan_of(
            fans,
            domain,
            service,
            entity,
            percentage,
            direction,
        ) is Ignore,
{
}

/// A recorded fan state is read back as recorded, and recording it leaves
/// every other room's fan as it was.
pub proof fn lemma_fan_read_after_write(
    m: Map<Seq<char>, FanState>,
    room: Seq<char>,
    other: Seq<char>,
    st: FanState,
)
    requires
        other != room,
    ensures
        fan_view_or_default(m.insert(room, st), room) == st@,
        fan_view_or_default(m.insert(room, st), other) == fan_view_or_default(m, other),
{
}

/// Toggling a light twice leaves it as it was; turning it on or off twice is
/// the same as once.
pub proof fn lemma_light_services(on: bool)
    ensures
        light_after(light_after(on, LightService::Toggle), LightService::Toggle) == on,
        light_after(light_after(on, LightService::TurnOn), LightService::TurnOn) == light_after(
            on,
            LightService::TurnOn,
        ),
        light_after(light_after(on, LightService::TurnOff), LightService::TurnOff)
            == light_after(on, LightService::TurnOff),
        light_after(on, LightService::TurnOn),
        !light_after(on, LightService::TurnOff),
{
}

/// The state recorded when a debounced speed change lands is the state shown
/// when it was scheduled, as long as the room's direction did not change.
pub proof fn lemma_speed_change_matches_schedule(percentage: u32, direction: Seq<char>)
    ensures
        state_for(percentage, direction) == state_for(
            state_for(percentage, direction).percentage,
            direction,
        ),
{
    crate::speed::lemma_state_for_idempotent(percentage, direction);
}

/// For a fan entity of a configured room: `turn_on` runs it at the call's
/// percentage, or at 35 % without one; `turn_off` runs it at 0 %;
/// `set_percentage` at the call's percentage, or 0 % without one;
/// `set_direction` sends the call's direction, or `forward` without one, to
/// the room's fan id; any other service is ignored.
pub proof fn lemma_fan_service_plans(
    fans: Map<Seq<char>, String>,
    entity: Seq<char>,
    service: Seq<char>,
    percentage: Option<u64>,
    direction: Option<Seq<char>>,
)
    requires
        fan_room(entity) is Some,
        fans.contains_key(fan_room(entity)->0),
    ensures
        ({
            let room = fan_room(entity)->0;
            let plan = plan_of(fans, "fan"@, service, entity, percentage, direction);
            &&& service == "turn_on"@ && percentage is None ==> plan == PlanView::Speed {
                room,
                percentage: 35,
            }
            &&& service == "turn_off"@ ==> plan == PlanView::Speed { room, percentage: 0 }
            &&& service == "set_percentage"@ && percentage is None ==> plan == PlanView::Speed {
                room,
                percentage: 0,
            }
            &&& (service == "turn_on"@ || service == "set_percentage"@) && percentage is Some
                && percentage->0 < 0x1_0000_0000 ==> plan is Speed && plan->Speed_room == room
                && plan->Speed_percentage as u64 == percentage->0
            &&& service == "set_direction"@ ==> plan == PlanView::Direction {
                room,
                fan_id: fans[room]@,
                direction: match direction {
                    Some(d) => d,
                    None => seq!['f', 'o', 'r', 'w', 'a', 'r', 'd'],
                },
            }
            &&& service != "turn_on"@ && service != "turn_off"@ && service != "set_percentage"@
                && service != "set_direction"@ ==> plan is Ignore
        }),
{
    reveal_strlit("fan");
    reveal_strlit("light");
    reveal_strlit("turn_on");
    reveal_strlit("turn_off");
    reveal_strlit("set_percentage");
    reveal_strlit("set_direction");
    reveal_strlit("forward");
    assert(forward_word() =~= seq!['f', 'o', 'r', 'w', 'a', 'r', 'd']);
    assert("fan"@.len() != "light"@.len());
    assert("turn_on"@ != "turn_off"@ && "turn_on"@ != "set_percentage"@ && "turn_on"@
        != "set_direction"@) by {
        assert("turn_on"@.len() != "turn_off"@.len());
        assert("turn_on"@.len() != "set_percentage"@.len());
        assert("turn_on"@.len() != "set_direction"@.len());
    }
    assert("turn_off"@ != "set_percentage"@ && "turn_off"@ != "set_direction"@) by {
        assert("turn_off"@[0] != "set_percentage"@[0]);
        assert("turn_off"@[0] != "set_direction"@[0]);
    }
    assert("set_percentage"@ != "set_direction"@) by {
        assert("set_percentage"@.len() != "set_direction"@.len());
    }
    if let Some(v) = percentage {
        if v < 0x1_0000_0000 {
            assert(low_u32(v) as u64 == v);
        }
    }
}

/// For a light entity of a configured room: `turn_on`, `turn_off` and
/// `toggle` each become that light service on the room's fan id; any other
/// service is ignored.
pub proof fn lemma_light_service_plans(
    fans: Map<Seq<char>, String>,
    entity: Seq<char>,
    service: Seq<char>,
    percentage: Option<u64>,
    direction: Option<Seq<char>>,
)
    requires
        light_room(entity) is Some,
        fans.contains_key(light_room(entity)->0),
    ensures
        ({
            let room = light_room(entity)->0;
            let plan = plan_of(fans, "light"@, service, entity, percentage, direction);
            &&& service == "turn_on"@ ==> plan == PlanView::Light {
                room,
                fan_id: fans[room]@,
                service: LightService::TurnOn,
            }
            &&& service == "turn_off"@ ==> plan == PlanView::Light {
                room,
                fan_id: fans[room]@,
                service: LightService::TurnOff,
            }
            &&& service == "toggle"@ ==> plan == PlanView::Light {
                room,
                fan_id: fans[room]@,
                service: LightService::Toggle,
            }
            &&& service != "turn_on"@ && service != "turn_off"@ && service != "toggle"@
                ==> plan is Ignore
        }),
{
    reveal_strlit("fan");
    reveal_strlit("light");
    reveal_strlit("turn_on");
    reveal_strlit("turn_off");
    reveal_strlit("toggle");
    assert("fan"@.len() != "light"@.len());
    assert("turn_on"@ != "turn_off"@ && "turn_on"@ != "toggle"@ && "turn_off"@ != "toggle"@) by {
        assert("turn_on"@.len() != "turn_off"@.len());
        assert("turn_on"@[1] != "toggle"@[1]);
        assert("turn_off"@.len() != "toggle"@.len());
    }
}

} // verus!
