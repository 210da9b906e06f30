//! Speed snapping: Home Assistant's 0–100 % slider onto the remote's six
//! speeds and stop.
use vstd::prelude::*;
use vstd::string::*;
use crate::state::{
    FanState,
    FanStateView,
    off_text,
    off_word,
    on_text,
    on_word,
};
use crate::protocol::command_id_of;
use crate::text::{decimal, digit_char, joined, u64_text};

verus! {

/// `num / den` rounded to the nearest whole number, halves rounded up.
pub open spec fn nearest(num: nat, den: nat) -> nat {
    (2 * num + den) / (2 * den)
}

/// The speed index for a percentage: 0 is `speed1` (the fastest), 5 is
/// `speed6` (the slowest), 6 is stop. It is `6 * (100 - p) / 100` rounded,
/// with `p` taken as 100 where it is larger.
pub open spec fn snap(percentage: u32) -> nat {
    let d: nat = if percentage >= 100 {
        0
    } else {
        (100 - percentage) as nat
    };
    nearest(6 * d, 100)
}

/// The percentage shown for speed index `s` (0 to 5): `100 - 100 * s / 6`
/// rounded.
pub open spec fn snapped_percent(s: nat) -> nat {
    nearest(100 * (6 - s) as nat, 6)
}

/// Map a Home Assistant percentage to a speed index: 0 (`speed1`, the
/// fastest) to 5 (`speed6`, the slowest), or 6 for stop.
pub fn speed_snap(percentage: u32) -> (r: u32)
    ensures
        r == snap(percentage),
{
    let d: u32 = if percentage >= 100 {
        0
    } else {
        100 - percentage
    };
    (12 * d + 100) / 200
}

/// The percentage reported for speed index `s`, 0 to 5.
pub fn snapped_percentage(s: u32) -> (r: u32)
    requires
        s <= 5,
    ensures
        r == snapped_percent(s as nat),
{
    (200 * (6 - s) + 6) / 12
}

/// The state a fan is shown in once `percentage` is applied: off at 0 % when
/// the speed snaps to stop, else on at the snapped percentage.
pub open spec fn state_for(percentage: u32, direction: Seq<char>) -> FanStateView {
    let s = snap(percentage);
    if s >= 6 {
        FanStateView { state: off_word(), percentage: 0, direction }
    } else {
        FanStateView { state: on_word(), percentage: snapped_percent(s) as u32, direction }
    }
}

/// The state a fan is shown in once `percentage` is applied, keeping
/// `direction`.
pub fn fan_state_for(percentage: u32, direction: String) -> (r: FanState)
    ensures
        r@ == state_for(percentage, direction@),
        r.direction@ == direction@,
        r@.state == on_word() <==> r.percentage > 0,
{
    proof {
        lemma_state_for_shape(percentage, direction@);
    }
    let s = speed_snap(percentage);
    if s >= 6 {
        FanState { state: off_text(), percentage: 0, direction }
    } else {
        FanState { state: on_text(), percentage: snapped_percentage(s), direction }
    }
}

/// `"stop"`.
pub open spec fn stop_word() -> Seq<char> {
    seq!['s', 't', 'o', 'p']
}

/// The RF command for speed index `s`: `stop` for 6, else `speed<s + 1>`.
pub open spec fn speed_command_of(s: nat) -> Seq<char> {
    if s >= 6 {
        stop_word()
    } else {
        seq!['s', 'p', 'e', 'e', 'd'] + decimal(s + 1)
    }
}

/// The RF command that sets speed index `s`.
pub fn speed_command(s: u32) -> (r: String)
    requires
        s <= 6,
    ensures
        r@ == speed_command_of(s as nat),
        s < 6 ==> r@ == seq!['s', 'p', 'e', 'e', 'd', digit_char((s + 1) as nat)],
        s == 6 ==> r@ == seq!['s', 't', 'o', 'p'],
{
    proof {
        lemma_speed_command_number(s as nat);
    }
    proof {
        reveal_strlit("stop");
        reveal_strlit("speed");
    }
    if s >= 6 {
        String::from_str("stop")
    } else {
        let n = u64_text((s + 1) as u64);
        joined("speed", n.as_str())
    }
}

/// Speed indices run from 0 to 6.
pub proof fn lemma_snap_range(p: u32)
    ensures
        snap(p) <= 6,
{
    let d: nat = if p >= 100 { 0 } else { (100 - p) as nat };
    assert(snap(p) == (12 * d + 100) / 200);
    assert((12 * d + 100) / 200 <= 6) by (nonlinear_arith)
        requires
            d <= 100,
    ;
}

/// A higher percentage never gives a slower speed: the index does not grow.
pub proof fn lemma_snap_monotonic(p1: u32, p2: u32)
    requires
        p1 <= p2,
    ensures
        snap(p2) <= snap(p1),
{
    let d1: nat = if p1 >= 100 { 0 } else { (100 - p1) as nat };
    let d2: nat = if p2 >= 100 { 0 } else { (100 - p2) as nat };
    assert(d2 <= d1);
    vstd::arithmetic::div_mod::lemma_div_is_ordered(
        (12 * d2 + 100) as int,
        (12 * d1 + 100) as int,
        200,
    );
}

/// 0 % stops the fan and 100 % runs it at `speed1`; every percentage up to
/// 8 snaps to stop.
pub proof fn lemma_snap_ends(p: u32)
    ensures
        snap(0) == 6,
        snap(100) == 0,
        snap(p) == 6 <==> p <= 8,
{
    let d: nat = if p >= 100 { 0 } else { (100 - p) as nat };
    assert(snap(0) == 1300nat / 200);
    assert(snap(100) == 100nat / 200);
    assert(snap(p) == (12 * d + 100) / 200);
    assert(((12 * d + 100) / 200 == 6) <==> d >= 92) by (nonlinear_arith)
        requires
            d <= 100,
    ;
}

/// Snapping the percentage shown for a speed gives that speed back.
pub proof fn lemma_snap_roundtrip(s: nat)
    requires
        s <= 5,
    ensures
        snapped_percent(s) <= 100,
        snap(snapped_percent(s) as u32) == s,
{
    assert(snapped_percent(s) == (200 * (6 - s) + 6) / 12);
    if s == 0 {
        assert(snapped_percent(s) == 100);
    } else if s == 1 {
        assert(snapped_percent(s) == 83);
        assert(snap(83) == (12 * 17 + 100) / 200);
    } else if s == 2 {
        assert(snapped_percent(s) == 67);
        assert(snap(67) == (12 * 33 + 100) / 200);
    } else if s == 3 {
        assert(snapped_percent(s) == 50);
        assert(snap(50) == (12 * 50 + 100) / 200);
    } else if s == 4 {
        assert(snapped_percent(s) == 33);
        assert(snap(33) == (12 * 67 + 100) / 200);
    } else {
        assert(snapped_percent(s) == 17);
        assert(snap(17) == (12 * 83 + 100) / 200);
    }
}

/// Applying the percentage a fan is shown at leaves the shown state as it is.
pub proof fn lemma_state_for_idempotent(p: u32, direction: Seq<char>)
    ensures
        state_for(state_for(p, direction).percentage, direction) == state_for(p, direction),
{
    let s = snap(p);
    lemma_snap_range(p);
    if s < 6 {
        lemma_snap_roundtrip(s);
    }
}

/// The command sent for a percentage agrees with the state shown for it:
/// stop exactly when the state is off.
pub proof fn lemma_command_matches_state(p: u32, direction: Seq<char>)
    ensures
        (speed_command_of(snap(p)) == stop_word()) <==> state_for(p, direction).state
            == off_word(),
{
    lemma_snap_range(p);
    if snap(p) < 6 {
        assert(speed_command_of(snap(p)).len() > 4);
        assert(on_word() != off_word()) by {
            assert(on_word().len() != off_word().len());
        }
    }
}

/// The speed command for index `s` names speed `s + 1`: `speed1` for the
/// fastest (index 0) up to `speed6` (index 5), each a command of the fans'
/// vocabulary, and `stop` for index 6.
pub proof fn lemma_speed_command_number(s: nat)
    requires
        s <= 6,
    ensures
        s < 6 ==> speed_command_of(s) == seq!['s', 'p', 'e', 'e', 'd', digit_char(s + 1)],
        s < 6 ==> command_id_of(speed_command_of(s)) is Some,
        s == 6 ==> speed_command_of(s) == seq!['s', 't', 'o', 'p'],
        s == 6 ==> command_id_of(speed_command_of(s)) is Some,
{
    reveal_strlit("speed1");
    reveal_strlit("speed2");
    reveal_strlit("speed3");
    reveal_strlit("speed4");
    reveal_strlit("speed5");
    reveal_strlit("speed6");
    reveal_strlit("stop");
    reveal_strlit("reverse");
    reveal_strlit("light");
    let c = speed_command_of(s);
    if s < 6 {
        assert(decimal(s + 1) == seq![digit_char(s + 1)]);
        assert(c =~= seq!['s', 'p', 'e', 'e', 'd', digit_char(s + 1)]);
        assert(c != "reverse"@ && c != "light"@ && c != "stop"@);
        if s == 0 {
            assert(c =~= "speed1"@);
        } else if s == 1 {
            assert(c =~= "speed2"@);
        } else if s == 2 {
            assert(c =~= "speed3"@);
        } else if s == 3 {
            assert(c =~= "speed4"@);
        } else if s == 4 {
            assert(c =~= "speed5"@);
        } else {
            assert(c =~= "speed6"@);
        }
    } else {
        assert(c =~= "stop"@);
        assert(c != "reverse"@ && c != "light"@);
    }
}

/// The state shown for any percentage keeps the direction it is given, is
/// `ON` exactly when its percentage is above zero, shows at most 100 %, and
/// an on state shows within 9 points of the requested percentage (capped at
/// 100).
pub proof fn lemma_state_for_shape(p: u32, direction: Seq<char>)
    ensures
        state_for(p, direction).direction == direction,
        state_for(p, direction).state == on_word() || state_for(p, direction).state == off_word(),
        (state_for(p, direction).state == on_word()) <==> state_for(p, direction).percentage > 0,
        state_for(p, direction).percentage <= 100,
        state_for(p, direction).state == on_word() ==> {
            let want: int = if p > 100 { 100 } else { p as int };
            -9 <= state_for(p, direction).percentage - want <= 9
        },
{
    lemma_snap_range(p);
    assert(on_word() != off_word()) by {
        assert(on_word().len() != off_word().len());
    }
    let s = snap(p);
    if s < 6 {
        let d: nat = if p >= 100 { 0 } else { (100 - p) as nat };
        assert(s == (12 * d + 100) / 200);
        assert(snapped_percent(s) == (200 * (6 - s) + 6) / 12);
        assert(-9 <= ((200 * (6 - s) + 6) / 12) as int - (100 - d) <= 9 && (200 * (6 - s) + 6) / 12
            > 0 && (200 * (6 - s) + 6) / 12 <= 100) by (nonlinear_arith)
            requires
                s == (12 * d + 100) / 200,
                s < 6,
                d <= 100,
        ;
    }
}

/// The speed index is the nearest of the seven steps of the slider: with
/// `d = 100 - min(p, 100)` the distance from full speed, `100 * index` lies
/// within half a step (50) of `6 * d`, halves going to the slower index.
pub proof fn lemma_snap_nearest(p: u32)
    ensures
        ({
            let d: int = 100 - (if p > 100 { 100int } else { p as int });
            &&& 100 * snap(p) - 50 <= 6 * d
            &&& 6 * d < 100 * snap(p) + 50
        }),
{
    let d: nat = if p >= 100 { 0 } else { (100 - p) as nat };
    assert(snap(p) == (12 * d + 100) / 200);
    vstd::arithmetic::div_mod::lemma_fundamental_div_mod((12 * d + 100) as int, 200);
    vstd::arithmetic::div_mod::lemma_mod_bound((12 * d + 100) as int, 200);
}

/// The percentage shown for speed index `s` is the nearest whole percentage
/// to `100 - 100 * s / 6`: `6 * r` lies within 3 of `100 * (6 - s)`.
pub proof fn lemma_snapped_percent_nearest(s: nat)
    requires
        s <= 5,
    ensures
        6 * snapped_percent(s) - 3 <= 100 * (6 - s),
        100 * (6 - s) < 6 * snapped_percent(s) + 3,
{
    let n: nat = (200 * (6 - s) + 6) as nat;
    assert(snapped_percent(s) == n / 12);
    vstd::arithmetic::div_mod::lemma_fundamental_div_mod(n as int, 12);
    vstd::arithmetic::div_mod::lemma_mod_bound(n as int, 12);
}

} // verus!
