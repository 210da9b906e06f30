//! Home Assistant naming: entity ids of a room's fan and light, the rooms
//! they name, and the friendly names shown for them.
use vstd::prelude::*;
use vstd::string::*;
use crate::text::{
    ascii_upper,
    ends_with,
    is_ascii_char,
    starts_with,
    strip_prefix,
    strip_suffix,
    uppercase,
    uppercase_of,
};

verus! {

/// `"fan."`.
pub open spec fn fan_prefix() -> Seq<char> {
    seq!['f', 'a', 'n', '.']
}

/// `"_fan"`.
pub open spec fn fan_suffix() -> Seq<char> {
    seq!['_', 'f', 'a', 'n']
}

/// `"light."`.
pub open spec fn light_prefix() -> Seq<char> {
    seq!['l', 'i', 'g', 'h', 't', '.']
}

/// `"_fan_light"`.
pub open spec fn light_suffix() -> Seq<char> {
    seq!['_', 'f', 'a', 'n', '_', 'l', 'i', 'g', 'h', 't']
}

/// `" Fan"`.
pub open spec fn fan_word() -> Seq<char> {
    seq![' ', 'F', 'a', 'n']
}

/// `" Fan Light"`.
pub open spec fn fan_light_words() -> Seq<char> {
    seq![' ', 'F', 'a', 'n', ' ', 'L', 'i', 'g', 'h', 't']
}

/// The entity id of the fan of `room`: `fan.<room>_fan`.
pub open spec fn fan_entity(room: Seq<char>) -> Seq<char> {
    fan_prefix() + room + fan_suffix()
}

/// The entity id of the light of `room`: `light.<room>_fan_light`.
pub open spec fn light_entity(room: Seq<char>) -> Seq<char> {
    light_prefix() + room + light_suffix()
}

/// The room an entity id names, between `prefix` and `suffix`: `prefix` is
/// taken off the front first, then `suffix` off what is left.
pub open spec fn room_between(e: Seq<char>, prefix: Seq<char>, suffix: Seq<char>) -> Option<
    Seq<char>,
> {
    if starts_with(e, prefix) && ends_with(e.skip(prefix.len() as int), suffix) {
        let rest = e.skip(prefix.len() as int);
        Some(rest.subrange(0, rest.len() - suffix.len()))
    } else {
        None
    }
}

/// The room whose fan the entity id `e` names.
pub open spec fn fan_room(e: Seq<char>) -> Option<Seq<char>> {
    room_between(e, fan_prefix(), fan_suffix())
}

/// The room whose light the entity id `e` names.
pub open spec fn light_room(e: Seq<char>) -> Option<Seq<char>> {
    room_between(e, light_prefix(), light_suffix())
}

/// `s` with the first character of each `_`-separated word uppercased and
/// every `_` turned into a space; `at_start` tells whether `s` begins a word.
pub open spec fn title_cased(s: Seq<char>, at_start: bool) -> Seq<char>
    decreases s.len(),
{
    if s.len() == 0 {
        seq![]
    } else if s[0] == '_' {
        seq![' '] + title_cased(s.skip(1), true)
    } else if at_start {
        uppercase_of(s[0]) + title_cased(s.skip(1), false)
    } else {
        seq![s[0]] + title_cased(s.skip(1), false)
    }
}

/// Every character of `s` is ASCII.
pub open spec fn all_ascii(s: Seq<char>) -> bool {
    forall|i: int| 0 <= i < s.len() ==> is_ascii_char(#[trigger] s[i])
}

/// Title case of an ASCII name, character by character: `_` becomes a space,
/// a letter that starts a word (first, or after `_`) becomes its capital,
/// everything else stays.
pub open spec fn ascii_title(s: Seq<char>) -> Seq<char> {
    Seq::new(
        s.len(),
        |j: int|
            if s[j] == '_' {
                ' '
            } else if j == 0 || s[j - 1] == '_' {
                ascii_upper(s[j])
            } else {
                s[j]
            },
    )
}

/// Friendly name of a room's fan: `<Title Case Room> Fan`.
pub open spec fn fan_friendly(room: Seq<char>) -> Seq<char> {
    title_cased(room, true) + fan_word()
}

/// Friendly name of a room's light: `<Title Case Room> Fan Light`.
pub open spec fn light_friendly(room: Seq<char>) -> Seq<char> {
    title_cased(room, true) + fan_light_words()
}

proof fn lemma_title_step(s: Seq<char>, i: int, at_start: bool)
    requires
        0 <= i < s.len(),
    ensures
        title_cased(s.skip(i), at_start) == if s[i] == '_' {
            seq![' '] + title_cased(s.skip(i + 1), true)
        } else if at_start {
            uppercase_of(s[i]) + title_cased(s.skip(i + 1), false)
        } else {
            seq![s[i]] + title_cased(s.skip(i + 1), false)
        },
{
    assert(s.skip(i).skip(1) =~= s.skip(i + 1));
}

/// `s` split at `_`, each word with its first character uppercased, joined
/// with spaces: `living_room` becomes `Living Room`.
pub fn title_case(s: &str) -> (r: String)
    ensures
        r@ == title_cased(s@, true),
        all_ascii(s@) ==> r@ == ascii_title(s@),
{
    let n = s.unicode_len();
    let mut r = String::new();
    let mut at_start = true;
    let mut i: usize = 0;
    proof {
        assert(s@.skip(0) =~= s@);
        reveal_strlit(" ");
    }
    while i < n
        invariant
            n == s@.len(),
            i <= n,
            " "@ == seq![' '],
            title_cased(s@, true) == r@ + title_cased(s@.skip(i as int), at_start),
            at_start == (i == 0 || s@[i - 1] == '_'),
            all_ascii(s@) ==> r@ == ascii_title(s@).subrange(0, i as int),
        decreases n - i,
    {
        proof {
            lemma_title_step(s@, i as int, at_start);
        }
        let c = s.get_char(i);
        let ghost before = r@;
        if c == '_' {
            r.append(" ");
            at_start = true;
            assert(r@ + title_cased(s@.skip(i + 1), at_start) =~= before + (seq![' ']
                + title_cased(s@.skip(i + 1), true)));
        } else if at_start {
            let u = uppercase(c);
            r.append(u.as_str());
            at_start = false;
            assert(r@ + title_cased(s@.skip(i + 1), at_start) =~= before + (uppercase_of(c)
                + title_cased(s@.skip(i + 1), false)));
        } else {
            let one = s.substring_char(i, i + 1);
            assert(one@ =~= seq![c]);
            r.append(one);
            assert(r@ + title_cased(s@.skip(i + 1), at_start) =~= before + (seq![c]
                + title_cased(s@.skip(i + 1), false)));
        }
        assert(all_ascii(s@) ==> r@ =~= ascii_title(s@).subrange(0, i + 1)) by {
            if all_ascii(s@) {
                assert(is_ascii_char(s@[i as int]));
                assert(ascii_title(s@).subrange(0, i + 1) =~= ascii_title(s@).subrange(0, i as int)
                    .push(ascii_title(s@)[i as int]));
            }
        }
        i = i + 1;
    }
    assert(s@.skip(n as int) =~= Seq::<char>::empty());
    assert(r@ + Seq::<char>::empty() =~= r@);
    assert(all_ascii(s@) ==> r@ =~= ascii_title(s@)) by {
        if all_ascii(s@) {
            assert(ascii_title(s@).subrange(0, n as int) =~= ascii_title(s@));
        }
    }
    r
}

proof fn lemma_ascii_upper(c: char)
    requires
        is_ascii_char(c),
    ensures
        is_ascii_char(ascii_upper(c)),
        ascii_upper(c) != '_' <==> c != '_',
        ascii_upper(c) == ' ' <==> c == ' ',
        ascii_upper(ascii_upper(c)) == ascii_upper(c),
{
}

/// Title-casing an ASCII room name keeps its length, turns `_` into spaces
/// and capitalises the first letter of each word; the result has no `_`, is
/// ASCII, and title-casing it again changes nothing.
pub proof fn lemma_ascii_title(s: Seq<char>)
    requires
        all_ascii(s),
    ensures
        ascii_title(s).len() == s.len(),
        all_ascii(ascii_title(s)),
        forall|j: int| 0 <= j < s.len() ==> #[trigger] ascii_title(s)[j] != '_',
        ascii_title(ascii_title(s)) == ascii_title(s),
{
    let t = ascii_title(s);
    assert forall|j: int| 0 <= j < s.len() implies is_ascii_char(#[trigger] t[j]) && t[j] != '_'
        by {
        lemma_ascii_upper(s[j]);
    }
    assert forall|j: int| 0 <= j < s.len() implies #[trigger] ascii_title(t)[j] == t[j] by {
        lemma_ascii_upper(s[j]);
        if j > 0 {
            assert(t[j - 1] != '_');
        }
    }
    assert(ascii_title(t) =~= t);
}


/// The entity id of the fan of `room`: `fan.<room>_fan`.
pub fn fan_entity_id(room: &str) -> (r: String)
    ensures
        r@ == fan_entity(room@),
{
    proof {
        reveal_strlit("fan.");
        reveal_strlit("_fan");
    }
    let mut r = String::from_str("fan.");
    r.append(room);
    r.append("_fan");
    r
}

/// The entity id of the light of `room`: `light.<room>_fan_light`.
pub fn light_entity_id(room: &str) -> (r: String)
    ensures
        r@ == light_entity(room@),
{
    proof {
        reveal_strlit("light.");
        reveal_strlit("_fan_light");
    }
    let mut r = String::from_str("light.");
    r.append(room);
    r.append("_fan_light");
    r
}

fn room_between_exec<'a>(e: &'a str, prefix: &str, suffix: &str) -> (r: Option<&'a str>)
    ensures
        match r {
            Some(t) => room_between(e@, prefix@, suffix@) == Some(t@),
            None => room_between(e@, prefix@, suffix@) is None,
        },
{
    match strip_prefix(e, prefix) {
        Some(rest) => match strip_suffix(rest, suffix) {
            Some(t) => Some(t),
            None => None,
        },
        None => None,
    }
}

/// The room whose fan `entity_id` names (`fan.<room>_fan`), if it names one.
pub fn room_of_fan_entity<'a>(entity_id: &'a str) -> (r: Option<&'a str>)
    ensures
        match r {
            Some(t) => fan_room(entity_id@) == Some(t@),
            None => fan_room(entity_id@) is None,
        },
{
    proof {
        reveal_strlit("fan.");
        reveal_strlit("_fan");
        assert("fan."@ =~= fan_prefix());
        assert("_fan"@ =~= fan_suffix());
    }
    room_between_exec(entity_id, "fan.", "_fan")
}

/// The room whose light `entity_id` names (`light.<room>_fan_light`), if it
/// names one.
pub fn room_of_light_entity<'a>(entity_id: &'a str) -> (r: Option<&'a str>)
    ensures
        match r {
            Some(t) => light_room(entity_id@) == Some(t@),
            None => light_room(entity_id@) is None,
        },
{
    proof {
        reveal_strlit("light.");
        reveal_strlit("_fan_light");
        assert("light."@ =~= light_prefix());
        assert("_fan_light"@ =~= light_suffix());
    }
    room_between_exec(entity_id, "light.", "_fan_light")
}

/// Friendly name of the fan of `room`, as Home Assistant shows it.
pub fn fan_friendly_name(room: &str) -> (r: String)
    ensures
        r@ == fan_friendly(room@),
        all_ascii(room@) ==> r@ == ascii_title(room@) + fan_word(),
{
    proof {
        reveal_strlit(" Fan");
    }
    let mut r = title_case(room);
    r.append(" Fan");
    r
}

/// Friendly name of the light of `room`, as Home Assistant shows it.
pub fn light_friendly_name(room: &str) -> (r: String)
    ensures
        r@ == light_friendly(room@),
        all_ascii(room@) ==> r@ == ascii_title(room@) + fan_light_words(),
{
    proof {
        reveal_strlit(" Fan Light");
    }
    let mut r = title_case(room);
    r.append(" Fan Light");
    r
}

proof fn lemma_room_between_roundtrip(prefix: Seq<char>, room: Seq<char>, suffix: Seq<char>)
    ensures
        room_between(prefix + room + suffix, prefix, suffix) == Some(room),
{
    let e = prefix + room + suffix;
    assert(e.subrange(0, prefix.len() as int) =~= prefix);
    let rest = e.skip(prefix.len() as int);
    assert(rest =~= room + suffix);
    assert(rest.subrange(rest.len() - suffix.len(), rest.len() as int) =~= suffix);
    assert(rest.subrange(0, rest.len() - suffix.len()) =~= room);
}

proof fn lemma_room_between_inverse(e: Seq<char>, prefix: Seq<char>, suffix: Seq<char>)
    requires
        room_between(e, prefix, suffix) is Some,
    ensures
        prefix + room_between(e, prefix, suffix)->0 + suffix == e,
{
    let rest = e.skip(prefix.len() as int);
    let room = rest.subrange(0, rest.len() - suffix.len());
    assert(rest =~= room + rest.subrange(rest.len() - suffix.len(), rest.len() as int));
    assert(e =~= e.subrange(0, prefix.len() as int) + rest);
    assert(prefix + room + suffix =~= e);
}

/// The room read back from the entity id of a room's fan or light is that
/// room, whatever characters the room name holds.
pub proof fn lemma_entity_roundtrip(room: Seq<char>)
    ensures
        fan_room(fan_entity(room)) == Some(room),
        light_room(light_entity(room)) == Some(room),
{
    lemma_room_between_roundtrip(fan_prefix(), room, fan_suffix());
    lemma_room_between_roundtrip(light_prefix(), room, light_suffix());
}

/// An entity id that names a room's fan or light is the entity id built
/// for that room.
pub proof fn lemma_entity_inverse(e: Seq<char>)
    ensures
        fan_room(e) matches Some(room) ==> fan_entity(room) == e,
        light_room(e) matches Some(room) ==> light_entity(room) == e,
{
    if fan_room(e) is Some {
        lemma_room_between_inverse(e, fan_prefix(), fan_suffix());
    }
    if light_room(e) is Some {
        lemma_room_between_inverse(e, light_prefix(), light_suffix());
    }
}

} // verus!
