//! Per-room state kept by the daemon: fan and light state, the table that
//! maps a room name to its entry, and the state shared by the handlers.
use vstd::prelude::*;
use vstd::string::*;

verus! {

/// `"ON"`.
pub open spec fn on_word() -> Seq<char> {
    seq!['O', 'N']
}

/// `"OFF"`.
pub open spec fn off_word() -> Seq<char> {
    seq!['O', 'F', 'F']
}

/// `"forward"`.
pub open spec fn forward_word() -> Seq<char> {
    seq!['f', 'o', 'r', 'w', 'a', 'r', 'd']
}

/// `"reverse"`.
pub open spec fn reverse_word() -> Seq<char> {
    seq!['r', 'e', 'v', 'e', 'r', 's', 'e']
}

/// A new `"ON"`.
pub fn on_text() -> (r: String)
    ensures
        r@ == on_word(),
{
    proof {
        reveal_strlit("ON");
    }
    String::from_str("ON")
}

/// A new `"OFF"`.
pub fn off_text() -> (r: String)
    ensures
        r@ == off_word(),
{
    proof {
        reveal_strlit("OFF");
    }
    String::from_str("OFF")
}

/// A new `"forward"`.
pub fn forward_text() -> (r: String)
    ensures
        r@ == forward_word(),
{
    proof {
        reveal_strlit("forward");
    }
    String::from_str("forward")
}

/// The abstract value of a [`FanState`].
pub struct FanStateView {
    pub state: Seq<char>,
    pub percentage: u32,
    pub direction: Seq<char>,
}

/// The state of one ceiling fan as shown to Home Assistant: `"ON"` or
/// `"OFF"`, the speed as a percentage, and `"forward"` or `"reverse"`.
pub struct FanState {
    pub state: String,
    pub percentage: u32,
    pub direction: String,
}

impl View for FanState {
    type V = FanStateView;

    open spec fn view(&self) -> FanStateView {
        FanStateView { state: self.state@, percentage: self.percentage, direction: self.direction@ }
    }
}

impl Clone for FanState {
    fn clone(&self) -> (r: Self)
        ensures
            r == *self,
    {
        FanState {
            state: self.state.clone(),
            percentage: self.percentage,
            direction: self.direction.clone(),
        }
    }
}

/// The state of a fan that was never set: off, at 0 %, turning forward.
pub open spec fn default_fan_view() -> FanStateView {
    FanStateView { state: off_word(), percentage: 0, direction: forward_word() }
}

impl Default for FanState {
    fn default() -> (r: Self)
        ensures
            r@ == default_fan_view(),
    {
        FanState { state: off_text(), percentage: 0, direction: forward_text() }
    }
}

/// The direction a fan state is restored with when none was saved.
pub fn default_direction() -> (r: String)
    ensures
        r@ == forward_word(),
{
    forward_text()
}

/// The abstract value of a [`LightState`].
pub struct LightStateView {
    pub state: Seq<char>,
}

/// The state of one fan light: `"ON"` or `"OFF"`.
pub struct LightState {
    pub state: String,
}

impl View for LightState {
    type V = LightStateView;

    open spec fn view(&self) -> LightStateView {
        LightStateView { state: self.state@ }
    }
}

impl Clone for LightState {
    fn clone(&self) -> (r: Self)
        ensures
            r == *self,
    {
        LightState { state: self.state.clone() }
    }
}

impl Default for LightState {
    fn default() -> (r: Self)
        ensures
            r@.state == off_word(),
    {
        LightState { state: off_text() }
    }
}

/// A table from room names to values, each room at most once.
pub struct RoomTable<V> {
    entries: Vec<(String, V)>,
}

/// Some position of `entries` whose room is `k`.
pub open spec fn position_of<V>(entries: Seq<(String, V)>, k: Seq<char>) -> int {
    choose|i: int| 0 <= i < entries.len() && entries[i].0@ == k
}

/// The map a list of distinct-keyed entries stands for.
pub open spec fn entries_map<V>(entries: Seq<(String, V)>) -> Map<Seq<char>, V> {
    Map::new(
        |k: Seq<char>| exists|i: int| 0 <= i < entries.len() && entries[i].0@ == k,
        |k: Seq<char>| entries[position_of(entries, k)].1,
    )
}

/// No room occurs twice among `entries`.
pub open spec fn distinct_rooms<V>(entries: Seq<(String, V)>) -> bool {
    forall|i: int, j: int|
        0 <= i < entries.len() && 0 <= j < entries.len() && i != j ==> entries[i].0@
            != entries[j].0@
}

proof fn lemma_position<V>(entries: Seq<(String, V)>, k: Seq<char>, i: int)
    requires
        distinct_rooms(entries),
        0 <= i < entries.len(),
        entries[i].0@ == k,
    ensures
        position_of(entries, k) == i,
        entries_map(entries).contains_key(k),
        entries_map(entries)[k] == entries[i].1,
{
    let p = position_of(entries, k);
    assert(0 <= p < entries.len() && entries[p].0@ == k);
}

impl<V> View for RoomTable<V> {
    type V = Map<Seq<char>, V>;

    closed spec fn view(&self) -> Map<Seq<char>, V> {
        entries_map(self.entries@)
    }
}

impl<V> RoomTable<V> {
    #[verifier::type_invariant]
    closed spec fn rooms_distinct(self) -> bool {
        distinct_rooms(self.entries@)
    }

    /// The entries in the order they were first inserted.
    pub closed spec fn pairs(&self) -> Seq<(String, V)> {
        self.entries@
    }

    /// An empty table.
    pub fn new() -> (r: Self)
        ensures
            r@ == Map::<Seq<char>, V>::empty(),
            r.pairs().len() == 0,
    {
        let r = RoomTable { entries: Vec::new() };
        assert(r@ =~= Map::<Seq<char>, V>::empty());
        r
    }

    /// Number of rooms in the table.
    pub fn len(&self) -> (r: usize)
        ensures
            r == self.pairs().len(),
            self@.dom().finite(),
            r == self@.dom().len(),
    {
        proof {
            use_type_invariant(self);
            lemma_entries_map_dom(self.entries@);
        }
        self.entries.len()
    }

    /// The room and value at position `i` of [`Self::pairs`].
    pub fn entry(&self, i: usize) -> (r: (&String, &V))
        requires
            i < self.pairs().len(),
        ensures
            *r.0 == self.pairs()[i as int].0,
            *r.1 == self.pairs()[i as int].1,
            self@.contains_key(r.0@),
            self@[r.0@] == *r.1,
    {
        proof {
            use_type_invariant(self);
            lemma_position(self.entries@, self.entries@[i as int].0@, i as int);
        }
        let e = &self.entries[i];
        (&e.0, &e.1)
    }

    fn find(&self, room: &str) -> (r: Option<usize>)
        ensures
            match r {
                Some(i) => i < self.entries@.len() && self.entries@[i as int].0@ == room@,
                None => !self@.contains_key(room@),
            },
    {
        let key = String::from_str(room);
        let mut i: usize = 0;
        while i < self.entries.len()
            invariant
                key@ == room@,
                i <= self.entries@.len(),
                forall|j: int| 0 <= j < i ==> self.entries@[j].0@ != room@,
            decreases self.entries@.len() - i,
        {
            if self.entries[i].0 == key {
                return Some(i);
            }
            i = i + 1;
        }
        None
    }

    /// The value for `room`, if the table has one.
    pub fn get(&self, room: &str) -> (r: Option<&V>)
        ensures
            match r {
                Some(v) => self@.contains_key(room@) && *v == self@[room@],
                None => !self@.contains_key(room@),
            },
    {
        proof {
            use_type_invariant(self);
        }
        match self.find(room) {
            Some(i) => {
                proof {
                    lemma_position(self.entries@, room@, i as int);
                }
                Some(&self.entries[i].1)
            },
            None => None,
        }
    }

    /// True when the table has a value for `room`.
    pub fn contains_key(&self, room: &str) -> (r: bool)
        ensures
            r == self@.contains_key(room@),
    {
        proof {
            use_type_invariant(self);
        }
        match self.find(room) {
            Some(i) => {
                proof {
                    lemma_position(self.entries@, room@, i as int);
                }
                true
            },
            None => false,
        }
    }

    /// Set the value for `room`, replacing any earlier one.
    pub fn insert(&mut self, room: String, value: V)
        ensures
            final(self)@ == old(self)@.insert(room@, value),
    {
        proof {
            use_type_invariant(&*self);
        }
        let ghost old_entries = self.entries@;
        let ghost k = room@;
        match self.find(room.as_str()) {
            Some(i) => {
                let mut entries = Vec::new();
                std::mem::swap(&mut entries, &mut self.entries);
                entries.set(i, (room, value));
                let ghost new_entries = entries@;
                assert(new_entries == old_entries.update(i as int, (new_entries[i as int].0, value)));
                assert(distinct_rooms(new_entries));
                assert(entries_map(new_entries) =~= entries_map(old_entries).insert(k, value)) by {
                    assert forall|q: Seq<char>| #[trigger]
                        entries_map(new_entries).contains_key(q) == entries_map(
                            old_entries,
                        ).insert(k, value).contains_key(q) by {
                        if entries_map(new_entries).contains_key(q) {
                            let p = choose|p: int|
                                0 <= p < new_entries.len() && new_entries[p].0@ == q;
                            if p != i {
                                assert(old_entries[p].0@ == q);
                            }
                        }
                        if q != k && entries_map(old_entries).contains_key(q) {
                            let p = choose|p: int|
                                0 <= p < old_entries.len() && old_entries[p].0@ == q;
                            assert(new_entries[p].0@ == q);
                        }
                    }
                    assert forall|q: Seq<char>| #[trigger]
                        entries_map(new_entries).contains_key(q) implies entries_map(
                        new_entries,
                    )[q] == entries_map(old_entries).insert(k, value)[q] by {
                        let p = choose|p: int|
                            0 <= p < new_entries.len() && new_entries[p].0@ == q;
                        lemma_position(new_entries, q, p);
                        if p != i {
                            lemma_position(old_entries, q, p);
                        }
                    }
                }
                self.entries = entries;
            },
            None => {
                let mut entries = Vec::new();
                std::mem::swap(&mut entries, &mut self.entries);
                entries.push((room, value));
                let ghost new_entries = entries@;
                let ghost n = old_entries.len() as int;
                assert(distinct_rooms(new_entries)) by {
                    assert forall|a: int, b: int|
                        0 <= a < new_entries.len() && 0 <= b < new_entries.len() && a != b
                            implies new_entries[a].0@ != new_entries[b].0@ by {
                        if a == n {
                            assert(new_entries[b] == old_entries[b]);
                        } else if b == n {
                            assert(new_entries[a] == old_entries[a]);
                        } else {
                            assert(new_entries[a] == old_entries[a]);
                            assert(new_entries[b] == old_entries[b]);
                        }
                    }
                }
                assert(entries_map(new_entries) =~= entries_map(old_entries).insert(k, value)) by {
                    assert forall|q: Seq<char>| #[trigger]
                        entries_map(new_entries).contains_key(q) == entries_map(
                            old_entries,
                        ).insert(k, value).contains_key(q) by {
                        if entries_map(new_entries).contains_key(q) {
                            let p = choose|p: int|
                                0 <= p < new_entries.len() && new_entries[p].0@ == q;
                            if p != n {
                                assert(old_entries[p] == new_entries[p]);
                            }
                        }
                        if q == k {
                            assert(new_entries[n].0@ == q);
                        } else if entries_map(old_entries).contains_key(q) {
                            let p = choose|p: int|
                                0 <= p < old_entries.len() && old_entries[p].0@ == q;
                            assert(new_entries[p] == old_entries[p]);
                        }
                    }
                    assert forall|q: Seq<char>| #[trigger]
                        entries_map(new_entries).contains_key(q) implies entries_map(
                        new_entries,
                    )[q] == entries_map(old_entries).insert(k, value)[q] by {
                        let p = choose|p: int|
                            0 <= p < new_entries.len() && new_entries[p].0@ == q;
                        lemma_position(new_entries, q, p);
                        if p != n {
                            assert(new_entries[p] == old_entries[p]);
                            lemma_position(old_entries, q, p);
                        }
                    }
                }
                self.entries = entries;
            },
        }
    }
}

proof fn lemma_entries_map_dom<V>(entries: Seq<(String, V)>)
    requires
        distinct_rooms(entries),
    ensures
        entries_map(entries).dom().finite(),
        entries_map(entries).dom().len() == entries.len(),
    decreases entries.len(),
{
    let d = entries_map(entries).dom();
    if entries.len() == 0 {
        assert(d =~= Set::<Seq<char>>::empty());
    } else {
        let init = entries.drop_last();
        assert(distinct_rooms(init)) by {
            assert forall|a: int, b: int|
                0 <= a < init.len() && 0 <= b < init.len() && a != b implies init[a].0@
                != init[b].0@ by {
                assert(init[a] == entries[a] && init[b] == entries[b]);
            }
        }
        lemma_entries_map_dom(init);
        let last = entries.last().0@;
        assert(!entries_map(init).dom().contains(last)) by {
            if entries_map(init).dom().contains(last) {
                let p = choose|p: int| 0 <= p < init.len() && init[p].0@ == last;
                assert(entries[p].0@ == last);
            }
        }
        assert(d =~= entries_map(init).dom().insert(last)) by {
            assert forall|q: Seq<char>| #[trigger] d.contains(q) == entries_map(init).dom().insert(
                last,
            ).contains(q) by {
                if d.contains(q) {
                    let p = choose|p: int| 0 <= p < entries.len() && entries[p].0@ == q;
                    if p < init.len() {
                        assert(init[p] == entries[p]);
                    }
                }
                if entries_map(init).dom().contains(q) {
                    let p = choose|p: int| 0 <= p < init.len() && init[p].0@ == q;
                    assert(init[p] == entries[p]);
                }
                if q == last {
                    assert(entries[entries.len() - 1].0@ == q);
                }
            }
        }
    }
}

} // verus!
