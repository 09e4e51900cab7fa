//! Replication slots: the primary has one for each other member, and keeps that of an absent
//! member for a while.

use vstd::prelude::*;

use crate::clock::{instant_now, nanos_since};
use crate::letters;
use crate::strmap::StringMap;
use crate::text;
use crate::text::{chars_of, contains_str, str_eq, string_of};

verus! {

/// The character of a slot's name for a character of a member's name in lower case.
pub open spec fn slot_char(c: char) -> char {
    if ('a' <= c <= 'z') || ('0' <= c <= '9') || c == '_' {
        c
    } else {
        '_'
    }
}

/// How long the name of a slot may be.
pub const MAX_SLOT_NAME: usize = 63;

/// The name of a slot for a member's name in lower case.
pub open spec fn slot_of(lower: Seq<char>) -> Seq<char> {
    let all = lower.map_values(|c: char| slot_char(c));
    if all.len() > MAX_SLOT_NAME {
        all.take(MAX_SLOT_NAME as int)
    } else {
        all
    }
}

/// The name of the slot of a member.
pub open spec fn slot_name(member: Seq<char>) -> Seq<char> {
    slot_of(letters::lowercase(member))
}

/// The name of a slot for a member's name in lower case.
pub fn slot_name_from_lower(lower: &str) -> (r: String)
    ensures
        r@ == slot_of(lower@),
{
    let v = chars_of(lower);
    let ghost all = lower@.map_values(|c: char| slot_char(c));
    let n: usize = if v.len() > MAX_SLOT_NAME {
        MAX_SLOT_NAME
    } else {
        v.len()
    };
    let mut out: Vec<char> = Vec::new();
    let mut i: usize = 0;
    while i < n
        invariant
            i <= n <= v@.len(),
            v@ == lower@,
            all == lower@.map_values(|c: char| slot_char(c)),
            out@ == all.take(i as int),
        decreases n - i,
    {
        let c = v[i];
        let d = if ('a' <= c && c <= 'z') || ('0' <= c && c <= '9') || c == '_' {
            c
        } else {
            '_'
        };
        out.push(d);
        assert(all.take(i + 1) =~= all.take(i as int).push(d));
        i = i + 1;
    }
    assert(all.take(all.len() as int) =~= all);
    assert(out@.subrange(0, n as int) =~= out@);
    string_of(&out, 0, n)
}

/// `slot` matches a pattern: a star at its end stands for any end, else one at its start for any
/// start.
pub open spec fn matches_pattern(slot: Seq<char>, pattern: Seq<char>) -> bool {
    if pattern.len() > 0 && pattern.last() == '*' {
        pattern.drop_last().is_prefix_of(slot)
    } else if pattern.len() > 0 && pattern[0] == '*' {
        pattern.skip(1).is_suffix_of(slot)
    } else {
        slot == pattern
    }
}

/// `slot` matches one of the patterns.
pub open spec fn ignored(slot: Seq<char>, patterns: Seq<Seq<char>>) -> bool {
    exists|i: int| 0 <= i < patterns.len() && matches_pattern(slot, #[trigger] patterns[i])
}

fn find_match(slot: &str, pattern: &str) -> (r: bool)
    ensures
        r == matches_pattern(slot@, pattern@),
{
    let p = chars_of(pattern);
    let s = chars_of(slot);
    let n: usize = p.len();
    if n > 0 && p[n - 1] == '*' {
        let head = string_of(&p, 0, n - 1);
        assert(head@ =~= pattern@.drop_last());
        text_begins(&s, &chars_of(head.as_str()))
    } else if n > 0 && p[0] == '*' {
        let tail = string_of(&p, 1, n);
        assert(tail@ =~= pattern@.skip(1));
        text_ends(&s, &chars_of(tail.as_str()))
    } else {
        str_eq(slot, pattern)
    }
}

fn text_begins(s: &Vec<char>, p: &Vec<char>) -> (r: bool)
    ensures
        r == p@.is_prefix_of(s@),
{
    if p.len() > s.len() {
        return false;
    }
    let mut i: usize = 0;
    while i < p.len()
        invariant
            i <= p@.len() <= s@.len(),
            forall|j: int| 0 <= j < i ==> p@[j] == #[trigger] s@[j],
        decreases p@.len() - i,
    {
        if s[i] != p[i] {
            assert(s@.subrange(0, p@.len() as int)[i as int] == s@[i as int]);
            return false;
        }
        i = i + 1;
    }
    assert(s@.subrange(0, p@.len() as int) =~= p@);
    true
}

fn text_ends(s: &Vec<char>, p: &Vec<char>) -> (r: bool)
    ensures
        r == p@.is_suffix_of(s@),
{
    if p.len() > s.len() {
        return false;
    }
    let n: usize = s.len();
    let d: usize = n - p.len();
    let mut i: usize = 0;
    let ghost tail = s@.subrange(d as int, s@.len() as int);
    while i < p.len()
        invariant
            i <= p@.len(),
            n == s@.len(),
            d + p@.len() == n,
            tail == s@.subrange(d as int, s@.len() as int),
            forall|j: int| 0 <= j < i ==> p@[j] == #[trigger] tail[j],
        decreases p@.len() - i,
    {
        assert(tail[i as int] == s@[d + i]);
        if s[d + i] != p[i] {
            return false;
        }
        i = i + 1;
    }
    assert(tail =~= p@);
    true
}

/// One of the first `n` members is another one than `me` and has this slot.
pub open spec fn has_slot(
    members: Seq<Seq<char>>,
    me: Seq<char>,
    n: int,
    slot: Seq<char>,
) -> bool {
    exists|i: int| 0 <= i < n && (#[trigger] members[i]) != me && slot_name(members[i]) == slot
}

/// The slots of the other members.
pub open spec fn desired(members: Seq<Seq<char>>, me: Seq<char>) -> Set<Seq<char>> {
    Set::new(|slot: Seq<char>| has_slot(members, me, members.len() as int, slot))
}

/// Which slots are kept for absent members and since when, and which are dropped.
pub struct SlotPlan {
    pub retained: Map<Seq<char>, u128>,
    pub dropped: Seq<Seq<char>>,
}

/// An absent member's slot, seen at `now`, has been kept for long enough.
pub open spec fn overdue(retained: Map<Seq<char>, u128>, slot: Seq<char>, now: u128, ttl: u64) -> bool {
    let since = if retained.dom().contains(slot) {
        retained[slot]
    } else {
        now
    };
    (if now >= since {
        now - since
    } else {
        0
    }) >= ttl * 1_000_000_000
}

/// What becomes of one slot: it is kept while its member is there or it is ignored; otherwise it
/// is kept until it is overdue.
pub open spec fn settle(
    p: SlotPlan,
    slot: Seq<char>,
    wanted: Set<Seq<char>>,
    patterns: Seq<Seq<char>>,
    now: u128,
    ttl: u64,
) -> SlotPlan {
    if wanted.contains(slot) {
        SlotPlan { retained: p.retained.remove(slot), ..p }
    } else if ignored(slot, patterns) {
        p
    } else if overdue(p.retained, slot, now, ttl) {
        SlotPlan { retained: p.retained.remove(slot), dropped: p.dropped.push(slot) }
    } else if p.retained.dom().contains(slot) {
        p
    } else {
        SlotPlan { retained: p.retained.insert(slot, now), ..p }
    }
}

/// What becomes of the slots, one after the other.
pub open spec fn settle_all(
    retained: Map<Seq<char>, u128>,
    slots: Seq<Seq<char>>,
    wanted: Set<Seq<char>>,
    patterns: Seq<Seq<char>>,
    now: u128,
    ttl: u64,
) -> SlotPlan
    decreases slots.len(),
{
    if slots.len() == 0 {
        SlotPlan { retained, dropped: Seq::empty() }
    } else {
        settle(
            settle_all(retained, slots.drop_last(), wanted, patterns, now, ttl),
            slots.last(),
            wanted,
            patterns,
            now,
            ttl,
        )
    }
}

/// The slots of the primary.
#[derive(Debug)]
pub struct SlotManager {
    /// Slots of absent members, with the time at which each was first seen without its member.
    pub retained: StringMap<u128>,
    /// For how many seconds the slot of an absent member is kept.
    pub retention_ttl: u64,
    /// Slots that are left alone.
    pub ignore_patterns: Vec<String>,
    /// Times are counted from here, in nanoseconds.
    pub epoch: std::time::Instant,
}

/// `r` is what a manager answers at `now`: the slots to create and those to drop.
pub open spec fn slot_diff(
    before: SlotManager,
    after: SlotManager,
    members: Seq<Seq<char>>,
    slots: Seq<Seq<char>>,
    me: Seq<char>,
    now: u128,
    r: (Vec<String>, Vec<String>),
) -> bool {
    let wanted = desired(members, me);
    let plan = settle_all(
        before.retained@,
        slots,
        wanted,
        text::strs(before.ignore_patterns@),
        now,
        before.retention_ttl,
    );
    let created = text::strs((r.0)@);
    &&& created.no_duplicates()
    &&& created.to_set() == wanted.difference(slots.to_set())
    &&& text::strs((r.1)@) == plan.dropped
    &&& after.retained@ == plan.retained
}

impl SlotManager {
    /// A manager that has seen no slot yet.
    pub fn new(retention_ttl_secs: u64) -> (r: Self)
        ensures
            r.retained@ == Map::<Seq<char>, u128>::empty(),
            r.retention_ttl == retention_ttl_secs,
            r.ignore_patterns@.len() == 0,
    {
        SlotManager {
            retained: StringMap::new(),
            retention_ttl: retention_ttl_secs,
            ignore_patterns: Vec::new(),
            epoch: instant_now(),
        }
    }

    /// Slots that match these patterns are left alone.
    pub fn set_ignore_patterns(&mut self, patterns: Vec<String>)
        ensures
            *final(self) == (SlotManager { ignore_patterns: patterns, ..*old(self) }),
    {
        self.ignore_patterns = patterns;
    }

    /// The name of the slot of a member: in lower case, with an underscore for every other
    /// character than a letter, a digit or an underscore, and cut to the length of a name.
    pub fn slot_name_from_member(name: &str) -> (r: String)
        ensures
            r@ == slot_name(name@),
            letters::is_ascii_text(name@) ==> r@ == slot_of(letters::ascii_lowered(name@)),
    {
        let lower = letters::lowered(name);
        slot_name_from_lower(lower.as_str())
    }

    fn is_ignored(&self, slot: &str) -> (r: bool)
        ensures
            r == ignored(slot@, text::strs(self.ignore_patterns@)),
    {
        let ghost patterns = text::strs(self.ignore_patterns@);
        let mut i: usize = 0;
        while i < self.ignore_patterns.len()
            invariant
                i <= self.ignore_patterns@.len(),
                patterns == text::strs(self.ignore_patterns@),
                forall|j: int| 0 <= j < i ==> !matches_pattern(slot@, #[trigger] patterns[j]),
            decreases self.ignore_patterns@.len() - i,
        {
            assert(patterns[i as int] == self.ignore_patterns@[i as int]@);
            if find_match(slot, self.ignore_patterns[i].as_str()) {
                return true;
            }
            i = i + 1;
        }
        false
    }

    fn wanted(current_members: &[String], my_name: &str) -> (r: Vec<String>)
        ensures
            text::strs(r@).to_set() == desired(text::strs(current_members@), my_name@),
            text::strs(r@).no_duplicates(),
    {
        let ghost members = text::strs(current_members@);
        let mut out: Vec<String> = Vec::new();
        let mut i: usize = 0;
        while i < current_members.len()
            invariant
                i <= current_members@.len(),
                members == text::strs(current_members@),
                text::strs(out@).no_duplicates(),
                forall|j: int|
                    0 <= j < i && (#[trigger] members[j]) != my_name@ ==> text::strs(
                        out@,
                    ).contains(slot_name(members[j])),
                forall|k: int|
                    0 <= k < out@.len() ==> has_slot(
                        members,
                        my_name@,
                        i as int,
                        (#[trigger] out@[k])@,
                    ),
            decreases current_members@.len() - i,
        {
            assert(members[i as int] == current_members@[i as int]@);
            proof {
                assert forall|k: int| 0 <= k < out@.len() implies has_slot(
                    members,
                    my_name@,
                    i + 1,
                    (#[trigger] out@[k])@,
                ) by {
                    assert(has_slot(members, my_name@, i as int, out@[k]@));
                }
            }
            if !str_eq(current_members[i].as_str(), my_name) {
                let slot = SlotManager::slot_name_from_member(current_members[i].as_str());
                let ghost before = out@;
                assert(has_slot(members, my_name@, i + 1, slot@));
                if !contains_str(out.as_slice(), slot.as_str()) {
                    out.push(slot);
                    proof {
                        let s = text::strs(before);
                        assert(text::strs(out@) =~= s.push(slot@));
                        assert(!s.contains(slot@));
                        assert forall|x: Seq<char>| s.contains(x) implies text::strs(
                            out@,
                        ).contains(x) by {
                            let k = choose|k: int| 0 <= k < s.len() && s[k] == x;
                            assert(text::strs(out@)[k] == x);
                        }
                        assert(text::strs(out@)[s.len() as int] == slot@);
                    }
                }
            }
            i = i + 1;
        }
        proof {
            let s = text::strs(out@);
            let want = desired(members, my_name@);
            assert forall|x: Seq<char>| s.to_set().contains(x) <==> want.contains(x) by {
                if s.contains(x) {
                    let k = choose|k: int| 0 <= k < s.len() && s[k] == x;
                    assert(out@[k]@ == x);
                }
            }
            assert(s.to_set() =~= want);
        }
        out
    }

    /// Which slots to create and which to drop, at `now` nanoseconds after the start.
    pub fn compute_slot_diff_at(
        &mut self,
        current_members: &[String],
        existing_slots: &[String],
        my_name: &str,
        now: u128,
    ) -> (r: (Vec<String>, Vec<String>))
        ensures
            slot_diff(
                *old(self),
                *final(self),
                text::strs(current_members@),
                text::strs(existing_slots@),
                my_name@,
                now,
                r,
            ),
            final(self).retention_ttl == old(self).retention_ttl,
            final(self).ignore_patterns == old(self).ignore_patterns,
            final(self).epoch == old(self).epoch,
    {
        let wanted = SlotManager::wanted(current_members, my_name);
        let ghost want = desired(text::strs(current_members@), my_name@);
        let ghost slots = text::strs(existing_slots@);
        let to_create = missing(&wanted, existing_slots);
        let mut to_drop: Vec<String> = Vec::new();
        let ttl: u128 = self.retention_ttl as u128 * 1_000_000_000;
        let ghost patterns = text::strs(self.ignore_patterns@);
        let ghost before = self.retained@;
        let mut i: usize = 0;
        assert(slots.take(0) =~= Seq::empty());
        assert(text::strs(to_drop@) =~= Seq::empty());
        while i < existing_slots.len()
            invariant
                i <= existing_slots@.len(),
                slots == text::strs(existing_slots@),
                text::strs(wanted@).to_set() == want,
                patterns == text::strs(self.ignore_patterns@),
                ttl == self.retention_ttl * 1_000_000_000,
                self.retention_ttl == old(self).retention_ttl,
                self.ignore_patterns == old(self).ignore_patterns,
                self.epoch == old(self).epoch,
                ({
                    let p = settle_all(
                        before,
                        slots.take(i as int),
                        want,
                        patterns,
                        now,
                        self.retention_ttl,
                    );
                    p.retained == self.retained@ && p.dropped == text::strs(to_drop@)
                }),
            decreases existing_slots@.len() - i,
        {
            let slot = existing_slots[i].as_str();
            proof {
                assert(slots.take(i + 1).drop_last() =~= slots.take(i as int));
                assert(slots.take(i + 1).last() == slot@);
                assert(want.contains(slot@) <==> text::strs(wanted@).contains(slot@));
            }
            if contains_str(wanted.as_slice(), slot) {
                self.retained.remove(slot);
            } else if !self.is_ignored(slot) {
                let since: u128 = match self.retained.get(slot) {
                    Some(t) => *t,
                    None => now,
                };
                let age: u128 = if now >= since {
                    now - since
                } else {
                    0
                };
                if age >= ttl {
                    let ghost dropped = to_drop@;
                    to_drop.push(existing_slots[i].clone());
                    assert(text::strs(to_drop@) =~= text::strs(dropped).push(slot@));
                    self.retained.remove(slot);
                } else if !self.retained.contains_key(slot) {
                    self.retained.insert(existing_slots[i].clone(), now);
                }
            }
            i = i + 1;
        }
        assert(slots.take(i as int) =~= slots);
        (to_create, to_drop)
    }

    /// Which slots to create and which to drop, now.
    pub fn compute_slot_diff(
        &mut self,
        current_members: &[String],
        existing_slots: &[String],
        my_name: &str,
    ) -> (r: (Vec<String>, Vec<String>))
        ensures
            exists|now: u128| #[trigger]
                slot_diff(
                    *old(self),
                    *final(self),
                    text::strs(current_members@),
                    text::strs(existing_slots@),
                    my_name@,
                    now,
                    r,
                ),
            final(self).retention_ttl == old(self).retention_ttl,
            final(self).ignore_patterns == old(self).ignore_patterns,
            final(self).epoch == old(self).epoch,
    {
        let now: u128 = nanos_since(&self.epoch);
        self.compute_slot_diff_at(current_members, existing_slots, my_name, now)
    }
}

/// Those of `wanted` that do not exist.
fn missing(wanted: &Vec<String>, existing: &[String]) -> (r: Vec<String>)
    requires
        text::strs(wanted@).no_duplicates(),
    ensures
        text::strs(r@).no_duplicates(),
        text::strs(r@).to_set() == text::strs(wanted@).to_set().difference(
            text::strs(existing@).to_set(),
        ),
{
    let ghost w = text::strs(wanted@);
    let ghost e = text::strs(existing@);
    let mut out: Vec<String> = Vec::new();
    let mut i: usize = 0;
    while i < wanted.len()
        invariant
            i <= wanted@.len(),
            w == text::strs(wanted@),
            e == text::strs(existing@),
            w.no_duplicates(),
            text::strs(out@).no_duplicates(),
            forall|x: Seq<char>| #[trigger]
                text::strs(out@).contains(x) <==> w.take(i as int).contains(x) && !e.contains(x),
        decreases wanted@.len() - i,
    {
        let name = wanted[i].as_str();
        proof {
            assert(w[i as int] == name@);
            let t = w.take(i as int);
            assert(w.take(i + 1) =~= t.push(name@));
            assert(!t.contains(name@)) by {
                if t.contains(name@) {
                    let k = choose|k: int| 0 <= k < t.len() && t[k] == name@;
                    assert(w[k] == w[i as int]);
                }
            }
            assert forall|x: Seq<char>| #[trigger] w.take(i + 1).contains(x) <==> t.contains(x) || x
                == name@ by {
                if t.contains(x) {
                    let k = choose|k: int| 0 <= k < t.len() && t[k] == x;
                    assert(w.take(i + 1)[k] == x);
                }
                if x == name@ {
                    assert(w.take(i + 1)[i as int] == x);
                }
            }
        }
        if !contains_str(existing, name) {
            let ghost before = text::strs(out@);
            out.push(wanted[i].clone());
            proof {
                let after = text::strs(out@);
                assert(after =~= before.push(name@));
                assert(!before.contains(name@));
                assert forall|x: Seq<char>| #[trigger] after.contains(x) <==> before.contains(x) || x
                    == name@ by {
                    if before.contains(x) {
                        let k = choose|k: int| 0 <= k < before.len() && before[k] == x;
                        assert(after[k] == x);
                    }
                    if x == name@ {
                        assert(after[before.len() as int] == x);
                    }
                }
            }
        }
        i = i + 1;
    }
    proof {
        assert(w.take(i as int) =~= w);
        assert(text::strs(out@).to_set() =~= w.to_set().difference(e.to_set()));
    }
    out
}

// ---------------------------------------------------------------------------------------------
// Laws
// ---------------------------------------------------------------------------------------------
/// A slot's name is one that PostgreSQL accepts: not too long, and of small letters, digits and
/// underscores only.
pub proof fn law_slot_names_are_valid(member: Seq<char>)
    ensures
        slot_name(member).len() <= MAX_SLOT_NAME,
        forall|i: int|
            0 <= i < slot_name(member).len() ==> {
                let c = #[trigger] slot_name(member)[i];
                ('a' <= c <= 'z') || ('0' <= c <= '9') || c == '_'
            },
{
}

/// A slot is dropped only if it exists, its member is absent, it is not ignored, and it has been
/// kept for the whole time that absent members have.
pub proof fn law_dropped_slots_are_overdue(
    retained: Map<Seq<char>, u128>,
    slots: Seq<Seq<char>>,
    wanted: Set<Seq<char>>,
    patterns: Seq<Seq<char>>,
    now: u128,
    ttl: u64,
    slot: Seq<char>,
)
    requires
        ttl > 0,
        settle_all(retained, slots, wanted, patterns, now, ttl).dropped.contains(slot),
    ensures
        slots.contains(slot),
        !wanted.contains(slot),
        !ignored(slot, patterns),
        retained.dom().contains(slot),
        now - retained[slot] >= ttl * 1_000_000_000,
    decreases slots.len(),
{
    if slots.len() > 0 {
        let init = slots.drop_last();
        let p = settle_all(retained, init, wanted, patterns, now, ttl);
        let last = slots.last();
        lemma_retained_origin(retained, init, wanted, patterns, now, ttl, last);
        if p.dropped.contains(slot) {
            law_dropped_slots_are_overdue(retained, init, wanted, patterns, now, ttl, slot);
            let k = choose|k: int| 0 <= k < init.len() && init[k] == slot;
            assert(slots[k] == slot);
        } else {
            let all = settle_all(retained, slots, wanted, patterns, now, ttl).dropped;
            let k = choose|k: int| 0 <= k < all.len() && all[k] == slot;
            if k < p.dropped.len() {
                assert(p.dropped[k] == slot);
            }
            assert(slot == last);
            assert(slots[slots.len() - 1] == slot);
        }
    }
}

proof fn lemma_retained_origin(
    retained: Map<Seq<char>, u128>,
    slots: Seq<Seq<char>>,
    wanted: Set<Seq<char>>,
    patterns: Seq<Seq<char>>,
    now: u128,
    ttl: u64,
    slot: Seq<char>,
)
    ensures
        ({
            let p = settle_all(retained, slots, wanted, patterns, now, ttl);
            p.retained.dom().contains(slot) ==> p.retained[slot] == now || (
            retained.dom().contains(slot) && p.retained[slot] == retained[slot])
        }),
    decreases slots.len(),
{
    if slots.len() > 0 {
        lemma_retained_origin(retained, slots.drop_last(), wanted, patterns, now, ttl, slot);
    }
}

/// A slot of an absent member that was not seen without it before is kept and remembered, if slots
/// are kept at all.
pub proof fn law_new_orphan_is_kept(
    retained: Map<Seq<char>, u128>,
    wanted: Set<Seq<char>>,
    patterns: Seq<Seq<char>>,
    now: u128,
    ttl: u64,
    slot: Seq<char>,
)
    requires
        ttl > 0,
        !wanted.contains(slot),
        !ignored(slot, patterns),
        !retained.dom().contains(slot),
    ensures
        settle_all(retained, seq![slot], wanted, patterns, now, ttl).dropped.len() == 0,
        settle_all(retained, seq![slot], wanted, patterns, now, ttl).retained == retained.insert(
            slot,
            now,
        ),
{
    let one = seq![slot];
    assert(one.drop_last() =~= Seq::empty());
    assert(settle_all(retained, one.drop_last(), wanted, patterns, now, ttl).dropped.len() == 0);
}

/// The name of a slot has the letters, digits and underscores of the member's name in lower case, and
/// an underscore in place of every other character; it is cut where it would be too long.
pub proof fn law_slot_name_keeps_what_it_can(lower: Seq<char>, i: int)
    ensures
        lower.len() <= 63 ==> slot_of(lower).len() == lower.len(),
        lower.len() > 63 ==> slot_of(lower).len() == 63,
        0 <= i < slot_of(lower).len() && (('a' <= lower[i] <= 'z') || ('0' <= lower[i] <= '9')
            || lower[i] == '_') ==> slot_of(lower)[i] == lower[i],
        0 <= i < slot_of(lower).len() && !(('a' <= lower[i] <= 'z') || ('0' <= lower[i] <= '9'))
            ==> slot_of(lower)[i] == '_',
{
}

/// A pattern that ends with a star stands for all names that begin as it does, one that begins with a
/// star for all that end as it does, and any other for itself alone.
pub proof fn law_patterns(slot: Seq<char>, part: Seq<char>)
    ensures
        matches_pattern(slot, part.push('*')) <==> part.is_prefix_of(slot),
        part.len() > 0 && part.last() != '*' ==> (matches_pattern(slot, seq!['*'] + part)
            <==> part.is_suffix_of(slot)),
        part.len() > 0 && part.last() != '*' && part[0] != '*' ==> (matches_pattern(slot, part)
            <==> slot == part),
{
    assert(part.push('*').drop_last() =~= part);
    assert((seq!['*'] + part).skip(1) =~= part);
    if part.len() > 0 {
        assert((seq!['*'] + part).last() == part.last());
    }
}

/// There is to be a slot for every other member, and for nobody else.
pub proof fn law_every_other_member_has_a_slot(
    members: Seq<Seq<char>>,
    me: Seq<char>,
    i: int,
    slot: Seq<char>,
)
    ensures
        0 <= i < members.len() && members[i] != me ==> desired(members, me).contains(
            slot_name(members[i]),
        ),
        desired(members, me).contains(slot) ==> exists|j: int|
            0 <= j < members.len() && (#[trigger] members[j]) != me && slot_name(members[j]) == slot,
{
    if 0 <= i < members.len() && members[i] != me {
        assert(has_slot(members, me, members.len() as int, slot_name(members[i])));
    }
}

/// A slot whose member is there is kept and not remembered as absent; one that is ignored is left
/// alone; one that has been kept for long enough is dropped and forgotten; any other is kept, and
/// remembered from the time when its member was first missed.
pub proof fn law_each_slot_is_settled(
    p: SlotPlan,
    slot: Seq<char>,
    wanted: Set<Seq<char>>,
    patterns: Seq<Seq<char>>,
    now: u128,
    ttl: u64,
)
    ensures
        ({
            let r = settle(p, slot, wanted, patterns, now, ttl);
            let here = wanted.contains(slot);
            let spared = ignored(slot, patterns);
            let known = p.retained.dom().contains(slot);
            let old = ttl == 0 || (known && now - p.retained[slot] >= ttl * 1_000_000_000);
            &&& here ==> r.retained == p.retained.remove(slot) && r.dropped == p.dropped
            &&& !here && spared ==> r == p
            &&& !here && !spared && old ==> r.retained == p.retained.remove(slot) && r.dropped
                == p.dropped.push(slot)
            &&& !here && !spared && !old && known ==> r == p
            &&& !here && !spared && !old && !known ==> r.retained == p.retained.insert(slot, now)
                && r.dropped == p.dropped
        }),
{
}

/// A slot that exists, whose member is absent, which is not ignored and has been kept for the whole
/// time is dropped.
pub proof fn law_overdue_slots_are_dropped(
    retained: Map<Seq<char>, u128>,
    slots: Seq<Seq<char>>,
    wanted: Set<Seq<char>>,
    patterns: Seq<Seq<char>>,
    now: u128,
    ttl: u64,
    i: int,
)
    requires
        0 <= i < slots.len(),
        slots.no_duplicates(),
        !wanted.contains(slots[i]),
        !ignored(slots[i], patterns),
        retained.dom().contains(slots[i]),
        now - retained[slots[i]] >= ttl * 1_000_000_000,
    ensures
        settle_all(retained, slots, wanted, patterns, now, ttl).dropped.contains(slots[i]),
    decreases slots.len(),
{
    let init = slots.drop_last();
    let slot = slots[i];
    let before = settle_all(retained, init, wanted, patterns, now, ttl);
    let after = settle_all(retained, slots, wanted, patterns, now, ttl);
    if i < init.len() {
        assert(init.no_duplicates()) by {
            assert forall|a: int, b: int|
                0 <= a < init.len() && 0 <= b < init.len() && a != b implies init[a] != init[b] by {
                assert(slots[a] != slots[b]);
            }
        }
        assert(init[i] == slot);
        law_overdue_slots_are_dropped(retained, init, wanted, patterns, now, ttl, i);
        let k = choose|k: int| 0 <= k < before.dropped.len() && before.dropped[k] == slot;
        assert(after.dropped[k] == slot);
    } else {
        assert(!init.contains(slot)) by {
            if init.contains(slot) {
                let k = choose|k: int| 0 <= k < init.len() && init[k] == slot;
                assert(slots[k] == slots[i]);
            }
        }
        lemma_untouched_slot(retained, init, wanted, patterns, now, ttl, slot);
        assert(after.dropped[before.dropped.len() as int] == slot);
    }
}

proof fn lemma_untouched_slot(
    retained: Map<Seq<char>, u128>,
    slots: Seq<Seq<char>>,
    wanted: Set<Seq<char>>,
    patterns: Seq<Seq<char>>,
    now: u128,
    ttl: u64,
    slot: Seq<char>,
)
    requires
        !slots.contains(slot),
        retained.dom().contains(slot),
    ensures
        settle_all(retained, slots, wanted, patterns, now, ttl).retained.dom().contains(slot),
        settle_all(retained, slots, wanted, patterns, now, ttl).retained[slot] == retained[slot],
    decreases slots.len(),
{
    if slots.len() > 0 {
        let init = slots.drop_last();
        assert(!init.contains(slot)) by {
            if init.contains(slot) {
                let k = choose|k: int| 0 <= k < init.len() && init[k] == slot;
                assert(slots[k] == slot);
            }
        }
        assert(slots[slots.len() - 1] != slot);
        lemma_untouched_slot(retained, init, wanted, patterns, now, ttl, slot);
    }
}

/// Exactly the slots that are to be there and are not are created, each once.
pub proof fn law_missing_slots_are_created(
    before: SlotManager,
    after: SlotManager,
    members: Seq<Seq<char>>,
    slots: Seq<Seq<char>>,
    me: Seq<char>,
    now: u128,
    r: (Vec<String>, Vec<String>),
    slot: Seq<char>,
)
    requires
        slot_diff(before, after, members, slots, me, now, r),
    ensures
        text::strs((r.0)@).contains(slot) <==> desired(members, me).contains(slot)
            && !slots.contains(slot),
        text::strs((r.0)@).no_duplicates(),
{
    let created = text::strs((r.0)@);
    assert(created.to_set().contains(slot) <==> created.contains(slot));
    assert(slots.to_set().contains(slot) <==> slots.contains(slot));
}

} // verus!
