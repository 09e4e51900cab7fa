//! Which standbys PostgreSQL waits for when it commits.

use vstd::prelude::*;
use vstd::relations::{sorted_by, total_ordering};

use crate::cluster;
use crate::cluster::{find_highest_position, Member, MemberRole, MemberState};
use crate::json;
use crate::text;
use crate::text::{str_eq, str_lt, u64_to_string};

verus! {

/// How standbys are waited for.
#[derive(Debug, Clone, Copy, PartialEq, Eq, Structural)]
pub enum SyncMode {
    /// Not at all.
    Off,
    /// For the first of a list.
    Priority,
    /// For any of a list.
    Quorum,
}

/// A standby that can be waited for: its priority and its name.
pub type Rank = (u32, Seq<char>);

/// `a` is waited for before `b`, or they are the same: higher priorities come first, then names in
/// their order.
pub open spec fn rank_leq() -> spec_fn(Rank, Rank) -> bool {
    |a: Rank, b: Rank| a.0 > b.0 || (a.0 == b.0 && !text::lex_lt(b.1, a.1))
}

/// The position that standbys are held against: that of the member `me`, or the highest one that is
/// known where its own is not.
pub open spec fn target_position(members: Seq<Member>, me: Seq<char>) -> Option<u64> {
    match cluster::first_member(members, cluster::named(me)) {
        Some(m) => if m.wal_position is Some {
            m.wal_position
        } else {
            cluster::highest_position(members)
        },
        None => cluster::highest_position(members),
    }
}

/// A standby is at most `max_lag` bytes behind the target. One whose lag is not known is given the
/// benefit of the doubt.
pub open spec fn keeps_up(position: Option<u64>, target: Option<u64>, max_lag: Option<u64>) -> bool {
    match (position, target, max_lag) {
        (Some(p), Some(t), Some(max)) => t - p <= max,
        _ => true,
    }
}

/// What decides which members can be waited for: the name of the node that waits, the position
/// that standbys are held against, and how many bytes they may be behind.
pub struct Terms {
    pub me: Seq<char>,
    pub target: Option<u64>,
    pub max_lag: Option<u64>,
}

/// The terms of the node `me` among these members.
pub open spec fn terms_of(members: Seq<Member>, me: Seq<char>, max_lag: Option<u64>) -> Terms {
    Terms { me, target: target_position(members, me), max_lag }
}

/// The member can be waited for: another one that runs as replica, is not barred and keeps up.
pub open spec fn eligible(m: Member, t: Terms) -> bool {
    &&& m.name@ != t.me
    &&& !cluster::flag(m.tags@, "nosync"@)
    &&& m.state == MemberState::Running
    &&& m.role == MemberRole::Replica
    &&& keeps_up(m.wal_position, t.target, t.max_lag)
}

/// The priority of a member as a synchronous standby.
pub open spec fn priority_of(m: Member) -> u32 {
    cluster::number(m.tags@, "sync_priority"@, 0) as u32
}

/// The members that can be waited for.
pub open spec fn candidates(members: Seq<Member>, t: Terms) -> Seq<Rank>
    decreases members.len(),
{
    if members.len() == 0 {
        Seq::empty()
    } else {
        let before = candidates(members.drop_last(), t);
        let m = members.last();
        if eligible(m, t) {
            before.push((priority_of(m), m.name@))
        } else {
            before
        }
    }
}

/// The members that can be waited for, the preferred ones first.
pub open spec fn ranking(members: Seq<Member>, t: Terms) -> Seq<Rank> {
    candidates(members, t).sort_by(rank_leq())
}

/// The names of the first `n`, with commas between them.
pub open spec fn joined(ranks: Seq<Rank>, n: nat) -> Seq<char>
    decreases n,
{
    if n == 0 {
        Seq::empty()
    } else if n == 1 {
        ranks[0].1
    } else {
        joined(ranks, (n - 1) as nat) + ","@ + ranks[n - 1].1
    }
}

/// The value of `synchronous_standby_names`.
pub open spec fn standby_names(
    mode: SyncMode,
    count: nat,
    strict: bool,
    max_lag: Option<u64>,
    members: Seq<Member>,
    me: Seq<char>,
) -> Option<Seq<char>> {
    let ranks = ranking(members, terms_of(members, me, max_lag));
    let n = if ranks.len() < count {
        ranks.len()
    } else {
        count
    };
    if mode == SyncMode::Off {
        None
    } else if ranks.len() == 0 {
        Some(
            if strict {
                "*"@
            } else {
                Seq::empty()
            },
        )
    } else {
        let how = if mode == SyncMode::Priority {
            "FIRST "@
        } else {
            "ANY "@
        };
        Some(how + text::dec(count) + " ("@ + joined(ranks, n) + ")"@)
    }
}

proof fn lemma_rank_order()
    ensures
        total_ordering(rank_leq()),
{
    let leq = rank_leq();
    assert forall|x: Rank| #[trigger] leq(x, x) by {
        text::lemma_lex_total(x.1, x.1);
    }
    assert forall|x: Rank, y: Rank| #[trigger] leq(x, y) && #[trigger] leq(y, x) implies x == y by {
        text::lemma_lex_total(x.1, y.1);
    }
    assert forall|x: Rank, y: Rank, z: Rank| #[trigger] leq(x, y) && #[trigger] leq(y, z) implies leq(
        x,
        z,
    ) by {
        if x.0 == y.0 && y.0 == z.0 {
            text::lemma_lex_total(x.1, y.1);
            text::lemma_lex_total(y.1, z.1);
            text::lemma_lex_total(x.1, z.1);
            if text::lex_lt(x.1, y.1) && text::lex_lt(y.1, z.1) {
                text::lemma_lex_trans(x.1, y.1, z.1);
            }
        }
    }
    assert forall|x: Rank, y: Rank| #[trigger] leq(x, y) || #[trigger] leq(y, x) by {
        text::lemma_lex_total(x.1, y.1);
    }
}

struct Candidate {
    priority: u32,
    name: String,
}

spec fn ranks_of(v: Seq<Candidate>) -> Seq<Rank> {
    v.map_values(|c: Candidate| (c.priority, c.name@))
}

/// Puts a candidate in its place among others that are in order.
fn place(v: &mut Vec<Candidate>, c: Candidate)
    requires
        sorted_by(ranks_of(old(v)@), rank_leq()),
    ensures
        sorted_by(ranks_of(final(v)@), rank_leq()),
        ranks_of(final(v)@).to_multiset() == ranks_of(old(v)@).to_multiset().insert(
            (c.priority, c.name@),
        ),
{
    let ghost leq = rank_leq();
    let ghost key = (c.priority, c.name@);
    let ghost before = ranks_of(v@);
    let mut i: usize = v.len();
    while i > 0 && (v[i - 1].priority < c.priority || (v[i - 1].priority == c.priority && str_lt(
        c.name.as_str(),
        v[i - 1].name.as_str(),
    )))
        invariant
            i <= v@.len(),
            before == ranks_of(v@),
            leq == rank_leq(),
            key == (c.priority, c.name@),
            forall|j: int| i <= j < before.len() ==> !leq(#[trigger] before[j], key),
        decreases i,
    {
        assert(before[i - 1] == (v@[i - 1].priority, v@[i - 1].name@));
        i = i - 1;
    }
    let ghost at = i as int;
    v.insert(i, c);
    proof {
        let after = ranks_of(v@);
        assert(after =~= before.insert(at, key));
        lemma_rank_order();
        vstd::seq_lib::to_multiset_insert(before, at, key);
        assert forall|a: int, b: int| 0 <= a < b < after.len() implies #[trigger] leq(
            after[a],
            after[b],
        ) by {
            if b == at {
                assert(leq(before[at - 1], key));
                if a < at - 1 {
                    assert(leq(before[a], before[at - 1]));
                }
            } else if a == at {
                assert(!leq(before[b - 1], key));
                assert(leq(key, before[b - 1]));
            } else if a < at && at < b {
                assert(leq(before[a], before[b - 1]));
            } else if b < at {
                assert(leq(before[a], before[b]));
            } else {
                assert(leq(before[a - 1], before[b - 1]));
            }
        }
    }
}

/// Computes which standbys PostgreSQL waits for.
#[derive(Debug)]
pub struct SyncManager {
    pub mode: SyncMode,
    /// How many standbys are waited for.
    pub sync_node_count: usize,
    /// Whether commits block when there is no standby.
    pub strict_mode: bool,
    /// How many bytes a standby may be behind; one that is further behind is not waited for.
    pub max_lag_on_syncnode: Option<u64>,
}

impl SyncManager {
    /// At least one standby is waited for.
    pub fn new(mode: SyncMode, sync_node_count: usize, strict_mode: bool) -> (r: Self)
        ensures
            r.mode == mode,
            r.sync_node_count == if sync_node_count == 0 {
                1
            } else {
                sync_node_count
            },
            r.strict_mode == strict_mode,
            r.max_lag_on_syncnode is None,
    {
        SyncManager {
            mode,
            sync_node_count: if sync_node_count == 0 {
                1
            } else {
                sync_node_count
            },
            strict_mode,
            max_lag_on_syncnode: None,
        }
    }

    /// How many bytes a standby may be behind.
    pub fn set_max_lag(&mut self, max_lag: Option<u64>)
        ensures
            *final(self) == (SyncManager { max_lag_on_syncnode: max_lag, ..*old(self) }),
    {
        self.max_lag_on_syncnode = max_lag;
    }

    fn target(members: &[Member], my_name: &str) -> (r: Option<u64>)
        ensures
            r == target_position(members@, my_name@),
    {
        let ghost p = cluster::named(my_name@);
        let mut i: usize = 0;
        while i < members.len()
            invariant
                i <= members@.len(),
                p == cluster::named(my_name@),
                forall|j: int| 0 <= j < i ==> !p(#[trigger] members@[j]),
            decreases members@.len() - i,
        {
            if str_eq(members[i].name.as_str(), my_name) {
                proof {
                    cluster::lemma_first_index(members@, p);
                    assert(p(members@[i as int]));
                }
                if members[i].wal_position.is_some() {
                    return members[i].wal_position;
                }
                return find_highest_position(members);
            }
            i = i + 1;
        }
        proof {
            cluster::lemma_first_index(members@, p);
        }
        find_highest_position(members)
    }

    fn is_up_to_date(&self, m: &Member, target: Option<u64>) -> (r: bool)
        ensures
            r == keeps_up(m.wal_position, target, self.max_lag_on_syncnode),
    {
        match (m.wal_position, target, self.max_lag_on_syncnode) {
            (Some(p), Some(t), Some(max)) => t <= p || t - p <= max,
            _ => true,
        }
    }

    fn rank(&self, members: &[Member], my_name: &str) -> (r: Vec<Candidate>)
        ensures
            ranks_of(r@) == ranking(
                members@,
                terms_of(members@, my_name@, self.max_lag_on_syncnode),
            ),
    {
        let target = SyncManager::target(members, my_name);
        let ghost t = terms_of(members@, my_name@, self.max_lag_on_syncnode);
        let mut v: Vec<Candidate> = Vec::new();
        let mut i: usize = 0;
        proof {
            assert(ranks_of(v@) =~= Seq::empty());
            assert(members@.take(0) =~= Seq::empty());
        }
        while i < members.len()
            invariant
                i <= members@.len(),
                sorted_by(ranks_of(v@), rank_leq()),
                t == terms_of(members@, my_name@, self.max_lag_on_syncnode),
                target == t.target,
                ranks_of(v@).to_multiset() == candidates(members@.take(i as int), t).to_multiset(),
            decreases members@.len() - i,
        {
            let m = &members[i];
            proof {
                assert(members@.take(i + 1).drop_last() =~= members@.take(i as int));
                assert(members@.take(i + 1).last() == *m);
            }
            if !str_eq(m.name.as_str(), my_name) && !m.is_nosync() && m.state
                == MemberState::Running && m.role == MemberRole::Replica && self.is_up_to_date(
                m,
                target,
            ) {
                let priority: u32 = m.sync_priority();
                proof {
                    vstd::seq_lib::to_multiset_build(
                        candidates(members@.take(i as int), t),
                        (priority, m.name@),
                    );
                }
                place(&mut v, Candidate { priority, name: m.name.clone() });
            }
            i = i + 1;
        }
        proof {
            assert(members@.take(i as int) =~= members@);
            lemma_rank_order();
            let c = candidates(members@, t);
            c.lemma_sort_by_ensures(rank_leq());
            vstd::seq_lib::lemma_sorted_unique(ranks_of(v@), c.sort_by(rank_leq()), rank_leq());
        }
        v
    }

    /// The value of `synchronous_standby_names` for these members; `None` if standbys are not
    /// waited for.
    pub fn compute_sync_standby_names(&self, members: &[Member], my_name: &str) -> (r: Option<
        String,
    >)
        ensures
            text::opt_view(r) == standby_names(
                self.mode,
                self.sync_node_count as nat,
                self.strict_mode,
                self.max_lag_on_syncnode,
                members@,
                my_name@,
            ),
    {
        if self.mode == SyncMode::Off {
            return None;
        }
        let v = self.rank(members, my_name);
        let ghost ranks = ranks_of(v@);
        assert(ranks.len() == v@.len());
        if v.len() == 0 {
            if self.strict_mode {
                return Some("*".to_string());
            }
            return Some(String::new());
        }
        let n: usize = if v.len() < self.sync_node_count {
            v.len()
        } else {
            self.sync_node_count
        };
        let mut list = String::new();
        let mut i: usize = 0;
        while i < n
            invariant
                i <= n <= v@.len(),
                ranks == ranks_of(v@),
                list@ == joined(ranks, i as nat),
            decreases n - i,
        {
            if i > 0 {
                list.append(",");
            }
            list.append(v[i].name.as_str());
            assert(list@ =~= joined(ranks, (i + 1) as nat)) by {
                assert(ranks[i as int].1 == v@[i as int].name@);
            }
            i = i + 1;
        }
        let mut r = if self.mode == SyncMode::Priority {
            "FIRST ".to_string()
        } else {
            "ANY ".to_string()
        };
        r.append(u64_to_string(self.sync_node_count as u64).as_str());
        r.append(" (");
        r.append(list.as_str());
        r.append(")");
        Some(r)
    }
}

/// The ranking holds exactly the members that can be waited for, and none stands behind one that
/// is less preferred.
pub proof fn law_ranking_is_in_order(members: Seq<Member>, t: Terms)
    ensures
        ranking(members, t).to_multiset() == candidates(members, t).to_multiset(),
        sorted_by(ranking(members, t), rank_leq()),
{
    lemma_rank_order();
    candidates(members, t).lemma_sort_by_ensures(rank_leq());
}

proof fn lemma_candidates_are_eligible(members: Seq<Member>, t: Terms, i: int)
    requires
        0 <= i < candidates(members, t).len(),
    ensures
        exists|j: int|
            0 <= j < members.len() && eligible(#[trigger] members[j], t) && members[j].name@
                == candidates(members, t)[i].1,
    decreases members.len(),
{
    let before = candidates(members.drop_last(), t);
    if i < before.len() {
        lemma_candidates_are_eligible(members.drop_last(), t, i);
        let j = choose|j: int|
            0 <= j < members.len() - 1 && eligible(#[trigger] members.drop_last()[j], t)
                && members.drop_last()[j].name@ == before[i].1;
        assert(members[j] == members.drop_last()[j]);
    } else {
        assert(eligible(members[members.len() - 1], t));
    }
}

/// A standby that is known to be further behind than allowed is not waited for: every name in the
/// ranking is that of a member that can be waited for, and whose lag, where it is known, is within
/// the limit.
pub proof fn law_lagging_standby_is_left_out(
    members: Seq<Member>,
    me: Seq<char>,
    max_lag: u64,
    i: int,
)
    requires
        0 <= i < ranking(members, terms_of(members, me, Some(max_lag))).len(),
    ensures
        exists|j: int|
            {
                let t = terms_of(members, me, Some(max_lag));
                &&& 0 <= j < members.len()
                &&& eligible(#[trigger] members[j], t)
                &&& members[j].name@ == ranking(members, t)[i].1
                &&& members[j].wal_position is Some && t.target is Some ==> t.target->0
                    - members[j].wal_position->0 <= max_lag
            },
{
    let t = terms_of(members, me, Some(max_lag));
    let ranks = ranking(members, t);
    let found = candidates(members, t);
    law_ranking_is_in_order(members, t);
    ranks.to_multiset_ensures();
    found.to_multiset_ensures();
    assert(ranks.contains(ranks[i]));
    assert(found.to_multiset().count(ranks[i]) > 0);
    assert(found.contains(ranks[i]));
    let k = choose|k: int| 0 <= k < found.len() && found[k] == ranks[i];
    lemma_candidates_are_eligible(members, t, k);
    let j = choose|j: int|
        0 <= j < members.len() && eligible(#[trigger] members[j], t) && members[j].name@
            == found[k].1;
    assert(eligible(members[j], t) && members[j].name@ == ranks[i].1);
}

/// A member that can be waited for, spelled out: another one that runs as a replica, has no tag that
/// bars it, and is not known to be too far behind.
pub open spec fn worth_waiting_for(m: Member, t: Terms) -> bool {
    &&& m.name@ != t.me
    &&& !(m.tags@.dom().contains("nosync"@) && m.tags@["nosync"@] == json::JsonView::Bool(true))
    &&& m.state == MemberState::Running
    &&& m.role == MemberRole::Replica
    &&& t.max_lag is Some && t.target is Some && m.wal_position is Some ==> t.target->0
        - m.wal_position->0 <= t.max_lag->0
}

proof fn lemma_candidates_are_all(members: Seq<Member>, t: Terms, j: int)
    requires
        0 <= j < members.len(),
        eligible(members[j], t),
    ensures
        candidates(members, t).contains((priority_of(members[j]), members[j].name@)),
    decreases members.len(),
{
    let rank = (priority_of(members[j]), members[j].name@);
    let before = candidates(members.drop_last(), t);
    let all = candidates(members, t);
    if j < members.len() - 1 {
        assert(members.drop_last()[j] == members[j]);
        lemma_candidates_are_all(members.drop_last(), t, j);
        let k = choose|k: int| 0 <= k < before.len() && before[k] == rank;
        assert(all[k] == rank);
    } else {
        assert(all[before.len() as int] == rank);
    }
}

/// The ranking names every member that is worth waiting for, with its priority, and no other. It has
/// one place for each.
pub proof fn law_ranking_names_the_worthy(members: Seq<Member>, t: Terms, i: int, j: int)
    ensures
        0 <= j < members.len() && worth_waiting_for(members[j], t) ==> ranking(members, t).contains(
            (cluster::number(members[j].tags@, "sync_priority"@, 0) as u32, members[j].name@),
        ),
        0 <= i < ranking(members, t).len() ==> exists|k: int|
            0 <= k < members.len() && worth_waiting_for(#[trigger] members[k], t)
                && members[k].name@ == ranking(members, t)[i].1,
        ranking(members, t).len() <= members.len(),
        ranking(members, t).len() == 0 <==> forall|k: int|
            0 <= k < members.len() ==> !worth_waiting_for(#[trigger] members[k], t),
{
    let ranks = ranking(members, t);
    let found = candidates(members, t);
    law_ranking_is_in_order(members, t);
    ranks.to_multiset_ensures();
    found.to_multiset_ensures();
    assert forall|k: int| 0 <= k < members.len() && worth_waiting_for(
        #[trigger] members[k],
        t,
    ) implies ranks.contains((priority_of(members[k]), members[k].name@)) by {
        lemma_candidates_are_all(members, t, k);
        let rank = (priority_of(members[k]), members[k].name@);
        assert(found.to_multiset().count(rank) > 0);
    }
    assert forall|k: int| 0 <= k < ranks.len() implies exists|m: int|
        0 <= m < members.len() && worth_waiting_for(#[trigger] members[m], t) && members[m].name@
            == (#[trigger] ranks[k]).1 by {
        assert(ranks.contains(ranks[k]));
        assert(found.to_multiset().count(ranks[k]) > 0);
        assert(found.contains(ranks[k]));
        let n = choose|n: int| 0 <= n < found.len() && found[n] == ranks[k];
        lemma_candidates_are_eligible(members, t, n);
        let m = choose|m: int|
            0 <= m < members.len() && eligible(#[trigger] members[m], t) && members[m].name@
                == found[n].1;
        assert(worth_waiting_for(members[m], t));
    }
    lemma_candidates_len(members, t);
    if ranks.len() > 0 {
        let m = choose|m: int|
            0 <= m < members.len() && worth_waiting_for(#[trigger] members[m], t)
                && members[m].name@ == ranks[0].1;
        assert(worth_waiting_for(members[m], t));
    }
}

proof fn lemma_candidates_len(members: Seq<Member>, t: Terms)
    ensures
        candidates(members, t).len() <= members.len(),
    decreases members.len(),
{
    if members.len() > 0 {
        lemma_candidates_len(members.drop_last(), t);
    }
}

/// A standby with a higher priority is never behind one with a lower, and of two with the same
/// priority the one whose name comes first is first.
pub proof fn law_higher_priority_comes_first(members: Seq<Member>, t: Terms, i: int, j: int)
    requires
        0 <= i < j < ranking(members, t).len(),
    ensures
        ranking(members, t)[i].0 >= ranking(members, t)[j].0,
        ranking(members, t)[i].0 == ranking(members, t)[j].0 ==> !text::lex_lt(
            ranking(members, t)[j].1,
            ranking(members, t)[i].1,
        ),
{
    law_ranking_is_in_order(members, t);
    let leq = rank_leq();
    assert(leq(ranking(members, t)[i], ranking(members, t)[j]));
}

/// Standbys are held against the position of the node that waits, where it is known, and otherwise
/// against the highest that is known.
pub proof fn law_standbys_are_held_against_the_primary(
    members: Seq<Member>,
    me: Seq<char>,
    max_lag: Option<u64>,
    i: int,
)
    requires
        0 <= i < members.len(),
        members[i].name@ == me,
        forall|j: int| 0 <= j < i ==> (#[trigger] members[j]).name@ != me,
    ensures
        members[i].wal_position is Some ==> target_position(members, me) == members[i].wal_position,
        members[i].wal_position is None ==> target_position(members, me)
            == cluster::highest_position(members),
        terms_of(members, me, max_lag).me == me,
        terms_of(members, me, max_lag).max_lag == max_lag,
        terms_of(members, me, max_lag).target == target_position(members, me),
{
    let p = cluster::named(me);
    cluster::lemma_first_index(members, p);
    assert(p(members[i]));
    let k = cluster::first_index(members, p)->0;
    if k < i {
        assert(members[k].name@ != me);
    }
    if i < k {
        assert(!p(members[i]));
    }
}

/// Where no standby can be waited for, commits block if the mode is strict, whichever mode it is, and
/// go through otherwise. In a strict mode they never go through without a standby.
pub proof fn law_strict_mode_never_lets_commits_through(
    mode: SyncMode,
    count: nat,
    strict: bool,
    max_lag: Option<u64>,
    members: Seq<Member>,
    me: Seq<char>,
)
    ensures
        ({
            let r = standby_names(mode, count, strict, max_lag, members, me);
            let nobody = forall|k: int|
                0 <= k < members.len() ==> !worth_waiting_for(
                    #[trigger] members[k],
                    terms_of(members, me, max_lag),
                );
            &&& r is None <==> mode == SyncMode::Off
            &&& mode != SyncMode::Off && strict && nobody ==> r == Some("*"@)
            &&& mode != SyncMode::Off && !strict && nobody ==> r->0.len() == 0
            &&& mode != SyncMode::Off && strict ==> r->0.len() > 0
            &&& mode != SyncMode::Off && !nobody ==> r->0.len() > 0 && r != Some("*"@)
        }),
{
    let t = terms_of(members, me, max_lag);
    law_ranking_names_the_worthy(members, t, 0, 0);
    reveal_strlit("*");
    reveal_strlit("FIRST ");
    reveal_strlit("ANY ");
    let r = standby_names(mode, count, strict, max_lag, members, me);
    if mode != SyncMode::Off && ranking(members, t).len() > 0 {
        assert(r->0.len() >= 4);
        assert("*"@.len() == 1);
    }
}

/// Where standbys can be waited for, the value says how: the first of a list, or any of it, in a
/// number that is the one that was set; and the list holds the best of the ranking, as many as that
/// number, in their order.
pub proof fn law_best_standbys_are_listed(
    mode: SyncMode,
    count: nat,
    strict: bool,
    max_lag: Option<u64>,
    members: Seq<Member>,
    me: Seq<char>,
    list: Seq<char>,
)
    requires
        mode != SyncMode::Off,
        exists|k: int|
            0 <= k < members.len() && worth_waiting_for(
                #[trigger] members[k],
                terms_of(members, me, max_lag),
            ),
    ensures
        ({
            let ranks = ranking(members, terms_of(members, me, max_lag));
            let r = standby_names(mode, count, strict, max_lag, members, me);
            let n = if count <= ranks.len() {
                count
            } else {
                ranks.len()
            };
            &&& r is Some
            &&& list == joined(ranks, n) && mode == SyncMode::Priority ==> r->0 == "FIRST "@
                + text::dec(count) + " ("@ + list + ")"@
            &&& list == joined(ranks, n) && mode == SyncMode::Quorum ==> r->0 == "ANY "@ + text::dec(
                count,
            ) + " ("@ + list + ")"@
        }),
{
    law_ranking_names_the_worthy(members, terms_of(members, me, max_lag), 0, 0);
}

/// A list of names is the names with commas between them: one name alone stands for itself, and each
/// further one follows a comma.
pub proof fn law_names_are_joined_by_commas(ranks: Seq<Rank>, n: nat)
    requires
        0 < n <= ranks.len(),
    ensures
        joined(ranks, 1) == ranks[0].1,
        n > 1 ==> joined(ranks, n) == joined(ranks, (n - 1) as nat) + seq![','] + ranks[n - 1].1,
{
    reveal_strlit(",");
    assert(","@ =~= seq![',']);
    reveal_with_fuel(joined, 2);
}

/// Of two standbys the one with the higher priority comes first, and of two with the same the one
/// whose name comes first; the order leaves no two standbys with different names undecided.
pub proof fn law_standbys_have_one_order(a: Rank, b: Rank)
    ensures
        a.0 > b.0 ==> rank_leq()(a, b) && !rank_leq()(b, a),
        a.0 == b.0 && text::lex_lt(a.1, b.1) ==> rank_leq()(a, b) && !rank_leq()(b, a),
        rank_leq()(a, b) || rank_leq()(b, a),
        rank_leq()(a, b) && rank_leq()(b, a) ==> a.1 == b.1,
{
    text::lemma_lex_total(a.1, b.1);
}

} // verus!
