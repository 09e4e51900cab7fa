//! Who takes over when nobody holds the leader lock.

use vstd::prelude::*;

use crate::cluster;
use crate::cluster::{
    find_highest_position, find_member, Cluster, Member, MemberRole, MemberState, MemberTest,
};
use crate::config::Tags;
use crate::text;
use crate::text::{str_eq, str_lt};

verus! {

/// How much a member is preferred at a failover.
pub open spec fn priority(m: Member) -> u32 {
    cluster::number(m.tags@, "failover_priority"@, 1) as u32
}

/// The position of a member in the write-ahead log; zero where it is not known.
pub open spec fn wal(m: Member) -> u64 {
    match m.wal_position {
        Some(p) => p,
        None => 0,
    }
}

/// The member may be promoted.
pub open spec fn eligible(m: Member) -> bool {
    &&& !cluster::flag(m.tags@, "nofailover"@)
    &&& priority(m) != 0
    &&& m.state == MemberState::Running
}

/// One that is preferred to another: it has more of the write-ahead log, or as much and a higher
/// priority, or both the same and a name that comes first.
pub open spec fn preferred(
    wal1: u64,
    priority1: u32,
    name1: Seq<char>,
    wal2: u64,
    priority2: u32,
    name2: Seq<char>,
) -> bool {
    wal1 > wal2 || (wal1 == wal2 && (priority1 > priority2 || (priority1 == priority2
        && text::lex_lt(name1, name2))))
}

/// The position in the write-ahead log that the cluster shows for a node.
pub open spec fn known_wal(c: Cluster, name: Seq<char>) -> u64 {
    match cluster::first_member(c.members@, cluster::named(name)) {
        Some(m) => wal(m),
        None => 0,
    }
}

/// A node is the healthiest: it may be promoted and runs, and no other member that may be promoted
/// is preferred to it.
pub open spec fn healthiest(
    c: Cluster,
    name: Seq<char>,
    nofailover: bool,
    my_priority: u32,
    running: bool,
) -> bool {
    &&& !nofailover
    &&& my_priority != 0
    &&& running
    &&& forall|i: int|
        0 <= i < c.members@.len() && (#[trigger] c.members@[i]).name@ != name && eligible(
            c.members@[i],
        ) ==> !preferred(
            wal(c.members@[i]),
            priority(c.members@[i]),
            c.members@[i].name@,
            known_wal(c, name),
            my_priority,
            name,
        )
}

/// Whether this node is the healthiest and should try to take the lock.
pub fn is_healthiest_node(cluster: &Cluster, my_name: &str, tags: &Tags, running: bool) -> (r: bool)
    ensures
        r == healthiest(*cluster, my_name@, tags.nofailover, tags.failover_priority, running),
{
    if tags.nofailover || tags.failover_priority == 0 {
        return false;
    }
    if !running {
        return false;
    }
    let my_wal: u64 = match cluster.get_member(my_name) {
        Some(m) => match m.wal_position {
            Some(p) => p,
            None => 0,
        },
        None => 0,
    };
    let my_priority: u32 = tags.failover_priority;
    let mut i: usize = 0;
    while i < cluster.members.len()
        invariant
            i <= cluster.members@.len(),
            my_wal == known_wal(*cluster, my_name@),
            my_priority == tags.failover_priority,
            forall|j: int|
                0 <= j < i && (#[trigger] cluster.members@[j]).name@ != my_name@ && eligible(
                    cluster.members@[j],
                ) ==> !preferred(
                    wal(cluster.members@[j]),
                    priority(cluster.members@[j]),
                    cluster.members@[j].name@,
                    my_wal,
                    my_priority,
                    my_name@,
                ),
        decreases cluster.members@.len() - i,
    {
        let member = &cluster.members[i];
        if !str_eq(member.name.as_str(), my_name) && !member.is_nofailover()
            && member.failover_priority() != 0 && member.state == MemberState::Running {
            let their_wal: u64 = match member.wal_position {
                Some(p) => p,
                None => 0,
            };
            let their_priority: u32 = member.failover_priority();
            if their_wal > my_wal {
                return false;
            }
            if their_wal == my_wal {
                if their_priority > my_priority {
                    return false;
                }
                if their_priority == my_priority && str_lt(member.name.as_str(), my_name) {
                    return false;
                }
            }
        }
        i = i + 1;
    }
    true
}

/// A node is at most `max_lag` bytes behind the highest position that is known of a member.
pub open spec fn in_reach(c: Cluster, name: Seq<char>, max_lag: Option<u64>) -> bool {
    match (max_lag, cluster::highest_position(c.members@)) {
        (Some(max), Some(top)) => top - known_wal(c, name) <= max,
        _ => true,
    }
}

/// Whether this node is at most `max_lag` bytes behind the highest position that is known of a
/// member.
pub fn is_in_reach(cluster: &Cluster, my_name: &str, max_lag: Option<u64>) -> (r: bool)
    ensures
        r == in_reach(*cluster, my_name@, max_lag),
{
    let my_wal: u64 = match cluster.get_member(my_name) {
        Some(m) => match m.wal_position {
            Some(p) => p,
            None => 0,
        },
        None => 0,
    };
    match (max_lag, find_highest_position(cluster.members.as_slice())) {
        (Some(max), Some(top)) => top <= my_wal || top - my_wal <= max,
        _ => true,
    }
}

/// The member is another one than `name` and runs.
pub open spec fn other_running(name: Seq<char>) -> spec_fn(Member) -> bool {
    |m: Member| m.name@ != name && m.state == MemberState::Running
}

/// The member is another one than `name` and runs as primary.
pub open spec fn other_primary(name: Seq<char>) -> spec_fn(Member) -> bool {
    |m: Member|
        m.name@ != name && m.role == MemberRole::Primary && m.state == MemberState::Running
}

/// Another member that runs.
pub struct OtherRunning<'a>(pub &'a str);

impl<'a> MemberTest for OtherRunning<'a> {
    open spec fn holds(&self, m: Member) -> bool {
        m.name@ != self.0@ && m.state == MemberState::Running
    }

    fn test(&self, m: &Member) -> (b: bool) {
        !str_eq(m.name.as_str(), self.0) && m.state == MemberState::Running
    }
}

/// Another member that runs as primary.
pub struct OtherPrimary<'a>(pub &'a str);

impl<'a> MemberTest for OtherPrimary<'a> {
    open spec fn holds(&self, m: Member) -> bool {
        m.name@ != self.0@ && m.role == MemberRole::Primary && m.state == MemberState::Running
    }

    fn test(&self, m: &Member) -> (b: bool) {
        !str_eq(m.name.as_str(), self.0) && m.role == MemberRole::Primary && m.state
            == MemberState::Running
    }
}

/// The first other member that runs.
pub fn other_running_member(cluster: &Cluster, my_name: &str) -> (r: Option<usize>)
    ensures
        match r {
            Some(i) => cluster::first_index(cluster.members@, other_running(my_name@)) == Some(
                i as int,
            ) && i < cluster.members@.len(),
            None => cluster::first_index(cluster.members@, other_running(my_name@)) is None,
        },
{
    let t = OtherRunning(my_name);
    assert((|m: Member| t.holds(m)) =~= other_running(my_name@));
    find_member(&cluster.members, &t)
}

/// The member of the leader, if it runs.
pub open spec fn running_leader(c: Cluster) -> Option<int> {
    match c.leader {
        Some(l) => match cluster::first_index(c.members@, cluster::named(l.name@)) {
            Some(i) => if c.members@[i].state == MemberState::Running {
                Some(i)
            } else {
                None
            },
            None => None,
        },
        None => None,
    }
}

/// The member from which a former primary is to be brought up to date: the leader, if it runs, else
/// another member that runs as primary, else another member that runs.
pub open spec fn rejoin_source(c: Cluster, name: Seq<char>) -> Option<int> {
    if running_leader(c) is Some {
        running_leader(c)
    } else if cluster::first_index(c.members@, other_primary(name)) is Some {
        cluster::first_index(c.members@, other_primary(name))
    } else {
        cluster::first_index(c.members@, other_running(name))
    }
}

/// The member from which a former primary is to be brought up to date.
pub fn find_rejoin_source(cluster: &Cluster, my_name: &str) -> (r: Option<usize>)
    ensures
        match r {
            Some(i) => rejoin_source(*cluster, my_name@) == Some(i as int) && i
                < cluster.members@.len(),
            None => rejoin_source(*cluster, my_name@) is None,
        },
{
    if let Some(leader) = &cluster.leader {
        if let Some(i) = cluster.member_index(leader.name.as_str()) {
            if cluster.members[i].state == MemberState::Running {
                return Some(i);
            }
        }
    }
    let t = OtherPrimary(my_name);
    assert((|m: Member| t.holds(m)) =~= other_primary(my_name@));
    match find_member(&cluster.members, &t) {
        Some(i) => Some(i),
        None => other_running_member(cluster, my_name),
    }
}

/// What to do when nobody holds the leader lock.
#[derive(Debug, Clone, Copy, PartialEq, Eq, Structural)]
pub enum ElectionPlan {
    /// Nothing: the cluster is paused.
    Paused,
    /// Become a replica of the member at this place: this node was primary and fell behind.
    Rejoin(usize),
    /// Try to take the lock.
    Attempt,
    /// Leave the lock to the candidate of a switchover or failover.
    Defer,
    /// Leave the lock to a healthier node, or to nobody because too much of the log is missing here.
    Wait,
}

/// The candidate that a switchover or failover names.
pub open spec fn designated(c: Cluster) -> Option<Seq<char>> {
    match c.failover {
        Some(f) => text::opt_view(f.candidate),
        None => None,
    }
}

/// This node runs as a primary that fell behind, and there is a member to catch up from.
pub open spec fn stale_primary(
    c: Cluster,
    name: Seq<char>,
    tags: Tags,
    running: bool,
    standby_signal: bool,
) -> bool {
    &&& running
    &&& !standby_signal
    &&& !healthiest(c, name, tags.nofailover, tags.failover_priority, running)
    &&& c.members@.len() > 0
    &&& rejoin_source(c, name) is Some
}

/// What to do when nobody holds the leader lock; `max_lag` is how many bytes behind a node may be to
/// take it. The candidate that an operator has named may be further behind.
pub fn plan_election(
    cluster: &Cluster,
    my_name: &str,
    tags: &Tags,
    max_lag: Option<u64>,
    paused: bool,
    running: bool,
    standby_signal: bool,
) -> (r: ElectionPlan)
    ensures
        r is Paused <==> paused,
        r is Rejoin <==> !paused && stale_primary(
            *cluster,
            my_name@,
            *tags,
            running,
            standby_signal,
        ),
        r matches ElectionPlan::Rejoin(i) ==> rejoin_source(*cluster, my_name@) == Some(i as int)
            && i < cluster.members@.len(),
        !(r is Paused) && !(r is Rejoin) ==> match designated(*cluster) {
            Some(candidate) => if candidate == my_name@ {
                r is Attempt
            } else {
                r is Defer
            },
            None => if healthiest(
                *cluster,
                my_name@,
                tags.nofailover,
                tags.failover_priority,
                running,
            ) && in_reach(*cluster, my_name@, max_lag) {
                r is Attempt
            } else {
                r is Wait
            },
        },
{
    if paused {
        return ElectionPlan::Paused;
    }
    let is_healthiest = is_healthiest_node(cluster, my_name, tags, running);
    if running && !standby_signal && !is_healthiest && !cluster.members.is_empty() {
        if let Some(i) = find_rejoin_source(cluster, my_name) {
            return ElectionPlan::Rejoin(i);
        }
    }
    if let Some(f) = &cluster.failover {
        if let Some(candidate) = &f.candidate {
            if str_eq(candidate.as_str(), my_name) {
                return ElectionPlan::Attempt;
            } else {
                return ElectionPlan::Defer;
            }
        }
    }
    if is_healthiest && is_in_reach(cluster, my_name, max_lag) {
        ElectionPlan::Attempt
    } else {
        ElectionPlan::Wait
    }
}

// ---------------------------------------------------------------------------------------------
// Laws
// ---------------------------------------------------------------------------------------------
/// No two members have the same name.
pub open spec fn names_differ(c: Cluster) -> bool {
    forall|i: int, j: int|
        0 <= i < j < c.members@.len() ==> (#[trigger] c.members@[i]).name@ != (
        #[trigger] c.members@[j]).name@
}

/// The member at `i` finds that it is the healthiest, if its own tags are those that it published.
pub open spec fn wins(c: Cluster, i: int) -> bool {
    eligible(c.members@[i]) && healthiest(
        c,
        c.members@[i].name@,
        false,
        priority(c.members@[i]),
        true,
    )
}

proof fn lemma_known_wal(c: Cluster, i: int)
    requires
        names_differ(c),
        0 <= i < c.members@.len(),
    ensures
        known_wal(c, c.members@[i].name@) == wal(c.members@[i]),
{
    let p = cluster::named(c.members@[i].name@);
    cluster::lemma_first_index(c.members@, p);
    assert(p(c.members@[i]));
    let k = cluster::first_index(c.members@, p)->0;
    if k < i {
        assert(c.members@[k].name@ != c.members@[i].name@);
    } else if i < k {
        assert(c.members@[i].name@ != c.members@[k].name@);
    }
}

/// At most one member finds that it is the healthiest.
pub proof fn law_at_most_one_winner(c: Cluster, i: int, j: int)
    requires
        names_differ(c),
        0 <= i < c.members@.len(),
        0 <= j < c.members@.len(),
        wins(c, i),
        wins(c, j),
    ensures
        i == j,
{
    if i != j {
        lemma_known_wal(c, i);
        lemma_known_wal(c, j);
        let a = c.members@[i];
        let b = c.members@[j];
        if i < j {
            assert(c.members@[i].name@ != c.members@[j].name@);
        } else {
            assert(c.members@[j].name@ != c.members@[i].name@);
        }
        text::lemma_lex_total(a.name@, b.name@);
    }
}

/// Where a member may be promoted, one of those finds that it is the healthiest.
pub proof fn law_some_winner(c: Cluster, i: int)
    requires
        names_differ(c),
        0 <= i < c.members@.len(),
        eligible(c.members@[i]),
    ensures
        exists|k: int| 0 <= k < c.members@.len() && #[trigger] wins(c, k),
{
    let k = lemma_best(c, i, c.members@.len() as int);
    lemma_known_wal(c, k);
    assert(wins(c, k)) by {
        assert forall|j: int|
            0 <= j < c.members@.len() && (#[trigger] c.members@[j]).name@ != c.members@[k].name@
                && eligible(c.members@[j]) implies !preferred(
            wal(c.members@[j]),
            priority(c.members@[j]),
            c.members@[j].name@,
            known_wal(c, c.members@[k].name@),
            priority(c.members@[k]),
            c.members@[k].name@,
        ) by {
            assert(!member_preferred(c.members@[j], c.members@[k]));
        }
    }
}

spec fn member_preferred(a: Member, b: Member) -> bool {
    preferred(wal(a), priority(a), a.name@, wal(b), priority(b), b.name@)
}

proof fn lemma_best(c: Cluster, i: int, n: int) -> (k: int)
    requires
        0 <= i < c.members@.len(),
        eligible(c.members@[i]),
        0 <= n <= c.members@.len(),
    ensures
        0 <= k < c.members@.len(),
        eligible(c.members@[k]),
        forall|j: int|
            0 <= j < n && eligible(#[trigger] c.members@[j]) ==> !member_preferred(
                c.members@[j],
                c.members@[k],
            ),
    decreases n,
{
    if n == 0 {
        i
    } else {
        let k = lemma_best(c, i, n - 1);
        let m = c.members@[n - 1];
        let b = c.members@[k];
        if eligible(m) && member_preferred(m, b) {
            assert forall|j: int|
                0 <= j < n && eligible(#[trigger] c.members@[j]) implies !member_preferred(
                c.members@[j],
                m,
            ) by {
                let x = c.members@[j];
                text::lemma_lex_total(m.name@, m.name@);
                if j < n - 1 && member_preferred(x, m) {
                    lemma_preferred_trans(x, m, b);
                }
            }
            n - 1
        } else {
            k
        }
    }
}

proof fn lemma_preferred_trans(x: Member, y: Member, z: Member)
    requires
        member_preferred(x, y),
        member_preferred(y, z),
    ensures
        member_preferred(x, z),
{
    if wal(x) == wal(y) && wal(y) == wal(z) && priority(x) == priority(y) && priority(y)
        == priority(z) {
        text::lemma_lex_trans(x.name@, y.name@, z.name@);
    }
}

/// A member with less of the write-ahead log than another that may be promoted never wins.
pub proof fn law_winner_has_all_data(c: Cluster, i: int, j: int)
    requires
        names_differ(c),
        0 <= i < c.members@.len(),
        0 <= j < c.members@.len(),
        wins(c, i),
        eligible(c.members@[j]),
    ensures
        wal(c.members@[j]) <= wal(c.members@[i]),
{
    lemma_known_wal(c, i);
    if c.members@[j].name@ == c.members@[i].name@ {
        if i < j {
            assert(c.members@[i].name@ != c.members@[j].name@);
        } else if j < i {
            assert(c.members@[j].name@ != c.members@[i].name@);
        }
    }
}

/// A node within the limit lacks at most that much of what any member is known to have.
pub proof fn law_limit_bounds_what_is_lost(c: Cluster, name: Seq<char>, max_lag: u64, i: int)
    requires
        in_reach(c, name, Some(max_lag)),
        0 <= i < c.members@.len(),
    ensures
        wal(c.members@[i]) - known_wal(c, name) <= max_lag,
{
    if c.members@[i].wal_position is Some {
        cluster::lemma_highest_position(c.members@, i);
    }
}

/// A member that could take over, spelled out: it runs, no tag bars it, and its priority is not zero.
pub open spec fn could_take_over(m: Member) -> bool {
    &&& m.state == MemberState::Running
    &&& !cluster::flag(m.tags@, "nofailover"@)
    &&& cluster::number(m.tags@, "failover_priority"@, 1) as u32 != 0
}

/// What a member has of the write-ahead log; one of which nothing is known has nothing.
pub open spec fn log_of(m: Member) -> int {
    if m.wal_position is Some {
        m.wal_position->0 as int
    } else {
        0
    }
}

/// A node takes itself for the healthiest exactly if it runs and may be promoted, and no other member
/// that could take over has more of the log; of those that have as much, none has a higher priority;
/// and of those with the same priority, none has a name that comes before.
pub proof fn law_healthiest_has_most_of_the_log(
    c: Cluster,
    name: Seq<char>,
    nofailover: bool,
    my_priority: u32,
    running: bool,
    i: int,
)
    requires
        0 <= i < c.members@.len(),
        c.members@[i].name@ != name,
        could_take_over(c.members@[i]),
    ensures
        healthiest(c, name, nofailover, my_priority, running) ==> {
            let m = c.members@[i];
            let their_priority = cluster::number(m.tags@, "failover_priority"@, 1) as u32;
            &&& running && !nofailover && my_priority != 0
            &&& log_of(m) <= known_wal(c, name)
            &&& log_of(m) == known_wal(c, name) ==> their_priority <= my_priority
            &&& log_of(m) == known_wal(c, name) && their_priority == my_priority ==> !text::lex_lt(
                m.name@,
                name,
            )
        },
{
}

/// A node that runs, may be promoted, and has more of the log than every other member that could take
/// over is the healthiest; so is one that is alone.
pub proof fn law_most_of_the_log_is_healthiest(
    c: Cluster,
    name: Seq<char>,
    nofailover: bool,
    my_priority: u32,
    running: bool,
)
    requires
        forall|i: int|
            0 <= i < c.members@.len() && (#[trigger] c.members@[i]).name@ != name
                && could_take_over(c.members@[i]) ==> log_of(c.members@[i]) < known_wal(c, name),
    ensures
        healthiest(c, name, nofailover, my_priority, running) <==> running && !nofailover
            && my_priority != 0,
{
}

/// What is known of a node's log is what its own entry says.
pub proof fn law_own_entry_says_how_far(c: Cluster, i: int)
    requires
        names_differ(c),
        0 <= i < c.members@.len(),
    ensures
        known_wal(c, c.members@[i].name@) == log_of(c.members@[i]),
{
    lemma_known_wal(c, i);
}

/// A former primary is brought up to date from the holder of the lock, if it runs; else from another
/// member that runs as primary; else from another member that runs. There is nobody only if no other
/// member runs, and the holder does not either.
pub proof fn law_rejoin_source_runs(c: Cluster, name: Seq<char>, i: int)
    ensures
        rejoin_source(c, name) matches Some(k) ==> {
            &&& 0 <= k < c.members@.len()
            &&& c.members@[k].state == MemberState::Running
            &&& c.members@[k].name@ != name || (c.leader is Some && c.leader->0.name@ == name)
        },
        0 <= i < c.members@.len() && c.members@[i].name@ != name && c.members@[i].state
            == MemberState::Running ==> rejoin_source(c, name) is Some,
        c.leader is None && 0 <= i < c.members@.len() && c.members@[i].name@ != name
            && c.members@[i].state == MemberState::Running && c.members@[i].role
            == MemberRole::Primary ==> c.members@[rejoin_source(c, name)->0].role
            == MemberRole::Primary,
        c.leader is Some && 0 <= i < c.members@.len() && c.members@[i].name@ == c.leader->0.name@
            && c.members@[i].state == MemberState::Running && (forall|j: int|
            0 <= j < i ==> (#[trigger] c.members@[j]).name@ != c.leader->0.name@)
            ==> rejoin_source(c, name) == Some(i),
{
    cluster::lemma_first_index(c.members@, other_primary(name));
    cluster::lemma_first_index(c.members@, other_running(name));
    if let Some(l) = c.leader {
        let p = cluster::named(l.name@);
        cluster::lemma_first_index(c.members@, p);
        if 0 <= i < c.members@.len() && c.members@[i].name@ == l.name@ {
            assert(p(c.members@[i]));
            let k = cluster::first_index(c.members@, p)->0;
            if k < i {
                assert(p(c.members@[k]));
            }
            if i < k {
                assert(!p(c.members@[i]));
            }
        }
    }
    if 0 <= i < c.members@.len() {
        if cluster::first_index(c.members@, other_running(name)) is None {
            assert(!other_running(name)(c.members@[i]));
        }
        if cluster::first_index(c.members@, other_primary(name)) is None {
            assert(!other_primary(name)(c.members@[i]));
        }
    }
}

/// The limit leaves out exactly the nodes that lack more than it allows of what some member is known
/// to have; without a limit it leaves out none.
pub proof fn law_limit_leaves_out_those_behind(c: Cluster, name: Seq<char>, max_lag: u64, i: int)
    requires
        0 <= i < c.members@.len(),
        c.members@[i].wal_position is Some,
    ensures
        c.members@[i].wal_position->0 - known_wal(c, name) > max_lag ==> !in_reach(
            c,
            name,
            Some(max_lag),
        ),
        in_reach(c, name, None),
        (forall|j: int|
            0 <= j < c.members@.len() ==> log_of(#[trigger] c.members@[j]) - known_wal(c, name)
                <= max_lag) ==> in_reach(c, name, Some(max_lag)),
{
    cluster::lemma_highest_position(c.members@, i);
    cluster::law_highest_position_is_reached(c.members@);
    let top = cluster::highest_position(c.members@)->0;
    let k = choose|k: int|
        0 <= k < c.members@.len() && (#[trigger] c.members@[k]).wal_position == Some(top);
    assert(log_of(c.members@[k]) == top);
}

/// Of a node without an entry, or with one that says nothing, no part of the log is known.
pub proof fn law_unknown_node_has_nothing(c: Cluster, name: Seq<char>)
    ensures
        (forall|j: int| 0 <= j < c.members@.len() ==> (#[trigger] c.members@[j]).name@ != name)
            ==> known_wal(c, name) == 0,
        (forall|j: int|
            0 <= j < c.members@.len() ==> (#[trigger] c.members@[j]).wal_position is None)
            ==> known_wal(c, name) == 0,
{
    cluster::lemma_first_index(c.members@, cluster::named(name));
}

/// How much a member is preferred is the number that its tag gives; without such a tag it is
/// preferred by one, so that it may be promoted.
pub proof fn law_tag_gives_the_preference(m: Member, n: u32)
    ensures
        !m.tags@.dom().contains("failover_priority"@) ==> priority(m) == 1,
        m.tags@.dom().contains("failover_priority"@) && m.tags@["failover_priority"@]
            == crate::json::JsonView::Number(n as u64) ==> priority(m) == n,
{
}

} // verus!
