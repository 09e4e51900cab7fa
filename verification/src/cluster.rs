//! The state of the cluster as the members read it from the replicated store.

use vstd::prelude::*;

use crate::json;
use crate::json::Json;
use crate::strmap::StringMap;
use crate::text;
use crate::text::{eq_ignore_ascii_case, split_char, str_eq, trim};

verus! {

/// What PostgreSQL is doing on a member.
#[derive(Debug, Clone, Copy, PartialEq, Eq, Structural)]
pub enum MemberState {
    Running,
    Stopped,
    Starting,
    Crashed,
    Unknown,
}

impl Default for MemberState {
    fn default() -> (r: Self)
        ensures
            r == MemberState::Unknown,
    {
        MemberState::Unknown
    }
}

/// The role of PostgreSQL on a member.
#[derive(Debug, Clone, Copy, PartialEq, Eq, Structural)]
pub enum MemberRole {
    Primary,
    Replica,
    StandbyLeader,
    Uninitialized,
}

impl Default for MemberRole {
    fn default() -> (r: Self)
        ensures
            r == MemberRole::Uninitialized,
    {
        MemberRole::Uninitialized
    }
}

/// How a role is written.
pub open spec fn role_text(role: MemberRole) -> Seq<char> {
    match role {
        MemberRole::Primary => "primary"@,
        MemberRole::Replica => "replica"@,
        MemberRole::StandbyLeader => "standby_leader"@,
        MemberRole::Uninitialized => "uninitialized"@,
    }
}

impl MemberRole {
    /// How the role is written.
    pub fn as_str(&self) -> (r: &'static str)
        ensures
            r@ == role_text(*self),
    {
        match self {
            MemberRole::Primary => "primary",
            MemberRole::Replica => "replica",
            MemberRole::StandbyLeader => "standby_leader",
            MemberRole::Uninitialized => "uninitialized",
        }
    }
}

/// Who holds the leader lock.
#[derive(Debug)]
pub struct Leader {
    pub name: String,
    /// The version of the lock, for compare-and-swap writes.
    pub version: u64,
}

impl Clone for Leader {
    fn clone(&self) -> (r: Self)
        ensures
            r == *self,
    {
        Leader { name: self.name.clone(), version: self.version }
    }
}

/// A member of the cluster.
#[derive(Debug, Clone)]
pub struct Member {
    /// The name, unique within the cluster.
    pub name: String,
    /// How to connect to PostgreSQL.
    pub conn_url: String,
    /// The address of the REST API.
    pub api_url: String,
    pub state: MemberState,
    pub role: MemberRole,
    /// The position in the write-ahead log of PostgreSQL, in bytes.
    pub wal_position: Option<u64>,
    pub timeline: Option<u64>,
    pub tags: StringMap<Json>,
    pub version: Option<String>,
}

/// The truth value of a tag; a tag that is missing or holds no truth value counts as false.
pub open spec fn flag(tags: Map<Seq<char>, json::JsonView>, key: Seq<char>) -> bool {
    tags.dom().contains(key) && json::bool_of(tags[key]) == Some(true)
}

/// The number in a tag; a tag that is missing or holds no whole number counts as `default`.
pub open spec fn number(tags: Map<Seq<char>, json::JsonView>, key: Seq<char>, default: u64) -> u64 {
    if tags.dom().contains(key) && json::number_of(tags[key]) is Some {
        json::number_of(tags[key])->0
    } else {
        default
    }
}

/// The truth value of a tag.
pub fn tag_flag(tags: &StringMap<Json>, key: &str) -> (r: bool)
    ensures
        r == flag(tags@, key@),
{
    match tags.get(key) {
        Some(v) => match v.as_bool() {
            Some(b) => b,
            None => false,
        },
        None => false,
    }
}

/// The number in a tag.
pub fn tag_number(tags: &StringMap<Json>, key: &str, default: u64) -> (r: u64)
    ensures
        r == number(tags@, key@, default),
{
    match tags.get(key) {
        Some(v) => match v.as_u64() {
            Some(n) => n,
            None => default,
        },
        None => default,
    }
}

impl Member {
    /// The member is never to be promoted.
    pub fn is_nofailover(&self) -> (r: bool)
        ensures
            r == flag(self.tags@, "nofailover"@),
    {
        tag_flag(&self.tags, "nofailover")
    }

    /// The member is not to get read traffic.
    pub fn is_noloadbalance(&self) -> (r: bool)
        ensures
            r == flag(self.tags@, "noloadbalance"@),
    {
        tag_flag(&self.tags, "noloadbalance")
    }

    /// The member takes no part in synchronous replication.
    pub fn is_nosync(&self) -> (r: bool)
        ensures
            r == flag(self.tags@, "nosync"@),
    {
        tag_flag(&self.tags, "nosync")
    }

    /// How much the member is preferred at a failover; zero means never.
    pub fn failover_priority(&self) -> (r: u32)
        ensures
            r == number(self.tags@, "failover_priority"@, 1) as u32,
    {
        tag_number(&self.tags, "failover_priority", 1) as u32
    }

    /// How much the member is preferred as a synchronous standby.
    pub fn sync_priority(&self) -> (r: u32)
        ensures
            r == number(self.tags@, "sync_priority"@, 0) as u32,
    {
        tag_number(&self.tags, "sync_priority", 0) as u32
    }
}

/// The synchronous standbys, as the leader publishes them.
#[derive(Debug, Clone)]
pub struct SyncState {
    /// The leader that publishes them.
    pub leader: String,
    /// Their names, separated by commas.
    pub sync_standby: Option<String>,
    pub quorum: u32,
}

/// The names in a list that is separated by commas: without the white space around them, and
/// without empty ones.
pub open spec fn listed_names(s: Seq<char>) -> Seq<Seq<char>> {
    text::split_on(s, ',').map_values(|n: Seq<char>| text::trimmed(n)).filter(
        |n: Seq<char>| n.len() > 0,
    )
}

/// The names of the synchronous standbys.
pub open spec fn standby_names(s: SyncState) -> Seq<Seq<char>> {
    match s.sync_standby {
        Some(list) => listed_names(list@),
        None => Seq::empty(),
    }
}

impl SyncState {
    /// Whether nothing was published.
    pub fn is_empty(&self) -> (r: bool)
        ensures
            r == (self.leader@.len() == 0),
    {
        self.leader.as_str().is_empty()
    }

    /// The names of the synchronous standbys.
    pub fn sync_standby_names(&self) -> (r: Vec<String>)
        ensures
            text::strs(r@) == standby_names(*self),
    {
        let mut out: Vec<String> = Vec::new();
        match &self.sync_standby {
            Some(list) => {
                let pieces = split_char(list.as_str(), ',');
                let ghost all = text::strs(pieces@).map_values(|n: Seq<char>| text::trimmed(n));
                let ghost keep = |n: Seq<char>| n.len() > 0;
                let mut i: usize = 0;
                assert(all.take(0) =~= Seq::empty());
                assert(text::strs(out@) =~= all.take(0).filter(keep)) by {
                    reveal(Seq::filter);
                }
                while i < pieces.len()
                    invariant
                        i <= pieces@.len(),
                        all == text::strs(pieces@).map_values(|n: Seq<char>| text::trimmed(n)),
                        keep == (|n: Seq<char>| n.len() > 0),
                        text::strs(out@) == all.take(i as int).filter(keep),
                    decreases pieces@.len() - i,
                {
                    let name = trim(pieces[i].as_str());
                    let ghost before = out@;
                    proof {
                        assert(all[i as int] == name@);
                        assert(all.take(i + 1).drop_last() =~= all.take(i as int));
                        assert(all.take(i + 1).last() == name@);
                        reveal(Seq::filter);
                    }
                    if !name.as_str().is_empty() {
                        out.push(name);
                        assert(text::strs(out@) =~= text::strs(before).push(name@));
                    }
                    i = i + 1;
                }
                assert(all.take(i as int) =~= all);
            },
            None => {
                assert(text::strs(out@) =~= Seq::empty());
            },
        }
        out
    }

    /// Whether `name` is one of the synchronous standbys; upper and lower case of the letters A to
    /// Z do not differ.
    pub fn matches(&self, name: &str) -> (r: bool)
        ensures
            r == exists|i: int|
                0 <= i < standby_names(*self).len() && text::same_ignoring_case(
                    #[trigger] standby_names(*self)[i],
                    name@,
                ),
    {
        let names = self.sync_standby_names();
        let mut i: usize = 0;
        while i < names.len()
            invariant
                i <= names@.len(),
                text::strs(names@) == standby_names(*self),
                forall|j: int|
                    0 <= j < i ==> !text::same_ignoring_case(
                        #[trigger] standby_names(*self)[j],
                        name@,
                    ),
            decreases names@.len() - i,
        {
            assert(standby_names(*self)[i as int] == names@[i as int]@);
            if eq_ignore_ascii_case(names[i].as_str(), name) {
                return true;
            }
            i = i + 1;
        }
        assert(standby_names(*self).len() == names@.len());
        false
    }
}

/// The cluster-wide configuration, as it is stored.
#[derive(Debug, Clone)]
pub struct ClusterConfig {
    /// The version of the key, for compare-and-swap writes.
    pub version: u64,
    pub data: StringMap<Json>,
}

/// A request to change the leader.
#[derive(Debug, Clone)]
pub struct Failover {
    /// The leader that is to step down; set for a switchover.
    pub leader: Option<String>,
    /// The member that is to take over.
    pub candidate: Option<String>,
    /// When, in ISO 8601.
    pub scheduled_at: Option<String>,
}

impl Failover {
    /// Whether a leader is named that is to step down.
    pub fn is_switchover(&self) -> (r: bool)
        ensures
            r == (self.leader is Some),
    {
        self.leader.is_some()
    }
}

/// A change of the timeline.
#[derive(Debug, Clone)]
pub struct HistoryEntry {
    pub timeline: u64,
    pub lsn: u64,
    pub reason: String,
    pub timestamp: Option<String>,
}

/// The state of the cluster.
#[derive(Debug, Clone)]
pub struct Cluster {
    pub leader: Option<Leader>,
    pub members: Vec<Member>,
    /// The system identifier of PostgreSQL, once the cluster was initialized.
    pub initialize: Option<String>,
    pub config: Option<ClusterConfig>,
    pub sync_state: Option<SyncState>,
    pub failover: Option<Failover>,
    /// The members that must confirm the primary while the store cannot be reached.
    pub failsafe: Option<StringMap<String>>,
    pub history: Vec<HistoryEntry>,
}

/// The higher one of two positions, of which each may be unknown.
pub open spec fn higher(a: Option<u64>, b: Option<u64>) -> Option<u64> {
    match (a, b) {
        (Some(x), Some(y)) => if x >= y {
            a
        } else {
            b
        },
        (Some(_), None) => a,
        _ => b,
    }
}

/// The highest position in the write-ahead log that is known of a member.
pub open spec fn highest_position(members: Seq<Member>) -> Option<u64>
    decreases members.len(),
{
    if members.len() == 0 {
        None
    } else {
        higher(highest_position(members.drop_last()), members.last().wal_position)
    }
}

/// The highest position in the write-ahead log that is known of a member.
pub fn find_highest_position(members: &[Member]) -> (r: Option<u64>)
    ensures
        r == highest_position(members@),
{
    let mut best: Option<u64> = None;
    let mut i: usize = 0;
    assert(members@.take(0) =~= Seq::empty());
    while i < members.len()
        invariant
            i <= members@.len(),
            best == highest_position(members@.take(i as int)),
        decreases members@.len() - i,
    {
        assert(members@.take(i + 1).drop_last() =~= members@.take(i as int));
        assert(members@.take(i + 1).last() == members@[i as int]);
        best = match (best, members[i].wal_position) {
            (Some(x), Some(y)) => if x >= y {
                Some(x)
            } else {
                Some(y)
            },
            (Some(x), None) => Some(x),
            (None, p) => p,
        };
        i = i + 1;
    }
    assert(members@.take(i as int) =~= members@);
    best
}

/// No member is known to be further than the highest position.
pub proof fn lemma_highest_position(members: Seq<Member>, i: int)
    requires
        0 <= i < members.len(),
        members[i].wal_position is Some,
    ensures
        highest_position(members) is Some,
        members[i].wal_position->0 <= highest_position(members)->0,
    decreases members.len(),
{
    if i < members.len() - 1 {
        assert(members.drop_last()[i] == members[i]);
        lemma_highest_position(members.drop_last(), i);
    }
}

/// `i` is the first member with the property.
pub open spec fn is_first(members: Seq<Member>, p: spec_fn(Member) -> bool, i: int) -> bool {
    0 <= i < members.len() && p(members[i]) && forall|j: int|
        0 <= j < i ==> !p(#[trigger] members[j])
}

/// The first member with the property.
pub open spec fn first_index(members: Seq<Member>, p: spec_fn(Member) -> bool) -> Option<int> {
    if exists|i: int| is_first(members, p, i) {
        Some(choose|i: int| is_first(members, p, i))
    } else {
        None
    }
}

/// The first member with the property.
pub open spec fn first_member(members: Seq<Member>, p: spec_fn(Member) -> bool) -> Option<Member> {
    match first_index(members, p) {
        Some(i) => Some(members[i]),
        None => None,
    }
}

/// `first_index` gives the first member with the property, and nothing only where no member has
/// it.
pub proof fn lemma_first_index(members: Seq<Member>, p: spec_fn(Member) -> bool)
    ensures
        match first_index(members, p) {
            Some(i) => is_first(members, p, i),
            None => forall|j: int| 0 <= j < members.len() ==> !p(#[trigger] members[j]),
        },
{
    if exists|j: int| 0 <= j < members.len() && p(#[trigger] members[j]) {
        let j = choose|j: int| 0 <= j < members.len() && p(#[trigger] members[j]);
        lemma_first_exists(members, p, j);
    }
}

proof fn lemma_first_exists(members: Seq<Member>, p: spec_fn(Member) -> bool, i: int)
    requires
        0 <= i < members.len(),
        p(members[i]),
    ensures
        exists|k: int| is_first(members, p, k),
    decreases i,
{
    if exists|j: int| 0 <= j < i && p(#[trigger] members[j]) {
        let j = choose|j: int| 0 <= j < i && p(#[trigger] members[j]);
        lemma_first_exists(members, p, j);
    } else {
        assert(is_first(members, p, i));
    }
}

/// A property of members that can be tested.
pub trait MemberTest {
    /// The member has the property.
    spec fn holds(&self, m: Member) -> bool;

    /// Whether the member has the property.
    fn test(&self, m: &Member) -> (b: bool)
        ensures
            b == self.holds(*m),
    ;
}

/// The first member that has the property.
pub fn find_member<T: MemberTest>(members: &Vec<Member>, t: &T) -> (r: Option<usize>)
    ensures
        match r {
            Some(i) => first_index(members@, |m: Member| t.holds(m)) == Some(i as int) && i
                < members@.len(),
            None => first_index(members@, |m: Member| t.holds(m)) is None,
        },
{
    let ghost p = |m: Member| t.holds(m);
    proof {
        lemma_first_index(members@, p);
    }
    let mut i: usize = 0;
    while i < members.len()
        invariant
            i <= members@.len(),
            p == (|m: Member| t.holds(m)),
            forall|j: int| 0 <= j < i ==> !p(#[trigger] members@[j]),
        decreases members@.len() - i,
    {
        if t.test(&members[i]) {
            proof {
                assert(is_first(members@, p, i as int));
                lemma_first_index(members@, p);
                let k = first_index(members@, p)->0;
                if k < i {
                    assert(!p(members@[k]));
                }
                if i < k {
                    assert(!p(members@[i as int]));
                }
            }
            return Some(i);
        }
        i = i + 1;
    }
    None
}

/// The member has this name.
pub struct Named<'a>(pub &'a str);

impl<'a> MemberTest for Named<'a> {
    open spec fn holds(&self, m: Member) -> bool {
        m.name@ == self.0@
    }

    fn test(&self, m: &Member) -> (b: bool) {
        str_eq(m.name.as_str(), self.0)
    }
}

/// The member is another one than this, may be cloned and is marked as a source for clones.
pub struct CloneTagged<'a>(pub &'a str);

impl<'a> MemberTest for CloneTagged<'a> {
    open spec fn holds(&self, m: Member) -> bool {
        clonable(m, self.0@) && flag(m.tags@, "clonefrom"@)
    }

    fn test(&self, m: &Member) -> (b: bool) {
        !str_eq(m.name.as_str(), self.0) && !tag_flag(&m.tags, "noclone") && tag_flag(
            &m.tags,
            "clonefrom",
        )
    }
}

/// The member has the first name, not the second, and may be cloned.
pub struct NamedNot<'a>(pub &'a str, pub &'a str);

impl<'a> MemberTest for NamedNot<'a> {
    open spec fn holds(&self, m: Member) -> bool {
        m.name@ == self.0@ && clonable(m, self.1@)
    }

    fn test(&self, m: &Member) -> (b: bool) {
        str_eq(m.name.as_str(), self.0) && !str_eq(m.name.as_str(), self.1) && !tag_flag(
            &m.tags,
            "noclone",
        )
    }
}

/// The member has this name.
pub open spec fn named(name: Seq<char>) -> spec_fn(Member) -> bool {
    |m: Member| m.name@ == name
}

/// The member is another one than `exclude` and may be cloned.
pub open spec fn clonable(m: Member, exclude: Seq<char>) -> bool {
    m.name@ != exclude && !flag(m.tags@, "noclone"@)
}

/// The member is another one than `name`, may be cloned and is marked as a source for clones.
pub open spec fn clone_tagged(name: Seq<char>) -> spec_fn(Member) -> bool {
    |m: Member| clonable(m, name) && flag(m.tags@, "clonefrom"@)
}

/// The member that others are best cloned from, apart from `exclude`: the first that is marked so,
/// else the leader. One that must not be cloned is neither.
pub open spec fn clone_member(c: Cluster, exclude: Seq<char>) -> Option<Member> {
    match first_member(c.members@, clone_tagged(exclude)) {
        Some(m) => Some(m),
        None => match c.leader {
            Some(l) => first_member(
                c.members@,
                |m: Member| m.name@ == l.name@ && clonable(m, exclude),
            ),
            None => None,
        },
    }
}

impl Cluster {
    /// Whether nobody holds the leader lock.
    pub fn is_unlocked(&self) -> (r: bool)
        ensures
            r == (self.leader is None),
    {
        self.leader.is_none()
    }

    /// The position of the member with this name.
    pub fn member_index(&self, name: &str) -> (r: Option<usize>)
        ensures
            match r {
                Some(i) => first_index(self.members@, named(name@)) == Some(i as int) && i
                    < self.members@.len(),
                None => first_index(self.members@, named(name@)) is None,
            },
    {
        let t = Named(name);
        assert((|m: Member| t.holds(m)) =~= named(name@));
        find_member(&self.members, &t)
    }

    /// Whether there is a member with this name.
    pub fn has_member(&self, name: &str) -> (r: bool)
        ensures
            r == exists|i: int| 0 <= i < self.members@.len() && (#[trigger] self.members@[i]).name@
                == name@,
    {
        proof {
            lemma_first_index(self.members@, named(name@));
        }
        let r = self.member_index(name);
        assert(r is None ==> forall|j: int|
            0 <= j < self.members@.len() ==> !named(name@)(#[trigger] self.members@[j]));
        r.is_some()
    }

    /// The member with this name.
    pub fn get_member(&self, name: &str) -> (r: Option<&Member>)
        ensures
            match r {
                Some(m) => first_member(self.members@, named(name@)) == Some(*m),
                None => first_member(self.members@, named(name@)) is None,
            },
    {
        match self.member_index(name) {
            Some(i) => Some(&self.members[i]),
            None => None,
        }
    }

    /// The member that others are best cloned from, apart from `exclude_name`.
    pub fn get_clone_member(&self, exclude_name: &str) -> (r: Option<&Member>)
        ensures
            match r {
                Some(m) => clone_member(*self, exclude_name@) == Some(*m),
                None => clone_member(*self, exclude_name@) is None,
            },
    {
        let tagged = CloneTagged(exclude_name);
        assert((|m: Member| tagged.holds(m)) =~= clone_tagged(exclude_name@));
        if let Some(i) = find_member(&self.members, &tagged) {
            return Some(&self.members[i]);
        }
        match &self.leader {
            Some(leader) => {
                let lead = NamedNot(leader.name.as_str(), exclude_name);
                assert((|m: Member| lead.holds(m)) =~= (|m: Member|
                    m.name@ == leader.name@ && clonable(m, exclude_name@)));
                match find_member(&self.members, &lead) {
                    Some(i) => Some(&self.members[i]),
                    None => None,
                }
            },
            None => None,
        }
    }

    /// A cluster about which nothing is known.
    pub fn empty() -> (r: Self)
        ensures
            is_blank(r),
    {
        Cluster {
            leader: None,
            members: Vec::new(),
            initialize: None,
            config: None,
            sync_state: None,
            failover: None,
            failsafe: None,
            history: Vec::new(),
        }
    }
}

/// Nothing is known of the cluster.
pub open spec fn is_blank(c: Cluster) -> bool {
    &&& c.leader is None
    &&& c.members@.len() == 0
    &&& c.initialize is None
    &&& c.config is None
    &&& c.sync_state is None
    &&& c.failover is None
    &&& c.failsafe is None
    &&& c.history@.len() == 0
}

impl Default for Cluster {
    fn default() -> (r: Self)
        ensures
            is_blank(r),
    {
        Cluster::empty()
    }
}

// ---------------------------------------------------------------------------------------------
// Laws
// ---------------------------------------------------------------------------------------------
/// A flag is set only by the truth value `true` under its name, and a number only by a whole number;
/// whatever else stands there, or nothing, counts as unset.
pub proof fn law_tags_count_only_if_set(
    tags: Map<Seq<char>, json::JsonView>,
    key: Seq<char>,
    default: u64,
    n: u64,
)
    ensures
        flag(tags, key) <==> tags.dom().contains(key) && tags[key] == json::JsonView::Bool(true),
        tags.dom().contains(key) && tags[key] == json::JsonView::Number(n) ==> number(
            tags,
            key,
            default,
        ) == n,
        !tags.dom().contains(key) || !(tags[key] is Number) ==> number(tags, key, default)
            == default,
{
}

/// The highest position is that of a member, no member is known to be further, and there is none only
/// where no position is known.
pub proof fn law_highest_position_is_reached(members: Seq<Member>)
    ensures
        match highest_position(members) {
            Some(top) => {
                &&& exists|i: int|
                    0 <= i < members.len() && (#[trigger] members[i]).wal_position == Some(top)
                &&& forall|i: int|
                    0 <= i < members.len() && (#[trigger] members[i]).wal_position is Some
                        ==> members[i].wal_position->0 <= top
            },
            None => forall|i: int|
                0 <= i < members.len() ==> (#[trigger] members[i]).wal_position is None,
        },
    decreases members.len(),
{
    if members.len() > 0 {
        let init = members.drop_last();
        law_highest_position_is_reached(init);
        assert forall|i: int|
            0 <= i < members.len() && (#[trigger] members[i]).wal_position is Some implies highest_position(
            members,
        ) is Some && members[i].wal_position->0 <= highest_position(members)->0 by {
            if i < init.len() {
                assert(init[i] == members[i]);
            }
        }
        if let Some(top) = highest_position(members) {
            if members.last().wal_position == Some(top) {
                assert(members[members.len() - 1].wal_position == Some(top));
            } else {
                let i = choose|i: int|
                    0 <= i < init.len() && (#[trigger] init[i]).wal_position == Some(top);
                assert(members[i].wal_position == Some(top));
            }
        }
    }
}

/// The member that others are cloned from is another one than the one that asks, and one that may be
/// cloned. One that is marked for it comes before the leader, and among those the first; there is
/// none only where neither exists.
pub proof fn law_clone_member_is_another(c: Cluster, exclude: Seq<char>, i: int)
    ensures
        clone_member(c, exclude) matches Some(m) ==> {
            &&& c.members@.contains(m)
            &&& m.name@ != exclude
            &&& !flag(m.tags@, "noclone"@)
            &&& flag(m.tags@, "clonefrom"@) || (c.leader is Some && m.name@ == c.leader->0.name@)
        },
        0 <= i < c.members@.len() && c.members@[i].name@ != exclude && !flag(
            c.members@[i].tags@,
            "noclone"@,
        ) && flag(c.members@[i].tags@, "clonefrom"@) ==> {
            &&& clone_member(c, exclude) is Some
            &&& flag(clone_member(c, exclude)->0.tags@, "clonefrom"@)
        },
        0 <= i < c.members@.len() && c.members@[i].name@ != exclude && !flag(
            c.members@[i].tags@,
            "noclone"@,
        ) && c.leader is Some && c.members@[i].name@ == c.leader->0.name@ ==> clone_member(
            c,
            exclude,
        ) is Some,
{
    let p = clone_tagged(exclude);
    lemma_first_index(c.members@, p);
    if let Some(l) = c.leader {
        let q = |m: Member| m.name@ == l.name@ && clonable(m, exclude);
        lemma_first_index(c.members@, q);
        if 0 <= i < c.members@.len() && first_index(c.members@, q) is None {
            assert(!q(c.members@[i]));
        }
    }
    if 0 <= i < c.members@.len() && first_index(c.members@, p) is None {
        assert(!p(c.members@[i]));
    }
}

/// Roles are told apart by how they are written.
pub proof fn law_roles_are_written_apart(a: MemberRole, b: MemberRole)
    ensures
        role_text(a) == role_text(b) <==> a == b,
        role_text(MemberRole::Primary) == "primary"@,
        role_text(MemberRole::Replica) == "replica"@,
        role_text(MemberRole::StandbyLeader) == "standby_leader"@,
        role_text(MemberRole::Uninitialized) == "uninitialized"@,
{
    reveal_strlit("primary");
    reveal_strlit("replica");
    reveal_strlit("standby_leader");
    reveal_strlit("uninitialized");
    assert("primary"@.len() == 7 && "replica"@.len() == 7 && "standby_leader"@.len() == 14
        && "uninitialized"@.len() == 13);
    assert("primary"@[0] == 'p' && "replica"@[0] == 'r');
}

} // verus!
