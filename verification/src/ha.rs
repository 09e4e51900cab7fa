//! The agent of a node: what it knows, and how it carries out the control loop.

use vstd::prelude::*;

use crate::cascading;
use crate::cascading::CascadeManager;
use crate::cluster;
use crate::cluster::{Cluster, Member, MemberRole};
use crate::commands::ManagementCommand;
use crate::config::Config;
use crate::connstr;
use crate::connstr::find_first;
use crate::cycle;
use crate::cycle::{Answer, Core, DataDir, Order, Outcome, Phase, RejoinSource, Sight};
use crate::dynamic_config;
use crate::dynamic_config::{clone_parameters, DynamicConfigState, GlobalConfig};
use crate::election;
use crate::election::{other_running_member, plan_election, ElectionPlan};
use crate::failsafe;
use crate::failsafe::{Failsafe, FailsafeResult};
use crate::postgresql::Postgresql;
use crate::standby_cluster;
use crate::standby_cluster::StandbyCluster;
use crate::strip;
use crate::strip::unquote;
use crate::strmap::StringMap;
use crate::text;
use crate::text::{
    chars_of, find_chars, opt_as_str, split_char, split_whitespace, starts_with, str_eq, string_of,
    trim, until_from,
};

verus! {

// ---------------------------------------------------------------------------------------------
// What is seen of the node
// ---------------------------------------------------------------------------------------------
/// What is seen of the node at some moment.
#[derive(Debug)]
pub struct Observation {
    /// PostgreSQL runs.
    pub running: bool,
    /// `standby.signal` exists.
    pub standby_signal: bool,
    pub data_dir: DataDir,
    /// The contents of `postgresql.auto.conf`, if it can be read.
    pub auto_conf: Option<String>,
    /// For how many seconds `postgresql.auto.conf` has not changed, if that is known.
    pub auto_conf_age: Option<u64>,
}

/// The host that a line of `postgresql.auto.conf` makes a replica follow.
pub open spec fn line_upstream(line: Seq<char>) -> Option<Seq<char>> {
    let t = text::trimmed(line);
    if !"primary_conninfo"@.is_prefix_of(t) {
        None
    } else {
        match text::find(t, "host="@) {
            Some(i) => {
                let host = strip::unquoted(strip::first_word(t.skip(i + 5)));
                if host.len() > 0 {
                    Some(host)
                } else {
                    None
                }
            },
            None => None,
        }
    }
}

/// The host that the first line that names one makes a replica follow.
pub open spec fn lines_upstream(lines: Seq<Seq<char>>) -> Option<Seq<char>>
    decreases lines.len(),
{
    if lines.len() == 0 {
        None
    } else if line_upstream(lines[0]) is Some {
        line_upstream(lines[0])
    } else {
        lines_upstream(lines.skip(1))
    }
}

/// The host that a replica follows, by the contents of its `postgresql.auto.conf`.
pub open spec fn conf_upstream(content: Seq<char>) -> Option<Seq<char>> {
    lines_upstream(text::split_on(content, '\n'))
}

fn read_line_upstream(line: &str) -> (r: Option<String>)
    ensures
        text::opt_view(r) == line_upstream(line@),
{
    let t = trim(line);
    if !starts_with(t.as_str(), "primary_conninfo") {
        return None;
    }
    let v = chars_of(t.as_str());
    let key = chars_of("host=");
    proof {
        reveal_strlit("host=");
    }
    match find_chars(&v, &key) {
        Some(i) => {
            let n: usize = v.len();
            let rest = string_of(&v, i + 5, n);
            assert(rest@ =~= t@.skip(i + 5));
            let words = split_whitespace(rest.as_str());
            assert(text::strs(words@).len() == words@.len());
            if words.len() == 0 {
                assert(strip::unquoted(Seq::empty()).len() == 0);
                return None;
            }
            assert(text::strs(words@)[0] == words@[0]@);
            let host = unquote(words[0].as_str());
            let h = chars_of(host.as_str());
            if h.len() > 0 {
                Some(host)
            } else {
                None
            }
        },
        None => None,
    }
}

/// The host that a replica follows, by the contents of its `postgresql.auto.conf`.
pub fn read_current_upstream(content: &str) -> (r: Option<String>)
    ensures
        text::opt_view(r) == conf_upstream(content@),
{
    let lines = split_char(content, '\n');
    let ghost all = text::strs(lines@);
    assert(all.skip(0) =~= all);
    let mut i: usize = 0;
    while i < lines.len()
        invariant
            i <= lines@.len(),
            all == text::strs(lines@),
            all == text::split_on(content@, '\n'),
            lines_upstream(all.skip(i as int)) == lines_upstream(all),
        decreases lines@.len() - i,
    {
        assert(all.skip(i as int)[0] == lines@[i as int]@);
        assert(all.skip(i as int).skip(1) =~= all.skip(i + 1));
        if let Some(h) = read_line_upstream(lines[i].as_str()) {
            return Some(h);
        }
        i = i + 1;
    }
    None
}

/// The `primary_conninfo` that a line of `postgresql.auto.conf` sets.
pub open spec fn line_conninfo(line: Seq<char>) -> Option<Seq<char>> {
    let t = text::trimmed(line);
    let i = text::until(t, '=') as int;
    if "primary_conninfo"@.is_prefix_of(t) && i < t.len() {
        Some(strip::unquoted(text::trimmed(t.skip(i + 1))))
    } else {
        None
    }
}

/// The `primary_conninfo` that the first line that sets it gives.
pub open spec fn lines_conninfo(lines: Seq<Seq<char>>) -> Option<Seq<char>>
    decreases lines.len(),
{
    if lines.len() == 0 {
        None
    } else if line_conninfo(lines[0]) is Some {
        line_conninfo(lines[0])
    } else {
        lines_conninfo(lines.skip(1))
    }
}

/// The `primary_conninfo` of a replica, by the contents of its `postgresql.auto.conf`.
pub open spec fn conf_conninfo(content: Seq<char>) -> Option<Seq<char>> {
    lines_conninfo(text::split_on(content, '\n'))
}

fn read_line_conninfo(line: &str) -> (r: Option<String>)
    ensures
        text::opt_view(r) == line_conninfo(line@),
{
    let t = trim(line);
    let v = chars_of(t.as_str());
    let n: usize = v.len();
    let i: usize = until_from(&v, 0, '=');
    assert(v@.skip(0) =~= v@);
    if starts_with(t.as_str(), "primary_conninfo") && i < n {
        let rest = string_of(&v, i + 1, n);
        assert(rest@ =~= t@.skip(i + 1));
        Some(unquote(trim(rest.as_str()).as_str()))
    } else {
        None
    }
}

/// The `primary_conninfo` of a replica, by the contents of its `postgresql.auto.conf`.
pub fn read_conninfo(content: &str) -> (r: Option<String>)
    ensures
        text::opt_view(r) == conf_conninfo(content@),
{
    let lines = split_char(content, '\n');
    let ghost all = text::strs(lines@);
    assert(all.skip(0) =~= all);
    let mut i: usize = 0;
    while i < lines.len()
        invariant
            i <= lines@.len(),
            all == text::strs(lines@),
            all == text::split_on(content@, '\n'),
            lines_conninfo(all.skip(i as int)) == lines_conninfo(all),
        decreases lines@.len() - i,
    {
        assert(all.skip(i as int)[0] == lines@[i as int]@);
        assert(all.skip(i as int).skip(1) =~= all.skip(i + 1));
        if let Some(c) = read_line_conninfo(lines[i].as_str()) {
            return Some(c);
        }
        i = i + 1;
    }
    None
}

/// The `primary_conninfo` that is seen of a node.
pub open spec fn seen_conninfo(o: Observation) -> Option<Seq<char>> {
    match o.auto_conf {
        Some(content) => conf_conninfo(content@),
        None => None,
    }
}

// ---------------------------------------------------------------------------------------------
// The agent
// ---------------------------------------------------------------------------------------------
/// The agent of a node.
#[derive(Debug)]
pub struct Ha {
    pub config: Config,
    pub postgresql: Postgresql,
    /// The cluster, as it was read last.
    pub cluster: Cluster,
    /// This node believes that it holds the leader lock.
    pub is_leader: bool,
    pub is_paused: bool,
    pub dynamic_config_state: DynamicConfigState,
    /// The members that are asked when the store cannot be reached.
    pub failsafe: Failsafe,
    /// A switchover for later.
    pub pending_switchover: Option<ManagementCommand>,
    /// How many times in a row PostgreSQL has failed to start.
    pub start_fail_count: u32,
    /// What the run of the control loop waits for.
    pub phase: Phase,
    /// Why rewinding failed, in the run that is under way.
    pub rewind_error: String,
}

/// The state of the machine that runs the control loop.
pub open spec fn core_of(h: Ha) -> Core {
    Core {
        phase: h.phase,
        is_leader: h.is_leader,
        is_paused: h.is_paused,
        role: h.postgresql.role,
        start_fail_count: h.start_fail_count,
    }
}

/// Where the member with this name stands.
pub open spec fn place_of(c: Cluster, name: Seq<char>) -> RejoinSource {
    match cluster::first_index(c.members@, cluster::named(name)) {
        Some(i) => RejoinSource::At(i as usize),
        None => RejoinSource::Missing,
    }
}

/// Where the holder of the lock stands.
pub open spec fn holder_of(c: Cluster) -> RejoinSource {
    match c.leader {
        Some(l) => place_of(c, l.name@),
        None => RejoinSource::Missing,
    }
}

/// Who to catch up from if PostgreSQL does not start: the holder of the lock, else another member
/// that runs.
pub open spec fn rescuer_of(c: Cluster, name: Seq<char>) -> RejoinSource {
    match c.leader {
        Some(l) => place_of(c, l.name@),
        None => match cluster::first_index(c.members@, election::other_running(name)) {
            Some(i) => place_of(c, c.members@[i].name@),
            None => RejoinSource::Nobody,
        },
    }
}

/// What to do if nobody holds the lock.
pub open spec fn plan_of(h: Ha, o: Observation) -> ElectionPlan {
    let c = h.cluster;
    let name = h.config.name@;
    let tags = h.config.tags;
    if h.is_paused {
        ElectionPlan::Paused
    } else if election::stale_primary(c, name, tags, o.running, o.standby_signal) {
        let i = election::rejoin_source(c, name)->0;
        match place_of(c, c.members@[i].name@) {
            RejoinSource::At(j) => ElectionPlan::Rejoin(j),
            _ => ElectionPlan::Wait,
        }
    } else {
        match election::designated(c) {
            Some(candidate) => if candidate == name {
                ElectionPlan::Attempt
            } else {
                ElectionPlan::Defer
            },
            None => if election::healthiest(
                c,
                name,
                tags.nofailover,
                tags.failover_priority,
                o.running,
            ) && election::in_reach(
                c,
                name,
                h.dynamic_config_state.last_config.maximum_lag_on_failover,
            ) {
                ElectionPlan::Attempt
            } else {
                ElectionPlan::Wait
            },
        }
    }
}

/// `postgresql.auto.conf` was written so short a time ago that it is left alone.
pub open spec fn recently_reconfigured(h: Ha, o: Observation) -> bool {
    match o.auto_conf_age {
        Some(age) => age < h.config.retry_timeout,
        None => false,
    }
}

/// The member to follow from now on, if this node follows another host than that member's.
pub open spec fn moved_to(h: Ha, o: Observation) -> Option<usize> {
    let c = h.cluster;
    let current = match o.auto_conf {
        Some(content) => conf_upstream(content@),
        None => None,
    };
    match cascading::upstream_index(
        c,
        h.config.name@,
        text::opt_view(h.config.tags.replicatefrom),
    ) {
        Some(i) => match (
            connstr::first_value(text::words(c.members@[i].conn_url@), "host="@),
            current,
        ) {
            (Some(expected), Some(host)) => if expected.len() > 0 && host != expected
                && !recently_reconfigured(h, o) {
                Some(i as usize)
            } else {
                None
            },
            _ => None,
        },
        None => None,
    }
}

/// There is a member with this name.
pub open spec fn is_member(c: Cluster, name: Seq<char>) -> bool {
    exists|i: int| 0 <= i < c.members@.len() && (#[trigger] c.members@[i]).name@ == name
}

/// This node is the leader that was read.
pub open spec fn owns_lock(h: Ha) -> bool {
    match h.cluster.leader {
        Some(l) => l.name@ == h.config.name@,
        None => false,
    }
}

/// PostgreSQL runs as a standby of the remote primary of a standby cluster.
pub open spec fn follows_remote(h: Ha, o: Observation) -> bool {
    match h.dynamic_config_state.last_config.standby_cluster {
        Some(c) => o.running && h.postgresql.role != MemberRole::Primary
            && standby_cluster::points_to(seen_conninfo(o), c.host@, c.port),
        None => false,
    }
}

/// What the node looks like to the control loop.
pub open spec fn sight_of(h: Ha, o: Observation) -> Sight {
    let c = h.cluster;
    Sight {
        running: o.running,
        standby_signal: o.standby_signal,
        data_dir: o.data_dir,
        unlocked: c.leader is None,
        lock_owner: owns_lock(h),
        registered: is_member(c, h.config.name@),
        initialized: c.initialize is Some,
        inhabited: c.members@.len() > 0 || c.leader is Some,
        standby_cluster: h.dynamic_config_state.last_config.standby_cluster is Some,
        follows_remote: follows_remote(h, o),
        failsafe: h.failsafe.enabled,
        plan: plan_of(h, o),
        holder: holder_of(c),
        rescuer: rescuer_of(c, h.config.name@),
        moved: moved_to(h, o),
    }
}

/// The place is that of one of `n` members.
pub open spec fn place_ok(p: RejoinSource, n: nat) -> bool {
    match p {
        RejoinSource::At(i) => i < n,
        _ => true,
    }
}

/// Every member that is spoken of is one of `n` members.
pub open spec fn sight_ok(s: Sight, n: nat) -> bool {
    &&& place_ok(s.holder, n)
    &&& place_ok(s.rescuer, n)
    &&& match s.plan {
        ElectionPlan::Rejoin(i) => i < n,
        _ => true,
    }
    &&& match s.moved {
        Some(i) => i < n,
        None => true,
    }
}

/// The member that is waited for, if one is, is one of `n` members.
pub open spec fn phase_ok(p: Phase, n: nat) -> bool {
    match p {
        Phase::RejoinStopping(i) => i < n,
        Phase::Rewinding(i) => i < n,
        Phase::Removing(i) => i < n,
        Phase::Copying(i) => i < n,
        Phase::WritingStandby(i) => i < n,
        Phase::RejoinStarting(i) => i < n,
        Phase::WritingConf(i) => i < n,
        Phase::Touching(o) => outcome_ok(o, n),
        _ => true,
    }
}

/// The member that an outcome speaks of, if it does, is one of `n` members.
pub open spec fn outcome_ok(o: Outcome, n: nat) -> bool {
    match o {
        Outcome::Rejoined(i) => i < n,
        _ => true,
    }
}

/// The member that an order speaks of, if it does, is one of `n` members.
pub open spec fn order_ok(o: Order, n: nat) -> bool {
    match o {
        Order::Rewind(i) => i < n,
        Order::Copy(i) => i < n,
        Order::WriteStandby(i) => i < n,
        Order::Reconfigure(i) => i < n,
        Order::Finish(o) => outcome_ok(o, n),
        _ => true,
    }
}

impl Ha {
    /// The run of the control loop is about members that there are.
    pub open spec fn wf(&self) -> bool {
        phase_ok(self.phase, self.cluster.members@.len())
    }
}

/// Nothing but the state of the control loop differs between `a` and `b`.
pub open spec fn same_setting(a: Ha, b: Ha) -> bool {
    &&& a.config == b.config
    &&& a.cluster == b.cluster
    &&& a.dynamic_config_state == b.dynamic_config_state
    &&& a.failsafe == b.failsafe
    &&& a.pending_switchover == b.pending_switchover
    &&& a.postgresql.config == b.postgresql.config
    &&& a.postgresql.state == b.postgresql.state
}

fn find_place(c: &Cluster, name: &str) -> (r: RejoinSource)
    ensures
        r == place_of(*c, name@),
        place_ok(r, c.members@.len()),
{
    match c.member_index(name) {
        Some(i) => RejoinSource::At(i),
        None => RejoinSource::Missing,
    }
}

proof fn lemma_place_found(c: Cluster, i: int)
    requires
        0 <= i < c.members@.len(),
    ensures
        place_of(c, c.members@[i].name@) is At,
{
    cluster::lemma_first_index(c.members@, cluster::named(c.members@[i].name@));
    assert(cluster::named(c.members@[i].name@)(c.members@[i]));
}

proof fn lemma_next_ok(c: Core, s: Sight, a: Answer, n: nat)
    requires
        phase_ok(c.phase, n),
        sight_ok(s, n),
    ensures
        phase_ok(cycle::next(c, s, a).0.phase, n),
        order_ok(cycle::next(c, s, a).1, n),
{
    reveal(cycle::next);
}

proof fn lemma_config_ok(c: Core, s: Sight, reload: bool, n: nat)
    requires
        sight_ok(s, n),
    ensures
        phase_ok(cycle::config_rule(c, s, reload).0.phase, n),
        order_ok(cycle::config_rule(c, s, reload).1, n),
{
    reveal(cycle::config_rule);
}

impl Ha {
    /// An agent that knows nothing of the cluster yet.
    pub fn new(config: Config, postgresql: Postgresql) -> (r: Self)
        ensures
            r.config == config,
            r.postgresql == postgresql,
            cluster::is_blank(r.cluster),
            !r.is_leader,
            !r.is_paused,
            r.dynamic_config_state.last_config@ == dynamic_config::blank(),
            !r.dynamic_config_state.pending_restart,
            !r.failsafe.enabled,
            r.failsafe.members@ == Map::<Seq<char>, Seq<char>>::empty(),
            r.failsafe.last_success is None,
            r.failsafe.ttl == config.ttl,
            r.pending_switchover is None,
            r.start_fail_count == 0,
            r.phase == Phase::Idle,
            r.wf(),
    {
        let failsafe = Failsafe::new(config.ttl);
        Ha {
            config,
            postgresql,
            failsafe,
            cluster: Cluster::empty(),
            is_leader: false,
            is_paused: false,
            dynamic_config_state: DynamicConfigState::new(),
            pending_switchover: None,
            start_fail_count: 0,
            phase: Phase::Idle,
            rewind_error: String::new(),
        }
    }

    fn machine(&self) -> (r: Core)
        ensures
            r == core_of(*self),
    {
        Core {
            phase: self.phase,
            is_leader: self.is_leader,
            is_paused: self.is_paused,
            role: self.postgresql.role,
            start_fail_count: self.start_fail_count,
        }
    }

    fn set_core(&mut self, c: Core)
        ensures
            core_of(*final(self)) == c,
            same_setting(*final(self), *old(self)),
            final(self).rewind_error == old(self).rewind_error,
    {
        self.phase = c.phase;
        self.is_leader = c.is_leader;
        self.is_paused = c.is_paused;
        self.postgresql.role = c.role;
        self.start_fail_count = c.start_fail_count;
    }

    /// Whether this node is the leader that was read.
    pub fn is_lock_owner(&self) -> (r: bool)
        ensures
            r == owns_lock(*self),
    {
        match &self.cluster.leader {
            Some(l) => str_eq(l.name.as_str(), self.config.name.as_str()),
            None => false,
        }
    }

    /// Whether `postgresql.auto.conf` was written so short a time ago that it is left alone.
    pub fn is_recently_reconfigured(&self, o: &Observation) -> (r: bool)
        ensures
            r == recently_reconfigured(*self, *o),
    {
        match o.auto_conf_age {
            Some(age) => age < self.config.retry_timeout,
            None => false,
        }
    }

    fn rescuer(&self) -> (r: RejoinSource)
        ensures
            r == rescuer_of(self.cluster, self.config.name@),
            place_ok(r, self.cluster.members@.len()),
    {
        match &self.cluster.leader {
            Some(l) => find_place(&self.cluster, l.name.as_str()),
            None => match other_running_member(&self.cluster, self.config.name.as_str()) {
                Some(i) => find_place(&self.cluster, self.cluster.members[i].name.as_str()),
                None => RejoinSource::Nobody,
            },
        }
    }

    fn plan(&self, o: &Observation) -> (r: ElectionPlan)
        ensures
            r == plan_of(*self, *o),
            r matches ElectionPlan::Rejoin(i) ==> i < self.cluster.members@.len(),
    {
        let plan = plan_election(
            &self.cluster,
            self.config.name.as_str(),
            &self.config.tags,
            self.dynamic_config_state.last_config.maximum_lag_on_failover,
            self.is_paused,
            o.running,
            o.standby_signal,
        );
        match plan {
            ElectionPlan::Rejoin(i) => {
                match find_place(&self.cluster, self.cluster.members[i].name.as_str()) {
                    RejoinSource::At(j) => ElectionPlan::Rejoin(j),
                    _ => {
                        proof {
                            lemma_place_found(self.cluster, i as int);
                        }
                        ElectionPlan::Wait
                    },
                }
            },
            _ => plan,
        }
    }

    fn moved(&self, o: &Observation) -> (r: Option<usize>)
        ensures
            r == moved_to(*self, *o),
            r matches Some(i) ==> i < self.cluster.members@.len(),
    {
        let current: Option<String> = match &o.auto_conf {
            Some(content) => read_current_upstream(content.as_str()),
            None => None,
        };
        let upstream = CascadeManager::select_upstream_index(
            self.config.name.as_str(),
            opt_as_str(&self.config.tags.replicatefrom),
            &self.cluster,
        );
        match upstream {
            Some(i) => {
                let expected = find_first(self.cluster.members[i].conn_url.as_str(), "host=");
                match (expected, current) {
                    (Some(expected), Some(host)) => {
                        let e = chars_of(expected.as_str());
                        if e.len() > 0 && !str_eq(host.as_str(), expected.as_str())
                            && !self.is_recently_reconfigured(o) {
                            Some(i)
                        } else {
                            None
                        }
                    },
                    _ => None,
                }
            },
            None => None,
        }
    }

    fn is_following_remote(&self, o: &Observation) -> (r: bool)
        ensures
            r == follows_remote(*self, *o),
    {
        match StandbyCluster::get_config(&self.dynamic_config_state.last_config) {
            Some(c) => {
                let conninfo: Option<String> = match &o.auto_conf {
                    Some(content) => read_conninfo(content.as_str()),
                    None => None,
                };
                StandbyCluster::enforce_follow_remote_member(
                    c,
                    o.running,
                    self.postgresql.is_primary(),
                    opt_as_str(&conninfo),
                )
            },
            None => false,
        }
    }

    /// What the node looks like to the control loop.
    pub fn sight(&self, o: &Observation) -> (r: Sight)
        ensures
            r == sight_of(*self, *o),
            sight_ok(r, self.cluster.members@.len()),
    {
        let holder = match &self.cluster.leader {
            Some(l) => find_place(&self.cluster, l.name.as_str()),
            None => RejoinSource::Missing,
        };
        Sight {
            running: o.running,
            standby_signal: o.standby_signal,
            data_dir: o.data_dir,
            unlocked: self.cluster.is_unlocked(),
            lock_owner: self.is_lock_owner(),
            registered: self.cluster.has_member(self.config.name.as_str()),
            initialized: self.cluster.initialize.is_some(),
            inhabited: self.cluster.members.len() > 0 || self.cluster.leader.is_some(),
            standby_cluster: self.is_standby_cluster(),
            follows_remote: self.is_following_remote(o),
            failsafe: self.failsafe.is_enabled(),
            plan: self.plan(o),
            holder,
            rescuer: self.rescuer(),
            moved: self.moved(o),
        }
    }

    /// Begins a run of the control loop with the state of the cluster, if it could be read. The
    /// members in it are those that are asked when it cannot be read later.
    pub fn begin(&mut self, loaded: Option<Cluster>) -> (r: Order)
        ensures
            match loaded {
                Some(c) => {
                    &&& final(self).cluster == c
                    &&& (core_of(*final(self)), r) == cycle::begin_rule(
                        Core { is_paused: pause_flag(c), ..core_of(*old(self)) },
                        true,
                        old(self).failsafe.enabled,
                    )
                    &&& final(self).failsafe.members@ == failsafe_members(c)
                },
                None => {
                    &&& final(self).cluster == old(self).cluster
                    &&& (core_of(*final(self)), r) == cycle::begin_rule(
                        core_of(*old(self)),
                        false,
                        old(self).failsafe.enabled,
                    )
                    &&& final(self).failsafe.members == old(self).failsafe.members
                },
            },
            final(self).failsafe == (Failsafe {
                members: final(self).failsafe.members,
                ..old(self).failsafe
            }),
            final(self).config == old(self).config,
            final(self).dynamic_config_state == old(self).dynamic_config_state,
            final(self).pending_switchover == old(self).pending_switchover,
            final(self).postgresql.config == old(self).postgresql.config,
            final(self).postgresql.state == old(self).postgresql.state,
            final(self).wf(),
    {
        let mut m = self.machine();
        match loaded {
            Some(c) => {
                m.is_paused = read_pause(&c);
                self.failsafe.update_members(find_failsafe_members(&c));
                self.cluster = c;
                let r = m.begin(true, self.failsafe.is_enabled());
                self.set_core(m);
                r
            },
            None => {
                let r = m.begin(false, self.failsafe.is_enabled());
                self.set_core(m);
                r
            },
        }
    }

    /// Goes on with the cluster-wide configuration, if there is one that can be read: takes over
    /// what it changes.
    #[verifier::spinoff_prover]
    #[verifier::rlimit(60)]
    pub fn process_dynamic_config(&mut self, new: Option<GlobalConfig>, o: &Observation) -> (r:
        Order)
        ensures
            final(self).cluster == old(self).cluster,
            final(self).pending_switchover == old(self).pending_switchover,
            final(self).postgresql.config == old(self).postgresql.config,
            final(self).postgresql.state == old(self).postgresql.state,
            final(self).wf(),
            order_ok(r, final(self).cluster.members@.len()),
            match new {
                None => {
                    &&& final(self).config == old(self).config
                    &&& final(self).dynamic_config_state == old(self).dynamic_config_state
                    &&& final(self).failsafe == old(self).failsafe
                    &&& (core_of(*final(self)), r) == cycle::config_rule(
                        core_of(*old(self)),
                        sight_of(*old(self), *o),
                        false,
                    )
                },
                Some(g) => {
                    let before = old(self).dynamic_config_state;
                    let taken = taken_config(old(self).config, before.last_config@, g@);
                    &&& final(self).config == taken
                    &&& final(self).failsafe == (Failsafe {
                        enabled: g.failsafe_mode == Some(true),
                        ..old(self).failsafe
                    })
                    &&& final(self).dynamic_config_state.last_config == g
                    &&& exists|changes: dynamic_config::ConfigChanges| #[trigger]
                        dynamic_config::changes_between(before.last_config@, g@, changes)
                            && final(self).dynamic_config_state.pending_restart == (
                        before.pending_restart || changes.pg_restart_params@ != Map::<
                            Seq<char>,
                            Seq<char>,
                        >::empty()) && final(self).dynamic_config_state.pending_restart_params@
                            == before.pending_restart_params@.union_prefer_right(
                            changes.pg_restart_params@,
                        ) && after_config(
                            *old(self),
                            *final(self),
                            r,
                            g@.pause,
                            *o,
                            changes.pg_reload_params@ != Map::<Seq<char>, Seq<char>>::empty()
                                || changes.pg_removed_params@.len() > 0,
                        )
                },
            },
    {
        let mut reload = false;
        if let Some(g) = new {
            let loop_wait = g.loop_wait;
            let ttl = g.ttl;
            let retry_timeout = g.retry_timeout;
            if let Some(pause) = g.pause {
                self.is_paused = pause;
            }
            self.failsafe.set_enabled(g.failsafe_mode == Some(true));
            let changes = self.dynamic_config_state.apply_new_config(g);
            if changes.ha_params_changed {
                if let Some(n) = loop_wait {
                    self.config.loop_wait = n;
                }
                if let Some(n) = ttl {
                    self.config.ttl = n;
                }
                if let Some(n) = retry_timeout {
                    self.config.retry_timeout = n;
                }
            }
            reload = changes.needs_reload();
            let s = self.sight(o);
            let mut m = self.machine();
            proof {
                lemma_config_ok(m, s, reload, self.cluster.members@.len());
            }
            let r = m.config_read(s, reload);
            self.set_core(m);
            assert(after_config(*old(self), *self, r, g@.pause, *o, reload));
            return r;
        }
        let s = self.sight(o);
        let mut m = self.machine();
        proof {
            lemma_config_ok(m, s, reload, self.cluster.members@.len());
        }
        let r = m.config_read(s, reload);
        self.set_core(m);
        r
    }

    /// What the members that were asked have said, in the order in which they were to be asked:
    /// done if every one has confirmed this primary.
    pub fn check_failsafe(&mut self, answers: &Vec<bool>) -> (r: Answer)
        ensures
            r == if failsafe::all_confirmed(
                old(self).failsafe,
                old(self).config.name@,
                answers@,
            ) {
                Answer::Done
            } else {
                Answer::Refused
            },
            *final(self) == (Ha {
                failsafe: Failsafe {
                    last_success: final(self).failsafe.last_success,
                    ..old(self).failsafe
                },
                ..*old(self)
            }),
            r == Answer::Done ==> final(self).failsafe.last_success is Some,
            r != Answer::Done ==> final(self).failsafe.last_success
                == old(self).failsafe.last_success,
    {
        match self.failsafe.check_topology(self.config.name.as_str(), answers) {
            FailsafeResult::AllConfirmed => Answer::Done,
            _ => Answer::Refused,
        }
    }

    /// Goes on once an order was carried out; `error` says why, where it failed.
    pub fn step(&mut self, o: &Observation, a: Answer, error: &str) -> (r: Order)
        requires
            old(self).wf(),
            old(self).start_fail_count < u32::MAX,
        ensures
            (core_of(*final(self)), r) == cycle::next(
                core_of(*old(self)),
                sight_of(*old(self), *o),
                a,
            ),
            same_setting(*final(self), *old(self)),
            final(self).rewind_error@ == if old(self).phase is Rewinding && a != Answer::Done {
                error@
            } else {
                old(self).rewind_error@
            },
            final(self).wf(),
            order_ok(r, final(self).cluster.members@.len()),
    {
        let s = self.sight(o);
        let mut m = self.machine();
        let rewinding = match self.phase {
            Phase::Rewinding(_) => true,
            _ => false,
        };
        if rewinding && a != Answer::Done {
            self.rewind_error = error.to_string();
        }
        proof {
            lemma_next_ok(m, s, a, self.cluster.members@.len());
        }
        let r = m.step(s, a);
        self.set_core(m);
        r
    }

    /// Whether this node believes that it holds the leader lock.
    pub fn is_leader(&self) -> (r: bool)
        ensures
            r == self.is_leader,
    {
        self.is_leader
    }

    /// Whether the cluster is paused.
    pub fn is_paused(&self) -> (r: bool)
        ensures
            r == self.is_paused,
    {
        self.is_paused
    }

    /// Whether the cluster follows a remote primary.
    pub fn is_standby_cluster(&self) -> (r: bool)
        ensures
            r == self.dynamic_config_state.last_config.standby_cluster is Some,
    {
        self.dynamic_config_state.last_config.standby_cluster.is_some()
    }

    /// Whether PostgreSQL must be restarted for changed parameters.
    pub fn pending_restart(&self) -> (r: bool)
        ensures
            r == self.dynamic_config_state.pending_restart,
    {
        self.dynamic_config_state.pending_restart
    }

    /// The cluster-wide configuration that was applied last.
    pub fn dynamic_config_state(&self) -> (r: &DynamicConfigState)
        ensures
            *r == self.dynamic_config_state,
    {
        &self.dynamic_config_state
    }

    /// The cluster, as it was read last.
    pub fn cluster(&self) -> (r: &Cluster)
        ensures
            *r == self.cluster,
    {
        &self.cluster
    }

    /// PostgreSQL on this node.
    pub fn postgresql(&self) -> (r: &Postgresql)
        ensures
            *r == self.postgresql,
    {
        &self.postgresql
    }

    /// PostgreSQL on this node, to be changed.
    pub fn postgresql_mut(&mut self) -> (r: &mut Postgresql)
        ensures
            *r == old(self).postgresql,
            *final(self) == (Ha { postgresql: *final(r), ..*old(self) }),
    {
        &mut self.postgresql
    }

    /// The configuration of this node.
    pub fn config(&self) -> (r: &Config)
        ensures
            *r == self.config,
    {
        &self.config
    }
}

/// Where the agents of the members answer, by their names.
pub open spec fn api_urls(members: Seq<Member>) -> Map<Seq<char>, Seq<char>>
    decreases members.len(),
{
    if members.len() == 0 {
        Map::empty()
    } else {
        api_urls(members.drop_last()).insert(members.last().name@, members.last().api_url@)
    }
}

/// The members that must confirm a primary which cannot reach the store: those that the cluster
/// names for it, else all.
pub open spec fn failsafe_members(c: Cluster) -> Map<Seq<char>, Seq<char>> {
    match c.failsafe {
        Some(m) => m@,
        None => api_urls(c.members@),
    }
}

fn find_failsafe_members(c: &Cluster) -> (r: StringMap<String>)
    ensures
        r@ == failsafe_members(*c),
{
    match &c.failsafe {
        Some(m) => clone_parameters(m),
        None => {
            let mut out: StringMap<String> = StringMap::new();
            let mut i: usize = 0;
            assert(c.members@.take(0) =~= Seq::empty());
            while i < c.members.len()
                invariant
                    i <= c.members@.len(),
                    out@ == api_urls(c.members@.take(i as int)),
                decreases c.members@.len() - i,
            {
                assert(c.members@.take(i + 1).drop_last() =~= c.members@.take(i as int));
                assert(c.members@.take(i + 1).last() == c.members@[i as int]);
                out.insert(c.members[i].name.clone(), c.members[i].api_url.clone());
                i = i + 1;
            }
            assert(c.members@.take(i as int) =~= c.members@);
            out
        },
    }
}

/// The configuration of the cluster says that it is paused.
pub open spec fn pause_flag(c: Cluster) -> bool {
    match c.config {
        Some(cc) => cluster::flag(cc.data@, "pause"@),
        None => false,
    }
}

fn read_pause(c: &Cluster) -> (r: bool)
    ensures
        r == pause_flag(*c),
{
    match &c.config {
        Some(cc) => cluster::tag_flag(&cc.data, "pause"),
        None => false,
    }
}

/// `new`, or `old` where there is no new value.
pub open spec fn or_old(new: Option<u64>, old: u64) -> u64 {
    match new {
        Some(n) => n,
        None => old,
    }
}

/// The configuration of the node after the cluster-wide one has changed from `before` to `g`.
pub open spec fn taken_config(
    c: Config,
    before: dynamic_config::GlobalView,
    g: dynamic_config::GlobalView,
) -> Config {
    if dynamic_config::ha_differs(before, g) {
        Config {
            loop_wait: or_old(g.loop_wait, c.loop_wait),
            ttl: or_old(g.ttl, c.ttl),
            retry_timeout: or_old(g.retry_timeout, c.retry_timeout),
            ..c
        }
    } else {
        c
    }
}

/// The control loop has gone on from `a` to `b` with order `r`, once the configuration was taken
/// over.
pub open spec fn after_config(
    a: Ha,
    b: Ha,
    r: Order,
    pause: Option<bool>,
    o: Observation,
    reload: bool,
) -> bool {
    let is_paused = match pause {
        Some(p) => p,
        None => a.is_paused,
    };
    let mid = Ha {
        config: b.config,
        dynamic_config_state: b.dynamic_config_state,
        failsafe: b.failsafe,
        is_paused,
        ..a
    };
    (core_of(b), r) == cycle::config_rule(core_of(mid), sight_of(mid, o), reload)
}

// ---------------------------------------------------------------------------------------------
// Laws
// ---------------------------------------------------------------------------------------------
/// What the control loop sees is what was read of the cluster and of the node: the lock is this
/// node's if the leader has its name and nobody's if there is no leader; the node is registered if a
/// member has its name; and so on.
pub proof fn law_sight_is_what_was_read(h: Ha, o: Observation)
    ensures
        ({
            let s = sight_of(h, o);
            &&& s.running == o.running
            &&& s.standby_signal == o.standby_signal
            &&& s.data_dir == o.data_dir
            &&& s.unlocked <==> h.cluster.leader is None
            &&& s.lock_owner <==> h.cluster.leader is Some && h.cluster.leader->0.name@
                == h.config.name@
            &&& s.registered <==> exists|i: int|
                0 <= i < h.cluster.members@.len() && (#[trigger] h.cluster.members@[i]).name@
                    == h.config.name@
            &&& s.initialized <==> h.cluster.initialize is Some
            &&& s.inhabited <==> h.cluster.members@.len() > 0 || h.cluster.leader is Some
            &&& s.standby_cluster <==> h.dynamic_config_state.last_config.standby_cluster is Some
            &&& s.failsafe <==> h.failsafe.enabled
            &&& s.follows_remote ==> s.standby_cluster && o.running && h.postgresql.role
                != MemberRole::Primary && o.auto_conf is Some
            &&& s.lock_owner ==> !s.unlocked
        }),
{
}

/// The machine that runs the loop knows of the node what the agent knows.
pub proof fn law_machine_is_the_agent(h: Ha)
    ensures
        core_of(h).phase == h.phase,
        core_of(h).is_leader == h.is_leader,
        core_of(h).is_paused == h.is_paused,
        core_of(h).role == h.postgresql.role,
        core_of(h).start_fail_count == h.start_fail_count,
{
}

/// The holder of the lock is the first member with the leader's name, and missing where there is
/// none. The one to catch up from is the holder, whoever runs; where nobody holds the lock, it is
/// another member that runs; and it is nobody only where no other member runs.
pub proof fn law_rejoin_sources_are_members(c: Cluster, name: Seq<char>, i: int)
    requires
        0 <= i < c.members@.len() <= usize::MAX,
        forall|j: int| 0 <= j < i ==> (#[trigger] c.members@[j]).name@ != c.members@[i].name@,
    ensures
        c.leader is Some && c.leader->0.name@ == c.members@[i].name@ ==> holder_of(c)
            == RejoinSource::At(i as usize) && rescuer_of(c, name) == RejoinSource::At(i as usize),
        c.leader is None ==> holder_of(c) == RejoinSource::Missing,
        c.leader is Some && !is_member(c, c.leader->0.name@) ==> holder_of(c)
            == RejoinSource::Missing && rescuer_of(c, name) == RejoinSource::Missing,
        c.leader is None && c.members@[i].name@ != name && c.members@[i].state
            == cluster::MemberState::Running ==> {
            &&& rescuer_of(c, name) matches RejoinSource::At(k)
            &&& k < c.members@.len()
            &&& c.members@[k as int].name@ != name
        },
        c.leader is None && (forall|j: int|
            0 <= j < c.members@.len() ==> (#[trigger] c.members@[j]).name@ == name
                || c.members@[j].state != cluster::MemberState::Running) ==> rescuer_of(c, name)
            == RejoinSource::Nobody,
{
    let p = cluster::named(c.members@[i].name@);
    cluster::lemma_first_index(c.members@, p);
    assert(p(c.members@[i]));
    let k = cluster::first_index(c.members@, p)->0;
    if k < i {
        assert(c.members@[k].name@ != c.members@[i].name@);
    }
    if i < k {
        assert(!p(c.members@[i]));
    }
    if let Some(l) = c.leader {
        let q = cluster::named(l.name@);
        cluster::lemma_first_index(c.members@, q);
        if cluster::first_index(c.members@, q) is Some {
            assert(c.members@[cluster::first_index(c.members@, q)->0].name@ == l.name@);
            assert(is_member(c, l.name@));
        }
    }
    let r = election::other_running(name);
    cluster::lemma_first_index(c.members@, r);
    if cluster::first_index(c.members@, r) is None {
        assert(!r(c.members@[i]));
    } else {
        let f = cluster::first_index(c.members@, r)->0;
        assert(r(c.members@[f]));
        let n = cluster::named(c.members@[f].name@);
        cluster::lemma_first_index(c.members@, n);
        assert(n(c.members@[f]));
    }
}

/// When nobody holds the lock: in a paused cluster nothing is done. A node that runs as primary
/// though it is not the healthiest rejoins another one, if there is one to rejoin. Otherwise the
/// candidate that an operator has named takes the lock and all others leave it to that candidate.
/// Where none is named, the healthiest node takes it, unless it lacks too much of the log.
pub proof fn law_who_takes_a_free_lock(h: Ha, o: Observation)
    ensures
        ({
            let c = h.cluster;
            let name = h.config.name@;
            let best = election::healthiest(
                c,
                name,
                h.config.tags.nofailover,
                h.config.tags.failover_priority,
                o.running,
            );
            let stale = o.running && !o.standby_signal && !best && election::rejoin_source(
                c,
                name,
            ) is Some;
            let named = c.failover is Some && c.failover->0.candidate is Some;
            let mine = named && c.failover->0.candidate->0@ == name;
            let near = election::in_reach(
                c,
                name,
                h.dynamic_config_state.last_config.maximum_lag_on_failover,
            );
            let plan = plan_of(h, o);
            &&& plan == ElectionPlan::Paused <==> h.is_paused
            &&& plan is Rejoin <==> !h.is_paused && stale
            &&& plan == ElectionPlan::Attempt <==> !h.is_paused && !stale && (mine || (!named && best
                && near))
            &&& plan == ElectionPlan::Defer <==> !h.is_paused && !stale && named && !mine
            &&& plan == ElectionPlan::Wait <==> !h.is_paused && !stale && !named && !(best && near)
        }),
{
    let c = h.cluster;
    let name = h.config.name@;
    if election::rejoin_source(c, name) is Some {
        election::law_rejoin_source_runs(c, name, 0);
        lemma_place_found(c, election::rejoin_source(c, name)->0);
    }
}

/// A node that rejoins when nobody holds the lock rejoins a member that runs.
pub proof fn law_stale_primary_rejoins_a_running_member(h: Ha, o: Observation)
    requires
        election::names_differ(h.cluster),
        h.cluster.members@.len() <= usize::MAX,
    ensures
        plan_of(h, o) matches ElectionPlan::Rejoin(j) ==> j < h.cluster.members@.len()
            && h.cluster.members@[j as int].state == cluster::MemberState::Running
            && election::rejoin_source(h.cluster, h.config.name@) == Some(j as int),
{
    let c = h.cluster;
    let name = h.config.name@;
    if plan_of(h, o) is Rejoin {
        election::law_rejoin_source_runs(c, name, 0);
        let i = election::rejoin_source(c, name)->0;
        let p = cluster::named(c.members@[i].name@);
        cluster::lemma_first_index(c.members@, p);
        assert(p(c.members@[i]));
        let k = cluster::first_index(c.members@, p)->0;
        if k < i {
            assert(c.members@[k].name@ != c.members@[i].name@);
        } else if i < k {
            assert(c.members@[i].name@ != c.members@[k].name@);
        }
    }
}

/// A replica moves to another member exactly if it is known which host it follows, that is not the
/// host of the member that it is to follow, and its configuration is not too new.
pub proof fn law_replica_moves_only_if_it_follows_another(h: Ha, o: Observation, i: int)
    requires
        h.cluster.members@.len() <= usize::MAX,
        cascading::upstream_index(
            h.cluster,
            h.config.name@,
            text::opt_view(h.config.tags.replicatefrom),
        ) == Some(i),
        0 <= i < h.cluster.members@.len(),
    ensures
        ({
            let expected = connstr::first_value(
                text::words(h.cluster.members@[i].conn_url@),
                "host="@,
            );
            let current = if o.auto_conf is Some {
                conf_upstream(o.auto_conf->0@)
            } else {
                None
            };
            let too_new = o.auto_conf_age is Some && o.auto_conf_age->0 < h.config.retry_timeout;
            moved_to(h, o) == if current is Some && expected is Some && expected->0.len() > 0
                && current != expected && !too_new {
                Some(i as usize)
            } else {
                None
            }
        }),
{
}

/// A cluster is paused exactly if its configuration holds `pause` as true.
pub proof fn law_pause_is_read_from_the_config(c: Cluster)
    ensures
        pause_flag(c) <==> c.config is Some && c.config->0.data@.dom().contains("pause"@)
            && c.config->0.data@["pause"@] == crate::json::JsonView::Bool(true),
{
}

/// The members that must confirm a primary are those that the cluster names for it; where it names
/// none, every member must, at the address where its agent answers.
pub proof fn law_every_member_is_asked_to_confirm(c: Cluster, i: int)
    requires
        0 <= i < c.members@.len(),
        forall|j: int|
            i < j < c.members@.len() ==> (#[trigger] c.members@[j]).name@ != c.members@[i].name@,
    ensures
        c.failsafe is Some ==> failsafe_members(c) == c.failsafe->0@,
        c.failsafe is None ==> failsafe_members(c).dom().contains(c.members@[i].name@)
            && failsafe_members(c)[c.members@[i].name@] == c.members@[i].api_url@,
{
    lemma_api_urls(c.members@, i);
}

proof fn lemma_api_urls(members: Seq<Member>, i: int)
    requires
        0 <= i < members.len(),
        forall|j: int| i < j < members.len() ==> (#[trigger] members[j]).name@ != members[i].name@,
    ensures
        api_urls(members).dom().contains(members[i].name@),
        api_urls(members)[members[i].name@] == members[i].api_url@,
    decreases members.len(),
{
    if i < members.len() - 1 {
        let init = members.drop_last();
        assert(init[i] == members[i]);
        assert forall|j: int| i < j < init.len() implies (#[trigger] init[j]).name@
            != init[i].name@ by {
            assert(members[j] == init[j]);
        }
        lemma_api_urls(init, i);
        assert(members[members.len() - 1].name@ != members[i].name@);
    }
}

/// Nobody but a member is asked to confirm a primary where the cluster names none for it.
pub proof fn law_only_members_are_asked_to_confirm(c: Cluster, name: Seq<char>)
    requires
        c.failsafe is None,
        failsafe_members(c).dom().contains(name),
    ensures
        is_member(c, name),
{
    lemma_api_names(c.members@, name);
    let i = choose|i: int| 0 <= i < c.members@.len() && (#[trigger] c.members@[i]).name@ == name;
    assert(c.members@[i].name@ == name);
}

proof fn lemma_api_names(members: Seq<Member>, name: Seq<char>)
    requires
        api_urls(members).dom().contains(name),
    ensures
        exists|i: int| 0 <= i < members.len() && (#[trigger] members[i]).name@ == name,
    decreases members.len(),
{
    if members.len() > 0 {
        let init = members.drop_last();
        if members.last().name@ == name {
            assert(members[members.len() - 1].name@ == name);
        } else {
            lemma_api_names(init, name);
            let i = choose|i: int| 0 <= i < init.len() && (#[trigger] init[i]).name@ == name;
            assert(members[i].name@ == name);
        }
    }
}

/// A new time in the cluster-wide configuration is taken over; one that is not given stays.
pub proof fn law_new_times_are_taken_over(
    c: Config,
    before: dynamic_config::GlobalView,
    g: dynamic_config::GlobalView,
)
    ensures
        g.ttl is Some && g.ttl != before.ttl ==> taken_config(c, before, g).ttl == g.ttl->0,
        g.loop_wait is Some && g.loop_wait != before.loop_wait ==> taken_config(
            c,
            before,
            g,
        ).loop_wait == g.loop_wait->0,
        g.retry_timeout is Some && g.retry_timeout != before.retry_timeout ==> taken_config(
            c,
            before,
            g,
        ).retry_timeout == g.retry_timeout->0,
        g.ttl is None ==> taken_config(c, before, g).ttl == c.ttl,
        g.loop_wait is None ==> taken_config(c, before, g).loop_wait == c.loop_wait,
        g.retry_timeout is None ==> taken_config(c, before, g).retry_timeout == c.retry_timeout,
        taken_config(c, before, g) == (Config {
            ttl: taken_config(c, before, g).ttl,
            loop_wait: taken_config(c, before, g).loop_wait,
            retry_timeout: taken_config(c, before, g).retry_timeout,
            ..c
        }),
{
}

/// A line of the settings names an upstream only where it sets the connection to the primary: the
/// host is the word behind the first `host=`, without its quotes.
pub proof fn law_upstream_is_the_host(line: Seq<char>, before: Seq<char>, rest: Seq<char>)
    ensures
        !"primary_conninfo"@.is_prefix_of(text::trimmed(line)) ==> line_upstream(line) is None,
        !text::contains_sub(text::trimmed(line), "host="@) ==> line_upstream(line) is None,
        text::trimmed(line) == before + "host="@ + rest && "primary_conninfo"@.is_prefix_of(
            text::trimmed(line),
        ) && text::first_at(text::trimmed(line), "host="@, before.len() as int) ==> {
            let host = strip::unquoted(strip::first_word(rest));
            if host.len() == 0 {
                line_upstream(line) is None
            } else {
                line_upstream(line) == Some(host)
            }
        },
{
    reveal_strlit("host=");
    let t = text::trimmed(line);
    text::lemma_find(t, "host="@);
    let n = before.len() as int;
    if t == before + "host="@ + rest && text::first_at(t, "host="@, n) {
        let k = text::find(t, "host="@)->0;
        if k < n {
            assert(!text::occurs_at(t, "host="@, k));
        }
        if n < k {
            assert(!text::occurs_at(t, "host="@, n));
        }
        assert(t.skip(n + 5) =~= rest);
    }
}

/// Of the lines of the settings the first one that names an upstream counts.
pub proof fn law_first_upstream_counts(lines: Seq<Seq<char>>, i: int)
    ensures
        (forall|k: int| 0 <= k < lines.len() ==> line_upstream(#[trigger] lines[k]) is None)
            ==> lines_upstream(lines) is None,
        0 <= i < lines.len() && line_upstream(lines[i]) is Some && (forall|k: int|
            0 <= k < i ==> line_upstream(#[trigger] lines[k]) is None) ==> lines_upstream(lines)
            == line_upstream(lines[i]),
    decreases lines.len(),
{
    if lines.len() > 0 {
        let rest = lines.skip(1);
        law_first_upstream_counts(rest, i - 1);
        if forall|k: int| 0 <= k < lines.len() ==> line_upstream(#[trigger] lines[k]) is None {
            assert forall|k: int| 0 <= k < rest.len() implies line_upstream(
                #[trigger] rest[k],
            ) is None by {
                assert(rest[k] == lines[k + 1]);
            }
            assert(line_upstream(lines[0]) is None);
        }
        if 0 < i < lines.len() && (forall|k: int|
            0 <= k < i ==> line_upstream(#[trigger] lines[k]) is None) {
            assert(rest[i - 1] == lines[i]);
            assert(line_upstream(lines[0]) is None);
            assert forall|k: int| 0 <= k < i - 1 implies line_upstream(
                #[trigger] rest[k],
            ) is None by {
                assert(rest[k] == lines[k + 1]);
            }
        }
    }
}

} // verus!
