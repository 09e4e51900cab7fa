//! What the REST API answers.

use vstd::prelude::*;

use crate::clock::{instant_now, nanos_since};
use crate::cluster;
use crate::cluster::{tag_flag, Cluster, Member, MemberRole, MemberState};
use crate::commands::{CommandResponse, CommandStatus};
use crate::config;
use crate::connstr;
use crate::connstr::api_url_from_conn_url;
use crate::failsafe;
use crate::ha::Ha;
use crate::json;
use crate::json::{put_field, Json};
use crate::proxy::{BackendAddr, PgBackend};
use crate::report;
use crate::report::CycleResult;
use crate::strmap;
use crate::strmap::StringMap;
use crate::text;
use crate::text::{chars_of, contains, u64_to_string};

verus! {

/// The state of this node, as the control loop has left it.
#[derive(Debug)]
pub struct NodeState {
    pub name: String,
    pub scope: String,
    pub role: MemberRole,
    pub state: MemberState,
    pub is_leader: bool,
    pub is_paused: bool,
    pub pending_restart: bool,
    pub timeline: Option<u64>,
    pub wal_position: Option<u64>,
    /// How many bytes this node is behind.
    pub replication_lag: Option<u64>,
    pub pg_version: Option<String>,
    pub tags: StringMap<Json>,
    /// When the control loop has last run.
    pub last_loop_at: Option<std::time::Instant>,
    /// After how many seconds without a run this node counts as dead.
    pub ttl_seconds: u64,
    /// When the store was last reached.
    pub dcs_last_seen: Option<std::time::Instant>,
    pub failsafe_active: bool,
}

/// An answer: a status and a body.
#[derive(Debug)]
pub struct Reply {
    pub status: u16,
    pub body: Json,
}

/// The answer has this status and these fields.
pub open spec fn replies(r: Reply, status: u16, fields: Map<Seq<char>, json::JsonView>) -> bool {
    r.status == status && r.body@ == json::JsonView::Object(fields)
}

/// The request was answered.
pub const OK: u16 = 200;

/// The request was not understood.
pub const BAD_REQUEST: u16 = 400;

/// The request needs a name and a password.
pub const UNAUTHORIZED: u16 = 401;

/// The request is not possible now.
pub const CONFLICT: u16 = 409;

/// Something went wrong.
pub const INTERNAL_SERVER_ERROR: u16 = 500;

/// This node does not do what was asked for.
pub const SERVICE_UNAVAILABLE: u16 = 503;

/// The name of a role.
pub open spec fn role_name(r: MemberRole) -> Seq<char> {
    match r {
        MemberRole::Primary => "Primary"@,
        MemberRole::Replica => "Replica"@,
        MemberRole::StandbyLeader => "StandbyLeader"@,
        MemberRole::Uninitialized => "Uninitialized"@,
    }
}

/// The name of a state.
pub open spec fn state_name(s: MemberState) -> Seq<char> {
    match s {
        MemberState::Running => "Running"@,
        MemberState::Stopped => "Stopped"@,
        MemberState::Starting => "Starting"@,
        MemberState::Crashed => "Crashed"@,
        MemberState::Unknown => "Unknown"@,
    }
}

/// The name of a role in small letters.
pub open spec fn role_label(r: MemberRole) -> Seq<char> {
    match r {
        MemberRole::Primary => "primary"@,
        MemberRole::Replica => "replica"@,
        MemberRole::StandbyLeader => "standbyleader"@,
        MemberRole::Uninitialized => "uninitialized"@,
    }
}

/// The name of a state in small letters.
pub open spec fn state_label(s: MemberState) -> Seq<char> {
    match s {
        MemberState::Running => "running"@,
        MemberState::Stopped => "stopped"@,
        MemberState::Starting => "starting"@,
        MemberState::Crashed => "crashed"@,
        MemberState::Unknown => "unknown"@,
    }
}

fn name_of_role(r: MemberRole) -> (t: &'static str)
    ensures
        t@ == role_name(r),
{
    match r {
        MemberRole::Primary => "Primary",
        MemberRole::Replica => "Replica",
        MemberRole::StandbyLeader => "StandbyLeader",
        MemberRole::Uninitialized => "Uninitialized",
    }
}

fn name_of_state(s: MemberState) -> (t: &'static str)
    ensures
        t@ == state_name(s),
{
    match s {
        MemberState::Running => "Running",
        MemberState::Stopped => "Stopped",
        MemberState::Starting => "Starting",
        MemberState::Crashed => "Crashed",
        MemberState::Unknown => "Unknown",
    }
}

fn label_of_role(r: MemberRole) -> (t: &'static str)
    ensures
        t@ == role_label(r),
{
    match r {
        MemberRole::Primary => "primary",
        MemberRole::Replica => "replica",
        MemberRole::StandbyLeader => "standbyleader",
        MemberRole::Uninitialized => "uninitialized",
    }
}

fn label_of_state(s: MemberState) -> (t: &'static str)
    ensures
        t@ == state_label(s),
{
    match s {
        MemberState::Running => "running",
        MemberState::Stopped => "stopped",
        MemberState::Starting => "starting",
        MemberState::Crashed => "crashed",
        MemberState::Unknown => "unknown",
    }
}

/// A number; `null` where there is none.
pub open spec fn number_or_null(n: Option<u64>) -> json::JsonView {
    match n {
        Some(n) => json::JsonView::Number(n),
        None => json::JsonView::Null,
    }
}

fn opt_number(n: Option<u64>) -> (r: Json)
    ensures
        r@ == number_or_null(n),
{
    match n {
        Some(n) => Json::Number(n),
        None => Json::Null,
    }
}

fn text_json(s: &str) -> (r: Json)
    ensures
        r@ == json::JsonView::Text(s@),
{
    Json::Text(s.to_string())
}

/// A text as a JSON value.
pub open spec fn jtext(s: Seq<char>) -> json::JsonView {
    json::JsonView::Text(s)
}

/// The fields of an answer that tells only what this node is.
pub open spec fn what_it_is(s: NodeState) -> Map<Seq<char>, json::JsonView> {
    map![
        "state"@ => jtext(state_name(s.state)),
        "role"@ => jtext(role_name(s.role)),
    ]
}

/// The node runs as a replica.
pub open spec fn replica_up(s: NodeState) -> bool {
    s.state == MemberState::Running && s.role == MemberRole::Replica
}

/// The replica is further behind than a client accepts, as far as that is known.
pub open spec fn lags(s: NodeState, max_lag: Option<u64>) -> bool {
    max_lag is Some && s.replication_lag is Some && s.replication_lag->0 > max_lag->0
}

/// The node answers that it is the primary.
pub open spec fn serves_writes(s: NodeState) -> bool {
    s.role == MemberRole::Primary && s.is_leader
}

/// The node answers that it is a replica for reading that is not too far behind.
pub open spec fn serves_reads(s: NodeState, max_lag: Option<u64>) -> bool {
    replica_up(s) && !cluster::flag(s.tags@, "noloadbalance"@) && !lags(s, max_lag)
}

/// Commits wait for the node with this name, by the state of the cluster, if that could be read.
pub open spec fn waited_for(c: Option<&Cluster>, name: Seq<char>) -> bool {
    match c {
        Some(c) => match c.sync_state {
            Some(s) => exists|i: int|
                0 <= i < cluster::standby_names(s).len() && text::same_ignoring_case(
                    #[trigger] cluster::standby_names(s)[i],
                    name,
                ),
            None => false,
        },
        None => false,
    }
}

/// Whether commits wait for the node with this name, by the state of the cluster, if that could be
/// read.
pub fn is_sync_standby(cluster: Option<&Cluster>, name: &str) -> (r: bool)
    ensures
        r == waited_for(cluster, name@),
{
    match cluster {
        Some(c) => match &c.sync_state {
            Some(s) => s.matches(name),
            None => false,
        },
        None => false,
    }
}

/// The control loop has run `age` nanoseconds ago, which is not too long.
pub open spec fn lively(age: u128, ttl: u64) -> bool {
    age / 1_000_000_000 < ttl
}

fn object1(k: &str, v: Json) -> (r: Json)
    ensures
        r@ == json::JsonView::Object(map![k@ => v@]),
{
    let mut f: Vec<(String, Json)> = Vec::new();
    put_field(&mut f, k, v);
    assert(json::fields_view(f@) =~= map![k@ => v@]);
    Json::Object(f)
}

fn object_of(tags: &StringMap<Json>) -> (r: Json)
    ensures
        r@ == json::JsonView::Object(tags@),
{
    let mut f: Vec<(String, Json)> = Vec::new();
    let n: usize = tags.len();
    let ghost p = tags.pairs();
    let mut i: usize = 0;
    assert(p.take(0) =~= Seq::empty());
    while i < n
        invariant
            i <= n,
            n == p.len(),
            p == tags.pairs(),
            json::fields_view(f@) == strmap::map_of(p.take(i as int)),
        decreases n - i,
    {
        proof {
            assert(p.take(i + 1).drop_last() =~= p.take(i as int));
            assert(p.take(i + 1).last() == p[i as int]);
        }
        put_field(&mut f, tags.key_at(i).as_str(), tags.value_at(i).clone());
        i = i + 1;
    }
    assert(p.take(n as int) =~= p);
    Json::Object(f)
}

impl NodeState {
    /// A node of which nothing is known yet.
    pub fn new(name: String, scope: String, ttl: u64) -> (r: Self)
        ensures
            r.name == name,
            r.scope == scope,
            r.role == MemberRole::Uninitialized,
            r.state == MemberState::Unknown,
            !r.is_leader,
            !r.is_paused,
            !r.pending_restart,
            r.timeline is None,
            r.wal_position is None,
            r.replication_lag is None,
            r.pg_version is None,
            r.tags@ == Map::<Seq<char>, json::JsonView>::empty(),
            r.last_loop_at is None,
            r.ttl_seconds == ttl,
            r.dcs_last_seen is None,
            !r.failsafe_active,
    {
        NodeState {
            name,
            scope,
            role: MemberRole::Uninitialized,
            state: MemberState::Unknown,
            is_leader: false,
            is_paused: false,
            pending_restart: false,
            timeline: None,
            wal_position: None,
            replication_lag: None,
            pg_version: None,
            tags: StringMap::new(),
            last_loop_at: None,
            ttl_seconds: ttl,
            dcs_last_seen: None,
            failsafe_active: false,
        }
    }

    /// Takes over what a run of the control loop has left.
    pub fn update(&mut self, ha: &Ha, running: bool, result: &CycleResult)
        ensures
            ({
                let store_seen = !(*result is Error && text::contains_sub(
                    report::message_of(*result),
                    "DCS"@,
                ));
                &&& *final(self) == (NodeState {
                    role: ha.postgresql.role,
                    state: if running {
                        MemberState::Running
                    } else {
                        MemberState::Stopped
                    },
                    is_leader: ha.is_leader,
                    is_paused: ha.is_paused,
                    pending_restart: ha.dynamic_config_state.pending_restart,
                    tags: final(self).tags,
                    failsafe_active: final(self).failsafe_active,
                    last_loop_at: final(self).last_loop_at,
                    dcs_last_seen: final(self).dcs_last_seen,
                    ..*old(self)
                })
                &&& final(self).tags@ == config::tag_fields(ha.config.tags)
                &&& ha.failsafe.last_success is None ==> !final(self).failsafe_active
                &&& ha.failsafe.last_success is Some ==> exists|age: u128|
                    final(self).failsafe_active == #[trigger] failsafe::holds(age, ha.failsafe.ttl)
                &&& final(self).last_loop_at is Some
                &&& store_seen ==> final(self).dcs_last_seen is Some
                &&& !store_seen ==> final(self).dcs_last_seen == old(self).dcs_last_seen
            }),
    {
        self.role = ha.postgresql.role;
        self.state = if running {
            MemberState::Running
        } else {
            MemberState::Stopped
        };
        self.is_leader = ha.is_leader;
        self.is_paused = ha.is_paused;
        self.pending_restart = ha.dynamic_config_state.pending_restart;
        self.tags = ha.config.tags.to_map();
        self.failsafe_active = ha.failsafe.is_active();
        self.last_loop_at = Some(instant_now());
        let store_lost = match result {
            CycleResult::Error(m) => contains(m.as_str(), "DCS"),
            _ => false,
        };
        if !store_lost {
            self.dcs_last_seen = Some(instant_now());
        }
    }

    /// Whether this node is primary and holds the leader lock.
    pub fn is_primary_with_lock(&self) -> (r: bool)
        ensures
            r == (self.role == MemberRole::Primary && self.is_leader),
    {
        self.role == MemberRole::Primary && self.is_leader
    }

    /// Whether this node runs as a replica.
    pub fn is_healthy_replica(&self) -> (r: bool)
        ensures
            r == replica_up(*self),
    {
        self.state == MemberState::Running && self.role == MemberRole::Replica
    }

    /// Whether this node leads a standby cluster.
    pub fn is_standby_leader(&self) -> (r: bool)
        ensures
            r == (self.role == MemberRole::StandbyLeader),
    {
        self.role == MemberRole::StandbyLeader
    }

    /// Whether a run of the control loop that was `age` nanoseconds ago shows this node alive.
    pub fn is_live_at(&self, age: u128) -> (r: bool)
        ensures
            r == lively(age, self.ttl_seconds),
    {
        age / 1_000_000_000 < self.ttl_seconds as u128
    }

    /// Whether the control loop has run a short time ago.
    pub fn is_live(&self) -> (r: bool)
        ensures
            self.last_loop_at is None ==> !r,
            self.last_loop_at is Some ==> exists|age: u128|
                r == #[trigger] lively(age, self.ttl_seconds),
    {
        match &self.last_loop_at {
            Some(t) => {
                let age: u128 = nanos_since(t);
                self.is_live_at(age)
            },
            None => false,
        }
    }

    /// Whether connections for reading are kept away from this node.
    pub fn is_noloadbalance(&self) -> (r: bool)
        ensures
            r == cluster::flag(self.tags@, "noloadbalance"@),
    {
        tag_flag(&self.tags, "noloadbalance")
    }

    fn unavailable(&self) -> (r: Reply)
        ensures
            replies(r, SERVICE_UNAVAILABLE, what_it_is(*self)),
    {
        let mut f: Vec<(String, Json)> = Vec::new();
        put_field(&mut f, "state", text_json(name_of_state(self.state)));
        put_field(&mut f, "role", text_json(name_of_role(self.role)));
        assert(json::fields_view(f@) =~= what_it_is(*self));
        Reply { status: SERVICE_UNAVAILABLE, body: Json::Object(f) }
    }

    /// The answer to whether this node is the primary.
    pub fn health_primary(&self) -> (r: Reply)
        ensures
            (r.status == OK) == serves_writes(*self),
            if serves_writes(*self) {
                replies(
                    r,
                    OK,
                    map![
                        "state"@ => jtext("running"@),
                        "role"@ => jtext("primary"@),
                        "timeline"@ => number_or_null(self.timeline),
                        "wal_position"@ => number_or_null(self.wal_position),
                    ],
                )
            } else {
                replies(r, SERVICE_UNAVAILABLE, what_it_is(*self))
            },
    {
        if !self.is_primary_with_lock() {
            return self.unavailable();
        }
        let mut f: Vec<(String, Json)> = Vec::new();
        put_field(&mut f, "state", text_json("running"));
        put_field(&mut f, "role", text_json("primary"));
        put_field(&mut f, "timeline", opt_number(self.timeline));
        put_field(&mut f, "wal_position", opt_number(self.wal_position));
        assert(json::fields_view(f@) =~= map![
            "state"@ => jtext("running"@),
            "role"@ => jtext("primary"@),
            "timeline"@ => number_or_null(self.timeline),
            "wal_position"@ => number_or_null(self.wal_position),
        ]);
        Reply { status: OK, body: Json::Object(f) }
    }

    /// The answer to whether this node is a replica for reading that is not too far behind.
    pub fn health_replica(&self, max_lag: Option<u64>) -> (r: Reply)
        ensures
            (r.status == OK) == serves_reads(*self, max_lag),
            if !replica_up(*self) {
                replies(r, SERVICE_UNAVAILABLE, what_it_is(*self))
            } else if cluster::flag(self.tags@, "noloadbalance"@) {
                replies(
                    r,
                    SERVICE_UNAVAILABLE,
                    map!["role"@ => jtext("replica"@), "reason"@ => jtext("noloadbalance"@)],
                )
            } else if lags(*self, max_lag) {
                replies(
                    r,
                    SERVICE_UNAVAILABLE,
                    map![
                        "role"@ => jtext("replica"@),
                        "lag"@ => number_or_null(self.replication_lag),
                        "max_lag"@ => number_or_null(max_lag),
                        "reason"@ => jtext("lag exceeds threshold"@),
                    ],
                )
            } else {
                replies(
                    r,
                    OK,
                    map![
                        "state"@ => jtext("running"@),
                        "role"@ => jtext("replica"@),
                        "timeline"@ => number_or_null(self.timeline),
                        "wal_position"@ => number_or_null(self.wal_position),
                        "lag"@ => number_or_null(self.replication_lag),
                    ],
                )
            },
    {
        if !self.is_healthy_replica() {
            return self.unavailable();
        }
        let mut f: Vec<(String, Json)> = Vec::new();
        if self.is_noloadbalance() {
            put_field(&mut f, "role", text_json("replica"));
            put_field(&mut f, "reason", text_json("noloadbalance"));
            assert(json::fields_view(f@) =~= map![
                "role"@ => jtext("replica"@),
                "reason"@ => jtext("noloadbalance"@),
            ]);
            return Reply { status: SERVICE_UNAVAILABLE, body: Json::Object(f) };
        }
        if let Some(max) = max_lag {
            if let Some(lag) = self.replication_lag {
                if lag > max {
                    put_field(&mut f, "role", text_json("replica"));
                    put_field(&mut f, "lag", Json::Number(lag));
                    put_field(&mut f, "max_lag", Json::Number(max));
                    put_field(&mut f, "reason", text_json("lag exceeds threshold"));
                    assert(json::fields_view(f@) =~= map![
                        "role"@ => jtext("replica"@),
                        "lag"@ => number_or_null(self.replication_lag),
                        "max_lag"@ => number_or_null(max_lag),
                        "reason"@ => jtext("lag exceeds threshold"@),
                    ]);
                    return Reply { status: SERVICE_UNAVAILABLE, body: Json::Object(f) };
                }
            }
        }
        put_field(&mut f, "state", text_json("running"));
        put_field(&mut f, "role", text_json("replica"));
        put_field(&mut f, "timeline", opt_number(self.timeline));
        put_field(&mut f, "wal_position", opt_number(self.wal_position));
        put_field(&mut f, "lag", opt_number(self.replication_lag));
        assert(json::fields_view(f@) =~= map![
            "state"@ => jtext("running"@),
            "role"@ => jtext("replica"@),
            "timeline"@ => number_or_null(self.timeline),
            "wal_position"@ => number_or_null(self.wal_position),
            "lag"@ => number_or_null(self.replication_lag),
        ]);
        Reply { status: OK, body: Json::Object(f) }
    }

    /// The answer to whether PostgreSQL runs.
    pub fn health_check(&self) -> (r: Reply)
        ensures
            if self.state == MemberState::Running {
                replies(
                    r,
                    OK,
                    map!["state"@ => jtext("running"@), "role"@ => jtext(role_name(self.role))],
                )
            } else {
                replies(r, SERVICE_UNAVAILABLE, what_it_is(*self))
            },
    {
        if self.state != MemberState::Running {
            return self.unavailable();
        }
        let mut f: Vec<(String, Json)> = Vec::new();
        put_field(&mut f, "state", text_json("running"));
        put_field(&mut f, "role", text_json(name_of_role(self.role)));
        assert(json::fields_view(f@) =~= map![
            "state"@ => jtext("running"@),
            "role"@ => jtext(role_name(self.role)),
        ]);
        Reply { status: OK, body: Json::Object(f) }
    }

    /// The answer to whether this agent is alive.
    pub fn liveness(&self) -> (r: u16)
        ensures
            self.last_loop_at is None ==> r == SERVICE_UNAVAILABLE,
            self.last_loop_at is Some ==> exists|age: u128|
                r == if #[trigger] lively(age, self.ttl_seconds) {
                    OK
                } else {
                    SERVICE_UNAVAILABLE
                },
    {
        if self.is_live() {
            OK
        } else {
            SERVICE_UNAVAILABLE
        }
    }

    /// The answer to a primary that asks whether it may stay while it cannot reach the store: a node
    /// that holds the lock itself objects.
    pub fn confirm_primary(&self) -> (r: u16)
        ensures
            r == if self.is_leader {
                CONFLICT
            } else {
                OK
            },
    {
        if self.is_leader {
            CONFLICT
        } else {
            OK
        }
    }

    fn role_reply(&self, good: bool, role: &str) -> (r: Reply)
        ensures
            if good {
                replies(r, OK, map!["role"@ => jtext(role@)])
            } else {
                replies(r, SERVICE_UNAVAILABLE, map!["role"@ => jtext(role_name(self.role))])
            },
    {
        if good {
            Reply { status: OK, body: object1("role", text_json(role)) }
        } else {
            Reply {
                status: SERVICE_UNAVAILABLE,
                body: object1("role", text_json(name_of_role(self.role))),
            }
        }
    }

    /// The answer to whether this node leads a standby cluster.
    pub fn health_standby_leader(&self) -> (r: Reply)
        ensures
            if self.role == MemberRole::StandbyLeader {
                replies(r, OK, map!["role"@ => jtext("standby_leader"@)])
            } else {
                replies(r, SERVICE_UNAVAILABLE, map!["role"@ => jtext(role_name(self.role))])
            },
    {
        self.role_reply(self.is_standby_leader(), "standby_leader")
    }

    /// The answer to whether this node is a replica that commits wait for, by the state of the
    /// cluster, if that could be read.
    pub fn health_sync(&self, cluster: Option<&Cluster>) -> (r: Reply)
        ensures
            if replica_up(*self) && waited_for(cluster, self.name@) {
                replies(r, OK, map!["role"@ => jtext("sync_standby"@)])
            } else {
                replies(r, SERVICE_UNAVAILABLE, map!["role"@ => jtext(role_name(self.role))])
            },
    {
        let is_sync = is_sync_standby(cluster, self.name.as_str());
        self.role_reply(self.is_healthy_replica() && is_sync, "sync_standby")
    }

    /// The answer to whether this node is a replica that commits do not wait for.
    pub fn health_async(&self, cluster: Option<&Cluster>) -> (r: Reply)
        ensures
            if replica_up(*self) && !waited_for(cluster, self.name@) {
                replies(r, OK, map!["role"@ => jtext("async_standby"@)])
            } else {
                replies(r, SERVICE_UNAVAILABLE, map!["role"@ => jtext(role_name(self.role))])
            },
    {
        let is_sync = is_sync_standby(cluster, self.name.as_str());
        self.role_reply(self.is_healthy_replica() && !is_sync, "async_standby")
    }

    /// Everything that this node tells of itself.
    pub fn node_status(&self) -> (r: Json)
        ensures
            r@ == json::JsonView::Object(
                map![
                    "state"@ => jtext(state_name(self.state)),
                    "role"@ => jtext(role_name(self.role)),
                    "scope"@ => jtext(self.scope@),
                    "name"@ => jtext(self.name@),
                    "timeline"@ => number_or_null(self.timeline),
                    "wal_position"@ => number_or_null(self.wal_position),
                    "replication_lag"@ => number_or_null(self.replication_lag),
                    "paused"@ => json::JsonView::Bool(self.is_paused),
                    "pending_restart"@ => json::JsonView::Bool(self.pending_restart),
                    "tags"@ => json::JsonView::Object(self.tags@),
                ],
            ),
    {
        let mut f: Vec<(String, Json)> = Vec::new();
        put_field(&mut f, "state", text_json(name_of_state(self.state)));
        put_field(&mut f, "role", text_json(name_of_role(self.role)));
        put_field(&mut f, "scope", text_json(self.scope.as_str()));
        put_field(&mut f, "name", text_json(self.name.as_str()));
        put_field(&mut f, "timeline", opt_number(self.timeline));
        put_field(&mut f, "wal_position", opt_number(self.wal_position));
        put_field(&mut f, "replication_lag", opt_number(self.replication_lag));
        put_field(&mut f, "paused", Json::Bool(self.is_paused));
        put_field(&mut f, "pending_restart", Json::Bool(self.pending_restart));
        put_field(&mut f, "tags", object_of(&self.tags));
        assert(json::fields_view(f@) =~= map![
            "state"@ => jtext(state_name(self.state)),
            "role"@ => jtext(role_name(self.role)),
            "scope"@ => jtext(self.scope@),
            "name"@ => jtext(self.name@),
            "timeline"@ => number_or_null(self.timeline),
            "wal_position"@ => number_or_null(self.wal_position),
            "replication_lag"@ => number_or_null(self.replication_lag),
            "paused"@ => json::JsonView::Bool(self.is_paused),
            "pending_restart"@ => json::JsonView::Bool(self.pending_restart),
            "tags"@ => json::JsonView::Object(self.tags@),
        ]);
        Json::Object(f)
    }

    /// The metrics of this node in the text format of Prometheus; `last_seen` is how many seconds
    /// ago the store was last reached.
    pub fn metrics(&self, last_seen: &str) -> (r: String)
        ensures
            r@ == metrics_text(*self, last_seen@),
    {
        let mut r = gauge(
            "pg_ha_node_role",
            "Current role of this node (1 = active for the labeled role)",
        );
        r.append("pg_ha_node_role{role=\"");
        r.append(label_of_role(self.role));
        r.append("\"} 1\n");
        r.append(
            gauge(
                "pg_ha_pg_state",
                "Current PostgreSQL state (1 = active for the labeled state)",
            ).as_str(),
        );
        r.append("pg_ha_pg_state{state=\"");
        r.append(label_of_state(self.state));
        r.append("\"} 1\n");
        r.append(
            metric(
                "pg_ha_replication_lag_bytes",
                "Replication lag in bytes",
                u64_to_string(or_zero(self.replication_lag)).as_str(),
            ).as_str(),
        );
        r.append(
            metric(
                "pg_ha_timeline",
                "Current PostgreSQL timeline",
                u64_to_string(or_zero(self.timeline)).as_str(),
            ).as_str(),
        );
        r.append(
            metric(
                "pg_ha_dcs_last_seen_seconds",
                "Seconds since last successful DCS communication",
                last_seen,
            ).as_str(),
        );
        r.append(
            metric(
                "pg_ha_failsafe_active",
                "Whether failsafe mode is currently active (1 = active)",
                bit(self.failsafe_active),
            ).as_str(),
        );
        r.append(
            metric(
                "pg_ha_pending_restart",
                "Whether a PostgreSQL restart is pending (1 = pending)",
                bit(self.pending_restart),
            ).as_str(),
        );
        r.append(
            metric(
                "pg_ha_is_paused",
                "Whether the cluster is in pause mode (1 = paused)",
                bit(self.is_paused),
            ).as_str(),
        );
        r
    }
}

/// The lines before a metric.
pub open spec fn gauge_text(name: Seq<char>, help: Seq<char>) -> Seq<char> {
    "# HELP "@ + name + " "@ + help + "\n# TYPE "@ + name + " gauge\n"@
}

/// The lines of a metric without labels.
pub open spec fn metric_text(name: Seq<char>, help: Seq<char>, value: Seq<char>) -> Seq<char> {
    gauge_text(name, help) + name + " "@ + value + "\n"@
}

/// A truth value as a metric.
pub open spec fn bit_text(b: bool) -> Seq<char> {
    if b {
        "1"@
    } else {
        "0"@
    }
}

/// A number; zero where there is none.
pub open spec fn zero_if_none(n: Option<u64>) -> u64 {
    match n {
        Some(n) => n,
        None => 0,
    }
}

/// The metrics of a node.
pub open spec fn metrics_text(s: NodeState, last_seen: Seq<char>) -> Seq<char> {
    gauge_text(
        "pg_ha_node_role"@,
        "Current role of this node (1 = active for the labeled role)"@,
    ) + "pg_ha_node_role{role=\""@ + role_label(s.role) + "\"} 1\n"@ + gauge_text(
        "pg_ha_pg_state"@,
        "Current PostgreSQL state (1 = active for the labeled state)"@,
    ) + "pg_ha_pg_state{state=\""@ + state_label(s.state) + "\"} 1\n"@ + metric_text(
        "pg_ha_replication_lag_bytes"@,
        "Replication lag in bytes"@,
        text::dec(zero_if_none(s.replication_lag) as nat),
    ) + metric_text(
        "pg_ha_timeline"@,
        "Current PostgreSQL timeline"@,
        text::dec(zero_if_none(s.timeline) as nat),
    ) + metric_text(
        "pg_ha_dcs_last_seen_seconds"@,
        "Seconds since last successful DCS communication"@,
        last_seen,
    ) + metric_text(
        "pg_ha_failsafe_active"@,
        "Whether failsafe mode is currently active (1 = active)"@,
        bit_text(s.failsafe_active),
    ) + metric_text(
        "pg_ha_pending_restart"@,
        "Whether a PostgreSQL restart is pending (1 = pending)"@,
        bit_text(s.pending_restart),
    ) + metric_text(
        "pg_ha_is_paused"@,
        "Whether the cluster is in pause mode (1 = paused)"@,
        bit_text(s.is_paused),
    )
}

fn gauge(name: &str, help: &str) -> (r: String)
    ensures
        r@ == gauge_text(name@, help@),
{
    let mut r = "# HELP ".to_string();
    r.append(name);
    r.append(" ");
    r.append(help);
    r.append("\n# TYPE ");
    r.append(name);
    r.append(" gauge\n");
    r
}

fn metric(name: &str, help: &str, value: &str) -> (r: String)
    ensures
        r@ == metric_text(name@, help@, value@),
{
    let mut r = gauge(name, help);
    r.append(name);
    r.append(" ");
    r.append(value);
    r.append("\n");
    r
}

fn bit(b: bool) -> (r: &'static str)
    ensures
        r@ == bit_text(b),
{
    if b {
        "1"
    } else {
        "0"
    }
}

fn or_zero(n: Option<u64>) -> (r: u64)
    ensures
        r == zero_if_none(n),
{
    match n {
        Some(n) => n,
        None => 0,
    }
}

// ---------------------------------------------------------------------------------------------
// Answers to requests of operators
// ---------------------------------------------------------------------------------------------
/// What became of a request of an operator.
#[derive(Debug)]
pub enum CommandFate {
    /// There is no control loop to hand it to.
    NoChannel,
    /// It could not be handed over.
    NotSent,
    /// The control loop has not answered.
    NoAnswer,
    /// The control loop has answered.
    Answered(CommandResponse),
}

/// How a status is written.
pub open spec fn status_text(s: CommandStatus) -> Seq<char> {
    match s {
        CommandStatus::Accepted => "accepted"@,
        CommandStatus::Rejected => "rejected"@,
        CommandStatus::Error => "error"@,
    }
}

/// The status of the answer to a request.
pub open spec fn status_code(s: CommandStatus) -> u16 {
    match s {
        CommandStatus::Accepted => OK,
        CommandStatus::Rejected => CONFLICT,
        CommandStatus::Error => INTERNAL_SERVER_ERROR,
    }
}

/// The fields of the answer to a request.
pub open spec fn command_fields(status: Seq<char>, message: Seq<char>) -> Map<
    Seq<char>,
    json::JsonView,
> {
    map!["status"@ => jtext(status), "message"@ => jtext(message)]
}

fn command_body(status: &str, message: &str) -> (r: Json)
    ensures
        r@ == json::JsonView::Object(command_fields(status@, message@)),
{
    let mut f: Vec<(String, Json)> = Vec::new();
    put_field(&mut f, "status", text_json(status));
    put_field(&mut f, "message", text_json(message));
    assert(json::fields_view(f@) =~= command_fields(status@, message@));
    Json::Object(f)
}

/// The answer to a request of an operator.
pub fn send_command(fate: &CommandFate) -> (r: Reply)
    ensures
        match *fate {
            CommandFate::NoChannel => replies(
                r,
                SERVICE_UNAVAILABLE,
                command_fields("error"@, "Command channel not available"@),
            ),
            CommandFate::NotSent => replies(
                r,
                INTERNAL_SERVER_ERROR,
                command_fields("error"@, "Failed to send command to HA loop"@),
            ),
            CommandFate::NoAnswer => replies(
                r,
                INTERNAL_SERVER_ERROR,
                command_fields("error"@, "No response from HA loop"@),
            ),
            CommandFate::Answered(a) => replies(
                r,
                status_code(a.status),
                command_fields(status_text(a.status), a.message@),
            ),
        },
{
    match fate {
        CommandFate::NoChannel => Reply {
            status: SERVICE_UNAVAILABLE,
            body: command_body("error", "Command channel not available"),
        },
        CommandFate::NotSent => Reply {
            status: INTERNAL_SERVER_ERROR,
            body: command_body("error", "Failed to send command to HA loop"),
        },
        CommandFate::NoAnswer => Reply {
            status: INTERNAL_SERVER_ERROR,
            body: command_body("error", "No response from HA loop"),
        },
        CommandFate::Answered(a) => match a.status {
            CommandStatus::Accepted => Reply {
                status: OK,
                body: command_body("accepted", a.message.as_str()),
            },
            CommandStatus::Rejected => Reply {
                status: CONFLICT,
                body: command_body("rejected", a.message.as_str()),
            },
            CommandStatus::Error => Reply {
                status: INTERNAL_SERVER_ERROR,
                body: command_body("error", a.message.as_str()),
            },
        },
    }
}

/// The fields of an answer that tells what went wrong.
pub open spec fn error_fields(message: Seq<char>) -> Map<Seq<char>, json::JsonView> {
    map!["error"@ => jtext(message)]
}

fn error_reply(status: u16, what: &str, why: &str) -> (r: Reply)
    ensures
        replies(r, status, error_fields(what@ + why@)),
{
    let mut m = what.to_string();
    m.append(why);
    Reply { status, body: object1("error", Json::Text(m)) }
}

/// The answer to a request without the right name and password.
pub fn unauthorized() -> (r: Reply)
    ensures
        replies(r, UNAUTHORIZED, error_fields("Unauthorized"@)),
{
    Reply { status: UNAUTHORIZED, body: object1("error", text_json("Unauthorized")) }
}

/// What became of a request to read or change the cluster-wide configuration.
#[derive(Debug)]
pub enum ConfigFate {
    /// There is no store.
    NoStore,
    /// It could not be read.
    Unread(String),
    /// It could not be read to be changed.
    UnreadForPatch(String),
    /// What is stored cannot be understood.
    StoredInvalid(String),
    /// What it is to become cannot be understood.
    Invalid(String),
    /// The change cannot be applied.
    InvalidPatch(String),
    /// The store has refused it.
    Refused,
    /// It could not be written.
    Unwritten(String),
    /// It is this.
    Is(Json),
}

/// The answer to a request to read or change the cluster-wide configuration.
pub fn config_reply(fate: ConfigFate) -> (r: Reply)
    ensures
        match fate {
            ConfigFate::NoStore => replies(
                r,
                SERVICE_UNAVAILABLE,
                error_fields("DCS not available"@),
            ),
            ConfigFate::Unread(e) => replies(
                r,
                INTERNAL_SERVER_ERROR,
                error_fields("Failed to read config from DCS: "@ + e@),
            ),
            ConfigFate::UnreadForPatch(e) => replies(
                r,
                INTERNAL_SERVER_ERROR,
                error_fields("Failed to read current config: "@ + e@),
            ),
            ConfigFate::StoredInvalid(e) => replies(
                r,
                INTERNAL_SERVER_ERROR,
                error_fields("Invalid config in DCS: "@ + e@),
            ),
            ConfigFate::Invalid(e) => replies(
                r,
                BAD_REQUEST,
                error_fields("Invalid config: "@ + e@),
            ),
            ConfigFate::InvalidPatch(e) => replies(
                r,
                BAD_REQUEST,
                error_fields("Invalid patch: "@ + e@),
            ),
            ConfigFate::Refused => replies(
                r,
                CONFLICT,
                error_fields("Failed to write config to DCS"@),
            ),
            ConfigFate::Unwritten(e) => replies(
                r,
                INTERNAL_SERVER_ERROR,
                error_fields("DCS write failed: "@ + e@),
            ),
            ConfigFate::Is(config) => r.status == OK && r.body == config,
        },
{
    match fate {
        ConfigFate::NoStore => Reply {
            status: SERVICE_UNAVAILABLE,
            body: object1("error", text_json("DCS not available")),
        },
        ConfigFate::Unread(e) => error_reply(
            INTERNAL_SERVER_ERROR,
            "Failed to read config from DCS: ",
            e.as_str(),
        ),
        ConfigFate::UnreadForPatch(e) => error_reply(
            INTERNAL_SERVER_ERROR,
            "Failed to read current config: ",
            e.as_str(),
        ),
        ConfigFate::StoredInvalid(e) => error_reply(
            INTERNAL_SERVER_ERROR,
            "Invalid config in DCS: ",
            e.as_str(),
        ),
        ConfigFate::Invalid(e) => error_reply(BAD_REQUEST, "Invalid config: ", e.as_str()),
        ConfigFate::InvalidPatch(e) => error_reply(BAD_REQUEST, "Invalid patch: ", e.as_str()),
        ConfigFate::Refused => Reply {
            status: CONFLICT,
            body: object1("error", text_json("Failed to write config to DCS")),
        },
        ConfigFate::Unwritten(e) => error_reply(
            INTERNAL_SERVER_ERROR,
            "DCS write failed: ",
            e.as_str(),
        ),
        ConfigFate::Is(config) => Reply { status: OK, body: config },
    }
}

/// What became of a configuration that was to be stored: `stored` is what the store said.
pub fn config_stored(stored: Result<bool, String>, config: Json) -> (r: ConfigFate)
    ensures
        r == match stored {
            Ok(true) => ConfigFate::Is(config),
            Ok(false) => ConfigFate::Refused,
            Err(e) => ConfigFate::Unwritten(e),
        },
{
    match stored {
        Ok(true) => ConfigFate::Is(config),
        Ok(false) => ConfigFate::Refused,
        Err(e) => ConfigFate::Unwritten(e),
    }
}

// ---------------------------------------------------------------------------------------------
// Backends for the proxy
// ---------------------------------------------------------------------------------------------
/// Where the agent of a member answers.
pub open spec fn member_api_url(m: Member, ip: Seq<char>, api_port: u16) -> Seq<char> {
    if m.api_url@.len() > 0 {
        m.api_url@
    } else {
        match connstr::pg_host_port(m.conn_url@) {
            Some(hp) => "http://"@ + hp.0 + ":"@ + text::dec(api_port as nat),
            None => "http://"@ + ip + ":"@ + text::dec(api_port as nat),
        }
    }
}

/// A member as a backend of the proxy, at the address that it has.
pub fn backend_of(m: &Member, addr: BackendAddr, api_port: u16) -> (r: PgBackend)
    ensures
        r.addr == addr,
        r.name@ == m.name@,
        r.is_primary == (m.role == MemberRole::Primary),
        r.is_healthy == (m.state == MemberState::Running),
        r.api_url@ == member_api_url(*m, addr.ip@, api_port),
{
    let given = chars_of(m.api_url.as_str());
    let api_url: String = if given.len() > 0 {
        m.api_url.clone()
    } else {
        match api_url_from_conn_url(m.conn_url.as_str(), api_port) {
            Some(u) => u,
            None => {
                let mut u = "http://".to_string();
                u.append(addr.ip.as_str());
                u.append(":");
                u.append(u64_to_string(api_port as u64).as_str());
                u
            },
        }
    };
    PgBackend {
        addr,
        name: m.name.clone(),
        is_primary: m.role == MemberRole::Primary,
        is_healthy: m.state == MemberState::Running,
        api_url,
    }
}

// ---------------------------------------------------------------------------------------------
// Laws
// ---------------------------------------------------------------------------------------------
/// No node answers both that it is the primary and that it is a replica, so that a load balancer
/// never sends writes to a replica.
pub proof fn law_primary_or_replica(s: NodeState, max_lag: Option<u64>)
    ensures
        !(serves_writes(s) && serves_reads(s, max_lag)),
{
}

/// A limit on how far a replica may be behind never lets in a replica that is kept out without it.
pub proof fn law_lag_limit_only_excludes(s: NodeState, max_lag: Option<u64>)
    ensures
        serves_reads(s, max_lag) ==> serves_reads(s, None),
{
}

/// A node answers that it is the primary exactly if it is primary and holds the lock; that it is a
/// replica for reading exactly if it runs as a replica, is not kept from reads, and is not known to
/// be further behind than the client accepts.
pub proof fn law_node_answers_truly(s: NodeState, max_lag: Option<u64>)
    ensures
        serves_writes(s) <==> s.role == MemberRole::Primary && s.is_leader,
        serves_reads(s, max_lag) <==> {
            &&& s.state == MemberState::Running
            &&& s.role == MemberRole::Replica
            &&& !(s.tags@.dom().contains("noloadbalance"@) && s.tags@["noloadbalance"@]
                == json::JsonView::Bool(true))
            &&& max_lag is Some && s.replication_lag is Some ==> s.replication_lag->0 <= max_lag->0
        },
        replica_up(s) <==> s.state == MemberState::Running && s.role == MemberRole::Replica,
{
}

/// The control loop counts as alive while less than its time to live has passed since it ran, in
/// whole seconds.
pub proof fn law_loop_is_alive_for_its_time(age: u128, ttl: u64)
    ensures
        lively(age, ttl) <==> age < ttl * 1_000_000_000,
{
}

/// Commits wait for a node exactly if the state of the cluster lists its name, in whatever case.
pub proof fn law_listed_standbys_are_waited_for(c: Cluster, name: Seq<char>, i: int)
    ensures
        !waited_for(None, name),
        c.sync_state is None ==> !waited_for(Some(&c), name),
        c.sync_state is Some && 0 <= i < cluster::standby_names(c.sync_state->0).len()
            && cluster::standby_names(c.sync_state->0)[i] == name ==> waited_for(Some(&c), name),
        c.sync_state is Some && cluster::standby_names(c.sync_state->0).len() == 0 ==> !waited_for(
            Some(&c),
            name,
        ),
{
    if c.sync_state is Some && 0 <= i < cluster::standby_names(c.sync_state->0).len() {
        text::law_case_is_ignored(name, name, 0);
    }
}

/// A request that was accepted is answered with success, one that was turned down as a conflict, and
/// one that failed as an error of the server.
pub proof fn law_answers_have_their_status(s: CommandStatus)
    ensures
        status_code(CommandStatus::Accepted) == 200,
        status_code(CommandStatus::Rejected) == 409,
        status_code(CommandStatus::Error) == 500,
        status_text(CommandStatus::Accepted) == "accepted"@,
        status_text(CommandStatus::Rejected) == "rejected"@,
        status_text(CommandStatus::Error) == "error"@,
        OK == 200 && BAD_REQUEST == 400 && UNAUTHORIZED == 401 && CONFLICT == 409,
        INTERNAL_SERVER_ERROR == 500 && SERVICE_UNAVAILABLE == 503,
{
}

/// The agent of a member answers where the member says; where it does not say, on the host of its
/// PostgreSQL, and where that is not known, at its address.
pub proof fn law_agents_answer_where_they_say(m: Member, ip: Seq<char>, port: u16)
    ensures
        m.api_url@.len() > 0 ==> member_api_url(m, ip, port) == m.api_url@,
        m.api_url@.len() == 0 && connstr::pg_host_port(m.conn_url@) is None ==> member_api_url(
            m,
            ip,
            port,
        ) == "http://"@ + ip + ":"@ + text::dec(port as nat),
        m.api_url@.len() == 0 ==> (connstr::pg_host_port(m.conn_url@) matches Some((host, p))
            ==> member_api_url(m, ip, port) == "http://"@ + host + ":"@ + text::dec(port as nat)),
{
}

/// What a node says of itself names its role and its state; a number that is not known is no number.
pub proof fn law_node_names_role_and_state(s: NodeState, n: u64)
    ensures
        what_it_is(s).dom().contains("state"@),
        what_it_is(s).dom().contains("role"@),
        what_it_is(s)["role"@] == json::JsonView::Text(role_name(s.role)),
        what_it_is(s)["state"@] == json::JsonView::Text(state_name(s.state)),
        role_name(MemberRole::Primary) == "Primary"@,
        role_name(MemberRole::Replica) == "Replica"@,
        role_name(MemberRole::StandbyLeader) == "StandbyLeader"@,
        role_name(MemberRole::Uninitialized) == "Uninitialized"@,
        state_name(MemberState::Running) == "Running"@,
        state_name(MemberState::Stopped) == "Stopped"@,
        number_or_null(Some(n)) == json::JsonView::Number(n),
        number_or_null(None) == json::JsonView::Null,
        zero_if_none(Some(n)) == n,
        zero_if_none(None) == 0,
        bit_text(true) == "1"@,
        bit_text(false) == "0"@,
        role_label(MemberRole::Primary) == "primary"@,
        role_label(MemberRole::Replica) == "replica"@,
        state_label(MemberState::Running) == "running"@,
        state_label(MemberState::Stopped) == "stopped"@,
{
    reveal_strlit("state");
    reveal_strlit("role");
    assert("state"@.len() == 5 && "role"@.len() == 4);
}

} // verus!
