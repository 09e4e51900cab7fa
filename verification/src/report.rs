//! What the agent says of itself: how a run of the control loop ended, and the heartbeat.

use vstd::prelude::*;

use crate::cascading;
use crate::cascading::CascadeManager;
use crate::cluster;
use crate::connstr;
use crate::config;
use crate::connstr::{
    build_archive_conf, build_auto_conf, build_standby_conninfo, StandbyReason,
};
use crate::cycle::Outcome;
use crate::election;
use crate::ha;
use crate::ha::Ha;
use crate::json;
use crate::json::{put_field, Json};
use crate::postgresql;
use crate::postgresql::{build_connection, WalStatus};
use crate::text;
use crate::text::{chars_of, opt_as_str, string_of, u64_to_string, until_from};

verus! {

/// How a run of the control loop ended.
#[derive(Debug)]
pub enum CycleResult {
    /// This node leads.
    Leader(String),
    /// This node follows.
    Follower(String),
    /// This node waits to become a member.
    Acquiring(String),
    Error(String),
}

/// Whether a node leads, follows, waits, or failed.
#[derive(Debug, Clone, Copy, PartialEq, Eq, Structural)]
pub enum CycleKind {
    Leader,
    Follower,
    Acquiring,
    Error,
}

/// The kind of a result.
pub open spec fn kind_of(r: CycleResult) -> CycleKind {
    match r {
        CycleResult::Leader(_) => CycleKind::Leader,
        CycleResult::Follower(_) => CycleKind::Follower,
        CycleResult::Acquiring(_) => CycleKind::Acquiring,
        CycleResult::Error(_) => CycleKind::Error,
    }
}

/// The message of a result.
pub open spec fn message_of(r: CycleResult) -> Seq<char> {
    match r {
        CycleResult::Leader(m) => m@,
        CycleResult::Follower(m) => m@,
        CycleResult::Acquiring(m) => m@,
        CycleResult::Error(m) => m@,
    }
}

/// How a kind of result is written.
pub open spec fn kind_text(k: CycleKind) -> Seq<char> {
    match k {
        CycleKind::Leader => "Leader: "@,
        CycleKind::Follower => "Follower: "@,
        CycleKind::Acquiring => "Acquiring: "@,
        CycleKind::Error => "Error: "@,
    }
}

fn glue(a: &str, b: &str, c: &str) -> (r: String)
    ensures
        r@ == a@ + b@ + c@,
{
    let mut r = a.to_string();
    r.append(b);
    r.append(c);
    r
}

impl CycleResult {
    fn of(kind: CycleKind, message: String) -> (r: Self)
        ensures
            kind_of(r) == kind,
            message_of(r) == message@,
    {
        match kind {
            CycleKind::Leader => CycleResult::Leader(message),
            CycleKind::Follower => CycleResult::Follower(message),
            CycleKind::Acquiring => CycleResult::Acquiring(message),
            CycleKind::Error => CycleResult::Error(message),
        }
    }

    /// The result as it is written.
    pub fn to_text(&self) -> (r: String)
        ensures
            r@ == kind_text(kind_of(*self)) + message_of(*self),
    {
        match self {
            CycleResult::Leader(m) => prefixed("Leader: ", m.as_str()),
            CycleResult::Follower(m) => prefixed("Follower: ", m.as_str()),
            CycleResult::Acquiring(m) => prefixed("Acquiring: ", m.as_str()),
            CycleResult::Error(m) => prefixed("Error: ", m.as_str()),
        }
    }
}

/// The kind of an outcome.
pub open spec fn outcome_kind(o: Outcome) -> CycleKind {
    match o {
        Outcome::Leading | Outcome::Promoted | Outcome::StandbyLeading
        | Outcome::StandbyMisconfigured | Outcome::KeptWithoutLock | Outcome::KeptDespiteError
        | Outcome::LeaderDownPaused | Outcome::Bootstrapped => CycleKind::Leader,
        Outcome::Demoted | Outcome::DownPaused | Outcome::Started | Outcome::EmptyPaused
        | Outcome::ClonedInstead | Outcome::Cloned | Outcome::NoActionPaused
        | Outcome::LostElection | Outcome::Deferred | Outcome::Waiting | Outcome::Following
        | Outcome::Rejoined(_) => CycleKind::Follower,
        Outcome::BootstrappedWithoutLock | Outcome::LostRace
        | Outcome::WaitingForSource => CycleKind::Acquiring,
        _ => CycleKind::Error,
    }
}

/// The remote primary of a standby cluster, as host and port.
pub open spec fn remote_of(h: Ha) -> Seq<char> {
    match h.dynamic_config_state.last_config.standby_cluster {
        Some(s) => s.host@ + ":"@ + text::dec(s.port as nat),
        None => Seq::empty(),
    }
}

/// The name of the node that this one follows.
pub open spec fn upstream_name(h: Ha) -> Seq<char> {
    match cascading::upstream_index(
        h.cluster,
        h.config.name@,
        text::opt_view(h.config.tags.replicatefrom),
    ) {
        Some(i) => h.cluster.members@[i].name@,
        None => leader_text(h),
    }
}

/// The name of the leader; nothing, where there is none.
pub open spec fn leader_text(h: Ha) -> Seq<char> {
    match h.cluster.leader {
        Some(l) => l.name@,
        None => Seq::empty(),
    }
}

/// The candidate that a switchover or failover names.
pub open spec fn candidate_text(h: Ha) -> Seq<char> {
    match election::designated(h.cluster) {
        Some(c) => c,
        None => "unknown"@,
    }
}

/// The message of an outcome; `error` says what went wrong where something did.
pub open spec fn outcome_text(h: Ha, o: Outcome, error: Seq<char>) -> Seq<char> {
    let me = h.config.name@;
    match o {
        Outcome::Leading => "no action. I am ("@ + me + "), the leader with the lock"@,
        Outcome::Promoted => "promoted to primary. I am ("@ + me + "), the leader with the lock"@,
        Outcome::StandbyLeading => "no action. I am ("@ + me
            + "), the standby leader replicating from "@ + remote_of(h),
        Outcome::StandbyMisconfigured => "standby leader ("@ + me
            + "), reconfiguration needed for remote "@ + remote_of(h),
        Outcome::KeptWithoutLock =>
            "continue running as primary in pause mode despite lock failure"@,
        Outcome::KeptDespiteError => "continue in pause mode despite DCS error"@,
        Outcome::Demoted => "demoted self because failed to update leader lock in DCS"@,
        Outcome::LeaderDownPaused => "postgres not running (paused)"@,
        Outcome::DownPaused => "postgres is not running (paused)"@,
        Outcome::Started => "started PostgreSQL, recovering"@,
        Outcome::StartFailed => "Failed to start PostgreSQL: "@ + error + " (attempt "@ + text::dec(
            h.start_fail_count as nat,
        ) + ")"@,
        Outcome::EmptyPaused => "data directory empty (paused)"@,
        Outcome::Bootstrapped => "bootstrapped new cluster as leader"@,
        Outcome::BootstrappedWithoutLock => "bootstrapped but failed to acquire leader lock"@,
        Outcome::LostRace => "lost initialization race, waiting"@,
        Outcome::BootstrapFailed => "Bootstrap failed: "@ + error,
        Outcome::ClonedInstead => "cloned as replica"@,
        Outcome::Cloned => "cloned and started as replica"@,
        Outcome::CloneStartFailed => "Start after clone failed: "@ + error,
        Outcome::CloneFailed => "Clone failed: "@ + error,
        Outcome::WaitingForSource => "waiting for leader to clone from"@,
        Outcome::KeptByMembers =>
            "DCS unreachable: continue running as primary, all members confirmed"@,
        Outcome::StoreDemoted => "DCS unreachable: demoted to prevent split-brain"@,
        Outcome::StoreLost => "DCS unreachable"@,
        Outcome::NoActionPaused => "no action in pause mode (cluster has no leader)"@,
        Outcome::LostElection => "failed to acquire lock, following new leader"@,
        Outcome::AcquireFailed => "Leader acquisition error: "@ + error,
        Outcome::Deferred => "deferring to designated candidate ("@ + candidate_text(h) + ")"@,
        Outcome::Waiting => "not the healthiest node, waiting for election"@,
        Outcome::NotRunning => "PostgreSQL not running while trying to enforce primary role"@,
        Outcome::PromoteFailed => "Promote failed: "@ + error,
        Outcome::DataDirFault => "Data directory error: "@ + error,
        Outcome::Following => "no action. I am ("@ + me + "), a secondary, following upstream ("@
            + upstream_name(h) + ")"@,
        Outcome::NoRejoinSource => "Cannot rejoin: leader '"@ + leader_text(h) + "' not found"@,
        Outcome::RejoinStopFailed => "Rejoin stop failed: "@ + error,
        Outcome::RejoinCleanupFailed => "Rejoin failed: rewind="@ + h.rewind_error@ + ", cleanup="@
            + error,
        Outcome::RejoinCopyFailed => "Rejoin failed: rewind="@ + h.rewind_error@ + ", basebackup="@
            + error,
        Outcome::Rejoined(i) => "rejoined as replica via pg_rewind, following ("@
            + h.cluster.members@[i as int].name@ + ")"@,
        Outcome::RejoinStartFailed => "Failed to start PostgreSQL after rejoin: "@ + error,
    }
}

/// The part of an address before the first colon.
pub open spec fn host_part(addr: Seq<char>) -> Seq<char> {
    addr.take(text::until(addr, ':') as int)
}

/// How other members connect to PostgreSQL on this node.
pub open spec fn member_conn_url(h: Ha) -> Seq<char> {
    postgresql::connection_text(
        host_part(h.config.raft.self_addr@),
        h.config.postgresql.port as nat,
        h.config.postgresql.superuser.dbname@,
        h.config.postgresql.superuser.username@,
        text::opt_view(h.config.postgresql.superuser.password),
    )
}

/// The heartbeat of this node, when PostgreSQL stands where `wal` says, if that is known.
pub open spec fn heartbeat_fields(h: Ha, wal: Option<WalStatus>) -> Map<Seq<char>, json::JsonView> {
    let base = Map::<Seq<char>, json::JsonView>::empty().insert(
        "name"@,
        json::JsonView::Text(h.config.name@),
    ).insert("conn_url"@, json::JsonView::Text(member_conn_url(h))).insert(
        "api_url"@,
        json::JsonView::Text(
            "http://"@ + host_part(h.config.raft.self_addr@) + ":"@ + text::dec(
                h.config.restapi.port as nat,
            ),
        ),
    ).insert(
        "state"@,
        json::JsonView::Text(postgresql::state_text(h.postgresql.state)),
    ).insert("role"@, json::JsonView::Text(cluster::role_text(h.postgresql.role))).insert(
        "tags"@,
        json::JsonView::Object(config::tag_fields(h.config.tags)),
    );
    match wal {
        Some(w) => {
            let with_wal = base.insert("wal_position"@, json::JsonView::Number(w.wal_position));
            match w.timeline {
                Some(t) => with_wal.insert("timeline"@, json::JsonView::Number(t)),
                None => with_wal,
            }
        },
        None => base,
    }
}

/// The contents of `postgresql.auto.conf` that make a node a replica of the one that `source`
/// connects to. A node that is not to stream is told of no connection: it reads archived files.
pub open spec fn standby_conf_of(h: Ha, source: Seq<char>, reason: StandbyReason) -> Seq<char> {
    if h.config.tags.nostream {
        connstr::archive_conf(reason)
    } else {
        connstr::auto_conf(
            reason,
            connstr::standby_conninfo(
                source,
                h.config.postgresql.replication.username@,
                text::opt_view(h.config.postgresql.replication.password),
                h.config.name@,
            ),
        )
    }
}

impl Ha {
    fn remote(&self) -> (r: String)
        ensures
            r@ == remote_of(*self),
    {
        match &self.dynamic_config_state.last_config.standby_cluster {
            Some(s) => glue(s.host.as_str(), ":", u64_to_string(s.port as u64).as_str()),
            None => String::new(),
        }
    }

    fn leader_name(&self) -> (r: &str)
        ensures
            r@ == leader_text(*self),
    {
        match &self.cluster.leader {
            Some(l) => l.name.as_str(),
            None => {
                proof {
                    reveal_strlit("");
                    assert(""@ =~= Seq::<char>::empty());
                }
                ""
            },
        }
    }

    fn upstream(&self) -> (r: &str)
        ensures
            r@ == upstream_name(*self),
    {
        match CascadeManager::select_upstream(
            self.config.name.as_str(),
            opt_as_str(&self.config.tags.replicatefrom),
            &self.cluster,
        ) {
            Some(m) => m.name.as_str(),
            None => self.leader_name(),
        }
    }

    fn candidate(&self) -> (r: &str)
        ensures
            r@ == candidate_text(*self),
    {
        match &self.cluster.failover {
            Some(f) => match &f.candidate {
                Some(c) => c.as_str(),
                None => "unknown",
            },
            None => "unknown",
        }
    }

    fn kind(o: Outcome) -> (r: CycleKind)
        ensures
            r == outcome_kind(o),
    {
        match o {
            Outcome::Leading | Outcome::Promoted | Outcome::StandbyLeading
            | Outcome::StandbyMisconfigured | Outcome::KeptWithoutLock | Outcome::KeptDespiteError
            | Outcome::LeaderDownPaused | Outcome::Bootstrapped => CycleKind::Leader,
            Outcome::Demoted | Outcome::DownPaused | Outcome::Started | Outcome::EmptyPaused
            | Outcome::ClonedInstead | Outcome::Cloned | Outcome::NoActionPaused
            | Outcome::LostElection | Outcome::Deferred | Outcome::Waiting | Outcome::Following
            | Outcome::Rejoined(_) => CycleKind::Follower,
            Outcome::BootstrappedWithoutLock | Outcome::LostRace
            | Outcome::WaitingForSource => CycleKind::Acquiring,
            _ => CycleKind::Error,
        }
    }

    fn message(&self, o: Outcome, error: &str) -> (r: String)
        requires
            ha::outcome_ok(o, self.cluster.members@.len()),
        ensures
            r@ == outcome_text(*self, o, error@),
    {
        let me: &str = self.config.name.as_str();
        match o {
            Outcome::Leading => glue("no action. I am (", me, "), the leader with the lock"),
            Outcome::Promoted => glue(
                "promoted to primary. I am (",
                me,
                "), the leader with the lock",
            ),
            Outcome::StandbyLeading => {
                let mut r = glue(
                    "no action. I am (",
                    me,
                    "), the standby leader replicating from ",
                );
                r.append(self.remote().as_str());
                r
            },
            Outcome::StandbyMisconfigured => {
                let mut r = glue("standby leader (", me, "), reconfiguration needed for remote ");
                r.append(self.remote().as_str());
                r
            },
            Outcome::KeptWithoutLock => {
                "continue running as primary in pause mode despite lock failure".to_string()
            },
            Outcome::KeptDespiteError => "continue in pause mode despite DCS error".to_string(),
            Outcome::Demoted => {
                "demoted self because failed to update leader lock in DCS".to_string()
            },
            Outcome::LeaderDownPaused => "postgres not running (paused)".to_string(),
            Outcome::DownPaused => "postgres is not running (paused)".to_string(),
            Outcome::Started => "started PostgreSQL, recovering".to_string(),
            Outcome::StartFailed => {
                let mut r = glue("Failed to start PostgreSQL: ", error, " (attempt ");
                r.append(u64_to_string(self.start_fail_count as u64).as_str());
                r.append(")");
                r
            },
            Outcome::EmptyPaused => "data directory empty (paused)".to_string(),
            Outcome::Bootstrapped => "bootstrapped new cluster as leader".to_string(),
            Outcome::BootstrappedWithoutLock => {
                "bootstrapped but failed to acquire leader lock".to_string()
            },
            Outcome::LostRace => "lost initialization race, waiting".to_string(),
            Outcome::BootstrapFailed => prefixed("Bootstrap failed: ", error),
            Outcome::ClonedInstead => "cloned as replica".to_string(),
            Outcome::Cloned => "cloned and started as replica".to_string(),
            Outcome::CloneStartFailed => prefixed("Start after clone failed: ", error),
            Outcome::CloneFailed => prefixed("Clone failed: ", error),
            Outcome::WaitingForSource => "waiting for leader to clone from".to_string(),
            Outcome::KeptByMembers => {
                "DCS unreachable: continue running as primary, all members confirmed".to_string()
            },
            Outcome::StoreDemoted => {
                "DCS unreachable: demoted to prevent split-brain".to_string()
            },
            Outcome::StoreLost => "DCS unreachable".to_string(),
            Outcome::NoActionPaused => {
                "no action in pause mode (cluster has no leader)".to_string()
            },
            Outcome::LostElection => "failed to acquire lock, following new leader".to_string(),
            Outcome::AcquireFailed => prefixed("Leader acquisition error: ", error),
            Outcome::Deferred => glue(
                "deferring to designated candidate (",
                self.candidate(),
                ")",
            ),
            Outcome::Waiting => "not the healthiest node, waiting for election".to_string(),
            Outcome::NotRunning => {
                "PostgreSQL not running while trying to enforce primary role".to_string()
            },
            Outcome::PromoteFailed => prefixed("Promote failed: ", error),
            Outcome::DataDirFault => prefixed("Data directory error: ", error),
            Outcome::Following => {
                let mut r = glue(
                    "no action. I am (",
                    me,
                    "), a secondary, following upstream (",
                );
                r.append(self.upstream());
                r.append(")");
                r
            },
            Outcome::NoRejoinSource => glue(
                "Cannot rejoin: leader '",
                self.leader_name(),
                "' not found",
            ),
            Outcome::RejoinStopFailed => prefixed("Rejoin stop failed: ", error),
            Outcome::RejoinCleanupFailed => {
                let mut r = glue(
                    "Rejoin failed: rewind=",
                    self.rewind_error.as_str(),
                    ", cleanup=",
                );
                r.append(error);
                r
            },
            Outcome::RejoinCopyFailed => {
                let mut r = glue(
                    "Rejoin failed: rewind=",
                    self.rewind_error.as_str(),
                    ", basebackup=",
                );
                r.append(error);
                r
            },
            Outcome::Rejoined(i) => glue(
                "rejoined as replica via pg_rewind, following (",
                self.cluster.members[i].name.as_str(),
                ")",
            ),
            Outcome::RejoinStartFailed => prefixed(
                "Failed to start PostgreSQL after rejoin: ",
                error,
            ),
        }
    }

    /// How a run of the control loop ended, in words; `error` says what went wrong where something
    /// did.
    pub fn describe(&self, o: Outcome, error: &str) -> (r: CycleResult)
        requires
            ha::outcome_ok(o, self.cluster.members@.len()),
        ensures
            kind_of(r) == outcome_kind(o),
            message_of(r) == outcome_text(*self, o, error@),
    {
        CycleResult::of(Ha::kind(o), self.message(o, error))
    }

    /// How to connect to the member at a place.
    pub fn member_connstr(&self, i: usize) -> (r: &str)
        requires
            i < self.cluster.members@.len(),
        ensures
            r@ == self.cluster.members@[i as int].conn_url@,
    {
        self.cluster.members[i].conn_url.as_str()
    }

    /// The contents of `postgresql.auto.conf` that make this node a replica of the one that
    /// `source` connects to, or one that reads archived files, where it is not to stream.
    pub fn standby_conf(&self, source: &str, reason: StandbyReason) -> (r: String)
        ensures
            r@ == standby_conf_of(*self, source@, reason),
    {
        if self.config.tags.nostream {
            return build_archive_conf(reason);
        }
        let conninfo = build_standby_conninfo(
            source,
            self.config.postgresql.replication.username.as_str(),
            opt_as_str(&self.config.postgresql.replication.password),
            self.config.name.as_str(),
        );
        build_auto_conf(reason, conninfo.as_str())
    }

    /// The heartbeat of this node, when PostgreSQL stands where `wal` says, if that is known.
    pub fn touch_member(&self, wal: Option<WalStatus>) -> (r: Json)
        ensures
            r@ == json::JsonView::Object(heartbeat_fields(*self, wal)),
    {
        let addr = chars_of(self.config.raft.self_addr.as_str());
        let end: usize = until_from(&addr, 0, ':');
        assert(addr@.skip(0) =~= addr@);
        let host = string_of(&addr, 0, end);
        assert(host@ =~= host_part(self.config.raft.self_addr@));
        let conn_url = build_connection(
            host.as_str(),
            self.config.postgresql.port,
            self.config.postgresql.superuser.dbname.as_str(),
            self.config.postgresql.superuser.username.as_str(),
            &self.config.postgresql.superuser.password,
        );
        let mut api_url = glue("http://", host.as_str(), ":");
        api_url.append(u64_to_string(self.config.restapi.port as u64).as_str());
        let mut fields: Vec<(String, Json)> = Vec::new();
        put_field(&mut fields, "name", Json::Text(self.config.name.clone()));
        put_field(&mut fields, "conn_url", Json::Text(conn_url));
        put_field(&mut fields, "api_url", Json::Text(api_url));
        put_field(&mut fields, "state", Json::Text(self.postgresql.state.as_str().to_string()));
        put_field(&mut fields, "role", Json::Text(self.postgresql.role.as_str().to_string()));
        put_field(&mut fields, "tags", self.config.tags.to_json());
        if let Some(w) = wal {
            put_field(&mut fields, "wal_position", Json::Number(w.wal_position));
            if let Some(t) = w.timeline {
                put_field(&mut fields, "timeline", Json::Number(t));
            }
        }
        Json::Object(fields)
    }
}

fn prefixed(what: &str, error: &str) -> (r: String)
    ensures
        r@ == what@ + error@,
{
    let mut r = what.to_string();
    r.append(error);
    r
}

// ---------------------------------------------------------------------------------------------
// Laws
// ---------------------------------------------------------------------------------------------
/// The run of a node that leads, or goes on as primary, has ended.
pub open spec fn ends_as_leader(o: Outcome) -> bool {
    ||| o == Outcome::Leading
    ||| o == Outcome::Promoted
    ||| o == Outcome::StandbyLeading
    ||| o == Outcome::StandbyMisconfigured
    ||| o == Outcome::KeptWithoutLock
    ||| o == Outcome::KeptDespiteError
    ||| o == Outcome::LeaderDownPaused
    ||| o == Outcome::Bootstrapped
}

/// The run of a node that is no member yet has ended without a fault.
pub open spec fn ends_as_newcomer(o: Outcome) -> bool {
    ||| o == Outcome::BootstrappedWithoutLock
    ||| o == Outcome::LostRace
    ||| o == Outcome::WaitingForSource
}

/// Something that was asked for has failed, and there is a text that says why.
pub open spec fn ends_with_error_text(o: Outcome) -> bool {
    ||| o == Outcome::StartFailed
    ||| o == Outcome::BootstrapFailed
    ||| o == Outcome::CloneStartFailed
    ||| o == Outcome::CloneFailed
    ||| o == Outcome::AcquireFailed
    ||| o == Outcome::PromoteFailed
    ||| o == Outcome::DataDirFault
    ||| o == Outcome::RejoinStopFailed
    ||| o == Outcome::RejoinCleanupFailed
    ||| o == Outcome::RejoinCopyFailed
    ||| o == Outcome::RejoinStartFailed
}

/// Something is wrong, and there is nothing more to say.
pub open spec fn ends_with_fault(o: Outcome) -> bool {
    ||| o == Outcome::KeptByMembers
    ||| o == Outcome::StoreDemoted
    ||| o == Outcome::StoreLost
    ||| o == Outcome::NotRunning
    ||| o == Outcome::NoRejoinSource
}

/// A run is reported as that of a leader, of a follower, of a node that waits to become a member, or
/// as failed, by how it ended. A leader that was kept by the members is reported as failed, since the
/// store could not be reached.
pub proof fn law_runs_are_reported_by_their_end(o: Outcome)
    ensures
        outcome_kind(o) == CycleKind::Leader <==> ends_as_leader(o),
        outcome_kind(o) == CycleKind::Acquiring <==> ends_as_newcomer(o),
        outcome_kind(o) == CycleKind::Error <==> ends_with_error_text(o) || ends_with_fault(o),
        kind_text(CycleKind::Leader) == "Leader: "@,
        kind_text(CycleKind::Follower) == "Follower: "@,
        kind_text(CycleKind::Acquiring) == "Acquiring: "@,
        kind_text(CycleKind::Error) == "Error: "@,
{
}

/// The message of a run that failed holds what went wrong: two messages are the same only if what
/// went wrong is.
pub proof fn law_failures_are_reported_in_full(h: Ha, o: Outcome, e1: Seq<char>, e2: Seq<char>)
    requires
        ends_with_error_text(o),
        e1.len() == e2.len(),
        outcome_text(h, o, e1) == outcome_text(h, o, e2),
    ensures
        e1 == e2,
{
    let n = text::dec(h.start_fail_count as nat);
    let (head, tail) = match o {
        Outcome::StartFailed => ("Failed to start PostgreSQL: "@, " (attempt "@ + n + ")"@),
        Outcome::BootstrapFailed => ("Bootstrap failed: "@, Seq::empty()),
        Outcome::CloneStartFailed => ("Start after clone failed: "@, Seq::empty()),
        Outcome::CloneFailed => ("Clone failed: "@, Seq::empty()),
        Outcome::AcquireFailed => ("Leader acquisition error: "@, Seq::empty()),
        Outcome::PromoteFailed => ("Promote failed: "@, Seq::empty()),
        Outcome::DataDirFault => ("Data directory error: "@, Seq::empty()),
        Outcome::RejoinStopFailed => ("Rejoin stop failed: "@, Seq::empty()),
        Outcome::RejoinCleanupFailed => (
            "Rejoin failed: rewind="@ + h.rewind_error@ + ", cleanup="@,
            Seq::empty(),
        ),
        Outcome::RejoinCopyFailed => (
            "Rejoin failed: rewind="@ + h.rewind_error@ + ", basebackup="@,
            Seq::empty(),
        ),
        _ => ("Failed to start PostgreSQL after rejoin: "@, Seq::empty()),
    };
    assert(outcome_text(h, o, e1) =~= head + e1 + tail);
    assert(outcome_text(h, o, e2) =~= head + e2 + tail);
    assert forall|i: int| 0 <= i < e1.len() implies e1[i] == e2[i] by {
        assert((head + e1 + tail)[head.len() + i] == e1[i]);
        assert((head + e2 + tail)[head.len() + i] == e2[i]);
    }
    assert(e1 =~= e2);
}

/// A heartbeat holds the name, the state, the role and the tags of the node and where it can be
/// reached; the position in the log exactly if it is known, and the timeline exactly if that is.
pub proof fn law_heartbeat_says_who_and_where(h: Ha, wal: Option<WalStatus>)
    ensures
        ({
            let f = heartbeat_fields(h, wal);
            &&& f.dom().contains("name"@) && f["name"@] == json::JsonView::Text(h.config.name@)
            &&& f.dom().contains("conn_url"@) && f["conn_url"@] == json::JsonView::Text(
                member_conn_url(h),
            )
            &&& f.dom().contains("api_url"@) && f["api_url"@] == json::JsonView::Text(
                "http://"@ + host_part(h.config.raft.self_addr@) + ":"@ + text::dec(
                    h.config.restapi.port as nat,
                ),
            )
            &&& f.dom().contains("state"@) && f["state"@] == json::JsonView::Text(
                postgresql::state_text(h.postgresql.state),
            )
            &&& f.dom().contains("role"@) && f["role"@] == json::JsonView::Text(
                cluster::role_text(h.postgresql.role),
            )
            &&& f.dom().contains("tags"@) && f["tags"@] == json::JsonView::Object(
                config::tag_fields(h.config.tags),
            )
            &&& f.dom().contains("wal_position"@) <==> wal is Some
            &&& wal is Some ==> f["wal_position"@] == json::JsonView::Number(wal->0.wal_position)
            &&& f.dom().contains("timeline"@) <==> wal is Some && wal->0.timeline is Some
            &&& wal is Some && wal->0.timeline is Some ==> f["timeline"@] == json::JsonView::Number(
                wal->0.timeline->0,
            )
        }),
{
    reveal_strlit("name");
    reveal_strlit("conn_url");
    reveal_strlit("api_url");
    reveal_strlit("state");
    reveal_strlit("role");
    reveal_strlit("tags");
    reveal_strlit("wal_position");
    reveal_strlit("timeline");
    assert("name"@.len() == 4 && "role"@.len() == 4 && "tags"@.len() == 4);
    assert("name"@[0] == 'n' && "role"@[0] == 'r' && "tags"@[0] == 't');
    assert("conn_url"@.len() == 8 && "api_url"@.len() == 7 && "state"@.len() == 5);
    assert("wal_position"@.len() == 12 && "timeline"@.len() == 8);
    assert("conn_url"@[0] == 'c' && "timeline"@[0] == 't');
}

/// A node that streams is told of the connection to its source, with the user and the password for
/// replication; one that does not stream is told of none.
pub proof fn law_only_streaming_nodes_are_told_of_a_connection(
    h: Ha,
    source: Seq<char>,
    reason: StandbyReason,
)
    ensures
        h.config.tags.nostream ==> standby_conf_of(h, source, reason) == connstr::archive_conf(
            reason,
        ),
        !h.config.tags.nostream ==> standby_conf_of(h, source, reason) == connstr::auto_conf(
            reason,
            connstr::standby_conninfo(
                source,
                h.config.postgresql.replication.username@,
                text::opt_view(h.config.postgresql.replication.password),
                h.config.name@,
            ),
        ),
{
}

} // verus!
