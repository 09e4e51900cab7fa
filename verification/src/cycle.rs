//! One run of the control loop, as a machine that asks for one piece of work at a time.
//!
//! The machine gives an order, is told how it went and what the node looks like by then, and gives
//! the next order, until it says how the run ended. It decides who may be primary: a node promotes
//! PostgreSQL only after the replicated store has confirmed that it holds the leader lock, and
//! stops PostgreSQL when it cannot confirm the lock any longer.

use vstd::prelude::*;

use crate::cluster::MemberRole;
use crate::election::ElectionPlan;

verus! {

/// How PostgreSQL is stopped.
#[derive(Debug, Clone, Copy, PartialEq, Eq, Structural)]
pub enum StopMode {
    Fast,
    Immediate,
}

/// What is in the data directory.
#[derive(Debug, Clone, Copy, PartialEq, Eq, Structural)]
pub enum DataDir {
    Empty,
    Used,
    /// It cannot be a data directory.
    Fault,
}

/// The member that a node can be brought up to date from.
#[derive(Debug, Clone, Copy, PartialEq, Eq, Structural)]
pub enum RejoinSource {
    /// There is none.
    Nobody,
    /// It is known by name, but is not a member.
    Missing,
    /// It is the member at this place.
    At(usize),
}

/// What the machine is waiting for.
#[derive(Debug, Clone, Copy, PartialEq, Eq, Structural)]
pub enum Phase {
    /// The next run.
    Idle,
    /// The cluster-wide configuration.
    ReadingConfig,
    /// PostgreSQL to read its configuration.
    Reloading,
    /// The entry of this node among the members.
    Registering,
    /// The renewal of the leader lock.
    Renewing,
    /// A heartbeat, after which the run ends so.
    Touching(Outcome),
    Promoting,
    /// PostgreSQL to stop because the lock is lost.
    Demoting,
    /// The members that are asked whether this primary may stay while the store cannot be reached.
    AskingMembers,
    /// PostgreSQL to stop because the store cannot be reached.
    StoreDemoting,
    /// The release of the lock, because PostgreSQL is down.
    Releasing,
    Starting,
    Bootstrapping,
    /// The lock of a cluster that this node has just created.
    AcquiringFirst,
    Cloning,
    StartingClone,
    /// The lock that nobody holds.
    Acquiring,
    /// The removal of the failover request that is now fulfilled.
    ClearingFailover,
    /// PostgreSQL to stop, to be rewound to the member at this place.
    RejoinStopping(usize),
    Rewinding(usize),
    /// The removal of data that could not be rewound.
    Removing(usize),
    Copying(usize),
    WritingStandby(usize),
    RejoinStarting(usize),
    /// The configuration of another member to follow.
    WritingConf(usize),
    ReconfStopping,
    ReconfStarting,
}

/// How a run ended.
#[derive(Debug, Clone, Copy, PartialEq, Eq, Structural)]
pub enum Outcome {
    /// This node leads.
    Leading,
    Promoted,
    /// This node leads a standby cluster.
    StandbyLeading,
    /// As before, but PostgreSQL does not follow the remote primary.
    StandbyMisconfigured,
    /// The lock was lost, but the cluster is paused.
    KeptWithoutLock,
    /// The lock could not be renewed, but the cluster is paused.
    KeptDespiteError,
    Demoted,
    /// PostgreSQL is down on the leader of a paused cluster.
    LeaderDownPaused,
    /// PostgreSQL is down in a paused cluster.
    DownPaused,
    Started,
    StartFailed,
    /// There is no data in a paused cluster.
    EmptyPaused,
    Bootstrapped,
    /// The cluster was created, but another node got the lock.
    BootstrappedWithoutLock,
    LostRace,
    BootstrapFailed,
    ClonedInstead,
    Cloned,
    CloneStartFailed,
    CloneFailed,
    WaitingForSource,
    /// The store cannot be reached, but every member has confirmed this primary.
    KeptByMembers,
    /// PostgreSQL was stopped because the store cannot be reached.
    StoreDemoted,
    /// The store cannot be reached.
    StoreLost,
    /// There is no leader in a paused cluster.
    NoActionPaused,
    LostElection,
    AcquireFailed,
    Deferred,
    Waiting,
    /// This node holds the lock but PostgreSQL does not run.
    NotRunning,
    PromoteFailed,
    DataDirFault,
    Following,
    NoRejoinSource,
    RejoinStopFailed,
    RejoinCleanupFailed,
    RejoinCopyFailed,
    Rejoined(usize),
    RejoinStartFailed,
}

/// What the machine asks for.
#[derive(Debug, Clone, Copy, PartialEq, Eq, Structural)]
pub enum Order {
    /// Nothing: no run is under way.
    Nothing,
    ReadConfig,
    Reload,
    Touch,
    Renew,
    Acquire,
    Release,
    ClearFailover,
    /// Ask every member whether it confirms this primary.
    AskMembers,
    Stop(StopMode),
    Start,
    Promote,
    Rewind(usize),
    RemoveData,
    Copy(usize),
    WriteStandby(usize),
    Reconfigure(usize),
    Bootstrap,
    Clone,
    /// The run is over.
    Finish(Outcome),
}

/// How an order went.
#[derive(Debug, Clone, Copy, PartialEq, Eq, Structural)]
pub enum Answer {
    Done,
    /// It was carried out without error but not granted.
    Refused,
    Failed,
    /// It had another result than was asked for.
    Other,
}

/// What the node looks like when an order has been carried out.
#[derive(Debug, Clone, Copy, PartialEq, Eq, Structural)]
pub struct Sight {
    /// PostgreSQL runs.
    pub running: bool,
    /// PostgreSQL is configured as a standby.
    pub standby_signal: bool,
    pub data_dir: DataDir,
    /// Nobody holds the leader lock.
    pub unlocked: bool,
    /// This node holds the leader lock, as far as was read.
    pub lock_owner: bool,
    /// This node is among the members.
    pub registered: bool,
    /// Somebody has created the cluster.
    pub initialized: bool,
    /// There is a member or a leader.
    pub inhabited: bool,
    /// The cluster follows a remote primary.
    pub standby_cluster: bool,
    /// PostgreSQL runs as a standby of that remote primary.
    pub follows_remote: bool,
    /// The members decide whether a primary stays that cannot reach the store.
    pub failsafe: bool,
    /// What to do if nobody holds the lock.
    pub plan: ElectionPlan,
    /// The holder of the lock.
    pub holder: RejoinSource,
    /// Who to catch up from if PostgreSQL does not start.
    pub rescuer: RejoinSource,
    /// The member to follow from now on, if another one was followed.
    pub moved: Option<usize>,
}

/// The state of the machine.
#[derive(Debug, Clone, Copy, PartialEq, Eq, Structural)]
pub struct Core {
    pub phase: Phase,
    /// This node believes that it holds the leader lock.
    pub is_leader: bool,
    pub is_paused: bool,
    pub role: MemberRole,
    /// How many times in a row PostgreSQL has failed to start.
    pub start_fail_count: u32,
}

/// After how many failed starts a standby is brought up to date instead.
pub const START_FAILS_BEFORE_REJOIN: u32 = 3;

// ---------------------------------------------------------------------------------------------
// The rules
// ---------------------------------------------------------------------------------------------
/// Wait in `phase` for `order`.
pub open spec fn ask(c: Core, phase: Phase, order: Order) -> (Core, Order) {
    (Core { phase, ..c }, order)
}

/// The run is over.
pub open spec fn over(c: Core, o: Outcome) -> (Core, Order) {
    ask(c, Phase::Idle, Order::Finish(o))
}

/// The run is over once the store has this node's heartbeat.
pub open spec fn heartbeat(c: Core, o: Outcome) -> (Core, Order) {
    ask(c, Phase::Touching(o), Order::Touch)
}

/// Become a replica of the member at `i`: stop, rewind, and start as a standby.
pub open spec fn rejoin_rule(c: Core, s: Sight, i: usize) -> (Core, Order) {
    if s.running {
        ask(c, Phase::RejoinStopping(i), Order::Stop(StopMode::Fast))
    } else {
        ask(c, Phase::Rewinding(i), Order::Rewind(i))
    }
}

/// Become a replica of `source`.
pub open spec fn rejoin_from_rule(c: Core, s: Sight, source: RejoinSource) -> (Core, Order) {
    match source {
        RejoinSource::At(i) => rejoin_rule(c, s, i),
        _ => over(c, Outcome::NoRejoinSource),
    }
}

/// The lock is confirmed: be primary, or lead the standby cluster.
pub open spec fn lead_rule(c: Core, s: Sight) -> (Core, Order) {
    if s.standby_cluster {
        heartbeat(
            Core { role: MemberRole::StandbyLeader, ..c },
            if s.follows_remote {
                Outcome::StandbyLeading
            } else {
                Outcome::StandbyMisconfigured
            },
        )
    } else if c.role == MemberRole::Primary {
        heartbeat(c, Outcome::Leading)
    } else if !s.running {
        over(c, Outcome::NotRunning)
    } else if s.standby_signal {
        ask(c, Phase::Promoting, Order::Promote)
    } else {
        heartbeat(Core { role: MemberRole::Primary, ..c }, Outcome::Leading)
    }
}

/// The lock is not confirmed: stop, unless the cluster is paused.
pub open spec fn lost_lock_rule(c: Core, kept: Outcome) -> (Core, Order) {
    if c.is_paused {
        over(c, kept)
    } else {
        ask(c, Phase::Demoting, Order::Stop(StopMode::Immediate))
    }
}

/// The store cannot be reached: PostgreSQL stops, because the lock may be taken without notice.
pub open spec fn store_lost_rule(c: Core) -> (Core, Order) {
    ask(Core { is_leader: false, ..c }, Phase::StoreDemoting, Order::Stop(StopMode::Fast))
}

/// The lock could not be renewed, for want of the store: the members decide, where they are asked.
pub open spec fn no_renewal_rule(c: Core, s: Sight) -> (Core, Order) {
    if s.failsafe && !c.is_paused {
        ask(c, Phase::AskingMembers, Order::AskMembers)
    } else {
        lost_lock_rule(Core { is_leader: false, ..c }, Outcome::KeptDespiteError)
    }
}

/// Another node holds the lock: follow.
pub open spec fn follow_rule(c: Core, s: Sight) -> (Core, Order) {
    if s.running && (c.role == MemberRole::Primary || !s.standby_signal) {
        rejoin_from_rule(c, s, s.holder)
    } else if s.running {
        let replica = Core { role: MemberRole::Replica, ..c };
        match s.moved {
            Some(i) => ask(replica, Phase::WritingConf(i), Order::Reconfigure(i)),
            None => heartbeat(replica, Outcome::Following),
        }
    } else {
        heartbeat(c, Outcome::Following)
    }
}

/// Nobody holds the lock: go by the election.
pub open spec fn elect_rule(c: Core, s: Sight) -> (Core, Order) {
    match s.plan {
        ElectionPlan::Paused => over(c, Outcome::NoActionPaused),
        ElectionPlan::Rejoin(i) => rejoin_rule(c, s, i),
        ElectionPlan::Attempt => ask(c, Phase::Acquiring, Order::Acquire),
        ElectionPlan::Defer => over(Core { is_leader: false, ..c }, Outcome::Deferred),
        ElectionPlan::Wait => over(Core { is_leader: false, ..c }, Outcome::Waiting),
    }
}

/// PostgreSQL is down and this node holds no lock: start it, or bring it up to date after
/// repeated failures.
pub open spec fn revive_rule(c: Core, s: Sight) -> (Core, Order) {
    if c.is_paused {
        over(c, Outcome::DownPaused)
    } else if c.start_fail_count >= START_FAILS_BEFORE_REJOIN && s.standby_signal {
        let fresh = Core { start_fail_count: 0, ..c };
        if s.rescuer == RejoinSource::Nobody {
            ask(fresh, Phase::Starting, Order::Start)
        } else {
            rejoin_from_rule(fresh, s, s.rescuer)
        }
    } else {
        ask(c, Phase::Starting, Order::Start)
    }
}

/// PostgreSQL is down: give up the lock first.
pub open spec fn down_rule(c: Core, s: Sight) -> (Core, Order) {
    if !s.lock_owner {
        revive_rule(c, s)
    } else if c.is_paused {
        over(c, Outcome::LeaderDownPaused)
    } else {
        ask(c, Phase::Releasing, Order::Release)
    }
}

/// There is no data: create the cluster, or clone from a member of it.
pub open spec fn empty_rule(c: Core, s: Sight) -> (Core, Order) {
    if c.is_paused {
        over(c, Outcome::EmptyPaused)
    } else if s.unlocked && !s.initialized {
        ask(c, Phase::Bootstrapping, Order::Bootstrap)
    } else if s.inhabited {
        ask(c, Phase::Cloning, Order::Clone)
    } else {
        over(c, Outcome::WaitingForSource)
    }
}

/// What to do with the node as it is.
pub open spec fn act_rule(c: Core, s: Sight) -> (Core, Order) {
    match s.data_dir {
        DataDir::Empty => empty_rule(c, s),
        DataDir::Fault => over(c, Outcome::DataDirFault),
        DataDir::Used => if !s.running {
            down_rule(c, s)
        } else if s.unlocked {
            elect_rule(c, s)
        } else if s.lock_owner {
            ask(c, Phase::Renewing, Order::Renew)
        } else {
            follow_rule(Core { is_leader: false, ..c }, s)
        },
    }
}

/// Enter this node among the members if it is not there, then act.
pub open spec fn register_rule(c: Core, s: Sight) -> (Core, Order) {
    if s.registered {
        act_rule(c, s)
    } else {
        ask(c, Phase::Registering, Order::Touch)
    }
}

/// A run begins; the state of the cluster was read, or could not be. In that case the members
/// decide whether a leader stays, where they are asked.
pub open spec fn begin_rule(c: Core, loaded: bool, failsafe: bool) -> (Core, Order) {
    if loaded {
        ask(c, Phase::ReadingConfig, Order::ReadConfig)
    } else if c.is_leader && failsafe {
        ask(c, Phase::AskingMembers, Order::AskMembers)
    } else if c.is_leader {
        store_lost_rule(c)
    } else {
        over(c, Outcome::StoreLost)
    }
}

/// The cluster-wide configuration was read; `reload` tells whether PostgreSQL must read its own
/// again.
#[verifier::opaque]
pub open spec fn config_rule(c: Core, s: Sight, reload: bool) -> (Core, Order) {
    if reload && s.running {
        ask(c, Phase::Reloading, Order::Reload)
    } else {
        register_rule(c, s)
    }
}

/// The next order after the last one went as `a` says.
#[verifier::opaque]
pub open spec fn next(c: Core, s: Sight, a: Answer) -> (Core, Order) {
    let done = a == Answer::Done;
    match c.phase {
        Phase::Idle | Phase::ReadingConfig => (c, Order::Nothing),
        Phase::Reloading => register_rule(c, s),
        Phase::Registering => act_rule(c, s),
        Phase::Renewing => if done {
            lead_rule(Core { is_leader: true, ..c }, s)
        } else if a == Answer::Refused {
            lost_lock_rule(Core { is_leader: false, ..c }, Outcome::KeptWithoutLock)
        } else {
            no_renewal_rule(c, s)
        },
        Phase::AskingMembers => if done {
            over(c, Outcome::KeptByMembers)
        } else {
            store_lost_rule(c)
        },
        Phase::Touching(o) => over(c, o),
        Phase::Promoting => if done {
            heartbeat(Core { role: MemberRole::Primary, ..c }, Outcome::Promoted)
        } else {
            over(c, Outcome::PromoteFailed)
        },
        Phase::Demoting => over(Core { role: MemberRole::Replica, ..c }, Outcome::Demoted),
        Phase::StoreDemoting => over(
            Core { role: MemberRole::Replica, ..c },
            Outcome::StoreDemoted,
        ),
        Phase::Releasing => revive_rule(Core { is_leader: false, ..c }, s),
        Phase::Starting => if done {
            over(Core { start_fail_count: 0, ..c }, Outcome::Started)
        } else {
            over(
                Core { start_fail_count: (c.start_fail_count + 1) as u32, ..c },
                Outcome::StartFailed,
            )
        },
        Phase::Bootstrapping => match a {
            Answer::Done => ask(
                Core { role: MemberRole::Primary, ..c },
                Phase::AcquiringFirst,
                Order::Acquire,
            ),
            Answer::Refused => over(c, Outcome::LostRace),
            Answer::Failed => over(c, Outcome::BootstrapFailed),
            Answer::Other => over(c, Outcome::ClonedInstead),
        },
        Phase::AcquiringFirst => if done {
            heartbeat(Core { is_leader: true, ..c }, Outcome::Bootstrapped)
        } else {
            over(Core { is_leader: false, ..c }, Outcome::BootstrappedWithoutLock)
        },
        Phase::Cloning => match a {
            Answer::Done => ask(c, Phase::StartingClone, Order::Start),
            Answer::Failed => over(c, Outcome::CloneFailed),
            _ => over(c, Outcome::WaitingForSource),
        },
        Phase::StartingClone => if done {
            over(Core { role: MemberRole::Replica, ..c }, Outcome::Cloned)
        } else {
            over(c, Outcome::CloneStartFailed)
        },
        Phase::Acquiring => match a {
            Answer::Done => ask(
                Core { is_leader: true, ..c },
                Phase::ClearingFailover,
                Order::ClearFailover,
            ),
            Answer::Refused => over(Core { is_leader: false, ..c }, Outcome::LostElection),
            _ => over(c, Outcome::AcquireFailed),
        },
        Phase::ClearingFailover => lead_rule(c, s),
        Phase::RejoinStopping(i) => if done {
            ask(c, Phase::Rewinding(i), Order::Rewind(i))
        } else {
            over(c, Outcome::RejoinStopFailed)
        },
        Phase::Rewinding(i) => if done {
            ask(c, Phase::WritingStandby(i), Order::WriteStandby(i))
        } else {
            ask(c, Phase::Removing(i), Order::RemoveData)
        },
        Phase::Removing(i) => if done {
            ask(c, Phase::Copying(i), Order::Copy(i))
        } else {
            over(c, Outcome::RejoinCleanupFailed)
        },
        Phase::Copying(i) => if done {
            ask(c, Phase::WritingStandby(i), Order::WriteStandby(i))
        } else {
            over(c, Outcome::RejoinCopyFailed)
        },
        Phase::WritingStandby(i) => ask(c, Phase::RejoinStarting(i), Order::Start),
        Phase::RejoinStarting(i) => if done {
            heartbeat(Core { role: MemberRole::Replica, ..c }, Outcome::Rejoined(i))
        } else {
            over(c, Outcome::RejoinStartFailed)
        },
        Phase::WritingConf(i) => if done {
            ask(c, Phase::ReconfStopping, Order::Stop(StopMode::Fast))
        } else {
            heartbeat(c, Outcome::Following)
        },
        Phase::ReconfStopping => if done {
            ask(c, Phase::ReconfStarting, Order::Start)
        } else {
            heartbeat(c, Outcome::Following)
        },
        Phase::ReconfStarting => heartbeat(c, Outcome::Following),
    }
}

// ---------------------------------------------------------------------------------------------
// The machine
// ---------------------------------------------------------------------------------------------
impl Core {
    /// A node of which nothing is known.
    pub fn new(role: MemberRole) -> (r: Self)
        ensures
            r == (Core {
                phase: Phase::Idle,
                is_leader: false,
                is_paused: false,
                role,
                start_fail_count: 0,
            }),
    {
        Core { phase: Phase::Idle, is_leader: false, is_paused: false, role, start_fail_count: 0 }
    }

    fn ask(&mut self, phase: Phase, order: Order) -> (r: Order)
        ensures
            (*final(self), r) == ask(*old(self), phase, order),
    {
        self.phase = phase;
        order
    }

    fn over(&mut self, o: Outcome) -> (r: Order)
        ensures
            (*final(self), r) == over(*old(self), o),
    {
        self.ask(Phase::Idle, Order::Finish(o))
    }

    fn heartbeat(&mut self, o: Outcome) -> (r: Order)
        ensures
            (*final(self), r) == heartbeat(*old(self), o),
    {
        self.ask(Phase::Touching(o), Order::Touch)
    }

    fn rejoin_as_replica(&mut self, s: Sight, i: usize) -> (r: Order)
        ensures
            (*final(self), r) == rejoin_rule(*old(self), s, i),
    {
        if s.running {
            self.ask(Phase::RejoinStopping(i), Order::Stop(StopMode::Fast))
        } else {
            self.ask(Phase::Rewinding(i), Order::Rewind(i))
        }
    }

    fn rejoin_from(&mut self, s: Sight, source: RejoinSource) -> (r: Order)
        ensures
            (*final(self), r) == rejoin_from_rule(*old(self), s, source),
    {
        match source {
            RejoinSource::At(i) => self.rejoin_as_replica(s, i),
            _ => self.over(Outcome::NoRejoinSource),
        }
    }

    fn enforce_standby_leader_role(&mut self, s: Sight) -> (r: Order)
        requires
            s.standby_cluster,
        ensures
            (*final(self), r) == lead_rule(*old(self), s),
    {
        self.role = MemberRole::StandbyLeader;
        if s.follows_remote {
            self.heartbeat(Outcome::StandbyLeading)
        } else {
            self.heartbeat(Outcome::StandbyMisconfigured)
        }
    }

    fn enforce_primary_role(&mut self, s: Sight) -> (r: Order)
        ensures
            (*final(self), r) == lead_rule(*old(self), s),
    {
        if s.standby_cluster {
            return self.enforce_standby_leader_role(s);
        }
        if self.role == MemberRole::Primary {
            self.heartbeat(Outcome::Leading)
        } else if s.running {
            if s.standby_signal {
                self.ask(Phase::Promoting, Order::Promote)
            } else {
                self.role = MemberRole::Primary;
                self.heartbeat(Outcome::Leading)
            }
        } else {
            self.over(Outcome::NotRunning)
        }
    }

    fn demote(&mut self, kept: Outcome) -> (r: Order)
        ensures
            (*final(self), r) == lost_lock_rule(*old(self), kept),
    {
        if self.is_paused {
            self.over(kept)
        } else {
            self.ask(Phase::Demoting, Order::Stop(StopMode::Immediate))
        }
    }

    fn store_lost(&mut self) -> (r: Order)
        ensures
            (*final(self), r) == store_lost_rule(*old(self)),
    {
        self.is_leader = false;
        self.ask(Phase::StoreDemoting, Order::Stop(StopMode::Fast))
    }

    fn not_renewed(&mut self, s: Sight) -> (r: Order)
        ensures
            (*final(self), r) == no_renewal_rule(*old(self), s),
    {
        if s.failsafe && !self.is_paused {
            self.ask(Phase::AskingMembers, Order::AskMembers)
        } else {
            self.is_leader = false;
            self.demote(Outcome::KeptDespiteError)
        }
    }

    fn follow_upstream(&mut self, s: Sight) -> (r: Order)
        ensures
            (*final(self), r) == follow_rule(*old(self), s),
    {
        if s.running && self.role == MemberRole::Primary {
            return self.rejoin_from(s, s.holder);
        }
        if s.running && !s.standby_signal {
            return self.rejoin_from(s, s.holder);
        }
        if s.running {
            self.role = MemberRole::Replica;
            if let Some(i) = s.moved {
                return self.ask(Phase::WritingConf(i), Order::Reconfigure(i));
            }
        }
        self.heartbeat(Outcome::Following)
    }

    fn process_unhealthy_cluster(&mut self, s: Sight) -> (r: Order)
        ensures
            (*final(self), r) == elect_rule(*old(self), s),
    {
        match s.plan {
            ElectionPlan::Paused => self.over(Outcome::NoActionPaused),
            ElectionPlan::Rejoin(i) => self.rejoin_as_replica(s, i),
            ElectionPlan::Attempt => self.ask(Phase::Acquiring, Order::Acquire),
            ElectionPlan::Defer => {
                self.is_leader = false;
                self.over(Outcome::Deferred)
            },
            ElectionPlan::Wait => {
                self.is_leader = false;
                self.over(Outcome::Waiting)
            },
        }
    }

    fn process_healthy_cluster(&mut self, s: Sight) -> (r: Order)
        requires
            s.running,
            !s.unlocked,
            s.data_dir == DataDir::Used,
        ensures
            (*final(self), r) == act_rule(*old(self), s),
    {
        if s.lock_owner {
            self.ask(Phase::Renewing, Order::Renew)
        } else {
            self.is_leader = false;
            self.follow_upstream(s)
        }
    }

    fn revive(&mut self, s: Sight) -> (r: Order)
        ensures
            (*final(self), r) == revive_rule(*old(self), s),
    {
        if self.is_paused {
            return self.over(Outcome::DownPaused);
        }
        if self.start_fail_count >= START_FAILS_BEFORE_REJOIN && s.standby_signal {
            self.start_fail_count = 0;
            if s.rescuer != RejoinSource::Nobody {
                return self.rejoin_from(s, s.rescuer);
            }
        }
        self.ask(Phase::Starting, Order::Start)
    }

    fn handle_postgres_not_running(&mut self, s: Sight) -> (r: Order)
        ensures
            (*final(self), r) == down_rule(*old(self), s),
    {
        if s.lock_owner {
            if self.is_paused {
                return self.over(Outcome::LeaderDownPaused);
            }
            return self.ask(Phase::Releasing, Order::Release);
        }
        self.revive(s)
    }

    fn handle_empty_data_dir(&mut self, s: Sight) -> (r: Order)
        ensures
            (*final(self), r) == empty_rule(*old(self), s),
    {
        if self.is_paused {
            self.over(Outcome::EmptyPaused)
        } else if s.unlocked && !s.initialized {
            self.ask(Phase::Bootstrapping, Order::Bootstrap)
        } else if s.inhabited {
            self.ask(Phase::Cloning, Order::Clone)
        } else {
            self.over(Outcome::WaitingForSource)
        }
    }

    fn act(&mut self, s: Sight) -> (r: Order)
        ensures
            (*final(self), r) == act_rule(*old(self), s),
    {
        match s.data_dir {
            DataDir::Empty => self.handle_empty_data_dir(s),
            DataDir::Fault => self.over(Outcome::DataDirFault),
            DataDir::Used => {
                if !s.running {
                    self.handle_postgres_not_running(s)
                } else if s.unlocked {
                    self.process_unhealthy_cluster(s)
                } else {
                    self.process_healthy_cluster(s)
                }
            },
        }
    }

    fn register(&mut self, s: Sight) -> (r: Order)
        ensures
            (*final(self), r) == register_rule(*old(self), s),
    {
        if s.registered {
            self.act(s)
        } else {
            self.ask(Phase::Registering, Order::Touch)
        }
    }

    fn handle_dcs_error(&mut self, failsafe: bool) -> (r: Order)
        ensures
            (*final(self), r) == begin_rule(*old(self), false, failsafe),
    {
        if self.is_leader && failsafe {
            self.ask(Phase::AskingMembers, Order::AskMembers)
        } else if self.is_leader {
            self.store_lost()
        } else {
            self.over(Outcome::StoreLost)
        }
    }

    /// Begins a run, once the state of the cluster was read or could not be; `failsafe` tells whether
    /// the members are asked in that case.
    pub fn begin(&mut self, loaded: bool, failsafe: bool) -> (r: Order)
        ensures
            (*final(self), r) == begin_rule(*old(self), loaded, failsafe),
    {
        if loaded {
            self.ask(Phase::ReadingConfig, Order::ReadConfig)
        } else {
            self.handle_dcs_error(failsafe)
        }
    }

    /// Goes on once the cluster-wide configuration was read.
    pub fn config_read(&mut self, s: Sight, reload: bool) -> (r: Order)
        ensures
            (*final(self), r) == config_rule(*old(self), s, reload),
    {
        proof {
            reveal(config_rule);
        }
        if reload && s.running {
            self.ask(Phase::Reloading, Order::Reload)
        } else {
            self.register(s)
        }
    }

    /// Goes on once an order was carried out.
    pub fn step(&mut self, s: Sight, a: Answer) -> (r: Order)
        requires
            old(self).start_fail_count < u32::MAX,
        ensures
            (*final(self), r) == next(*old(self), s, a),
    {
        proof {
            reveal(next);
        }
        let done = a == Answer::Done;
        match self.phase {
            Phase::Idle | Phase::ReadingConfig => Order::Nothing,
            Phase::Reloading => self.register(s),
            Phase::Registering => self.act(s),
            Phase::Renewing => {
                if done {
                    self.is_leader = true;
                    self.enforce_primary_role(s)
                } else if a == Answer::Refused {
                    self.is_leader = false;
                    self.demote(Outcome::KeptWithoutLock)
                } else {
                    self.not_renewed(s)
                }
            },
            Phase::AskingMembers => {
                if done {
                    self.over(Outcome::KeptByMembers)
                } else {
                    self.store_lost()
                }
            },
            Phase::Touching(o) => self.over(o),
            Phase::Promoting => {
                if done {
                    self.role = MemberRole::Primary;
                    self.heartbeat(Outcome::Promoted)
                } else {
                    self.over(Outcome::PromoteFailed)
                }
            },
            Phase::Demoting => {
                self.role = MemberRole::Replica;
                self.over(Outcome::Demoted)
            },
            Phase::StoreDemoting => {
                self.role = MemberRole::Replica;
                self.over(Outcome::StoreDemoted)
            },
            Phase::Releasing => {
                self.is_leader = false;
                self.revive(s)
            },
            Phase::Starting => {
                if done {
                    self.start_fail_count = 0;
                    self.over(Outcome::Started)
                } else {
                    self.start_fail_count = self.start_fail_count + 1;
                    self.over(Outcome::StartFailed)
                }
            },
            Phase::Bootstrapping => {
                match a {
                    Answer::Done => {
                        self.role = MemberRole::Primary;
                        self.ask(Phase::AcquiringFirst, Order::Acquire)
                    },
                    Answer::Refused => self.over(Outcome::LostRace),
                    Answer::Failed => self.over(Outcome::BootstrapFailed),
                    Answer::Other => self.over(Outcome::ClonedInstead),
                }
            },
            Phase::AcquiringFirst => {
                self.is_leader = done;
                if done {
                    self.heartbeat(Outcome::Bootstrapped)
                } else {
                    self.over(Outcome::BootstrappedWithoutLock)
                }
            },
            Phase::Cloning => {
                match a {
                    Answer::Done => self.ask(Phase::StartingClone, Order::Start),
                    Answer::Failed => self.over(Outcome::CloneFailed),
                    _ => self.over(Outcome::WaitingForSource),
                }
            },
            Phase::StartingClone => {
                if done {
                    self.role = MemberRole::Replica;
                    self.over(Outcome::Cloned)
                } else {
                    self.over(Outcome::CloneStartFailed)
                }
            },
            Phase::Acquiring => {
                match a {
                    Answer::Done => {
                        self.is_leader = true;
                        self.ask(Phase::ClearingFailover, Order::ClearFailover)
                    },
                    Answer::Refused => {
                        self.is_leader = false;
                        self.over(Outcome::LostElection)
                    },
                    _ => self.over(Outcome::AcquireFailed),
                }
            },
            Phase::ClearingFailover => self.enforce_primary_role(s),
            Phase::RejoinStopping(i) => {
                if done {
                    self.ask(Phase::Rewinding(i), Order::Rewind(i))
                } else {
                    self.over(Outcome::RejoinStopFailed)
                }
            },
            Phase::Rewinding(i) => {
                if done {
                    self.ask(Phase::WritingStandby(i), Order::WriteStandby(i))
                } else {
                    self.ask(Phase::Removing(i), Order::RemoveData)
                }
            },
            Phase::Removing(i) => {
                if done {
                    self.ask(Phase::Copying(i), Order::Copy(i))
                } else {
                    self.over(Outcome::RejoinCleanupFailed)
                }
            },
            Phase::Copying(i) => {
                if done {
                    self.ask(Phase::WritingStandby(i), Order::WriteStandby(i))
                } else {
                    self.over(Outcome::RejoinCopyFailed)
                }
            },
            Phase::WritingStandby(i) => self.ask(Phase::RejoinStarting(i), Order::Start),
            Phase::RejoinStarting(i) => {
                if done {
                    self.role = MemberRole::Replica;
                    self.heartbeat(Outcome::Rejoined(i))
                } else {
                    self.over(Outcome::RejoinStartFailed)
                }
            },
            Phase::WritingConf(_) => {
                if done {
                    self.ask(Phase::ReconfStopping, Order::Stop(StopMode::Fast))
                } else {
                    self.heartbeat(Outcome::Following)
                }
            },
            Phase::ReconfStopping => {
                if done {
                    self.ask(Phase::ReconfStarting, Order::Start)
                } else {
                    self.heartbeat(Outcome::Following)
                }
            },
            Phase::ReconfStarting => self.heartbeat(Outcome::Following),
        }
    }
}

// ---------------------------------------------------------------------------------------------
// Laws
// ---------------------------------------------------------------------------------------------
/// How far the end of a run is at most.
pub open spec fn rank(p: Phase) -> nat {
    match p {
        Phase::Idle => 0,
        Phase::Touching(_) => 1,
        Phase::Promoting => 2,
        Phase::Demoting => 2,
        Phase::StoreDemoting => 2,
        Phase::AskingMembers => 3,
        Phase::Starting => 2,
        Phase::StartingClone => 2,
        Phase::ReconfStarting => 2,
        Phase::ReconfStopping => 3,
        Phase::WritingConf(_) => 4,
        Phase::RejoinStarting(_) => 2,
        Phase::WritingStandby(_) => 3,
        Phase::Copying(_) => 4,
        Phase::Removing(_) => 5,
        Phase::Rewinding(_) => 6,
        Phase::RejoinStopping(_) => 7,
        Phase::AcquiringFirst => 2,
        Phase::Bootstrapping => 3,
        Phase::Cloning => 3,
        Phase::ClearingFailover => 3,
        Phase::Acquiring => 4,
        Phase::Renewing => 4,
        Phase::Releasing => 8,
        Phase::Registering => 9,
        Phase::Reloading => 10,
        Phase::ReadingConfig => 11,
    }
}

/// A run waits for an order to be carried out.
pub open spec fn under_way(c: Core) -> bool {
    c.phase != Phase::Idle && c.phase != Phase::ReadingConfig
}

/// Every run ends: each order that is carried out brings the end nearer, whatever came of it, and
/// the run says how it ended when it is over.
pub proof fn law_every_run_ends(c: Core, s: Sight, a: Answer)
    requires
        under_way(c),
    ensures
        rank(next(c, s, a).0.phase) < rank(c.phase),
        next(c, s, a).1 is Finish <==> next(c, s, a).0.phase == Phase::Idle,
        rank(config_rule(c, s, true).0.phase) < rank(Phase::ReadingConfig),
        rank(config_rule(c, s, false).0.phase) < rank(Phase::ReadingConfig),
{
    reveal(next);
    reveal(config_rule);
}

/// The store has just confirmed that this node holds the lock, or is told of the consequence.
pub open spec fn lock_confirmed(c: Core, a: Answer) -> bool {
    (c.phase == Phase::Renewing && a == Answer::Done) || c.phase == Phase::ClearingFailover
}

/// A node promotes PostgreSQL only after the store has confirmed, in the same run, that it holds
/// the leader lock. No other step of a run promotes.
pub proof fn law_only_the_lock_holder_promotes(
    c: Core,
    s: Sight,
    a: Answer,
    reload: bool,
    loaded: bool,
    failsafe: bool,
)
    ensures
        next(c, s, a).1 == Order::Promote ==> lock_confirmed(c, a) && !s.standby_cluster,
        next(c, s, a).0.phase == Phase::ClearingFailover ==> c.phase == Phase::Acquiring && a
            == Answer::Done,
        config_rule(c, s, reload).1 != Order::Promote,
        config_rule(c, s, reload).0.phase != Phase::ClearingFailover,
        begin_rule(c, loaded, failsafe).1 != Order::Promote,
{
    reveal(next);
    reveal(config_rule);
}

/// A node believes that it holds the lock only because the store has said so: nothing else makes
/// it a leader.
pub proof fn law_only_the_store_makes_a_leader(
    c: Core,
    s: Sight,
    a: Answer,
    reload: bool,
    loaded: bool,
    failsafe: bool,
)
    ensures
        next(c, s, a).0.is_leader && !c.is_leader ==> a == Answer::Done && (c.phase
            == Phase::Renewing || c.phase == Phase::Acquiring || c.phase == Phase::AcquiringFirst),
        config_rule(c, s, reload).0.is_leader ==> c.is_leader,
        begin_rule(c, loaded, failsafe).0.is_leader ==> c.is_leader,
{
    reveal(next);
    reveal(config_rule);
}

/// A node that the store has refused to renew the lock stops PostgreSQL at once and is a replica
/// afterwards, whatever came of the stop, unless the cluster is paused. So does one that could not
/// reach the store, unless the members decide.
pub proof fn law_lost_lock_stops_postgres(c: Core, s: Sight, a: Answer, s2: Sight, a2: Answer)
    requires
        c.phase == Phase::Renewing,
        a == Answer::Refused || (a != Answer::Done && !s.failsafe),
    ensures
        !next(c, s, a).0.is_leader,
        !c.is_paused ==> next(c, s, a).1 == Order::Stop(StopMode::Immediate),
        !c.is_paused ==> next(next(c, s, a).0, s2, a2).0.role == MemberRole::Replica,
        !c.is_paused ==> next(next(c, s, a).0, s2, a2).1 == Order::Finish(Outcome::Demoted),
        c.is_paused ==> next(c, s, a).1 is Finish,
{
    reveal(next);
}

/// A leader that cannot reach the store stops PostgreSQL and is a replica afterwards, paused or
/// not: its lock may expire and be taken without its notice. Where the members decide, they are
/// asked first.
pub proof fn law_unreachable_store_stops_the_leader(c: Core, s: Sight, a: Answer)
    requires
        c.is_leader,
    ensures
        begin_rule(c, false, false).1 == Order::Stop(StopMode::Fast),
        !begin_rule(c, false, false).0.is_leader,
        next(begin_rule(c, false, false).0, s, a).0.role == MemberRole::Replica,
        next(begin_rule(c, false, false).0, s, a).1 == Order::Finish(Outcome::StoreDemoted),
        begin_rule(c, false, true) == ask(c, Phase::AskingMembers, Order::AskMembers),
{
    reveal(next);
}

/// A leader that has asked the members stays as it is if every one has confirmed it; otherwise it
/// stops PostgreSQL and is a replica afterwards.
pub proof fn law_members_let_a_primary_stay(c: Core, s: Sight, a: Answer, s2: Sight, a2: Answer)
    requires
        c.phase == Phase::AskingMembers,
    ensures
        a == Answer::Done ==> next(c, s, a) == over(c, Outcome::KeptByMembers),
        a != Answer::Done ==> {
            let n = next(c, s, a);
            &&& n.1 == Order::Stop(StopMode::Fast)
            &&& !n.0.is_leader
            &&& next(n.0, s2, a2).0.role == MemberRole::Replica
            &&& next(n.0, s2, a2).1 == Order::Finish(Outcome::StoreDemoted)
        },
{
    reveal(next);
}

/// A node that runs as primary although another node holds the lock stops PostgreSQL to become a
/// replica of the holder, as soon as it knows the holder.
pub proof fn law_primary_without_lock_steps_down(c: Core, s: Sight)
    requires
        s.data_dir == DataDir::Used,
        s.running,
        !s.unlocked,
        !s.lock_owner,
        c.role == MemberRole::Primary || !s.standby_signal,
    ensures
        s.holder is At ==> act_rule(c, s).1 == Order::Stop(StopMode::Fast),
        !act_rule(c, s).0.is_leader,
{
}

/// Data is removed only after rewinding it has failed, and is then copied anew from the same
/// member or the run ends.
pub proof fn law_data_is_removed_only_after_failed_rewind(
    c: Core,
    s: Sight,
    a: Answer,
    reload: bool,
    loaded: bool,
    failsafe: bool,
    s2: Sight,
    a2: Answer,
)
    ensures
        next(c, s, a).1 == Order::RemoveData ==> c.phase is Rewinding && a != Answer::Done,
        config_rule(c, s, reload).1 != Order::RemoveData,
        begin_rule(c, loaded, failsafe).1 != Order::RemoveData,
        c.phase matches Phase::Rewinding(i) ==> (a != Answer::Done && a2 == Answer::Done ==> next(
            next(c, s, a).0,
            s2,
            a2,
        ).1 == Order::Copy(i)),
{
    reveal(next);
    reveal(config_rule);
}

/// In a paused cluster a node without data stays without, PostgreSQL that is down stays down, and
/// a lock that nobody holds is left alone.
pub proof fn law_pause_leaves_things_alone(c: Core, s: Sight)
    requires
        c.is_paused,
        s.plan == ElectionPlan::Paused,
        s.data_dir == DataDir::Empty || !s.running || s.unlocked,
    ensures
        act_rule(c, s).1 is Finish,
        act_rule(c, s).0 == (Core { phase: Phase::Idle, ..c }),
{
}

// ---------------------------------------------------------------------------------------------
// Laws on what is asked for, and when
// ---------------------------------------------------------------------------------------------
/// PostgreSQL is down on a node that has data, and this node holds no lock, in a cluster that is not
/// paused.
pub open spec fn may_revive(c: Core, s: Sight) -> bool {
    s.data_dir == DataDir::Used && !s.running && !s.lock_owner && !c.is_paused
}

/// PostgreSQL runs on a node that has data, while another node holds the lock.
pub open spec fn led_by_another(s: Sight) -> bool {
    s.data_dir == DataDir::Used && s.running && !s.unlocked && !s.lock_owner
}

/// PostgreSQL runs on a node that has data, while nobody holds the lock.
pub open spec fn leaderless(s: Sight) -> bool {
    s.data_dir == DataDir::Used && s.running && s.unlocked
}

/// The order is the one that is waited for in the phase.
pub open spec fn awaits(p: Phase, o: Order) -> bool {
    match o {
        Order::Nothing => p == Phase::Idle || p == Phase::ReadingConfig,
        Order::ReadConfig => p == Phase::ReadingConfig,
        Order::Reload => p == Phase::Reloading,
        Order::Touch => p == Phase::Registering || p is Touching,
        Order::Renew => p == Phase::Renewing,
        Order::Acquire => p == Phase::Acquiring || p == Phase::AcquiringFirst,
        Order::Release => p == Phase::Releasing,
        Order::ClearFailover => p == Phase::ClearingFailover,
        Order::AskMembers => p == Phase::AskingMembers,
        Order::Stop(StopMode::Immediate) => p == Phase::Demoting,
        Order::Stop(StopMode::Fast) => p == Phase::StoreDemoting || p is RejoinStopping || p
            == Phase::ReconfStopping,
        Order::Start => p == Phase::Starting || p == Phase::StartingClone || p is RejoinStarting
            || p == Phase::ReconfStarting,
        Order::Promote => p == Phase::Promoting,
        Order::Rewind(i) => p == Phase::Rewinding(i),
        Order::RemoveData => p is Removing,
        Order::Copy(i) => p == Phase::Copying(i),
        Order::WriteStandby(i) => p == Phase::WritingStandby(i),
        Order::Reconfigure(i) => p == Phase::WritingConf(i),
        Order::Bootstrap => p == Phase::Bootstrapping,
        Order::Clone => p == Phase::Cloning,
        Order::Finish(_) => p == Phase::Idle,
    }
}

/// Whatever is asked for is what the machine then waits for.
pub proof fn law_orders_are_waited_for(
    c: Core,
    s: Sight,
    a: Answer,
    reload: bool,
    loaded: bool,
    failsafe: bool,
)
    ensures
        awaits(next(c, s, a).0.phase, next(c, s, a).1),
        awaits(config_rule(c, s, reload).0.phase, config_rule(c, s, reload).1),
        awaits(begin_rule(c, loaded, failsafe).0.phase, begin_rule(c, loaded, failsafe).1),
        awaits(act_rule(c, s).0.phase, act_rule(c, s).1),
        loaded ==> begin_rule(c, loaded, failsafe).1 == Order::ReadConfig,
        !loaded && !c.is_leader ==> begin_rule(c, loaded, failsafe).1 == Order::Finish(
            Outcome::StoreLost,
        ),
{
    reveal(next);
    reveal(config_rule);
}

/// Before the node acts, PostgreSQL reads changed settings if it runs, and the node is registered if
/// it is not. Neither has to go well. Then it acts in the same way.
pub proof fn law_node_acts_once_registered(c: Core, s: Sight, a: Answer, reload: bool)
    ensures
        config_rule(c, s, reload).1 == Order::Reload <==> reload && s.running,
        !(reload && s.running) && s.registered ==> config_rule(c, s, reload) == act_rule(c, s),
        !(reload && s.running) && !s.registered ==> config_rule(c, s, reload) == (
            Core { phase: Phase::Registering, ..c },
            Order::Touch,
        ),
        reload && s.running ==> config_rule(c, s, reload).0 == (Core {
            phase: Phase::Reloading,
            ..c
        }),
        c.phase == Phase::Reloading && s.registered ==> next(c, s, a) == act_rule(c, s),
        c.phase == Phase::Reloading && !s.registered ==> next(c, s, a) == (
            Core { phase: Phase::Registering, ..c },
            Order::Touch,
        ),
        c.phase == Phase::Registering ==> next(c, s, a) == act_rule(c, s),
{
    reveal(next);
    reveal(config_rule);
}

/// A leader whose PostgreSQL is down gives up the lock before anything else, so that a replica can
/// take over, and believes no longer that it holds it, whatever came of the release. Only then is
/// PostgreSQL started or brought up to date. In a paused cluster it keeps the lock and does nothing.
pub proof fn law_dead_leader_gives_up_the_lock(c: Core, s: Sight, s2: Sight, a2: Answer)
    requires
        s.data_dir == DataDir::Used,
        !s.running,
    ensures
        act_rule(c, s).1 == Order::Release <==> s.lock_owner && !c.is_paused,
        s.lock_owner && !c.is_paused ==> !next(act_rule(c, s).0, s2, a2).0.is_leader,
        s.lock_owner ==> act_rule(c, s).1 != Order::Start && !(act_rule(c, s).1 is Rewind),
        s.lock_owner && c.is_paused ==> act_rule(c, s) == (
            Core { phase: Phase::Idle, ..c },
            Order::Finish(Outcome::LeaderDownPaused),
        ),
{
    reveal(next);
}

/// The lock is released in no other situation than that of a leader whose PostgreSQL is down.
pub proof fn law_lock_is_not_released_otherwise(
    c: Core,
    s: Sight,
    a: Answer,
    reload: bool,
    loaded: bool,
    failsafe: bool,
)
    ensures
        act_rule(c, s).1 == Order::Release ==> s.data_dir == DataDir::Used && !s.running
            && s.lock_owner && !c.is_paused,
        next(c, s, a).1 == Order::Release ==> c.phase == Phase::Reloading || c.phase
            == Phase::Registering,
        begin_rule(c, loaded, failsafe).1 != Order::Release,
{
    reveal(next);
}

/// PostgreSQL that is down is started, unless the cluster is paused. A standby that has failed to
/// start three times in a row is brought up to date from another member instead, if there is one,
/// and the count begins anew. So it is when the lock was given up first.
pub proof fn law_down_postgres_is_revived(c: Core, s: Sight, a: Answer, i: usize)
    requires
        (c.phase == Phase::Releasing && !c.is_paused) || (c.phase == Phase::Registering
            && may_revive(c, s)),
    ensures
        ({
            let r = next(c, s, a);
            let worn_out = c.start_fail_count >= 3 && s.standby_signal;
            &&& !worn_out ==> r.1 == Order::Start && r.0.start_fail_count == c.start_fail_count
            &&& worn_out ==> r.0.start_fail_count == 0
            &&& worn_out && s.rescuer == RejoinSource::Nobody ==> r.1 == Order::Start
            &&& worn_out && s.rescuer == RejoinSource::Missing ==> r.1 == Order::Finish(
                Outcome::NoRejoinSource,
            )
            &&& worn_out && s.rescuer == RejoinSource::At(i) && !s.running ==> r.1 == Order::Rewind(
                i,
            )
            &&& worn_out && s.rescuer == RejoinSource::At(i) && s.running ==> r.0.phase
                == Phase::RejoinStopping(i)
            &&& r.1 == Order::Start ==> r.0.phase == Phase::Starting
        }),
{
    reveal(next);
}

/// PostgreSQL that was to be started counts as started only if it was; each failure is counted.
pub proof fn law_failed_starts_are_counted(c: Core, s: Sight, a: Answer)
    requires
        c.phase == Phase::Starting,
        c.start_fail_count < u32::MAX,
    ensures
        a == Answer::Done ==> next(c, s, a) == (
            Core { phase: Phase::Idle, start_fail_count: 0, ..c },
            Order::Finish(Outcome::Started),
        ),
        a != Answer::Done ==> next(c, s, a).1 == Order::Finish(Outcome::StartFailed),
        a != Answer::Done ==> next(c, s, a).0.start_fail_count == c.start_fail_count + 1,
        a != Answer::Done ==> next(c, s, a).0.role == c.role && next(c, s, a).0.is_leader
            == c.is_leader,
{
    reveal(next);
}

/// Each order that opens the work of a node is given in one situation, and always in that one.
pub proof fn law_each_order_has_its_situation(c: Core, s: Sight, i: usize)
    ensures
        ({
            let o = act_rule(c, s).1;
            let strayed = c.role == MemberRole::Primary || !s.standby_signal;
            &&& o == Order::Renew <==> s.data_dir == DataDir::Used && s.running && !s.unlocked
                && s.lock_owner
            &&& o == Order::Acquire <==> leaderless(s) && s.plan == ElectionPlan::Attempt
            &&& o == Order::Bootstrap <==> s.data_dir == DataDir::Empty && !c.is_paused && s.unlocked
                && !s.initialized
            &&& o == Order::Clone <==> s.data_dir == DataDir::Empty && !c.is_paused && (!s.unlocked
                || s.initialized) && s.inhabited
            &&& o is Stop ==> o == Order::Stop(StopMode::Fast)
            &&& act_rule(c, s).0.phase == Phase::RejoinStopping(i) <==> (leaderless(s) && s.plan
                == ElectionPlan::Rejoin(i)) || (led_by_another(s) && strayed && s.holder
                == RejoinSource::At(i))
            &&& o == Order::Rewind(i) <==> may_revive(c, s) && c.start_fail_count >= 3
                && s.standby_signal && s.rescuer == RejoinSource::At(i)
            &&& o == Order::Reconfigure(i) <==> led_by_another(s) && !strayed && s.moved == Some(i)
            &&& o == Order::Touch <==> led_by_another(s) && !strayed && s.moved is None
            &&& o == Order::Start <==> may_revive(c, s) && !(c.start_fail_count >= 3
                && s.standby_signal && s.rescuer != RejoinSource::Nobody)
            &&& o != Order::Promote && o != Order::RemoveData && o != Order::AskMembers
            &&& o != Order::ReadConfig && o != Order::Nothing && o != Order::ClearFailover
            &&& o != Order::Reload && !(o is Copy) && !(o is WriteStandby)
        }),
{
}

/// A node that asks for nothing says why.
pub proof fn law_each_idle_run_has_its_reason(c: Core, s: Sight)
    ensures
        ({
            let o = act_rule(c, s).1;
            let strayed = c.role == MemberRole::Primary || !s.standby_signal;
            &&& o == Order::Finish(Outcome::DataDirFault) <==> s.data_dir == DataDir::Fault
            &&& o == Order::Finish(Outcome::EmptyPaused) <==> s.data_dir == DataDir::Empty
                && c.is_paused
            &&& o == Order::Finish(Outcome::WaitingForSource) <==> s.data_dir == DataDir::Empty
                && !c.is_paused && (!s.unlocked || s.initialized) && !s.inhabited
            &&& o == Order::Finish(Outcome::LeaderDownPaused) <==> s.data_dir == DataDir::Used
                && !s.running && s.lock_owner && c.is_paused
            &&& o == Order::Finish(Outcome::DownPaused) <==> s.data_dir == DataDir::Used && !s.running
                && !s.lock_owner && c.is_paused
            &&& o == Order::Finish(Outcome::NoActionPaused) <==> leaderless(s) && s.plan
                == ElectionPlan::Paused
            &&& o == Order::Finish(Outcome::Deferred) <==> leaderless(s) && s.plan
                == ElectionPlan::Defer
            &&& o == Order::Finish(Outcome::Waiting) <==> leaderless(s) && s.plan
                == ElectionPlan::Wait
            &&& o == Order::Finish(Outcome::NoRejoinSource) <==> (led_by_another(s) && strayed && !(
            s.holder is At)) || (may_revive(c, s) && c.start_fail_count >= 3 && s.standby_signal
                && s.rescuer == RejoinSource::Missing)
        }),
{
}

/// A node that acts gives up the belief that it leads when another node does, or when it leaves a
/// free lock to others; it takes itself for a replica when it follows; and nothing else of it
/// changes.
pub proof fn law_acting_changes_little(c: Core, s: Sight)
    ensures
        ({
            let n = act_rule(c, s).0;
            let strayed = c.role == MemberRole::Primary || !s.standby_signal;
            &&& n.is_paused == c.is_paused
            &&& n.is_leader <==> c.is_leader && !led_by_another(s) && !(leaderless(s) && (s.plan
                == ElectionPlan::Defer || s.plan == ElectionPlan::Wait))
            &&& led_by_another(s) && !strayed ==> n.role == MemberRole::Replica
            &&& !led_by_another(s) || strayed ==> n.role == c.role
            &&& may_revive(c, s) && c.start_fail_count >= 3 && s.standby_signal ==> n.start_fail_count
                == 0
            &&& !(may_revive(c, s) && c.start_fail_count >= 3 && s.standby_signal)
                ==> n.start_fail_count == c.start_fail_count
        }),
{
}

/// A node that holds the lock, as the store has just confirmed, ends up as the primary: PostgreSQL
/// that runs as a standby is promoted, and one that runs as primary is left alone. The leader of a
/// standby cluster is never promoted. A node whose PostgreSQL does not run says so.
pub proof fn law_lock_holder_becomes_primary(c: Core, s: Sight, a: Answer)
    requires
        (c.phase == Phase::Renewing && a == Answer::Done) || c.phase == Phase::ClearingFailover,
    ensures
        ({
            let r = next(c, s, a);
            let is_primary = c.role == MemberRole::Primary;
            &&& c.phase == Phase::Renewing ==> r.0.is_leader
            &&& c.phase == Phase::ClearingFailover ==> r.0.is_leader == c.is_leader
            &&& s.standby_cluster ==> r.0.role == MemberRole::StandbyLeader && r.1 == Order::Touch
            &&& s.standby_cluster && s.follows_remote ==> r.0.phase == Phase::Touching(
                Outcome::StandbyLeading,
            )
            &&& s.standby_cluster && !s.follows_remote ==> r.0.phase == Phase::Touching(
                Outcome::StandbyMisconfigured,
            )
            &&& r.1 == Order::Promote <==> !s.standby_cluster && !is_primary && s.running
                && s.standby_signal
            &&& r.1 == Order::Promote ==> r.0.role == c.role
            &&& r.0.phase == Phase::Touching(Outcome::Leading) <==> !s.standby_cluster && (is_primary
                || (s.running && !s.standby_signal))
            &&& r.0.phase == Phase::Touching(Outcome::Leading) ==> r.0.role == MemberRole::Primary
            &&& r.1 == Order::Finish(Outcome::NotRunning) <==> !s.standby_cluster && !is_primary
                && !s.running
            &&& r.1 == Order::Finish(Outcome::NotRunning) ==> r.0.role == c.role
        }),
{
    reveal(next);
}

/// PostgreSQL counts as promoted only if it was; then the node is primary and says so to the store.
pub proof fn law_promotion_must_succeed(c: Core, s: Sight, a: Answer)
    requires
        c.phase == Phase::Promoting,
    ensures
        a == Answer::Done ==> next(c, s, a) == (
            Core { phase: Phase::Touching(Outcome::Promoted), role: MemberRole::Primary, ..c },
            Order::Touch,
        ),
        a != Answer::Done ==> next(c, s, a) == (
            Core { phase: Phase::Idle, ..c },
            Order::Finish(Outcome::PromoteFailed),
        ),
{
    reveal(next);
}

/// A run that has stored its heartbeat ends as it was to end, whether or not it was stored.
pub proof fn law_heartbeat_ends_the_run(c: Core, s: Sight, a: Answer, o: Outcome)
    requires
        c.phase == Phase::Touching(o),
    ensures
        next(c, s, a) == (Core { phase: Phase::Idle, ..c }, Order::Finish(o)),
{
    reveal(next);
}

/// In a paused cluster a node that loses the lock, or cannot renew it, goes on without it; it says
/// which. Members are asked only where the store could not be reached, and not in a paused cluster;
/// until they have answered the node stays as it is.
pub proof fn law_unconfirmed_lock(c: Core, s: Sight, a: Answer)
    requires
        c.phase == Phase::Renewing,
        a != Answer::Done,
    ensures
        ({
            let r = next(c, s, a);
            &&& r.1 == Order::AskMembers <==> a != Answer::Refused && s.failsafe && !c.is_paused
            &&& r.1 == Order::AskMembers ==> r.0 == (Core { phase: Phase::AskingMembers, ..c })
            &&& r.1 != Order::AskMembers ==> r.0 == (Core {
                phase: r.0.phase,
                is_leader: false,
                ..c
            })
            &&& c.is_paused && a == Answer::Refused ==> r.1 == Order::Finish(
                Outcome::KeptWithoutLock,
            )
            &&& c.is_paused && a != Answer::Refused ==> r.1 == Order::Finish(
                Outcome::KeptDespiteError,
            )
            &&& !c.is_paused && r.1 != Order::AskMembers ==> r.1 == Order::Stop(
                StopMode::Immediate,
            )
        }),
{
    reveal(next);
}

/// The members are asked by a leader that cannot read the cluster, or cannot renew its lock for want
/// of the store, and by nobody else. If they let it stay, it stays just as it was.
pub proof fn law_only_a_leader_asks_the_members(
    c: Core,
    s: Sight,
    a: Answer,
    loaded: bool,
    failsafe: bool,
)
    ensures
        begin_rule(c, loaded, failsafe).1 == Order::AskMembers <==> !loaded && c.is_leader
            && failsafe,
        begin_rule(c, loaded, failsafe).1 == Order::AskMembers ==> begin_rule(
            c,
            loaded,
            failsafe,
        ).0 == (Core { phase: Phase::AskingMembers, ..c }),
        begin_rule(c, loaded, failsafe).1 == Order::Stop(StopMode::Fast) <==> !loaded && c.is_leader
            && !failsafe,
        next(c, s, a).1 == Order::AskMembers ==> c.phase == Phase::Renewing,
        c.phase == Phase::AskingMembers && a == Answer::Done ==> next(c, s, a) == (
            Core { phase: Phase::Idle, ..c },
            Order::Finish(Outcome::KeptByMembers),
        ),
        c.phase == Phase::AskingMembers && a != Answer::Done ==> next(c, s, a) == (
            Core { phase: Phase::StoreDemoting, is_leader: false, ..c },
            Order::Stop(StopMode::Fast),
        ),
{
    reveal(next);
}

/// A node that was made to stop takes itself for a replica, whether or not PostgreSQL has stopped.
pub proof fn law_stopped_node_is_a_replica(c: Core, s: Sight, a: Answer)
    requires
        c.phase == Phase::Demoting || c.phase == Phase::StoreDemoting,
    ensures
        next(c, s, a).0 == (Core { phase: Phase::Idle, role: MemberRole::Replica, ..c }),
        c.phase == Phase::Demoting ==> next(c, s, a).1 == Order::Finish(Outcome::Demoted),
        c.phase == Phase::StoreDemoting ==> next(c, s, a).1 == Order::Finish(Outcome::StoreDemoted),
{
    reveal(next);
}

/// A node that takes a free lock leads, and removes the failover request before it is promoted. One
/// that is refused does not lead; one that could not ask the store stays as it is.
pub proof fn law_free_lock_is_taken_first(c: Core, s: Sight, a: Answer)
    requires
        c.phase == Phase::Acquiring,
    ensures
        a == Answer::Done ==> next(c, s, a) == (
            Core { phase: Phase::ClearingFailover, is_leader: true, ..c },
            Order::ClearFailover,
        ),
        a == Answer::Refused ==> next(c, s, a) == (
            Core { phase: Phase::Idle, is_leader: false, ..c },
            Order::Finish(Outcome::LostElection),
        ),
        a != Answer::Done && a != Answer::Refused ==> next(c, s, a) == (
            Core { phase: Phase::Idle, ..c },
            Order::Finish(Outcome::AcquireFailed),
        ),
{
    reveal(next);
}

/// A node that has created the cluster is primary and asks for the lock; it leads only if it gets
/// it. One that has not created it stays as it is and says why.
pub proof fn law_creator_asks_for_the_lock(c: Core, s: Sight, a: Answer)
    ensures
        c.phase == Phase::Bootstrapping ==> {
            let r = next(c, s, a);
            &&& a == Answer::Done ==> r == (
                Core { phase: Phase::AcquiringFirst, role: MemberRole::Primary, ..c },
                Order::Acquire,
            )
            &&& a != Answer::Done ==> r.0 == (Core { phase: Phase::Idle, ..c })
            &&& a == Answer::Refused ==> r.1 == Order::Finish(Outcome::LostRace)
            &&& a == Answer::Failed ==> r.1 == Order::Finish(Outcome::BootstrapFailed)
            &&& a == Answer::Other ==> r.1 == Order::Finish(Outcome::ClonedInstead)
        },
        c.phase == Phase::AcquiringFirst ==> {
            let r = next(c, s, a);
            &&& r.0.is_leader <==> a == Answer::Done
            &&& r.0 == (Core { phase: r.0.phase, is_leader: r.0.is_leader, ..c })
            &&& a == Answer::Done ==> r.0.phase == Phase::Touching(Outcome::Bootstrapped) && r.1
                == Order::Touch
            &&& a != Answer::Done ==> r.1 == Order::Finish(Outcome::BootstrappedWithoutLock)
        },
        next(c, s, a).0.phase == Phase::AcquiringFirst ==> c.phase == Phase::Bootstrapping && a
            == Answer::Done,
{
    reveal(next);
}

/// A node that was cloned is started, and is a replica only once it has started.
pub proof fn law_clone_is_started_as_replica(c: Core, s: Sight, a: Answer)
    ensures
        c.phase == Phase::Cloning ==> {
            let r = next(c, s, a);
            &&& a == Answer::Done ==> r == (
                Core { phase: Phase::StartingClone, ..c },
                Order::Start,
            )
            &&& a != Answer::Done ==> r.0 == (Core { phase: Phase::Idle, ..c })
            &&& a == Answer::Failed ==> r.1 == Order::Finish(Outcome::CloneFailed)
            &&& a == Answer::Refused || a == Answer::Other ==> r.1 == Order::Finish(
                Outcome::WaitingForSource,
            )
        },
        c.phase == Phase::StartingClone && a == Answer::Done ==> next(c, s, a) == (
            Core { phase: Phase::Idle, role: MemberRole::Replica, ..c },
            Order::Finish(Outcome::Cloned),
        ),
        c.phase == Phase::StartingClone && a != Answer::Done ==> next(c, s, a) == (
            Core { phase: Phase::Idle, ..c },
            Order::Finish(Outcome::CloneStartFailed),
        ),
        next(c, s, a).0.phase == Phase::StartingClone ==> c.phase == Phase::Cloning && a
            == Answer::Done,
{
    reveal(next);
}

/// A former primary that rejoins is started only after it was made a standby of the member that it
/// was brought up to date from, by rewinding or by copying, and only after one of these went well.
pub proof fn law_rejoin_starts_as_standby(c: Core, s: Sight, a: Answer, i: usize)
    ensures
        next(c, s, a).0.phase == Phase::RejoinStarting(i) <==> c.phase == Phase::WritingStandby(i),
        next(c, s, a).1 == Order::WriteStandby(i) <==> a == Answer::Done && (c.phase
            == Phase::Rewinding(i) || c.phase == Phase::Copying(i)),
        c.phase == Phase::WritingStandby(i) ==> next(c, s, a).1 == Order::Start,
{
    reveal(next);
}

/// No run begins in the middle of a rejoin.
pub proof fn law_rejoin_is_not_entered_midway(
    c: Core,
    s: Sight,
    reload: bool,
    loaded: bool,
    failsafe: bool,
)
    ensures
        !(config_rule(c, s, reload).0.phase is RejoinStarting),
        !(config_rule(c, s, reload).0.phase is WritingStandby),
        !(config_rule(c, s, reload).0.phase is Copying),
        !(begin_rule(c, loaded, failsafe).0.phase is RejoinStarting),
        !(begin_rule(c, loaded, failsafe).0.phase is WritingStandby),
{
    reveal(config_rule);
}

/// A rejoin rewinds what was stopped; what cannot be rewound is removed, and what was removed is
/// copied, from the same member throughout. It counts as done only once PostgreSQL has started.
pub proof fn law_rejoin_goes_step_by_step(c: Core, s: Sight, a: Answer, i: usize)
    ensures
        next(c, s, a).1 == Order::Copy(i) <==> c.phase == Phase::Removing(i) && a == Answer::Done,
        next(c, s, a).0.phase == Phase::Removing(i) <==> c.phase == Phase::Rewinding(i) && a
            != Answer::Done,
        c.phase == Phase::RejoinStopping(i) && a == Answer::Done ==> next(c, s, a).1
            == Order::Rewind(i),
        next(c, s, a).0.phase == Phase::Touching(Outcome::Rejoined(i)) <==> c.phase
            == Phase::RejoinStarting(i) && a == Answer::Done,
        next(c, s, a).0.phase == Phase::Touching(Outcome::Rejoined(i)) ==> next(c, s, a).0.role
            == MemberRole::Replica,
{
    reveal(next);
}

/// A rejoin in which everything goes well stops PostgreSQL, rewinds it, makes it a standby, starts
/// it, and leaves a replica; nothing else of the node changes.
pub proof fn law_rejoin_by_rewinding(
    c: Core,
    s1: Sight,
    s2: Sight,
    s3: Sight,
    s4: Sight,
    a: Answer,
    i: usize,
)
    requires
        c.phase == Phase::RejoinStopping(i),
    ensures
        ({
            let stopped = next(c, s1, Answer::Done);
            let rewound = next(stopped.0, s2, Answer::Done);
            let written = next(rewound.0, s3, a);
            let started = next(written.0, s4, Answer::Done);
            &&& stopped.1 == Order::Rewind(i)
            &&& rewound.1 == Order::WriteStandby(i)
            &&& written.1 == Order::Start
            &&& started.1 == Order::Touch
            &&& started.0 == (Core {
                phase: Phase::Touching(Outcome::Rejoined(i)),
                role: MemberRole::Replica,
                ..c
            })
        }),
{
    reveal(next);
}

/// A rejoin that fails says at which step, and leaves the rest of the node as it was. A node that
/// could not be rewound is copied anew and made a standby in the same way.
pub proof fn law_failed_rejoin_says_why(c: Core, s: Sight, a: Answer, i: usize)
    requires
        a != Answer::Done,
    ensures
        c.phase == Phase::RejoinStopping(i) ==> next(c, s, a) == (
            Core { phase: Phase::Idle, ..c },
            Order::Finish(Outcome::RejoinStopFailed),
        ),
        c.phase == Phase::Rewinding(i) ==> next(c, s, a) == (
            Core { phase: Phase::Removing(i), ..c },
            Order::RemoveData,
        ),
        c.phase == Phase::Removing(i) ==> next(c, s, a) == (
            Core { phase: Phase::Idle, ..c },
            Order::Finish(Outcome::RejoinCleanupFailed),
        ),
        c.phase == Phase::Copying(i) ==> next(c, s, a) == (
            Core { phase: Phase::Idle, ..c },
            Order::Finish(Outcome::RejoinCopyFailed),
        ),
        c.phase == Phase::RejoinStarting(i) ==> next(c, s, a) == (
            Core { phase: Phase::Idle, ..c },
            Order::Finish(Outcome::RejoinStartFailed),
        ),
{
    reveal(next);
}

/// A replica that is to follow another member is stopped and started only with the new
/// configuration in place, and follows in any case.
pub proof fn law_replica_moves_to_another_member(c: Core, s: Sight, a: Answer, i: usize)
    ensures
        c.phase == Phase::WritingConf(i) && a == Answer::Done ==> next(c, s, a) == (
            Core { phase: Phase::ReconfStopping, ..c },
            Order::Stop(StopMode::Fast),
        ),
        c.phase == Phase::ReconfStopping && a == Answer::Done ==> next(c, s, a) == (
            Core { phase: Phase::ReconfStarting, ..c },
            Order::Start,
        ),
        c.phase == Phase::ReconfStarting || (a != Answer::Done && (c.phase == Phase::WritingConf(i)
            || c.phase == Phase::ReconfStopping)) ==> next(c, s, a) == (
            Core { phase: Phase::Touching(Outcome::Following), ..c },
            Order::Touch,
        ),
        next(c, s, a).0.phase == Phase::ReconfStarting ==> c.phase == Phase::ReconfStopping && a
            == Answer::Done,
        next(c, s, a).0.phase == Phase::ReconfStopping ==> c.phase is WritingConf && a
            == Answer::Done,
{
    reveal(next);
}

/// PostgreSQL is started in these situations only: it is down and was revived; it was cloned; it was
/// made a standby; or it was stopped to follow another member.
pub proof fn law_postgres_is_started_only_then(c: Core, s: Sight, a: Answer)
    requires
        next(c, s, a).1 == Order::Start,
    ensures
        ({
            ||| c.phase == Phase::Releasing && !c.is_paused
            ||| (c.phase == Phase::Registering || (c.phase == Phase::Reloading && s.registered))
                && may_revive(c, s)
            ||| c.phase == Phase::Cloning && a == Answer::Done
            ||| c.phase is WritingStandby
            ||| c.phase == Phase::ReconfStopping && a == Answer::Done
        }),
{
    reveal(next);
}

/// A node is paused or not by the configuration alone: no step of a run changes that. It takes
/// itself for primary only when it was promoted, has created the cluster, or runs without the mark
/// of a standby while it holds the lock.
pub proof fn law_steps_do_not_pause(
    c: Core,
    s: Sight,
    a: Answer,
    reload: bool,
    loaded: bool,
    failsafe: bool,
)
    ensures
        next(c, s, a).0.is_paused == c.is_paused,
        config_rule(c, s, reload).0.is_paused == c.is_paused,
        begin_rule(c, loaded, failsafe).0.is_paused == c.is_paused,
        begin_rule(c, loaded, failsafe).0.role == c.role,
        begin_rule(c, loaded, failsafe).0.start_fail_count == c.start_fail_count,
        loaded || failsafe || !c.is_leader ==> begin_rule(c, loaded, failsafe).0.is_leader
            == c.is_leader,
        next(c, s, a).0.role == MemberRole::Primary && c.role != MemberRole::Primary ==> (a
            == Answer::Done && (c.phase == Phase::Promoting || c.phase == Phase::Bootstrapping)) || (
        lock_confirmed(c, a) && !s.standby_cluster && s.running && !s.standby_signal),
        next(c, s, a).0.start_fail_count > c.start_fail_count ==> c.phase == Phase::Starting && a
            != Answer::Done,
        !under_way(c) ==> next(c, s, a) == (c, Order::Nothing),
{
    reveal(next);
    reveal(config_rule);
}

/// A run that begins with nobody holding the lock, and in which this node is the one to take it,
/// takes the lock before PostgreSQL is promoted; at the end the node leads as primary.
pub proof fn law_failover_takes_the_lock_then_promotes(
    c: Core,
    s: Sight,
    s1: Sight,
    s2: Sight,
    s3: Sight,
    a: Answer,
)
    requires
        leaderless(s),
        s.plan == ElectionPlan::Attempt,
        c.role != MemberRole::Primary,
        s2.running && s2.standby_signal && !s2.standby_cluster,
    ensures
        ({
            let asked = act_rule(c, s);
            let taken = next(asked.0, s1, Answer::Done);
            let cleared = next(taken.0, s2, a);
            let promoted = next(cleared.0, s3, Answer::Done);
            &&& asked.1 == Order::Acquire
            &&& taken.1 == Order::ClearFailover
            &&& cleared.1 == Order::Promote
            &&& promoted.1 == Order::Touch
            &&& promoted.0 == (Core {
                phase: Phase::Touching(Outcome::Promoted),
                is_leader: true,
                role: MemberRole::Primary,
                ..c
            })
        }),
{
    reveal(next);
}

} // verus!
