//! What the agent does in several steps.
//!
//! Some steps are carried out one after the other, whatever comes of them: those of a switchover
//! and those before the agent ends. Where the next step depends on how the last one went, a phase
//! says what is waited for.

use vstd::prelude::*;

use crate::cluster::MemberRole;
use crate::commands::{CommandResponse, CommandStatus};
use crate::cycle::StopMode;
use crate::dynamic_config;
use crate::ha::Ha;
use crate::standby_cluster;
use crate::standby_cluster::{CascadeOrder, CascadePhase, StandbyCluster};
use crate::text;

verus! {

// ---------------------------------------------------------------------------------------------
// Steps that do not depend on each other
// ---------------------------------------------------------------------------------------------
/// A step that is carried out whatever came of those before it.
#[derive(Debug, PartialEq, Eq)]
pub enum Step {
    /// Store a request for a failover.
    StoreFailover(String),
    /// Give up the leader lock.
    ReleaseLock,
    /// Let PostgreSQL write a checkpoint.
    Checkpoint,
    /// Stop PostgreSQL.
    Stop(StopMode),
    /// Mark the data directory as that of a standby.
    MarkStandby,
    /// Write `postgresql.auto.conf`.
    WriteConf(String),
}

/// The contents of a [`Step`].
pub enum StepView {
    StoreFailover(Seq<char>),
    ReleaseLock,
    Checkpoint,
    Stop(StopMode),
    MarkStandby,
    WriteConf(Seq<char>),
}

impl View for Step {
    type V = StepView;

    open spec fn view(&self) -> StepView {
        match *self {
            Step::StoreFailover(s) => StepView::StoreFailover(s@),
            Step::ReleaseLock => StepView::ReleaseLock,
            Step::Checkpoint => StepView::Checkpoint,
            Step::Stop(mode) => StepView::Stop(mode),
            Step::MarkStandby => StepView::MarkStandby,
            Step::WriteConf(s) => StepView::WriteConf(s@),
        }
    }
}

/// The contents of steps, in their order.
pub open spec fn step_views(steps: Seq<Step>) -> Seq<StepView> {
    Seq::new(steps.len(), |i: int| steps[i]@)
}

/// The steps of a switchover at once. The request is stored before the lock is free, so that the
/// candidate is known when the others elect a leader; PostgreSQL is stopped and marked, so that this
/// node does not take the lock again.
pub open spec fn switchover_steps(
    failover: Seq<char>,
    release_lock: bool,
    conf: Option<Seq<char>>,
) -> Seq<StepView> {
    seq![StepView::StoreFailover(failover)] + (if release_lock {
        seq![StepView::ReleaseLock]
    } else {
        seq![]
    }) + seq![StepView::Stop(StopMode::Fast), StepView::MarkStandby] + (match conf {
        Some(c) => seq![StepView::WriteConf(c)],
        None => seq![],
    })
}

/// The steps before the agent ends: a leader writes a checkpoint and gives up the lock, so that
/// another node can take over at once. PostgreSQL is stopped in any case.
pub open spec fn shutdown_steps(is_leader: bool, locked: bool) -> Seq<StepView> {
    (if is_leader {
        seq![StepView::Checkpoint]
    } else {
        seq![]
    }) + (if is_leader && locked {
        seq![StepView::ReleaseLock]
    } else {
        seq![]
    }) + seq![StepView::Stop(StopMode::Fast)]
}

fn push_step(steps: &mut Vec<Step>, step: Step)
    ensures
        step_views(final(steps)@) == step_views(old(steps)@).push(step@),
{
    steps.push(step);
    assert(step_views(steps@) =~= step_views(old(steps)@).push(step@));
}

/// The steps of a switchover at once, with the request to store, whether there is a lock to release,
/// and the configuration to write, where the candidate is known.
pub fn plan_switchover(failover: String, release_lock: bool, conf: Option<String>) -> (r: Vec<Step>)
    ensures
        step_views(r@) == switchover_steps(failover@, release_lock, text::opt_view(conf)),
{
    let mut steps: Vec<Step> = Vec::new();
    push_step(&mut steps, Step::StoreFailover(failover));
    if release_lock {
        push_step(&mut steps, Step::ReleaseLock);
    }
    push_step(&mut steps, Step::Stop(StopMode::Fast));
    push_step(&mut steps, Step::MarkStandby);
    if let Some(c) = conf {
        push_step(&mut steps, Step::WriteConf(c));
    }
    assert(step_views(steps@) =~= switchover_steps(failover@, release_lock, text::opt_view(conf)));
    steps
}

impl Ha {
    /// The steps before the agent ends.
    pub fn shutdown(&self) -> (r: Vec<Step>)
        ensures
            step_views(r@) == shutdown_steps(self.is_leader, self.cluster.leader is Some),
    {
        let mut steps: Vec<Step> = Vec::new();
        if self.is_leader {
            push_step(&mut steps, Step::Checkpoint);
            if self.cluster.leader.is_some() {
                push_step(&mut steps, Step::ReleaseLock);
            }
        }
        push_step(&mut steps, Step::Stop(StopMode::Fast));
        assert(step_views(steps@) =~= shutdown_steps(
            self.is_leader,
            self.cluster.leader is Some,
        ));
        steps
    }
}

// ---------------------------------------------------------------------------------------------
// Requests of operators
// ---------------------------------------------------------------------------------------------
/// Why a step failed, if it did.
pub open spec fn fault(result: Result<(), String>) -> Option<Seq<char>> {
    match result {
        Ok(_) => None,
        Err(e) => Some(e@),
    }
}

/// What a restart waits for.
#[derive(Debug, Clone, Copy, PartialEq, Eq, Structural)]
pub enum RestartPhase {
    /// Nothing was done yet.
    Asked,
    Stopping,
    Starting,
    Over,
}

/// What the request to clone this node anew waits for.
#[derive(Debug, Clone, Copy, PartialEq, Eq, Structural)]
pub enum ReinitializePhase {
    /// Nothing was done yet.
    Asked,
    Stopping,
    /// The removal of the data.
    Removing,
    Over,
}

/// What a request asks for.
#[derive(Debug)]
pub enum RequestOrder {
    Nothing,
    Stop(StopMode),
    Start,
    RemoveData,
    /// The request is over, and this is the answer.
    Finish(CommandResponse),
}

/// The contents of a [`RequestOrder`].
pub enum RequestView {
    Nothing,
    Stop(StopMode),
    Start,
    RemoveData,
    Finish(CommandStatus, Seq<char>),
}

impl View for RequestOrder {
    type V = RequestView;

    open spec fn view(&self) -> RequestView {
        match *self {
            RequestOrder::Nothing => RequestView::Nothing,
            RequestOrder::Stop(mode) => RequestView::Stop(mode),
            RequestOrder::Start => RequestView::Start,
            RequestOrder::RemoveData => RequestView::RemoveData,
            RequestOrder::Finish(r) => RequestView::Finish(r.status, r.message@),
        }
    }
}

/// How a restart goes on: PostgreSQL is stopped and, if that went well, started.
pub open spec fn restart_next(p: RestartPhase, fault: Option<Seq<char>>) -> (
    RestartPhase,
    RequestView,
) {
    match (p, fault) {
        (RestartPhase::Asked, _) => (RestartPhase::Stopping, RequestView::Stop(StopMode::Fast)),
        (RestartPhase::Stopping, None) => (RestartPhase::Starting, RequestView::Start),
        (RestartPhase::Stopping, Some(e)) => (
            RestartPhase::Over,
            RequestView::Finish(CommandStatus::Error, "Stop failed: "@ + e),
        ),
        (RestartPhase::Starting, None) => (
            RestartPhase::Over,
            RequestView::Finish(CommandStatus::Accepted, "PostgreSQL restarted"@),
        ),
        (RestartPhase::Starting, Some(e)) => (
            RestartPhase::Over,
            RequestView::Finish(CommandStatus::Error, "Start failed: "@ + e),
        ),
        (RestartPhase::Over, _) => (RestartPhase::Over, RequestView::Nothing),
    }
}

/// How the request to clone this node anew goes on: unless it leads, PostgreSQL is stopped at once
/// and, whatever came of that, the data is removed.
pub open spec fn reinitialize_next(
    is_leader: bool,
    p: ReinitializePhase,
    fault: Option<Seq<char>>,
) -> (ReinitializePhase, RequestView) {
    match (p, fault) {
        (ReinitializePhase::Asked, _) => if is_leader {
            (
                ReinitializePhase::Over,
                RequestView::Finish(
                    CommandStatus::Rejected,
                    "Cannot reinitialize the leader node"@,
                ),
            )
        } else {
            (ReinitializePhase::Stopping, RequestView::Stop(StopMode::Immediate))
        },
        (ReinitializePhase::Stopping, _) => (
            ReinitializePhase::Removing,
            RequestView::RemoveData,
        ),
        (ReinitializePhase::Removing, None) => (
            ReinitializePhase::Over,
            RequestView::Finish(
                CommandStatus::Accepted,
                "Node reinitialized, will clone on next cycle"@,
            ),
        ),
        (ReinitializePhase::Removing, Some(e)) => (
            ReinitializePhase::Over,
            RequestView::Finish(CommandStatus::Error, "Remove data dir failed: "@ + e),
        ),
        (ReinitializePhase::Over, _) => (ReinitializePhase::Over, RequestView::Nothing),
    }
}

fn refuse(why: &str, e: &str) -> (r: RequestOrder)
    ensures
        r@ == RequestView::Finish(CommandStatus::Error, why@ + e@),
{
    let mut m = why.to_string();
    m.append(e);
    RequestOrder::Finish(CommandResponse::error(m.as_str()))
}

impl Ha {
    /// Goes on with a restart, once what it waited for was done or has failed. When PostgreSQL was
    /// started, no parameter waits for a restart any longer.
    pub fn handle_restart_command(&mut self, p: RestartPhase, result: Result<(), String>) -> (r: (
        RestartPhase,
        RequestOrder,
    ))
        ensures
            (r.0, r.1@) == restart_next(p, fault(result)),
            if p == RestartPhase::Starting && result is Ok {
                &&& *final(self) == (Ha {
                    dynamic_config_state: final(self).dynamic_config_state,
                    ..*old(self)
                })
                &&& final(self).dynamic_config_state.last_config
                    == old(self).dynamic_config_state.last_config
                &&& !final(self).dynamic_config_state.pending_restart
                &&& final(self).dynamic_config_state.pending_restart_params@ == Map::<
                    Seq<char>,
                    Seq<char>,
                >::empty()
            } else {
                *final(self) == *old(self)
            },
    {
        match p {
            RestartPhase::Asked => (RestartPhase::Stopping, RequestOrder::Stop(StopMode::Fast)),
            RestartPhase::Stopping => match result {
                Ok(_) => (RestartPhase::Starting, RequestOrder::Start),
                Err(e) => (RestartPhase::Over, refuse("Stop failed: ", e.as_str())),
            },
            RestartPhase::Starting => match result {
                Ok(_) => {
                    self.dynamic_config_state.clear_pending_restart();
                    let done = CommandResponse::accepted("PostgreSQL restarted");
                    (RestartPhase::Over, RequestOrder::Finish(done))
                },
                Err(e) => (RestartPhase::Over, refuse("Start failed: ", e.as_str())),
            },
            RestartPhase::Over => (RestartPhase::Over, RequestOrder::Nothing),
        }
    }

    /// Goes on with the request to clone this node anew, once what it waited for was done or has
    /// failed.
    pub fn handle_reinitialize_command(
        &self,
        p: ReinitializePhase,
        result: Result<(), String>,
    ) -> (r: (ReinitializePhase, RequestOrder))
        ensures
            (r.0, r.1@) == reinitialize_next(self.is_leader, p, fault(result)),
    {
        match p {
            ReinitializePhase::Asked => {
                if self.is_leader {
                    let no = CommandResponse::rejected("Cannot reinitialize the leader node");
                    (ReinitializePhase::Over, RequestOrder::Finish(no))
                } else {
                    (ReinitializePhase::Stopping, RequestOrder::Stop(StopMode::Immediate))
                }
            },
            ReinitializePhase::Stopping => (ReinitializePhase::Removing, RequestOrder::RemoveData),
            ReinitializePhase::Removing => match result {
                Ok(_) => {
                    let done = CommandResponse::accepted(
                        "Node reinitialized, will clone on next cycle",
                    );
                    (ReinitializePhase::Over, RequestOrder::Finish(done))
                },
                Err(e) => (
                    ReinitializePhase::Over,
                    refuse("Remove data dir failed: ", e.as_str()),
                ),
            },
            ReinitializePhase::Over => (ReinitializePhase::Over, RequestOrder::Nothing),
        }
    }
}

// ---------------------------------------------------------------------------------------------
// A primary of its own for a standby cluster
// ---------------------------------------------------------------------------------------------
/// How the agent goes on to turn a standby cluster into one with a primary of its own: only the
/// leader of a standby cluster begins.
pub open spec fn cascade_rule(h: Ha, p: CascadePhase, fault: Option<Seq<char>>) -> (
    CascadePhase,
    standby_cluster::CascadeView,
) {
    let config = h.dynamic_config_state.last_config;
    if p == CascadePhase::Asked && !h.is_leader {
        (
            CascadePhase::Over,
            standby_cluster::CascadeView::Finish(Some("Cannot cascade promote: not the leader"@)),
        )
    } else if p == CascadePhase::Asked && config.standby_cluster is None {
        (
            CascadePhase::Over,
            standby_cluster::CascadeView::Finish(
                Some("Cannot cascade promote: not in standby cluster mode"@),
            ),
        )
    } else {
        match standby_cluster::cascade_next(config@, p, fault) {
            (next, standby_cluster::CascadeView::Finish(Some(e))) => (
                next,
                standby_cluster::CascadeView::Finish(Some("Cascade promote failed: "@ + e)),
            ),
            other => other,
        }
    }
}

impl Ha {
    /// Goes on to turn a standby cluster into one with a primary of its own, once what it waited for
    /// was done or has failed. When PostgreSQL was promoted, this node is primary, and the remote
    /// primary is forgotten.
    pub fn cascade_promote(&mut self, p: CascadePhase, result: Result<(), String>) -> (r: (
        CascadePhase,
        CascadeOrder,
    ))
        ensures
            (r.0, r.1@) == cascade_rule(*old(self), p, fault(result)),
            if p == CascadePhase::Promoting && result is Ok {
                &&& *final(self) == (Ha {
                    postgresql: final(self).postgresql,
                    dynamic_config_state: final(self).dynamic_config_state,
                    ..*old(self)
                })
                &&& final(self).postgresql.role == MemberRole::Primary
                &&& final(self).postgresql.config == old(self).postgresql.config
                &&& final(self).postgresql.state == old(self).postgresql.state
                &&& final(self).dynamic_config_state.last_config@
                    == standby_cluster::without_remote(
                    old(self).dynamic_config_state.last_config@,
                )
                &&& final(self).dynamic_config_state.pending_restart
                    == old(self).dynamic_config_state.pending_restart
                &&& final(self).dynamic_config_state.pending_restart_params@
                    == old(self).dynamic_config_state.pending_restart_params@
            } else {
                *final(self) == *old(self)
            },
    {
        if p == CascadePhase::Asked && !self.is_leader {
            let no = "Cannot cascade promote: not the leader".to_string();
            return (CascadePhase::Over, CascadeOrder::Finish(Err(no)));
        }
        if p == CascadePhase::Asked && !self.is_standby_cluster() {
            let no = "Cannot cascade promote: not in standby cluster mode".to_string();
            return (CascadePhase::Over, CascadeOrder::Finish(Err(no)));
        }
        let promoted = p == CascadePhase::Promoting && result.is_ok();
        let (next, order) = StandbyCluster::cascade_promote(
            p,
            &self.dynamic_config_state.last_config,
            result,
        );
        if promoted {
            self.postgresql.role = MemberRole::Primary;
            let ghost before = self.dynamic_config_state;
            let config = StandbyCluster::own_config(&self.dynamic_config_state.last_config);
            let _changes = self.dynamic_config_state.apply_new_config(config);
            proof {
                let kept = dynamic_config::params(before.last_config@);
                assert(dynamic_config::changed_params(kept, kept, true) =~= Map::<
                    Seq<char>,
                    Seq<char>,
                >::empty());
                assert(self.dynamic_config_state.pending_restart_params@
                    =~= before.pending_restart_params@);
            }
        }
        match order {
            CascadeOrder::Finish(Err(e)) => {
                let mut m = "Cascade promote failed: ".to_string();
                m.append(e.as_str());
                (next, CascadeOrder::Finish(Err(m)))
            },
            _ => (next, order),
        }
    }
}

// ---------------------------------------------------------------------------------------------
// Laws
// ---------------------------------------------------------------------------------------------
/// In a switchover the request is stored before anything else, so before the lock is released; the
/// lock is released if there is one; and after that PostgreSQL is stopped and marked as a standby,
/// before its configuration is written.
pub proof fn law_request_is_stored_before_the_lock_is_free(
    failover: Seq<char>,
    release_lock: bool,
    conf: Option<Seq<char>>,
    i: int,
)
    requires
        0 <= i < switchover_steps(failover, release_lock, conf).len(),
    ensures
        ({
            let steps = switchover_steps(failover, release_lock, conf);
            let stop: int = if release_lock {
                2
            } else {
                1
            };
            &&& steps[i] == StepView::StoreFailover(failover) <==> i == 0
            &&& release_lock ==> steps[1] == StepView::ReleaseLock
            &&& steps[i] == StepView::ReleaseLock ==> release_lock && 0 < i < stop
            &&& stop + 1 < steps.len()
            &&& steps[stop] == StepView::Stop(StopMode::Fast)
            &&& steps[stop + 1] == StepView::MarkStandby
            &&& steps[i] is WriteConf <==> i == stop + 2
            &&& steps[i] matches StepView::WriteConf(c) ==> conf == Some(c)
            &&& conf is Some <==> steps.len() == stop + 3
        }),
{
}

/// When the agent ends, PostgreSQL is stopped last. A leader has written a checkpoint before it gives
/// up its lock; a node that does not lead gives up none.
pub proof fn law_shutdown_hands_over_the_lock(is_leader: bool, locked: bool, i: int)
    requires
        0 <= i < shutdown_steps(is_leader, locked).len(),
    ensures
        ({
            let steps = shutdown_steps(is_leader, locked);
            &&& steps[i] == StepView::Stop(StopMode::Fast) <==> i == steps.len() - 1
            &&& is_leader ==> steps[0] == StepView::Checkpoint
            &&& steps[i] == StepView::Checkpoint ==> is_leader && i == 0
            &&& is_leader && locked ==> steps[1] == StepView::ReleaseLock
            &&& steps[i] == StepView::ReleaseLock ==> is_leader && locked && i == 1
        }),
{
}

/// How far the end of a restart is at most.
pub open spec fn restart_rank(p: RestartPhase) -> nat {
    match p {
        RestartPhase::Over => 0,
        RestartPhase::Starting => 1,
        RestartPhase::Stopping => 2,
        RestartPhase::Asked => 3,
    }
}

/// A restart ends with an answer, and PostgreSQL is started only after it was stopped well.
pub proof fn law_start_follows_a_good_stop(p: RestartPhase, fault: Option<Seq<char>>)
    requires
        p != RestartPhase::Over,
    ensures
        restart_rank(restart_next(p, fault).0) < restart_rank(p),
        restart_next(p, fault).1 is Finish <==> restart_next(p, fault).0 == RestartPhase::Over,
        restart_next(p, fault).1 == RequestView::Start <==> p == RestartPhase::Stopping
            && fault is None,
        restart_next(p, fault).1 is Stop <==> p == RestartPhase::Asked,
        restart_next(p, fault).1 != RequestView::RemoveData,
{
}

/// How far the end of the request to clone this node anew is at most.
pub open spec fn reinitialize_rank(p: ReinitializePhase) -> nat {
    match p {
        ReinitializePhase::Over => 0,
        ReinitializePhase::Removing => 1,
        ReinitializePhase::Stopping => 2,
        ReinitializePhase::Asked => 3,
    }
}

/// The request to clone a node anew ends with an answer. The data is removed only after PostgreSQL
/// was asked to stop, and a leader is asked for neither.
pub proof fn law_data_is_removed_after_the_stop(
    is_leader: bool,
    p: ReinitializePhase,
    fault: Option<Seq<char>>,
)
    requires
        p != ReinitializePhase::Over,
    ensures
        reinitialize_rank(reinitialize_next(is_leader, p, fault).0) < reinitialize_rank(p),
        reinitialize_next(is_leader, p, fault).1 is Finish <==> reinitialize_next(
            is_leader,
            p,
            fault,
        ).0 == ReinitializePhase::Over,
        reinitialize_next(is_leader, p, fault).1 == RequestView::RemoveData <==> p
            == ReinitializePhase::Stopping,
        reinitialize_next(is_leader, p, fault).0 == ReinitializePhase::Stopping <==> p
            == ReinitializePhase::Asked && !is_leader,
        reinitialize_next(is_leader, p, fault).0 == ReinitializePhase::Stopping ==> (
        reinitialize_next(is_leader, p, fault).1 == RequestView::Stop(StopMode::Immediate)),
{
}

/// How far the end of the change to a cluster with a primary of its own is at most.
pub open spec fn cascade_rank(p: CascadePhase) -> nat {
    match p {
        CascadePhase::Over => 0,
        CascadePhase::Promoting => 1,
        CascadePhase::Storing => 2,
        CascadePhase::Asked => 3,
    }
}

/// The change to a cluster with a primary of its own ends and says how. PostgreSQL is promoted only
/// after the configuration without the remote primary was stored, and only the leader of a standby
/// cluster begins.
pub proof fn law_promotion_follows_the_stored_config(
    h: Ha,
    p: CascadePhase,
    fault: Option<Seq<char>>,
)
    requires
        p != CascadePhase::Over,
    ensures
        cascade_rank(cascade_rule(h, p, fault).0) < cascade_rank(p),
        cascade_rule(h, p, fault).1 is Finish <==> cascade_rule(h, p, fault).0
            == CascadePhase::Over,
        cascade_rule(h, p, fault).1 == standby_cluster::CascadeView::Promote <==> p
            == CascadePhase::Storing && fault is None,
        cascade_rule(h, p, fault).0 == CascadePhase::Storing <==> p == CascadePhase::Asked
            && h.is_leader && h.dynamic_config_state.last_config.standby_cluster is Some,
        cascade_rule(h, p, fault).0 == CascadePhase::Storing ==> cascade_rule(h, p, fault).1
            == standby_cluster::CascadeView::StoreConfig(
            standby_cluster::without_remote(h.dynamic_config_state.last_config@),
        ),
        cascade_rule(h, p, fault).1 == standby_cluster::CascadeView::Finish(None) <==> p
            == CascadePhase::Promoting && fault is None,
{
}

/// A restart is answered as done only if PostgreSQL was started; otherwise the answer says which step
/// failed, and why.
pub proof fn law_restart_is_answered_truly(p: RestartPhase, fault: Option<Seq<char>>, e: Seq<char>)
    ensures
        restart_next(p, fault).1 == RequestView::Finish(
            CommandStatus::Accepted,
            "PostgreSQL restarted"@,
        ) <==> p == RestartPhase::Starting && fault is None,
        restart_next(RestartPhase::Stopping, Some(e)).1 == RequestView::Finish(
            CommandStatus::Error,
            "Stop failed: "@ + e,
        ),
        restart_next(RestartPhase::Starting, Some(e)).1 == RequestView::Finish(
            CommandStatus::Error,
            "Start failed: "@ + e,
        ),
        restart_next(RestartPhase::Asked, fault) == (
            RestartPhase::Stopping,
            RequestView::Stop(StopMode::Fast),
        ),
        restart_next(RestartPhase::Stopping, None) == (RestartPhase::Starting, RequestView::Start),
        restart_next(RestartPhase::Over, fault) == (RestartPhase::Over, RequestView::Nothing),
{
    assert(CommandStatus::Error != CommandStatus::Accepted);
}

/// The request to clone a node anew is answered as done only if the data was removed; otherwise the
/// answer says why not. A leader turns it down.
pub proof fn law_reinitialize_is_answered_truly(
    is_leader: bool,
    p: ReinitializePhase,
    fault: Option<Seq<char>>,
    e: Seq<char>,
)
    ensures
        reinitialize_next(is_leader, p, fault).1 == RequestView::Finish(
            CommandStatus::Accepted,
            "Node reinitialized, will clone on next cycle"@,
        ) <==> p == ReinitializePhase::Removing && fault is None,
        reinitialize_next(is_leader, ReinitializePhase::Removing, Some(e)).1
            == RequestView::Finish(CommandStatus::Error, "Remove data dir failed: "@ + e),
        reinitialize_next(true, ReinitializePhase::Asked, fault) == (
            ReinitializePhase::Over,
            RequestView::Finish(
                CommandStatus::Rejected,
                "Cannot reinitialize the leader node"@,
            ),
        ),
        reinitialize_next(is_leader, ReinitializePhase::Stopping, fault) == (
            ReinitializePhase::Removing,
            RequestView::RemoveData,
        ),
        reinitialize_next(is_leader, ReinitializePhase::Over, fault) == (
            ReinitializePhase::Over,
            RequestView::Nothing,
        ),
{
    assert(CommandStatus::Error != CommandStatus::Accepted);
    assert(CommandStatus::Rejected != CommandStatus::Accepted);
}

/// The change to a cluster with a primary of its own is turned down by a node that does not lead, and
/// in a cluster that follows no remote primary; one that fails says so and why.
pub proof fn law_cascade_is_answered_truly(
    h: Ha,
    p: CascadePhase,
    fault: Option<Seq<char>>,
    e: Seq<char>,
)
    ensures
        !h.is_leader ==> cascade_rule(h, CascadePhase::Asked, fault).1
            == standby_cluster::CascadeView::Finish(
            Some("Cannot cascade promote: not the leader"@),
        ),
        h.is_leader && h.dynamic_config_state.last_config.standby_cluster is None ==> cascade_rule(
            h,
            CascadePhase::Asked,
            fault,
        ).1 == standby_cluster::CascadeView::Finish(
            Some("Cannot cascade promote: not in standby cluster mode"@),
        ),
        p == CascadePhase::Storing || p == CascadePhase::Promoting ==> cascade_rule(
            h,
            p,
            Some(e),
        ).1 == standby_cluster::CascadeView::Finish(Some("Cascade promote failed: "@ + e)),
{
}

/// A step failed exactly if its result says so.
pub proof fn law_fault_is_the_error(result: Result<(), String>)
    ensures
        result is Ok <==> fault(result) is None,
        result matches Err(e) ==> fault(result) == Some(e@),
{
}

} // verus!
