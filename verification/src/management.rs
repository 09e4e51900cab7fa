//! How the agent answers the requests of operators.

use vstd::prelude::*;

use crate::cluster;
use crate::cluster::{MemberRole, MemberState};
use crate::commands;
use crate::commands::{CommandResponse, CommandStatus, ManagementCommand};
use crate::connstr::StandbyReason;
use crate::ha;
use crate::ha::Ha;
use crate::operations;
use crate::operations::{plan_switchover, Step};
use crate::report;
use crate::schedule;
use crate::schedule::is_due;
use crate::text;
use crate::text::{clone_opt, str_eq};

verus! {

/// `s` as a JSON string.
pub uninterp spec fn json_string(s: Seq<char>) -> Seq<char>;

/// No character of `s` has to be escaped in a JSON string.
pub open spec fn needs_no_escape(s: Seq<char>) -> bool {
    forall|i: int|
        0 <= i < s.len() ==> (#[trigger] s[i]) as u32 >= 32 && s[i] != '"' && s[i] != '\\'
}

/// A text as a JSON string, from `serde_json::to_string`.
///
/// Trusted: the result depends on the text alone, and where nothing has to be escaped it is the
/// text between quotation marks. How characters are escaped is left unsaid.
#[verifier::external_body]
pub(crate) fn json_quoted(s: &str) -> (r: String)
    ensures
        r@ == json_string(s@),
        needs_no_escape(s@) ==> r@ == seq!['"'] + s@ + seq!['"'],
{
    serde_json::to_string(s).unwrap_or_default()
}

/// A text as JSON; `null` where there is none.
pub open spec fn json_opt(s: Option<Seq<char>>) -> Seq<char> {
    match s {
        Some(t) => json_string(t),
        None => "null"@,
    }
}

/// The request that a switchover leaves in the store.
pub open spec fn switchover_text(leader: Seq<char>, candidate: Option<Seq<char>>) -> Seq<char> {
    "{\"candidate\":"@ + json_opt(candidate) + ",\"leader\":"@ + json_string(leader) + "}"@
}

/// The request that a failover leaves in the store.
pub open spec fn failover_text(candidate: Option<Seq<char>>) -> Seq<char> {
    "{\"candidate\":"@ + json_opt(candidate) + "}"@
}

fn quoted_opt(s: &Option<String>) -> (r: String)
    ensures
        r@ == json_opt(text::opt_view(*s)),
{
    match s {
        Some(t) => json_quoted(t.as_str()),
        None => "null".to_string(),
    }
}

/// Why a switchover to `candidate` is turned down, if it is.
pub open spec fn candidate_fault(h: Ha, candidate: Seq<char>) -> Option<Seq<char>> {
    match cluster::first_member(h.cluster.members@, cluster::named(candidate)) {
        None => Some("Candidate '"@ + candidate + "' not found"@),
        Some(m) => if cluster::flag(m.tags@, "nofailover"@) {
            Some("Candidate '"@ + candidate + "' has nofailover tag"@)
        } else if m.state != MemberState::Running {
            Some("Candidate '"@ + candidate + "' is not running"@)
        } else {
            None
        },
    }
}

/// Why a switchover is turned down, if it is: this node must be the leader, and the one that the
/// operator means; the candidate must be able to take over.
pub open spec fn switchover_fault(
    h: Ha,
    leader: Option<Seq<char>>,
    candidate: Option<Seq<char>>,
) -> Option<Seq<char>> {
    if !h.is_leader {
        Some("This node is not the leader"@)
    } else if leader is Some && leader->0 != h.config.name@ {
        Some(
            "Leader mismatch: expected '"@ + leader->0 + "', actual '"@ + h.config.name@ + "'"@,
        )
    } else {
        match candidate {
            Some(c) => candidate_fault(h, c),
            None => None,
        }
    }
}

/// The configuration of a node that steps down for a candidate.
pub open spec fn switchover_conf(h: Ha, candidate: Option<Seq<char>>) -> Option<Seq<char>> {
    match candidate {
        Some(c) => match cluster::first_member(h.cluster.members@, cluster::named(c)) {
            Some(m) => Some(
                report::standby_conf_of(h, m.conn_url@, StandbyReason::Switchover),
            ),
            None => None,
        },
        None => None,
    }
}

/// The switchover that was scheduled, if its time has come at `now`, in seconds since the Unix epoch.
pub open spec fn due_switchover(pending: Option<ManagementCommand>, now: u64) -> Option<
    ManagementCommand,
> {
    match pending {
        Some(ManagementCommand::Switchover { leader, candidate, scheduled_at: Some(at) }) => if schedule::has_come(
            at@,
            now,
        ) {
            Some(ManagementCommand::Switchover { leader, candidate, scheduled_at: None })
        } else {
            None
        },
        _ => None,
    }
}

fn quote_name(head: &str, name: &str, tail: &str) -> (r: String)
    ensures
        r@ == head@ + name@ + tail@,
{
    let mut r = head.to_string();
    r.append(name);
    r.append(tail);
    r
}

impl Ha {
    fn find_candidate_fault(&self, candidate: &str) -> (r: Option<String>)
        ensures
            text::opt_view(r) == candidate_fault(*self, candidate@),
    {
        match self.cluster.get_member(candidate) {
            None => Some(quote_name("Candidate '", candidate, "' not found")),
            Some(m) => {
                if m.is_nofailover() {
                    Some(quote_name("Candidate '", candidate, "' has nofailover tag"))
                } else if m.state != MemberState::Running {
                    Some(quote_name("Candidate '", candidate, "' is not running"))
                } else {
                    None
                }
            },
        }
    }

    fn find_switchover_fault(&self, leader: &Option<String>, candidate: &Option<String>) -> (r:
        Option<String>)
        ensures
            text::opt_view(r) == switchover_fault(
                *self,
                text::opt_view(*leader),
                text::opt_view(*candidate),
            ),
    {
        if !self.is_leader {
            return Some("This node is not the leader".to_string());
        }
        if let Some(expected) = leader {
            if !str_eq(expected.as_str(), self.config.name.as_str()) {
                let mut m = quote_name(
                    "Leader mismatch: expected '",
                    expected.as_str(),
                    "', actual '",
                );
                m.append(self.config.name.as_str());
                m.append("'");
                return Some(m);
            }
        }
        match candidate {
            Some(c) => self.find_candidate_fault(c.as_str()),
            None => None,
        }
    }

    /// Answers a request for a switchover. If it is to happen at once, its steps are to be carried out
    /// in their order; otherwise there are none.
    pub fn handle_switchover_command(
        &mut self,
        leader: Option<String>,
        candidate: Option<String>,
        scheduled_at: Option<String>,
    ) -> (r: (CommandResponse, Vec<Step>))
        ensures
            ({
                let fault = switchover_fault(
                    *old(self),
                    text::opt_view(leader),
                    text::opt_view(candidate),
                );
                if fault is Some {
                    &&& commands::answers(r.0, CommandStatus::Rejected, fault->0)
                    &&& r.1@.len() == 0
                    &&& *final(self) == *old(self)
                } else if scheduled_at is Some {
                    &&& commands::answers(r.0, CommandStatus::Accepted, "Switchover scheduled"@)
                    &&& r.1@.len() == 0
                    &&& *final(self) == (Ha {
                        pending_switchover: Some(
                            ManagementCommand::Switchover { leader, candidate, scheduled_at },
                        ),
                        ..*old(self)
                    })
                } else {
                    &&& commands::answers(
                        r.0,
                        CommandStatus::Accepted,
                        "Switchover initiated, leader lock released"@,
                    )
                    &&& operations::step_views(r.1@) == operations::switchover_steps(
                        switchover_text(old(self).config.name@, text::opt_view(candidate)),
                        old(self).cluster.leader is Some,
                        switchover_conf(*old(self), text::opt_view(candidate)),
                    )
                    &&& *final(self) == (Ha {
                        is_leader: false,
                        postgresql: final(self).postgresql,
                        ..*old(self)
                    })
                    &&& final(self).postgresql.role == MemberRole::Replica
                    &&& final(self).postgresql.config == old(self).postgresql.config
                    &&& final(self).postgresql.state == old(self).postgresql.state
                }
            }),
    {
        if let Some(fault) = self.find_switchover_fault(&leader, &candidate) {
            return (CommandResponse::rejected(fault.as_str()), Vec::new());
        }
        if scheduled_at.is_some() {
            self.pending_switchover =
            Some(ManagementCommand::Switchover { leader, candidate, scheduled_at });
            return (CommandResponse::accepted("Switchover scheduled"), Vec::new());
        }
        let mut failover = "{\"candidate\":".to_string();
        failover.append(quoted_opt(&candidate).as_str());
        failover.append(",\"leader\":");
        failover.append(json_quoted(self.config.name.as_str()).as_str());
        failover.append("}");
        let release_lock = self.cluster.leader.is_some();
        let auto_conf: Option<String> = match &candidate {
            Some(c) => match self.cluster.get_member(c.as_str()) {
                Some(m) => Some(
                    self.standby_conf(m.conn_url.as_str(), StandbyReason::Switchover),
                ),
                None => None,
            },
            None => None,
        };
        self.is_leader = false;
        self.postgresql.role = MemberRole::Replica;
        (
            CommandResponse::accepted("Switchover initiated, leader lock released"),
            plan_switchover(failover, release_lock, auto_conf),
        )
    }

    /// Answers a request for a failover; the text is to be stored as the request.
    pub fn handle_failover_command(&self, candidate: Option<String>) -> (r: (
        CommandResponse,
        Option<String>,
    ))
        ensures
            ({
                let c = text::opt_view(candidate);
                if c is Some && !ha::is_member(self.cluster, c->0) {
                    &&& commands::answers(
                        r.0,
                        CommandStatus::Rejected,
                        "Candidate '"@ + c->0 + "' not found"@,
                    )
                    &&& r.1 is None
                } else {
                    &&& commands::answers(
                        r.0,
                        CommandStatus::Accepted,
                        "Failover request submitted"@,
                    )
                    &&& text::opt_view(r.1) == Some(failover_text(c))
                }
            }),
    {
        if let Some(c) = &candidate {
            if !self.cluster.has_member(c.as_str()) {
                let m = quote_name("Candidate '", c.as_str(), "' not found");
                return (CommandResponse::rejected(m.as_str()), None);
            }
        }
        let mut failover = "{\"candidate\":".to_string();
        failover.append(quoted_opt(&candidate).as_str());
        failover.append("}");
        (CommandResponse::accepted("Failover request submitted"), Some(failover))
    }

    /// Hands out the switchover that was scheduled, once its time has come at `now`, in seconds since
    /// the Unix epoch: it is to be carried out at once, and is scheduled no longer. One whose time
    /// cannot be read is never due.
    pub fn take_due_switchover(&mut self, now: u64) -> (r: Option<ManagementCommand>)
        ensures
            r == due_switchover(old(self).pending_switchover, now),
            r is None ==> *final(self) == *old(self),
            r is Some ==> *final(self) == (Ha { pending_switchover: None, ..*old(self) }),
    {
        let due = match &self.pending_switchover {
            Some(ManagementCommand::Switchover { scheduled_at: Some(at), .. }) => is_due(
                at.as_str(),
                now,
            ),
            _ => false,
        };
        if !due {
            return None;
        }
        match &self.pending_switchover {
            Some(ManagementCommand::Switchover { leader, candidate, .. }) => {
                let r = ManagementCommand::Switchover {
                    leader: clone_opt(leader),
                    candidate: clone_opt(candidate),
                    scheduled_at: None,
                };
                self.pending_switchover = None;
                Some(r)
            },
            _ => None,
        }
    }

    /// Forgets a scheduled switchover.
    pub fn handle_cancel_command(&mut self) -> (r: CommandResponse)
        ensures
            commands::answers(r, CommandStatus::Accepted, "Scheduled switchover cancelled"@),
            *final(self) == (Ha { pending_switchover: None, ..*old(self) }),
    {
        self.pending_switchover = None;
        CommandResponse::accepted("Scheduled switchover cancelled")
    }
}

// ---------------------------------------------------------------------------------------------
// Laws
// ---------------------------------------------------------------------------------------------
/// A switchover is turned down on every node but the leader, and never to a candidate that is
/// unknown, barred from failover, or down.
pub proof fn law_switchover_needs_leader_and_candidate(
    h: Ha,
    leader: Option<Seq<char>>,
    candidate: Option<Seq<char>>,
)
    ensures
        switchover_fault(h, leader, candidate) is None ==> h.is_leader,
        switchover_fault(h, leader, candidate) is None && candidate is Some ==> ({
            let m = cluster::first_member(h.cluster.members@, cluster::named(candidate->0));
            m is Some && m->0.state == MemberState::Running && !cluster::flag(
                m->0.tags@,
                "nofailover"@,
            )
        }),
        switchover_fault(h, leader, candidate) is None && leader is Some ==> leader->0
            == h.config.name@,
{
}

/// A switchover that was scheduled is not due before its time, and is handed out with the leader
/// and the candidate that it names when the time has come.
pub proof fn law_scheduled_switchover_waits_for_its_time(
    leader: Option<String>,
    candidate: Option<String>,
    at: String,
    m: schedule::Moment,
    now: u64,
)
    requires
        schedule::moment_in(at@) == Some(m),
    ensures
        due_switchover(
            Some(ManagementCommand::Switchover { leader, candidate, scheduled_at: Some(at) }),
            now,
        ) == if schedule::seconds_of(m) <= now {
            Some(ManagementCommand::Switchover { leader, candidate, scheduled_at: None })
        } else {
            None
        },
{
}

/// A switchover is turned down for one of these reasons only, and the answer says which: this node
/// does not lead; another leader is meant; or the candidate is unknown, barred, or does not run.
pub proof fn law_switchover_is_granted_otherwise(
    h: Ha,
    leader: Option<Seq<char>>,
    candidate: Option<Seq<char>>,
    i: int,
)
    requires
        h.is_leader,
        leader is Some ==> leader->0 == h.config.name@,
    ensures
        candidate is None ==> switchover_fault(h, leader, candidate) is None,
        candidate is Some && 0 <= i < h.cluster.members@.len() && h.cluster.members@[i].name@
            == candidate->0 && (forall|j: int|
            0 <= j < i ==> (#[trigger] h.cluster.members@[j]).name@ != candidate->0) ==> {
            let m = h.cluster.members@[i];
            let barred = cluster::flag(m.tags@, "nofailover"@);
            let fault = switchover_fault(h, leader, candidate);
            &&& fault is None <==> !barred && m.state == MemberState::Running
            &&& barred ==> fault == Some("Candidate '"@ + candidate->0 + "' has nofailover tag"@)
            &&& !barred && m.state != MemberState::Running ==> fault == Some(
                "Candidate '"@ + candidate->0 + "' is not running"@,
            )
        },
        candidate is Some && !ha::is_member(h.cluster, candidate->0) ==> switchover_fault(
            h,
            leader,
            candidate,
        ) == Some("Candidate '"@ + candidate->0 + "' not found"@),
{
    if let Some(c) = candidate {
        let p = cluster::named(c);
        cluster::lemma_first_index(h.cluster.members@, p);
        if 0 <= i < h.cluster.members@.len() && h.cluster.members@[i].name@ == c {
            assert(p(h.cluster.members@[i]));
            let k = cluster::first_index(h.cluster.members@, p)->0;
            if k < i {
                assert(p(h.cluster.members@[k]));
            }
            if i < k {
                assert(!p(h.cluster.members@[i]));
            }
        }
        if let Some(k) = cluster::first_index(h.cluster.members@, p) {
            assert(h.cluster.members@[k].name@ == c);
            assert(ha::is_member(h.cluster, c));
        }
    }
}

/// A node that does not lead, or is not the leader that the operator means, says so.
pub proof fn law_wrong_node_turns_a_switchover_down(
    h: Ha,
    leader: Option<Seq<char>>,
    candidate: Option<Seq<char>>,
)
    ensures
        !h.is_leader ==> switchover_fault(h, leader, candidate) == Some(
            "This node is not the leader"@,
        ),
        h.is_leader && leader is Some && leader->0 != h.config.name@ ==> switchover_fault(
            h,
            leader,
            candidate,
        ) == Some(
            "Leader mismatch: expected '"@ + leader->0 + "', actual '"@ + h.config.name@ + "'"@,
        ),
{
}

/// The stored request of a switchover names the candidate, or none, and the leader that steps down;
/// that of a failover names the candidate alone.
pub proof fn law_requests_name_who_is_meant(leader: Seq<char>, candidate: Seq<char>)
    ensures
        switchover_text(leader, Some(candidate)) == "{\"candidate\":"@ + json_string(candidate)
            + ",\"leader\":"@ + json_string(leader) + "}"@,
        switchover_text(leader, None) == "{\"candidate\":"@ + "null"@ + ",\"leader\":"@
            + json_string(leader) + "}"@,
        failover_text(Some(candidate)) == "{\"candidate\":"@ + json_string(candidate) + "}"@,
        failover_text(None) == "{\"candidate\":"@ + "null"@ + "}"@,
{
}

/// A node that steps down follows the candidate from then on, where one is named that is a member.
pub proof fn law_old_leader_follows_the_candidate(h: Ha, candidate: Seq<char>, i: int)
    requires
        0 <= i < h.cluster.members@.len(),
        h.cluster.members@[i].name@ == candidate,
        forall|j: int| 0 <= j < i ==> (#[trigger] h.cluster.members@[j]).name@ != candidate,
    ensures
        switchover_conf(h, Some(candidate)) == Some(
            report::standby_conf_of(
                h,
                h.cluster.members@[i].conn_url@,
                StandbyReason::Switchover,
            ),
        ),
        switchover_conf(h, None) is None,
{
    let p = cluster::named(candidate);
    cluster::lemma_first_index(h.cluster.members@, p);
    assert(p(h.cluster.members@[i]));
    let k = cluster::first_index(h.cluster.members@, p)->0;
    if k < i {
        assert(p(h.cluster.members@[k]));
    }
    if i < k {
        assert(!p(h.cluster.members@[i]));
    }
}

/// Nothing but a switchover that was scheduled for a time that can be read is ever due.
pub proof fn law_nothing_else_is_due(pending: Option<ManagementCommand>, now: u64)
    ensures
        due_switchover(pending, now) is Some ==> {
            &&& pending matches Some(ManagementCommand::Switchover {
                leader,
                candidate,
                scheduled_at: Some(at),
            })
            &&& schedule::moment_in(at@) matches Some(m)
            &&& schedule::seconds_of(m) <= now
        },
        due_switchover(None, now) is None,
{
}

} // verus!
