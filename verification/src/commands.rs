//! Requests of operators, and the answers to them.

use vstd::prelude::*;

verus! {

/// A request of an operator.
#[derive(Debug, Clone)]
pub enum ManagementCommand {
    /// Let the leader step down and a candidate take over.
    Switchover {
        /// Who the operator believes is the leader.
        leader: Option<String>,
        candidate: Option<String>,
        /// When, in ISO 8601; `None` means at once.
        scheduled_at: Option<String>,
    },
    /// Let a candidate take over, whoever is the leader.
    Failover { candidate: Option<String> },
    /// Forget a scheduled switchover.
    CancelSwitchover,
    /// Restart PostgreSQL on this node.
    Restart,
    /// Remove the data of this node and clone it anew.
    Reinitialize,
}

/// How a request was answered.
#[derive(Debug, Clone, Copy, PartialEq, Eq, Structural)]
pub enum CommandStatus {
    Accepted,
    Rejected,
    Error,
}

/// The answer to a request.
#[derive(Debug, Clone)]
pub struct CommandResponse {
    pub status: CommandStatus,
    pub message: String,
}

/// The answer has this status and text.
pub open spec fn answers(r: CommandResponse, status: CommandStatus, message: Seq<char>) -> bool {
    r.status == status && r.message@ == message
}

impl CommandResponse {
    /// The request was accepted.
    pub fn accepted(msg: &str) -> (r: Self)
        ensures
            answers(r, CommandStatus::Accepted, msg@),
    {
        CommandResponse { status: CommandStatus::Accepted, message: msg.to_string() }
    }

    /// The request was turned down.
    pub fn rejected(msg: &str) -> (r: Self)
        ensures
            answers(r, CommandStatus::Rejected, msg@),
    {
        CommandResponse { status: CommandStatus::Rejected, message: msg.to_string() }
    }

    /// The request failed.
    pub fn error(msg: &str) -> (r: Self)
        ensures
            answers(r, CommandStatus::Error, msg@),
    {
        CommandResponse { status: CommandStatus::Error, message: msg.to_string() }
    }
}

} // verus!
