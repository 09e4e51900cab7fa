//! Commands that an operator wants to be run when something happens to PostgreSQL.

use vstd::prelude::*;

use crate::text;
use crate::text::clone_opt;

verus! {

/// What has happened.
#[derive(Debug, Clone, Copy, PartialEq, Eq, Structural)]
pub enum CallbackEvent {
    OnStart,
    OnStop,
    OnRestart,
    OnRoleChange,
    OnReload,
}

/// How an event is written.
pub open spec fn event_text(e: CallbackEvent) -> Seq<char> {
    match e {
        CallbackEvent::OnStart => "on_start"@,
        CallbackEvent::OnStop => "on_stop"@,
        CallbackEvent::OnRestart => "on_restart"@,
        CallbackEvent::OnRoleChange => "on_role_change"@,
        CallbackEvent::OnReload => "on_reload"@,
    }
}

impl CallbackEvent {
    /// How the event is written.
    pub fn as_str(&self) -> (r: &'static str)
        ensures
            r@ == event_text(*self),
    {
        match self {
            CallbackEvent::OnStart => "on_start",
            CallbackEvent::OnStop => "on_stop",
            CallbackEvent::OnRestart => "on_restart",
            CallbackEvent::OnRoleChange => "on_role_change",
            CallbackEvent::OnReload => "on_reload",
        }
    }
}

/// The command for each event.
#[derive(Debug, Clone)]
pub struct CallbacksConfig {
    pub on_start: Option<String>,
    pub on_stop: Option<String>,
    pub on_restart: Option<String>,
    pub on_role_change: Option<String>,
    pub on_reload: Option<String>,
}

/// The command for an event.
pub open spec fn command_for(c: CallbacksConfig, e: CallbackEvent) -> Option<String> {
    match e {
        CallbackEvent::OnStart => c.on_start,
        CallbackEvent::OnStop => c.on_stop,
        CallbackEvent::OnRestart => c.on_restart,
        CallbackEvent::OnRoleChange => c.on_role_change,
        CallbackEvent::OnReload => c.on_reload,
    }
}

impl Default for CallbacksConfig {
    fn default() -> (r: Self)
        ensures
            forall|e: CallbackEvent| #[trigger] command_for(r, e) is None,
    {
        CallbacksConfig {
            on_start: None,
            on_stop: None,
            on_restart: None,
            on_role_change: None,
            on_reload: None,
        }
    }
}

/// A command to run, and what it is told in its environment.
#[derive(Debug)]
pub struct CallbackRun {
    pub command: String,
    /// `PG_HA_ACTION`.
    pub action: String,
    /// `PG_HA_ROLE`.
    pub role: String,
    /// `PG_HA_SCOPE`.
    pub scope: String,
    /// `PG_HA_EVENT`.
    pub event: String,
    /// For how many seconds it may run.
    pub timeout: u64,
}

/// Finds the command for an event.
#[derive(Debug)]
pub struct CallbackExecutor {
    pub config: CallbacksConfig,
    /// The name of the cluster.
    pub scope: String,
    /// For how many seconds a command may run.
    pub timeout: u64,
}

impl CallbackExecutor {
    /// Commands may run for half a minute.
    pub fn new(config: CallbacksConfig, scope: String) -> (r: Self)
        ensures
            r.config == config,
            r.scope == scope,
            r.timeout == 30,
    {
        CallbackExecutor { config, scope, timeout: 30 }
    }

    /// What to run for an event, if a command is given for it.
    pub fn fire(&self, event: CallbackEvent, action: &str, role: &str) -> (r: Option<CallbackRun>)
        ensures
            match r {
                Some(run) => {
                    &&& command_for(self.config, event) matches Some(c) && run.command@ == c@
                    &&& run.action@ == action@
                    &&& run.role@ == role@
                    &&& run.scope@ == self.scope@
                    &&& run.event@ == event_text(event)
                    &&& run.timeout == self.timeout
                },
                None => command_for(self.config, event) is None,
            },
    {
        let command: Option<String> = match event {
            CallbackEvent::OnStart => clone_opt(&self.config.on_start),
            CallbackEvent::OnStop => clone_opt(&self.config.on_stop),
            CallbackEvent::OnRestart => clone_opt(&self.config.on_restart),
            CallbackEvent::OnRoleChange => clone_opt(&self.config.on_role_change),
            CallbackEvent::OnReload => clone_opt(&self.config.on_reload),
        };
        assert(text::opt_view(command) == text::opt_view(command_for(self.config, event)));
        match command {
            Some(c) => Some(
                CallbackRun {
                    command: c,
                    action: action.to_string(),
                    role: role.to_string(),
                    scope: self.scope.clone(),
                    event: event.as_str().to_string(),
                    timeout: self.timeout,
                },
            ),
            None => None,
        }
    }
}

/// Each event has its own command and its own name, and no two have the same name.
pub proof fn law_events_are_told_apart(c: CallbacksConfig, a: CallbackEvent, b: CallbackEvent)
    ensures
        command_for(c, CallbackEvent::OnStart) == c.on_start,
        command_for(c, CallbackEvent::OnStop) == c.on_stop,
        command_for(c, CallbackEvent::OnRestart) == c.on_restart,
        command_for(c, CallbackEvent::OnRoleChange) == c.on_role_change,
        command_for(c, CallbackEvent::OnReload) == c.on_reload,
        event_text(CallbackEvent::OnStart) == "on_start"@,
        event_text(CallbackEvent::OnStop) == "on_stop"@,
        event_text(CallbackEvent::OnRestart) == "on_restart"@,
        event_text(CallbackEvent::OnRoleChange) == "on_role_change"@,
        event_text(CallbackEvent::OnReload) == "on_reload"@,
        event_text(a) == event_text(b) <==> a == b,
{
    reveal_strlit("on_start");
    reveal_strlit("on_stop");
    reveal_strlit("on_restart");
    reveal_strlit("on_role_change");
    reveal_strlit("on_reload");
    assert("on_start"@.len() == 8 && "on_stop"@.len() == 7 && "on_restart"@.len() == 10
        && "on_role_change"@.len() == 14 && "on_reload"@.len() == 9);
}

} // verus!
