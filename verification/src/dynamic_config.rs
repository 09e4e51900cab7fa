//! Configuration of the whole cluster, which can change while it runs.
//!
//! A change of the parameters of the control loop takes effect at once. A change of a parameter of
//! PostgreSQL takes effect by a reload or, for some parameters, only by a restart.

use vstd::prelude::*;

use crate::letters;
use crate::standby_cluster;
use crate::standby_cluster::StandbyClusterConfig;
use crate::strmap;
use crate::strmap::StringMap;
use crate::text;
use crate::text::str_eq;

verus! {

/// The configuration of the whole cluster. What is not given stays as each member has it.
#[derive(Debug)]
pub struct GlobalConfig {
    /// Seconds between two runs of the control loop.
    pub loop_wait: Option<u64>,
    /// Seconds after which the leader lock expires.
    pub ttl: Option<u64>,
    /// For how many seconds failed operations are tried again.
    pub retry_timeout: Option<u64>,
    /// How many bytes behind a member may be to become leader.
    pub maximum_lag_on_failover: Option<u64>,
    /// Whether replication is synchronous.
    pub synchronous_mode: Option<bool>,
    /// Whether it stays synchronous with no standby left.
    pub synchronous_mode_strict: Option<bool>,
    /// How many synchronous standbys there are.
    pub synchronous_node_count: Option<u32>,
    /// Whether the failsafe check is made when the store cannot be reached.
    pub failsafe_mode: Option<bool>,
    /// Whether the cluster is paused.
    pub pause: Option<bool>,
    /// The parameters of PostgreSQL.
    pub postgresql: Option<PostgresqlDynamicConfig>,
    /// The remote primary, if this is a standby cluster.
    pub standby_cluster: Option<StandbyClusterConfig>,
}

/// Parameters of PostgreSQL.
#[derive(Debug)]
pub struct PostgresqlDynamicConfig {
    /// Each parameter's value.
    pub parameters: StringMap<String>,
}

/// The contents of a [`GlobalConfig`].
#[verifier::ext_equal]
pub struct GlobalView {
    pub loop_wait: Option<u64>,
    pub ttl: Option<u64>,
    pub retry_timeout: Option<u64>,
    pub maximum_lag_on_failover: Option<u64>,
    pub synchronous_mode: Option<bool>,
    pub synchronous_mode_strict: Option<bool>,
    pub synchronous_node_count: Option<u32>,
    pub failsafe_mode: Option<bool>,
    pub pause: Option<bool>,
    pub postgresql: Option<Map<Seq<char>, Seq<char>>>,
    pub standby_cluster: Option<standby_cluster::StandbyView>,
}

impl View for GlobalConfig {
    type V = GlobalView;

    open spec fn view(&self) -> GlobalView {
        GlobalView {
            loop_wait: self.loop_wait,
            ttl: self.ttl,
            retry_timeout: self.retry_timeout,
            maximum_lag_on_failover: self.maximum_lag_on_failover,
            synchronous_mode: self.synchronous_mode,
            synchronous_mode_strict: self.synchronous_mode_strict,
            synchronous_node_count: self.synchronous_node_count,
            failsafe_mode: self.failsafe_mode,
            pause: self.pause,
            postgresql: match self.postgresql {
                Some(p) => Some(p.parameters@),
                None => None,
            },
            standby_cluster: match self.standby_cluster {
                Some(s) => Some(s@),
                None => None,
            },
        }
    }
}

/// A configuration that gives nothing.
pub open spec fn blank() -> GlobalView {
    GlobalView {
        loop_wait: None,
        ttl: None,
        retry_timeout: None,
        maximum_lag_on_failover: None,
        synchronous_mode: None,
        synchronous_mode_strict: None,
        synchronous_node_count: None,
        failsafe_mode: None,
        pause: None,
        postgresql: None,
        standby_cluster: None,
    }
}

impl Default for GlobalConfig {
    fn default() -> (r: Self)
        ensures
            r@ == blank(),
    {
        GlobalConfig {
            loop_wait: None,
            ttl: None,
            retry_timeout: None,
            maximum_lag_on_failover: None,
            synchronous_mode: None,
            synchronous_mode_strict: None,
            synchronous_node_count: None,
            failsafe_mode: None,
            pause: None,
            postgresql: None,
            standby_cluster: None,
        }
    }
}

/// The same parameters again.
pub fn clone_parameters(m: &StringMap<String>) -> (r: StringMap<String>)
    ensures
        r@ == m@,
{
    let r = m.clone();
    proof {
        assert forall|i: int| 0 <= i < m.pairs().len() implies r.pairs()[i] == m.pairs()[i] by {
            assert((r.pairs()[i]).0 == m.pairs()[i].0);
            assert(cloned::<String>(m.values()[i], r.values()[i]));
        }
        assert(r.pairs() =~= m.pairs());
    }
    r
}

impl Default for PostgresqlDynamicConfig {
    fn default() -> (r: Self)
        ensures
            r.parameters@ == Map::<Seq<char>, Seq<char>>::empty(),
    {
        PostgresqlDynamicConfig { parameters: StringMap::new() }
    }
}

impl Clone for PostgresqlDynamicConfig {
    fn clone(&self) -> (r: Self)
        ensures
            r.parameters@ == self.parameters@,
    {
        PostgresqlDynamicConfig { parameters: clone_parameters(&self.parameters) }
    }
}

impl Clone for GlobalConfig {
    fn clone(&self) -> (r: Self)
        ensures
            r@ == self@,
    {
        GlobalConfig {
            loop_wait: self.loop_wait,
            ttl: self.ttl,
            retry_timeout: self.retry_timeout,
            maximum_lag_on_failover: self.maximum_lag_on_failover,
            synchronous_mode: self.synchronous_mode,
            synchronous_mode_strict: self.synchronous_mode_strict,
            synchronous_node_count: self.synchronous_node_count,
            failsafe_mode: self.failsafe_mode,
            pause: self.pause,
            postgresql: match &self.postgresql {
                Some(p) => Some(p.clone()),
                None => None,
            },
            standby_cluster: match &self.standby_cluster {
                Some(s) => Some(s.clone()),
                None => None,
            },
        }
    }
}

// ---------------------------------------------------------------------------------------------
// Parameters of PostgreSQL
// ---------------------------------------------------------------------------------------------
/// How a change of a parameter of PostgreSQL takes effect.
#[derive(Debug, Clone, Copy, PartialEq, Eq, Structural)]
pub enum PgParamClassification {
    /// By a reload.
    NeedsReload,
    /// By a restart.
    NeedsRestart,
}

/// The parameters that only a restart changes.
pub open spec fn restart_param(s: Seq<char>) -> bool {
    ||| s == "shared_buffers"@
    ||| s == "max_connections"@
    ||| s == "max_prepared_transactions"@
    ||| s == "max_worker_processes"@
    ||| s == "max_wal_senders"@
    ||| s == "max_replication_slots"@
    ||| s == "wal_level"@
    ||| s == "wal_buffers"@
    ||| s == "max_locks_per_transaction"@
    ||| s == "max_pred_locks_per_transaction"@
    ||| s == "track_commit_timestamp"@
    ||| s == "shared_preload_libraries"@
    ||| s == "listen_addresses"@
    ||| s == "port"@
    ||| s == "superuser_reserved_connections"@
    ||| s == "unix_socket_directories"@
    ||| s == "huge_pages"@
    ||| s == "cluster_name"@
    ||| s == "bonjour"@
    ||| s == "bonjour_name"@
    ||| s == "ssl"@
    ||| s == "ssl_ca_file"@
    ||| s == "ssl_cert_file"@
    ||| s == "ssl_key_file"@
    ||| s == "ssl_crl_file"@
    ||| s == "password_encryption"@
    ||| s == "hot_standby"@
    ||| s == "max_files_per_process"@
    ||| s == "archive_mode"@
    ||| s == "restore_command"@
    ||| s == "recovery_target"@
    ||| s == "recovery_target_name"@
    ||| s == "recovery_target_time"@
    ||| s == "recovery_target_xid"@
    ||| s == "recovery_target_lsn"@
    ||| s == "recovery_target_inclusive"@
    ||| s == "recovery_target_timeline"@
    ||| s == "recovery_target_action"@
    ||| s == "primary_conninfo"@
    ||| s == "primary_slot_name"@
}

/// Whether only a restart changes the parameter of this name, written in lower case.
pub fn is_restart_param(lower: &str) -> (r: bool)
    ensures
        r == restart_param(lower@),
{
    str_eq(lower, "shared_buffers") || str_eq(lower, "max_connections") || str_eq(
        lower,
        "max_prepared_transactions",
    ) || str_eq(lower, "max_worker_processes") || str_eq(lower, "max_wal_senders") || str_eq(
        lower,
        "max_replication_slots",
    ) || str_eq(lower, "wal_level") || str_eq(lower, "wal_buffers") || str_eq(
        lower,
        "max_locks_per_transaction",
    ) || str_eq(lower, "max_pred_locks_per_transaction") || str_eq(lower, "track_commit_timestamp")
        || str_eq(lower, "shared_preload_libraries") || str_eq(lower, "listen_addresses") || str_eq(
        lower,
        "port",
    ) || str_eq(lower, "superuser_reserved_connections") || str_eq(lower, "unix_socket_directories")
        || str_eq(lower, "huge_pages") || str_eq(lower, "cluster_name") || str_eq(lower, "bonjour")
        || str_eq(lower, "bonjour_name") || str_eq(lower, "ssl") || str_eq(lower, "ssl_ca_file")
        || str_eq(lower, "ssl_cert_file") || str_eq(lower, "ssl_key_file") || str_eq(
        lower,
        "ssl_crl_file",
    ) || str_eq(lower, "password_encryption") || str_eq(lower, "hot_standby") || str_eq(
        lower,
        "max_files_per_process",
    ) || str_eq(lower, "archive_mode") || str_eq(lower, "restore_command") || str_eq(
        lower,
        "recovery_target",
    ) || str_eq(lower, "recovery_target_name") || str_eq(lower, "recovery_target_time") || str_eq(
        lower,
        "recovery_target_xid",
    ) || str_eq(lower, "recovery_target_lsn") || str_eq(lower, "recovery_target_inclusive")
        || str_eq(lower, "recovery_target_timeline") || str_eq(lower, "recovery_target_action")
        || str_eq(lower, "primary_conninfo") || str_eq(lower, "primary_slot_name")
}

/// Whether only a restart changes the parameter of this name.
pub open spec fn needs_restart(name: Seq<char>) -> bool {
    restart_param(letters::lowercase(name))
}

/// How a change of the parameter of this name takes effect. Case does not matter.
pub fn classify_pg_param(name: &str) -> (r: PgParamClassification)
    ensures
        (r == PgParamClassification::NeedsRestart) == needs_restart(name@),
        letters::is_ascii_text(name@) ==> (r == PgParamClassification::NeedsRestart)
            == restart_param(letters::ascii_lowered(name@)),
{
    let lower = letters::lowered(name);
    if is_restart_param(lower.as_str()) {
        PgParamClassification::NeedsRestart
    } else {
        PgParamClassification::NeedsReload
    }
}

// ---------------------------------------------------------------------------------------------
// Changes
// ---------------------------------------------------------------------------------------------
/// What differs between two configurations.
#[derive(Debug)]
pub struct ConfigChanges {
    /// Whether parameters of the control loop differ.
    pub ha_params_changed: bool,
    /// The new values of parameters for which a reload is enough.
    pub pg_reload_params: StringMap<String>,
    /// The new values of parameters that need a restart.
    pub pg_restart_params: StringMap<String>,
    /// The parameters that are no longer there.
    pub pg_removed_params: Vec<String>,
}

/// Parameters of the control loop differ.
pub open spec fn ha_differs(a: GlobalView, b: GlobalView) -> bool {
    GlobalView { postgresql: None, ..a } != GlobalView { postgresql: None, ..b }
}

/// The parameters of PostgreSQL that a configuration gives.
pub open spec fn params(g: GlobalView) -> Map<Seq<char>, Seq<char>> {
    match g.postgresql {
        Some(p) => p,
        None => Map::empty(),
    }
}

/// `name` is new in `new`, or has another value than in `old`.
pub open spec fn param_changed(
    old: Map<Seq<char>, Seq<char>>,
    new: Map<Seq<char>, Seq<char>>,
    name: Seq<char>,
) -> bool {
    new.dom().contains(name) && !(old.dom().contains(name) && old[name] == new[name])
}

/// The changed parameters with their new values: those that need a restart, or the others.
pub open spec fn changed_params(
    old: Map<Seq<char>, Seq<char>>,
    new: Map<Seq<char>, Seq<char>>,
    restart: bool,
) -> Map<Seq<char>, Seq<char>> {
    new.restrict(
        Set::new(
            |name: Seq<char>| param_changed(old, new, name) && needs_restart(name) == restart,
        ),
    )
}

/// `c` is what differs between `a` and `b`.
pub open spec fn changes_between(a: GlobalView, b: GlobalView, c: ConfigChanges) -> bool {
    let removed = text::strs(c.pg_removed_params@);
    &&& c.ha_params_changed == ha_differs(a, b)
    &&& c.pg_reload_params@ == changed_params(params(a), params(b), false)
    &&& c.pg_restart_params@ == changed_params(params(a), params(b), true)
    &&& removed.no_duplicates()
    &&& removed.to_set() == params(a).dom().difference(params(b).dom())
}

/// Something differs.
pub open spec fn any_changes(c: ConfigChanges) -> bool {
    ||| c.ha_params_changed
    ||| c.pg_reload_params@ != Map::<Seq<char>, Seq<char>>::empty()
    ||| c.pg_restart_params@ != Map::<Seq<char>, Seq<char>>::empty()
    ||| c.pg_removed_params@.len() > 0
}

impl Default for ConfigChanges {
    fn default() -> (r: Self)
        ensures
            !any_changes(r),
    {
        ConfigChanges {
            ha_params_changed: false,
            pg_reload_params: StringMap::new(),
            pg_restart_params: StringMap::new(),
            pg_removed_params: Vec::new(),
        }
    }
}

impl ConfigChanges {
    /// Whether anything differs.
    pub fn has_changes(&self) -> (r: bool)
        ensures
            r == any_changes(*self),
    {
        self.ha_params_changed || !self.pg_reload_params.is_empty()
            || !self.pg_restart_params.is_empty() || self.pg_removed_params.len() > 0
    }

    /// Whether PostgreSQL must be restarted.
    pub fn needs_restart(&self) -> (r: bool)
        ensures
            r == (self.pg_restart_params@ != Map::<Seq<char>, Seq<char>>::empty()),
    {
        !self.pg_restart_params.is_empty()
    }

    /// Whether PostgreSQL must be reloaded.
    pub fn needs_reload(&self) -> (r: bool)
        ensures
            r == (self.pg_reload_params@ != Map::<Seq<char>, Seq<char>>::empty()
                || self.pg_removed_params@.len() > 0),
    {
        !self.pg_reload_params.is_empty() || self.pg_removed_params.len() > 0
    }
}

fn ha_params_differ(old: &GlobalConfig, new: &GlobalConfig) -> (r: bool)
    ensures
        r == ha_differs(old@, new@),
{
    let standby_differs = match (&old.standby_cluster, &new.standby_cluster) {
        (Some(a), Some(b)) => !a.same(b),
        (None, None) => false,
        _ => true,
    };
    old.loop_wait != new.loop_wait || old.ttl != new.ttl || old.retry_timeout != new.retry_timeout
        || old.maximum_lag_on_failover != new.maximum_lag_on_failover || old.synchronous_mode
        != new.synchronous_mode || old.synchronous_mode_strict != new.synchronous_mode_strict
        || old.synchronous_node_count != new.synchronous_node_count || old.failsafe_mode
        != new.failsafe_mode || old.pause != new.pause || standby_differs
}

fn parameters_of(g: &GlobalConfig) -> (r: StringMap<String>)
    ensures
        r@ == params(g@),
{
    match &g.postgresql {
        Some(p) => clone_parameters(&p.parameters),
        None => StringMap::new(),
    }
}

/// The part of `changed_params` whose names are among the first `n` pairs.
spec fn changed_upto(
    old: Map<Seq<char>, Seq<char>>,
    p: Seq<(Seq<char>, Seq<char>)>,
    n: int,
    restart: bool,
) -> Map<Seq<char>, Seq<char>> {
    let new = strmap::map_of(p);
    new.restrict(
        Set::new(
            |name: Seq<char>|
                strmap::has_key(p.take(n), name) && param_changed(old, new, name) && needs_restart(
                    name,
                ) == restart,
        ),
    )
}

proof fn lemma_changed_step(
    old: Map<Seq<char>, Seq<char>>,
    p: Seq<(Seq<char>, Seq<char>)>,
    n: int,
    restart: bool,
)
    requires
        strmap::distinct_keys(p),
        0 <= n < p.len(),
    ensures
        ({
            let new = strmap::map_of(p);
            let name = p[n].0;
            changed_upto(old, p, n + 1, restart) == if param_changed(old, new, name)
                && needs_restart(name) == restart {
                changed_upto(old, p, n, restart).insert(name, p[n].1)
            } else {
                changed_upto(old, p, n, restart)
            }
        }),
        strmap::map_of(p).dom().contains(p[n].0),
        strmap::map_of(p)[p[n].0] == p[n].1,
{
    strmap::lemma_map_of(p);
    let new = strmap::map_of(p);
    assert forall|name: Seq<char>| #[trigger]
        strmap::has_key(p.take(n + 1), name) <==> (strmap::has_key(p.take(n), name) || name
            == p[n].0) by {
        if strmap::has_key(p.take(n + 1), name) {
            let i = choose|i: int| 0 <= i < p.take(n + 1).len() && (#[trigger] p.take(n + 1)[i]).0 == name;
            if i < n {
                assert(p.take(n)[i].0 == name);
            }
        }
        if strmap::has_key(p.take(n), name) {
            let i = choose|i: int| 0 <= i < p.take(n).len() && (#[trigger] p.take(n)[i]).0 == name;
            assert(p.take(n + 1)[i].0 == name);
        }
        if name == p[n].0 {
            assert(p.take(n + 1)[n].0 == name);
        }
    }
    let name = p[n].0;
    if param_changed(old, new, name) && needs_restart(name) == restart {
        assert(changed_upto(old, p, n + 1, restart) =~= changed_upto(old, p, n, restart).insert(
            name,
            p[n].1,
        ));
    } else {
        assert(changed_upto(old, p, n + 1, restart) =~= changed_upto(old, p, n, restart));
    }
}

/// What differs between `old` and `new`.
pub fn detect_changes(old: &GlobalConfig, new: &GlobalConfig) -> (r: ConfigChanges)
    ensures
        changes_between(old@, new@, r),
{
    let ha_params_changed = ha_params_differ(old, new);
    let old_params = parameters_of(old);
    let new_params = parameters_of(new);
    let mut pg_reload_params: StringMap<String> = StringMap::new();
    let mut pg_restart_params: StringMap<String> = StringMap::new();
    let n: usize = new_params.len();
    let ghost p = new_params.pairs();
    proof {
        assert(pg_reload_params@ =~= changed_upto(old_params@, p, 0, false));
        assert(pg_restart_params@ =~= changed_upto(old_params@, p, 0, true));
    }
    let mut i: usize = 0;
    while i < n
        invariant
            i <= n,
            n == p.len(),
            p == new_params.pairs(),
            new_params@ == strmap::map_of(p),
            strmap::distinct_keys(p),
            pg_reload_params@ == changed_upto(old_params@, p, i as int, false),
            pg_restart_params@ == changed_upto(old_params@, p, i as int, true),
        decreases n - i,
    {
        let name = new_params.key_at(i);
        let value = new_params.value_at(i);
        let changed = match old_params.get(name.as_str()) {
            Some(old_value) => !str_eq(old_value.as_str(), value.as_str()),
            None => true,
        };
        proof {
            lemma_changed_step(old_params@, p, i as int, false);
            lemma_changed_step(old_params@, p, i as int, true);
        }
        if changed {
            match classify_pg_param(name.as_str()) {
                PgParamClassification::NeedsReload => {
                    pg_reload_params.insert(name.clone(), value.clone());
                },
                PgParamClassification::NeedsRestart => {
                    pg_restart_params.insert(name.clone(), value.clone());
                },
            }
        }
        i = i + 1;
    }
    proof {
        strmap::lemma_map_of(p);
        assert(p.take(n as int) =~= p);
        assert(pg_reload_params@ =~= changed_params(params(old@), params(new@), false));
        assert(pg_restart_params@ =~= changed_params(params(old@), params(new@), true));
    }
    let pg_removed_params = missing_keys(&old_params, &new_params);
    ConfigChanges { ha_params_changed, pg_reload_params, pg_restart_params, pg_removed_params }
}

/// The keys of `old` that are not in `new`.
fn missing_keys(old: &StringMap<String>, new: &StringMap<String>) -> (r: Vec<String>)
    ensures
        text::strs(r@).no_duplicates(),
        text::strs(r@).to_set() == old@.dom().difference(new@.dom()),
{
    let mut r: Vec<String> = Vec::new();
    let n: usize = old.len();
    let ghost p = old.pairs();
    let mut i: usize = 0;
    while i < n
        invariant
            i <= n,
            n == p.len(),
            p == old.pairs(),
            strmap::distinct_keys(p),
            forall|j: int|
                0 <= j < r@.len() ==> strmap::has_key(p.take(i as int), (#[trigger] r@[j])@)
                    && !new@.dom().contains(r@[j]@),
            forall|j: int, k: int|
                0 <= j < k < r@.len() ==> (#[trigger] r@[j])@ != (#[trigger] r@[k])@,
            forall|j: int|
                0 <= j < i && !new@.dom().contains((#[trigger] p[j]).0) ==> text::strs(
                    r@,
                ).contains(p[j].0),
        decreases n - i,
    {
        let name = old.key_at(i);
        let ghost before = r@;
        proof {
            assert forall|j: int| 0 <= j < before.len() implies strmap::has_key(
                p.take(i + 1),
                (#[trigger] before[j])@,
            ) && before[j]@ != name@ by {
                let t = p.take(i as int);
                let k = choose|k: int| 0 <= k < t.len() && (#[trigger] t[k]).0 == before[j]@;
                assert(p.take(i + 1)[k].0 == before[j]@);
                assert(p[k].0 != p[i as int].0);
            }
        }
        if !new.contains_key(name.as_str()) {
            r.push(name.clone());
            proof {
                assert(p.take(i + 1)[i as int].0 == name@);
                assert(text::strs(r@)[before.len() as int] == name@);
                assert forall|j: int| 0 <= j < i && !new@.dom().contains(
                    (#[trigger] p[j]).0,
                ) implies text::strs(r@).contains(p[j].0) by {
                    let k = choose|k: int|
                        0 <= k < text::strs(before).len() && text::strs(before)[k] == p[j].0;
                    assert(text::strs(r@)[k] == p[j].0);
                }
            }
        }
        i = i + 1;
    }
    proof {
        strmap::lemma_map_of(p);
        let s = text::strs(r@);
        assert forall|a: int, b: int| 0 <= a < s.len() && 0 <= b < s.len() && a != b implies s[a]
            != s[b] by {
            if a < b {
                assert(r@[a]@ != r@[b]@);
            } else {
                assert(r@[b]@ != r@[a]@);
            }
        }
        assert(p.take(n as int) =~= p);
        assert forall|k: Seq<char>| s.to_set().contains(k) <==> #[trigger] old@.dom().difference(
            new@.dom(),
        ).contains(k) by {
            if s.contains(k) {
                let j = choose|j: int| 0 <= j < s.len() && s[j] == k;
                assert(r@[j]@ == k);
                assert(strmap::has_key(p, k));
            }
            if old@.dom().contains(k) && !new@.dom().contains(k) {
                assert(strmap::has_key(p, k));
                let j = choose|j: int| 0 <= j < p.len() && (#[trigger] p[j]).0 == k;
                assert(s.contains(p[j].0));
            }
        }
        assert(s.to_set() =~= old@.dom().difference(new@.dom()));
    }
    r
}

// ---------------------------------------------------------------------------------------------
// What was applied
// ---------------------------------------------------------------------------------------------
/// The configuration that was applied last, and whether PostgreSQL must still be restarted for it.
#[derive(Debug)]
pub struct DynamicConfigState {
    pub last_config: GlobalConfig,
    pub pending_restart: bool,
    /// The parameters for which a restart is due.
    pub pending_restart_params: StringMap<String>,
}

impl DynamicConfigState {
    /// Nothing was applied yet.
    pub fn new() -> (r: Self)
        ensures
            r.last_config@ == blank(),
            !r.pending_restart,
            r.pending_restart_params@ == Map::<Seq<char>, Seq<char>>::empty(),
    {
        DynamicConfigState {
            last_config: GlobalConfig::default(),
            pending_restart: false,
            pending_restart_params: StringMap::new(),
        }
    }

    /// Takes over a configuration, and says what differs from the one before.
    pub fn apply_new_config(&mut self, new_config: GlobalConfig) -> (r: ConfigChanges)
        ensures
            changes_between(old(self).last_config@, new_config@, r),
            final(self).last_config == new_config,
            final(self).pending_restart == (old(self).pending_restart || r.pg_restart_params@
                != Map::<Seq<char>, Seq<char>>::empty()),
            final(self).pending_restart_params@
                == old(self).pending_restart_params@.union_prefer_right(r.pg_restart_params@),
    {
        let changes = detect_changes(&self.last_config, &new_config);
        if changes.needs_restart() {
            self.pending_restart = true;
            extend(&mut self.pending_restart_params, &changes.pg_restart_params);
        }
        self.last_config = new_config;
        assert(self.pending_restart_params@
            =~= old(self).pending_restart_params@.union_prefer_right(changes.pg_restart_params@));
        changes
    }

    /// PostgreSQL was restarted.
    pub fn clear_pending_restart(&mut self)
        ensures
            !final(self).pending_restart,
            final(self).pending_restart_params@ == Map::<Seq<char>, Seq<char>>::empty(),
            final(self).last_config == old(self).last_config,
    {
        self.pending_restart = false;
        self.pending_restart_params.clear();
    }
}

impl Default for DynamicConfigState {
    fn default() -> (r: Self)
        ensures
            r.last_config@ == blank(),
            !r.pending_restart,
            r.pending_restart_params@ == Map::<Seq<char>, Seq<char>>::empty(),
    {
        DynamicConfigState::new()
    }
}

/// Puts all of `more` into `m`.
fn extend(m: &mut StringMap<String>, more: &StringMap<String>)
    ensures
        final(m)@ == old(m)@.union_prefer_right(more@),
{
    let n: usize = more.len();
    let ghost p = more.pairs();
    let ghost before = m@;
    let mut i: usize = 0;
    assert(m@ =~= before.union_prefer_right(strmap::map_of(p.take(0))));
    while i < n
        invariant
            i <= n,
            n == p.len(),
            p == more.pairs(),
            m@ == before.union_prefer_right(strmap::map_of(p.take(i as int))),
        decreases n - i,
    {
        m.insert(more.key_at(i).clone(), more.value_at(i).clone());
        proof {
            let t = p.take(i + 1);
            assert(t.drop_last() =~= p.take(i as int));
            assert(t.last() == p[i as int]);
            assert(m@ =~= before.union_prefer_right(strmap::map_of(t)));
        }
        i = i + 1;
    }
    assert(p.take(n as int) =~= p);
}

// ---------------------------------------------------------------------------------------------
// Laws
// ---------------------------------------------------------------------------------------------
/// A configuration does not differ from itself: applying it again changes nothing.
pub proof fn law_same_config_is_no_change(g: GlobalView, c: ConfigChanges)
    requires
        changes_between(g, g, c),
    ensures
        !any_changes(c),
{
    let p = params(g);
    assert(changed_params(p, p, false) =~= Map::empty());
    assert(changed_params(p, p, true) =~= Map::empty());
    let removed = text::strs(c.pg_removed_params@);
    assert(p.dom().difference(p.dom()) =~= Set::empty());
    if removed.len() > 0 {
        assert(removed.to_set().contains(removed[0]));
    }
}

/// Every parameter that is new or has a new value is reported once: for a reload or for a restart.
pub proof fn law_each_change_is_reported_once(
    a: GlobalView,
    b: GlobalView,
    c: ConfigChanges,
    name: Seq<char>,
)
    requires
        changes_between(a, b, c),
    ensures
        param_changed(params(a), params(b), name) <==> c.pg_reload_params@.dom().contains(name)
            || c.pg_restart_params@.dom().contains(name),
        !(c.pg_reload_params@.dom().contains(name) && c.pg_restart_params@.dom().contains(name)),
{
}

/// Something is reported whenever two configurations differ in what they give.
pub proof fn law_no_change_goes_unseen(a: GlobalView, b: GlobalView, c: ConfigChanges)
    requires
        changes_between(a, b, c),
        !any_changes(c),
    ensures
        params(a) == params(b),
        !ha_differs(a, b),
{
    let old = params(a);
    let new = params(b);
    assert forall|k: Seq<char>| #[trigger] new.dom().contains(k) implies old.dom().contains(k) && old[k]
        == new[k] by {
        if param_changed(old, new, k) {
            assert(c.pg_reload_params@.dom().contains(k) || c.pg_restart_params@.dom().contains(k));
        }
    }
    let removed = text::strs(c.pg_removed_params@);
    assert forall|k: Seq<char>| #[trigger] old.dom().contains(k) implies new.dom().contains(k) by {
        if !new.dom().contains(k) {
            assert(old.dom().difference(new.dom()).contains(k));
            assert(removed.contains(k));
        }
    }
    assert(old.dom() =~= new.dom());
    assert forall|k: Seq<char>| old.dom().contains(k) implies old[k] == new[k] by {
        assert(new.dom().contains(k));
    }
    assert(old =~= new);
}

/// The names of the parameters that only a restart changes.
pub open spec fn restart_names() -> Seq<Seq<char>> {
    seq![
        "shared_buffers"@,
        "max_connections"@,
        "max_prepared_transactions"@,
        "max_worker_processes"@,
        "max_wal_senders"@,
        "max_replication_slots"@,
        "wal_level"@,
        "wal_buffers"@,
        "max_locks_per_transaction"@,
        "max_pred_locks_per_transaction"@,
        "track_commit_timestamp"@,
        "shared_preload_libraries"@,
        "listen_addresses"@,
        "port"@,
        "superuser_reserved_connections"@,
        "unix_socket_directories"@,
        "huge_pages"@,
        "cluster_name"@,
        "bonjour"@,
        "bonjour_name"@,
        "ssl"@,
        "ssl_ca_file"@,
        "ssl_cert_file"@,
        "ssl_key_file"@,
        "ssl_crl_file"@,
        "password_encryption"@,
        "hot_standby"@,
        "max_files_per_process"@,
        "archive_mode"@,
        "restore_command"@,
        "recovery_target"@,
        "recovery_target_name"@,
        "recovery_target_time"@,
        "recovery_target_xid"@,
        "recovery_target_lsn"@,
        "recovery_target_inclusive"@,
        "recovery_target_timeline"@,
        "recovery_target_action"@,
        "primary_conninfo"@,
        "primary_slot_name"@,
    ]
}

/// A parameter needs a restart exactly if it is one of those that PostgreSQL reads only when it
/// starts, in whatever case it is written.
pub proof fn law_restart_is_for_these_parameters(s: Seq<char>)
    ensures
        restart_param(s) <==> restart_names().contains(s),
        needs_restart(s) <==> restart_names().contains(letters::lowercase(s)),
{
    let t = letters::lowercase(s);
    lemma_restart_names(s);
    lemma_restart_names(t);
}

proof fn lemma_restart_names(s: Seq<char>)
    ensures
        restart_param(s) <==> restart_names().contains(s),
{
    let names = restart_names();
    assert(names[0] == "shared_buffers"@);
    assert(names[1] == "max_connections"@);
    assert(names[2] == "max_prepared_transactions"@);
    assert(names[3] == "max_worker_processes"@);
    assert(names[4] == "max_wal_senders"@);
    assert(names[5] == "max_replication_slots"@);
    assert(names[6] == "wal_level"@);
    assert(names[7] == "wal_buffers"@);
    assert(names[8] == "max_locks_per_transaction"@);
    assert(names[9] == "max_pred_locks_per_transaction"@);
    assert(names[10] == "track_commit_timestamp"@);
    assert(names[11] == "shared_preload_libraries"@);
    assert(names[12] == "listen_addresses"@);
    assert(names[13] == "port"@);
    assert(names[14] == "superuser_reserved_connections"@);
    assert(names[15] == "unix_socket_directories"@);
    assert(names[16] == "huge_pages"@);
    assert(names[17] == "cluster_name"@);
    assert(names[18] == "bonjour"@);
    assert(names[19] == "bonjour_name"@);
    assert(names[20] == "ssl"@);
    assert(names[21] == "ssl_ca_file"@);
    assert(names[22] == "ssl_cert_file"@);
    assert(names[23] == "ssl_key_file"@);
    assert(names[24] == "ssl_crl_file"@);
    assert(names[25] == "password_encryption"@);
    assert(names[26] == "hot_standby"@);
    assert(names[27] == "max_files_per_process"@);
    assert(names[28] == "archive_mode"@);
    assert(names[29] == "restore_command"@);
    assert(names[30] == "recovery_target"@);
    assert(names[31] == "recovery_target_name"@);
    assert(names[32] == "recovery_target_time"@);
    assert(names[33] == "recovery_target_xid"@);
    assert(names[34] == "recovery_target_lsn"@);
    assert(names[35] == "recovery_target_inclusive"@);
    assert(names[36] == "recovery_target_timeline"@);
    assert(names[37] == "recovery_target_action"@);
    assert(names[38] == "primary_conninfo"@);
    assert(names[39] == "primary_slot_name"@);
    if names.contains(s) {
        let i = choose|i: int| 0 <= i < names.len() && names[i] == s;
        assert(restart_param(names[i]));
    }
}

/// A parameter is reported with its new value if that is new, for a restart exactly if it needs one,
/// and is not reported if its value is the old one or it is gone. One that is gone is reported as
/// such.
pub proof fn law_parameters_are_reported_with_new_values(
    a: GlobalView,
    b: GlobalView,
    c: ConfigChanges,
    name: Seq<char>,
)
    requires
        changes_between(a, b, c),
    ensures
        ({
            let old = params(a);
            let new = params(b);
            let changed = new.dom().contains(name) && (!old.dom().contains(name) || old[name]
                != new[name]);
            &&& c.pg_restart_params@.dom().contains(name) <==> changed && needs_restart(name)
            &&& c.pg_reload_params@.dom().contains(name) <==> changed && !needs_restart(name)
            &&& c.pg_restart_params@.dom().contains(name) ==> c.pg_restart_params@[name] == new[name]
            &&& c.pg_reload_params@.dom().contains(name) ==> c.pg_reload_params@[name] == new[name]
            &&& text::strs(c.pg_removed_params@).contains(name) <==> old.dom().contains(name)
                && !new.dom().contains(name)
        }),
{
    let removed = text::strs(c.pg_removed_params@);
    assert(removed.to_set().contains(name) <==> removed.contains(name));
}

/// The control loop is told of a change exactly if one of its own parameters differs; the parameters
/// of PostgreSQL are not among them.
pub proof fn law_loop_is_told_of_its_own_changes(a: GlobalView, b: GlobalView)
    ensures
        ha_differs(a, b) <==> {
            ||| a.loop_wait != b.loop_wait
            ||| a.ttl != b.ttl
            ||| a.retry_timeout != b.retry_timeout
            ||| a.maximum_lag_on_failover != b.maximum_lag_on_failover
            ||| a.synchronous_mode != b.synchronous_mode
            ||| a.synchronous_mode_strict != b.synchronous_mode_strict
            ||| a.synchronous_node_count != b.synchronous_node_count
            ||| a.failsafe_mode != b.failsafe_mode
            ||| a.pause != b.pause
            ||| a.standby_cluster != b.standby_cluster
        },
{
}

} // verus!
