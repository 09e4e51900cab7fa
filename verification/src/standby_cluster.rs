//! Clusters that follow a primary outside of them.
//!
//! In such a cluster the member that holds the leader lock replicates from the remote primary
//! instead of being a primary itself.

use vstd::prelude::*;

use crate::connstr;
use crate::connstr::find_last;
use crate::dynamic_config;
use crate::dynamic_config::GlobalConfig;
use crate::operations;
use crate::text;
use crate::text::{clone_opt, opt_eq, str_eq, u64_to_string};

verus! {

/// Where a standby cluster replicates from.
#[derive(Debug)]
pub struct StandbyClusterConfig {
    /// The host of the remote primary.
    pub host: String,
    /// Its port.
    pub port: u16,
    /// The replication slot there.
    pub primary_slot_name: Option<String>,
    /// How to get archived log.
    pub restore_command: Option<String>,
    /// How to create a replica from the remote.
    pub create_replica_methods: Vec<String>,
}

/// The contents of a [`StandbyClusterConfig`].
#[verifier::ext_equal]
pub struct StandbyView {
    pub host: Seq<char>,
    pub port: u16,
    pub primary_slot_name: Option<Seq<char>>,
    pub restore_command: Option<Seq<char>>,
    pub create_replica_methods: Seq<Seq<char>>,
}

impl View for StandbyClusterConfig {
    type V = StandbyView;

    open spec fn view(&self) -> StandbyView {
        StandbyView {
            host: self.host@,
            port: self.port,
            primary_slot_name: text::opt_view(self.primary_slot_name),
            restore_command: text::opt_view(self.restore_command),
            create_replica_methods: text::strs(self.create_replica_methods@),
        }
    }
}

/// The port of a remote primary for which none is given.
pub fn default_port() -> (r: u16)
    ensures
        r == 5432,
{
    5432
}

/// The same strings again.
pub fn clone_strings(v: &Vec<String>) -> (r: Vec<String>)
    ensures
        text::strs(r@) == text::strs(v@),
{
    let mut r: Vec<String> = Vec::new();
    let mut i: usize = 0;
    while i < v.len()
        invariant
            i <= v@.len(),
            r@.len() == i,
            forall|j: int| 0 <= j < i ==> (#[trigger] r@[j])@ == v@[j]@,
        decreases v@.len() - i,
    {
        r.push(v[i].clone());
        i = i + 1;
    }
    assert(text::strs(r@) =~= text::strs(v@));
    r
}

/// Whether two lists hold the same strings in the same order.
pub fn same_strings(a: &Vec<String>, b: &Vec<String>) -> (r: bool)
    ensures
        r == (text::strs(a@) == text::strs(b@)),
{
    assert(text::strs(a@).len() == a@.len() && text::strs(b@).len() == b@.len());
    if a.len() != b.len() {
        return false;
    }
    let mut i: usize = 0;
    while i < a.len()
        invariant
            i <= a@.len(),
            a@.len() == b@.len(),
            forall|j: int| 0 <= j < i ==> (#[trigger] a@[j])@ == b@[j]@,
        decreases a@.len() - i,
    {
        if !str_eq(a[i].as_str(), b[i].as_str()) {
            assert(text::strs(a@)[i as int] != text::strs(b@)[i as int]);
            return false;
        }
        i = i + 1;
    }
    assert(text::strs(a@) =~= text::strs(b@));
    true
}

impl Clone for StandbyClusterConfig {
    fn clone(&self) -> (r: Self)
        ensures
            r@ == self@,
    {
        StandbyClusterConfig {
            host: self.host.clone(),
            port: self.port,
            primary_slot_name: clone_opt(&self.primary_slot_name),
            restore_command: clone_opt(&self.restore_command),
            create_replica_methods: clone_strings(&self.create_replica_methods),
        }
    }
}

/// `host=.. port=.. user=..`, then `rest`, then the password where there is one.
pub open spec fn remote_text(
    host: Seq<char>,
    port: nat,
    user: Seq<char>,
    rest: Seq<char>,
    password: Option<Seq<char>>,
) -> Seq<char> {
    "host="@ + host + " port="@ + text::dec(port) + " user="@ + user + rest + (match password {
        Some(p) => " password="@ + p,
        None => Seq::empty(),
    })
}

impl StandbyClusterConfig {
    fn remote(&self, user: &str, rest: &str, password: Option<&str>) -> (r: String)
        ensures
            r@ == remote_text(
                self.host@,
                self.port as nat,
                user@,
                rest@,
                text::opt_str_view(password),
            ),
    {
        let mut r = "host=".to_string();
        r.append(self.host.as_str());
        r.append(" port=");
        r.append(u64_to_string(self.port as u64).as_str());
        r.append(" user=");
        r.append(user);
        r.append(rest);
        if let Some(p) = password {
            r.append(" password=");
            r.append(p);
        }
        assert(r@ =~= remote_text(
            self.host@,
            self.port as nat,
            user@,
            rest@,
            text::opt_str_view(password),
        ));
        r
    }

    /// How PostgreSQL connects to the remote primary to stream from it.
    pub fn primary_conninfo(
        &self,
        replication_user: &str,
        replication_password: Option<&str>,
    ) -> (r: String)
        ensures
            r@ == remote_text(
                self.host@,
                self.port as nat,
                replication_user@,
                " application_name=standby_cluster"@,
                text::opt_str_view(replication_password),
            ),
    {
        self.remote(replication_user, " application_name=standby_cluster", replication_password)
    }

    /// How `pg_basebackup` connects to the remote primary.
    pub fn basebackup_connstr(
        &self,
        replication_user: &str,
        replication_password: Option<&str>,
    ) -> (r: String)
        ensures
            r@ == remote_text(
                self.host@,
                self.port as nat,
                replication_user@,
                " dbname=postgres"@,
                text::opt_str_view(replication_password),
            ),
    {
        self.remote(replication_user, " dbname=postgres", replication_password)
    }

    /// Whether two configurations say the same.
    pub fn same(&self, other: &Self) -> (r: bool)
        ensures
            r == (self@ == other@),
    {
        str_eq(self.host.as_str(), other.host.as_str()) && self.port == other.port && opt_eq(
            &self.primary_slot_name,
            &other.primary_slot_name,
        ) && opt_eq(&self.restore_command, &other.restore_command) && same_strings(
            &self.create_replica_methods,
            &other.create_replica_methods,
        )
    }
}

/// A connection string, if there is one, leads to this host and port.
pub open spec fn points_to(conninfo: Option<Seq<char>>, host: Seq<char>, port: u16) -> bool {
    match conninfo {
        Some(t) => connstr::last_value(text::words(t), "host="@, ""@) == host
            && connstr::last_value(text::words(t), "port="@, "5432"@) == text::dec(port as nat),
        None => false,
    }
}

/// The rules of standby clusters.
pub struct StandbyCluster;

// ---------------------------------------------------------------------------------------------
// A primary of its own
// ---------------------------------------------------------------------------------------------
/// What the change to a cluster with a primary of its own waits for.
#[derive(Debug, Clone, Copy, PartialEq, Eq, Structural)]
pub enum CascadePhase {
    /// Nothing was done yet.
    Asked,
    /// The configuration, which is stored without the remote primary.
    Storing,
    Promoting,
    Over,
}

/// What the change to a cluster with a primary of its own asks for.
#[derive(Debug)]
pub enum CascadeOrder {
    Nothing,
    /// Store this configuration.
    StoreConfig(GlobalConfig),
    Promote,
    /// It is over; the text says why it failed.
    Finish(Result<(), String>),
}

/// The contents of a [`CascadeOrder`].
pub enum CascadeView {
    Nothing,
    StoreConfig(dynamic_config::GlobalView),
    Promote,
    Finish(Option<Seq<char>>),
}

impl View for CascadeOrder {
    type V = CascadeView;

    open spec fn view(&self) -> CascadeView {
        match *self {
            CascadeOrder::Nothing => CascadeView::Nothing,
            CascadeOrder::StoreConfig(g) => CascadeView::StoreConfig(g@),
            CascadeOrder::Promote => CascadeView::Promote,
            CascadeOrder::Finish(Ok(_)) => CascadeView::Finish(None),
            CascadeOrder::Finish(Err(e)) => CascadeView::Finish(Some(e@)),
        }
    }
}

/// A configuration without the remote primary.
pub open spec fn without_remote(g: dynamic_config::GlobalView) -> dynamic_config::GlobalView {
    dynamic_config::GlobalView { standby_cluster: None, ..g }
}

/// How the change to a cluster with a primary of its own goes on: the configuration is stored
/// without the remote primary and, if that went well, PostgreSQL is promoted.
pub open spec fn cascade_next(
    config: dynamic_config::GlobalView,
    p: CascadePhase,
    fault: Option<Seq<char>>,
) -> (CascadePhase, CascadeView) {
    match (p, fault) {
        (CascadePhase::Asked, _) => (
            CascadePhase::Storing,
            CascadeView::StoreConfig(without_remote(config)),
        ),
        (CascadePhase::Storing, None) => (CascadePhase::Promoting, CascadeView::Promote),
        (CascadePhase::Over, _) => (CascadePhase::Over, CascadeView::Nothing),
        (_, e) => (CascadePhase::Over, CascadeView::Finish(e)),
    }
}

impl StandbyCluster {
    /// A configuration without the remote primary.
    pub fn own_config(config: &GlobalConfig) -> (r: GlobalConfig)
        ensures
            r@ == without_remote(config@),
    {
        let mut g = config.clone();
        g.standby_cluster = None;
        g
    }

    /// Goes on with the change to a cluster with a primary of its own, once what it waited for was
    /// done or has failed.
    pub fn cascade_promote(
        p: CascadePhase,
        current_config: &GlobalConfig,
        result: Result<(), String>,
    ) -> (r: (CascadePhase, CascadeOrder))
        ensures
            (r.0, r.1@) == cascade_next(current_config@, p, operations::fault(result)),
    {
        match p {
            CascadePhase::Asked => (
                CascadePhase::Storing,
                CascadeOrder::StoreConfig(StandbyCluster::own_config(current_config)),
            ),
            CascadePhase::Storing => match result {
                Ok(_) => (CascadePhase::Promoting, CascadeOrder::Promote),
                Err(e) => (CascadePhase::Over, CascadeOrder::Finish(Err(e))),
            },
            CascadePhase::Promoting => (CascadePhase::Over, CascadeOrder::Finish(result)),
            CascadePhase::Over => (CascadePhase::Over, CascadeOrder::Nothing),
        }
    }
}

impl StandbyCluster {
    /// Whether the cluster follows a remote primary.
    pub fn is_standby_cluster(config: &GlobalConfig) -> (r: bool)
        ensures
            r == config.standby_cluster is Some,
    {
        config.standby_cluster.is_some()
    }

    /// Where the cluster replicates from, if it is a standby cluster.
    pub fn get_config(global_config: &GlobalConfig) -> (r: Option<&StandbyClusterConfig>)
        ensures
            match r {
                Some(c) => global_config.standby_cluster == Some(*c),
                None => global_config.standby_cluster is None,
            },
    {
        match &global_config.standby_cluster {
            Some(c) => Some(c),
            None => None,
        }
    }

    /// Whether the member that holds the lock follows the remote primary: PostgreSQL runs, is not
    /// primary, and its `primary_conninfo` leads there. If not, it is to be reconfigured.
    pub fn enforce_follow_remote_member(
        standby_config: &StandbyClusterConfig,
        running: bool,
        is_primary: bool,
        conninfo: Option<&str>,
    ) -> (r: bool)
        ensures
            r == (running && !is_primary && points_to(
                text::opt_str_view(conninfo),
                standby_config.host@,
                standby_config.port,
            )),
    {
        match conninfo {
            Some(t) => running && !is_primary && str_eq(
                find_last(t, "host=", "").as_str(),
                standby_config.host.as_str(),
            ) && str_eq(
                find_last(t, "port=", "5432").as_str(),
                u64_to_string(standby_config.port as u64).as_str(),
            ),
            None => false,
        }
    }

    /// How a new member of a standby cluster is cloned: from the remote primary.
    pub fn clone_source_connstr(
        standby_config: &StandbyClusterConfig,
        replication_user: &str,
        replication_password: Option<&str>,
    ) -> (r: String)
        ensures
            r@ == remote_text(
                standby_config.host@,
                standby_config.port as nat,
                replication_user@,
                " dbname=postgres"@,
                text::opt_str_view(replication_password),
            ),
    {
        standby_config.basebackup_connstr(replication_user, replication_password)
    }
}

// ---------------------------------------------------------------------------------------------
// Laws
// ---------------------------------------------------------------------------------------------
/// A connection leads to the remote primary only if it names its host, and its port, or none where
/// that is the usual one; without a connection it leads nowhere.
pub proof fn law_connection_names_the_remote(t: Seq<char>, host: Seq<char>, port: u16)
    ensures
        !points_to(None, host, port),
        points_to(Some(t), host, port) <==> connstr::last_value(text::words(t), "host="@, ""@)
            == host && connstr::last_value(text::words(t), "port="@, "5432"@) == text::dec(
            port as nat,
        ),
{
}

/// A connection to the remote primary names its host, its port and the user, and the password where
/// there is one, at the end.
pub proof fn law_remote_connection_is_complete(
    host: Seq<char>,
    port: nat,
    user: Seq<char>,
    rest: Seq<char>,
    password: Seq<char>,
)
    ensures
        remote_text(host, port, user, rest, None) == "host="@ + host + " port="@ + text::dec(port)
            + " user="@ + user + rest,
        remote_text(host, port, user, rest, Some(password)) == remote_text(
            host,
            port,
            user,
            rest,
            None,
        ) + " password="@ + password,
{
    assert(remote_text(host, port, user, rest, None) =~= "host="@ + host + " port="@ + text::dec(
        port,
    ) + " user="@ + user + rest);
    assert(remote_text(host, port, user, rest, Some(password)) =~= remote_text(
        host,
        port,
        user,
        rest,
        None,
    ) + " password="@ + password);
}

/// A configuration without the remote primary keeps everything else.
pub proof fn law_only_the_remote_is_forgotten(g: dynamic_config::GlobalView)
    ensures
        without_remote(g).standby_cluster is None,
        without_remote(g).loop_wait == g.loop_wait,
        without_remote(g).ttl == g.ttl,
        without_remote(g).retry_timeout == g.retry_timeout,
        without_remote(g).maximum_lag_on_failover == g.maximum_lag_on_failover,
        without_remote(g).synchronous_mode == g.synchronous_mode,
        without_remote(g).synchronous_mode_strict == g.synchronous_mode_strict,
        without_remote(g).synchronous_node_count == g.synchronous_node_count,
        without_remote(g).failsafe_mode == g.failsafe_mode,
        without_remote(g).pause == g.pause,
        without_remote(g).postgresql == g.postgresql,
{
}

/// The cluster gets a primary of its own in two steps: the configuration without the remote is
/// stored, and PostgreSQL is promoted if that went well. It fails with the fault of the step that
/// failed, and succeeds if both went well.
pub proof fn law_own_primary_in_two_steps(
    config: dynamic_config::GlobalView,
    p: CascadePhase,
    fault: Option<Seq<char>>,
    e: Seq<char>,
)
    ensures
        cascade_next(config, CascadePhase::Asked, fault) == (
            CascadePhase::Storing,
            CascadeView::StoreConfig(without_remote(config)),
        ),
        cascade_next(config, CascadePhase::Storing, None) == (
            CascadePhase::Promoting,
            CascadeView::Promote,
        ),
        cascade_next(config, CascadePhase::Promoting, None) == (
            CascadePhase::Over,
            CascadeView::Finish(None),
        ),
        p == CascadePhase::Storing || p == CascadePhase::Promoting ==> cascade_next(
            config,
            p,
            Some(e),
        ) == (CascadePhase::Over, CascadeView::Finish(Some(e))),
        cascade_next(config, CascadePhase::Over, fault) == (CascadePhase::Over, CascadeView::Nothing),
{
}

} // verus!
