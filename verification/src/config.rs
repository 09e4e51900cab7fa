//! The configuration of a node.

use vstd::prelude::*;

use crate::cluster;
use crate::error::Error;
use crate::json;
use crate::json::{put_field, Json};
use crate::strmap::StringMap;
use crate::text;
use crate::text::{parse_u16, parse_u64, u64_to_string};

verus! {

/// The configuration of a node.
#[derive(Debug, Clone)]
pub struct Config {
    /// The name of the node, unique in the cluster.
    pub name: String,
    /// The name of the cluster.
    pub scope: String,
    /// Where the keys of the cluster stand in the replicated store.
    pub namespace: String,
    /// Seconds between two cycles.
    pub loop_wait: u64,
    /// Seconds for which the leader lock is held.
    pub ttl: u64,
    /// Seconds for which operations are retried.
    pub retry_timeout: u64,
    pub postgresql: PostgresqlConfig,
    pub restapi: RestApiConfig,
    pub raft: RaftConfig,
    pub proxy: ProxyConfig,
    pub watchdog: WatchdogConfig,
    pub tags: Tags,
    pub bootstrap: Option<BootstrapConfig>,
}

/// The configuration of PostgreSQL.
#[derive(Debug, Clone)]
pub struct PostgresqlConfig {
    /// The data directory.
    pub data_dir: String,
    /// The directory of `pg_ctl` and the other tools.
    pub bin_dir: String,
    pub listen: String,
    pub port: u16,
    pub superuser: ConnectionParams,
    pub replication: ConnectionParams,
    /// Further settings of PostgreSQL.
    pub parameters: StringMap<String>,
}

/// How to connect to a database.
#[derive(Debug, Clone)]
pub struct ConnectionParams {
    pub username: String,
    pub password: Option<String>,
    pub dbname: String,
}

/// The configuration of the REST API.
#[derive(Debug, Clone)]
pub struct RestApiConfig {
    pub listen: String,
    pub port: u16,
    pub username: Option<String>,
    pub password: Option<String>,
}

/// The configuration of the consensus protocol.
#[derive(Debug, Clone)]
pub struct RaftConfig {
    /// The address of this node.
    pub self_addr: String,
    /// The addresses of the other nodes.
    pub partner_addrs: Vec<String>,
    pub data_dir: Option<String>,
    /// The number of this node; `None` means its place among the addresses.
    pub node_id: Option<u64>,
}

/// The configuration of the TCP proxy.
#[derive(Debug, Clone)]
pub struct ProxyConfig {
    pub rw_listen: String,
    pub rw_port: u16,
    pub ro_listen: String,
    pub ro_port: u16,
}

/// The configuration of the watchdog.
#[derive(Debug, Clone)]
pub struct WatchdogConfig {
    pub mode: WatchdogMode,
    pub device: String,
    /// Seconds by which the watchdog fires before the leader lock runs out.
    pub safety_margin: u64,
}

/// Whether a watchdog is used.
#[derive(Debug, Clone, Copy, PartialEq, Eq, Structural)]
pub enum WatchdogMode {
    Off,
    Automatic,
    Required,
}

/// The tags of a node.
#[derive(Debug, Clone)]
pub struct Tags {
    /// The node is never to be promoted.
    pub nofailover: bool,
    /// The node is not to get read traffic.
    pub noloadbalance: bool,
    /// The node is not to be cloned from.
    pub noclone: bool,
    /// The node takes no part in synchronous replication.
    pub nosync: bool,
    /// The node recovers from archived files in place of a stream.
    pub nostream: bool,
    /// The node is preferred as a source for clones.
    pub clonefrom: bool,
    /// The node to replicate from in place of the primary.
    pub replicatefrom: Option<String>,
    /// How much the node is preferred at a failover; zero means never.
    pub failover_priority: u32,
    /// How much the node is preferred as a synchronous standby.
    pub sync_priority: u32,
}

/// The tags of a node, as other nodes read them.
pub open spec fn tag_fields(t: Tags) -> Map<Seq<char>, json::JsonView> {
    Map::<Seq<char>, json::JsonView>::empty().insert(
        "nofailover"@,
        json::JsonView::Bool(t.nofailover),
    ).insert("noloadbalance"@, json::JsonView::Bool(t.noloadbalance)).insert(
        "noclone"@,
        json::JsonView::Bool(t.noclone),
    ).insert("nosync"@, json::JsonView::Bool(t.nosync)).insert(
        "nostream"@,
        json::JsonView::Bool(t.nostream),
    ).insert("clonefrom"@, json::JsonView::Bool(t.clonefrom)).insert(
        "replicatefrom"@,
        match t.replicatefrom {
            Some(name) => json::JsonView::Text(name@),
            None => json::JsonView::Null,
        },
    ).insert("failover_priority"@, json::JsonView::Number(t.failover_priority as u64)).insert(
        "sync_priority"@,
        json::JsonView::Number(t.sync_priority as u64),
    )
}

impl Tags {
    fn replicatefrom_json(&self) -> (r: Json)
        ensures
            r@ == match self.replicatefrom {
                Some(name) => json::JsonView::Text(name@),
                None => json::JsonView::Null,
            },
    {
        match &self.replicatefrom {
            Some(name) => Json::Text(name.clone()),
            None => Json::Null,
        }
    }

    /// The tags, as other nodes read them.
    pub fn to_map(&self) -> (r: StringMap<Json>)
        ensures
            r@ == tag_fields(*self),
    {
        let mut m: StringMap<Json> = StringMap::new();
        m.insert("nofailover".to_string(), Json::Bool(self.nofailover));
        m.insert("noloadbalance".to_string(), Json::Bool(self.noloadbalance));
        m.insert("noclone".to_string(), Json::Bool(self.noclone));
        m.insert("nosync".to_string(), Json::Bool(self.nosync));
        m.insert("nostream".to_string(), Json::Bool(self.nostream));
        m.insert("clonefrom".to_string(), Json::Bool(self.clonefrom));
        m.insert("replicatefrom".to_string(), self.replicatefrom_json());
        m.insert("failover_priority".to_string(), Json::Number(self.failover_priority as u64));
        m.insert("sync_priority".to_string(), Json::Number(self.sync_priority as u64));
        m
    }

    /// The tags as a JSON object.
    pub fn to_json(&self) -> (r: Json)
        ensures
            r@ == json::JsonView::Object(tag_fields(*self)),
    {
        let mut fields: Vec<(String, Json)> = Vec::new();
        put_field(&mut fields, "nofailover", Json::Bool(self.nofailover));
        put_field(&mut fields, "noloadbalance", Json::Bool(self.noloadbalance));
        put_field(&mut fields, "noclone", Json::Bool(self.noclone));
        put_field(&mut fields, "nosync", Json::Bool(self.nosync));
        put_field(&mut fields, "nostream", Json::Bool(self.nostream));
        put_field(&mut fields, "clonefrom", Json::Bool(self.clonefrom));
        put_field(&mut fields, "replicatefrom", self.replicatefrom_json());
        put_field(&mut fields, "failover_priority", Json::Number(self.failover_priority as u64));
        put_field(&mut fields, "sync_priority", Json::Number(self.sync_priority as u64));
        Json::Object(fields)
    }
}

/// Other nodes read the tags of a node as they are configured.
pub proof fn law_published_tags_are_read(t: Tags)
    ensures
        cluster::flag(tag_fields(t), "nofailover"@) == t.nofailover,
        cluster::flag(tag_fields(t), "noloadbalance"@) == t.noloadbalance,
        cluster::flag(tag_fields(t), "noclone"@) == t.noclone,
        cluster::flag(tag_fields(t), "nosync"@) == t.nosync,
        cluster::flag(tag_fields(t), "nostream"@) == t.nostream,
        cluster::flag(tag_fields(t), "clonefrom"@) == t.clonefrom,
        cluster::number(tag_fields(t), "failover_priority"@, 1) == t.failover_priority,
        cluster::number(tag_fields(t), "sync_priority"@, 0) == t.sync_priority,
        tag_fields(t)["replicatefrom"@] == match t.replicatefrom {
            Some(name) => json::JsonView::Text(name@),
            None => json::JsonView::Null,
        },
{
    reveal_strlit("nofailover");
    assert("nofailover"@.len() == 10);
    reveal_strlit("noloadbalance");
    assert("noloadbalance"@.len() == 13);
    reveal_strlit("noclone");
    assert("noclone"@.len() == 7);
    reveal_strlit("nosync");
    assert("nosync"@.len() == 6);
    reveal_strlit("nostream");
    assert("nostream"@.len() == 8);
    reveal_strlit("clonefrom");
    assert("clonefrom"@.len() == 9);
    reveal_strlit("replicatefrom");
    assert("replicatefrom"@.len() == 13);
    reveal_strlit("failover_priority");
    assert("failover_priority"@.len() == 17);
    reveal_strlit("sync_priority");
    assert("sync_priority"@.len() == 13);
    assert("noloadbalance"@[0] == 'n' && "replicatefrom"@[0] == 'r' && "sync_priority"@[0] == 's');
}

/// How a new cluster is made.
#[derive(Debug, Clone)]
pub struct BootstrapConfig {
    /// Options of `initdb`.
    pub initdb: Vec<InitdbOption>,
    /// The first cluster-wide configuration.
    pub dcs: StringMap<Json>,
    /// Statements to run once PostgreSQL is up, before those of `post_bootstrap_sql`.
    pub post_init: Vec<String>,
    /// A command to run in place of `initdb`.
    pub custom_command: Option<String>,
    /// Statements to run once PostgreSQL is up.
    pub post_bootstrap_sql: Vec<String>,
}

/// An option of `initdb`.
#[derive(Debug, Clone)]
pub enum InitdbOption {
    /// Options with values.
    KeyValue(StringMap<String>),
    /// An option without a value.
    Flag(String),
}

// ---------------------------------------------------------------------------------------------
// Defaults
// ---------------------------------------------------------------------------------------------
/// Where the keys stand if nothing is said.
pub fn default_namespace() -> (r: String)
    ensures
        r@ == "service"@,
{
    "service".to_string()
}

/// Seconds between two cycles if nothing is said.
pub fn default_loop_wait() -> (r: u64)
    ensures
        r == 10,
{
    10
}

/// Seconds for which the leader lock is held if nothing is said.
pub fn default_ttl() -> (r: u64)
    ensures
        r == 30,
{
    30
}

/// Seconds for which operations are retried if nothing is said.
pub fn default_retry_timeout() -> (r: u64)
    ensures
        r == 10,
{
    10
}

/// Where PostgreSQL listens if nothing is said.
pub fn default_pg_listen() -> (r: String)
    ensures
        r@ == "0.0.0.0"@,
{
    "0.0.0.0".to_string()
}

/// The port of PostgreSQL if nothing is said.
pub fn default_pg_port() -> (r: u16)
    ensures
        r == 5432,
{
    5432
}

/// The database if nothing is said.
pub fn default_dbname() -> (r: String)
    ensures
        r@ == "postgres"@,
{
    "postgres".to_string()
}

/// Where the REST API listens if nothing is said.
pub fn default_api_listen() -> (r: String)
    ensures
        r@ == "0.0.0.0"@,
{
    "0.0.0.0".to_string()
}

/// The port of the REST API if nothing is said.
pub fn default_api_port() -> (r: u16)
    ensures
        r == 8008,
{
    8008
}

/// Where the proxy listens if nothing is said.
pub fn default_proxy_listen() -> (r: String)
    ensures
        r@ == "0.0.0.0"@,
{
    "0.0.0.0".to_string()
}

/// The port for reading and writing if nothing is said.
pub fn default_proxy_rw_port() -> (r: u16)
    ensures
        r == 6432,
{
    6432
}

/// The port for reading if nothing is said.
pub fn default_proxy_ro_port() -> (r: u16)
    ensures
        r == 6433,
{
    6433
}

/// Whether a watchdog is used if nothing is said.
pub fn default_watchdog_mode() -> (r: WatchdogMode)
    ensures
        r == WatchdogMode::Off,
{
    WatchdogMode::Off
}

/// The watchdog device if nothing is said.
pub fn default_watchdog_device() -> (r: String)
    ensures
        r@ == "/dev/watchdog"@,
{
    "/dev/watchdog".to_string()
}

/// The safety margin of the watchdog if nothing is said.
pub fn default_watchdog_safety_margin() -> (r: u64)
    ensures
        r == 5,
{
    5
}

/// The failover priority if nothing is said.
pub fn default_failover_priority() -> (r: u32)
    ensures
        r == 1,
{
    1
}

/// The watchdog is off and otherwise as if nothing was said.
pub open spec fn is_default_watchdog(w: WatchdogConfig) -> bool {
    w.mode == WatchdogMode::Off && w.device@ == "/dev/watchdog"@ && w.safety_margin == 5
}

impl Default for WatchdogConfig {
    fn default() -> (r: Self)
        ensures
            is_default_watchdog(r),
    {
        WatchdogConfig {
            mode: WatchdogMode::Off,
            device: default_watchdog_device(),
            safety_margin: default_watchdog_safety_margin(),
        }
    }
}

/// No tag is set.
pub open spec fn is_default_tags(t: Tags) -> bool {
    &&& !t.nofailover
    &&& !t.noloadbalance
    &&& !t.noclone
    &&& !t.nosync
    &&& !t.nostream
    &&& !t.clonefrom
    &&& t.replicatefrom is None
    &&& t.failover_priority == 1
    &&& t.sync_priority == 0
}

impl Default for Tags {
    fn default() -> (r: Self)
        ensures
            is_default_tags(r),
    {
        Tags {
            nofailover: false,
            noloadbalance: false,
            noclone: false,
            nosync: false,
            nostream: false,
            clonefrom: false,
            replicatefrom: None,
            failover_priority: 1,
            sync_priority: 0,
        }
    }
}

/// Nothing is configured for the bootstrap.
pub open spec fn is_default_bootstrap(b: BootstrapConfig) -> bool {
    &&& b.initdb@.len() == 0
    &&& b.dcs@ == Map::<Seq<char>, crate::json::JsonView>::empty()
    &&& b.post_init@.len() == 0
    &&& b.custom_command is None
    &&& b.post_bootstrap_sql@.len() == 0
}

impl Default for BootstrapConfig {
    fn default() -> (r: Self)
        ensures
            is_default_bootstrap(r),
    {
        BootstrapConfig {
            initdb: Vec::new(),
            dcs: StringMap::new(),
            post_init: Vec::new(),
            custom_command: None,
            post_bootstrap_sql: Vec::new(),
        }
    }
}

// ---------------------------------------------------------------------------------------------
// Overrides and validation
// ---------------------------------------------------------------------------------------------
/// The values of the environment variables that override the configuration: `PG_HA_NAME` and so
/// on, `None` where one is not set.
#[derive(Debug, Clone)]
pub struct EnvOverrides {
    pub name: Option<String>,
    pub scope: Option<String>,
    pub loop_wait: Option<String>,
    pub ttl: Option<String>,
    pub retry_timeout: Option<String>,
    pub postgresql_port: Option<String>,
    pub postgresql_listen: Option<String>,
    pub restapi_port: Option<String>,
    pub raft_self_addr: Option<String>,
}

/// A text that a variable overrides.
pub open spec fn overridden_text(old: Seq<char>, var: Option<String>) -> Seq<char> {
    match var {
        Some(v) => v@,
        None => old,
    }
}

/// A number of at most `max` that a variable overrides; what is no such number is ignored.
pub open spec fn overridden_number(old: nat, var: Option<String>, max: nat) -> nat {
    match var {
        Some(v) => match text::parse_uint(v@, false, max) {
            Some(n) => n,
            None => old,
        },
        None => old,
    }
}

fn override_u64(old: u64, var: &Option<String>) -> (r: u64)
    ensures
        r == overridden_number(old as nat, *var, u64::MAX as nat),
{
    match var {
        Some(v) => match parse_u64(v.as_str()) {
            Some(n) => n,
            None => old,
        },
        None => old,
    }
}

fn override_u16(old: u16, var: &Option<String>) -> (r: u16)
    ensures
        r == overridden_number(old as nat, *var, u16::MAX as nat),
{
    match var {
        Some(v) => match parse_u16(v.as_str()) {
            Some(n) => n,
            None => old,
        },
        None => old,
    }
}

/// Why a configuration is not usable: the first of these that holds.
pub open spec fn config_fault(c: Config) -> Option<Seq<char>> {
    if c.name@.len() == 0 {
        Some("'name' is required and cannot be empty"@)
    } else if c.scope@.len() == 0 {
        Some("'scope' is required and cannot be empty"@)
    } else if c.ttl <= c.loop_wait {
        Some(
            "ttl ("@ + text::dec(c.ttl as nat) + ") must be greater than loop_wait ("@ + text::dec(
                c.loop_wait as nat,
            ) + ")"@,
        )
    } else if c.raft.self_addr@.len() == 0 {
        Some("raft.self_addr is required"@)
    } else if c.raft.partner_addrs@.len() == 0 {
        Some("raft.partner_addrs must contain at least one peer address"@)
    } else {
        None
    }
}

/// The configuration agrees with another but for what variables override.
pub open spec fn same_but_overridable(a: Config, b: Config) -> bool {
    &&& a.namespace == b.namespace
    &&& a.postgresql.data_dir == b.postgresql.data_dir
    &&& a.postgresql.bin_dir == b.postgresql.bin_dir
    &&& a.postgresql.superuser == b.postgresql.superuser
    &&& a.postgresql.replication == b.postgresql.replication
    &&& a.postgresql.parameters == b.postgresql.parameters
    &&& a.restapi.listen == b.restapi.listen
    &&& a.restapi.username == b.restapi.username
    &&& a.restapi.password == b.restapi.password
    &&& a.raft.partner_addrs == b.raft.partner_addrs
    &&& a.raft.data_dir == b.raft.data_dir
    &&& a.raft.node_id == b.raft.node_id
    &&& a.proxy == b.proxy
    &&& a.watchdog == b.watchdog
    &&& a.tags == b.tags
    &&& a.bootstrap == b.bootstrap
}

impl Config {
    /// Overrides the configuration by environment variables.
    pub fn apply_env_overrides(&mut self, env: &EnvOverrides)
        ensures
            final(self).name@ == overridden_text(old(self).name@, env.name),
            final(self).scope@ == overridden_text(old(self).scope@, env.scope),
            final(self).loop_wait == overridden_number(
                old(self).loop_wait as nat,
                env.loop_wait,
                u64::MAX as nat,
            ),
            final(self).ttl == overridden_number(old(self).ttl as nat, env.ttl, u64::MAX as nat),
            final(self).retry_timeout == overridden_number(
                old(self).retry_timeout as nat,
                env.retry_timeout,
                u64::MAX as nat,
            ),
            final(self).postgresql.port == overridden_number(
                old(self).postgresql.port as nat,
                env.postgresql_port,
                u16::MAX as nat,
            ),
            final(self).postgresql.listen@ == overridden_text(
                old(self).postgresql.listen@,
                env.postgresql_listen,
            ),
            final(self).restapi.port == overridden_number(
                old(self).restapi.port as nat,
                env.restapi_port,
                u16::MAX as nat,
            ),
            final(self).raft.self_addr@ == overridden_text(
                old(self).raft.self_addr@,
                env.raft_self_addr,
            ),
            same_but_overridable(*final(self), *old(self)),
    {
        if let Some(v) = &env.name {
            self.name = v.clone();
        }
        if let Some(v) = &env.scope {
            self.scope = v.clone();
        }
        self.loop_wait = override_u64(self.loop_wait, &env.loop_wait);
        self.ttl = override_u64(self.ttl, &env.ttl);
        self.retry_timeout = override_u64(self.retry_timeout, &env.retry_timeout);
        self.postgresql.port = override_u16(self.postgresql.port, &env.postgresql_port);
        if let Some(v) = &env.postgresql_listen {
            self.postgresql.listen = v.clone();
        }
        self.restapi.port = override_u16(self.restapi.port, &env.restapi_port);
        if let Some(v) = &env.raft_self_addr {
            self.raft.self_addr = v.clone();
        }
    }

    /// Whether the configuration is usable.
    pub fn validate(&self) -> (r: Result<(), Error>)
        ensures
            match r {
                Ok(_) => config_fault(*self) is None,
                Err(e) => e is Config && config_fault(*self) == Some(e->Config_0@),
            },
    {
        if self.name.as_str().is_empty() {
            return Err(Error::Config("'name' is required and cannot be empty".to_string()));
        }
        if self.scope.as_str().is_empty() {
            return Err(Error::Config("'scope' is required and cannot be empty".to_string()));
        }
        if self.ttl <= self.loop_wait {
            let mut m = "ttl (".to_string();
            m.append(u64_to_string(self.ttl).as_str());
            m.append(") must be greater than loop_wait (");
            m.append(u64_to_string(self.loop_wait).as_str());
            m.append(")");
            return Err(Error::Config(m));
        }
        if self.raft.self_addr.as_str().is_empty() {
            return Err(Error::Config("raft.self_addr is required".to_string()));
        }
        if self.raft.partner_addrs.is_empty() {
            return Err(
                Error::Config(
                    "raft.partner_addrs must contain at least one peer address".to_string(),
                ),
            );
        }
        Ok(())
    }
}

/// The settings of PostgreSQL in the sample.
pub open spec fn sample_parameters() -> Map<Seq<char>, Seq<char>> {
    Map::empty().insert("max_connections"@, "100"@).insert("wal_level"@, "replica"@).insert(
        "max_wal_senders"@,
        "10"@,
    ).insert("max_replication_slots"@, "10"@).insert("hot_standby"@, "on"@)
}

/// The first cluster-wide configuration in the sample.
pub open spec fn sample_dcs() -> Map<Seq<char>, crate::json::JsonView> {
    Map::empty().insert("loop_wait"@, crate::json::JsonView::Number(10)).insert(
        "ttl"@,
        crate::json::JsonView::Number(30),
    ).insert("maximum_lag_on_failover"@, crate::json::JsonView::Number(1048576))
}

/// The sample configuration.
pub open spec fn is_sample(c: Config) -> bool {
    &&& c.name@ == "node1"@
    &&& c.scope@ == "pg-cluster"@
    &&& c.namespace@ == "service"@
    &&& c.loop_wait == 10
    &&& c.ttl == 30
    &&& c.retry_timeout == 10
    &&& c.postgresql.data_dir@ == "/var/lib/postgresql/16/data"@
    &&& c.postgresql.bin_dir@ == "/usr/lib/postgresql/16/bin"@
    &&& c.postgresql.listen@ == "0.0.0.0"@
    &&& c.postgresql.port == 5432
    &&& c.postgresql.superuser.username@ == "postgres"@
    &&& text::opt_view(c.postgresql.superuser.password) == Some("secret"@)
    &&& c.postgresql.superuser.dbname@ == "postgres"@
    &&& c.postgresql.replication.username@ == "replicator"@
    &&& text::opt_view(c.postgresql.replication.password) == Some("secret"@)
    &&& c.postgresql.replication.dbname@ == "postgres"@
    &&& c.postgresql.parameters@ == sample_parameters()
    &&& c.restapi.listen@ == "0.0.0.0"@
    &&& c.restapi.port == 8008
    &&& c.restapi.username is None
    &&& c.restapi.password is None
    &&& c.raft.self_addr@ == "node1:2380"@
    &&& text::strs(c.raft.partner_addrs@) == seq!["node2:2380"@, "node3:2380"@]
    &&& text::opt_view(c.raft.data_dir) == Some("/var/lib/pg-ha/raft"@)
    &&& c.raft.node_id is None
    &&& c.proxy.rw_listen@ == "0.0.0.0"@
    &&& c.proxy.rw_port == 6432
    &&& c.proxy.ro_listen@ == "0.0.0.0"@
    &&& c.proxy.ro_port == 6433
    &&& is_default_watchdog(c.watchdog)
    &&& is_default_tags(c.tags)
    &&& c.bootstrap is Some
    &&& is_sample_bootstrap(c.bootstrap->0)
}

/// The bootstrap section of the sample.
pub open spec fn is_sample_bootstrap(b: BootstrapConfig) -> bool {
    &&& b.initdb@.len() == 2
    &&& b.initdb@[0] is Flag
    &&& b.initdb@[0]->Flag_0@ == "data-checksums"@
    &&& b.initdb@[1] is KeyValue
    &&& b.initdb@[1]->KeyValue_0@ == Map::<Seq<char>, Seq<char>>::empty().insert(
        "encoding"@,
        "UTF8"@,
    )
    &&& b.dcs@ == sample_dcs()
    &&& b.post_init@.len() == 0
    &&& b.custom_command is None
    &&& b.post_bootstrap_sql@.len() == 0
}

impl Config {
    /// The sample configuration, which is usable.
    pub fn sample() -> (r: Self)
        ensures
            is_sample(r),
            config_fault(r) is None,
    {
        let mut parameters: StringMap<String> = StringMap::new();
        parameters.insert("max_connections".to_string(), "100".to_string());
        parameters.insert("wal_level".to_string(), "replica".to_string());
        parameters.insert("max_wal_senders".to_string(), "10".to_string());
        parameters.insert("max_replication_slots".to_string(), "10".to_string());
        parameters.insert("hot_standby".to_string(), "on".to_string());
        let mut encoding: StringMap<String> = StringMap::new();
        encoding.insert("encoding".to_string(), "UTF8".to_string());
        let mut dcs: StringMap<Json> = StringMap::new();
        dcs.insert("loop_wait".to_string(), Json::Number(10));
        dcs.insert("ttl".to_string(), Json::Number(30));
        dcs.insert("maximum_lag_on_failover".to_string(), Json::Number(1048576));
        let mut partner_addrs: Vec<String> = Vec::new();
        partner_addrs.push("node2:2380".to_string());
        partner_addrs.push("node3:2380".to_string());
        let mut initdb: Vec<InitdbOption> = Vec::new();
        initdb.push(InitdbOption::Flag("data-checksums".to_string()));
        initdb.push(InitdbOption::KeyValue(encoding));
        let r = Config {
            name: "node1".to_string(),
            scope: "pg-cluster".to_string(),
            namespace: "service".to_string(),
            loop_wait: 10,
            ttl: 30,
            retry_timeout: 10,
            postgresql: PostgresqlConfig {
                data_dir: "/var/lib/postgresql/16/data".to_string(),
                bin_dir: "/usr/lib/postgresql/16/bin".to_string(),
                listen: "0.0.0.0".to_string(),
                port: 5432,
                superuser: ConnectionParams {
                    username: "postgres".to_string(),
                    password: Some("secret".to_string()),
                    dbname: "postgres".to_string(),
                },
                replication: ConnectionParams {
                    username: "replicator".to_string(),
                    password: Some("secret".to_string()),
                    dbname: "postgres".to_string(),
                },
                parameters,
            },
            restapi: RestApiConfig {
                listen: "0.0.0.0".to_string(),
                port: 8008,
                username: None,
                password: None,
            },
            raft: RaftConfig {
                self_addr: "node1:2380".to_string(),
                partner_addrs,
                data_dir: Some("/var/lib/pg-ha/raft".to_string()),
                node_id: None,
            },
            proxy: ProxyConfig {
                rw_listen: "0.0.0.0".to_string(),
                rw_port: 6432,
                ro_listen: "0.0.0.0".to_string(),
                ro_port: 6433,
            },
            watchdog: WatchdogConfig {
                mode: WatchdogMode::Off,
                device: "/dev/watchdog".to_string(),
                safety_margin: 5,
            },
            tags: Tags::default(),
            bootstrap: Some(
                BootstrapConfig {
                    initdb,
                    dcs,
                    post_init: Vec::new(),
                    custom_command: None,
                    post_bootstrap_sql: Vec::new(),
                },
            ),
        };
        proof {
            reveal_strlit("node1");
            reveal_strlit("pg-cluster");
            reveal_strlit("node1:2380");
            assert(text::strs(r.raft.partner_addrs@) =~= seq!["node2:2380"@, "node3:2380"@]);
        }
        r
    }
}

/// A configuration is usable exactly where the node and the cluster have names, the lock outlives
/// the pause between two runs, and the node has an address and a peer.
pub proof fn law_usable_configuration(c: Config)
    ensures
        config_fault(c) is None <==> {
            &&& c.name@.len() > 0
            &&& c.scope@.len() > 0
            &&& c.ttl > c.loop_wait
            &&& c.raft.self_addr@.len() > 0
            &&& c.raft.partner_addrs@.len() > 0
        },
        c.name@.len() == 0 ==> config_fault(c) == Some("'name' is required and cannot be empty"@),
        c.name@.len() > 0 && c.scope@.len() == 0 ==> config_fault(c) == Some(
            "'scope' is required and cannot be empty"@,
        ),
        c.name@.len() > 0 && c.scope@.len() > 0 && c.loop_wait < c.ttl && c.raft.self_addr@.len()
            == 0 ==> config_fault(c) == Some("raft.self_addr is required"@),
{
}

/// The sample configuration is usable.
pub proof fn law_sample_is_usable(c: Config)
    requires
        is_sample(c),
    ensures
        config_fault(c) is None,
{
    reveal_strlit("node1");
    reveal_strlit("pg-cluster");
    reveal_strlit("node1:2380");
    assert(text::strs(c.raft.partner_addrs@).len() == 2);
}

/// A variable that is not set changes nothing; a text is taken as it is; a number that is spelled
/// out and small enough is taken, and anything else leaves the number as it was.
pub proof fn law_variables_override(
    old: Seq<char>,
    number: nat,
    var: Option<String>,
    max: nat,
    n: nat,
)
    ensures
        var is None ==> overridden_text(old, var) == old && overridden_number(number, var, max)
            == number,
        var matches Some(v) ==> overridden_text(old, var) == v@,
        var matches Some(v) ==> (v@ == text::dec(n) ==> overridden_number(number, var, max) == if n
            <= max {
            n
        } else {
            number
        }),
        var matches Some(v) ==> (v@.len() == 0 ==> overridden_number(number, var, max) == number),
        number <= max ==> overridden_number(number, var, max) <= max,
{
    text::law_number_is_read_back(n, max);
    if let Some(v) = var {
        text::law_only_digits_are_a_number(v@, max, 0);
        if v@.len() == 0 {
            assert(v@ =~= Seq::empty());
        }
    }
}

} // verus!
