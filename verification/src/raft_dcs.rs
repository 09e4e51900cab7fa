//! What the agent keeps in the replicated store, under which keys, and how it reads it back.

use vstd::prelude::*;

use crate::clock;
use crate::cluster::{
    Cluster, ClusterConfig, Failover, HistoryEntry, Leader, Member, MemberRole, MemberState,
    SyncState,
};
use crate::error::Error;
use crate::json::Json;
use crate::state_machine;
use crate::state_machine::{KvEntry, KvStateMachine, Request, Response};
use crate::strmap;
use crate::strmap::StringMap;
use crate::text;
use crate::text::{contains, starts_with, strip_prefix};

verus! {

/// The view of a node on the replicated store.
#[derive(Debug)]
pub struct RaftDcs {
    /// The name of this node.
    pub node_name: String,
    /// What every key of the cluster begins with.
    pub base_path: String,
    /// After how many seconds a key of this node expires.
    pub ttl: u64,
    /// Seconds between two runs of the control loop.
    pub loop_wait: u64,
    /// Whether nodes talk to each other over TLS.
    pub tls_enabled: bool,
}

/// A member's entry, as it is stored.
#[derive(Debug)]
pub struct StoredMember {
    pub name: String,
    pub value: String,
}

/// The cluster-wide configuration, as it is stored.
#[derive(Debug)]
pub struct StoredConfig {
    pub version: u64,
    pub value: String,
}

/// The state of the cluster, as it is stored.
#[derive(Debug)]
pub struct StoredCluster {
    pub leader: Option<Leader>,
    pub members: Vec<StoredMember>,
    pub initialize: Option<String>,
    pub failover: Option<String>,
    pub config: Option<StoredConfig>,
    /// The synchronous standbys.
    pub sync: Option<String>,
    /// The members that must confirm a primary that cannot reach the store.
    pub failsafe: Option<String>,
    /// The changes of the timeline.
    pub history: Option<String>,
}

/// What came back of a write that was sent to the leader of the store.
#[derive(Debug)]
pub enum ForwardReply {
    /// It could not be sent.
    NotSent(String),
    /// The leader has carried it out.
    Answered(Response),
    /// The answer of the leader could not be read.
    Unreadable(String),
    /// The leader has turned it down.
    Rejected(String),
}

/// Milliseconds between two looks for a leader of the store.
pub const LEADER_POLL_MILLIS: u64 = 500;

/// Seconds that the write may take that shows whether the leader of the store can write.
pub const LEADER_PROBE_SECS: u64 = 3;

/// The value that stands under a key at some time.
pub open spec fn value_at(s: state_machine::KvState, key: Seq<char>, now: u64) -> Option<Seq<char>> {
    match state_machine::lookup(s, key, now) {
        Some(e) => Some(e.value),
        None => None,
    }
}

/// `r` holds the members whose entries stand in the store, each once.
pub open spec fn members_read(
    s: state_machine::KvState,
    prefix: Seq<char>,
    now: u64,
    r: Seq<StoredMember>,
) -> bool {
    &&& forall|i: int|
        0 <= i < r.len() ==> value_at(s, prefix + (#[trigger] r[i]).name@, now) == Some(r[i].value@)
    &&& forall|i: int, j: int|
        0 <= i < j < r.len() ==> (#[trigger] r[i]).name@ != (#[trigger] r[j]).name@
    &&& forall|name: Seq<char>|
        value_at(s, #[trigger] (prefix + name), now) is Some ==> exists|i: int|
            0 <= i < r.len() && (#[trigger] r[i]).name@ == name
}

/// `r` is what stands in the store of the cluster at some time.
pub open spec fn cluster_read(
    s: state_machine::KvState,
    base: Seq<char>,
    now: u64,
    r: StoredCluster,
) -> bool {
    &&& match state_machine::lookup(s, base + "leader"@, now) {
        Some(e) => r.leader matches Some(l) && l.name@ == e.value && l.version == e.version,
        None => r.leader is None,
    }
    &&& members_read(s, base + "members/"@, now, r.members@)
    &&& text::opt_view(r.initialize) == value_at(s, base + "initialize"@, now)
    &&& text::opt_view(r.failover) == value_at(s, base + "failover"@, now)
    &&& match state_machine::lookup(s, base + "config"@, now) {
        Some(e) => r.config matches Some(c) && c.value@ == e.value && c.version == e.version,
        None => r.config is None,
    }
    &&& text::opt_view(r.sync) == value_at(s, base + "sync"@, now)
    &&& text::opt_view(r.failsafe) == value_at(s, base + "failsafe"@, now)
    &&& text::opt_view(r.history) == value_at(s, base + "history"@, now)
}

/// A member of which only the name is known.
pub open spec fn is_placeholder(m: Member, name: Seq<char>) -> bool {
    &&& m.name@ == name
    &&& m.conn_url@.len() == 0
    &&& m.api_url@.len() == 0
    &&& m.state == MemberState::Unknown
    &&& m.role == MemberRole::Uninitialized
    &&& m.wal_position is None
    &&& m.timeline is None
    &&& m.tags@ == Map::<Seq<char>, crate::json::JsonView>::empty()
    &&& m.version is None
}

fn store_error(what: &str, why: &str) -> (r: Error)
    ensures
        r is Dcs,
        r->Dcs_0@ == what@ + why@,
{
    let mut m = what.to_string();
    m.append(why);
    Error::Dcs(m)
}

/// The address of a node with its scheme.
pub open spec fn node_url(addr: Seq<char>, tls: bool) -> Seq<char> {
    if "http"@.is_prefix_of(addr) {
        addr
    } else if tls {
        "https://"@ + addr
    } else {
        "http://"@ + addr
    }
}

/// The address of a node with its scheme.
pub fn build_node_url(addr: &str, tls: bool) -> (r: String)
    ensures
        r@ == node_url(addr@, tls),
{
    if starts_with(addr, "http") {
        addr.to_string()
    } else {
        let mut r = if tls {
            "https://".to_string()
        } else {
            "http://".to_string()
        };
        r.append(addr);
        r
    }
}

fn value_of(e: Option<&KvEntry>) -> (r: Option<String>)
    ensures
        text::opt_view(r) == match e {
            Some(e) => Some(e@.value),
            None => None,
        },
{
    match e {
        Some(e) => Some(e.value.clone()),
        None => None,
    }
}

/// A write of a value that depends on nothing.
pub open spec fn plain_set(key: Seq<char>, value: Seq<char>, ttl: Option<u64>, now: u64) -> state_machine::RequestView {
    state_machine::RequestView::SetKey {
        key,
        value,
        ttl,
        prev_exist: None,
        prev_value: None,
        prev_version: None,
        now,
    }
}

fn build_plain_set(key: String, value: String, ttl: Option<u64>, now: u64) -> (r: Request)
    ensures
        r@ == plain_set(key@, value@, ttl, now),
{
    Request::SetKey { key, value, ttl, prev_exist: None, prev_value: None, prev_version: None, now }
}

impl RaftDcs {
    /// The view of a node on the store of its cluster.
    pub fn new(
        node_name: String,
        scope: &str,
        namespace: &str,
        ttl: u64,
        loop_wait: u64,
        tls_enabled: bool,
    ) -> (r: Self)
        ensures
            r.node_name == node_name,
            r.base_path@ == "/"@ + namespace@ + "/"@ + scope@ + "/"@,
            r.ttl == ttl,
            r.loop_wait == loop_wait,
            r.tls_enabled == tls_enabled,
    {
        let mut base_path = "/".to_string();
        base_path.append(namespace);
        base_path.append("/");
        base_path.append(scope);
        base_path.append("/");
        RaftDcs { node_name, base_path, ttl, loop_wait, tls_enabled }
    }

    fn path(&self, key: &str) -> (r: String)
        ensures
            r@ == self.base_path@ + key@,
    {
        let mut r = self.base_path.clone();
        r.append(key);
        r
    }

    /// The key of the leader lock.
    pub fn leader_path(&self) -> (r: String)
        ensures
            r@ == self.base_path@ + "leader"@,
    {
        self.path("leader")
    }

    /// What the keys of the members begin with.
    pub fn members_path(&self) -> (r: String)
        ensures
            r@ == self.base_path@ + "members/"@,
    {
        self.path("members/")
    }

    /// The key of this member.
    pub fn member_path(&self) -> (r: String)
        ensures
            r@ == self.base_path@ + "members/"@ + self.node_name@,
    {
        let mut r = self.path("members/");
        r.append(self.node_name.as_str());
        r
    }

    /// The key that tells that somebody has created the cluster.
    pub fn initialize_path(&self) -> (r: String)
        ensures
            r@ == self.base_path@ + "initialize"@,
    {
        self.path("initialize")
    }

    /// The key of the cluster-wide configuration.
    pub fn config_path(&self) -> (r: String)
        ensures
            r@ == self.base_path@ + "config"@,
    {
        self.path("config")
    }

    /// The key of a request for another leader.
    pub fn failover_path(&self) -> (r: String)
        ensures
            r@ == self.base_path@ + "failover"@,
    {
        self.path("failover")
    }

    /// The key of the synchronous standbys.
    pub fn sync_path(&self) -> (r: String)
        ensures
            r@ == self.base_path@ + "sync"@,
    {
        self.path("sync")
    }

    /// The key of the members that must confirm a primary that cannot reach the store.
    pub fn failsafe_path(&self) -> (r: String)
        ensures
            r@ == self.base_path@ + "failsafe"@,
    {
        self.path("failsafe")
    }

    /// The key of the changes of the timeline.
    pub fn history_path(&self) -> (r: String)
        ensures
            r@ == self.base_path@ + "history"@,
    {
        self.path("history")
    }

    /// The write by which this node takes the leader lock if nobody holds it.
    pub fn attempt_to_acquire_leader(&self, now: u64) -> (r: Request)
        ensures
            r@ == state_machine::acquire(
                self.base_path@ + "leader"@,
                self.node_name@,
                self.ttl,
                now,
            ),
    {
        Request::SetKey {
            key: self.leader_path(),
            value: self.node_name.clone(),
            ttl: Some(self.ttl),
            prev_exist: Some(false),
            prev_value: None,
            prev_version: None,
            now,
        }
    }

    /// The write by which this node renews the leader lock if it holds it.
    pub fn update_leader(&self, now: u64) -> (r: Request)
        ensures
            r@ == state_machine::renew(
                self.base_path@ + "leader"@,
                self.node_name@,
                self.ttl,
                now,
            ),
    {
        Request::SetKey {
            key: self.leader_path(),
            value: self.node_name.clone(),
            ttl: Some(self.ttl),
            prev_exist: None,
            prev_value: Some(self.node_name.clone()),
            prev_version: None,
            now,
        }
    }

    /// The write by which this node gives up the leader lock if it holds it.
    pub fn delete_leader(&self) -> (r: Request)
        ensures
            r@ == state_machine::release(self.base_path@ + "leader"@, self.node_name@),
    {
        Request::Delete {
            key: self.leader_path(),
            prev_value: Some(self.node_name.clone()),
            recursive: false,
        }
    }

    /// The write of this member's heartbeat.
    pub fn touch_member(&self, data: String, now: u64) -> (r: Request)
        ensures
            r@ == plain_set(
                self.base_path@ + "members/"@ + self.node_name@,
                data@,
                Some(self.ttl),
                now,
            ),
    {
        build_plain_set(self.member_path(), data, Some(self.ttl), now)
    }

    /// The write by which this node gets the right to create the cluster if nobody has.
    pub fn initialize(&self, sysid: &str, now: u64) -> (r: Request)
        ensures
            r@ == (state_machine::RequestView::SetKey {
                key: self.base_path@ + "initialize"@,
                value: sysid@,
                ttl: None,
                prev_exist: Some(false),
                prev_value: None,
                prev_version: None,
                now,
            }),
    {
        Request::SetKey {
            key: self.initialize_path(),
            value: sysid.to_string(),
            ttl: None,
            prev_exist: Some(false),
            prev_value: None,
            prev_version: None,
            now,
        }
    }

    /// The write of a request for another leader.
    pub fn set_failover_value(&self, value: &str, now: u64) -> (r: Request)
        ensures
            r@ == plain_set(self.base_path@ + "failover"@, value@, None, now),
    {
        build_plain_set(self.failover_path(), value.to_string(), None, now)
    }

    /// The write of the cluster-wide configuration.
    pub fn set_config_value(&self, value: &str, now: u64) -> (r: Request)
        ensures
            r@ == plain_set(self.base_path@ + "config"@, value@, None, now),
    {
        build_plain_set(self.config_path(), value.to_string(), None, now)
    }

    /// A write that shows whether the store accepts writes.
    pub fn health_check(&self, now: u64) -> (r: Request)
        ensures
            r@ == plain_set(self.base_path@ + "__health_check"@, "ok"@, Some(5), now),
    {
        build_plain_set(self.path("__health_check"), "ok".to_string(), Some(5), now)
    }

    /// Whether a write was granted.
    pub fn granted(response: &Response) -> (r: bool)
        ensures
            r == (*response is Done),
    {
        match response {
            Response::Done { .. } => true,
            Response::NotChanged => false,
        }
    }

    /// Whether a write that failed is to be sent to the leader of the store, which is known or
    /// not. Otherwise it has failed for good.
    pub fn propose(error: &str, leader_known: bool) -> (r: Result<(), Error>)
        ensures
            match r {
                Ok(_) => leader_known && (text::contains_sub(error@, "forward"@)
                    || text::contains_sub(error@, "ForwardToLeader"@)),
                Err(e) => {
                    &&& !(leader_known && (text::contains_sub(error@, "forward"@)
                        || text::contains_sub(error@, "ForwardToLeader"@)))
                    &&& e is Dcs
                    &&& e->Dcs_0@ == "Raft write failed: "@ + error@
                },
            },
    {
        if (contains(error, "forward") || contains(error, "ForwardToLeader")) && leader_known {
            Ok(())
        } else {
            Err(store_error("Raft write failed: ", error))
        }
    }

    /// Where a write is sent to the leader of the store, if the address of the leader is known.
    pub fn forward_to_leader(&self, addr: Option<&str>) -> (r: Result<String, Error>)
        ensures
            match (addr, r) {
                (Some(a), Ok(url)) => url@ == node_url(a@, self.tls_enabled)
                    + "/raft/client-write"@,
                (None, Err(e)) => e is Dcs && e->Dcs_0@ == "Cannot find Raft leader address"@,
                _ => false,
            },
    {
        match addr {
            Some(a) => {
                let mut url = build_node_url(a, self.tls_enabled);
                url.append("/raft/client-write");
                Ok(url)
            },
            None => Err(Error::Dcs("Cannot find Raft leader address".to_string())),
        }
    }

    /// The answer to a write that was sent to the leader of the store.
    pub fn forwarded(reply: ForwardReply) -> (r: Result<Response, Error>)
        ensures
            match (reply, r) {
                (ForwardReply::Answered(a), Ok(b)) => a == b,
                (ForwardReply::NotSent(e), Err(Error::Dcs(m))) => m@ == "Forward to leader failed: "@
                    + e@,
                (ForwardReply::Unreadable(e), Err(Error::Dcs(m))) => m@ == "Parse leader response: "@
                    + e@,
                (ForwardReply::Rejected(e), Err(Error::Dcs(m))) => m@ == "Leader rejected write: "@
                    + e@,
                _ => false,
            },
    {
        match reply {
            ForwardReply::Answered(a) => Ok(a),
            ForwardReply::NotSent(e) => Err(store_error("Forward to leader failed: ", e.as_str())),
            ForwardReply::Unreadable(e) => Err(store_error("Parse leader response: ", e.as_str())),
            ForwardReply::Rejected(e) => Err(store_error("Leader rejected write: ", e.as_str())),
        }
    }

    /// Whether a node belongs to a store: it knows its leader or has entries in its log.
    pub fn is_initialized(leader: Option<u64>, last_log_index: Option<u64>) -> (r: bool)
        ensures
            r == (leader is Some || last_log_index is Some),
    {
        leader.is_some() || last_log_index.is_some()
    }

    /// Whether the store is ready, after a look for its leader: it is once a leader is known and a
    /// write went through. `expired` tells whether the time to wait is over.
    pub fn wait_for_leader(leader_known: bool, wrote: bool, expired: bool) -> (r: Result<
        bool,
        Error,
    >)
        ensures
            match r {
                Ok(ready) => {
                    &&& ready == (leader_known && wrote)
                    &&& ready || !expired
                },
                Err(e) => {
                    &&& !(leader_known && wrote)
                    &&& expired
                    &&& e is Timeout
                    &&& e->Timeout_0@ == "Raft cluster has no leader"@
                },
            },
    {
        if leader_known && wrote {
            Ok(true)
        } else if expired {
            Err(Error::Timeout("Raft cluster has no leader".to_string()))
        } else {
            Ok(false)
        }
    }

    fn read_members(&self, store: &KvStateMachine, now: u64) -> (r: Vec<StoredMember>)
        ensures
            members_read(store@, self.base_path@ + "members/"@, now, r@),
    {
        let prefix = self.members_path();
        let entries = store.get_prefix_at(prefix.as_str(), now);
        let n: usize = entries.len();
        let ghost p = entries.pairs();
        proof {
            strmap::lemma_map_of(p);
        }
        let mut out: Vec<StoredMember> = Vec::new();
        let mut i: usize = 0;
        while i < n
            invariant
                i <= n,
                n == p.len(),
                p == entries.pairs(),
                strmap::distinct_keys(p),
                prefix@ == self.base_path@ + "members/"@,
                out@.len() == i,
                forall|j: int|
                    0 <= j < p.len() ==> prefix@.is_prefix_of((#[trigger] p[j]).0)
                        && state_machine::lookup(store@, p[j].0, now) == Some(p[j].1),
                forall|j: int|
                    0 <= j < i ==> (#[trigger] out@[j]).name@ == p[j].0.skip(prefix@.len() as int)
                        && out@[j].value@ == p[j].1.value,
            decreases n - i,
        {
            let key = entries.key_at(i);
            let value = entries.value_at(i).value.clone();
            assert(prefix@.is_prefix_of(p[i as int].0));
            match strip_prefix(key.as_str(), prefix.as_str()) {
                Some(name) => {
                    out.push(StoredMember { name, value });
                },
                None => {
                    out.push(StoredMember { name: key.clone(), value });
                },
            }
            i = i + 1;
        }
        proof {
            let pre = prefix@;
            assert forall|j: int| 0 <= j < out@.len() implies value_at(
                store@,
                pre + (#[trigger] out@[j]).name@,
                now,
            ) == Some(out@[j].value@) by {
                assert(pre.is_prefix_of(p[j].0));
                assert(pre + p[j].0.skip(pre.len() as int) =~= p[j].0);
            }
            assert forall|a: int, b: int| 0 <= a < b < out@.len() implies (
            #[trigger] out@[a]).name@ != (#[trigger] out@[b]).name@ by {
                assert(p[a].0 != p[b].0);
                assert(pre + p[a].0.skip(pre.len() as int) =~= p[a].0);
                assert(pre + p[b].0.skip(pre.len() as int) =~= p[b].0);
            }
            assert forall|name: Seq<char>|
                value_at(store@, #[trigger] (pre + name), now) is Some implies exists|j: int|
                0 <= j < out@.len() && (#[trigger] out@[j]).name@ == name by {
                let key = pre + name;
                assert(key.subrange(0, pre.len() as int) =~= pre);
                assert(pre.is_prefix_of(key));
                assert(entries@.dom().contains(key));
                assert(strmap::has_key(p, key));
                let j = choose|j: int| 0 <= j < p.len() && (#[trigger] p[j]).0 == key;
                assert(key.skip(pre.len() as int) =~= name);
                assert(out@[j].name@ == name);
            }
        }
        out
    }

    /// The state of the cluster that stands in the store at `now`.
    pub fn get_cluster_at(&self, store: &KvStateMachine, now: u64) -> (r: StoredCluster)
        ensures
            cluster_read(store@, self.base_path@, now, r),
    {
        let leader: Option<Leader> = match store.get_at(self.leader_path().as_str(), now) {
            Some(e) => Some(Leader { name: e.value.clone(), version: e.version }),
            None => None,
        };
        let members = self.read_members(store, now);
        let initialize = value_of(store.get_at(self.initialize_path().as_str(), now));
        let failover = value_of(store.get_at(self.failover_path().as_str(), now));
        let config: Option<StoredConfig> = match store.get_at(self.config_path().as_str(), now) {
            Some(e) => Some(StoredConfig { version: e.version, value: e.value.clone() }),
            None => None,
        };
        let sync = value_of(store.get_at(self.sync_path().as_str(), now));
        let failsafe = value_of(store.get_at(self.failsafe_path().as_str(), now));
        let history = value_of(store.get_at(self.history_path().as_str(), now));
        StoredCluster { leader, members, initialize, failover, config, sync, failsafe, history }
    }

    /// The state of the cluster that stands in the store now.
    pub fn get_cluster(&self, store: &KvStateMachine) -> (r: StoredCluster)
        ensures
            exists|now: u64| #[trigger] cluster_read(store@, self.base_path@, now, r),
    {
        let now: u64 = clock::current_millis();
        self.get_cluster_at(store, now)
    }

    /// The cluster-wide configuration that stands in the store at `now`.
    pub fn get_config_value_at(&self, store: &KvStateMachine, now: u64) -> (r: Option<String>)
        ensures
            text::opt_view(r) == value_at(store@, self.base_path@ + "config"@, now),
    {
        value_of(store.get_at(self.config_path().as_str(), now))
    }

    /// A member by its entry, if that can be read; otherwise only its name is known.
    pub fn read_member(name: &str, parsed: Option<Member>) -> (r: Member)
        ensures
            match parsed {
                Some(m) => r == m,
                None => is_placeholder(r, name@),
            },
    {
        match parsed {
            Some(m) => m,
            None => Member {
                name: name.to_string(),
                conn_url: String::new(),
                api_url: String::new(),
                state: MemberState::Unknown,
                role: MemberRole::Uninitialized,
                wal_position: None,
                timeline: None,
                tags: StringMap::new(),
                version: None,
            },
        }
    }

    /// The state of the cluster, once its stored parts were read: a part that cannot be read counts
    /// as none.
    pub fn cluster(
        stored: StoredCluster,
        members: Vec<Member>,
        failover: Option<Failover>,
        config: StringMap<Json>,
        sync_state: Option<SyncState>,
        failsafe: Option<StringMap<String>>,
        history: Vec<HistoryEntry>,
    ) -> (r: Cluster)
        ensures
            r.leader == stored.leader,
            r.members == members,
            r.initialize == stored.initialize,
            r.failover == failover,
            match stored.config {
                Some(c) => r.config == Some(ClusterConfig { version: c.version, data: config }),
                None => r.config is None,
            },
            r.sync_state == sync_state,
            r.failsafe == failsafe,
            r.history == history,
    {
        let config = match stored.config {
            Some(c) => Some(ClusterConfig { version: c.version, data: config }),
            None => None,
        };
        Cluster {
            leader: stored.leader,
            members,
            initialize: stored.initialize,
            config,
            sync_state,
            failover,
            failsafe,
            history,
        }
    }

    /// After how many seconds a key of this node expires.
    pub fn ttl(&self) -> (r: u64)
        ensures
            r == self.ttl,
    {
        self.ttl
    }

    /// Seconds between two runs of the control loop.
    pub fn loop_wait(&self) -> (r: u64)
        ensures
            r == self.loop_wait,
    {
        self.loop_wait
    }
}

// ---------------------------------------------------------------------------------------------
// Laws
// ---------------------------------------------------------------------------------------------
/// A node that was granted the leader lock is the leader that every node reads, until the lock
/// expires.
pub proof fn law_granted_lock_is_read(
    s: state_machine::KvState,
    base: Seq<char>,
    node: Seq<char>,
    ttl: u64,
    now: u64,
    index: u64,
    clock: u64,
    later: u64,
    r: StoredCluster,
)
    requires
        now != 0,
        state_machine::fits(state_machine::acquire(base + "leader"@, node, ttl, now), clock),
        state_machine::step(
            s,
            state_machine::acquire(base + "leader"@, node, ttl, now),
            index,
            clock,
        ).1 is Done,
        later < now + ttl * 1000,
        cluster_read(
            state_machine::step(
                s,
                state_machine::acquire(base + "leader"@, node, ttl, now),
                index,
                clock,
            ).0,
            base,
            later,
            r,
        ),
    ensures
        r.leader matches Some(l) && l.name@ == node,
{
}

/// A write that depends on nothing is always granted, and what it wrote is what stands under its
/// key until its end.
pub proof fn law_plain_write_is_read(
    s: state_machine::KvState,
    key: Seq<char>,
    value: Seq<char>,
    ttl: Option<u64>,
    now: u64,
    index: u64,
    clock: u64,
    later: u64,
)
    requires
        now != 0,
        ttl matches Some(t) ==> now + t * 1000 <= u64::MAX && later < now + t * 1000,
    ensures
        state_machine::step(s, plain_set(key, value, ttl, now), index, clock).1 is Done,
        value_at(
            state_machine::step(s, plain_set(key, value, ttl, now), index, clock).0,
            key,
            later,
        ) == Some(value),
{
}

/// A write with an end is not seen from its end on.
pub proof fn law_plain_write_ends(
    s: state_machine::KvState,
    key: Seq<char>,
    value: Seq<char>,
    ttl: u64,
    now: u64,
    index: u64,
    clock: u64,
    later: u64,
)
    requires
        now != 0,
        now + ttl * 1000 <= later,
    ensures
        value_at(
            state_machine::step(s, plain_set(key, value, Some(ttl), now), index, clock).0,
            key,
            later,
        ) is None,
{
}

/// What is read of the cluster is what stands in the store: each part under its own name, with the
/// version of the entry where the part has one.
pub proof fn law_each_part_is_read_by_its_name(
    s: state_machine::KvState,
    base: Seq<char>,
    now: u64,
    r: StoredCluster,
)
    requires
        cluster_read(s, base, now, r),
    ensures
        r.leader is Some <==> value_at(s, base + "leader"@, now) is Some,
        r.leader matches Some(l) ==> value_at(s, base + "leader"@, now) == Some(l.name@)
            && s.data[base + "leader"@].version == l.version,
        r.config is Some <==> value_at(s, base + "config"@, now) is Some,
        r.config matches Some(c) ==> value_at(s, base + "config"@, now) == Some(c.value@)
            && s.data[base + "config"@].version == c.version,
        text::opt_view(r.initialize) == value_at(s, base + "initialize"@, now),
        text::opt_view(r.failover) == value_at(s, base + "failover"@, now),
        text::opt_view(r.sync) == value_at(s, base + "sync"@, now),
        text::opt_view(r.failsafe) == value_at(s, base + "failsafe"@, now),
        text::opt_view(r.history) == value_at(s, base + "history"@, now),
{
}

/// A member that wrote its heartbeat is among the members that are read, with what it wrote, until
/// the heartbeat ends; from then on it is not.
pub proof fn law_heartbeat_makes_a_member(
    s: state_machine::KvState,
    base: Seq<char>,
    node: Seq<char>,
    data: Seq<char>,
    ttl: u64,
    now: u64,
    index: u64,
    clock: u64,
    later: u64,
    r: StoredCluster,
)
    requires
        now != 0,
        now + ttl * 1000 <= u64::MAX,
        cluster_read(
            state_machine::step(
                s,
                plain_set(base + "members/"@ + node, data, Some(ttl), now),
                index,
                clock,
            ).0,
            base,
            later,
            r,
        ),
    ensures
        later < now + ttl * 1000 ==> exists|i: int|
            0 <= i < r.members@.len() && (#[trigger] r.members@[i]).name@ == node
                && r.members@[i].value@ == data,
        later >= now + ttl * 1000 ==> forall|i: int|
            0 <= i < r.members@.len() ==> (#[trigger] r.members@[i]).name@ != node,
{
    let key = base + "members/"@ + node;
    let prefix = base + "members/"@;
    assert(prefix + node =~= key);
    let after = state_machine::step(s, plain_set(key, data, Some(ttl), now), index, clock).0;
    if later < now + ttl * 1000 {
        assert(value_at(after, prefix + node, later) == Some(data));
        let i = choose|i: int|
            0 <= i < r.members@.len() && (#[trigger] r.members@[i]).name@ == node;
        assert(value_at(after, prefix + r.members@[i].name@, later) == Some(r.members@[i].value@));
    } else {
        assert(value_at(after, prefix + node, later) is None);
    }
}

/// The address of a node has a scheme: the one that it came with, otherwise the one that goes by
/// whether the nodes speak over TLS. What it came with stands at its end.
pub proof fn law_address_has_a_scheme(addr: Seq<char>, tls: bool)
    ensures
        "http"@.is_prefix_of(node_url(addr, tls)),
        "http"@.is_prefix_of(addr) ==> node_url(addr, tls) == addr,
        !"http"@.is_prefix_of(addr) ==> node_url(addr, tls) == (if tls {
            "https://"@
        } else {
            "http://"@
        }) + addr,
{
    reveal_strlit("http");
    reveal_strlit("http://");
    reveal_strlit("https://");
    let u = node_url(addr, tls);
    if !"http"@.is_prefix_of(addr) {
        assert(u.subrange(0, 4) =~= "http"@);
    }
}

} // verus!
