//! Replicas that stream from other replicas.

use vstd::prelude::*;

use crate::cluster;
use crate::cluster::{Cluster, Member, MemberState};
use crate::connstr;
use crate::connstr::find_last;
use crate::json;
use crate::text;
use crate::text::{parse_u16, str_eq, u64_to_string};

verus! {

/// A node and the one that it replicates from.
#[derive(Debug, Clone)]
pub struct CascadeNode {
    pub name: String,
    pub role: String,
    /// The node that it replicates from; `None` for the primary.
    pub upstream: Option<String>,
    /// The node that its tag names.
    pub replicatefrom: Option<String>,
}

/// What a node of the topology holds.
#[verifier::ext_equal]
pub ghost struct CascadeView {
    pub name: Seq<char>,
    pub role: Seq<char>,
    pub upstream: Option<Seq<char>>,
    pub replicatefrom: Option<Seq<char>>,
}

impl View for CascadeNode {
    type V = CascadeView;

    open spec fn view(&self) -> CascadeView {
        CascadeView {
            name: self.name@,
            role: self.role@,
            upstream: text::opt_view(self.upstream),
            replicatefrom: text::opt_view(self.replicatefrom),
        }
    }
}

/// Decides who replicates from whom.
pub struct CascadeManager;

/// The member that holds the leader lock.
pub open spec fn primary_index(c: Cluster) -> Option<int> {
    match c.leader {
        Some(l) => cluster::first_index(c.members@, cluster::named(l.name@)),
        None => None,
    }
}

/// There is a member with this name, and it runs.
pub open spec fn source_healthy(c: Cluster, name: Seq<char>) -> bool {
    match cluster::first_index(c.members@, cluster::named(name)) {
        Some(i) => c.members@[i].state == MemberState::Running,
        None => false,
    }
}

/// The member that `name` replicates from: the one that its tag names, if that is another one and
/// runs, else the one that holds the leader lock.
pub open spec fn upstream_index(c: Cluster, name: Seq<char>, tag: Option<Seq<char>>) -> Option<int> {
    match tag {
        Some(source) => if source != name && source_healthy(c, source) {
            cluster::first_index(c.members@, cluster::named(source))
        } else {
            primary_index(c)
        },
        None => primary_index(c),
    }
}

/// The name of the leader.
pub open spec fn leader_name(c: Cluster) -> Option<Seq<char>> {
    match c.leader {
        Some(l) => Some(l.name@),
        None => None,
    }
}

/// The node that the tag of a member names.
pub open spec fn replicatefrom_tag(m: Member) -> Option<Seq<char>> {
    if m.tags@.dom().contains("replicatefrom"@) {
        json::text_of(m.tags@["replicatefrom"@])
    } else {
        None
    }
}

/// A member in the topology: the leader has no upstream; another member replicates from the node
/// that its tag names, if that is another one and runs, else from the leader.
pub open spec fn node_of(c: Cluster, m: Member) -> CascadeView {
    if leader_name(c) == Some(m.name@) {
        CascadeView {
            name: m.name@,
            role: cluster::role_text(m.role),
            upstream: None,
            replicatefrom: None,
        }
    } else {
        let tag = replicatefrom_tag(m);
        CascadeView {
            name: m.name@,
            role: cluster::role_text(m.role),
            upstream: if tag is Some && source_healthy(c, tag->0) && tag->0 != m.name@ {
                tag
            } else {
                leader_name(c)
            },
            replicatefrom: tag,
        }
    }
}

/// The connection of a replica to the member that it streams from.
pub open spec fn primary_conninfo(
    conn_url: Seq<char>,
    user: Seq<char>,
    password: Option<Seq<char>>,
    name: Seq<char>,
) -> Seq<char> {
    "host="@ + connstr::last_value(text::words(conn_url), "host="@, "127.0.0.1"@) + " port="@
        + text::dec(conn_port(conn_url)) + " user="@ + user + " application_name="@ + name + (
    match password {
        Some(p) => " password="@ + p,
        None => Seq::empty(),
    })
}

/// The port of a connection string; the usual one where it names none that is one.
pub open spec fn conn_port(conn_url: Seq<char>) -> nat {
    connstr::port_or_default(connstr::last_value(text::words(conn_url), "port="@, "5432"@))
}

fn leader_name_of(cluster: &Cluster) -> (r: Option<String>)
    ensures
        text::opt_view(r) == leader_name(*cluster),
{
    match &cluster.leader {
        Some(l) => Some(l.name.clone()),
        None => None,
    }
}

impl CascadeManager {
    /// The position of the member that holds the leader lock.
    fn get_primary_member(cluster: &Cluster) -> (r: Option<usize>)
        ensures
            match r {
                Some(i) => primary_index(*cluster) == Some(i as int) && i < cluster.members@.len(),
                None => primary_index(*cluster) is None,
            },
    {
        match &cluster.leader {
            Some(leader) => cluster.member_index(leader.name.as_str()),
            None => None,
        }
    }

    /// The position of the member that `member_name` replicates from.
    pub fn select_upstream_index(
        member_name: &str,
        replicatefrom: Option<&str>,
        cluster: &Cluster,
    ) -> (r: Option<usize>)
        ensures
            match r {
                Some(i) => upstream_index(
                    *cluster,
                    member_name@,
                    text::opt_str_view(replicatefrom),
                ) == Some(i as int) && i < cluster.members@.len(),
                None => upstream_index(
                    *cluster,
                    member_name@,
                    text::opt_str_view(replicatefrom),
                ) is None,
            },
    {
        if let Some(source_name) = replicatefrom {
            if !str_eq(source_name, member_name) {
                if let Some(i) = cluster.member_index(source_name) {
                    if cluster.members[i].state == MemberState::Running {
                        return Some(i);
                    }
                }
            }
        }
        CascadeManager::get_primary_member(cluster)
    }

    /// The member that `member_name` replicates from.
    pub fn select_upstream<'a>(
        member_name: &str,
        replicatefrom: Option<&str>,
        cluster: &'a Cluster,
    ) -> (r: Option<&'a Member>)
        ensures
            match r {
                Some(m) => ({
                    let i = upstream_index(
                        *cluster,
                        member_name@,
                        text::opt_str_view(replicatefrom),
                    );
                    i is Some && *m == cluster.members@[i->0]
                }),
                None => upstream_index(
                    *cluster,
                    member_name@,
                    text::opt_str_view(replicatefrom),
                ) is None,
            },
    {
        match CascadeManager::select_upstream_index(member_name, replicatefrom, cluster) {
            Some(i) => Some(&cluster.members[i]),
            None => None,
        }
    }

    /// The connection of a replica to the member that it streams from.
    pub fn build_primary_conninfo(
        upstream: &Member,
        replication_user: &str,
        replication_password: Option<&str>,
        application_name: &str,
    ) -> (r: String)
        ensures
            r@ == primary_conninfo(
                upstream.conn_url@,
                replication_user@,
                text::opt_str_view(replication_password),
                application_name@,
            ),
    {
        let (host, port) = CascadeManager::parse_host_port_from_conn_url(
            upstream.conn_url.as_str(),
        );
        let mut r = "host=".to_string();
        r.append(host.as_str());
        r.append(" port=");
        r.append(u64_to_string(port as u64).as_str());
        r.append(" user=");
        r.append(replication_user);
        r.append(" application_name=");
        r.append(application_name);
        if let Some(password) = replication_password {
            r.append(" password=");
            r.append(password);
        }
        assert(r@ =~= primary_conninfo(
            upstream.conn_url@,
            replication_user@,
            text::opt_str_view(replication_password),
            application_name@,
        ));
        r
    }

    /// Whether a member with this name exists and runs.
    pub fn is_cascade_source_healthy(source_name: &str, cluster: &Cluster) -> (r: bool)
        ensures
            r == source_healthy(*cluster, source_name@),
    {
        match cluster.member_index(source_name) {
            Some(i) => cluster.members[i].state == MemberState::Running,
            None => false,
        }
    }

    /// Who replicates from whom, in the order of the members.
    pub fn build_cascade_topology(cluster: &Cluster) -> (r: Vec<CascadeNode>)
        ensures
            r@.len() == cluster.members@.len(),
            forall|i: int|
                0 <= i < r@.len() ==> (#[trigger] r@[i])@ == node_of(
                    *cluster,
                    cluster.members@[i],
                ),
    {
        let primary_name = leader_name_of(cluster);
        let mut out: Vec<CascadeNode> = Vec::new();
        let mut i: usize = 0;
        while i < cluster.members.len()
            invariant
                i <= cluster.members@.len(),
                out@.len() == i,
                text::opt_view(primary_name) == leader_name(*cluster),
                forall|j: int|
                    0 <= j < i ==> (#[trigger] out@[j])@ == node_of(*cluster, cluster.members@[j]),
            decreases cluster.members@.len() - i,
        {
            let member = &cluster.members[i];
            let is_primary = match &primary_name {
                Some(n) => str_eq(n.as_str(), member.name.as_str()),
                None => false,
            };
            let node = if is_primary {
                CascadeNode {
                    name: member.name.clone(),
                    role: member.role.as_str().to_string(),
                    upstream: None,
                    replicatefrom: None,
                }
            } else {
                let tag: Option<String> = match member.tags.get("replicatefrom") {
                    Some(v) => match v.as_str() {
                        Some(s) => Some(s.to_string()),
                        None => None,
                    },
                    None => None,
                };
                assert(text::opt_view(tag) == replicatefrom_tag(*member));
                let upstream: Option<String> = match &tag {
                    Some(source) => {
                        if CascadeManager::is_cascade_source_healthy(source.as_str(), cluster)
                            && !str_eq(source.as_str(), member.name.as_str()) {
                            Some(source.clone())
                        } else {
                            leader_name_of(cluster)
                        }
                    },
                    None => leader_name_of(cluster),
                };
                CascadeNode {
                    name: member.name.clone(),
                    role: member.role.as_str().to_string(),
                    upstream,
                    replicatefrom: tag,
                }
            };
            assert(node@ =~= node_of(*cluster, *member));
            out.push(node);
            i = i + 1;
        }
        out
    }

    /// The host and port of a connection string; the usual ones where it names none.
    pub fn parse_host_port_from_conn_url(conn_url: &str) -> (r: (String, u16))
        ensures
            r.0@ == connstr::last_value(text::words(conn_url@), "host="@, "127.0.0.1"@),
            r.1 == conn_port(conn_url@),
    {
        let host = find_last(conn_url, "host=", "127.0.0.1");
        let port_text = find_last(conn_url, "port=", "5432");
        let port: u16 = match parse_u16(port_text.as_str()) {
            Some(n) => n,
            None => 5432,
        };
        (host, port)
    }
}

// ---------------------------------------------------------------------------------------------
// Laws
// ---------------------------------------------------------------------------------------------
/// Where the node that a tag names does not run, is unknown or is the member itself, the member
/// replicates as if it had no tag.
pub proof fn law_bad_source_falls_back(c: Cluster, name: Seq<char>, source: Seq<char>)
    requires
        source == name || !source_healthy(c, source),
    ensures
        upstream_index(c, name, Some(source)) == upstream_index(c, name, None),
{
}

/// The upstream in the topology is the member that `select_upstream` finds: a member that is not
/// the leader shows that member's name, where there is one.
pub proof fn law_topology_shows_upstream(c: Cluster, m: Member)
    requires
        leader_name(c) != Some(m.name@),
        upstream_index(c, m.name@, replicatefrom_tag(m)) is Some,
    ensures
        node_of(c, m).upstream == Some(
            c.members@[upstream_index(c, m.name@, replicatefrom_tag(m))->0].name@,
        ),
{
    let tag = replicatefrom_tag(m);
    if tag is Some && tag->0 != m.name@ && source_healthy(c, tag->0) {
        cluster::lemma_first_index(c.members@, cluster::named(tag->0));
    } else {
        cluster::lemma_first_index(c.members@, cluster::named(c.leader->0.name@));
    }
}

/// A member that names another one that runs replicates from that one; any other replicates from the
/// holder of the lock, and from nobody where there is none among the members.
pub proof fn law_tagged_source_is_followed(
    c: Cluster,
    name: Seq<char>,
    source: Seq<char>,
    i: int,
)
    requires
        0 <= i < c.members@.len(),
        forall|j: int| 0 <= j < i ==> (#[trigger] c.members@[j]).name@ != c.members@[i].name@,
    ensures
        c.members@[i].name@ == source && source != name && c.members@[i].state
            == MemberState::Running ==> upstream_index(c, name, Some(source)) == Some(i),
        c.leader is Some && c.leader->0.name@ == c.members@[i].name@ ==> upstream_index(
            c,
            name,
            None,
        ) == Some(i),
        c.leader is None ==> upstream_index(c, name, None) is None,
        c.members@[i].name@ == source && c.members@[i].state != MemberState::Running
            ==> upstream_index(c, name, Some(source)) == upstream_index(c, name, None),
        upstream_index(c, source, Some(source)) == upstream_index(c, source, None),
{
    let p = cluster::named(c.members@[i].name@);
    cluster::lemma_first_index(c.members@, p);
    assert(p(c.members@[i]));
    let k = cluster::first_index(c.members@, p)->0;
    if k < i {
        assert(c.members@[k].name@ != c.members@[i].name@);
    }
    if i < k {
        assert(!p(c.members@[i]));
    }
}

/// In the topology the holder of the lock has no upstream, and any other member has one wherever
/// there is a holder.
pub proof fn law_only_the_leader_has_no_upstream(c: Cluster, m: Member)
    requires
        c.leader is Some,
    ensures
        node_of(c, m).upstream is None <==> m.name@ == c.leader->0.name@,
        node_of(c, m).name == m.name@,
        node_of(c, m).role == cluster::role_text(m.role),
        node_of(c, m).upstream != Some(m.name@),
{
}

/// A source of replication is usable exactly where the first member of that name runs; where no
/// member has the name it is not.
pub proof fn law_source_must_run(c: Cluster, name: Seq<char>, i: int)
    ensures
        (forall|j: int| 0 <= j < c.members@.len() ==> (#[trigger] c.members@[j]).name@ != name)
            ==> !source_healthy(c, name),
        0 <= i < c.members@.len() && c.members@[i].name@ == name && (forall|j: int|
            0 <= j < i ==> (#[trigger] c.members@[j]).name@ != name) ==> (source_healthy(c, name)
            <==> c.members@[i].state == MemberState::Running),
{
    let p = cluster::named(name);
    cluster::lemma_first_index(c.members@, p);
    if 0 <= i < c.members@.len() && c.members@[i].name@ == name {
        assert(p(c.members@[i]));
    }
}

} // verus!
