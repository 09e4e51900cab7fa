//! Which PostgreSQL a connection goes to.
//!
//! Connections for writing go to the primary, those for reading to the replicas in turn. Backends
//! are checked all the time: one goes down after a number of failed checks in a row, and up after
//! a number of good ones.

use vstd::prelude::*;

use crate::strmap;
use crate::strmap::StringMap;
use crate::text;
use crate::text::{chars_of, str_eq};

verus! {

/// How backends are checked.
#[derive(Debug, Clone, Copy, PartialEq, Eq, Structural)]
pub struct HealthCheckConfig {
    /// Seconds between two checks.
    pub interval: u64,
    /// After how many failed checks in a row a backend is down.
    pub fall: u32,
    /// After how many good checks in a row a backend is up.
    pub rise: u32,
    /// Seconds that a check may take.
    pub timeout: u64,
    /// How many connections a backend may have.
    pub max_connections: usize,
    /// Whether the connections of a backend that goes down are closed.
    pub shutdown_on_down: bool,
}

impl Default for HealthCheckConfig {
    fn default() -> (r: Self)
        ensures
            r == (HealthCheckConfig {
                interval: 3,
                fall: 3,
                rise: 2,
                timeout: 5,
                max_connections: 300,
                shutdown_on_down: true,
            }),
    {
        HealthCheckConfig {
            interval: 3,
            fall: 3,
            rise: 2,
            timeout: 5,
            max_connections: 300,
            shutdown_on_down: true,
        }
    }
}

/// The address of a backend.
#[derive(Debug)]
pub struct BackendAddr {
    pub ip: String,
    pub port: u16,
}

impl Clone for BackendAddr {
    fn clone(&self) -> (r: Self)
        ensures
            r == *self,
    {
        BackendAddr { ip: self.ip.clone(), port: self.port }
    }
}

/// A PostgreSQL that connections can go to.
#[derive(Debug)]
pub struct PgBackend {
    pub addr: BackendAddr,
    pub name: String,
    pub is_primary: bool,
    pub is_healthy: bool,
    /// Where its agent answers; empty if that is not known.
    pub api_url: String,
}

impl Clone for PgBackend {
    fn clone(&self) -> (r: Self)
        ensures
            r == *self,
    {
        PgBackend {
            addr: self.addr.clone(),
            name: self.name.clone(),
            is_primary: self.is_primary,
            is_healthy: self.is_healthy,
            api_url: self.api_url.clone(),
        }
    }
}

/// The backends that connections can go to.
#[derive(Debug)]
pub struct UpstreamState {
    pub backends: Vec<PgBackend>,
}

impl Default for UpstreamState {
    fn default() -> (r: Self)
        ensures
            r.backends@.len() == 0,
    {
        UpstreamState { backends: Vec::new() }
    }
}

/// The backend is up as primary.
pub open spec fn up_primary(b: PgBackend) -> bool {
    b.is_primary && b.is_healthy
}

/// The backend is up as a replica.
pub open spec fn up_replica() -> spec_fn(PgBackend) -> bool {
    |b: PgBackend| !b.is_primary && b.is_healthy
}

/// The first backend that is up as primary stands at `i`.
pub open spec fn is_first_primary(s: Seq<PgBackend>, i: int) -> bool {
    0 <= i < s.len() && up_primary(s[i]) && forall|j: int|
        0 <= j < i ==> !up_primary(#[trigger] s[j])
}

/// What connections are for.
#[derive(Debug, Clone, Copy, PartialEq, Eq, Structural)]
pub enum ProxyMode {
    ReadWrite,
    ReadOnly,
}

/// The backend `b` is the one that the connection with this number goes to.
pub open spec fn is_choice(s: Seq<PgBackend>, mode: ProxyMode, counter: nat, b: PgBackend) -> bool {
    let replicas = s.filter(up_replica());
    if mode == ProxyMode::ReadOnly && replicas.len() > 0 {
        b == replicas[counter as int % replicas.len() as int]
    } else {
        exists|i: int| #[trigger] is_first_primary(s, i) && s[i] == b
    }
}

/// There is a backend for a connection.
pub open spec fn has_choice(s: Seq<PgBackend>, mode: ProxyMode) -> bool {
    (mode == ProxyMode::ReadOnly && s.filter(up_replica()).len() > 0) || exists|i: int|
        0 <= i < s.len() && up_primary(#[trigger] s[i])
}

impl UpstreamState {
    /// The backend that is up as primary; the first, if there are several.
    pub fn primary(&self) -> (r: Option<&PgBackend>)
        ensures
            match r {
                Some(b) => exists|i: int| #[trigger]
                    is_first_primary(self.backends@, i) && self.backends@[i] == *b,
                None => forall|j: int|
                    0 <= j < self.backends@.len() ==> !up_primary(#[trigger] self.backends@[j]),
            },
    {
        let mut i: usize = 0;
        while i < self.backends.len()
            invariant
                i <= self.backends@.len(),
                forall|j: int| 0 <= j < i ==> !up_primary(#[trigger] self.backends@[j]),
            decreases self.backends@.len() - i,
        {
            if self.backends[i].is_primary && self.backends[i].is_healthy {
                assert(is_first_primary(self.backends@, i as int));
                return Some(&self.backends[i]);
            }
            i = i + 1;
        }
        None
    }

    /// The backends that are up as replicas, in order.
    pub fn replicas(&self) -> (r: Vec<&PgBackend>)
        ensures
            r@.len() == self.backends@.filter(up_replica()).len(),
            forall|i: int|
                0 <= i < r@.len() ==> *(#[trigger] r@[i]) == self.backends@.filter(up_replica())[i],
    {
        let mut out: Vec<&PgBackend> = Vec::new();
        let ghost s = self.backends@;
        let mut i: usize = 0;
        proof {
            reveal(Seq::filter);
            assert(s.take(0) =~= Seq::empty());
        }
        while i < self.backends.len()
            invariant
                i <= self.backends@.len(),
                s == self.backends@,
                out@.len() == s.take(i as int).filter(up_replica()).len(),
                forall|j: int|
                    0 <= j < out@.len() ==> *(#[trigger] out@[j]) == s.take(i as int).filter(
                        up_replica(),
                    )[j],
            decreases self.backends@.len() - i,
        {
            proof {
                reveal(Seq::filter);
                assert(s.take(i + 1).drop_last() =~= s.take(i as int));
                assert(s.take(i + 1).last() == s[i as int]);
            }
            if !self.backends[i].is_primary && self.backends[i].is_healthy {
                out.push(&self.backends[i]);
            }
            i = i + 1;
        }
        assert(s.take(i as int) =~= s);
        out
    }

    /// The backend that the connection with this number goes to.
    pub fn select(&self, mode: ProxyMode, counter: usize) -> (r: Option<&PgBackend>)
        ensures
            match r {
                Some(b) => is_choice(self.backends@, mode, counter as nat, *b) && has_choice(
                    self.backends@,
                    mode,
                ),
                None => !has_choice(self.backends@, mode),
            },
    {
        match mode {
            ProxyMode::ReadWrite => self.primary(),
            ProxyMode::ReadOnly => {
                let replicas = self.replicas();
                if replicas.len() == 0 {
                    self.primary()
                } else {
                    let i: usize = counter % replicas.len();
                    Some(replicas[i])
                }
            },
        }
    }
}

// ---------------------------------------------------------------------------------------------
// Checks
// ---------------------------------------------------------------------------------------------
/// What the checks of one kind have shown of a backend.
#[derive(Debug, Clone, Copy, PartialEq, Eq, Structural)]
pub struct Track {
    pub healthy: bool,
    /// Failed checks in a row.
    pub fails: u32,
    /// Good checks in a row.
    pub successes: u32,
}

/// Nothing is known of a backend yet, so it is down.
pub open spec fn unchecked() -> Track {
    Track { healthy: false, fails: 0, successes: 0 }
}

/// What is known after one more check.
pub open spec fn observed(t: Track, ok: bool, rise: u32, fall: u32) -> Track {
    if ok {
        Track {
            healthy: t.healthy || t.successes + 1 >= rise,
            fails: 0,
            successes: (t.successes + 1) as u32,
        }
    } else {
        Track {
            healthy: t.healthy && t.fails + 1 < fall,
            fails: (t.fails + 1) as u32,
            successes: 0,
        }
    }
}

impl Track {
    /// Takes one more check into account.
    pub fn observe(&mut self, ok: bool, rise: u32, fall: u32)
        requires
            old(self).fails < u32::MAX,
            old(self).successes < u32::MAX,
        ensures
            *final(self) == observed(*old(self), ok, rise, fall),
    {
        if ok {
            self.fails = 0;
            self.successes = self.successes + 1;
            if !self.healthy && self.successes >= rise {
                self.healthy = true;
            }
        } else {
            self.successes = 0;
            self.fails = self.fails + 1;
            if self.healthy && self.fails >= fall {
                self.healthy = false;
            }
        }
    }
}

/// A backend that is checked: for writing, whether it is primary, and for reading, whether it is a
/// replica.
#[derive(Debug)]
pub struct BackendHealth {
    pub addr: BackendAddr,
    pub api_url: String,
    pub name: String,
    pub rw: Track,
    pub ro: Track,
}

/// The contents of a [`BackendHealth`].
pub struct HealthView {
    pub ip: Seq<char>,
    pub port: u16,
    pub api_url: Seq<char>,
    pub name: Seq<char>,
    pub rw: Track,
    pub ro: Track,
}

impl View for BackendHealth {
    type V = HealthView;

    open spec fn view(&self) -> HealthView {
        HealthView {
            ip: self.addr.ip@,
            port: self.addr.port,
            api_url: self.api_url@,
            name: self.name@,
            rw: self.rw,
            ro: self.ro,
        }
    }
}

impl Clone for BackendHealth {
    fn clone(&self) -> (r: Self)
        ensures
            r@ == self@,
    {
        BackendHealth {
            addr: self.addr.clone(),
            api_url: self.api_url.clone(),
            name: self.name.clone(),
            rw: self.rw,
            ro: self.ro,
        }
    }
}

/// What a check of a backend has shown.
#[derive(Debug)]
pub struct CheckResult {
    pub name: String,
    /// It is primary.
    pub rw_ok: bool,
    /// It is a replica.
    pub ro_ok: bool,
}

/// A backend after a check.
pub open spec fn checked(h: HealthView, r: CheckResult, c: HealthCheckConfig) -> HealthView {
    HealthView {
        rw: observed(h.rw, r.rw_ok, c.rise, c.fall),
        ro: observed(h.ro, r.ro_ok, c.rise, c.fall),
        ..h
    }
}

/// The backends after checks of some of them, one after the other.
pub open spec fn all_checked(
    h: Map<Seq<char>, HealthView>,
    results: Seq<CheckResult>,
    c: HealthCheckConfig,
) -> Map<Seq<char>, HealthView>
    decreases results.len(),
{
    if results.len() == 0 {
        h
    } else {
        let before = all_checked(h, results.drop_last(), c);
        let r = results.last();
        if before.dom().contains(r.name@) {
            before.insert(r.name@, checked(before[r.name@], r, c))
        } else {
            before
        }
    }
}

/// The check `r` brings a backend up or down.
pub open spec fn turns(h: Map<Seq<char>, HealthView>, r: CheckResult, c: HealthCheckConfig) -> bool {
    h.dom().contains(r.name@) && ({
        let before = h[r.name@];
        let after = checked(before, r, c);
        before.rw.healthy != after.rw.healthy || before.ro.healthy != after.ro.healthy
    })
}

/// The check `r` brings a backend down.
pub open spec fn falls(h: Map<Seq<char>, HealthView>, r: CheckResult, c: HealthCheckConfig) -> bool {
    h.dom().contains(r.name@) && ({
        let before = h[r.name@];
        let after = checked(before, r, c);
        (before.rw.healthy && !after.rw.healthy) || (before.ro.healthy && !after.ro.healthy)
    })
}

/// One of the checks brings a backend up or down.
pub open spec fn any_turns(
    h: Map<Seq<char>, HealthView>,
    results: Seq<CheckResult>,
    c: HealthCheckConfig,
) -> bool
    decreases results.len(),
{
    results.len() > 0 && (any_turns(h, results.drop_last(), c) || turns(
        all_checked(h, results.drop_last(), c),
        results.last(),
        c,
    ))
}

/// The backends that the checks bring down, if their connections are to be closed.
pub open spec fn closing(
    h: Map<Seq<char>, HealthView>,
    results: Seq<CheckResult>,
    c: HealthCheckConfig,
) -> Seq<Seq<char>>
    decreases results.len(),
{
    if results.len() == 0 {
        Seq::empty()
    } else {
        let before = closing(h, results.drop_last(), c);
        if c.shutdown_on_down && falls(all_checked(h, results.drop_last(), c), results.last(), c) {
            before.push(results.last().name@)
        } else {
            before
        }
    }
}

/// The backend `b` is what a checked one counts as: primary if it is up for writing, replica if it
/// is up for reading only.
pub open spec fn stands_for(b: PgBackend, h: HealthView) -> bool {
    &&& b.addr.ip@ == h.ip
    &&& b.addr.port == h.port
    &&& b.name@ == h.name
    &&& b.api_url@ == h.api_url
    &&& b.is_primary == h.rw.healthy
    &&& b.is_healthy == (h.rw.healthy || h.ro.healthy)
}

/// Each backend that is checked is known under its own name.
pub open spec fn names_fit(h: Map<Seq<char>, HealthView>) -> bool {
    forall|k: Seq<char>| #[trigger] h.dom().contains(k) ==> h[k].name == k
}

/// The backends that connections can go to are as the checks have found them: primary if up for
/// writing, and up if up for writing or for reading.
pub open spec fn goes_by_checks(s: Seq<PgBackend>, h: Map<Seq<char>, HealthView>) -> bool {
    forall|i: int|
        0 <= i < s.len() && h.dom().contains((#[trigger] s[i]).name@) ==> {
            &&& s[i].is_primary == h[s[i].name@].rw.healthy
            &&& s[i].is_healthy == (h[s[i].name@].rw.healthy || h[s[i].name@].ro.healthy)
        }
}

/// The backends that connections can go to are exactly those that are checked.
pub open spec fn same_backends(s: Seq<PgBackend>, h: Map<Seq<char>, HealthView>) -> bool {
    forall|k: Seq<char>| #[trigger] h.dom().contains(k) <==> lists(s, k)
}

/// Every counter of every backend can still count.
pub open spec fn countable(h: Map<Seq<char>, HealthView>, n: nat) -> bool {
    forall|k: Seq<char>| #[trigger]
        h.dom().contains(k) ==> h[k].rw.fails + n <= u32::MAX && h[k].rw.successes + n <= u32::MAX
            && h[k].ro.fails + n <= u32::MAX && h[k].ro.successes + n <= u32::MAX
}

/// Where the agent of a backend answers.
pub open spec fn check_url(b: PgBackend) -> Seq<char> {
    if b.api_url@.len() == 0 {
        "http://"@ + b.addr.ip@ + ":8008"@
    } else {
        b.api_url@
    }
}

/// A backend is registered: a known one gets its new address and keeps what the checks have shown.
pub open spec fn registered(h: Map<Seq<char>, HealthView>, b: PgBackend) -> Map<
    Seq<char>,
    HealthView,
> {
    let known = h.dom().contains(b.name@);
    h.insert(
        b.name@,
        HealthView {
            ip: b.addr.ip@,
            port: b.addr.port,
            api_url: check_url(b),
            name: if known {
                h[b.name@].name
            } else {
                b.name@
            },
            rw: if known {
                h[b.name@].rw
            } else {
                unchecked()
            },
            ro: if known {
                h[b.name@].ro
            } else {
                unchecked()
            },
        },
    )
}

/// Backends are registered, one after the other.
pub open spec fn all_registered(h: Map<Seq<char>, HealthView>, bs: Seq<PgBackend>) -> Map<
    Seq<char>,
    HealthView,
>
    decreases bs.len(),
{
    if bs.len() == 0 {
        h
    } else {
        registered(all_registered(h, bs.drop_last()), bs.last())
    }
}

/// One of the backends has this name.
pub open spec fn lists(bs: Seq<PgBackend>, name: Seq<char>) -> bool {
    exists|i: int| 0 <= i < bs.len() && (#[trigger] bs[i]).name@ == name
}

/// The backends that are checked once those of the cluster are `bs`: these, and no others.
pub open spec fn refreshed(h: Map<Seq<char>, HealthView>, bs: Seq<PgBackend>) -> Map<
    Seq<char>,
    HealthView,
> {
    all_registered(h, bs).restrict(Set::new(|n: Seq<char>| lists(bs, n)))
}

/// Where a connection goes.
#[derive(Debug)]
pub enum Route {
    /// Nowhere: no backend is up.
    Nowhere,
    /// Nowhere: the backend of this name is not known any longer.
    Unknown(String),
    /// To the backend of this name at this address.
    To(String, BackendAddr),
}

/// The proxy of a node.
#[derive(Debug)]
pub struct PgProxy {
    /// Where connections for writing come in.
    pub rw_addr: BackendAddr,
    /// Where connections for reading come in.
    pub ro_addr: BackendAddr,
    pub upstream: UpstreamState,
    /// What the checks have shown, by the names of the backends.
    pub health_state: StringMap<BackendHealth>,
    pub health_config: HealthCheckConfig,
}

fn find_check_url(b: &PgBackend) -> (r: String)
    ensures
        r@ == check_url(*b),
{
    let u = chars_of(b.api_url.as_str());
    if u.len() == 0 {
        let mut r = "http://".to_string();
        r.append(b.addr.ip.as_str());
        r.append(":8008");
        r
    } else {
        b.api_url.clone()
    }
}

fn register(h: &mut StringMap<BackendHealth>, b: &PgBackend)
    ensures
        final(h)@ == registered(old(h)@, *b),
{
    let api_url = find_check_url(b);
    let entry = match h.get(b.name.as_str()) {
        Some(known) => BackendHealth {
            addr: b.addr.clone(),
            api_url,
            name: known.name.clone(),
            rw: known.rw,
            ro: known.ro,
        },
        None => BackendHealth {
            addr: b.addr.clone(),
            api_url,
            name: b.name.clone(),
            rw: Track { healthy: false, fails: 0, successes: 0 },
            ro: Track { healthy: false, fails: 0, successes: 0 },
        },
    };
    h.insert(b.name.clone(), entry);
}

fn is_listed(bs: &Vec<PgBackend>, name: &str) -> (r: bool)
    ensures
        r == lists(bs@, name@),
{
    let mut i: usize = 0;
    while i < bs.len()
        invariant
            i <= bs@.len(),
            forall|j: int| 0 <= j < i ==> (#[trigger] bs@[j]).name@ != name@,
        decreases bs@.len() - i,
    {
        if str_eq(bs[i].name.as_str(), name) {
            return true;
        }
        i = i + 1;
    }
    false
}

/// Keeps the entries whose names are listed.
fn retain(h: &StringMap<BackendHealth>, bs: &Vec<PgBackend>) -> (r: StringMap<BackendHealth>)
    ensures
        r@ == h@.restrict(Set::new(|n: Seq<char>| lists(bs@, n))),
{
    let mut out: StringMap<BackendHealth> = StringMap::new();
    let n: usize = h.len();
    let ghost p = h.pairs();
    let ghost keep = Set::new(|n: Seq<char>| lists(bs@, n));
    let mut i: usize = 0;
    assert(out@ =~= strmap::map_of(p.take(0)).restrict(keep));
    while i < n
        invariant
            i <= n,
            n == p.len(),
            p == h.pairs(),
            keep == Set::new(|n: Seq<char>| lists(bs@, n)),
            out@ == strmap::map_of(p.take(i as int)).restrict(keep),
        decreases n - i,
    {
        let ghost t = p.take(i + 1);
        proof {
            assert(t.drop_last() =~= p.take(i as int));
            assert(t.last() == p[i as int]);
        }
        if is_listed(bs, h.key_at(i).as_str()) {
            out.insert(h.key_at(i).clone(), h.value_at(i).clone());
            assert(out@ =~= strmap::map_of(t).restrict(keep));
        } else {
            assert(out@ =~= strmap::map_of(t).restrict(keep)) by {
                let m = strmap::map_of(p.take(i as int));
                let k = p[i as int].0;
                assert(!keep.contains(k));
                assert(m.insert(k, p[i as int].1).restrict(keep) =~= m.restrict(keep));
            }
        }
        i = i + 1;
    }
    assert(p.take(n as int) =~= p);
    out
}

impl PgProxy {
    /// A proxy that knows no backend, with the usual checks.
    pub fn new(rw_addr: BackendAddr, ro_addr: BackendAddr) -> (r: Self)
        ensures
            r.rw_addr == rw_addr,
            r.ro_addr == ro_addr,
            r.upstream.backends@.len() == 0,
            r.health_state@ == Map::<Seq<char>, HealthView>::empty(),
            r.health_config == (HealthCheckConfig {
                interval: 3,
                fall: 3,
                rise: 2,
                timeout: 5,
                max_connections: 300,
                shutdown_on_down: true,
            }),
    {
        PgProxy::with_health_config(rw_addr, ro_addr, HealthCheckConfig::default())
    }

    /// A proxy that knows no backend.
    pub fn with_health_config(
        rw_addr: BackendAddr,
        ro_addr: BackendAddr,
        health_config: HealthCheckConfig,
    ) -> (r: Self)
        ensures
            r.rw_addr == rw_addr,
            r.ro_addr == ro_addr,
            r.upstream.backends@.len() == 0,
            r.health_state@ == Map::<Seq<char>, HealthView>::empty(),
            r.health_config == health_config,
    {
        PgProxy {
            rw_addr,
            ro_addr,
            upstream: UpstreamState::default(),
            health_state: StringMap::new(),
            health_config,
        }
    }

    /// The backends of the cluster are these. Until the first of them was registered they are used
    /// as they are; afterwards the checks alone say which are up.
    pub fn update_backends(&mut self, backends: Vec<PgBackend>)
        ensures
            final(self).health_state@ == refreshed(old(self).health_state@, backends@),
            final(self).health_config == old(self).health_config,
            final(self).rw_addr == old(self).rw_addr,
            final(self).ro_addr == old(self).ro_addr,
            old(self).health_state@ == Map::<Seq<char>, HealthView>::empty()
                ==> final(self).upstream.backends == backends,
            old(self).health_state@ != Map::<Seq<char>, HealthView>::empty()
                ==> final(self).upstream == old(self).upstream,
            names_fit(old(self).health_state@) ==> names_fit(final(self).health_state@),
    {
        let fresh = self.health_state.is_empty();
        let mut i: usize = 0;
        let ghost before = self.health_state@;
        assert(backends@.take(0) =~= Seq::empty());
        while i < backends.len()
            invariant
                i <= backends@.len(),
                self.health_state@ == all_registered(before, backends@.take(i as int)),
                self.health_config == old(self).health_config,
                self.rw_addr == old(self).rw_addr,
                self.ro_addr == old(self).ro_addr,
                self.upstream == old(self).upstream,
            decreases backends@.len() - i,
        {
            assert(backends@.take(i + 1).drop_last() =~= backends@.take(i as int));
            register(&mut self.health_state, &backends[i]);
            i = i + 1;
        }
        assert(backends@.take(i as int) =~= backends@);
        self.health_state = retain(&self.health_state, &backends);
        proof {
            if names_fit(before) {
                lemma_names_fit(before, backends@);
            }
        }
        if fresh {
            self.upstream.backends = backends;
        }
    }

    /// Whether every counter can count `n` more checks.
    pub fn can_count(&self, n: u32) -> (r: bool)
        ensures
            r == countable(self.health_state@, n as nat),
    {
        let len: usize = self.health_state.len();
        let ghost p = self.health_state.pairs();
        let room: u32 = u32::MAX - n;
        proof {
            strmap::lemma_map_of(p);
        }
        let mut i: usize = 0;
        while i < len
            invariant
                i <= len,
                len == p.len(),
                p == self.health_state.pairs(),
                room == u32::MAX - n,
                forall|j: int|
                    0 <= j < p.len() ==> self.health_state@.dom().contains((#[trigger] p[j]).0)
                        && self.health_state@[p[j].0] == p[j].1,
                forall|j: int|
                    0 <= j < i ==> (#[trigger] p[j]).1.rw.fails <= room && p[j].1.rw.successes
                        <= room && p[j].1.ro.fails <= room && p[j].1.ro.successes <= room,
            decreases len - i,
        {
            let b = self.health_state.value_at(i);
            if b.rw.fails > room || b.rw.successes > room || b.ro.fails > room || b.ro.successes
                > room {
                assert(self.health_state@.dom().contains(p[i as int].0));
                return false;
            }
            i = i + 1;
        }
        proof {
            assert forall|k: Seq<char>| #[trigger]
                self.health_state@.dom().contains(k) implies self.health_state@[k].rw.fails + n
                <= u32::MAX && self.health_state@[k].rw.successes + n <= u32::MAX
                && self.health_state@[k].ro.fails + n <= u32::MAX
                && self.health_state@[k].ro.successes + n <= u32::MAX by {
                assert(strmap::has_key(p, k));
                let j = choose|j: int| 0 <= j < p.len() && (#[trigger] p[j]).0 == k;
                assert(self.health_state@[p[j].0] == p[j].1);
            }
        }
        true
    }

    /// Takes a round of checks into account; returns the backends whose connections are to be
    /// closed. If one goes up or down, connections go by the checks from then on.
    pub fn apply_checks(&mut self, results: &Vec<CheckResult>) -> (r: Vec<String>)
        requires
            countable(old(self).health_state@, results@.len()),
        ensures
            final(self).health_state@ == all_checked(
                old(self).health_state@,
                results@,
                old(self).health_config,
            ),
            text::strs(r@) == closing(
                old(self).health_state@,
                results@,
                old(self).health_config,
            ),
            final(self).health_config == old(self).health_config,
            final(self).rw_addr == old(self).rw_addr,
            final(self).ro_addr == old(self).ro_addr,
            if any_turns(old(self).health_state@, results@, old(self).health_config) {
                &&& final(self).upstream.backends@.len() == final(self).health_state.pairs().len()
                &&& forall|i: int|
                    0 <= i < final(self).upstream.backends@.len() ==> stands_for(
                        #[trigger] final(self).upstream.backends@[i],
                        final(self).health_state.pairs()[i].1,
                    )
            } else {
                final(self).upstream == old(self).upstream
            },
            names_fit(old(self).health_state@) ==> names_fit(final(self).health_state@),
            names_fit(old(self).health_state@) && differ(
                old(self).health_state@,
                final(self).health_state@,
            ) ==> goes_by_checks(final(self).upstream.backends@, final(self).health_state@)
                && same_backends(final(self).upstream.backends@, final(self).health_state@),
            names_fit(old(self).health_state@) && goes_by_checks(
                old(self).upstream.backends@,
                old(self).health_state@,
            ) ==> goes_by_checks(final(self).upstream.backends@, final(self).health_state@),
    {
        let c = self.health_config;
        let ghost h = self.health_state@;
        let mut down: Vec<String> = Vec::new();
        let mut changed = false;
        let mut i: usize = 0;
        assert(results@.take(0) =~= Seq::empty());
        assert(text::strs(down@) =~= Seq::empty());
        while i < results.len()
            invariant
                i <= results@.len(),
                c == old(self).health_config,
                self.health_config == c,
                self.rw_addr == old(self).rw_addr,
                self.ro_addr == old(self).ro_addr,
                self.upstream == old(self).upstream,
                self.health_state@ == all_checked(h, results@.take(i as int), c),
                text::strs(down@) == closing(h, results@.take(i as int), c),
                changed == any_turns(h, results@.take(i as int), c),
                countable(self.health_state@, (results@.len() - i) as nat),
            decreases results@.len() - i,
        {
            let r = &results[i];
            let ghost t = results@.take(i + 1);
            let ghost before = self.health_state@;
            proof {
                assert(t.drop_last() =~= results@.take(i as int));
                assert(t.last() == results@[i as int]);
            }
            let entry: Option<BackendHealth> = match self.health_state.get(r.name.as_str()) {
                Some(b) => Some(b.clone()),
                None => None,
            };
            if let Some(mut b) = entry {
                let rw_before = b.rw.healthy;
                let ro_before = b.ro.healthy;
                assert(before.dom().contains(r.name@));
                b.rw.observe(r.rw_ok, c.rise, c.fall);
                b.ro.observe(r.ro_ok, c.rise, c.fall);
                let fell = (rw_before && !b.rw.healthy) || (ro_before && !b.ro.healthy);
                if rw_before != b.rw.healthy || ro_before != b.ro.healthy {
                    changed = true;
                }
                assert(b@ == checked(before[r.name@], *r, c));
                self.health_state.insert(r.name.clone(), b);
                if c.shutdown_on_down && fell {
                    let ghost names = down@;
                    down.push(r.name.clone());
                    assert(text::strs(down@) =~= text::strs(names).push(r.name@));
                }
            }
            assert(countable(self.health_state@, (results@.len() - i - 1) as nat));
            i = i + 1;
        }
        assert(results@.take(i as int) =~= results@);
        if changed {
            self.upstream.backends = self.rebuild();
        }
        proof {
            law_no_turn_goes_unseen(h, results@, c);
            lemma_unnamed_unchanged(h, results@, c, Seq::empty());
            if names_fit(h) {
                lemma_names_fit_checked(h, results@, c);
                if changed {
                    let p = self.health_state.pairs();
                    strmap::lemma_map_of(p);
                    assert forall|i: int|
                        0 <= i < self.upstream.backends@.len() && self.health_state@.dom().contains(
                            (#[trigger] self.upstream.backends@[i]).name@,
                        ) implies {
                        let b = self.upstream.backends@[i];
                        &&& b.is_primary == self.health_state@[b.name@].rw.healthy
                        &&& b.is_healthy == (self.health_state@[b.name@].rw.healthy
                            || self.health_state@[b.name@].ro.healthy)
                    } by {
                        assert(stands_for(self.upstream.backends@[i], p[i].1));
                        assert(self.health_state@.dom().contains(p[i].0));
                        assert(self.health_state@[p[i].0] == p[i].1);
                    }
                    let s = self.upstream.backends@;
                    assert forall|k: Seq<char>| #[trigger]
                        self.health_state@.dom().contains(k) <==> lists(s, k) by {
                        if self.health_state@.dom().contains(k) {
                            assert(strmap::has_key(p, k));
                            let i = choose|i: int| 0 <= i < p.len() && (#[trigger] p[i]).0 == k;
                            assert(self.health_state@[p[i].0] == p[i].1);
                            assert(stands_for(s[i], p[i].1));
                            assert(s[i].name@ == k);
                        }
                        if lists(s, k) {
                            let i = choose|i: int| 0 <= i < s.len() && (#[trigger] s[i]).name@ == k;
                            assert(stands_for(s[i], p[i].1));
                            assert(self.health_state@.dom().contains(p[i].0));
                            assert(self.health_state@[p[i].0] == p[i].1);
                        }
                    }
                }
            }
        }
        down
    }

    fn rebuild(&self) -> (r: Vec<PgBackend>)
        ensures
            strmap::distinct_keys(self.health_state.pairs()),
            self.health_state@ == strmap::map_of(self.health_state.pairs()),
            r@.len() == self.health_state.pairs().len(),
            forall|i: int|
                0 <= i < r@.len() ==> stands_for(
                    #[trigger] r@[i],
                    self.health_state.pairs()[i].1,
                ),
    {
        let mut out: Vec<PgBackend> = Vec::new();
        let n: usize = self.health_state.len();
        let mut i: usize = 0;
        while i < n
            invariant
                i <= n,
                n == self.health_state.pairs().len(),
                out@.len() == i,
                forall|j: int|
                    0 <= j < i ==> stands_for(
                        #[trigger] out@[j],
                        self.health_state.pairs()[j].1,
                    ),
            decreases n - i,
        {
            let b = self.health_state.value_at(i);
            out.push(
                PgBackend {
                    addr: b.addr.clone(),
                    name: b.name.clone(),
                    is_primary: b.rw.healthy,
                    is_healthy: b.rw.healthy || b.ro.healthy,
                    api_url: b.api_url.clone(),
                },
            );
            i = i + 1;
        }
        out
    }

    /// Where the connection with this number goes.
    pub fn route(&self, mode: ProxyMode, counter: usize) -> (r: Route)
        ensures
            match r {
                Route::Nowhere => !has_choice(self.upstream.backends@, mode),
                Route::Unknown(name) => {
                    &&& exists|b: PgBackend| #[trigger]
                        is_choice(self.upstream.backends@, mode, counter as nat, b) && b.name@
                            == name@
                    &&& !self.health_state@.dom().contains(name@)
                    &&& has_choice(self.upstream.backends@, mode)
                },
                Route::To(name, addr) => {
                    &&& exists|b: PgBackend| #[trigger]
                        is_choice(self.upstream.backends@, mode, counter as nat, b) && b.name@
                            == name@
                    &&& self.health_state@.dom().contains(name@)
                    &&& addr.ip@ == self.health_state@[name@].ip
                    &&& addr.port == self.health_state@[name@].port
                    &&& has_choice(self.upstream.backends@, mode)
                },
            },
    {
        match self.upstream.select(mode, counter) {
            None => Route::Nowhere,
            Some(b) => {
                assert(is_choice(self.upstream.backends@, mode, counter as nat, *b));
                match self.health_state.get(b.name.as_str()) {
                    Some(h) => Route::To(b.name.clone(), h.addr.clone()),
                    None => Route::Unknown(b.name.clone()),
                }
            },
        }
    }
}

// ---------------------------------------------------------------------------------------------
// Places
// ---------------------------------------------------------------------------------------------
/// The places for connections to a backend.
#[derive(Debug, Clone, Copy, PartialEq, Eq, Structural)]
pub struct Places {
    pub limit: usize,
    /// How many connections there are.
    pub taken: usize,
}

/// There are no more connections than places.
pub open spec fn within_limit(p: Places) -> bool {
    p.taken <= p.limit
}

/// A connection comes or goes.
#[derive(Debug, Clone, Copy, PartialEq, Eq, Structural)]
pub enum Visit {
    Comes,
    Goes,
}

/// The places after a connection came or went. One that comes when all are taken is turned away.
pub open spec fn visited(p: Places, v: Visit) -> Places {
    match v {
        Visit::Comes => if p.taken < p.limit {
            Places { taken: (p.taken + 1) as usize, ..p }
        } else {
            p
        },
        Visit::Goes => Places { taken: (p.taken - 1) as usize, ..p },
    }
}

impl Places {
    /// Places that are all free.
    pub fn new(limit: usize) -> (r: Self)
        ensures
            r == (Places { limit, taken: 0 }),
            within_limit(r),
    {
        Places { limit, taken: 0 }
    }

    /// Takes a place for a connection that comes, if one is free.
    pub fn enter(&mut self) -> (r: bool)
        ensures
            *final(self) == visited(*old(self), Visit::Comes),
            r == (old(self).taken < old(self).limit),
            within_limit(*old(self)) ==> within_limit(*final(self)),
    {
        if self.taken < self.limit {
            self.taken = self.taken + 1;
            true
        } else {
            false
        }
    }

    /// Frees the place of a connection that goes.
    pub fn leave(&mut self)
        requires
            old(self).taken > 0,
        ensures
            *final(self) == visited(*old(self), Visit::Goes),
            within_limit(*old(self)) ==> within_limit(*final(self)),
    {
        self.taken = self.taken - 1;
    }
}

/// The places after these visits.
pub open spec fn after_visits(p: Places, vs: Seq<Visit>) -> Places
    decreases vs.len(),
{
    if vs.len() == 0 {
        p
    } else {
        visited(after_visits(p, vs.drop_last()), vs.last())
    }
}

/// Only connections that are there go.
pub open spec fn possible(p: Places, vs: Seq<Visit>) -> bool {
    forall|i: int|
        0 <= i < vs.len() && #[trigger] vs[i] == Visit::Goes ==> after_visits(p, vs.take(i)).taken > 0
}

// ---------------------------------------------------------------------------------------------
// Laws
// ---------------------------------------------------------------------------------------------
/// What is known after `n` checks with the same result.
pub open spec fn repeated(t: Track, ok: bool, n: nat, rise: u32, fall: u32) -> Track
    decreases n,
{
    if n == 0 {
        t
    } else {
        observed(repeated(t, ok, (n - 1) as nat, rise, fall), ok, rise, fall)
    }
}

proof fn lemma_repeated(t: Track, ok: bool, n: nat, rise: u32, fall: u32)
    requires
        ok ==> t.successes + n <= u32::MAX,
        !ok ==> t.fails + n <= u32::MAX,
    ensures
        ({
            let r = repeated(t, ok, n, rise, fall);
            &&& ok ==> r.successes == t.successes + n && (n > 0 ==> r.fails == 0)
            &&& !ok ==> r.fails == t.fails + n && (n > 0 ==> r.successes == 0)
            &&& ok ==> r.healthy == (t.healthy || (n > 0 && t.successes + n >= rise))
            &&& !ok ==> r.healthy == (t.healthy && (n == 0 || t.fails + n < fall))
        }),
    decreases n,
{
    if n > 0 {
        lemma_repeated(t, ok, (n - 1) as nat, rise, fall);
    }
}

/// A backend that is up goes down at the `fall`-th failed check in a row, and not before. Those that
/// have failed already count.
pub proof fn law_down_after_fall_failures(t: Track, n: nat, rise: u32, fall: u32)
    requires
        t.healthy,
        0 < n,
        t.fails + n <= u32::MAX,
    ensures
        repeated(t, false, n, rise, fall).healthy <==> t.fails + n < fall,
{
    lemma_repeated(t, false, n, rise, fall);
}

/// A backend that is down goes up at the `rise`-th good check in a row, and not before. Those that
/// were good already count.
pub proof fn law_up_after_rise_successes(t: Track, n: nat, rise: u32, fall: u32)
    requires
        !t.healthy,
        0 < n,
        t.successes + n <= u32::MAX,
    ensures
        repeated(t, true, n, rise, fall).healthy <==> t.successes + n >= rise,
{
    lemma_repeated(t, true, n, rise, fall);
}

/// A check with another result begins the count anew.
pub proof fn law_count_restarts(t: Track, rise: u32, fall: u32)
    requires
        t.fails < u32::MAX,
        t.successes < u32::MAX,
    ensures
        observed(t, true, rise, fall).fails == 0,
        observed(t, false, rise, fall).successes == 0,
        t.fails == 0 ==> observed(t, false, rise, fall).fails == 1,
        t.successes == 0 ==> observed(t, true, rise, fall).successes == 1,
{
}

/// A connection for writing goes to a primary that is up, one for reading to a replica that is up
/// or, where there is none, to the primary.
pub proof fn law_connections_go_where_they_may(
    s: Seq<PgBackend>,
    mode: ProxyMode,
    counter: nat,
    b: PgBackend,
)
    requires
        is_choice(s, mode, counter, b),
    ensures
        b.is_healthy,
        mode == ProxyMode::ReadWrite ==> b.is_primary,
        mode == ProxyMode::ReadOnly ==> (b.is_primary <==> s.filter(up_replica()).len() == 0),
{
    let replicas = s.filter(up_replica());
    if mode == ProxyMode::ReadOnly && replicas.len() > 0 {
        let i = counter as int % replicas.len() as int;
        s.lemma_filter_pred(up_replica(), i);
    }
}

/// Connections for reading visit the replicas in turn: each replica is chosen once in as many
/// connections as there are replicas.
pub proof fn law_replicas_take_turns(s: Seq<PgBackend>, first: nat, i: int)
    requires
        0 <= i < s.filter(up_replica()).len(),
    ensures
        exists|counter: nat|
            first <= counter < first + s.filter(up_replica()).len() && #[trigger] is_choice(
                s,
                ProxyMode::ReadOnly,
                counter,
                s.filter(up_replica())[i],
            ),
{
    let n = s.filter(up_replica()).len() as int;
    let f = first as int;
    let k = (i - f) % n;
    assert(0 <= k < n && (f + k) % n == i) by (nonlinear_arith)
        requires
            0 <= i < n,
            k == (i - f) % n,
    {
        vstd::arithmetic::div_mod::lemma_fundamental_div_mod(i - f, n);
        vstd::arithmetic::div_mod::lemma_mod_bound(i - f, n);
        let q = (i - f) / n;
        assert(f + k == i - n * q);
        vstd::arithmetic::div_mod::lemma_mod_multiples_vanish(-q, i, n);
        vstd::arithmetic::div_mod::lemma_small_mod(i as nat, n as nat);
        assert(n * (-q) + i == f + k);
    }
    let counter = (f + k) as nat;
    assert(is_choice(s, ProxyMode::ReadOnly, counter, s.filter(up_replica())[i]));
}

/// After the cluster's backends were given, exactly these are checked, and one that was checked
/// before keeps what the checks have shown.
pub proof fn law_exactly_the_members_are_checked(
    h: Map<Seq<char>, HealthView>,
    bs: Seq<PgBackend>,
    name: Seq<char>,
)
    ensures
        refreshed(h, bs).dom().contains(name) <==> lists(bs, name),
        lists(bs, name) && h.dom().contains(name) ==> refreshed(h, bs)[name].rw == h[name].rw
            && refreshed(h, bs)[name].ro == h[name].ro,
        lists(bs, name) && !h.dom().contains(name) ==> refreshed(h, bs)[name].rw == unchecked()
            && refreshed(h, bs)[name].ro == unchecked(),
{
    lemma_registered(h, bs, name);
}

proof fn lemma_registered(h: Map<Seq<char>, HealthView>, bs: Seq<PgBackend>, name: Seq<char>)
    ensures
        all_registered(h, bs).dom().contains(name) <==> h.dom().contains(name) || lists(bs, name),
        h.dom().contains(name) ==> all_registered(h, bs)[name].rw == h[name].rw && all_registered(
            h,
            bs,
        )[name].ro == h[name].ro,
        !h.dom().contains(name) && lists(bs, name) ==> all_registered(h, bs)[name].rw == unchecked()
            && all_registered(h, bs)[name].ro == unchecked(),
    decreases bs.len(),
{
    if bs.len() > 0 {
        let init = bs.drop_last();
        lemma_registered(h, init, name);
        assert(lists(bs, name) <==> lists(init, name) || bs.last().name@ == name) by {
            if lists(bs, name) {
                let i = choose|i: int| 0 <= i < bs.len() && (#[trigger] bs[i]).name@ == name;
                if i < bs.len() - 1 {
                    assert(init[i].name@ == name);
                }
            }
            if lists(init, name) {
                let i = choose|i: int| 0 <= i < init.len() && (#[trigger] init[i]).name@ == name;
                assert(bs[i].name@ == name);
            }
            if bs.last().name@ == name {
                assert(bs[bs.len() - 1].name@ == name);
            }
        }
    }
}

/// However connections come and go, a backend never has more than its limit, and one is turned away
/// only when the limit is reached.
pub proof fn law_connections_stay_within_the_limit(limit: usize, vs: Seq<Visit>)
    requires
        possible(Places { limit, taken: 0 }, vs),
    ensures
        after_visits(Places { limit, taken: 0 }, vs).limit == limit,
        within_limit(after_visits(Places { limit, taken: 0 }, vs)),
        ({
            let before = after_visits(Places { limit, taken: 0 }, vs);
            visited(before, Visit::Comes) == before <==> before.taken == limit
        }),
    decreases vs.len(),
{
    if vs.len() > 0 {
        let p = Places { limit, taken: 0 };
        let init = vs.drop_last();
        assert forall|i: int| 0 <= i < init.len() && #[trigger] init[i] == Visit::Goes implies after_visits(
            p,
            init.take(i),
        ).taken > 0 by {
            assert(vs[i] == Visit::Goes);
            assert(init.take(i) =~= vs.take(i));
        }
        law_connections_stay_within_the_limit(limit, init);
        if vs.last() == Visit::Goes {
            assert(vs[vs.len() - 1] == Visit::Goes);
            assert(vs.take(vs.len() - 1) =~= init);
        }
    }
}

// ---------------------------------------------------------------------------------------------
// Laws on checks and what they change
// ---------------------------------------------------------------------------------------------
/// A good check adds one to the good ones in a row and leaves a backend up that is up; a failed one
/// adds one to the failed ones and leaves a backend down that is down.
pub proof fn law_check_moves_one_way(t: Track, rise: u32, fall: u32)
    requires
        t.fails < u32::MAX,
        t.successes < u32::MAX,
    ensures
        observed(t, true, rise, fall).successes == t.successes + 1,
        observed(t, false, rise, fall).fails == t.fails + 1,
        t.healthy ==> observed(t, true, rise, fall).healthy,
        !t.healthy ==> !observed(t, false, rise, fall).healthy,
        !t.healthy ==> (observed(t, true, rise, fall).healthy <==> t.successes + 1 >= rise),
        t.healthy ==> (observed(t, false, rise, fall).healthy <==> t.fails + 1 < fall),
        !unchecked().healthy,
        unchecked().fails == 0,
        unchecked().successes == 0,
{
}

/// None of the results is that of this backend.
pub open spec fn unnamed(results: Seq<CheckResult>, name: Seq<char>) -> bool {
    forall|i: int| 0 <= i < results.len() ==> (#[trigger] results[i]).name@ != name
}

proof fn lemma_unnamed_unchanged(
    h: Map<Seq<char>, HealthView>,
    results: Seq<CheckResult>,
    c: HealthCheckConfig,
    name: Seq<char>,
)
    ensures
        all_checked(h, results, c).dom() == h.dom(),
        unnamed(results, name) && h.dom().contains(name) ==> all_checked(h, results, c)[name]
            == h[name],
    decreases results.len(),
{
    if results.len() > 0 {
        let init = results.drop_last();
        lemma_unnamed_unchanged(h, init, c, name);
        assert(all_checked(h, results, c).dom() =~= h.dom());
        if unnamed(results, name) {
            assert(unnamed(init, name)) by {
                assert forall|i: int| 0 <= i < init.len() implies (#[trigger] init[i]).name@ != name by {
                    assert(results[i] == init[i]);
                }
            }
            assert(results[results.len() - 1].name@ != name);
        }
    }
}

/// A round of checks changes no backend that was not checked, adds none and drops none. One that was
/// checked once has its check for writing counted for writing and that for reading for reading, and
/// keeps its name and its address.
pub proof fn law_each_check_counts_for_its_backend(
    h: Map<Seq<char>, HealthView>,
    results: Seq<CheckResult>,
    c: HealthCheckConfig,
    i: int,
    other: Seq<char>,
)
    requires
        0 <= i < results.len(),
        unnamed(results.take(i), results[i].name@),
        unnamed(results.skip(i + 1), results[i].name@),
    ensures
        all_checked(h, results, c).dom() == h.dom(),
        unnamed(results, other) && h.dom().contains(other) ==> all_checked(h, results, c)[other]
            == h[other],
        h.dom().contains(results[i].name@) ==> {
            let name = results[i].name@;
            let after = all_checked(h, results, c)[name];
            &&& after.rw == observed(h[name].rw, results[i].rw_ok, c.rise, c.fall)
            &&& after.ro == observed(h[name].ro, results[i].ro_ok, c.rise, c.fall)
            &&& after.name == h[name].name
            &&& after.ip == h[name].ip
            &&& after.port == h[name].port
            &&& after.api_url == h[name].api_url
        },
    decreases results.len(),
{
    lemma_unnamed_unchanged(h, results, c, other);
    let init = results.drop_last();
    let name = results[i].name@;
    if i == results.len() - 1 {
        assert(results.take(i) =~= init);
        lemma_unnamed_unchanged(h, init, c, name);
    } else {
        assert(init.take(i) =~= results.take(i));
        assert(unnamed(init.skip(i + 1), name)) by {
            assert forall|k: int| 0 <= k < init.skip(i + 1).len() implies (#[trigger] init.skip(
                i + 1,
            )[k]).name@ != name by {
                assert(results.skip(i + 1)[k] == init.skip(i + 1)[k]);
            }
        }
        law_each_check_counts_for_its_backend(h, init, c, i, other);
        assert(results.skip(i + 1)[results.len() - i - 2] == results.last());
    }
}

/// A backend is up for writing or for reading in one state of the checks and not in the other.
pub open spec fn differ(a: Map<Seq<char>, HealthView>, b: Map<Seq<char>, HealthView>) -> bool {
    exists|name: Seq<char>|
        {
            &&& #[trigger] a.dom().contains(name)
            &&& a[name].rw.healthy != b[name].rw.healthy || a[name].ro.healthy
                != b[name].ro.healthy
        }
}

/// A backend goes up or down, for writing or for reading, exactly if the checks say so at some point
/// of the round; so if it is up before the round and not after it, or the other way round.
pub proof fn law_no_turn_goes_unseen(
    h: Map<Seq<char>, HealthView>,
    results: Seq<CheckResult>,
    c: HealthCheckConfig,
)
    ensures
        differ(h, all_checked(h, results, c)) ==> any_turns(h, results, c),
        any_turns(h, results, c) <==> exists|k: int|
            0 <= k < results.len() && differ(
                #[trigger] all_checked(h, results.take(k), c),
                all_checked(h, results.take(k + 1), c),
            ),
    decreases results.len(),
{
    if results.len() > 0 {
        let init = results.drop_last();
        let n = results.len() - 1;
        law_no_turn_goes_unseen(h, init, c);
        assert(results.take(n) =~= init);
        assert(results.take(n + 1) =~= results);
        let before = all_checked(h, init, c);
        let after = all_checked(h, results, c);
        let name = results.last().name@;
        lemma_unnamed_unchanged(h, init, c, name);
        assert(turns(before, results.last(), c) <==> differ(before, after)) by {
            if turns(before, results.last(), c) {
                assert(before.dom().contains(name));
                assert(differ(before, after));
            }
        }
        if differ(h, after) && !differ(h, before) {
            let k = choose|k: Seq<char>|
                {
                    &&& #[trigger] h.dom().contains(k)
                    &&& h[k].rw.healthy != after[k].rw.healthy || h[k].ro.healthy
                        != after[k].ro.healthy
                };
            assert(before.dom().contains(k));
            assert(differ(before, after));
        }
        if any_turns(h, results, c) {
            if any_turns(h, init, c) {
                let k = choose|k: int|
                    0 <= k < init.len() && differ(
                        #[trigger] all_checked(h, init.take(k), c),
                        all_checked(h, init.take(k + 1), c),
                    );
                assert(init.take(k) =~= results.take(k));
                assert(init.take(k + 1) =~= results.take(k + 1));
                assert(differ(
                    all_checked(h, results.take(k), c),
                    all_checked(h, results.take(k + 1), c),
                ));
            } else {
                assert(differ(
                    all_checked(h, results.take(n), c),
                    all_checked(h, results.take(n + 1), c),
                ));
            }
        }
        if exists|k: int|
            0 <= k < results.len() && differ(
                #[trigger] all_checked(h, results.take(k), c),
                all_checked(h, results.take(k + 1), c),
            ) {
            let k = choose|k: int|
                0 <= k < results.len() && differ(
                    #[trigger] all_checked(h, results.take(k), c),
                    all_checked(h, results.take(k + 1), c),
                );
            if k < n {
                assert(init.take(k) =~= results.take(k));
                assert(init.take(k + 1) =~= results.take(k + 1));
                assert(differ(
                    all_checked(h, init.take(k), c),
                    all_checked(h, init.take(k + 1), c),
                ));
            }
        }
    }
}

/// The connections of a backend are closed exactly if it goes down, for writing or for reading, and
/// closing is wanted.
pub proof fn law_fallen_backends_are_closed(
    h: Map<Seq<char>, HealthView>,
    results: Seq<CheckResult>,
    c: HealthCheckConfig,
    i: int,
)
    requires
        0 <= i < results.len(),
        unnamed(results.take(i), results[i].name@),
        unnamed(results.skip(i + 1), results[i].name@),
    ensures
        ({
            let name = results[i].name@;
            let after = all_checked(h, results, c);
            closing(h, results, c).contains(name) <==> c.shutdown_on_down && h.dom().contains(name)
                && ((h[name].rw.healthy && !after[name].rw.healthy) || (h[name].ro.healthy
                && !after[name].ro.healthy))
        }),
    decreases results.len(),
{
    let init = results.drop_last();
    let name = results[i].name@;
    let before = closing(h, init, c);
    law_each_check_counts_for_its_backend(h, results, c, i, name);
    if i == results.len() - 1 {
        assert(results.take(i) =~= init);
        lemma_unnamed_unchanged(h, init, c, name);
        lemma_unnamed_not_closed(h, init, c, name);
        if before.len() < closing(h, results, c).len() {
            assert(closing(h, results, c)[before.len() as int] == name);
        }
    } else {
        assert(init.take(i) =~= results.take(i));
        assert(unnamed(init.skip(i + 1), name)) by {
            assert forall|k: int| 0 <= k < init.skip(i + 1).len() implies (#[trigger] init.skip(
                i + 1,
            )[k]).name@ != name by {
                assert(results.skip(i + 1)[k] == init.skip(i + 1)[k]);
            }
        }
        law_fallen_backends_are_closed(h, init, c, i);
        law_each_check_counts_for_its_backend(h, init, c, i, name);
        lemma_unnamed_unchanged(h, results, c, name);
        assert(results.skip(i + 1)[results.len() - i - 2] == results.last());
        let all = closing(h, results, c);
        if all.contains(name) {
            let k = choose|k: int| 0 <= k < all.len() && all[k] == name;
            assert(before[k] == name);
        }
        if before.contains(name) {
            let k = choose|k: int| 0 <= k < before.len() && before[k] == name;
            assert(all[k] == name);
        }
    }
}

proof fn lemma_unnamed_not_closed(
    h: Map<Seq<char>, HealthView>,
    results: Seq<CheckResult>,
    c: HealthCheckConfig,
    name: Seq<char>,
)
    requires
        unnamed(results, name),
    ensures
        !closing(h, results, c).contains(name),
    decreases results.len(),
{
    if results.len() > 0 {
        let init = results.drop_last();
        assert(unnamed(init, name)) by {
            assert forall|i: int| 0 <= i < init.len() implies (#[trigger] init[i]).name@ != name by {
                assert(results[i] == init[i]);
            }
        }
        lemma_unnamed_not_closed(h, init, c, name);
        assert(results[results.len() - 1].name@ != name);
        let all = closing(h, results, c);
        if all.contains(name) {
            let k = choose|k: int| 0 <= k < all.len() && all[k] == name;
            assert(closing(h, init, c)[k] == name);
        }
    }
}

/// Connections for reading go to a backend that the checks have found up for reading, and for
/// writing to one that they have found up for writing, as long as the backends that connections can
/// go to are those of the checks. Only where no replica is up do connections for reading go to one
/// that is up for writing.
pub proof fn law_connections_go_by_the_checks(
    s: Seq<PgBackend>,
    h: Map<Seq<char>, HealthView>,
    mode: ProxyMode,
    counter: nat,
    b: PgBackend,
    i: int,
)
    requires
        goes_by_checks(s, h),
        is_choice(s, mode, counter, b),
        h.dom().contains(b.name@),
    ensures
        mode == ProxyMode::ReadWrite ==> h[b.name@].rw.healthy,
        mode == ProxyMode::ReadOnly ==> h[b.name@].rw.healthy || h[b.name@].ro.healthy,
        mode == ProxyMode::ReadOnly && h[b.name@].rw.healthy && 0 <= i < s.len()
            && h.dom().contains(s[i].name@) ==> h[s[i].name@].rw.healthy
            || !h[s[i].name@].ro.healthy,
{
    let replicas = s.filter(up_replica());
    if mode == ProxyMode::ReadOnly && replicas.len() > 0 {
        let k = counter as int % replicas.len() as int;
        assert(0 <= k < replicas.len());
        s.lemma_filter_pred(up_replica(), k);
        assert(replicas.contains(b)) by {
            assert(replicas[k] == b);
        }
        s.lemma_filter_contains_rev(up_replica(), b);
        let j = choose|j: int| 0 <= j < s.len() && s[j] == b;
        assert(s[j].name@ == b.name@);
    } else {
        let j = choose|j: int| #[trigger] is_first_primary(s, j) && s[j] == b;
        assert(s[j].name@ == b.name@);
        if mode == ProxyMode::ReadOnly && 0 <= i < s.len() {
            if up_replica()(s[i]) {
                s.lemma_filter_contains(up_replica(), i);
            }
        }
    }
}

/// A connection for reading goes to the primary only if no replica is up, and there is a backend for
/// it if any is up; there is one for writing if a primary is up.
pub proof fn law_reads_prefer_replicas(s: Seq<PgBackend>, counter: nat, b: PgBackend, i: int)
    requires
        0 <= i < s.len(),
        s[i].is_healthy,
    ensures
        has_choice(s, ProxyMode::ReadOnly),
        s[i].is_primary ==> has_choice(s, ProxyMode::ReadWrite),
        is_choice(s, ProxyMode::ReadOnly, counter, b) && b.is_primary ==> s[i].is_primary,
        is_choice(s, ProxyMode::ReadWrite, counter, b) ==> b.is_primary && b.is_healthy,
{
    if !s[i].is_primary {
        assert(up_replica()(s[i]));
        s.lemma_filter_contains(up_replica(), i);
        if is_choice(s, ProxyMode::ReadOnly, counter, b) {
            law_connections_go_where_they_may(s, ProxyMode::ReadOnly, counter, b);
        }
    } else {
        assert(up_primary(s[i]));
    }
}

/// When the backends of the cluster are given anew, what is known of those that stay is kept, so the
/// backends that connections can go to still are as the checks have found them.
pub proof fn law_new_backends_do_not_disturb_the_checks(
    s: Seq<PgBackend>,
    h: Map<Seq<char>, HealthView>,
    bs: Seq<PgBackend>,
)
    requires
        goes_by_checks(s, h),
        forall|i: int|
            0 <= i < s.len() && lists(bs, (#[trigger] s[i]).name@) ==> h.dom().contains(s[i].name@),
    ensures
        goes_by_checks(s, refreshed(h, bs)),
{
    assert forall|i: int|
        0 <= i < s.len() && refreshed(h, bs).dom().contains((#[trigger] s[i]).name@) implies {
        &&& s[i].is_primary == refreshed(h, bs)[s[i].name@].rw.healthy
        &&& s[i].is_healthy == (refreshed(h, bs)[s[i].name@].rw.healthy || refreshed(
            h,
            bs,
        )[s[i].name@].ro.healthy)
    } by {
        law_exactly_the_members_are_checked(h, bs, s[i].name@);
    }
}

/// A place that is free is taken by a connection that comes, and is free again when it goes.
pub proof fn law_place_is_taken_and_freed(p: Places)
    requires
        p.taken < p.limit,
    ensures
        visited(p, Visit::Comes).taken == p.taken + 1,
        visited(p, Visit::Comes).limit == p.limit,
        visited(visited(p, Visit::Comes), Visit::Goes) == p,
{
}

/// A backend that is given several times has the address that was given last.
pub proof fn law_backends_have_their_last_address(
    h: Map<Seq<char>, HealthView>,
    bs: Seq<PgBackend>,
    i: int,
)
    requires
        0 <= i < bs.len(),
        forall|j: int| i < j < bs.len() ==> (#[trigger] bs[j]).name@ != bs[i].name@,
    ensures
        ({
            let entry = refreshed(h, bs)[bs[i].name@];
            &&& refreshed(h, bs).dom().contains(bs[i].name@)
            &&& entry.ip == bs[i].addr.ip@
            &&& entry.port == bs[i].addr.port
            &&& bs[i].api_url@.len() > 0 ==> entry.api_url == bs[i].api_url@
            &&& bs[i].api_url@.len() == 0 ==> entry.api_url == "http://"@ + bs[i].addr.ip@
                + ":8008"@
        }),
{
    assert(lists(bs, bs[i].name@));
    lemma_last_address(h, bs, i);
}

proof fn lemma_last_address(h: Map<Seq<char>, HealthView>, bs: Seq<PgBackend>, i: int)
    requires
        0 <= i < bs.len(),
        forall|j: int| i < j < bs.len() ==> (#[trigger] bs[j]).name@ != bs[i].name@,
    ensures
        all_registered(h, bs).dom().contains(bs[i].name@),
        ({
            let entry = all_registered(h, bs)[bs[i].name@];
            &&& entry.ip == bs[i].addr.ip@
            &&& entry.port == bs[i].addr.port
            &&& entry.api_url == check_url(bs[i])
        }),
    decreases bs.len(),
{
    if i < bs.len() - 1 {
        let init = bs.drop_last();
        assert(init[i] == bs[i]);
        assert forall|j: int| i < j < init.len() implies (#[trigger] init[j]).name@
            != init[i].name@ by {
            assert(bs[j] == init[j]);
        }
        lemma_last_address(h, init, i);
        assert(bs[bs.len() - 1].name@ != bs[i].name@);
    }
}

proof fn lemma_names_fit(h: Map<Seq<char>, HealthView>, bs: Seq<PgBackend>)
    requires
        names_fit(h),
    ensures
        names_fit(all_registered(h, bs)),
        names_fit(refreshed(h, bs)),
    decreases bs.len(),
{
    if bs.len() > 0 {
        lemma_names_fit(h, bs.drop_last());
    }
}

proof fn lemma_names_fit_checked(
    h: Map<Seq<char>, HealthView>,
    results: Seq<CheckResult>,
    c: HealthCheckConfig,
)
    requires
        names_fit(h),
    ensures
        names_fit(all_checked(h, results, c)),
    decreases results.len(),
{
    if results.len() > 0 {
        lemma_names_fit_checked(h, results.drop_last(), c);
    }
}

} // verus!
