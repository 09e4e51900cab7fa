//! The replicated key-value store: expiring keys and compare-and-swap writes.
//!
//! Every write carries the time at which it was proposed, so that all replicas that apply the same
//! writes in the same order hold the same data.

use vstd::prelude::*;

use crate::clock;
use crate::strmap;
use crate::strmap::StringMap;
use crate::text;
use crate::text::{clone_opt, opt_as_str, starts_with, str_eq};

verus! {

/// A stored value with its metadata.
#[derive(Debug, PartialEq)]
pub struct KvEntry {
    /// The stored value, usually JSON.
    pub value: String,
    /// When the key was created, in milliseconds since the epoch.
    pub created_at: u64,
    /// When the key was last written, in milliseconds since the epoch.
    pub updated_at: u64,
    /// When the key expires, in milliseconds since the epoch. `None` means never.
    pub expire_at: Option<u64>,
    /// The log index of the last write.
    pub version: u64,
}

/// What an entry holds.
#[verifier::ext_equal]
pub ghost struct EntryView {
    pub value: Seq<char>,
    pub created_at: u64,
    pub updated_at: u64,
    pub expire_at: Option<u64>,
    pub version: u64,
}

impl View for KvEntry {
    type V = EntryView;

    open spec fn view(&self) -> EntryView {
        EntryView {
            value: self.value@,
            created_at: self.created_at,
            updated_at: self.updated_at,
            expire_at: self.expire_at,
            version: self.version,
        }
    }
}

impl Clone for KvEntry {
    fn clone(&self) -> (r: Self)
        ensures
            r == *self,
    {
        KvEntry {
            value: self.value.clone(),
            created_at: self.created_at,
            updated_at: self.updated_at,
            expire_at: self.expire_at,
            version: self.version,
        }
    }
}

/// A write to the store.
#[derive(Debug)]
pub enum Request {
    /// Put a value under a key, if the conditions hold.
    SetKey {
        key: String,
        value: String,
        /// Time to live in seconds; `None` means that the key never expires.
        ttl: Option<u64>,
        /// Whether the key must exist.
        prev_exist: Option<bool>,
        /// The value that the key must hold.
        prev_value: Option<String>,
        /// The version that the key must have.
        prev_version: Option<u64>,
        /// The time of the proposal, in milliseconds since the epoch; zero in entries that were
        /// written without one.
        now: u64,
    },
    /// Delete a key, or all keys that begin with it.
    Delete {
        key: String,
        /// The value that the key must hold.
        prev_value: Option<String>,
        /// Whether to delete all keys that begin with `key`.
        recursive: bool,
    },
    /// Drop all keys that have expired at `now`.
    ExpireKeys { now: u64 },
}

/// What a request asks for.
pub ghost enum RequestView {
    SetKey {
        key: Seq<char>,
        value: Seq<char>,
        ttl: Option<u64>,
        prev_exist: Option<bool>,
        prev_value: Option<Seq<char>>,
        prev_version: Option<u64>,
        now: u64,
    },
    Delete { key: Seq<char>, prev_value: Option<Seq<char>>, recursive: bool },
    ExpireKeys { now: u64 },
}

impl View for Request {
    type V = RequestView;

    open spec fn view(&self) -> RequestView {
        match *self {
            Request::SetKey { key, value, ttl, prev_exist, prev_value, prev_version, now } =>
                RequestView::SetKey {
                    key: key@,
                    value: value@,
                    ttl,
                    prev_exist,
                    prev_value: text::opt_view(prev_value),
                    prev_version,
                    now,
                },
            Request::Delete { key, prev_value, recursive } => RequestView::Delete {
                key: key@,
                prev_value: text::opt_view(prev_value),
                recursive,
            },
            Request::ExpireKeys { now } => RequestView::ExpireKeys { now },
        }
    }
}

impl Clone for Request {
    fn clone(&self) -> (r: Self)
        ensures
            r == *self,
    {
        match self {
            Request::SetKey { key, value, ttl, prev_exist, prev_value, prev_version, now } =>
                Request::SetKey {
                    key: key.clone(),
                    value: value.clone(),
                    ttl: *ttl,
                    prev_exist: *prev_exist,
                    prev_value: clone_opt(prev_value),
                    prev_version: *prev_version,
                    now: *now,
                },
            Request::Delete { key, prev_value, recursive } => Request::Delete {
                key: key.clone(),
                prev_value: clone_opt(prev_value),
                recursive: *recursive,
            },
            Request::ExpireKeys { now } => Request::ExpireKeys { now: *now },
        }
    }
}

/// The answer to a write.
#[derive(Debug, Clone, Copy, PartialEq, Eq, Structural)]
pub enum Response {
    /// The write took effect at this version.
    Done { version: u64 },
    /// A condition did not hold; nothing changed.
    NotChanged,
}

/// The contents of a store: its keys, and the index of the last applied log entry.
#[verifier::ext_equal]
pub ghost struct KvState {
    pub data: Map<Seq<char>, EntryView>,
    pub last_applied: u64,
}

/// The entry has not expired at `now`.
pub open spec fn live(e: EntryView, now: u64) -> bool {
    e.expire_at is None || e.expire_at->0 > now
}

/// The entry that a reader at time `now` sees under `key`.
pub open spec fn lookup(s: KvState, key: Seq<char>, now: u64) -> Option<EntryView> {
    if s.data.dom().contains(key) && live(s.data[key], now) {
        Some(s.data[key])
    } else {
        None
    }
}

/// The conditions of a write hold of the entry that stands under its key.
pub open spec fn set_allowed(
    existing: Option<EntryView>,
    prev_exist: Option<bool>,
    prev_value: Option<Seq<char>>,
    prev_version: Option<u64>,
) -> bool {
    &&& prev_exist is Some ==> prev_exist->0 == (existing is Some)
    &&& prev_value is Some ==> existing is Some && existing->0.value == prev_value->0
    &&& prev_version is Some ==> existing is Some && existing->0.version == prev_version->0
}

/// When a key written at `now` with this time to live expires.
pub open spec fn expiry(ttl: Option<u64>, now: u64) -> Option<u64> {
    match ttl {
        Some(t) => Some((now + t * 1000) as u64),
        None => None,
    }
}

/// The time at which the request acts: its own, or the clock's where it carries none.
pub open spec fn effective_now(now: u64, clock: u64) -> u64 {
    if now == 0 {
        clock
    } else {
        now
    }
}

/// The expiry time of the request is within range.
pub open spec fn fits(req: RequestView, clock: u64) -> bool {
    match req {
        RequestView::SetKey { ttl, now, .. } => ttl is Some ==> effective_now(now, clock) + ttl->0 * 1000
            <= u64::MAX,
        _ => true,
    }
}

/// The store after `req`, applied as the log entry `index` with the clock at `clock`, and the
/// answer.
pub open spec fn step(s: KvState, req: RequestView, index: u64, clock: u64) -> (KvState, Response) {
    let t = KvState { last_applied: index, ..s };
    match req {
        RequestView::SetKey { key, value, ttl, prev_exist, prev_value, prev_version, now } => {
            let n = effective_now(now, clock);
            let existing = lookup(s, key, n);
            if set_allowed(existing, prev_exist, prev_value, prev_version) {
                let e = EntryView {
                    value,
                    created_at: match existing {
                        Some(old) => old.created_at,
                        None => n,
                    },
                    updated_at: n,
                    expire_at: expiry(ttl, n),
                    version: index,
                };
                (KvState { data: s.data.insert(key, e), ..t }, Response::Done { version: index })
            } else {
                (t, Response::NotChanged)
            }
        },
        RequestView::Delete { key, prev_value, recursive } => {
            if recursive {
                (
                    KvState {
                        data: s.data.remove_keys(
                            s.data.dom().filter(|k: Seq<char>| key.is_prefix_of(k)),
                        ),
                        ..t
                    },
                    Response::Done { version: index },
                )
            } else if s.data.dom().contains(key) && (prev_value is Some ==> s.data[key].value
                == prev_value->0) {
                (KvState { data: s.data.remove(key), ..t }, Response::Done { version: index })
            } else {
                (t, Response::NotChanged)
            }
        },
        RequestView::ExpireKeys { now } => (
            KvState {
                data: s.data.remove_keys(
                    s.data.dom().filter(|k: Seq<char>| !live(s.data[k], now)),
                ),
                ..t
            },
            Response::Done { version: index },
        ),
    }
}

impl Request {
    /// Whether the time at which the key expires is in range.
    pub fn expiry_in_range(&self) -> (r: bool)
        ensures
            r == fits(self@, 0),
    {
        match self {
            Request::SetKey { ttl: Some(t), now, .. } => *t <= (u64::MAX - *now) / 1000,
            _ => true,
        }
    }
}

/// The replicated key-value store.
#[derive(Debug)]
pub struct KvStateMachine {
    pub data: StringMap<KvEntry>,
    last_applied_log: u64,
}

impl View for KvStateMachine {
    type V = KvState;

    closed spec fn view(&self) -> KvState {
        KvState { data: self.data@, last_applied: self.last_applied_log }
    }
}

impl KvStateMachine {
    /// The empty store.
    pub fn new() -> (r: Self)
        ensures
            r@ == (KvState { data: Map::empty(), last_applied: 0 }),
    {
        KvStateMachine { data: StringMap::new(), last_applied_log: 0 }
    }

    /// The store with these entries, of which the last was written at `last_applied` or before.
    pub fn restore(data: StringMap<KvEntry>, last_applied: u64) -> (r: Self)
        ensures
            r@ == (KvState { data: data@, last_applied }),
    {
        KvStateMachine { data, last_applied_log: last_applied }
    }

    /// Applies a committed request, with the clock at `clock`.
    pub fn apply_at(&mut self, request: &Request, log_index: u64, clock: u64) -> (r: Response)
        requires
            fits(request@, clock),
        ensures
            (final(self)@, r) == step(old(self)@, request@, log_index, clock),
    {
        self.last_applied_log = log_index;
        match request {
            Request::SetKey { key, value, ttl, prev_exist, prev_value, prev_version, now } => {
                let n: u64 = if *now == 0 {
                    clock
                } else {
                    *now
                };
                self.apply_set(
                    key.as_str(),
                    value.as_str(),
                    *ttl,
                    *prev_exist,
                    opt_as_str(prev_value),
                    *prev_version,
                    n,
                )
            },
            Request::Delete { key, prev_value, recursive } => self.apply_delete(
                key.as_str(),
                opt_as_str(prev_value),
                *recursive,
            ),
            Request::ExpireKeys { now } => self.apply_expire(*now),
        }
    }

    /// Puts `value` under `key` at time `now`, if the conditions hold.
    fn apply_set(
        &mut self,
        key: &str,
        value: &str,
        ttl: Option<u64>,
        prev_exist: Option<bool>,
        prev_value: Option<&str>,
        prev_version: Option<u64>,
        now: u64,
    ) -> (r: Response)
        requires
            ttl is Some ==> now + ttl->0 * 1000 <= u64::MAX,
        ensures
            ({
                let s = old(self)@;
                let existing = lookup(s, key@, now);
                if set_allowed(existing, prev_exist, text::opt_str_view(prev_value), prev_version) {
                    let e = EntryView {
                        value: value@,
                        created_at: match existing {
                            Some(old_entry) => old_entry.created_at,
                            None => now,
                        },
                        updated_at: now,
                        expire_at: expiry(ttl, now),
                        version: s.last_applied,
                    };
                    &&& final(self)@ == (KvState { data: s.data.insert(key@, e), ..s })
                    &&& r == (Response::Done { version: s.last_applied })
                } else {
                    &&& final(self)@ == s
                    &&& r == Response::NotChanged
                }
            }),
    {
        let effective_existing: Option<&KvEntry> = match self.data.get(key) {
            Some(entry) => {
                let expired = match entry.expire_at {
                    Some(exp) => exp <= now,
                    None => false,
                };
                if expired {
                    None
                } else {
                    Some(entry)
                }
            },
            None => None,
        };
        if let Some(should_exist) = prev_exist {
            if should_exist != effective_existing.is_some() {
                return Response::NotChanged;
            }
        }
        if let Some(expected_value) = prev_value {
            match effective_existing {
                Some(entry) => {
                    if !str_eq(entry.value.as_str(), expected_value) {
                        return Response::NotChanged;
                    }
                },
                None => {
                    return Response::NotChanged;
                },
            }
        }
        if let Some(expected_version) = prev_version {
            match effective_existing {
                Some(entry) => {
                    if entry.version != expected_version {
                        return Response::NotChanged;
                    }
                },
                None => {
                    return Response::NotChanged;
                },
            }
        }
        let created_at: u64 = match effective_existing {
            Some(entry) => entry.created_at,
            None => now,
        };
        let version: u64 = self.last_applied_log;
        let expire_at: Option<u64> = match ttl {
            Some(t) => Some(now + t * 1000),
            None => None,
        };
        let entry = KvEntry {
            value: value.to_string(),
            created_at,
            updated_at: now,
            expire_at,
            version,
        };
        self.data.insert(key.to_string(), entry);
        Response::Done { version }
    }

    /// Deletes `key`, or all keys that begin with it.
    fn apply_delete(&mut self, key: &str, prev_value: Option<&str>, recursive: bool) -> (r: Response)
        ensures
            ({
                let s = old(self)@;
                if recursive {
                    &&& final(self)@ == (KvState {
                        data: s.data.remove_keys(
                            s.data.dom().filter(|k: Seq<char>| key@.is_prefix_of(k)),
                        ),
                        ..s
                    })
                    &&& r == (Response::Done { version: s.last_applied })
                } else if s.data.dom().contains(key@) && (text::opt_str_view(prev_value) is Some
                    ==> s.data[key@].value == text::opt_str_view(prev_value)->0) {
                    &&& final(self)@ == (KvState { data: s.data.remove(key@), ..s })
                    &&& r == (Response::Done { version: s.last_applied })
                } else {
                    &&& final(self)@ == s
                    &&& r == Response::NotChanged
                }
            }),
    {
        if recursive {
            let ghost before = self.data@;
            let mut kept: StringMap<KvEntry> = StringMap::new();
            let mut n: usize = self.data.len();
            while n > 0
                invariant
                    n == self.data.pairs().len(),
                    n == self.data@.dom().len(),
                    self.data@.dom().finite(),
                    self.last_applied_log == old(self).last_applied_log,
                    before == old(self).data@,
                    self.data@.submap_of(before),
                    forall|k: Seq<char>| #[trigger]
                        kept@.dom().contains(k) <==> before.dom().contains(k)
                            && !self.data@.dom().contains(k) && !key@.is_prefix_of(k),
                    forall|k: Seq<char>| #[trigger]
                        kept@.dom().contains(k) ==> kept@[k] == before[k],
                decreases n,
            {
                let ghost left = self.data@;
                if let Some((k, e)) = self.data.pop() {
                    assert(left.dom().contains(k@) && before.dom().contains(k@));
                    if !starts_with(k.as_str(), key) {
                        kept.insert(k, e);
                    }
                }
                n = self.data.len();
            }
            assert(self.data@.dom() =~= Set::empty());
            self.data = kept;
            assert(self.data@ =~= before.remove_keys(
                before.dom().filter(|k: Seq<char>| key@.is_prefix_of(k)),
            ));
            return Response::Done { version: self.last_applied_log };
        }
        if let Some(expected_value) = prev_value {
            match self.data.get(key) {
                Some(entry) => {
                    if !str_eq(entry.value.as_str(), expected_value) {
                        return Response::NotChanged;
                    }
                },
                None => {
                    return Response::NotChanged;
                },
            }
        }
        if self.data.remove(key) {
            Response::Done { version: self.last_applied_log }
        } else {
            assert(self.data@ =~= old(self).data@);
            Response::NotChanged
        }
    }

    /// Drops the keys that have expired at `now`.
    fn apply_expire(&mut self, now: u64) -> (r: Response)
        ensures
            final(self)@ == (KvState {
                data: old(self)@.data.remove_keys(
                    old(self)@.data.dom().filter(|k: Seq<char>| !live(old(self)@.data[k], now)),
                ),
                ..old(self)@
            }),
            r == (Response::Done { version: old(self)@.last_applied }),
    {
        let ghost before = self.data@;
        let mut kept: StringMap<KvEntry> = StringMap::new();
        let mut n: usize = self.data.len();
        while n > 0
            invariant
                n == self.data.pairs().len(),
                n == self.data@.dom().len(),
                self.data@.dom().finite(),
                self.last_applied_log == old(self).last_applied_log,
                before == old(self).data@,
                self.data@.submap_of(before),
                forall|k: Seq<char>| #[trigger]
                    kept@.dom().contains(k) <==> before.dom().contains(k)
                        && !self.data@.dom().contains(k) && live(before[k], now),
                forall|k: Seq<char>| #[trigger]
                    kept@.dom().contains(k) ==> kept@[k] == before[k],
            decreases n,
        {
            let ghost left = self.data@;
            if let Some((k, e)) = self.data.pop() {
                assert(left.dom().contains(k@) && before.dom().contains(k@));
                let expired = match e.expire_at {
                    Some(exp) => exp <= now,
                    None => false,
                };
                if !expired {
                    kept.insert(k, e);
                }
            }
            n = self.data.len();
        }
        assert(self.data@.dom() =~= Set::empty());
        self.data = kept;
        assert(self.data@ =~= before.remove_keys(
            before.dom().filter(|k: Seq<char>| !live(before[k], now)),
        ));
        Response::Done { version: self.last_applied_log }
    }

    /// Applies a committed request. The clock is read only for a write that carries no time; the
    /// reading is held below the point where the expiry time would leave its range.
    pub fn apply(&mut self, request: &Request, log_index: u64) -> (r: Response)
        requires
            fits(request@, 0),
        ensures
            exists|clock: u64|
                fits(request@, clock) && #[trigger] step(old(self)@, request@, log_index, clock) == (
                    final(self)@,
                    r,
                ),
    {
        let mut clock: u64 = 0;
        if let Request::SetKey { now, ttl, .. } = request {
            if *now == 0 {
                clock = clock::current_millis();
                if let Some(t) = ttl {
                    let latest: u64 = u64::MAX - *t * 1000;
                    if clock > latest {
                        clock = latest;
                    }
                }
            }
        }
        let r = self.apply_at(request, log_index, clock);
        assert(fits(request@, clock) && step(old(self)@, request@, log_index, clock) == (self@, r));
        r
    }

    /// The entry that a reader at time `now` sees under `key`.
    pub fn get_at(&self, key: &str, now: u64) -> (r: Option<&KvEntry>)
        ensures
            match r {
                Some(e) => lookup(self@, key@, now) == Some(e@),
                None => lookup(self@, key@, now) is None,
            },
    {
        match self.data.get(key) {
            Some(entry) => {
                if is_expired_at(entry, now) {
                    None
                } else {
                    Some(entry)
                }
            },
            None => None,
        }
    }

    /// The entry under `key`, unless it has expired.
    pub fn get(&self, key: &str) -> (r: Option<&KvEntry>)
        ensures
            exists|now: u64|
                match r {
                    Some(e) => #[trigger] lookup(self@, key@, now) == Some(e@),
                    None => lookup(self@, key@, now) is None,
                },
    {
        let now: u64 = clock::current_millis();
        let r = self.get_at(key, now);
        assert(match r {
            Some(e) => lookup(self@, key@, now) == Some(e@),
            None => lookup(self@, key@, now) is None,
        });
        r
    }

    /// The entries that a reader at time `now` sees under the keys that begin with `prefix`.
    pub fn get_prefix_at(&self, prefix: &str, now: u64) -> (r: StringMap<&KvEntry>)
        ensures
            forall|k: Seq<char>| #[trigger]
                r@.dom().contains(k) <==> prefix@.is_prefix_of(k) && lookup(self@, k, now) is Some,
            forall|k: Seq<char>| #[trigger]
                r@.dom().contains(k) ==> Some(r@[k]) == lookup(self@, k, now),
    {
        let mut out: StringMap<&KvEntry> = StringMap::new();
        let n: usize = self.data.len();
        let ghost p = self.data.pairs();
        proof {
            strmap::lemma_map_of(p);
        }
        let mut i: usize = 0;
        while i < n
            invariant
                i <= n == p.len(),
                p == self.data.pairs(),
                strmap::distinct_keys(p),
                self.data@ == strmap::map_of(p),
                forall|j: int|
                    0 <= j < p.len() ==> self.data@.dom().contains((#[trigger] p[j]).0)
                        && self.data@[p[j].0] == p[j].1,
                forall|k: Seq<char>| #[trigger]
                    out@.dom().contains(k) ==> strmap::has_key(p.take(i as int), k) && prefix@.is_prefix_of(
                        k,
                    ) && lookup(self@, k, now) == Some(out@[k]),
                forall|j: int|
                    0 <= j < i && prefix@.is_prefix_of((#[trigger] p[j]).0) && live(p[j].1, now)
                        ==> out@.dom().contains(p[j].0),
            decreases n - i,
        {
            let key = self.data.key_at(i);
            let entry = self.data.value_at(i);
            let ghost before = out@;
            if starts_with(key.as_str(), prefix) && !is_expired_at(entry, now) {
                out.insert(key.clone(), entry);
            }
            assert forall|k: Seq<char>| #[trigger] out@.dom().contains(k) implies strmap::has_key(
                p.take(i + 1),
                k,
            ) by {
                if before.dom().contains(k) {
                    let j = choose|j: int|
                        0 <= j < p.take(i as int).len() && (#[trigger] p.take(i as int)[j]).0 == k;
                    assert(p.take(i + 1)[j].0 == k);
                } else {
                    assert(p.take(i + 1)[i as int].0 == k);
                }
            }
            i = i + 1;
        }
        assert forall|k: Seq<char>|
            prefix@.is_prefix_of(k) && lookup(self@, k, now) is Some implies #[trigger] out@.dom().contains(
            k,
        ) by {
            let j = choose|j: int| 0 <= j < p.len() && (#[trigger] p[j]).0 == k;
            assert(out@.dom().contains(p[j].0));
        }
        out
    }

    /// The entries under the keys that begin with `prefix`, without those that have expired.
    pub fn get_prefix(&self, prefix: &str) -> (r: StringMap<&KvEntry>)
        ensures
            exists|now: u64| #[trigger] prefix_result(self@, prefix@, now, r@),
    {
        let now: u64 = clock::current_millis();
        let r = self.get_prefix_at(prefix, now);
        assert(prefix_result(self@, prefix@, now, r@));
        r
    }

    /// The index of the last applied log entry.
    pub fn last_applied_log(&self) -> (r: u64)
        ensures
            r == self@.last_applied,
    {
        self.last_applied_log
    }

    /// The number of keys, expired ones included.
    pub fn len(&self) -> (r: usize)
        ensures
            r == self@.data.dom().len(),
            self@.data.dom().finite(),
    {
        self.data.len()
    }

    /// Whether there is no key.
    pub fn is_empty(&self) -> (r: bool)
        ensures
            r == (self@.data == Map::<Seq<char>, EntryView>::empty()),
    {
        self.data.is_empty()
    }
}

/// `found` holds exactly what a reader at `now` sees under the keys that begin with `prefix`.
pub open spec fn prefix_result(
    s: KvState,
    prefix: Seq<char>,
    now: u64,
    found: Map<Seq<char>, EntryView>,
) -> bool {
    &&& forall|k: Seq<char>| #[trigger]
        found.dom().contains(k) <==> prefix.is_prefix_of(k) && lookup(s, k, now) is Some
    &&& forall|k: Seq<char>| #[trigger]
        found.dom().contains(k) ==> Some(found[k]) == lookup(s, k, now)
}

/// Whether the entry has expired at `now`.
pub fn is_expired_at(entry: &KvEntry, now: u64) -> (r: bool)
    ensures
        r == !live(entry@, now),
{
    match entry.expire_at {
        Some(exp) => exp <= now,
        None => false,
    }
}

/// Whether the entry has expired.
pub fn is_expired(entry: &KvEntry) -> (r: bool)
    ensures
        exists|now: u64| r == !#[trigger] live(entry@, now),
{
    let now: u64 = clock::current_millis();
    let r = is_expired_at(entry, now);
    assert(r == !live(entry@, now));
    r
}

impl Default for KvStateMachine {
    fn default() -> (r: Self)
        ensures
            r@ == (KvState { data: Map::empty(), last_applied: 0 }),
    {
        KvStateMachine::new()
    }
}

// ---------------------------------------------------------------------------------------------
// Laws
// ---------------------------------------------------------------------------------------------
/// A write that is answered with `NotChanged` changes no key.
pub proof fn law_refused_write_changes_nothing(s: KvState, req: RequestView, index: u64, clock: u64)
    requires
        step(s, req, index, clock).1 == Response::NotChanged,
    ensures
        step(s, req, index, clock).0.data == s.data,
{
}

/// A reader sees what a write put under the key, until the write's time to live has passed.
pub proof fn law_read_after_write(
    s: KvState,
    key: Seq<char>,
    value: Seq<char>,
    ttl: Option<u64>,
    prev_exist: Option<bool>,
    prev_value: Option<Seq<char>>,
    prev_version: Option<u64>,
    now: u64,
    index: u64,
    clock: u64,
    t: u64,
)
    requires
        step(
            s,
            RequestView::SetKey { key, value, ttl, prev_exist, prev_value, prev_version, now },
            index,
            clock,
        ).1 is Done,
        ttl is Some ==> effective_now(now, clock) + ttl->0 * 1000 <= u64::MAX,
        ttl is Some ==> t < effective_now(now, clock) + ttl->0 * 1000,
    ensures
        ({
            let after = step(
                s,
                RequestView::SetKey { key, value, ttl, prev_exist, prev_value, prev_version, now },
                index,
                clock,
            ).0;
            &&& lookup(after, key, t) is Some
            &&& lookup(after, key, t)->0.value == value
            &&& lookup(after, key, t)->0.version == index
        }),
{
}

/// Once the time to live of a write has passed, a reader no longer sees it.
pub proof fn law_write_expires(
    s: KvState,
    key: Seq<char>,
    value: Seq<char>,
    ttl: u64,
    prev_exist: Option<bool>,
    prev_value: Option<Seq<char>>,
    prev_version: Option<u64>,
    now: u64,
    index: u64,
    clock: u64,
    t: u64,
)
    requires
        step(
            s,
            RequestView::SetKey {
                key,
                value,
                ttl: Some(ttl),
                prev_exist,
                prev_value,
                prev_version,
                now,
            },
            index,
            clock,
        ).1 is Done,
        effective_now(now, clock) + ttl * 1000 <= t,
    ensures
        lookup(
            step(
                s,
                RequestView::SetKey {
                    key,
                    value,
                    ttl: Some(ttl),
                    prev_exist,
                    prev_value,
                    prev_version,
                    now,
                },
                index,
                clock,
            ).0,
            key,
            t,
        ) is None,
{
}

/// A write or a plain delete under one key leaves what readers see under every other key.
pub proof fn law_other_keys_untouched(
    s: KvState,
    req: RequestView,
    index: u64,
    clock: u64,
    other: Seq<char>,
    t: u64,
)
    requires
        match req {
            RequestView::SetKey { key, .. } => key != other,
            RequestView::Delete { key, recursive, .. } => !recursive && key != other,
            RequestView::ExpireKeys { .. } => false,
        },
    ensures
        lookup(step(s, req, index, clock).0, other, t) == lookup(s, other, t),
{
}

/// After a delete that took effect nobody sees the key; a recursive delete takes exactly the keys
/// that begin with it.
pub proof fn law_delete(
    s: KvState,
    key: Seq<char>,
    prev_value: Option<Seq<char>>,
    recursive: bool,
    index: u64,
    clock: u64,
    k: Seq<char>,
    t: u64,
)
    requires
        step(s, RequestView::Delete { key, prev_value, recursive }, index, clock).1 is Done,
    ensures
        ({
            let after = step(
                s,
                RequestView::Delete { key, prev_value, recursive },
                index,
                clock,
            ).0;
            if k == key || (recursive && key.is_prefix_of(k)) {
                lookup(after, k, t) is None
            } else {
                lookup(after, k, t) == lookup(s, k, t)
            }
        }),
{
    assert(key.is_prefix_of(key)) by {
        assert(key.subrange(0, key.len() as int) =~= key);
    }
}

/// Dropping the keys that have expired at `now` changes nothing that a reader at `now` or later
/// sees.
pub proof fn law_expiry_is_invisible(s: KvState, now: u64, index: u64, clock: u64, k: Seq<char>, t: u64)
    requires
        now <= t,
    ensures
        lookup(step(s, RequestView::ExpireKeys { now }, index, clock).0, k, t) == lookup(s, k, t),
{
}

/// The request by which `node` takes the lock under `key` if nobody holds it.
pub open spec fn acquire(key: Seq<char>, node: Seq<char>, ttl: u64, now: u64) -> RequestView {
    RequestView::SetKey {
        key,
        value: node,
        ttl: Some(ttl),
        prev_exist: Some(false),
        prev_value: None,
        prev_version: None,
        now,
    }
}

/// The request by which `node` extends the lock that it holds under `key`.
pub open spec fn renew(key: Seq<char>, node: Seq<char>, ttl: u64, now: u64) -> RequestView {
    RequestView::SetKey {
        key,
        value: node,
        ttl: Some(ttl),
        prev_exist: None,
        prev_value: Some(node),
        prev_version: None,
        now,
    }
}

/// The request by which `node` gives up the lock that it holds under `key`.
pub open spec fn release(key: Seq<char>, node: Seq<char>) -> RequestView {
    RequestView::Delete { key, prev_value: Some(node), recursive: false }
}

/// While a node holds the lock no other node takes it, extends it or gives it up.
pub proof fn law_lock_is_exclusive(
    s: KvState,
    key: Seq<char>,
    holder: Seq<char>,
    other: Seq<char>,
    ttl: u64,
    now: u64,
    index: u64,
    clock: u64,
)
    requires
        now != 0,
        lookup(s, key, now) is Some,
        lookup(s, key, now)->0.value == holder,
        other != holder,
    ensures
        step(s, acquire(key, other, ttl, now), index, clock).1 == Response::NotChanged,
        step(s, acquire(key, other, ttl, now), index, clock).0.data == s.data,
        step(s, renew(key, other, ttl, now), index, clock).1 == Response::NotChanged,
        step(s, renew(key, other, ttl, now), index, clock).0.data == s.data,
        step(s, release(key, other), index, clock).1 == Response::NotChanged,
        step(s, release(key, other), index, clock).0.data == s.data,
{
}

/// Where nobody holds the lock, whoever asks first takes it and holds it for its time to live.
pub proof fn law_free_lock_is_taken(
    s: KvState,
    key: Seq<char>,
    node: Seq<char>,
    ttl: u64,
    now: u64,
    index: u64,
    clock: u64,
    t: u64,
)
    requires
        now != 0,
        lookup(s, key, now) is None,
        t < now + ttl * 1000 <= u64::MAX,
    ensures
        step(s, acquire(key, node, ttl, now), index, clock).1 == (Response::Done { version: index }),
        lookup(step(s, acquire(key, node, ttl, now), index, clock).0, key, t) is Some,
        lookup(step(s, acquire(key, node, ttl, now), index, clock).0, key, t)->0.value == node,
{
}

/// The holder of the lock extends it from the time of the renewal, and can give it up.
pub proof fn law_holder_renews_and_releases(
    s: KvState,
    key: Seq<char>,
    holder: Seq<char>,
    ttl: u64,
    now: u64,
    index: u64,
    clock: u64,
    t: u64,
)
    requires
        now != 0,
        lookup(s, key, now) is Some,
        lookup(s, key, now)->0.value == holder,
        t < now + ttl * 1000 <= u64::MAX,
    ensures
        step(s, renew(key, holder, ttl, now), index, clock).1 == (Response::Done {
            version: index,
        }),
        lookup(step(s, renew(key, holder, ttl, now), index, clock).0, key, t) is Some,
        lookup(step(s, renew(key, holder, ttl, now), index, clock).0, key, t)->0.value == holder,
        lookup(step(s, renew(key, holder, ttl, now), index, clock).0, key, t)->0.created_at
            == lookup(s, key, now)->0.created_at,
        step(s, release(key, holder), index, clock).1 == (Response::Done { version: index }),
        lookup(step(s, release(key, holder), index, clock).0, key, t) is None,
{
}

/// No entry carries a version above the index of the last applied log entry.
pub open spec fn versions_bounded(s: KvState) -> bool {
    forall|k: Seq<char>| #[trigger]
        s.data.dom().contains(k) ==> s.data[k].version <= s.last_applied
}

/// Applying log entries in order keeps every version at or below the index of the last one.
pub proof fn law_versions_stay_bounded(s: KvState, req: RequestView, index: u64, clock: u64)
    requires
        versions_bounded(s),
        s.last_applied <= index,
    ensures
        versions_bounded(step(s, req, index, clock).0),
        step(s, req, index, clock).0.last_applied == index,
{
}

/// The store after a log, each entry with its index, the clock at the application of each entry
/// being given by `clocks`.
pub open spec fn run(
    s: KvState,
    log: Seq<(u64, RequestView)>,
    clocks: spec_fn(int) -> u64,
) -> KvState
    decreases log.len(),
{
    if log.len() == 0 {
        s
    } else {
        step(run(s, log.drop_last(), clocks), log.last().1, log.last().0, clocks(log.len() - 1)).0
    }
}

/// The request carries the time at which it was proposed.
pub open spec fn is_timed(req: RequestView) -> bool {
    match req {
        RequestView::SetKey { now, .. } => now != 0,
        _ => true,
    }
}

/// Replicas that apply the same log reach the same store, whatever their clocks show, where every
/// write carries the time of its proposal.
pub proof fn law_same_log_same_store(
    s: KvState,
    log: Seq<(u64, RequestView)>,
    clocks1: spec_fn(int) -> u64,
    clocks2: spec_fn(int) -> u64,
)
    requires
        forall|i: int| 0 <= i < log.len() ==> is_timed((#[trigger] log[i]).1),
    ensures
        run(s, log, clocks1) == run(s, log, clocks2),
    decreases log.len(),
{
    if log.len() > 0 {
        assert forall|i: int| 0 <= i < log.drop_last().len() implies is_timed(
            (#[trigger] log.drop_last()[i]).1,
        ) by {
            assert(log[i] == log.drop_last()[i]);
        }
        law_same_log_same_store(s, log.drop_last(), clocks1, clocks2);
        assert(is_timed(log[log.len() - 1].1));
    }
}

/// A write takes effect exactly where all its conditions hold of the entry that has not expired by
/// the time of the write, and what then stands under the key is the value with that time, its end
/// and the index of the log; the entry keeps the time at which it first came. A refused write
/// leaves every key as it was.
pub proof fn law_write_goes_by_its_conditions(
    s: KvState,
    key: Seq<char>,
    value: Seq<char>,
    ttl: Option<u64>,
    prev_exist: Option<bool>,
    prev_value: Option<Seq<char>>,
    prev_version: Option<u64>,
    now: u64,
    index: u64,
    clock: u64,
)
    ensures
        ({
            let req = RequestView::SetKey {
                key,
                value,
                ttl,
                prev_exist,
                prev_value,
                prev_version,
                now,
            };
            let n: u64 = if now != 0 { now } else { clock };
            let before = s.data[key];
            let there = s.data.dom().contains(key) && (before.expire_at matches Some(end)
                ==> n < end);
            let (after, answer) = step(s, req, index, clock);
            &&& after.last_applied == index
            &&& answer is Done <==> {
                &&& prev_exist == Some(true) ==> there
                &&& prev_exist == Some(false) ==> !there
                &&& prev_value matches Some(v) ==> there && before.value == v
                &&& prev_version matches Some(v) ==> there && before.version == v
            }
            &&& answer is NotChanged ==> after.data == s.data
            &&& answer matches Response::Done { version } ==> {
                &&& version == index
                &&& after.data.dom() == s.data.dom().insert(key)
                &&& after.data[key].value == value
                &&& after.data[key].version == index
                &&& after.data[key].updated_at == n
                &&& after.data[key].created_at == if there { before.created_at } else { n }
                &&& ttl is None ==> after.data[key].expire_at is None
                &&& ttl matches Some(t) ==> (n + 1000 * t <= u64::MAX ==> (
                after.data[key].expire_at matches Some(end) && end == n + 1000 * t))
            }
        }),
{
}

/// A delete of one key takes effect exactly where the key is in the store, expired or not, and has
/// the value asked for; a recursive one always does. Every other key stays as it was.
pub proof fn law_delete_goes_by_its_conditions(
    s: KvState,
    key: Seq<char>,
    prev_value: Option<Seq<char>>,
    recursive: bool,
    index: u64,
    clock: u64,
    k: Seq<char>,
)
    ensures
        ({
            let (after, answer) = step(
                s,
                RequestView::Delete { key, prev_value, recursive },
                index,
                clock,
            );
            &&& after.last_applied == index
            &&& answer is Done <==> recursive || (s.data.dom().contains(key) && (
            prev_value matches Some(v) ==> s.data[key].value == v))
            &&& answer matches Response::Done { version } ==> version == index
            &&& answer is NotChanged ==> after.data == s.data
            &&& after.data.dom().contains(k) <==> s.data.dom().contains(k) && !(answer is Done && (
            if recursive {
                k.len() >= key.len() && k.take(key.len() as int) == key
            } else {
                k == key
            }))
            &&& after.data.dom().contains(k) ==> after.data[k] == s.data[k]
        }),
{
    if key.is_prefix_of(k) {
        assert(k.take(key.len() as int) =~= key);
    }
    if k.len() >= key.len() && k.take(key.len() as int) == key {
        assert(key =~= k.subrange(0, key.len() as int));
    }
}

/// A sweep takes exactly the keys whose end has come, and leaves every other key as it was.
pub proof fn law_sweep_takes_what_has_ended(
    s: KvState,
    now: u64,
    index: u64,
    clock: u64,
    k: Seq<char>,
)
    ensures
        ({
            let (after, answer) = step(s, RequestView::ExpireKeys { now }, index, clock);
            &&& after.last_applied == index
            &&& answer == (Response::Done { version: index })
            &&& after.data.dom().contains(k) <==> s.data.dom().contains(k) && (
            s.data[k].expire_at matches Some(end) ==> now < end)
            &&& after.data.dom().contains(k) ==> after.data[k] == s.data[k]
        }),
{
}

/// A reader sees a key exactly where it is in the store and its end has not come.
pub proof fn law_reader_sees_until_the_end(s: KvState, key: Seq<char>, now: u64)
    ensures
        lookup(s, key, now) == (if !s.data.dom().contains(key) {
            None
        } else if (s.data[key].expire_at matches Some(end) && end <= now) {
            None
        } else {
            Some(s.data[key])
        }),
{
}

/// Whoever walks a subtree gets exactly the keys that begin with its name and have not ended.
pub proof fn law_walk_finds_the_subtree(
    s: KvState,
    prefix: Seq<char>,
    now: u64,
    found: Map<Seq<char>, EntryView>,
    k: Seq<char>,
)
    requires
        prefix_result(s, prefix, now, found),
    ensures
        found.dom().contains(k) <==> {
            &&& k.len() >= prefix.len() && k.take(prefix.len() as int) == prefix
            &&& s.data.dom().contains(k)
            &&& s.data[k].expire_at matches Some(end) ==> now < end
        },
        found.dom().contains(k) ==> found[k] == s.data[k],
{
    if k.len() >= prefix.len() {
        assert(k.take(prefix.len() as int) =~= k.subrange(0, prefix.len() as int));
    }
}

/// A run of the log keeps the index of its last entry, and each entry is applied to what the
/// entries before it left.
pub proof fn law_log_is_applied_in_order(
    s: KvState,
    log: Seq<(u64, RequestView)>,
    index: u64,
    req: RequestView,
    clocks: spec_fn(int) -> u64,
)
    ensures
        run(s, Seq::empty(), clocks) == s,
        run(s, log.push((index, req)), clocks) == step(
            run(s, log, clocks),
            req,
            index,
            clocks(log.len() as int),
        ).0,
        run(s, log.push((index, req)), clocks).last_applied == index,
{
    let all = log.push((index, req));
    assert(all.drop_last() =~= log);
    assert(all.last() == (index, req));
}

} // verus!
