//! Staying primary while the replicated store cannot be reached, if every member confirms it.

use vstd::prelude::*;

use crate::clock::{instant_now, nanos_since};
use crate::strmap::StringMap;
use crate::text;
use crate::text::str_eq;

verus! {

/// What asking the members has shown.
#[derive(Debug, Clone)]
pub enum FailsafeResult {
    /// Every member has confirmed the primary: it may stay.
    AllConfirmed,
    /// These members have not: it must step down.
    NotAllConfirmed { failed: Vec<String> },
    /// Members are not asked.
    Disabled,
}

/// The check that lets a primary stay.
#[derive(Debug)]
pub struct Failsafe {
    pub enabled: bool,
    /// Where the agent of each member answers, by the names of the members.
    pub members: StringMap<String>,
    /// When every member has last confirmed the primary.
    pub last_success: Option<std::time::Instant>,
    /// For how many seconds a confirmation holds.
    pub ttl: u64,
}

/// A member to ask.
#[derive(Debug)]
pub struct Ping {
    pub name: String,
    pub url: String,
}

/// The member is another one than `me`.
pub open spec fn is_other(me: Seq<char>) -> spec_fn((Seq<char>, Seq<char>)) -> bool {
    |p: (Seq<char>, Seq<char>)| p.0 != me
}

/// The members to ask: all but this one.
pub open spec fn asked(members: Seq<(Seq<char>, Seq<char>)>, me: Seq<char>) -> Seq<
    (Seq<char>, Seq<char>),
> {
    members.filter(is_other(me))
}

/// The names of those of the first `n` members asked that have not confirmed.
pub open spec fn unconfirmed(
    asked: Seq<(Seq<char>, Seq<char>)>,
    answers: Seq<bool>,
    n: nat,
) -> Seq<Seq<char>>
    decreases n,
{
    if n == 0 {
        Seq::empty()
    } else {
        let before = unconfirmed(asked, answers, (n - 1) as nat);
        if n - 1 < answers.len() && answers[n - 1] {
            before
        } else {
            before.push(asked[n - 1].0)
        }
    }
}

/// Every other member has confirmed the primary `me`.
pub open spec fn all_confirmed(f: Failsafe, me: Seq<char>, answers: Seq<bool>) -> bool {
    let others = asked(f.members.pairs(), me);
    &&& f.enabled
    &&& f.members@ != Map::<Seq<char>, Seq<char>>::empty()
    &&& unconfirmed(others, answers, others.len()).len() == 0
}

/// A confirmation that is `age` nanoseconds old still holds.
pub open spec fn holds(age: u128, ttl: u64) -> bool {
    age < ttl * 1_000_000_000
}

/// Whether a confirmation that is `age` nanoseconds old still holds.
pub fn is_fresh(age: u128, ttl: u64) -> (r: bool)
    ensures
        r == holds(age, ttl),
{
    age < ttl as u128 * 1_000_000_000
}

impl Failsafe {
    /// A check that is not made.
    pub fn new(ttl_secs: u64) -> (r: Self)
        ensures
            !r.enabled,
            r.members@ == Map::<Seq<char>, Seq<char>>::empty(),
            r.last_success is None,
            r.ttl == ttl_secs,
    {
        Failsafe { enabled: false, members: StringMap::new(), last_success: None, ttl: ttl_secs }
    }

    /// Whether the check is to be made.
    pub fn set_enabled(&mut self, enabled: bool)
        ensures
            *final(self) == (Failsafe { enabled, ..*old(self) }),
    {
        self.enabled = enabled;
    }

    /// The members are these.
    pub fn update_members(&mut self, members: StringMap<String>)
        ensures
            *final(self) == (Failsafe { members, ..*old(self) }),
    {
        self.members = members;
    }

    /// Whether the check is made.
    pub fn is_enabled(&self) -> (r: bool)
        ensures
            r == self.enabled,
    {
        self.enabled
    }

    /// Whether every member has confirmed the primary a short time ago.
    pub fn is_active(&self) -> (r: bool)
        ensures
            self.last_success is None ==> !r,
            self.last_success is Some ==> exists|age: u128| r == #[trigger] holds(age, self.ttl),
    {
        match &self.last_success {
            Some(t) => is_fresh(nanos_since(t), self.ttl),
            None => false,
        }
    }

    /// The members to ask, and where.
    pub fn pings(&self, my_name: &str) -> (r: Vec<Ping>)
        ensures
            r@.len() == asked(self.members.pairs(), my_name@).len(),
            forall|i: int|
                0 <= i < r@.len() ==> (#[trigger] r@[i]).name@ == asked(
                    self.members.pairs(),
                    my_name@,
                )[i].0 && r@[i].url@ == asked(self.members.pairs(), my_name@)[i].1 + "/failsafe"@,
    {
        let mut out: Vec<Ping> = Vec::new();
        let n: usize = self.members.len();
        let ghost p = self.members.pairs();
        let mut i: usize = 0;
        proof {
            reveal(Seq::filter);
            assert(p.take(0) =~= Seq::empty());
        }
        while i < n
            invariant
                i <= n,
                n == p.len(),
                p == self.members.pairs(),
                out@.len() == asked(p.take(i as int), my_name@).len(),
                forall|j: int|
                    0 <= j < out@.len() ==> (#[trigger] out@[j]).name@ == asked(
                        p.take(i as int),
                        my_name@,
                    )[j].0 && out@[j].url@ == asked(p.take(i as int), my_name@)[j].1
                        + "/failsafe"@,
            decreases n - i,
        {
            let name = self.members.key_at(i);
            proof {
                reveal(Seq::filter);
                assert(p.take(i + 1).drop_last() =~= p.take(i as int));
                assert(p.take(i + 1).last() == p[i as int]);
            }
            if !str_eq(name.as_str(), my_name) {
                let mut url = self.members.value_at(i).clone();
                url.append("/failsafe");
                out.push(Ping { name: name.clone(), url });
            }
            i = i + 1;
        }
        assert(p.take(n as int) =~= p);
        out
    }

    /// Whether the primary may stay, by the answers of the members that were asked, in their
    /// order. No answer counts as a refusal.
    pub fn check_topology(&mut self, my_name: &str, answers: &Vec<bool>) -> (r: FailsafeResult)
        ensures
            final(self).enabled == old(self).enabled,
            final(self).members == old(self).members,
            final(self).ttl == old(self).ttl,
            !(r is AllConfirmed) ==> final(self).last_success == old(self).last_success,
            r is AllConfirmed ==> final(self).last_success is Some,
            if !old(self).enabled {
                r is Disabled
            } else if old(self).members@ == Map::<Seq<char>, Seq<char>>::empty() {
                r matches FailsafeResult::NotAllConfirmed { failed } && text::strs(failed@)
                    == seq!["no members"@]
            } else {
                let others = asked(old(self).members.pairs(), my_name@);
                let missing = unconfirmed(others, answers@, others.len());
                if missing.len() == 0 {
                    r is AllConfirmed
                } else {
                    r matches FailsafeResult::NotAllConfirmed { failed } && text::strs(failed@)
                        == missing
                }
            },
    {
        if !self.enabled {
            return FailsafeResult::Disabled;
        }
        if self.members.is_empty() {
            let mut failed: Vec<String> = Vec::new();
            failed.push("no members".to_string());
            assert(text::strs(failed@) =~= seq!["no members"@]);
            return FailsafeResult::NotAllConfirmed { failed };
        }
        let pings = self.pings(my_name);
        let ghost others = asked(self.members.pairs(), my_name@);
        let mut failed: Vec<String> = Vec::new();
        let mut i: usize = 0;
        assert(text::strs(failed@) =~= Seq::empty());
        while i < pings.len()
            invariant
                i <= pings@.len(),
                pings@.len() == others.len(),
                forall|j: int|
                    0 <= j < pings@.len() ==> (#[trigger] pings@[j]).name@ == others[j].0,
                text::strs(failed@) == unconfirmed(others, answers@, i as nat),
            decreases pings@.len() - i,
        {
            if !(i < answers.len() && answers[i]) {
                let ghost before = failed@;
                failed.push(pings[i].name.clone());
                assert(text::strs(failed@) =~= text::strs(before).push(others[i as int].0));
            }
            i = i + 1;
        }
        assert(text::strs(failed@).len() == failed@.len());
        if failed.len() == 0 {
            self.last_success = Some(instant_now());
            FailsafeResult::AllConfirmed
        } else {
            FailsafeResult::NotAllConfirmed { failed }
        }
    }
}

/// A primary stays only if every other member has confirmed it.
pub proof fn law_every_member_must_confirm(
    others: Seq<(Seq<char>, Seq<char>)>,
    answers: Seq<bool>,
    n: nat,
    i: int,
)
    requires
        n <= others.len(),
        unconfirmed(others, answers, n).len() == 0,
        0 <= i < n,
    ensures
        i < answers.len(),
        answers[i],
    decreases n,
{
    if i < n - 1 {
        law_every_member_must_confirm(others, answers, (n - 1) as nat, i);
    }
}

/// Every member but this one is asked, and nobody else.
pub proof fn law_all_others_are_asked(
    members: Seq<(Seq<char>, Seq<char>)>,
    me: Seq<char>,
    i: int,
    k: int,
)
    ensures
        0 <= i < members.len() && members[i].0 != me ==> asked(members, me).contains(members[i]),
        0 <= k < asked(members, me).len() ==> asked(members, me)[k].0 != me && members.contains(
            asked(members, me)[k],
        ),
{
    let p = is_other(me);
    if 0 <= i < members.len() && members[i].0 != me {
        assert(p(members[i]));
        members.lemma_filter_contains(p, i);
    }
    if 0 <= k < asked(members, me).len() {
        members.lemma_filter_pred(p, k);
        assert(asked(members, me).contains(asked(members, me)[k]));
        members.lemma_filter_contains_rev(p, asked(members, me)[k]);
    }
}

/// A primary stays exactly if members are asked, there are members, and every other one has answered
/// and confirmed it. One refusal, or one answer that is missing, is enough to stop it.
pub proof fn law_one_refusal_stops_the_primary(f: Failsafe, me: Seq<char>, answers: Seq<bool>)
    ensures
        all_confirmed(f, me, answers) <==> {
            &&& f.enabled
            &&& f.members@ != Map::<Seq<char>, Seq<char>>::empty()
            &&& asked(f.members.pairs(), me).len() <= answers.len()
            &&& forall|i: int|
                0 <= i < asked(f.members.pairs(), me).len() ==> #[trigger] answers[i]
        },
{
    let others = asked(f.members.pairs(), me);
    lemma_unconfirmed(others, answers, others.len());
}

proof fn lemma_unconfirmed(others: Seq<(Seq<char>, Seq<char>)>, answers: Seq<bool>, n: nat)
    requires
        n <= others.len(),
    ensures
        unconfirmed(others, answers, n).len() == 0 <==> n <= answers.len() && forall|i: int|
            0 <= i < n ==> #[trigger] answers[i],
    decreases n,
{
    if n > 0 {
        lemma_unconfirmed(others, answers, (n - 1) as nat);
    }
}

/// A member is named as one that has not confirmed exactly if it has not.
pub proof fn law_refusals_are_named(
    others: Seq<(Seq<char>, Seq<char>)>,
    answers: Seq<bool>,
    n: nat,
    i: int,
)
    requires
        n <= others.len(),
        0 <= i < n,
        i >= answers.len() || !answers[i],
    ensures
        unconfirmed(others, answers, n).contains(others[i].0),
    decreases n,
{
    let before = unconfirmed(others, answers, (n - 1) as nat);
    let all = unconfirmed(others, answers, n);
    if i < n - 1 {
        law_refusals_are_named(others, answers, (n - 1) as nat, i);
        let k = choose|k: int| 0 <= k < before.len() && before[k] == others[i].0;
        assert(all[k] == others[i].0);
    } else {
        assert(all[before.len() as int] == others[i].0);
    }
}

/// A confirmation holds for as many seconds as were set, and not for longer.
pub proof fn law_confirmation_expires(age: u128, ttl: u64)
    ensures
        age >= ttl * 1_000_000_000 ==> !holds(age, ttl),
        age < ttl * 1_000_000_000 ==> holds(age, ttl),
{
}

} // verus!
