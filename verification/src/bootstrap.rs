//! Creating a cluster, and cloning a new node from a member of it.

use vstd::prelude::*;

use crate::cluster;
use crate::cluster::{find_member, tag_flag, Cluster, Member, MemberState, MemberTest};
use crate::config::{BootstrapConfig, InitdbOption, PostgresqlConfig};
use crate::connstr::StandbyReason;
use crate::cycle::Answer;
use crate::error::Error;
use crate::ha::Ha;
use crate::operations;
use crate::report;
use crate::standby_cluster::clone_strings;
use crate::strip;
use crate::strip::unquote;
use crate::text;
use crate::text::{
    char_is_ws, chars_of, eq_ignore_ascii_case, find_chars, str_eq, string_of, u64_to_string,
};

verus! {

/// How a bootstrap ended.
#[derive(Debug)]
pub enum BootstrapResult {
    /// This node created the cluster.
    InitializedAsPrimary,
    /// This node was cloned from a member.
    ClonedAsReplica,
    /// Another node creates the cluster.
    LostRace,
    /// Something went wrong.
    Failed(String),
}

/// Creating a cluster and cloning nodes.
pub struct Bootstrap;

// ---------------------------------------------------------------------------------------------
// The source of a clone
// ---------------------------------------------------------------------------------------------
/// Another member that is marked to be cloned from.
pub open spec fn preferred_source(exclude: Seq<char>) -> spec_fn(Member) -> bool {
    |m: Member| cluster::clonable(m, exclude) && cluster::flag(m.tags@, "clonefrom"@)
}

/// The leader, if it is another member.
pub open spec fn leader_source(leader: Seq<char>, exclude: Seq<char>) -> spec_fn(Member) -> bool {
    |m: Member| m.name@ == leader && cluster::clonable(m, exclude)
}

/// Another member that runs.
pub open spec fn running_source(exclude: Seq<char>) -> spec_fn(Member) -> bool {
    |m: Member| cluster::clonable(m, exclude) && m.state == MemberState::Running
}

/// The member to clone from: one that is marked for it, else the leader, else one that runs.
pub open spec fn clone_source(c: Cluster, exclude: Seq<char>) -> Option<Member> {
    let preferred = cluster::first_member(c.members@, preferred_source(exclude));
    let leader = match c.leader {
        Some(l) => cluster::first_member(c.members@, leader_source(l.name@, exclude)),
        None => None,
    };
    if preferred is Some {
        preferred
    } else if leader is Some {
        leader
    } else {
        cluster::first_member(c.members@, running_source(exclude))
    }
}

/// Another member that is marked to be cloned from.
pub struct Preferred<'a>(pub &'a str);

impl<'a> MemberTest for Preferred<'a> {
    open spec fn holds(&self, m: Member) -> bool {
        cluster::clonable(m, self.0@) && cluster::flag(m.tags@, "clonefrom"@)
    }

    fn test(&self, m: &Member) -> (b: bool) {
        !str_eq(m.name.as_str(), self.0) && !tag_flag(&m.tags, "noclone") && tag_flag(
            &m.tags,
            "clonefrom",
        )
    }
}

/// The leader, if it is another member.
pub struct LeaderSource<'a>(pub &'a str, pub &'a str);

impl<'a> MemberTest for LeaderSource<'a> {
    open spec fn holds(&self, m: Member) -> bool {
        m.name@ == self.0@ && cluster::clonable(m, self.1@)
    }

    fn test(&self, m: &Member) -> (b: bool) {
        str_eq(m.name.as_str(), self.0) && !str_eq(m.name.as_str(), self.1) && !tag_flag(
            &m.tags,
            "noclone",
        )
    }
}

/// Another member that runs.
pub struct RunningSource<'a>(pub &'a str);

impl<'a> MemberTest for RunningSource<'a> {
    open spec fn holds(&self, m: Member) -> bool {
        cluster::clonable(m, self.0@) && m.state == MemberState::Running
    }

    fn test(&self, m: &Member) -> (b: bool) {
        !str_eq(m.name.as_str(), self.0) && !tag_flag(&m.tags, "noclone") && m.state
            == MemberState::Running
    }
}

// ---------------------------------------------------------------------------------------------
// Options of initdb
// ---------------------------------------------------------------------------------------------
/// The arguments that an option stands for.
pub open spec fn option_args(o: InitdbOption) -> Seq<Seq<char>> {
    match o {
        InitdbOption::Flag(f) => seq![f@],
        InitdbOption::KeyValue(m) => m.pairs().map_values(
            |p: (Seq<char>, Seq<char>)| p.0 + "="@ + p.1,
        ),
    }
}

/// The arguments that options stand for, in order.
pub open spec fn all_args(options: Seq<InitdbOption>) -> Seq<Seq<char>>
    decreases options.len(),
{
    if options.len() == 0 {
        Seq::empty()
    } else {
        all_args(options.drop_last()) + option_args(options.last())
    }
}

fn push_option(out: &mut Vec<String>, o: &InitdbOption)
    ensures
        text::strs(final(out)@) == text::strs(old(out)@) + option_args(*o),
{
    let ghost before = out@;
    match o {
        InitdbOption::Flag(f) => {
            out.push(f.clone());
            assert(text::strs(out@) =~= text::strs(before) + option_args(*o));
        },
        InitdbOption::KeyValue(m) => {
            let n: usize = m.len();
            let ghost all = option_args(*o);
            assert(all.len() == m.pairs().len());
            let mut i: usize = 0;
            assert(text::strs(out@) =~= text::strs(before) + all.take(0));
            while i < n
                invariant
                    i <= n,
                    n == m.pairs().len(),
                    all == m.pairs().map_values(|p: (Seq<char>, Seq<char>)| p.0 + "="@ + p.1),
                    text::strs(out@) == text::strs(before) + all.take(i as int),
                decreases n - i,
            {
                let mut a = m.key_at(i).clone();
                a.append("=");
                a.append(m.value_at(i).as_str());
                let ghost mid = out@;
                out.push(a);
                proof {
                    assert(text::strs(out@) =~= text::strs(mid).push(a@));
                    assert(all.take(i + 1) =~= all.take(i as int).push(a@));
                    assert(text::strs(out@) =~= text::strs(before) + all.take(i + 1));
                }
                i = i + 1;
            }
            assert(all.take(n as int) =~= all);
        },
    }
}

// ---------------------------------------------------------------------------------------------
// The configuration of PostgreSQL
// ---------------------------------------------------------------------------------------------
/// How many digits `s` begins with.
pub open spec fn digit_run(s: Seq<char>) -> nat
    decreases s.len(),
{
    if s.len() > 0 && '0' <= s[0] <= '9' {
        1 + digit_run(s.skip(1))
    } else {
        0
    }
}

/// `s` without a sign at its start.
pub open spec fn unsigned(s: Seq<char>) -> Seq<char> {
    if s.len() > 0 && (s[0] == '+' || s[0] == '-') {
        s.skip(1)
    } else {
        s
    }
}

/// Nothing, or `e`, a sign or none, and digits.
pub open spec fn is_exponent(s: Seq<char>) -> bool {
    s.len() == 0 || ((s[0] == 'e' || s[0] == 'E') && ({
        let t = unsigned(s.skip(1));
        t.len() > 0 && digit_run(t) == t.len()
    }))
}

/// Digits with or without a point among or beside them, and an exponent or none.
pub open spec fn is_plain_number(s: Seq<char>) -> bool {
    let a = digit_run(s);
    let rest = s.skip(a as int);
    if rest.len() > 0 && rest[0] == '.' {
        let b = digit_run(rest.skip(1));
        a + b > 0 && is_exponent(rest.skip((1 + b) as int))
    } else {
        a > 0 && is_exponent(rest)
    }
}

/// `s` spells a number with a fractional part, an infinity, or the value that is no number.
pub open spec fn is_number(s: Seq<char>) -> bool {
    let t = unsigned(s);
    ||| text::same_ignoring_case(t, "inf"@)
    ||| text::same_ignoring_case(t, "infinity"@)
    ||| text::same_ignoring_case(t, "nan"@)
    ||| is_plain_number(t)
}

fn count_digits(v: &Vec<char>, from: usize) -> (r: usize)
    requires
        from <= v@.len(),
    ensures
        r == digit_run(v@.skip(from as int)),
        from + r <= v@.len(),
{
    let mut i: usize = from;
    while i < v.len() && '0' <= v[i] && v[i] <= '9'
        invariant
            from <= i <= v@.len(),
            digit_run(v@.skip(from as int)) == (i - from) + digit_run(v@.skip(i as int)),
        decreases v@.len() - i,
    {
        assert(v@.skip(i as int)[0] == v@[i as int]);
        assert(v@.skip(i as int).skip(1) =~= v@.skip(i + 1));
        i = i + 1;
    }
    proof {
        if i < v@.len() {
            assert(v@.skip(i as int)[0] == v@[i as int]);
        }
    }
    i - from
}

fn skip_sign(v: &Vec<char>, from: usize) -> (r: usize)
    requires
        from <= v@.len(),
    ensures
        from <= r <= v@.len(),
        v@.skip(r as int) == unsigned(v@.skip(from as int)),
{
    if from < v.len() && (v[from] == '+' || v[from] == '-') {
        assert(v@.skip(from as int)[0] == v@[from as int]);
        assert(v@.skip(from as int).skip(1) =~= v@.skip(from + 1));
        from + 1
    } else {
        proof {
            if from < v@.len() {
                assert(v@.skip(from as int)[0] == v@[from as int]);
            }
        }
        from
    }
}

fn exponent_at(v: &Vec<char>, from: usize) -> (r: bool)
    requires
        from <= v@.len(),
    ensures
        r == is_exponent(v@.skip(from as int)),
{
    let n: usize = v.len();
    if from == n {
        return true;
    }
    assert(v@.skip(from as int)[0] == v@[from as int]);
    assert(v@.skip(from as int).skip(1) =~= v@.skip(from + 1));
    if v[from] != 'e' && v[from] != 'E' {
        return false;
    }
    let start = skip_sign(v, from + 1);
    start < n && count_digits(v, start) == n - start
}

/// Whether a text spells a number.
pub fn spells_number(s: &str) -> (r: bool)
    ensures
        r == is_number(s@),
{
    let v = chars_of(s);
    assert(v@.skip(0) =~= v@);
    let n: usize = v.len();
    let start = skip_sign(&v, 0);
    let t = string_of(&v, start, n);
    assert(t@ =~= v@.skip(start as int));
    if eq_ignore_ascii_case(t.as_str(), "inf") || eq_ignore_ascii_case(t.as_str(), "infinity")
        || eq_ignore_ascii_case(t.as_str(), "nan") {
        return true;
    }
    let a = count_digits(&v, start);
    let end = start + a;
    let ghost rest = v@.skip(start as int).skip(a as int);
    assert(rest =~= v@.skip(end as int));
    if end < n && v[end] == '.' {
        assert(rest[0] == v@[end as int]);
        assert(rest.skip(1) =~= v@.skip(end + 1));
        let b = count_digits(&v, end + 1);
        assert(rest.skip(1 + b) =~= v@.skip(end + 1 + b));
        (a > 0 || b > 0) && exponent_at(&v, end + 1 + b)
    } else {
        proof {
            if end < n {
                assert(rest[0] == v@[end as int]);
            }
        }
        a > 0 && exponent_at(&v, end)
    }
}

/// What separates the settings of the agent from those before them.
pub open spec fn marker() -> Seq<char> {
    "# pg-ha managed settings"@
}

/// The agent sets this parameter itself.
pub open spec fn builtin_key(k: Seq<char>) -> bool {
    ||| k == "listen_addresses"@
    ||| k == "port"@
    ||| k == "wal_level"@
    ||| k == "max_wal_senders"@
    ||| k == "max_replication_slots"@
    ||| k == "hot_standby"@
}

/// The value is written without quotation marks.
pub open spec fn bare_value(v: Seq<char>) -> bool {
    ||| is_number(v)
    ||| v == "on"@
    ||| v == "off"@
    ||| v == "true"@
    ||| v == "false"@
    ||| v == "yes"@
    ||| v == "no"@
}

/// The line that sets a parameter.
pub open spec fn param_line(k: Seq<char>, v: Seq<char>) -> Seq<char> {
    let clean = strip::unquoted(v);
    if bare_value(clean) {
        k + " = "@ + clean + "\n"@
    } else {
        k + " = '"@ + clean + "'\n"@
    }
}

/// The lines that set the parameters that the agent does not set itself.
pub open spec fn param_lines(p: Seq<(Seq<char>, Seq<char>)>) -> Seq<char>
    decreases p.len(),
{
    if p.len() == 0 {
        Seq::empty()
    } else if builtin_key(p.last().0) {
        param_lines(p.drop_last())
    } else {
        param_lines(p.drop_last()) + param_line(p.last().0, p.last().1)
    }
}

/// The settings of the agent in `postgresql.conf`, after the marker.
pub open spec fn managed_settings(c: PostgresqlConfig) -> Seq<char> {
    "\nlisten_addresses = '"@ + c.listen@ + "'\nport = "@ + text::dec(c.port as nat)
        + "\nwal_level = replica\nmax_wal_senders = 10\nmax_replication_slots = 10\nhot_standby = on\n"@
        + param_lines(c.parameters.pairs())
}

/// `postgresql.conf` without the settings of the agent.
pub open spec fn unmanaged(existing: Seq<char>) -> Seq<char> {
    match text::find(existing, marker()) {
        Some(i) => existing.take(i),
        None => existing,
    }
}

/// `postgresql.conf` with the settings of the agent in place of those that it had.
pub open spec fn pg_conf(c: PostgresqlConfig, existing: Seq<char>) -> Seq<char> {
    text::trim_end(unmanaged(existing)) + "\n"@ + marker() + managed_settings(c)
}

/// The contents of `pg_hba.conf`.
pub open spec fn hba_conf(user: Seq<char>) -> Seq<char> {
    "# pg-ha managed\nlocal   all             all                                     trust\nhost    all             all             0.0.0.0/0               trust\nhost    all             all             ::/0                    trust\nlocal   replication     all                                     trust\nhost    replication     "@
        + user + "     0.0.0.0/0               trust\nhost    replication     "@ + user
        + "     ::/0                    trust\n"@
}

fn is_builtin_key(k: &str) -> (r: bool)
    ensures
        r == builtin_key(k@),
{
    str_eq(k, "listen_addresses") || str_eq(k, "port") || str_eq(k, "wal_level") || str_eq(
        k,
        "max_wal_senders",
    ) || str_eq(k, "max_replication_slots") || str_eq(k, "hot_standby")
}

fn build_param_line(k: &str, v: &str) -> (r: String)
    ensures
        r@ == param_line(k@, v@),
{
    let clean = unquote(v);
    let c = clean.as_str();
    let bare = spells_number(c) || str_eq(c, "on") || str_eq(c, "off") || str_eq(c, "true")
        || str_eq(c, "false") || str_eq(c, "yes") || str_eq(c, "no");
    let mut r = k.to_string();
    if bare {
        r.append(" = ");
        r.append(c);
        r.append("\n");
    } else {
        r.append(" = '");
        r.append(c);
        r.append("'\n");
    }
    r
}

fn build_managed_settings(c: &PostgresqlConfig) -> (r: String)
    ensures
        r@ == managed_settings(*c),
{
    let mut r = "\nlisten_addresses = '".to_string();
    r.append(c.listen.as_str());
    r.append("'\nport = ");
    r.append(u64_to_string(c.port as u64).as_str());
    r.append(
        "\nwal_level = replica\nmax_wal_senders = 10\nmax_replication_slots = 10\nhot_standby = on\n",
    );
    let ghost head = r@;
    let n: usize = c.parameters.len();
    let ghost p = c.parameters.pairs();
    let mut i: usize = 0;
    assert(r@ =~= head + param_lines(p.take(0)));
    while i < n
        invariant
            i <= n,
            n == p.len(),
            p == c.parameters.pairs(),
            r@ == head + param_lines(p.take(i as int)),
        decreases n - i,
    {
        let k = c.parameters.key_at(i);
        let v = c.parameters.value_at(i);
        proof {
            assert(p.take(i + 1).drop_last() =~= p.take(i as int));
            assert(p.take(i + 1).last() == p[i as int]);
        }
        if !is_builtin_key(k.as_str()) {
            let line = build_param_line(k.as_str(), v.as_str());
            r.append(line.as_str());
            assert(r@ =~= head + (param_lines(p.take(i as int)) + line@));
        }
        i = i + 1;
    }
    assert(p.take(n as int) =~= p);
    r
}

fn trim_trailing(s: &str) -> (r: String)
    ensures
        r@ == text::trim_end(s@),
{
    let v = chars_of(s);
    let mut b: usize = v.len();
    assert(v@.take(b as int) =~= v@);
    while b > 0 && char_is_ws(v[b - 1])
        invariant
            b <= v@.len(),
            v@ == s@,
            text::trim_end(v@.take(b as int)) == text::trim_end(s@),
        decreases b,
    {
        assert(v@.take(b as int).last() == v@[b - 1]);
        assert(v@.take(b as int).drop_last() =~= v@.take(b - 1));
        b = b - 1;
    }
    proof {
        if b > 0 {
            assert(v@.take(b as int).last() == v@[b - 1]);
        }
        assert(v@.subrange(0, b as int) =~= v@.take(b as int));
    }
    string_of(&v, 0, b)
}

impl Bootstrap {
    /// The member to clone from, apart from `exclude_name`.
    pub fn select_clone_source<'b>(cluster: &'b Cluster, exclude_name: &str) -> (r: Option<
        &'b Member,
    >)
        ensures
            match r {
                Some(m) => clone_source(*cluster, exclude_name@) == Some(*m),
                None => clone_source(*cluster, exclude_name@) is None,
            },
    {
        let preferred = Preferred(exclude_name);
        assert((|m: Member| preferred.holds(m)) =~= preferred_source(exclude_name@));
        if let Some(i) = find_member(&cluster.members, &preferred) {
            return Some(&cluster.members[i]);
        }
        if let Some(leader) = &cluster.leader {
            let lead = LeaderSource(leader.name.as_str(), exclude_name);
            assert((|m: Member| lead.holds(m)) =~= leader_source(leader.name@, exclude_name@));
            if let Some(i) = find_member(&cluster.members, &lead) {
                return Some(&cluster.members[i]);
            }
        }
        let running = RunningSource(exclude_name);
        assert((|m: Member| running.holds(m)) =~= running_source(exclude_name@));
        match find_member(&cluster.members, &running) {
            Some(i) => Some(&cluster.members[i]),
            None => None,
        }
    }

    /// The arguments that options of `initdb` stand for.
    pub fn parse_initdb_options(options: &[InitdbOption]) -> (r: Vec<String>)
        ensures
            text::strs(r@) == all_args(options@),
    {
        let mut out: Vec<String> = Vec::new();
        let mut i: usize = 0;
        assert(text::strs(out@) =~= all_args(options@.take(0)));
        while i < options.len()
            invariant
                i <= options@.len(),
                text::strs(out@) == all_args(options@.take(i as int)),
            decreases options@.len() - i,
        {
            assert(options@.take(i + 1).drop_last() =~= options@.take(i as int));
            push_option(&mut out, &options[i]);
            i = i + 1;
        }
        assert(options@.take(i as int) =~= options@);
        out
    }

    /// `postgresql.conf` with the settings of the agent in place of those that it had.
    pub fn write_pg_config(c: &PostgresqlConfig, existing: &str) -> (r: String)
        ensures
            r@ == pg_conf(*c, existing@),
    {
        let v = chars_of(existing);
        let key = chars_of("# pg-ha managed settings");
        let n: usize = v.len();
        let cleaned = match find_chars(&v, &key) {
            Some(i) => {
                let s = string_of(&v, 0, i);
                assert(s@ =~= existing@.take(i as int));
                s
            },
            None => {
                let s = string_of(&v, 0, n);
                assert(s@ =~= existing@);
                s
            },
        };
        let mut r = trim_trailing(cleaned.as_str());
        r.append("\n");
        r.append("# pg-ha managed settings");
        r.append(build_managed_settings(c).as_str());
        r
    }

    /// The contents of `pg_hba.conf`, which let a user replicate.
    pub fn write_hba_config(user: &str) -> (r: String)
        ensures
            r@ == hba_conf(user@),
    {
        let mut r =
            "# pg-ha managed\nlocal   all             all                                     trust\nhost    all             all             0.0.0.0/0               trust\nhost    all             all             ::/0                    trust\nlocal   replication     all                                     trust\nhost    replication     ".to_string();
        r.append(user);
        r.append("     0.0.0.0/0               trust\nhost    replication     ");
        r.append(user);
        r.append("     ::/0                    trust\n");
        r
    }

    /// How a command that replaces `initdb` went: whether it ended well and has filled the data
    /// directory.
    pub fn run_custom_bootstrap(success: bool, filled: bool, stderr: &str) -> (r: Result<(), Error>)
        ensures
            match r {
                Ok(_) => success && filled,
                Err(e) => e is Postgres && if success {
                    !filled && e->Postgres_0@
                        == "Custom bootstrap command succeeded but data directory is empty"@
                } else {
                    e->Postgres_0@ == "Custom bootstrap command failed: "@ + stderr@
                },
            },
    {
        if success {
            if !filled {
                return Err(
                    Error::Postgres(
                        "Custom bootstrap command succeeded but data directory is empty".to_string(),
                    ),
                );
            }
            Ok(())
        } else {
            let mut m = "Custom bootstrap command failed: ".to_string();
            m.append(stderr);
            Err(Error::Postgres(m))
        }
    }
}

// ---------------------------------------------------------------------------------------------
// Cloning a node
// ---------------------------------------------------------------------------------------------
/// The contents of a [`BootstrapResult`].
pub enum ResultView {
    InitializedAsPrimary,
    ClonedAsReplica,
    LostRace,
    Failed(Seq<char>),
}

impl View for BootstrapResult {
    type V = ResultView;

    open spec fn view(&self) -> ResultView {
        match *self {
            BootstrapResult::InitializedAsPrimary => ResultView::InitializedAsPrimary,
            BootstrapResult::ClonedAsReplica => ResultView::ClonedAsReplica,
            BootstrapResult::LostRace => ResultView::LostRace,
            BootstrapResult::Failed(e) => ResultView::Failed(e@),
        }
    }
}

/// What cloning waits for.
#[derive(Debug)]
pub enum ClonePhase {
    /// Nothing was done yet.
    Asked,
    /// The copy of the data.
    Copying,
    /// The settings of PostgreSQL.
    Configuring,
    /// The mark of a standby.
    Marking,
    /// The configuration of the standby.
    Pointing,
    /// The removal of what was copied, because of this failure.
    CleaningUp(String),
    Over,
}

/// The contents of a [`ClonePhase`].
pub enum ClonePhaseView {
    Asked,
    Copying,
    Configuring,
    Marking,
    Pointing,
    CleaningUp(Seq<char>),
    Over,
}

impl View for ClonePhase {
    type V = ClonePhaseView;

    open spec fn view(&self) -> ClonePhaseView {
        match *self {
            ClonePhase::Asked => ClonePhaseView::Asked,
            ClonePhase::Copying => ClonePhaseView::Copying,
            ClonePhase::Configuring => ClonePhaseView::Configuring,
            ClonePhase::Marking => ClonePhaseView::Marking,
            ClonePhase::Pointing => ClonePhaseView::Pointing,
            ClonePhase::CleaningUp(e) => ClonePhaseView::CleaningUp(e@),
            ClonePhase::Over => ClonePhaseView::Over,
        }
    }
}

/// What cloning asks for.
#[derive(Debug)]
pub enum CloneOrder {
    Nothing,
    /// Copy the data of the node that this connects to.
    Copy(String),
    /// Write `postgresql.conf` and `pg_hba.conf`.
    WriteSettings,
    /// Mark the data directory as that of a standby.
    MarkStandby,
    /// Write `postgresql.auto.conf`.
    WriteConf(String),
    /// Remove what was copied.
    CleanUp,
    Finish(BootstrapResult),
}

/// The contents of a [`CloneOrder`].
pub enum CloneOrderView {
    Nothing,
    Copy(Seq<char>),
    WriteSettings,
    MarkStandby,
    WriteConf(Seq<char>),
    CleanUp,
    Finish(ResultView),
}

impl View for CloneOrder {
    type V = CloneOrderView;

    open spec fn view(&self) -> CloneOrderView {
        match *self {
            CloneOrder::Nothing => CloneOrderView::Nothing,
            CloneOrder::Copy(s) => CloneOrderView::Copy(s@),
            CloneOrder::WriteSettings => CloneOrderView::WriteSettings,
            CloneOrder::MarkStandby => CloneOrderView::MarkStandby,
            CloneOrder::WriteConf(s) => CloneOrderView::WriteConf(s@),
            CloneOrder::CleanUp => CloneOrderView::CleanUp,
            CloneOrder::Finish(r) => CloneOrderView::Finish(r@),
        }
    }
}

/// How cloning from `source` goes on: its data is copied. If that went well, the settings, the mark
/// of a standby and the configuration `conf` are written; otherwise what was copied is removed.
pub open spec fn clone_steps(
    name: Seq<char>,
    source: Seq<char>,
    conf: Seq<char>,
    p: ClonePhaseView,
    fault: Option<Seq<char>>,
) -> (ClonePhaseView, CloneOrderView) {
    match (p, fault) {
        (ClonePhaseView::Asked, _) => (ClonePhaseView::Copying, CloneOrderView::Copy(source)),
        (ClonePhaseView::Copying, None) => (
            ClonePhaseView::Configuring,
            CloneOrderView::WriteSettings,
        ),
        (ClonePhaseView::Copying, Some(e)) => (
            ClonePhaseView::CleaningUp("Clone from "@ + name + " failed: "@ + e),
            CloneOrderView::CleanUp,
        ),
        (ClonePhaseView::Configuring, _) => (ClonePhaseView::Marking, CloneOrderView::MarkStandby),
        (ClonePhaseView::Marking, _) => (
            ClonePhaseView::Pointing,
            CloneOrderView::WriteConf(conf),
        ),
        (ClonePhaseView::Pointing, _) => (
            ClonePhaseView::Over,
            CloneOrderView::Finish(ResultView::ClonedAsReplica),
        ),
        (ClonePhaseView::CleaningUp(e), _) => (
            ClonePhaseView::Over,
            CloneOrderView::Finish(ResultView::Failed(e)),
        ),
        (ClonePhaseView::Over, _) => (ClonePhaseView::Over, CloneOrderView::Nothing),
    }
}

/// How the cloning of a node goes on. Without a member to clone from it is over at once.
pub open spec fn clone_next(h: Ha, p: ClonePhaseView, fault: Option<Seq<char>>) -> (
    ClonePhaseView,
    CloneOrderView,
) {
    match clone_source(h.cluster, h.config.name@) {
        Some(m) => clone_steps(
            m.name@,
            m.conn_url@,
            report::standby_conf_of(h, m.conn_url@, StandbyReason::Standby),
            p,
            fault,
        ),
        None => if p == ClonePhaseView::Over {
            (ClonePhaseView::Over, CloneOrderView::Nothing)
        } else {
            (
                ClonePhaseView::Over,
                CloneOrderView::Finish(ResultView::Failed("No suitable clone source found"@)),
            )
        },
    }
}

impl Bootstrap {
    /// Goes on with the cloning of a node, once what it waited for was done or has failed.
    pub fn clone_from_member(ha: &Ha, p: ClonePhase, result: Result<(), String>) -> (r: (
        ClonePhase,
        CloneOrder,
    ))
        ensures
            (r.0@, r.1@) == clone_next(*ha, p@, operations::fault(result)),
    {
        let source = match Bootstrap::select_clone_source(&ha.cluster, ha.config.name.as_str()) {
            Some(m) => m,
            None => {
                return match p {
                    ClonePhase::Over => (ClonePhase::Over, CloneOrder::Nothing),
                    _ => (
                        ClonePhase::Over,
                        CloneOrder::Finish(
                            BootstrapResult::Failed("No suitable clone source found".to_string()),
                        ),
                    ),
                };
            },
        };
        match p {
            ClonePhase::Asked => (ClonePhase::Copying, CloneOrder::Copy(source.conn_url.clone())),
            ClonePhase::Copying => match result {
                Ok(_) => (ClonePhase::Configuring, CloneOrder::WriteSettings),
                Err(e) => {
                    let mut m = "Clone from ".to_string();
                    m.append(source.name.as_str());
                    m.append(" failed: ");
                    m.append(e.as_str());
                    (ClonePhase::CleaningUp(m), CloneOrder::CleanUp)
                },
            },
            ClonePhase::Configuring => (ClonePhase::Marking, CloneOrder::MarkStandby),
            ClonePhase::Marking => (
                ClonePhase::Pointing,
                CloneOrder::WriteConf(
                    ha.standby_conf(source.conn_url.as_str(), StandbyReason::Standby),
                ),
            ),
            ClonePhase::Pointing => (
                ClonePhase::Over,
                CloneOrder::Finish(BootstrapResult::ClonedAsReplica),
            ),
            ClonePhase::CleaningUp(e) => (
                ClonePhase::Over,
                CloneOrder::Finish(BootstrapResult::Failed(e)),
            ),
            ClonePhase::Over => (ClonePhase::Over, CloneOrder::Nothing),
        }
    }
}

// ---------------------------------------------------------------------------------------------
// Creating a cluster
// ---------------------------------------------------------------------------------------------
/// What the creation of a cluster waits for.
#[derive(Debug, Clone, Copy, PartialEq, Eq, Structural)]
pub enum BootPhase {
    /// The right to create the cluster.
    Racing,
    /// The data directory.
    Creating,
    /// The configuration of PostgreSQL.
    Configuring,
    Starting,
    /// Statements that were given for the first start.
    RunningSql,
    /// The first cluster-wide configuration.
    StoringConfig,
    /// The removal of what was created, because of a failure.
    CleaningUp(BootEnd),
    Over,
}

/// How the creation of a cluster ended.
#[derive(Debug, Clone, Copy, PartialEq, Eq, Structural)]
pub enum BootEnd {
    Created,
    LostRace,
    RaceFailed,
    CreateFailed,
    StartFailed,
}

/// What the creation of a cluster asks for.
#[derive(Debug, Clone, Copy, PartialEq, Eq, Structural)]
pub enum BootOrder {
    Nothing,
    Race,
    RunCommand,
    RunInitdb,
    WriteConfig,
    Start,
    RunSql,
    StoreConfig,
    CleanUp,
    Finish(BootEnd),
}

/// The statements for the first start, in their order.
pub open spec fn first_statements(c: BootstrapConfig) -> Seq<Seq<char>> {
    text::strs(c.post_init@) + text::strs(c.post_bootstrap_sql@)
}

/// The statements for the first start, if there are any, are run next.
pub open spec fn sql_rule(c: BootstrapConfig) -> (BootPhase, BootOrder) {
    if first_statements(c).len() > 0 {
        (BootPhase::RunningSql, BootOrder::RunSql)
    } else {
        store_rule(c)
    }
}

/// The first cluster-wide configuration, if there is one, is stored next.
pub open spec fn store_rule(c: BootstrapConfig) -> (BootPhase, BootOrder) {
    if c.dcs@ != Map::<Seq<char>, crate::json::JsonView>::empty() {
        (BootPhase::StoringConfig, BootOrder::StoreConfig)
    } else {
        (BootPhase::Over, BootOrder::Finish(BootEnd::Created))
    }
}

/// The next order after the last one went as `a` says.
pub open spec fn boot_next(p: BootPhase, c: BootstrapConfig, a: Answer) -> (BootPhase, BootOrder) {
    match p {
        BootPhase::Racing => match a {
            Answer::Done => (
                BootPhase::Creating,
                if c.custom_command is Some {
                    BootOrder::RunCommand
                } else {
                    BootOrder::RunInitdb
                },
            ),
            Answer::Refused => (BootPhase::Over, BootOrder::Finish(BootEnd::LostRace)),
            _ => (BootPhase::Over, BootOrder::Finish(BootEnd::RaceFailed)),
        },
        BootPhase::Creating => if a == Answer::Done {
            (BootPhase::Configuring, BootOrder::WriteConfig)
        } else {
            (BootPhase::CleaningUp(BootEnd::CreateFailed), BootOrder::CleanUp)
        },
        BootPhase::Configuring => (BootPhase::Starting, BootOrder::Start),
        BootPhase::Starting => if a == Answer::Done {
            sql_rule(c)
        } else {
            (BootPhase::CleaningUp(BootEnd::StartFailed), BootOrder::CleanUp)
        },
        BootPhase::RunningSql => store_rule(c),
        BootPhase::StoringConfig => (BootPhase::Over, BootOrder::Finish(BootEnd::Created)),
        BootPhase::CleaningUp(end) => (BootPhase::Over, BootOrder::Finish(end)),
        BootPhase::Over => (BootPhase::Over, BootOrder::Nothing),
    }
}

fn store_order(c: &BootstrapConfig) -> (r: (BootPhase, BootOrder))
    ensures
        r == store_rule(*c),
{
    if c.dcs.is_empty() {
        (BootPhase::Over, BootOrder::Finish(BootEnd::Created))
    } else {
        (BootPhase::StoringConfig, BootOrder::StoreConfig)
    }
}

impl Bootstrap {
    /// Goes on with the creation of a cluster once an order was carried out. It begins with the
    /// race for the right to create it.
    pub fn bootstrap_new_cluster(p: BootPhase, c: &BootstrapConfig, a: Answer) -> (r: (
        BootPhase,
        BootOrder,
    ))
        ensures
            r == boot_next(p, *c, a),
    {
        match p {
            BootPhase::Racing => match a {
                Answer::Done => {
                    if c.custom_command.is_some() {
                        (BootPhase::Creating, BootOrder::RunCommand)
                    } else {
                        (BootPhase::Creating, BootOrder::RunInitdb)
                    }
                },
                Answer::Refused => (BootPhase::Over, BootOrder::Finish(BootEnd::LostRace)),
                _ => (BootPhase::Over, BootOrder::Finish(BootEnd::RaceFailed)),
            },
            BootPhase::Creating => {
                if a == Answer::Done {
                    (BootPhase::Configuring, BootOrder::WriteConfig)
                } else {
                    (BootPhase::CleaningUp(BootEnd::CreateFailed), BootOrder::CleanUp)
                }
            },
            BootPhase::Configuring => (BootPhase::Starting, BootOrder::Start),
            BootPhase::Starting => {
                if a != Answer::Done {
                    (BootPhase::CleaningUp(BootEnd::StartFailed), BootOrder::CleanUp)
                } else if c.post_init.len() > 0 || c.post_bootstrap_sql.len() > 0 {
                    (BootPhase::RunningSql, BootOrder::RunSql)
                } else {
                    store_order(c)
                }
            },
            BootPhase::RunningSql => store_order(c),
            BootPhase::StoringConfig => (BootPhase::Over, BootOrder::Finish(BootEnd::Created)),
            BootPhase::CleaningUp(end) => (BootPhase::Over, BootOrder::Finish(end)),
            BootPhase::Over => (BootPhase::Over, BootOrder::Nothing),
        }
    }

    /// The statements to run when PostgreSQL of a new cluster has started, in their order.
    pub fn statements(c: &BootstrapConfig) -> (r: Vec<String>)
        ensures
            text::strs(r@) == first_statements(*c),
    {
        let mut r = clone_strings(&c.post_init);
        let mut i: usize = 0;
        assert(text::strs(r@) =~= text::strs(c.post_init@) + text::strs(
            c.post_bootstrap_sql@,
        ).take(0));
        while i < c.post_bootstrap_sql.len()
            invariant
                i <= c.post_bootstrap_sql@.len(),
                text::strs(r@) == text::strs(c.post_init@) + text::strs(
                    c.post_bootstrap_sql@,
                ).take(i as int),
            decreases c.post_bootstrap_sql@.len() - i,
        {
            let ghost before = r@;
            r.push(c.post_bootstrap_sql[i].clone());
            i = i + 1;
            assert(text::strs(r@) =~= text::strs(before).push(c.post_bootstrap_sql@[i - 1]@));
            assert(text::strs(r@) =~= text::strs(c.post_init@) + text::strs(
                c.post_bootstrap_sql@,
            ).take(i as int));
        }
        assert(text::strs(c.post_bootstrap_sql@).take(i as int) =~= text::strs(
            c.post_bootstrap_sql@,
        ));
        r
    }

    /// How the creation of a cluster ended, in words; `error` says what went wrong where something
    /// did.
    pub fn result(end: BootEnd, error: &str) -> (r: BootstrapResult)
        ensures
            match end {
                BootEnd::Created => r is InitializedAsPrimary,
                BootEnd::LostRace => r is LostRace,
                BootEnd::RaceFailed => r matches BootstrapResult::Failed(m) && m@
                    == "DCS initialize error: "@ + error@,
                BootEnd::CreateFailed => r matches BootstrapResult::Failed(m) && m@ == error@,
                BootEnd::StartFailed => r matches BootstrapResult::Failed(m) && m@
                    == "Start after bootstrap failed: "@ + error@,
            },
    {
        match end {
            BootEnd::Created => BootstrapResult::InitializedAsPrimary,
            BootEnd::LostRace => BootstrapResult::LostRace,
            BootEnd::RaceFailed => {
                let mut m = "DCS initialize error: ".to_string();
                m.append(error);
                BootstrapResult::Failed(m)
            },
            BootEnd::CreateFailed => BootstrapResult::Failed(error.to_string()),
            BootEnd::StartFailed => {
                let mut m = "Start after bootstrap failed: ".to_string();
                m.append(error);
                BootstrapResult::Failed(m)
            },
        }
    }
}

impl BootstrapResult {
    /// What the control loop is told when it has asked for a new cluster.
    pub fn answer_to_bootstrap(&self) -> (r: Answer)
        ensures
            r == match *self {
                BootstrapResult::InitializedAsPrimary => Answer::Done,
                BootstrapResult::LostRace => Answer::Refused,
                BootstrapResult::Failed(_) => Answer::Failed,
                BootstrapResult::ClonedAsReplica => Answer::Other,
            },
    {
        match self {
            BootstrapResult::InitializedAsPrimary => Answer::Done,
            BootstrapResult::LostRace => Answer::Refused,
            BootstrapResult::Failed(_) => Answer::Failed,
            BootstrapResult::ClonedAsReplica => Answer::Other,
        }
    }

    /// What the control loop is told when it has asked for a clone.
    pub fn answer_to_clone(&self) -> (r: Answer)
        ensures
            r == match *self {
                BootstrapResult::ClonedAsReplica => Answer::Done,
                BootstrapResult::Failed(_) => Answer::Failed,
                _ => Answer::Other,
            },
    {
        match self {
            BootstrapResult::ClonedAsReplica => Answer::Done,
            BootstrapResult::Failed(_) => Answer::Failed,
            _ => Answer::Other,
        }
    }
}

// ---------------------------------------------------------------------------------------------
// Laws
// ---------------------------------------------------------------------------------------------
/// How far the end of a creation is at most.
pub open spec fn boot_rank(p: BootPhase) -> nat {
    match p {
        BootPhase::Over => 0,
        BootPhase::CleaningUp(_) => 1,
        BootPhase::StoringConfig => 1,
        BootPhase::RunningSql => 2,
        BootPhase::Starting => 3,
        BootPhase::Configuring => 4,
        BootPhase::Creating => 5,
        BootPhase::Racing => 6,
    }
}

/// Every creation ends, and says how. What was created is removed exactly if its creation or its
/// first start has failed; a failure of the statements or of the stored configuration is no
/// failure of the creation.
pub proof fn law_creation_ends(p: BootPhase, c: BootstrapConfig, a: Answer)
    requires
        p != BootPhase::Over,
    ensures
        boot_rank(boot_next(p, c, a).0) < boot_rank(p),
        boot_next(p, c, a).1 is Finish <==> boot_next(p, c, a).0 == BootPhase::Over,
        boot_next(p, c, a).1 == BootOrder::CleanUp <==> a != Answer::Done && (p
            == BootPhase::Creating || p == BootPhase::Starting),
        boot_next(p, c, a).1 == BootOrder::RunInitdb || boot_next(p, c, a).1
            == BootOrder::RunCommand ==> p == BootPhase::Racing && a == Answer::Done,
{
}

/// How far the end of a cloning is at most.
pub open spec fn clone_rank(p: ClonePhaseView) -> nat {
    match p {
        ClonePhaseView::Over => 0,
        ClonePhaseView::CleaningUp(_) => 1,
        ClonePhaseView::Pointing => 1,
        ClonePhaseView::Marking => 2,
        ClonePhaseView::Configuring => 3,
        ClonePhaseView::Copying => 4,
        ClonePhaseView::Asked => 5,
    }
}

/// Every cloning ends, and says how. Settings are written only over a copy that went well, and what
/// was copied is removed exactly if the copy has failed; the node counts as cloned only when it was
/// made a standby.
pub proof fn law_cloning_ends(h: Ha, p: ClonePhaseView, fault: Option<Seq<char>>)
    requires
        p != ClonePhaseView::Over,
    ensures
        clone_rank(clone_next(h, p, fault).0) < clone_rank(p),
        clone_next(h, p, fault).1 is Finish <==> clone_next(h, p, fault).0 == ClonePhaseView::Over,
        clone_source(h.cluster, h.config.name@) is Some ==> {
            let order = clone_next(h, p, fault).1;
            &&& order is Copy <==> p == ClonePhaseView::Asked
            &&& order == CloneOrderView::WriteSettings <==> p == ClonePhaseView::Copying
                && fault is None
            &&& order == CloneOrderView::CleanUp <==> p == ClonePhaseView::Copying && fault is Some
            &&& order == CloneOrderView::MarkStandby <==> p == ClonePhaseView::Configuring
            &&& order is WriteConf <==> p == ClonePhaseView::Marking
            &&& order == CloneOrderView::Finish(ResultView::ClonedAsReplica) <==> p
                == ClonePhaseView::Pointing
        },
{
}

/// A node is never cloned from itself, nor from a member that bars it.
pub proof fn law_clone_source_is_another_member(c: Cluster, exclude: Seq<char>)
    ensures
        clone_source(c, exclude) matches Some(m) ==> cluster::clonable(m, exclude),
{
    cluster::lemma_first_index(c.members@, preferred_source(exclude));
    if let Some(l) = c.leader {
        cluster::lemma_first_index(c.members@, leader_source(l.name@, exclude));
    }
    cluster::lemma_first_index(c.members@, running_source(exclude));
}

proof fn lemma_trim_end(s: Seq<char>)
    ensures
        text::trim_end(s).len() <= s.len(),
        text::trim_end(s) == s.take(text::trim_end(s).len() as int),
        text::trim_end(text::trim_end(s)) == text::trim_end(s),
    decreases s.len(),
{
    if s.len() > 0 && text::is_ws(s.last()) {
        lemma_trim_end(s.drop_last());
        let t = text::trim_end(s.drop_last());
        assert(s.drop_last().take(t.len() as int) =~= s.take(t.len() as int));
    } else {
        assert(s.take(s.len() as int) =~= s);
    }
}

/// Writing the settings of the agent again replaces those of before: nothing of them is left, and
/// what stood before them stays.
pub proof fn law_settings_are_replaced(
    c1: PostgresqlConfig,
    c2: PostgresqlConfig,
    existing: Seq<char>,
)
    ensures
        pg_conf(c2, pg_conf(c1, existing)) == pg_conf(c2, existing),
{
    reveal_strlit("# pg-ha managed settings");
    reveal_strlit("\n");
    let m = marker();
    let kept = unmanaged(existing);
    let t = text::trim_end(kept);
    let n = t.len() as int;
    let s = pg_conf(c1, existing);
    text::lemma_find(existing, m);
    lemma_trim_end(kept);
    assert(s.subrange(n + 1, n + 1 + m.len()) =~= m);
    assert forall|j: int| 0 <= j < n + 1 implies !#[trigger] text::occurs_at(s, m, j) by {
        if text::occurs_at(s, m, j) {
            let w = s.subrange(j, j + m.len());
            if j + m.len() <= n {
                assert(existing.subrange(j, j + m.len()) =~= w) by {
                    assert forall|k: int| 0 <= k < m.len() implies existing.subrange(
                        j,
                        j + m.len(),
                    )[k] == w[k] by {
                        assert(t[j + k] == kept[j + k]);
                    }
                }
                assert(text::occurs_at(existing, m, j));
                match text::find(existing, m) {
                    Some(i) => {
                        assert(j < i);
                        assert(!text::occurs_at(existing, m, j));
                    },
                    None => {
                        assert(!text::contains_sub(existing, m));
                    },
                }
            } else {
                assert(w[n - j] == '\n');
                assert(m[n - j] != '\n');
            }
        }
    }
    assert(text::first_at(s, m, n + 1));
    text::lemma_find(s, m);
    let f = text::find(s, m)->0;
    if f < n + 1 {
        assert(!text::occurs_at(s, m, f));
    }
    if n + 1 < f {
        assert(!text::occurs_at(s, m, n + 1));
    }
    assert(unmanaged(s) =~= t + "\n"@);
    assert((t + "\n"@).drop_last() =~= t);
    assert((t + "\n"@).last() == '\n');
}

/// There are statements for the first start.
pub open spec fn has_statements(c: BootstrapConfig) -> bool {
    c.post_init@.len() > 0 || c.post_bootstrap_sql@.len() > 0
}

/// There is a first cluster-wide configuration to store.
pub open spec fn has_config(c: BootstrapConfig) -> bool {
    c.dcs@ != Map::<Seq<char>, crate::json::JsonView>::empty()
}

/// The order is the one that is waited for in the phase.
pub open spec fn boot_awaits(p: BootPhase, o: BootOrder) -> bool {
    match o {
        BootOrder::Nothing => p == BootPhase::Over,
        BootOrder::Race => p == BootPhase::Racing,
        BootOrder::RunCommand => p == BootPhase::Creating,
        BootOrder::RunInitdb => p == BootPhase::Creating,
        BootOrder::WriteConfig => p == BootPhase::Configuring,
        BootOrder::Start => p == BootPhase::Starting,
        BootOrder::RunSql => p == BootPhase::RunningSql,
        BootOrder::StoreConfig => p == BootPhase::StoringConfig,
        BootOrder::CleanUp => p is CleaningUp,
        BootOrder::Finish(_) => p == BootPhase::Over,
    }
}

/// A cluster counts as created only after PostgreSQL has started well. PostgreSQL is started once the
/// configuration is written, and that once the data directory was created. Statements are run after
/// the start, and only if there are any; the first configuration is stored after them, and only if
/// there is one. What comes of those two makes no difference.
pub proof fn law_created_only_after_a_good_start(p: BootPhase, c: BootstrapConfig, a: Answer)
    ensures
        ({
            let o = boot_next(p, c, a).1;
            let started = p == BootPhase::Starting && a == Answer::Done;
            &&& boot_awaits(boot_next(p, c, a).0, o)
            &&& o == BootOrder::WriteConfig <==> p == BootPhase::Creating && a == Answer::Done
            &&& o == BootOrder::Start <==> p == BootPhase::Configuring
            &&& o == BootOrder::RunSql <==> started && has_statements(c)
            &&& o == BootOrder::StoreConfig <==> has_config(c) && (p == BootPhase::RunningSql || (
            started && !has_statements(c)))
            &&& o == BootOrder::Finish(BootEnd::Created) <==> p == BootPhase::StoringConfig || (
            !has_config(c) && (p == BootPhase::RunningSql || (started && !has_statements(c)))) || p
                == BootPhase::CleaningUp(BootEnd::Created)
            &&& o == BootOrder::Finish(BootEnd::Created) ==> started || p == BootPhase::RunningSql
                || p == BootPhase::StoringConfig || p == BootPhase::CleaningUp(BootEnd::Created)
            &&& boot_next(p, c, a).0 != BootPhase::CleaningUp(BootEnd::Created)
        }),
{
    assert(text::strs(c.post_init@).len() == c.post_init@.len());
    assert(text::strs(c.post_bootstrap_sql@).len() == c.post_bootstrap_sql@.len());
}

/// Only the node that has won the race creates the cluster, by the command that was given for it or
/// else by `initdb`. Whoever loses it says so, and so does whoever could not ask.
pub proof fn law_race_is_won_first(p: BootPhase, c: BootstrapConfig, a: Answer)
    ensures
        ({
            let o = boot_next(p, c, a).1;
            &&& o == BootOrder::RunCommand <==> p == BootPhase::Racing && a == Answer::Done
                && c.custom_command is Some
            &&& o == BootOrder::RunInitdb <==> p == BootPhase::Racing && a == Answer::Done
                && c.custom_command is None
            &&& o == BootOrder::Finish(BootEnd::LostRace) <==> (p == BootPhase::Racing && a
                == Answer::Refused) || p == BootPhase::CleaningUp(BootEnd::LostRace)
            &&& o == BootOrder::Finish(BootEnd::RaceFailed) <==> (p == BootPhase::Racing && a
                != Answer::Done && a != Answer::Refused) || p == BootPhase::CleaningUp(
                BootEnd::RaceFailed,
            )
            &&& o != BootOrder::Race
            &&& o == BootOrder::Nothing <==> p == BootPhase::Over
        }),
{
}

/// A creation that has failed cleans up and then says at which step it has failed.
pub proof fn law_failed_creation_cleans_up(p: BootPhase, c: BootstrapConfig, a: Answer, a2: Answer)
    requires
        a != Answer::Done,
        p == BootPhase::Creating || p == BootPhase::Starting,
    ensures
        boot_next(p, c, a).1 == BootOrder::CleanUp,
        p == BootPhase::Creating ==> boot_next(boot_next(p, c, a).0, c, a2) == (
            BootPhase::Over,
            BootOrder::Finish(BootEnd::CreateFailed),
        ),
        p == BootPhase::Starting ==> boot_next(boot_next(p, c, a).0, c, a2) == (
            BootPhase::Over,
            BootOrder::Finish(BootEnd::StartFailed),
        ),
{
}

/// A creation in which everything goes well creates the data, writes the configuration, starts
/// PostgreSQL, runs the statements, stores the configuration, and ends.
pub proof fn law_creation_from_start_to_end(c: BootstrapConfig, a: Answer, a2: Answer, a3: Answer)
    requires
        has_statements(c),
        has_config(c),
    ensures
        ({
            let won = boot_next(BootPhase::Racing, c, Answer::Done);
            let created = boot_next(won.0, c, Answer::Done);
            let configured = boot_next(created.0, c, a);
            let started = boot_next(configured.0, c, Answer::Done);
            let run = boot_next(started.0, c, a2);
            let stored = boot_next(run.0, c, a3);
            &&& created.1 == BootOrder::WriteConfig
            &&& configured.1 == BootOrder::Start
            &&& started.1 == BootOrder::RunSql
            &&& run.1 == BootOrder::StoreConfig
            &&& stored.1 == BootOrder::Finish(BootEnd::Created)
        }),
{
    assert(text::strs(c.post_init@).len() == c.post_init@.len());
    assert(text::strs(c.post_bootstrap_sql@).len() == c.post_bootstrap_sql@.len());
}

/// The statements for the first start are all of both lists, `post_init` first.
pub proof fn law_statements_are_those_of_both_lists(c: BootstrapConfig, i: int)
    ensures
        first_statements(c).len() == c.post_init@.len() + c.post_bootstrap_sql@.len(),
        0 <= i < c.post_init@.len() ==> first_statements(c)[i] == c.post_init@[i]@,
        0 <= i < c.post_bootstrap_sql@.len() ==> first_statements(c)[c.post_init@.len() + i]
            == c.post_bootstrap_sql@[i]@,
{
}

/// A node is cloned from a member that may be cloned. One that is marked for it comes first, then the
/// leader, then one that runs; there is none only where none of these exists.
pub proof fn law_clone_source_is_the_best(c: Cluster, exclude: Seq<char>, i: int)
    requires
        0 <= i < c.members@.len(),
        c.members@[i].name@ != exclude,
        !cluster::flag(c.members@[i].tags@, "noclone"@),
    ensures
        ({
            let m = c.members@[i];
            let source = clone_source(c, exclude);
            let leads = |x: Member| c.leader is Some && x.name@ == c.leader->0.name@;
            &&& cluster::flag(m.tags@, "clonefrom"@) ==> source is Some && cluster::flag(
                source->0.tags@,
                "clonefrom"@,
            )
            &&& leads(m) ==> source is Some && (cluster::flag(source->0.tags@, "clonefrom"@) || leads(
                source->0,
            ))
            &&& m.state == MemberState::Running ==> source is Some
            &&& source is Some ==> c.members@.contains(source->0) && (cluster::flag(
                source->0.tags@,
                "clonefrom"@,
            ) || leads(source->0) || source->0.state == MemberState::Running)
        }),
{
    let p = preferred_source(exclude);
    cluster::lemma_first_index(c.members@, p);
    if cluster::first_index(c.members@, p) is None {
        assert(!p(c.members@[i]));
    }
    if let Some(l) = c.leader {
        let q = leader_source(l.name@, exclude);
        cluster::lemma_first_index(c.members@, q);
        if cluster::first_index(c.members@, q) is None {
            assert(!q(c.members@[i]));
        }
    }
    let r = running_source(exclude);
    cluster::lemma_first_index(c.members@, r);
    if cluster::first_index(c.members@, r) is None {
        assert(!r(c.members@[i]));
    }
}

/// A cloning copies the data of its source, follows that source afterwards, and says why it failed if
/// it did. Without a source it fails at once.
pub proof fn law_clone_copies_and_follows_its_source(
    h: Ha,
    p: ClonePhaseView,
    fault: Option<Seq<char>>,
    e: Seq<char>,
)
    ensures
        clone_source(h.cluster, h.config.name@) matches Some(m) ==> {
            let r = clone_next(h, p, fault);
            &&& p == ClonePhaseView::Asked ==> r == (
                ClonePhaseView::Copying,
                CloneOrderView::Copy(m.conn_url@),
            )
            &&& p == ClonePhaseView::Copying && fault is None ==> r.0 == ClonePhaseView::Configuring
            &&& p == ClonePhaseView::Copying && fault == Some(e) ==> r.0
                == ClonePhaseView::CleaningUp("Clone from "@ + m.name@ + " failed: "@ + e)
            &&& p == ClonePhaseView::Configuring ==> r.0 == ClonePhaseView::Marking
            &&& p == ClonePhaseView::Marking ==> r == (
                ClonePhaseView::Pointing,
                CloneOrderView::WriteConf(
                    report::standby_conf_of(h, m.conn_url@, StandbyReason::Standby),
                ),
            )
            &&& p == ClonePhaseView::CleaningUp(e) ==> r == (
                ClonePhaseView::Over,
                CloneOrderView::Finish(ResultView::Failed(e)),
            )
            &&& p == ClonePhaseView::Over ==> r == (ClonePhaseView::Over, CloneOrderView::Nothing)
        },
        clone_source(h.cluster, h.config.name@) is None && p != ClonePhaseView::Over ==> clone_next(
            h,
            p,
            fault,
        ) == (
            ClonePhaseView::Over,
            CloneOrderView::Finish(ResultView::Failed("No suitable clone source found"@)),
        ),
{
}

/// An option without a value is one argument; options with values are one argument each, with an
/// equals sign. Options are handed on in their order.
pub proof fn law_options_become_arguments(options: Seq<InitdbOption>, o: InitdbOption, i: int)
    ensures
        all_args(options.push(o)) == all_args(options) + option_args(o),
        all_args(Seq::<InitdbOption>::empty()).len() == 0,
        o matches InitdbOption::Flag(f) ==> option_args(o) == seq![f@],
        o matches InitdbOption::KeyValue(m) ==> option_args(o).len() == m.pairs().len() && (0 <= i
            < m.pairs().len() ==> option_args(o)[i] == m.pairs()[i].0 + seq!['='] + m.pairs()[i].1),
{
    assert(options.push(o).drop_last() =~= options);
    reveal_strlit("=");
    assert("="@ =~= seq!['=']);
}

/// A value is written in quotation marks unless it spells a number or a truth value; its own
/// quotation marks do not count. A parameter that the agent sets itself is not set a second time.
pub proof fn law_values_are_quoted(k: Seq<char>, v: Seq<char>, p: Seq<(Seq<char>, Seq<char>)>)
    ensures
        ({
            let clean = strip::unquoted(v);
            let truth = clean == "on"@ || clean == "off"@ || clean == "true"@ || clean == "false"@
                || clean == "yes"@ || clean == "no"@;
            &&& is_number(clean) || truth ==> param_line(k, v) == k + " = "@ + clean + "\n"@
            &&& !is_number(clean) && !truth ==> param_line(k, v) == k + " = '"@ + clean + "'\n"@
        }),
        builtin_key(k) ==> param_lines(p.push((k, v))) == param_lines(p),
        !builtin_key(k) ==> param_lines(p.push((k, v))) == param_lines(p) + param_line(k, v),
        builtin_key("listen_addresses"@) && builtin_key("port"@) && builtin_key("wal_level"@),
        builtin_key("max_wal_senders"@) && builtin_key("max_replication_slots"@),
        builtin_key("hot_standby"@),
{
    assert(p.push((k, v)).drop_last() =~= p);
}

/// The settings of the agent say where PostgreSQL listens, let replicas stream from it and be read
/// from, and end with the other parameters.
pub proof fn law_settings_let_replicas_stream(c: PostgresqlConfig)
    ensures
        managed_settings(c) == "\nlisten_addresses = '"@ + c.listen@ + "'\nport = "@ + text::dec(
            c.port as nat,
        )
            + "\nwal_level = replica\nmax_wal_senders = 10\nmax_replication_slots = 10\nhot_standby = on\n"@
            + param_lines(c.parameters.pairs()),
{
}

} // verus!
