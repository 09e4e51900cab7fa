//! The local PostgreSQL instance: where its files and tools are, how the tools are called, and
//! what their output means.

use vstd::prelude::*;

use crate::cluster::MemberRole;
use crate::config::PostgresqlConfig;
use crate::error::Error;
use crate::text;
use crate::text::{
    chars_of, contains, find_chars, parse_digits, parse_i32, parse_u64, split_char, str_eq,
    string_of, trim, u64_to_string, until_from,
};

verus! {

// ---------------------------------------------------------------------------------------------
// Connection strings
// ---------------------------------------------------------------------------------------------
/// What follows the value of a password that begins at the start of `s`: the value ends at the
/// next space.
pub open spec fn after_value(s: Seq<char>) -> Seq<char> {
    s.skip(text::until(s, ' ') as int)
}

/// `s` with the value after each `password=` replaced by three stars.
pub open spec fn redacted(s: Seq<char>) -> Seq<char>
    decreases s.len(),
{
    match text::find(s, "password="@) {
        Some(i) => {
            let rest = after_value(s.skip(i + 9));
            if 0 <= i <= s.len() && rest.len() < s.len() {
                s.take(i) + "password=***"@ + redacted(rest)
            } else {
                s
            }
        },
        None => s,
    }
}

/// A connection string as it may be logged: without passwords.
pub fn redact_connstr(connstr: &str) -> (r: String)
    ensures
        r@ == redacted(connstr@),
{
    let v = chars_of(connstr);
    let key = chars_of("password=");
    proof {
        reveal_strlit("password=");
    }
    let n: usize = v.len();
    let mut out = String::new();
    let mut pos: usize = 0;
    assert(v@.skip(0) =~= v@);
    assert(out@ + redacted(v@.skip(0)) =~= redacted(v@));
    loop
        invariant
            n == v@.len(),
            v@ == connstr@,
            key@ == "password="@,
            key@.len() == 9,
            pos <= n,
            out@ + redacted(v@.skip(pos as int)) == redacted(connstr@),
        decreases n - pos,
    {
        let ghost s = v@.skip(pos as int);
        let rest = string_of(&v, pos, n);
        assert(rest@ =~= s);
        let w = chars_of(rest.as_str());
        match find_chars(&w, &key) {
            None => {
                out.append(rest.as_str());
                return out;
            },
            Some(i) => {
                let ghost before = out@;
                out.append(string_of(&w, 0, i).as_str());
                out.append("password=***");
                let end = until_from(&w, i + 9, ' ');
                proof {
                    text::lemma_until(s.skip(i + 9), ' ');
                    assert(after_value(s.skip(i + 9)) =~= s.skip(end as int));
                    assert(s.skip(end as int) =~= v@.skip(pos + end));
                    assert(s.subrange(0, i as int) =~= s.take(i as int));
                }
                pos = pos + end;
                assert(out@ + redacted(v@.skip(pos as int)) =~= before + redacted(s));
            },
        }
    }
}

/// Where a log sequence number points: two hexadecimal numbers with a slash between them.
pub open spec fn lsn_parts(s: Seq<char>) -> Option<(u64, u64)> {
    let parts = text::split_on(s, '/');
    if parts.len() != 2 {
        None
    } else {
        match (
            text::parse_uint(parts[0], true, u64::MAX as nat),
            text::parse_uint(parts[1], true, u64::MAX as nat),
        ) {
            (Some(hi), Some(lo)) => Some((hi as u64, lo as u64)),
            _ => None,
        }
    }
}

fn parse_hex(s: &str) -> (r: Option<u64>)
    ensures
        match r {
            Some(n) => text::parse_uint(s@, true, u64::MAX as nat) == Some(n as nat),
            None => text::parse_uint(s@, true, u64::MAX as nat) is None,
        },
{
    let v = chars_of(s);
    if v.len() > 0 && v[0] == '+' {
        parse_digits(&v, 1, true, u64::MAX)
    } else {
        assert(v@.skip(0) =~= v@);
        parse_digits(&v, 0, true, u64::MAX)
    }
}

/// The byte position of a log sequence number such as `0/3000060`.
pub fn parse_lsn(lsn: &str) -> (r: Option<u64>)
    ensures
        r == match lsn_parts(lsn@) {
            Some(p) => Some((p.0 << 32) | p.1),
            None => None,
        },
{
    let parts = split_char(lsn, '/');
    assert(text::strs(parts@).len() == parts@.len());
    if parts.len() != 2 {
        return None;
    }
    assert(text::strs(parts@)[0] == parts@[0]@ && text::strs(parts@)[1] == parts@[1]@);
    let hi: u64 = match parse_hex(parts[0].as_str()) {
        Some(n) => n,
        None => {
            return None;
        },
    };
    let lo: u64 = match parse_hex(parts[1].as_str()) {
        Some(n) => n,
        None => {
            return None;
        },
    };
    Some((hi << 32) | lo)
}

// ---------------------------------------------------------------------------------------------
// The instance
// ---------------------------------------------------------------------------------------------
/// What the PostgreSQL process is doing.
#[derive(Debug, Clone, Copy, PartialEq, Eq, Structural)]
pub enum PgState {
    Running,
    Stopped,
    Starting,
    Crashed,
    Unknown,
}

/// How a state is written.
pub open spec fn state_text(s: PgState) -> Seq<char> {
    match s {
        PgState::Running => "running"@,
        PgState::Stopped => "stopped"@,
        PgState::Starting => "starting"@,
        PgState::Crashed => "crashed"@,
        PgState::Unknown => "unknown"@,
    }
}

impl PgState {
    /// How the state is written.
    pub fn as_str(&self) -> (r: &'static str)
        ensures
            r@ == state_text(*self),
    {
        match self {
            PgState::Running => "running",
            PgState::Stopped => "stopped",
            PgState::Starting => "starting",
            PgState::Crashed => "crashed",
            PgState::Unknown => "unknown",
        }
    }
}

/// Where an instance stands in its write-ahead log.
#[derive(Debug, Clone, Copy, PartialEq, Eq, Structural)]
pub struct WalStatus {
    pub timeline: Option<u64>,
    /// In bytes; on a replica what was received or replayed, whichever is more.
    pub wal_position: u64,
    /// Whether the instance is a replica.
    pub in_recovery: bool,
}

/// The local PostgreSQL instance.
#[derive(Debug)]
pub struct Postgresql {
    pub config: PostgresqlConfig,
    pub role: MemberRole,
    pub state: PgState,
}

/// `name` in the directory `dir`.
pub open spec fn path_in(dir: Seq<char>, name: Seq<char>) -> Seq<char> {
    if dir.len() == 0 {
        name
    } else if dir.last() == '/' {
        dir + name
    } else {
        dir + "/"@ + name
    }
}

/// `name` in the directory `dir`.
pub fn join_path(dir: &str, name: &str) -> (r: String)
    ensures
        r@ == path_in(dir@, name@),
{
    let v = chars_of(dir);
    let n: usize = v.len();
    let mut r = dir.to_string();
    if n > 0 && v[n - 1] != '/' {
        r.append("/");
    }
    r.append(name);
    assert(n == 0 ==> dir@ + name@ =~= name@);
    r
}

/// `host=.. port=.. dbname=.. user=..` and, where there is one, the password.
pub open spec fn connection_text(
    host: Seq<char>,
    port: nat,
    dbname: Seq<char>,
    user: Seq<char>,
    password: Option<Seq<char>>,
) -> Seq<char> {
    "host="@ + host + " port="@ + text::dec(port) + " dbname="@ + dbname + " user="@ + user + (
    match password {
        Some(p) => " password="@ + p,
        None => Seq::empty(),
    })
}

/// `host=.. port=.. dbname=.. user=..` and, where there is one, the password.
pub fn build_connection(
    host: &str,
    port: u16,
    dbname: &str,
    user: &str,
    password: &Option<String>,
) -> (r: String)
    ensures
        r@ == connection_text(host@, port as nat, dbname@, user@, text::opt_view(*password)),
{
    let mut r = "host=".to_string();
    r.append(host);
    r.append(" port=");
    r.append(u64_to_string(port as u64).as_str());
    r.append(" dbname=");
    r.append(dbname);
    r.append(" user=");
    r.append(user);
    if let Some(p) = password {
        r.append(" password=");
        r.append(p.as_str());
    }
    assert(r@ =~= connection_text(host@, port as nat, dbname@, user@, text::opt_view(*password)));
    r
}

fn list1(a: &str) -> (r: Vec<String>)
    ensures
        text::strs(r@) == seq![a@],
{
    let mut v: Vec<String> = Vec::new();
    v.push(a.to_string());
    assert(text::strs(v@) =~= seq![a@]);
    v
}

fn with(v: Vec<String>, a: &str) -> (r: Vec<String>)
    ensures
        text::strs(r@) == text::strs(v@).push(a@),
{
    let ghost before = v@;
    let mut v = v;
    v.push(a.to_string());
    assert(text::strs(v@) =~= text::strs(before).push(a@));
    v
}

/// What to do after a look whether PostgreSQL has come up.
#[derive(Debug, Clone, Copy, PartialEq, Eq, Structural)]
pub enum StartStep {
    /// It is up.
    Started,
    /// It is not up yet: look again after half a second.
    LookAgain,
    /// It did not come up.
    GaveUp,
}

/// How often to look whether PostgreSQL has come up, after the first look.
pub const START_POLLS: u32 = 10;

/// How many milliseconds to wait between two looks.
pub const START_POLL_MILLIS: u64 = 500;

/// For how many seconds a connection task may live.
pub const PG_CONNECTION_TIMEOUT_SECS: u64 = 30;

impl Postgresql {
    /// An instance of which nothing is known.
    pub fn new(config: PostgresqlConfig) -> (r: Self)
        ensures
            r.config == config,
            r.role == MemberRole::Uninitialized,
            r.state == PgState::Unknown,
    {
        Postgresql { config, role: MemberRole::Uninitialized, state: PgState::Unknown }
    }

    /// The path of `pg_ctl`.
    pub fn pg_ctl(&self) -> (r: String)
        ensures
            r@ == path_in(self.config.bin_dir@, "pg_ctl"@),
    {
        join_path(self.config.bin_dir.as_str(), "pg_ctl")
    }

    /// The path of `initdb`.
    pub fn initdb_bin(&self) -> (r: String)
        ensures
            r@ == path_in(self.config.bin_dir@, "initdb"@),
    {
        join_path(self.config.bin_dir.as_str(), "initdb")
    }

    /// The path of `pg_basebackup`.
    pub fn pg_basebackup_bin(&self) -> (r: String)
        ensures
            r@ == path_in(self.config.bin_dir@, "pg_basebackup"@),
    {
        join_path(self.config.bin_dir.as_str(), "pg_basebackup")
    }

    /// The path of `pg_rewind`.
    pub fn pg_rewind_bin(&self) -> (r: String)
        ensures
            r@ == path_in(self.config.bin_dir@, "pg_rewind"@),
    {
        join_path(self.config.bin_dir.as_str(), "pg_rewind")
    }

    /// The path of `pg_controldata`.
    pub fn pg_controldata_bin(&self) -> (r: String)
        ensures
            r@ == path_in(self.config.bin_dir@, "pg_controldata"@),
    {
        join_path(self.config.bin_dir.as_str(), "pg_controldata")
    }

    /// The data directory.
    pub fn data_dir_str(&self) -> (r: &str)
        ensures
            r@ == self.config.data_dir@,
    {
        self.config.data_dir.as_str()
    }

    /// The file in which PostgreSQL keeps its process number.
    pub fn postmaster_pid_path(&self) -> (r: String)
        ensures
            r@ == path_in(self.config.data_dir@, "postmaster.pid"@),
    {
        join_path(self.config.data_dir.as_str(), "postmaster.pid")
    }

    /// Whether the data directory is empty, by what was found: whether it exists, is a directory,
    /// and has entries.
    pub fn data_directory_empty(&self, present: bool, is_dir: bool, has_entries: bool) -> (r: Result<
        bool,
        Error,
    >)
        ensures
            match r {
                Ok(b) => (!present || is_dir) && b == (!present || !has_entries),
                Err(e) => present && !is_dir && e is Postgres && e->Postgres_0@ == "data_dir '"@
                    + self.config.data_dir@ + "' exists but is not a directory"@,
            },
    {
        if !present {
            return Ok(true);
        }
        if !is_dir {
            let mut m = "data_dir '".to_string();
            m.append(self.config.data_dir.as_str());
            m.append("' exists but is not a directory");
            return Err(Error::Postgres(m));
        }
        Ok(!has_entries)
    }

    /// The process number in a `postmaster.pid` file.
    pub fn postmaster_pid(content: &str) -> (r: Option<i32>)
        ensures
            match r {
                Some(pid) => pid_in(content@) == Some(pid as int),
                None => pid_in(content@) is None,
            },
    {
        let v = chars_of(content);
        let end = until_from(&v, 0, '\n');
        assert(v@.skip(0) =~= v@);
        let line = string_of(&v, 0, end);
        assert(line@ =~= first_line(content@));
        parse_i32(trim(line.as_str()).as_str())
    }

    /// Whether a process with this command line is PostgreSQL: the first of the parts between NUL
    /// characters names it.
    pub fn is_postgres_process(cmdline: &str) -> (r: bool)
        ensures
            r == text::contains_sub(first_arg(cmdline@), "postgres"@),
    {
        let v = chars_of(cmdline);
        let end = until_from(&v, 0, '\0');
        assert(v@.skip(0) =~= v@);
        let arg = string_of(&v, 0, end);
        assert(arg@ =~= first_arg(cmdline@));
        contains(arg.as_str(), "postgres")
    }

    /// Whether PostgreSQL runs, by what was found: the contents of `postmaster.pid`, whether a
    /// process with that number is alive, and its command line.
    pub fn is_running(pid_file: Option<&str>, alive: bool, cmdline: Option<&str>) -> (r: bool)
        ensures
            r == (pid_file is Some && pid_in(pid_file->0@) is Some && alive && cmdline is Some
                && text::contains_sub(first_arg(cmdline->0@), "postgres"@)),
    {
        match pid_file {
            Some(content) => match Postgresql::postmaster_pid(content) {
                Some(_) => {
                    if !alive {
                        return false;
                    }
                    match cmdline {
                        Some(c) => Postgresql::is_postgres_process(c),
                        None => false,
                    }
                },
                None => false,
            },
            None => false,
        }
    }

    /// The arguments of `pg_ctl` that start PostgreSQL.
    pub fn start_args(&self) -> (r: Vec<String>)
        ensures
            text::strs(r@) == seq![
                "start"@,
                "-D"@,
                self.config.data_dir@,
                "-l"@,
                path_in(self.config.data_dir@, "pg_log.log"@),
                "-w"@,
            ],
    {
        let log = join_path(self.config.data_dir.as_str(), "pg_log.log");
        let a = with(with(list1("start"), "-D"), self.config.data_dir.as_str());
        let b = with(with(with(a, "-l"), log.as_str()), "-w");
        assert(text::strs(b@) =~= seq![
            "start"@,
            "-D"@,
            self.config.data_dir@,
            "-l"@,
            path_in(self.config.data_dir@, "pg_log.log"@),
            "-w"@,
        ]);
        b
    }

    /// The arguments of `pg_ctl` that stop PostgreSQL in the given mode.
    pub fn stop_args(&self, mode: &str) -> (r: Vec<String>)
        ensures
            text::strs(r@) == seq!["stop"@, "-D"@, self.config.data_dir@, "-m"@, mode@, "-w"@],
    {
        let a = with(with(list1("stop"), "-D"), self.config.data_dir.as_str());
        let b = with(with(with(a, "-m"), mode), "-w");
        assert(text::strs(b@) =~= seq!["stop"@, "-D"@, self.config.data_dir@, "-m"@, mode@, "-w"@]);
        b
    }

    /// The arguments of `pg_ctl` that promote a standby.
    pub fn promote_args(&self) -> (r: Vec<String>)
        ensures
            text::strs(r@) == seq!["promote"@, "-D"@, self.config.data_dir@, "-w"@],
    {
        let b = with(with(with(list1("promote"), "-D"), self.config.data_dir.as_str()), "-w");
        assert(text::strs(b@) =~= seq!["promote"@, "-D"@, self.config.data_dir@, "-w"@]);
        b
    }

    /// The arguments of `pg_ctl` that make PostgreSQL read its configuration again.
    pub fn reload_args(&self) -> (r: Vec<String>)
        ensures
            text::strs(r@) == seq!["reload"@, "-D"@, self.config.data_dir@],
    {
        let b = with(with(list1("reload"), "-D"), self.config.data_dir.as_str());
        assert(text::strs(b@) =~= seq!["reload"@, "-D"@, self.config.data_dir@]);
        b
    }

    /// The arguments of `initdb`: each option with two dashes before it.
    pub fn initdb_args(&self, options: &Vec<String>) -> (r: Vec<String>)
        ensures
            text::strs(r@) == seq!["-D"@, self.config.data_dir@] + text::strs(
                options@,
            ).map_values(|o: Seq<char>| "--"@ + o),
    {
        let mut b = with(list1("-D"), self.config.data_dir.as_str());
        let ghost head = seq!["-D"@, self.config.data_dir@];
        let ghost all = text::strs(options@).map_values(|o: Seq<char>| "--"@ + o);
        assert(text::strs(b@) =~= head + all.take(0));
        let mut i: usize = 0;
        while i < options.len()
            invariant
                i <= options@.len(),
                all == text::strs(options@).map_values(|o: Seq<char>| "--"@ + o),
                text::strs(b@) == head + all.take(i as int),
            decreases options@.len() - i,
        {
            let mut o = "--".to_string();
            o.append(options[i].as_str());
            let ghost before = b@;
            b.push(o);
            assert(text::strs(b@) =~= text::strs(before).push(o@));
            assert(all.take(i + 1) =~= all.take(i as int).push(o@));
            assert(text::strs(b@) =~= head + all.take(i + 1));
            i = i + 1;
        }
        assert(all.take(i as int) =~= all);
        b
    }

    /// The arguments of `pg_basebackup` that clone from a source.
    pub fn basebackup_args(&self, source_connstr: &str) -> (r: Vec<String>)
        ensures
            text::strs(r@) == seq![
                "-D"@,
                self.config.data_dir@,
                "-d"@,
                source_connstr@,
                "--checkpoint=fast"@,
                "--wal-method=stream"@,
                "--no-password"@,
            ],
    {
        let a = with(with(with(list1("-D"), self.config.data_dir.as_str()), "-d"), source_connstr);
        let b = with(with(with(a, "--checkpoint=fast"), "--wal-method=stream"), "--no-password");
        assert(text::strs(b@) =~= seq![
            "-D"@,
            self.config.data_dir@,
            "-d"@,
            source_connstr@,
            "--checkpoint=fast"@,
            "--wal-method=stream"@,
            "--no-password"@,
        ]);
        b
    }

    /// The arguments of `pg_rewind` that bring a former primary up to date.
    pub fn rewind_args(&self, source_connstr: &str) -> (r: Vec<String>)
        ensures
            text::strs(r@) == seq![
                "--target-pgdata"@,
                self.config.data_dir@,
                "--source-server"@,
                source_connstr@,
                "--progress"@,
            ],
    {
        let a = with(list1("--target-pgdata"), self.config.data_dir.as_str());
        let b = with(with(with(a, "--source-server"), source_connstr), "--progress");
        assert(text::strs(b@) =~= seq![
            "--target-pgdata"@,
            self.config.data_dir@,
            "--source-server"@,
            source_connstr@,
            "--progress"@,
        ]);
        b
    }

    /// PostgreSQL is being started.
    pub fn starting(&mut self)
        ensures
            final(self).state == PgState::Starting,
            final(self).role == old(self).role,
            final(self).config == old(self).config,
    {
        self.state = PgState::Starting;
    }

    /// `pg_ctl start` has ended, and PostgreSQL was looked for; `looks` looks were made before.
    pub fn start(&mut self, launched: bool, looks: u32, running: bool) -> (r: StartStep)
        ensures
            r == (if !launched {
                StartStep::GaveUp
            } else if running {
                StartStep::Started
            } else if looks < START_POLLS {
                StartStep::LookAgain
            } else {
                StartStep::GaveUp
            }),
            final(self).state == (match r {
                StartStep::Started => PgState::Running,
                StartStep::LookAgain => old(self).state,
                StartStep::GaveUp => PgState::Crashed,
            }),
            final(self).role == old(self).role,
            final(self).config == old(self).config,
    {
        if !launched {
            self.state = PgState::Crashed;
            return StartStep::GaveUp;
        }
        if running {
            self.state = PgState::Running;
            return StartStep::Started;
        }
        if looks < START_POLLS {
            return StartStep::LookAgain;
        }
        self.state = PgState::Crashed;
        StartStep::GaveUp
    }

    /// `pg_ctl stop` has ended.
    pub fn stop(&mut self, success: bool) -> (r: Result<(), Error>)
        ensures
            match r {
                Ok(_) => success && final(self).state == PgState::Stopped,
                Err(e) => !success && final(self).state == old(self).state && e is Postgres
                    && e->Postgres_0@ == "pg_ctl stop failed"@,
            },
            final(self).role == old(self).role,
            final(self).config == old(self).config,
    {
        if success {
            self.state = PgState::Stopped;
            Ok(())
        } else {
            Err(Error::Postgres("pg_ctl stop failed".to_string()))
        }
    }

    /// `pg_ctl promote` has ended, with this text on its error channel.
    pub fn promote(&mut self, success: bool, stderr: &str) -> (r: Result<(), Error>)
        ensures
            match r {
                Ok(_) => success && final(self).role == MemberRole::Primary,
                Err(e) => !success && final(self).role == old(self).role && e is Postgres
                    && e->Postgres_0@ == "pg_ctl promote failed: "@ + stderr@,
            },
            final(self).state == old(self).state,
            final(self).config == old(self).config,
    {
        if success {
            self.role = MemberRole::Primary;
            Ok(())
        } else {
            let mut m = "pg_ctl promote failed: ".to_string();
            m.append(stderr);
            Err(Error::Postgres(m))
        }
    }

    /// `pg_ctl start` has failed, or PostgreSQL has not come up after it.
    pub fn start_error(launched: bool, stderr: &str) -> (r: Error)
        ensures
            r is Postgres,
            r->Postgres_0@ == if launched {
                "PostgreSQL did not start within timeout"@
            } else {
                "pg_ctl start failed: "@ + stderr@
            },
    {
        if launched {
            Error::Postgres("PostgreSQL did not start within timeout".to_string())
        } else {
            let mut m = "pg_ctl start failed: ".to_string();
            m.append(stderr);
            Error::Postgres(m)
        }
    }

    fn tool_result(success: bool, what: &str, stderr: &str) -> (r: Result<(), Error>)
        ensures
            tool_outcome(success, what@, stderr@, r),
    {
        if success {
            Ok(())
        } else {
            let mut m = what.to_string();
            m.append(" failed: ");
            m.append(stderr);
            Err(Error::Postgres(m))
        }
    }

    /// `pg_ctl reload` has ended, with this text on its error channel.
    pub fn reload(success: bool, stderr: &str) -> (r: Result<(), Error>)
        ensures
            tool_outcome(success, "pg_ctl reload"@, stderr@, r),
    {
        Postgresql::tool_result(success, "pg_ctl reload", stderr)
    }

    /// `initdb` has ended, with this text on its error channel.
    pub fn initdb(success: bool, stderr: &str) -> (r: Result<(), Error>)
        ensures
            tool_outcome(success, "initdb"@, stderr@, r),
    {
        Postgresql::tool_result(success, "initdb", stderr)
    }

    /// `pg_basebackup` has ended, with this text on its error channel.
    pub fn basebackup(success: bool, stderr: &str) -> (r: Result<(), Error>)
        ensures
            tool_outcome(success, "pg_basebackup"@, stderr@, r),
    {
        Postgresql::tool_result(success, "pg_basebackup", stderr)
    }

    /// `pg_rewind` has ended, with this text on its error channel.
    pub fn rewind(success: bool, stderr: &str) -> (r: Result<(), Error>)
        ensures
            tool_outcome(success, "pg_rewind"@, stderr@, r),
    {
        Postgresql::tool_result(success, "pg_rewind", stderr)
    }

    /// The system identifier in the output of `pg_controldata`.
    pub fn sysid(output: &str) -> (r: Result<String, Error>)
        ensures
            match r {
                Ok(v) => control_value(output@, "Database system identifier"@) == Some(v@),
                Err(e) => control_value(output@, "Database system identifier"@) is None
                    && e is Postgres && e->Postgres_0@
                    == "Could not find system identifier in pg_controldata output"@,
            },
    {
        match find_control_value(output, "Database system identifier") {
            Some(v) => Ok(v),
            None => Err(
                Error::Postgres(
                    "Could not find system identifier in pg_controldata output".to_string(),
                ),
            ),
        }
    }

    /// The state of the database cluster in the output of `pg_controldata`.
    pub fn controldata_state(output: &str) -> (r: Result<String, Error>)
        ensures
            match r {
                Ok(v) => control_value(output@, "Database cluster state"@) == Some(v@),
                Err(e) => control_value(output@, "Database cluster state"@) is None && e is Postgres
                    && e->Postgres_0@ == "Could not find cluster state in pg_controldata output"@,
            },
    {
        match find_control_value(output, "Database cluster state") {
            Some(v) => Ok(v),
            None => Err(
                Error::Postgres(
                    "Could not find cluster state in pg_controldata output".to_string(),
                ),
            ),
        }
    }

    /// How to connect to this instance.
    pub fn connection_string(&self) -> (r: String)
        ensures
            r@ == connection_text(
                self.config.listen@,
                self.config.port as nat,
                self.config.superuser.dbname@,
                self.config.superuser.username@,
                text::opt_view(self.config.superuser.password),
            ),
    {
        build_connection(
            self.config.listen.as_str(),
            self.config.port,
            self.config.superuser.dbname.as_str(),
            self.config.superuser.username.as_str(),
            &self.config.superuser.password,
        )
    }

    /// How to connect to another instance for replication.
    pub fn replication_connection_string(&self, host: &str, port: u16) -> (r: String)
        ensures
            r@ == connection_text(
                host@,
                port as nat,
                self.config.replication.dbname@,
                self.config.replication.username@,
                text::opt_view(self.config.replication.password),
            ),
    {
        build_connection(
            host,
            port,
            self.config.replication.dbname.as_str(),
            self.config.replication.username.as_str(),
            &self.config.replication.password,
        )
    }

    /// The role.
    pub fn role(&self) -> (r: &MemberRole)
        ensures
            *r == self.role,
    {
        &self.role
    }

    /// Sets the role.
    pub fn set_role(&mut self, role: MemberRole)
        ensures
            final(self).role == role,
            final(self).state == old(self).state,
            final(self).config == old(self).config,
    {
        self.role = role;
    }

    /// The state.
    pub fn state(&self) -> (r: PgState)
        ensures
            r == self.state,
    {
        self.state
    }

    /// Sets the state.
    pub fn set_state(&mut self, state: PgState)
        ensures
            final(self).state == state,
            final(self).role == old(self).role,
            final(self).config == old(self).config,
    {
        self.state = state;
    }

    /// Whether the instance is primary.
    pub fn is_primary(&self) -> (r: bool)
        ensures
            r == (self.role == MemberRole::Primary),
    {
        self.role == MemberRole::Primary
    }

    /// The configuration.
    pub fn config(&self) -> (r: &PostgresqlConfig)
        ensures
            *r == self.config,
    {
        &self.config
    }
}

/// A tool went well, or has failed with a text that says so.
pub open spec fn tool_outcome(
    success: bool,
    what: Seq<char>,
    stderr: Seq<char>,
    r: Result<(), Error>,
) -> bool {
    match r {
        Ok(_) => success,
        Err(e) => !success && e is Postgres && e->Postgres_0@ == what + " failed: "@ + stderr,
    }
}

/// The first line of a text.
pub open spec fn first_line(s: Seq<char>) -> Seq<char> {
    s.take(text::until(s, '\n') as int)
}

/// The process number in a `postmaster.pid` file.
pub open spec fn pid_in(s: Seq<char>) -> Option<int> {
    text::parse_int(text::trimmed(first_line(s)))
}

/// The first of the parts between NUL characters.
pub open spec fn first_arg(s: Seq<char>) -> Seq<char> {
    s.take(text::until(s, '\0') as int)
}

/// The value in a line `label: value`, if the line holds the label and a colon.
pub open spec fn line_value(line: Seq<char>, label: Seq<char>) -> Option<Seq<char>> {
    if text::contains_sub(line, label) && text::split_on(line, ':').len() >= 2 {
        Some(text::trimmed(text::split_on(line, ':')[1]))
    } else {
        None
    }
}

/// The value in the first line that has one.
pub open spec fn lines_value(lines: Seq<Seq<char>>, label: Seq<char>) -> Option<Seq<char>>
    decreases lines.len(),
{
    if lines.len() == 0 {
        None
    } else if line_value(lines[0], label) is Some {
        line_value(lines[0], label)
    } else {
        lines_value(lines.skip(1), label)
    }
}

/// The value under a label in the output of `pg_controldata`.
pub open spec fn control_value(output: Seq<char>, label: Seq<char>) -> Option<Seq<char>> {
    lines_value(text::split_on(output, '\n'), label)
}

/// The value under a label in the output of `pg_controldata`.
pub fn find_control_value(output: &str, label: &str) -> (r: Option<String>)
    ensures
        text::opt_view(r) == control_value(output@, label@),
{
    let lines = split_char(output, '\n');
    let ghost all = text::strs(lines@);
    assert(all.skip(0) =~= all);
    let mut i: usize = 0;
    while i < lines.len()
        invariant
            i <= lines@.len(),
            all == text::strs(lines@),
            all == text::split_on(output@, '\n'),
            lines_value(all.skip(i as int), label@) == lines_value(all, label@),
        decreases lines@.len() - i,
    {
        assert(all.skip(i as int)[0] == lines@[i as int]@);
        assert(all.skip(i as int).skip(1) =~= all.skip(i + 1));
        if contains(lines[i].as_str(), label) {
            let parts = split_char(lines[i].as_str(), ':');
            assert(text::strs(parts@).len() == parts@.len());
            if parts.len() >= 2 {
                assert(text::strs(parts@)[1] == parts@[1]@);
                return Some(trim(parts[1].as_str()));
            }
        }
        i = i + 1;
    }
    None
}

// ---------------------------------------------------------------------------------------------
// Query results
// ---------------------------------------------------------------------------------------------
/// A row of a query result: its columns as text, `None` for NULL.
#[derive(Debug, Clone)]
pub struct QueryRow {
    pub columns: Vec<Option<String>>,
}

/// A column of a row, if it is there and not NULL.
pub open spec fn column(row: QueryRow, i: int) -> Option<Seq<char>> {
    if 0 <= i < row.columns@.len() {
        text::opt_view(row.columns@[i])
    } else {
        None
    }
}

/// The column `i` of the last row in which it is not NULL.
pub open spec fn last_column(rows: Seq<QueryRow>, i: int) -> Option<Seq<char>>
    decreases rows.len(),
{
    if rows.len() == 0 {
        None
    } else if column(rows.last(), i) is Some {
        column(rows.last(), i)
    } else {
        last_column(rows.drop_last(), i)
    }
}

/// The column `i` of the first row in which it is not NULL.
pub open spec fn first_column(rows: Seq<QueryRow>, i: int) -> Option<Seq<char>>
    decreases rows.len(),
{
    if rows.len() == 0 {
        None
    } else if column(rows[0], i) is Some {
        column(rows[0], i)
    } else {
        first_column(rows.skip(1), i)
    }
}

fn get_column(row: &QueryRow, i: usize) -> (r: Option<&str>)
    ensures
        text::opt_str_view(r) == column(*row, i as int),
{
    if i < row.columns.len() {
        match &row.columns[i] {
            Some(s) => Some(s.as_str()),
            None => None,
        }
    } else {
        None
    }
}

fn find_last_column(rows: &Vec<QueryRow>, i: usize) -> (r: Option<&str>)
    ensures
        text::opt_str_view(r) == last_column(rows@, i as int),
{
    let mut n: usize = rows.len();
    assert(rows@.take(n as int) =~= rows@);
    while n > 0
        invariant
            n <= rows@.len(),
            last_column(rows@.take(n as int), i as int) == last_column(rows@, i as int),
        decreases n,
    {
        n = n - 1;
        assert(rows@.take(n + 1).last() == rows@[n as int]);
        assert(rows@.take(n + 1).drop_last() =~= rows@.take(n as int));
        if let Some(v) = get_column(&rows[n], i) {
            return Some(v);
        }
    }
    None
}

/// The number that a column holds; zero where it holds none.
pub open spec fn number_or_zero(c: Option<Seq<char>>) -> nat {
    match c {
        Some(s) => match text::parse_uint(s, false, u64::MAX as nat) {
            Some(n) => n,
            None => 0,
        },
        None => 0,
    }
}

/// The number that a column holds.
pub open spec fn number_in(c: Option<Seq<char>>) -> Option<nat> {
    match c {
        Some(s) => text::parse_uint(s, false, u64::MAX as nat),
        None => None,
    }
}

fn column_number(c: Option<&str>) -> (r: Option<u64>)
    ensures
        match r {
            Some(n) => number_in(text::opt_str_view(c)) == Some(n as nat),
            None => number_in(text::opt_str_view(c)) is None,
        },
{
    match c {
        Some(s) => parse_u64(s),
        None => None,
    }
}

impl Postgresql {
    /// Whether the instance is in recovery, by the answer to `SELECT pg_is_in_recovery()`.
    pub fn is_in_recovery(rows: &Vec<QueryRow>) -> (r: Result<bool, Error>)
        ensures
            match r {
                Ok(b) => first_column(rows@, 0) is Some && b == (first_column(rows@, 0)->0 == "t"@),
                Err(e) => first_column(rows@, 0) is None && e is Postgres && e->Postgres_0@
                    == "Could not determine recovery state"@,
            },
    {
        let mut i: usize = 0;
        assert(rows@.skip(0) =~= rows@);
        while i < rows.len()
            invariant
                i <= rows@.len(),
                first_column(rows@.skip(i as int), 0) == first_column(rows@, 0),
            decreases rows@.len() - i,
        {
            assert(rows@.skip(i as int)[0] == rows@[i as int]);
            assert(rows@.skip(i as int).skip(1) =~= rows@.skip(i + 1));
            if let Some(v) = get_column(&rows[i], 0) {
                return Ok(str_eq(v, "t"));
            }
            i = i + 1;
        }
        Err(Error::Postgres("Could not determine recovery state".to_string()))
    }

    /// Whether the answer to `SELECT pg_is_in_recovery()` says so; no answer counts as no.
    pub fn recovery_answer(rows: &Vec<QueryRow>) -> (r: bool)
        ensures
            r == (last_column(rows@, 0) == Some("t"@)),
    {
        match find_last_column(rows, 0) {
            Some(v) => str_eq(v, "t"),
            None => false,
        }
    }

    /// The query for the position of an instance: a replica has received and replayed positions, a
    /// primary has one.
    pub fn wal_query(in_recovery: bool) -> (r: &'static str)
        ensures
            in_recovery ==> r@
                == "SELECT pg_last_wal_receive_lsn() - '0/0', pg_last_wal_replay_lsn() - '0/0', (SELECT timeline_id FROM pg_control_checkpoint())"@,
            !in_recovery ==> r@
                == "SELECT pg_current_wal_lsn() - '0/0', (SELECT timeline_id FROM pg_control_checkpoint())"@,
    {
        if in_recovery {
            "SELECT pg_last_wal_receive_lsn() - '0/0', pg_last_wal_replay_lsn() - '0/0', (SELECT timeline_id FROM pg_control_checkpoint())"
        } else {
            "SELECT pg_current_wal_lsn() - '0/0', (SELECT timeline_id FROM pg_control_checkpoint())"
        }
    }

    /// Where the instance stands, by the answer to the query for its position. On a replica the
    /// columns are what was received, what was replayed, and the timeline; on a primary the
    /// position and the timeline.
    pub fn wal_status(in_recovery: bool, rows: &Vec<QueryRow>) -> (r: WalStatus)
        ensures
            r.in_recovery == in_recovery,
            in_recovery ==> ({
                let received = number_or_zero(last_column(rows@, 0));
                let replayed = number_or_zero(last_column(rows@, 1));
                r.wal_position == if received >= replayed {
                    received
                } else {
                    replayed
                }
            }),
            !in_recovery ==> r.wal_position == number_or_zero(last_column(rows@, 0)),
            ({
                let timeline = number_in(
                    last_column(
                        rows@,
                        if in_recovery {
                            2
                        } else {
                            1
                        },
                    ),
                );
                match r.timeline {
                    Some(t) => timeline == Some(t as nat),
                    None => timeline is None,
                }
            }),
    {
        let first: u64 = match column_number(find_last_column(rows, 0)) {
            Some(n) => n,
            None => 0,
        };
        if in_recovery {
            let second: u64 = match column_number(find_last_column(rows, 1)) {
                Some(n) => n,
                None => 0,
            };
            let timeline = column_number(find_last_column(rows, 2));
            let wal_position: u64 = if first >= second {
                first
            } else {
                second
            };
            WalStatus { timeline, wal_position, in_recovery: true }
        } else {
            let timeline = column_number(find_last_column(rows, 1));
            WalStatus { timeline, wal_position: first, in_recovery: false }
        }
    }

    /// The position of an instance in its log.
    pub fn query_wal_position(status: &WalStatus) -> (r: u64)
        ensures
            r == status.wal_position,
    {
        status.wal_position
    }

    /// The timeline of an instance, which must be known.
    pub fn query_timeline(status: &WalStatus) -> (r: Result<u64, Error>)
        ensures
            match r {
                Ok(t) => status.timeline == Some(t),
                Err(e) => status.timeline is None && e is Postgres && e->Postgres_0@
                    == "Could not determine timeline"@,
            },
    {
        match status.timeline {
            Some(t) => Ok(t),
            None => Err(Error::Postgres("Could not determine timeline".to_string())),
        }
    }
}

// ---------------------------------------------------------------------------------------------
// Laws
// ---------------------------------------------------------------------------------------------
/// A log sequence number counts bytes: the first number counts units of four gigabytes.
pub proof fn law_lsn_counts_bytes(hi: u64, lo: u64)
    requires
        hi < 0x1_0000_0000,
        lo < 0x1_0000_0000,
    ensures
        ((hi << 32) | lo) == hi * 0x1_0000_0000 + lo,
{
    assert(((hi << 32) | lo) == hi * 0x1_0000_0000 + lo) by (bit_vector)
        requires
            hi < 0x1_0000_0000,
            lo < 0x1_0000_0000,
    ;
}

/// What is logged of a connection string does not depend on the first password in it: two strings
/// that differ only in that value are logged alike.
pub proof fn law_redaction_hides_password(
    before: Seq<char>,
    value1: Seq<char>,
    value2: Seq<char>,
    after: Seq<char>,
)
    requires
        text::first_at(before + "password="@, "password="@, before.len() as int),
        !value1.contains(' '),
        !value2.contains(' '),
        after.len() == 0 || after[0] == ' ',
    ensures
        redacted(before + "password="@ + value1 + after) == redacted(
            before + "password="@ + value2 + after,
        ),
{
    lemma_redacted_first(before, value1, after);
    lemma_redacted_first(before, value2, after);
}

proof fn lemma_redacted_first(before: Seq<char>, value: Seq<char>, after: Seq<char>)
    requires
        text::first_at(before + "password="@, "password="@, before.len() as int),
        !value.contains(' '),
        after.len() == 0 || after[0] == ' ',
    ensures
        redacted(before + "password="@ + value + after) == before + "password=***"@ + redacted(
            after,
        ),
{
    reveal_strlit("password=");
    let key = "password="@;
    let s = before + key + value + after;
    let n = before.len() as int;
    assert(s.subrange(n, n + 9) =~= key);
    assert forall|j: int| 0 <= j < n implies !#[trigger] text::occurs_at(s, key, j) by {
        assert(!text::occurs_at(before + key, key, j));
        assert(s.subrange(j, j + 9) =~= (before + key).subrange(j, j + 9));
    }
    assert(text::first_at(s, key, n));
    text::lemma_find(s, key);
    let k = text::find(s, key)->0;
    if k < n {
        assert(!text::occurs_at(s, key, k));
    }
    if n < k {
        assert(!text::occurs_at(s, key, n));
    }
    let rest = s.skip(n + 9);
    assert(rest =~= value + after);
    text::lemma_until(rest, ' ');
    let u = text::until(rest, ' ') as int;
    if u < value.len() {
        assert(value[u] == ' ');
        assert(value.contains(' '));
    }
    if u > value.len() {
        assert(rest[value.len() as int] == after[0]);
    }
    assert(after_value(rest) =~= after);
    assert(s.take(n) =~= before);
}

/// What is logged of a connection string is the string itself, but that three stars stand for each
/// password in it.
pub proof fn law_only_passwords_are_hidden(before: Seq<char>, value: Seq<char>, after: Seq<char>)
    ensures
        !text::contains_sub(before, "password="@) ==> redacted(before) == before,
        text::first_at(before + "password="@, "password="@, before.len() as int) && !value.contains(
            ' ',
        ) && (after.len() == 0 || after[0] == ' ') ==> redacted(
            before + "password="@ + value + after,
        ) == before + "password=***"@ + redacted(after),
{
    text::lemma_find(before, "password="@);
    if text::first_at(before + "password="@, "password="@, before.len() as int) && !value.contains(
        ' ',
    ) && (after.len() == 0 || after[0] == ' ') {
        lemma_redacted_first(before, value, after);
    }
}

/// A log sequence number has exactly two numbers, with one slash between them, and each is read by
/// itself.
pub proof fn law_lsn_has_two_numbers(hi: Seq<char>, lo: Seq<char>, more: Seq<char>)
    requires
        !hi.contains('/'),
        !lo.contains('/'),
    ensures
        lsn_parts(hi) is None,
        lsn_parts(hi + seq!['/'] + (lo + seq!['/'] + more)) is None,
        match (
            lsn_parts(hi + seq!['/'] + lo),
            text::parse_uint(hi, true, u64::MAX as nat),
            text::parse_uint(lo, true, u64::MAX as nat),
        ) {
            (Some((h, l)), Some(a), Some(b)) => h == a && l == b,
            (Some(_), _, _) => false,
            (None, a, b) => a is None || b is None,
        },
{
    text::law_text_is_cut_at_each(hi, lo, '/');
    text::law_text_is_cut_at_each(lo, more, '/');
    text::law_text_is_cut_at_each(hi, lo + seq!['/'] + more, '/');
    reveal_with_fuel(text::split_on, 2);
    assert(text::split_on(more, '/').len() >= 1);
}

/// A path begins with its directory and ends with its name, and just one slash comes between them,
/// the one that the directory may end with; without a directory it is the name.
pub proof fn law_path_is_in_its_directory(dir: Seq<char>, name: Seq<char>)
    ensures
        dir.is_prefix_of(path_in(dir, name)),
        name.is_suffix_of(path_in(dir, name)),
        dir.len() > 0 ==> path_in(dir, name)[path_in(dir, name).len() - name.len() - 1] == '/',
        path_in(dir, name).len() == dir.len() + name.len() + if dir.len() > 0 && dir.last() != '/' {
            1nat
        } else {
            0nat
        },
{
    reveal_strlit("/");
    let p = path_in(dir, name);
    assert(p.subrange(0, dir.len() as int) =~= dir);
    assert(p.subrange(p.len() - name.len(), p.len() as int) =~= name);
}

/// The first line of a text, and the first part of a command line, end before the first line feed
/// or NUL character, and go on up to there.
pub proof fn law_first_part_ends_at_the_mark(s: Seq<char>)
    ensures
        first_line(s).is_prefix_of(s),
        !first_line(s).contains('\n'),
        first_line(s).len() < s.len() ==> s[first_line(s).len() as int] == '\n',
        first_arg(s).is_prefix_of(s),
        !first_arg(s).contains('\0'),
        first_arg(s).len() < s.len() ==> s[first_arg(s).len() as int] == '\0',
{
    text::lemma_until(s, '\n');
    text::lemma_until(s, '\0');
    let l = first_line(s);
    let a = first_arg(s);
    assert(l =~= s.subrange(0, l.len() as int));
    assert(a =~= s.subrange(0, a.len() as int));
}

/// Under a label stands the value of the first line that holds the label and a colon: what stands
/// behind the first colon, up to the next one, without the white space round it.
pub proof fn law_label_has_its_value(
    lines: Seq<Seq<char>>,
    label: Seq<char>,
    i: int,
    name: Seq<char>,
    value: Seq<char>,
)
    requires
        !name.contains(':'),
        !value.contains(':'),
    ensures
        text::contains_sub(name + seq![':'] + value, label) ==> line_value(
            name + seq![':'] + value,
            label,
        ) == Some(text::trimmed(value)),
        line_value(name, label) is None,
        !text::contains_sub(name + seq![':'] + value, label) ==> line_value(
            name + seq![':'] + value,
            label,
        ) is None,
        lines_value(lines, label) is None <==> (forall|k: int|
            0 <= k < lines.len() ==> line_value(#[trigger] lines[k], label) is None),
        0 <= i < lines.len() && line_value(lines[i], label) is Some && (forall|k: int|
            0 <= k < i ==> line_value(#[trigger] lines[k], label) is None) ==> lines_value(
            lines,
            label,
        ) == line_value(lines[i], label),
    decreases lines.len(),
{
    text::law_text_is_cut_at_each(name, value, ':');
    text::law_text_is_cut_at_each(value, name, ':');
    if lines.len() > 0 {
        let rest = lines.skip(1);
        law_label_has_its_value(rest, label, i - 1, name, value);
        assert(forall|k: int| 0 <= k < rest.len() ==> rest[k] == lines[k + 1]);
        if line_value(lines[0], label) is None {
            if forall|k: int| 0 <= k < rest.len() ==> line_value(#[trigger] rest[k], label) is None {
                assert forall|k: int| 0 <= k < lines.len() implies line_value(
                    #[trigger] lines[k],
                    label,
                ) is None by {
                    if k > 0 {
                        assert(rest[k - 1] == lines[k]);
                    }
                }
            } else {
                let k = choose|k: int|
                    0 <= k < rest.len() && line_value(#[trigger] rest[k], label) is Some;
                assert(line_value(lines[k + 1], label) is Some);
            }
            if 0 < i < lines.len() {
                assert(rest[i - 1] == lines[i]);
                assert forall|k: int| 0 <= k < i - 1 implies line_value(
                    #[trigger] rest[k],
                    label,
                ) is None || !(forall|j: int|
                    0 <= j < i ==> line_value(#[trigger] lines[j], label) is None) by {
                    assert(rest[k] == lines[k + 1]);
                }
            }
        }
    }
}

/// Of the rows of an answer the last one with a value counts where a position is asked for, and
/// the first one where recovery is.
pub proof fn law_rows_with_a_value_count(rows: Seq<QueryRow>, i: int, k: int)
    requires
        0 <= k < rows.len(),
        column(rows[k], i) is Some,
    ensures
        (forall|j: int| k < j < rows.len() ==> column(#[trigger] rows[j], i) is None)
            ==> last_column(rows, i) == column(rows[k], i),
        (forall|j: int| 0 <= j < k ==> column(#[trigger] rows[j], i) is None) ==> first_column(
            rows,
            i,
        ) == column(rows[k], i),
        last_column(rows, i) is Some,
        first_column(rows, i) is Some,
    decreases rows.len(),
{
    let init = rows.drop_last();
    let rest = rows.skip(1);
    if k < rows.len() - 1 {
        assert(init[k] == rows[k]);
        law_rows_with_a_value_count(init, i, k);
        if forall|j: int| k < j < rows.len() ==> column(#[trigger] rows[j], i) is None {
            assert(column(rows[rows.len() - 1], i) is None);
            assert forall|j: int| k < j < init.len() implies column(#[trigger] init[j], i) is None by {
                assert(init[j] == rows[j]);
            }
        }
    }
    if k > 0 {
        assert(rest[k - 1] == rows[k]);
        law_rows_with_a_value_count(rest, i, k - 1);
        if forall|j: int| 0 <= j < k ==> column(#[trigger] rows[j], i) is None {
            assert(column(rows[0], i) is None);
            assert forall|j: int| 0 <= j < k - 1 implies column(#[trigger] rest[j], i) is None by {
                assert(rest[j] == rows[j + 1]);
            }
        }
    }
}

/// Rows without a value give none.
pub proof fn law_rows_without_a_value_give_none(rows: Seq<QueryRow>, i: int)
    requires
        forall|j: int| 0 <= j < rows.len() ==> column(#[trigger] rows[j], i) is None,
    ensures
        last_column(rows, i) is None,
        first_column(rows, i) is None,
    decreases rows.len(),
{
    if rows.len() > 0 {
        let init = rows.drop_last();
        let rest = rows.skip(1);
        assert(column(rows[rows.len() - 1], i) is None);
        assert(column(rows[0], i) is None);
        assert forall|j: int| 0 <= j < init.len() implies column(#[trigger] init[j], i) is None by {
            assert(init[j] == rows[j]);
        }
        assert forall|j: int| 0 <= j < rest.len() implies column(#[trigger] rest[j], i) is None by {
            assert(rest[j] == rows[j + 1]);
        }
        law_rows_without_a_value_give_none(init, i);
        law_rows_without_a_value_give_none(rest, i);
    }
}

} // verus!
