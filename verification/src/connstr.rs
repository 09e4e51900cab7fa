//! Connection strings: `host=.. port=.. user=..` words, separated by white space.

use vstd::prelude::*;

use crate::text;
use crate::text::{contains, parse_u16, split_whitespace, strip_prefix, u64_to_string};

verus! {

/// What follows `key` in the last word that begins with it, or `default`.
pub open spec fn last_value(words: Seq<Seq<char>>, key: Seq<char>, default: Seq<char>) -> Seq<char>
    decreases words.len(),
{
    if words.len() == 0 {
        default
    } else if key.is_prefix_of(words.last()) {
        words.last().skip(key.len() as int)
    } else {
        last_value(words.drop_last(), key, default)
    }
}

/// What follows `key` in the first word that begins with it.
pub open spec fn first_value(words: Seq<Seq<char>>, key: Seq<char>) -> Option<Seq<char>>
    decreases words.len(),
{
    if words.len() == 0 {
        None
    } else if key.is_prefix_of(words[0]) {
        Some(words[0].skip(key.len() as int))
    } else {
        first_value(words.skip(1), key)
    }
}

/// The port that a text spells, or the usual one.
pub open spec fn port_or_default(s: Seq<char>) -> nat {
    match text::parse_uint(s, false, 65535) {
        Some(n) => n,
        None => 5432,
    }
}

/// What follows `key` in the last word of `s` that begins with it, or `default`.
pub fn find_last(s: &str, key: &str, default: &str) -> (r: String)
    ensures
        r@ == last_value(text::words(s@), key@, default@),
{
    let words = split_whitespace(s);
    let ghost w = text::strs(words@);
    let mut i: usize = words.len();
    assert(w.take(i as int) =~= w);
    while i > 0
        invariant
            i <= words@.len(),
            w == text::strs(words@),
            w == text::words(s@),
            last_value(w.take(i as int), key@, default@) == last_value(w, key@, default@),
        decreases i,
    {
        i = i - 1;
        assert(w.take(i + 1).last() == words@[i as int]@);
        assert(w.take(i + 1).drop_last() =~= w.take(i as int));
        if let Some(v) = strip_prefix(words[i].as_str(), key) {
            return v;
        }
    }
    default.to_string()
}

/// What follows `key` in the first word of `s` that begins with it.
pub fn find_first(s: &str, key: &str) -> (r: Option<String>)
    ensures
        text::opt_view(r) == first_value(text::words(s@), key@),
{
    let words = split_whitespace(s);
    let ghost w = text::strs(words@);
    let mut i: usize = 0;
    assert(w.skip(0) =~= w);
    while i < words.len()
        invariant
            i <= words@.len(),
            w == text::strs(words@),
            w == text::words(s@),
            first_value(w.skip(i as int), key@) == first_value(w, key@),
        decreases words@.len() - i,
    {
        assert(w.skip(i as int)[0] == words@[i as int]@);
        assert(w.skip(i as int).skip(1) =~= w.skip(i + 1));
        if let Some(v) = strip_prefix(words[i].as_str(), key) {
            return Some(v);
        }
        i = i + 1;
    }
    None
}

/// The host of a connection string and its port, as they are written; the usual ones where it
/// names none.
pub fn host_and_port(s: &str) -> (r: (String, String))
    ensures
        r.0@ == last_value(text::words(s@), "host="@, "127.0.0.1"@),
        r.1@ == last_value(text::words(s@), "port="@, "5432"@),
{
    (find_last(s, "host=", "127.0.0.1"), find_last(s, "port=", "5432"))
}

/// What a node writes as its connection to the one that it replicates from.
pub open spec fn standby_conninfo(
    source: Seq<char>,
    user: Seq<char>,
    password: Option<Seq<char>>,
    name: Seq<char>,
) -> Seq<char> {
    "host="@ + last_value(text::words(source), "host="@, "127.0.0.1"@) + " port="@ + last_value(
        text::words(source),
        "port="@,
        "5432"@,
    ) + " user="@ + user + " password="@ + (match password {
        Some(p) => p,
        None => Seq::empty(),
    }) + " application_name="@ + name
}

/// What a node writes as its connection to the one that it replicates from.
pub fn build_standby_conninfo(source: &str, user: &str, password: Option<&str>, name: &str) -> (r:
    String)
    ensures
        r@ == standby_conninfo(source@, user@, text::opt_str_view(password), name@),
{
    let (host, port) = host_and_port(source);
    let mut r = "host=".to_string();
    r.append(host.as_str());
    r.append(" port=");
    r.append(port.as_str());
    r.append(" user=");
    r.append(user);
    r.append(" password=");
    if let Some(p) = password {
        r.append(p);
    }
    r.append(" application_name=");
    r.append(name);
    assert(r@ =~= standby_conninfo(source@, user@, text::opt_str_view(password), name@));
    r
}

/// Why a standby configuration is written.
#[derive(Debug, Clone, Copy, PartialEq, Eq, Structural)]
pub enum StandbyReason {
    /// A new replica, or one that follows another node from now on.
    Standby,
    /// A former primary that becomes a replica.
    Rejoin,
    /// A primary that steps down.
    Switchover,
}

/// The first line of a standby configuration.
pub open spec fn standby_header(reason: StandbyReason) -> Seq<char> {
    match reason {
        StandbyReason::Standby => "# pg-ha managed standby configuration\n"@,
        StandbyReason::Rejoin => "# pg-ha managed standby configuration (rejoin)\n"@,
        StandbyReason::Switchover => "# pg-ha managed (switchover demotion)\n"@,
    }
}

/// The contents of `postgresql.auto.conf` for a replica.
pub open spec fn auto_conf(reason: StandbyReason, conninfo: Seq<char>) -> Seq<char> {
    standby_header(reason) + "primary_conninfo = '"@ + conninfo
        + "'\nrecovery_target_timeline = 'latest'\n"@
}

/// The contents of `postgresql.auto.conf` for a replica that reads archived files in place of a
/// stream.
pub open spec fn archive_conf(reason: StandbyReason) -> Seq<char> {
    standby_header(reason) + "recovery_target_timeline = 'latest'\n"@
}

fn header(reason: StandbyReason) -> (r: String)
    ensures
        r@ == standby_header(reason),
{
    match reason {
        StandbyReason::Standby => "# pg-ha managed standby configuration\n".to_string(),
        StandbyReason::Rejoin => "# pg-ha managed standby configuration (rejoin)\n".to_string(),
        StandbyReason::Switchover => "# pg-ha managed (switchover demotion)\n".to_string(),
    }
}

/// The contents of `postgresql.auto.conf` for a replica.
pub fn build_auto_conf(reason: StandbyReason, conninfo: &str) -> (r: String)
    ensures
        r@ == auto_conf(reason, conninfo@),
{
    let mut r = header(reason);
    r.append("primary_conninfo = '");
    r.append(conninfo);
    r.append("'\nrecovery_target_timeline = 'latest'\n");
    r
}

/// The contents of `postgresql.auto.conf` for a replica that reads archived files in place of a
/// stream.
pub fn build_archive_conf(reason: StandbyReason) -> (r: String)
    ensures
        r@ == archive_conf(reason),
{
    let mut r = header(reason);
    r.append("recovery_target_timeline = 'latest'\n");
    r
}

/// The host and port of a connection string that names a host; the usual port where it names
/// none that is one.
pub open spec fn pg_host_port(s: Seq<char>) -> Option<(Seq<char>, nat)> {
    if !text::contains_sub(s, "host="@) {
        None
    } else {
        match first_value(text::words(s), "host="@) {
            Some(host) => Some(
                (
                    host,
                    match first_value(text::words(s), "port="@) {
                        Some(p) => port_or_default(p),
                        None => 5432,
                    },
                ),
            ),
            None => None,
        }
    }
}

/// The host and port of a connection string that names a host.
pub fn parse_pg_host_port(conn_url: &str) -> (r: Option<(String, u16)>)
    ensures
        match r {
            Some(hp) => pg_host_port(conn_url@) == Some((hp.0@, hp.1 as nat)),
            None => pg_host_port(conn_url@) is None,
        },
{
    if !contains(conn_url, "host=") {
        return None;
    }
    let host: String = match find_first(conn_url, "host=") {
        Some(h) => h,
        None => {
            return None;
        },
    };
    let port: u16 = match find_first(conn_url, "port=") {
        Some(p) => match parse_u16(p.as_str()) {
            Some(n) => n,
            None => 5432,
        },
        None => 5432,
    };
    Some((host, port))
}

/// The address of the REST API of the host that a connection string names.
pub fn api_url_from_conn_url(conn_url: &str, api_port: u16) -> (r: Option<String>)
    ensures
        text::opt_view(r) == match pg_host_port(conn_url@) {
            Some(hp) => Some("http://"@ + hp.0 + ":"@ + text::dec(api_port as nat)),
            None => None,
        },
{
    match parse_pg_host_port(conn_url) {
        Some((host, _)) => {
            let mut r = "http://".to_string();
            r.append(host.as_str());
            r.append(":");
            r.append(u64_to_string(api_port as u64).as_str());
            Some(r)
        },
        None => None,
    }
}

// ---------------------------------------------------------------------------------------------
// Laws
// ---------------------------------------------------------------------------------------------
/// Of several words that set a key the last counts where the last is asked for, and the first where
/// the first is; where no word sets it, the default counts, or there is no value.
pub proof fn law_words_set_values(
    words: Seq<Seq<char>>,
    key: Seq<char>,
    value: Seq<char>,
    default: Seq<char>,
    i: int,
)
    ensures
        0 <= i < words.len() && words[i] == key + value && (forall|j: int|
            i < j < words.len() ==> !key.is_prefix_of(#[trigger] words[j])) ==> last_value(
            words,
            key,
            default,
        ) == value,
        0 <= i < words.len() && words[i] == key + value && (forall|j: int|
            0 <= j < i ==> !key.is_prefix_of(#[trigger] words[j])) ==> first_value(words, key)
            == Some(value),
        (forall|j: int| 0 <= j < words.len() ==> !key.is_prefix_of(#[trigger] words[j]))
            ==> last_value(words, key, default) == default && first_value(words, key) is None,
    decreases words.len(),
{
    if words.len() > 0 {
        let init = words.drop_last();
        let tail = words.skip(1);
        law_words_set_values(init, key, value, default, i);
        law_words_set_values(tail, key, value, default, i - 1);
        assert forall|j: int| 0 <= j < init.len() implies init[j] == words[j] by {}
        assert forall|j: int| 0 <= j < tail.len() implies tail[j] == words[j + 1] by {}
        if 0 <= i < words.len() && words[i] == key + value {
            assert(key.is_prefix_of(words[i])) by {
                assert((key + value).take(key.len() as int) =~= key);
                assert((key + value).subrange(0, key.len() as int) =~= key);
            }
            assert(words[i].skip(key.len() as int) =~= value);
        }
        assert(words.last() == words[words.len() - 1]);
    }
}

/// A replica connects to the host and port of its source with the user and the password for
/// replication, and under its own name; it follows the latest timeline. One that is not to stream is
/// told of no connection.
pub proof fn law_standby_connects_to_its_source(
    source: Seq<char>,
    user: Seq<char>,
    password: Option<Seq<char>>,
    name: Seq<char>,
    reason: StandbyReason,
    host: Seq<char>,
    port: Seq<char>,
    secret: Seq<char>,
)
    requires
        host == last_value(text::words(source), "host="@, "127.0.0.1"@),
        port == last_value(text::words(source), "port="@, "5432"@),
        password is Some ==> secret == password->0,
        password is None ==> secret.len() == 0,
    ensures
        standby_conninfo(source, user, password, name) == "host="@ + host + " port="@ + port
            + " user="@ + user + " password="@ + secret + " application_name="@ + name,
        auto_conf(reason, name) == standby_header(reason) + "primary_conninfo = '"@ + name
            + "'\nrecovery_target_timeline = 'latest'\n"@,
        archive_conf(reason) == standby_header(reason) + "recovery_target_timeline = 'latest'\n"@,
{
    if password is None {
        assert(secret =~= Seq::empty());
    }
}

/// A connection string has a host if one of its words sets one, and the usual port unless a word sets
/// one that is a port.
pub proof fn law_host_and_port_of_a_connection(s: Seq<char>, host: Seq<char>, port: Seq<char>)
    requires
        text::contains_sub(s, "host="@),
        first_value(text::words(s), "host="@) == Some(host),
    ensures
        first_value(text::words(s), "port="@) is None ==> pg_host_port(s) == Some((host, 5432nat)),
        first_value(text::words(s), "port="@) == Some(port) ==> pg_host_port(s) == Some(
            (
                host,
                match text::parse_uint(port, false, 65535) {
                    Some(n) => n,
                    None => 5432,
                },
            ),
        ),
{
}

} // verus!
