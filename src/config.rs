use vstd::prelude::*;

use crate::host::opt_view;

verus! {

pub open spec fn is_digit(c: char) -> bool {
    '0' <= c && c <= '9'
}

pub open spec fn all_digits(s: Seq<char>) -> bool {
    forall|i: int| 0 <= i < s.len() ==> #[trigger] is_digit(s[i])
}

/// The number that a run of decimal digits spells.
pub open spec fn digits_value(s: Seq<char>) -> int
    decreases s.len(),
{
    if s.len() == 0 {
        0
    } else {
        digits_value(s.drop_last()) * 10 + (s.last() as int - '0' as int)
    }
}

/// The magnitude written in `s`: one or more decimal digits.
pub open spec fn magnitude(s: Seq<char>) -> Option<int> {
    if s.len() > 0 && all_digits(s) {
        Some(digits_value(s))
    } else {
        None
    }
}

/// An unsigned decimal number: digits after an optional `+`.
pub open spec fn unsigned_text(s: Seq<char>) -> Option<int> {
    if s.len() > 0 && s[0] == '+' {
        magnitude(s.drop_first())
    } else {
        magnitude(s)
    }
}

/// A signed decimal number: digits after an optional `+` or `-`.
pub open spec fn signed_text(s: Seq<char>) -> Option<int> {
    if s.len() > 0 && s[0] == '-' {
        match magnitude(s.drop_first()) {
            Some(v) => Some(-v),
            None => None,
        }
    } else {
        unsigned_text(s)
    }
}

/// What parsing `s` as a `u16` gives: the number if it is written correctly and fits.
pub open spec fn u16_text(s: Seq<char>) -> Option<u16> {
    match unsigned_text(s) {
        Some(v) => if v <= u16::MAX {
            Some(v as u16)
        } else {
            None
        },
        None => None,
    }
}

/// What parsing `s` as an `i64` gives: the number if it is written correctly and fits.
pub open spec fn i64_text(s: Seq<char>) -> Option<i64> {
    match signed_text(s) {
        Some(v) => if i64::MIN <= v <= i64::MAX {
            Some(v as i64)
        } else {
            None
        },
        None => None,
    }
}

proof fn lemma_digits_grow(s: Seq<char>, k: int)
    requires
        all_digits(s),
        0 <= k <= s.len(),
    ensures
        0 <= digits_value(s.take(k)) <= digits_value(s),
    decreases s.len(),
{
    if k == s.len() {
        assert(s.take(k) =~= s);
        if s.len() > 0 {
            lemma_digits_grow(s.drop_last(), k - 1);
            assert(s.drop_last().take(k - 1) =~= s.drop_last());
            assert(is_digit(s[s.len() - 1]));
        }
    } else {
        let t = s.drop_last();
        assert(all_digits(t)) by {
            assert forall|i: int| 0 <= i < t.len() implies #[trigger] is_digit(t[i]) by {
                assert(t[i] == s[i]);
            }
        }
        lemma_digits_grow(t, k);
        assert(t.take(k) =~= s.take(k));
        lemma_digits_grow(t, t.len() as int);
        assert(t.take(t.len() as int) =~= t);
        assert(is_digit(s[s.len() - 1]));
    }
}

/// Reads the characters of `s` from `start` to its end as a magnitude of at most `limit`.
fn read_magnitude(s: &str, start: usize, limit: u64) -> (r: Option<u64>)
    requires
        start <= s@.len(),
    ensures
        r == (match magnitude(s@.subrange(start as int, s@.len() as int)) {
            Some(v) => if v <= limit {
                Some(v as u64)
            } else {
                None
            },
            None => None,
        }),
        r matches Some(v) ==> v <= limit && magnitude(s@.subrange(start as int, s@.len() as int))
            == Some(v as int),
{
    let len = s.unicode_len();
    if start >= len {
        return None;
    }
    let ghost body = s@.subrange(start as int, len as int);
    let mut acc: u64 = 0;
    let mut i: usize = start;
    while i < len
        invariant
            len == s@.len(),
            body == s@.subrange(start as int, len as int),
            start <= i <= len,
            start < len,
            all_digits(s@.subrange(start as int, i as int)),
            acc as int == digits_value(s@.subrange(start as int, i as int)),
            acc <= limit,
        decreases len - i,
    {
        let c = s.get_char(i);
        let ghost prefix = s@.subrange(start as int, i as int);
        let ghost next = s@.subrange(start as int, i + 1);
        assert(next.drop_last() =~= prefix);
        assert(next.last() == c);
        assert(body.take(i + 1 - start) =~= next);
        if !('0' <= c && c <= '9') {
            assert(!is_digit(body[i - start]));
            return None;
        }
        let d: u64 = (c as u32 - '0' as u32) as u64;
        let wide: u128 = acc as u128 * 10 + d as u128;
        assert(all_digits(next)) by {
            assert forall|j: int| 0 <= j < next.len() implies #[trigger] is_digit(next[j]) by {
                if j < prefix.len() {
                    assert(next[j] == prefix[j]);
                }
            }
        }
        if wide > limit as u128 {
            proof {
                if all_digits(body) {
                    lemma_digits_grow(body, i + 1 - start);
                }
            }
            return None;
        }
        acc = wide as u64;
        i = i + 1;
    }
    assert(s@.subrange(start as int, i as int) =~= body);
    Some(acc)
}

/// Parses a port number as `u16`'s `FromStr` does.
pub fn parse_u16(s: &str) -> (r: Option<u16>)
    ensures
        r == u16_text(s@),
{
    let len = s.unicode_len();
    let start: usize = if len > 0 && s.get_char(0) == '+' {
        1
    } else {
        0
    };
    assert(s@.subrange(start as int, s@.len() as int) =~= (if start == 1 {
        s@.drop_first()
    } else {
        s@
    }));
    match read_magnitude(s, start, 65535) {
        Some(v) => Some(v as u16),
        None => None,
    }
}

/// Parses a number as `i64`'s `FromStr` does.
pub fn parse_i64(s: &str) -> (r: Option<i64>)
    ensures
        r == i64_text(s@),
{
    let len = s.unicode_len();
    if len > 0 && s.get_char(0) == '-' {
        assert(s@.subrange(1, s@.len() as int) =~= s@.drop_first());
        match read_magnitude(s, 1, 9223372036854775808) {
            Some(v) => Some((0i128 - v as i128) as i64),
            None => None,
        }
    } else {
        let start: usize = if len > 0 && s.get_char(0) == '+' {
            1
        } else {
            0
        };
        assert(s@.subrange(start as int, s@.len() as int) =~= (if start == 1 {
            s@.drop_first()
        } else {
            s@
        }));
        match read_magnitude(s, start, 9223372036854775807) {
            Some(v) => Some(v as i64),
            None => None,
        }
    }
}

/// The value of a setting: what was given, else `fallback`.
pub open spec fn or_fallback(v: Option<String>, fallback: Seq<char>) -> Seq<char> {
    match v {
        Some(s) => s@,
        None => fallback,
    }
}

/// An optional credential: an empty value means none.
pub open spec fn non_empty(s: Seq<char>) -> Option<Seq<char>> {
    if s.len() == 0 {
        None
    } else {
        Some(s)
    }
}

fn setting(v: Option<String>, fallback: &str) -> (r: String)
    ensures
        r@ == or_fallback(v, fallback@),
{
    match v {
        Some(s) => s,
        None => fallback.to_owned(),
    }
}

fn credential(s: String) -> (r: Option<String>)
    ensures
        opt_view(r) == non_empty(s@),
{
    if s.as_str().is_empty() {
        None
    } else {
        Some(s)
    }
}

/// Where the key-value store that holds the leases listens, and how to log in.
pub struct RedisStateOpts {
    pub host: String,
    pub port: u16,
    pub user: Option<String>,
    pub pass: Option<String>,
    pub index: i64,
}

impl RedisStateOpts {
    /// Development settings from the values of the variables `redis_host`,
    /// `redis_port`, `redis_user`, `redis_pass` and `redis_index` (`None` when
    /// unset); unset ones fall back to a local server, database 0, no login.
    /// `None` when the port or the index is not a number of its type.
    pub fn dev_opts(
        host: Option<String>,
        port: Option<String>,
        user: Option<String>,
        pass: Option<String>,
        index: Option<String>,
    ) -> (r: Option<RedisStateOpts>)
        ensures
            r is Some <==> (u16_text(or_fallback(port, "6379"@)) is Some && i64_text(
                or_fallback(index, "0"@),
            ) is Some),
            r matches Some(o) ==> {
                &&& o.host@ == or_fallback(host, "127.0.0.1"@)
                &&& Some(o.port) == u16_text(or_fallback(port, "6379"@))
                &&& opt_view(o.user) == non_empty(or_fallback(user, ""@))
                &&& opt_view(o.pass) == non_empty(or_fallback(pass, ""@))
                &&& Some(o.index) == i64_text(or_fallback(index, "0"@))
            },
    {
        let host = setting(host, "127.0.0.1");
        let port = setting(port, "6379");
        let user = setting(user, "");
        let pass = setting(pass, "");
        let index = setting(index, "0");
        let port = match parse_u16(port.as_str()) {
            Some(p) => p,
            None => return None,
        };
        let index = match parse_i64(index.as_str()) {
            Some(i) => i,
            None => return None,
        };
        Some(RedisStateOpts { host, port, user: credential(user), pass: credential(pass), index })
    }
}

/// Where the relational database listens, how to log in, and which database to use.
pub struct MysqlStateOpts {
    pub host: String,
    pub port: u16,
    pub user: String,
    pub pass: String,
    pub name: String,
}

impl MysqlStateOpts {
    /// Development settings from the values of the variables `mysql_host`,
    /// `mysql_port`, `mysql_user`, `mysql_pass` and `mysql_db_name` (`None`
    /// when unset); unset ones fall back to a local server, user `root` with an
    /// empty password, and the database `cross_copy`. `None` when the port is
    /// not a `u16`.
    pub fn dev_opts(
        host: Option<String>,
        port: Option<String>,
        user: Option<String>,
        pass: Option<String>,
        name: Option<String>,
    ) -> (r: Option<MysqlStateOpts>)
        ensures
            r is Some <==> u16_text(or_fallback(port, "3306"@)) is Some,
            r matches Some(o) ==> {
                &&& o.host@ == or_fallback(host, "127.0.0.1"@)
                &&& Some(o.port) == u16_text(or_fallback(port, "3306"@))
                &&& o.user@ == or_fallback(user, "root"@)
                &&& o.pass@ == or_fallback(pass, ""@)
                &&& o.name@ == or_fallback(name, "cross_copy"@)
            },
    {
        let host = setting(host, "127.0.0.1");
        let port = setting(port, "3306");
        let user = setting(user, "root");
        let pass = setting(pass, "");
        let name = setting(name, "cross_copy");
        match parse_u16(port.as_str()) {
            Some(port) => Some(MysqlStateOpts { host, port, user, pass, name }),
            None => None,
        }
    }
}

/// Settings of both stores the service connects to.
pub struct AppStateOpts {
    pub redis: RedisStateOpts,
    pub mysql: MysqlStateOpts,
}

/// Log filter directive and the directory for the rolling log files.
pub struct SetupTracingOpts {
    pub tracing: String,
    pub tracing_output_dir: String,
}

} // verus!
