//! Process environment values, parsed and validated.
//!
//! The process boundary reads the raw environment variables; this
//! module holds the validated record the rest of the library uses, and
//! the exact meaning of the two parsed fields: the environment name and
//! the server port.

use vstd::prelude::*;
use vstd::string::StringSliceAdditionalSpecFns;
use vstd::utf8::encode_utf8;

verus! {

/// Deployment environment of the process.
#[derive(Debug, Clone, Copy, PartialEq, Eq, Structural)]
pub enum Env {
    Local,
    Production,
}

/// The environment names the process accepts.
pub open spec fn parse_env_spec(b: Seq<u8>) -> Option<Env> {
    if b == "local".spec_bytes() {
        Some(Env::Local)
    } else if b == "production".spec_bytes() {
        Some(Env::Production)
    } else {
        None
    }
}

pub open spec fn digits_val(b: Seq<u8>) -> int
    decreases b.len(),
{
    if b.len() == 0 {
        0
    } else {
        digits_val(b.drop_last()) * 10 + (b.last() - 48)
    }
}

pub open spec fn all_digits(b: Seq<u8>) -> bool {
    forall|j: int| 0 <= j < b.len() ==> 48 <= #[trigger] b[j] <= 57
}

/// The port strings `str::parse::<u16>` accepts: an optional leading
/// `+`, then one or more digits, valued at most 65535.
pub open spec fn parse_u16_spec(b: Seq<u8>) -> Option<int> {
    let d = if b.len() > 0 && b[0] == 43 {
        b.drop_first()
    } else {
        b
    };
    if d.len() == 0 || !all_digits(d) {
        None
    } else if digits_val(d) <= 65535 {
        Some(digits_val(d))
    } else {
        None
    }
}

proof fn lemma_digits_val_nonneg(b: Seq<u8>)
    requires
        all_digits(b),
    ensures
        digits_val(b) >= 0,
    decreases b.len(),
{
    if b.len() > 0 {
        let t = b.drop_last();
        assert(forall|j: int| 0 <= j < t.len() ==> 48 <= #[trigger] t[j] <= 57);
        lemma_digits_val_nonneg(t);
    }
}

/// A digit string's value is at least the value of any of its prefixes.
proof fn lemma_digits_val_prefix(b: Seq<u8>, j: int)
    requires
        all_digits(b),
        0 <= j <= b.len(),
    ensures
        digits_val(b.take(j)) <= digits_val(b),
    decreases b.len() - j,
{
    assert(forall|q: int| 0 <= q < j ==> 48 <= #[trigger] b.take(j)[q] <= 57);
    if j == b.len() {
        assert(b.take(j) =~= b);
    } else {
        lemma_digits_val_prefix(b, j + 1);
        assert(b.take(j + 1).drop_last() =~= b.take(j));
        lemma_digits_val_nonneg(b.take(j));
        assert(digits_val(b.take(j + 1)) == digits_val(b.take(j)) * 10 + (b[j] - 48));
        assert(digits_val(b.take(j)) * 10 >= digits_val(b.take(j))) by (nonlinear_arith)
            requires
                digits_val(b.take(j)) >= 0,
        ;
    }
}

/// Compares two byte strings.
fn bytes_eq(a: &[u8], b: &[u8]) -> (r: bool)
    ensures
        r == (a@ == b@),
{
    if a.len() != b.len() {
        return false;
    }
    let mut k: usize = 0;
    while k < a.len()
        invariant
            a@.len() == b@.len(),
            0 <= k <= a@.len(),
            forall|q: int| 0 <= q < k ==> a@[q] == b@[q],
        decreases a@.len() - k,
    {
        if a[k] != b[k] {
            return false;
        }
        k = k + 1;
    }
    proof {
        assert(a@ =~= b@);
    }
    true
}

/// Parses an environment name.
pub fn parse_env(name: &str) -> (r: Option<Env>)
    ensures
        r == parse_env_spec(name.spec_bytes()),
{
    if bytes_eq(name.as_bytes(), "local".as_bytes()) {
        Some(Env::Local)
    } else if bytes_eq(name.as_bytes(), "production".as_bytes()) {
        Some(Env::Production)
    } else {
        None
    }
}

/// Parses a port number as `str::parse::<u16>` does.
pub fn parse_port(text: &str) -> (r: Option<u16>)
    ensures
        match r {
            Some(v) => parse_u16_spec(text.spec_bytes()) == Some(v as int),
            None => parse_u16_spec(text.spec_bytes()) is None,
        },
{
    let b = text.as_bytes();
    let start: usize = if b.len() > 0 && b[0] == 43 {
        1
    } else {
        0
    };
    let ghost d = if start == 1 {
        text.spec_bytes().drop_first()
    } else {
        text.spec_bytes()
    };
    proof {
        assert(d =~= b@.subrange(start as int, b@.len() as int));
    }
    if b.len() == start {
        return None;
    }
    let mut acc: u32 = 0;
    let mut k = start;
    while k < b.len()
        invariant
            b@ == text.spec_bytes(),
            start <= k <= b@.len(),
            start < b@.len(),
            start == 1 <==> b@.len() > 0 && b@[0] == 43,
            d == b@.subrange(start as int, b@.len() as int),
            d == (if b@.len() > 0 && b@[0] == 43 {
                text.spec_bytes().drop_first()
            } else {
                text.spec_bytes()
            }),
            forall|q: int| start <= q < k ==> 48 <= #[trigger] b@[q] <= 57,
            acc as int == digits_val(d.take(k - start)),
            acc <= 65535,
        decreases b@.len() - k,
    {
        if b[k] < 48 || b[k] > 57 {
            proof {
                assert(!all_digits(d)) by {
                    assert(d[k - start] == b@[k as int]);
                }
            }
            return None;
        }
        proof {
            assert(d.take(k - start + 1).drop_last() =~= d.take(k - start));
            assert(d.take(k - start + 1).last() == b@[k as int]);
        }
        acc = acc * 10 + (b[k] - 48) as u32;
        if acc > 65535 {
            proof {
                assert(forall|q: int|
                    0 <= q < k + 1 - start ==> 48 <= #[trigger] d[q] <= 57);
                if all_digits(d) {
                    lemma_digits_val_prefix(d, k + 1 - start);
                }
            }
            return None;
        }
        k = k + 1;
    }
    proof {
        assert(d.take(b@.len() - start) =~= d);
        assert forall|q: int| 0 <= q < d.len() implies 48 <= #[trigger] d[q] <= 57 by {
            assert(d[q] == b@[q + start]);
        }
        assert(all_digits(d));
    }
    Some(acc as u16)
}

/// Validated environment values of the process: the deployment
/// environment, the HTTP bind address and port, and the credentials
/// and names for the two backing stores.
#[derive(Debug)]
pub struct AppEnv {
    pub env: Env,
    pub server_port: u16,
    pub server_address: String,
    pub clickhouse_url: String,
    pub clickhouse_user: String,
    pub clickhouse_password: String,
    pub clickhouse_database: String,
    pub postgres_host: String,
    pub postgres_user: String,
    pub postgres_password: String,
    pub postgres_database: String,
}

impl AppEnv {
    /// Builds the validated record from the raw environment values.
    /// The caller checks beforehand that the environment name is known
    /// and the port parses; on raw values that fail either check the
    /// process stops at its boundary, as there is no useful fallback.
    pub fn new(
        env: &str,
        server_port: &str,
        server_address: String,
        clickhouse_url: String,
        clickhouse_user: String,
        clickhouse_password: String,
        clickhouse_database: String,
        postgres_host: String,
        postgres_user: String,
        postgres_password: String,
        postgres_database: String,
    ) -> (r: AppEnv)
        requires
            parse_env_spec(env.spec_bytes()) is Some,
            parse_u16_spec(server_port.spec_bytes()) is Some,
        ensures
            Some(r.env) == parse_env_spec(env.spec_bytes()),
            Some(r.server_port as int) == parse_u16_spec(server_port.spec_bytes()),
            r.server_address@ == server_address@,
            r.clickhouse_url@ == clickhouse_url@,
            r.clickhouse_user@ == clickhouse_user@,
            r.clickhouse_password@ == clickhouse_password@,
            r.clickhouse_database@ == clickhouse_database@,
            r.postgres_host@ == postgres_host@,
            r.postgres_user@ == postgres_user@,
            r.postgres_password@ == postgres_password@,
            r.postgres_database@ == postgres_database@,
    {
        let parsed_env = match parse_env(env) {
            Some(e) => e,
            None => Env::Local,
        };
        let port = match parse_port(server_port) {
            Some(p) => p,
            None => 0,
        };
        AppEnv {
            env: parsed_env,
            server_port: port,
            server_address,
            clickhouse_url,
            clickhouse_user,
            clickhouse_password,
            clickhouse_database,
            postgres_host,
            postgres_user,
            postgres_password,
            postgres_database,
        }
    }

    /// Whether the process runs in the local development environment.
    pub fn is_local(&self) -> (r: bool)
        ensures
            r == (self.env == Env::Local),
    {
        match self.env {
            Env::Local => true,
            Env::Production => false,
        }
    }
}

} // verus!
