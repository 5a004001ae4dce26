//! The abuse detector: flags attack-like requests against the signature
//! catalog, applies the ban test and the escalation table, and selects the
//! response payload.  The caller resolves the client address, hands in the
//! request's pieces as plain bytes, performs the imposed delay and builds
//! the HTTP response from the decision.

use vstd::prelude::*;
use vstd::string::StringExecFns;
use crate::catalog::{
    contains_attack_pattern, contains_suspicious_agent, has_sql_quote_heuristic,
    matches_attack_pattern, matches_suspicious_agent, sql_quote_heuristic,
};
use crate::percent::{percent_decode, percent_decode_bytes};
use crate::registry::{
    banned_at, bumped_count, delay_for, next_attempt, reg_find, AttackRegistry,
};

verus! {

/// The flat delay imposed on every request from an already banned client.
pub const BANNED_DELAY_SECS: u64 = 30;

/// How many decoy payloads rotate on penalized requests.
pub const DECOY_PAYLOAD_COUNT: usize = 5;

/// A request is flagged when its full URI, its percent-decoded query (also
/// via the quoted-string heuristic), its referer, or its client identifier
/// matches the signature catalog.
pub open spec fn is_flagged(
    uri: Seq<u8>,
    query: Option<Seq<u8>>,
    user_agent: Option<Seq<u8>>,
    referer: Option<Seq<u8>>,
) -> bool {
    ||| matches_attack_pattern(uri)
    ||| match query {
        Some(q) => matches_attack_pattern(percent_decode(q)) || sql_quote_heuristic(
            percent_decode(q),
        ),
        None => false,
    }
    ||| match user_agent {
        Some(ua) => matches_suspicious_agent(ua),
        None => false,
    }
    ||| match referer {
        Some(rf) => matches_attack_pattern(rf),
        None => false,
    }
}

/// Inspects one request's pieces against the signature catalog: the full
/// URI as sent, the percent-decoded query string, the user-agent and the
/// referer.
pub fn contains_attack_patterns(
    uri: &[u8],
    query: Option<&[u8]>,
    user_agent: Option<&[u8]>,
    referer: Option<&[u8]>,
) -> (r: bool)
    ensures
        r == is_flagged(
            uri@,
            match query {
                Some(q) => Some(q@),
                None => None,
            },
            match user_agent {
                Some(ua) => Some(ua@),
                None => None,
            },
            match referer {
                Some(rf) => Some(rf@),
                None => None,
            },
        ),
{
    if contains_attack_pattern(uri) {
        return true;
    }
    match query {
        Some(q) => {
            let decoded = percent_decode_bytes(q);
            if contains_attack_pattern(decoded.as_slice()) {
                return true;
            }
            if has_sql_quote_heuristic(decoded.as_slice()) {
                return true;
            }
        },
        None => {},
    }
    match user_agent {
        Some(ua) => {
            if contains_suspicious_agent(ua) {
                return true;
            }
        },
        None => {},
    }
    match referer {
        Some(rf) => {
            if contains_attack_pattern(rf) {
                return true;
            }
        },
        None => {},
    }
    false
}

/// What the abuse detector decides for one inbound request.
pub enum AbuseDecision {
    /// Nothing suspicious: pass the request on with zero registry
    /// interaction and zero added latency.
    Clean,
    /// The client is banned: wait out the flat delay, then answer with the
    /// forbidden payload; the attempt counter does not advance.
    Banned { delay_secs: u64 },
    /// The request is flagged: wait out the escalating delay, then answer
    /// with the selected decoy payload, echoing the client's address and
    /// attempt count.
    Penalized { delay_secs: u64, attempt_count: u32, payload_index: usize },
}

/// Runs the abuse detector for one request at time `now`: the ban test
/// first, then the signature scan, then the escalation table.
///
/// A banned client's record is left untouched; a flagged request moves the
/// client's record one step through the escalation table; a clean request
/// touches nothing.
pub fn inspect_request(
    reg: &mut AttackRegistry,
    ip: &String,
    uri: &[u8],
    query: Option<&[u8]>,
    user_agent: Option<&[u8]>,
    referer: Option<&[u8]>,
    now: u64,
) -> (r: AbuseDecision)
    requires
        old(reg).wf(),
        now <= u64::MAX - 3600,
    ensures
        final(reg).wf(),
        banned_at(old(reg)@, ip@, now) ==> r == (AbuseDecision::Banned {
            delay_secs: BANNED_DELAY_SECS,
        }) && final(reg)@ == old(reg)@,
        !banned_at(old(reg)@, ip@, now) && is_flagged(
            uri@,
            match query {
                Some(q) => Some(q@),
                None => None,
            },
            match user_agent {
                Some(ua) => Some(ua@),
                None => None,
            },
            match referer {
                Some(rf) => Some(rf@),
                None => None,
            },
        ) ==> {
            let a = next_attempt(reg_find(old(reg)@, ip@), now);
            &&& final(reg)@ == old(reg)@.insert(ip@, a)
            &&& r == (AbuseDecision::Penalized {
                delay_secs: delay_for(a.count),
                attempt_count: a.count,
                payload_index: ((a.count - 1) as int % 5) as usize,
            })
        },
        !banned_at(old(reg)@, ip@, now) && !is_flagged(
            uri@,
            match query {
                Some(q) => Some(q@),
                None => None,
            },
            match user_agent {
                Some(ua) => Some(ua@),
                None => None,
            },
            match referer {
                Some(rf) => Some(rf@),
                None => None,
            },
        ) ==> r == AbuseDecision::Clean && final(reg)@ == old(reg)@,
    {
        if reg.is_ip_banned(ip, now) {
            return AbuseDecision::Banned { delay_secs: BANNED_DELAY_SECS };
        }
        if contains_attack_patterns(uri, query, user_agent, referer) {
            let (delay_secs, attempt_count) = reg.record_attack_attempt(ip, now);
            proof {
                assert(attempt_count >= 1);
            }
            let payload_index = ((attempt_count - 1) % 5) as usize;
            AbuseDecision::Penalized { delay_secs, attempt_count, payload_index }
        } else {
            AbuseDecision::Clean
        }
    }

/// The five decoy payloads rotated on penalized requests; they are
/// deliberately misleading, suggesting progress to discourage refinement
/// of the probing.
pub open spec fn decoy_payloads() -> Seq<Seq<char>> {
    seq![
        "{\"error\":\"Invalid parameter\",\"hint\":\"Try adding ?debug=true\"}"@,
        "{\"error\":\"Access denied\",\"message\":\"Authentication required\",\"login_url\":\"/admin/login\"}"@,
        "{\"error\":\"Database connection failed\",\"retry_after\":300}"@,
        "{\"error\":\"Rate limit exceeded\",\"message\":\"Too many requests\"}"@,
        "{\"status\":\"processing\",\"message\":\"Please wait...\",\"eta\":\"5 minutes\"}"@,
    ]
}

/// The decoy payload at a rotation position.
pub fn decoy_payload(i: usize) -> (r: &'static str)
    requires
        i < DECOY_PAYLOAD_COUNT,
    ensures
        r@ == decoy_payloads()[i as int],
{
    match i {
        0 => "{\"error\":\"Invalid parameter\",\"hint\":\"Try adding ?debug=true\"}",
        1 => "{\"error\":\"Access denied\",\"message\":\"Authentication required\",\"login_url\":\"/admin/login\"}",
        2 => "{\"error\":\"Database connection failed\",\"retry_after\":300}",
        3 => "{\"error\":\"Rate limit exceeded\",\"message\":\"Too many requests\"}",
        _ => "{\"status\":\"processing\",\"message\":\"Please wait...\",\"eta\":\"5 minutes\"}",
    }
}

/// The rendering of a UNIX timestamp, named so that contracts can speak of
/// it exactly; the rendering depends on the timestamp alone.
pub uninterp spec fn rfc3339_of(secs: i64) -> Seq<char>;

/// Relies on chrono's `DateTime::<Utc>::from_timestamp` and `to_rfc3339`:
/// a pure rendering of the given UNIX second; the requires keeps the
/// timestamp inside chrono's calendar range, where the conversion always
/// succeeds.
#[verifier::external_body]
fn format_rfc3339_utc(secs: i64) -> (r: String)
    requires
        0 <= secs <= 253402300799,
    ensures
        r@ == rfc3339_of(secs),
{
    match chrono::DateTime::<chrono::Utc>::from_timestamp(secs, 0) {
        Some(dt) => dt.to_rfc3339(),
        None => String::new(),
    }
}

/// The fixed forbidden payload served to a banned client, carrying the
/// client's own address and the current wall-clock timestamp.
pub fn banned_payload(ip: &String, unix_secs: i64) -> (r: String)
    requires
        0 <= unix_secs <= 253402300799,
    ensures
        r@ == "{\"error\":\"Access denied\",\"message\":\"Your IP "@ + ip@
            + " has been banned for suspicious activity\",\"code\":\"BANNED\",\"timestamp\":\""@
            + rfc3339_of(unix_secs) + "\"}"@,
{
    let ts = format_rfc3339_utc(unix_secs);
    let mut r = String::new();
    r.append("{\"error\":\"Access denied\",\"message\":\"Your IP ");
    r.append(ip.as_str());
    r.append(" has been banned for suspicious activity\",\"code\":\"BANNED\",\"timestamp\":\"");
    r.append(ts.as_str());
    r.append("\"}");
    r
}

} // verus!
