//! Signature catalog: the static lists of attack-pattern substrings and
//! suspicious client-identifier substrings, with the matching predicates.
//! Matching is byte-wise, ASCII case-insensitive substring containment; the
//! catalog entries are kept in lower case, and a candidate is lowered once
//! before the scan.  Containment, not parsing, is deliberate: it is cheap,
//! and the occasional false positive only costs the sender a delay.

use vstd::prelude::*;
use vstd::string::StringSliceAdditionalSpecFns;
use crate::ascii::{contains_bytes, contains_subslice, lower_bytes, to_lower};

verus! {

/// SQL-injection probes: classic tautologies, stacked keywords and comment tails.
pub open spec fn sql_injection_in(low: Seq<u8>) -> bool {
    contains_bytes(low, "' or 1=1".spec_bytes())
        || contains_bytes(low, "' or 1=1--".spec_bytes())
        || contains_bytes(low, "' or 1=1#".spec_bytes())
        || contains_bytes(low, "' or 1=1/*".spec_bytes())
        || contains_bytes(low, "' or '1'='1".spec_bytes())
        || contains_bytes(low, "' or 'x'='x".spec_bytes())
        || contains_bytes(low, "' or 'a'='a".spec_bytes())
        || contains_bytes(low, "' union select".spec_bytes())
        || contains_bytes(low, "' union all select".spec_bytes())
        || contains_bytes(low, "' drop table".spec_bytes())
        || contains_bytes(low, "' delete from".spec_bytes())
        || contains_bytes(low, "' insert into".spec_bytes())
        || contains_bytes(low, "' update set".spec_bytes())
        || contains_bytes(low, "admin'--".spec_bytes())
        || contains_bytes(low, "admin'#".spec_bytes())
        || contains_bytes(low, "' and 1=1--".spec_bytes())
        || contains_bytes(low, "' and 1=2--".spec_bytes())
        || contains_bytes(low, "'; --".spec_bytes())
        || contains_bytes(low, "'; #".spec_bytes())
        || contains_bytes(low, "';--".spec_bytes())
        || contains_bytes(low, "';#".spec_bytes())
        || contains_bytes(low, " or 1=1".spec_bytes())
        || contains_bytes(low, " or '1'='1".spec_bytes())
        || contains_bytes(low, "1' or '1'='1".spec_bytes())
        || contains_bytes(low, "1' or 1=1--".spec_bytes())
}

/// Scans lowered content for the sql-injection group.
fn scan_sql_injection(low: &[u8]) -> (r: bool)
    ensures
        r == sql_injection_in(low@),
{
    contains_subslice(low, "' or 1=1".as_bytes())
        || contains_subslice(low, "' or 1=1--".as_bytes())
        || contains_subslice(low, "' or 1=1#".as_bytes())
        || contains_subslice(low, "' or 1=1/*".as_bytes())
        || contains_subslice(low, "' or '1'='1".as_bytes())
        || contains_subslice(low, "' or 'x'='x".as_bytes())
        || contains_subslice(low, "' or 'a'='a".as_bytes())
        || contains_subslice(low, "' union select".as_bytes())
        || contains_subslice(low, "' union all select".as_bytes())
        || contains_subslice(low, "' drop table".as_bytes())
        || contains_subslice(low, "' delete from".as_bytes())
        || contains_subslice(low, "' insert into".as_bytes())
        || contains_subslice(low, "' update set".as_bytes())
        || contains_subslice(low, "admin'--".as_bytes())
        || contains_subslice(low, "admin'#".as_bytes())
        || contains_subslice(low, "' and 1=1--".as_bytes())
        || contains_subslice(low, "' and 1=2--".as_bytes())
        || contains_subslice(low, "'; --".as_bytes())
        || contains_subslice(low, "'; #".as_bytes())
        || contains_subslice(low, "';--".as_bytes())
        || contains_subslice(low, "';#".as_bytes())
        || contains_subslice(low, " or 1=1".as_bytes())
        || contains_subslice(low, " or '1'='1".as_bytes())
        || contains_subslice(low, "1' or '1'='1".as_bytes())
        || contains_subslice(low, "1' or 1=1--".as_bytes())
}

/// Script-tag and event-handler markers.
pub open spec fn script_markup_in(low: Seq<u8>) -> bool {
    contains_bytes(low, "<script>".spec_bytes())
        || contains_bytes(low, "</script>".spec_bytes())
        || contains_bytes(low, "javascript:".spec_bytes())
        || contains_bytes(low, "onload=".spec_bytes())
        || contains_bytes(low, "onerror=".spec_bytes())
        || contains_bytes(low, "onclick=".spec_bytes())
        || contains_bytes(low, "onmouseover=".spec_bytes())
        || contains_bytes(low, "alert(".spec_bytes())
        || contains_bytes(low, "document.cookie".spec_bytes())
}

/// Scans lowered content for the script-markup group.
fn scan_script_markup(low: &[u8]) -> (r: bool)
    ensures
        r == script_markup_in(low@),
{
    contains_subslice(low, "<script>".as_bytes())
        || contains_subslice(low, "</script>".as_bytes())
        || contains_subslice(low, "javascript:".as_bytes())
        || contains_subslice(low, "onload=".as_bytes())
        || contains_subslice(low, "onerror=".as_bytes())
        || contains_subslice(low, "onclick=".as_bytes())
        || contains_subslice(low, "onmouseover=".as_bytes())
        || contains_subslice(low, "alert(".as_bytes())
        || contains_subslice(low, "document.cookie".as_bytes())
}

/// Path-traversal sequences and sensitive system files.
pub open spec fn path_traversal_in(low: Seq<u8>) -> bool {
    contains_bytes(low, "../".spec_bytes())
        || contains_bytes(low, "..\\".spec_bytes())
        || contains_bytes(low, "....//".spec_bytes())
        || contains_bytes(low, "....\\\\".spec_bytes())
        || contains_bytes(low, "/etc/passwd".spec_bytes())
        || contains_bytes(low, "/etc/shadow".spec_bytes())
        || contains_bytes(low, "\\windows\\system32".spec_bytes())
}

/// Scans lowered content for the path-traversal group.
fn scan_path_traversal(low: &[u8]) -> (r: bool)
    ensures
        r == path_traversal_in(low@),
{
    contains_subslice(low, "../".as_bytes())
        || contains_subslice(low, "..\\".as_bytes())
        || contains_subslice(low, "....//".as_bytes())
        || contains_subslice(low, "....\\\\".as_bytes())
        || contains_subslice(low, "/etc/passwd".as_bytes())
        || contains_subslice(low, "/etc/shadow".as_bytes())
        || contains_subslice(low, "\\windows\\system32".as_bytes())
}

/// Command-injection separators with common probe commands.
pub open spec fn command_injection_in(low: Seq<u8>) -> bool {
    contains_bytes(low, "; cat /etc/passwd".spec_bytes())
        || contains_bytes(low, "| cat /etc/passwd".spec_bytes())
        || contains_bytes(low, "&& cat /etc/passwd".spec_bytes())
        || contains_bytes(low, "; ls -la".spec_bytes())
        || contains_bytes(low, "| ls -la".spec_bytes())
        || contains_bytes(low, "&& ls -la".spec_bytes())
        || contains_bytes(low, "; whoami".spec_bytes())
        || contains_bytes(low, "| whoami".spec_bytes())
        || contains_bytes(low, "&& whoami".spec_bytes())
}

/// Scans lowered content for the command-injection group.
fn scan_command_injection(low: &[u8]) -> (r: bool)
    ensures
        r == command_injection_in(low@),
{
    contains_subslice(low, "; cat /etc/passwd".as_bytes())
        || contains_subslice(low, "| cat /etc/passwd".as_bytes())
        || contains_subslice(low, "&& cat /etc/passwd".as_bytes())
        || contains_subslice(low, "; ls -la".as_bytes())
        || contains_subslice(low, "| ls -la".as_bytes())
        || contains_subslice(low, "&& ls -la".as_bytes())
        || contains_subslice(low, "; whoami".as_bytes())
        || contains_subslice(low, "| whoami".as_bytes())
        || contains_subslice(low, "&& whoami".as_bytes())
}

/// PHP tags and dangerous PHP functions.
pub open spec fn php_probe_in(low: Seq<u8>) -> bool {
    contains_bytes(low, "<?php".spec_bytes())
        || contains_bytes(low, "<?=".spec_bytes())
        || contains_bytes(low, "eval(".spec_bytes())
        || contains_bytes(low, "system(".spec_bytes())
        || contains_bytes(low, "exec(".spec_bytes())
        || contains_bytes(low, "shell_exec(".spec_bytes())
        || contains_bytes(low, "passthru(".spec_bytes())
        || contains_bytes(low, "file_get_contents(".spec_bytes())
        || contains_bytes(low, "include(".spec_bytes())
        || contains_bytes(low, "require(".spec_bytes())
}

/// Scans lowered content for the php-probe group.
fn scan_php_probe(low: &[u8]) -> (r: bool)
    ensures
        r == php_probe_in(low@),
{
    contains_subslice(low, "<?php".as_bytes())
        || contains_subslice(low, "<?=".as_bytes())
        || contains_subslice(low, "eval(".as_bytes())
        || contains_subslice(low, "system(".as_bytes())
        || contains_subslice(low, "exec(".as_bytes())
        || contains_subslice(low, "shell_exec(".as_bytes())
        || contains_subslice(low, "passthru(".as_bytes())
        || contains_subslice(low, "file_get_contents(".as_bytes())
        || contains_subslice(low, "include(".as_bytes())
        || contains_subslice(low, "require(".as_bytes())
}

/// Generic tokens and paths that automated probing likes to send.
pub open spec fn generic_probe_in(low: Seq<u8>) -> bool {
    contains_bytes(low, "null".spec_bytes())
        || contains_bytes(low, "undefined".spec_bytes())
        || contains_bytes(low, "nan".spec_bytes())
        || contains_bytes(low, "infinity".spec_bytes())
        || contains_bytes(low, "/admin".spec_bytes())
        || contains_bytes(low, "/administrator".spec_bytes())
        || contains_bytes(low, "/wp-admin".spec_bytes())
        || contains_bytes(low, "/phpmyadmin".spec_bytes())
        || contains_bytes(low, "/.env".spec_bytes())
        || contains_bytes(low, "/config.php".spec_bytes())
        || contains_bytes(low, "/database.php".spec_bytes())
}

/// Scans lowered content for the generic-probe group.
fn scan_generic_probe(low: &[u8]) -> (r: bool)
    ensures
        r == generic_probe_in(low@),
{
    contains_subslice(low, "null".as_bytes())
        || contains_subslice(low, "undefined".as_bytes())
        || contains_subslice(low, "nan".as_bytes())
        || contains_subslice(low, "infinity".as_bytes())
        || contains_subslice(low, "/admin".as_bytes())
        || contains_subslice(low, "/administrator".as_bytes())
        || contains_subslice(low, "/wp-admin".as_bytes())
        || contains_subslice(low, "/phpmyadmin".as_bytes())
        || contains_subslice(low, "/.env".as_bytes())
        || contains_subslice(low, "/config.php".as_bytes())
        || contains_subslice(low, "/database.php".as_bytes())
}

/// Some catalog attack pattern occurs in the ASCII-lowered content.
pub open spec fn matches_attack_pattern(content: Seq<u8>) -> bool {
    ||| sql_injection_in(lower_bytes(content))
    ||| script_markup_in(lower_bytes(content))
    ||| path_traversal_in(lower_bytes(content))
    ||| command_injection_in(lower_bytes(content))
    ||| php_probe_in(lower_bytes(content))
    ||| generic_probe_in(lower_bytes(content))
}

/// Scans content against the whole attack-pattern catalog.
pub fn contains_attack_pattern(content: &[u8]) -> (r: bool)
    ensures
        r == matches_attack_pattern(content@),
{
    let low = to_lower(content);
    scan_sql_injection(low.as_slice()) || scan_script_markup(low.as_slice())
        || scan_path_traversal(low.as_slice()) || scan_command_injection(low.as_slice())
        || scan_php_probe(low.as_slice()) || scan_generic_probe(low.as_slice())
}

/// Some suspicious client identifier occurs in the ASCII-lowered agent
/// string: scanning and exploitation tool names, or a minimal-viable HTTP
/// client signature.
pub open spec fn matches_suspicious_agent(agent: Seq<u8>) -> bool {
    contains_bytes(lower_bytes(agent), "sqlmap".spec_bytes())
        || contains_bytes(lower_bytes(agent), "nmap".spec_bytes())
        || contains_bytes(lower_bytes(agent), "nikto".spec_bytes())
        || contains_bytes(lower_bytes(agent), "dirb".spec_bytes())
        || contains_bytes(lower_bytes(agent), "dirbuster".spec_bytes())
        || contains_bytes(lower_bytes(agent), "gobuster".spec_bytes())
        || contains_bytes(lower_bytes(agent), "wfuzz".spec_bytes())
        || contains_bytes(lower_bytes(agent), "burp".spec_bytes())
        || contains_bytes(lower_bytes(agent), "owasp".spec_bytes())
        || contains_bytes(lower_bytes(agent), "python-requests".spec_bytes())
        || contains_bytes(lower_bytes(agent), "curl/7".spec_bytes())
        || contains_bytes(lower_bytes(agent), "wget".spec_bytes())
        || contains_bytes(lower_bytes(agent), "masscan".spec_bytes())
        || contains_bytes(lower_bytes(agent), "nessus".spec_bytes())
        || contains_bytes(lower_bytes(agent), "openvas".spec_bytes())
        || contains_bytes(lower_bytes(agent), "acunetix".spec_bytes())
}

/// Scans a client identifier against the suspicious-agent catalog.
pub fn contains_suspicious_agent(agent: &[u8]) -> (r: bool)
    ensures
        r == matches_suspicious_agent(agent@),
{
    let low = to_lower(agent);
    contains_subslice(low.as_slice(), "sqlmap".as_bytes())
        || contains_subslice(low.as_slice(), "nmap".as_bytes())
        || contains_subslice(low.as_slice(), "nikto".as_bytes())
        || contains_subslice(low.as_slice(), "dirb".as_bytes())
        || contains_subslice(low.as_slice(), "dirbuster".as_bytes())
        || contains_subslice(low.as_slice(), "gobuster".as_bytes())
        || contains_subslice(low.as_slice(), "wfuzz".as_bytes())
        || contains_subslice(low.as_slice(), "burp".as_bytes())
        || contains_subslice(low.as_slice(), "owasp".as_bytes())
        || contains_subslice(low.as_slice(), "python-requests".as_bytes())
        || contains_subslice(low.as_slice(), "curl/7".as_bytes())
        || contains_subslice(low.as_slice(), "wget".as_bytes())
        || contains_subslice(low.as_slice(), "masscan".as_bytes())
        || contains_subslice(low.as_slice(), "nessus".as_bytes())
        || contains_subslice(low.as_slice(), "openvas".as_bytes())
        || contains_subslice(low.as_slice(), "acunetix".as_bytes())
}

/// The quoted-string injection heuristic: a single quote combined with any
/// of a small set of query keywords flags the content even absent an exact
/// catalog match.
pub open spec fn sql_quote_heuristic(q: Seq<u8>) -> bool {
    contains_bytes(lower_bytes(q), "'".spec_bytes()) && (contains_bytes(
        lower_bytes(q),
        "or".spec_bytes(),
    ) || contains_bytes(lower_bytes(q), "and".spec_bytes()) || contains_bytes(
        lower_bytes(q),
        "union".spec_bytes(),
    ) || contains_bytes(lower_bytes(q), "select".spec_bytes()) || contains_bytes(
        lower_bytes(q),
        "drop".spec_bytes(),
    ) || contains_bytes(lower_bytes(q), "--".spec_bytes()) || contains_bytes(
        lower_bytes(q),
        "#".spec_bytes(),
    ))
}

/// Applies the quoted-string injection heuristic.
pub fn has_sql_quote_heuristic(q: &[u8]) -> (r: bool)
    ensures
        r == sql_quote_heuristic(q@),
{
    let low = to_lower(q);
    contains_subslice(low.as_slice(), "'".as_bytes()) && (contains_subslice(
        low.as_slice(),
        "or".as_bytes(),
    ) || contains_subslice(low.as_slice(), "and".as_bytes()) || contains_subslice(
        low.as_slice(),
        "union".as_bytes(),
    ) || contains_subslice(low.as_slice(), "select".as_bytes()) || contains_subslice(
        low.as_slice(),
        "drop".as_bytes(),
    ) || contains_subslice(low.as_slice(), "--".as_bytes()) || contains_subslice(
        low.as_slice(),
        "#".as_bytes(),
    ))
}

} // verus!
