//! Account configuration model.
//!
//! Each entry represents one XMPP account the user has configured.
//! Passwords are stored in the OS keychain; only a reference key is kept here.

use vstd::prelude::*;

use crate::text::{
    chars_eq, chars_of, contains_chars, contains_seq, find_chars, find_from, find_seq, matches_at, push_all,
    string_from_chars, sub_chars,
};

verus! {

/// A minimally valid bare JID `local@domain`: exactly one `@`, a non-empty
/// local part, and a non-empty domain part that is `localhost`, `127.0.0.1`,
/// or contains a `.` and neither starts nor ends with one.
pub open spec fn is_valid_jid_spec(jid: Seq<char>) -> bool {
    match find_seq(jid, seq!['@']) {
        None => false,
        Some(k) => {
            let local = jid.take(k);
            let domain = jid.skip(k + 1);
            &&& !contains_seq(domain, seq!['@'])
            &&& local.len() > 0
            &&& domain.len() > 0
            &&& (domain == "localhost"@ || domain == "127.0.0.1"@ || (contains_seq(domain, seq!['.'])
                && domain[0] != '.' && domain.last() != '.'))
        },
    }
}

/// Returns `true` if `jid` is a minimally valid bare JID: `local@domain`.
///
/// Rules enforced:
/// - Exactly one `@` character.
/// - Non-empty local part (before `@`).
/// - Non-empty domain part (after `@`) containing at least one `.`, not
///   starting or ending with one; `localhost` and `127.0.0.1` are allowed for
///   local testing.
pub fn is_valid_jid(jid: &str) -> (b: bool)
    ensures
        b == is_valid_jid_spec(jid@),
{
    let s = chars_of(jid);
    let at = vec!['@'];
    assert(at@ =~= seq!['@']);
    let k = match find_chars(&s, &at) {
        Some(k) => k,
        None => return false,
    };
    assert(k + 1 <= s.len());
    let local = sub_chars(&s, 0, k);
    let domain = sub_chars(&s, k + 1, s.len());
    assert(local@ =~= s@.take(k as int));
    assert(domain@ =~= s@.skip(k + 1));
    if contains_chars(&domain, &at) {
        return false;
    }
    if local.len() == 0 || domain.len() == 0 {
        return false;
    }
    // Allow "localhost" and IP addresses for local testing.
    if chars_eq(&domain, &chars_of("localhost")) || chars_eq(&domain, &chars_of("127.0.0.1")) {
        return true;
    }
    let dot = vec!['.'];
    assert(dot@ =~= seq!['.']);
    contains_chars(&domain, &dot) && domain[0] != '.' && domain[domain.len() - 1] != '.'
}

/// Optional proxy configuration for routing an account's connection.
#[derive(Debug, Clone, PartialEq)]
pub struct ProxyConfig {
    /// SOCKS5 / HTTP proxy host.
    pub host: String,
    /// Proxy port.
    pub port: u16,
}

/// Configuration for a single XMPP account.
#[derive(Debug, Clone)]
pub struct AccountConfig {
    /// Bare JID for this account (e.g. "user@example.com").
    pub jid: String,
    /// Key used to look up the password in the OS keychain.
    /// Typically equals `jid`, but stored separately so it can be rotated.
    pub password_key: String,
    /// Whether this account should be connected on startup.
    pub enabled: bool,
    /// Optional proxy for this account's XMPP connection.
    pub proxy: Option<ProxyConfig>,
    /// Accent colour used in the UI to distinguish accounts (e.g. "#4A90D9").
    pub color: Option<String>,
}

/// The message of the error that `validate` returns for `jid`.
pub open spec fn invalid_jid_message(jid: Seq<char>) -> Seq<char> {
    "Invalid JID \""@ + jid + "\": must be in the form user@domain"@
}

impl AccountConfig {
    /// Construct a minimal account config (enabled, no proxy, no colour).
    pub fn new(jid: &str) -> (r: Self)
        ensures
            r.jid@ == jid@,
            r.password_key@ == jid@,
            r.enabled,
            r.proxy is None,
            r.color is None,
    {
        let jid = string_from_chars(&chars_of(jid));
        let password_key = jid.clone();
        AccountConfig { jid, password_key, enabled: true, proxy: None, color: None }
    }

    /// Validate the configuration, returning an error message if invalid.
    ///
    /// Currently checks that `jid` is a well-formed bare JID (`local@domain`).
    pub fn validate(&self) -> (r: Result<(), String>)
        ensures
            r is Ok <==> is_valid_jid_spec(self.jid@),
            r matches Err(e) ==> e@ == invalid_jid_message(self.jid@),
    {
        if is_valid_jid(self.jid.as_str()) {
            Ok(())
        } else {
            let mut msg = chars_of("Invalid JID \"");
            push_all(&mut msg, &chars_of(self.jid.as_str()));
            push_all(&mut msg, &chars_of("\": must be in the form user@domain"));
            Err(string_from_chars(&msg))
        }
    }
}

/// The search for the character `c` from `k` finds `i` when `s[i] == c` and
/// no character from `k` up to `i` is `c`.
proof fn lemma_find_char_at(s: Seq<char>, c: char, k: int, i: int)
    requires
        0 <= k <= i < s.len(),
        s[i] == c,
        forall|j: int| k <= j < i ==> #[trigger] s[j] != c,
    ensures
        find_from(s, seq![c], k) == Some(i),
    decreases i - k,
{
    if k == i {
        assert(s.subrange(k, k + 1) =~= seq![c]);
    } else {
        assert(s.subrange(k, k + 1)[0] == s[k]);
        lemma_find_char_at(s, c, k + 1, i);
    }
}

/// The search for the character `c` from `k` finds some index when `c`
/// occurs at `i >= k`.
proof fn lemma_find_char_some(s: Seq<char>, c: char, k: int, i: int)
    requires
        0 <= k <= i < s.len(),
        s[i] == c,
    ensures
        find_from(s, seq![c], k) is Some,
    decreases i - k,
{
    if k == i {
        assert(s.subrange(k, k + 1) =~= seq![c]);
    } else if !matches_at(s, seq![c], k) {
        lemma_find_char_some(s, c, k + 1, i);
    }
}

/// The search for the character `c` from `k` finds nothing when `c` does not
/// occur in `s`.
proof fn lemma_find_char_none(s: Seq<char>, c: char, k: int)
    requires
        0 <= k,
        forall|j: int| 0 <= j < s.len() ==> #[trigger] s[j] != c,
    ensures
        find_from(s, seq![c], k) is None,
    decreases s.len() - k,
{
    if k < s.len() {
        assert(s.subrange(k, k + 1)[0] == s[k]);
        lemma_find_char_none(s, c, k + 1);
    }
}

/// Validity does not depend on the local part beyond its being non-empty
/// and free of `@`: `local@domain` is valid for every such local part and
/// every domain that is `localhost`, `127.0.0.1`, or free of `@` and holds
/// a `.` that is neither its first nor its last character.
pub proof fn lemma_any_local_part_is_valid(local: Seq<char>, domain: Seq<char>)
    requires
        local.len() > 0,
        forall|j: int| 0 <= j < local.len() ==> #[trigger] local[j] != '@',
        domain == "localhost"@ || domain == "127.0.0.1"@ || ({
            &&& domain.len() > 0
            &&& forall|j: int| 0 <= j < domain.len() ==> #[trigger] domain[j] != '@'
            &&& exists|j: int| 0 <= j < domain.len() && #[trigger] domain[j] == '.'
            &&& domain[0] != '.'
            &&& domain[domain.len() - 1] != '.'
        }),
    ensures
        is_valid_jid_spec(local + seq!['@'] + domain),
{
    reveal_strlit("localhost");
    reveal_strlit("127.0.0.1");
    let jid = local + seq!['@'] + domain;
    let n = local.len() as int;
    assert forall|j: int| 0 <= j < n implies #[trigger] jid[j] != '@' by {
        assert(jid[j] == local[j]);
    }
    lemma_find_char_at(jid, '@', 0, n);
    assert(jid.take(n) =~= local);
    assert(jid.skip(n + 1) =~= domain);
    assert forall|j: int| 0 <= j < domain.len() implies #[trigger] domain[j] != '@' by {
        if domain == "localhost"@ || domain == "127.0.0.1"@ {
        }
    }
    lemma_find_char_none(domain, '@', 0);
    if !(domain == "localhost"@ || domain == "127.0.0.1"@) {
        let d = choose|j: int| 0 <= j < domain.len() && #[trigger] domain[j] == '.';
        lemma_find_char_some(domain, '.', 0, d);
    }
}

} // verus!
