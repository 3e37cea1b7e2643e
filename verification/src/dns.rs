//! Endpoint discovery for a JID's domain: DNS SRV (RFC 6120, XEP-0368).
//!
//! SRV lookup order:
//!   1. `_xmpps-client._tcp.{domain}`  → Direct TLS
//!   2. `_xmpp-client._tcp.{domain}`   → STARTTLS
//!   3. Fallback: `{domain}:5222` STARTTLS
//!
//! The lookups themselves are network I/O and happen in the application; the
//! order of the attempts and the choice among the records returned are here.

use vstd::prelude::*;

use crate::text::{chars_eq, chars_of, push_all, string_from_chars, sub_chars};

verus! {

/// How TLS is set up on a connection.
#[derive(Debug, Clone, Copy, PartialEq, Eq, Structural)]
pub enum TlsMode {
    Direct,
    StartTls,
}

/// A host and port to connect to.
#[derive(Debug, Clone)]
pub struct ResolvedEndpoint {
    pub host: String,
    pub port: u16,
    pub tls: TlsMode,
}

/// `s` starts with `p`.
pub open spec fn starts_with(s: Seq<char>, p: Seq<char>) -> bool {
    s.len() >= p.len() && s.take(p.len() as int) == p
}

/// The TLS mode an SRV record name implies: Direct TLS for the `_xmpps-`
/// service label, STARTTLS otherwise.
pub open spec fn tls_mode_spec(srv_name: Seq<char>) -> TlsMode {
    if starts_with(srv_name, "_xmpps-"@) {
        TlsMode::Direct
    } else {
        TlsMode::StartTls
    }
}

/// The TLS mode an SRV record name implies, from its service label prefix.
pub fn tls_mode_for_srv_name(srv_name: &str) -> (t: TlsMode)
    ensures
        t == tls_mode_spec(srv_name@),
{
    let s = chars_of(srv_name);
    let p = chars_of("_xmpps-");
    if s.len() >= p.len() {
        let head = sub_chars(&s, 0, p.len());
        assert(head@ =~= s@.take(p@.len() as int));
        if chars_eq(&head, &p) {
            return TlsMode::Direct;
        }
    }
    TlsMode::StartTls
}

/// The next thing to do while resolving an endpoint.
#[derive(Debug, Clone)]
pub enum ResolveStep {
    /// Query this SRV record name; on success use its best target with `tls`.
    Lookup { srv_name: String, tls: TlsMode },
    /// Use this endpoint without a lookup.
    Fallback(ResolvedEndpoint),
    /// Fail with the error of the last lookup.
    GiveUp,
}

/// The SRV record name for the Direct TLS service of `domain`.
pub open spec fn direct_tls_name(domain: Seq<char>) -> Seq<char> {
    "_xmpps-client._tcp."@ + domain
}

/// The SRV record name for the STARTTLS service of `domain`.
pub open spec fn starttls_name(domain: Seq<char>) -> Seq<char> {
    "_xmpp-client._tcp."@ + domain
}

/// `step` is what resolution of `domain` does after `failed` lookups failed:
/// with a pinned SRV name, look that up (its prefix gives the TLS mode) and
/// give up if it fails; otherwise try Direct TLS, then STARTTLS, then fall
/// back to `domain:5222` with STARTTLS.
pub open spec fn resolve_step_spec(
    domain: Seq<char>,
    manual_srv: Option<Seq<char>>,
    failed: nat,
    step: ResolveStep,
) -> bool {
    match manual_srv {
        Some(name) => if failed == 0 {
            step matches ResolveStep::Lookup { srv_name, tls } && srv_name@ == name && tls
                == tls_mode_spec(name)
        } else {
            step is GiveUp
        },
        None => if failed == 0 {
            step matches ResolveStep::Lookup { srv_name, tls } && srv_name@ == direct_tls_name(domain)
                && tls == TlsMode::Direct
        } else if failed == 1 {
            step matches ResolveStep::Lookup { srv_name, tls } && srv_name@ == starttls_name(domain)
                && tls == TlsMode::StartTls
        } else {
            step matches ResolveStep::Fallback(ep) && ep.host@ == domain && ep.port == 5222 && ep.tls
                == TlsMode::StartTls
        },
    }
}

/// The option of a string slice as an option of its characters.
pub open spec fn opt_str_view(o: Option<&str>) -> Option<Seq<char>> {
    match o {
        Some(s) => Some(s@),
        None => None,
    }
}

/// What to do next while resolving the endpoint of `domain`, given the
/// `manual_srv` override from settings and the number of lookups that have
/// failed so far.
///
/// - `domain`: bare domain from the JID (e.g. `"example.com"`)
/// - `manual_srv`: when `Some`, query this exact SRV record name instead of
///   the standard RFC 6120 names (e.g. `"_xmpp-client._tcp.corp.example.com"`)
pub fn next_resolve_step(domain: &str, manual_srv: Option<&str>, failed_lookups: usize) -> (step:
    ResolveStep)
    ensures
        resolve_step_spec(domain@, opt_str_view(manual_srv), failed_lookups as nat, step),
{
    match manual_srv {
        Some(srv_name) => {
            // The user pinned a specific SRV record: honour it and determine
            // the TLS mode from the service label prefix.
            if failed_lookups == 0 {
                ResolveStep::Lookup {
                    srv_name: string_from_chars(&chars_of(srv_name)),
                    tls: tls_mode_for_srv_name(srv_name),
                }
            } else {
                ResolveStep::GiveUp
            }
        },
        None => {
            if failed_lookups == 0 {
                let mut name = chars_of("_xmpps-client._tcp.");
                push_all(&mut name, &chars_of(domain));
                ResolveStep::Lookup { srv_name: string_from_chars(&name), tls: TlsMode::Direct }
            } else if failed_lookups == 1 {
                let mut name = chars_of("_xmpp-client._tcp.");
                push_all(&mut name, &chars_of(domain));
                ResolveStep::Lookup { srv_name: string_from_chars(&name), tls: TlsMode::StartTls }
            } else {
                ResolveStep::Fallback(
                    ResolvedEndpoint {
                        host: string_from_chars(&chars_of(domain)),
                        port: 5222,
                        tls: TlsMode::StartTls,
                    },
                )
            }
        },
    }
}

/// One record of an SRV response.
#[derive(Debug, Clone)]
pub struct SrvTarget {
    pub priority: u16,
    pub port: u16,
    /// Target host name as the resolver renders it (possibly with a trailing dot).
    pub target: String,
}

/// Index of the first record with the lowest priority value (RFC 2782), as
/// `Iterator::min_by_key` picks it.
pub open spec fn best_index(rs: Seq<SrvTarget>) -> int
    decreases rs.len(),
{
    if rs.len() <= 1 {
        0
    } else {
        let k = best_index(rs.drop_last());
        if rs.last().priority < rs[k].priority {
            rs.len() - 1
        } else {
            k
        }
    }
}

/// `s` without its trailing dots.
pub open spec fn trim_trailing_dots(s: Seq<char>) -> Seq<char>
    decreases s.len(),
{
    if s.len() > 0 && s.last() == '.' {
        trim_trailing_dots(s.drop_last())
    } else {
        s
    }
}

proof fn lemma_best_index(rs: Seq<SrvTarget>)
    requires
        rs.len() > 0,
    ensures
        0 <= best_index(rs) < rs.len(),
        forall|j: int| 0 <= j < rs.len() ==> rs[best_index(rs)].priority <= #[trigger] rs[j].priority,
        forall|j: int| 0 <= j < best_index(rs) ==> #[trigger] rs[j].priority > rs[best_index(rs)].priority,
    decreases rs.len(),
{
    if rs.len() > 1 {
        lemma_best_index(rs.drop_last());
        let k = best_index(rs.drop_last());
        assert forall|j: int| 0 <= j < rs.len() - 1 implies rs[k].priority <= #[trigger] rs[j].priority by {
            assert(rs.drop_last()[j] == rs[j]);
        }
        assert forall|j: int| 0 <= j < k implies #[trigger] rs[j].priority > rs[k].priority by {
            assert(rs.drop_last()[j] == rs[j]);
        }
    }
}

/// The endpoint of the best record of an SRV response: the first one with
/// the lowest priority value, its target without trailing dots. `None` when
/// the response is empty.
pub fn pick_srv_target(records: &Vec<SrvTarget>, tls: TlsMode) -> (r: Option<ResolvedEndpoint>)
    ensures
        r is None <==> records@.len() == 0,
        r matches Some(ep) ==> {
            let best = records@[best_index(records@)];
            &&& ep.host@ == trim_trailing_dots(best.target@)
            &&& ep.port == best.port
            &&& ep.tls == tls
        },
        r is Some ==> forall|j: int|
            0 <= j < records@.len() ==> records@[best_index(records@)].priority
                <= #[trigger] records@[j].priority,
{
    if records.len() == 0 {
        return None;
    }
    let mut best: usize = 0;
    let mut i: usize = 1;
    assert(records@.take(1).len() == 1);
    while i < records.len()
        invariant
            1 <= i <= records.len(),
            best as int == best_index(records@.take(i as int)),
        decreases records.len() - i,
    {
        proof {
            assert(records@.take(i + 1).drop_last() =~= records@.take(i as int));
            lemma_best_index(records@.take(i as int));
        }
        if records[i].priority < records[best].priority {
            best = i;
        }
        i = i + 1;
    }
    assert(records@.take(records.len() as int) =~= records@);
    proof {
        lemma_best_index(records@);
    }
    let target = chars_of(records[best].target.as_str());
    // Strip the trailing dot added by some resolvers.
    let mut end: usize = target.len();
    assert(target@.take(end as int) =~= target@);
    while end > 0 && target[end - 1] == '.'
        invariant
            end <= target.len(),
            trim_trailing_dots(target@) == trim_trailing_dots(target@.take(end as int)),
        decreases end,
    {
        assert(target@.take(end as int).drop_last() =~= target@.take(end - 1));
        end = end - 1;
    }
    let host = sub_chars(&target, 0, end);
    assert(host@ =~= target@.take(end as int));
    Some(ResolvedEndpoint { host: string_from_chars(&host), port: records[best].port, tls })
}

} // verus!
