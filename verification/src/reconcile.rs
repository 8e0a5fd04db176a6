//! The reconciliation engine: per configured domain, compare the
//! desired state (local IPv6 address, desired proxy flag) against the
//! first matching AAAA record of the pre-fetched snapshot and decide
//! the minimal corrective call — create, update, or nothing. The
//! engine only decides; issuing the calls happens outside the library,
//! one domain after another in configuration order.

use vstd::prelude::*;

use crate::model::DnsRecord;
use crate::model::DomainConfig;

verus! {

/// Whether `r` is the AAAA record for `name`.
pub open spec fn is_aaaa_for(r: DnsRecord, name: Seq<char>) -> bool {
    r.name@ == name && r.record_type@ == "AAAA"@
}

/// Index of the first AAAA record for `name` at or after `from`.
pub open spec fn first_aaaa_from(records: Seq<DnsRecord>, name: Seq<char>, from: int) -> Option<
    int,
>
    decreases records.len() - from,
{
    if from < 0 || from >= records.len() {
        None
    } else if is_aaaa_for(records[from], name) {
        Some(from)
    } else {
        first_aaaa_from(records, name, from + 1)
    }
}

/// Index of the first AAAA record for `name`, if any.
pub open spec fn first_aaaa(records: Seq<DnsRecord>, name: Seq<char>) -> Option<int> {
    first_aaaa_from(records, name, 0)
}

/// The minimal call a domain needs: create its record, replace the
/// record at `index` in the snapshot, or nothing.
#[derive(Debug, Clone, Copy, PartialEq, Eq, Structural)]
pub enum ReconcileAction {
    /// No AAAA record exists for the domain; create one.
    Create,
    /// The record at this snapshot index differs in address or proxy
    /// flag; replace it.
    Update { index: usize },
    /// Address and proxy flag already match; no call.
    NoOp,
}

/// The decision for one domain against one snapshot: create when no
/// AAAA record carries its name, nothing when the first such record
/// already holds the local address and the desired proxy flag, and an
/// update of that record otherwise.
pub open spec fn decide(records: Seq<DnsRecord>, d: DomainConfig, ip: Seq<char>) -> ReconcileAction
    recommends
        records.len() <= usize::MAX,
{
    match first_aaaa(records, d.domain@) {
        None => ReconcileAction::Create,
        Some(i) => if records[i].content@ == ip && records[i].proxied == d.proxied {
            ReconcileAction::NoOp
        } else {
            ReconcileAction::Update { index: i as usize }
        },
    }
}

/// The snapshot already reflects the desired state for `d`: its first
/// AAAA record exists and carries `ip` and the desired proxy flag.
pub open spec fn reflects(records: Seq<DnsRecord>, d: DomainConfig, ip: Seq<char>) -> bool {
    first_aaaa(records, d.domain@) matches Some(i) && records[i].content@ == ip
        && records[i].proxied == d.proxied
}

/// First AAAA record of the snapshot for this domain, by index.
pub fn find_record(records: &Vec<DnsRecord>, domain: &DomainConfig) -> (r: Option<usize>)
    ensures
        first_aaaa(records@, domain.domain@) matches Some(i) ==> (0 <= i < records@.len() && r
            == Some(i as usize)),
        first_aaaa(records@, domain.domain@) is None ==> r is None,
        r matches Some(i) ==> i < records@.len(),
{
    let aaaa = String::from_str("AAAA");
    let n = records.len();
    let mut i: usize = 0;
    while i < n
        invariant
            0 <= i <= n,
            n == records@.len(),
            aaaa@ == "AAAA"@,
            first_aaaa(records@, domain.domain@) == first_aaaa_from(
                records@,
                domain.domain@,
                i as int,
            ),
        decreases n - i,
    {
        if records[i].name == domain.domain && records[i].record_type == aaaa {
            return Some(i);
        }
        i = i + 1;
    }
    None
}

/// Decides the minimal call for `domain` against the snapshot, exactly
/// as `decide` states it.
pub fn decide_action(records: &Vec<DnsRecord>, domain: &DomainConfig, local_ipv6: &str) -> (a:
    ReconcileAction)
    ensures
        a == decide(records@, *domain, local_ipv6@),
{
    proof {
        vstd::std_specs::vec::axiom_spec_len(records);
    }
    match find_record(records, domain) {
        None => ReconcileAction::Create,
        Some(i) => {
            let ip_changed = !(records[i].content == local_ipv6.to_owned());
            let proxy_changed = records[i].proxied != domain.proxied;
            if !ip_changed && !proxy_changed {
                ReconcileAction::NoOp
            } else {
                ReconcileAction::Update { index: i }
            }
        },
    }
}

/// One decision per configured domain, in configuration order, each
/// taken independently against the same snapshot: a failure while
/// carrying out one decision leaves every other domain's decision
/// standing.
pub fn plan_all_domains(domains: &Vec<DomainConfig>, records: &Vec<DnsRecord>, local_ipv6: &str)
    -> (plan: Vec<ReconcileAction>)
    ensures
        plan@.len() == domains@.len(),
        forall|i: int|
            0 <= i < domains@.len() ==> plan@[i] == decide(records@, domains@[i], local_ipv6@),
{
    let mut plan: Vec<ReconcileAction> = Vec::new();
    let n = domains.len();
    let mut i: usize = 0;
    while i < n
        invariant
            0 <= i <= n,
            n == domains@.len(),
            plan@.len() == i,
            forall|j: int|
                0 <= j < i ==> plan@[j] == decide(records@, domains@[j], local_ipv6@),
        decreases n - i,
    {
        let a = decide_action(records, &domains[i], local_ipv6);
        plan.push(a);
        i = i + 1;
    }
    plan
}

} // verus!
