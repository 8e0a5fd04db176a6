//! Laws of the reconciliation engine. The central one is idempotence:
//! carrying out the decisions of one pass leaves a provider state in
//! which a second pass decides a no-op for every domain, so an
//! unchanged address and unchanged proxy flags cause zero further
//! create or update calls.

use vstd::prelude::*;

use crate::model::DnsRecord;
use crate::model::DomainConfig;
use crate::reconcile::ReconcileAction;
use crate::reconcile::decide;
use crate::reconcile::first_aaaa;
use crate::reconcile::first_aaaa_from;
use crate::reconcile::is_aaaa_for;
use crate::reconcile::reflects;

verus! {

/// `rs2` is `rs` with `a` carried out for domain `d` and address
/// `ip`: unchanged for a no-op; one appended AAAA record carrying
/// `d`'s name, `ip` and `d`'s proxy flag for a create; and for an
/// update, the record at `index` rewritten to `ip` and `d`'s proxy
/// flag with its name and type kept, everything else unchanged.
pub open spec fn action_applied(
    rs: Seq<DnsRecord>,
    rs2: Seq<DnsRecord>,
    d: DomainConfig,
    ip: Seq<char>,
    a: ReconcileAction,
) -> bool {
    match a {
        ReconcileAction::NoOp => rs2 == rs,
        ReconcileAction::Create => {
            &&& rs2.len() == rs.len() + 1
            &&& rs2.take(rs.len() as int) == rs
            &&& is_aaaa_for(rs2.last(), d.domain@)
            &&& rs2.last().content@ == ip
            &&& rs2.last().proxied == d.proxied
        },
        ReconcileAction::Update { index } => {
            &&& rs2.len() == rs.len()
            &&& 0 <= index < rs.len()
            &&& (forall|j: int| 0 <= j < rs.len() && j != index ==> rs2[j] == rs[j])
            &&& rs2[index as int].name@ == rs[index as int].name@
            &&& rs2[index as int].record_type@ == rs[index as int].record_type@
            &&& rs2[index as int].content@ == ip
            &&& rs2[index as int].proxied == d.proxied
        },
    }
}

/// No two configured domains carry the same name.
pub open spec fn distinct_domains(domains: Seq<DomainConfig>) -> bool {
    forall|k1: int, k2: int|
        0 <= k1 < k2 < domains.len() ==> domains[k1].domain@ != domains[k2].domain@
}

/// A found first match lies in bounds and is an AAAA record for the
/// name.
proof fn lemma_first_aaaa_bounds(rs: Seq<DnsRecord>, name: Seq<char>, from: int)
    ensures
        first_aaaa_from(rs, name, from) matches Some(i) ==> (from <= i < rs.len() && is_aaaa_for(
            rs[i],
            name,
        )),
    decreases rs.len() - from,
{
    if from < 0 || from >= rs.len() {
    } else if is_aaaa_for(rs[from], name) {
    } else {
        lemma_first_aaaa_bounds(rs, name, from + 1);
    }
}

/// Two equally long snapshots that agree, position by position, on
/// being the AAAA record for `name` have the same first match.
proof fn lemma_first_aaaa_same(rs: Seq<DnsRecord>, rs2: Seq<DnsRecord>, name: Seq<char>, from: int)
    requires
        rs2.len() == rs.len(),
        forall|j: int|
            from <= j < rs.len() ==> is_aaaa_for(#[trigger] rs2[j], name) == is_aaaa_for(
                rs[j],
                name,
            ),
    ensures
        first_aaaa_from(rs2, name, from) == first_aaaa_from(rs, name, from),
    decreases rs.len() - from,
{
    if from < 0 || from >= rs.len() {
    } else if is_aaaa_for(rs[from], name) {
    } else {
        lemma_first_aaaa_same(rs, rs2, name, from + 1);
    }
}

/// Appending one record moves the first match for `name` only when
/// none existed, and then exactly to the appended record when that
/// record matches.
proof fn lemma_first_aaaa_append(rs: Seq<DnsRecord>, rs2: Seq<DnsRecord>, name: Seq<char>, from: int)
    requires
        rs2.len() == rs.len() + 1,
        rs2.take(rs.len() as int) == rs,
        0 <= from <= rs.len(),
    ensures
        first_aaaa_from(rs, name, from) matches Some(i) ==> first_aaaa_from(rs2, name, from)
            == Some(i),
        first_aaaa_from(rs, name, from) is None && is_aaaa_for(rs2.last(), name)
            ==> first_aaaa_from(rs2, name, from) == Some(rs.len() as int),
        first_aaaa_from(rs, name, from) is None && !is_aaaa_for(rs2.last(), name)
            ==> first_aaaa_from(rs2, name, from) is None,
    decreases rs.len() - from,
{
    assert(forall|j: int| 0 <= j < rs.len() ==> rs2.take(rs.len() as int)[j] == #[trigger] rs2[j]);
    if from == rs.len() {
        assert(rs2[from] == rs2.last());
    } else {
        assert(rs2[from] == rs[from]);
        if is_aaaa_for(rs[from], name) {
        } else {
            lemma_first_aaaa_append(rs, rs2, name, from + 1);
        }
    }
}

/// A domain's decision is a no-op exactly when the snapshot already
/// reflects its desired state.
pub proof fn lemma_noop_iff_reflects(rs: Seq<DnsRecord>, d: DomainConfig, ip: Seq<char>)
    ensures
        decide(rs, d, ip) == ReconcileAction::NoOp <==> reflects(rs, d, ip),
{
}

/// Idempotence for one domain: carrying out the decided action yields
/// a snapshot whose decision for the same domain, address and proxy
/// flag is a no-op.
pub proof fn lemma_reconcile_idempotent(
    rs: Seq<DnsRecord>,
    rs2: Seq<DnsRecord>,
    d: DomainConfig,
    ip: Seq<char>,
)
    requires
        rs.len() <= usize::MAX,
        action_applied(rs, rs2, d, ip, decide(rs, d, ip)),
    ensures
        decide(rs2, d, ip) == ReconcileAction::NoOp,
{
    lemma_first_aaaa_bounds(rs, d.domain@, 0);
    match decide(rs, d, ip) {
        ReconcileAction::NoOp => {
        },
        ReconcileAction::Create => {
            lemma_first_aaaa_append(rs, rs2, d.domain@, 0);
            assert(rs2[rs.len() as int] == rs2.last());
        },
        ReconcileAction::Update { index } => {
            let i = first_aaaa(rs, d.domain@)->Some_0;
            assert(index as int == i);
            assert(forall|j: int|
                0 <= j < rs.len() ==> is_aaaa_for(#[trigger] rs2[j], d.domain@) == is_aaaa_for(
                    rs[j],
                    d.domain@,
                ));
            lemma_first_aaaa_same(rs, rs2, d.domain@, 0);
        },
    }
}

/// A domain's decision is untouched by carrying out another domain's
/// decided action, as long as the two domains carry different names.
pub proof fn lemma_other_domain_preserved(
    rs: Seq<DnsRecord>,
    rs2: Seq<DnsRecord>,
    d: DomainConfig,
    d2: DomainConfig,
    ip: Seq<char>,
)
    requires
        rs.len() <= usize::MAX,
        action_applied(rs, rs2, d, ip, decide(rs, d, ip)),
        d2.domain@ != d.domain@,
    ensures
        decide(rs2, d2, ip) == decide(rs, d2, ip),
{
    lemma_first_aaaa_bounds(rs, d.domain@, 0);
    lemma_first_aaaa_bounds(rs, d2.domain@, 0);
    lemma_first_aaaa_bounds(rs2, d2.domain@, 0);
    match decide(rs, d, ip) {
        ReconcileAction::NoOp => {
        },
        ReconcileAction::Create => {
            lemma_first_aaaa_append(rs, rs2, d2.domain@, 0);
            assert(forall|j: int|
                0 <= j < rs.len() ==> rs2.take(rs.len() as int)[j] == #[trigger] rs2[j]);
        },
        ReconcileAction::Update { index } => {
            let i = first_aaaa(rs, d.domain@)->Some_0;
            assert(index as int == i);
            assert(rs[i].name@ == d.domain@);
            assert(forall|j: int|
                0 <= j < rs.len() ==> is_aaaa_for(#[trigger] rs2[j], d2.domain@) == is_aaaa_for(
                    rs[j],
                    d2.domain@,
                ));
            lemma_first_aaaa_same(rs, rs2, d2.domain@, 0);
            if first_aaaa(rs, d2.domain@) is Some {
                let i2 = first_aaaa(rs, d2.domain@)->Some_0;
                assert(rs[i2].name@ == d2.domain@);
                assert(i2 != i);
                assert(rs2[i2] == rs[i2]);
            }
        },
    }
}

/// Invariant of a run: after `m` of the decisions taken against the
/// first snapshot have been carried out in order, every processed
/// domain decides no-op and every pending domain still decides what
/// it decided at the start.
proof fn lemma_run_invariant(
    states: Seq<Seq<DnsRecord>>,
    domains: Seq<DomainConfig>,
    ip: Seq<char>,
    m: int,
)
    requires
        states.len() == domains.len() + 1,
        forall|k: int| 0 <= k < states.len() ==> #[trigger] states[k].len() <= usize::MAX,
        distinct_domains(domains),
        forall|k: int|
            0 <= k < domains.len() ==> action_applied(
                #[trigger] states[k],
                states[k + 1],
                domains[k],
                ip,
                decide(states[0], domains[k], ip),
            ),
        0 <= m <= domains.len(),
    ensures
        forall|k: int|
            0 <= k < m ==> decide(states[m], #[trigger] domains[k], ip) == ReconcileAction::NoOp,
        forall|k: int|
            m <= k < domains.len() ==> decide(states[m], #[trigger] domains[k], ip) == decide(
                states[0],
                domains[k],
                ip,
            ),
    decreases m,
{
    if m > 0 {
        lemma_run_invariant(states, domains, ip, m - 1);
        let s = states[m - 1];
        let s2 = states[m];
        let d = domains[m - 1];
        assert(decide(s, d, ip) == decide(states[0], d, ip));
        lemma_reconcile_idempotent(s, s2, d, ip);
        assert forall|k: int| 0 <= k < domains.len() && k != m - 1 implies decide(
            s2,
            #[trigger] domains[k],
            ip,
        ) == decide(s, domains[k], ip) by {
            lemma_other_domain_preserved(s, s2, d, domains[k], ip);
        }
    }
}

/// Idempotence of a whole run: the engine decides every domain
/// against the snapshot fetched at the start and carries the
/// decisions out in configuration order. With distinct domain names,
/// an unchanged local address and unchanged proxy flags, the state
/// that results makes every domain's decision a no-op — a second pass
/// issues zero create or update calls.
pub proof fn lemma_second_pass_all_noop(
    states: Seq<Seq<DnsRecord>>,
    domains: Seq<DomainConfig>,
    ip: Seq<char>,
)
    requires
        states.len() == domains.len() + 1,
        forall|k: int| 0 <= k < states.len() ==> #[trigger] states[k].len() <= usize::MAX,
        distinct_domains(domains),
        forall|k: int|
            0 <= k < domains.len() ==> action_applied(
                #[trigger] states[k],
                states[k + 1],
                domains[k],
                ip,
                decide(states[0], domains[k], ip),
            ),
    ensures
        forall|k: int|
            0 <= k < domains.len() ==> decide(
                states[domains.len() as int],
                #[trigger] domains[k],
                ip,
            ) == ReconcileAction::NoOp,
{
    lemma_run_invariant(states, domains, ip, domains.len() as int);
}

} // verus!
