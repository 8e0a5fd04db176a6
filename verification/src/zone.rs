//! Zone resolution: matching the derived root domain against the
//! provider's zone list, and the decision whether a run can use a
//! configured zone id or must resolve one through its first domain.

use vstd::prelude::*;

use crate::model::CloudflareClient;
use crate::model::Config;
use crate::model::DdnsError;
use crate::model::Zone;
use crate::root_domain::extract_root_domain;
use crate::root_domain::root_of;

verus! {

/// Index of the first zone at or after `from` whose name is exactly
/// `root`.
pub open spec fn zone_match_from(zones: Seq<Zone>, root: Seq<char>, from: int) -> Option<int>
    decreases zones.len() - from,
{
    if from < 0 || from >= zones.len() {
        None
    } else if zones[from].name@ == root {
        Some(from)
    } else {
        zone_match_from(zones, root, from + 1)
    }
}

/// Index of the first zone whose name is exactly `root`.
pub open spec fn zone_match(zones: Seq<Zone>, root: Seq<char>) -> Option<int> {
    zone_match_from(zones, root, 0)
}

/// Resolves `domain` against the fetched zone list: with no zones at
/// all the lookup fails outright; with a zone named exactly like the
/// derived root domain (first match, case-sensitive) it yields that
/// zone's id; otherwise it fails carrying the root domain and every
/// available zone name.
pub fn resolve_zone(zones: &Vec<Zone>, domain: &str) -> (r: Result<String, DdnsError>)
    ensures
        zones@.len() == 0 ==> (r matches Err(e) && e is NoZonesFound),
        zone_match(zones@, root_of(domain@)) matches Some(i) ==> (r matches Ok(id) && id
            == zones@[i].id),
        zones@.len() > 0 && zone_match(zones@, root_of(domain@)) is None ==> (r matches Err(e)
            && (e matches DdnsError::ZoneNotFound { root_domain, available } && root_domain@
            == root_of(domain@) && available@.len() == zones@.len() && (forall|j: int|
            0 <= j < zones@.len() ==> available@[j]@ == zones@[j].name@))),
{
    if zones.len() == 0 {
        return Err(DdnsError::NoZonesFound);
    }
    let root = extract_root_domain(domain);
    let n = zones.len();
    let mut i: usize = 0;
    while i < n
        invariant
            0 <= i <= n,
            n == zones@.len(),
            root@ == root_of(domain@),
            zone_match(zones@, root_of(domain@)) == zone_match_from(
                zones@,
                root_of(domain@),
                i as int,
            ),
        decreases n - i,
    {
        if zones[i].name == root {
            return Ok(zones[i].id.clone());
        }
        i = i + 1;
    }
    let mut available: Vec<String> = Vec::new();
    let mut j: usize = 0;
    while j < n
        invariant
            0 <= j <= n,
            n == zones@.len(),
            available@.len() == j,
            forall|k: int| 0 <= k < j ==> available@[k]@ == zones@[k].name@,
        decreases n - j,
    {
        available.push(zones[j].name.clone());
        j = j + 1;
    }
    Err(DdnsError::ZoneNotFound { root_domain: root, available })
}

/// What `ensure_zone_id` decided before any network activity: the
/// configured id suffices, or resolution must go through the named
/// domain.
#[derive(Debug, Clone, PartialEq, Eq)]
pub enum ZoneIdPlan {
    /// The client already carries a zone id.
    AlreadySet,
    /// No zone id is configured; resolve one through this domain.
    ResolveVia { domain: String },
}

/// Decides how the run obtains its zone id: nothing to do when the
/// client already has one; with none and no configured domains the
/// configuration is unusable; otherwise resolution goes through the
/// first configured domain.
pub fn zone_id_plan(client: &CloudflareClient, config: &Config) -> (r: Result<
    ZoneIdPlan,
    DdnsError,
>)
    ensures
        client.zone_id is Some ==> (r matches Ok(p) && p is AlreadySet),
        client.zone_id is None && config.domains@.len() == 0 ==> (r matches Err(e) && (
        e matches DdnsError::ConfigError { detail } && detail@
            == "no domains configured, cannot resolve a zone id"@)),
        client.zone_id is None && config.domains@.len() > 0 ==> (r matches Ok(p) && (
        p matches ZoneIdPlan::ResolveVia { domain } && domain == config.domains@[0].domain)),
{
    match &client.zone_id {
        Some(_) => Ok(ZoneIdPlan::AlreadySet),
        None => {
            if config.domains.len() == 0 {
                Err(
                    DdnsError::ConfigError {
                        detail: String::from_str(
                            "no domains configured, cannot resolve a zone id",
                        ),
                    },
                )
            } else {
                Ok(ZoneIdPlan::ResolveVia { domain: config.domains[0].domain.clone() })
            }
        },
    }
}

} // verus!
