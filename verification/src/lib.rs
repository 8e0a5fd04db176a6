//! Core logic of an IPv6 dynamic-DNS updater: root-domain derivation,
//! zone-id resolution and caching, local-address selection, and the
//! per-domain reconciliation decisions, all stated and proved here.
//! Network and file I/O live outside the library and exchange plain
//! values with it.

mod address;
mod cache;
mod cli;
mod laws;
mod model;
mod reconcile;
mod root_domain;
mod zone;

pub use cli::handle_test_command;
pub use cli::token_preview;
pub use laws::action_applied;
pub use laws::distinct_domains;
pub use laws::lemma_noop_iff_reflects;
pub use laws::lemma_other_domain_preserved;
pub use laws::lemma_reconcile_idempotent;
pub use laws::lemma_second_pass_all_noop;
pub use reconcile::ReconcileAction;
pub use reconcile::decide;
pub use reconcile::decide_action;
pub use reconcile::find_record;
pub use reconcile::first_aaaa;
pub use reconcile::first_aaaa_from;
pub use reconcile::is_aaaa_for;
pub use reconcile::plan_all_domains;
pub use reconcile::reflects;

pub use address::NetInterface;
pub use address::first_global;
pub use address::ipv6_addrs_of;
pub use address::lex_le;
pub use address::list_all_netcards;
pub use address::selected_address;
pub use address::sorted_by_name;
pub use address::get_ipv6_address;
pub use address::get_local_ipv6_address;
pub use address::select_global_address;
pub use cache::CACHE_TTL_SECS;
pub use cache::cache_entry_usable;
pub use cache::ZoneIdCache;
pub use cache::cache_lookup;
pub use cache::get_cache_path;
pub use cache::make_cache_entry;
pub use zone::ZoneIdPlan;
pub use zone::resolve_zone;
pub use zone::zone_id_plan;

pub use model::CloudflareClient;
pub use model::Config;
pub use model::DdnsError;
pub use model::DnsRecord;
pub use model::DomainConfig;
pub use model::UpdateDnsRecord;
pub use model::Zone;
pub use model::accept_provider_payload;
pub use model::check_http_status;
pub use model::default_base_url;
pub use model::desired_record_payload;
pub use root_domain::dot_count;
pub use root_domain::extract_root_domain;
pub use root_domain::root_of;
pub use zone::zone_match;
