//! Data model of the updater: configuration, provider-side DNS records
//! and zones, the request payload, the error kinds, and the provider
//! client state (credential, base URL, zone-id slot) together with the
//! request URLs and headers it derives from that state. The HTTP
//! transport itself lives outside the library; it receives these URLs,
//! headers and payloads and hands back plain status, body and parsed
//! values.

use vstd::prelude::*;

verus! {

/// One configured domain: its fully-qualified name and the desired
/// proxy flag for its AAAA record.
#[derive(Debug, Clone)]
pub struct DomainConfig {
    pub domain: String,
    pub proxied: bool,
}

/// The validated configuration a run is given: target interface,
/// optional pre-configured zone id, API credential, base API URL and
/// the ordered list of domains to reconcile.
#[derive(Debug)]
pub struct Config {
    pub target_net_card: String,
    pub zone_id: Option<String>,
    pub api_token: String,
    pub base_url: String,
    pub domains: Vec<DomainConfig>,
}

/// A DNS record as the provider reports it.
#[derive(Debug, Clone)]
pub struct DnsRecord {
    pub id: String,
    pub name: String,
    pub record_type: String,
    pub content: String,
    pub proxied: bool,
    pub ttl: u32,
}

/// A zone as the provider reports it; only `id` and `name` are used.
#[derive(Debug, Clone)]
pub struct Zone {
    pub id: String,
    pub name: String,
    pub status: String,
}

/// Payload of a record create or update call.
#[derive(Debug, Clone)]
pub struct UpdateDnsRecord {
    pub record_type: String,
    pub name: String,
    pub content: String,
    pub ttl: u32,
    pub proxied: bool,
}

/// Every failure the core distinguishes.
#[derive(Debug, Clone)]
pub enum DdnsError {
    /// The configuration is unreadable, unparseable, or unusable
    /// (for instance no domains when a zone id must be resolved).
    ConfigError { detail: String },
    /// An operation was invoked before a prerequisite was established.
    PreconditionError { detail: String },
    /// The provider answered with a non-2xx HTTP status.
    ApiError { status: u16, body: String },
    /// The provider answered 2xx but reported a logical failure.
    ProviderError { errors: Vec<String> },
    /// The provider reports no zones at all.
    NoZonesFound,
    /// No zone name equals the derived root domain; carries the root
    /// and every available zone name for diagnostics.
    ZoneNotFound { root_domain: String, available: Vec<String> },
    /// The named interface has no IPv6 address, or does not exist.
    NoAddressesFound,
}

/// The provider's canonical API root, used when the configuration
/// names none.
pub fn default_base_url() -> (r: String)
    ensures
        r@ == "https://api.cloudflare.com/client/v4"@,
{
    let r = String::from_str("https://api.cloudflare.com/client/v4");
    r
}

/// Client state for the provider API: credential, base URL, and the
/// zone-id slot that starts as the configured id (possibly absent) and
/// is set at most once before any record operation.
pub struct CloudflareClient {
    pub api_token: String,
    pub base_url: String,
    pub zone_id: Option<String>,
}

impl CloudflareClient {
    /// A fresh client carrying the configuration's credential, base
    /// URL and optional zone id.
    pub fn new(config: &Config) -> (c: Self)
        ensures
            c.api_token == config.api_token,
            c.base_url == config.base_url,
            c.zone_id == config.zone_id,
    {
        CloudflareClient {
            api_token: config.api_token.clone(),
            base_url: config.base_url.clone(),
            zone_id: config.zone_id.clone(),
        }
    }

    /// Fixes the zone id for the rest of the run.
    pub fn set_zone_id(&mut self, zone_id: String)
        ensures
            final(self).zone_id == Some(zone_id),
            final(self).api_token == old(self).api_token,
            final(self).base_url == old(self).base_url,
    {
        self.zone_id = Some(zone_id);
    }

    /// The zone-id slot as it currently stands.
    pub fn zone_id(&self) -> (r: &Option<String>)
        ensures
            *r == self.zone_id,
    {
        &self.zone_id
    }

    /// Value of the `Authorization` header for every provider call.
    pub fn auth_header_value(&self) -> (r: String)
        ensures
            r@ == "Bearer "@ + self.api_token@,
    {
        let mut r = String::from_str("Bearer ");
        r.append(self.api_token.as_str());
        r
    }

    /// URL of the zone listing endpoint.
    pub fn zones_url(&self) -> (r: String)
        ensures
            r@ == self.base_url@ + "/zones"@,
    {
        let mut r = self.base_url.clone();
        r.append("/zones");
        r
    }

    /// URL for listing or creating DNS records of the resolved zone;
    /// a precondition failure when no zone id is set yet.
    pub fn dns_records_url(&self) -> (r: Result<String, DdnsError>)
        ensures
            self.zone_id matches Some(zid) ==> (r matches Ok(url) && url@ == self.base_url@
                + "/zones/"@ + zid@ + "/dns_records"@),
            self.zone_id is None ==> (r matches Err(e) && (e matches DdnsError::PreconditionError {
                detail,
            } && detail@ == "Zone ID not set"@)),
    {
        match &self.zone_id {
            Some(zid) => {
                let mut url = self.base_url.clone();
                url.append("/zones/");
                url.append(zid.as_str());
                url.append("/dns_records");
                Ok(url)
            },
            None => Err(
                DdnsError::PreconditionError { detail: String::from_str("Zone ID not set") },
            ),
        }
    }

    /// URL for replacing the existing record `record_id`; a
    /// precondition failure when no zone id is set yet.
    pub fn update_dns_record_url(&self, record_id: &str) -> (r: Result<String, DdnsError>)
        ensures
            self.zone_id matches Some(zid) ==> (r matches Ok(url) && url@ == self.base_url@
                + "/zones/"@ + zid@ + "/dns_records/"@ + record_id@),
            self.zone_id is None ==> (r matches Err(e) && (e matches DdnsError::PreconditionError {
                detail,
            } && detail@ == "Zone ID not set"@)),
    {
        match &self.zone_id {
            Some(zid) => {
                let mut url = self.base_url.clone();
                url.append("/zones/");
                url.append(zid.as_str());
                url.append("/dns_records/");
                url.append(record_id);
                Ok(url)
            },
            None => Err(
                DdnsError::PreconditionError { detail: String::from_str("Zone ID not set") },
            ),
        }
    }
}

/// The payload both the create and the update call send: an AAAA
/// record for the domain, carrying the new address, the domain's
/// desired proxy flag, and a TTL fixed at 120 seconds.
pub fn desired_record_payload(domain: &DomainConfig, ipv6: &str) -> (p: UpdateDnsRecord)
    ensures
        p.record_type@ == "AAAA"@,
        p.name == domain.domain,
        p.content@ == ipv6@,
        p.ttl == 120,
        p.proxied == domain.proxied,
{
    UpdateDnsRecord {
        record_type: String::from_str("AAAA"),
        name: domain.domain.clone(),
        content: ipv6.to_owned(),
        ttl: 120,
        proxied: domain.proxied,
    }
}

/// Accepts or rejects an HTTP response by status: `Ok` exactly on a
/// 2xx status, otherwise the status and body as an API error.
pub fn check_http_status(status: u16, body: String) -> (r: Result<(), DdnsError>)
    ensures
        (200 <= status < 300) <==> r is Ok,
        !(200 <= status < 300) ==> (r matches Err(e) && e == (DdnsError::ApiError {
            status,
            body,
        })),
{
    if 200 <= status && status < 300 {
        Ok(())
    } else {
        Err(DdnsError::ApiError { status, body })
    }
}

/// Accepts a 2xx provider response body: the payload when the
/// provider's success flag is set, otherwise the provider's reported
/// errors as a provider error.
pub fn accept_provider_payload<T>(success: bool, errors: Vec<String>, result: Vec<T>) -> (r: Result<
    Vec<T>,
    DdnsError,
>)
    ensures
        success ==> (r matches Ok(v) && v == result),
        !success ==> (r matches Err(e) && e == (DdnsError::ProviderError { errors })),
{
    if success {
        Ok(result)
    } else {
        Err(DdnsError::ProviderError { errors })
    }
}

} // verus!
