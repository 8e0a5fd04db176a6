use myddns::CloudflareClient;
use myddns::Config;
use myddns::DdnsError;
use myddns::DnsRecord;
use myddns::accept_provider_payload;
use myddns::check_http_status;
use myddns::default_base_url;
use myddns::handle_test_command;
use myddns::token_preview;

fn config(zone_id: Option<&str>) -> Config {
    Config {
        target_net_card: "eth0".to_string(),
        zone_id: zone_id.map(|z| z.to_string()),
        api_token: "SECRET-REDACTED".to_string(),
        base_url: "https://api.cloudflare.com/client/v4".to_string(),
        domains: Vec::new(),
    }
}

#[test]
fn client_copies_configuration() {
    let cfg = config(Some("z1"));
    let client = CloudflareClient::new(&cfg);
    assert_eq!(client.api_token, cfg.api_token);
    assert_eq!(client.base_url, cfg.base_url);
    assert_eq!(client.zone_id, Some("z1".to_string()));
}

#[test]
fn zone_id_slot_is_set_once() {
    let cfg = config(None);
    let mut client = CloudflareClient::new(&cfg);
    assert_eq!(client.zone_id(), &None);
    client.set_zone_id("z9".to_string());
    assert_eq!(client.zone_id(), &Some("z9".to_string()));
}

#[test]
fn zones_url_appends_path() {
    let client = CloudflareClient::new(&config(None));
    assert_eq!(
        client.zones_url(),
        "https://api.cloudflare.com/client/v4/zones"
    );
}

#[test]
fn records_url_requires_zone_id() {
    let client = CloudflareClient::new(&config(None));
    assert!(matches!(
        client.dns_records_url(),
        Err(DdnsError::PreconditionError { .. })
    ));
    let client = CloudflareClient::new(&config(Some("z1")));
    assert_eq!(
        client.dns_records_url().unwrap(),
        "https://api.cloudflare.com/client/v4/zones/z1/dns_records"
    );
}

#[test]
fn update_url_names_the_record() {
    let client = CloudflareClient::new(&config(Some("z1")));
    assert_eq!(
        client.update_dns_record_url("rec7").unwrap(),
        "https://api.cloudflare.com/client/v4/zones/z1/dns_records/rec7"
    );
    let unset = CloudflareClient::new(&config(None));
    assert!(matches!(
        unset.update_dns_record_url("rec7"),
        Err(DdnsError::PreconditionError { .. })
    ));
}

#[test]
fn auth_header_is_bearer_token() {
    let client = CloudflareClient::new(&config(None));
    assert_eq!(
        client.auth_header_value(),
        format!("Bearer {}", "SECRET-REDACTED")
    );
}

#[test]
fn default_base_url_is_canonical() {
    assert_eq!(default_base_url(), "https://api.cloudflare.com/client/v4");
}

#[test]
fn http_status_gates_responses() {
    assert!(check_http_status(200, "ok".to_string()).is_ok());
    assert!(check_http_status(299, String::new()).is_ok());
    match check_http_status(404, "not found".to_string()) {
        Err(DdnsError::ApiError { status, body }) => {
            assert_eq!(status, 404);
            assert_eq!(body, "not found");
        }
        other => panic!("expected ApiError, got {:?}", other),
    }
    assert!(check_http_status(199, String::new()).is_err());
    assert!(check_http_status(301, String::new()).is_err());
}

#[test]
fn provider_payload_gates_success_flag() {
    let records = vec![DnsRecord {
        id: "r1".to_string(),
        name: "example.com".to_string(),
        record_type: "AAAA".to_string(),
        content: "2001:db8::1".to_string(),
        proxied: false,
        ttl: 120,
    }];
    let ok = accept_provider_payload(true, Vec::new(), records.clone()).unwrap();
    assert_eq!(ok.len(), 1);
    assert_eq!(ok[0].id, "r1");
    match accept_provider_payload(false, vec!["code 9109".to_string()], records) {
        Err(DdnsError::ProviderError { errors }) => {
            assert_eq!(errors, vec!["code 9109".to_string()]);
        }
        other => panic!("expected ProviderError, got {:?}", other),
    }
}

#[test]
fn test_command_resolves_config_path() {
    assert_eq!(
        handle_test_command(Some("/tmp/custom.toml".to_string())),
        "/tmp/custom.toml"
    );
    assert_eq!(handle_test_command(None), "/etc/myddns/config.toml");
}

#[test]
fn token_preview_truncates_long_tokens() {
    assert_eq!(token_preview("short"), "short");
    assert_eq!(
        token_preview("abcdefghijklmnopqrstuvwxyz"),
        "abcdefghijklmnopqrst"
    );
    assert_eq!(token_preview(""), "");
}
