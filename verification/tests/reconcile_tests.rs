use myddns::DnsRecord;
use myddns::DomainConfig;
use myddns::ReconcileAction;
use myddns::decide_action;
use myddns::desired_record_payload;
use myddns::find_record;
use myddns::plan_all_domains;

fn record(name: &str, record_type: &str, content: &str, proxied: bool) -> DnsRecord {
    DnsRecord {
        id: format!("id-{}-{}", name, record_type),
        name: name.to_string(),
        record_type: record_type.to_string(),
        content: content.to_string(),
        proxied,
        ttl: 120,
    }
}

fn spec(domain: &str, proxied: bool) -> DomainConfig {
    DomainConfig {
        domain: domain.to_string(),
        proxied,
    }
}

const IP: &str = "2001:db8::1";

#[test]
fn decision_create_without_record() {
    let records: Vec<DnsRecord> = Vec::new();
    let d = spec("example.com", true);
    assert_eq!(decide_action(&records, &d, IP), ReconcileAction::Create);
}

#[test]
fn decision_noop_when_up_to_date() {
    let records = vec![record("example.com", "AAAA", IP, true)];
    let d = spec("example.com", true);
    assert_eq!(decide_action(&records, &d, IP), ReconcileAction::NoOp);
}

#[test]
fn decision_update_on_changed_content() {
    let records = vec![record("example.com", "AAAA", "2001:db8::2", true)];
    let d = spec("example.com", true);
    assert_eq!(
        decide_action(&records, &d, IP),
        ReconcileAction::Update { index: 0 }
    );
}

#[test]
fn decision_update_on_changed_proxy_flag() {
    let records = vec![record("example.com", "AAAA", IP, false)];
    let d = spec("example.com", true);
    assert_eq!(
        decide_action(&records, &d, IP),
        ReconcileAction::Update { index: 0 }
    );
}

#[test]
fn decision_ignores_records_of_other_types() {
    let records = vec![record("example.com", "A", "192.0.2.1", true)];
    let d = spec("example.com", true);
    assert_eq!(decide_action(&records, &d, IP), ReconcileAction::Create);
}

#[test]
fn decision_ignores_records_of_other_names() {
    let records = vec![record("other.com", "AAAA", IP, true)];
    let d = spec("example.com", true);
    assert_eq!(decide_action(&records, &d, IP), ReconcileAction::Create);
}

#[test]
fn first_matching_record_wins() {
    let records = vec![
        record("other.com", "AAAA", IP, true),
        record("example.com", "AAAA", "2001:db8::2", true),
        record("example.com", "AAAA", IP, true),
    ];
    let d = spec("example.com", true);
    assert_eq!(find_record(&records, &d), Some(1));
    assert_eq!(
        decide_action(&records, &d, IP),
        ReconcileAction::Update { index: 1 }
    );
}

#[test]
fn find_record_misses_on_empty_snapshot() {
    let records: Vec<DnsRecord> = Vec::new();
    let d = spec("example.com", true);
    assert_eq!(find_record(&records, &d), None);
}

#[test]
fn plan_covers_every_domain_in_order() {
    let records = vec![
        record("a.com", "AAAA", IP, true),
        record("b.com", "AAAA", "2001:db8::2", false),
    ];
    let domains = vec![spec("a.com", true), spec("b.com", false), spec("c.com", true)];
    let plan = plan_all_domains(&domains, &records, IP);
    assert_eq!(
        plan,
        vec![
            ReconcileAction::NoOp,
            ReconcileAction::Update { index: 1 },
            ReconcileAction::Create,
        ]
    );
}

#[test]
fn plan_decides_duplicates_independently() {
    let records = vec![record("a.com", "AAAA", IP, true)];
    let domains = vec![spec("a.com", true), spec("a.com", false)];
    let plan = plan_all_domains(&domains, &records, IP);
    assert_eq!(
        plan,
        vec![
            ReconcileAction::NoOp,
            ReconcileAction::Update { index: 0 },
        ]
    );
}

#[test]
fn second_pass_after_carrying_out_plan_is_all_noop() {
    let mut state = vec![record("a.com", "AAAA", "2001:db8::9", true)];
    let domains = vec![spec("a.com", false), spec("b.com", true)];
    let plan = plan_all_domains(&domains, &state, IP);
    for (d, action) in domains.iter().zip(plan.iter()) {
        match action {
            ReconcileAction::Create => {
                let p = desired_record_payload(d, IP);
                state.push(DnsRecord {
                    id: format!("new-{}", d.domain),
                    name: p.name,
                    record_type: p.record_type,
                    content: p.content,
                    proxied: p.proxied,
                    ttl: p.ttl,
                });
            }
            ReconcileAction::Update { index } => {
                let p = desired_record_payload(d, IP);
                let r = &mut state[*index];
                r.content = p.content;
                r.proxied = p.proxied;
                r.ttl = p.ttl;
            }
            ReconcileAction::NoOp => {}
        }
    }
    let second = plan_all_domains(&domains, &state, IP);
    assert_eq!(second, vec![ReconcileAction::NoOp, ReconcileAction::NoOp]);
}

#[test]
fn payload_is_aaaa_with_fixed_ttl() {
    let d = spec("example.com", true);
    let p = desired_record_payload(&d, IP);
    assert_eq!(p.record_type, "AAAA");
    assert_eq!(p.name, "example.com");
    assert_eq!(p.content, IP);
    assert_eq!(p.ttl, 120);
    assert!(p.proxied);
}
