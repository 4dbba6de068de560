use eth2_libp2p::client::{
    classify_with, client_from_agent_version, known_families, Client, ClientKind, FamilyRule,
    VersionRule,
};

fn classify(agent: &str) -> (ClientKind, String, String) {
    client_from_agent_version(agent)
}

#[test]
fn teku_fields() {
    let (kind, version, os) = classify("teku/v1.2.3/linux-x86_64");
    assert_eq!(kind, ClientKind::Teku);
    assert_eq!(version, "v1.2.3");
    assert_eq!(os, "linux-x86_64");
}

#[test]
fn unknown_marker_is_unknown() {
    let (kind, version, os) = classify("gobbledygook/1.0");
    assert_eq!(kind, ClientKind::Unknown);
    assert_eq!(version, "unknown");
    assert_eq!(os, "unknown");
    let client = Client::from_identify_info("gobbledygook/1.0", "ipfs/0.1.0");
    assert_eq!(client.kind, ClientKind::Unknown);
    assert_eq!(client.agent_string.as_deref(), Some("gobbledygook/1.0"));
    assert_eq!(client.protocol_version, "ipfs/0.1.0");
    assert_eq!(client.to_string(), "Unknown: gobbledygook/1.0");
}

#[test]
fn markers_are_case_sensitive() {
    assert_eq!(classify("lighthouse/v0.3.1/linux").0, ClientKind::Unknown);
    assert_eq!(classify("Teku/v1.0.0").0, ClientKind::Unknown);
    assert_eq!(classify("").0, ClientKind::Unknown);
}

#[test]
fn lighthouse_threshold_boundary() {
    let below = classify("Lighthouse/v0.3.0-b6ac8220/x86_64-linux");
    assert_eq!(below.0, ClientKind::LighthouseOld);
    assert_eq!(below.1, "v0.3.0-b6ac8220");
    assert_eq!(below.2, "x86_64-linux");
    let at = classify("Lighthouse/v0.3.1-b6ac8220/x86_64-linux");
    assert_eq!(at.0, ClientKind::Lighthouse);
    assert_eq!(classify("Lighthouse/v0.4.0/x86_64-linux").0, ClientKind::Lighthouse);
    assert_eq!(classify("Lighthouse/v0.2.9/x86_64-linux").0, ClientKind::LighthouseOld);
    assert_eq!(classify("Lighthouse/v1.0.0/x86_64-linux").0, ClientKind::LighthouseOld);
}

#[test]
fn lighthouse_malformed_versions_are_legacy() {
    assert_eq!(classify("Lighthouse").0, ClientKind::LighthouseOld);
    assert_eq!(classify("Lighthouse").1, "unknown");
    assert_eq!(classify("Lighthouse/v0").0, ClientKind::LighthouseOld);
    assert_eq!(classify("Lighthouse/v0.x.1").0, ClientKind::LighthouseOld);
    assert_eq!(classify("Lighthouse/v0.3").0, ClientKind::LighthouseOld);
    assert_eq!(classify("Lighthouse/v0.3.y").0, ClientKind::LighthouseOld);
    assert_eq!(classify("Lighthouse/v0.99999999999.0").0, ClientKind::LighthouseOld);
    assert_eq!(classify("Lighthouse/v0.+4.0").0, ClientKind::Lighthouse);
    assert_eq!(classify("Lighthouse/v0.3.+1").0, ClientKind::Lighthouse);
    assert_eq!(classify("Lighthouse/v0.-4.0").0, ClientKind::LighthouseOld);
    assert_eq!(classify("Lighthouse/v0.2147483647.0").0, ClientKind::Lighthouse);
    assert_eq!(classify("Lighthouse/v0.2147483648.0").0, ClientKind::LighthouseOld);
}

#[test]
fn prysm_beta_scheme() {
    let current = classify("Prysm/v1.0.0-beta.0/9b367b36fc12ecf565ad649209aa2b5bba8c7797/linux");
    assert_eq!(current.0, ClientKind::Prysm);
    assert_eq!(current.1, "9b367b36fc12ecf565ad649209aa2b5bba8c7797");
    assert_eq!(current.2, "linux");
    assert_eq!(classify("Prysm/v1.0.0-beta.12/abc").0, ClientKind::Prysm);
    assert_eq!(classify("Prysm/v1.0.0-alpha.29/abc").0, ClientKind::PrysmOld);
    assert_eq!(classify("Prysm/v1.0.0-beta.x/abc").0, ClientKind::PrysmOld);
    assert_eq!(classify("Prysm/v1.0.0-beta.-1/abc").0, ClientKind::PrysmOld);
    assert_eq!(classify("Prysm/v1.0.0-beta.2-beta.3/abc").0, ClientKind::Prysm);
    let bare = classify("Prysm");
    assert_eq!(bare, (ClientKind::PrysmOld, "unknown".to_string(), "unknown".to_string()));
}

#[test]
fn other_families() {
    assert_eq!(
        classify("github.com/prysmaticlabs/prysm"),
        (ClientKind::PrysmOld, "unknown".to_string(), "unknown".to_string())
    );
    assert_eq!(
        classify("nim-libp2p/0.0.1/linux"),
        (ClientKind::Nimbus, "0.0.1".to_string(), "linux".to_string())
    );
    assert_eq!(
        classify("js-libp2p/0.28.0"),
        (ClientKind::Lodestar, "0.28.0".to_string(), "unknown".to_string())
    );
    assert_eq!(
        classify("teku"),
        (ClientKind::Teku, "unknown".to_string(), "unknown".to_string())
    );
}

#[test]
fn classification_is_deterministic() {
    let agents = [
        "teku/v1.2.3/linux-x86_64",
        "Lighthouse/v0.3.1/x86_64-linux",
        "Prysm/v1.0.0-beta.3/abc/linux",
        "gobbledygook/1.0",
        "/////",
        "ünïcödé/ß/✓",
    ];
    for a in agents.iter() {
        assert_eq!(classify(a), classify(a));
    }
    assert_eq!(classify("ünïcödé/ß/✓").0, ClientKind::Unknown);
    assert_eq!(classify("nim-libp2p/ß/✓").1, "ß");
    assert_eq!(classify("nim-libp2p/ß/✓").2, "✓");
}

const EXCLUDED: &str = "3ee9ab6f8c1dc2b1f7d4c8e0a5b6c7d8e9f0a1b2";

fn alpha_table() -> Vec<FamilyRule> {
    vec![FamilyRule {
        marker: "Prysm",
        skip_tag: true,
        report: true,
        rule: VersionRule::PreRelease {
            marker: "-alpha.",
            build: 13,
            excluded: vec![EXCLUDED, "0000000000000000000000000000000000000001"],
            current: ClientKind::Prysm,
            legacy: ClientKind::PrysmOld,
        },
    }]
}

#[test]
fn alpha_scheme_excluded_build_is_legacy() {
    let table = alpha_table();
    let agent = format!("Prysm/v0.12.0-alpha.13/{}/linux", EXCLUDED);
    let (kind, version, os) = classify_with(&table, &agent);
    assert_eq!(kind, ClientKind::PrysmOld);
    assert_eq!(version, EXCLUDED);
    assert_eq!(os, "linux");
    let other = classify_with(&table, "Prysm/v0.12.0-alpha.13/ffffffffffffffffffffffffffffffffffffffff/linux");
    assert_eq!(other.0, ClientKind::Prysm);
    let above = format!("Prysm/v0.12.0-alpha.14/{}/linux", EXCLUDED);
    assert_eq!(classify_with(&table, &above).0, ClientKind::Prysm);
    let below = classify_with(&table, "Prysm/v0.12.0-alpha.12/ffffffffffffffffffffffffffffffffffffffff/linux");
    assert_eq!(below.0, ClientKind::PrysmOld);
    assert_eq!(classify_with(&table, "teku/v1").0, ClientKind::Unknown);
}

#[test]
fn default_table_has_every_family() {
    let table = known_families();
    let markers: Vec<&str> = table.iter().map(|r| r.marker).collect();
    assert_eq!(markers, vec!["Lighthouse", "teku", "github.com", "Prysm", "nim-libp2p", "js-libp2p"]);
}

#[test]
fn client_descriptions() {
    let c = Client::from_identify_info("Lighthouse/v0.3.1/x86_64-linux", "ipfs/0.1.0");
    assert_eq!(c.to_string(), "Lighthouse: version: v0.3.1, os_version: x86_64-linux");
    let old = Client::from_identify_info("Lighthouse/v0.2.0/x86_64-linux", "ipfs/0.1.0");
    assert_eq!(old.to_string(), "Lighthouse Old: version: v0.2.0, os_version: x86_64-linux");
    let lodestar = Client::from_identify_info("js-libp2p/0.28.0/linux", "ipfs/0.1.0");
    assert_eq!(lodestar.to_string(), "Lodestar: version: 0.28.0");
    let prysm = Client::from_identify_info("github.com/prysm", "ipfs/0.1.0");
    assert_eq!(prysm.to_string(), "Prysm Old: version: unknown, os_version: unknown");
    assert_eq!(Client::default().to_string(), "Unknown");
    assert_eq!(ClientKind::LighthouseOld.to_string(), "LighthouseOld");
    assert_eq!(ClientKind::Teku.to_string(), "Teku");
}

#[test]
fn default_client_is_unknown() {
    let c = Client::default();
    assert_eq!(c.kind, ClientKind::Unknown);
    assert_eq!(c.version, "unknown");
    assert_eq!(c.os_version, "unknown");
    assert_eq!(c.protocol_version, "unknown");
    assert!(c.agent_string.is_none());
}
