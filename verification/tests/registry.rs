use std::collections::HashMap;

use dsh_studio::catalog::{parse_harness_versions, NpmMetadata};
use dsh_studio::channel;
use dsh_studio::channel::{update_available, Channel};
use dsh_studio::error::Error;
use dsh_studio::install;
use dsh_studio::json::Json;
use dsh_studio::registry;
use dsh_studio::registry::{
    compatibility, detail_from_manifest, exact_requested_version, listing, refresh_trust,
    repository_identity, validate_preflight, Compatibility, TrustLevel,
};
use dsh_studio::version;

const CURRENT: &str = "0.1.2-rc.1";

fn json(raw: &str) -> Json {
    Json::parse(raw).expect("test document")
}

fn sha512() -> String {
    format!("sha512-{}==", "A".repeat(86))
}

#[test]
fn an_update_is_newer_than_the_install() {
    let channel = Channel {
        pinned: None,
        known: vec![],
        latest: Some("0.1.5-rc.1".into()),
    };
    assert_eq!(
        update_available(&channel, Some("0.1.2-rc.1")),
        Some("0.1.5-rc.1".to_string())
    );
    assert_eq!(update_available(&channel, Some("0.1.5-rc.1")), None);
    assert!(update_available(&channel, None).is_some());
}

#[test]
fn no_latest_means_no_update() {
    let channel = Channel::default();
    assert_eq!(update_available(&channel, Some("0.1.2-rc.1")), None);
}

#[test]
fn names_that_are_no_releases_are_compared_as_texts() {
    let channel = Channel {
        pinned: None,
        known: vec![],
        latest: Some("nightly".into()),
    };
    assert_eq!(
        update_available(&channel, Some("0.1.2")),
        Some("nightly".to_string())
    );
    assert_eq!(update_available(&channel, Some("nightly")), None);
}

#[test]
fn a_pin_is_what_is_selected() {
    let channel = channel::pin(Channel::default(), Some("0.1.5-rc.2".into()));
    assert_eq!(channel::selected(&channel), "0.1.5-rc.2");
    assert_eq!(channel::selected(&Channel::default()), install::VERSION);
}

#[test]
fn a_refreshed_channel_lists_releases_newest_first() {
    let document = json(
        r#"{"dist-tags":{"latest":"0.1.10"},"versions":{"0.1.2":{},"0.1.10":{},"0.1.9-rc.1":{}}}"#,
    );
    let changed = channel::refresh(
        channel::pin(Channel::default(), Some("0.1.2".into())),
        &document,
    );
    assert_eq!(changed.pinned.as_deref(), Some("0.1.2"));
    assert_eq!(changed.latest.as_deref(), Some("0.1.10"));
    assert_eq!(changed.known, ["0.1.10", "0.1.9-rc.1", "0.1.2"]);
}

/// What a registry answer says of the releases.
fn metadata(raw: &str) -> Result<NpmMetadata, String> {
    let mut read: HashMap<String, HashMap<String, serde_json::Value>> =
        serde_json::from_str(raw).map_err(|cause| cause.to_string())?;
    let versions = read
        .remove("versions")
        .ok_or_else(|| "missing field `versions`".to_string())?;
    Ok(NpmMetadata {
        versions: versions.into_keys().collect(),
    })
}

#[test]
fn catalog_is_bounded_sorted_and_marks_only_the_qualified_contract() {
    let raw = r#"{
        "versions": {
            "0.1.0-rc.1": {},
            "0.1.1-rc.2": {},
            "0.1.2-rc.1": {},
            "0.1.5-rc.2": {},
            "not-semver": {},
            "1.0.0+build": {}
        }
    }"#;
    let versions =
        parse_harness_versions(&metadata(raw), &Some(install::VERSION.to_string())).expect("catalog");
    assert_eq!(versions[0].version, "0.1.5-rc.2");
    assert!(versions
        .iter()
        .any(|version| version.version == install::VERSION
            && version.qualified
            && version.installed));
    assert!(!versions
        .iter()
        .any(|version| version.version == "not-semver"));
    assert!(!versions
        .iter()
        .any(|version| version.version == "1.0.0+build"));
}

#[test]
fn malformed_catalog_is_an_actionable_network_error() {
    let error = parse_harness_versions(&metadata("[]"), &None).expect_err("invalid catalog");
    assert!(error.message().contains("version catalog is invalid"));
    let unreadable = parse_harness_versions(&metadata("{"), &None).expect_err("invalid catalog");
    assert!(unreadable.message().contains("version catalog is invalid"));
}

#[test]
fn truncated_catalog_keeps_the_bundled_and_installed_versions() {
    let mut entries: Vec<String> = Vec::new();
    for minor in 0..100 {
        entries.push(format!("\"1.{minor}.0\":{{}}"));
    }
    entries.push(format!("\"{}\":{{}}", install::VERSION));
    entries.push("\"0.1.0-rc.8\":{}".to_string());
    let raw = format!("{{\"versions\":{{{}}}}}", entries.join(","));
    let result =
        parse_harness_versions(&metadata(&raw), &Some("0.1.0-rc.8".to_string())).expect("catalog");
    assert_eq!(result.len(), 50);
    assert!(result.iter().any(|version| version.qualified));
    assert!(result.iter().any(|version| version.installed));
    assert_eq!(result[0].version, "1.99.0");
}

#[test]
fn reads_one_search_result() {
    let entry = json(
        r#"{
            "downloads": { "weekly": 421, "monthly": 1800 },
            "package": {
                "name": "@vendor/dsh-notes",
                "version": "0.2.4",
                "description": "notes as a profile layer",
                "date": "2026-08-16T06:46:50.294Z",
                "publisher": { "username": "vendor" },
                "links": { "repository": "https://example.invalid/notes" }
            }
        }"#,
    );

    let listing = listing(&entry).expect("a well-formed result");
    assert_eq!(listing.name, "@vendor/dsh-notes");
    assert_eq!(listing.weekly_downloads, 421);
    assert_eq!(listing.publisher, "vendor");
    assert_eq!(
        listing.link.as_deref(),
        Some("https://example.invalid/notes")
    );
    assert_eq!(
        listing.repository.as_deref(),
        Some("https://example.invalid/notes")
    );
}

#[test]
fn survives_a_result_missing_everything_optional() {
    let entry = json(r#"{ "package": { "name": "bare" } }"#);

    let listing = listing(&entry).expect("a name is enough");
    assert_eq!(listing.name, "bare");
    assert_eq!(listing.weekly_downloads, 0);
    assert!(listing.link.is_none());
    assert!(listing.repository.is_none());
}

#[test]
fn skips_a_result_with_no_package_at_all() {
    assert!(listing(&json(r#"{ "downloads": { "weekly": 1 } }"#)).is_none());
}

#[test]
fn detail_pins_the_registry_version_and_records_its_source() {
    let detail = detail_from_manifest(
        "@vendor/tool",
        "https://registry.example",
        &json(
            r#"{
                "name": "@vendor/tool",
                "version": "1.2.3",
                "peerDependencies": { "@deepseek-ai/dsh": "^0.1.2-rc.1" }
            }"#,
        ),
        CURRENT,
    );
    assert_eq!(detail.install_spec, "@vendor/tool@1.2.3");
    assert_eq!(detail.source, "https://registry.example");
    assert!(matches!(
        detail.compatibility,
        Compatibility::Compatible { .. }
    ));
}

#[test]
fn incompatible_and_malformed_peer_ranges_are_blocked() {
    let previous_prerelease_line = compatibility(
        &json(r#"{ "peerDependencies": { "@deepseek-ai/dsh": "^0.1.0-rc.7" } }"#),
        CURRENT,
    );
    assert!(matches!(
        previous_prerelease_line,
        Compatibility::Incompatible { .. }
    ));

    let incompatible = compatibility(
        &json(r#"{ "peerDependencies": { "@deepseek-ai/dsh": "<0.1.0-rc.7" } }"#),
        CURRENT,
    );
    assert!(matches!(incompatible, Compatibility::Incompatible { .. }));

    let malformed = compatibility(
        &json(r#"{ "peerDependencies": { "@deepseek-ai/dsh": "not a range" } }"#),
        CURRENT,
    );
    assert!(matches!(malformed, Compatibility::Incompatible { .. }));

    let legacy = compatibility(
        &json(r#"{ "dependencies": { "cordis": "^3.0.0" } }"#),
        CURRENT,
    );
    assert!(matches!(legacy, Compatibility::Incompatible { .. }));
}

#[test]
fn lifecycle_deprecation_and_weak_integrity_are_market_blocks() {
    let integrity = sha512();
    let safe = detail_from_manifest(
        "safe-plugin",
        "npm",
        &json(&format!(
            r#"{{ "name": "safe-plugin", "version": "1.2.3", "dist": {{ "integrity": "{integrity}" }} }}"#
        )),
        CURRENT,
    );
    assert!(validate_preflight(&safe, CURRENT).is_ok());

    let prerelease = detail_from_manifest(
        "preview-plugin",
        "npm",
        &json(&format!(
            r#"{{ "name": "preview-plugin", "version": "1.2.3-rc.1", "dist": {{ "integrity": "{integrity}" }} }}"#
        )),
        CURRENT,
    );
    assert!(validate_preflight(&prerelease, CURRENT).is_ok());

    let build_metadata = detail_from_manifest(
        "ambiguous-plugin",
        "npm",
        &json(&format!(
            r#"{{ "name": "ambiguous-plugin", "version": "1.2.3+rebuilt", "dist": {{ "integrity": "{integrity}" }} }}"#
        )),
        CURRENT,
    );
    assert!(validate_preflight(&build_metadata, CURRENT).is_err());

    let scripted = detail_from_manifest(
        "scripted-plugin",
        "npm",
        &json(&format!(
            r#"{{ "name": "scripted-plugin", "version": "1.2.3", "scripts": {{ "postinstall": "node setup.js" }}, "dist": {{ "integrity": "{integrity}" }} }}"#
        )),
        CURRENT,
    );
    assert!(validate_preflight(&scripted, CURRENT).is_err());
    assert_eq!(scripted.lifecycle_scripts, ["postinstall"]);

    let deprecated = detail_from_manifest(
        "old-plugin",
        "npm",
        &json(
            r#"{ "name": "old-plugin", "version": "1.2.3", "deprecated": "use another package", "dist": { "integrity": "sha1hex-deadbeef" } }"#,
        ),
        CURRENT,
    );
    assert!(validate_preflight(&deprecated, CURRENT).is_err());
}

#[test]
fn trust_report_and_resource_footprint_are_derived_from_install_evidence() {
    let integrity = sha512();
    let mut detail = detail_from_manifest(
        "safe-plugin",
        "npm",
        &json(&format!(
            r#"{{
                "name": "safe-plugin",
                "version": "1.2.3",
                "peerDependencies": {{ "@deepseek-ai/dsh": "^0.1.2-rc.1" }},
                "dependencies": {{ "one": "1.0.0", "two": "2.0.0" }},
                "dsh": {{ "bundle": {{ "patch": [] }} }},
                "dist": {{ "integrity": "{integrity}", "unpackedSize": 12345, "fileCount": 17 }}
            }}"#
        )),
        CURRENT,
    );
    detail.repository_verified = true;
    refresh_trust(&mut detail);

    assert!(matches!(detail.trust.level, TrustLevel::Verified));
    assert_eq!(detail.trust.signals.len(), 5);
    assert_eq!(detail.resources.direct_dependencies, 2);
    assert_eq!(detail.resources.unpacked_bytes, Some(12345));
    assert_eq!(detail.resources.published_files, Some(17));
    assert!(!detail.resources.native_build_declared);

    detail.lifecycle_scripts.push("postinstall".into());
    refresh_trust(&mut detail);
    assert!(matches!(detail.trust.level, TrustLevel::Blocked));
}

#[test]
fn market_requests_accept_exact_prereleases_but_not_ranges_tags_or_builds() {
    assert_eq!(
        exact_requested_version("plugin@1.2.3-rc.1").unwrap(),
        "1.2.3-rc.1"
    );
    assert!(exact_requested_version("plugin@^1.2.3").is_err());
    assert!(exact_requested_version("plugin@latest").is_err());
    assert!(exact_requested_version("plugin@1.2.3+rebuilt").is_err());
    assert!(exact_requested_version("plugin").is_err());
}

#[test]
fn repository_backlinks_compare_canonical_https_identity() {
    assert_eq!(
        repository_identity("git+https://GitHub.com/Owner/Repo.git"),
        repository_identity("https://github.com/owner/repo/")
    );
    assert_eq!(
        repository_identity("https://github.com/owner/repo/").as_deref(),
        Some("https://github.com/owner/repo")
    );
    assert!(repository_identity("git://github.com/owner/repo.git").is_none());
    assert!(repository_identity("https://user@github.com/owner/repo").is_none());
}

#[test]
fn a_query_and_a_fragment_do_not_identify_a_repository() {
    assert_eq!(
        repository_identity("https://github.com/owner/repo?tab=readme"),
        repository_identity("https://github.com/owner/repo")
    );
    assert!(repository_identity("https://github.com/owner/repo#readme").is_none());
    assert!(repository_identity("https://github.com:8443/owner/repo").is_none());
}

#[test]
fn integrity_is_a_whole_sha512() {
    assert!(registry::valid_sha512_integrity(&sha512()));
    assert!(!registry::valid_sha512_integrity("sha512-AAAA"));
    assert!(!registry::valid_sha512_integrity(&format!(
        "sha1-{}==",
        "A".repeat(86)
    )));
}

#[test]
fn padding_is_no_part_of_a_sha512_digest() {
    let valid = |digest: String| registry::valid_sha512_integrity(&format!("sha512-{digest}"));
    assert!(!valid("=".repeat(88)));
    assert!(!valid(format!("{}===", "A".repeat(85))));
    assert!(!valid(format!("=={}", "A".repeat(86))));
    assert!(!valid("A".repeat(88)));
    assert!(!valid(format!("{}=A", "A".repeat(86))));
    assert!(!valid(format!("{}==", "A".repeat(85))));
    assert!(!valid(format!("{}==", "A".repeat(87))));
    assert!(!valid(format!("{}-==", "A".repeat(85))));
    assert!(valid(format!("{}+/0z==", "A".repeat(82))));
}

#[test]
fn a_catalog_that_could_not_be_read_says_why() {
    let error = parse_harness_versions(&Err("expected value".to_string()), &None)
        .expect_err("invalid catalog");
    assert!(matches!(
        error,
        Error::Network(message)
            if message == "Harness version catalog is invalid: expected value"
    ));
    let none = NpmMetadata {
        versions: Vec::new(),
    };
    assert!(parse_harness_versions(&Ok(none), &None)
        .expect("catalog")
        .is_empty());
}

#[test]
fn the_selected_release_is_asked_for_by_its_exact_version() {
    let endpoint = registry::resolve_endpoint("https://registry.example", "@vendor/tool@1.2.3")
        .expect("endpoint");
    assert_eq!(endpoint, "https://registry.example/@vendor/tool/1.2.3");
    assert_eq!(
        registry::resolve_endpoint("https://registry.example", "@vendor/tool").expect("endpoint"),
        "https://registry.example/@vendor/tool/latest"
    );
    assert!(registry::resolve_endpoint("https://registry.example", "--force").is_err());
    assert_eq!(
        registry::detail_endpoint("https://registry.example", "left-pad").expect("endpoint"),
        "https://registry.example/left-pad/latest"
    );
    assert!(registry::detail_endpoint("https://registry.example", "../x").is_err());
}

#[test]
fn a_search_is_an_address_with_a_query() {
    let endpoint =
        registry::search_endpoint("https://registry.example", "notes & more").expect("endpoint");
    assert_eq!(
        endpoint,
        "https://registry.example/-/v1/search?text=notes+%26+more&size=250"
    );
    assert!(registry::search_endpoint("not an address", "notes").is_err());
    assert_eq!(registry::search_text("  "), registry::DISCOVERY);
}

#[test]
fn npm_says_where_its_registry_is() {
    assert_eq!(
        registry::answered_base(&Some(b"https://mirror.example/npm/\n".to_vec())),
        "https://mirror.example/npm"
    );
    assert_eq!(
        registry::answered_base(&Some(b"undefined\n".to_vec())),
        registry::DEFAULT_REGISTRY
    );
    assert_eq!(registry::answered_base(&None), registry::DEFAULT_REGISTRY);
    let question = registry::registry_question("node", "npm-cli.js");
    assert_eq!(
        question.arguments,
        ["npm-cli.js", "config", "get", "registry"]
    );
}

#[test]
fn a_package_is_described_only_against_a_release() {
    let manifest = json(r#"{ "name": "a", "version": "1.0.0" }"#);
    assert!(registry::describe("a", "npm", &manifest, "latest").is_none());
    let detail = registry::describe("a", "npm", &manifest, CURRENT).expect("described");
    assert!(matches!(detail.compatibility, Compatibility::Unknown));
    assert!(registry::preflight("a@1.0.0", "npm", &manifest, "latest").is_none());
    assert!(registry::preflight("a@1.0.0", "npm", &manifest, CURRENT)
        .expect("checked")
        .is_err());
}

#[test]
fn a_well_formed_release_number_is_read_as_it_is_printed() {
    for number in [
        "0.1.2-rc.1",
        "0.0.0",
        "18446744073709551615.0.10",
        "1.0.0-0.a-.--.0a",
        "1.0.0+001.00",
        "1.2.3-x+-",
    ] {
        let release = version::Release::parse(number).expect("well-formed");
        assert_eq!(release.text(), number);
    }
    for other in [
        "18446744073709551616.0.0",
        "01.0.0",
        "1.0.0-01",
        "1.0.0-a..b",
        "1.0.0-",
        "1.0.0+",
        "1.0.0+a.",
        "1.0",
    ] {
        assert!(version::Release::parse(other).is_none());
    }
}

#[test]
fn releases_are_ranked_as_releases() {
    assert_eq!(version::newer("0.1.10", "0.1.9"), Some(true));
    assert_eq!(version::newer("0.1.2-rc.1", "0.1.2"), Some(false));
    assert_eq!(version::newer("tag", "0.1.2"), None);
    assert_eq!(version::admits("^0.1.2-rc.1", "0.1.2-rc.1"), Some(true));
    assert_eq!(version::admits("<0.1.0", "0.1.2"), Some(false));
    assert_eq!(version::admits("not a range", "0.1.2"), None);
    let release = version::Release::parse("1.2.3-rc.1+b2").expect("release");
    assert_eq!(release.pre, "rc.1");
    assert_eq!(release.build, "b2");
    assert_eq!(release.text(), "1.2.3-rc.1+b2");
}
