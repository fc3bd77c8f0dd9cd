use skill_utils::bump::{bump_version, BumpError};
use skill_utils::codec::{decode_manifest, decode_marketplace, encode_manifest, encode_marketplace,
    DecodeError};
use skill_utils::market::add_to_marketplace;
use skill_utils::precommit::{parse_staged_paths, precommit_flow, stage_args, ManifestInput,
    PrecommitError};
use skill_utils::scaffold::{init_plugin, InitError};
use skill_utils::types::{default_marketplace, Author, InitOptions, Marketplace, MarketplaceEntry,
    Owner, PluginManifest};
use skill_utils::validate::{validate_plugin, PathField, PathPresence, ValidateError};
use skill_utils::version::{parse_version, version_to_string, BumpLevel, Version};
use skill_utils::path_join;

fn demo_manifest() -> PluginManifest {
    PluginManifest {
        name: "demo".to_string(),
        description: "D".to_string(),
        version: "1.2.3".to_string(),
        author: Author { name: "A".to_string(), email: None, url: None },
        homepage: None,
        keywords: None,
        commands: Some("./commands/".to_string()),
        agents: None,
        skills: None,
        hooks: None,
    }
}

fn all_present() -> PathPresence {
    PathPresence { commands: true, agents: true, skills: true, hooks: true }
}

fn assert_manifest_eq(a: &PluginManifest, b: &PluginManifest) {
    assert_eq!(a.name, b.name);
    assert_eq!(a.description, b.description);
    assert_eq!(a.version, b.version);
    assert_eq!(a.author.name, b.author.name);
    assert_eq!(a.author.email, b.author.email);
    assert_eq!(a.author.url, b.author.url);
    assert_eq!(a.homepage, b.homepage);
    assert_eq!(a.keywords, b.keywords);
    assert_eq!(a.commands, b.commands);
    assert_eq!(a.agents, b.agents);
    assert_eq!(a.skills, b.skills);
    assert_eq!(a.hooks, b.hooks);
}

#[test]
fn bump_levels_increment_the_right_component() {
    let v = Version { major: 1, minor: 2, patch: 3 };
    let p = BumpLevel::Patch.bump(&v);
    assert_eq!((p.major, p.minor, p.patch), (1, 2, 4));
    let m = BumpLevel::Minor.bump(&v);
    assert_eq!((m.major, m.minor, m.patch), (1, 3, 0));
    let g = BumpLevel::Major.bump(&v);
    assert_eq!((g.major, g.minor, g.patch), (2, 0, 0));
}

#[test]
fn version_renders_canonically() {
    let v = Version { major: 10, minor: 0, patch: 7 };
    assert_eq!(version_to_string(&v), "10.0.7");
}

#[test]
fn semver_parsing_accepts_and_rejects() {
    assert_eq!(parse_version("1.2.3"), Some(Version { major: 1, minor: 2, patch: 3 }));
    assert_eq!(parse_version("0.1.0"), Some(Version { major: 0, minor: 1, patch: 0 }));
    assert_eq!(
        parse_version("1.2.3-alpha"),
        Some(Version { major: 1, minor: 2, patch: 3 })
    );
    assert_eq!(parse_version("1.0"), None);
    assert_eq!(parse_version("1.0.01"), None);
    assert_eq!(parse_version("not-a-version"), None);
}

#[test]
fn manifest_round_trips_through_the_codec() {
    let m = demo_manifest();
    let text = encode_manifest(&m);
    let back = decode_manifest(&text).unwrap();
    assert_manifest_eq(&m, &back);
}

#[test]
fn manifest_with_all_fields_round_trips() {
    let m = PluginManifest {
        name: "we\"ird\\name\n".to_string(),
        description: "tabs\tand\u{1}controls".to_string(),
        version: "9.9.9".to_string(),
        author: Author {
            name: "A".to_string(),
            email: Some("a@example.com".to_string()),
            url: Some("https://example.com".to_string()),
        },
        homepage: Some("https://example.com/home".to_string()),
        keywords: Some(vec!["one".to_string(), "two".to_string()]),
        commands: Some("./commands/".to_string()),
        agents: Some("./agents/".to_string()),
        skills: Some("./skills/".to_string()),
        hooks: Some("./hooks.json".to_string()),
    };
    let text = encode_manifest(&m);
    let back = decode_manifest(&text).unwrap();
    assert_manifest_eq(&m, &back);
}

#[test]
fn marketplace_round_trips_through_the_codec() {
    let m = Marketplace {
        name: "mp".to_string(),
        owner: Owner { name: "o".to_string() },
        plugins: vec![
            MarketplaceEntry {
                name: "a".to_string(),
                source: "plugins/a".to_string(),
                description: Some("first".to_string()),
            },
            MarketplaceEntry {
                name: "b".to_string(),
                source: "plugins/b".to_string(),
                description: None,
            },
        ],
    };
    let text = encode_marketplace(&m);
    let back = decode_marketplace(&text).unwrap();
    assert_eq!(back.name, m.name);
    assert_eq!(back.owner.name, m.owner.name);
    assert_eq!(back.plugins.len(), 2);
    assert_eq!(back.plugins[0].name, "a");
    assert_eq!(back.plugins[0].source, "plugins/a");
    assert_eq!(back.plugins[0].description.as_deref(), Some("first"));
    assert_eq!(back.plugins[1].name, "b");
    assert_eq!(back.plugins[1].description, None);
}

#[test]
fn encoded_manifest_is_json_for_other_readers() {
    let text = encode_manifest(&demo_manifest());
    let v: serde_json::Value = serde_json::from_str(&text).unwrap();
    assert_eq!(v["name"].as_str(), Some("demo"));
    assert_eq!(v["version"].as_str(), Some("1.2.3"));
    assert_eq!(v["author"]["name"].as_str(), Some("A"));
    assert!(v["homepage"].is_null());
    assert_eq!(v["commands"].as_str(), Some("./commands/"));
}

#[test]
fn decode_accepts_foreign_whitespace_and_unknown_fields() {
    let text = "{ \"version\": \"2.0.0\",\n\t\"name\" : \"x\", \"description\":\"d\",\n  \"author\": { \"name\": \"a\", \"extra\": [1, 2] },\n  \"future\": null }";
    let m = decode_manifest(text).unwrap();
    assert_eq!(m.name, "x");
    assert_eq!(m.version, "2.0.0");
    assert_eq!(m.author.name, "a");
    assert_eq!(m.commands, None);
}

#[test]
fn decode_reports_empty_and_malformed() {
    assert_eq!(decode_manifest("").unwrap_err(), DecodeError::Empty);
    assert_eq!(decode_manifest("  \n\t ").unwrap_err(), DecodeError::Empty);
    assert_eq!(decode_manifest("{").unwrap_err(), DecodeError::Malformed);
    assert_eq!(decode_manifest("[]").unwrap_err(), DecodeError::Malformed);
    assert_eq!(
        decode_manifest("{\"name\": \"x\"}").unwrap_err(),
        DecodeError::Malformed
    );
}

#[test]
fn validate_accepts_a_complete_manifest() {
    let text = encode_manifest(&demo_manifest());
    let m = validate_plugin(&text, &all_present()).unwrap();
    assert_manifest_eq(&m, &demo_manifest());
}

#[test]
fn validate_names_the_failing_part() {
    let blank_name = PluginManifest { name: "   ".to_string(), ..demo_manifest() };
    assert!(matches!(
        validate_plugin(&encode_manifest(&blank_name), &all_present()),
        Err(ValidateError::MissingName)
    ));
    let blank_desc = PluginManifest { description: "".to_string(), ..demo_manifest() };
    assert!(matches!(
        validate_plugin(&encode_manifest(&blank_desc), &all_present()),
        Err(ValidateError::MissingDescription)
    ));
    let bad_version = PluginManifest { version: "1.2".to_string(), ..demo_manifest() };
    assert!(matches!(
        validate_plugin(&encode_manifest(&bad_version), &all_present()),
        Err(ValidateError::InvalidVersion)
    ));
    let no_commands_dir = PathPresence { commands: false, ..all_present() };
    assert!(matches!(
        validate_plugin(&encode_manifest(&demo_manifest()), &no_commands_dir),
        Err(ValidateError::MissingPath(PathField::Commands))
    ));
    assert!(matches!(
        validate_plugin("", &all_present()),
        Err(ValidateError::EmptyManifest)
    ));
    assert!(matches!(
        validate_plugin("nonsense", &all_present()),
        Err(ValidateError::MalformedManifest)
    ));
}

#[test]
fn bump_version_rewrites_the_document() {
    let text = encode_manifest(&demo_manifest());
    let (text2, v) = bump_version(&text, &all_present(), BumpLevel::Patch).unwrap();
    assert_eq!((v.major, v.minor, v.patch), (1, 2, 4));
    let m2 = decode_manifest(&text2).unwrap();
    assert_eq!(m2.version, "1.2.4");
    assert_eq!(m2.name, "demo");
}

#[test]
fn bump_version_propagates_validation_errors() {
    assert!(matches!(
        bump_version("", &all_present(), BumpLevel::Patch),
        Err(BumpError::Validate(ValidateError::EmptyManifest))
    ));
    let maxed = PluginManifest {
        version: format!("1.2.{}", u64::MAX),
        ..demo_manifest()
    };
    assert!(matches!(
        bump_version(&encode_manifest(&maxed), &all_present(), BumpLevel::Patch),
        Err(BumpError::NonIncreasing)
    ));
}

#[test]
fn upsert_on_absent_index_bootstraps_one_entry() {
    let out = add_to_marketplace("/repo", &demo_manifest(), "/repo/plugins/demo", None).unwrap();
    let mp = decode_marketplace(&out).unwrap();
    let defaults = default_marketplace();
    assert_eq!(mp.name, defaults.name);
    assert_eq!(mp.owner.name, defaults.owner.name);
    assert_eq!(mp.plugins.len(), 1);
    assert_eq!(mp.plugins[0].name, "demo");
    assert_eq!(mp.plugins[0].source, "plugins/demo");
    assert_eq!(mp.plugins[0].description.as_deref(), Some("D"));
}

#[test]
fn upsert_twice_is_byte_identical() {
    let once = add_to_marketplace("/repo", &demo_manifest(), "/repo/plugins/demo", None).unwrap();
    let twice =
        add_to_marketplace("/repo", &demo_manifest(), "/repo/plugins/demo", Some(&once)).unwrap();
    assert_eq!(once, twice);
    assert_eq!(decode_marketplace(&twice).unwrap().plugins.len(), 1);
}

#[test]
fn upsert_keeps_position_and_appends_new_names() {
    let first = add_to_marketplace("/r", &demo_manifest(), "/r/plugins/demo", None).unwrap();
    let other = PluginManifest {
        name: "zeta".to_string(),
        description: "Z".to_string(),
        ..demo_manifest()
    };
    let second = add_to_marketplace("/r", &other, "/r/plugins/zeta", Some(&first)).unwrap();
    let updated = PluginManifest { description: "D2".to_string(), ..demo_manifest() };
    let third = add_to_marketplace("/r", &updated, "/r/plugins/demo", Some(&second)).unwrap();
    let mp = decode_marketplace(&third).unwrap();
    assert_eq!(mp.plugins.len(), 2);
    assert_eq!(mp.plugins[0].name, "demo");
    assert_eq!(mp.plugins[0].description.as_deref(), Some("D2"));
    assert_eq!(mp.plugins[1].name, "zeta");
}

#[test]
fn scaffold_plans_the_demo_plugin() {
    let opts = InitOptions {
        root: ".".to_string(),
        name: "demo".to_string(),
        description: "D".to_string(),
        author: "A".to_string(),
    };
    let plan = init_plugin(&opts, false, None).unwrap();
    assert_eq!(plan.plugin_dir, "./plugins/demo");
    assert_eq!(plan.metadata_dir, "./plugins/demo/.plugin-meta");
    assert_eq!(plan.commands_dir, "./plugins/demo/commands");
    assert_eq!(plan.manifest_path, "./plugins/demo/.plugin-meta/plugin.json");
    assert_eq!(plan.command_path, "./plugins/demo/commands/demo.md");
    let m = decode_manifest(&plan.manifest_content).unwrap();
    assert_eq!(m.name, "demo");
    assert_eq!(m.version, "0.1.0");
    assert_eq!(m.description, "D");
    assert_eq!(m.author.name, "A");
    assert_eq!(m.commands.as_deref(), Some("./commands/"));
    assert!(plan.command_content.contains("description: D"));
    assert!(plan.command_content.contains("# demo"));
    assert!(plan.command_content.contains("tags: [starter]"));
    let mp = decode_marketplace(&plan.marketplace_content).unwrap();
    assert_eq!(mp.plugins.len(), 1);
    assert_eq!(mp.plugins[0].name, "demo");
    assert_eq!(mp.plugins[0].source, "plugins/demo");
    assert_eq!(mp.plugins[0].description.as_deref(), Some("D"));
}

#[test]
fn scaffold_refuses_an_existing_directory() {
    let opts = InitOptions {
        root: ".".to_string(),
        name: "demo".to_string(),
        description: "D".to_string(),
        author: "A".to_string(),
    };
    assert!(matches!(
        init_plugin(&opts, true, None),
        Err(InitError::PluginDirExists)
    ));
}

#[test]
fn precommit_bumps_and_syncs_one_manifest() {
    let text = encode_manifest(&demo_manifest());
    let inputs = vec![ManifestInput {
        given_path: "plugins/demo/.plugin-meta/plugin.json".to_string(),
        content: Some(text),
        presence: all_present(),
    }];
    let out = precommit_flow("/repo", &inputs, None, false);
    assert!(out.error.is_none());
    assert_eq!(out.processed, vec![
        "/repo/plugins/demo/.plugin-meta/plugin.json".to_string()
    ]);
    assert_eq!(out.updates.len(), 1);
    let upd = &out.updates[0];
    assert!(upd.stage);
    let m2 = decode_manifest(&upd.manifest_content).unwrap();
    assert_eq!(m2.version, "1.2.4");
    let mp = decode_marketplace(&upd.marketplace_content).unwrap();
    assert_eq!(mp.plugins.len(), 1);
    assert_eq!(mp.plugins[0].name, "demo");
    assert_eq!(mp.plugins[0].source, "plugins/demo");
    assert_eq!(mp.plugins[0].description.as_deref(), Some("D"));
    assert_eq!(out.marketplace_path, "/repo/.plugin-meta/marketplace.json");
}

#[test]
fn precommit_with_no_manifests_is_a_no_op() {
    let out = precommit_flow("/repo", &Vec::new(), None, false);
    assert!(out.error.is_none());
    assert!(out.processed.is_empty());
    assert!(out.updates.is_empty());
}

#[test]
fn precommit_reports_a_missing_manifest() {
    let inputs = vec![ManifestInput {
        given_path: "plugins/gone/.plugin-meta/plugin.json".to_string(),
        content: None,
        presence: all_present(),
    }];
    let out = precommit_flow("/repo", &inputs, None, true);
    assert!(matches!(
        out.error,
        Some(PrecommitError::NotFound(ref p)) if p == "/repo/plugins/gone/.plugin-meta/plugin.json"
    ));
    assert!(out.processed.is_empty());
}

#[test]
fn precommit_stops_at_the_first_bad_manifest() {
    let good = encode_manifest(&demo_manifest());
    let inputs = vec![
        ManifestInput {
            given_path: "plugins/demo/.plugin-meta/plugin.json".to_string(),
            content: Some(good),
            presence: all_present(),
        },
        ManifestInput {
            given_path: "plugins/bad/.plugin-meta/plugin.json".to_string(),
            content: Some("{}".to_string()),
            presence: all_present(),
        },
    ];
    let out = precommit_flow("/repo", &inputs, None, true);
    assert_eq!(out.processed.len(), 1);
    assert_eq!(out.updates.len(), 1);
    assert!(!out.updates[0].stage);
    assert!(matches!(
        out.error,
        Some(PrecommitError::Validate(ValidateError::MalformedManifest))
    ));
}

#[test]
fn staged_paths_are_trimmed_and_deduplicated() {
    let out = parse_staged_paths("plugins/a/p.json\r\nplugins/b/p.json\nplugins/a/p.json\n\n   \n  plugins/c/p.json  \n");
    assert_eq!(out, vec![
        "plugins/a/p.json".to_string(),
        "plugins/b/p.json".to_string(),
        "plugins/c/p.json".to_string(),
    ]);
    assert!(parse_staged_paths("").is_empty());
}

#[test]
fn stage_arguments_are_made_relative() {
    let paths = vec![
        "/repo/plugins/demo/.plugin-meta/plugin.json".to_string(),
        "/repo/.plugin-meta/marketplace.json".to_string(),
    ];
    let args = stage_args(&paths, "/repo");
    assert_eq!(args, vec![
        "plugins/demo/.plugin-meta/plugin.json".to_string(),
        ".plugin-meta/marketplace.json".to_string(),
    ]);
}

#[test]
fn path_join_inserts_a_single_separator() {
    assert_eq!(path_join("/repo", "plugins"), "/repo/plugins");
    assert_eq!(path_join("/repo/", "plugins"), "/repo/plugins");
    assert_eq!(path_join("", "plugins"), "plugins");
}
