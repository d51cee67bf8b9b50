use sha2::Digest;
use sikaru::authoring::{
    dev_turn_key, draft_display_name, draft_slug, package_digest_ok, safe_file, safe_relative, source_kind, validate_name, AuthoringError, Package,
    Packager, SourceKind,
};

fn package(name: &str, sources: &[(&str, &str, Vec<u8>)]) -> Result<Package, AuthoringError> {
    let mut packager = Packager::new(name, sources.len())?;
    for (path, kind, bytes) in sources {
        let kind = packager.check_source(path, kind)?;
        packager.add(path, kind, bytes.clone())?;
    }
    packager.finish()
}

fn definition(p: &Package) -> serde_json::Value {
    serde_json::from_slice(&p.definition).unwrap()
}

const INSTRUCTIONS: &[u8] = b"Help the user complete their task. Ask for missing information when needed.\n";

#[test]
fn source_manifest_excludes_unlisted_private_files_and_is_stable() {
    let sources = [("instructions.md", "agent_md", INSTRUCTIONS.to_vec())];
    let first = package("demo", &sources).unwrap();
    let text = String::from_utf8(first.definition.clone()).unwrap();
    assert!(!text.contains("PRIVATE"));
    assert!(!text.contains("SECRET"));
    let again = package("demo", &sources).unwrap();
    assert_eq!(first.definition, again.definition);
    assert_eq!(first.content_digest, again.content_digest);
    assert_eq!(first.name, "demo");
    assert_eq!(first.content_digest, format!("sha256:{:x}", sha2::Sha256::digest(&first.definition)));
    let value = definition(&first);
    assert_eq!(value["schema"], "sikaru.agent.contract.v1");
    assert_eq!(value["sources"][0]["path"], "instructions.md");
    assert_eq!(value["sources"][0]["kind"], "agent_md");
    assert_eq!(value["sources"][0]["content"], std::str::from_utf8(INSTRUCTIONS).unwrap());
}

#[test]
fn rejects_traversal_unknown_kinds_and_empty_instructions() {
    for path in ["../instructions.md", "skills/../../secret.md", "/instructions.md"] {
        assert!(package("demo", &[(path, "agent_skill", b"x".to_vec())]).is_err(), "{path}");
    }
    assert!(matches!(
        package("demo", &[("skills/../../secret.md", "agent_skill", b"x".to_vec())]),
        Err(AuthoringError::Traversal)
    ));
    assert!(matches!(
        package("demo", &[("instructions.md", "agent_md", b"  ".to_vec())]),
        Err(AuthoringError::NoInstructions)
    ));
    assert!(matches!(
        package("demo", &[("instructions.md", "prompt", b"x".to_vec())]),
        Err(AuthoringError::Unsupported)
    ));
}

#[test]
fn assets_require_parent_skill_and_preserve_bytes() {
    let mut sources = vec![
        ("instructions.md", "agent_md", INSTRUCTIONS.to_vec()),
        ("skills/demo/assets/data.bin", "skill_asset", vec![0, 255, 1]),
    ];
    assert!(matches!(package("demo", &sources), Err(AuthoringError::MissingSkill)));
    sources.push((
        "skills/demo/SKILL.md",
        "agent_skill",
        b"---\nname: demo\ndescription: Customer skill\n---\nUse the data asset.".to_vec(),
    ));
    let p = package("demo", &sources).unwrap();
    let value = definition(&p);
    let asset = value["sources"]
        .as_array()
        .unwrap()
        .iter()
        .find(|s| s["kind"] == "skill_asset")
        .unwrap();
    assert_eq!(asset["content"], "AP8B");
    assert_eq!(asset["encoding"], "base64");
}

#[test]
fn rejects_oversized_sources() {
    let mut packager = Packager::new("demo", 1).unwrap();
    let kind = packager.check_source("instructions.md", "agent_md").unwrap();
    assert!(matches!(packager.add("instructions.md", kind, vec![b'a'; 1_000_001]), Err(AuthoringError::SourceTooLarge)));
}

#[test]
fn the_definition_orders_sources_by_path_whatever_the_listing() {
    let a = [
        ("instructions.md", "agent_md", INSTRUCTIONS.to_vec()),
        ("evals/basic.md", "eval_md", b"check".to_vec()),
        ("agents/helper/instructions.md", "agent_md", b"help".to_vec()),
    ];
    let b = [a[2].clone(), a[0].clone(), a[1].clone()];
    let first = package("demo", &a).unwrap();
    let second = package("demo", &b).unwrap();
    assert_eq!(first.definition, second.definition);
    let paths: Vec<&str> = first.sources.iter().map(|s| s.path.as_str()).collect();
    assert_eq!(paths, vec!["agents/helper/instructions.md", "evals/basic.md", "instructions.md"]);
}

#[test]
fn named_agents_need_their_instructions_and_valid_names() {
    let orphan = [
        ("instructions.md", "agent_md", INSTRUCTIONS.to_vec()),
        ("agents/helper/skills/s/SKILL.md", "agent_skill", b"s".to_vec()),
    ];
    assert!(matches!(package("demo", &orphan), Err(AuthoringError::MissingAgentInstructions)));
    assert_eq!(source_kind("agents/-bad/instructions.md", "agent_md"), Err(AuthoringError::InvalidNamedAgent));
    assert_eq!(source_kind("agents/helper", "agent_md"), Err(AuthoringError::InvalidNamedAgent));
    assert_eq!(source_kind("agents/helper/AGENTS.md", "agent_md"), Err(AuthoringError::Unsupported));
    assert_eq!(source_kind("AGENTS.md", "agent_md"), Ok(SourceKind::AgentMd));
    assert_eq!(source_kind("agents/helper/evals/x.md", "eval_md"), Err(AuthoringError::Unsupported));
    assert_eq!(source_kind("skills/s/scripts/run.sh", "skill_asset"), Ok(SourceKind::SkillAsset));
    assert_eq!(source_kind("skills/s/bin/run.sh", "skill_asset"), Err(AuthoringError::Unsupported));
    let duplicate = [
        ("instructions.md", "agent_md", INSTRUCTIONS.to_vec()),
        ("instructions.md", "agent_md", INSTRUCTIONS.to_vec()),
    ];
    assert!(matches!(package("demo", &duplicate), Err(AuthoringError::Unsupported)));
}

#[test]
fn agent_names_and_source_texts_are_checked() {
    assert!(validate_name("my-agent").is_ok());
    assert!(validate_name("0day").is_ok());
    assert_eq!(validate_name("-agent"), Err(AuthoringError::InvalidName));
    assert_eq!(validate_name("Agent"), Err(AuthoringError::InvalidName));
    assert_eq!(validate_name(""), Err(AuthoringError::InvalidName));
    assert_eq!(validate_name(&"a".repeat(65)), Err(AuthoringError::InvalidName));
    assert!(matches!(Packager::new("demo", 0), Err(AuthoringError::SourceCount)));
    assert!(matches!(Packager::new("demo", 101), Err(AuthoringError::SourceCount)));
    assert_eq!(safe_file(b"ok".to_vec()).unwrap(), "ok");
    let expected = String::from_utf8(vec![0xc3]).unwrap_err().to_string();
    assert_eq!(safe_file(vec![0xc3]), Err(AuthoringError::NotUtf8(expected.clone())));
    assert_eq!(expected, "incomplete utf-8 byte sequence from index 0");
    let bad = safe_file(b"ok\xffmore".to_vec()).unwrap_err();
    assert_eq!(bad.message(), "invalid utf-8 sequence of 1 bytes from index 2");
    assert_eq!(safe_file(b"a\0b".to_vec()), Err(AuthoringError::NulByte));
    assert!(safe_relative("skills/a/SKILL.md"));
    assert!(!safe_relative("a//b") && !safe_relative("./a") && !safe_relative("a\\b") && !safe_relative(""));
}

#[test]
fn draft_slugs_carry_the_first_twelve_digest_digits() {
    let p = package("demo", &[("instructions.md", "agent_md", INSTRUCTIONS.to_vec())]).unwrap();
    let slug = draft_slug("demo", &p.content_digest);
    assert_eq!(slug, format!("demo-draft-{}", &p.content_digest[7..19]));
}

#[test]
fn dev_dry_run_never_contacts_the_server() {
    // A freshly initialized source directory previews as an inactive draft whose
    // slug is derived from the package alone; nothing here takes a connection.
    let p = package("demo", &[("instructions.md", "agent_md", INSTRUCTIONS.to_vec())]).unwrap();
    let slug = draft_slug(&p.name, &p.content_digest);
    assert_eq!(slug, format!("demo-draft-{}", &p.content_digest[7..19]));
    assert_eq!(slug.len(), "demo-draft-".len() + 12);
}

#[test]
fn a_package_holds_at_most_a_hundred_sources() {
    let mut p = Packager::new("demo", 1).unwrap();
    for i in 0..100 {
        let path = format!("evals/case{i}.md");
        assert!(p.add(&path, SourceKind::EvalMd, b"check".to_vec()).is_ok(), "{path}");
    }
    assert_eq!(p.add("evals/extra.md", SourceKind::EvalMd, b"x".to_vec()), Err(AuthoringError::SourceCount));
    assert_eq!(p.sources.len(), 100);
}

#[test]
fn package_digests_are_recognised() {
    let p = package("demo", &[("instructions.md", "agent_md", INSTRUCTIONS.to_vec())]).unwrap();
    assert!(package_digest_ok(&p.content_digest));
    assert!(!package_digest_ok("sha256:abc"));
    assert!(!package_digest_ok(&p.content_digest.replace("sha256:", "sha512:")));
    assert!(!package_digest_ok(&p.content_digest.to_uppercase()));
}

#[test]
fn definitions_escape_text_and_encode_assets_as_stated() {
    let text = "Say \"hi\"\\\n\t\u{1}\u{7f}é\n".as_bytes().to_vec();
    let p = package(
        "demo",
        &[
            ("instructions.md", "agent_md", text),
            ("skills/a/SKILL.md", "agent_skill", b"skill".to_vec()),
            ("skills/a/assets/one.bin", "skill_asset", b"M".to_vec()),
            ("skills/a/assets/two.bin", "skill_asset", b"Ma".to_vec()),
            ("skills/a/assets/three.bin", "skill_asset", b"Man".to_vec()),
        ],
    )
    .unwrap();
    let json = String::from_utf8(p.definition.clone()).unwrap();
    assert!(json.contains(r#""content":"Say \"hi\"\\\n\t\u0001"#), "{json}");
    assert!(json.contains("\u{7f}é\\n\""));
    assert!(json.contains(r#"{"content":"TQ==","encoding":"base64""#));
    assert!(json.contains(r#"{"content":"TWE=","encoding":"base64""#));
    assert!(json.contains(r#"{"content":"TWFu","encoding":"base64""#));
}

#[test]
fn draft_requests_name_the_draft_and_key_the_turn_by_session() {
    assert_eq!(draft_display_name("demo"), "demo (draft)");
    assert_eq!(dev_turn_key("sess_1"), "dev-sess_1");
}
