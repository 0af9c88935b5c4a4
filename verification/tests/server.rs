use forall_mcp_author::config::client_config;
use forall_mcp_author::expected::ExpectedHashes;
use forall_mcp_author::server::{
    discover_target, requirement_from_input, scaffold_contracts_operation,
    scaffold_property_operation, tool_catalog, tool_kind, upsert_operation, ApplyMode,
    CodeRefInput, ContractInput, DiscoverRequest, DiscoverTarget, LanguageInput,
    RequirementInput, ScaffoldContractsRequest, ScaffoldPropertyRequest, ToolKind,
    UpsertRequirementsRequest,
};

fn entries(hashes: ExpectedHashes) -> Vec<(String, String)> {
    let mut pairs = hashes.into_entries();
    pairs.sort();
    pairs
}

fn clamp_input() -> RequirementInput {
    RequirementInput {
        id: "clamp-bounds".to_string(),
        capability: "math".to_string(),
        requirement: "Clamp stays within the requested bounds".to_string(),
        verified: false,
        property_tested: false,
        code: Some(CodeRefInput {
            file: "src/clamp.ts".to_string(),
            symbols: vec!["clamp".to_string()],
        }),
        contract: Some("requires true".to_string()),
    }
}

#[test]
fn exposes_only_workspace_authoring_tools() {
    let names = tool_catalog()
        .iter()
        .map(|tool| tool.name())
        .collect::<Vec<_>>();
    assert_eq!(
        names,
        vec![
            "forall_author_status",
            "forall_author_init",
            "forall_author_discover",
            "forall_author_upsert_requirements",
            "forall_author_scaffold_contracts",
            "forall_author_validate",
            "forall_author_scaffold_property",
        ]
    );
}

#[test]
fn tool_descriptions_match_the_catalogue() {
    assert_eq!(ToolKind::Status.description(), "Inspect the local Forall project.");
    assert_eq!(
        ToolKind::Discover.description(),
        "Discover candidate TypeScript, Rust, and Java symbols without writing files."
    );
    assert_eq!(
        ToolKind::Validate.description(),
        "Validate local mapping, paths, and mapped symbols without running verification."
    );
}

#[test]
fn every_tool_is_found_by_its_name() {
    for tool in tool_catalog() {
        assert_eq!(tool_kind(tool.name()), Ok(tool));
    }
}

#[test]
fn unknown_tool_is_refused() {
    assert_eq!(
        tool_kind("forall_author_delete"),
        Err("unknown tool: forall_author_delete".to_string())
    );
    assert_eq!(tool_kind(""), Err("unknown tool: ".to_string()));
}

#[test]
fn requirement_input_becomes_a_mapping_entry() {
    let req = requirement_from_input(clamp_input());
    assert_eq!(req.id, "clamp-bounds");
    assert_eq!(req.capability, "math");
    assert_eq!(req.requirement, "Clamp stays within the requested bounds");
    assert!(!req.verified);
    assert!(!req.property_tested);
    assert!(req.property.is_none());
    let code = req.code.expect("code");
    assert_eq!(code.file, "src/clamp.ts");
    assert_eq!(code.symbols, vec!["clamp".to_string()]);
    assert_eq!(req.contract, Some("requires true".to_string()));
    assert!(req.claimcheck.is_none());
    assert!(req.scenarios.is_none());
}

#[test]
fn upsert_expects_the_mapping_hash_when_given() {
    let op = upsert_operation(UpsertRequirementsRequest {
        mode: ApplyMode::Apply,
        expected_mapping_sha256: Some("abc".to_string()),
        requirements: vec![clamp_input()],
    });
    assert_eq!(op.mode, ApplyMode::Apply);
    assert_eq!(op.requirements.len(), 1);
    assert_eq!(op.requirements[0].id, "clamp-bounds");
    assert_eq!(
        entries(op.expected_sha256),
        vec![(".forall/verify/mapping.yaml".to_string(), "abc".to_string())]
    );
}

#[test]
fn upsert_expects_nothing_without_a_hash() {
    let op = upsert_operation(UpsertRequirementsRequest {
        mode: ApplyMode::Preview,
        expected_mapping_sha256: None,
        requirements: vec![],
    });
    assert_eq!(op.mode, ApplyMode::Preview);
    assert!(op.requirements.is_empty());
    assert!(entries(op.expected_sha256).is_empty());
}

fn contract(file: &str, hash: Option<&str>) -> ContractInput {
    ContractInput {
        file: file.to_string(),
        symbol: "clamp".to_string(),
        requires: vec!["true".to_string()],
        ensures: vec!["result == x".to_string()],
        expected_sha256: hash.map(str::to_string),
    }
}

#[test]
fn contracts_expect_the_last_hash_given_per_file() {
    let op = scaffold_contracts_operation(ScaffoldContractsRequest {
        mode: ApplyMode::Apply,
        contracts: vec![
            contract("src/a.ts", Some("h1")),
            contract("src/b.ts", None),
            contract("src/a.ts", Some("h2")),
            contract("src/c.ts", Some("h3")),
        ],
    });
    assert_eq!(op.contracts.len(), 4);
    assert_eq!(op.contracts[1].file, "src/b.ts");
    assert_eq!(op.contracts[0].requires, vec!["true".to_string()]);
    assert_eq!(op.contracts[0].ensures, vec!["result == x".to_string()]);
    assert_eq!(
        entries(op.expected_sha256),
        vec![
            ("src/a.ts".to_string(), "h2".to_string()),
            ("src/c.ts".to_string(), "h3".to_string()),
        ]
    );
}

#[test]
fn property_expects_its_test_file_and_the_mapping() {
    let op = scaffold_property_operation(ScaffoldPropertyRequest {
        mode: ApplyMode::Apply,
        requirement_id: "clamp-bounds".to_string(),
        body: "export const clampBounds = () => true;\n".to_string(),
        symbol: Some("clampBounds".to_string()),
        expected_sha256: Some("p".to_string()),
        expected_mapping_sha256: Some("m".to_string()),
    });
    assert_eq!(op.requirement_id, "clamp-bounds");
    assert_eq!(op.symbol, Some("clampBounds".to_string()));
    assert_eq!(
        entries(op.expected_sha256),
        vec![
            (".forall/scenarios/clamp-bounds.property.ts".to_string(), "p".to_string()),
            (".forall/verify/mapping.yaml".to_string(), "m".to_string()),
        ]
    );
}

#[test]
fn expected_hashes_keep_one_hash_per_path() {
    let mut hashes = ExpectedHashes::new();
    hashes.insert("x".to_string(), "1".to_string());
    hashes.insert("y".to_string(), "2".to_string());
    hashes.insert("x".to_string(), "3".to_string());
    assert_eq!(
        entries(hashes),
        vec![("x".to_string(), "3".to_string()), ("y".to_string(), "2".to_string())]
    );
}

#[test]
fn discovery_without_files_searches_the_project() {
    match discover_target(DiscoverRequest {
        files: vec![],
        languages: vec![LanguageInput::TypeScript],
    }) {
        DiscoverTarget::Project(languages) => assert_eq!(languages, vec![LanguageInput::TypeScript]),
        DiscoverTarget::Files(_) => panic!("expected project discovery"),
    }
}

#[test]
fn discovery_with_files_searches_those_files() {
    match discover_target(DiscoverRequest {
        files: vec!["../outside.ts".to_string()],
        languages: vec![LanguageInput::Rust],
    }) {
        DiscoverTarget::Files(files) => assert_eq!(files, vec!["../outside.ts".to_string()]),
        DiscoverTarget::Project(_) => panic!("expected file discovery"),
    }
}

#[test]
fn client_config_binds_the_canonical_workspace() {
    let config = client_config("/workspace/project");
    assert_eq!(config.server_name, "forall-author");
    assert_eq!(config.command, "forall");
    assert_eq!(
        config.args,
        vec!["mcp-author".to_string(), "--root".to_string(), "/workspace/project".to_string()]
    );
}
