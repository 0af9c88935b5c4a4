use forall_mcp_author::mapping::schema::{
    summarize_verification, validate_mapping, CodeRef, IssueSeverity, Mapping, PropertyRef,
    Requirement,
};

fn requirement(id: &str, verified: bool, property_tested: bool) -> Requirement {
    Requirement {
        id: id.to_string(),
        capability: "math".to_string(),
        requirement: "clamp returns a value within the requested bounds".to_string(),
        verified,
        property_tested,
        property: None,
        code: Some(CodeRef {
            file: "src/clamp.ts".to_string(),
            symbols: vec!["clamp".to_string()],
        }),
        contract: Some("requires bounds; ensures bounded result".to_string()),
        claimcheck: None,
        scenarios: None,
    }
}

fn mapping(requirements: Vec<Requirement>) -> Mapping {
    Mapping { version: 1, requirements }
}

#[test]
fn severity_names_are_upper_case() {
    assert_eq!(IssueSeverity::Critical.as_str(), "CRITICAL");
    assert_eq!(IssueSeverity::Warning.as_str(), "WARNING");
    assert_eq!(IssueSeverity::Info.as_str(), "INFO");
}

#[test]
fn severity_names_are_distinct() {
    let all = [IssueSeverity::Critical, IssueSeverity::Warning, IssueSeverity::Info];
    for a in all {
        for b in all {
            assert_eq!(a == b, a.as_str() == b.as_str());
        }
    }
}

#[test]
fn summary_counts_each_tier() {
    let reqs = vec![
        requirement("a", true, false),
        requirement("b", false, true),
        requirement("c", false, false),
        requirement("d", true, false),
        requirement("e", false, false),
    ];
    let summary = summarize_verification(&reqs);
    assert_eq!(summary.total_requirements, 5);
    assert_eq!(summary.proved_requirements, 2);
    assert_eq!(summary.property_tested_requirements, 1);
    assert_eq!(summary.spec_tracked_requirements, 2);
}

#[test]
fn summary_of_no_requirements_is_zero() {
    let summary = summarize_verification(&[]);
    assert_eq!(summary.total_requirements, 0);
    assert_eq!(summary.proved_requirements, 0);
    assert_eq!(summary.property_tested_requirements, 0);
    assert_eq!(summary.spec_tracked_requirements, 0);
}

#[test]
fn summary_counts_a_double_claim_twice() {
    let reqs = vec![requirement("a", true, true), requirement("b", false, false)];
    let summary = summarize_verification(&reqs);
    assert_eq!(summary.total_requirements, 2);
    assert_eq!(summary.proved_requirements, 1);
    assert_eq!(summary.property_tested_requirements, 1);
    assert_eq!(summary.spec_tracked_requirements, 1);
}

#[test]
fn valid_mapping_tiers_add_up_to_total() {
    let m = mapping(vec![
        requirement("a", true, false),
        requirement("b", false, true),
        requirement("c", false, false),
    ]);
    assert_eq!(validate_mapping(&m), Ok(()));
    let summary = summarize_verification(&m.requirements);
    assert_eq!(
        summary.proved_requirements
            + summary.property_tested_requirements
            + summary.spec_tracked_requirements,
        summary.total_requirements
    );
}

#[test]
fn empty_mapping_is_valid() {
    assert_eq!(validate_mapping(&mapping(vec![])), Ok(()));
}

#[test]
fn wrong_version_is_rejected_with_the_version() {
    let mut m = mapping(vec![]);
    m.version = 2;
    assert_eq!(
        validate_mapping(&m),
        Err("mapping version must be 1, got 2".to_string())
    );
    m.version = 0;
    assert_eq!(
        validate_mapping(&m),
        Err("mapping version must be 1, got 0".to_string())
    );
    m.version = 4294967295;
    assert_eq!(
        validate_mapping(&m),
        Err("mapping version must be 1, got 4294967295".to_string())
    );
}

#[test]
fn version_is_checked_before_requirements() {
    let m = Mapping { version: 3, requirements: vec![requirement("", false, false)] };
    assert_eq!(
        validate_mapping(&m),
        Err("mapping version must be 1, got 3".to_string())
    );
}

#[test]
fn empty_id_is_rejected() {
    let m = mapping(vec![requirement("", false, false)]);
    assert_eq!(
        validate_mapping(&m),
        Err("requirement id must not be empty".to_string())
    );
}

#[test]
fn empty_capability_is_rejected() {
    let mut r = requirement("a", false, false);
    r.capability = String::new();
    assert_eq!(
        validate_mapping(&mapping(vec![r])),
        Err("requirement capability must not be empty".to_string())
    );
}

#[test]
fn empty_requirement_text_is_rejected() {
    let mut r = requirement("a", false, false);
    r.requirement = String::new();
    assert_eq!(
        validate_mapping(&mapping(vec![r])),
        Err("requirement text must not be empty".to_string())
    );
}

#[test]
fn both_tiers_are_rejected() {
    let m = mapping(vec![requirement("clamp-bounds", true, true)]);
    assert_eq!(
        validate_mapping(&m),
        Err("requirement 'clamp-bounds' cannot set both verified and property_tested (v1: mutually exclusive)".to_string())
    );
}

#[test]
fn empty_property_file_is_rejected_only_when_property_tested() {
    let mut r = requirement("pbt", false, true);
    r.property = Some(PropertyRef { file: String::new(), symbol: None });
    assert_eq!(
        validate_mapping(&mapping(vec![r.clone()])),
        Err("requirement 'pbt' property.file must not be empty".to_string())
    );
    r.property_tested = false;
    assert_eq!(validate_mapping(&mapping(vec![r])), Ok(()));
}

#[test]
fn empty_code_file_is_rejected() {
    let mut r = requirement("a", false, false);
    r.code = Some(CodeRef { file: String::new(), symbols: vec!["clamp".to_string()] });
    assert_eq!(
        validate_mapping(&mapping(vec![r])),
        Err("code.file must not be empty".to_string())
    );
}

#[test]
fn empty_code_symbols_are_rejected() {
    let mut r = requirement("a", false, false);
    r.code = Some(CodeRef { file: "src/clamp.ts".to_string(), symbols: vec![] });
    assert_eq!(
        validate_mapping(&mapping(vec![r])),
        Err("code.symbols must not be empty".to_string())
    );
}

#[test]
fn missing_code_is_accepted() {
    let mut r = requirement("a", false, false);
    r.code = None;
    assert_eq!(validate_mapping(&mapping(vec![r])), Ok(()));
}

#[test]
fn first_offending_requirement_is_reported() {
    let mut second = requirement("second", false, false);
    second.capability = String::new();
    let third = requirement("third", true, true);
    let m = mapping(vec![requirement("first", true, false), second, third]);
    assert_eq!(
        validate_mapping(&m),
        Err("requirement capability must not be empty".to_string())
    );
}

#[test]
fn id_rule_comes_before_other_rules() {
    let mut r = requirement("", true, true);
    r.capability = String::new();
    assert_eq!(
        validate_mapping(&mapping(vec![r])),
        Err("requirement id must not be empty".to_string())
    );
}
