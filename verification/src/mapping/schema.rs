use vstd::prelude::*;

verus! {

/// A pointer from a requirement to the source symbols that implement it.
#[derive(Debug, Clone)]
pub struct CodeRef {
    pub file: String,
    pub symbols: Vec<String>,
}

/// A named scenario attached to a requirement.
#[derive(Debug, Clone)]
pub struct ScenarioRef {
    pub name: String,
    pub kind: Option<ScenarioKind>,
}

/// How a scenario is exercised.
#[derive(Debug, Clone, Copy, PartialEq, Eq, Structural)]
pub enum ScenarioKind {
    Formal,
    Test,
    Manual,
}

/// A pointer from a requirement to the property test that covers it.
#[derive(Debug, Clone)]
pub struct PropertyRef {
    pub file: String,
    pub symbol: Option<String>,
}

/// One entry of a requirement mapping.
#[derive(Debug, Clone)]
pub struct Requirement {
    pub id: String,
    pub capability: String,
    pub requirement: String,
    pub verified: bool,
    pub property_tested: bool,
    pub property: Option<PropertyRef>,
    pub code: Option<CodeRef>,
    pub contract: Option<String>,
    pub claimcheck: Option<bool>,
    pub scenarios: Option<Vec<ScenarioRef>>,
}

/// A requirement mapping: the requirements of a project and the code that
/// satisfies them.
#[derive(Debug, Clone)]
pub struct Mapping {
    pub version: u32,
    pub requirements: Vec<Requirement>,
}

/// How severe an issue found by verification is.
#[derive(Debug, Clone, Copy, PartialEq, Eq, Structural)]
pub enum IssueSeverity {
    Critical,
    Warning,
    Info,
}

/// The upper-case name under which a severity is written in reports.
pub open spec fn severity_name(severity: IssueSeverity) -> Seq<char> {
    match severity {
        IssueSeverity::Critical => "CRITICAL"@,
        IssueSeverity::Warning => "WARNING"@,
        IssueSeverity::Info => "INFO"@,
    }
}

impl IssueSeverity {
    pub fn as_str(&self) -> (name: &'static str)
        ensures
            name@ == severity_name(*self),
    {
        match self {
            IssueSeverity::Critical => "CRITICAL",
            IssueSeverity::Warning => "WARNING",
            IssueSeverity::Info => "INFO",
        }
    }
}

/// The outcome of one phase of a verification run.
#[derive(Debug, Clone, Copy, PartialEq, Eq, Structural)]
pub enum PhaseStatus {
    Pass,
    Fail,
    Skip,
}

/// What a property-based test run reported about itself.
#[derive(Debug, Clone)]
pub struct PbtRunMeta {
    pub seed: u64,
    pub examples_run: u32,
}

/// `serde_json::Value`, a JSON document of any shape; it is only carried
/// through this library, never inspected.
#[verifier::external_type_specification]
#[verifier::external_body]
pub struct ExJsonValue(serde_json::Value);

/// One issue found by a verification run.
#[derive(Debug, Clone)]
pub struct VerifyIssue {
    pub severity: IssueSeverity,
    pub phase: String,
    pub requirement_id: Option<String>,
    pub message: String,
    pub file: Option<String>,
    pub counterexample: Option<serde_json::Value>,
    pub pbt: Option<PbtRunMeta>,
    pub proof_detail: Option<String>,
}

/// How many requirements of a mapping sit in each verification tier.
#[derive(Debug, Clone)]
pub struct VerificationSummary {
    pub total_requirements: usize,
    pub proved_requirements: usize,
    pub property_tested_requirements: usize,
    pub spec_tracked_requirements: usize,
}

/// The report of a verification run.
#[derive(Debug, Clone)]
pub struct VerifyReport {
    pub ok: bool,
    pub strict: bool,
    pub root: String,
    pub change: Option<String>,
    pub phases: std::collections::BTreeMap<String, PhaseStatus>,
    pub issues: Vec<VerifyIssue>,
    pub verified_files: Vec<String>,
    pub verification_summary: VerificationSummary,
}

// ---------------------------------------------------------------------------
// Verification tiers

/// Requirements that must be formally proved.
pub open spec fn proved_count(reqs: Seq<Requirement>) -> nat {
    reqs.filter(|r: Requirement| r.verified).len()
}

/// Requirements that must be covered by a property test.
pub open spec fn property_tested_count(reqs: Seq<Requirement>) -> nat {
    reqs.filter(|r: Requirement| r.property_tested).len()
}

/// Requirements that are only tracked: neither proved nor property tested.
pub open spec fn spec_tracked_count(reqs: Seq<Requirement>) -> nat {
    reqs.filter(|r: Requirement| !r.verified && !r.property_tested).len()
}

/// Requirements that claim both tiers at once.
pub open spec fn doubly_claimed_count(reqs: Seq<Requirement>) -> nat {
    reqs.filter(|r: Requirement| r.verified && r.property_tested).len()
}

/// Appending a requirement to a list raises the proved count exactly when
/// it is verified, the property-tested count exactly when it is property
/// tested, the spec-tracked count exactly when it is neither, and the
/// doubly-claimed count exactly when it is both.
pub proof fn lemma_tier_counts_step(s: Seq<Requirement>)
    requires
        s.len() > 0,
    ensures
        proved_count(s) == proved_count(s.drop_last()) + if s.last().verified { 1int } else { 0 },
        property_tested_count(s) == property_tested_count(s.drop_last()) + if s.last().property_tested { 1int } else { 0 },
        spec_tracked_count(s) == spec_tracked_count(s.drop_last()) + if !s.last().verified && !s.last().property_tested { 1int } else { 0 },
        doubly_claimed_count(s) == doubly_claimed_count(s.drop_last()) + if s.last().verified && s.last().property_tested { 1int } else { 0 },
{
    reveal(Seq::filter);
}

pub fn summarize_verification(requirements: &[Requirement]) -> (summary: VerificationSummary)
    ensures
        summary.total_requirements == requirements@.len(),
        summary.proved_requirements == proved_count(requirements@),
        summary.property_tested_requirements == property_tested_count(requirements@),
        summary.spec_tracked_requirements == spec_tracked_count(requirements@),
{
    let n = requirements.len();
    let mut proved: usize = 0;
    let mut property_tested: usize = 0;
    let mut spec_tracked: usize = 0;
    let mut i: usize = 0;
    assert(requirements@.take(0) =~= Seq::<Requirement>::empty());
    proof {
        reveal(Seq::filter);
    }
    while i < n
        invariant
            n == requirements@.len(),
            i <= n,
            proved == proved_count(requirements@.take(i as int)),
            property_tested == property_tested_count(requirements@.take(i as int)),
            spec_tracked == spec_tracked_count(requirements@.take(i as int)),
            proved <= i,
            property_tested <= i,
            spec_tracked <= i,
        decreases n - i,
    {
        let ghost before = requirements@.take(i as int);
        let ghost after = requirements@.take(i + 1);
        assert(after.drop_last() =~= before);
        assert(after.last() == requirements@[i as int]);
        proof {
            lemma_tier_counts_step(after);
        }
        let req = &requirements[i];
        if req.verified {
            proved = proved + 1;
        }
        if req.property_tested {
            property_tested = property_tested + 1;
        }
        if !req.verified && !req.property_tested {
            spec_tracked = spec_tracked + 1;
        }
        i = i + 1;
    }
    assert(requirements@.take(n as int) =~= requirements@);
    VerificationSummary {
        total_requirements: n,
        proved_requirements: proved,
        property_tested_requirements: property_tested,
        spec_tracked_requirements: spec_tracked,
    }
}

// ---------------------------------------------------------------------------
// Validation

/// The character of a decimal digit.
pub open spec fn digit_char(d: nat) -> char {
    (d + 48) as char
}

/// The decimal numeral of a natural number, without leading zeros.
pub open spec fn decimal(n: nat) -> Seq<char>
    decreases n,
{
    if n < 10 {
        seq![digit_char(n)]
    } else {
        decimal(n / 10).push(digit_char(n % 10))
    }
}

fn digit_str(d: u32) -> (digit: &'static str)
    requires
        d < 10,
    ensures
        digit@ == seq![digit_char(d as nat)],
{
    proof {
        reveal_strlit("0");
        reveal_strlit("1");
        reveal_strlit("2");
        reveal_strlit("3");
        reveal_strlit("4");
        reveal_strlit("5");
        reveal_strlit("6");
        reveal_strlit("7");
        reveal_strlit("8");
        reveal_strlit("9");
    }
    if d == 0 {
        "0"
    } else if d == 1 {
        "1"
    } else if d == 2 {
        "2"
    } else if d == 3 {
        "3"
    } else if d == 4 {
        "4"
    } else if d == 5 {
        "5"
    } else if d == 6 {
        "6"
    } else if d == 7 {
        "7"
    } else if d == 8 {
        "8"
    } else {
        "9"
    }
}

fn push_decimal(text: &mut String, n: u32)
    ensures
        final(text)@ == old(text)@ + decimal(n as nat),
    decreases n,
{
    if n >= 10 {
        push_decimal(text, n / 10);
    }
    text.append(digit_str(n % 10));
    proof {
        if n >= 10 {
            assert(decimal(n as nat) == decimal((n / 10) as nat).push(digit_char((n % 10) as nat)));
        }
    }
}

/// The first rule of a mapping that a requirement breaks, as the message
/// that reports it; `None` when the requirement breaks none.
pub open spec fn requirement_problem(req: Requirement) -> Option<Seq<char>> {
    if req.id@.len() == 0 {
        Some("requirement id must not be empty"@)
    } else if req.capability@.len() == 0 {
        Some("requirement capability must not be empty"@)
    } else if req.requirement@.len() == 0 {
        Some("requirement text must not be empty"@)
    } else if req.verified && req.property_tested {
        Some(
            "requirement '"@ + req.id@
                + "' cannot set both verified and property_tested (v1: mutually exclusive)"@,
        )
    } else if req.property_tested && req.property is Some && req.property->0.file@.len() == 0 {
        Some("requirement '"@ + req.id@ + "' property.file must not be empty"@)
    } else if req.code is Some && req.code->0.file@.len() == 0 {
        Some("code.file must not be empty"@)
    } else if req.code is Some && req.code->0.symbols@.len() == 0 {
        Some("code.symbols must not be empty"@)
    } else {
        None
    }
}

/// The problem of the first requirement, in order, that has one.
pub open spec fn first_problem(reqs: Seq<Requirement>) -> Option<Seq<char>>
    decreases reqs.len(),
{
    if reqs.len() == 0 {
        None
    } else if requirement_problem(reqs[0]) is Some {
        requirement_problem(reqs[0])
    } else {
        first_problem(reqs.drop_first())
    }
}

/// Why a mapping is not valid, as the message that reports it; `None` when
/// it is valid.
pub open spec fn mapping_problem(mapping: Mapping) -> Option<Seq<char>> {
    if mapping.version != 1 {
        Some("mapping version must be 1, got "@ + decimal(mapping.version as nat))
    } else {
        first_problem(mapping.requirements@)
    }
}

fn requirement_check(req: &Requirement) -> (problem: Option<String>)
    ensures
        match problem {
            Some(message) => requirement_problem(*req) == Some(message@),
            None => requirement_problem(*req) is None,
        },
{
    if req.id.as_str().is_empty() {
        return Some(String::from_str("requirement id must not be empty"));
    }
    if req.capability.as_str().is_empty() {
        return Some(String::from_str("requirement capability must not be empty"));
    }
    if req.requirement.as_str().is_empty() {
        return Some(String::from_str("requirement text must not be empty"));
    }
    if req.verified && req.property_tested {
        let message = String::from_str("requirement '").concat(req.id.as_str()).concat(
            "' cannot set both verified and property_tested (v1: mutually exclusive)",
        );
        return Some(message);
    }
    if req.property_tested {
        if let Some(prop) = &req.property {
            if prop.file.as_str().is_empty() {
                let message = String::from_str("requirement '").concat(req.id.as_str()).concat(
                    "' property.file must not be empty",
                );
                return Some(message);
            }
        }
    }
    if let Some(code) = &req.code {
        if code.file.as_str().is_empty() {
            return Some(String::from_str("code.file must not be empty"));
        }
        if code.symbols.is_empty() {
            return Some(String::from_str("code.symbols must not be empty"));
        }
    }
    None
}

pub fn validate_mapping(mapping: &Mapping) -> (result: Result<(), String>)
    ensures
        match result {
            Ok(()) => mapping_problem(*mapping) is None,
            Err(message) => mapping_problem(*mapping) == Some(message@),
        },
{
    if mapping.version != 1 {
        let mut message = String::from_str("mapping version must be 1, got ");
        push_decimal(&mut message, mapping.version);
        return Err(message);
    }
    let reqs = &mapping.requirements;
    let n = reqs.len();
    let mut i: usize = 0;
    assert(reqs@.subrange(0, n as int) =~= reqs@);
    while i < n
        invariant
            n == reqs@.len(),
            i <= n,
            mapping.version == 1,
            reqs@ == mapping.requirements@,
            first_problem(reqs@) == first_problem(reqs@.subrange(i as int, n as int)),
        decreases n - i,
    {
        let ghost rest = reqs@.subrange(i as int, n as int);
        assert(rest[0] == reqs@[i as int]);
        assert(rest.drop_first() =~= reqs@.subrange(i + 1, n as int));
        if let Some(message) = requirement_check(&reqs[i]) {
            return Err(message);
        }
        i = i + 1;
    }
    Ok(())
}

// ---------------------------------------------------------------------------
// Laws

/// The rules a single requirement of a valid mapping obeys, stated directly.
pub open spec fn requirement_well_formed(req: Requirement) -> bool {
    &&& req.id@.len() > 0
    &&& req.capability@.len() > 0
    &&& req.requirement@.len() > 0
    &&& !(req.verified && req.property_tested)
    &&& (req.property_tested && req.property is Some) ==> req.property->0.file@.len() > 0
    &&& req.code is Some ==> req.code->0.file@.len() > 0 && req.code->0.symbols@.len() > 0
}

proof fn lemma_first_problem_none(reqs: Seq<Requirement>)
    ensures
        first_problem(reqs) is None <==> forall|i: int|
            0 <= i < reqs.len() ==> #[trigger] requirement_problem(reqs[i]) is None,
    decreases reqs.len(),
{
    if reqs.len() > 0 {
        lemma_first_problem_none(reqs.drop_first());
        if first_problem(reqs) is None {
            assert forall|i: int| 0 <= i < reqs.len() implies #[trigger] requirement_problem(
                reqs[i],
            ) is None by {
                if i > 0 {
                    assert(reqs[i] == reqs.drop_first()[i - 1]);
                }
            }
        } else if requirement_problem(reqs[0]) is None {
            let j = choose|j: int|
                0 <= j < reqs.drop_first().len() && #[trigger] requirement_problem(
                    reqs.drop_first()[j],
                ) is Some;
            assert(reqs.drop_first()[j] == reqs[j + 1]);
        }
    }
}

proof fn lemma_first_problem_is_first(reqs: Seq<Requirement>)
    requires
        first_problem(reqs) is Some,
    ensures
        exists|i: int|
            0 <= i < reqs.len() && requirement_problem(reqs[i]) == first_problem(reqs) && (
            forall|j: int| 0 <= j < i ==> #[trigger] requirement_problem(reqs[j]) is None),
    decreases reqs.len(),
{
    if requirement_problem(reqs[0]) is Some {
        assert(requirement_problem(reqs[0]) == first_problem(reqs));
    } else {
        let rest = reqs.drop_first();
        lemma_first_problem_is_first(rest);
        let i = choose|i: int|
            0 <= i < rest.len() && requirement_problem(rest[i]) == first_problem(rest) && (
            forall|j: int| 0 <= j < i ==> #[trigger] requirement_problem(rest[j]) is None);
        assert(requirement_problem(reqs[i + 1]) == first_problem(reqs));
        assert forall|j: int| 0 <= j < i + 1 implies #[trigger] requirement_problem(reqs[j]) is None by {
            if j > 0 {
                assert(reqs[j] == rest[j - 1]);
            }
        }
    }
}

/// A mapping is valid exactly when its version is 1 and every requirement is
/// well formed; when a version-1 mapping is invalid, the problem reported is
/// that of the first requirement, in order, that is not well formed.
pub proof fn lemma_mapping_validity(mapping: Mapping)
    ensures
        mapping_problem(mapping) is None <==> (mapping.version == 1 && forall|i: int|
            0 <= i < mapping.requirements@.len() ==> #[trigger] requirement_well_formed(
                mapping.requirements@[i],
            )),
        mapping.version == 1 && mapping_problem(mapping) is Some ==> exists|i: int|
            0 <= i < mapping.requirements@.len() && !requirement_well_formed(
                mapping.requirements@[i],
            ) && requirement_problem(mapping.requirements@[i]) == mapping_problem(mapping) && (
            forall|j: int|
                0 <= j < i ==> #[trigger] requirement_well_formed(mapping.requirements@[j])),
{
    let reqs = mapping.requirements@;
    lemma_first_problem_none(reqs);
    if forall|i: int| 0 <= i < reqs.len() ==> #[trigger] requirement_well_formed(reqs[i]) {
        assert forall|i: int| 0 <= i < reqs.len() implies #[trigger] requirement_problem(
            reqs[i],
        ) is None by {
            assert(requirement_well_formed(reqs[i]));
        }
    }
    if mapping_problem(mapping) is None {
        assert forall|i: int| 0 <= i < reqs.len() implies #[trigger] requirement_well_formed(
            reqs[i],
        ) by {
            assert(requirement_problem(reqs[i]) is None);
        }
    }
    if mapping.version == 1 && mapping_problem(mapping) is Some {
        lemma_first_problem_is_first(reqs);
        let i = choose|i: int|
            0 <= i < reqs.len() && requirement_problem(reqs[i]) == first_problem(reqs) && (
            forall|j: int| 0 <= j < i ==> #[trigger] requirement_problem(reqs[j]) is None);
        assert forall|j: int| 0 <= j < i implies #[trigger] requirement_well_formed(reqs[j]) by {
            assert(requirement_problem(reqs[j]) is None);
        }
    }
}

/// Every requirement is in exactly one tier, except that one which claims
/// both proof and property testing is counted in both.
pub proof fn lemma_tier_counts_cover(reqs: Seq<Requirement>)
    ensures
        proved_count(reqs) + property_tested_count(reqs) + spec_tracked_count(reqs) == reqs.len()
            + doubly_claimed_count(reqs),
    decreases reqs.len(),
{
    if reqs.len() == 0 {
        reveal(Seq::filter);
    } else {
        lemma_tier_counts_cover(reqs.drop_last());
        lemma_tier_counts_step(reqs);
    }
}

proof fn lemma_no_double_claims(reqs: Seq<Requirement>)
    requires
        forall|i: int| 0 <= i < reqs.len() ==> !(#[trigger] reqs[i].verified && reqs[i].property_tested),
    ensures
        doubly_claimed_count(reqs) == 0,
    decreases reqs.len(),
{
    if reqs.len() == 0 {
        reveal(Seq::filter);
    } else {
        assert forall|i: int| 0 <= i < reqs.drop_last().len() implies !(
        #[trigger] reqs.drop_last()[i].verified && reqs.drop_last()[i].property_tested) by {
            assert(reqs.drop_last()[i] == reqs[i]);
        }
        lemma_no_double_claims(reqs.drop_last());
        lemma_tier_counts_step(reqs);
    }
}

/// In a valid mapping the tiers partition the requirements: the proved,
/// property-tested and spec-tracked counts of its summary add up to the
/// total.
pub proof fn lemma_valid_mapping_tiers_partition(mapping: Mapping)
    requires
        mapping_problem(mapping) is None,
    ensures
        proved_count(mapping.requirements@) + property_tested_count(mapping.requirements@)
            + spec_tracked_count(mapping.requirements@) == mapping.requirements@.len(),
{
    let reqs = mapping.requirements@;
    lemma_mapping_validity(mapping);
    assert forall|i: int| 0 <= i < reqs.len() implies !(#[trigger] reqs[i].verified
        && reqs[i].property_tested) by {
        assert(requirement_well_formed(reqs[i]));
    }
    lemma_no_double_claims(reqs);
    lemma_tier_counts_cover(reqs);
}

/// Distinct severities are written under distinct names.
pub proof fn lemma_severity_names_distinct(a: IssueSeverity, b: IssueSeverity)
    requires
        a != b,
    ensures
        severity_name(a) != severity_name(b),
{
    reveal_strlit("CRITICAL");
    reveal_strlit("WARNING");
    reveal_strlit("INFO");
    assert(severity_name(a).len() != severity_name(b).len());
}

/// The names of the severities, each as written in reports.
pub proof fn lemma_severity_names()
    ensures
        severity_name(IssueSeverity::Critical) == "CRITICAL"@,
        severity_name(IssueSeverity::Warning) == "WARNING"@,
        severity_name(IssueSeverity::Info) == "INFO"@,
{
}

/// The number a string of decimal digits denotes.
pub open spec fn numeral_value(digits: Seq<char>) -> int
    decreases digits.len(),
{
    if digits.len() == 0 {
        0
    } else {
        numeral_value(digits.drop_last()) * 10 + (digits.last() as int - 48)
    }
}

/// The decimal numeral of a number consists of digits, has no leading zero
/// unless it is `0` itself, and denotes that number.
pub proof fn lemma_decimal_denotes(n: nat)
    ensures
        decimal(n).len() > 0,
        forall|i: int| 0 <= i < decimal(n).len() ==> '0' <= #[trigger] decimal(n)[i] <= '9',
        decimal(n)[0] == '0' ==> n == 0,
        numeral_value(decimal(n)) == n,
    decreases n,
{
    if n >= 10 {
        lemma_decimal_denotes(n / 10);
        let d = decimal(n);
        let front = decimal(n / 10);
        assert(d.drop_last() =~= front);
        assert forall|i: int| 0 <= i < d.len() implies '0' <= #[trigger] d[i] <= '9' by {
            if i < front.len() {
                assert(d[i] == front[i]);
            }
        }
        assert(d[0] == front[0]);
        assert(d.last() == digit_char((n % 10) as nat));
        assert(digit_char((n % 10) as nat) as int == n % 10 + 48);
        assert(numeral_value(d) == numeral_value(front) * 10 + (d.last() as int - 48));
        assert((n / 10) * 10 + n % 10 == n);
    } else {
        let d = decimal(n);
        assert(d.drop_last() =~= Seq::<char>::empty());
        assert(numeral_value(d.drop_last()) == 0);
        assert(d.last() as int == n + 48);
    }
}

/// The rules a requirement is checked against, in order, each with the
/// message that reports it.
pub proof fn lemma_requirement_rules(req: Requirement)
    ensures
        req.id@.len() == 0 ==> requirement_problem(req) == Some(
            "requirement id must not be empty"@,
        ),
        req.id@.len() > 0 && req.capability@.len() == 0 ==> requirement_problem(req) == Some(
            "requirement capability must not be empty"@,
        ),
        req.id@.len() > 0 && req.capability@.len() > 0 && req.requirement@.len() == 0
            ==> requirement_problem(req) == Some("requirement text must not be empty"@),
        req.id@.len() > 0 && req.capability@.len() > 0 && req.requirement@.len() > 0
            && req.verified && req.property_tested ==> requirement_problem(req) == Some(
            "requirement '"@ + req.id@
                + "' cannot set both verified and property_tested (v1: mutually exclusive)"@,
        ),
        req.id@.len() > 0 && req.capability@.len() > 0 && req.requirement@.len() > 0
            && !req.verified && req.property_tested && req.property is Some
            && req.property->0.file@.len() == 0 ==> requirement_problem(req) == Some(
            "requirement '"@ + req.id@ + "' property.file must not be empty"@,
        ),
        req.id@.len() > 0 && req.capability@.len() > 0 && req.requirement@.len() > 0 && !(
        req.verified && req.property_tested) && !(req.property_tested && req.property is Some
            && req.property->0.file@.len() == 0) && req.code is Some && req.code->0.file@.len()
            == 0 ==> requirement_problem(req) == Some("code.file must not be empty"@),
        req.id@.len() > 0 && req.capability@.len() > 0 && req.requirement@.len() > 0 && !(
        req.verified && req.property_tested) && !(req.property_tested && req.property is Some
            && req.property->0.file@.len() == 0) && req.code is Some && req.code->0.file@.len()
            > 0 && req.code->0.symbols@.len() == 0 ==> requirement_problem(req) == Some(
            "code.symbols must not be empty"@,
        ),
        requirement_well_formed(req) <==> requirement_problem(req) is None,
        requirement_problem(req) is None && req.code is Some ==> req.code->0.file@.len() > 0
            && req.code->0.symbols@.len() > 0,
{
}

/// A mapping of any version but 1 is refused with a message that names its
/// version in decimal, whatever its requirements.
pub proof fn lemma_version_rule(mapping: Mapping)
    ensures
        mapping.version != 1 ==> mapping_problem(mapping) == Some(
            "mapping version must be 1, got "@ + decimal(mapping.version as nat),
        ),
        mapping.version == 1 ==> mapping_problem(mapping) == first_problem(mapping.requirements@),
{
}

} // verus!
