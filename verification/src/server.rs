use vstd::prelude::*;

use crate::expected::ExpectedHashes;
use crate::mapping::schema::{requirement_well_formed, CodeRef, Requirement};

verus! {

// ---------------------------------------------------------------------------
// Requests of the authoring tools

/// Whether a mutating tool only previews its changes or applies them.
#[derive(Debug, Clone, Copy, PartialEq, Eq, Structural)]
pub enum ApplyMode {
    Preview,
    Apply,
}

/// The request of a tool that takes no arguments.
#[derive(Debug)]
pub struct EmptyRequest {}

/// The request of the tool that initializes the project layout.
#[derive(Debug)]
pub struct InitRequest {
    pub mode: ApplyMode,
}

/// The request of the tool that discovers candidate symbols.
#[derive(Debug)]
pub struct DiscoverRequest {
    pub files: Vec<String>,
    pub languages: Vec<LanguageInput>,
}

/// A source language that symbols can be discovered in.
#[derive(Debug, Clone, Copy, PartialEq, Eq, Structural)]
pub enum LanguageInput {
    TypeScript,
    Rust,
    Java,
}

/// A caller-supplied pointer to the symbols that implement a requirement.
#[derive(Debug, Clone)]
pub struct CodeRefInput {
    pub file: String,
    pub symbols: Vec<String>,
}

/// A caller-supplied requirement.
#[derive(Debug, Clone)]
pub struct RequirementInput {
    pub id: String,
    pub capability: String,
    pub requirement: String,
    pub verified: bool,
    pub property_tested: bool,
    pub code: Option<CodeRefInput>,
    pub contract: Option<String>,
}

/// The request of the tool that merges requirements into the mapping.
#[derive(Debug)]
pub struct UpsertRequirementsRequest {
    pub mode: ApplyMode,
    pub expected_mapping_sha256: Option<String>,
    pub requirements: Vec<RequirementInput>,
}

/// A caller-supplied contract for one symbol of one file.
#[derive(Debug, Clone)]
pub struct ContractInput {
    pub file: String,
    pub symbol: String,
    pub requires: Vec<String>,
    pub ensures: Vec<String>,
    pub expected_sha256: Option<String>,
}

/// The request of the tool that inserts contracts at mapped symbols.
#[derive(Debug)]
pub struct ScaffoldContractsRequest {
    pub mode: ApplyMode,
    pub contracts: Vec<ContractInput>,
}

/// The request of the tool that creates a property test for a requirement.
#[derive(Debug)]
pub struct ScaffoldPropertyRequest {
    pub mode: ApplyMode,
    pub requirement_id: String,
    pub body: String,
    pub symbol: Option<String>,
    pub expected_sha256: Option<String>,
    pub expected_mapping_sha256: Option<String>,
}

// ---------------------------------------------------------------------------
// The tool catalogue

/// The authoring tools that the service exposes.
#[derive(Debug, Clone, Copy, PartialEq, Eq, Structural)]
pub enum ToolKind {
    Status,
    Init,
    Discover,
    UpsertRequirements,
    ScaffoldContracts,
    Validate,
    ScaffoldProperty,
}

/// The name under which a tool is exposed.
pub open spec fn tool_name(kind: ToolKind) -> Seq<char> {
    match kind {
        ToolKind::Status => "forall_author_status"@,
        ToolKind::Init => "forall_author_init"@,
        ToolKind::Discover => "forall_author_discover"@,
        ToolKind::UpsertRequirements => "forall_author_upsert_requirements"@,
        ToolKind::ScaffoldContracts => "forall_author_scaffold_contracts"@,
        ToolKind::Validate => "forall_author_validate"@,
        ToolKind::ScaffoldProperty => "forall_author_scaffold_property"@,
    }
}

/// The description a tool is exposed with.
pub open spec fn tool_description(kind: ToolKind) -> Seq<char> {
    match kind {
        ToolKind::Status => "Inspect the local Forall project."@,
        ToolKind::Init => "Preview or initialize the local Forall project layout."@,
        ToolKind::Discover =>
            "Discover candidate TypeScript, Rust, and Java symbols without writing files."@,
        ToolKind::UpsertRequirements =>
            "Preview or merge explicit requirements into the project mapping."@,
        ToolKind::ScaffoldContracts =>
            "Preview or insert caller-supplied Forall contracts at mapped symbols."@,
        ToolKind::Validate =>
            "Validate local mapping, paths, and mapped symbols without running verification."@,
        ToolKind::ScaffoldProperty =>
            "Preview or create a caller-supplied property test and mapping link."@,
    }
}

/// The tools in the order in which they are listed.
pub open spec fn tool_order() -> Seq<ToolKind> {
    seq![
        ToolKind::Status,
        ToolKind::Init,
        ToolKind::Discover,
        ToolKind::UpsertRequirements,
        ToolKind::ScaffoldContracts,
        ToolKind::Validate,
        ToolKind::ScaffoldProperty,
    ]
}

/// The tool exposed under a name, if any.
pub open spec fn tool_named(name: Seq<char>) -> Option<ToolKind> {
    if name == tool_name(ToolKind::Status) {
        Some(ToolKind::Status)
    } else if name == tool_name(ToolKind::Init) {
        Some(ToolKind::Init)
    } else if name == tool_name(ToolKind::Discover) {
        Some(ToolKind::Discover)
    } else if name == tool_name(ToolKind::UpsertRequirements) {
        Some(ToolKind::UpsertRequirements)
    } else if name == tool_name(ToolKind::ScaffoldContracts) {
        Some(ToolKind::ScaffoldContracts)
    } else if name == tool_name(ToolKind::Validate) {
        Some(ToolKind::Validate)
    } else if name == tool_name(ToolKind::ScaffoldProperty) {
        Some(ToolKind::ScaffoldProperty)
    } else {
        None
    }
}

impl ToolKind {
    pub fn name(&self) -> (name: &'static str)
        ensures
            name@ == tool_name(*self),
    {
        match self {
            ToolKind::Status => "forall_author_status",
            ToolKind::Init => "forall_author_init",
            ToolKind::Discover => "forall_author_discover",
            ToolKind::UpsertRequirements => "forall_author_upsert_requirements",
            ToolKind::ScaffoldContracts => "forall_author_scaffold_contracts",
            ToolKind::Validate => "forall_author_validate",
            ToolKind::ScaffoldProperty => "forall_author_scaffold_property",
        }
    }

    pub fn description(&self) -> (description: &'static str)
        ensures
            description@ == tool_description(*self),
    {
        match self {
            ToolKind::Status => "Inspect the local Forall project.",
            ToolKind::Init => "Preview or initialize the local Forall project layout.",
            ToolKind::Discover =>
                "Discover candidate TypeScript, Rust, and Java symbols without writing files.",
            ToolKind::UpsertRequirements =>
                "Preview or merge explicit requirements into the project mapping.",
            ToolKind::ScaffoldContracts =>
                "Preview or insert caller-supplied Forall contracts at mapped symbols.",
            ToolKind::Validate =>
                "Validate local mapping, paths, and mapped symbols without running verification.",
            ToolKind::ScaffoldProperty =>
                "Preview or create a caller-supplied property test and mapping link.",
        }
    }
}

/// The tools the service exposes, in the order in which they are listed.
pub fn tool_catalog() -> (tools: Vec<ToolKind>)
    ensures
        tools@ == tool_order(),
{
    let tools = vec![
        ToolKind::Status,
        ToolKind::Init,
        ToolKind::Discover,
        ToolKind::UpsertRequirements,
        ToolKind::ScaffoldContracts,
        ToolKind::Validate,
        ToolKind::ScaffoldProperty,
    ];
    assert(tools@ =~= tool_order());
    tools
}

/// The tool that a call names; a call naming no tool is refused with the
/// message `unknown tool: <name>`.
pub fn tool_kind(name: &str) -> (kind: Result<ToolKind, String>)
    ensures
        match kind {
            Ok(k) => tool_named(name@) == Some(k),
            Err(message) => tool_named(name@) is None && message@ == "unknown tool: "@ + name@,
        },
        match kind {
            Ok(k) => name@ == tool_name(k),
            Err(_) => forall|k: ToolKind| name@ != #[trigger] tool_name(k),
        },
{
    let requested = String::from_str(name);
    let tools = tool_catalog();
    let n = tools.len();
    let mut i: usize = 0;
    while i < n
        invariant
            tools@ == tool_order(),
            n == 7,
            i <= n,
            requested@ == name@,
            forall|j: int| 0 <= j < i ==> requested@ != #[trigger] tool_name(tool_order()[j]),
        decreases n - i,
    {
        let candidate = String::from_str(tools[i].name());
        if requested == candidate {
            return Ok(tools[i]);
        }
        i = i + 1;
    }
    assert forall|k: ToolKind| name@ != #[trigger] tool_name(k) by {
        lemma_catalog_lists_each_tool_once(k);
    }
    Err(String::from_str("unknown tool: ").concat(name))
}

/// A tool is found again under its own name: the names of distinct tools
/// differ.
pub proof fn lemma_tool_named_by_its_name(kind: ToolKind)
    ensures
        tool_named(tool_name(kind)) == Some(kind),
{
    reveal_strlit("forall_author_status");
    reveal_strlit("forall_author_init");
    reveal_strlit("forall_author_discover");
    reveal_strlit("forall_author_upsert_requirements");
    reveal_strlit("forall_author_scaffold_contracts");
    reveal_strlit("forall_author_validate");
    reveal_strlit("forall_author_scaffold_property");
    let names = seq![
        tool_name(ToolKind::Status),
        tool_name(ToolKind::Init),
        tool_name(ToolKind::Discover),
        tool_name(ToolKind::UpsertRequirements),
        tool_name(ToolKind::ScaffoldContracts),
        tool_name(ToolKind::Validate),
        tool_name(ToolKind::ScaffoldProperty),
    ];
    assert(names[0].len() == 20 && names[1].len() == 18 && names[2].len() == 22);
    assert(names[3].len() == 33 && names[4].len() == 32 && names[5].len() == 22);
    assert(names[6].len() == 31);
    assert(names[2][14] == 'd' && names[5][14] == 'v');
}

/// Every tool is listed, and listed once, in the order status, init,
/// discover, upsert requirements, scaffold contracts, validate, scaffold
/// property.
pub proof fn lemma_catalog_lists_each_tool_once(kind: ToolKind)
    ensures
        tool_order().len() == 7,
        tool_order()[0] == ToolKind::Status,
        tool_order()[1] == ToolKind::Init,
        tool_order()[2] == ToolKind::Discover,
        tool_order()[3] == ToolKind::UpsertRequirements,
        tool_order()[4] == ToolKind::ScaffoldContracts,
        tool_order()[5] == ToolKind::Validate,
        tool_order()[6] == ToolKind::ScaffoldProperty,
        tool_order().contains(kind),
        forall|i: int, j: int|
            0 <= i < tool_order().len() && 0 <= j < tool_order().len() && i != j ==> tool_order()[i]
                != tool_order()[j],
{
    let order = tool_order();
    match kind {
        ToolKind::Status => assert(order[0] == kind),
        ToolKind::Init => assert(order[1] == kind),
        ToolKind::Discover => assert(order[2] == kind),
        ToolKind::UpsertRequirements => assert(order[3] == kind),
        ToolKind::ScaffoldContracts => assert(order[4] == kind),
        ToolKind::Validate => assert(order[5] == kind),
        ToolKind::ScaffoldProperty => assert(order[6] == kind),
    }
}

// ---------------------------------------------------------------------------
// Translating requests into authoring operations

/// The mapping entry for a caller-supplied requirement: its fields carried
/// over, with no property test, claim check or scenarios.
pub open spec fn requirement_of(input: RequirementInput) -> Requirement {
    Requirement {
        id: input.id,
        capability: input.capability,
        requirement: input.requirement,
        verified: input.verified,
        property_tested: input.property_tested,
        property: None,
        code: match input.code {
            Some(code) => Some(CodeRef { file: code.file, symbols: code.symbols }),
            None => None,
        },
        contract: input.contract,
        claimcheck: None,
        scenarios: None,
    }
}

/// A caller-supplied requirement becomes a well-formed mapping entry exactly
/// when its id, capability and text are non-empty, it does not claim both
/// tiers, and any code it points to names a file and at least one symbol;
/// the property-test rule never applies, since no property is carried over.
pub proof fn lemma_input_requirement_well_formed(input: RequirementInput)
    ensures
        requirement_well_formed(requirement_of(input)) <==> {
            &&& input.id@.len() > 0
            &&& input.capability@.len() > 0
            &&& input.requirement@.len() > 0
            &&& !(input.verified && input.property_tested)
            &&& input.code is Some ==> input.code->0.file@.len() > 0
                && input.code->0.symbols@.len() > 0
        },
{
}

pub fn requirement_from_input(input: RequirementInput) -> (req: Requirement)
    ensures
        req == requirement_of(input),
        req.id == input.id,
        req.capability == input.capability,
        req.requirement == input.requirement,
        req.verified == input.verified,
        req.property_tested == input.property_tested,
        req.property is None,
        match input.code {
            Some(c) => req.code is Some && req.code->0.file == c.file && req.code->0.symbols
                == c.symbols,
            None => req.code is None,
        },
        req.contract == input.contract,
        req.claimcheck is None,
        req.scenarios is None,
{
    let code = match input.code {
        Some(code) => Some(CodeRef { file: code.file, symbols: code.symbols }),
        None => None,
    };
    Requirement {
        id: input.id,
        capability: input.capability,
        requirement: input.requirement,
        verified: input.verified,
        property_tested: input.property_tested,
        property: None,
        code,
        contract: input.contract,
        claimcheck: None,
        scenarios: None,
    }
}

/// The path of the requirement mapping of a project.
pub open spec fn mapping_path() -> Seq<char> {
    ".forall/verify/mapping.yaml"@
}

/// The path of the property test of a requirement.
pub open spec fn property_test_path(requirement_id: Seq<char>) -> Seq<char> {
    ".forall/scenarios/"@ + requirement_id + ".property.ts"@
}

/// The expectations that a single optional hash for one path gives.
pub open spec fn expect_optional(
    before: Map<Seq<char>, Seq<char>>,
    path: Seq<char>,
    hash: Option<String>,
) -> Map<Seq<char>, Seq<char>> {
    match hash {
        Some(h) => before.insert(path, h@),
        None => before,
    }
}

/// Merging requirements into the mapping: what to merge, how, and the hash
/// the mapping must have first.
pub struct UpsertOperation {
    pub requirements: Vec<Requirement>,
    pub mode: ApplyMode,
    pub expected_sha256: ExpectedHashes,
}

pub fn upsert_operation(request: UpsertRequirementsRequest) -> (op: UpsertOperation)
    ensures
        op.mode == request.mode,
        op.requirements@.len() == request.requirements@.len(),
        forall|i: int|
            0 <= i < request.requirements@.len() ==> #[trigger] op.requirements@[i]
                == requirement_of(request.requirements@[i]),
        op.expected_sha256@ == expect_optional(
            Map::empty(),
            mapping_path(),
            request.expected_mapping_sha256,
        ),
        forall|i: int|
            0 <= i < request.requirements@.len() ==> {
                &&& #[trigger] op.requirements@[i].id == request.requirements@[i].id
                &&& op.requirements@[i].capability == request.requirements@[i].capability
                &&& op.requirements@[i].requirement == request.requirements@[i].requirement
                &&& op.requirements@[i].verified == request.requirements@[i].verified
                &&& op.requirements@[i].property_tested == request.requirements@[i].property_tested
                &&& op.requirements@[i].contract == request.requirements@[i].contract
            },
        match request.expected_mapping_sha256 {
            Some(h) => op.expected_sha256@ == Map::<Seq<char>, Seq<char>>::empty().insert(
                ".forall/verify/mapping.yaml"@,
                h@,
            ),
            None => op.expected_sha256@ == Map::<Seq<char>, Seq<char>>::empty(),
        },
{
    let mut expected = ExpectedHashes::new();
    if let Some(hash) = request.expected_mapping_sha256 {
        expected.insert(String::from_str(".forall/verify/mapping.yaml"), hash);
    }
    let ghost inputs = request.requirements@;
    let mut requirements: Vec<Requirement> = Vec::new();
    for input in it: request.requirements.into_iter()
        invariant
            it.seq() == inputs,
            requirements@.len() == it.index(),
            forall|i: int|
                0 <= i < it.index() ==> #[trigger] requirements@[i] == requirement_of(inputs[i]),
    {
        requirements.push(requirement_from_input(input));
    }
    UpsertOperation { requirements, mode: request.mode, expected_sha256: expected }
}

/// A contract to insert at a symbol of a file.
#[derive(Debug, Clone)]
pub struct ContractTarget {
    pub file: String,
    pub symbol: String,
    pub requires: Vec<String>,
    pub ensures: Vec<String>,
}

/// The contract target that a caller-supplied contract names.
pub open spec fn target_of(input: ContractInput) -> ContractTarget {
    ContractTarget {
        file: input.file,
        symbol: input.symbol,
        requires: input.requires,
        ensures: input.ensures,
    }
}

/// The hashes that a list of caller-supplied contracts expects of their
/// files: for a file named more than once, the last hash given for it.
pub open spec fn contract_hashes(inputs: Seq<ContractInput>) -> Map<Seq<char>, Seq<char>>
    decreases inputs.len(),
{
    if inputs.len() == 0 {
        Map::empty()
    } else {
        expect_optional(
            contract_hashes(inputs.drop_last()),
            inputs.last().file@,
            inputs.last().expected_sha256,
        )
    }
}

/// Inserting contracts: where, how, and the hashes the files must have first.
pub struct ContractsOperation {
    pub contracts: Vec<ContractTarget>,
    pub mode: ApplyMode,
    pub expected_sha256: ExpectedHashes,
}

pub fn scaffold_contracts_operation(request: ScaffoldContractsRequest) -> (op: ContractsOperation)
    ensures
        op.mode == request.mode,
        op.contracts@.len() == request.contracts@.len(),
        forall|i: int|
            0 <= i < request.contracts@.len() ==> #[trigger] op.contracts@[i] == target_of(
                request.contracts@[i],
            ),
        op.expected_sha256@ == contract_hashes(request.contracts@),
        forall|i: int|
            0 <= i < request.contracts@.len() ==> {
                &&& #[trigger] op.contracts@[i].file == request.contracts@[i].file
                &&& op.contracts@[i].symbol == request.contracts@[i].symbol
                &&& op.contracts@[i].requires == request.contracts@[i].requires
                &&& op.contracts@[i].ensures == request.contracts@[i].ensures
            },
        forall|path: Seq<char>|
            #[trigger] op.expected_sha256@.dom().contains(path) <==> exists|i: int|
                0 <= i < request.contracts@.len() && request.contracts@[i].file@ == path
                    && #[trigger] request.contracts@[i].expected_sha256 is Some,
        forall|i: int|
            #![trigger request.contracts@[i]]
            0 <= i < request.contracts@.len() && request.contracts@[i].expected_sha256 is Some && (
            forall|j: int|
                i < j < request.contracts@.len() && request.contracts@[j].file@
                    == request.contracts@[i].file@ ==> #[trigger] request.contracts@[j].expected_sha256
                    is None) ==> op.expected_sha256@[request.contracts@[i].file@]
                == request.contracts@[i].expected_sha256->0@,
{
    let mut expected = ExpectedHashes::new();
    let ghost inputs = request.contracts@;
    let mut contracts: Vec<ContractTarget> = Vec::new();
    for input in it: request.contracts.into_iter()
        invariant
            it.seq() == inputs,
            contracts@.len() == it.index(),
            forall|i: int|
                0 <= i < it.index() ==> #[trigger] contracts@[i] == target_of(inputs[i]),
            expected@ == contract_hashes(inputs.take(it.index() as int)),
    {
        let ghost k = it.index() as int;
        proof {
            assert(inputs.take(k + 1).drop_last() =~= inputs.take(k));
            assert(inputs.take(k + 1).last() == inputs[k]);
        }
        if let Some(hash) = input.expected_sha256 {
            expected.insert(input.file.clone(), hash);
        }
        contracts.push(
            ContractTarget {
                file: input.file,
                symbol: input.symbol,
                requires: input.requires,
                ensures: input.ensures,
            },
        );
    }
    assert(inputs.take(inputs.len() as int) =~= inputs);
    proof {
        lemma_contract_hashes(inputs);
    }
    ContractsOperation { contracts, mode: request.mode, expected_sha256: expected }
}

/// Creating a property test: for which requirement, with what body, how,
/// and the hashes the test file and the mapping must have first.
pub struct PropertyOperation {
    pub requirement_id: String,
    pub body: String,
    pub symbol: Option<String>,
    pub mode: ApplyMode,
    pub expected_sha256: ExpectedHashes,
}

pub fn scaffold_property_operation(request: ScaffoldPropertyRequest) -> (op: PropertyOperation)
    ensures
        op.requirement_id == request.requirement_id,
        op.body == request.body,
        op.symbol == request.symbol,
        op.mode == request.mode,
        op.expected_sha256@ == expect_optional(
            expect_optional(
                Map::empty(),
                property_test_path(request.requirement_id@),
                request.expected_sha256,
            ),
            mapping_path(),
            request.expected_mapping_sha256,
        ),
        request.expected_sha256 matches Some(h) ==> op.expected_sha256@.dom().contains(
            ".forall/scenarios/"@ + request.requirement_id@ + ".property.ts"@,
        ) && op.expected_sha256@[".forall/scenarios/"@ + request.requirement_id@
            + ".property.ts"@] == h@,
        request.expected_mapping_sha256 matches Some(m) ==> op.expected_sha256@.dom().contains(
            ".forall/verify/mapping.yaml"@,
        ) && op.expected_sha256@[".forall/verify/mapping.yaml"@] == m@,
        forall|path: Seq<char>|
            #[trigger] op.expected_sha256@.dom().contains(path) <==> ((path == ".forall/scenarios/"@
                + request.requirement_id@ + ".property.ts"@ && request.expected_sha256 is Some) || (
            path == ".forall/verify/mapping.yaml"@ && request.expected_mapping_sha256 is Some)),
{
    proof {
        lemma_property_and_mapping_paths_differ(request.requirement_id@);
    }
    let mut expected = ExpectedHashes::new();
    if let Some(hash) = request.expected_sha256 {
        let path = String::from_str(".forall/scenarios/").concat(
            request.requirement_id.as_str(),
        ).concat(".property.ts");
        expected.insert(path, hash);
    }
    if let Some(hash) = request.expected_mapping_sha256 {
        expected.insert(String::from_str(".forall/verify/mapping.yaml"), hash);
    }
    PropertyOperation {
        requirement_id: request.requirement_id,
        body: request.body,
        symbol: request.symbol,
        mode: request.mode,
        expected_sha256: expected,
    }
}

/// What a discovery request asks to be searched.
#[derive(Debug)]
pub enum DiscoverTarget {
    /// The whole project, in the given languages.
    Project(Vec<LanguageInput>),
    /// Exactly the given files.
    Files(Vec<String>),
}

/// A request that names no files searches the whole project in its
/// languages; one that names files searches exactly those.
pub fn discover_target(request: DiscoverRequest) -> (target: DiscoverTarget)
    ensures
        request.files@.len() == 0 ==> target == DiscoverTarget::Project(request.languages),
        request.files@.len() > 0 ==> target == DiscoverTarget::Files(request.files),
{
    if request.files.is_empty() {
        DiscoverTarget::Project(request.languages)
    } else {
        DiscoverTarget::Files(request.files)
    }
}

// ---------------------------------------------------------------------------
// Laws of the catalogue and of request translation

/// Each tool is listed under its own name and with its own description.
pub proof fn lemma_tool_names_and_descriptions()
    ensures
        tool_name(ToolKind::Status) == "forall_author_status"@,
        tool_name(ToolKind::Init) == "forall_author_init"@,
        tool_name(ToolKind::Discover) == "forall_author_discover"@,
        tool_name(ToolKind::UpsertRequirements) == "forall_author_upsert_requirements"@,
        tool_name(ToolKind::ScaffoldContracts) == "forall_author_scaffold_contracts"@,
        tool_name(ToolKind::Validate) == "forall_author_validate"@,
        tool_name(ToolKind::ScaffoldProperty) == "forall_author_scaffold_property"@,
        tool_description(ToolKind::Status) == "Inspect the local Forall project."@,
        tool_description(ToolKind::Init)
            == "Preview or initialize the local Forall project layout."@,
        tool_description(ToolKind::Discover)
            == "Discover candidate TypeScript, Rust, and Java symbols without writing files."@,
        tool_description(ToolKind::UpsertRequirements)
            == "Preview or merge explicit requirements into the project mapping."@,
        tool_description(ToolKind::ScaffoldContracts)
            == "Preview or insert caller-supplied Forall contracts at mapped symbols."@,
        tool_description(ToolKind::Validate)
            == "Validate local mapping, paths, and mapped symbols without running verification."@,
        tool_description(ToolKind::ScaffoldProperty)
            == "Preview or create a caller-supplied property test and mapping link."@,
{
}

/// A name designates a tool only when it is exactly that tool's name; every
/// other name designates none.
pub proof fn lemma_tool_named_exactly(name: Seq<char>)
    ensures
        tool_named(name) matches Some(k) ==> name == tool_name(k),
        tool_named(name) is None <==> forall|k: ToolKind| name != #[trigger] tool_name(k),
{
    if tool_named(name) is None {
        assert forall|k: ToolKind| name != #[trigger] tool_name(k) by {
            match k {
                ToolKind::Status => {},
                ToolKind::Init => {},
                ToolKind::Discover => {},
                ToolKind::UpsertRequirements => {},
                ToolKind::ScaffoldContracts => {},
                ToolKind::Validate => {},
                ToolKind::ScaffoldProperty => {},
            }
        }
    } else {
        let k = tool_named(name)->0;
        assert(name == tool_name(k));
    }
}

/// A mapping entry built from a caller's requirement keeps the caller's
/// fields, in particular its tier flags, and adds no property test, claim
/// check or scenarios.
pub proof fn lemma_requirement_of_carries_fields(input: RequirementInput)
    ensures
        requirement_of(input).id == input.id,
        requirement_of(input).capability == input.capability,
        requirement_of(input).requirement == input.requirement,
        requirement_of(input).verified == input.verified,
        requirement_of(input).property_tested == input.property_tested,
        requirement_of(input).property is None,
        requirement_of(input).contract == input.contract,
        requirement_of(input).claimcheck is None,
        requirement_of(input).scenarios is None,
        input.code matches Some(c) ==> requirement_of(input).code matches Some(d) && d.file == c.file
            && d.symbols == c.symbols,
        input.code is None ==> requirement_of(input).code is None,
{
}

/// A contract target aims at the file and symbol of the contract it comes
/// from, with that contract's clauses.
pub proof fn lemma_target_of_carries_fields(input: ContractInput)
    ensures
        target_of(input).file == input.file,
        target_of(input).symbol == input.symbol,
        target_of(input).requires == input.requires,
        target_of(input).ensures == input.ensures,
{
}

/// A given hash adds that expectation for its path; an absent one adds no
/// expectation and removes none.
pub proof fn lemma_expect_optional(
    before: Map<Seq<char>, Seq<char>>,
    path: Seq<char>,
    hash: Option<String>,
)
    ensures
        hash is None ==> expect_optional(before, path, hash) == before,
        hash matches Some(h) ==> expect_optional(before, path, hash) == before.insert(path, h@),
{
}

/// The hashes that contracts expect: a file is expected to have a hash
/// exactly when some contract for it gives one, and then the hash is the one
/// given by the last contract for that file that gives one.
pub proof fn lemma_contract_hashes(inputs: Seq<ContractInput>)
    ensures
        forall|path: Seq<char>|
            #[trigger] contract_hashes(inputs).dom().contains(path) <==> exists|i: int|
                0 <= i < inputs.len() && inputs[i].file@ == path
                    && #[trigger] inputs[i].expected_sha256 is Some,
        forall|i: int|
            #![trigger inputs[i]]
            0 <= i < inputs.len() && inputs[i].expected_sha256 is Some && (forall|j: int|
                i < j < inputs.len() && inputs[j].file@ == inputs[i].file@
                    ==> #[trigger] inputs[j].expected_sha256 is None) ==> contract_hashes(
                inputs,
            )[inputs[i].file@] == inputs[i].expected_sha256->0@,
    decreases inputs.len(),
{
    if inputs.len() > 0 {
        let rest = inputs.drop_last();
        let n = inputs.len() - 1;
        lemma_contract_hashes(rest);
        assert forall|path: Seq<char>|
            #[trigger] contract_hashes(inputs).dom().contains(path) <==> exists|i: int|
                0 <= i < inputs.len() && inputs[i].file@ == path
                    && #[trigger] inputs[i].expected_sha256 is Some by {
            if contract_hashes(inputs).dom().contains(path) {
                if inputs[n].file@ == path && inputs[n].expected_sha256 is Some {
                } else {
                    assert(contract_hashes(rest).dom().contains(path));
                    let i = choose|i: int|
                        0 <= i < rest.len() && rest[i].file@ == path
                            && #[trigger] rest[i].expected_sha256 is Some;
                    assert(inputs[i] == rest[i]);
                }
            }
            if exists|i: int|
                0 <= i < inputs.len() && inputs[i].file@ == path
                    && #[trigger] inputs[i].expected_sha256 is Some {
                let i = choose|i: int|
                    0 <= i < inputs.len() && inputs[i].file@ == path
                        && #[trigger] inputs[i].expected_sha256 is Some;
                if i < n {
                    assert(rest[i] == inputs[i]);
                    assert(contract_hashes(rest).dom().contains(path));
                }
            }
        }
        assert forall|i: int|
            #![trigger inputs[i]]
            0 <= i < inputs.len() && inputs[i].expected_sha256 is Some && (forall|j: int|
                i < j < inputs.len() && inputs[j].file@ == inputs[i].file@
                    ==> #[trigger] inputs[j].expected_sha256 is None) implies contract_hashes(
            inputs,
        )[inputs[i].file@] == inputs[i].expected_sha256->0@ by {
            if i < n {
                assert(rest[i] == inputs[i]);
                assert forall|j: int|
                    i < j < rest.len() && rest[j].file@ == rest[i].file@
                        implies #[trigger] rest[j].expected_sha256 is None by {
                    assert(rest[j] == inputs[j]);
                }
                assert(rest[i].expected_sha256 is Some);
                if inputs[n].file@ == inputs[i].file@ {
                    assert(inputs[n].expected_sha256 is None);
                }
            }
        }
    }
}

/// The property test of a requirement never lives at the mapping's path.
pub proof fn lemma_property_and_mapping_paths_differ(requirement_id: Seq<char>)
    ensures
        ".forall/scenarios/"@ + requirement_id + ".property.ts"@ != ".forall/verify/mapping.yaml"@,
{
    reveal_strlit(".forall/scenarios/");
    reveal_strlit(".forall/verify/mapping.yaml");
    let p = ".forall/scenarios/"@ + requirement_id + ".property.ts"@;
    assert(p[8] == 's');
    assert(".forall/verify/mapping.yaml"@[8] == 'v');
}

} // verus!
