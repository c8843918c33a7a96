use vstd::prelude::*;

verus! {

/// An issue reported by the server.
#[derive(Clone, Debug)]
pub struct SonarIssue {
    pub key: String,
    pub rule: String,
    pub severity: String,
    pub component: String,
    pub project: String,
    pub line: Option<u32>,
    pub text_range: Option<TextRange>,
    pub message: String,
    pub issue_type: String,
    pub status: String,
    pub resolution: Option<String>,
    pub debt: Option<String>,
    pub effort: Option<String>,
    pub tags: Vec<String>,
}

/// The place of an issue in its file.
#[derive(Clone, Copy, Debug, PartialEq, Eq, Structural)]
pub struct TextRange {
    pub start_line: u32,
    pub end_line: u32,
    pub start_offset: Option<u32>,
    pub end_offset: Option<u32>,
}

/// One page of the issue search.
#[derive(Clone, Debug)]
pub struct IssuesResponse {
    pub total: usize,
    pub issues: Vec<SonarIssue>,
}

/// Quality gate status of a project.
#[derive(Clone, Debug)]
pub struct QualityGateResponse {
    pub project_status: ProjectStatus,
}

/// Overall quality gate status with its conditions.
#[derive(Clone, Debug)]
pub struct ProjectStatus {
    pub status: String,
    pub conditions: Vec<QualityGateCondition>,
}

/// One condition of a quality gate.
#[derive(Clone, Debug)]
pub struct QualityGateCondition {
    pub status: String,
    pub metric_key: String,
    pub comparator: Option<String>,
    pub error_threshold: Option<String>,
    pub actual_value: Option<String>,
}

/// Measures of one component.
#[derive(Clone, Debug)]
pub struct MeasuresResponse {
    pub component: MeasuresComponent,
}

/// A component with its measures.
#[derive(Clone, Debug)]
pub struct MeasuresComponent {
    pub key: String,
    pub measures: Vec<Measure>,
}

/// The value of one metric.
#[derive(Clone, Debug)]
pub struct Measure {
    pub metric: String,
    pub value: Option<String>,
    pub period: Option<MeasurePeriod>,
}

/// The value of a metric on new code.
#[derive(Clone, Debug)]
pub struct MeasurePeriod {
    pub value: String,
}

/// Answer of the task status endpoint.
#[derive(Clone, Debug)]
pub struct AnalysisResponse {
    pub task: AnalysisTask,
}

/// A background analysis task.
#[derive(Clone, Debug)]
pub struct AnalysisTask {
    pub id: String,
    pub task_type: String,
    pub status: String,
    pub submitted_at: String,
    pub executed_at: Option<String>,
    pub analysis_id: Option<String>,
    pub error_message: Option<String>,
}

/// One page of a component tree with measures.
#[derive(Clone, Debug)]
pub struct ComponentTreeResponse {
    pub paging: Option<Paging>,
    pub components: Vec<TreeComponent>,
}

/// Paging information of a response.
#[derive(Clone, Copy, Debug, PartialEq, Eq, Structural)]
pub struct Paging {
    pub total: usize,
}

/// A file of a component tree, with its measures.
#[derive(Clone, Debug)]
pub struct TreeComponent {
    pub key: String,
    pub name: Option<String>,
    pub path: Option<String>,
    pub qualifier: Option<String>,
    pub measures: Vec<Measure>,
}

/// Duplication detail of one file: the groups of duplicated blocks and the
/// table that resolves their file references.
#[derive(Clone, Debug)]
pub struct DuplicationsResponse {
    pub duplications: Vec<Duplication>,
    /// Reference id and the file it stands for. The server sends a table
    /// keyed by reference id, so the ids are distinct (`refs_unique`); a
    /// reference is resolved by its first entry.
    pub files: Vec<(String, DuplicationFile)>,
}

impl DuplicationsResponse {
    /// Whether no two entries of the reference table share an id.
    pub open spec fn refs_unique(&self) -> bool {
        forall|i: int, j: int|
            0 <= i < j < self.files@.len() ==> #[trigger] self.files@[i].0@ != #[trigger] self.files@[j].0@
    }
}

/// A group of blocks that duplicate each other.
#[derive(Clone, Debug)]
pub struct Duplication {
    pub blocks: Vec<DuplicationBlock>,
}

/// One duplicated block.
#[derive(Clone, Debug)]
pub struct DuplicationBlock {
    pub file_ref: String,
    pub from: u32,
    pub size: u32,
}

/// A file named in a duplication answer.
#[derive(Clone, Debug)]
pub struct DuplicationFile {
    pub key: String,
    pub name: Option<String>,
}

/// One page of the security hotspot search.
#[derive(Clone, Debug)]
pub struct HotspotsResponse {
    pub paging: Paging,
    pub hotspots: Vec<SecurityHotspot>,
}

/// A security hotspot.
#[derive(Clone, Debug)]
pub struct SecurityHotspot {
    pub key: String,
    pub component: String,
    pub project: String,
    pub security_category: String,
    pub vulnerability_probability: String,
    pub status: String,
    pub line: Option<u32>,
    pub message: String,
    pub rule_key: String,
    pub text_range: Option<TextRange>,
}

/// One page of the project search.
#[derive(Clone, Debug)]
pub struct ProjectsSearchResponse {
    pub paging: Paging,
    pub components: Vec<ProjectInfo>,
}

/// A project of the server.
#[derive(Clone, Debug)]
pub struct ProjectInfo {
    pub key: String,
    pub name: String,
    pub qualifier: Option<String>,
    pub visibility: Option<String>,
    pub last_analysis_date: Option<String>,
}

/// One page of measure history.
#[derive(Clone, Debug)]
pub struct MeasuresHistoryResponse {
    pub paging: Paging,
    pub measures: Vec<MeasureHistory>,
}

/// The history of one metric.
#[derive(Clone, Debug)]
pub struct MeasureHistory {
    pub metric: String,
    pub history: Vec<HistoryValue>,
}

/// One point of a metric's history.
#[derive(Clone, Debug)]
pub struct HistoryValue {
    pub date: String,
    pub value: Option<String>,
}

/// One page of the rule search.
#[derive(Clone, Debug)]
pub struct RulesSearchResponse {
    pub total: usize,
    pub rules: Vec<RuleInfo>,
}

/// A rule of the server.
#[derive(Clone, Debug)]
pub struct RuleInfo {
    pub key: String,
    pub name: String,
    pub severity: Option<String>,
    pub rule_type: Option<String>,
    pub lang: Option<String>,
    pub status: Option<String>,
    pub lang_name: Option<String>,
}

/// A numbered line of source code.
#[derive(Clone, Debug)]
pub struct SourceLine {
    pub line: usize,
    pub code: String,
}

} // verus!
