use vstd::prelude::*;

use crate::client::SonarQubeConfig;
use crate::text::{append_chars, append_str, chars_of, decimal, decimal_of, joined, string_of};

verus! {

/// Filters of the issue search; each given one becomes a query parameter.
#[derive(Clone, Copy, Debug, Default)]
pub struct IssueSearchParams<'a> {
    pub severities: Option<&'a str>,
    pub types: Option<&'a str>,
    pub statuses: Option<&'a str>,
    pub resolutions: Option<&'a str>,
    pub tags: Option<&'a str>,
    pub rules: Option<&'a str>,
    pub created_after: Option<&'a str>,
    pub created_before: Option<&'a str>,
    pub author: Option<&'a str>,
    pub assignees: Option<&'a str>,
    pub languages: Option<&'a str>,
}

/// Filters of the rule search; each given one becomes a query parameter.
#[derive(Clone, Copy, Debug, Default)]
pub struct RuleSearchParams<'a> {
    pub search: Option<&'a str>,
    pub language: Option<&'a str>,
    pub severity: Option<&'a str>,
    pub rule_type: Option<&'a str>,
    pub status: Option<&'a str>,
}

/// Statuses searched where no status filter is given.
pub const OPEN_STATUSES: &'static str = "OPEN,CONFIRMED,REOPENED";

/// Hotspot status searched where no status filter is given.
pub const TO_REVIEW: &'static str = "TO_REVIEW";

/// Component qualifier of projects.
pub const PROJECT_QUALIFIER: &'static str = "TRK";

/// `&name=value` where a value is given, else nothing.
pub open spec fn opt_param(name: Seq<char>, value: Option<&str>) -> Seq<char> {
    match value {
        Some(v) => seq!['&'] + name + seq!['='] + v@,
        None => Seq::empty(),
    }
}

/// `&name=value` for a number.
pub open spec fn num_param(name: Seq<char>, n: usize) -> Seq<char> {
    seq!['&'] + name + seq!['='] + decimal(n as nat)
}

/// The branch parameter: `&branch=<name>` where a branch is configured.
pub open spec fn branch_part(config: SonarQubeConfig) -> Seq<char> {
    match config.branch {
        Some(b) => "&branch="@ + b@,
        None => Seq::empty(),
    }
}

/// The given string, or `default` where none is given.
pub open spec fn or_default(v: Option<&str>, default: Seq<char>) -> Seq<char> {
    match v {
        Some(s) => s@,
        None => default,
    }
}

/// URL of one page of the issue search.
pub open spec fn issues_url(
    config: SonarQubeConfig,
    project_key: Seq<char>,
    page: usize,
    page_size: usize,
    params: IssueSearchParams,
) -> Seq<char> {
    config.url@ + "/api/issues/search?componentKeys="@ + project_key + num_param("p"@, page) + num_param(
        "ps"@,
        page_size,
    ) + "&statuses="@ + or_default(params.statuses, OPEN_STATUSES@) + branch_part(config) + opt_param(
        "severities"@,
        params.severities,
    ) + opt_param("types"@, params.types) + opt_param("resolutions"@, params.resolutions) + opt_param(
        "tags"@,
        params.tags,
    ) + opt_param("rules"@, params.rules) + opt_param("createdAfter"@, params.created_after) + opt_param(
        "createdBefore"@,
        params.created_before,
    ) + opt_param("author"@, params.author) + opt_param("assignees"@, params.assignees) + opt_param(
        "languages"@,
        params.languages,
    )
}

/// Appends `&name=value` where a value is given.
fn push_opt(out: &mut Vec<char>, name: &str, value: Option<&str>)
    ensures
        final(out)@ == old(out)@ + opt_param(name@, value),
{
    if let Some(v) = value {
        out.push('&');
        append_str(out, name);
        out.push('=');
        append_str(out, v);
        assert(final(out)@ =~= old(out)@ + opt_param(name@, value));
    } else {
        assert(final(out)@ =~= old(out)@ + opt_param(name@, value));
    }
}

/// Appends `&name=n`.
fn push_num(out: &mut Vec<char>, name: &str, n: usize)
    ensures
        final(out)@ == old(out)@ + num_param(name@, n),
{
    out.push('&');
    append_str(out, name);
    out.push('=');
    let d = decimal_of(n as u64);
    append_chars(out, &d);
    assert(final(out)@ =~= old(out)@ + num_param(name@, n));
}

/// Appends the branch parameter.
fn push_branch(out: &mut Vec<char>, config: &SonarQubeConfig)
    ensures
        final(out)@ == old(out)@ + branch_part(*config),
{
    match &config.branch {
        Some(b) => {
            append_str(out, "&branch=");
            append_str(out, b.as_str());
            assert(final(out)@ =~= old(out)@ + branch_part(*config));
        },
        None => {
            assert(final(out)@ =~= old(out)@ + branch_part(*config));
        },
    }
}

/// The branch parameter of the configuration.
pub fn branch_param(config: &SonarQubeConfig) -> (r: String)
    ensures
        r@ == branch_part(*config),
{
    let mut out: Vec<char> = Vec::new();
    push_branch(&mut out, config);
    assert(out@ =~= branch_part(*config));
    string_of(&out)
}

/// Builds the URL of one page of the issue search.
pub fn search_issues_url(
    config: &SonarQubeConfig,
    project_key: &str,
    page: usize,
    page_size: usize,
    params: &IssueSearchParams,
) -> (r: String)
    ensures
        r@ == issues_url(*config, project_key@, page, page_size, *params),
{
    let mut out = chars_of(config.url.as_str());
    append_str(&mut out, "/api/issues/search?componentKeys=");
    append_str(&mut out, project_key);
    push_num(&mut out, "p", page);
    push_num(&mut out, "ps", page_size);
    append_str(&mut out, "&statuses=");
    match params.statuses {
        Some(s) => append_str(&mut out, s),
        None => append_str(&mut out, OPEN_STATUSES),
    }
    push_branch(&mut out, config);
    push_opt(&mut out, "severities", params.severities);
    push_opt(&mut out, "types", params.types);
    push_opt(&mut out, "resolutions", params.resolutions);
    push_opt(&mut out, "tags", params.tags);
    push_opt(&mut out, "rules", params.rules);
    push_opt(&mut out, "createdAfter", params.created_after);
    push_opt(&mut out, "createdBefore", params.created_before);
    push_opt(&mut out, "author", params.author);
    push_opt(&mut out, "assignees", params.assignees);
    push_opt(&mut out, "languages", params.languages);
    string_of(&out)
}

/// URL of the quality gate status of a project.
pub open spec fn quality_gate_url(config: SonarQubeConfig, project_key: Seq<char>) -> Seq<char> {
    config.url@ + "/api/qualitygates/project_status?projectKey="@ + project_key + branch_part(config)
}

/// Builds the URL of the quality gate status of a project.
pub fn get_quality_gate_url(config: &SonarQubeConfig, project_key: &str) -> (r: String)
    ensures
        r@ == quality_gate_url(*config, project_key@),
{
    let mut out = chars_of(config.url.as_str());
    append_str(&mut out, "/api/qualitygates/project_status?projectKey=");
    append_str(&mut out, project_key);
    push_branch(&mut out, config);
    string_of(&out)
}

/// The strings of a list joined with commas.
fn join_commas(parts: &[&str]) -> (r: Vec<char>)
    ensures
        r@ == joined(parts@.map_values(|s: &str| s@), ','),
{
    let mut out: Vec<char> = Vec::new();
    let mut i: usize = 0;
    while i < parts.len()
        invariant
            i <= parts@.len(),
            out@ == joined(parts@.subrange(0, i as int).map_values(|s: &str| s@), ','),
        decreases parts@.len() - i,
    {
        let ghost pre = parts@.subrange(0, i as int).map_values(|s: &str| s@);
        let ghost post = parts@.subrange(0, i + 1).map_values(|s: &str| s@);
        assert(post.drop_last() =~= pre);
        if i > 0 {
            out.push(',');
        }
        append_str(&mut out, parts[i]);
        i = i + 1;
    }
    assert(parts@.subrange(0, parts@.len() as int) =~= parts@);
    out
}

/// URL of the measures of a component.
pub open spec fn measures_url(config: SonarQubeConfig, project_key: Seq<char>, metrics: Seq<&str>) -> Seq<char> {
    config.url@ + "/api/measures/component?component="@ + project_key + "&metricKeys="@ + joined(
        metrics.map_values(|s: &str| s@),
        ',',
    ) + branch_part(config)
}

/// Builds the URL of the measures of a component.
pub fn get_measures_url(config: &SonarQubeConfig, project_key: &str, metrics: &[&str]) -> (r: String)
    ensures
        r@ == measures_url(*config, project_key@, metrics@),
{
    let mut out = chars_of(config.url.as_str());
    append_str(&mut out, "/api/measures/component?component=");
    append_str(&mut out, project_key);
    append_str(&mut out, "&metricKeys=");
    let m = join_commas(metrics);
    append_chars(&mut out, &m);
    push_branch(&mut out, config);
    string_of(&out)
}

/// URL of one page of the file tree of a project with some metrics.
pub open spec fn component_tree_url(
    config: SonarQubeConfig,
    project_key: Seq<char>,
    metrics: Seq<&str>,
    page: usize,
    page_size: usize,
) -> Seq<char> {
    config.url@ + "/api/measures/component_tree?component="@ + project_key + "&metricKeys="@ + joined(
        metrics.map_values(|s: &str| s@),
        ',',
    ) + "&qualifiers=FIL"@ + num_param("p"@, page) + num_param("ps"@, page_size) + branch_part(config)
}

/// Builds the URL of one page of the file tree of a project.
pub fn get_component_tree_url(
    config: &SonarQubeConfig,
    project_key: &str,
    metrics: &[&str],
    page: usize,
    page_size: usize,
) -> (r: String)
    ensures
        r@ == component_tree_url(*config, project_key@, metrics@, page, page_size),
{
    let mut out = chars_of(config.url.as_str());
    append_str(&mut out, "/api/measures/component_tree?component=");
    append_str(&mut out, project_key);
    append_str(&mut out, "&metricKeys=");
    let m = join_commas(metrics);
    append_chars(&mut out, &m);
    append_str(&mut out, "&qualifiers=FIL");
    push_num(&mut out, "p", page);
    push_num(&mut out, "ps", page_size);
    push_branch(&mut out, config);
    string_of(&out)
}

/// URL of the duplications of one file.
pub open spec fn duplications_url(config: SonarQubeConfig, component_key: Seq<char>) -> Seq<char> {
    config.url@ + "/api/duplications/show?key="@ + component_key + branch_part(config)
}

/// Builds the URL of the duplications of one file.
pub fn get_duplications_url(config: &SonarQubeConfig, component_key: &str) -> (r: String)
    ensures
        r@ == duplications_url(*config, component_key@),
{
    let mut out = chars_of(config.url.as_str());
    append_str(&mut out, "/api/duplications/show?key=");
    append_str(&mut out, component_key);
    push_branch(&mut out, config);
    string_of(&out)
}

/// URL of one page of the security hotspots of a project.
pub open spec fn hotspots_url(
    config: SonarQubeConfig,
    project_key: Seq<char>,
    page: usize,
    page_size: usize,
    status: Option<&str>,
) -> Seq<char> {
    config.url@ + "/api/hotspots/search?projectKey="@ + project_key + num_param("p"@, page) + num_param(
        "ps"@,
        page_size,
    ) + "&status="@ + or_default(status, TO_REVIEW@) + branch_part(config)
}

/// Builds the URL of one page of the security hotspots of a project.
pub fn get_hotspots_url(
    config: &SonarQubeConfig,
    project_key: &str,
    page: usize,
    page_size: usize,
    status_filter: Option<&str>,
) -> (r: String)
    ensures
        r@ == hotspots_url(*config, project_key@, page, page_size, status_filter),
{
    let mut out = chars_of(config.url.as_str());
    append_str(&mut out, "/api/hotspots/search?projectKey=");
    append_str(&mut out, project_key);
    push_num(&mut out, "p", page);
    push_num(&mut out, "ps", page_size);
    append_str(&mut out, "&status=");
    match status_filter {
        Some(s) => append_str(&mut out, s),
        None => append_str(&mut out, TO_REVIEW),
    }
    push_branch(&mut out, config);
    string_of(&out)
}

/// URL of one page of the project search.
pub open spec fn projects_url(
    config: SonarQubeConfig,
    search: Option<&str>,
    qualifier: Option<&str>,
    page: usize,
    page_size: usize,
) -> Seq<char> {
    config.url@ + "/api/components/search?qualifiers="@ + or_default(qualifier, PROJECT_QUALIFIER@) + num_param(
        "p"@,
        page,
    ) + num_param("ps"@, page_size) + opt_param("q"@, search)
}

/// Builds the URL of one page of the project search.
pub fn search_projects_url(
    config: &SonarQubeConfig,
    search: Option<&str>,
    qualifier: Option<&str>,
    page: usize,
    page_size: usize,
) -> (r: String)
    ensures
        r@ == projects_url(*config, search, qualifier, page, page_size),
{
    let mut out = chars_of(config.url.as_str());
    append_str(&mut out, "/api/components/search?qualifiers=");
    match qualifier {
        Some(q) => append_str(&mut out, q),
        None => append_str(&mut out, PROJECT_QUALIFIER),
    }
    push_num(&mut out, "p", page);
    push_num(&mut out, "ps", page_size);
    push_opt(&mut out, "q", search);
    string_of(&out)
}

/// URL of one page of the measure history of a project.
pub open spec fn history_url(
    config: SonarQubeConfig,
    project_key: Seq<char>,
    metrics: Seq<char>,
    from: Option<&str>,
    to: Option<&str>,
    page: usize,
    page_size: usize,
) -> Seq<char> {
    config.url@ + "/api/measures/search_history?component="@ + project_key + "&metrics="@ + metrics + num_param(
        "p"@,
        page,
    ) + num_param("ps"@, page_size) + branch_part(config) + opt_param("from"@, from) + opt_param("to"@, to)
}

/// Builds the URL of one page of the measure history of a project.
pub fn get_measures_history_url(
    config: &SonarQubeConfig,
    project_key: &str,
    metrics: &str,
    from: Option<&str>,
    to: Option<&str>,
    page: usize,
    page_size: usize,
) -> (r: String)
    ensures
        r@ == history_url(*config, project_key@, metrics@, from, to, page, page_size),
{
    let mut out = chars_of(config.url.as_str());
    append_str(&mut out, "/api/measures/search_history?component=");
    append_str(&mut out, project_key);
    append_str(&mut out, "&metrics=");
    append_str(&mut out, metrics);
    push_num(&mut out, "p", page);
    push_num(&mut out, "ps", page_size);
    push_branch(&mut out, config);
    push_opt(&mut out, "from", from);
    push_opt(&mut out, "to", to);
    string_of(&out)
}

/// URL of one page of the rule search.
pub open spec fn rules_url(config: SonarQubeConfig, params: RuleSearchParams, page: usize, page_size: usize) -> Seq<
    char,
> {
    config.url@ + "/api/rules/search?"@ + "p="@ + decimal(page as nat) + num_param("ps"@, page_size) + opt_param(
        "q"@,
        params.search,
    ) + opt_param("languages"@, params.language) + opt_param("severities"@, params.severity) + opt_param(
        "types"@,
        params.rule_type,
    ) + opt_param("statuses"@, params.status)
}

/// Builds the URL of one page of the rule search.
pub fn search_rules_url(config: &SonarQubeConfig, params: &RuleSearchParams, page: usize, page_size: usize) -> (r:
    String)
    ensures
        r@ == rules_url(*config, *params, page, page_size),
{
    let mut out = chars_of(config.url.as_str());
    append_str(&mut out, "/api/rules/search?");
    append_str(&mut out, "p=");
    let d = decimal_of(page as u64);
    append_chars(&mut out, &d);
    push_num(&mut out, "ps", page_size);
    push_opt(&mut out, "q", params.search);
    push_opt(&mut out, "languages", params.language);
    push_opt(&mut out, "severities", params.severity);
    push_opt(&mut out, "types", params.rule_type);
    push_opt(&mut out, "statuses", params.status);
    string_of(&out)
}

/// URL of the raw source of a file.
pub open spec fn source_raw_url(config: SonarQubeConfig, component: Seq<char>) -> Seq<char> {
    config.url@ + "/api/sources/raw?key="@ + component + branch_part(config)
}

/// Builds the URL of the raw source of a file.
pub fn get_source_raw_url(config: &SonarQubeConfig, component: &str) -> (r: String)
    ensures
        r@ == source_raw_url(*config, component@),
{
    let mut out = chars_of(config.url.as_str());
    append_str(&mut out, "/api/sources/raw?key=");
    append_str(&mut out, component);
    push_branch(&mut out, config);
    string_of(&out)
}

/// `&name=n` where a number is given, else nothing.
pub open spec fn opt_num_param(name: Seq<char>, n: Option<usize>) -> Seq<char> {
    match n {
        Some(v) => num_param(name, v),
        None => Seq::empty(),
    }
}

/// URL of numbered source lines of a file, optionally limited to a range.
pub open spec fn source_show_url(
    config: SonarQubeConfig,
    component: Seq<char>,
    from: Option<usize>,
    to: Option<usize>,
) -> Seq<char> {
    config.url@ + "/api/sources/show?key="@ + component + branch_part(config) + opt_num_param("from"@, from)
        + opt_num_param("to"@, to)
}

/// Builds the URL of numbered source lines of a file.
pub fn get_source_show_url(config: &SonarQubeConfig, component: &str, from: Option<usize>, to: Option<usize>) -> (r:
    String)
    ensures
        r@ == source_show_url(*config, component@, from, to),
{
    let mut out = chars_of(config.url.as_str());
    append_str(&mut out, "/api/sources/show?key=");
    append_str(&mut out, component);
    push_branch(&mut out, config);
    match from {
        Some(f) => push_num(&mut out, "from", f),
        None => {},
    }
    match to {
        Some(t) => push_num(&mut out, "to", t),
        None => {},
    }
    assert(out@ =~= source_show_url(*config, component@, from, to));
    string_of(&out)
}

/// URL of the server status.
pub open spec fn status_url(config: SonarQubeConfig) -> Seq<char> {
    config.url@ + "/api/system/status"@
}

/// Builds the URL of the server status.
pub fn get_status_url(config: &SonarQubeConfig) -> (r: String)
    ensures
        r@ == status_url(*config),
{
    let mut out = chars_of(config.url.as_str());
    append_str(&mut out, "/api/system/status");
    string_of(&out)
}

/// URL of the status of a background task.
pub open spec fn task_url(config: SonarQubeConfig, task_id: Seq<char>) -> Seq<char> {
    config.url@ + "/api/ce/task?id="@ + task_id
}

/// Builds the URL of the status of a background task.
pub fn get_task_url(config: &SonarQubeConfig, task_id: &str) -> (r: String)
    ensures
        r@ == task_url(*config, task_id@),
{
    let mut out = chars_of(config.url.as_str());
    append_str(&mut out, "/api/ce/task?id=");
    append_str(&mut out, task_id);
    string_of(&out)
}

} // verus!
