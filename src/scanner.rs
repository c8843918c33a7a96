use vstd::prelude::*;

use crate::client::SonarQubeConfig;
use crate::text::{
    append_chars, append_str, chars_of, find, first_occurrence, is_space, joined, owned, slice_of, space,
    string_of,
};

pub use crate::helpers::{extract_path, parse_measure, DuplicationBlockDetail};

verus! {

/// Settings of one scanner run.
#[derive(Clone, Debug)]
pub struct ScannerConfig {
    pub client: SonarQubeConfig,
    pub use_docker: bool,
    pub scanner_image: String,
    pub scanner_path: String,
    /// Directory the scan starts from.
    pub source_dir: String,
    pub sources: Vec<String>,
    pub tests: Vec<String>,
    pub exclusions: Vec<String>,
    pub coverage_report_path: Option<String>,
    /// Further `-D` properties, in the order given.
    pub extra_properties: Vec<(String, String)>,
    pub wait_for_completion: bool,
    pub wait_timeout: core::time::Duration,
    pub wait_poll_interval: core::time::Duration,
}

/// Docker image of the scanner.
pub const SCANNER_IMAGE: &'static str = "sonarsource/sonar-scanner-cli";

/// Scanner program run directly.
pub const SCANNER_PATH: &'static str = "sonar-scanner";

/// Where the converted coverage report is written.
pub const CONVERTED_REPORT: &'static str = "coverage-sonar.xml";

impl Default for ScannerConfig {
    fn default() -> (r: Self)
        ensures
            !r.use_docker,
            r.scanner_image@ == SCANNER_IMAGE@,
            r.scanner_path@ == SCANNER_PATH@,
            r.source_dir@ == "."@,
            r.sources@.len() == 1 && r.sources@[0]@ == "src"@,
            r.tests@.len() == 0,
            r.exclusions@.len() == 0,
            r.coverage_report_path is None,
            r.extra_properties@.len() == 0,
            !r.wait_for_completion,
    {
        let mut sources: Vec<String> = Vec::new();
        sources.push(owned("src"));
        ScannerConfig {
            client: SonarQubeConfig::default(),
            use_docker: false,
            scanner_image: owned(SCANNER_IMAGE),
            scanner_path: owned(SCANNER_PATH),
            source_dir: owned("."),
            sources,
            tests: Vec::new(),
            exclusions: Vec::new(),
            coverage_report_path: None,
            extra_properties: Vec::new(),
            wait_for_completion: false,
            wait_timeout: core::time::Duration::from_secs(300),
            wait_poll_interval: core::time::Duration::from_secs(5),
        }
    }
}

/// The characters of each string of a list.
pub open spec fn views(v: Seq<String>) -> Seq<Seq<char>> {
    v.map_values(|s: String| s@)
}

/// One `-Dkey=value` argument.
pub open spec fn property(key: Seq<char>, value: Seq<char>) -> Seq<char> {
    "-D"@ + key + seq!['='] + value
}

/// The `-D` arguments of the extra properties, in order.
pub open spec fn extra_args(props: Seq<(String, String)>) -> Seq<Seq<char>>
    decreases props.len(),
{
    if props.len() == 0 {
        Seq::empty()
    } else {
        extra_args(props.drop_last()).push(property(props.last().0@, props.last().1@))
    }
}

/// The arguments that describe the project to the scanner.
pub open spec fn scanner_args(config: ScannerConfig, project_key: Seq<char>) -> Seq<Seq<char>> {
    let base = seq![
        "-Dsonar.projectKey="@ + project_key,
        "-Dsonar.sources="@ + joined(views(config.sources@), ','),
    ];
    let with_tests = if config.tests@.len() > 0 {
        base.push("-Dsonar.tests="@ + joined(views(config.tests@), ','))
    } else {
        base
    };
    let with_exclusions = if config.exclusions@.len() > 0 {
        with_tests.push("-Dsonar.exclusions="@ + joined(views(config.exclusions@), ','))
    } else {
        with_tests
    };
    let with_coverage = if config.coverage_report_path is Some {
        with_exclusions.push("-Dsonar.coverageReportPaths="@ + CONVERTED_REPORT@)
    } else {
        with_exclusions
    };
    with_coverage + extra_args(config.extra_properties@)
}

/// The strings of a list joined with `sep`.
fn join_all(parts: &Vec<String>, sep: char) -> (r: Vec<char>)
    ensures
        r@ == joined(views(parts@), sep),
{
    let mut out: Vec<char> = Vec::new();
    let mut i: usize = 0;
    while i < parts.len()
        invariant
            i <= parts@.len(),
            out@ == joined(views(parts@.subrange(0, i as int)), sep),
        decreases parts@.len() - i,
    {
        let ghost pre = views(parts@.subrange(0, i as int));
        let ghost post = views(parts@.subrange(0, i + 1));
        assert(post.drop_last() =~= pre);
        if i > 0 {
            out.push(sep);
        }
        append_str(&mut out, parts[i].as_str());
        i = i + 1;
    }
    assert(parts@.subrange(0, parts@.len() as int) =~= parts@);
    out
}

/// `prefix` followed by the strings of `parts` joined with commas.
fn prefixed_list(prefix: &str, parts: &Vec<String>) -> (r: String)
    ensures
        r@ == prefix@ + joined(views(parts@), ','),
{
    let mut out = chars_of(prefix);
    let list = join_all(parts, ',');
    append_chars(&mut out, &list);
    string_of(&out)
}

/// `prefix` followed by `value`.
fn prefixed(prefix: &str, value: &str) -> (r: String)
    ensures
        r@ == prefix@ + value@,
{
    let mut out = chars_of(prefix);
    append_str(&mut out, value);
    string_of(&out)
}

/// Builds the scanner's arguments: project key, sources, tests and
/// exclusions where given, the converted coverage report where one is
/// configured, then each extra property.
pub fn build_scanner_args(config: &ScannerConfig, project_key: &str) -> (r: Vec<String>)
    ensures
        views(r@) == scanner_args(*config, project_key@),
{
    let mut args: Vec<String> = Vec::new();
    args.push(prefixed("-Dsonar.projectKey=", project_key));
    args.push(prefixed_list("-Dsonar.sources=", &config.sources));
    if config.tests.len() > 0 {
        args.push(prefixed_list("-Dsonar.tests=", &config.tests));
    }
    if config.exclusions.len() > 0 {
        args.push(prefixed_list("-Dsonar.exclusions=", &config.exclusions));
    }
    if config.coverage_report_path.is_some() {
        args.push(prefixed("-Dsonar.coverageReportPaths=", CONVERTED_REPORT));
    }
    let ghost head = views(args@);
    let props = &config.extra_properties;
    let mut i: usize = 0;
    while i < props.len()
        invariant
            i <= props@.len(),
            views(args@) == head + extra_args(props@.subrange(0, i as int)),
        decreases props@.len() - i,
    {
        let ghost pre = props@.subrange(0, i as int);
        let ghost post = props@.subrange(0, i + 1);
        assert(post.drop_last() =~= pre);
        assert(post.last() == props@[i as int]);
        assert(extra_args(post) == extra_args(pre).push(property(props@[i as int].0@, props@[i as int].1@)));
        let mut arg = chars_of("-D");
        append_str(&mut arg, props[i].0.as_str());
        arg.push('=');
        append_str(&mut arg, props[i].1.as_str());
        let s = string_of(&arg);
        assert(s@ =~= property(props@[i as int].0@, props@[i as int].1@));
        let ghost before = views(args@);
        args.push(s);
        assert(views(args@) =~= before.push(s@));
        assert(views(args@) =~= head + extra_args(post));
        i = i + 1;
    }
    assert(props@.subrange(0, props@.len() as int) =~= props@);
    assert(views(args@) =~= scanner_args(*config, project_key@));
    args
}

/// Marker before the task id in the scanner's output.
pub const TASK_MARKER: &'static str = "task?id=";

/// Number of leading characters of `s` that are (or, with `space` false,
/// are not) white space.
pub open spec fn run_len(s: Seq<char>, space: bool) -> nat
    decreases s.len(),
{
    if s.len() == 0 || is_space(s[0]) != space {
        0
    } else {
        1 + run_len(s.drop_first(), space)
    }
}

/// The first word of `s`, or nothing where `s` is all white space.
pub open spec fn first_word(s: Seq<char>) -> Seq<char> {
    let t = s.skip(run_len(s, true) as int);
    t.take(run_len(t, false) as int)
}

/// Length of the part of `s` before the first line break or marker.
pub open spec fn piece_len(s: Seq<char>) -> int {
    let nl = match first_occurrence(s, seq!['\n']) {
        Some(i) => i,
        None => s.len() as int,
    };
    match first_occurrence(s, TASK_MARKER@) {
        Some(i) => if i < nl {
            i
        } else {
            nl
        },
        None => nl,
    }
}

/// The task id in scanner output: the first word after the first marker,
/// within its line and before any further marker.
pub open spec fn task_id_of(out: Seq<char>) -> Option<Seq<char>> {
    match first_occurrence(out, TASK_MARKER@) {
        Some(i) => {
            let rest = out.skip(i + TASK_MARKER@.len());
            Some(first_word(rest.take(piece_len(rest))))
        },
        None => None,
    }
}

/// Number of leading characters of `s[from..]` of the given kind.
fn run_from(s: &Vec<char>, from: usize, want_space: bool) -> (r: usize)
    requires
        from <= s@.len(),
    ensures
        from + r <= s@.len(),
        r == run_len(s@.skip(from as int), want_space),
{
    let mut k: usize = from;
    while k < s.len() && space(s[k]) == want_space
        invariant
            from <= k <= s@.len(),
            run_len(s@.skip(from as int), want_space) == (k - from) + run_len(s@.skip(k as int), want_space),
        decreases s@.len() - k,
    {
        assert(s@.skip(k as int).drop_first() =~= s@.skip(k + 1));
        k = k + 1;
    }
    k - from
}

/// Length of the part of `rest` before its first line break or marker.
fn piece_end(rest: &Vec<char>, marker: &Vec<char>) -> (r: usize)
    requires
        marker@ == TASK_MARKER@,
    ensures
        r == piece_len(rest@),
        r <= rest@.len(),
{
    let newline = vec!['\n'];
    assert(newline@ =~= seq!['\n']);
    let nl = match find(rest, &newline) {
        Some(k) => k,
        None => rest.len(),
    };
    match find(rest, marker) {
        Some(k) => if k < nl {
            k
        } else {
            nl
        },
        None => nl,
    }
}

/// The first word of `piece`.
fn word_of(piece: &Vec<char>) -> (r: Vec<char>)
    ensures
        r@ == first_word(piece@),
{
    let lead = run_from(piece, 0, true);
    assert(piece@.skip(0) =~= piece@);
    let word_len = run_from(piece, lead, false);
    assert(lead + word_len <= piece.len());
    let word = slice_of(piece, lead, lead + word_len);
    assert(word@ =~= first_word(piece@));
    word
}

/// Finds the analysis task id in the scanner's output.
pub fn extract_task_id(stdout: &str) -> (r: Option<String>)
    ensures
        r matches Some(s) ==> task_id_of(stdout@) == Some(s@),
        r is None ==> task_id_of(stdout@) is None,
{
    let out = chars_of(stdout);
    let marker = chars_of(TASK_MARKER);
    match find(&out, &marker) {
        None => None,
        Some(i) => {
            let n = out.len();
            assert(i + marker@.len() <= n);
            let start = i + marker.len();
            let rest = slice_of(&out, start, n);
            assert(rest@ =~= stdout@.skip(i + TASK_MARKER@.len()));
            let end = piece_end(&rest, &marker);
            let piece = slice_of(&rest, 0, end);
            assert(piece@ =~= rest@.take(piece_len(rest@)));
            let word = word_of(&piece);
            Some(string_of(&word))
        },
    }
}

} // verus!
