use vstd::prelude::*;

use crate::text::{
    append_chars, append_str, chars_of, decimal, decimal_of, contains, contains_seq, find, first_occurrence, has_prefix, parse_u32,
    slice_of, starts_with, string_of, trim, trim_end, trim_end_char, trim_start, trim_start_char, trimmed,
    u32_of,
};

verus! {

/// The value of attribute `attr` in an XML line: the text between the
/// first `attr="` and the next `"`.
pub open spec fn attr_value(line: Seq<char>, attr: Seq<char>) -> Option<Seq<char>> {
    let pattern = attr + seq!['=', '"'];
    match first_occurrence(line, pattern) {
        None => None,
        Some(i) => {
            let rest = line.skip(i + pattern.len());
            match first_occurrence(rest, seq!['"']) {
                None => None,
                Some(e) => Some(rest.take(e)),
            }
        },
    }
}

/// The value of attribute `attr` read as an unsigned 32-bit number.
pub open spec fn attr_u32(line: Seq<char>, attr: Seq<char>) -> Option<u32> {
    match attr_value(line, attr) {
        Some(v) => u32_of(v),
        None => None,
    }
}

/// Reads the value of an attribute from one line of XML.
pub fn extract_xml_attr(line: &str, attr_name: &str) -> (r: Option<String>)
    ensures
        r matches Some(v) ==> attr_value(line@, attr_name@) == Some(v@),
        r is None ==> attr_value(line@, attr_name@) is None,
{
    let l = chars_of(line);
    let mut pattern = chars_of(attr_name);
    pattern.push('=');
    pattern.push('"');
    assert(pattern@ =~= attr_name@ + seq!['=', '"']);
    match find(&l, &pattern) {
        None => None,
        Some(i) => {
            let n = l.len();
            assert(i + pattern@.len() <= n);
            let rest = slice_of(&l, i + pattern.len(), n);
            assert(rest@ =~= line@.skip(i + pattern@.len()));
            let quote = vec!['"'];
            assert(quote@ =~= seq!['"']);
            match find(&rest, &quote) {
                None => None,
                Some(e) => {
                    let v = slice_of(&rest, 0, e);
                    assert(v@ =~= rest@.take(e as int));
                    Some(string_of(&v))
                },
            }
        },
    }
}

/// Reads an attribute as an unsigned 32-bit number.
pub fn extract_xml_attr_u32(line: &str, attr_name: &str) -> (r: Option<u32>)
    ensures
        r == attr_u32(line@, attr_name@),
{
    match extract_xml_attr(line, attr_name) {
        Some(v) => {
            let c = chars_of(v.as_str());
            parse_u32(&c)
        },
        None => None,
    }
}

/// The file named by a `<class ... filename="...">` line.
pub open spec fn class_filename(line: Seq<char>) -> Option<Seq<char>> {
    if contains_seq(line, "<class"@) && contains_seq(line, "filename="@) {
        attr_value(line, "filename"@)
    } else {
        None
    }
}

/// Reads the file name of a `<class>` element.
pub fn process_class_element(line: &str) -> (r: Option<String>)
    ensures
        r matches Some(v) ==> class_filename(line@) == Some(v@),
        r is None ==> class_filename(line@) is None,
{
    let l = chars_of(line);
    if !contains(&l, &chars_of("<class")) || !contains(&l, &chars_of("filename=")) {
        return None;
    }
    extract_xml_attr(line, "filename")
}

/// The line number of a `<line>` element and whether it was hit.
pub open spec fn line_hit(line: Seq<char>) -> Option<(u32, bool)> {
    if contains_seq(line, "<line"@) && contains_seq(line, "number="@) && contains_seq(line, "hits="@) {
        match (attr_u32(line, "number"@), attr_u32(line, "hits"@)) {
            (Some(n), Some(h)) => Some((n, h > 0)),
            _ => None,
        }
    } else {
        None
    }
}

/// Reads a `<line number="..." hits="..."/>` element.
pub fn process_line_element(line: &str) -> (r: Option<(u32, bool)>)
    ensures
        r == line_hit(line@),
{
    let l = chars_of(line);
    if !contains(&l, &chars_of("<line")) || !contains(&l, &chars_of("number=")) || !contains(
        &l,
        &chars_of("hits="),
    ) {
        return None;
    }
    let n = match extract_xml_attr_u32(line, "number") {
        Some(n) => n,
        None => return None,
    };
    let h = match extract_xml_attr_u32(line, "hits") {
        Some(h) => h,
        None => return None,
    };
    Some((n, h > 0))
}

/// The directory of a `<source>...</source>` line, trimmed; nothing where it
/// is empty or the closing tag comes before the opening one.
pub open spec fn source_dir(line: Seq<char>) -> Option<Seq<char>> {
    if contains_seq(line, "<source>"@) && contains_seq(line, "</source>"@) {
        let start = first_occurrence(line, "<source>"@)->0 + "<source>"@.len();
        let end = first_occurrence(line, "</source>"@)->0;
        if start <= end {
            let s = trimmed(line.subrange(start, end));
            if s.len() > 0 {
                Some(s)
            } else {
                None
            }
        } else {
            None
        }
    } else {
        None
    }
}

/// Reads the directory of a `<source>` element.
pub fn process_source_element(line: &str) -> (r: Option<String>)
    ensures
        r matches Some(v) ==> source_dir(line@) == Some(v@),
        r is None ==> source_dir(line@) is None,
{
    let l = chars_of(line);
    let open_tag = chars_of("<source>");
    let close_tag = chars_of("</source>");
    let start = match find(&l, &open_tag) {
        Some(i) => i,
        None => {
            proof {
                crate::text::lemma_first_occurrence(l@, open_tag@);
            }
            return None;
        },
    };
    let end = match find(&l, &close_tag) {
        Some(i) => i,
        None => {
            proof {
                crate::text::lemma_first_occurrence(l@, close_tag@);
            }
            return None;
        },
    };
    proof {
        crate::text::lemma_first_occurrence(l@, open_tag@);
        crate::text::lemma_first_occurrence(l@, close_tag@);
    }
    let n = l.len();
    assert(start + open_tag@.len() <= n);
    let from = start + open_tag.len();
    if from > end {
        return None;
    }
    let inner = slice_of(&l, from, end);
    let t = trim(&inner);
    if t.len() == 0 {
        None
    } else {
        Some(string_of(&t))
    }
}

/// `path` made relative to a directory given both as `dir` and as
/// `dir_prefix` (the directory with one trailing `/`).
pub open spec fn relative_to(path: Seq<char>, dir: Seq<char>, dir_prefix: Seq<char>) -> Seq<char> {
    if has_prefix(path, dir_prefix) {
        path.skip(dir_prefix.len() as int)
    } else if has_prefix(path, dir) {
        trim_start_char(path.skip(dir.len() as int), '/')
    } else {
        path
    }
}

/// Strips the working directory from a source path.
pub fn make_source_relative(source: String, work_dir_str: &str, work_dir_prefix: &str) -> (r: String)
    ensures
        r@ == relative_to(source@, work_dir_str@, work_dir_prefix@),
{
    let s = chars_of(source.as_str());
    let prefix = chars_of(work_dir_prefix);
    if starts_with(&s, &prefix) {
        let rest = slice_of(&s, prefix.len(), s.len());
        assert(rest@ =~= source@.skip(prefix@.len() as int));
        return string_of(&rest);
    }
    let dir = chars_of(work_dir_str);
    if starts_with(&s, &dir) {
        let rest = slice_of(&s, dir.len(), s.len());
        assert(rest@ =~= source@.skip(dir@.len() as int));
        let t = trim_start(&rest, '/');
        return string_of(&t);
    }
    source
}

/// Relies on Path::is_absolute, whose answer depends on the platform.
#[verifier::external_body]
fn path_is_absolute(s: &str) -> bool {
    std::path::Path::new(s).is_absolute()
}

/// The path, made relative to the raw working directory where `absolute`
/// says it is still absolute.
pub fn relative_if_absolute(path: String, absolute: bool, raw_str: &str, raw_prefix: &str) -> (r: String)
    ensures
        absolute ==> r@ == relative_to(path@, raw_str@, raw_prefix@),
        !absolute ==> r@ == path@,
{
    if absolute {
        make_source_relative(path, raw_str, raw_prefix)
    } else {
        path
    }
}

/// Strips the working directory from a source path, first in its resolved
/// form, then, where the path is still absolute, in its form as given.
pub fn make_source_relative_with_raw(
    source: String,
    work_dir_str: &str,
    work_dir_prefix: &str,
    work_dir_raw_str: &str,
    work_dir_raw_prefix: &str,
) -> (r: String)
    ensures
        ({
            let s = relative_to(source@, work_dir_str@, work_dir_prefix@);
            r@ == s || r@ == relative_to(s, work_dir_raw_str@, work_dir_raw_prefix@)
        }),
{
    let s = make_source_relative(source, work_dir_str, work_dir_prefix);
    let absolute = path_is_absolute(s.as_str());
    relative_if_absolute(s, absolute, work_dir_raw_str, work_dir_raw_prefix)
}

/// Strips the working directory from a path built from a source and a file
/// name, as `make_source_relative_with_raw` does.
pub fn normalize_combined_path(
    full_path: String,
    work_dir_str: &str,
    work_dir_prefix: &str,
    work_dir_raw_str: &str,
    work_dir_raw_prefix: &str,
) -> (r: String)
    ensures
        ({
            let s = relative_to(full_path@, work_dir_str@, work_dir_prefix@);
            r@ == s || r@ == relative_to(s, work_dir_raw_str@, work_dir_raw_prefix@)
        }),
{
    make_source_relative_with_raw(full_path, work_dir_str, work_dir_prefix, work_dir_raw_str, work_dir_raw_prefix)
}

/// A file name placed under a source directory: the directory without
/// trailing `/` and `\`, a `/`, then the name; the name alone where there is
/// no directory or it is empty.
pub open spec fn combined(source_prefix: Option<Seq<char>>, filename: Seq<char>) -> Seq<char> {
    match source_prefix {
        Some(p) => {
            let t = trim_end_char(trim_end_char(p, '/'), '\\');
            if t.len() == 0 {
                filename
            } else {
                t.push('/') + filename
            }
        },
        None => filename,
    }
}

/// Places a file name under the source directory.
pub fn combine_source_with_filename(source_prefix: &Option<String>, filename: String) -> (r: String)
    ensures
        r@ == combined(
            match source_prefix {
                Some(p) => Some(p@),
                None => None,
            },
            filename@,
        ),
{
    match source_prefix {
        Some(prefix) => {
            let p = chars_of(prefix.as_str());
            let a = trim_end(&p, '/');
            let mut t = trim_end(&a, '\\');
            if t.len() == 0 {
                filename
            } else {
                t.push('/');
                let f = chars_of(filename.as_str());
                append_chars(&mut t, &f);
                string_of(&t)
            }
        },
        None => filename,
    }
}

/// A line of text in lower case.
pub uninterp spec fn lower_of(s: Seq<char>) -> Seq<char>;

/// Relies on str::to_lowercase: the result depends on the characters alone.
#[verifier::external_body]
fn lowercase(s: &str) -> (r: String)
    ensures
        r@ == lower_of(s@),
{
    s.to_lowercase()
}

/// What one line of a report's head says of its format: `Some(true)` for
/// Cobertura, `Some(false)` for the generic format, `None` for neither.
pub open spec fn format_hint(lower: Seq<char>) -> Option<bool> {
    if contains_seq(lower, "<!doctype coverage"@) || (contains_seq(lower, "<coverage"@) && contains_seq(
        lower,
        "branch-rate"@,
    )) {
        Some(true)
    } else if contains_seq(lower, "<coverage version="@) {
        Some(false)
    } else {
        None
    }
}

/// Whether the first lines of a report, in lower case, mark it as Cobertura:
/// the first line that gives a hint decides.
pub open spec fn cobertura_head(lowered: Seq<Seq<char>>) -> bool
    decreases lowered.len(),
{
    if lowered.len() == 0 {
        false
    } else {
        match format_hint(lowered[0]) {
            Some(b) => b,
            None => cobertura_head(lowered.drop_first()),
        }
    }
}

/// The lines in lower case.
pub open spec fn lowered(lines: Seq<String>) -> Seq<Seq<char>> {
    lines.map_values(|l: String| lower_of(l@))
}

/// Lines of a report's head that are looked at.
pub const HEAD_LINES: usize = 5;

/// The hint of one line, given in lower case.
pub fn line_format_hint(lower: &str) -> (r: Option<bool>)
    ensures
        r == format_hint(lower@),
{
    let l = chars_of(lower);
    if contains(&l, &chars_of("<!doctype coverage")) || (contains(&l, &chars_of("<coverage")) && contains(
        &l,
        &chars_of("branch-rate"),
    )) {
        Some(true)
    } else if contains(&l, &chars_of("<coverage version=")) {
        Some(false)
    } else {
        None
    }
}

/// Decides from the first lines of a report whether it is in Cobertura
/// format; only the first `HEAD_LINES` lines count.
pub fn is_cobertura_head(lines: &[String]) -> (r: bool)
    ensures
        r == cobertura_head(
            lowered(lines@.take(if lines@.len() < HEAD_LINES { lines@.len() as int } else { HEAD_LINES as int })),
        ),
{
    let n: usize = if lines.len() < HEAD_LINES { lines.len() } else { HEAD_LINES };
    let ghost all = lowered(lines@.take(n as int));
    let mut i: usize = 0;
    assert(all.subrange(0, n as int) =~= all);
    while i < n
        invariant
            n as int == if lines@.len() < HEAD_LINES { lines@.len() as int } else { HEAD_LINES as int },
            i <= n,
            all == lowered(lines@.take(n as int)),
            cobertura_head(all) == cobertura_head(all.subrange(i as int, n as int)),
        decreases n - i,
    {
        let lower = lowercase(lines[i].as_str());
        let ghost rest = all.subrange(i as int, n as int);
        assert(rest[0] == lower@);
        assert(rest.drop_first() =~= all.subrange(i + 1, n as int));
        match line_format_hint(lower.as_str()) {
            Some(b) => {
                assert(cobertura_head(rest) == b);
                return b;
            },
            None => {},
        }
        i = i + 1;
    }
    assert(all.subrange(n as int, n as int).len() == 0);
    false
}

/// Whether line `n` has a record in `lines`.
pub open spec fn listed(lines: Seq<(u32, bool)>, n: u32) -> bool {
    exists|i: int| 0 <= i < lines.len() && #[trigger] lines[i].0 == n
}

/// Whether some record of line `n` in `lines` is covered.
pub open spec fn hit(lines: Seq<(u32, bool)>, n: u32) -> bool {
    exists|i: int| 0 <= i < lines.len() && #[trigger] lines[i].0 == n && lines[i].1
}

/// `summary` has one entry per line that `lines` records, in increasing
/// order of line number, covered where any record of that line is.
pub open spec fn summarizes(summary: Seq<(u32, bool)>, lines: Seq<(u32, bool)>) -> bool {
    &&& forall|a: int, b: int| 0 <= a < b < summary.len() ==> summary[a].0 < summary[b].0
    &&& forall|j: int|
        0 <= j < summary.len() ==> listed(lines, #[trigger] summary[j].0) && summary[j].1 == hit(
            lines,
            summary[j].0,
        )
    &&& forall|n: u32| listed(lines, n) ==> exists|j: int| 0 <= j < summary.len() && #[trigger] summary[j].0 == n
}

proof fn lemma_push_record(pre: Seq<(u32, bool)>, x: (u32, bool), m: u32)
    ensures
        listed(pre.push(x), m) == (listed(pre, m) || m == x.0),
        hit(pre.push(x), m) == (hit(pre, m) || (m == x.0 && x.1)),
{
    let post = pre.push(x);
    if listed(pre, m) {
        let i = choose|i: int| 0 <= i < pre.len() && #[trigger] pre[i].0 == m;
        assert(post[i] == pre[i]);
    }
    if hit(pre, m) {
        let i = choose|i: int| 0 <= i < pre.len() && #[trigger] pre[i].0 == m && pre[i].1;
        assert(post[i] == pre[i]);
    }
    if m == x.0 {
        assert(post[pre.len() as int] == x);
    }
    if listed(post, m) {
        let i = choose|i: int| 0 <= i < post.len() && #[trigger] post[i].0 == m;
        if i < pre.len() {
            assert(post[i] == pre[i]);
        }
    }
    if hit(post, m) {
        let i = choose|i: int| 0 <= i < post.len() && #[trigger] post[i].0 == m && post[i].1;
        if i < pre.len() {
            assert(post[i] == pre[i]);
        }
    }
}

/// One entry per recorded line, in increasing order, covered where any
/// record of the line is.
pub fn line_summary(lines: &[(u32, bool)]) -> (r: Vec<(u32, bool)>)
    ensures
        summarizes(r@, lines@),
{
    let mut r: Vec<(u32, bool)> = Vec::new();
    let mut i: usize = 0;
    assert(lines@.take(0) =~= Seq::<(u32, bool)>::empty());
    while i < lines.len()
        invariant
            i <= lines@.len(),
            summarizes(r@, lines@.take(i as int)),
        decreases lines@.len() - i,
    {
        let (n, c) = lines[i];
        let ghost pre = lines@.take(i as int);
        let ghost post = lines@.take(i + 1);
        assert(post =~= pre.push((n, c)));
        let mut p: usize = 0;
        while p < r.len() && r[p].0 < n
            invariant
                p <= r@.len(),
                forall|k: int| 0 <= k < p ==> r@[k].0 < n,
            decreases r@.len() - p,
        {
            p = p + 1;
        }
        let ghost old_r = r@;
        if p < r.len() && r[p].0 == n {
            let covered = r[p].1 || c;
            r.remove(p);
            r.insert(p, (n, covered));
            assert(r@ =~= old_r.update(p as int, (n, covered)));
            assert forall|j: int| 0 <= j < r@.len() implies listed(post, #[trigger] r@[j].0) && r@[j].1 == hit(
                post,
                r@[j].0,
            ) by {
                lemma_push_record(pre, (n, c), r@[j].0);
                if j != p {
                    assert(old_r[j].0 != n);
                }
            }
            assert forall|m: u32| listed(post, m) implies exists|j: int|
                0 <= j < r@.len() && #[trigger] r@[j].0 == m by {
                lemma_push_record(pre, (n, c), m);
                if m == n {
                    assert(r@[p as int].0 == m);
                } else {
                    let j = choose|j: int| 0 <= j < old_r.len() && #[trigger] old_r[j].0 == m;
                    assert(r@[j].0 == m);
                }
            }
        } else {
            r.insert(p, (n, c));
            assert(r@ =~= old_r.insert(p as int, (n, c)));
            proof {
                lemma_push_record(pre, (n, c), n);
                if listed(pre, n) {
                    let j = choose|j: int| 0 <= j < old_r.len() && #[trigger] old_r[j].0 == n;
                    if j < p {
                    } else if j > p {
                        assert(old_r[p as int].0 < old_r[j].0);
                    }
                }
            }
            assert forall|a: int, b: int| 0 <= a < b < r@.len() implies r@[a].0 < r@[b].0 by {
                if b < p {
                } else if b == p {
                    assert(r@[a] == old_r[a]);
                } else if a < p {
                    assert(r@[b] == old_r[b - 1]);
                    if b - 1 > p {
                        assert(old_r[p as int].0 < old_r[b - 1].0);
                    }
                } else if a == p {
                    assert(r@[b] == old_r[b - 1]);
                    if b - 1 > p {
                        assert(old_r[p as int].0 < old_r[b - 1].0);
                    }
                } else {
                    assert(r@[a] == old_r[a - 1]);
                    assert(r@[b] == old_r[b - 1]);
                }
            }
            assert forall|j: int| 0 <= j < r@.len() implies listed(post, #[trigger] r@[j].0) && r@[j].1 == hit(
                post,
                r@[j].0,
            ) by {
                lemma_push_record(pre, (n, c), r@[j].0);
                if j < p {
                    assert(r@[j] == old_r[j]);
                } else if j > p {
                    assert(r@[j] == old_r[j - 1]);
                    if j - 1 > p {
                        assert(old_r[p as int].0 < old_r[j - 1].0);
                    }
                }
            }
            assert forall|m: u32| listed(post, m) implies exists|j: int|
                0 <= j < r@.len() && #[trigger] r@[j].0 == m by {
                lemma_push_record(pre, (n, c), m);
                if m == n {
                    assert(r@[p as int].0 == m);
                } else {
                    let j = choose|j: int| 0 <= j < old_r.len() && #[trigger] old_r[j].0 == m;
                    if j < p {
                        assert(r@[j].0 == m);
                    } else {
                        assert(r@[j + 1].0 == m);
                    }
                }
            }
        }
        i = i + 1;
    }
    assert(lines@.take(lines@.len() as int) =~= lines@);
    r
}

/// One `<lineToCover>` element of the generic coverage format.
pub open spec fn line_xml(entry: (u32, bool)) -> Seq<char> {
    "    <lineToCover lineNumber=\""@ + decimal(entry.0 as nat) + "\" covered=\""@ + (if entry.1 {
        "true"@
    } else {
        "false"@
    }) + "\"/>\n"@
}

/// The `<lineToCover>` elements of a summary, in order.
pub open spec fn lines_xml(summary: Seq<(u32, bool)>) -> Seq<char>
    decreases summary.len(),
{
    if summary.len() == 0 {
        Seq::empty()
    } else {
        lines_xml(summary.drop_last()) + line_xml(summary.last())
    }
}

/// The `<file>` element of a file with its summary.
pub open spec fn file_xml(path: Seq<char>, summary: Seq<(u32, bool)>) -> Seq<char> {
    "  <file path=\""@ + path + "\">\n"@ + lines_xml(summary) + "  </file>\n"@
}

/// The `<file>` element for the line records of one file, one
/// `<lineToCover>` per line in increasing order; nothing where there is no
/// record.
pub fn render_file(path: &str, lines: &[(u32, bool)]) -> (r: String)
    ensures
        lines@.len() == 0 ==> r@.len() == 0,
        lines@.len() > 0 ==> exists|s: Seq<(u32, bool)>| summarizes(s, lines@) && r@ == file_xml(path@, s),
{
    if lines.len() == 0 {
        return String::new();
    }
    let summary = line_summary(lines);
    let mut out = chars_of("  <file path=\"");
    append_str(&mut out, path);
    append_str(&mut out, "\">\n");
    let ghost head = out@;
    let mut i: usize = 0;
    while i < summary.len()
        invariant
            i <= summary@.len(),
            out@ == head + lines_xml(summary@.take(i as int)),
        decreases summary@.len() - i,
    {
        let (n, c) = summary[i];
        let ghost before = out@;
        append_str(&mut out, "    <lineToCover lineNumber=\"");
        let d = decimal_of(n as u64);
        append_chars(&mut out, &d);
        append_str(&mut out, "\" covered=\"");
        if c {
            append_str(&mut out, "true");
        } else {
            append_str(&mut out, "false");
        }
        append_str(&mut out, "\"/>\n");
        assert(out@ =~= before + line_xml((n, c)));
        assert(summary@.take(i + 1).drop_last() =~= summary@.take(i as int));
        i = i + 1;
    }
    append_str(&mut out, "  </file>\n");
    assert(summary@.take(summary@.len() as int) =~= summary@);
    assert(out@ =~= file_xml(path@, summary@));
    string_of(&out)
}

/// The working directory in the two forms that paths are made relative to:
/// as resolved on disk, and as given.
#[derive(Clone, Debug)]
pub struct WorkDirs {
    /// The resolved directory without trailing `/`.
    pub resolved: String,
    /// The resolved directory with one trailing `/`.
    pub resolved_prefix: String,
    /// The directory as given.
    pub raw: String,
    /// The directory as given, with one trailing `/`.
    pub raw_prefix: String,
}

/// Whether `r` is `path` made relative to the working directory: to its
/// resolved form, then, where the platform still finds the path absolute,
/// to its form as given.
pub open spec fn relative_to_work_dir(r: Seq<char>, path: Seq<char>, dirs: WorkDirs) -> bool {
    let s = relative_to(path, dirs.resolved@, dirs.resolved_prefix@);
    r == s || r == relative_to(s, dirs.raw@, dirs.raw_prefix@)
}

/// Turns a Cobertura report, fed one line at a time, into `<file>` elements
/// of the generic coverage format.
pub struct CoberturaConverter {
    pub dirs: WorkDirs,
    /// The first source directory of the report, made relative.
    pub source_prefix: Option<String>,
    /// The file whose lines are being collected.
    pub current_file: Option<String>,
    /// The line records of the current file.
    pub lines: Vec<(u32, bool)>,
}

/// Whether `r` is the `<file>` element of `path` with the line records
/// `lines` (nothing where there is none).
pub open spec fn renders(r: Seq<char>, path: Seq<char>, lines: Seq<(u32, bool)>) -> bool {
    &&& lines.len() == 0 ==> r.len() == 0
    &&& lines.len() > 0 ==> exists|s: Seq<(u32, bool)>| summarizes(s, lines) && r == file_xml(path, s)
}

impl CoberturaConverter {
    /// A converter that has seen no line.
    pub fn new(dirs: WorkDirs) -> (r: Self)
        ensures
            r.dirs == dirs,
            r.source_prefix is None,
            r.current_file is None,
            r.lines@.len() == 0,
    {
        CoberturaConverter { dirs, source_prefix: None, current_file: None, lines: Vec::new() }
    }

    /// Takes one line of the report. A `<source>` line sets the source
    /// directory where none is set yet; a `<class>` line starts a new file
    /// and hands back the element of the file before it; a `<line>` line
    /// records a line of the current file; other lines change nothing.
    pub fn feed(&mut self, line: &str) -> (r: Option<String>)
        ensures
            final(self).dirs == old(self).dirs,
            source_dir(line@) matches Some(src) ==> {
                &&& r is None
                &&& final(self).current_file == old(self).current_file
                &&& final(self).lines@ == old(self).lines@
                &&& old(self).source_prefix is Some ==> final(self).source_prefix == old(self).source_prefix
                &&& old(self).source_prefix is None ==> (final(self).source_prefix matches Some(p)
                    && relative_to_work_dir(p@, src, old(self).dirs))
            },
            source_dir(line@) is None && class_filename(line@) is Some ==> {
                let f = class_filename(line@)->0;
                let prefix = match old(self).source_prefix {
                    Some(p) => Some(p@),
                    None => None,
                };
                &&& final(self).source_prefix == old(self).source_prefix
                &&& final(self).lines@.len() == 0
                &&& final(self).current_file matches Some(c) && relative_to_work_dir(
                    c@,
                    combined(prefix, f),
                    old(self).dirs,
                )
                &&& old(self).current_file is None ==> r is None
                &&& old(self).current_file matches Some(p) ==> (r matches Some(x) && renders(
                    x@,
                    p@,
                    old(self).lines@,
                ))
            },
            source_dir(line@) is None && class_filename(line@) is None ==> {
                &&& r is None
                &&& final(self).source_prefix == old(self).source_prefix
                &&& final(self).current_file == old(self).current_file
                &&& final(self).lines@ == match line_hit(line@) {
                    Some(h) => old(self).lines@.push(h),
                    None => old(self).lines@,
                }
            },
    {
        match process_source_element(line) {
            Some(src) => {
                if self.source_prefix.is_none() {
                    let rel = make_source_relative_with_raw(
                        src,
                        self.dirs.resolved.as_str(),
                        self.dirs.resolved_prefix.as_str(),
                        self.dirs.raw.as_str(),
                        self.dirs.raw_prefix.as_str(),
                    );
                    self.source_prefix = Some(rel);
                }
                return None;
            },
            None => {},
        }
        match process_class_element(line) {
            Some(filename) => {
                let done = match &self.current_file {
                    Some(p) => Some(render_file(p.as_str(), self.lines.as_slice())),
                    None => None,
                };
                self.lines.clear();
                let full = combine_source_with_filename(&self.source_prefix, filename);
                let path = normalize_combined_path(
                    full,
                    self.dirs.resolved.as_str(),
                    self.dirs.resolved_prefix.as_str(),
                    self.dirs.raw.as_str(),
                    self.dirs.raw_prefix.as_str(),
                );
                self.current_file = Some(path);
                return done;
            },
            None => {},
        }
        match process_line_element(line) {
            Some(h) => self.lines.push(h),
            None => {},
        }
        None
    }

    /// The element of the last file, once the report has ended.
    pub fn finish(&self) -> (r: Option<String>)
        ensures
            self.current_file is None ==> r is None,
            self.current_file matches Some(p) ==> (r matches Some(x) && renders(x@, p@, self.lines@)),
    {
        match &self.current_file {
            Some(p) => Some(render_file(p.as_str(), self.lines.as_slice())),
            None => None,
        }
    }
}

/// A directory with exactly one trailing `/`.
pub open spec fn dir_prefix(dir: Seq<char>) -> Seq<char> {
    trim_end_char(dir, '/').push('/')
}

/// Writes a directory with exactly one trailing `/`.
pub fn with_trailing_slash(dir: &str) -> (r: String)
    ensures
        r@ == dir_prefix(dir@),
{
    let d = chars_of(dir);
    let mut t = trim_end(&d, '/');
    t.push('/');
    string_of(&t)
}

} // verus!
