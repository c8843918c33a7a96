use vstd::prelude::*;

use crate::text::{chars_of, parse_u32, u32_of, has_prefix, owned, same_str, slice_of, starts_with, string_of};
use crate::types::{Duplication, DuplicationBlock, DuplicationFile, DuplicationsResponse, Measure, TreeComponent};

verus! {

/// One block of the current file and a place elsewhere that duplicates it.
#[derive(Clone, Debug)]
pub struct DuplicationBlockDetail {
    pub from_line: u32,
    pub size: u32,
    pub duplicated_in: String,
    pub duplicated_in_line: u32,
}

/// The file that reference `r` stands for: the first entry of the table
/// with that id.
pub open spec fn file_of(files: Seq<(String, DuplicationFile)>, r: Seq<char>) -> Option<DuplicationFile>
    decreases files.len(),
{
    if files.len() == 0 {
        None
    } else if files[0].0@ == r {
        Some(files[0].1)
    } else {
        file_of(files.drop_first(), r)
    }
}

/// Whether block `b` lies in the file keyed `current`.
pub open spec fn in_current(files: Seq<(String, DuplicationFile)>, b: DuplicationBlock, current: Seq<char>) -> bool {
    file_of(files, b.file_ref@) matches Some(f) && f.key@ == current
}

/// Index of the first block of the group that lies in the current file.
pub open spec fn current_block(
    files: Seq<(String, DuplicationFile)>,
    blocks: Seq<DuplicationBlock>,
    current: Seq<char>,
) -> Option<int> {
    if exists|i: int| 0 <= i < blocks.len() && in_current(files, blocks[i], current) {
        Some(
            choose|i: int|
                0 <= i < blocks.len() && in_current(files, blocks[i], current) && forall|j: int|
                    0 <= j < i ==> !in_current(files, #[trigger] blocks[j], current),
        )
    } else {
        None
    }
}

/// The name under which a file is shown: its display name, else its key.
pub open spec fn shown_name(f: DuplicationFile) -> String {
    match f.name {
        Some(n) => n,
        None => f.key,
    }
}

/// The records for block `cur` of the current file against `others`, in
/// order: one for each block that resolves to another file.
pub open spec fn details_against(
    files: Seq<(String, DuplicationFile)>,
    cur: DuplicationBlock,
    others: Seq<DuplicationBlock>,
    current: Seq<char>,
) -> Seq<DuplicationBlockDetail>
    decreases others.len(),
{
    if others.len() == 0 {
        Seq::empty()
    } else {
        let rest = details_against(files, cur, others.drop_last(), current);
        let ob = others.last();
        match file_of(files, ob.file_ref@) {
            Some(f) => if f.key@ != current {
                rest.push(
                    DuplicationBlockDetail {
                        from_line: cur.from,
                        size: cur.size,
                        duplicated_in: shown_name(f),
                        duplicated_in_line: ob.from,
                    },
                )
            } else {
                rest
            },
            None => rest,
        }
    }
}

/// The records of one duplication group.
pub open spec fn group_details(
    files: Seq<(String, DuplicationFile)>,
    blocks: Seq<DuplicationBlock>,
    current: Seq<char>,
) -> Seq<DuplicationBlockDetail> {
    match current_block(files, blocks, current) {
        Some(i) => details_against(files, blocks[i], blocks, current),
        None => Seq::empty(),
    }
}

/// The records of all groups, in order.
pub open spec fn all_details(
    files: Seq<(String, DuplicationFile)>,
    groups: Seq<Duplication>,
    current: Seq<char>,
) -> Seq<DuplicationBlockDetail>
    decreases groups.len(),
{
    if groups.len() == 0 {
        Seq::empty()
    } else {
        all_details(files, groups.drop_last(), current) + group_details(files, groups.last().blocks@, current)
    }
}

/// Looks up a file reference in the table.
pub fn resolve<'a>(files: &'a Vec<(String, DuplicationFile)>, r: &str) -> (out: Option<&'a DuplicationFile>)
    ensures
        out matches Some(f) ==> file_of(files@, r@) == Some(*f),
        out is None ==> file_of(files@, r@) is None,
{
    let mut i: usize = 0;
    assert(files@.subrange(0, files@.len() as int) =~= files@);
    while i < files.len()
        invariant
            i <= files@.len(),
            file_of(files@, r@) == file_of(files@.subrange(i as int, files@.len() as int), r@),
        decreases files@.len() - i,
    {
        let ghost rest = files@.subrange(i as int, files@.len() as int);
        assert(rest.drop_first() =~= files@.subrange(i + 1, files@.len() as int));
        if same_str(files[i].0.as_str(), r) {
            return Some(&files[i].1);
        }
        i = i + 1;
    }
    None
}

fn name_of(f: &DuplicationFile) -> (r: String)
    ensures
        r == shown_name(*f),
{
    match &f.name {
        Some(n) => n.clone(),
        None => f.key.clone(),
    }
}

/// Whether block `b` lies in the file keyed `current`.
fn is_current(files: &Vec<(String, DuplicationFile)>, b: &DuplicationBlock, current: &str) -> (r: bool)
    ensures
        r == in_current(files@, *b, current@),
{
    match resolve(files, b.file_ref.as_str()) {
        Some(f) => same_str(f.key.as_str(), current),
        None => false,
    }
}

/// The records of one duplication group against the current file.
pub fn details_of_group(files: &Vec<(String, DuplicationFile)>, blocks: &Vec<DuplicationBlock>, current: &str) -> (r: Vec<
    DuplicationBlockDetail,
>)
    ensures
        r@ == group_details(files@, blocks@, current@),
{
    let mut found: Option<usize> = None;
    let mut i: usize = 0;
    while i < blocks.len() && found.is_none()
        invariant
            i <= blocks@.len(),
            found is None ==> forall|j: int| 0 <= j < i ==> !in_current(files@, #[trigger] blocks@[j], current@),
            found matches Some(k) ==> k < blocks@.len() && in_current(files@, blocks@[k as int], current@)
                && forall|j: int| 0 <= j < k ==> !in_current(files@, #[trigger] blocks@[j], current@),
        decreases blocks@.len() - i + if found is None { 1int } else { 0int },
    {
        if is_current(files, &blocks[i], current) {
            found = Some(i);
        } else {
            i = i + 1;
        }
    }
    let mut out: Vec<DuplicationBlockDetail> = Vec::new();
    match found {
        None => {
            assert(current_block(files@, blocks@, current@) is None);
            out
        },
        Some(k) => {
            let ghost cb = current_block(files@, blocks@, current@);
            assert(cb is Some);
            assert(cb == Some(k as int)) by {
                let c = cb->0;
                if c < k {
                    assert(!in_current(files@, blocks@[c], current@));
                } else if c > k {
                    assert(!in_current(files@, blocks@[k as int], current@));
                }
            }
            let cur = &blocks[k];
            let mut m: usize = 0;
            while m < blocks.len()
                invariant
                    k < blocks@.len(),
                    cur == blocks@[k as int],
                    m <= blocks@.len(),
                    out@ == details_against(files@, *cur, blocks@.subrange(0, m as int), current@),
                decreases blocks@.len() - m,
            {
                let ob = &blocks[m];
                let ghost pre = blocks@.subrange(0, m as int);
                let ghost post = blocks@.subrange(0, m + 1);
                assert(post.drop_last() =~= pre);
                assert(post.last() == *ob);
                match resolve(files, ob.file_ref.as_str()) {
                    Some(f) => {
                        if !same_str(f.key.as_str(), current) {
                            out.push(
                                DuplicationBlockDetail {
                                    from_line: cur.from,
                                    size: cur.size,
                                    duplicated_in: name_of(f),
                                    duplicated_in_line: ob.from,
                                },
                            );
                        }
                    },
                    None => {},
                }
                m = m + 1;
            }
            assert(blocks@.subrange(0, blocks@.len() as int) =~= blocks@);
            out
        },
    }
}

/// Resolves the duplication groups of a response against the file keyed
/// `current_file_key`: for each group, the first block in the current file is
/// paired with every block of the group in another file. Blocks whose
/// reference is missing from the table are skipped.
pub fn extract_duplication_blocks(response: &DuplicationsResponse, current_file_key: &str) -> (r: Vec<
    DuplicationBlockDetail,
>)
    ensures
        r@ == all_details(response.files@, response.duplications@, current_file_key@),
{
    let mut out: Vec<DuplicationBlockDetail> = Vec::new();
    let mut g: usize = 0;
    while g < response.duplications.len()
        invariant
            g <= response.duplications@.len(),
            out@ == all_details(response.files@, response.duplications@.subrange(0, g as int), current_file_key@),
        decreases response.duplications@.len() - g,
    {
        let ghost pre = response.duplications@.subrange(0, g as int);
        let ghost post = response.duplications@.subrange(0, g + 1);
        assert(post.drop_last() =~= pre);
        let mut part = details_of_group(&response.files, &response.duplications[g].blocks, current_file_key);
        out.append(&mut part);
        g = g + 1;
    }
    assert(response.duplications@.subrange(0, response.duplications@.len() as int) =~= response.duplications@);
    out
}

proof fn lemma_no_other_file(
    files: Seq<(String, DuplicationFile)>,
    cur: DuplicationBlock,
    others: Seq<DuplicationBlock>,
    current: Seq<char>,
)
    requires
        forall|i: int|
            0 <= i < others.len() ==> (file_of(files, #[trigger] others[i].file_ref@) matches Some(f) ==> f.key@
                == current),
    ensures
        details_against(files, cur, others, current) == Seq::<DuplicationBlockDetail>::empty(),
    decreases others.len(),
{
    if others.len() > 0 {
        let last = others.len() - 1;
        assert(others.last() == others[last]);
        assert forall|i: int| 0 <= i < others.drop_last().len() implies (file_of(
            files,
            #[trigger] others.drop_last()[i].file_ref@,
        ) matches Some(f) ==> f.key@ == current) by {
            assert(others.drop_last()[i] == others[i]);
        }
        lemma_no_other_file(files, cur, others.drop_last(), current);
    }
}

/// A duplication group whose blocks all lie in the current file (or cannot be
/// resolved) yields no record: a file is never reported as duplicating
/// itself.
pub proof fn law_no_self_duplicates(
    files: Seq<(String, DuplicationFile)>,
    blocks: Seq<DuplicationBlock>,
    current: Seq<char>,
)
    requires
        forall|i: int|
            0 <= i < blocks.len() ==> (file_of(files, #[trigger] blocks[i].file_ref@) matches Some(f) ==> f.key@
                == current),
    ensures
        group_details(files, blocks, current) == Seq::<DuplicationBlockDetail>::empty(),
{
    match current_block(files, blocks, current) {
        Some(i) => lemma_no_other_file(files, blocks[i], blocks, current),
        None => {},
    }
}

/// The file path of a component key: the key without its `project:` prefix,
/// or the key itself where it has no such prefix.
pub open spec fn path_of(component: Seq<char>, project_key: Seq<char>) -> Seq<char> {
    let p = project_key.push(':');
    if has_prefix(component, p) {
        component.skip(p.len() as int)
    } else {
        component
    }
}

/// Strips the `project:` prefix from a component key.
pub fn extract_path(component: &str, project_key: &str) -> (r: String)
    ensures
        r@ == path_of(component@, project_key@),
{
    let c = chars_of(component);
    let mut p = chars_of(project_key);
    p.push(':');
    if starts_with(&c, &p) {
        let rest = slice_of(&c, p.len(), c.len());
        assert(rest@ =~= c@.skip(p@.len() as int));
        string_of(&rest)
    } else {
        owned(component)
    }
}

/// The value of the first measure of metric `name`, where it has one.
pub open spec fn value_of(measures: Seq<Measure>, name: Seq<char>) -> Option<String>
    decreases measures.len(),
{
    if measures.len() == 0 {
        None
    } else if measures[0].metric@ == name {
        measures[0].value
    } else {
        value_of(measures.drop_first(), name)
    }
}

/// The value of the first measure of metric `metric_name`.
pub fn measure_value(measures: &[Measure], metric_name: &str) -> (r: Option<String>)
    ensures
        r == value_of(measures@, metric_name@),
{
    let mut i: usize = 0;
    assert(measures@.subrange(0, measures@.len() as int) =~= measures@);
    while i < measures.len()
        invariant
            i <= measures@.len(),
            value_of(measures@, metric_name@) == value_of(measures@.subrange(i as int, measures@.len() as int), metric_name@),
        decreases measures@.len() - i,
    {
        let ghost rest = measures@.subrange(i as int, measures@.len() as int);
        assert(rest.drop_first() =~= measures@.subrange(i + 1, measures@.len() as int));
        if same_str(measures[i].metric.as_str(), metric_name) {
            return match &measures[i].value {
                Some(v) => Some(v.clone()),
                None => None,
            };
        }
        i = i + 1;
    }
    None
}

/// Relies on str::parse, turning its error into `None`.
#[verifier::external_body]
fn parse_value<T: core::str::FromStr>(s: &str) -> Option<T> {
    s.parse().ok()
}

/// Relies on Default::default of `T`.
#[verifier::external_body]
fn default_value<T: Default>() -> T {
    T::default()
}

/// Parses the value of the first measure of metric `metric_name`; the
/// type's default where there is no such measure, it has no value, or the
/// value does not parse.
pub fn parse_measure<T: core::str::FromStr + Default>(measures: &[Measure], metric_name: &str) -> T {
    match measure_value(measures, metric_name) {
        Some(v) => match parse_value(v.as_str()) {
            Some(x) => x,
            None => default_value(),
        },
        None => default_value(),
    }
}

/// Whether a component has a `duplicated_lines` value other than `0`.
pub open spec fn has_duplicated_lines(c: TreeComponent) -> bool {
    exists|i: int| 0 <= i < c.measures@.len() && #[trigger] nonzero_duplication(c.measures@[i])
}

/// Whether a measure is a `duplicated_lines` value other than `0`.
pub open spec fn nonzero_duplication(m: Measure) -> bool {
    m.metric@ == "duplicated_lines"@ && (m.value matches Some(v) && v@ != "0"@)
}

/// Whether a file reports duplicated lines: any of its `duplicated_lines`
/// measures has a value other than `0`.
pub fn reports_duplication(c: &TreeComponent) -> (r: bool)
    ensures
        r == has_duplicated_lines(*c),
{
    let ms = &c.measures;
    let mut i: usize = 0;
    while i < ms.len()
        invariant
            i <= ms@.len(),
            ms == &c.measures,
            forall|j: int| 0 <= j < i ==> !#[trigger] nonzero_duplication(ms@[j]),
        decreases ms@.len() - i,
    {
        let m = &ms[i];
        if same_str(m.metric.as_str(), "duplicated_lines") {
            match &m.value {
                Some(v) => {
                    if !same_str(v.as_str(), "0") {
                        assert(nonzero_duplication(ms@[i as int]));
                        return true;
                    }
                },
                None => {},
            }
        }
        i = i + 1;
    }
    false
}

/// The value of the first measure of metric `name` read as an unsigned
/// 32-bit number; `0` where there is no such measure, it has no value, or the
/// value does not parse.
pub open spec fn measure_u32_of(measures: Seq<Measure>, name: Seq<char>) -> u32 {
    match value_of(measures, name) {
        Some(v) => match u32_of(v@) {
            Some(n) => n,
            None => 0,
        },
        None => 0,
    }
}

/// Reads the first measure of metric `metric_name` as an unsigned 32-bit
/// number, `0` where it is missing or does not parse.
pub fn measure_u32(measures: &[Measure], metric_name: &str) -> (r: u32)
    ensures
        r == measure_u32_of(measures@, metric_name@),
{
    match measure_value(measures, metric_name) {
        Some(v) => {
            let c = chars_of(v.as_str());
            match parse_u32(&c) {
                Some(n) => n,
                None => 0,
            }
        },
        None => 0,
    }
}

/// The components that report duplicated lines, in order.
pub fn keep_duplicated(components: Vec<TreeComponent>) -> (r: Vec<TreeComponent>)
    ensures
        r@ == components@.filter(|c: TreeComponent| has_duplicated_lines(c)),
{
    let ghost all = components@;
    let mut rest = components;
    let mut out: Vec<TreeComponent> = Vec::new();
    let ghost mut i: int = 0;
    while rest.len() > 0
        invariant
            0 <= i <= all.len(),
            rest@ == all.subrange(i as int, all.len() as int),
            out@ == all.subrange(0, i as int).filter(|c: TreeComponent| has_duplicated_lines(c)),
        decreases rest@.len(),
    {
        let ghost pre = all.subrange(0, i as int);
        let ghost post = all.subrange(0, i + 1);
        assert(post.drop_last() =~= pre);
        let c = rest.remove(0);
        assert(c == all[i as int]);
        assert(post.last() == c);
        reveal(Seq::filter);
        if reports_duplication(&c) {
            out.push(c);
        }
        proof {
            i = i + 1;
        }
        assert(rest@ =~= all.subrange(i as int, all.len() as int));
    }
    assert(all.subrange(0, all.len() as int) =~= all);
    out
}

} // verus!
