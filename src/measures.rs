use vstd::prelude::*;

use crate::text::same_str;

verus! {

/// The metrics shown where none are asked for.
pub open spec fn default_metrics() -> Seq<Seq<char>> {
    seq![
        "ncloc"@,
        "coverage"@,
        "duplicated_lines_density"@,
        "bugs"@,
        "vulnerabilities"@,
        "code_smells"@,
        "sqale_debt_ratio"@,
        "reliability_rating"@,
        "security_rating"@,
        "sqale_rating"@,
    ]
}

/// Number of default metrics.
pub const DEFAULT_METRIC_COUNT: usize = 10;

/// The default metric at index `i`.
pub fn default_metric(i: usize) -> (r: &'static str)
    requires
        i < DEFAULT_METRIC_COUNT,
    ensures
        r@ == default_metrics()[i as int],
{
    match i {
        0 => "ncloc",
        1 => "coverage",
        2 => "duplicated_lines_density",
        3 => "bugs",
        4 => "vulnerabilities",
        5 => "code_smells",
        6 => "sqale_debt_ratio",
        7 => "reliability_rating",
        8 => "security_rating",
        _ => "sqale_rating",
    }
}

/// Whether `name` is one of the default metrics.
pub fn is_known_metric(name: &String) -> (r: bool)
    ensures
        r == default_metrics().contains(name@),
{
    let mut i: usize = 0;
    while i < DEFAULT_METRIC_COUNT
        invariant
            i <= DEFAULT_METRIC_COUNT,
            forall|j: int| 0 <= j < i ==> default_metrics()[j] != name@,
        decreases DEFAULT_METRIC_COUNT - i,
    {
        if same_str(default_metric(i), name.as_str()) {
            assert(default_metrics()[i as int] == name@);
            return true;
        }
        i = i + 1;
    }
    false
}

} // verus!
