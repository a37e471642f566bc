//! Chart titles. A trend chart is titled `<Metric> trend  average <a> | peak
//! <p>`; its accessible form names the metric in capitals and sets the
//! average and the peak apart, so that they can be shown on their own.

use vstd::prelude::*;
use crate::text::{
    find_from, is_white_space, lemma_find_from_append, lemma_trim_end_at, lemma_trim_start_at,
    split_once, split_once_spec, strip_prefix, strip_prefix_spec, to_uppercase, trim, trim_spec,
    unicode_uppercase,
};

verus! {

/// The average and the peak written in `rest` (`average <a> | peak <p>`).
pub open spec fn parse_average_peak_spec(rest: Seq<char>) -> Option<(Seq<char>, Seq<char>)> {
    match strip_prefix_spec(rest, "average "@) {
        None => None,
        Some(after) => split_once_spec(after, " | peak "@),
    }
}

/// Reads `average <a> | peak <p>`: the text between `average ` and the
/// first ` | peak `, and the text after it.
pub fn parse_average_peak(rest: &str) -> (r: Option<(String, String)>)
    ensures
        r matches Some((a, p)) ==> parse_average_peak_spec(rest@) == Some((a@, p@)),
        r is None ==> parse_average_peak_spec(rest@) is None,
{
    let after = match strip_prefix(rest, "average ") {
        Some(t) => t,
        None => {
            return None;
        },
    };
    match split_once(after, " | peak ") {
        Some((avg, peak)) => Some((String::from_str(avg), String::from_str(peak))),
        None => None,
    }
}

/// A chart title split at its first ` trend`: the metric before it, and the
/// trimmed text after it (all of the title and nothing, where there is no
/// ` trend`).
pub open spec fn title_parts(title: Seq<char>) -> (Seq<char>, Seq<char>) {
    match split_once_spec(title, " trend"@) {
        Some((metric, rest)) => (metric, trim_spec(rest)),
        None => (title, Seq::empty()),
    }
}

/// What a chart title shows after its heading.
pub enum ChartTitleDetail {
    /// The average and the peak, each shown on its own.
    AveragePeak(String, String),
    /// Other text, in capitals and led by a space.
    Note(String),
    /// Nothing.
    Empty,
}

/// The accessible form of a chart title.
pub struct ChartTitle {
    /// ` <METRIC> TREND `.
    pub heading: String,
    pub detail: ChartTitleDetail,
}

/// The accessible form of a chart title: the metric in capitals as the
/// heading, then the average and the peak where the rest of the title
/// gives them, else the rest of the title in capitals, if any.
pub fn accessible_chart_title(title: &str) -> (r: ChartTitle)
    ensures
        r.heading@ == " "@ + unicode_uppercase(title_parts(title@).0) + " TREND "@,
        match r.detail {
            ChartTitleDetail::AveragePeak(a, p) => parse_average_peak_spec(title_parts(title@).1)
                == Some((a@, p@)),
            ChartTitleDetail::Note(n) => {
                &&& parse_average_peak_spec(title_parts(title@).1) is None
                &&& title_parts(title@).1.len() > 0
                &&& n@ == " "@ + unicode_uppercase(title_parts(title@).1)
            },
            ChartTitleDetail::Empty => {
                &&& parse_average_peak_spec(title_parts(title@).1) is None
                &&& title_parts(title@).1.len() == 0
            },
        },
{
    let (metric, rest) = match split_once(title, " trend") {
        Some((m, r)) => (m, trim(r)),
        None => {
            proof {
                reveal_strlit("");
            }
            let empty = "";
            assert(empty@ =~= Seq::<char>::empty());
            (title, empty)
        },
    };
    assert(metric@ == title_parts(title@).0);
    assert(rest@ == title_parts(title@).1);
    let mut heading = String::from_str(" ");
    let upper = to_uppercase(metric);
    heading.append(upper.as_str());
    heading.append(" TREND ");
    let detail = match parse_average_peak(rest) {
        Some((avg, peak)) => ChartTitleDetail::AveragePeak(avg, peak),
        None => {
            if rest.unicode_len() > 0 {
                let mut note = String::from_str(" ");
                let upper_rest = to_uppercase(rest);
                note.append(upper_rest.as_str());
                ChartTitleDetail::Note(note)
            } else {
                ChartTitleDetail::Empty
            }
        },
    };
    ChartTitle { heading, detail }
}

/// Reading `average <a> | peak <p>` gives back `a` and `p`, where the first
/// ` | peak ` is the one after `a`.
pub proof fn law_average_peak_roundtrip(a: Seq<char>, p: Seq<char>)
    requires
        find_from(a + " | peak "@, " | peak "@, 0) == Some(a.len() as int),
    ensures
        parse_average_peak_spec("average "@ + a + " | peak "@ + p) == Some((a, p)),
{
    reveal_strlit("average ");
    reveal_strlit(" | peak ");
    let s = "average "@ + a + " | peak "@ + p;
    assert(s.subrange(0, 8) =~= "average "@);
    let after = s.skip(8);
    assert(after =~= a + " | peak "@ + p);
    lemma_find_from_append(a + " | peak "@, p, " | peak "@, 0);
    assert(after.take(a.len() as int) =~= a);
    assert(after.skip(a.len() + 8int) =~= p);
}

/// The title that a trend chart is given (`<m> trend  average <a> | peak
/// <p>`) is read back into its metric, average and peak, where the first
/// ` trend` is the one after the metric, the first ` | peak ` the one after
/// the average, and the peak does not end in white space.
pub proof fn law_chart_title_roundtrip(m: Seq<char>, a: Seq<char>, p: Seq<char>)
    requires
        find_from(m + " trend"@, " trend"@, 0) == Some(m.len() as int),
        find_from(a + " | peak "@, " | peak "@, 0) == Some(a.len() as int),
        p.len() > 0,
        !is_white_space(p.last()),
    ensures
        title_parts(m + " trend"@ + "  average "@ + a + " | peak "@ + p).0 == m,
        title_parts(m + " trend"@ + "  average "@ + a + " | peak "@ + p).1 == "average "@ + a
            + " | peak "@ + p,
        parse_average_peak_spec(
            title_parts(m + " trend"@ + "  average "@ + a + " | peak "@ + p).1,
        ) == Some((a, p)),
{
    reveal_strlit(" trend");
    reveal_strlit("  average ");
    reveal_strlit("average ");
    reveal_strlit(" | peak ");
    let head = m + " trend"@;
    let tail = "  average "@ + a + " | peak "@ + p;
    let title = m + " trend"@ + "  average "@ + a + " | peak "@ + p;
    assert(title =~= head + tail);
    lemma_find_from_append(head, tail, " trend"@, 0);
    assert(title.take(m.len() as int) =~= m);
    let rest = title.skip(m.len() + 6int);
    assert(rest =~= tail);
    let body = "average "@ + a + " | peak "@ + p;
    assert(rest.subrange(2, rest.len() as int) =~= body);
    assert(rest[0] == ' ' && rest[1] == ' ' && rest[2] == 'a');
    assert forall|k: int| 0 <= k < 2 implies is_white_space(#[trigger] rest[k]) by {}
    lemma_trim_start_at(rest, 2);
    assert(body[body.len() - 1] == p.last());
    lemma_trim_end_at(body, body.len() as int);
    assert(body.subrange(0, body.len() as int) =~= body);
    law_average_peak_roundtrip(a, p);
}

} // verus!
