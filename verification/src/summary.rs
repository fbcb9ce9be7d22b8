//! Reading the analysis service's summary of a chunk: an overview in plain
//! lines, and key points on lines that start with a hyphen.

use crate::text::{chars_of, pieces, split, split_bounds, texts, trim, trim_bounds};
use vstd::prelude::*;
use vstd::string::*;

verus! {

/// Whether `line` is a key point: its first character that is no white space
/// is a hyphen.
pub open spec fn is_point(line: Seq<char>) -> bool {
    trim(line).len() > 0 && trim(line).first() == '-'
}

/// Whether `line` belongs to the overview: it holds more than white space and
/// is no key point.
pub open spec fn is_plain(line: Seq<char>) -> bool {
    trim(line).len() > 0 && trim(line).first() != '-'
}

/// What the key point on `line` says: the line without the hyphen and without
/// the white space around it and after it.
pub open spec fn point_text(line: Seq<char>) -> Seq<char> {
    trim(trim(line).drop_first())
}

/// The key points among `lines`, in order.
pub open spec fn points_in(lines: Seq<Seq<char>>) -> Seq<Seq<char>>
    decreases lines.len(),
{
    if lines.len() == 0 {
        Seq::empty()
    } else if is_point(lines.first()) {
        seq![point_text(lines.first())] + points_in(lines.drop_first())
    } else {
        points_in(lines.drop_first())
    }
}

/// The overview lines among `lines`, trimmed, in order.
pub open spec fn plain_in(lines: Seq<Seq<char>>) -> Seq<Seq<char>>
    decreases lines.len(),
{
    if lines.len() == 0 {
        Seq::empty()
    } else if is_plain(lines.first()) {
        seq![trim(lines.first())] + plain_in(lines.drop_first())
    } else {
        plain_in(lines.drop_first())
    }
}

/// The key points of a summary, in order.
pub open spec fn spec_key_points(summary: Seq<char>) -> Seq<Seq<char>> {
    points_in(split(summary, '\n'))
}

/// The overview lines of a summary, in order.
pub open spec fn spec_overview(summary: Seq<char>) -> Seq<Seq<char>> {
    plain_in(split(summary, '\n'))
}

/// A summary taken apart.
#[derive(Debug, Clone, PartialEq, Eq)]
pub struct SummaryParts {
    /// The overview lines, trimmed, in order.
    pub overview: Vec<String>,
    /// The key points, without their hyphens, in order.
    pub key_points: Vec<String>,
}

/// Takes a summary apart into its overview lines and its key points. Lines of
/// white space alone belong to neither.
pub fn summary_parts(summary: &str) -> (parts: SummaryParts)
    ensures
        texts(parts.overview@) == spec_overview(summary@),
        texts(parts.key_points@) == spec_key_points(summary@),
{
    let chars = chars_of(summary);
    let bounds = split_bounds(&chars, '\n');
    let ghost lines = split(chars@, '\n');
    let mut overview: Vec<String> = Vec::new();
    let mut key_points: Vec<String> = Vec::new();
    let mut k: usize = 0;
    assert(lines.skip(0) =~= lines);
    assert(texts(overview@) =~= Seq::<Seq<char>>::empty());
    assert(texts(key_points@) =~= Seq::<Seq<char>>::empty());
    while k < bounds.len()
        invariant
            chars@ == summary@,
            lines == split(chars@, '\n'),
            k <= bounds@.len(),
            bounds@.len() == lines.len(),
            forall|j: int|
                0 <= j < bounds@.len() ==> (#[trigger] bounds@[j]).0 <= bounds@[j].1
                    <= chars@.len(),
            pieces(chars@, bounds@) == lines,
            texts(overview@) + plain_in(lines.skip(k as int)) == plain_in(lines),
            texts(key_points@) + points_in(lines.skip(k as int)) == points_in(lines),
        decreases bounds@.len() - k,
    {
        let (from, to) = bounds[k];
        let ghost line = chars@.subrange(from as int, to as int);
        let ghost rest = lines.skip(k as int);
        let ghost plain_before = texts(overview@);
        let ghost points_before = texts(key_points@);
        assert(pieces(chars@, bounds@)[k as int] == line);
        assert(rest.first() == line);
        assert(rest.drop_first() =~= lines.skip(k + 1));
        let (start, end) = trim_bounds(&chars, from, to);
        if start < end {
            assert(trim(line).first() == chars@[start as int]);
            if chars[start] == '-' {
                assert(trim(line).drop_first() =~= chars@.subrange(start + 1, end as int));
                let (inner_start, inner_end) = trim_bounds(&chars, start + 1, end);
                key_points.push(summary.substring_char(inner_start, inner_end).to_owned());
                assert(texts(key_points@) =~= points_before.push(point_text(line)));
                assert(points_before.push(point_text(line)) + points_in(lines.skip(k + 1))
                    =~= points_before + points_in(rest));
            } else {
                overview.push(summary.substring_char(start, end).to_owned());
                assert(texts(overview@) =~= plain_before.push(trim(line)));
                assert(plain_before.push(trim(line)) + plain_in(lines.skip(k + 1))
                    =~= plain_before + plain_in(rest));
            }
        }
        k += 1;
    }
    assert(lines.skip(k as int) =~= Seq::<Seq<char>>::empty());
    assert(texts(overview@) =~= plain_in(lines));
    assert(texts(key_points@) =~= points_in(lines));
    SummaryParts { overview, key_points }
}

} // verus!
