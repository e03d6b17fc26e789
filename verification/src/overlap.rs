//! Matching stored diagnostics against a cursor line or point.
//!
//! Positions are zero-indexed, in protocol coordinates. A range runs from
//! `start` to `end` inclusive; how a point is matched against a multi-line
//! range follows a deliberate four-case boundary rule (see [`at_point`]).

use vstd::prelude::*;

verus! {

/// A zero-indexed position in protocol (line, character) coordinates.
#[derive(Clone, Copy, PartialEq, Eq, Structural, Debug)]
pub struct Position {
    pub line: u32,
    pub character: u32,
}

/// A range of text, from `start` to `end`, both inclusive.
#[derive(Clone, Copy, PartialEq, Eq, Structural, Debug)]
pub struct Range {
    pub start: Position,
    pub end: Position,
}

/// A server-reported issue anchored to a range of a document.
///
/// `severity` carries the protocol's numeric code when the server sent one:
/// 1 error, 2 warning, 3 information, 4 hint. Other codes are tolerated and
/// rendered with a fallback face.
pub struct Diagnostic {
    pub range: Range,
    pub severity: Option<u32>,
    pub message: String,
}

impl Clone for Diagnostic {
    fn clone(&self) -> (r: Self)
        ensures
            r == *self,
    {
        Diagnostic {
            range: self.range,
            severity: self.severity,
            message: self.message.clone(),
        }
    }
}

/// Whether a diagnostic's range touches the given line: the line lies between
/// the start line and the end line, both inclusive, characters ignored.
pub open spec fn on_line(d: Diagnostic, line: u32) -> bool {
    d.range.start.line <= line && line <= d.range.end.line
}

/// Whether a diagnostic's range contains the given point, under the four-case
/// boundary rule. A diagnostic matches when any one case holds:
/// 1. the point's line lies strictly between the start and end lines;
/// 2. start, point and end share one line, and the point's character lies
///    between the start and end characters, both inclusive;
/// 3. the point sits on the first line of a multi-line range, at or after the
///    start character (no upper bound on that line);
/// 4. the point sits on the last line of a multi-line range, at or before the
///    end character (no lower bound on that line).
///
/// Cases 3 and 4 deliberately ignore the character bound on the far line, so
/// this is more permissive than plain interval containment for multi-line
/// ranges; the four disjuncts must stay as they are.
pub open spec fn at_point(d: Diagnostic, p: Position) -> bool {
    ||| (d.range.start.line < p.line && p.line < d.range.end.line)
    ||| (d.range.start.line == p.line && p.line == d.range.end.line
        && d.range.start.character <= p.character && p.character <= d.range.end.character)
    ||| (d.range.start.line == p.line && d.range.end.line > p.line
        && d.range.start.character <= p.character)
    ||| (d.range.start.line < p.line && d.range.end.line == p.line
        && p.character <= d.range.end.character)
}

/// The line-overlap test, as a predicate to filter a sequence with.
pub open spec fn on_line_pred(line: u32) -> spec_fn(Diagnostic) -> bool {
    |d: Diagnostic| on_line(d, line)
}

/// The point-overlap test, as a predicate to filter a sequence with.
pub open spec fn at_point_pred(p: Position) -> spec_fn(Diagnostic) -> bool {
    |d: Diagnostic| at_point(d, p)
}

/// Decides whether a diagnostic's range touches the given line.
pub fn matches_line(d: &Diagnostic, line: u32) -> (b: bool)
    ensures
        b == on_line(*d, line),
{
    d.range.start.line <= line && line <= d.range.end.line
}

/// Decides whether a diagnostic's range contains the given point, under
/// the four-case boundary rule of [`at_point`].
pub fn matches_point(d: &Diagnostic, p: Position) -> (b: bool)
    ensures
        b == at_point(*d, p),
{
    let s = d.range.start;
    let e = d.range.end;
    (s.line < p.line && p.line < e.line)
        || (s.line == p.line && p.line == e.line
            && s.character <= p.character && p.character <= e.character)
        || (s.line == p.line && e.line > p.line && s.character <= p.character)
        || (s.line < p.line && e.line == p.line && p.character <= e.character)
}

/// Returns exactly the diagnostics whose range touches `line`, in their
/// original order: the subsequence with `start.line <= line <= end.line`.
pub fn diagnostics_on_line(diags: &Vec<Diagnostic>, line: u32) -> (r: Vec<Diagnostic>)
    ensures
        r@ == diags@.filter(on_line_pred(line)),
{
    let mut r: Vec<Diagnostic> = Vec::new();
    let mut i: usize = 0;
    while i < diags.len()
        invariant
            i <= diags.len(),
            r@ == diags@.take(i as int).filter(on_line_pred(line)),
        decreases diags.len() - i,
    {
        let d = &diags[i];
        proof {
            lemma_filter_take_step(diags@, on_line_pred(line), i as int);
        }
        if matches_line(d, line) {
            r.push(d.clone());
        }
        i += 1;
    }
    proof {
        assert(diags@.take(diags@.len() as int) =~= diags@);
    }
    r
}

/// Returns exactly the diagnostics whose range contains `point` under the
/// four-case boundary rule of [`at_point`], in their original order.
pub fn diagnostics_at_point(diags: &Vec<Diagnostic>, point: Position) -> (r: Vec<Diagnostic>)
    ensures
        r@ == diags@.filter(at_point_pred(point)),
{
    let mut r: Vec<Diagnostic> = Vec::new();
    let mut i: usize = 0;
    while i < diags.len()
        invariant
            i <= diags.len(),
            r@ == diags@.take(i as int).filter(at_point_pred(point)),
        decreases diags.len() - i,
    {
        let d = &diags[i];
        proof {
            lemma_filter_take_step(diags@, at_point_pred(point), i as int);
        }
        if matches_point(d, point) {
            r.push(d.clone());
        }
        i += 1;
    }
    proof {
        assert(diags@.take(diags@.len() as int) =~= diags@);
    }
    r
}

/// A diagnostic stands among the diagnostics kept for a line iff it stands
/// in the input and its range touches that line.
pub proof fn lemma_on_line_membership(ds: Seq<Diagnostic>, line: u32, d: Diagnostic)
    ensures
        ds.filter(on_line_pred(line)).contains(d) <==> (ds.contains(d) && on_line(d, line)),
{
    lemma_filter_membership(ds, on_line_pred(line), d);
}

/// A diagnostic stands among the diagnostics kept for a point iff it stands
/// in the input and one of the four boundary cases of [`at_point`] holds.
pub proof fn lemma_at_point_membership(ds: Seq<Diagnostic>, p: Position, d: Diagnostic)
    ensures
        ds.filter(at_point_pred(p)).contains(d) <==> (ds.contains(d) && at_point(d, p)),
{
    lemma_filter_membership(ds, at_point_pred(p), d);
}

/// Membership in a filtered sequence is membership in the original under
/// the predicate.
proof fn lemma_filter_membership(ds: Seq<Diagnostic>, pred: spec_fn(Diagnostic) -> bool, d: Diagnostic)
    ensures
        ds.filter(pred).contains(d) <==> (ds.contains(d) && pred(d)),
{
    if ds.filter(pred).contains(d) {
        ds.lemma_filter_contains_rev(pred, d);
        let i = choose|i: int| 0 <= i < ds.filter(pred).len() && ds.filter(pred)[i] == d;
        ds.lemma_filter_pred(pred, i);
    }
    if ds.contains(d) && pred(d) {
        let i = choose|i: int| 0 <= i < ds.len() && ds[i] == d;
        ds.lemma_filter_contains(pred, i);
    }
}

/// Extending the filtered prefix by one element appends that element exactly
/// when the predicate accepts it.
proof fn lemma_filter_take_step(s: Seq<Diagnostic>, pred: spec_fn(Diagnostic) -> bool, i: int)
    requires
        0 <= i < s.len(),
    ensures
        s.take(i + 1).filter(pred) == if pred(s[i]) {
            s.take(i).filter(pred).push(s[i])
        } else {
            s.take(i).filter(pred)
        },
{
    reveal(Seq::filter);
    let t = s.take(i + 1);
    assert(t.drop_last() =~= s.take(i));
    assert(t.last() == s[i]);
}

} // verus!
