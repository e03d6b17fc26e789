//! Rendering a hover response: the diagnostics under the cursor and the
//! hover content become one `lsp-show-hover` display directive, or none at
//! all when both renders are empty.

use vstd::prelude::*;
use crate::escape::{
    concat_map, lemma_concat_map_push, brace_escaped, section_doubled, double_section,
};
use crate::overlap::{Diagnostic, Position, at_point_pred, diagnostics_at_point};
use crate::strutil::{
    append_char_at, append_u32_decimal, dec_rep, sep_joined, lemma_sep_joined_push,
    lemma_filter_map_take_step,
};

verus! {

// ---------------------------------------------------------------------------
// Severity faces
// ---------------------------------------------------------------------------

/// The face token for a severity code: each of the four known codes has its
/// own token, any other value falls back to the default face.
pub open spec fn face_of(sev: Option<u32>) -> Seq<char> {
    if sev == Some(1u32) {
        "InfoDiagnosticError"@
    } else if sev == Some(2u32) {
        "InfoDiagnosticWarning"@
    } else if sev == Some(3u32) {
        "InfoDiagnosticInformation"@
    } else if sev == Some(4u32) {
        "InfoDiagnosticHint"@
    } else {
        "InfoDefault"@
    }
}

/// The face token for a severity code.
pub fn face_str(sev: &Option<u32>) -> (r: &'static str)
    ensures
        r@ == face_of(*sev),
{
    match sev {
        Some(s) => {
            if *s == 1 {
                "InfoDiagnosticError"
            } else if *s == 2 {
                "InfoDiagnosticWarning"
            } else if *s == 3 {
                "InfoDiagnosticInformation"
            } else if *s == 4 {
                "InfoDiagnosticHint"
            } else {
                "InfoDefault"
            }
        },
        None => "InfoDefault",
    }
}

// ---------------------------------------------------------------------------
// Whitespace trimming
// ---------------------------------------------------------------------------

/// Plain whitespace: space, tab, line feed, carriage return.
pub open spec fn is_space(c: char) -> bool {
    c == ' ' || c == '\t' || c == '\n' || c == '\r'
}

/// `s` with its leading whitespace dropped.
pub open spec fn trim_front(s: Seq<char>) -> Seq<char>
    decreases s.len(),
{
    if s.len() > 0 && is_space(s[0]) {
        trim_front(s.drop_first())
    } else {
        s
    }
}

/// `s` with its trailing whitespace dropped.
pub open spec fn trim_back(s: Seq<char>) -> Seq<char>
    decreases s.len(),
{
    if s.len() > 0 && is_space(s.last()) {
        trim_back(s.drop_last())
    } else {
        s
    }
}

/// `s` with whitespace dropped at both ends.
pub open spec fn trimmed(s: Seq<char>) -> Seq<char> {
    trim_back(trim_front(s))
}

/// Whether `c` is plain whitespace.
fn is_space_char(c: char) -> (b: bool)
    ensures
        b == is_space(c),
{
    c == ' ' || c == '\t' || c == '\n' || c == '\r'
}

/// Drops whitespace at both ends of `s`.
pub fn trim_str(s: &str) -> (r: String)
    ensures
        r@ == trimmed(s@),
{
    let n = s.unicode_len();
    let mut start: usize = 0;
    proof {
        assert(s@.skip(0) =~= s@);
    }
    while start < n && is_space_char(s.get_char(start))
        invariant
            start <= n,
            n == s@.len(),
            trim_front(s@) == trim_front(s@.skip(start as int)),
        decreases n - start,
    {
        proof {
            let t = s@.skip(start as int);
            assert(t[0] == s@[start as int]);
            assert(t.drop_first() =~= s@.skip(start as int + 1));
        }
        start += 1;
    }
    proof {
        let t = s@.skip(start as int);
        if start < n {
            assert(t[0] == s@[start as int]);
        }
        assert(trim_front(t) == t);
    }
    let mut end: usize = n;
    proof {
        assert(s@.skip(start as int).take((n - start) as int) =~= s@.skip(start as int));
    }
    while end > start && is_space_char(s.get_char(end - 1))
        invariant
            start <= end <= n,
            n == s@.len(),
            trim_back(s@.skip(start as int)) == trim_back(
                s@.skip(start as int).take((end - start) as int),
            ),
        decreases end,
    {
        proof {
            let t = s@.skip(start as int);
            let u = t.take((end - start) as int);
            assert(u.last() == s@[end - 1]);
            assert(u.drop_last() =~= t.take((end - start - 1) as int));
        }
        end -= 1;
    }
    proof {
        let t = s@.skip(start as int);
        let u = t.take((end - start) as int);
        if end > start {
            assert(u.last() == s@[end - 1]);
        }
        assert(trim_back(u) == u);
    }
    let piece = s.substring_char(start, end);
    proof {
        assert(piece@ =~= s@.skip(start as int).take((end - start) as int));
    }
    String::from_str(piece)
}

// ---------------------------------------------------------------------------
// Continuation-line indenting
// ---------------------------------------------------------------------------

/// One character under continuation indenting: a line feed gains two
/// spaces, aligning the broken line under the leading bullet marker.
pub open spec fn indent_char(c: char) -> Seq<char> {
    if c == '\n' {
        seq!['\n', ' ', ' ']
    } else {
        seq![c]
    }
}

/// The indenting map, as a single value.
pub open spec fn indent_f() -> spec_fn(char) -> Seq<char> {
    |c: char| indent_char(c)
}

/// `s` with every line break indented under the bullet marker.
pub open spec fn indented(s: Seq<char>) -> Seq<char> {
    concat_map(s, indent_f())
}

/// Indents every line break in `s` by two spaces.
pub fn indent_lines(s: &str) -> (r: String)
    ensures
        r@ == indented(s@),
{
    let mut out = String::new();
    proof {
        assert(out@ =~= concat_map(s@.take(0), indent_f()));
    }
    let n = s.unicode_len();
    let mut i: usize = 0;
    while i < n
        invariant
            i <= n,
            n == s@.len(),
            out@ == concat_map(s@.take(i as int), indent_f()),
        decreases n - i,
    {
        let c = s.get_char(i);
        if c == '\n' {
            out.append("\n  ");
            proof {
                reveal_strlit("\n  ");
            }
        } else {
            append_char_at(&mut out, s, i);
        }
        proof {
            lemma_concat_map_push(s@.take(i as int), indent_f(), s@[i as int]);
            assert(s@.take(i as int).push(s@[i as int]) =~= s@.take(i + 1));
            assert(out@ =~= concat_map(s@.take(i + 1), indent_f()));
        }
        i += 1;
    }
    proof {
        assert(s@.take(n as int) =~= s@);
    }
    out
}

// ---------------------------------------------------------------------------
// Diagnostics sub-render
// ---------------------------------------------------------------------------

/// The rendered line of one diagnostic: a bullet, the message — trimmed,
/// brace-escaped first, then wrapped in the severity's face annotation and
/// indented — and a return to the default face.
pub open spec fn diag_line(d: Diagnostic) -> Seq<char> {
    "• {"@ + face_of(d.severity) + "}"@ + indented(brace_escaped(trimmed(d.message@)))
        + "{InfoDefault}"@
}

/// The rendered line of a diagnostic, or `None` for one with an empty
/// message, which is dropped from the render.
pub open spec fn diag_entry(d: Diagnostic) -> Option<Seq<char>> {
    if d.message@.len() == 0 {
        None
    } else {
        Some(diag_line(d))
    }
}

/// The per-diagnostic rendering map, as a single value.
pub open spec fn diag_entry_f() -> spec_fn(Diagnostic) -> Option<Seq<char>> {
    |d: Diagnostic| diag_entry(d)
}

/// The diagnostics render: the lines of the diagnostics with non-empty
/// messages, in order, joined with line feeds.
pub open spec fn diagnostics_render(ds: Seq<Diagnostic>) -> Seq<char> {
    sep_joined(ds.filter_map(diag_entry_f()), seq!['\n'])
}

/// Renders the line of one diagnostic.
fn render_diag_line(d: &Diagnostic) -> (r: String)
    ensures
        r@ == diag_line(*d),
{
    let mut out = String::from_str("• {");
    out.append(face_str(&d.severity));
    out.append("}");
    let t = trim_str(d.message.as_str());
    let e = crate::escape::escape_brace(t.as_str());
    let ind = indent_lines(e.as_str());
    out.append(ind.as_str());
    out.append("{InfoDefault}");
    proof {
        assert(out@ =~= diag_line(*d));
    }
    out
}

/// Renders a list of diagnostics: one bulleted line for each diagnostic
/// with a non-empty message, joined with line feeds, in the list's order.
pub fn render_diagnostics(ds: &Vec<Diagnostic>) -> (r: String)
    ensures
        r@ == diagnostics_render(ds@),
{
    let mut joined = String::new();
    let mut count: usize = 0;
    let mut idx: usize = 0;
    proof {
        assert(ds@.take(0) =~= Seq::<Diagnostic>::empty());
    }
    while idx < ds.len()
        invariant
            idx <= ds@.len(),
            count <= idx,
            count as int == ds@.take(idx as int).filter_map(diag_entry_f()).len(),
            joined@ == sep_joined(ds@.take(idx as int).filter_map(diag_entry_f()), seq!['\n']),
        decreases ds@.len() - idx,
    {
        let d = &ds[idx];
        proof {
            lemma_filter_map_take_step(ds@, diag_entry_f(), idx as int);
        }
        if !d.message.as_str().is_empty() {
            let line = render_diag_line(d);
            proof {
                assert(diag_entry(ds@[idx as int]) == Some(line@));
                lemma_sep_joined_push(
                    ds@.take(idx as int).filter_map(diag_entry_f()),
                    seq!['\n'],
                    line@,
                );
            }
            if count > 0 {
                joined.append("\n");
                proof {
                    reveal_strlit("\n");
                }
            }
            joined.append(line.as_str());
            count += 1;
            proof {
                assert(joined@ =~= sep_joined(
                    ds@.take(idx + 1).filter_map(diag_entry_f()),
                    seq!['\n'],
                ));
            }
        } else {
            proof {
                assert(diag_entry(ds@[idx as int]) is None);
            }
        }
        idx += 1;
    }
    proof {
        assert(ds@.take(ds@.len() as int) =~= ds@);
    }
    joined
}

// ---------------------------------------------------------------------------
// Hover content
// ---------------------------------------------------------------------------

/// A marked text of a hover response: verbatim plain text, or a
/// language-tagged block.
pub enum MarkedText {
    Plain(String),
    Tagged { language: String, text: String },
}

impl MarkedText {
    /// The text itself, with any language tag dropped.
    pub open spec fn plaintext_spec(self) -> Seq<char> {
        match self {
            MarkedText::Plain(s) => s@,
            MarkedText::Tagged { language: _, text } => text@,
        }
    }

    /// Returns the text itself, with any language tag dropped.
    pub fn plaintext(self) -> (r: String)
        ensures
            r@ == self.plaintext_spec(),
    {
        match self {
            MarkedText::Plain(s) => s,
            MarkedText::Tagged { language: _, text } => text,
        }
    }
}

/// Hover content after per-piece markup conversion: absent, one converted
/// text (a single marked text, or structured markup), or the converted
/// texts of an array of marked texts.
pub enum HoverContents {
    Absent,
    Single(String),
    Many(Vec<String>),
}

/// The horizontal rule that separates joined hover pieces, annotated in the
/// rule face.
pub open spec fn rule_sep() -> Seq<char> {
    "\n{InfoRule}---{InfoDefault}\n"@
}

/// A rendered piece, or `None` for an empty one, which is filtered out
/// before joining.
pub open spec fn piece_entry(p: String) -> Option<Seq<char>> {
    if p@.len() == 0 {
        None
    } else {
        Some(p@)
    }
}

/// The per-piece map, as a single value.
pub open spec fn piece_f() -> spec_fn(String) -> Option<Seq<char>> {
    |p: String| piece_entry(p)
}

/// The non-empty pieces joined with the rule separator: exactly one rule
/// between neighbours, none leading or trailing.
pub open spec fn hover_pieces_render(ps: Seq<String>) -> Seq<char> {
    sep_joined(ps.filter_map(piece_f()), rule_sep())
}

/// The hover-content render: empty for an absent response, the one text of
/// a single piece, or the joined non-empty pieces of an array.
pub open spec fn hover_contents_render(c: HoverContents) -> Seq<char> {
    match c {
        HoverContents::Absent => Seq::empty(),
        HoverContents::Single(s) => s@,
        HoverContents::Many(ps) => hover_pieces_render(ps@),
    }
}

/// Joins the non-empty pieces of an array of converted marked texts with
/// the annotated horizontal rule.
pub fn render_hover_pieces(ps: &Vec<String>) -> (r: String)
    ensures
        r@ == hover_pieces_render(ps@),
{
    let mut joined = String::new();
    let mut count: usize = 0;
    let mut idx: usize = 0;
    proof {
        assert(ps@.take(0) =~= Seq::<String>::empty());
    }
    while idx < ps.len()
        invariant
            idx <= ps@.len(),
            count <= idx,
            count as int == ps@.take(idx as int).filter_map(piece_f()).len(),
            joined@ == sep_joined(ps@.take(idx as int).filter_map(piece_f()), rule_sep()),
        decreases ps@.len() - idx,
    {
        let p = &ps[idx];
        proof {
            lemma_filter_map_take_step(ps@, piece_f(), idx as int);
        }
        if !p.as_str().is_empty() {
            proof {
                assert(piece_entry(ps@[idx as int]) == Some(p@));
                lemma_sep_joined_push(
                    ps@.take(idx as int).filter_map(piece_f()),
                    rule_sep(),
                    p@,
                );
            }
            if count > 0 {
                joined.append("\n{InfoRule}---{InfoDefault}\n");
            }
            joined.append(p.as_str());
            count += 1;
            proof {
                assert(joined@ =~= sep_joined(
                    ps@.take(idx + 1).filter_map(piece_f()),
                    rule_sep(),
                ));
            }
        } else {
            proof {
                assert(piece_entry(ps@[idx as int]) is None);
            }
        }
        idx += 1;
    }
    proof {
        assert(ps@.take(ps@.len() as int) =~= ps@);
    }
    joined
}

/// Renders hover content to one string.
pub fn render_hover_contents(c: &HoverContents) -> (r: String)
    ensures
        r@ == hover_contents_render(*c),
{
    match c {
        HoverContents::Absent => String::new(),
        HoverContents::Single(s) => s.clone(),
        HoverContents::Many(ps) => render_hover_pieces(ps),
    }
}

// ---------------------------------------------------------------------------
// The display directive
// ---------------------------------------------------------------------------

/// A position in the editor's own coordinates, as the display directive
/// carries it.
#[derive(Clone, Copy, PartialEq, Eq, Structural, Debug)]
pub struct EditorPosition {
    pub line: u32,
    pub column: u32,
}

/// The textual form of an editor position: line, a dot, column.
pub open spec fn position_text(p: EditorPosition) -> Seq<char> {
    dec_rep(p.line as int) + "."@ + dec_rep(p.column as int)
}

/// The `lsp-show-hover` directive for the two renders, or `None` — no
/// output at all — when both are empty. Each render is escaped for the
/// reserved boundary delimiter by doubling every section sign in it.
pub open spec fn hover_directive(
    p: EditorPosition,
    contents: Seq<char>,
    diags: Seq<char>,
) -> Option<Seq<char>> {
    if contents.len() == 0 && diags.len() == 0 {
        None
    } else {
        Some(
            "lsp-show-hover "@ + position_text(p) + " %§"@ + section_doubled(contents) + "§ %§"@
                + section_doubled(diags) + "§"@,
        )
    }
}

/// The whole hover render: the diagnostics at `point` rendered, the hover
/// contents rendered, both embedded in the display directive — or no
/// directive at all when both renders are empty.
pub open spec fn hover_output(
    p: EditorPosition,
    point: Position,
    c: HoverContents,
    ds: Seq<Diagnostic>,
) -> Option<Seq<char>> {
    hover_directive(
        p,
        hover_contents_render(c),
        diagnostics_render(ds.filter(at_point_pred(point))),
    )
}

/// Renders a hover response: filters `ds` to the diagnostics at `point`,
/// renders them and the hover contents, and embeds both — escaped for the
/// boundary delimiter — together with `position` in one `lsp-show-hover`
/// directive. Returns `None`, and so emits nothing, exactly when both
/// renders are empty.
pub fn editor_hover(
    position: EditorPosition,
    point: Position,
    contents: &HoverContents,
    ds: &Vec<Diagnostic>,
) -> (r: Option<String>)
    ensures
        (r is Some) == (hover_output(position, point, *contents, ds@) is Some),
        r is Some ==> r->Some_0@ == hover_output(position, point, *contents, ds@)->Some_0,
{
    let at = diagnostics_at_point(ds, point);
    let diag_text = render_diagnostics(&at);
    let content_text = render_hover_contents(contents);
    if content_text.as_str().is_empty() && diag_text.as_str().is_empty() {
        None
    } else {
        let mut out = String::from_str("lsp-show-hover ");
        append_u32_decimal(&mut out, position.line);
        out.append(".");
        append_u32_decimal(&mut out, position.column);
        out.append(" %§");
        let c2 = double_section(content_text.as_str());
        out.append(c2.as_str());
        out.append("§ %§");
        let d2 = double_section(diag_text.as_str());
        out.append(d2.as_str());
        out.append("§");
        proof {
            assert(out@ =~= hover_output(position, point, *contents, ds@)->Some_0);
        }
        Some(out)
    }
}

} // verus!
