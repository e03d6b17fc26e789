//! Character-level escaping disciplines used by the rendering core:
//! single-quote wrapping for editor commands, face-brace escaping for
//! messages shown inside face annotations, and doubling of the reserved
//! boundary delimiter of display directives.

use vstd::prelude::*;
use crate::strutil::append_char_at;

verus! {

/// Concatenation of `f` applied to each character of `s`, in order.
pub open spec fn concat_map(s: Seq<char>, f: spec_fn(char) -> Seq<char>) -> Seq<char>
    decreases s.len(),
{
    if s.len() == 0 {
        Seq::empty()
    } else {
        f(s[0]) + concat_map(s.drop_first(), f)
    }
}

/// Appending one character to the input appends its image to the output.
pub proof fn lemma_concat_map_push(s: Seq<char>, f: spec_fn(char) -> Seq<char>, c: char)
    ensures
        concat_map(s.push(c), f) == concat_map(s, f) + f(c),
    decreases s.len(),
{
    if s.len() == 0 {
        reveal_with_fuel(concat_map, 3);
        assert(s.push(c).drop_first() =~= Seq::<char>::empty());
        assert(s.push(c)[0] == c);
        assert(concat_map(s.push(c), f) =~= concat_map(s, f) + f(c));
    } else {
        assert(s.push(c).drop_first() =~= s.drop_first().push(c));
        assert(s.push(c)[0] == s[0]);
        lemma_concat_map_push(s.drop_first(), f, c);
        assert(concat_map(s.push(c), f) =~= concat_map(s, f) + f(c));
    }
}

// ---------------------------------------------------------------------------
// Single-quote wrapping
// ---------------------------------------------------------------------------

/// One character under quote-doubling: a single quote becomes two.
pub open spec fn quote_char(c: char) -> Seq<char> {
    if c == '\'' {
        seq!['\'', '\'']
    } else {
        seq![c]
    }
}

/// The quote-doubling map, as a single value so that every use names the
/// same function.
pub open spec fn quote_f() -> spec_fn(char) -> Seq<char> {
    |c: char| quote_char(c)
}

/// `s` wrapped in single quotes, with every inner single quote doubled.
pub open spec fn quoted(s: Seq<char>) -> Seq<char> {
    seq!['\''] + concat_map(s, quote_f()) + seq!['\'']
}

/// Quotes `s` for safe embedding in an editor command: wraps it in single
/// quotes and doubles every single quote inside.
pub fn editor_quote(s: &str) -> (r: String)
    ensures
        r@ == quoted(s@),
{
    let mut out = String::new();
    out.append("'");
    proof {
        reveal_strlit("'");
        assert(out@ =~= seq!['\''] + concat_map(s@.take(0), quote_f()));
    }
    let n = s.unicode_len();
    let mut i: usize = 0;
    while i < n
        invariant
            i <= n,
            n == s@.len(),
            out@ == seq!['\''] + concat_map(s@.take(i as int), quote_f()),
        decreases n - i,
    {
        let c = s.get_char(i);
        if c == '\'' {
            out.append("''");
            proof {
                reveal_strlit("''");
            }
        } else {
            append_char_at(&mut out, s, i);
        }
        proof {
            lemma_concat_map_push(s@.take(i as int), quote_f(), s@[i as int]);
            assert(s@.take(i as int).push(s@[i as int]) =~= s@.take(i + 1));
            assert(out@ =~= seq!['\''] + concat_map(s@.take(i + 1), quote_f()));
        }
        i += 1;
    }
    out.append("'");
    proof {
        reveal_strlit("'");
        assert(s@.take(n as int) =~= s@);
        assert(out@ =~= quoted(s@));
    }
    out
}

// ---------------------------------------------------------------------------
// Face-brace escaping
// ---------------------------------------------------------------------------

/// One character under the face-brace escape: each brace gains a leading
/// backslash, every other character stays.
pub open spec fn brace_char(c: char) -> Seq<char> {
    if c == '{' || c == '}' {
        seq!['\\', c]
    } else {
        seq![c]
    }
}

/// The face-brace escape map, as a single value.
pub open spec fn brace_f() -> spec_fn(char) -> Seq<char> {
    |c: char| brace_char(c)
}

/// `s` with every brace escaped by a backslash.
pub open spec fn brace_escaped(s: Seq<char>) -> Seq<char> {
    concat_map(s, brace_f())
}

/// The inverse of the face-brace escape: a backslash directly before a brace
/// is dropped, everything else is kept.
pub open spec fn brace_unescaped(s: Seq<char>) -> Seq<char>
    decreases s.len(),
{
    if s.len() == 0 {
        Seq::empty()
    } else if s.len() >= 2 && s[0] == '\\' && (s[1] == '{' || s[1] == '}') {
        seq![s[1]] + brace_unescaped(s.skip(2))
    } else {
        seq![s[0]] + brace_unescaped(s.skip(1))
    }
}

/// Escapes every brace in `s` with a backslash, so that the text can stand
/// inside a face annotation without being read as annotation syntax.
pub fn escape_brace(s: &str) -> (r: String)
    ensures
        r@ == brace_escaped(s@),
{
    let mut out = String::new();
    proof {
        assert(out@ =~= concat_map(s@.take(0), brace_f()));
    }
    let n = s.unicode_len();
    let mut i: usize = 0;
    while i < n
        invariant
            i <= n,
            n == s@.len(),
            out@ == concat_map(s@.take(i as int), brace_f()),
        decreases n - i,
    {
        let c = s.get_char(i);
        if c == '{' || c == '}' {
            out.append("\\");
            proof {
                reveal_strlit("\\");
            }
        }
        append_char_at(&mut out, s, i);
        proof {
            lemma_concat_map_push(s@.take(i as int), brace_f(), s@[i as int]);
            assert(s@.take(i as int).push(s@[i as int]) =~= s@.take(i + 1));
            assert(out@ =~= concat_map(s@.take(i + 1), brace_f()));
        }
        i += 1;
    }
    proof {
        assert(s@.take(n as int) =~= s@);
    }
    out
}

/// Removes the backslashes that [`escape_brace`] inserted: a backslash that
/// stands directly before a brace is dropped.
pub fn unescape_brace(s: &str) -> (r: String)
    ensures
        r@ == brace_unescaped(s@),
{
    let mut out = String::new();
    let n = s.unicode_len();
    proof {
        assert(s@.skip(0) =~= s@);
        assert(out@ + brace_unescaped(s@) =~= brace_unescaped(s@));
    }
    let mut i: usize = 0;
    while i < n
        invariant
            i <= n,
            n == s@.len(),
            brace_unescaped(s@) == out@ + brace_unescaped(s@.skip(i as int)),
        decreases n - i,
    {
        let c = s.get_char(i);
        let mut step: usize = 1;
        if c == '\\' && i + 1 < n {
            let c2 = s.get_char(i + 1);
            if c2 == '{' || c2 == '}' {
                append_char_at(&mut out, s, i + 1);
                step = 2;
            } else {
                append_char_at(&mut out, s, i);
            }
        } else {
            append_char_at(&mut out, s, i);
        }
        proof {
            let t = s@.skip(i as int);
            assert(t.len() == n - i);
            assert(t[0] == s@[i as int]);
            if step == 2 {
                assert(t[1] == s@[i + 1]);
                assert(t.skip(2) =~= s@.skip(i + 2));
                assert(brace_unescaped(t) == seq![t[1]] + brace_unescaped(t.skip(2)));
            } else {
                if t.len() >= 2 {
                    assert(t[1] == s@[i + 1]);
                }
                assert(t.skip(1) =~= s@.skip(i + 1));
                assert(brace_unescaped(t) == seq![t[0]] + brace_unescaped(t.skip(1)));
            }
            assert(brace_unescaped(s@) =~= out@ + brace_unescaped(s@.skip(i + step)));
        }
        i += step;
    }
    proof {
        assert(s@.skip(n as int) =~= Seq::<char>::empty());
        assert(out@ + brace_unescaped(s@.skip(n as int)) =~= out@);
    }
    out
}

/// On text without braces, the face-brace escape changes nothing.
pub proof fn lemma_escape_brace_id(s: Seq<char>)
    requires
        forall|i: int| 0 <= i < s.len() ==> s[i] != '{' && s[i] != '}',
    ensures
        brace_escaped(s) == s,
    decreases s.len(),
{
    if s.len() == 0 {
        assert(brace_escaped(s) =~= s);
    } else {
        lemma_escape_brace_id(s.drop_first());
        assert(brace_char(s[0]) =~= seq![s[0]]);
        assert(brace_escaped(s) =~= s);
    }
}

/// An escaped text never begins with a bare brace.
proof fn lemma_escaped_first_not_brace(s: Seq<char>)
    requires
        brace_escaped(s).len() > 0,
    ensures
        brace_escaped(s)[0] != '{',
        brace_escaped(s)[0] != '}',
{
    if s.len() > 0 {
        if s[0] == '{' || s[0] == '}' {
            assert(brace_escaped(s)[0] == '\\');
        } else {
            assert(brace_escaped(s)[0] == s[0]);
        }
    }
}

/// The face-brace escape loses nothing: unescaping an escaped text recovers
/// the text exactly.
pub proof fn lemma_unescape_escape_brace(s: Seq<char>)
    ensures
        brace_unescaped(brace_escaped(s)) == s,
    decreases s.len(),
{
    if s.len() == 0 {
        assert(brace_unescaped(brace_escaped(s)) =~= s);
    } else {
        let c = s[0];
        let rest = s.drop_first();
        lemma_unescape_escape_brace(rest);
        let e = brace_escaped(s);
        assert(e == brace_char(c) + brace_escaped(rest));
        if c == '{' || c == '}' {
            assert(e[0] == '\\' && e[1] == c);
            assert(e.skip(2) =~= brace_escaped(rest));
            assert(brace_unescaped(e) =~= s);
        } else if c == '\\' {
            assert(e[0] == '\\');
            if e.len() >= 2 {
                assert(e[1] == brace_escaped(rest)[0]);
                lemma_escaped_first_not_brace(rest);
            }
            assert(e.skip(1) =~= brace_escaped(rest));
            assert(brace_unescaped(e) =~= s);
        } else {
            assert(e[0] == c);
            assert(e.skip(1) =~= brace_escaped(rest));
            assert(brace_unescaped(e) =~= s);
        }
    }
}

// ---------------------------------------------------------------------------
// Boundary-delimiter doubling
// ---------------------------------------------------------------------------

/// One character under delimiter-doubling: each section sign becomes two.
pub open spec fn section_char(c: char) -> Seq<char> {
    if c == '§' {
        seq!['§', '§']
    } else {
        seq![c]
    }
}

/// The delimiter-doubling map, as a single value.
pub open spec fn section_f() -> spec_fn(char) -> Seq<char> {
    |c: char| section_char(c)
}

/// `s` with every section sign doubled.
pub open spec fn section_doubled(s: Seq<char>) -> Seq<char> {
    concat_map(s, section_f())
}

/// Doubles every section sign in `s`, the reserved boundary delimiter of
/// display directives.
pub fn double_section(s: &str) -> (r: String)
    ensures
        r@ == section_doubled(s@),
{
    let mut out = String::new();
    proof {
        assert(out@ =~= concat_map(s@.take(0), section_f()));
    }
    let n = s.unicode_len();
    let mut i: usize = 0;
    while i < n
        invariant
            i <= n,
            n == s@.len(),
            out@ == concat_map(s@.take(i as int), section_f()),
        decreases n - i,
    {
        let c = s.get_char(i);
        append_char_at(&mut out, s, i);
        if c == '§' {
            append_char_at(&mut out, s, i);
        }
        proof {
            lemma_concat_map_push(s@.take(i as int), section_f(), s@[i as int]);
            assert(s@.take(i as int).push(s@[i as int]) =~= s@.take(i + 1));
            assert(out@ =~= concat_map(s@.take(i + 1), section_f()));
        }
        i += 1;
    }
    proof {
        assert(s@.take(n as int) =~= s@);
    }
    out
}

} // verus!
