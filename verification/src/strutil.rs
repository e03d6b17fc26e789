//! Small verified helpers for building output strings character by
//! character, and for printing unsigned numbers in decimal.

use vstd::prelude::*;

verus! {

/// Appends the single character `src@[i]` to `out`.
///
/// The bound on `src@.len()` is a machine limit: callers learn it from
/// `unicode_len`, whose result is a `usize`.
pub(crate) fn append_char_at(out: &mut String, src: &str, i: usize)
    requires
        i < src@.len(),
        src@.len() <= usize::MAX,
    ensures
        final(out)@ == old(out)@ + seq![src@[i as int]],
{
    let piece = src.substring_char(i, i + 1);
    proof {
        assert(piece@ =~= seq![src@[i as int]]);
    }
    out.append(piece);
}

/// The parts joined with `sep` between neighbours: no leading and no
/// trailing separator.
pub open spec fn sep_joined(parts: Seq<Seq<char>>, sep: Seq<char>) -> Seq<char>
    decreases parts.len(),
{
    if parts.len() == 0 {
        Seq::empty()
    } else if parts.len() == 1 {
        parts[0]
    } else {
        sep_joined(parts.drop_last(), sep) + sep + parts.last()
    }
}

/// Joining one more part appends it after one separator, or stands alone
/// where nothing was joined yet.
pub proof fn lemma_sep_joined_push(parts: Seq<Seq<char>>, sep: Seq<char>, b: Seq<char>)
    ensures
        sep_joined(parts + seq![b], sep) == if parts.len() == 0 {
            b
        } else {
            (sep_joined(parts, sep) + sep + b)
        },
{
    let p1 = parts + seq![b];
    assert(p1.drop_last() =~= parts);
    assert(p1.last() == b);
    if parts.len() == 0 {
        assert(sep_joined(p1, sep) == p1[0]);
    }
}

/// Extending a prefix by one element extends its `filter_map` image by that
/// element's image, where it has one.
pub proof fn lemma_filter_map_take_step<A, B>(s: Seq<A>, f: spec_fn(A) -> Option<B>, i: int)
    requires
        0 <= i < s.len(),
    ensures
        s.take(i + 1).filter_map(f) == match f(s[i]) {
            Some(b) => s.take(i).filter_map(f) + seq![b],
            None => s.take(i).filter_map(f),
        },
{
    let t1 = s.take(i + 1);
    assert(t1.drop_last() =~= s.take(i));
    assert(t1.last() == s[i]);
}

/// The decimal digit character for `d`.
pub open spec fn dec_digit(d: int) -> char {
    if d == 0 { '0' }
    else if d == 1 { '1' }
    else if d == 2 { '2' }
    else if d == 3 { '3' }
    else if d == 4 { '4' }
    else if d == 5 { '5' }
    else if d == 6 { '6' }
    else if d == 7 { '7' }
    else if d == 8 { '8' }
    else { '9' }
}

/// The decimal representation of `n`, with no leading zeros (a lone zero
/// for zero itself).
pub open spec fn dec_rep(n: int) -> Seq<char>
    decreases n,
{
    if n < 10 {
        seq![dec_digit(n)]
    } else {
        dec_rep(n / 10) + seq![dec_digit(n % 10)]
    }
}

/// Appends the decimal representation of `n` to `out`.
pub fn append_u32_decimal(out: &mut String, n: u32)
    ensures
        final(out)@ == old(out)@ + dec_rep(n as int),
    decreases n,
{
    let digits = "0123456789";
    proof {
        reveal_strlit("0123456789");
    }
    if n < 10 {
        append_char_at(out, digits, n as usize);
        proof {
            assert(digits@[n as int] == dec_digit(n as int));
        }
    } else {
        append_u32_decimal(out, n / 10);
        let d = n % 10;
        append_char_at(out, digits, d as usize);
        proof {
            assert(digits@[d as int] == dec_digit(d as int));
            assert(old(out)@ + dec_rep(n as int)
                =~= (old(out)@ + dec_rep(n as int / 10)) + seq![dec_digit(n as int % 10)]);
        }
    }
}

} // verus!
