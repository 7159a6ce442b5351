//! Laws of text.

use crate::text::{
    ascii, blank, decimal, has_prefix, join, lemma_split_pieces, lower, number, numeric, opt_view,
    signed_decimal, split, text_or, trim_end, trim_start, upper, views, white_space,
};
use vstd::prelude::*;

verus! {

/// Text that was cut can be joined again, and no piece of it holds the separator.
pub proof fn law_pieces_make_the_text(s: Seq<char>, sep: char)
    ensures
        split(s, sep).len() > 0,
        forall|i: int, k: int|
            0 <= i < split(s, sep).len() && 0 <= k < split(s, sep)[i].len() ==> #[trigger] split(
                s,
                sep,
            )[i][k] != sep,
        join(split(s, sep), sep) == s,
    decreases s.len(),
{
    lemma_split_pieces(s, sep);
    assert forall|i: int, k: int|
        0 <= i < split(s, sep).len() && 0 <= k < split(s, sep)[i].len() implies #[trigger] split(
        s,
        sep,
    )[i][k] != sep by {
        assert(!split(s, sep)[i].contains(sep));
    }
    if s.len() > 0 {
        let front = split(s.drop_last(), sep);
        law_pieces_make_the_text(s.drop_last(), sep);
        if s.last() == sep {
            assert(front.push(Seq::empty()).drop_last() =~= front);
            assert(join(split(s, sep), sep) =~= s);
        } else {
            let grown = front.update(front.len() - 1, front.last().push(s.last()));
            assert(grown.drop_last() =~= front.drop_last());
            assert(join(grown, sep) =~= join(front, sep).push(s.last()));
            assert(join(split(s, sep), sep) =~= s);
        }
    }
}

/// Joined parts stand one after the other, with the separator between any two.
pub proof fn law_join_spells_out(parts: Seq<Seq<char>>, x: Seq<char>, sep: char)
    ensures
        join(Seq::empty(), sep) == Seq::<char>::empty(),
        join(seq![x], sep) == x,
        parts.len() > 0 ==> join(parts.push(x), sep) == join(parts, sep) + seq![sep] + x,
{
    if parts.len() > 0 {
        assert(parts.push(x).drop_last() =~= parts);
        assert(join(parts.push(x), sep) =~= join(parts, sep) + seq![sep] + x);
    }
}

/// A text starts with white space only up to where its trimmed start begins.
proof fn lemma_trim_start(s: Seq<char>) -> (n: int)
    ensures
        0 <= n <= s.len(),
        trim_start(s) == s.skip(n),
        forall|i: int| 0 <= i < n ==> white_space(#[trigger] s[i]),
        n < s.len() ==> !white_space(s[n]),
    decreases s.len(),
{
    if s.len() > 0 && white_space(s[0]) {
        let t = s.skip(1);
        let m = lemma_trim_start(t);
        assert(t.skip(m) =~= s.skip(m + 1));
        assert forall|i: int| 0 <= i < m + 1 implies white_space(#[trigger] s[i]) by {
            if i > 0 {
                assert(s[i] == t[i - 1]);
            }
        }
        m + 1
    } else {
        assert(s.skip(0) =~= s);
        0
    }
}

/// A text ends with white space only from where its trimmed end is over.
proof fn lemma_trim_end(s: Seq<char>) -> (n: int)
    ensures
        0 <= n <= s.len(),
        trim_end(s) == s.take(n),
        forall|i: int| n <= i < s.len() ==> white_space(#[trigger] s[i]),
        n > 0 ==> !white_space(s[n - 1]),
    decreases s.len(),
{
    if s.len() > 0 && white_space(s.last()) {
        let t = s.drop_last();
        let m = lemma_trim_end(t);
        assert(t.take(m) =~= s.take(m));
        assert forall|i: int| m <= i < s.len() implies white_space(#[trigger] s[i]) by {
            if i < t.len() {
                assert(s[i] == t[i]);
            }
        }
        m
    } else {
        assert(s.take(s.len() as int) =~= s);
        s.len() as int
    }
}

/// Trimming cuts white space off the two ends and nothing else, and leaves none there.
pub proof fn law_trim_cuts_white_space(s: Seq<char>) -> (ends: (int, int))
    ensures
        0 <= ends.0 <= ends.1 <= s.len(),
        trim_end(trim_start(s)) == s.subrange(ends.0, ends.1),
        forall|i: int| 0 <= i < ends.0 ==> white_space(#[trigger] s[i]),
        forall|i: int| ends.1 <= i < s.len() ==> white_space(#[trigger] s[i]),
        ends.0 < ends.1 ==> !white_space(s[ends.0]) && !white_space(s[ends.1 - 1]),
{
    let from = lemma_trim_start(s);
    let t = s.skip(from);
    let n = lemma_trim_end(t);
    assert(t.take(n) =~= s.subrange(from, from + n));
    assert forall|i: int| from + n <= i < s.len() implies white_space(#[trigger] s[i]) by {
        assert(s[i] == t[i - from]);
    }
    if n > 0 {
        assert(t[n - 1] == s[from + n - 1]);
    }
    (from, from + n)
}

/// A text is blank exactly when each of its characters is white space.
pub proof fn law_blank_is_white_space(s: Seq<char>)
    ensures
        blank(s) <==> forall|i: int| 0 <= i < s.len() ==> white_space(#[trigger] s[i]),
{
}

/// A text starts with a prefix exactly when it has its characters in front.
pub proof fn law_prefix_stands_in_front(s: Seq<char>, prefix: Seq<char>, rest: Seq<char>)
    ensures
        has_prefix(prefix + rest, prefix),
        (prefix + rest).skip(prefix.len() as int) == rest,
        has_prefix(s, prefix) <==> prefix.len() <= s.len() && forall|i: int|
            0 <= i < prefix.len() ==> #[trigger] s[i] == prefix[i],
{
    assert((prefix + rest).take(prefix.len() as int) =~= prefix);
    assert((prefix + rest).skip(prefix.len() as int) =~= rest);
    if prefix.len() <= s.len() {
        if forall|i: int| 0 <= i < prefix.len() ==> #[trigger] s[i] == prefix[i] {
            assert(s.take(prefix.len() as int) =~= prefix);
        }
        if has_prefix(s, prefix) {
            assert forall|i: int| 0 <= i < prefix.len() implies #[trigger] s[i] == prefix[i] by {
                assert(s.take(prefix.len() as int)[i] == s[i]);
            }
        }
    }
}

/// Lowering moves the letters `A` to `Z`, and only them, to `a` to `z`. Raising moves the
/// others, and text within ASCII is what holds no character from 128 on.
pub proof fn law_letter_case(s: Seq<char>, i: int)
    requires
        0 <= i < s.len(),
    ensures
        lower(s).len() == s.len(),
        'A' <= s[i] <= 'Z' ==> lower(s)[i] as int == s[i] as int + 32,
        !('A' <= s[i] <= 'Z') ==> lower(s)[i] == s[i],
        upper(s).len() == s.len(),
        'a' <= s[i] <= 'z' ==> upper(s)[i] as int == s[i] as int - 32,
        !('a' <= s[i] <= 'z') ==> upper(s)[i] == s[i],
        ascii(s) <==> forall|k: int| 0 <= k < s.len() ==> (#[trigger] s[k] as u32) <= 127,
{
}

/// A text is a number exactly when it is one or more of the digits `0` to `9`.
pub proof fn law_number_is_digits(s: Seq<char>)
    ensures
        numeric(s) <==> s.len() > 0 && forall|i: int|
            0 <= i < s.len() ==> '0' <= (#[trigger] s[i]) <= '9',
{
}

/// Each further digit counts for itself, and what stands before it for ten times as much.
pub proof fn law_digits_are_positional(s: Seq<char>, d: char)
    requires
        '0' <= d <= '9',
    ensures
        number(Seq::empty()) == 0,
        number(s.push(d)) == 10 * number(s) + (d as int - 48),
{
    assert(s.push(d).drop_last() =~= s);
}

/// What is written in decimal is read back as the same number, and has no leading zeros.
pub proof fn law_decimal_reads_back(n: nat)
    ensures
        numeric(decimal(n)),
        number(decimal(n)) == n,
        decimal(n).len() == 1 || decimal(n)[0] != '0',
        n > 0 ==> decimal(n)[0] != '0',
    decreases n,
{
    if n < 10 {
        let c = ('0' as nat + n) as char;
        law_digits_are_positional(Seq::empty(), c);
        assert(decimal(n) =~= Seq::<char>::empty().push(c));
        assert(decimal(n)[0] == c);
    } else {
        law_decimal_reads_back(n / 10);
        let c = ('0' as nat + n % 10) as char;
        law_digits_are_positional(decimal(n / 10), c);
        assert forall|i: int| 0 <= i < decimal(n).len() implies '0' <= (#[trigger] decimal(n)[i])
            <= '9' by {
            if i < decimal(n / 10).len() {
                assert(decimal(n)[i] == decimal(n / 10)[i]);
            }
        }
        assert(decimal(n)[0] == decimal(n / 10)[0]);
    }
}

/// A number below zero is written with a sign in front, and any other without.
pub proof fn law_sign_stands_in_front(n: int)
    ensures
        n >= 0 ==> signed_decimal(n) == decimal(n as nat),
        n < 0 ==> signed_decimal(n) == seq!['-'] + decimal((-n) as nat),
{
}

/// A text that is given counts, whatever it holds, and the default only where there is none.
pub proof fn law_given_text_counts(s: String, default: Seq<char>)
    ensures
        text_or(Some(s), default) == s@,
        text_or(None, default) == default,
        opt_view(Some(s)) == Some(s@),
        opt_view(None) is None,
{
}

/// A list of texts is seen text by text.
pub proof fn law_list_is_seen_in_full(v: Seq<String>, i: int)
    requires
        0 <= i < v.len(),
    ensures
        views(v).len() == v.len(),
        views(v)[i] == v[i]@,
{
}

} // verus!
