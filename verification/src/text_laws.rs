//! What the pieces of text are: how a text is put together decides how it is
//! taken apart.
use vstd::prelude::*;

#[allow(unused_imports)]
use crate::text::{
    contains, dec, dec_int, digits_value, ends_with, is_digit, is_white, joined, leading,
    lemma_leading, lines, lowered, occurs_at, pieces, signed, signed_digits, starts_with, trimmed,
    trimmed_end, trimmed_start, unsigned, unsigned_digits, words, zero_padded,
};

verus! {

// ---------------------------------------------------------------------------
// Numbers
// ---------------------------------------------------------------------------
proof fn lemma_dec(n: nat)
    ensures
        dec(n).len() > 0,
        forall|k: int| 0 <= k < dec(n).len() ==> is_digit(#[trigger] dec(n)[k]),
        digits_value(dec(n)) == n,
        n > 0 ==> dec(n)[0] != '0',
    decreases n,
{
    if n < 10 {
        let d = dec(n);
        assert(d =~= seq![(48 + n) as char]);
        assert(d.drop_last() =~= Seq::<char>::empty());
        assert(digits_value(d.drop_last()) == 0);
    } else {
        let front = dec(n / 10);
        lemma_dec(n / 10);
        let d = dec(n);
        assert(d =~= front.push((48 + n % 10) as char));
        assert(d.drop_last() =~= front);
        assert forall|k: int| 0 <= k < d.len() implies is_digit(#[trigger] d[k]) by {
            if k < front.len() {
                assert(is_digit(front[k]));
            }
        }
    }
}

/// A number that is written in decimal reads back as itself, without a sign or
/// a leading zero.
pub proof fn law_a_written_number_reads_back(n: u64)
    ensures
        unsigned(dec(n as nat)) == Some(n),
        n > 0 ==> dec(n as nat)[0] != '0',
        forall|k: int|
            0 <= k < dec(n as nat).len() ==> '0' <= #[trigger] dec(n as nat)[k] <= '9',
{
    lemma_dec(n as nat);
    assert(is_digit(dec(n as nat)[0]));
    assert(unsigned_digits(dec(n as nat)) == dec(n as nat));
}

/// A signed number that is written in decimal reads back as itself.
pub proof fn law_a_written_integer_reads_back(n: i64)
    ensures
        signed(dec_int(n as int)) == Some(n),
        n < 0 ==> dec_int(n as int)[0] == '-',
{
    let m: nat = if n < 0 {
        (-n) as nat
    } else {
        n as nat
    };
    lemma_dec(m);
    let t = dec_int(n as int);
    assert(is_digit(dec(m)[0]));
    if n < 0 {
        assert(t[0] == '-');
        assert(t.skip(1) =~= dec(m));
    }
    assert(signed_digits(t) == dec(m));
}

/// What is not one or more digits, after at most one sign, is no number.
pub proof fn law_only_digits_are_a_number(s: Seq<char>, k: int)
    requires
        0 <= k < s.len(),
        !('0' <= s[k] <= '9'),
        k > 0 || !(s[0] == '+' || s[0] == '-'),
    ensures
        unsigned(s) is None,
        signed(s) is None,
{
    if s[0] == '+' {
        assert(s.skip(1)[k - 1] == s[k]);
    } else if s[0] == '-' {
        assert(!is_digit(s[0]));
        assert(s.skip(1)[k - 1] == s[k]);
    }
}

/// A text that is padded with zeros ends in the text, has the width, unless the
/// text is longer, and has zeros in front.
pub proof fn law_padding_is_zeros_in_front(s: Seq<char>, width: nat)
    ensures
        ({
            let p = zero_padded(s, width);
            let more = p.len() - s.len();
            &&& p.len() == if s.len() >= width {
                s.len()
            } else {
                width
            }
            &&& forall|i: int| 0 <= i < more ==> #[trigger] p[i] == '0'
            &&& forall|i: int| more <= i < p.len() ==> #[trigger] p[i] == s[i - more]
        }),
    decreases width - s.len(),
{
    if s.len() < width {
        let longer = seq!['0'] + s;
        law_padding_is_zeros_in_front(longer, width);
        let p = zero_padded(s, width);
        let more = p.len() - s.len();
        assert forall|i: int| 0 <= i < more implies #[trigger] p[i] == '0' by {
            if i == more - 1 {
                assert(p[i] == longer[0]);
            }
        }
        assert forall|i: int| more <= i < p.len() implies #[trigger] p[i] == s[i - more] by {
            assert(p[i] == longer[i - (more - 1)]);
        }
    }
}

// ---------------------------------------------------------------------------
// Searching and cases
// ---------------------------------------------------------------------------
/// A text holds what it is put together from: it begins with its first part,
/// ends with its last, and contains each.
pub proof fn law_a_text_contains_its_parts(a: Seq<char>, b: Seq<char>, c: Seq<char>)
    ensures
        starts_with(a + b + c, a),
        contains(a + b + c, b),
        ends_with(a + b + c, c),
{
    let s = a + b + c;
    assert(s.subrange(0, a.len() as int) =~= a);
    assert(s.subrange(a.len() as int, (a.len() + b.len()) as int) =~= b);
    assert(occurs_at(s, b, a.len() as int));
    assert(s.subrange(s.len() - c.len(), s.len() - c.len() + c.len()) =~= c);
}

/// What a text begins with, ends with or contains can be cut out of it.
pub proof fn law_a_part_can_be_cut_out(s: Seq<char>, part: Seq<char>)
    ensures
        starts_with(s, part) <==> part.len() <= s.len() && s == part + s.skip(part.len() as int),
        ends_with(s, part) <==> part.len() <= s.len() && s == s.take(s.len() - part.len()) + part,
        contains(s, part) ==> exists|at: int|
            0 <= at <= s.len() - part.len() && s == #[trigger] s.take(at) + part + s.skip(
                at + part.len(),
            ),
{
    let n = part.len() as int;
    if starts_with(s, part) {
        assert(s =~= part + s.skip(n));
    }
    if n <= s.len() && s == part + s.skip(n) {
        assert(s.subrange(0, n) =~= part);
    }
    if ends_with(s, part) {
        assert(s =~= s.take(s.len() - n) + part);
    }
    if n <= s.len() && s == s.take(s.len() - n) + part {
        assert(s.subrange(s.len() - n, s.len() - n + n) =~= part);
    }
    if contains(s, part) {
        let at = choose|at: int| occurs_at(s, part, at);
        assert(s =~= s.take(at) + part + s.skip(at + n));
    }
}

/// In lower case, each of the letters `A` to `Z` becomes its small letter and
/// every other character stays; no place changes.
pub proof fn law_lower_case_changes_capitals_only(s: Seq<char>, i: int)
    requires
        0 <= i < s.len(),
    ensures
        lowered(s).len() == s.len(),
        'A' <= s[i] <= 'Z' ==> lowered(s)[i] as int - 'a' as int == s[i] as int - 'A' as int,
        !('A' <= s[i] <= 'Z') ==> lowered(s)[i] == s[i],
        lowered(lowered(s)) == lowered(s),
{
    assert(lowered(lowered(s)) =~= lowered(s));
}

// ---------------------------------------------------------------------------
// Trimming, splitting, joining
// ---------------------------------------------------------------------------
/// Whether a text is all white space.
pub open spec fn all_white(s: Seq<char>) -> bool {
    forall|k: int| 0 <= k < s.len() ==> is_white(#[trigger] s[k])
}

/// Whether a text holds no white space.
pub open spec fn no_white(s: Seq<char>) -> bool {
    forall|k: int| 0 <= k < s.len() ==> !is_white(#[trigger] s[k])
}

proof fn lemma_trimmed_end(m: Seq<char>, b: Seq<char>)
    requires
        all_white(b),
        m.len() > 0 ==> !is_white(m.last()),
    ensures
        trimmed_end(m + b) == m,
    decreases b.len(),
{
    let s = m + b;
    if b.len() == 0 {
        assert(s =~= m);
    } else {
        assert(is_white(b[b.len() - 1]));
        assert(s.last() == b[b.len() - 1]);
        assert(s.drop_last() =~= m + b.drop_last());
        assert forall|k: int| 0 <= k < b.drop_last().len() implies is_white(
            #[trigger] b.drop_last()[k],
        ) by {
            assert(is_white(b[k]));
        }
        lemma_trimmed_end(m, b.drop_last());
    }
}

/// Trimming takes the white space from both ends and nothing else: what stands
/// between, from one character that is not white to another, is what is left.
pub proof fn law_trimming_takes_only_the_ends(a: Seq<char>, m: Seq<char>, b: Seq<char>)
    requires
        all_white(a),
        all_white(b),
        m.len() > 0 ==> !is_white(m[0]) && !is_white(m.last()),
    ensures
        trimmed(a + m + b) == m,
{
    let s = a + m + b;
    let white = |c: char| is_white(c);
    if m.len() == 0 {
        assert forall|k: int| 0 <= k < s.len() implies white(#[trigger] s[k]) by {
            if k < a.len() {
                assert(is_white(a[k]));
            } else {
                assert(is_white(b[k - a.len()]));
            }
        }
        lemma_leading(s, white, s.len());
        assert(trimmed_start(s) =~= seq![]);
        assert(trimmed(s) =~= m);
    } else {
        assert forall|k: int| 0 <= k < a.len() implies white(#[trigger] s[k]) by {
            assert(is_white(a[k]));
        }
        assert(s[a.len() as int] == m[0]);
        lemma_leading(s, white, a.len());
        assert(trimmed_start(s) =~= m + b);
        lemma_trimmed_end(m, b);
    }
}

/// The words of a text: white space in front does not matter, and a run
/// without white space, up to the next white space or the end, is a word. A
/// text of white space has none.
pub proof fn law_words_are_runs_between_white_space(a: Seq<char>, w: Seq<char>, rest: Seq<char>)
    requires
        all_white(a),
        no_white(w),
        w.len() > 0,
        rest.len() > 0 ==> is_white(rest[0]),
    ensures
        words(a) == Seq::<Seq<char>>::empty(),
        words(a + w + rest) == seq![w] + words(rest),
{
    let white = |c: char| is_white(c);
    let dark = |c: char| !is_white(c);
    lemma_leading(a, white, a.len());
    assert(trimmed_start(a) =~= seq![]);
    let s = a + w + rest;
    assert forall|k: int| 0 <= k < a.len() implies white(#[trigger] s[k]) by {
        assert(is_white(a[k]));
    }
    assert(s[a.len() as int] == w[0]);
    lemma_leading(s, white, a.len());
    let t = trimmed_start(s);
    assert(t =~= w + rest);
    assert forall|k: int| 0 <= k < w.len() implies dark(#[trigger] t[k]) by {
        assert(!is_white(w[k]));
    }
    if rest.len() > 0 {
        assert(t[w.len() as int] == rest[0]);
    }
    lemma_leading(t, dark, w.len());
    assert(t.take(w.len() as int) =~= w);
    assert(t.skip(w.len() as int) =~= rest);
}

/// The pieces of a text: what stands in front of the first separator, then the
/// pieces of what stands behind it. A text without one is one piece.
pub proof fn law_pieces_stand_between_separators(p: Seq<char>, sep: char, rest: Seq<char>)
    requires
        !p.contains(sep),
    ensures
        pieces(p, |c: char| c == sep) == seq![p],
        pieces(p.push(sep) + rest, |c: char| c == sep) == seq![p] + pieces(
            rest,
            |c: char| c == sep,
        ),
{
    let breaks = |c: char| c == sep;
    let keeps = |c: char| !breaks(c);
    assert forall|k: int| 0 <= k < p.len() implies keeps(#[trigger] p[k]) by {
        if p[k] == sep {
            assert(p.contains(sep));
        }
    }
    lemma_leading(p, keeps, p.len());
    let s = p.push(sep) + rest;
    assert forall|k: int| 0 <= k < p.len() implies keeps(#[trigger] s[k]) by {
        assert(keeps(p[k]));
    }
    assert(s[p.len() as int] == sep);
    lemma_leading(s, keeps, p.len());
    assert(s.take(p.len() as int) =~= p);
    assert(s.skip((p.len() + 1) as int) =~= rest);
}

/// The lines of a text: what stands in front of the first line feed, without a
/// carriage return at its end, then the lines of what stands behind it. A last
/// line needs no ending, and nothing has no lines.
pub proof fn law_lines_stand_between_line_feeds(l: Seq<char>, rest: Seq<char>)
    requires
        !l.contains('\n'),
    ensures
        lines(Seq::empty()) == Seq::<Seq<char>>::empty(),
        l.len() > 0 ==> lines(l) == seq![l],
        l.len() == 0 || l.last() != '\r' ==> lines(l.push('\n') + rest) == seq![l] + lines(rest),
        lines(l.push('\r').push('\n') + rest) == seq![l] + lines(rest),
{
    let keeps = |c: char| c != '\n';
    assert forall|k: int| 0 <= k < l.len() implies keeps(#[trigger] l[k]) by {
        if l[k] == '\n' {
            assert(l.contains('\n'));
        }
    }
    lemma_leading(l, keeps, l.len());
    let s = l.push('\n') + rest;
    assert forall|k: int| 0 <= k < l.len() implies keeps(#[trigger] s[k]) by {
        assert(keeps(l[k]));
    }
    assert(s[l.len() as int] == '\n');
    lemma_leading(s, keeps, l.len());
    assert(s.take(l.len() as int) =~= l);
    assert(s.skip((l.len() + 1) as int) =~= rest);
    let r = l.push('\r');
    let t = r.push('\n') + rest;
    assert forall|k: int| 0 <= k < r.len() implies keeps(#[trigger] t[k]) by {
        if k < l.len() {
            assert(keeps(l[k]));
        }
    }
    assert(t[r.len() as int] == '\n');
    lemma_leading(t, keeps, r.len());
    assert(t.take(r.len() as int) =~= r);
    assert(r.drop_last() =~= l);
    assert(t.skip((r.len() + 1) as int) =~= rest);
}

/// Joined texts stand in order with the separator between neighbours, and
/// nowhere else.
pub proof fn law_a_joint_stands_between_neighbours(
    parts: Seq<Seq<char>>,
    more: Seq<char>,
    sep: Seq<char>,
)
    ensures
        joined(Seq::empty(), sep) == Seq::<char>::empty(),
        joined(seq![more], sep) == more,
        parts.len() > 0 ==> joined(parts.push(more), sep) == joined(parts, sep) + sep + more,
{
    assert(parts.push(more).drop_last() =~= parts);
}

/// Pieces that are joined again with their separator are the text.
pub proof fn law_joined_pieces_are_the_text(s: Seq<char>, sep: char)
    ensures
        joined(pieces(s, |c: char| c == sep), seq![sep]) == s,
    decreases s.len(),
{
    let breaks = |c: char| c == sep;
    let keeps = |c: char| !breaks(c);
    crate::text::lemma_leading_bound(s, keeps);
    let n = leading(s, keeps) as int;
    let all = pieces(s, breaks);
    if n < s.len() {
        let rest = s.skip(n + 1);
        law_joined_pieces_are_the_text(rest, sep);
        assert(all == seq![s.take(n)] + pieces(rest, breaks));
        lemma_joined_front(s.take(n), pieces(rest, breaks), seq![sep]);
        lemma_some_piece(rest, sep);
        assert(s =~= s.take(n) + seq![sep] + rest);
    }
}

proof fn lemma_some_piece(s: Seq<char>, sep: char)
    ensures
        pieces(s, |c: char| c == sep).len() > 0,
{
}

proof fn lemma_joined_front(first: Seq<char>, parts: Seq<Seq<char>>, sep: Seq<char>)
    requires
        parts.len() > 0,
    ensures
        joined(seq![first] + parts, sep) == first + sep + joined(parts, sep),
    decreases parts.len(),
{
    let all = seq![first] + parts;
    if parts.len() == 1 {
        assert(all.drop_last() =~= seq![first]);
        assert(joined(all.drop_last(), sep) == first);
        assert(all.last() == parts[0]);
    } else {
        assert(all.drop_last() =~= seq![first] + parts.drop_last());
        lemma_joined_front(first, parts.drop_last(), sep);
        assert(all.last() == parts.last());
        assert(joined(all, sep) =~= first + sep + joined(parts, sep));
    }
}

} // verus!
