//! Characters and strings as mathematical sequences.
//!
//! Every function here states its result over `Seq<char>`, the view of both
//! `&str` and `String`.
use vstd::prelude::*;
use vstd::string::StringExecFns;

verus! {

/// `String::push` appends one character to the end of the string.
pub assume_specification[ String::push ](s: &mut String, ch: char)
    ensures
        final(s)@ == old(s)@.push(ch),
;

// ---------------------------------------------------------------------------
// Moving between strings and character vectors
// ---------------------------------------------------------------------------
/// The characters of a string slice.
pub fn chars_of(s: &str) -> (out: Vec<char>)
    ensures
        out@ == s@,
{
    let mut out: Vec<char> = Vec::new();
    for c in it: s.chars()
        invariant
            out@ == it.seq().take(it.index() as int),
    {
        out.push(c);
    }
    out
}

/// The string made of `chars`.
pub fn string_of(chars: &Vec<char>) -> (out: String)
    ensures
        out@ == chars@,
{
    range_string(chars, 0, chars.len())
}

/// The string made of `chars[from..to]`.
pub fn range_string(chars: &Vec<char>, from: usize, to: usize) -> (out: String)
    requires
        from <= to <= chars@.len(),
    ensures
        out@ == chars@.subrange(from as int, to as int),
{
    let mut out: String = String::new();
    let mut i: usize = from;
    while i < to
        invariant
            from <= i <= to <= chars@.len(),
            out@ == chars@.subrange(from as int, i as int),
        decreases to - i,
    {
        out.push(chars[i]);
        i = i + 1;
    }
    out
}

/// The views of a sequence of strings.
pub open spec fn views(strings: Seq<String>) -> Seq<Seq<char>> {
    strings.map_values(|s: String| s@)
}

/// Whether two string slices hold the same characters.
pub fn same(a: &str, b: &str) -> (r: bool)
    ensures
        r == (a@ == b@),
{
    let x: Vec<char> = chars_of(a);
    let y: Vec<char> = chars_of(b);
    same_chars(&x, &y)
}

/// Whether two character vectors are equal.
pub fn same_chars(a: &Vec<char>, b: &Vec<char>) -> (r: bool)
    ensures
        r == (a@ == b@),
{
    if a.len() != b.len() {
        return false;
    }
    let mut i: usize = 0;
    while i < a.len()
        invariant
            i <= a.len(),
            a.len() == b.len(),
            a@.take(i as int) == b@.take(i as int),
        decreases a.len() - i,
    {
        if a[i] != b[i] {
            assert(a@[i as int] != b@[i as int]);
            return false;
        }
        assert(a@.take(i + 1) == a@.take(i as int).push(a@[i as int]));
        assert(b@.take(i + 1) == b@.take(i as int).push(b@[i as int]));
        i = i + 1;
    }
    assert(a@.take(i as int) == a@);
    assert(b@.take(i as int) == b@);
    true
}

/// `a` followed by `b`.
pub fn cat(a: &str, b: &str) -> (out: String)
    ensures
        out@ == a@ + b@,
{
    let mut out: String = a.to_string();
    out.append(b);
    out
}

/// A copy of a text that is perhaps missing.
pub fn copy_text(text: &Option<String>) -> (out: Option<String>)
    ensures
        out == *text,
{
    match text {
        Some(t) => Some(t.clone()),
        None => None,
    }
}

/// A copy of a list of strings.
pub fn copy_strings(v: &Vec<String>) -> (out: Vec<String>)
    ensures
        out@ == v@,
{
    let mut out: Vec<String> = Vec::new();
    let mut i: usize = 0;
    while i < v.len()
        invariant
            i <= v.len(),
            out@ == v@.take(i as int),
        decreases v.len() - i,
    {
        out.push(v[i].clone());
        i = i + 1;
    }
    assert(v@.take(v.len() as int) == v@);
    out
}

// ---------------------------------------------------------------------------
// Decimal numbers
// ---------------------------------------------------------------------------
/// The decimal digit for `0 <= d < 10`.
pub open spec fn digit(d: nat) -> char {
    (48 + d) as char
}

/// A natural number in decimal, without leading zeros.
pub open spec fn dec(n: nat) -> Seq<char>
    decreases n,
{
    if n < 10 {
        seq![digit(n)]
    } else {
        dec(n / 10).push(digit(n % 10))
    }
}

/// An integer in decimal, with a leading `-` when negative.
pub open spec fn dec_int(i: int) -> Seq<char> {
    if i < 0 {
        seq!['-'] + dec((-i) as nat)
    } else {
        dec(i as nat)
    }
}

/// `s` with `0` in front until it has at least `width` characters.
pub open spec fn zero_padded(s: Seq<char>, width: nat) -> Seq<char>
    decreases width - s.len(),
{
    if s.len() >= width {
        s
    } else {
        zero_padded(seq!['0'] + s, width)
    }
}

fn digit_char(d: u64) -> (c: char)
    requires
        d < 10,
    ensures
        c == digit(d as nat),
{
    (48u8 + d as u8) as char
}

/// A number in decimal.
pub fn dec_u64(n: u64) -> (out: String)
    ensures
        out@ == dec(n as nat),
    decreases n,
{
    if n < 10 {
        let mut out: String = String::new();
        out.push(digit_char(n));
        out
    } else {
        let mut out: String = dec_u64(n / 10);
        out.push(digit_char(n % 10));
        out
    }
}

/// A signed number in decimal.
pub fn dec_i64(n: i64) -> (out: String)
    ensures
        out@ == dec_int(n as int),
{
    if n < 0 {
        let magnitude: u64 = (-(n as i128)) as u64;
        let digits: String = dec_u64(magnitude);
        let mut out: String = String::new();
        out.push('-');
        out.append(digits.as_str());
        out
    } else {
        dec_u64(n as u64)
    }
}

/// A number in decimal, padded with zeros to `width`.
pub fn dec_padded(n: u64, width: usize) -> (out: String)
    ensures
        out@ == zero_padded(dec(n as nat), width as nat),
{
    let plain: String = dec_u64(n);
    let mut chars: Vec<char> = chars_of(plain.as_str());
    while chars.len() < width
        invariant
            zero_padded(chars@, width as nat) == zero_padded(dec(n as nat), width as nat),
        decreases width - chars.len(),
    {
        let ghost before = chars@;
        chars.insert(0, '0');
        assert(chars@ == seq!['0'] + before);
    }
    string_of(&chars)
}

// ---------------------------------------------------------------------------
// Character classes
// ---------------------------------------------------------------------------
/// The characters with the Unicode `White_Space` property.
pub open spec fn is_white(c: char) -> bool {
    ||| 0x9 <= c as u32 <= 0xd
    ||| c as u32 == 0x20
    ||| c as u32 == 0x85
    ||| c as u32 == 0xa0
    ||| c as u32 == 0x1680
    ||| 0x2000 <= c as u32 <= 0x200a
    ||| c as u32 == 0x2028
    ||| c as u32 == 0x2029
    ||| c as u32 == 0x202f
    ||| c as u32 == 0x205f
    ||| c as u32 == 0x3000
}

/// Whether a character is white space.
pub fn white(c: char) -> (r: bool)
    ensures
        r == is_white(c),
{
    let n: u32 = c as u32;
    (0x9 <= n && n <= 0xd) || n == 0x20 || n == 0x85 || n == 0xa0 || n == 0x1680 || (0x2000 <= n && n
        <= 0x200a) || n == 0x2028 || n == 0x2029 || n == 0x202f || n == 0x205f || n == 0x3000
}

/// ASCII letters and digits.
pub open spec fn is_alphanumeric(c: char) -> bool {
    ('a' <= c && c <= 'z') || ('A' <= c && c <= 'Z') || ('0' <= c && c <= '9')
}

/// Whether a character is an ASCII letter or digit.
pub fn alphanumeric(c: char) -> (r: bool)
    ensures
        r == is_alphanumeric(c),
{
    ('a' <= c && c <= 'z') || ('A' <= c && c <= 'Z') || ('0' <= c && c <= '9')
}

/// `c` in lower case if it is an ASCII letter, else `c`.
pub open spec fn lower(c: char) -> char {
    if 'A' <= c && c <= 'Z' {
        (c as u32 + 32) as char
    } else {
        c
    }
}

/// The ASCII lower-case form of a character.
pub fn lower_char(c: char) -> (r: char)
    ensures
        r == lower(c),
{
    if 'A' <= c && c <= 'Z' {
        (c as u8 + 32u8) as char
    } else {
        c
    }
}

/// `s` with its ASCII letters in lower case.
pub open spec fn lowered(s: Seq<char>) -> Seq<char> {
    s.map_values(|c: char| lower(c))
}

/// The characters with ASCII letters in lower case.
pub fn lower_chars(v: &Vec<char>) -> (out: Vec<char>)
    ensures
        out@ == lowered(v@),
{
    let mut out: Vec<char> = Vec::new();
    let mut i: usize = 0;
    while i < v.len()
        invariant
            i <= v.len(),
            out@ == lowered(v@).take(i as int),
        decreases v.len() - i,
    {
        out.push(lower_char(v[i]));
        i = i + 1;
    }
    out
}

// ---------------------------------------------------------------------------
// Searching
// ---------------------------------------------------------------------------
/// Whether `needle` stands in `hay` at position `at`.
pub open spec fn occurs_at(hay: Seq<char>, needle: Seq<char>, at: int) -> bool {
    0 <= at && at + needle.len() <= hay.len() && hay.subrange(at, at + needle.len()) == needle
}

/// Whether `needle` stands anywhere in `hay`.
pub open spec fn contains(hay: Seq<char>, needle: Seq<char>) -> bool {
    exists|at: int| occurs_at(hay, needle, at)
}

/// Whether `hay` begins with `prefix`.
pub open spec fn starts_with(hay: Seq<char>, prefix: Seq<char>) -> bool {
    occurs_at(hay, prefix, 0)
}

/// Whether `hay` ends with `suffix`.
pub open spec fn ends_with(hay: Seq<char>, suffix: Seq<char>) -> bool {
    occurs_at(hay, suffix, hay.len() - suffix.len())
}

/// Whether `needle` stands in `hay` at `at`.
pub fn matches_at(hay: &Vec<char>, needle: &Vec<char>, at: usize) -> (r: bool)
    requires
        at <= hay@.len(),
    ensures
        r == occurs_at(hay@, needle@, at as int),
{
    if hay.len() - at < needle.len() {
        return false;
    }
    let mut i: usize = 0;
    while i < needle.len()
        invariant
            i <= needle.len(),
            at + needle.len() <= hay.len(),
            forall|k: int| 0 <= k < i ==> hay@[at + k] == needle@[k],
        decreases needle.len() - i,
    {
        if hay[at + i] != needle[i] {
            assert(hay@.subrange(at as int, at + needle@.len())[i as int] != needle@[i as int]);
            return false;
        }
        i = i + 1;
    }
    assert(hay@.subrange(at as int, at + needle@.len()) == needle@);
    true
}

/// Whether `needle` stands anywhere in `hay`.
pub fn find(hay: &Vec<char>, needle: &Vec<char>) -> (r: bool)
    ensures
        r == contains(hay@, needle@),
{
    let mut at: usize = 0;
    while at < hay.len()
        invariant
            at <= hay.len(),
            forall|k: int| 0 <= k < at ==> !occurs_at(hay@, needle@, k),
        decreases hay.len() - at,
    {
        if matches_at(hay, needle, at) {
            return true;
        }
        at = at + 1;
    }
    if matches_at(hay, needle, at) {
        return true;
    }
    assert forall|k: int| !occurs_at(hay@, needle@, k) by {}
    false
}

/// Whether `needle` stands anywhere in `hay`.
pub fn str_contains(hay: &str, needle: &str) -> (r: bool)
    ensures
        r == contains(hay@, needle@),
{
    let h: Vec<char> = chars_of(hay);
    let n: Vec<char> = chars_of(needle);
    find(&h, &n)
}

/// Whether `hay` begins with `prefix`.
pub fn str_starts_with(hay: &str, prefix: &str) -> (r: bool)
    ensures
        r == starts_with(hay@, prefix@),
{
    let h: Vec<char> = chars_of(hay);
    let n: Vec<char> = chars_of(prefix);
    matches_at(&h, &n, 0)
}

/// Whether `hay` ends with `suffix`.
pub fn str_ends_with(hay: &str, suffix: &str) -> (r: bool)
    ensures
        r == ends_with(hay@, suffix@),
{
    let h: Vec<char> = chars_of(hay);
    let n: Vec<char> = chars_of(suffix);
    if n.len() > h.len() {
        return false;
    }
    matches_at(&h, &n, h.len() - n.len())
}

// ---------------------------------------------------------------------------
// Trimming, splitting, joining
// ---------------------------------------------------------------------------
/// How many characters at the start of `s` satisfy `p`.
pub open spec fn leading(s: Seq<char>, p: spec_fn(char) -> bool) -> nat
    decreases s.len(),
{
    if s.len() == 0 || !p(s[0]) {
        0
    } else {
        1 + leading(s.skip(1), p)
    }
}

pub proof fn lemma_leading(s: Seq<char>, p: spec_fn(char) -> bool, n: nat)
    requires
        n <= s.len(),
        forall|k: int| 0 <= k < n ==> p(#[trigger] s[k]),
        n < s.len() ==> !p(s[n as int]),
    ensures
        leading(s, p) == n,
    decreases n,
{
    if n > 0 {
        let t = s.skip(1);
        assert forall|k: int| 0 <= k < n - 1 implies p(#[trigger] t[k]) by {
            assert(t[k] == s[k + 1]);
        }
        if n - 1 < t.len() {
            assert(t[n - 1] == s[n as int]);
        }
        lemma_leading(t, p, (n - 1) as nat);
    }
}

pub proof fn lemma_leading_bound(s: Seq<char>, p: spec_fn(char) -> bool)
    ensures
        leading(s, p) <= s.len(),
        forall|k: int| 0 <= k < leading(s, p) ==> p(#[trigger] s[k]),
        leading(s, p) < s.len() ==> !p(s[leading(s, p) as int]),
    decreases s.len(),
{
    if s.len() != 0 && p(s[0]) {
        lemma_leading_bound(s.skip(1), p);
        assert forall|k: int| 0 <= k < leading(s, p) implies p(#[trigger] s[k]) by {
            if k > 0 {
                assert(s.skip(1)[k - 1] == s[k]);
            }
        }
    }
}

/// `s` without the white space at its start.
pub open spec fn trimmed_start(s: Seq<char>) -> Seq<char> {
    s.skip(leading(s, |c: char| is_white(c)) as int)
}

/// `s` without the white space at its end.
pub open spec fn trimmed_end(s: Seq<char>) -> Seq<char>
    decreases s.len(),
{
    if s.len() == 0 || !is_white(s.last()) {
        s
    } else {
        trimmed_end(s.drop_last())
    }
}

/// `s` without the white space at either end.
pub open spec fn trimmed(s: Seq<char>) -> Seq<char> {
    trimmed_end(trimmed_start(s))
}

/// `s` without the white space at either end.
pub fn trim_chars(v: &Vec<char>) -> (out: Vec<char>)
    ensures
        out@ == trimmed(v@),
{
    let mut from: usize = 0;
    while from < v.len() && white(v[from])
        invariant
            from <= v.len(),
            forall|k: int| 0 <= k < from ==> is_white(#[trigger] v@[k]),
        decreases v.len() - from,
    {
        from = from + 1;
    }
    proof {
        lemma_leading(v@, |c: char| is_white(c), from as nat);
    }
    let mut to: usize = v.len();
    while from < to && white(v[to - 1])
        invariant
            from <= to <= v.len(),
            trimmed_end(v@.subrange(from as int, to as int)) == trimmed(v@),
        decreases to,
    {
        proof {
            let s = v@.subrange(from as int, to as int);
            assert(s.drop_last() == v@.subrange(from as int, to - 1));
        }
        to = to - 1;
    }
    let mut out: Vec<char> = Vec::new();
    let mut i: usize = from;
    while i < to
        invariant
            from <= i <= to <= v.len(),
            out@ == v@.subrange(from as int, i as int),
        decreases to - i,
    {
        out.push(v[i]);
        i = i + 1;
    }
    out
}

/// `s` without the white space at either end.
pub fn trim(s: &str) -> (out: String)
    ensures
        out@ == trimmed(s@),
{
    let chars: Vec<char> = chars_of(s);
    let kept: Vec<char> = trim_chars(&chars);
    string_of(&kept)
}

/// Whether a string holds nothing but white space.
pub fn is_blank(s: &str) -> (r: bool)
    ensures
        r == (trimmed(s@).len() == 0),
{
    let kept: String = trim(s);
    let chars: Vec<char> = chars_of(kept.as_str());
    chars.len() == 0
}

/// The maximal runs of non-white characters of `s`, in order.
pub open spec fn words(s: Seq<char>) -> Seq<Seq<char>>
    decreases s.len(),
    via words_shrink
{
    let rest = trimmed_start(s);
    if rest.len() == 0 {
        seq![]
    } else {
        let n = leading(rest, |c: char| !is_white(c));
        seq![rest.take(n as int)] + words(rest.skip(n as int))
    }
}

#[via_fn]
proof fn words_shrink(s: Seq<char>) {
    lemma_leading_bound(s, |c: char| is_white(c));
    let rest = trimmed_start(s);
    lemma_leading_bound(rest, |c: char| !is_white(c));
    if rest.len() > 0 {
        assert(rest[0] == s[leading(s, |c: char| is_white(c)) as int]);
    }
}

/// `parts` joined with `sep` between neighbours.
pub open spec fn joined(parts: Seq<Seq<char>>, sep: Seq<char>) -> Seq<char>
    decreases parts.len(),
{
    if parts.len() == 0 {
        seq![]
    } else if parts.len() == 1 {
        parts[0]
    } else {
        joined(parts.drop_last(), sep) + sep + parts.last()
    }
}

/// The maximal runs of non-white characters, in order.
pub fn split_words(v: &Vec<char>) -> (out: Vec<String>)
    ensures
        views(out@) == words(v@),
{
    let mut out: Vec<String> = Vec::new();
    let mut at: usize = 0;
    assert(v@.skip(0) == v@);
    assert(views(out@) + words(v@) == words(v@));
    while at < v.len()
        invariant
            at <= v.len(),
            views(out@) + words(v@.skip(at as int)) == words(v@),
        decreases v.len() - at,
    {
        let ghost s = v@.skip(at as int);
        let start_at: usize = at;
        let mut from: usize = at;
        while from < v.len() && white(v[from])
            invariant
                start_at <= from <= v.len(),
                s == v@.skip(start_at as int),
                forall|k: int| 0 <= k < from - start_at ==> is_white(#[trigger] s[k]),
            decreases v.len() - from,
        {
            assert(s[from - start_at] == v@[from as int]);
            from = from + 1;
        }
        proof {
            if from < v.len() {
                assert(s[from - start_at] == v@[from as int]);
            }
            lemma_leading(s, |c: char| is_white(c), (from - start_at) as nat);
            assert(trimmed_start(s) == v@.skip(from as int));
        }
        if from == v.len() {
            assert(words(s) == Seq::<Seq<char>>::empty());
            assert(words(v@.skip(v.len() as int)) == Seq::<Seq<char>>::empty()) by {
                lemma_leading_bound(v@.skip(v.len() as int), |c: char| is_white(c));
            }
            at = from;
        } else {
            let ghost rest = v@.skip(from as int);
            let mut to: usize = from;
            while to < v.len() && !white(v[to])
                invariant
                    from <= to <= v.len(),
                    rest == v@.skip(from as int),
                    forall|k: int| 0 <= k < to - from ==> !is_white(#[trigger] rest[k]),
                decreases v.len() - to,
            {
                assert(rest[to - from] == v@[to as int]);
                to = to + 1;
            }
            proof {
                if to < v.len() {
                    assert(rest[to - from] == v@[to as int]);
                }
                lemma_leading(rest, |c: char| !is_white(c), (to - from) as nat);
                assert(rest[0] == v@[from as int]);
                assert(rest.take(to - from) == v@.subrange(from as int, to as int));
                assert(rest.skip(to - from) == v@.skip(to as int));
            }
            let word: String = range_string(v, from, to);
            let ghost before = views(out@);
            out.push(word);
            proof {
                assert(views(out@) == before.push(v@.subrange(from as int, to as int)));
                assert(words(s) == seq![v@.subrange(from as int, to as int)] + words(
                    v@.skip(to as int),
                ));
                assert(before + (seq![v@.subrange(from as int, to as int)] + words(
                    v@.skip(to as int),
                )) == views(out@) + words(v@.skip(to as int)));
            }
            at = to;
        }
    }
    proof {
        lemma_leading_bound(v@.skip(at as int), |c: char| is_white(c));
        assert(words(v@.skip(at as int)) == Seq::<Seq<char>>::empty());
    }
    out
}

/// `parts` joined with `sep` between neighbours.
pub fn join(parts: &Vec<String>, sep: &str) -> (out: String)
    ensures
        out@ == joined(views(parts@), sep@),
{
    let mut out: String = String::new();
    let mut i: usize = 0;
    while i < parts.len()
        invariant
            i <= parts.len(),
            out@ == joined(views(parts@).take(i as int), sep@),
        decreases parts.len() - i,
    {
        let ghost all = views(parts@);
        if i > 0 {
            out.append(sep);
        }
        out.append(parts[i].as_str());
        proof {
            assert(all.take(i + 1).drop_last() == all.take(i as int));
            assert(all.take(i + 1).last() == parts@[i as int]@);
            if i == 0 {
                assert(out@ == parts@[0]@);
            }
        }
        i = i + 1;
    }
    assert(views(parts@).take(parts.len() as int) == views(parts@));
    out
}

/// The pieces of `s` between the characters that satisfy `sep`.
pub open spec fn pieces(s: Seq<char>, sep: spec_fn(char) -> bool) -> Seq<Seq<char>>
    decreases s.len(),
    via pieces_shrink
{
    let n = leading(s, |c: char| !sep(c));
    if n >= s.len() {
        seq![s]
    } else {
        seq![s.take(n as int)] + pieces(s.skip((n + 1) as int), sep)
    }
}

#[via_fn]
proof fn pieces_shrink(s: Seq<char>, sep: spec_fn(char) -> bool) {
}

/// The lines of `s`: a line ends at `\n` or `\r\n`, the last line's ending is
/// optional, and the endings are not part of the lines.
pub open spec fn lines(s: Seq<char>) -> Seq<Seq<char>>
    decreases s.len(),
    via lines_shrink
{
    let n = leading(s, |c: char| c != '\n');
    if s.len() == 0 {
        seq![]
    } else if n >= s.len() {
        seq![s]
    } else {
        let line = s.take(n as int);
        let line = if line.len() > 0 && line.last() == '\r' {
            line.drop_last()
        } else {
            line
        };
        seq![line] + lines(s.skip((n + 1) as int))
    }
}

#[via_fn]
proof fn lines_shrink(s: Seq<char>) {
}

/// The lines of `s`.
pub fn split_lines(s: &str) -> (out: Vec<String>)
    ensures
        views(out@) == lines(s@),
{
    let v: Vec<char> = chars_of(s);
    let mut out: Vec<String> = Vec::new();
    let mut at: usize = 0;
    assert(v@.skip(0) == v@);
    assert(views(out@) + lines(v@) == lines(v@));
    while at < v.len()
        invariant
            at <= v.len(),
            v@ == s@,
            views(out@) + lines(v@.skip(at as int)) == lines(v@),
        decreases v.len() - at,
    {
        let ghost rest = v@.skip(at as int);
        let mut to: usize = at;
        while to < v.len() && v[to] != '\n'
            invariant
                at <= to <= v.len(),
                rest == v@.skip(at as int),
                forall|k: int| 0 <= k < to - at ==> (#[trigger] rest[k]) != '\n',
            decreases v.len() - to,
        {
            assert(rest[to - at] == v@[to as int]);
            to = to + 1;
        }
        proof {
            if to < v.len() {
                assert(rest[to - at] == v@[to as int]);
            }
            lemma_leading(rest, |c: char| c != '\n', (to - at) as nat);
        }
        let ghost before = views(out@);
        if to == v.len() {
            let line: String = range_string(&v, at, to);
            out.push(line);
            proof {
                assert(v@.subrange(at as int, to as int) == rest);
                assert(views(out@) == before.push(rest));
                assert(v@.skip(to as int) == Seq::<char>::empty());
                assert(views(out@) + lines(v@.skip(to as int)) == before + seq![rest]);
            }
            at = to;
        } else {
            let mut end: usize = to;
            if to > at && v[to - 1] == '\r' {
                end = to - 1;
            }
            let line: String = range_string(&v, at, end);
            out.push(line);
            proof {
                let full = rest.take(to - at);
                assert(full == v@.subrange(at as int, to as int));
                if to > at {
                    assert(full.last() == v@[to - 1]);
                    assert(full.drop_last() == v@.subrange(at as int, to - 1));
                }
                let kept = v@.subrange(at as int, end as int);
                assert(rest.skip(to - at + 1) == v@.skip(to + 1));
                assert(lines(rest) == seq![kept] + lines(v@.skip(to + 1)));
                assert(views(out@) == before.push(kept));
                assert(before + (seq![kept] + lines(v@.skip(to + 1))) == views(out@) + lines(
                    v@.skip(to + 1),
                ));
            }
            at = to + 1;
        }
    }
    assert(lines(v@.skip(at as int)) == Seq::<Seq<char>>::empty());
    out
}

// ---------------------------------------------------------------------------
// Unsigned numbers in text
// ---------------------------------------------------------------------------
/// Whether a character is a decimal digit.
pub open spec fn is_digit(c: char) -> bool {
    '0' <= c && c <= '9'
}

/// The number that a run of digits spells.
pub open spec fn digits_value(s: Seq<char>) -> nat
    decreases s.len(),
{
    if s.len() == 0 {
        0
    } else {
        10 * digits_value(s.drop_last()) + (s.last() as u32 - 48) as nat
    }
}

/// The digits of a number in text: everything after an optional `+`.
pub open spec fn unsigned_digits(s: Seq<char>) -> Seq<char> {
    if s.len() > 0 && s[0] == '+' {
        s.skip(1)
    } else {
        s
    }
}

/// The number that `s` spells: an optional `+`, then one or more digits, no
/// larger than `u64::MAX`.
pub open spec fn unsigned(s: Seq<char>) -> Option<u64> {
    let digits = unsigned_digits(s);
    if digits.len() > 0 && (forall|k: int| 0 <= k < digits.len() ==> is_digit(#[trigger] digits[k]))
        && digits_value(digits) <= u64::MAX {
        Some(digits_value(digits) as u64)
    } else {
        None
    }
}

proof fn lemma_digits_value_grows(s: Seq<char>, n: int)
    requires
        0 <= n <= s.len(),
        forall|k: int| 0 <= k < s.len() ==> is_digit(#[trigger] s[k]),
    ensures
        digits_value(s.take(n)) <= digits_value(s),
    decreases s.len(),
{
    if n == s.len() {
        assert(s.take(n) == s);
    } else {
        let t = s.drop_last();
        assert forall|k: int| 0 <= k < t.len() implies is_digit(#[trigger] t[k]) by {
            assert(t[k] == s[k]);
        }
        lemma_digits_value_grows(t, n);
        assert(t.take(n) == s.take(n));
        assert(is_digit(s[s.len() - 1]));
    }
}

/// The unsigned number that `s` spells, if it spells one that fits.
pub fn parse_unsigned(s: &str) -> (out: Option<u64>)
    ensures
        out == unsigned(s@),
{
    let v: Vec<char> = chars_of(s);
    let mut from: usize = 0;
    if v.len() > 0 && v[0] == '+' {
        from = 1;
    }
    let ghost digits = unsigned_digits(s@);
    assert(digits == v@.skip(from as int));
    if from == v.len() {
        return None;
    }
    let mut value: u64 = 0;
    let mut i: usize = from;
    while i < v.len()
        invariant
            from <= i <= v.len(),
            v@ == s@,
            digits == v@.skip(from as int),
            digits == unsigned_digits(s@),
            forall|k: int| 0 <= k < i - from ==> is_digit(#[trigger] digits[k]),
            value == digits_value(digits.take(i - from)),
        decreases v.len() - i,
    {
        let c: char = v[i];
        assert(digits[i - from] == c);
        if !('0' <= c && c <= '9') {
            return None;
        }
        let d: u64 = (c as u32 - 48) as u64;
        let ghost longer = digits.take(i - from + 1);
        proof {
            assert(longer.drop_last() == digits.take(i - from));
            assert(longer.last() == c);
            assert(digits_value(longer) == 10 * value + d);
        }
        if value > (u64::MAX - d) / 10 {
            proof {
                assert(10 * value + d > u64::MAX);
                if forall|k: int| 0 <= k < digits.len() ==> is_digit(#[trigger] digits[k]) {
                    lemma_digits_value_grows(digits, i - from + 1);
                }
            }
            return None;
        }
        value = value * 10 + d;
        i = i + 1;
    }
    assert(digits.take(i - from) == digits);
    Some(value)
}

/// The digits of a signed number in text: everything after an optional sign.
pub open spec fn signed_digits(s: Seq<char>) -> Seq<char> {
    if s.len() > 0 && (s[0] == '+' || s[0] == '-') {
        s.skip(1)
    } else {
        s
    }
}

/// The number that `s` spells: an optional sign, then one or more digits, in
/// the range of `i64`.
pub open spec fn signed(s: Seq<char>) -> Option<i64> {
    let digits = signed_digits(s);
    let value = if s.len() > 0 && s[0] == '-' {
        -(digits_value(digits) as int)
    } else {
        digits_value(digits) as int
    };
    if digits.len() > 0 && (forall|k: int| 0 <= k < digits.len() ==> is_digit(#[trigger] digits[k]))
        && i64::MIN <= value <= i64::MAX {
        Some(value as i64)
    } else {
        None
    }
}

/// The signed number that `s` spells, if it spells one that fits.
pub fn parse_signed(s: &str) -> (out: Option<i64>)
    ensures
        out == signed(s@),
{
    let v: Vec<char> = chars_of(s);
    if v.len() == 0 {
        return None;
    }
    let negative: bool = v[0] == '-';
    let from: usize = if v[0] == '-' || v[0] == '+' {
        1
    } else {
        0
    };
    let body: String = range_string(&v, from, v.len());
    let ghost digits = signed_digits(s@);
    assert(body@ =~= digits);
    if from < v.len() && v[from] == '+' {
        // A second sign is no digit.
        assert(!is_digit(digits[0]));
        return None;
    }
    proof {
        if digits.len() > 0 {
            assert(digits[0] == v@[from as int]);
        }
        assert(unsigned_digits(body@) == digits);
    }
    match parse_unsigned(body.as_str()) {
        None => None,
        Some(n) => {
            assert(n == digits_value(digits));
            if negative {
                if n <= 9_223_372_036_854_775_807 {
                    Some(-(n as i64))
                } else if n == 9_223_372_036_854_775_808 {
                    Some(i64::MIN)
                } else {
                    None
                }
            } else if n <= 9_223_372_036_854_775_807 {
                Some(n as i64)
            } else {
                None
            }
        },
    }
}

/// The pieces of `s` between the characters `sep`.
pub fn split_on(s: &str, sep: char) -> (out: Vec<String>)
    ensures
        views(out@) == pieces(s@, |c: char| c == sep),
{
    let v: Vec<char> = chars_of(s);
    let ghost breaks = |c: char| c == sep;
    let mut out: Vec<String> = Vec::new();
    let mut from: usize = 0;
    assert(v@.skip(0) =~= v@);
    assert(views(out@) + pieces(v@, breaks) =~= pieces(s@, breaks));
    loop
        invariant
            v@ == s@,
            from <= v@.len(),
            breaks == (|c: char| c == sep),
            pieces(s@, breaks) == views(out@) + pieces(v@.skip(from as int), breaks),
        decreases v@.len() - from,
    {
        let ghost rest = v@.skip(from as int);
        let mut to: usize = from;
        while to < v.len() && v[to] != sep
            invariant
                from <= to <= v@.len(),
                forall|k: int| from <= k < to ==> (#[trigger] v@[k]) != sep,
            decreases v@.len() - to,
        {
            to = to + 1;
        }
        let piece: String = range_string(&v, from, to);
        let ghost before = views(out@);
        out.push(piece);
        proof {
            let n: nat = (to - from) as nat;
            assert forall|k: int| 0 <= k < n implies (|c: char| !breaks(c))(#[trigger] rest[k]) by {
                assert(rest[k] == v@[from + k]);
            }
            lemma_leading(rest, |c: char| !breaks(c), n);
            assert(piece@ =~= rest.take(n as int));
            assert(views(out@) =~= before.push(piece@));
            if to >= v@.len() {
                assert(piece@ =~= rest);
                assert(before + seq![rest] =~= views(out@));
            } else {
                assert(rest.skip((n + 1) as int) =~= v@.skip(to + 1));
                assert(before + (seq![piece@] + pieces(v@.skip(to + 1), breaks)) =~= views(out@)
                    + pieces(v@.skip(to + 1), breaks));
            }
        }
        if to >= v.len() {
            return out;
        }
        from = to + 1;
    }
}

} // verus!
