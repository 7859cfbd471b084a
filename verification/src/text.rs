//! Character-level string operations with exact specifications over `Seq<char>`.

use vstd::prelude::*;

verus! {

/// The texts of a sequence of strings.
pub open spec fn string_views(v: Seq<String>) -> Seq<Seq<char>> {
    v.map_values(|s: String| s@)
}

/// `String::push` from std. The contract claims what its documentation says: the character
/// is appended at the end and nothing else changes.
#[verifier::external_body]
pub fn push_char(s: &mut String, c: char)
    ensures
        final(s)@ == old(s)@.push(c),
{
    s.push(c);
}

/// The characters of `s`, in order.
pub fn chars_of(s: &str) -> (v: Vec<char>)
    ensures
        v@ == s@,
{
    let mut v: Vec<char> = Vec::new();
    for c in it: s.chars()
        invariant
            v@ == it.seq().take(it.index() as int),
            it.seq() == s@,
    {
        v.push(c);
    }
    v
}

/// The string made of the characters of `v`, in order.
pub fn string_of(v: &Vec<char>) -> (s: String)
    ensures
        s@ == v@,
{
    let mut s = String::new();
    let mut i: usize = 0;
    while i < v.len()
        invariant
            i <= v.len(),
            s@ == v@.take(i as int),
        decreases v.len() - i,
    {
        push_char(&mut s, v[i]);
        i = i + 1;
        assert(v@.take(i as int) =~= v@.take((i - 1) as int).push(v@[i - 1]));
    }
    assert(v@.take(v.len() as int) =~= v@);
    s
}


/// `p` is a prefix of `s`.
pub open spec fn starts_with(s: Seq<char>, p: Seq<char>) -> bool {
    p.len() <= s.len() && s.take(p.len() as int) == p
}

/// `needle` occurs somewhere in `hay` (the empty needle occurs everywhere).
pub open spec fn spec_contains(hay: Seq<char>, needle: Seq<char>) -> bool {
    exists|i: int| 0 <= i <= hay.len() - needle.len() && #[trigger] hay.subrange(i, i + needle.len()) == needle
}

/// `s` with every occurrence of the nonempty `pat` replaced by `rep`, where occurrences are
/// found left to right and do not overlap.
pub open spec fn replace_nonempty(s: Seq<char>, pat: Seq<char>, rep: Seq<char>) -> Seq<char>
    decreases s.len(),
{
    if pat.len() == 0 || s.len() < pat.len() {
        s
    } else if starts_with(s, pat) {
        rep + replace_nonempty(s.skip(pat.len() as int), pat, rep)
    } else {
        seq![s[0]] + replace_nonempty(s.skip(1), pat, rep)
    }
}

/// `s` with `rep` inserted before every character and at the end: what replacing the empty
/// pattern does.
pub open spec fn replace_at_boundaries(s: Seq<char>, rep: Seq<char>) -> Seq<char>
    decreases s.len(),
{
    if s.len() == 0 {
        rep
    } else {
        rep + seq![s[0]] + replace_at_boundaries(s.skip(1), rep)
    }
}

/// What `str::replace(s, pat, rep)` returns: every match of `pat` replaced by `rep`.
pub open spec fn spec_replace(s: Seq<char>, pat: Seq<char>, rep: Seq<char>) -> Seq<char> {
    if pat.len() == 0 {
        replace_at_boundaries(s, rep)
    } else {
        replace_nonempty(s, pat, rep)
    }
}

/// Replacing a pattern by itself changes nothing.
pub proof fn lemma_replace_self(s: Seq<char>, p: Seq<char>)
    ensures
        spec_replace(s, p, p) == s,
{
    if p.len() == 0 {
        assert(p =~= Seq::<char>::empty());
        lemma_boundaries_empty(s);
    } else {
        lemma_replace_nonempty_self(s, p);
    }
}

proof fn lemma_boundaries_empty(s: Seq<char>)
    ensures
        replace_at_boundaries(s, seq![]) == s,
    decreases s.len(),
{
    if s.len() > 0 {
        lemma_boundaries_empty(s.skip(1));
        assert(Seq::<char>::empty() + seq![s[0]] + s.skip(1) =~= s);
    }
}

proof fn lemma_replace_nonempty_self(s: Seq<char>, p: Seq<char>)
    requires
        p.len() > 0,
    ensures
        replace_nonempty(s, p, p) == s,
    decreases s.len(),
{
    if s.len() >= p.len() {
        if starts_with(s, p) {
            lemma_replace_nonempty_self(s.skip(p.len() as int), p);
            assert(s.take(p.len() as int) + s.skip(p.len() as int) =~= s);
        } else {
            lemma_replace_nonempty_self(s.skip(1), p);
            assert(seq![s[0]] + s.skip(1) =~= s);
        }
    }
}

/// Replacing a nonempty pattern that does not occur changes nothing.
pub proof fn lemma_replace_absent(s: Seq<char>, p: Seq<char>, r: Seq<char>)
    requires
        p.len() > 0,
        !spec_contains(s, p),
    ensures
        spec_replace(s, p, r) == s,
    decreases s.len(),
{
    if s.len() >= p.len() {
        if starts_with(s, p) {
            assert(s.subrange(0int, 0int + p.len()) =~= s.take(p.len() as int));
        } else {
            let t = s.skip(1);
            assert forall|i: int| 0 <= i <= t.len() - p.len() implies #[trigger] t.subrange(i, i + p.len()) != p by {
                assert(t.subrange(i, i + p.len()) =~= s.subrange(i + 1, i + 1 + p.len()));
            }
            lemma_replace_absent(t, p, r);
            assert(seq![s[0]] + t =~= s);
        }
    }
}

/// No match of `p` in `a + b` starts in `a` and ends in `b`.
pub open spec fn no_straddle(a: Seq<char>, b: Seq<char>, p: Seq<char>) -> bool {
    forall|i: int| 0 <= i < a.len() && a.len() < i + p.len() <= a.len() + b.len()
        ==> #[trigger] (a + b).subrange(i, i + p.len()) != p
}

/// When no match straddles the boundary, replacing in `a + b` is replacing in `a` and in
/// `b` separately.
pub proof fn lemma_replace_concat(a: Seq<char>, b: Seq<char>, p: Seq<char>, r: Seq<char>)
    requires
        p.len() > 0,
        no_straddle(a, b, p),
    ensures
        spec_replace(a + b, p, r) == spec_replace(a, p, r) + spec_replace(b, p, r),
    decreases a.len(),
{
    let s = a + b;
    if a.len() == 0 {
        assert(s =~= b);
    } else if s.len() < p.len() {
    } else if starts_with(s, p) {
        if p.len() > a.len() {
            assert((a + b).subrange(0int, 0int + p.len()) =~= s.take(p.len() as int));
            assert(false);
        } else {
            let a2 = a.skip(p.len() as int);
            assert(s.skip(p.len() as int) =~= a2 + b);
            assert(a.take(p.len() as int) =~= s.take(p.len() as int));
            assert forall|i: int| 0 <= i < a2.len() && a2.len() < i + p.len() <= a2.len() + b.len()
                implies #[trigger] (a2 + b).subrange(i, i + p.len()) != p by {
                assert((a2 + b).subrange(i, i + p.len()) =~= s.subrange(i + p.len(), i + p.len() + p.len()));
            }
            lemma_replace_concat(a2, b, p, r);
            assert(r + (spec_replace(a2, p, r) + spec_replace(b, p, r)) =~= (r + spec_replace(a2, p, r)) + spec_replace(b, p, r));
        }
    } else {
        let a2 = a.skip(1);
        assert(s.skip(1) =~= a2 + b);
        assert forall|i: int| 0 <= i < a2.len() && a2.len() < i + p.len() <= a2.len() + b.len()
            implies #[trigger] (a2 + b).subrange(i, i + p.len()) != p by {
            assert((a2 + b).subrange(i, i + p.len()) =~= s.subrange(i + 1, i + 1 + p.len()));
        }
        lemma_replace_concat(a2, b, p, r);
        if a.len() >= p.len() {
            assert(a.take(p.len() as int) =~= s.take(p.len() as int));
        } else {
            assert(spec_replace(a2, p, r) == a2);
            assert(seq![a[0]] + a2 =~= a);
        }
        assert(seq![s[0]] + (spec_replace(a2, p, r) + spec_replace(b, p, r))
            =~= (seq![a[0]] + spec_replace(a2, p, r)) + spec_replace(b, p, r));
    }
}

/// When the first character of `p` occurs in `a` at most at positions where a match would
/// fit inside `a`, no match straddles the boundary of `a + b`.
pub proof fn lemma_no_straddle_by_first_char(a: Seq<char>, b: Seq<char>, p: Seq<char>)
    requires
        p.len() > 0,
        forall|i: int| 0 <= i < a.len() && a.len() < i + p.len() ==> a[i] != p[0],
    ensures
        no_straddle(a, b, p),
{
    assert forall|i: int| 0 <= i < a.len() && a.len() < i + p.len() <= a.len() + b.len()
        implies #[trigger] (a + b).subrange(i, i + p.len()) != p by {
        assert((a + b).subrange(i, i + p.len())[0] == a[i]);
    }
}

/// Replacing a nonempty pattern in the pattern itself gives the replacement.
pub proof fn lemma_replace_whole(p: Seq<char>, r: Seq<char>)
    requires
        p.len() > 0,
    ensures
        spec_replace(p, p, r) == r,
{
    assert(p.take(p.len() as int) =~= p);
    assert(starts_with(p, p));
    assert(p.skip(p.len() as int) =~= Seq::<char>::empty());
    assert(replace_nonempty(Seq::<char>::empty(), p, r) == Seq::<char>::empty());
    assert(replace_nonempty(p, p, r) == r + replace_nonempty(p.skip(p.len() as int), p, r));
    assert(r + Seq::<char>::empty() =~= r);
}

/// A pattern whose first character does not occur in `s` does not occur in it.
pub proof fn lemma_absent_by_first_char(s: Seq<char>, p: Seq<char>)
    requires
        p.len() > 0,
        forall|i: int| 0 <= i < s.len() ==> s[i] != p[0],
    ensures
        !spec_contains(s, p),
{
    assert forall|i: int| 0 <= i <= s.len() - p.len() implies #[trigger] s.subrange(i, i + p.len()) != p by {
        assert(s.subrange(i, i + p.len())[0] == s[i]);
    }
}

/// Appends the characters of `src` to `out`.
pub fn append_chars(out: &mut Vec<char>, src: &Vec<char>)
    ensures
        final(out)@ == old(out)@ + src@,
{
    let ghost start = out@;
    let mut i: usize = 0;
    while i < src.len()
        invariant
            i <= src.len(),
            out@ == start + src@.take(i as int),
        decreases src.len() - i,
    {
        out.push(src[i]);
        i = i + 1;
        assert(src@.take(i as int) =~= src@.take((i - 1) as int).push(src@[i - 1]));
    }
    assert(src@.take(src.len() as int) =~= src@);
}

/// Whether `pat` occurs in `s` at position `i`.
fn matches_at(s: &Vec<char>, i: usize, pat: &Vec<char>) -> (r: bool)
    requires
        i <= s.len(),
    ensures
        r == starts_with(s@.skip(i as int), pat@),
{
    if s.len() - i < pat.len() {
        return false;
    }
    let mut k: usize = 0;
    while k < pat.len()
        invariant
            k <= pat.len(),
            i + pat.len() <= s.len(),
            forall|j: int| 0 <= j < k ==> s@[i + j] == pat@[j],
        decreases pat.len() - k,
    {
        if s[i + k] != pat[k] {
            assert(s@.skip(i as int).take(pat@.len() as int)[k as int] != pat@[k as int]);
            return false;
        }
        k = k + 1;
    }
    assert(s@.skip(i as int).take(pat@.len() as int) =~= pat@);
    true
}

/// Whether `needle` occurs in `hay`.
pub fn contains_chars(hay: &Vec<char>, needle: &Vec<char>) -> (r: bool)
    ensures
        r == spec_contains(hay@, needle@),
{
    if needle.len() > hay.len() {
        return false;
    }
    if needle.len() == 0 {
        assert(hay@.subrange(0int, 0int + needle@.len()) =~= needle@);
        return true;
    }
    let mut i: usize = 0;
    let last = hay.len() - needle.len();
    while i <= last
        invariant
            0 < needle.len() <= hay.len(),
            last == hay.len() - needle.len(),
            i <= hay.len() - needle.len() + 1,
            forall|j: int| 0 <= j < i ==> #[trigger] hay@.subrange(j, j + needle@.len()) != needle@,
        decreases last + 1 - i,
    {
        if matches_at(hay, i, needle) {
            assert(hay@.subrange(i as int, i + needle@.len()) =~= hay@.skip(i as int).take(needle@.len() as int));
            return true;
        }
        assert(hay@.subrange(i as int, i + needle@.len()) =~= hay@.skip(i as int).take(needle@.len() as int));
        i = i + 1;
    }
    proof { true_if_none(hay@, needle@, i as int); }
    false
}

proof fn true_if_none(hay: Seq<char>, needle: Seq<char>, i: int)
    requires
        needle.len() <= hay.len(),
        i > hay.len() - needle.len(),
        forall|j: int| 0 <= j < i ==> #[trigger] hay.subrange(j, j + needle.len()) != needle,
    ensures
        !spec_contains(hay, needle),
{
}

/// Whether `needle` occurs in `hay` (`str::contains`).
pub fn contains(hay: &str, needle: &str) -> (r: bool)
    ensures
        r == spec_contains(hay@, needle@),
{
    let h = chars_of(hay);
    let n = chars_of(needle);
    contains_chars(&h, &n)
}

/// Every match of the nonempty `pat` in `s` replaced by `rep`.
fn replace_nonempty_chars(s: &Vec<char>, pat: &Vec<char>, rep: &Vec<char>) -> (r: Vec<char>)
    requires
        pat.len() > 0,
    ensures
        r@ == replace_nonempty(s@, pat@, rep@),
{
    let mut out: Vec<char> = Vec::new();
    let mut i: usize = 0;
    assert(s@.skip(0) =~= s@);
    while i < s.len() && pat.len() <= s.len() - i
        invariant
            i <= s.len(),
            pat.len() > 0,
            replace_nonempty(s@, pat@, rep@) == out@ + replace_nonempty(s@.skip(i as int), pat@, rep@),
        decreases s.len() - i,
    {
        let ghost rest = s@.skip(i as int);
        if matches_at(s, i, pat) {
            append_chars(&mut out, rep);
            assert(rest.skip(pat.len() as int) =~= s@.skip(i + pat.len()));
            i = i + pat.len();
        } else {
            out.push(s[i]);
            assert(rest.skip(1) =~= s@.skip(i + 1));
            assert(seq![rest[0]] =~= seq![s@[i as int]]);
            i = i + 1;
        }
    }
    let ghost rest = s@.skip(i as int);
    let mut tail: Vec<char> = Vec::new();
    let mut k: usize = i;
    while k < s.len()
        invariant
            i <= k <= s.len(),
            tail@ == s@.subrange(i as int, k as int),
        decreases s.len() - k,
    {
        tail.push(s[k]);
        k = k + 1;
        assert(s@.subrange(i as int, k as int) =~= s@.subrange(i as int, k - 1).push(s@[k - 1]));
    }
    assert(tail@ =~= rest);
    append_chars(&mut out, &tail);
    out
}

/// `rep` inserted before every character of `s` and at its end.
fn replace_at_boundaries_chars(s: &Vec<char>, rep: &Vec<char>) -> (r: Vec<char>)
    ensures
        r@ == replace_at_boundaries(s@, rep@),
{
    let mut out: Vec<char> = Vec::new();
    let mut i: usize = 0;
    assert(s@.skip(0) =~= s@);
    while i < s.len()
        invariant
            i <= s.len(),
            replace_at_boundaries(s@, rep@) == out@ + replace_at_boundaries(s@.skip(i as int), rep@),
        decreases s.len() - i,
    {
        let ghost rest = s@.skip(i as int);
        append_chars(&mut out, rep);
        out.push(s[i]);
        assert(rest.skip(1) =~= s@.skip(i + 1));
        assert(rep@ + seq![rest[0]] + replace_at_boundaries(rest.skip(1), rep@)
            =~= rep@.push(s@[i as int]) + replace_at_boundaries(s@.skip(i + 1), rep@));
        i = i + 1;
    }
    append_chars(&mut out, rep);
    out
}

/// Every match of `pat` in `s` replaced by `rep` (`str::replace`; an empty `pat` matches
/// before every character and at the end).
pub fn replace_all(s: &str, pat: &str, rep: &str) -> (r: String)
    ensures
        r@ == spec_replace(s@, pat@, rep@),
{
    let sv = chars_of(s);
    let pv = chars_of(pat);
    let rv = chars_of(rep);
    let out = if pv.len() == 0 {
        replace_at_boundaries_chars(&sv, &rv)
    } else {
        replace_nonempty_chars(&sv, &pv, &rv)
    };
    string_of(&out)
}


/// The character of the decimal digit `d` (0 to 9).
pub open spec fn digit_char(d: int) -> char {
    if d == 0 { '0' }
    else if d == 1 { '1' }
    else if d == 2 { '2' }
    else if d == 3 { '3' }
    else if d == 4 { '4' }
    else if d == 5 { '5' }
    else if d == 6 { '6' }
    else if d == 7 { '7' }
    else if d == 8 { '8' }
    else { '9' }
}

/// Decimal digits of `n`, most significant first, without leading zeros.
pub open spec fn spec_decimal_nat(n: nat) -> Seq<char>
    decreases n,
{
    if n < 10 {
        seq![digit_char(n as int)]
    } else {
        spec_decimal_nat(n / 10).push(digit_char((n % 10) as int))
    }
}

/// How `n` is written in decimal (`to_string` of an integer): a `-` before the digits of a
/// negative number.
pub open spec fn spec_decimal(n: int) -> Seq<char> {
    if n < 0 {
        seq!['-'] + spec_decimal_nat((-n) as nat)
    } else {
        spec_decimal_nat(n as nat)
    }
}

fn digit_char_exec(d: u64) -> (c: char)
    requires
        d < 10,
    ensures
        c == digit_char(d as int),
{
    if d == 0 { '0' }
    else if d == 1 { '1' }
    else if d == 2 { '2' }
    else if d == 3 { '3' }
    else if d == 4 { '4' }
    else if d == 5 { '5' }
    else if d == 6 { '6' }
    else if d == 7 { '7' }
    else if d == 8 { '8' }
    else { '9' }
}

fn decimal_digits(n: u64) -> (v: Vec<char>)
    ensures
        v@ == spec_decimal_nat(n as nat),
    decreases n,
{
    if n < 10 {
        let mut v: Vec<char> = Vec::new();
        v.push(digit_char_exec(n));
        v
    } else {
        let mut v = decimal_digits(n / 10);
        v.push(digit_char_exec(n % 10));
        v
    }
}

/// `n` written in decimal (`i32::to_string`).
pub fn i32_to_string(n: i32) -> (r: String)
    ensures
        r@ == spec_decimal(n as int),
{
    let wide: i64 = n as i64;
    if wide < 0 {
        let mut v: Vec<char> = Vec::new();
        v.push('-');
        let digits = decimal_digits((0 - wide) as u64);
        append_chars(&mut v, &digits);
        string_of(&v)
    } else {
        string_of(&decimal_digits(wide as u64))
    }
}

/// `a` followed by `b`.
pub fn concat2(a: &str, b: &str) -> (r: String)
    ensures
        r@ == a@ + b@,
{
    let mut r = String::from_str(a);
    r.append(b);
    r
}

/// `a`, `b` and `c` one after another.
pub fn concat3(a: &str, b: &str, c: &str) -> (r: String)
    ensures
        r@ == a@ + b@ + c@,
{
    let mut r = String::from_str(a);
    r.append(b);
    r.append(c);
    r
}

/// `line` without one trailing carriage return.
pub open spec fn strip_cr(line: Seq<char>) -> Seq<char> {
    if line.len() > 0 && line.last() == '\r' {
        line.drop_last()
    } else {
        line
    }
}

/// Lines of `s` given that the line read so far is `cur`: a `\n` ends a line (and a `\r`
/// just before it is dropped); a last line without `\n` counts only when nonempty.
pub open spec fn lines_from(s: Seq<char>, cur: Seq<char>) -> Seq<Seq<char>>
    decreases s.len(),
{
    if s.len() == 0 {
        if cur.len() > 0 { seq![cur] } else { seq![] }
    } else if s[0] == '\n' {
        seq![strip_cr(cur)] + lines_from(s.skip(1), seq![])
    } else {
        lines_from(s.skip(1), cur.push(s[0]))
    }
}

/// What `str::lines` yields on `s`.
pub open spec fn spec_lines(s: Seq<char>) -> Seq<Seq<char>> {
    lines_from(s, seq![])
}

/// The lines of `s` (`str::lines`).
pub fn lines(s: &str) -> (r: Vec<String>)
    ensures
        r@.map_values(|l: String| l@) == spec_lines(s@),
{
    let sv = chars_of(s);
    let mut out: Vec<String> = Vec::new();
    let mut cur: Vec<char> = Vec::new();
    let mut i: usize = 0;
    assert(sv@.skip(0) =~= sv@);
    while i < sv.len()
        invariant
            i <= sv.len(),
            sv@ == s@,
            out@.map_values(|l: String| l@) + lines_from(sv@.skip(i as int), cur@) == spec_lines(s@),
        decreases sv.len() - i,
    {
        let ghost rest = sv@.skip(i as int);
        let ghost old_out = out@.map_values(|l: String| l@);
        assert(rest.skip(1) =~= sv@.skip(i + 1));
        let ghost cur0 = cur@;
        if sv[i] == '\n' {
            if cur.len() > 0 && cur[cur.len() - 1] == '\r' {
                cur.pop();
            }
            out.push(string_of(&cur));
            assert(out@.map_values(|l: String| l@) =~= old_out.push(cur@));
            assert(old_out.push(cur@) + lines_from(sv@.skip(i + 1), seq![])
                =~= old_out + lines_from(rest, cur0)) by {
                assert(cur@ == strip_cr(cur0));
            };
            cur = Vec::new();
        } else {
            cur.push(sv[i]);
        }
        i = i + 1;
    }
    if cur.len() > 0 {
        let ghost old_out = out@.map_values(|l: String| l@);
        out.push(string_of(&cur));
        assert(out@.map_values(|l: String| l@) =~= old_out.push(cur@));
    }
    assert(out@.map_values(|l: String| l@) =~= spec_lines(s@));
    out
}


/// Pieces of `s` between the matches of the nonempty `sep` (found left to right without
/// overlap), given that the piece read so far is `cur`.
pub open spec fn split_from(s: Seq<char>, sep: Seq<char>, cur: Seq<char>) -> Seq<Seq<char>>
    decreases s.len(),
{
    if sep.len() == 0 || s.len() < sep.len() {
        seq![cur + s]
    } else if starts_with(s, sep) {
        seq![cur] + split_from(s.skip(sep.len() as int), sep, seq![])
    } else {
        split_from(s.skip(1), sep, cur.push(s[0]))
    }
}

/// What `str::split_terminator(s, sep)` yields for a nonempty `sep`: the pieces between the
/// matches, without the last piece when that one is empty.
pub open spec fn spec_split_terminator(s: Seq<char>, sep: Seq<char>) -> Seq<Seq<char>> {
    let parts = split_from(s, sep, seq![]);
    if parts.last().len() == 0 {
        parts.drop_last()
    } else {
        parts
    }
}

/// The pieces of `s` between the matches of the nonempty `sep`, without an empty last piece
/// (`str::split_terminator`).
pub fn split_terminator(s: &str, sep: &str) -> (r: Vec<String>)
    requires
        sep@.len() > 0,
    ensures
        r@.map_values(|p: String| p@) == spec_split_terminator(s@, sep@),
{
    let sv = chars_of(s);
    let pv = chars_of(sep);
    let mut parts: Vec<String> = Vec::new();
    let mut cur: Vec<char> = Vec::new();
    let mut i: usize = 0;
    assert(sv@.skip(0) =~= sv@);
    while i < sv.len() && pv.len() <= sv.len() - i
        invariant
            i <= sv.len(),
            sv@ == s@,
            pv@ == sep@,
            pv.len() > 0,
            parts@.map_values(|p: String| p@) + split_from(sv@.skip(i as int), pv@, cur@)
                == split_from(s@, sep@, seq![]),
        decreases sv.len() - i,
    {
        let ghost rest = sv@.skip(i as int);
        let ghost old_parts = parts@.map_values(|p: String| p@);
        if matches_at(&sv, i, &pv) {
            parts.push(string_of(&cur));
            assert(parts@.map_values(|p: String| p@) =~= old_parts.push(cur@));
            assert(rest.skip(pv.len() as int) =~= sv@.skip(i + pv.len()));
            assert(old_parts.push(cur@) + split_from(sv@.skip(i + pv.len()), pv@, seq![])
                =~= old_parts + (seq![cur@] + split_from(rest.skip(pv.len() as int), pv@, seq![])));
            cur = Vec::new();
            i = i + pv.len();
        } else {
            assert(rest.skip(1) =~= sv@.skip(i + 1));
            cur.push(sv[i]);
            i = i + 1;
        }
    }
    let ghost rest = sv@.skip(i as int);
    let mut k: usize = i;
    let ghost cur0 = cur@;
    while k < sv.len()
        invariant
            i <= k <= sv.len(),
            cur@ == cur0 + sv@.subrange(i as int, k as int),
        decreases sv.len() - k,
    {
        cur.push(sv[k]);
        k = k + 1;
        assert(sv@.subrange(i as int, k as int) =~= sv@.subrange(i as int, k - 1).push(sv@[k - 1]));
    }
    assert(cur@ =~= cur0 + rest);
    let ghost all = split_from(s@, sep@, seq![]);
    let ghost old_parts = parts@.map_values(|p: String| p@);
    assert(all =~= old_parts.push(cur@));
    if cur.len() > 0 {
        parts.push(string_of(&cur));
        assert(parts@.map_values(|p: String| p@) =~= all);
    } else {
        assert(all.drop_last() =~= old_parts);
    }
    parts
}

} // verus!
