//! Character-level helpers shared by the parsers and message builders.
//!
//! Text is modelled as `Seq<char>`; executable code works on `Vec<char>` and
//! `String` values whose views are those sequences.
use vstd::prelude::*;

verus! {

/// Unicode `White_Space`, the property behind `char::is_whitespace` and `str::trim`.
pub open spec fn is_ws(c: char) -> bool {
    ||| ('\u{9}' <= c && c <= '\u{d}')
    ||| c == ' '
    ||| c == '\u{85}'
    ||| c == '\u{a0}'
    ||| c == '\u{1680}'
    ||| ('\u{2000}' <= c && c <= '\u{200a}')
    ||| c == '\u{2028}'
    ||| c == '\u{2029}'
    ||| c == '\u{202f}'
    ||| c == '\u{205f}'
    ||| c == '\u{3000}'
}

/// Whether `c` is a Unicode white-space character.
pub fn is_whitespace(c: char) -> (r: bool)
    ensures
        r == is_ws(c),
{
    ('\u{9}' <= c && c <= '\u{d}') || c == ' ' || c == '\u{85}' || c == '\u{a0}' || c
        == '\u{1680}' || ('\u{2000}' <= c && c <= '\u{200a}') || c == '\u{2028}' || c
        == '\u{2029}' || c == '\u{202f}' || c == '\u{205f}' || c == '\u{3000}'
}

/// Leading white space removed.
pub open spec fn trim_start(s: Seq<char>) -> Seq<char>
    decreases s.len(),
{
    if s.len() > 0 && is_ws(s[0]) {
        trim_start(s.drop_first())
    } else {
        s
    }
}

/// Trailing white space removed.
pub open spec fn trim_end(s: Seq<char>) -> Seq<char>
    decreases s.len(),
{
    if s.len() > 0 && is_ws(s.last()) {
        trim_end(s.drop_last())
    } else {
        s
    }
}

/// Leading and trailing white space removed, as `str::trim` does.
pub open spec fn trim(s: Seq<char>) -> Seq<char> {
    trim_end(trim_start(s))
}

/// The characters of `s` before the first `c` (all of `s` when there is none).
pub open spec fn take_until(s: Seq<char>, c: char) -> Seq<char>
    decreases s.len(),
{
    if s.len() == 0 {
        s
    } else if s[0] == c {
        Seq::empty()
    } else {
        seq![s[0]] + take_until(s.drop_first(), c)
    }
}

/// Whether `p` is a prefix of `s`.
pub open spec fn has_prefix(s: Seq<char>, p: Seq<char>) -> bool {
    p.len() <= s.len() && s.take(p.len() as int) == p
}

/// Whether `p` is a suffix of `s`.
pub open spec fn has_suffix(s: Seq<char>, p: Seq<char>) -> bool {
    p.len() <= s.len() && s.skip(s.len() - p.len()) == p
}

/// Drops one trailing carriage return.
pub open spec fn strip_cr(l: Seq<char>) -> Seq<char> {
    if l.len() > 0 && l.last() == '\r' {
        l.drop_last()
    } else {
        l
    }
}

pub proof fn lemma_take_until_len(s: Seq<char>, c: char)
    ensures
        take_until(s, c).len() <= s.len(),
        take_until(s, c).len() < s.len() ==> s[take_until(s, c).len() as int] == c,
        forall|j: int| 0 <= j < take_until(s, c).len() ==> s[j] != c,
        take_until(s, c) == s.take(take_until(s, c).len() as int),
    decreases s.len(),
{
    if s.len() > 0 && s[0] != c {
        lemma_take_until_len(s.drop_first(), c);
        let t = take_until(s.drop_first(), c);
        assert(take_until(s, c) =~= seq![s[0]] + t);
        assert forall|j: int| 0 <= j < take_until(s, c).len() implies s[j] != c by {
            if j > 0 {
                assert(s[j] == s.drop_first()[j - 1]);
            }
        }
        assert(s.take(t.len() + 1int) =~= seq![s[0]] + s.drop_first().take(t.len() as int));
    } else if s.len() > 0 {
        assert(s.take(0) =~= Seq::<char>::empty());
    }
}

/// `take_until` is the prefix that ends at the first `c`.
pub proof fn lemma_take_until_is(s: Seq<char>, c: char, i: int)
    requires
        0 <= i <= s.len(),
        forall|j: int| 0 <= j < i ==> s[j] != c,
        i == s.len() || s[i] == c,
    ensures
        take_until(s, c) == s.take(i),
    decreases i,
{
    lemma_take_until_len(s, c);
    let t = take_until(s, c);
    if t.len() < i {
        assert(s[t.len() as int] == c);
    } else if t.len() > i {
        assert(s[i] != c);
    }
}

/// The lines of a text, split as `str::lines` does.
pub open spec fn lines(s: Seq<char>) -> Seq<Seq<char>>
    decreases s.len(),
{
    if s.len() == 0 {
        Seq::empty()
    } else {
        let l = take_until(s, '\n');
        if l.len() >= s.len() {
            seq![l]
        } else {
            seq![strip_cr(l)] + lines(s.skip(l.len() + 1int))
        }
    }
}

/// Characters of a string slice.
pub fn chars_of(s: &str) -> (r: Vec<char>)
    ensures
        r@ == s@,
{
    let mut out: Vec<char> = Vec::new();
    for c in it: s.chars()
        invariant
            out@ == it.seq().take(it.index() as int),
            it.seq() == s@,
    {
        out.push(c);
    }
    out
}

/// Appends one character to a `String` (`String::push`).
#[verifier::external_body]
pub fn push_char(s: &mut String, c: char)
    ensures
        final(s)@ == old(s)@.push(c),
{
    s.push(c);
}

/// Appends a string slice to a `String` (`String::push_str`).
#[verifier::external_body]
pub fn push_str(s: &mut String, t: &str)
    ensures
        final(s)@ == old(s)@ + t@,
{
    s.push_str(t);
}

/// An owned copy of a string slice (`str::to_string`).
#[verifier::external_body]
pub fn owned(s: &str) -> (r: String)
    ensures
        r@ == s@,
{
    s.to_string()
}

/// A `String` holding the characters of `v[lo..hi]`.
pub fn string_of(v: &Vec<char>, lo: usize, hi: usize) -> (r: String)
    requires
        lo <= hi <= v.len(),
    ensures
        r@ == v@.subrange(lo as int, hi as int),
{
    let mut out = String::new();
    let mut i = lo;
    while i < hi
        invariant
            lo <= i <= hi <= v.len(),
            out@ == v@.subrange(lo as int, i as int),
        decreases hi - i,
    {
        push_char(&mut out, v[i]);
        assert(v@.subrange(lo as int, i + 1) =~= v@.subrange(lo as int, i as int).push(v@[i as int]));
        i += 1;
    }
    out
}

/// A vector holding `v[lo..hi]`.
pub fn slice_of(v: &Vec<char>, lo: usize, hi: usize) -> (r: Vec<char>)
    requires
        lo <= hi <= v.len(),
    ensures
        r@ == v@.subrange(lo as int, hi as int),
{
    let mut out: Vec<char> = Vec::new();
    let mut i = lo;
    while i < hi
        invariant
            lo <= i <= hi <= v.len(),
            out@ == v@.subrange(lo as int, i as int),
        decreases hi - i,
    {
        out.push(v[i]);
        assert(v@.subrange(lo as int, i + 1) =~= v@.subrange(lo as int, i as int).push(v@[i as int]));
        i += 1;
    }
    out
}

/// Whether two string slices hold the same text.
pub fn str_eq(a: &str, b: &str) -> (r: bool)
    ensures
        r == (a@ == b@),
{
    let x = chars_of(a);
    let y = chars_of(b);
    chars_eq(&x, &y)
}

/// Whether two character vectors are equal.
pub fn chars_eq(x: &Vec<char>, y: &Vec<char>) -> (r: bool)
    ensures
        r == (x@ == y@),
{
    if x.len() != y.len() {
        return false;
    }
    let mut i: usize = 0;
    while i < x.len()
        invariant
            x.len() == y.len(),
            i <= x.len(),
            forall|j: int| 0 <= j < i ==> x@[j] == y@[j],
        decreases x.len() - i,
    {
        if x[i] != y[i] {
            return false;
        }
        i += 1;
    }
    assert(x@ =~= y@);
    true
}

/// Whether `v` starts with the characters of `p`.
pub fn starts_with(v: &Vec<char>, p: &str) -> (r: bool)
    ensures
        r == has_prefix(v@, p@),
{
    let pc = chars_of(p);
    if pc.len() > v.len() {
        return false;
    }
    let mut i: usize = 0;
    while i < pc.len()
        invariant
            pc.len() <= v.len(),
            i <= pc.len(),
            pc@ == p@,
            forall|j: int| 0 <= j < i ==> v@[j] == pc@[j],
        decreases pc.len() - i,
    {
        if v[i] != pc[i] {
            assert(v@.take(pc.len() as int)[i as int] != pc@[i as int]);
            return false;
        }
        i += 1;
    }
    assert(v@.take(pc.len() as int) =~= pc@);
    true
}

/// Whether `v` ends with the characters of `p`.
pub fn ends_with(v: &Vec<char>, p: &str) -> (r: bool)
    ensures
        r == has_suffix(v@, p@),
{
    let pc = chars_of(p);
    if pc.len() > v.len() {
        return false;
    }
    let off = v.len() - pc.len();
    let mut i: usize = 0;
    while i < pc.len()
        invariant
            pc.len() <= v.len(),
            off == v.len() - pc.len(),
            i <= pc.len(),
            pc@ == p@,
            forall|j: int| 0 <= j < i ==> v@[off + j] == pc@[j],
        decreases pc.len() - i,
    {
        if v[off + i] != pc[i] {
            assert(v@.skip(off as int)[i as int] != pc@[i as int]);
            return false;
        }
        i += 1;
    }
    assert(v@.skip(off as int) =~= pc@);
    true
}

pub proof fn lemma_trim_start_skip(s: Seq<char>, i: int)
    requires
        0 <= i < s.len(),
        is_ws(s[i]),
    ensures
        trim_start(s.skip(i)) == trim_start(s.skip(i + 1)),
{
    assert(s.skip(i).drop_first() =~= s.skip(i + 1));
}

pub proof fn lemma_trim_end_take(s: Seq<char>, j: int)
    requires
        0 < j <= s.len(),
        is_ws(s[j - 1]),
    ensures
        trim_end(s.take(j)) == trim_end(s.take(j - 1)),
{
    assert(s.take(j).drop_last() =~= s.take(j - 1));
}

/// The bounds `[lo, hi)` of the leading-whitespace-free part of `v[lo0..]`.
pub fn trim_start_index(v: &Vec<char>, lo0: usize) -> (lo: usize)
    requires
        lo0 <= v.len(),
    ensures
        lo0 <= lo <= v.len(),
        trim_start(v@.skip(lo0 as int)) == v@.skip(lo as int),
{
    let mut i = lo0;
    while i < v.len() && is_whitespace(v[i])
        invariant
            lo0 <= i <= v.len(),
            trim_start(v@.skip(lo0 as int)) == trim_start(v@.skip(i as int)),
        decreases v.len() - i,
    {
        proof {
            lemma_trim_start_skip(v@, i as int);
        }
        i += 1;
    }
    if i == v.len() {
        assert(v@.skip(i as int) =~= Seq::<char>::empty());
    }
    i
}

/// The characters of `v[lo..hi]` with surrounding white space removed.
pub fn trimmed(v: &Vec<char>, lo: usize, hi: usize) -> (r: Vec<char>)
    requires
        lo <= hi <= v.len(),
    ensures
        r@ == trim(v@.subrange(lo as int, hi as int)),
{
    let w = slice_of(v, lo, hi);
    let a = trim_start_index(&w, 0);
    assert(w@.skip(0) =~= w@);
    let mut j = w.len();
    let ghost t = w@.skip(a as int);
    assert(t.take(j - a) =~= t);
    while j > a && is_whitespace(w[j - 1])
        invariant
            a <= j <= w.len(),
            t == w@.skip(a as int),
            trim_end(t) == trim_end(t.take(j - a)),
        decreases j,
    {
        proof {
            lemma_trim_end_take(t, (j - a) as int);
        }
        j -= 1;
    }
    if j == a {
        assert(t.take(0) =~= Seq::<char>::empty());
    }
    assert(t.take(j - a) =~= w@.subrange(a as int, j as int));
    slice_of(&w, a, j)
}

/// Index of the first `c` in `v[lo..]`, or `v.len()` when there is none.
pub fn find_from(v: &Vec<char>, lo: usize, c: char) -> (i: usize)
    requires
        lo <= v.len(),
    ensures
        lo <= i <= v.len(),
        i < v.len() ==> v@[i as int] == c,
        forall|j: int| lo <= j < i ==> v@[j] != c,
        take_until(v@.skip(lo as int), c) == v@.subrange(lo as int, i as int),
{
    let mut i = lo;
    while i < v.len() && v[i] != c
        invariant
            lo <= i <= v.len(),
            forall|j: int| lo <= j < i ==> v@[j] != c,
        decreases v.len() - i,
    {
        i += 1;
    }
    proof {
        let s = v@.skip(lo as int);
        lemma_take_until_is(s, c, i - lo);
        assert(s.take(i - lo) =~= v@.subrange(lo as int, i as int));
    }
    i
}

/// A `Vec<char>` view sequence.
pub open spec fn views(v: Seq<Vec<char>>) -> Seq<Seq<char>> {
    v.map_values(|x: Vec<char>| x@)
}

/// The lines of `v`, split as `str::lines` does.
pub fn split_lines(v: &Vec<char>) -> (r: Vec<Vec<char>>)
    ensures
        views(r@) == lines(v@),
{
    let mut out: Vec<Vec<char>> = Vec::new();
    let mut pos: usize = 0;
    assert(v@.skip(0) =~= v@);
    while pos < v.len()
        invariant
            pos <= v.len(),
            lines(v@) == views(out@) + lines(v@.skip(pos as int)),
        decreases v.len() - pos,
    {
        let ghost rest = v@.skip(pos as int);
        let e = find_from(v, pos, '\n');
        proof {
            lemma_take_until_len(rest, '\n');
        }
        if e == v.len() {
            let line = slice_of(v, pos, e);
            proof {
                assert(lines(rest) == seq![take_until(rest, '\n')]);
                assert(views(out@.push(line)) =~= views(out@).push(line@));
                assert(v@.skip(e as int) =~= Seq::<char>::empty());
            }
            out.push(line);
            pos = e;
        } else {
            let mut end = e;
            if end > pos && v[end - 1] == '\r' {
                end = end - 1;
            }
            let line = slice_of(v, pos, end);
            proof {
                let l = take_until(rest, '\n');
                assert(l.len() == e - pos);
                assert(rest.skip(l.len() + 1int) =~= v@.skip(e + 1));
                assert(strip_cr(l) =~= line@);
                assert(lines(rest) == seq![strip_cr(l)] + lines(rest.skip(l.len() + 1int)));
                assert(views(out@.push(line)) =~= views(out@).push(line@));
                assert(views(out@) + lines(rest) =~= views(out@.push(line)) + lines(v@.skip(e + 1)));
            }
            out.push(line);
            pos = e + 1;
        }
    }
    proof {
        assert(v@.skip(pos as int) =~= Seq::<char>::empty());
        assert(views(out@) + Seq::<Seq<char>>::empty() =~= views(out@));
    }
    out
}

/// Characters `'0'..='9'` as a number.
pub open spec fn digit_char(d: nat) -> char
    recommends
        d < 10,
{
    if d == 0 { '0' }
    else if d == 1 { '1' }
    else if d == 2 { '2' }
    else if d == 3 { '3' }
    else if d == 4 { '4' }
    else if d == 5 { '5' }
    else if d == 6 { '6' }
    else if d == 7 { '7' }
    else if d == 8 { '8' }
    else { '9' }
}

/// The decimal representation of `n`, as `{}` formats an integer.
pub open spec fn decimal(n: nat) -> Seq<char>
    decreases n,
{
    if n < 10 {
        seq![digit_char(n)]
    } else {
        decimal(n / 10).push(digit_char(n % 10))
    }
}

fn digit(d: usize) -> (c: char)
    requires
        d < 10,
    ensures
        c == digit_char(d as nat),
{
    if d == 0 { '0' }
    else if d == 1 { '1' }
    else if d == 2 { '2' }
    else if d == 3 { '3' }
    else if d == 4 { '4' }
    else if d == 5 { '5' }
    else if d == 6 { '6' }
    else if d == 7 { '7' }
    else if d == 8 { '8' }
    else { '9' }
}

/// Appends the decimal representation of `n` to `s`.
pub fn push_decimal(s: &mut String, n: usize)
    ensures
        final(s)@ == old(s)@ + decimal(n as nat),
    decreases n,
{
    if n < 10 {
        push_char(s, digit(n));
        assert(old(s)@.push(digit_char(n as nat)) =~= old(s)@ + seq![digit_char(n as nat)]);
    } else {
        push_decimal(s, n / 10);
        push_char(s, digit(n % 10));
        assert(old(s)@ + decimal(n as nat / 10) + seq![digit_char(n as nat % 10)]
            =~= old(s)@ + decimal(n as nat / 10).push(digit_char(n as nat % 10)));
    }
}

/// Parts joined with a separator between consecutive parts (`[T]::join`).
pub open spec fn join(parts: Seq<Seq<char>>, sep: Seq<char>) -> Seq<char>
    decreases parts.len(),
{
    if parts.len() == 0 {
        Seq::empty()
    } else if parts.len() == 1 {
        parts[0]
    } else {
        join(parts.drop_last(), sep) + sep + parts.last()
    }
}

/// The views of a sequence of strings.
pub open spec fn string_views(v: Seq<String>) -> Seq<Seq<char>> {
    v.map_values(|x: String| x@)
}

/// Appends `parts` joined by `sep` to `out`.
pub fn push_joined(out: &mut String, parts: &Vec<String>, sep: &str)
    ensures
        final(out)@ == old(out)@ + join(string_views(parts@), sep@),
{
    let ghost start = out@;
    let mut i: usize = 0;
    while i < parts.len()
        invariant
            i <= parts.len(),
            out@ == start + join(string_views(parts@).take(i as int), sep@),
        decreases parts.len() - i,
    {
        let ghost before = out@;
        let ghost pv = string_views(parts@);
        if i > 0 {
            push_str(out, sep);
        }
        push_str(out, parts[i].as_str());
        proof {
            let t = pv.take(i + 1);
            assert(t.drop_last() =~= pv.take(i as int));
            assert(t.last() == parts@[i as int]@);
            if i == 0 {
                assert(join(t, sep@) == parts@[0]@);
                assert(join(pv.take(0), sep@) =~= Seq::<char>::empty());
                assert(out@ =~= start + join(t, sep@));
            } else {
                assert(out@ =~= start + join(t, sep@));
            }
        }
        i += 1;
    }
    assert(string_views(parts@).take(parts.len() as int) =~= string_views(parts@));
}

} // verus!

verus! {

/// `a` followed by `b`.
pub fn cat(a: &str, b: &str) -> (r: String)
    ensures
        r@ == a@ + b@,
{
    let mut s = owned(a);
    push_str(&mut s, b);
    s
}

/// `a`, `b` and `c` in sequence.
pub fn cat3(a: &str, b: &str, c: &str) -> (r: String)
    ensures
        r@ == a@ + b@ + c@,
{
    let mut s = owned(a);
    push_str(&mut s, b);
    push_str(&mut s, c);
    s
}

/// Whether `c` is an ASCII hexadecimal digit.
pub open spec fn is_hex(c: char) -> bool {
    ('0' <= c && c <= '9') || ('a' <= c && c <= 'f') || ('A' <= c && c <= 'F')
}

/// The value of a hexadecimal digit.
pub open spec fn hex_value(c: char) -> nat {
    if '0' <= c && c <= '9' {
        (c as nat - '0' as nat) as nat
    } else if 'a' <= c && c <= 'f' {
        (c as nat - 'a' as nat + 10) as nat
    } else {
        (c as nat - 'A' as nat + 10) as nat
    }
}

/// Whether `c` is an ASCII hexadecimal digit (`char::is_ascii_hexdigit`).
pub fn is_hex_digit(c: char) -> (r: bool)
    ensures
        r == is_hex(c),
{
    ('0' <= c && c <= '9') || ('a' <= c && c <= 'f') || ('A' <= c && c <= 'F')
}

/// The value of a hexadecimal digit.
pub fn hex_digit_value(c: char) -> (r: u8)
    requires
        is_hex(c),
    ensures
        r as nat == hex_value(c),
        r < 16,
{
    let u = c as u32;
    if '0' <= c && c <= '9' {
        (u - 48) as u8
    } else if 'a' <= c && c <= 'f' {
        (u - 97 + 10) as u8
    } else {
        (u - 65 + 10) as u8
    }
}


/// The first index at or after `i` where `pat` occurs in `s`.
pub open spec fn find_pattern_from(s: Seq<char>, pat: Seq<char>, i: int) -> Option<int>
    decreases s.len() - i,
{
    if i < 0 || i + pat.len() > s.len() {
        None
    } else if s.subrange(i, i + pat.len() as int) == pat {
        Some(i)
    } else if i + pat.len() == s.len() {
        None
    } else {
        find_pattern_from(s, pat, i + 1)
    }
}

/// The text before and after the first occurrence of `pat` (`str::split_once`).
pub open spec fn split_once(s: Seq<char>, pat: Seq<char>) -> Option<(Seq<char>, Seq<char>)> {
    match find_pattern_from(s, pat, 0) {
        Some(i) => Some((s.take(i), s.skip(i + pat.len()))),
        None => None,
    }
}

/// The index of the first occurrence of `pat` in `v[lo..]`.
pub fn find_pattern(v: &Vec<char>, lo: usize, pat: &Vec<char>) -> (r: Option<usize>)
    requires
        lo <= v.len(),
    ensures
        match find_pattern_from(v@, pat@, lo as int) {
            Some(i) => r == Some(i as usize) && lo <= i && i + pat@.len() <= v@.len(),
            None => r is None,
        },
{
    let mut i = lo;
    while i <= v.len()
        invariant
            lo <= i,
            i <= v.len() + 1,
            find_pattern_from(v@, pat@, lo as int) == if i <= v.len() {
                find_pattern_from(v@, pat@, i as int)
            } else {
                None
            },
        decreases v.len() + 1 - i,
    {
        if pat.len() > v.len() - i {
            return None;
        }
        let mut k: usize = 0;
        let mut same = true;
        while k < pat.len()
            invariant
                i + pat.len() <= v.len(),
                k <= pat.len(),
                same == (forall|j: int| 0 <= j < k ==> v@[i + j] == pat@[j]),
            decreases pat.len() - k,
        {
            if v[i + k] != pat[k] {
                same = false;
            }
            k += 1;
        }
        if same {
            assert(v@.subrange(i as int, i + pat@.len()) =~= pat@);
            return Some(i);
        } else {
            proof {
                let j = choose|j: int| 0 <= j < pat@.len() && v@[i + j] != pat@[j];
                assert(v@.subrange(i as int, i + pat@.len())[j] != pat@[j]);
            }
        }
        if i + pat.len() == v.len() {
            return None;
        }
        i += 1;
    }
    None
}

/// Whether `c` is an ASCII decimal digit.
pub open spec fn is_digit(c: char) -> bool {
    '0' <= c && c <= '9'
}

/// The value of a run of decimal digits.
pub open spec fn digits_value(s: Seq<char>) -> int
    decreases s.len(),
{
    if s.len() == 0 {
        0
    } else {
        digits_value(s.drop_last()) * 10 + (s.last() as int - '0' as int)
    }
}

/// The text `str::parse` reads digits from: without one leading `+`.
pub open spec fn unsigned_digits(s: Seq<char>) -> Seq<char> {
    if s.len() > 0 && s[0] == '+' {
        s.drop_first()
    } else {
        s
    }
}

/// Whether every character is a decimal digit.
pub open spec fn all_digits(d: Seq<char>) -> bool {
    forall|i: int| 0 <= i < d.len() ==> is_digit(#[trigger] d[i])
}

/// `str::parse::<u32>`: an optional `+`, then one or more decimal digits
/// whose value fits in a `u32`.
pub open spec fn parse_u32(s: Seq<char>) -> Option<u32> {
    let d = unsigned_digits(s);
    if d.len() > 0 && all_digits(d) && digits_value(d) <= u32::MAX {
        Some(digits_value(d) as u32)
    } else {
        None
    }
}

proof fn lemma_digits_nonneg(s: Seq<char>)
    requires
        forall|i: int| 0 <= i < s.len() ==> is_digit(#[trigger] s[i]),
    ensures
        digits_value(s) >= 0,
    decreases s.len(),
{
    if s.len() > 0 {
        lemma_digits_nonneg(s.drop_last());
    }
}

/// Parses the characters of `v` as a `u32`, as `str::parse` does.
pub fn parse_u32_chars(v: &Vec<char>) -> (r: Option<u32>)
    ensures
        r == parse_u32(v@),
{
    let mut start: usize = 0;
    if v.len() > 0 && v[0] == '+' {
        start = 1;
    }
    let ghost d = v@.skip(start as int);
    assert(d =~= unsigned_digits(v@));
    if start == v.len() {
        return None;
    }
    let mut value: u64 = 0;
    let mut i = start;
    while i < v.len()
        invariant
            start <= i <= v.len(),
            d == v@.skip(start as int),
            d == unsigned_digits(v@),
            forall|j: int| 0 <= j < i - start ==> is_digit(#[trigger] d[j]),
            value == digits_value(d.take(i - start)),
            value <= u32::MAX,
        decreases v.len() - i,
    {
        let c = v[i];
        assert(d[i - start] == c);
        if !('0' <= c && c <= '9') {
            assert(!is_digit(d[i - start]));
            return None;
        }
        let digit: u64 = if c == '0' { 0 } else if c == '1' { 1 } else if c == '2' { 2 } else if c == '3' {
            3
        } else if c == '4' { 4 } else if c == '5' { 5 } else if c == '6' { 6 } else if c == '7' {
            7
        } else if c == '8' { 8 } else { 9 };
        assert(digit == c as int - '0' as int);
        let next = value * 10 + digit;
        assert(d.take(i + 1 - start).drop_last() =~= d.take(i - start));
        assert(digits_value(d.take(i + 1 - start)) == next);
        if next > 4294967295u64 {
            proof {
                let n = d.len() as int;
                let k = i + 1 - start;
                lemma_digits_grow(d, k, n);
                assert(d.take(n) =~= d);
            }
            return None;
        }
        value = next;
        i += 1;
    }
    assert(d.take(v.len() - start) =~= d);
    Some(value as u32)
}

proof fn lemma_digits_grow(d: Seq<char>, k: int, m: int)
    requires
        0 <= k <= m <= d.len(),
        digits_value(d.take(k)) > u32::MAX,
    ensures
        digits_value(d.take(m)) > u32::MAX || exists|j: int| 0 <= j < m && !is_digit(#[trigger] d[j]),
    decreases m - k,
{
    if m > k {
        lemma_digits_grow(d, k, m - 1);
        if digits_value(d.take(m - 1)) > u32::MAX {
            assert(d.take(m).drop_last() =~= d.take(m - 1));
            if !is_digit(d[m - 1]) {
                assert(!is_digit(d[m - 1]));
            }
        } else {
            let j = choose|j: int| 0 <= j < m - 1 && !is_digit(#[trigger] d[j]);
            assert(0 <= j < m && !is_digit(d[j]));
        }
    }
}


/// `s[i..]` with every occurrence of `pat` replaced by `rep`, scanning left
/// to right without overlaps (`str::replace`).
pub open spec fn replaced_from(s: Seq<char>, pat: Seq<char>, rep: Seq<char>, i: int) -> Seq<char>
    decreases s.len() - i,
{
    match find_pattern_from(s, pat, i) {
        Some(k) => if i <= k && pat.len() > 0 && k + pat.len() <= s.len() {
            s.subrange(i, k) + rep + replaced_from(s, pat, rep, k + pat.len())
        } else {
            s.skip(i)
        },
        None => s.skip(i),
    }
}

/// `s` with every occurrence of `pat` replaced by `rep`.
pub open spec fn replaced(s: Seq<char>, pat: Seq<char>, rep: Seq<char>) -> Seq<char> {
    replaced_from(s, pat, rep, 0)
}

/// Replaces every occurrence of the non-empty `pat` in `s` by `rep`
/// (`str::replace`).
pub fn replace_all(s: &str, pat: &str, rep: &str) -> (r: String)
    requires
        pat@.len() > 0,
    ensures
        r@ == replaced(s@, pat@, rep@),
{
    let v = chars_of(s);
    let p = chars_of(pat);
    let mut out = String::new();
    let mut i: usize = 0;
    while i <= v.len()
        invariant
            v@ == s@,
            p@ == pat@,
            p@.len() > 0,
            i <= v.len(),
            replaced(s@, pat@, rep@) == out@ + replaced_from(s@, pat@, rep@, i as int),
        decreases v.len() - i,
    {
        match find_pattern(&v, i, &p) {
            Some(k) => {
                let ghost before = out@;
                let mut j = i;
                while j < k
                    invariant
                        i <= j <= k <= v.len(),
                        out@ == before + v@.subrange(i as int, j as int),
                    decreases k - j,
                {
                    push_char(&mut out, v[j]);
                    assert(v@.subrange(i as int, j + 1) =~= v@.subrange(i as int, j as int).push(v@[j as int]));
                    j += 1;
                }
                push_str(&mut out, rep);
                assert(out@ + replaced_from(s@, pat@, rep@, k + p@.len()) =~= before + replaced_from(
                    s@,
                    pat@,
                    rep@,
                    i as int,
                ));
                i = k + p.len();
            },
            None => {
                let ghost before = out@;
                let mut j = i;
                while j < v.len()
                    invariant
                        i <= j <= v.len(),
                        v@ == s@,
                        out@ == before + v@.subrange(i as int, j as int),
                    decreases v.len() - j,
                {
                    push_char(&mut out, v[j]);
                    assert(v@.subrange(i as int, j + 1) =~= v@.subrange(i as int, j as int).push(v@[j as int]));
                    j += 1;
                }
                assert(v@.subrange(i as int, v@.len() as int) =~= v@.skip(i as int));
                return out;
            },
        }
    }
    out
}

} // verus!
