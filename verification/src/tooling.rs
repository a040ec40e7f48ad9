//! What the build reads back from external tools: the Visual Studio
//! generators that `cmake --help` lists, and the class IDs that the VST3
//! validator prints.
use vstd::prelude::*;
use crate::text::{
    chars_of, find_pattern, has_prefix, is_hex, is_whitespace, is_ws, lines, owned, parse_u32,
    parse_u32_chars, push_char, push_str, slice_of, split_lines, split_once, starts_with, str_eq,
    string_of, trim, trim_start, trim_start_index, trimmed, views,
};

verus! {

/// The upper-case form of an ASCII hexadecimal digit.
pub open spec fn upper_hex(c: char) -> char {
    if c == 'a' {
        'A'
    } else if c == 'b' {
        'B'
    } else if c == 'c' {
        'C'
    } else if c == 'd' {
        'D'
    } else if c == 'e' {
        'E'
    } else if c == 'f' {
        'F'
    } else {
        c
    }
}

/// A class ID with everything but its hex digits dropped, upper-cased.
pub open spec fn normalized_cid(s: Seq<char>) -> Seq<char>
    decreases s.len(),
{
    if s.len() == 0 {
        Seq::empty()
    } else {
        let rest = normalized_cid(s.drop_last());
        if is_hex(s.last()) {
            rest.push(upper_hex(s.last()))
        } else {
            rest
        }
    }
}

/// The class ID a validator output line carries, if it has `cid = `.
pub open spec fn cid_of_line(line: Seq<char>) -> Option<Seq<char>> {
    match split_once(trim_start(line), "cid = "@) {
        Some((_, after)) => Some(normalized_cid(after)),
        None => None,
    }
}

pub open spec fn cids_of_lines(ls: Seq<Seq<char>>) -> Seq<Seq<char>>
    decreases ls.len(),
{
    if ls.len() == 0 {
        Seq::empty()
    } else {
        let rest = cids_of_lines(ls.drop_last());
        match cid_of_line(ls.last()) {
            Some(c) => rest.push(c),
            None => rest,
        }
    }
}

/// The class IDs in a VST3 validator output, in order.
pub open spec fn vst3_cids(output: Seq<char>) -> Seq<Seq<char>> {
    cids_of_lines(lines(output))
}

fn upper_hex_char(c: char) -> (r: char)
    ensures
        r == upper_hex(c),
{
    if c == 'a' {
        'A'
    } else if c == 'b' {
        'B'
    } else if c == 'c' {
        'C'
    } else if c == 'd' {
        'D'
    } else if c == 'e' {
        'E'
    } else if c == 'f' {
        'F'
    } else {
        c
    }
}

fn normalize_chars(v: &Vec<char>, lo: usize) -> (r: String)
    requires
        lo <= v.len(),
    ensures
        r@ == normalized_cid(v@.skip(lo as int)),
{
    let mut out = String::new();
    let mut i = lo;
    while i < v.len()
        invariant
            lo <= i <= v.len(),
            out@ == normalized_cid(v@.subrange(lo as int, i as int)),
        decreases v.len() - i,
    {
        let c = v[i];
        assert(v@.subrange(lo as int, i + 1).drop_last() =~= v@.subrange(lo as int, i as int));
        if crate::text::is_hex_digit(c) {
            push_char(&mut out, upper_hex_char(c));
        }
        i += 1;
    }
    assert(v@.subrange(lo as int, v.len() as int) =~= v@.skip(lo as int));
    out
}

/// A class ID with everything but its hex digits dropped, upper-cased, so
/// dashed and plain spellings compare equal.
pub fn normalize_vst3_cid(value: &str) -> (r: String)
    ensures
        r@ == normalized_cid(value@),
{
    let v = chars_of(value);
    assert(v@.skip(0) =~= v@);
    normalize_chars(&v, 0)
}

fn cid_in_line(line: &Vec<char>) -> (r: Option<String>)
    ensures
        match cid_of_line(line@) {
            Some(c) => r matches Some(s) && s@ == c,
            None => r is None,
        },
{
    let lo = trim_start_index(line, 0);
    assert(line@.skip(0) =~= line@);
    let pat = chars_of("cid = ");
    let t = slice_of(line, lo, line.len());
    assert(t@ =~= trim_start(line@));
    match find_pattern(&t, 0, &pat) {
        Some(i) => {
            assert(t@.skip(i + pat@.len()) =~= t@.skip((i + pat.len()) as int));
            Some(normalize_chars(&t, i + pat.len()))
        },
        None => None,
    }
}

/// The class IDs a VST3 validator printed, one per `cid = ` line, normalized.
pub fn parse_vst3_validator_cids(output: &str) -> (r: Vec<String>)
    ensures
        crate::text::string_views(r@) == vst3_cids(output@),
{
    let chars = chars_of(output);
    let ls = split_lines(&chars);
    let mut out: Vec<String> = Vec::new();
    let mut i: usize = 0;
    while i < ls.len()
        invariant
            views(ls@) == lines(output@),
            i <= ls.len(),
            crate::text::string_views(out@) == cids_of_lines(views(ls@).take(i as int)),
        decreases ls.len() - i,
    {
        assert(views(ls@).take(i + 1).drop_last() =~= views(ls@).take(i as int));
        assert(views(ls@).take(i + 1).last() == ls@[i as int]@);
        match cid_in_line(&ls[i]) {
            Some(c) => {
                let ghost before = crate::text::string_views(out@);
                out.push(c);
                assert(crate::text::string_views(out@) =~= before.push(c@));
            },
            None => {},
        }
        i += 1;
    }
    assert(views(ls@).take(ls.len() as int) =~= views(ls@));
    out
}

/// The generator a `cmake --help` line lists, when it is a Visual Studio one.
pub open spec fn generator_of_line(line: Seq<char>) -> Option<Seq<char>> {
    let t = trim_start(line);
    let l = if has_prefix(t, "* "@) {
        t.skip(2)
    } else {
        t
    };
    match split_once(l, " = "@) {
        Some((name, _)) => {
            let n = trim(name);
            if has_prefix(n, "Visual Studio"@) {
                Some(n)
            } else {
                None
            }
        },
        None => None,
    }
}

pub open spec fn generators_of_lines(ls: Seq<Seq<char>>) -> Seq<Seq<char>>
    decreases ls.len(),
{
    if ls.len() == 0 {
        Seq::empty()
    } else {
        let rest = generators_of_lines(ls.drop_last());
        match generator_of_line(ls.last()) {
            Some(g) => rest.push(g),
            None => rest,
        }
    }
}

/// The Visual Studio generators that `cmake --help` lists, in order.
pub open spec fn vs_generators(help: Seq<char>) -> Seq<Seq<char>> {
    generators_of_lines(lines(help))
}

fn generator_in_line(line: &Vec<char>) -> (r: Option<String>)
    ensures
        match generator_of_line(line@) {
            Some(g) => r matches Some(s) && s@ == g,
            None => r is None,
        },
{
    let lo = trim_start_index(line, 0);
    assert(line@.skip(0) =~= line@);
    let t = slice_of(line, lo, line.len());
    assert(t@ =~= trim_start(line@));
    let l = if starts_with(&t, "* ") {
        proof {
            reveal_strlit("* ");
        }
        let l = slice_of(&t, 2, t.len());
        assert(l@ =~= t@.skip(2));
        l
    } else {
        t
    };
    let pat = chars_of(" = ");
    match find_pattern(&l, 0, &pat) {
        Some(i) => {
            let name = trimmed(&l, 0, i);
            assert(l@.subrange(0, i as int) =~= l@.take(i as int));
            if starts_with(&name, "Visual Studio") {
                Some(string_of(&name, 0, name.len()))
            } else {
                None
            }
        },
        None => None,
    }
}

/// The Visual Studio generators that a `cmake --help` text lists, in order.
pub fn cmake_visual_studio_generators(help: &str) -> (r: Vec<String>)
    ensures
        crate::text::string_views(r@) == vs_generators(help@),
{
    let chars = chars_of(help);
    let ls = split_lines(&chars);
    let mut out: Vec<String> = Vec::new();
    let mut i: usize = 0;
    while i < ls.len()
        invariant
            views(ls@) == lines(help@),
            i <= ls.len(),
            crate::text::string_views(out@) == generators_of_lines(views(ls@).take(i as int)),
        decreases ls.len() - i,
    {
        assert(views(ls@).take(i + 1).drop_last() =~= views(ls@).take(i as int));
        assert(views(ls@).take(i + 1).last() == ls@[i as int]@);
        match generator_in_line(&ls[i]) {
            Some(g) => {
                let ghost before = crate::text::string_views(out@);
                out.push(g);
                assert(crate::text::string_views(out@) =~= before.push(g@));
            },
            None => {},
        }
        i += 1;
    }
    assert(views(ls@).take(ls.len() as int) =~= views(ls@));
    out
}

/// Whether `cmake --help` lists `generator` among its Visual Studio generators.
pub fn cmake_help_lists_generator(help: &str, generator: &str) -> (r: bool)
    ensures
        r == vs_generators(help@).contains(generator@),
{
    let gens = cmake_visual_studio_generators(help);
    let mut i: usize = 0;
    while i < gens.len()
        invariant
            crate::text::string_views(gens@) == vs_generators(help@),
            i <= gens.len(),
            forall|j: int| 0 <= j < i ==> vs_generators(help@)[j] != generator@,
        decreases gens.len() - i,
    {
        assert(vs_generators(help@)[i as int] == gens@[i as int]@);
        if str_eq(gens[i].as_str(), generator) {
            return true;
        }
        i += 1;
    }
    false
}

/// The characters before the first white space.
pub open spec fn take_word(s: Seq<char>) -> Seq<char>
    decreases s.len(),
{
    if s.len() == 0 || is_ws(s[0]) {
        Seq::empty()
    } else {
        seq![s[0]] + take_word(s.drop_first())
    }
}

proof fn lemma_take_word(s: Seq<char>)
    ensures
        take_word(s).len() <= s.len(),
        take_word(s) == s.take(take_word(s).len() as int),
        take_word(s).len() < s.len() ==> is_ws(s[take_word(s).len() as int]),
        forall|j: int| 0 <= j < take_word(s).len() ==> !is_ws(s[j]),
    decreases s.len(),
{
    if s.len() > 0 && !is_ws(s[0]) {
        lemma_take_word(s.drop_first());
        let t = take_word(s.drop_first());
        assert(take_word(s) =~= seq![s[0]] + t);
        assert(s.take(t.len() + 1int) =~= seq![s[0]] + s.drop_first().take(t.len() as int));
        assert forall|j: int| 0 <= j < take_word(s).len() implies !is_ws(s[j]) by {
            if j > 0 {
                assert(s[j] == s.drop_first()[j - 1]);
            }
        }
    } else {
        assert(s.take(0) =~= Seq::<char>::empty());
    }
}

/// The first white-space separated word.
pub open spec fn first_word(s: Seq<char>) -> Seq<char> {
    take_word(trim_start(s))
}

/// What follows the first white-space separated word.
pub open spec fn after_first_word(s: Seq<char>) -> Seq<char> {
    trim_start(s).skip(first_word(s).len() as int)
}

/// The version number of a `Visual Studio <n> <year>` generator name, read
/// from its third word as `split_whitespace` finds it.
pub open spec fn vs_generator_version(g: Seq<char>) -> Option<u32> {
    let w1 = first_word(g);
    let r1 = after_first_word(g);
    let w2 = first_word(r1);
    let r2 = after_first_word(r1);
    let w3 = first_word(r2);
    if w1 == "Visual"@ && w2 == "Studio"@ {
        parse_u32(w3)
    } else {
        None
    }
}

/// The bounds of the first word of `v[lo..]`: its start and its end.
fn word_bounds(v: &Vec<char>, lo: usize) -> (r: (usize, usize))
    requires
        lo <= v.len(),
    ensures
        lo <= r.0 <= r.1 <= v.len(),
        v@.subrange(r.0 as int, r.1 as int) == first_word(v@.skip(lo as int)),
        v@.skip(r.1 as int) == after_first_word(v@.skip(lo as int)),
{
    let a = trim_start_index(v, lo);
    let mut b = a;
    while b < v.len() && !is_whitespace(v[b])
        invariant
            a <= b <= v.len(),
            forall|j: int| a <= j < b ==> !is_ws(v@[j]),
        decreases v.len() - b,
    {
        b += 1;
    }
    proof {
        let t = v@.skip(a as int);
        lemma_take_word(t);
        let w = take_word(t);
        if w.len() < b - a {
            assert(is_ws(t[w.len() as int]));
            assert(t[w.len() as int] == v@[a + w.len()]);
        } else if w.len() > b - a {
            assert(t[b - a] == v@[b as int]);
            assert(!is_ws(t[b - a]));
            assert(b < v.len());
        }
        assert(w.len() == b - a);
        assert(w =~= v@.subrange(a as int, b as int));
        assert(t.skip(w.len() as int) =~= v@.skip(b as int));
    }
    (a, b)
}

/// The version number of a `Visual Studio <n> <year>` generator name.
pub fn visual_studio_generator_version(generator: &str) -> (r: Option<u32>)
    ensures
        r == vs_generator_version(generator@),
{
    let v = chars_of(generator);
    assert(v@.skip(0) =~= v@);
    let (a1, b1) = word_bounds(&v, 0);
    let (a2, b2) = word_bounds(&v, b1);
    let (a3, b3) = word_bounds(&v, b2);
    let w1 = slice_of(&v, a1, b1);
    let w2 = slice_of(&v, a2, b2);
    let w3 = slice_of(&v, a3, b3);
    let visual = chars_of("Visual");
    let studio = chars_of("Studio");
    if crate::text::chars_eq(&w1, &visual) && crate::text::chars_eq(&w2, &studio) {
        parse_u32_chars(&w3)
    } else {
        None
    }
}

/// The generator with the highest version among those with one, the last
/// of equals, with its version.
pub open spec fn latest_generator(gens: Seq<Seq<char>>) -> Option<(u32, Seq<char>)>
    decreases gens.len(),
{
    if gens.len() == 0 {
        None
    } else {
        let best = latest_generator(gens.drop_last());
        match vs_generator_version(gens.last()) {
            None => best,
            Some(v) => match best {
                Some((bv, bg)) => if v >= bv {
                    Some((v, gens.last()))
                } else {
                    best
                },
                None => Some((v, gens.last())),
            },
        }
    }
}

/// The newest Visual Studio generator that a `cmake --help` text lists.
pub fn select_latest_visual_studio_generator(help: &str) -> (r: Option<String>)
    ensures
        match latest_generator(vs_generators(help@)) {
            Some((_, g)) => r matches Some(s) && s@ == g,
            None => r is None,
        },
{
    let gens = cmake_visual_studio_generators(help);
    let ghost gv = vs_generators(help@);
    let mut best: Option<(u32, usize)> = None;
    let mut i: usize = 0;
    while i < gens.len()
        invariant
            crate::text::string_views(gens@) == gv,
            i <= gens.len(),
            match latest_generator(gv.take(i as int)) {
                Some((bv, bg)) => best matches Some((v, k)) && v == bv && k < i && gens@[k as int]@ == bg,
                None => best is None,
            },
        decreases gens.len() - i,
    {
        assert(gv.take(i + 1).drop_last() =~= gv.take(i as int));
        assert(gv.take(i + 1).last() == gens@[i as int]@);
        match visual_studio_generator_version(gens[i].as_str()) {
            Some(v) => {
                match best {
                    Some((bv, _)) => {
                        if v >= bv {
                            best = Some((v, i));
                        }
                    },
                    None => {
                        best = Some((v, i));
                    },
                }
            },
            None => {},
        }
        i += 1;
    }
    assert(gv.take(gens.len() as int) =~= gv);
    match best {
        Some((_, k)) => Some(gens[k].clone()),
        None => None,
    }
}

} // verus!
