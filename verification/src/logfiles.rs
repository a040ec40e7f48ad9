//! The naming and selection rules of WRAC file logging: where the session
//! log goes, how log files are named and archived, which archives rotation
//! removes, which logs a diagnostic bundle collects, and how a development
//! `.env` sets `RUST_LOG`.
//!
//! Directory listings, file times and sizes, and environment variables are
//! read at the program edge and arrive here as plain values.
use vstd::prelude::*;
use crate::text::{
    chars_of, find_pattern, has_prefix, has_suffix, is_whitespace, lines, owned, push_char, push_str,
    slice_of, split_lines, split_once, starts_with, ends_with, str_eq, string_of, take_until, trim,
    trim_end, trim_start, trim_start_index, trimmed, views, string_views,
};

verus! {

/// Where file logging writes.
#[derive(Debug, Clone, Copy, PartialEq, Eq)]
pub enum LogOutput {
    /// `WRAC_LOG_DIR`, then the debug directory in debug builds, otherwise the
    /// platform log directory.
    DefaultPluginLogDir { debug_log_dir: Option<&'static str> },
    Directory(&'static str),
    File(&'static str),
    Stderr,
}

/// WRAC file logging configuration.
#[derive(Debug, Clone, Copy)]
pub struct LogConfig {
    pub app_name: &'static str,
    pub output: LogOutput,
    pub debug_dotenv_search_dir: Option<&'static str>,
}

impl LogConfig {
    /// The standard plugin configuration: the default log directory, with
    /// the debug directory also searched for a development `.env`.
    pub fn new(app_name: &'static str, debug_log_dir: Option<&'static str>) -> (r: LogConfig)
        ensures
            r.app_name == app_name,
            r.output == (LogOutput::DefaultPluginLogDir { debug_log_dir }),
            r.debug_dotenv_search_dir == debug_log_dir,
    {
        LogConfig { app_name, output: LogOutput::DefaultPluginLogDir { debug_log_dir }, debug_dotenv_search_dir: debug_log_dir }
    }
}

/// Limits on the logs collected for diagnostics.
#[derive(Debug, Clone, Copy)]
pub struct RecentLogFilesOptions {
    /// At most this many files, the current log included.
    pub max_files: usize,
    /// At most this many bytes in all; the current log is always included.
    pub max_total_bytes: u64,
}

impl RecentLogFilesOptions {
    /// Thirty files and 50 MiB.
    pub fn default_options() -> (r: RecentLogFilesOptions)
        ensures
            r.max_files == 30,
            r.max_total_bytes == 52428800,
    {
        RecentLogFilesOptions { max_files: 30, max_total_bytes: 52428800 }
    }
}

/// How many archived logs rotation keeps.
pub open spec fn max_log_files() -> nat {
    30
}

/// `char::is_control`: the Unicode `Cc` characters.
pub open spec fn is_control(c: char) -> bool {
    c <= '\u{1f}' || ('\u{7f}' <= c && c <= '\u{9f}')
}

/// Characters that are unsafe or awkward in file names on the major file systems.
pub open spec fn unsafe_in_file_name(c: char) -> bool {
    is_control(c) || c == '<' || c == '>' || c == ':' || c == '"' || c == '/' || c == '\\' || c == '|' || c
        == '?' || c == '*'
}

/// The log file stem of an app: unsafe characters replaced by `_`, white
/// space trimmed, `Application` when nothing is left.
pub open spec fn file_stem_of(app_name: Seq<char>) -> Seq<char> {
    let s = trim(app_name.map_values(|c: char| if unsafe_in_file_name(c) { '_' } else { c }));
    if s.len() == 0 {
        "Application"@
    } else {
        s
    }
}

fn is_unsafe_in_file_name(c: char) -> (r: bool)
    ensures
        r == unsafe_in_file_name(c),
{
    c <= '\u{1f}' || ('\u{7f}' <= c && c <= '\u{9f}') || c == '<' || c == '>' || c == ':' || c == '"' || c
        == '/' || c == '\\' || c == '|' || c == '?' || c == '*'
}

/// The stem of an app's log file names.
pub fn log_file_stem(app_name: &str) -> (r: String)
    ensures
        r@ == file_stem_of(app_name@),
{
    let v = chars_of(app_name);
    let mut mapped: Vec<char> = Vec::new();
    let mut i: usize = 0;
    while i < v.len()
        invariant
            i <= v.len(),
            v@ == app_name@,
            mapped@ == v@.take(i as int).map_values(|c: char| if unsafe_in_file_name(c) { '_' } else { c }),
        decreases v.len() - i,
    {
        let c = v[i];
        mapped.push(if is_unsafe_in_file_name(c) { '_' } else { c });
        assert(v@.take(i + 1).map_values(|c: char| if unsafe_in_file_name(c) { '_' } else { c }) =~= v@.take(
            i as int,
        ).map_values(|c: char| if unsafe_in_file_name(c) { '_' } else { c }).push(
            if unsafe_in_file_name(c) { '_' } else { c },
        ));
        i += 1;
    }
    assert(v@.take(v.len() as int) =~= v@);
    let t = trimmed(&mapped, 0, mapped.len());
    assert(mapped@.subrange(0, mapped.len() as int) =~= mapped@);
    if t.len() == 0 {
        owned("Application")
    } else {
        string_of(&t, 0, t.len())
    }
}

/// `<stem> Latest.log`, the name of the current session's log.
pub open spec fn latest_name(stem: Seq<char>) -> Seq<char> {
    stem + " Latest.log"@
}

/// The name of the current session's log.
pub fn latest_log_file_name(file_stem: &str) -> (r: String)
    ensures
        r@ == latest_name(file_stem@),
{
    let mut s = owned(file_stem);
    push_str(&mut s, " Latest.log");
    s
}

/// An archived log of the app: `<stem> …​.log` other than the latest log.
pub open spec fn is_archived_name(name: Seq<char>, stem: Seq<char>) -> bool {
    has_prefix(name, stem + " "@) && has_suffix(name, ".log"@) && name != latest_name(stem)
}

/// Whether a file name is an archived log of the app with this stem.
pub fn is_archived_log_file_name(file_name: &str, file_stem: &str) -> (r: bool)
    ensures
        r == is_archived_name(file_name@, file_stem@),
{
    let name = chars_of(file_name);
    let mut prefix = owned(file_stem);
    push_str(&mut prefix, " ");
    let latest = latest_log_file_name(file_stem);
    starts_with(&name, prefix.as_str()) && ends_with(&name, ".log") && !str_eq(file_name, latest.as_str())
}

/// The archive name tried first for a timestamp, then with `-1`, `-2`, …
/// appended, up to `-999`.
pub open spec fn archived_name(stem: Seq<char>, timestamp: Seq<char>, attempt: nat) -> Seq<char> {
    if attempt == 0 {
        stem + " "@ + timestamp + ".log"@
    } else {
        stem + " "@ + timestamp + "-"@ + crate::text::decimal(attempt) + ".log"@
    }
}

/// The name of archive attempt `attempt` (0 to 999) for a timestamp.
pub fn archived_log_file_name(file_stem: &str, timestamp: &str, attempt: usize) -> (r: String)
    ensures
        r@ == archived_name(file_stem@, timestamp@, attempt as nat),
{
    let mut s = owned(file_stem);
    push_str(&mut s, " ");
    push_str(&mut s, timestamp);
    if attempt > 0 {
        push_str(&mut s, "-");
        crate::text::push_decimal(&mut s, attempt);
    }
    push_str(&mut s, ".log");
    s
}

/// The error when no archive name is free.
pub fn archive_names_exhausted(file_stem: &str) -> (r: String)
    ensures
        r@ == "failed to find a unique archived log file name for '"@ + file_stem@ + "' after 1000 attempts"@,
{
    let mut s = owned("failed to find a unique archived log file name for '");
    push_str(&mut s, file_stem);
    push_str(&mut s, "' after 1000 attempts");
    s
}

/// The value of a `.env` assignment: a quoted value up to its closing
/// quote, otherwise the text before ` #` with trailing space removed.
pub open spec fn dotenv_value(v: Seq<char>) -> Seq<char> {
    if v.len() > 0 && v[0] == '"' && take_until(v.drop_first(), '"').len() < v.len() - 1 {
        take_until(v.drop_first(), '"')
    } else if v.len() > 0 && v[0] == '\'' && take_until(v.drop_first(), '\'').len() < v.len() - 1 {
        take_until(v.drop_first(), '\'')
    } else {
        match split_once(v, " #"@) {
            Some((before, _)) => trim_end(before),
            None => v,
        }
    }
}

/// The `RUST_LOG` value a `.env` line sets, if it sets one.
pub open spec fn dotenv_rust_log_of_line(line: Seq<char>) -> Option<Seq<char>> {
    let l = trim(line);
    if l.len() == 0 || l[0] == '#' {
        None
    } else {
        let l2 = trim_start(if has_prefix(l, "export "@) { l.skip(7) } else { l });
        match split_once(l2, seq!['=']) {
            Some((key, value)) => if trim(key) == "RUST_LOG"@ {
                Some(dotenv_value(trim(value)))
            } else {
                None
            },
            None => None,
        }
    }
}

/// The last non-empty `RUST_LOG` value the lines set.
pub open spec fn dotenv_rust_log_lines(ls: Seq<Seq<char>>) -> Option<Seq<char>>
    decreases ls.len(),
{
    if ls.len() == 0 {
        None
    } else {
        match dotenv_rust_log_of_line(ls.last()) {
            Some(v) => if v.len() > 0 {
                Some(v)
            } else {
                dotenv_rust_log_lines(ls.drop_last())
            },
            None => dotenv_rust_log_lines(ls.drop_last()),
        }
    }
}

/// The `RUST_LOG` value of a `.env` text: its last non-empty assignment.
pub open spec fn dotenv_rust_log(content: Seq<char>) -> Option<Seq<char>> {
    dotenv_rust_log_lines(lines(content))
}

/// Text that ends a line (or is empty) splits into lines independently of
/// what follows it.
proof fn lemma_lines_append(c: Seq<char>, d: Seq<char>)
    requires
        c.len() == 0 || c.last() == '\n',
    ensures
        lines(c + d) == lines(c) + lines(d),
    decreases c.len(),
{
    if c.len() == 0 {
        assert(c + d =~= d);
        assert(Seq::<Seq<char>>::empty() + lines(d) =~= lines(d));
    } else {
        let l = take_until(c, '\n');
        crate::text::lemma_take_until_len(c, '\n');
        if l.len() >= c.len() {
            assert(c[c.len() - 1] != '\n');
        }
        assert forall|j: int| 0 <= j < l.len() implies (c + d)[j] != '\n' by {
            assert((c + d)[j] == c[j]);
        }
        assert((c + d)[l.len() as int] == c[l.len() as int]);
        crate::text::lemma_take_until_is(c + d, '\n', l.len() as int);
        crate::text::lemma_take_until_len(c + d, '\n');
        let rest = c.skip(l.len() + 1int);
        assert((c + d).skip(l.len() + 1int) =~= rest + d);
        if rest.len() > 0 {
            assert(rest.last() == c.last());
        }
        lemma_lines_append(rest, d);
        assert(take_until(c + d, '\n') == l);
        assert(lines(c) == seq![crate::text::strip_cr(l)] + lines(rest));
        assert(lines(c + d) == seq![crate::text::strip_cr(l)] + lines(rest + d));
        assert(seq![crate::text::strip_cr(l)] + (lines(rest) + lines(d)) =~= (seq![crate::text::strip_cr(l)] + lines(rest)) + lines(d));
    }
}

/// An empty `RUST_LOG=` line neither sets nor clears the value: appending
/// one to a `.env` text (empty or ending in a newline) changes nothing.
pub proof fn lemma_empty_rust_log_line_ignored(c: Seq<char>)
    requires
        c.len() == 0 || c.last() == '\n',
    ensures
        dotenv_rust_log(c + "RUST_LOG=\n"@) == dotenv_rust_log(c),
{
    let line = "RUST_LOG=\n"@;
    let x = "RUST_LOG="@;
    reveal_strlit("RUST_LOG=\n");
    reveal_strlit("RUST_LOG=");
    reveal_strlit("RUST_LOG");
    reveal_strlit("export ");
    reveal_strlit("=");
    reveal_strlit(" #");
    lemma_lines_append(c, line);
    // the appended text is the single line `RUST_LOG=`
    crate::text::lemma_take_until_is(line, '\n', 9);
    assert(line.take(9) =~= x);
    assert(line.skip(10) =~= Seq::<char>::empty());
    assert(take_until(line, '\n') == x);
    assert(crate::text::strip_cr(x) == x);
    assert(lines(Seq::<char>::empty()) == Seq::<Seq<char>>::empty());
    assert(lines(line) == seq![x] + lines(line.skip(10)));
    assert(lines(line) =~= seq![x]);
    assert(lines(c) + seq![x] =~= lines(c).push(x));
    assert(lines(c).push(x).drop_last() =~= lines(c));
    // and that line assigns the empty value
    assert(trim_start(x) == x);
    assert(trim_end(x) == x);
    assert(x.take(7)[0] != "export "@[0]);
    assert(!has_prefix(x, "export "@));
    assert(trim_start(x) == x);
    reveal_with_fuel(crate::text::find_pattern_from, 10);
    assert(x.subrange(8, 9) =~= "="@);
    assert forall|i: int| 0 <= i < 8 implies #[trigger] x.subrange(i, i + 1) != "="@ by {
        assert(x.subrange(i, i + 1)[0] == x[i]);
    }
    assert(crate::text::find_pattern_from(x, "="@, 0) == Some(8int));
    let key = x.take(8);
    assert(key =~= "RUST_LOG"@);
    assert(trim_start(key) == key);
    assert(trim_end(key) == key);
    assert(x.skip(9) =~= Seq::<char>::empty());
    assert(trim_start(Seq::<char>::empty()) == Seq::<char>::empty());
    assert(trim_end(Seq::<char>::empty()) == Seq::<char>::empty());
    assert(crate::text::find_pattern_from(Seq::<char>::empty(), " #"@, 0) is None);
    assert(trim(Seq::<char>::empty()) == Seq::<char>::empty());
    assert(dotenv_value(Seq::<char>::empty()) == Seq::<char>::empty());
    assert(trim(x) == x);
    assert(seq!['='] =~= "="@);
    assert(split_once(x, seq!['=']) == Some((key, x.skip(9))));
    assert(trim(key) == "RUST_LOG"@);
    assert(dotenv_rust_log_of_line(x) == Some(Seq::<char>::empty()));
}

/// `export ` in front of an assignment changes nothing: the line
/// `export X` sets `RUST_LOG` exactly as the line `X` does (for `X` without
/// surrounding white space that is not itself a comment or an `export`).
pub proof fn lemma_export_prefix_ignored_in_line(x: Seq<char>)
    requires
        x.len() > 0,
        !crate::text::is_ws(x[0]),
        !crate::text::is_ws(x.last()),
        x[0] != '#',
        !has_prefix(x, "export "@),
    ensures
        dotenv_rust_log_of_line("export "@ + x) == dotenv_rust_log_of_line(x),
{
    reveal_strlit("export ");
    let line = "export "@ + x;
    assert(line[0] == 'e');
    assert(line.last() == x.last());
    assert(trim_start(line) == line);
    assert(trim_end(line) == line);
    assert(trim_start(x) == x);
    assert(trim_end(x) == x);
    assert(line.take(7) =~= "export "@);
    assert(has_prefix(line, "export "@));
    assert(line.skip(7) =~= x);
}

/// A single line without a newline, followed by one, reads as that line.
proof fn lemma_single_line(y: Seq<char>)
    requires
        forall|i: int| 0 <= i < y.len() ==> y[i] != '\n',
        y.len() > 0 ==> y.last() != '\r',
    ensures
        lines(y + "\n"@) == seq![y],
{
    reveal_strlit("\n");
    let t = y + "\n"@;
    assert forall|i: int| 0 <= i < y.len() implies t[i] != '\n' by {
        assert(t[i] == y[i]);
    }
    assert(t[y.len() as int] == '\n');
    crate::text::lemma_take_until_is(t, '\n', y.len() as int);
    assert(t.take(y.len() as int) =~= y);
    assert(t.skip(y.len() + 1int) =~= Seq::<char>::empty());
    assert(crate::text::strip_cr(y) == y);
    assert(lines(Seq::<char>::empty()) == Seq::<Seq<char>>::empty());
    assert(lines(t) == seq![crate::text::strip_cr(y)] + lines(t.skip(y.len() + 1int)));
    assert(lines(t) =~= seq![y]);
}

/// In a `.env` text, a last line `export X` gives the same `RUST_LOG` as a
/// last line `X`: the `export` prefix is stripped before the key is read.
#[verifier::spinoff_prover]
pub proof fn lemma_export_prefix_ignored(c: Seq<char>, x: Seq<char>)
    requires
        c.len() == 0 || c.last() == '\n',
        x.len() > 0,
        !crate::text::is_ws(x[0]),
        !crate::text::is_ws(x.last()),
        x[0] != '#',
        !has_prefix(x, "export "@),
        forall|i: int| 0 <= i < x.len() ==> x[i] != '\n',
    ensures
        dotenv_rust_log(c + ("export "@ + x) + "\n"@) == dotenv_rust_log(c + x + "\n"@),
{
    reveal_strlit("export ");
    let e = "export "@ + x;
    lemma_export_prefix_ignored_in_line(x);
    assert forall|i: int| 0 <= i < e.len() implies e[i] != '\n' by {
        if i >= 7 {
            assert(e[i] == x[i - 7]);
        }
    }
    assert(e.last() == x.last());
    lemma_single_line(x);
    lemma_single_line(e);
    lemma_lines_append(c, e + "\n"@);
    lemma_lines_append(c, x + "\n"@);
    assert(c + (e + "\n"@) =~= c + e + "\n"@);
    assert(c + (x + "\n"@) =~= c + x + "\n"@);
    let ls = lines(c);
    assert(ls + seq![e] =~= ls.push(e));
    assert(ls + seq![x] =~= ls.push(x));
    assert(ls.push(e).drop_last() =~= ls);
    assert(ls.push(x).drop_last() =~= ls);
}

/// The value of a `.env` assignment.
pub fn parse_dotenv_value(value: &Vec<char>) -> (r: Vec<char>)
    ensures
        r@ == dotenv_value(value@),
{
    if value.len() > 0 && (value[0] == '"' || value[0] == '\'') {
        let q = value[0];
        let e = crate::text::find_from(value, 1, q);
        assert(value@.skip(1) =~= value@.drop_first());
        proof {
            crate::text::lemma_take_until_len(value@.drop_first(), q);
        }
        if e < value.len() {
            return slice_of(value, 1, e);
        }
    }
    let pat = chars_of(" #");
    assert(value@.skip(0) =~= value@);
    match find_pattern(value, 0, &pat) {
        Some(i) => {
            let t = trimmed_end(value, i);
            t
        },
        None => slice_of(value, 0, value.len()),
    }
}

#[verifier::spinoff_prover]
#[verifier::rlimit(30)]
fn trimmed_end(v: &Vec<char>, hi: usize) -> (r: Vec<char>)
    requires
        hi <= v.len(),
    ensures
        r@ == trim_end(v@.take(hi as int)),
{
    let mut j = hi;
    assert(v@.take(hi as int).take(hi as int) =~= v@.take(hi as int));
    while j > 0 && is_whitespace(v[j - 1])
        invariant
            j <= hi <= v.len(),
            trim_end(v@.take(hi as int)) == trim_end(v@.take(j as int)),
        decreases j,
    {
        proof {
            crate::text::lemma_trim_end_take(v@, j as int);
        }
        j -= 1;
    }
    if j == 0 {
        assert(v@.take(0) =~= Seq::<char>::empty());
    }
    assert(v@.take(j as int) =~= v@.subrange(0, j as int));
    slice_of(v, 0, j)
}

fn rust_log_in_line(line: &Vec<char>) -> (r: Option<Vec<char>>)
    ensures
        match dotenv_rust_log_of_line(line@) {
            Some(v) => r matches Some(x) && x@ == v,
            None => r is None,
        },
{
    let l = trimmed(line, 0, line.len());
    assert(line@.subrange(0, line.len() as int) =~= line@);
    if l.len() == 0 || l[0] == '#' {
        return None;
    }
    let start = if starts_with(&l, "export ") {
        proof {
            reveal_strlit("export ");
        }
        7
    } else {
        0
    };
    let lo = trim_start_index(&l, start);
    let l2 = slice_of(&l, lo, l.len());
    assert(l2@ =~= trim_start(if has_prefix(l@, "export "@) { l@.skip(7) } else { l@ })) by {
        assert(l@.skip(lo as int) =~= l2@);
        if start == 0 {
            assert(l@.skip(0) =~= l@);
        }
    }
    let eq = vec!['='];
    assert(eq@ =~= seq!['=']);
    assert(l2@.skip(0) =~= l2@);
    match find_pattern(&l2, 0, &eq) {
        Some(i) => {
            let key = trimmed(&l2, 0, i);
            assert(l2@.subrange(0, i as int) =~= l2@.take(i as int));
            let key_s = string_of(&key, 0, key.len());
            assert(key@.subrange(0, key.len() as int) =~= key@);
            if str_eq(key_s.as_str(), "RUST_LOG") {
                let value = trimmed(&l2, i + 1, l2.len());
                assert(l2@.subrange(i + 1, l2.len() as int) =~= l2@.skip(i + eq@.len()));
                Some(parse_dotenv_value(&value))
            } else {
                None
            }
        },
        None => None,
    }
}

/// The `RUST_LOG` value a development `.env` text sets: the last non-empty
/// assignment, with or without `export`, quotes and a trailing comment removed.
pub fn parse_dotenv_rust_log(content: &str) -> (r: Option<String>)
    ensures
        match dotenv_rust_log(content@) {
            Some(v) => r matches Some(s) && s@ == v,
            None => r is None,
        },
{
    let chars = chars_of(content);
    let ls = split_lines(&chars);
    let mut found: Option<Vec<char>> = None;
    let mut i: usize = 0;
    while i < ls.len()
        invariant
            views(ls@) == lines(content@),
            i <= ls.len(),
            match dotenv_rust_log_lines(views(ls@).take(i as int)) {
                Some(v) => found matches Some(x) && x@ == v,
                None => found is None,
            },
        decreases ls.len() - i,
    {
        assert(views(ls@).take(i + 1).drop_last() =~= views(ls@).take(i as int));
        assert(views(ls@).take(i + 1).last() == ls@[i as int]@);
        match rust_log_in_line(&ls[i]) {
            Some(v) => {
                if v.len() > 0 {
                    found = Some(v);
                }
            },
            None => {},
        }
        i += 1;
    }
    assert(views(ls@).take(ls.len() as int) =~= views(ls@));
    match found {
        Some(v) => Some(string_of(&v, 0, v.len())),
        None => None,
    }
}

/// What the search for a development `.env` saw at one directory, from the
/// search directory up to the file system root.
#[derive(Debug, Clone, Copy)]
pub struct DotenvProbe {
    /// The directory holds `.git`: the repository root.
    pub has_git: bool,
    /// The directory holds a `.env` file.
    pub has_dotenv: bool,
}

/// The directory whose `.env` is used: the repository root's when it has
/// one, else the nearest below it that has one; directories above the
/// repository root are not looked at.
pub open spec fn dotenv_choice(ps: Seq<DotenvProbe>, fallback: Option<int>, i: int) -> Option<int>
    decreases ps.len() - i,
{
    if i < 0 || i >= ps.len() {
        fallback
    } else if ps[i].has_git {
        if ps[i].has_dotenv {
            Some(i)
        } else {
            fallback
        }
    } else {
        dotenv_choice(ps, if fallback is None && ps[i].has_dotenv { Some(i) } else { fallback }, i + 1)
    }
}

/// Which of the probed directories supplies the development `.env`.
pub fn choose_dotenv_dir(probes: &Vec<DotenvProbe>) -> (r: Option<usize>)
    ensures
        match dotenv_choice(probes@, None, 0) {
            Some(k) => r == Some(k as usize) && k < probes@.len(),
            None => r is None,
        },
{
    let mut fallback: Option<usize> = None;
    let mut i: usize = 0;
    while i < probes.len()
        invariant
            i <= probes@.len(),
            fallback matches Some(k) ==> k < i,
            dotenv_choice(probes@, None, 0) == dotenv_choice(
                probes@,
                match fallback {
                    Some(k) => Some(k as int),
                    None => None,
                },
                i as int,
            ),
        decreases probes.len() - i,
    {
        let p = probes[i];
        if p.has_git {
            if p.has_dotenv {
                return Some(i);
            }
            return fallback;
        }
        if fallback.is_none() && p.has_dotenv {
            fallback = Some(i);
        }
        i += 1;
    }
    fallback
}

/// Where the session log goes.
#[derive(Debug, Clone)]
pub enum LogFileTarget {
    /// A file at this path.
    Path(String),
    /// The app's latest log in this directory.
    InDirectory { dir: String, file_name: String },
}

/// The session log's location: none for standard error, the configured
/// file, or the latest log in the configured directory; the default policy
/// uses `WRAC_LOG_DIR` when it is set, then the debug directory in debug
/// builds or the platform directory in release builds.
pub open spec fn log_target(
    config: LogConfig,
    env_log_dir: Option<Seq<char>>,
    debug_build: bool,
    platform_dir: Option<Seq<char>>,
) -> Option<(Option<Seq<char>>, Seq<char>)> {
    let name = latest_name(file_stem_of(config.app_name@));
    match config.output {
        LogOutput::Stderr => None,
        LogOutput::File(p) => Some((None, p@)),
        LogOutput::Directory(d) => Some((Some(d@), name)),
        LogOutput::DefaultPluginLogDir { debug_log_dir } => match env_log_dir {
            Some(d) => Some((Some(d), name)),
            None => if debug_build {
                match debug_log_dir {
                    Some(d) => Some((Some(d@), name)),
                    None => None,
                }
            } else {
                match platform_dir {
                    Some(d) => Some((Some(d), name)),
                    None => None,
                }
            },
        },
    }
}

/// The operating system whose log directory convention applies.
#[derive(Debug, Clone, Copy, PartialEq, Eq, Structural)]
pub enum LogPlatform {
    Macos,
    Windows,
    Linux,
    Other,
}

/// The path components of the release log directory of `app`, from the
/// environment values: `$HOME/Library/Logs/NovoNotes/<app>` on macOS,
/// `%LOCALAPPDATA%/NovoNotes/Logs/<app>` on Windows, and on Linux
/// `$XDG_DATA_HOME` (else `$HOME/.local/share`) then `NovoNotes/logs/<app>`.
pub open spec fn release_log_dir_parts(
    platform: LogPlatform,
    home: Option<Seq<char>>,
    local_app_data: Option<Seq<char>>,
    xdg_data_home: Option<Seq<char>>,
    app: Seq<char>,
) -> Option<Seq<Seq<char>>> {
    match platform {
        LogPlatform::Macos => match home {
            Some(h) => Some(seq![h, "Library"@, "Logs"@, "NovoNotes"@, app]),
            None => None,
        },
        LogPlatform::Windows => match local_app_data {
            Some(l) => Some(seq![l, "NovoNotes"@, "Logs"@, app]),
            None => None,
        },
        LogPlatform::Linux => match xdg_data_home {
            Some(x) => Some(seq![x, "NovoNotes"@, "logs"@, app]),
            None => match home {
                Some(h) => Some(seq![h, ".local/share"@, "NovoNotes"@, "logs"@, app]),
                None => None,
            },
        },
        LogPlatform::Other => None,
    }
}

/// The release-build log directory of `app_name`, as path components to
/// join, from the environment values the program read (`HOME`,
/// `LOCALAPPDATA`, `XDG_DATA_HOME`); `None` when the needed value is unset
/// or the platform has no convention.
pub fn resolve_release_log_dir(
    platform: LogPlatform,
    home: Option<&str>,
    local_app_data: Option<&str>,
    xdg_data_home: Option<&str>,
    app_name: &str,
) -> (r: Option<Vec<String>>)
    ensures
        match release_log_dir_parts(
            platform,
            match home {
                Some(h) => Some(h@),
                None => None,
            },
            match local_app_data {
                Some(l) => Some(l@),
                None => None,
            },
            match xdg_data_home {
                Some(x) => Some(x@),
                None => None,
            },
            app_name@,
        ) {
            Some(parts) => r matches Some(v) && string_views(v@) == parts,
            None => r is None,
        },
{
    let mut parts: Vec<String> = Vec::new();
    match platform {
        LogPlatform::Macos => {
            match home {
                Some(h) => parts.push(owned(h)),
                None => return None,
            }
            parts.push(owned("Library"));
            parts.push(owned("Logs"));
            parts.push(owned("NovoNotes"));
        },
        LogPlatform::Windows => {
            match local_app_data {
                Some(l) => parts.push(owned(l)),
                None => return None,
            }
            parts.push(owned("NovoNotes"));
            parts.push(owned("Logs"));
        },
        LogPlatform::Linux => {
            match xdg_data_home {
                Some(x) => parts.push(owned(x)),
                None => match home {
                    Some(h) => {
                        parts.push(owned(h));
                        parts.push(owned(".local/share"));
                    },
                    None => return None,
                },
            }
            parts.push(owned("NovoNotes"));
            parts.push(owned("logs"));
        },
        LogPlatform::Other => return None,
    }
    parts.push(owned(app_name));
    proof {
        let expected = release_log_dir_parts(
            platform,
            match home {
                Some(h) => Some(h@),
                None => None,
            },
            match local_app_data {
                Some(l) => Some(l@),
                None => None,
            },
            match xdg_data_home {
                Some(x) => Some(x@),
                None => None,
            },
            app_name@,
        );
        assert(string_views(parts@) =~= expected->0);
    }
    Some(parts)
}

/// The view of a log target.
pub open spec fn target_view(t: LogFileTarget) -> (Option<Seq<char>>, Seq<char>) {
    match t {
        LogFileTarget::Path(p) => (None, p@),
        LogFileTarget::InDirectory { dir, file_name } => (Some(dir@), file_name@),
    }
}

fn in_directory(dir: &str, app_name: &str) -> (r: LogFileTarget)
    ensures
        target_view(r) == (Some(dir@), latest_name(file_stem_of(app_name@))),
{
    let stem = log_file_stem(app_name);
    LogFileTarget::InDirectory { dir: owned(dir), file_name: latest_log_file_name(stem.as_str()) }
}

/// Where the session log of `config` goes; `env_log_dir` is `WRAC_LOG_DIR`
/// and `platform_dir` the platform's log directory for the app.
pub fn resolve_log_file_path(
    config: &LogConfig,
    env_log_dir: Option<&str>,
    debug_build: bool,
    platform_dir: Option<&str>,
) -> (r: Option<LogFileTarget>)
    ensures
        match log_target(
            *config,
            match env_log_dir {
                Some(d) => Some(d@),
                None => None,
            },
            debug_build,
            match platform_dir {
                Some(d) => Some(d@),
                None => None,
            },
        ) {
            Some(t) => r matches Some(x) && target_view(x) == t,
            None => r is None,
        },
{
    match config.output {
        LogOutput::Stderr => None,
        LogOutput::File(p) => Some(LogFileTarget::Path(owned(p))),
        LogOutput::Directory(d) => Some(in_directory(d, config.app_name)),
        LogOutput::DefaultPluginLogDir { debug_log_dir } => match env_log_dir {
            Some(d) => Some(in_directory(d, config.app_name)),
            None => {
                if debug_build {
                    match debug_log_dir {
                        Some(d) => Some(in_directory(d, config.app_name)),
                        None => None,
                    }
                } else {
                    match platform_dir {
                        Some(d) => Some(in_directory(d, config.app_name)),
                        None => None,
                    }
                }
            },
        },
    }
}

/// The app's file stem when a log file is the app's latest log.
pub open spec fn stem_of_latest(name: Seq<char>) -> Option<Seq<char>> {
    if has_suffix(name, " Latest.log"@) {
        Some(name.take(name.len() - " Latest.log"@.len()))
    } else {
        None
    }
}

/// The app's file stem when `file_name` is an app's latest log.
pub fn latest_log_stem(file_name: &str) -> (r: Option<String>)
    ensures
        match stem_of_latest(file_name@) {
            Some(s) => r matches Some(x) && x@ == s,
            None => r is None,
        },
{
    let v = chars_of(file_name);
    if ends_with(&v, " Latest.log") {
        let suffix = chars_of(" Latest.log");
        let n = v.len() - suffix.len();
        assert(v@.subrange(0, n as int) =~= v@.take(n as int));
        Some(string_of(&v, 0, n))
    } else {
        None
    }
}

/// The filter applied when `RUST_LOG` is not set.
#[derive(Debug, Clone, Copy, PartialEq, Eq, Structural)]
pub enum LevelFilter {
    Off,
    Error,
    Warn,
    Info,
    Debug,
    Trace,
}

/// Debug builds log at debug level by default, release builds at info.
pub fn default_level_filter(debug_build: bool) -> (r: LevelFilter)
    ensures
        r == (if debug_build { LevelFilter::Debug } else { LevelFilter::Info }),
{
    if debug_build {
        LevelFilter::Debug
    } else {
        LevelFilter::Info
    }
}


/// Whether `c` separates path components: `/`, and on Windows also `\\`.
pub open spec fn is_path_separator(c: char, windows: bool) -> bool {
    c == '/' || (windows && c == '\\')
}

/// The index of the last separator of `p`.
pub open spec fn last_separator(p: Seq<char>, windows: bool) -> Option<int>
    decreases p.len(),
{
    if p.len() == 0 {
        None
    } else if is_path_separator(p.last(), windows) {
        Some(p.len() - 1)
    } else {
        last_separator(p.drop_last(), windows)
    }
}

/// Whether the text before a separator makes that separator the root: it is
/// empty, or on Windows it ends in a drive's `:`.
pub open spec fn is_root_prefix(before: Seq<char>, windows: bool) -> bool {
    before.len() == 0 || (windows && before.len() >= 2 && before.last() == ':')
}

/// The parent directory of a log file path, as `Path::parent` gives it for
/// paths without trailing separators or `.` components (as a canonical log
/// path is): the text before the last separator, keeping a root separator;
/// the empty path for a bare file name; none for a root or an empty path.
pub open spec fn path_parent(p: Seq<char>, windows: bool) -> Option<Seq<char>> {
    match last_separator(p, windows) {
        None => if p.len() == 0 {
            None
        } else {
            Some(Seq::<char>::empty())
        },
        Some(k) => if is_root_prefix(p.take(k), windows) {
            if k + 1 == p.len() {
                None
            } else {
                Some(p.take(k + 1))
            }
        } else {
            Some(p.take(k))
        },
    }
}

/// The text of an optional string.
pub open spec fn opt_text(o: Option<String>) -> Option<Seq<char>> {
    match o {
        Some(s) => Some(s@),
        None => None,
    }
}

/// The parent of an optional log file.
pub open spec fn parent_of_log(f: Option<String>, windows: bool) -> Option<Seq<char>> {
    match f {
        Some(x) => path_parent(x@, windows),
        None => None,
    }
}

proof fn lemma_last_separator(p: Seq<char>, windows: bool, i: int)
    requires
        0 <= i <= p.len(),
        forall|j: int| i <= j < p.len() ==> !is_path_separator(#[trigger] p[j], windows),
    ensures
        last_separator(p, windows) == last_separator(p.take(i), windows),
    decreases p.len() - i,
{
    if i < p.len() {
        assert(p.drop_last().take(i) =~= p.take(i));
        lemma_last_separator(p.drop_last(), windows, i);
    } else {
        assert(p.take(i) =~= p);
    }
}

/// The parent directory of a log file path (see `path_parent`).
pub fn log_file_parent(path: &str, windows: bool) -> (r: Option<String>)
    ensures
        opt_text(r) == path_parent(path@, windows),
{
    let v = chars_of(path);
    let mut i = v.len();
    while i > 0 && !(v[i - 1] == '/' || (windows && v[i - 1] == '\\'))
        invariant
            i <= v.len(),
            v@ == path@,
            forall|j: int| i <= j < v@.len() ==> !is_path_separator(#[trigger] v@[j], windows),
        decreases i,
    {
        i -= 1;
    }
    proof {
        lemma_last_separator(v@, windows, i as int);
        if i > 0 {
            assert(v@.take(i as int).drop_last() =~= v@.take(i - 1));
        } else {
            assert(v@.take(0) =~= Seq::<char>::empty());
        }
    }
    if i == 0 {
        if v.len() == 0 {
            return None;
        }
        return Some(String::new());
    }
    let k = i - 1;
    let root = k == 0 || (windows && k >= 2 && v[k - 1] == ':');
    proof {
        assert(v@.take(k as int).len() == k);
        if k > 0 {
            assert(v@.take(k as int).last() == v@[k - 1]);
        }
        assert(v@.subrange(0, k as int) =~= v@.take(k as int));
        assert(v@.subrange(0, k + 1) =~= v@.take(k + 1));
    }
    if root {
        if k + 1 == v.len() {
            None
        } else {
            Some(string_of(&v, 0, k + 1))
        }
    } else {
        Some(string_of(&v, 0, k))
    }
}

/// The recorded directory is the parent of the recorded log file; while
/// logging goes to stderr (or before anything is recorded) both are absent.
pub proof fn lemma_log_dir_is_parent_of_log_file(paths: CurrentLogPaths)
    requires
        paths.consistent(),
    ensures
        opt_text(paths.dir_result()) == parent_of_log(paths.file_result(), paths.windows()),
        paths.file_result() is None ==> paths.dir_result() is None,
{
}

/// The session log file and its directory, recorded once when logging
/// starts; later records change nothing.
pub struct CurrentLogPaths {
    windows: bool,
    file: Option<Option<String>>,
    dir: Option<Option<String>>,
}

impl CurrentLogPaths {
    pub closed spec fn recorded_file(&self) -> Option<Option<String>> {
        self.file
    }

    pub closed spec fn recorded_dir(&self) -> Option<Option<String>> {
        self.dir
    }

    /// Whether paths use Windows separators.
    pub closed spec fn windows(&self) -> bool {
        self.windows
    }

    /// The file and its directory are recorded together, and the directory
    /// is the file's parent (none for logging to stderr).
    pub open spec fn consistent(&self) -> bool {
        &&& (self.recorded_file() is None <==> self.recorded_dir() is None)
        &&& (self.recorded_file() matches Some(f) ==> (self.recorded_dir() matches Some(d) && opt_text(d)
            == parent_of_log(f, self.windows())))
    }

    /// The directory `current_log_dir` reports.
    pub open spec fn dir_result(&self) -> Option<String> {
        match self.recorded_dir() {
            Some(d) => d,
            None => None,
        }
    }

    /// The file `current_log_file` reports.
    pub open spec fn file_result(&self) -> Option<String> {
        match self.recorded_file() {
            Some(f) => f,
            None => None,
        }
    }

    /// Nothing recorded yet; `windows` says how paths are separated.
    pub fn new(windows: bool) -> (r: CurrentLogPaths)
        ensures
            r.consistent(),
            r.windows() == windows,
            r.recorded_file() is None,
            r.recorded_dir() is None,
    {
        CurrentLogPaths { windows, file: None, dir: None }
    }

    /// Records the session log file (none when logging goes to stderr) and
    /// its parent directory, unless they were recorded before.
    pub fn record_current_log_paths(&mut self, log_file: Option<String>)
        requires
            old(self).consistent(),
        ensures
            final(self).consistent(),
            final(self).windows() == old(self).windows(),
            old(self).recorded_file() is None ==> final(self).recorded_file() == Some(log_file),
            old(self).recorded_file() is Some ==> *final(self) == *old(self),
    {
        if self.file.is_some() {
            return;
        }
        let dir = match &log_file {
            Some(f) => log_file_parent(f.as_str(), self.windows),
            None => None,
        };
        self.file = Some(log_file);
        self.dir = Some(dir);
    }

    /// The directory of the session log, when logging writes to a file.
    pub fn current_log_dir(&self) -> (r: Option<String>)
        ensures
            r == self.dir_result(),
    {
        match &self.dir {
            Some(d) => match d {
                Some(s) => Some(s.clone()),
                None => None,
            },
            None => None,
        }
    }

    /// The session log file, when logging writes to a file.
    pub fn current_log_file(&self) -> (r: Option<String>)
        ensures
            r == self.file_result(),
    {
        match &self.file {
            Some(f) => match f {
                Some(s) => Some(s.clone()),
                None => None,
            },
            None => None,
        }
    }
}

} // verus!
