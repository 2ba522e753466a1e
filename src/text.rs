use vstd::prelude::*;

verus! {

/// The concatenation of `lines[a..b]` (empty when `b <= a`).
pub open spec fn join_range(lines: Seq<Seq<char>>, a: int, b: int) -> Seq<char>
    decreases b - a,
{
    if b <= a {
        Seq::empty()
    } else {
        join_range(lines, a, b - 1) + lines[b - 1]
    }
}

/// The concatenation of all of `lines`.
pub open spec fn join(lines: Seq<Seq<char>>) -> Seq<char> {
    join_range(lines, 0, lines.len() as int)
}

/// The lines of `s` from index `i` on, where `cur` holds the part of the
/// current line already read. Each line keeps its `'\n'`; a last line without
/// one is kept as it is; an empty text has no lines.
pub open spec fn lines_from(s: Seq<char>, i: int, cur: Seq<char>) -> Seq<Seq<char>>
    decreases s.len() - i,
{
    if i >= s.len() {
        if cur.len() == 0 {
            Seq::empty()
        } else {
            seq![cur]
        }
    } else if s[i] == '\n' {
        seq![cur.push('\n')] + lines_from(s, i + 1, Seq::empty())
    } else {
        lines_from(s, i + 1, cur.push(s[i]))
    }
}

/// The lines of `s`, each with its line terminator: the tokens that
/// imara-diff's `sources::lines` gives, over which line diffs are taken.
pub open spec fn split_lines(s: Seq<char>) -> Seq<Seq<char>> {
    lines_from(s, 0, Seq::empty())
}

/// The views of a vector of strings.
pub open spec fn strings_view(v: Seq<String>) -> Seq<Seq<char>> {
    v.map_values(|s: String| s@)
}

/// `s` followed by a `'\n'` unless it is empty or already ends with one.
pub open spec fn newline_terminated(s: Seq<char>) -> Seq<char> {
    if s.len() > 0 && s.last() != '\n' {
        s.push('\n')
    } else {
        s
    }
}

/// Relies on `String::push`: appends one character.
#[verifier::external_body]
pub(crate) fn push_char(s: &mut String, c: char)
    ensures
        final(s)@ == old(s)@.push(c),
{
    s.push(c)
}

/// Relies on `str::ends_with` with a `char` pattern, which looks at the end
/// of the text only; it is asked of a growing output after each conflict.
#[verifier::external_body]
pub(crate) fn ends_with_char(s: &str, c: char) -> (r: bool)
    ensures
        r == (s@.len() > 0 && s@.last() == c),
{
    s.ends_with(c)
}

/// Copies the characters of `s` into a vector.
pub fn chars_of(s: &str) -> (r: Vec<char>)
    ensures
        r@ == s@,
{
    let mut r: Vec<char> = Vec::new();
    for c in it: s.chars()
        invariant
            r@ == it.seq().take(it.index() as int),
    {
        r.push(c);
    }
    r
}

/// Whether `a` and `b` hold the same characters.
pub fn same_text(a: &str, b: &str) -> (r: bool)
    ensures
        r == (a@ == b@),
{
    let x = chars_of(a);
    let y = chars_of(b);
    if x.len() != y.len() {
        return false;
    }
    let mut i: usize = 0;
    while i < x.len()
        invariant
            x.len() == y.len(),
            x@ == a@,
            y@ == b@,
            i <= x.len(),
            forall|k: int| 0 <= k < i ==> x@[k] == y@[k],
        decreases x.len() - i,
    {
        if x[i] != y[i] {
            return false;
        }
        i = i + 1;
    }
    assert(x@ =~= y@);
    true
}

/// Appends a newline to `buf` unless it is empty or already ends with one.
pub fn ensure_newline(buf: &mut String)
    ensures
        final(buf)@ == newline_terminated(old(buf)@),
{
    if !buf.as_str().is_empty() && !ends_with_char(buf.as_str(), '\n') {
        push_char(buf, '\n');
    }
}

/// Appends `lines[a..b]` to `out`.
pub fn append_lines(out: &mut String, lines: &Vec<String>, a: usize, b: usize)
    requires
        b <= lines.len(),
    ensures
        final(out)@ == old(out)@ + join_range(strings_view(lines@), a as int, b as int),
{
    let ghost lv = strings_view(lines@);
    let mut i: usize = a;
    while i < b
        invariant
            b <= lines.len(),
            a <= b ==> a <= i <= b,
            a > b ==> i == a,
            lv == strings_view(lines@),
            out@ == old(out)@ + join_range(lv, a as int, if a <= b { i as int } else { a as int }),
        decreases b - i,
    {
        let ghost before = out@;
        out.append(lines[i].as_str());
        assert(join_range(lv, a as int, i + 1) == join_range(lv, a as int, i as int) + lv[i as int]);
        assert(out@ == before + lv[i as int]);
        i = i + 1;
    }
}

/// Splits `s` into lines, each with its `'\n'`; the last line may lack one.
pub fn lines_of(s: &str) -> (r: Vec<String>)
    ensures
        strings_view(r@) == split_lines(s@),
{
    let chars = chars_of(s);
    let mut r: Vec<String> = Vec::new();
    let mut cur = String::new();
    let mut i: usize = 0;
    while i < chars.len()
        invariant
            chars@ == s@,
            i <= chars.len(),
            strings_view(r@) + lines_from(s@, i as int, cur@) == split_lines(s@),
        decreases chars.len() - i,
    {
        let c = chars[i];
        let ghost old_cur = cur@;
        if c == '\n' {
            push_char(&mut cur, c);
            let ghost prev = strings_view(r@);
            let ghost line = cur@;
            r.push(cur);
            assert(strings_view(r@) == prev.push(line));
            assert(lines_from(s@, i as int, old_cur) == seq![line] + lines_from(s@, i + 1, Seq::empty()));
            assert(prev.push(line) == prev + seq![line]);
            cur = String::new();
        } else {
            push_char(&mut cur, c);
        }
        i = i + 1;
    }
    if !cur.as_str().is_empty() {
        r.push(cur);
    }
    r
}


/// Unicode's White_Space property, which `char::is_whitespace` tests.
pub open spec fn is_ws(c: char) -> bool {
    ('\u{9}' <= c <= '\u{d}') || c == ' ' || c == '\u{85}' || c == '\u{a0}' || c == '\u{1680}'
        || ('\u{2000}' <= c <= '\u{200a}') || c == '\u{2028}' || c == '\u{2029}' || c == '\u{202f}'
        || c == '\u{205f}' || c == '\u{3000}'
}

/// Whether `c` is white space in Unicode's sense.
pub fn is_whitespace(c: char) -> (r: bool)
    ensures
        r == is_ws(c),
{
    ('\u{9}' <= c && c <= '\u{d}') || c == ' ' || c == '\u{85}' || c == '\u{a0}' || c == '\u{1680}'
        || ('\u{2000}' <= c && c <= '\u{200a}') || c == '\u{2028}' || c == '\u{2029}' || c
        == '\u{202f}' || c == '\u{205f}' || c == '\u{3000}'
}

/// The index of the first character at or after `i` that differs from `c`.
pub open spec fn run_end(s: Seq<char>, i: int, c: char) -> int
    decreases s.len() - i,
{
    if 0 <= i < s.len() && s[i] == c {
        run_end(s, i + 1, c)
    } else {
        i
    }
}

/// The index of the first character at or after `i` that is not white space.
pub open spec fn ws_end(s: Seq<char>, i: int) -> int
    decreases s.len() - i,
{
    if 0 <= i < s.len() && is_ws(s[i]) {
        ws_end(s, i + 1)
    } else {
        i
    }
}

/// Every character of `s` is white space.
pub open spec fn all_ws(s: Seq<char>) -> bool {
    forall|i: int| 0 <= i < s.len() ==> is_ws(#[trigger] s[i])
}

/// `s` without its leading white space.
pub open spec fn trim_start(s: Seq<char>) -> Seq<char> {
    s.skip(ws_end(s, 0))
}

/// The end of the run of copies of `c` in `s` from `i`.
pub fn scan_run(s: &Vec<char>, i: usize, c: char) -> (r: usize)
    requires
        i <= s.len(),
    ensures
        r == run_end(s@, i as int, c),
        i <= r <= s.len(),
{
    let mut j = i;
    while j < s.len() && s[j] == c
        invariant
            i <= j <= s.len(),
            run_end(s@, j as int, c) == run_end(s@, i as int, c),
        decreases s.len() - j,
    {
        j = j + 1;
    }
    j
}

/// The end of the run of white space in `s` from `i`.
pub fn scan_ws(s: &Vec<char>, i: usize) -> (r: usize)
    requires
        i <= s.len(),
    ensures
        r == ws_end(s@, i as int),
        i <= r <= s.len(),
{
    let mut j = i;
    while j < s.len() && is_whitespace(s[j])
        invariant
            i <= j <= s.len(),
            ws_end(s@, j as int) == ws_end(s@, i as int),
        decreases s.len() - j,
    {
        j = j + 1;
    }
    j
}


/// Relies on `String`'s `FromIterator<char>`: the characters in order.
#[verifier::external_body]
pub(crate) fn string_of(v: &Vec<char>) -> (r: String)
    ensures
        r@ == v@,
{
    v.iter().collect()
}

/// The index just past the last character before `j` that is not white space.
pub open spec fn ws_back(s: Seq<char>, j: int) -> int
    decreases j,
{
    if 0 < j <= s.len() && is_ws(s[j - 1]) {
        ws_back(s, j - 1)
    } else {
        j
    }
}

/// `s` without leading and trailing white space.
pub open spec fn trim(s: Seq<char>) -> Seq<char> {
    let a = ws_end(s, 0);
    let b = ws_back(s, s.len() as int);
    if a < b {
        s.subrange(a, b)
    } else {
        Seq::empty()
    }
}

/// `v[a..b]` as a new vector.
pub fn slice_chars(v: &Vec<char>, a: usize, b: usize) -> (r: Vec<char>)
    requires
        a <= b <= v.len(),
    ensures
        r@ == v@.subrange(a as int, b as int),
{
    let mut r: Vec<char> = Vec::new();
    let mut i = a;
    while i < b
        invariant
            a <= i <= b <= v.len(),
            r@ == v@.subrange(a as int, i as int),
        decreases b - i,
    {
        r.push(v[i]);
        assert(v@.subrange(a as int, i + 1) =~= v@.subrange(a as int, i as int).push(v@[i as int]));
        i = i + 1;
    }
    r
}

/// `v` without leading and trailing white space.
pub fn trim_chars(v: &Vec<char>) -> (r: Vec<char>)
    ensures
        r@ == trim(v@),
{
    let a = scan_ws(v, 0);
    let mut b = v.len();
    while b > 0 && is_whitespace(v[b - 1])
        invariant
            b <= v.len(),
            ws_back(v@, b as int) == ws_back(v@, v.len() as int),
        decreases b,
    {
        b = b - 1;
    }
    if a < b {
        slice_chars(v, a, b)
    } else {
        Vec::new()
    }
}

/// Whether `s` starts with `p`.
pub open spec fn starts_with(s: Seq<char>, p: Seq<char>) -> bool {
    p.len() <= s.len() && s.subrange(0, p.len() as int) == p
}

/// Whether `s` ends with `p`.
pub open spec fn ends_with(s: Seq<char>, p: Seq<char>) -> bool {
    p.len() <= s.len() && s.subrange(s.len() - p.len(), s.len() as int) == p
}

/// Whether `v[at..]` starts with `p`.
pub fn matches_at(v: &Vec<char>, at: usize, p: &Vec<char>) -> (r: bool)
    requires
        at <= v.len(),
    ensures
        r == starts_with(v@.skip(at as int), p@),
{
    if p.len() > v.len() - at {
        return false;
    }
    let mut i: usize = 0;
    while i < p.len()
        invariant
            at + p.len() <= v.len(),
            i <= p.len(),
            forall|k: int| 0 <= k < i ==> v@[at + k] == p@[k],
        decreases p.len() - i,
    {
        if v[at + i] != p[i] {
            assert(v@.skip(at as int).subrange(0, p.len() as int)[i as int] != p@[i as int]);
            return false;
        }
        i = i + 1;
    }
    assert(v@.skip(at as int).subrange(0, p.len() as int) =~= p@);
    true
}

/// The parts of `s` between `sep` characters, as `str::split` gives them.
pub open spec fn split_on(s: Seq<char>, sep: char) -> Seq<Seq<char>> {
    split_from(s, sep, 0, Seq::empty())
}

/// The parts of `s` from `i` on, `cur` holding what was read of the current one.
pub open spec fn split_from(s: Seq<char>, sep: char, i: int, cur: Seq<char>) -> Seq<Seq<char>>
    decreases s.len() - i,
{
    if i >= s.len() {
        seq![cur]
    } else if s[i] == sep {
        seq![cur] + split_from(s, sep, i + 1, Seq::empty())
    } else {
        split_from(s, sep, i + 1, cur.push(s[i]))
    }
}

/// Splits `v` at every `sep`, keeping empty parts.
pub fn split_chars(v: &Vec<char>, sep: char) -> (r: Vec<Vec<char>>)
    ensures
        r@.map_values(|x: Vec<char>| x@) == split_on(v@, sep),
{
    let mut r: Vec<Vec<char>> = Vec::new();
    let mut cur: Vec<char> = Vec::new();
    let mut i: usize = 0;
    while i < v.len()
        invariant
            i <= v.len(),
            r@.map_values(|x: Vec<char>| x@) + split_from(v@, sep, i as int, cur@) == split_on(v@, sep),
        decreases v.len() - i,
    {
        let c = v[i];
        if c == sep {
            let ghost prev = r@.map_values(|x: Vec<char>| x@);
            let ghost part = cur@;
            r.push(cur);
            assert(r@.map_values(|x: Vec<char>| x@) =~= prev.push(part));
            assert(prev.push(part) == prev + seq![part]);
            cur = Vec::new();
        } else {
            cur.push(c);
        }
        i = i + 1;
    }
    let ghost prev = r@.map_values(|x: Vec<char>| x@);
    let ghost part = cur@;
    r.push(cur);
    assert(r@.map_values(|x: Vec<char>| x@) =~= prev.push(part));
    assert(prev.push(part) == prev + seq![part]);
    r
}

} // verus!
