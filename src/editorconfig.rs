use vstd::prelude::*;

use crate::format::{EndOfLine, FormatOptions};
use crate::text::{
    chars_of, ends_with, matches_at, slice_chars, split_chars, split_on, starts_with, string_of, strings_view, trim, trim_chars,
};

verus! {

/// `a` and `b` are the same letter up to ASCII case, or the same character.
pub open spec fn same_ignoring_case(a: char, b: char) -> bool {
    a == b || ('A' <= a <= 'Z' && (a as u32) + 32 == (b as u32)) || ('A' <= b <= 'Z' && (b as u32) + 32
        == (a as u32))
}

/// `s` and `t` are equal up to ASCII case.
pub open spec fn eq_ignore_case(s: Seq<char>, t: Seq<char>) -> bool {
    s.len() == t.len() && forall|i: int| 0 <= i < s.len() ==> same_ignoring_case(#[trigger] s[i], t[i])
}

/// Whether `s` equals `lit` up to ASCII case.
pub(crate) fn eq_ignore_ascii_case(s: &Vec<char>, lit: &str) -> (r: bool)
    ensures
        r == eq_ignore_case(s@, lit@),
{
    let t = chars_of(lit);
    if s.len() != t.len() {
        return false;
    }
    let mut i: usize = 0;
    while i < s.len()
        invariant
            s.len() == t.len(),
            t@ == lit@,
            i <= s.len(),
            forall|k: int| 0 <= k < i ==> same_ignoring_case(#[trigger] s@[k], t@[k]),
        decreases s.len() - i,
    {
        let a = s[i];
        let b = t[i];
        let same = a == b || ('A' <= a && a <= 'Z' && (a as u32) + 32 == (b as u32)) || ('A' <= b && b
            <= 'Z' && (b as u32) + 32 == (a as u32));
        if !same {
            return false;
        }
        i = i + 1;
    }
    true
}

/// An editorconfig boolean: `true` or `false` in any case.
pub open spec fn bool_spec(v: Seq<char>) -> Option<bool> {
    if eq_ignore_case(v, "true"@) {
        Some(true)
    } else if eq_ignore_case(v, "false"@) {
        Some(false)
    } else {
        None
    }
}

/// An editorconfig line terminator: `lf` or `crlf` in any case.
pub open spec fn eol_spec(v: Seq<char>) -> Option<EndOfLine> {
    if eq_ignore_case(v, "lf"@) {
        Some(EndOfLine::Lf)
    } else if eq_ignore_case(v, "crlf"@) {
        Some(EndOfLine::CrLf)
    } else {
        None
    }
}

/// Reads an editorconfig boolean.
pub fn parse_bool(value: &Vec<char>) -> (r: Option<bool>)
    ensures
        r == bool_spec(value@),
{
    if eq_ignore_ascii_case(value, "true") {
        Some(true)
    } else if eq_ignore_ascii_case(value, "false") {
        Some(false)
    } else {
        None
    }
}

/// Reads an editorconfig line terminator.
pub fn parse_eol(value: &Vec<char>) -> (r: Option<EndOfLine>)
    ensures
        r == eol_spec(value@),
{
    if eq_ignore_ascii_case(value, "lf") {
        Some(EndOfLine::Lf)
    } else if eq_ignore_ascii_case(value, "crlf") {
        Some(EndOfLine::CrLf)
    } else {
        None
    }
}

/// The index of the first `c` in `s` at or after `i`.
pub open spec fn index_from(s: Seq<char>, c: char, i: int) -> Option<int>
    decreases s.len() - i,
{
    if i < 0 || i >= s.len() {
        None
    } else if s[i] == c {
        Some(i)
    } else {
        index_from(s, c, i + 1)
    }
}

/// The index of the first `c` in `s`.
pub open spec fn first_index(s: Seq<char>, c: char) -> Option<int> {
    index_from(s, c, 0)
}

/// Finds the first `c` in `s`.
fn find_char(s: &Vec<char>, c: char) -> (r: Option<usize>)
    ensures
        r matches Some(i) ==> i < s.len() && first_index(s@, c) == Some(i as int),
        r is None ==> first_index(s@, c) is None,
{
    let mut i: usize = 0;
    while i < s.len()
        invariant
            i <= s.len(),
            index_from(s@, c, i as int) == index_from(s@, c, 0),
        decreases s.len() - i,
    {
        if s[i] == c {
            return Some(i);
        }
        i = i + 1;
    }
    None
}

/// A `key = value` line (or `key: value` when it has no `=`), both trimmed.
pub open spec fn key_value_spec(line: Seq<char>) -> Option<(Seq<char>, Seq<char>)> {
    let idx = match first_index(line, '=') {
        Some(i) => Some(i),
        None => first_index(line, ':'),
    };
    match idx {
        Some(i) => Some((trim(line.subrange(0, i)), trim(line.skip(i + 1)))),
        None => None,
    }
}

/// Splits `line` into a trimmed key and value at its first `=`, or at its
/// first `:` when it has no `=`.
pub fn split_key_value(line: &Vec<char>) -> (r: Option<(Vec<char>, Vec<char>)>)
    ensures
        match key_value_spec(line@) {
            Some((k, v)) => r matches Some((rk, rv)) && rk@ == k && rv@ == v,
            None => r is None,
        },
{
    let idx = match find_char(line, '=') {
        Some(i) => i,
        None => match find_char(line, ':') {
            Some(i) => i,
            None => {
                return None;
            },
        },
    };
    let key = slice_chars(line, 0, idx);
    let rest = slice_chars(line, idx + 1, line.len());
    assert(rest@ =~= line@.skip(idx + 1));
    Some((trim_chars(&key), trim_chars(&rest)))
}

/// The parts of `s` between commas that are outside braces, from index `i`,
/// at brace depth `depth`, `cur` holding the part read so far.
pub open spec fn commas_from(s: Seq<char>, i: int, depth: int, cur: Seq<char>) -> Seq<Seq<char>>
    decreases s.len() - i,
{
    if i >= s.len() || i < 0 {
        seq![cur]
    } else if s[i] == '{' {
        commas_from(s, i + 1, depth + 1, cur.push(s[i]))
    } else if s[i] == '}' {
        commas_from(s, i + 1, if depth > 0 { depth - 1 } else { 0 }, cur.push(s[i]))
    } else if s[i] == ',' && depth == 0 {
        seq![cur] + commas_from(s, i + 1, depth, Seq::empty())
    } else {
        commas_from(s, i + 1, depth, cur.push(s[i]))
    }
}

/// Splits `s` at the commas that are outside braces.
pub fn split_on_commas(s: &Vec<char>) -> (r: Vec<Vec<char>>)
    ensures
        r@.map_values(|x: Vec<char>| x@) == commas_from(s@, 0, 0, Seq::empty()),
{
    let mut out: Vec<Vec<char>> = Vec::new();
    let mut cur: Vec<char> = Vec::new();
    let mut depth: usize = 0;
    let mut i: usize = 0;
    while i < s.len()
        invariant
            i <= s.len(),
            depth <= i,
            out@.map_values(|x: Vec<char>| x@) + commas_from(s@, i as int, depth as int, cur@)
                == commas_from(s@, 0, 0, Seq::empty()),
        decreases s.len() - i,
    {
        let c = s[i];
        if c == '{' {
            depth = depth + 1;
            cur.push(c);
        } else if c == '}' {
            if depth > 0 {
                depth = depth - 1;
            }
            cur.push(c);
        } else if c == ',' && depth == 0 {
            let ghost prev = out@.map_values(|x: Vec<char>| x@);
            let ghost part = cur@;
            out.push(cur);
            assert(out@.map_values(|x: Vec<char>| x@) =~= prev.push(part));
            assert(prev.push(part) == prev + seq![part]);
            cur = Vec::new();
        } else {
            cur.push(c);
        }
        i = i + 1;
    }
    let ghost prev = out@.map_values(|x: Vec<char>| x@);
    let ghost part = cur@;
    out.push(cur);
    assert(out@.map_values(|x: Vec<char>| x@) =~= prev.push(part));
    assert(prev.push(part) == prev + seq![part]);
    out
}

/// `prefix + alt + suffix` for each non-empty trimmed alternative from the `k`th on.
pub open spec fn alternatives_from(alts: Seq<Seq<char>>, k: int, prefix: Seq<char>, suffix: Seq<char>) -> Seq<Seq<char>>
    decreases alts.len() - k,
{
    if k >= alts.len() || k < 0 {
        Seq::empty()
    } else {
        let a = trim(alts[k]);
        (if a.len() == 0 { Seq::empty() } else { seq![prefix + a + suffix] }) + alternatives_from(
            alts,
            k + 1,
            prefix,
            suffix,
        )
    }
}

/// The patterns a brace group stands for: the first `{...}` is replaced by
/// each of its comma-separated alternatives. A pattern without a closed
/// group, or whose group has no alternative, stands for itself.
#[verifier::opaque]
pub open spec fn braces_spec(p: Seq<char>) -> Seq<Seq<char>> {
    match first_index(p, '{') {
        None => seq![p],
        Some(open) => match first_index(p.skip(open + 1), '}') {
            None => seq![p],
            Some(c) => {
                let close = open + 1 + c;
                let out = alternatives_from(
                    split_on(p.subrange(open + 1, close), ','),
                    0,
                    p.subrange(0, open),
                    p.skip(close + 1),
                );
                if out.len() == 0 {
                    seq![p]
                } else {
                    out
                }
            },
        },
    }
}

/// `a`, `b` and `c` joined into one string.
fn concat3(a: &Vec<char>, b: &Vec<char>, c: &Vec<char>) -> (r: String)
    ensures
        r@ == a@ + b@ + c@,
{
    let mut s = string_of(a);
    s.append(string_of(b).as_str());
    s.append(string_of(c).as_str());
    s
}

/// `prefix + alt + suffix` for each non-empty trimmed alternative.
fn expand_alternatives(alts: &Vec<Vec<char>>, prefix: &Vec<char>, suffix: &Vec<char>) -> (r: Vec<String>)
    ensures
        strings_view(r@) == alternatives_from(alts@.map_values(|x: Vec<char>| x@), 0, prefix@, suffix@),
{
    let ghost av = alts@.map_values(|x: Vec<char>| x@);
    let mut out: Vec<String> = Vec::new();
    let mut k: usize = 0;
    while k < alts.len()
        invariant
            k <= alts.len(),
            av == alts@.map_values(|x: Vec<char>| x@),
            strings_view(out@) + alternatives_from(av, k as int, prefix@, suffix@)
                == alternatives_from(av, 0, prefix@, suffix@),
        decreases alts.len() - k,
    {
        let a = trim_chars(&alts[k]);
        assert(av[k as int] == alts@[k as int]@);
        if a.len() > 0 {
            let ghost prev = strings_view(out@);
            let s = concat3(&prefix, &a, &suffix);
            out.push(s);
            assert(strings_view(out@) =~= prev + seq![prefix@ + a@ + suffix@]);
        }
        k = k + 1;
    }
    out
}

/// Expands the first brace group of `pattern`.
pub fn expand_braces(pattern: &Vec<char>) -> (r: Vec<String>)
    ensures
        strings_view(r@) == braces_spec(pattern@),
{
    reveal(braces_spec);
    let whole = string_of(pattern);
    let open = match find_char(pattern, '{') {
        Some(i) => i,
        None => {
            let r = vec![whole];
            assert(strings_view(r@) =~= seq![pattern@]);
            return r;
        },
    };
    let after = slice_chars(pattern, open + 1, pattern.len());
    assert(after@ =~= pattern@.skip(open + 1));
    let close = match find_char(&after, '}') {
        Some(c) => open + 1 + c,
        None => {
            let r = vec![whole];
            assert(strings_view(r@) =~= seq![pattern@]);
            return r;
        },
    };
    let prefix = slice_chars(pattern, 0, open);
    let suffix = slice_chars(pattern, close + 1, pattern.len());
    assert(suffix@ =~= pattern@.skip(close + 1));
    let inner = slice_chars(pattern, open + 1, close);
    let alts = split_chars(&inner, ',');
    let out = expand_alternatives(&alts, &prefix, &suffix);
    if out.len() == 0 {
        let r = vec![whole];
        assert(strings_view(r@) =~= seq![pattern@]);
        return r;
    }
    out
}

/// The patterns of a section header: its top-level comma parts, trimmed,
/// the empty ones dropped and each expanded by its braces.
pub open spec fn patterns_from(parts: Seq<Seq<char>>, k: int) -> Seq<Seq<char>>
    decreases parts.len() - k,
{
    if k >= parts.len() || k < 0 {
        Seq::empty()
    } else {
        let p = trim(parts[k]);
        (if p.len() == 0 { Seq::empty() } else { braces_spec(p) }) + patterns_from(parts, k + 1)
    }
}

/// The glob patterns of a section header.
pub fn expand_patterns(raw: &Vec<char>) -> (r: Vec<String>)
    ensures
        strings_view(r@) == patterns_from(commas_from(raw@, 0, 0, Seq::empty()), 0),
{
    let parts = split_on_commas(raw);
    let ghost pv = parts@.map_values(|x: Vec<char>| x@);
    let mut out: Vec<String> = Vec::new();
    let mut k: usize = 0;
    while k < parts.len()
        invariant
            k <= parts.len(),
            pv == parts@.map_values(|x: Vec<char>| x@),
            strings_view(out@) + patterns_from(pv, k as int) == patterns_from(pv, 0),
        decreases parts.len() - k,
    {
        assert(pv[k as int] == parts@[k as int]@);
        let p = trim_chars(&parts[k]);
        if p.len() > 0 {
            let mut more = expand_braces(&p);
            let ghost old_out = out@;
            let ghost old_more = more@;
            out.append(&mut more);
            assert(out@ == old_out + old_more);
            assert(strings_view(out@) =~= strings_view(old_out) + strings_view(old_more));
            assert(patterns_from(pv, k as int) == braces_spec(p@) + patterns_from(pv, k + 1));
        } else {
            assert(patterns_from(pv, k as int) =~= patterns_from(pv, k + 1));
        }
        k = k + 1;
    }
    out
}

/// The non-empty parts from the `k`th on.
pub open spec fn non_empty_from(parts: Seq<Seq<char>>, k: int) -> Seq<Seq<char>>
    decreases parts.len() - k,
{
    if k >= parts.len() || k < 0 {
        Seq::empty()
    } else {
        (if parts[k].len() == 0 { Seq::empty() } else { seq![parts[k]] }) + non_empty_from(parts, k + 1)
    }
}

/// The first position at or after `i` where `seg` occurs in `t`.
pub open spec fn find_from(t: Seq<char>, seg: Seq<char>, i: int) -> Option<int>
    decreases t.len() + 1 - i,
{
    if i < 0 || i + seg.len() > t.len() {
        None
    } else if starts_with(t.skip(i), seg) {
        Some(i)
    } else {
        find_from(t, seg, i + 1)
    }
}

/// Matching the literal segments of a glob from the `k`th on, the text being
/// consumed up to `idx`: the first segment must start the text when the
/// pattern does not start with `*`, the last must end it when the pattern
/// does not end with `*`, and the others are found in order.
pub open spec fn glob_from(segs: Seq<Seq<char>>, k: int, idx: int, t: Seq<char>, start_anchor: bool, end_anchor: bool) -> bool
    decreases segs.len() - k,
{
    if k >= segs.len() || k < 0 {
        true
    } else {
        let seg = segs[k];
        if k == 0 && start_anchor {
            starts_with(t, seg) && glob_from(segs, k + 1, seg.len() as int, t, start_anchor, end_anchor)
        } else if k + 1 == segs.len() && end_anchor {
            seg.len() <= t.len() && t.len() - seg.len() >= idx && ends_with(t, seg)
        } else {
            match find_from(t, seg, idx) {
                None => false,
                Some(j) => glob_from(segs, k + 1, j + seg.len(), t, start_anchor, end_anchor),
            }
        }
    }
}

/// Whether `t` matches the glob `p`, where `*` stands for any run of characters.
pub open spec fn glob_spec(p: Seq<char>, t: Seq<char>) -> bool {
    if p == seq!['*'] {
        true
    } else if !p.contains('*') {
        p == t
    } else {
        let segs = non_empty_from(split_on(p, '*'), 0);
        segs.len() == 0 || glob_from(segs, 0, 0, t, p[0] != '*', p.last() != '*')
    }
}

/// Finds `seg` in `t` at or after `from`.
fn find_seq(t: &Vec<char>, seg: &Vec<char>, from: usize) -> (r: Option<usize>)
    requires
        from <= t.len(),
    ensures
        match find_from(t@, seg@, from as int) {
            Some(j) => r == Some(j as usize) && from <= j && j + seg.len() <= t.len(),
            None => r is None,
        },
{
    if seg.len() == 0 {
        assert(starts_with(t@.skip(from as int), seg@)) by {
            assert(t@.skip(from as int).subrange(0, 0) =~= seg@);
        }
        return Some(from);
    }
    let mut i = from;
    while i < t.len() && seg.len() <= t.len() - i
        invariant
            from <= i <= t.len(),
            seg.len() > 0,
            find_from(t@, seg@, i as int) == find_from(t@, seg@, from as int),
        decreases t.len() - i,
    {
        if matches_at(t, i, seg) {
            return Some(i);
        }
        i = i + 1;
    }
    None
}

/// Whether `file_name` matches the glob `pattern` (`*` is any run of characters).
pub fn glob_match(pattern: &str, text: &str) -> (r: bool)
    ensures
        r == glob_spec(pattern@, text@),
{
    let p = chars_of(pattern);
    let t = chars_of(text);
    if p.len() == 1 && p[0] == '*' {
        assert(p@ =~= seq!['*']);
        return true;
    }
    assert(p@ != seq!['*']);
    let mut has_star = false;
    let mut i: usize = 0;
    while i < p.len()
        invariant
            i <= p.len(),
            has_star == exists|j: int| 0 <= j < i && p@[j] == '*',
        decreases p.len() - i,
    {
        if p[i] == '*' {
            has_star = true;
        }
        i = i + 1;
    }
    if !has_star {
        proof {
            if p@.contains('*') {
                let j = choose|j: int| 0 <= j < p@.len() && p@[j] == '*';
                assert(p@[j] == '*');
            }
        }
        return vec_eq(&p, &t);
    }
    assert(p@.contains('*')) by {
        let j = choose|j: int| 0 <= j < i && p@[j] == '*';
        assert(p@[j] == '*');
    }
    let start_anchor = p[0] != '*';
    let end_anchor = p[p.len() - 1] != '*';
    let parts = split_chars(&p, '*');
    let ghost pv = parts@.map_values(|x: Vec<char>| x@);
    let mut segs: Vec<Vec<char>> = Vec::new();
    let mut k: usize = 0;
    while k < parts.len()
        invariant
            k <= parts.len(),
            pv == parts@.map_values(|x: Vec<char>| x@),
            segs@.map_values(|x: Vec<char>| x@) + non_empty_from(pv, k as int) == non_empty_from(pv, 0),
        decreases parts.len() - k,
    {
        assert(pv[k as int] == parts@[k as int]@);
        if parts[k].len() > 0 {
            let ghost prev = segs@.map_values(|x: Vec<char>| x@);
            segs.push(parts[k].clone());
            assert(segs@.map_values(|x: Vec<char>| x@) =~= prev + seq![pv[k as int]]);
        } else {
            assert(non_empty_from(pv, k as int) =~= non_empty_from(pv, k + 1));
        }
        k = k + 1;
    }
    let ghost sv = segs@.map_values(|x: Vec<char>| x@);
    assert(sv =~= non_empty_from(pv, 0));
    if segs.len() == 0 {
        return true;
    }
    assert(start_anchor == (p@[0] != '*'));
    assert(end_anchor == (p@.last() != '*'));
    assert(glob_spec(pattern@, text@) == glob_from(sv, 0, 0, t@, start_anchor, end_anchor));
    let mut idx: usize = 0;
    let mut k: usize = 0;
    while k < segs.len()
        invariant
            k <= segs.len(),
            idx <= t.len(),
            sv == segs@.map_values(|x: Vec<char>| x@),
            glob_spec(pattern@, text@) == glob_from(sv, 0, 0, t@, start_anchor, end_anchor),
            glob_from(sv, k as int, idx as int, t@, start_anchor, end_anchor)
                == glob_from(sv, 0, 0, t@, start_anchor, end_anchor),
        decreases segs.len() - k,
    {
        let seg = &segs[k];
        assert(sv[k as int] == seg@);
        if k == 0 && start_anchor {
            if !matches_at(&t, 0, seg) {
                assert(t@.skip(0) =~= t@);
                return false;
            }
            assert(t@.skip(0) =~= t@);
            idx = seg.len();
            k = k + 1;
            continue;
        }
        if k + 1 == segs.len() && end_anchor {
            if seg.len() > t.len() {
                return false;
            }
            let end_pos = t.len() - seg.len();
            if end_pos < idx {
                return false;
            }
            let r = matches_at(&t, end_pos, seg);
            assert(t@.skip(end_pos as int).subrange(0, seg.len() as int) =~= t@.subrange(
                end_pos as int,
                t.len() as int,
            ));
            return r;
        }
        match find_seq(&t, seg, idx) {
            None => {
                return false;
            },
            Some(found) => {
                idx = found + seg.len();
            },
        }
        k = k + 1;
    }
    true
}

/// Whether two character vectors are equal.
fn vec_eq(a: &Vec<char>, b: &Vec<char>) -> (r: bool)
    ensures
        r == (a@ == b@),
{
    if a.len() != b.len() {
        return false;
    }
    let mut i: usize = 0;
    while i < a.len()
        invariant
            a.len() == b.len(),
            i <= a.len(),
            forall|k: int| 0 <= k < i ==> a@[k] == b@[k],
        decreases a.len() - i,
    {
        if a[i] != b[i] {
            return false;
        }
        i = i + 1;
    }
    assert(a@ =~= b@);
    true
}

/// One `[pattern]` section of an editorconfig file and the settings it makes.
#[derive(Clone, Debug)]
pub struct Section {
    pub patterns: Vec<String>,
    pub trim_trailing_whitespace: Option<bool>,
    pub insert_final_newline: Option<bool>,
    pub end_of_line: Option<EndOfLine>,
}

/// What a [`Section`] holds.
pub struct SectionView {
    pub patterns: Seq<Seq<char>>,
    pub trim_trailing_whitespace: Option<bool>,
    pub insert_final_newline: Option<bool>,
    pub end_of_line: Option<EndOfLine>,
}

impl View for Section {
    type V = SectionView;

    open spec fn view(&self) -> SectionView {
        SectionView {
            patterns: strings_view(self.patterns@),
            trim_trailing_whitespace: self.trim_trailing_whitespace,
            insert_final_newline: self.insert_final_newline,
            end_of_line: self.end_of_line,
        }
    }
}

/// A parsed editorconfig file.
#[derive(Clone, Debug)]
pub struct EditorConfig {
    pub root: bool,
    pub sections: Vec<Section>,
}

/// What an [`EditorConfig`] holds.
pub struct ConfigView {
    pub root: bool,
    pub sections: Seq<SectionView>,
}

/// The views of a vector of sections.
pub open spec fn sections_view(v: Seq<Section>) -> Seq<SectionView> {
    v.map_values(|s: Section| s@)
}

impl View for EditorConfig {
    type V = ConfigView;

    open spec fn view(&self) -> ConfigView {
        ConfigView { root: self.root, sections: sections_view(self.sections@) }
    }
}

/// Whether a section applies to `name`: one of its patterns matches it.
pub open spec fn section_matches(s: SectionView, name: Seq<char>) -> bool {
    exists|k: int| 0 <= k < s.patterns.len() && glob_spec(#[trigger] s.patterns[k], name)
}

/// The options after the sections from the `k`th on were applied in order:
/// each one that matches sets what it sets.
pub open spec fn apply_from(secs: Seq<SectionView>, k: int, name: Seq<char>, o: FormatOptions) -> FormatOptions
    decreases secs.len() - k,
{
    if k >= secs.len() || k < 0 {
        o
    } else {
        let s = secs[k];
        let o1 = if section_matches(s, name) {
            FormatOptions {
                trim_trailing_whitespace: match s.trim_trailing_whitespace {
                    Some(v) => v,
                    None => o.trim_trailing_whitespace,
                },
                insert_final_newline: match s.insert_final_newline {
                    Some(v) => v,
                    None => o.insert_final_newline,
                },
                end_of_line: match s.end_of_line {
                    Some(v) => Some(v),
                    None => o.end_of_line,
                },
            }
        } else {
            o
        };
        apply_from(secs, k + 1, name, o1)
    }
}

impl Section {
    /// Whether the section applies to `file_name`.
    pub fn matches(&self, file_name: &str) -> (r: bool)
        ensures
            r == section_matches(self@, file_name@),
    {
        let mut k: usize = 0;
        while k < self.patterns.len()
            invariant
                k <= self.patterns.len(),
                forall|j: int| 0 <= j < k ==> !glob_spec(#[trigger] self@.patterns[j], file_name@),
            decreases self.patterns.len() - k,
        {
            assert(self@.patterns[k as int] == self.patterns@[k as int]@);
            if glob_match(self.patterns[k].as_str(), file_name) {
                return true;
            }
            k = k + 1;
        }
        false
    }
}

impl EditorConfig {
    /// Applies the sections that match `file_name`, in order, to `options`.
    pub fn apply(&self, file_name: &str, options: &mut FormatOptions)
        ensures
            *final(options) == apply_from(self@.sections, 0, file_name@, *old(options)),
    {
        let ghost secs = self@.sections;
        let mut k: usize = 0;
        while k < self.sections.len()
            invariant
                k <= self.sections.len(),
                secs == self@.sections,
                apply_from(secs, k as int, file_name@, *options) == apply_from(secs, 0, file_name@, *old(options)),
            decreases self.sections.len() - k,
        {
            let section = &self.sections[k];
            assert(secs[k as int] == section@);
            if section.matches(file_name) {
                match section.trim_trailing_whitespace {
                    Some(v) => options.trim_trailing_whitespace = v,
                    None => {},
                }
                match section.insert_final_newline {
                    Some(v) => options.insert_final_newline = v,
                    None => {},
                }
                match section.end_of_line {
                    Some(v) => options.end_of_line = Some(v),
                    None => {},
                }
            }
            k = k + 1;
        }
    }
}

/// `l` without one trailing `'\r'`.
pub open spec fn strip_cr(l: Seq<char>) -> Seq<char> {
    if l.len() > 0 && l.last() == '\r' {
        l.drop_last()
    } else {
        l
    }
}

/// The lines of `s` as `str::lines` gives them: split at `'\n'`, a `'\r'`
/// before the `'\n'` dropped, and no empty line after a final `'\n'`.
pub open spec fn text_lines(s: Seq<char>) -> Seq<Seq<char>> {
    let parts = split_on(s, '\n');
    let n = parts.len() as int;
    if n == 0 {
        Seq::empty()
    } else {
        let body = parts.subrange(0, n - 1).map_values(|l: Seq<char>| strip_cr(l));
        if parts[n - 1].len() == 0 {
            body
        } else {
            body.push(parts[n - 1])
        }
    }
}

/// The state of parsing an editorconfig file.
pub struct ParseState {
    pub root: bool,
    pub sections: Seq<SectionView>,
    pub current: Option<SectionView>,
}

/// The state after one line. Blank lines and comments change nothing; a
/// `[...]` header closes the current section and opens one with the header's
/// patterns; `root` sets the root flag; the three known keys set the current
/// section's setting (an unreadable value clears it); anything else is ignored.
pub open spec fn parse_line(st: ParseState, raw: Seq<char>) -> ParseState {
    let line = trim(raw);
    if line.len() == 0 || line[0] == '#' || line[0] == ';' {
        st
    } else if line[0] == '[' && line.last() == ']' {
        ParseState {
            sections: match st.current {
                Some(c) => st.sections.push(c),
                None => st.sections,
            },
            current: Some(
                SectionView {
                    patterns: patterns_from(commas_from(trim(line.subrange(1, line.len() - 1)), 0, 0, Seq::empty()), 0),
                    trim_trailing_whitespace: None,
                    insert_final_newline: None,
                    end_of_line: None,
                },
            ),
            ..st
        }
    } else {
        match key_value_spec(line) {
            None => st,
            Some((k, v)) => if eq_ignore_case(k, "root"@) {
                ParseState {
                    root: match bool_spec(v) {
                        Some(b) => b,
                        None => false,
                    },
                    ..st
                }
            } else {
                match st.current {
                    None => st,
                    Some(c) => if eq_ignore_case(k, "trim_trailing_whitespace"@) {
                        ParseState { current: Some(SectionView { trim_trailing_whitespace: bool_spec(v), ..c }), ..st }
                    } else if eq_ignore_case(k, "insert_final_newline"@) {
                        ParseState { current: Some(SectionView { insert_final_newline: bool_spec(v), ..c }), ..st }
                    } else if eq_ignore_case(k, "end_of_line"@) {
                        ParseState { current: Some(SectionView { end_of_line: eol_spec(v), ..c }), ..st }
                    } else {
                        st
                    },
                }
            },
        }
    }
}

/// The state after the lines from the `k`th on.
pub open spec fn parse_from(lines: Seq<Seq<char>>, k: int, st: ParseState) -> ParseState
    decreases lines.len() - k,
{
    if k >= lines.len() || k < 0 {
        st
    } else {
        parse_from(lines, k + 1, parse_line(st, lines[k]))
    }
}

/// The editorconfig file that `s` holds.
pub open spec fn config_spec(s: Seq<char>) -> ConfigView {
    let st = parse_from(text_lines(s), 0, ParseState { root: false, sections: Seq::empty(), current: None });
    ConfigView {
        root: st.root,
        sections: match st.current {
            Some(c) => st.sections.push(c),
            None => st.sections,
        },
    }
}

/// The view of an optional section.
pub open spec fn opt_section_view(o: Option<Section>) -> Option<SectionView> {
    match o {
        Some(s) => Some(s@),
        None => None,
    }
}

/// The parse state that exec values stand for.
pub open spec fn state_of(root: bool, sections: Seq<Section>, current: Option<Section>) -> ParseState {
    ParseState { root, sections: sections_view(sections), current: opt_section_view(current) }
}

/// The lines of `contents`, as `str::lines` gives them.
fn text_lines_of(contents: &Vec<char>) -> (r: Vec<Vec<char>>)
    ensures
        r@.map_values(|x: Vec<char>| x@) == text_lines(contents@),
{
    let parts = split_chars(contents, '\n');
    let ghost pv = parts@.map_values(|x: Vec<char>| x@);
    let n = parts.len();
    let mut r: Vec<Vec<char>> = Vec::new();
    if n == 0 {
        return r;
    }
    let mut k: usize = 0;
    while k < n - 1
        invariant
            n == parts.len(),
            n > 0,
            k <= n - 1,
            pv == parts@.map_values(|x: Vec<char>| x@),
            r@.map_values(|x: Vec<char>| x@) == pv.subrange(0, k as int).map_values(|l: Seq<char>| strip_cr(l)),
        decreases n - 1 - k,
    {
        let part = &parts[k];
        assert(pv[k as int] == part@);
        let mut line = part.clone();
        if line.len() > 0 && line[line.len() - 1] == '\r' {
            line.pop();
        }
        assert(line@ == strip_cr(part@));
        let ghost prev = r@.map_values(|x: Vec<char>| x@);
        r.push(line);
        assert(r@.map_values(|x: Vec<char>| x@) =~= prev.push(strip_cr(pv[k as int])));
        assert(pv.subrange(0, k + 1).map_values(|l: Seq<char>| strip_cr(l)) =~= pv.subrange(0, k as int).map_values(
            |l: Seq<char>| strip_cr(l),
        ).push(strip_cr(pv[k as int])));
        k = k + 1;
    }
    let last = &parts[n - 1];
    assert(pv[n - 1] == last@);
    if last.len() > 0 {
        let ghost prev = r@.map_values(|x: Vec<char>| x@);
        r.push(last.clone());
        assert(r@.map_values(|x: Vec<char>| x@) =~= prev.push(pv[n - 1]));
    }
    r
}

/// Parses an editorconfig file: its root flag and its sections in order.
pub fn parse_editorconfig(contents: &str) -> (r: EditorConfig)
    ensures
        r@ == config_spec(contents@),
{
    let chars = chars_of(contents);
    let lines = text_lines_of(&chars);
    let ghost lv = lines@.map_values(|x: Vec<char>| x@);
    let ghost init = ParseState { root: false, sections: Seq::empty(), current: None };
    let mut root = false;
    let mut sections: Vec<Section> = Vec::new();
    let mut current: Option<Section> = None;
    assert(sections_view(sections@) =~= Seq::empty());
    let mut k: usize = 0;
    while k < lines.len()
        invariant
            k <= lines.len(),
            lv == lines@.map_values(|x: Vec<char>| x@),
            lv == text_lines(contents@),
            parse_from(lv, k as int, state_of(root, sections@, current)) == parse_from(lv, 0, init),
        decreases lines.len() - k,
    {
        assert(lv[k as int] == lines@[k as int]@);
        parse_one_line(&lines[k], &mut root, &mut sections, &mut current);
        k = k + 1;
    }
    match current {
        Some(c) => {
            let ghost prev = sections_view(sections@);
            let ghost cv = c@;
            sections.push(c);
            assert(sections_view(sections@) =~= prev.push(cv));
        },
        None => {},
    }
    EditorConfig { root, sections }
}

/// Applies one line of an editorconfig file to the parse state.
fn parse_one_line(raw: &Vec<char>, root: &mut bool, sections: &mut Vec<Section>, current: &mut Option<Section>)
    ensures
        state_of(*final(root), final(sections)@, *final(current)) == parse_line(
            state_of(*old(root), old(sections)@, *old(current)),
            raw@,
        ),
{
    let line = trim_chars(raw);
    if line.len() == 0 || line[0] == '#' || line[0] == ';' {
        return;
    }
    if line[0] == '[' && line[line.len() - 1] == ']' {
        match current.take() {
            Some(c) => {
                let ghost prev = sections_view(sections@);
                let ghost cv = c@;
                sections.push(c);
                assert(sections_view(sections@) =~= prev.push(cv));
            },
            None => {},
        }
        let inner = trim_chars(&slice_chars(&line, 1, line.len() - 1));
        *current = Some(Section {
            patterns: expand_patterns(&inner),
            trim_trailing_whitespace: None,
            insert_final_newline: None,
            end_of_line: None,
        });
        return;
    }
    let (key, value) = match split_key_value(&line) {
        Some(kv) => kv,
        None => {
            return;
        },
    };
    if eq_ignore_ascii_case(&key, "root") {
        *root = match parse_bool(&value) {
            Some(b) => b,
            None => false,
        };
        return;
    }
    match current {
        None => {},
        Some(section) => {
            if eq_ignore_ascii_case(&key, "trim_trailing_whitespace") {
                section.trim_trailing_whitespace = parse_bool(&value);
            } else if eq_ignore_ascii_case(&key, "insert_final_newline") {
                section.insert_final_newline = parse_bool(&value);
            } else if eq_ignore_ascii_case(&key, "end_of_line") {
                section.end_of_line = parse_eol(&value);
            }
        },
    }
}

/// The editorconfig files that apply, nearest first, up to and including
/// the first one marked root.
pub open spec fn collected_from(cfgs: Seq<Seq<char>>, k: int) -> Seq<ConfigView>
    decreases cfgs.len() - k,
{
    if k >= cfgs.len() || k < 0 {
        Seq::empty()
    } else {
        let c = config_spec(cfgs[k]);
        seq![c] + if c.root { Seq::empty() } else { collected_from(cfgs, k + 1) }
    }
}

/// The options after the first `j` files of `list` were applied, the
/// farthest (the `j - 1`th) first.
pub open spec fn apply_farthest_first(list: Seq<ConfigView>, j: int, name: Seq<char>, o: FormatOptions) -> FormatOptions
    decreases j,
{
    if j <= 0 || j > list.len() {
        o
    } else {
        apply_farthest_first(list, j - 1, name, apply_from(list[j - 1].sections, 0, name, o))
    }
}

/// The default options: trim trailing white space, end with a newline, keep
/// the document's line terminator.
pub open spec fn default_options() -> FormatOptions {
    FormatOptions { trim_trailing_whitespace: true, insert_final_newline: true, end_of_line: None }
}

/// The format options for a file named `file_name`, given the contents of the
/// editorconfig files of its directory and of each directory above it,
/// nearest first: files up to the first root one apply, the farthest first,
/// over the defaults.
pub fn options_from_configs(file_name: &str, configs: &Vec<String>) -> (r: FormatOptions)
    ensures
        ({
            let list = collected_from(strings_view(configs@), 0);
            r == apply_farthest_first(list, list.len() as int, file_name@, default_options())
        }),
{
    let ghost cv = strings_view(configs@);
    let mut parsed: Vec<EditorConfig> = Vec::new();
    let mut k: usize = 0;
    let mut stopped = false;
    while k < configs.len() && !stopped
        invariant
            k <= configs.len(),
            cv == strings_view(configs@),
            parsed@.map_values(|c: EditorConfig| c@) + (if stopped { Seq::empty() } else { collected_from(cv, k as int) })
                == collected_from(cv, 0),
        decreases configs.len() - k,
    {
        assert(cv[k as int] == configs@[k as int]@);
        let cfg = parse_editorconfig(configs[k].as_str());
        let is_root = cfg.root;
        let ghost prev = parsed@.map_values(|c: EditorConfig| c@);
        let ghost cfgv = cfg@;
        parsed.push(cfg);
        assert(parsed@.map_values(|c: EditorConfig| c@) =~= prev.push(cfgv));
        if is_root {
            stopped = true;
        }
        assert(prev.push(cfgv) + (if stopped { Seq::empty() } else { collected_from(cv, k + 1) })
            =~= prev + collected_from(cv, k as int));
        k = k + 1;
    }
    let ghost list = parsed@.map_values(|c: EditorConfig| c@);
    assert(list =~= collected_from(cv, 0));
    let mut options = FormatOptions { trim_trailing_whitespace: true, insert_final_newline: true, end_of_line: None };
    let mut j = parsed.len();
    while j > 0
        invariant
            j <= parsed.len(),
            list == parsed@.map_values(|c: EditorConfig| c@),
            apply_farthest_first(list, j as int, file_name@, options)
                == apply_farthest_first(list, list.len() as int, file_name@, default_options()),
        decreases j,
    {
        assert(list[j - 1] == parsed@[j - 1]@);
        parsed[j - 1].apply(file_name, &mut options);
        j = j - 1;
    }
    options
}

} // verus!
