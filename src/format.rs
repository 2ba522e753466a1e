use vstd::prelude::*;

use crate::text::{
    chars_of, ends_with, scan_ws, split_chars, split_on, starts_with, string_of, trim_start,
};

verus! {

/// A line terminator.
#[derive(Clone, Copy, Debug, PartialEq, Eq, Structural)]
pub enum EndOfLine {
    Lf,
    CrLf,
}

/// The characters of a line terminator.
pub open spec fn eol_chars(e: EndOfLine) -> Seq<char> {
    match e {
        EndOfLine::Lf => seq!['\n'],
        EndOfLine::CrLf => seq!['\r', '\n'],
    }
}

impl EndOfLine {
    /// The terminator as text.
    pub fn as_str(self) -> (r: &'static str)
        ensures
            r@ == eol_chars(self),
    {
        proof {
            reveal_strlit("\n");
            reveal_strlit("\r\n");
        }
        match self {
            EndOfLine::Lf => "\n",
            EndOfLine::CrLf => "\r\n",
        }
    }

    /// The terminator as characters.
    fn chars(self) -> (r: Vec<char>)
        ensures
            r@ == eol_chars(self),
    {
        match self {
            EndOfLine::Lf => vec!['\n'],
            EndOfLine::CrLf => vec!['\r', '\n'],
        }
    }
}

/// How to format a markdown document.
#[derive(Clone, Copy, Debug, PartialEq, Eq, Structural)]
pub struct FormatOptions {
    pub trim_trailing_whitespace: bool,
    pub insert_final_newline: bool,
    /// `None` keeps the terminator the document already uses.
    pub end_of_line: Option<EndOfLine>,
}

impl Default for FormatOptions {
    fn default() -> (r: FormatOptions)
        ensures
            r.trim_trailing_whitespace,
            r.insert_final_newline,
            r.end_of_line is None,
    {
        FormatOptions { trim_trailing_whitespace: true, insert_final_newline: true, end_of_line: None }
    }
}

/// Whether `s` holds a `"\r\n"`.
pub open spec fn has_crlf(s: Seq<char>) -> bool {
    exists|i: int| 0 <= i < s.len() - 1 && s[i] == '\r' && #[trigger] s[i + 1] == '\n'
}

/// The terminator a document uses: CRLF when it holds one, else LF.
pub open spec fn detect_spec(s: Seq<char>) -> EndOfLine {
    if has_crlf(s) {
        EndOfLine::CrLf
    } else {
        EndOfLine::Lf
    }
}

/// `s` with each `"\r\n"` and each lone `'\r'` turned into `'\n'`.
pub open spec fn normalize_spec(s: Seq<char>) -> Seq<char>
    decreases s.len(),
{
    if s.len() == 0 {
        Seq::empty()
    } else if s[0] == '\r' {
        seq!['\n'] + normalize_spec(s.skip(if s.len() > 1 && s[1] == '\n' { 2 } else { 1 }))
    } else {
        seq![s[0]] + normalize_spec(s.skip(1))
    }
}

/// The terminator `source` uses: CRLF when it holds one, else LF.
pub fn detect_end_of_line(source: &Vec<char>) -> (r: EndOfLine)
    ensures
        r == detect_spec(source@),
{
    if source.len() < 2 {
        return EndOfLine::Lf;
    }
    let mut i: usize = 0;
    while i < source.len() - 1
        invariant
            source.len() >= 2,
            i <= source.len() - 1,
            forall|k: int| 0 <= k < i && k < source.len() - 1 ==> !(source@[k] == '\r' && #[trigger] source@[k + 1] == '\n'),
        decreases source.len() - i,
    {
        if source[i] == '\r' && source[i + 1] == '\n' {
            return EndOfLine::CrLf;
        }
        i = i + 1;
    }
    EndOfLine::Lf
}

/// `source` with `"\r\n"` and lone `'\r'` turned into `'\n'`.
pub fn normalize_line_endings(source: &Vec<char>) -> (r: Vec<char>)
    ensures
        r@ == normalize_spec(source@),
{
    let mut out: Vec<char> = Vec::new();
    let mut i: usize = 0;
    assert(source@.skip(0) =~= source@);
    while i < source.len()
        invariant
            i <= source.len(),
            out@ + normalize_spec(source@.skip(i as int)) == normalize_spec(source@),
        decreases source.len() - i,
    {
        let ghost rest = source@.skip(i as int);
        let ghost before = out@;
        if source[i] == '\r' {
            out.push('\n');
            if i + 1 < source.len() && source[i + 1] == '\n' {
                assert(rest.skip(2) =~= source@.skip(i + 2));
                i = i + 2;
            } else {
                assert(rest.skip(1) =~= source@.skip(i + 1));
                i = i + 1;
            }
        } else {
            out.push(source[i]);
            assert(rest.skip(1) =~= source@.skip(i + 1));
            i = i + 1;
        }
        assert(before.push(out@.last()) == before + seq![out@.last()]);
    }
    out
}

/// How many spaces end `s`.
pub open spec fn trailing_spaces(s: Seq<char>) -> int
    decreases s.len(),
{
    if s.len() > 0 && s.last() == ' ' {
        1 + trailing_spaces(s.drop_last())
    } else {
        0
    }
}

/// `s` without its trailing spaces and tabs.
pub open spec fn trim_blank_end(s: Seq<char>) -> Seq<char>
    decreases s.len(),
{
    if s.len() > 0 && (s.last() == ' ' || s.last() == '\t') {
        trim_blank_end(s.drop_last())
    } else {
        s
    }
}

/// Whether the line opens or closes a backtick code fence.
pub open spec fn is_fence_line(line: Seq<char>) -> bool {
    starts_with(trim_start(line), seq!['`', '`', '`'])
}

/// One formatted line: outside a fence and when trimming, trailing spaces
/// and tabs go, but two or more trailing spaces (a hard break) stay as two.
pub open spec fn format_line(line: Seq<char>, trim: bool, in_fence: bool) -> Seq<char> {
    if trim && !in_fence {
        trim_blank_end(line) + if trailing_spaces(line) >= 2 { seq![' ', ' '] } else { Seq::empty() }
    } else {
        line
    }
}

/// The formatted lines from the `k`th on, each but the last followed by `eol`.
pub open spec fn format_from(lines: Seq<Seq<char>>, k: int, in_fence: bool, trim: bool, eol: Seq<char>) -> Seq<char>
    decreases lines.len() - k,
{
    if k >= lines.len() || k < 0 {
        Seq::empty()
    } else {
        let f = if is_fence_line(lines[k]) { !in_fence } else { in_fence };
        format_line(lines[k], trim, f) + (if k + 1 < lines.len() { eol } else { Seq::empty() })
            + format_from(lines, k + 1, f, trim, eol)
    }
}

/// The formatted document.
pub open spec fn format_spec(source: Seq<char>, options: FormatOptions) -> Seq<char> {
    let eol = eol_chars(
        match options.end_of_line {
            Some(e) => e,
            None => detect_spec(source),
        },
    );
    let body = format_from(split_on(normalize_spec(source), '\n'), 0, false, options.trim_trailing_whitespace, eol);
    if options.insert_final_newline && !ends_with(body, eol) {
        body + eol
    } else {
        body
    }
}

/// Appends `src` to `out`.
fn extend(out: &mut Vec<char>, src: &Vec<char>)
    ensures
        final(out)@ == old(out)@ + src@,
{
    let mut i: usize = 0;
    while i < src.len()
        invariant
            i <= src.len(),
            out@ == old(out)@ + src@.subrange(0, i as int),
        decreases src.len() - i,
    {
        out.push(src[i]);
        assert(src@.subrange(0, i + 1) =~= src@.subrange(0, i as int).push(src@[i as int]));
        i = i + 1;
    }
    assert(src@.subrange(0, src.len() as int) =~= src@);
}

/// Whether `line` opens or closes a backtick code fence.
fn fence_line(line: &Vec<char>) -> (r: bool)
    ensures
        r == is_fence_line(line@),
{
    let start = scan_ws(line, 0);
    assert(trim_start(line@) =~= line@.skip(start as int));
    if line.len() - start < 3 {
        return false;
    }
    let r = line[start] == '`' && line[start + 1] == '`' && line[start + 2] == '`';
    assert(r == (trim_start(line@).subrange(0, 3) =~= seq!['`', '`', '`']));
    r
}

/// Appends one formatted line to `out`.
fn push_formatted_line(out: &mut Vec<char>, line: &Vec<char>, trim: bool, in_fence: bool)
    ensures
        final(out)@ == old(out)@ + format_line(line@, trim, in_fence),
{
    if trim && !in_fence {
        assert(line@.subrange(0, line.len() as int) =~= line@);
        let mut spaces: usize = 0;
        while spaces < line.len() && line[line.len() - 1 - spaces] == ' '
            invariant
                spaces <= line.len(),
                trailing_spaces(line@) == spaces + trailing_spaces(line@.subrange(0, line.len() - spaces)),
            decreases line.len() - spaces,
        {
            assert(line@.subrange(0, line.len() - spaces).drop_last() =~= line@.subrange(0, line.len() - spaces - 1));
            spaces = spaces + 1;
        }
        assert(trailing_spaces(line@) == spaces) by {
            assert(line@.subrange(0, line.len() - spaces) =~= line@.subrange(0, line.len() - spaces));
        }
        let mut end = line.len();
        while end > 0 && (line[end - 1] == ' ' || line[end - 1] == '\t')
            invariant
                end <= line.len(),
                trim_blank_end(line@.subrange(0, end as int)) == trim_blank_end(line@),
            decreases end,
        {
            assert(line@.subrange(0, end as int).drop_last() =~= line@.subrange(0, end - 1));
            end = end - 1;
        }
        proof {
            assert(line@.subrange(0, line.len() as int) =~= line@);
        }
        let mut i: usize = 0;
        let ghost before = out@;
        while i < end
            invariant
                i <= end <= line.len(),
                out@ == before + line@.subrange(0, i as int),
            decreases end - i,
        {
            out.push(line[i]);
            assert(line@.subrange(0, i + 1) =~= line@.subrange(0, i as int).push(line@[i as int]));
            i = i + 1;
        }
        if spaces >= 2 {
            out.push(' ');
            out.push(' ');
        }
        assert(out@ =~= before + format_line(line@, trim, in_fence));
    } else {
        extend(out, line);
    }
}

/// Formats a markdown document: line terminators are made uniform (the
/// given one, or the one the document uses), trailing white space is trimmed
/// outside backtick fences when asked, keeping hard breaks, and a final
/// terminator is added when asked.
pub fn format_markdown(source: &str, options: FormatOptions) -> (r: String)
    ensures
        r@ == format_spec(source@, options),
{
    let src = chars_of(source);
    let eol = match options.end_of_line {
        Some(e) => e,
        None => detect_end_of_line(&src),
    };
    let eol_v = eol.chars();
    let normalized = normalize_line_endings(&src);
    let lines = split_chars(&normalized, '\n');
    let ghost lv = lines@.map_values(|x: Vec<char>| x@);
    let mut out: Vec<char> = Vec::new();
    let mut in_fence = false;
    let mut k: usize = 0;
    while k < lines.len()
        invariant
            k <= lines.len(),
            lv == lines@.map_values(|x: Vec<char>| x@),
            lv == split_on(normalize_spec(source@), '\n'),
            eol_v@ == eol_chars(eol),
            out@ + format_from(lv, k as int, in_fence, options.trim_trailing_whitespace, eol_v@)
                == format_from(lv, 0, false, options.trim_trailing_whitespace, eol_v@),
        decreases lines.len() - k,
    {
        let ghost before = out@;
        let line = &lines[k];
        assert(lv[k as int] == line@);
        if fence_line(line) {
            in_fence = !in_fence;
        }
        push_formatted_line(&mut out, line, options.trim_trailing_whitespace, in_fence);
        if k + 1 < lines.len() {
            extend(&mut out, &eol_v);
        }
        proof {
            let tail = if k + 1 < lines.len() { eol_v@ } else { Seq::<char>::empty() };
            assert(out@ =~= before + format_line(line@, options.trim_trailing_whitespace, in_fence) + tail);
        }
        k = k + 1;
    }
    proof {
        assert(out@ == format_from(lv, 0, false, options.trim_trailing_whitespace, eol_v@));
    }
    if options.insert_final_newline && !ends_with_chars(&out, &eol_v) {
        extend(&mut out, &eol_v);
    }
    string_of(&out)
}

/// Whether `v` ends with `p`.
fn ends_with_chars(v: &Vec<char>, p: &Vec<char>) -> (r: bool)
    ensures
        r == ends_with(v@, p@),
{
    if p.len() > v.len() {
        return false;
    }
    let off = v.len() - p.len();
    let mut i: usize = 0;
    while i < p.len()
        invariant
            off + p.len() == v.len(),
            i <= p.len(),
            forall|k: int| 0 <= k < i ==> v@[off + k] == p@[k],
        decreases p.len() - i,
    {
        if v[off + i] != p[i] {
            assert(v@.subrange(off as int, v.len() as int)[i as int] != p@[i as int]);
            return false;
        }
        i = i + 1;
    }
    assert(v@.subrange(off as int, v.len() as int) =~= p@);
    true
}

} // verus!
