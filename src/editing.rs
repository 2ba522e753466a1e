use vstd::prelude::*;

use crate::editorconfig::{eq_ignore_ascii_case, eq_ignore_case};
use crate::text::{chars_of, is_whitespace, is_ws, matches_at, slice_chars, starts_with, string_of};

verus! {

/// Words a minute assumed for the reading time.
pub const READING_SPEED_WPM: usize = 200;

/// The last component of a `/`-separated path, trailing slashes ignored;
/// none for an empty path, the root, `.` or `..`.
pub open spec fn file_name_spec(path: Seq<char>) -> Option<Seq<char>> {
    let end = slash_back(path, path.len() as int);
    let start = component_start(path, end);
    let name = path.subrange(start, end);
    if name.len() == 0 || name == seq!['.'] || name == seq!['.', '.'] {
        None
    } else {
        Some(name)
    }
}

/// The index just past the last character before `j` that is not `/`.
pub open spec fn slash_back(s: Seq<char>, j: int) -> int
    decreases j,
{
    if 0 < j <= s.len() && s[j - 1] == '/' {
        slash_back(s, j - 1)
    } else {
        j
    }
}

/// The start of the component that ends at `j`.
pub open spec fn component_start(s: Seq<char>, j: int) -> int
    decreases j,
{
    if 0 < j <= s.len() && s[j - 1] != '/' {
        component_start(s, j - 1)
    } else {
        j
    }
}

/// The index of the last `'.'` in `s` before `j`, if any.
pub open spec fn last_dot_before(s: Seq<char>, j: int) -> Option<int>
    decreases j,
{
    if j <= 0 || j > s.len() {
        None
    } else if s[j - 1] == '.' {
        Some(j - 1)
    } else {
        last_dot_before(s, j - 1)
    }
}

/// The extension of a file name: what follows its last `'.'`, unless that
/// dot starts the name.
pub open spec fn extension_spec(name: Seq<char>) -> Option<Seq<char>> {
    match last_dot_before(name, name.len() as int) {
        Some(i) if i > 0 => Some(name.skip(i + 1)),
        _ => None,
    }
}

/// The stem of a file name: what precedes its last `'.'`, or all of it when
/// it has no dot but at its start.
pub open spec fn stem_spec(name: Seq<char>) -> Seq<char> {
    match last_dot_before(name, name.len() as int) {
        Some(i) if i > 0 => name.subrange(0, i),
        _ => name,
    }
}

/// The last component of `path`.
pub fn file_name_of(path: &str) -> (r: Option<String>)
    ensures
        match file_name_spec(path@) {
            Some(n) => r matches Some(s) && s@ == n,
            None => r is None,
        },
{
    let p = chars_of(path);
    let mut end = p.len();
    while end > 0 && p[end - 1] == '/'
        invariant
            end <= p.len(),
            slash_back(p@, end as int) == slash_back(p@, p.len() as int),
        decreases end,
    {
        end = end - 1;
    }
    let mut start = end;
    while start > 0 && p[start - 1] != '/'
        invariant
            start <= end <= p.len(),
            component_start(p@, start as int) == component_start(p@, end as int),
        decreases start,
    {
        start = start - 1;
    }
    let name = slice_chars(&p, start, end);
    let n = name.len();
    if n == 0 || (n == 1 && name[0] == '.') || (n == 2 && name[0] == '.' && name[1] == '.') {
        proof {
            if n == 1 { assert(name@ =~= seq!['.']); }
            if n == 2 { assert(name@ =~= seq!['.', '.']); }
        }
        return None;
    }
    proof {
        if name@ == seq!['.'] { assert(name@[0] == '.'); }
        if name@ == seq!['.', '.'] { assert(name@[0] == '.' && name@[1] == '.'); }
    }
    Some(string_of(&name))
}

/// The position of the last `'.'` in `name`.
fn last_dot(name: &Vec<char>) -> (r: Option<usize>)
    ensures
        match last_dot_before(name@, name.len() as int) {
            Some(i) => r == Some(i as usize) && 0 <= i < name.len(),
            None => r is None,
        },
{
    let mut j = name.len();
    while j > 0
        invariant
            j <= name.len(),
            last_dot_before(name@, j as int) == last_dot_before(name@, name.len() as int),
        decreases j,
    {
        if name[j - 1] == '.' {
            return Some(j - 1);
        }
        j = j - 1;
    }
    None
}

/// Whether a file name has a markdown extension, `md` or `markdown` in any case.
pub open spec fn is_markdown_spec(name: Seq<char>) -> bool {
    match extension_spec(name) {
        Some(e) => eq_ignore_case(e, "md"@) || eq_ignore_case(e, "markdown"@),
        None => false,
    }
}

/// Whether the file at `path` has a markdown extension.
pub fn is_markdown_path(path: &str) -> (r: bool)
    ensures
        r == match file_name_spec(path@) {
            Some(n) => is_markdown_spec(n),
            None => false,
        },
{
    let name = match file_name_of(path) {
        Some(n) => chars_of(n.as_str()),
        None => {
            return false;
        },
    };
    match last_dot(&name) {
        Some(i) => {
            if i == 0 {
                return false;
            }
            let ext = slice_chars(&name, i + 1, name.len());
            assert(ext@ =~= name@.skip(i + 1));
            eq_ignore_ascii_case(&ext, "md") || eq_ignore_ascii_case(&ext, "markdown")
        },
        None => false,
    }
}

/// Whether a path is a markdown file, by its name.
pub open spec fn markdown_path_spec(path: Seq<char>) -> bool {
    match file_name_spec(path) {
        Some(n) => is_markdown_spec(n),
        None => false,
    }
}

/// The first of `paths` that is a markdown file.
pub fn first_markdown_path(paths: &Vec<String>) -> (r: Option<String>)
    ensures
        match r {
            Some(p) => exists|i: int| 0 <= i < paths.len() && paths@[i]@ == p@ && markdown_path_spec(p@)
                && forall|j: int| 0 <= j < i ==> !markdown_path_spec(#[trigger] paths@[j]@),
            None => forall|j: int| 0 <= j < paths.len() ==> !markdown_path_spec(#[trigger] paths@[j]@),
        },
{
    let mut i: usize = 0;
    while i < paths.len()
        invariant
            i <= paths.len(),
            forall|j: int| 0 <= j < i ==> !markdown_path_spec(#[trigger] paths@[j]@),
        decreases paths.len() - i,
    {
        if is_markdown_path(paths[i].as_str()) {
            let r = paths[i].clone();
            assert(paths@[i as int]@ == r@);
            return Some(r);
        }
        i = i + 1;
    }
    None
}

/// The name offered when exporting HTML: the document's stem with `.html`,
/// or `document.html` without a usable stem.
pub open spec fn html_name_spec(path: Option<Seq<char>>) -> Seq<char> {
    let stem = match path {
        Some(p) => match file_name_spec(p) {
            Some(n) => stem_spec(n),
            None => Seq::empty(),
        },
        None => Seq::empty(),
    };
    if stem.len() == 0 {
        "document.html"@
    } else {
        stem + ".html"@
    }
}

/// The file name to suggest for an HTML export of the document at `path`.
pub fn suggested_html_file_name(path: Option<&str>) -> (r: String)
    ensures
        r@ == html_name_spec(match path {
            Some(p) => Some(p@),
            None => None,
        }),
{
    let name = match path {
        Some(p) => file_name_of(p),
        None => None,
    };
    let stem = match name {
        Some(n) => {
            let c = chars_of(n.as_str());
            match last_dot(&c) {
                Some(i) => if i > 0 { slice_chars(&c, 0, i) } else { c },
                None => c,
            }
        },
        None => Vec::new(),
    };
    if stem.len() == 0 {
        return "document.html".to_owned();
    }
    let mut r = string_of(&stem);
    r.append(".html");
    r
}

/// The number of non-overlapping occurrences of `n` in `h` from `i` on,
/// found left to right.
pub open spec fn count_from(h: Seq<char>, n: Seq<char>, i: int) -> int
    decreases h.len() + 1 - i,
{
    if n.len() == 0 || i < 0 || i + n.len() > h.len() {
        0
    } else if starts_with(h.skip(i), n) {
        1 + count_from(h, n, i + n.len())
    } else {
        count_from(h, n, i + 1)
    }
}

/// `h` from `i` on with each occurrence of `n`, found left to right, replaced by `r`.
pub open spec fn replace_from(h: Seq<char>, n: Seq<char>, r: Seq<char>, i: int) -> Seq<char>
    decreases h.len() + 1 - i,
{
    if i < 0 || i >= h.len() {
        Seq::empty()
    } else if n.len() > 0 && i + n.len() <= h.len() && starts_with(h.skip(i), n) {
        r + replace_from(h, n, r, i + n.len())
    } else {
        seq![h[i]] + replace_from(h, n, r, i + 1)
    }
}

/// How many times `needle` occurs in `haystack`, without overlaps; none for
/// an empty needle.
pub fn find_match_count(haystack: &str, needle: &str) -> (r: usize)
    ensures
        r == count_from(haystack@, needle@, 0),
{
    let h = chars_of(haystack);
    let n = chars_of(needle);
    count_matches(&h, &n)
}

fn count_matches(h: &Vec<char>, n: &Vec<char>) -> (r: usize)
    ensures
        r == count_from(h@, n@, 0),
{
    if n.len() == 0 {
        return 0;
    }
    let mut count: usize = 0;
    let mut i: usize = 0;
    while i < h.len() && n.len() <= h.len() - i
        invariant
            n.len() > 0,
            i <= h.len(),
            count <= i,
            count + count_from(h@, n@, i as int) == count_from(h@, n@, 0),
        decreases h.len() - i,
    {
        if matches_at(h, i, n) {
            count = count + 1;
            i = i + n.len();
        } else {
            i = i + 1;
        }
    }
    count
}

/// Replaces every occurrence of `needle` in `haystack` by `replacement` and
/// says how many there were. Nothing is replaced for an empty needle or one
/// equal to its replacement.
pub fn replace_all_occurrences(haystack: &str, needle: &str, replacement: &str) -> (r: (String, usize))
    ensures
        needle@.len() == 0 || needle@ == replacement@ ==> r.0@ == haystack@ && r.1 == 0,
        !(needle@.len() == 0 || needle@ == replacement@) ==> r.0@ == replace_from(haystack@, needle@, replacement@, 0)
            && r.1 == count_from(haystack@, needle@, 0),
{
    let h = chars_of(haystack);
    let n = chars_of(needle);
    let rep = chars_of(replacement);
    if n.len() == 0 || crate::text::same_text(needle, replacement) {
        return (haystack.to_owned(), 0);
    }
    let count = count_matches(&h, &n);
    let mut out: Vec<char> = Vec::new();
    let mut i: usize = 0;
    while i < h.len()
        invariant
            n.len() > 0,
            i <= h.len(),
            out@ + replace_from(h@, n@, rep@, i as int) == replace_from(h@, n@, rep@, 0),
        decreases h.len() - i,
    {
        let ghost before = out@;
        if n.len() <= h.len() - i && matches_at(&h, i, &n) {
            let mut j: usize = 0;
            while j < rep.len()
                invariant
                    j <= rep.len(),
                    out@ == before + rep@.subrange(0, j as int),
                decreases rep.len() - j,
            {
                out.push(rep[j]);
                assert(rep@.subrange(0, j + 1) =~= rep@.subrange(0, j as int).push(rep@[j as int]));
                j = j + 1;
            }
            assert(rep@.subrange(0, rep.len() as int) =~= rep@);
            i = i + n.len();
        } else {
            out.push(h[i]);
            assert(out@ == before + seq![h@[i as int]]);
            i = i + 1;
        }
    }
    proof {
        assert(replace_from(h@, n@, rep@, i as int) =~= Seq::empty());
    }
    (string_of(&out), count)
}

/// Which save a keyboard shortcut asks for.
#[derive(Clone, Copy, Debug, PartialEq, Eq, Structural)]
pub enum SaveTrigger {
    Save,
    SaveAs,
}

/// The save a shortcut asks for: command with S saves, with shift too it
/// saves under a new name.
pub fn save_trigger_from_shortcut(command: bool, shift: bool, key_s: bool) -> (r: Option<SaveTrigger>)
    ensures
        r == (if !(command && key_s) {
            None
        } else if shift {
            Some(SaveTrigger::SaveAs)
        } else {
            Some(SaveTrigger::Save)
        }),
{
    if !(command && key_s) {
        return None;
    }
    if shift {
        Some(SaveTrigger::SaveAs)
    } else {
        Some(SaveTrigger::Save)
    }
}

/// How the document is shown.
#[derive(Clone, Copy, Debug, PartialEq, Eq, Structural)]
pub enum Mode {
    Edit,
    Preview,
    SideBySide,
}

impl Mode {
    /// The next mode: edit, preview, side by side, and back.
    pub fn cycle(self) -> (r: Mode)
        ensures
            r == match self {
                Mode::Edit => Mode::Preview,
                Mode::Preview => Mode::SideBySide,
                Mode::SideBySide => Mode::Edit,
            },
    {
        match self {
            Mode::Edit => Mode::Preview,
            Mode::Preview => Mode::SideBySide,
            Mode::SideBySide => Mode::Edit,
        }
    }

    /// The mode's name as shown to the user.
    pub fn label(self) -> (r: &'static str)
        ensures
            r@ == match self {
                Mode::Edit => "Edit"@,
                Mode::Preview => "Preview"@,
                Mode::SideBySide => "Side-by-side"@,
            },
    {
        match self {
            Mode::Edit => "Edit",
            Mode::Preview => "Preview",
            Mode::SideBySide => "Side-by-side",
        }
    }
}

impl Default for Mode {
    fn default() -> (r: Mode)
        ensures
            r == Mode::Edit,
    {
        Mode::Edit
    }
}

/// ASCII white space as `u8::is_ascii_whitespace` has it.
pub open spec fn is_ascii_ws(c: char) -> bool {
    c == ' ' || c == '\t' || c == '\n' || c == '\u{c}' || c == '\r'
}

/// Every character of `s` is ASCII.
pub open spec fn all_ascii(s: Seq<char>) -> bool {
    forall|i: int| 0 <= i < s.len() ==> (#[trigger] s[i] as u32) < 128
}

/// White space for the word count: ASCII white space in an ASCII text,
/// Unicode white space otherwise.
pub open spec fn word_gap(c: char, ascii: bool) -> bool {
    if ascii {
        is_ascii_ws(c)
    } else {
        is_ws(c)
    }
}

/// The words among the first `n` characters: runs of non-gap characters.
pub open spec fn words_in(s: Seq<char>, n: int, ascii: bool) -> int
    decreases n,
{
    if n <= 0 || n > s.len() {
        0
    } else {
        words_in(s, n - 1, ascii) + if !word_gap(s[n - 1], ascii) && (n == 1 || word_gap(s[n - 2], ascii)) {
            1int
        } else {
            0int
        }
    }
}

/// The `'\n'` among the first `n` characters.
pub open spec fn newlines_in(s: Seq<char>, n: int) -> int
    decreases n,
{
    if n <= 0 || n > s.len() {
        0
    } else {
        newlines_in(s, n - 1) + if s[n - 1] == '\n' { 1int } else { 0int }
    }
}

/// Word, character and line counts of a text.
#[derive(Clone, Copy, Debug, PartialEq, Eq, Structural)]
pub struct DocumentStats {
    pub words: usize,
    pub chars: usize,
    pub lines: usize,
}

impl DocumentStats {
    /// Counts the words (runs of characters between white space), the
    /// characters, and the lines (one more than the newlines) of `text`.
    pub fn from_text(text: &str) -> (r: DocumentStats)
        requires
            text@.len() < usize::MAX,
        ensures
            r.words == words_in(text@, text@.len() as int, all_ascii(text@)),
            r.chars == text@.len(),
            r.lines == 1 + newlines_in(text@, text@.len() as int),
    {
        let s = chars_of(text);
        let mut ascii = true;
        let mut i: usize = 0;
        while i < s.len()
            invariant
                i <= s.len(),
                ascii == forall|k: int| 0 <= k < i ==> (#[trigger] s@[k] as u32) < 128,
            decreases s.len() - i,
        {
            if (s[i] as u32) >= 128 {
                ascii = false;
            }
            i = i + 1;
        }
        let mut words: usize = 0;
        let mut lines: usize = 1;
        let mut in_word = false;
        let mut i: usize = 0;
        while i < s.len()
            invariant
                s@ == text@,
                s.len() < usize::MAX,
                ascii == all_ascii(s@),
                i <= s.len(),
                words == words_in(s@, i as int, ascii),
                words <= i,
                lines == 1 + newlines_in(s@, i as int),
                lines <= i + 1,
                in_word == (i > 0 && !word_gap(s@[i - 1], ascii)),
            decreases s.len() - i,
        {
            let c = s[i];
            if c == '\n' {
                lines = lines + 1;
            }
            let gap = if ascii {
                c == ' ' || c == '\t' || c == '\n' || c == '\u{c}' || c == '\r'
            } else {
                is_whitespace(c)
            };
            if gap {
                in_word = false;
            } else if !in_word {
                words = words + 1;
                in_word = true;
            }
            i = i + 1;
        }
        DocumentStats { words, chars: s.len(), lines }
    }

    /// Minutes to read the words at `READING_SPEED_WPM`, rounded up.
    pub fn reading_minutes(self) -> (r: usize)
        ensures
            r == (self.words + READING_SPEED_WPM - 1) / READING_SPEED_WPM as int,
    {
        if self.words == 0 {
            return 0;
        }
        let q = self.words / READING_SPEED_WPM;
        if self.words % READING_SPEED_WPM != 0 {
            q + 1
        } else {
            q
        }
    }
}

impl Default for DocumentStats {
    fn default() -> (r: DocumentStats)
        ensures
            r.words == 0,
            r.chars == 0,
            r.lines == 1,
    {
        DocumentStats { words: 0, chars: 0, lines: 1 }
    }
}

/// The search bar: its query and replacement, and the match count cached
/// for one query and one version of the text.
#[derive(Debug)]
pub struct SearchState {
    pub visible: bool,
    pub replace_mode: bool,
    pub query: String,
    pub replacement: String,
    pub last_replace_count: Option<usize>,
    pub match_count_query: String,
    pub match_count_seq: u64,
    pub match_count: usize,
}

impl Default for SearchState {
    fn default() -> (r: SearchState)
        ensures
            !r.visible,
            !r.replace_mode,
            r.query@.len() == 0,
            r.replacement@.len() == 0,
            r.last_replace_count is None,
            r.match_count_query@.len() == 0,
            r.match_count_seq == 0,
            r.match_count == 0,
    {
        SearchState {
            visible: false,
            replace_mode: false,
            query: String::new(),
            replacement: String::new(),
            last_replace_count: None,
            match_count_query: String::new(),
            match_count_seq: 0,
            match_count: 0,
        }
    }
}

impl SearchState {
    /// The number of matches of the query in `haystack`, the text at version
    /// `haystack_seq`; counted again only when the query or the version
    /// changed since the last count.
    pub fn match_count(&mut self, haystack: &str, haystack_seq: u64) -> (r: usize)
        ensures
            old(self).match_count_seq == haystack_seq && old(self).match_count_query@ == old(self).query@ ==> {
                &&& r == old(self).match_count
                &&& *final(self) == *old(self)
            },
            !(old(self).match_count_seq == haystack_seq && old(self).match_count_query@ == old(self).query@) ==> {
                &&& r == count_from(haystack@, old(self).query@, 0)
                &&& final(self).match_count == r
                &&& final(self).match_count_seq == haystack_seq
                &&& final(self).match_count_query@ == old(self).query@
                &&& final(self).query == old(self).query
                &&& final(self).replacement == old(self).replacement
                &&& final(self).visible == old(self).visible
                &&& final(self).replace_mode == old(self).replace_mode
                &&& final(self).last_replace_count == old(self).last_replace_count
            },
    {
        if self.match_count_seq == haystack_seq && self.match_count_query == self.query {
            return self.match_count;
        }
        let count = find_match_count(haystack, self.query.as_str());
        self.match_count_query = self.query.clone();
        self.match_count_seq = haystack_seq;
        self.match_count = count;
        count
    }
}

/// The version of this library.
pub fn app_version() -> (r: &'static str)
    ensures
        r@ == "0.1.0"@,
{
    "0.1.0"
}

/// `s` with each backslash turned into a slash.
pub open spec fn forward_slashes(s: Seq<char>) -> Seq<char> {
    s.map_values(|c: char| if c == '\\' { '/' } else { c })
}

/// The base URI for images relative to a document in directory `dir`:
/// `file://` followed by the directory with forward slashes, starting and
/// ending with a slash; plain `file://` without a directory.
pub open spec fn image_uri_spec(dir: Option<Seq<char>>) -> Seq<char> {
    match dir {
        None => "file://"@,
        Some(d) => {
            let n = forward_slashes(d);
            let n1 = if n.len() > 0 && n[0] == '/' { n } else { seq!['/'] + n };
            let n2 = if n1.last() == '/' { n1 } else { n1.push('/') };
            "file://"@ + n2
        },
    }
}

/// The base URI for images of a document whose directory (made absolute by
/// the caller) is `dir`.
pub fn default_image_uri_scheme(dir: Option<&str>) -> (r: String)
    ensures
        r@ == image_uri_spec(match dir {
            Some(d) => Some(d@),
            None => None,
        }),
{
    let d = match dir {
        None => {
            return "file://".to_owned();
        },
        Some(d) => chars_of(d),
    };
    let mut n: Vec<char> = Vec::new();
    if d.len() == 0 || (d[0] != '/' && d[0] != '\\') {
        n.push('/');
    }
    let ghost start = n@;
    let mut i: usize = 0;
    while i < d.len()
        invariant
            i <= d.len(),
            n@ == start + forward_slashes(d@).subrange(0, i as int),
        decreases d.len() - i,
    {
        let c = d[i];
        n.push(if c == '\\' { '/' } else { c });
        assert(forward_slashes(d@).subrange(0, i + 1) =~= forward_slashes(d@).subrange(0, i as int).push(
            if c == '\\' { '/' } else { c },
        ));
        i = i + 1;
    }
    proof {
        let f = forward_slashes(d@);
        assert(f.subrange(0, d.len() as int) =~= f);
        if d.len() > 0 {
            assert(f[0] == (if d@[0] == '\\' { '/' } else { d@[0] }));
        }
        if f.len() > 0 && f[0] == '/' {
            assert(start =~= Seq::<char>::empty());
        } else {
            assert(start =~= seq!['/']);
        }
    }
    if n[n.len() - 1] != '/' {
        n.push('/');
    }
    let mut r = "file://".to_owned();
    r.append(string_of(&n).as_str());
    r
}

} // verus!
