//! The partial-link parser: two recognizers turning the current line and the
//! cursor offset into a structured partial-link context, or nothing.
//!
//! The markdown recognizer matches the line prefix up to the cursor against
//! the shape `[display](path` or `[display](path#infileref`, anchored at the
//! cursor, leftmost start first. The wiki recognizer scans backward from the
//! cursor for the nearest `[[` marker with no `]` between it and the cursor.

use vstd::prelude::*;
use vstd::string::StrSliceExecFns;
use vstd::string::StringExecFns;

use crate::LineRange;
use crate::Position;
use crate::text::Stop;
use crate::text::find_char;
use crate::text::first_stop;
use crate::text::lemma_find_char_bounds;
use crate::text::lemma_first_stop_bounds;
use crate::text::seek_char;
use crate::text::seek_stop;
use crate::vault::RefView;
use crate::vault::Vault;
use crate::vault::spec_scan_line;

verus! {

/// The typed `#` fragment of an unfinished markdown link; a block reference
/// is written `#^index`, its stored text excludes the `^`.
pub enum PartialInfileRef {
    HeadingRef(String),
    BlockRef(String),
}

/// The mathematical value of a `PartialInfileRef`.
pub enum InfileView {
    HeadingRef(Seq<char>),
    BlockRef(Seq<char>),
}

impl DeepView for PartialInfileRef {
    type V = InfileView;

    open spec fn deep_view(&self) -> InfileView {
        match self {
            PartialInfileRef::HeadingRef(s) => InfileView::HeadingRef(s@),
            PartialInfileRef::BlockRef(s) => InfileView::BlockRef(s@),
        }
    }
}

impl InfileView {
    /// The fragment as it stands in the typed text, `^` included for blocks.
    pub open spec fn text(self) -> Seq<char> {
        match self {
            InfileView::HeadingRef(s) => s,
            InfileView::BlockRef(s) => seq!['^'] + s,
        }
    }
}

impl PartialInfileRef {
    /// The fragment as it stands in the typed text, `^` included for blocks.
    pub fn to_string(&self) -> (r: String)
        ensures
            r@ == self.deep_view().text(),
    {
        match self {
            PartialInfileRef::HeadingRef(s) => s.clone(),
            PartialInfileRef::BlockRef(s) => {
                proof {
                    reveal_strlit("^");
                }
                let mut r = "^".to_owned();
                r.append(s.as_str());
                proof {
                    assert(r@ =~= self.deep_view().text());
                }
                r
            },
        }
    }

    /// The fragment used when assembling the fuzzy filter text; it equals
    /// the typed text.
    pub fn completion_string(&self) -> (r: String)
        ensures
            r@ == self.deep_view().text(),
    {
        self.to_string()
    }
}

/// The spans of a markdown partial-link match inside the line prefix:
/// `[display](path` or `[display](path#infile`, ending exactly at the cursor.
pub struct MdParse {
    pub start: int,
    pub display_end: int,
    pub path_end: int,
    pub infile: Option<(int, int)>,
}

/// The match starting exactly at `i` and ending exactly at the prefix end.
pub open spec fn md_partial_at(p: Seq<char>, i: int) -> Option<MdParse>
    recommends
        0 <= i < p.len(),
{
    if p[i] != '[' {
        None
    } else {
        let d = first_stop(p, i + 1, Stop::MdDelim);
        if !(d < p.len() && p[d] == ']' && d + 1 < p.len() && p[d + 1] == '(') {
            None
        } else {
            let q = first_stop(p, d + 2, Stop::PathDelim);
            if q == p.len() {
                Some(MdParse { start: i, display_end: d, path_end: q, infile: None })
            } else if p[q] == '#' {
                let r = first_stop(p, q + 1, Stop::MdDelim);
                if r == p.len() {
                    Some(
                        MdParse {
                            start: i,
                            display_end: d,
                            path_end: q,
                            infile: Some((q + 1, r)),
                        },
                    )
                } else {
                    None
                }
            } else {
                None
            }
        }
    }
}

/// The leftmost match: the one whose `[` stands earliest in the prefix.
pub open spec fn md_partial_from(p: Seq<char>, i: int) -> Option<MdParse>
    decreases p.len() - i when 0 <= i
{
    if i >= p.len() {
        None
    } else if md_partial_at(p, i) is Some {
        md_partial_at(p, i)
    } else {
        md_partial_from(p, i + 1)
    }
}

pub open spec fn spec_md_partial(p: Seq<char>) -> Option<MdParse> {
    md_partial_from(p, 0)
}

pub proof fn lemma_md_partial_at_bounds(p: Seq<char>, i: int)
    requires
        0 <= i < p.len(),
        md_partial_at(p, i) is Some,
    ensures
        ({
            let m = md_partial_at(p, i)->Some_0;
            &&& m.start == i
            &&& m.start < m.display_end
            &&& m.display_end + 2 <= m.path_end <= p.len()
            &&& match m.infile {
                Some((a, b)) => a == m.path_end + 1 && a <= b == p.len(),
                None => m.path_end == p.len(),
            }
        }),
{
    lemma_first_stop_bounds(p, i + 1, Stop::MdDelim);
    let d = first_stop(p, i + 1, Stop::MdDelim);
    lemma_first_stop_bounds(p, d + 2, Stop::PathDelim);
    let q = first_stop(p, d + 2, Stop::PathDelim);
    if q < p.len() && p[q] == '#' {
        lemma_first_stop_bounds(p, q + 1, Stop::MdDelim);
    }
}

pub proof fn lemma_md_partial_bounds(p: Seq<char>, i: int)
    requires
        0 <= i,
        md_partial_from(p, i) is Some,
    ensures
        ({
            let m = md_partial_from(p, i)->Some_0;
            &&& i <= m.start < p.len()
            &&& md_partial_at(p, m.start) == md_partial_from(p, i)
            &&& m.start < m.display_end
            &&& m.display_end + 2 <= m.path_end <= p.len()
            &&& match m.infile {
                Some((a, b)) => a == m.path_end + 1 && a <= b == p.len(),
                None => m.path_end == p.len(),
            }
        }),
    decreases p.len() - i,
{
    if i < p.len() {
        if md_partial_at(p, i) is Some {
            lemma_md_partial_at_bounds(p, i);
        } else {
            lemma_md_partial_bounds(p, i + 1);
        }
    }
}

fn md_partial_at_exec(p: &str, i: usize, len: usize) -> (r: Option<(usize, usize, Option<(usize, usize)>)>)
    requires
        len == p@.len(),
        i < len,
    ensures
        match r {
            Some((d, q, inf)) => md_partial_at(p@, i as int) == Some(
                MdParse {
                    start: i as int,
                    display_end: d as int,
                    path_end: q as int,
                    infile: match inf {
                        Some((a, b)) => Some((a as int, b as int)),
                        None => None,
                    },
                },
            ),
            None => md_partial_at(p@, i as int) is None,
        },
{
    if p.get_char(i) != '[' {
        return None;
    }
    let d = seek_stop(p, i + 1, len, Stop::MdDelim);
    if !(d < len && p.get_char(d) == ']' && d + 1 < len && p.get_char(d + 1) == '(') {
        return None;
    }
    let q = seek_stop(p, d + 2, len, Stop::PathDelim);
    if q == len {
        Some((d, q, None))
    } else if p.get_char(q) == '#' {
        let r = seek_stop(p, q + 1, len, Stop::MdDelim);
        if r == len {
            Some((d, q, Some((q + 1, r))))
        } else {
            None
        }
    } else {
        None
    }
}

fn md_partial_exec(p: &str, i: usize, len: usize) -> (r: Option<(usize, usize, usize, Option<(usize, usize)>)>)
    requires
        len == p@.len(),
        i <= len,
    ensures
        match r {
            Some((s, d, q, inf)) => md_partial_from(p@, i as int) == Some(
                MdParse {
                    start: s as int,
                    display_end: d as int,
                    path_end: q as int,
                    infile: match inf {
                        Some((a, b)) => Some((a as int, b as int)),
                        None => None,
                    },
                },
            ),
            None => md_partial_from(p@, i as int) is None,
        },
    decreases len - i,
{
    if i == len {
        None
    } else {
        match md_partial_at_exec(p, i, len) {
            Some((d, q, inf)) => Some((i, d, q, inf)),
            None => md_partial_exec(p, i + 1, len),
        }
    }
}

/// An unfinished markdown link under the cursor, with every typed fragment
/// and the computed replacement span.
pub struct MarkdownLinkCompleter {
    /// The typed display text and its span.
    pub display: (String, LineRange),
    /// The typed path fragment and its span.
    pub path: (String, LineRange),
    /// The typed `#` fragment, span including neither `#` nor, for blocks,
    /// excluding the `^` from the text.
    pub infile_ref: Option<(PartialInfileRef, LineRange)>,
    /// The whole matched text and its span.
    pub partial_link: (String, LineRange),
    /// The span the completion's edit replaces.
    pub full_range: LineRange,
    pub line_nr: u32,
    pub position: Position,
    pub file_path: String,
}

/// The mathematical value of a `MarkdownLinkCompleter`.
pub struct MdCompleterView {
    pub display: (Seq<char>, LineRange),
    pub path: (Seq<char>, LineRange),
    pub infile_ref: Option<(InfileView, LineRange)>,
    pub partial_link: (Seq<char>, LineRange),
    pub full_range: LineRange,
    pub line_nr: u32,
    pub position: Position,
    pub file_path: Seq<char>,
}

impl DeepView for MarkdownLinkCompleter {
    type V = MdCompleterView;

    open spec fn deep_view(&self) -> MdCompleterView {
        MdCompleterView {
            display: (self.display.0@, self.display.1),
            path: (self.path.0@, self.path.1),
            infile_ref: match &self.infile_ref {
                Some((inf, r)) => Some((inf.deep_view(), *r)),
                None => None,
            },
            partial_link: (self.partial_link.0@, self.partial_link.1),
            full_range: self.full_range,
            line_nr: self.line_nr,
            position: self.position,
            file_path: self.file_path@,
        }
    }
}

/// The first link occurrence whose character span holds the cursor, both
/// bounds inclusive.
pub open spec fn first_overlap(refs: Seq<RefView>, i: int, character: int) -> Option<RefView>
    decreases refs.len() - i when 0 <= i
{
    if i >= refs.len() {
        None
    } else if refs[i].range.start.character <= character && character
        <= refs[i].range.end.character {
        Some(refs[i])
    } else {
        first_overlap(refs, i + 1, character)
    }
}

/// What the markdown recognizer yields on a line, cursor offset and document
/// path: the leftmost match of the partial-link shape anchored at the cursor;
/// the replacement span is the full span of a complete markdown link
/// overlapping the cursor when there is one, else the match's own span,
/// extended by one character when the character at the cursor is `)`.
pub open spec fn spec_md_construct(
    line: Seq<char>,
    line_nr: u32,
    character: int,
    file_path: Seq<char>,
) -> Option<MdCompleterView> {
    if character > line.len() {
        None
    } else {
        let p = line.subrange(0, character);
        match spec_md_partial(p) {
            None => None,
            Some(m) => {
                let over = first_overlap(spec_scan_line(line, line_nr), 0, character);
                let full_range = match over {
                    Some(rv) => if rv.kind.spec_is_md_link() {
                        LineRange {
                            start: rv.range.start.character as usize,
                            end: rv.range.end.character as usize,
                        }
                    } else {
                        LineRange { start: m.start as usize, end: character as usize }
                    },
                    None => if character < line.len() && line[character] == ')' {
                        LineRange { start: m.start as usize, end: (character + 1) as usize }
                    } else {
                        LineRange { start: m.start as usize, end: character as usize }
                    },
                };
                Some(
                    MdCompleterView {
                        display: (
                            p.subrange(m.start + 1, m.display_end),
                            LineRange {
                                start: (m.start + 1) as usize,
                                end: m.display_end as usize,
                            },
                        ),
                        path: (
                            p.subrange(m.display_end + 2, m.path_end),
                            LineRange {
                                start: (m.display_end + 2) as usize,
                                end: m.path_end as usize,
                            },
                        ),
                        infile_ref: match m.infile {
                            None => None,
                            Some((a, b)) => Some(
                                (
                                    if a < b && p[a] == '^' {
                                        InfileView::BlockRef(p.subrange(a + 1, b))
                                    } else {
                                        InfileView::HeadingRef(p.subrange(a, b))
                                    },
                                    LineRange { start: a as usize, end: b as usize },
                                ),
                            ),
                        },
                        partial_link: (
                            p.subrange(m.start, p.len() as int),
                            LineRange { start: m.start as usize, end: character as usize },
                        ),
                        full_range,
                        line_nr,
                        position: Position { line: line_nr, character: character as u32 },
                        file_path,
                    },
                )
            },
        }
    }
}

impl MarkdownLinkCompleter {
    /// Machine limits carried over from the line the completer was built on.
    pub open spec fn wf(self) -> bool {
        &&& self.full_range.start <= u32::MAX
        &&& self.full_range.end <= u32::MAX
        &&& self.display.0@.len() <= u32::MAX
        &&& self.path.0@.len() <= u32::MAX
        &&& match self.deep_view().infile_ref {
            Some((inf, _)) => inf.text().len() <= u32::MAX,
            None => true,
        }
    }

    /// Runs the markdown recognizer at a cursor position of a document.
    pub fn construct(vault: &Vault, file_path: &String, line: u32, character: u32) -> (r: Option<
        MarkdownLinkCompleter,
    >)
        requires
            vault.wf(),
        ensures
            match r {
                Some(c) => {
                    &&& vault.spec_select_line(file_path@, line as int) matches Some(l)
                        && spec_md_construct(l, line, character as int, file_path@) == Some(
                        c.deep_view(),
                    )
                    &&& c.wf()
                },
                None => match vault.spec_select_line(file_path@, line as int) {
                    Some(l) => spec_md_construct(l, line, character as int, file_path@) is None,
                    None => true,
                },
            },
    {
        let line_text = match vault.select_line(file_path, line as usize) {
            Some(t) => t,
            None => {
                return None;
            },
        };
        proof {
            vault.lemma_select_line_wf(file_path@, line as int);
        }
        let s = line_text.as_str();
        let len = s.unicode_len();
        let character_us = character as usize;
        if character_us > len {
            return None;
        }
        let p = s.substring_char(0, character_us);
        let plen = character_us;
        let m = match md_partial_exec(p, 0, plen) {
            Some(m) => m,
            None => {
                return None;
            },
        };
        let (mstart, d, q, inf) = m;
        proof {
            lemma_md_partial_bounds(p@, 0);
        }
        let refs = crate::vault::scan_line(&line_text, line);
        let over = Self::overlap_rec(&refs, 0, character);
        let full_range = match over {
            Some((kind_is_md, ostart, oend)) => {
                if kind_is_md {
                    LineRange { start: ostart as usize, end: oend as usize }
                } else {
                    LineRange { start: mstart, end: character_us }
                }
            },
            None => {
                if character_us < len && s.get_char(character_us) == ')' {
                    LineRange { start: mstart, end: character_us + 1 }
                } else {
                    LineRange { start: mstart, end: character_us }
                }
            },
        };
        let infile_ref: Option<(PartialInfileRef, LineRange)> = match inf {
            None => None,
            Some((a, b)) => {
                let fragment = if a < b && p.get_char(a) == '^' {
                    PartialInfileRef::BlockRef(p.substring_char(a + 1, b).to_owned())
                } else {
                    PartialInfileRef::HeadingRef(p.substring_char(a, b).to_owned())
                };
                Some((fragment, LineRange { start: a, end: b }))
            },
        };
        let c = MarkdownLinkCompleter {
            display: (
                p.substring_char(mstart + 1, d).to_owned(),
                LineRange { start: mstart + 1, end: d },
            ),
            path: (p.substring_char(d + 2, q).to_owned(), LineRange { start: d + 2, end: q }),
            infile_ref,
            partial_link: (
                p.substring_char(mstart, plen).to_owned(),
                LineRange { start: mstart, end: character_us },
            ),
            full_range,
            line_nr: line,
            position: Position { line, character },
            file_path: file_path.clone(),
        };
        proof {
            let l = vault.spec_select_line(file_path@, line as int)->Some_0;
            assert(p@ =~= l.subrange(0, character as int));
            assert(spec_md_construct(l, line, character as int, file_path@) == Some(
                c.deep_view(),
            ));
        }
        Some(c)
    }

    fn overlap_rec(refs: &Vec<crate::vault::Reference>, i: usize, character: u32) -> (r: Option<
        (bool, u32, u32),
    >)
        requires
            i <= refs@.len(),
        ensures
            match r {
                Some((is_md, ostart, oend)) => first_overlap(
                    refs.deep_view(),
                    i as int,
                    character as int,
                ) matches Some(rv) && rv.kind.spec_is_md_link() == is_md && rv.range.start.character
                    == ostart && rv.range.end.character == oend,
                None => first_overlap(refs.deep_view(), i as int, character as int) is None,
            },
        decreases refs@.len() - i,
    {
        if i == refs.len() {
            None
        } else {
            let rf = &refs[i];
            if rf.range.start.character <= character && character <= rf.range.end.character {
                Some((rf.kind.is_md_link(), rf.range.start.character, rf.range.end.character))
            } else {
                Self::overlap_rec(refs, i + 1, character)
            }
        }
    }

    /// The refname text the user has typed so far: path fragment plus the
    /// typed `#` fragment's text.
    pub fn entered_refname(&self) -> (r: String)
        ensures
            r@ == self.path.0@ + (match self.deep_view().infile_ref {
                Some((inf, _)) => inf.text(),
                None => Seq::<char>::empty(),
            }),
    {
        let mut s = self.path.0.clone();
        match &self.infile_ref {
            Some((inf, _)) => {
                let t = inf.to_string();
                s.append(t.as_str());
            },
            None => {
                proof {
                    assert(s@ =~= self.path.0@ + Seq::<char>::empty());
                }
            },
        }
        s
    }
}

/// An unfinished wiki link under the cursor.
pub struct WikiLinkCompleter {
    /// The characters between the `[[` marker and the cursor.
    pub cmp_text: String,
    /// The offset of the second `[` of the opening marker.
    pub index: u32,
    pub character: u32,
    pub line: u32,
    pub file_path: String,
}

/// The mathematical value of a `WikiLinkCompleter`.
pub struct WikiCompleterView {
    pub cmp_text: Seq<char>,
    pub index: u32,
    pub character: u32,
    pub line: u32,
    pub file_path: Seq<char>,
}

impl DeepView for WikiLinkCompleter {
    type V = WikiCompleterView;

    open spec fn deep_view(&self) -> WikiCompleterView {
        WikiCompleterView {
            cmp_text: self.cmp_text@,
            index: self.index,
            character: self.character,
            line: self.line,
            file_path: self.file_path@,
        }
    }
}

/// The nearest `[[` marker at or before `j`: the index of its second `[`,
/// or -1 when the line holds none up to there.
pub open spec fn find_marker(line: Seq<char>, j: int) -> int
    decreases j + 1 when j >= -1
{
    if j < 1 {
        -1
    } else if line[j] == '[' && line[j - 1] == '[' {
        j
    } else {
        find_marker(line, j - 1)
    }
}

/// What the wiki recognizer yields: the nearest `[[` before the cursor with
/// no `]` between it and the cursor, and the typed fragment after it.
pub open spec fn spec_wiki_construct(
    line: Seq<char>,
    line_nr: u32,
    character: int,
    file_path: Seq<char>,
) -> Option<WikiCompleterView> {
    if character > line.len() {
        None
    } else {
        let m = find_marker(line, character - 1);
        if m < 0 {
            None
        } else if find_char(line, m, ']') < character {
            None
        } else {
            Some(
                WikiCompleterView {
                    cmp_text: line.subrange(m + 1, character),
                    index: m as u32,
                    character: character as u32,
                    line: line_nr,
                    file_path,
                },
            )
        }
    }
}

fn find_marker_exec(s: &str, j: usize, len: usize) -> (r: Option<usize>)
    requires
        len == s@.len(),
        j < len || j == 0,
    ensures
        match r {
            Some(i) => find_marker(s@, j as int) == i as int && 1 <= i <= j,
            None => find_marker(s@, j as int) == -1,
        },
    decreases j,
{
    if j < 1 {
        None
    } else if s.get_char(j) == '[' && s.get_char(j - 1) == '[' {
        Some(j)
    } else {
        find_marker_exec(s, j - 1, len)
    }
}

impl WikiLinkCompleter {
    /// Machine limits carried over from the line the completer was built on.
    pub open spec fn wf(self) -> bool {
        &&& self.index < self.character
        &&& self.cmp_text@.len() <= u32::MAX
    }

    /// Runs the wiki recognizer at a cursor position of a document.
    pub fn construct(vault: &Vault, file_path: &String, line: u32, character: u32) -> (r: Option<
        WikiLinkCompleter,
    >)
        requires
            vault.wf(),
        ensures
            match r {
                Some(c) => {
                    &&& vault.spec_select_line(file_path@, line as int) matches Some(l)
                        && spec_wiki_construct(l, line, character as int, file_path@) == Some(
                        c.deep_view(),
                    )
                    &&& c.wf()
                },
                None => match vault.spec_select_line(file_path@, line as int) {
                    Some(l) => spec_wiki_construct(l, line, character as int, file_path@) is None,
                    None => true,
                },
            },
    {
        let line_text = match vault.select_line(file_path, line as usize) {
            Some(t) => t,
            None => {
                return None;
            },
        };
        let s = line_text.as_str();
        let len = s.unicode_len();
        let character_us = character as usize;
        if character_us > len {
            return None;
        }
        let j = if character_us == 0 {
            0
        } else {
            character_us - 1
        };
        proof {
            if character_us == 0 {
                assert(find_marker(s@, -1) == -1);
            }
        }
        let m = match find_marker_exec(s, j, len) {
            Some(m) => m,
            None => {
                return None;
            },
        };
        proof {
            lemma_find_char_bounds(s@, m as int, ']');
        }
        if seek_char(s, m, len, ']') < character_us {
            return None;
        }
        let c = WikiLinkCompleter {
            cmp_text: s.substring_char(m + 1, character_us).to_owned(),
            index: m as u32,
            character,
            line,
            file_path: file_path.clone(),
        };
        Some(c)
    }

    /// The refname text the user has typed so far.
    pub fn entered_refname(&self) -> (r: String)
        ensures
            r@ == self.cmp_text@,
    {
        self.cmp_text.clone()
    }

    pub fn position(&self) -> (r: Position)
        ensures
            r == (Position { line: self.line, character: self.character }),
    {
        Position { line: self.line, character: self.character }
    }
}

/// With no complete-link occurrence overlapping the cursor and the character
/// exactly at the cursor a `)`, the computed replacement range extends the
/// raw match's span by exactly one character.
pub proof fn lemma_paren_extends_replacement(
    line: Seq<char>,
    line_nr: u32,
    character: int,
    path: Seq<char>,
)
    requires
        spec_md_construct(line, line_nr, character, path) is Some,
        first_overlap(spec_scan_line(line, line_nr), 0, character) is None,
        0 <= character < line.len(),
        character < u32::MAX,
        line[character] == ')',
    ensures
        ({
            let c = spec_md_construct(line, line_nr, character, path)->Some_0;
            let m = spec_md_partial(line.subrange(0, character))->Some_0;
            &&& c.full_range.start == m.start
            &&& c.full_range.end == character + 1
            &&& c.partial_link.1 == (LineRange {
                start: m.start as usize,
                end: character as usize,
            })
        }),
{
    lemma_md_partial_bounds(line.subrange(0, character), 0);
}

/// The two link syntaxes behind one interface: a closed union of the two
/// recognizers' results.
pub enum LinkCompleter {
    Markdown(MarkdownLinkCompleter),
    Wiki(WikiLinkCompleter),
}

impl LinkCompleter {
    pub open spec fn wf(self) -> bool {
        match self {
            LinkCompleter::Markdown(c) => c.wf(),
            LinkCompleter::Wiki(c) => c.wf(),
        }
    }

    /// The cursor position the completer was built at.
    pub open spec fn spec_position(self) -> Position {
        match self {
            LinkCompleter::Markdown(c) => c.position,
            LinkCompleter::Wiki(c) => Position { line: c.line, character: c.character },
        }
    }

    pub fn position(&self) -> (r: Position)
        ensures
            r == self.spec_position(),
    {
        match self {
            LinkCompleter::Markdown(c) => c.position,
            LinkCompleter::Wiki(c) => c.position(),
        }
    }

    /// The path of the document the completer was built in.
    pub open spec fn spec_file_path(self) -> Seq<char> {
        match self {
            LinkCompleter::Markdown(c) => c.file_path@,
            LinkCompleter::Wiki(c) => c.file_path@,
        }
    }

    pub fn file_path(&self) -> (r: &String)
        ensures
            r@ == self.spec_file_path(),
    {
        match self {
            LinkCompleter::Markdown(c) => &c.file_path,
            LinkCompleter::Wiki(c) => &c.file_path,
        }
    }

    /// The refname text the user has typed so far.
    pub fn entered_refname(&self) -> (r: String)
        ensures
            r@ == match self {
                LinkCompleter::Markdown(c) => c.path.0@ + (match c.deep_view().infile_ref {
                    Some((inf, _)) => inf.text(),
                    None => Seq::<char>::empty(),
                }),
                LinkCompleter::Wiki(c) => c.cmp_text@,
            },
    {
        match self {
            LinkCompleter::Markdown(c) => c.entered_refname(),
            LinkCompleter::Wiki(c) => c.entered_refname(),
        }
    }
}

} // verus!
