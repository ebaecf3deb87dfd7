//! The vault: an owned, read-only snapshot of a collection of markdown
//! documents, answering the point and range queries that completion and
//! hover need — lines, link occurrences, link targets and resolution.

use vstd::prelude::*;
use vstd::string::StrSliceExecFns;
use vstd::string::StringExecFns;

use crate::DocRange;
use crate::Position;
use crate::text::Stop;
use crate::text::find_char;
use crate::text::first_stop;
use crate::text::lemma_find_char_bounds;
use crate::text::lemma_first_stop_bounds;
use crate::text::base;
use crate::text::base_of;
use crate::text::seek_char;
use crate::text::seek_stop;

verus! {

/// A heading of a document, anchored at its line.
pub struct MDHeading {
    pub text: String,
    pub line: u32,
}

/// An indexed block of a document, anchored at its line.
pub struct MDBlock {
    pub index: String,
    pub line: u32,
}

/// One document of the vault.
pub struct MDFile {
    pub path: String,
    pub lines: Vec<String>,
    pub headings: Vec<MDHeading>,
    pub blocks: Vec<MDBlock>,
}

impl MDFile {
    /// Machine limits: line counts and line lengths fit the protocol's
    /// 32-bit positions.
    pub open spec fn wf(self) -> bool {
        &&& self.lines@.len() <= u32::MAX
        &&& forall|i: int| 0 <= i < self.lines@.len() ==> self.lines@[i]@.len() < u32::MAX
    }
}

/// The vault snapshot.
pub struct Vault {
    pub root_dir: String,
    pub files: Vec<MDFile>,
}

/// The syntactic kind of a link occurrence.
#[derive(Clone, Copy, PartialEq, Eq, Structural, Debug)]
pub enum RefKind {
    MDFileLink,
    MDHeadingLink,
    MDIndexedBlockLink,
    WikiFileLink,
    WikiHeadingLink,
    WikiIndexedBlockLink,
}

impl RefKind {
    /// Whether the occurrence is a complete markdown-syntax link.
    pub open spec fn spec_is_md_link(self) -> bool {
        self == RefKind::MDFileLink || self == RefKind::MDHeadingLink
            || self == RefKind::MDIndexedBlockLink
    }

    pub fn is_md_link(self) -> (r: bool)
        ensures
            r == self.spec_is_md_link(),
    {
        match self {
            RefKind::MDFileLink | RefKind::MDHeadingLink | RefKind::MDIndexedBlockLink => true,
            _ => false,
        }
    }
}

/// A link occurrence found in document text; `refname` is the full target
/// text (path plus any `#` part), `range` its whole span on one line.
pub struct Reference {
    pub kind: RefKind,
    pub refname: String,
    pub range: DocRange,
}

/// The mathematical value of a `Reference`.
pub struct RefView {
    pub kind: RefKind,
    pub refname: Seq<char>,
    pub range: DocRange,
}

impl DeepView for Reference {
    type V = RefView;

    open spec fn deep_view(&self) -> RefView {
        RefView { kind: self.kind, refname: self.refname@, range: self.range }
    }
}

impl Clone for Reference {
    fn clone(&self) -> (r: Self)
        ensures
            r.deep_view() == self.deep_view(),
    {
        Reference { kind: self.kind, refname: self.refname.clone(), range: self.range }
    }
}

/// A link target: something a link can point at — a file, heading or block
/// of the vault, or a name that resolves to nothing.
pub enum Referenceable {
    File { path: String },
    Heading { path: String, heading: String, line: u32 },
    IndexedBlock { path: String, index: String, line: u32 },
    UnresolvedFile { name: String },
    UnresolvedHeading { name: String, heading: String },
    UnresolvedIndexedBlock { name: String, index: String },
}

/// The mathematical value of a `Referenceable`.
pub enum RefbView {
    File { path: Seq<char> },
    Heading { path: Seq<char>, heading: Seq<char>, line: u32 },
    IndexedBlock { path: Seq<char>, index: Seq<char>, line: u32 },
    UnresolvedFile { name: Seq<char> },
    UnresolvedHeading { name: Seq<char>, heading: Seq<char> },
    UnresolvedIndexedBlock { name: Seq<char>, index: Seq<char> },
}

impl DeepView for Referenceable {
    type V = RefbView;

    open spec fn deep_view(&self) -> RefbView {
        match self {
            Referenceable::File { path } => RefbView::File { path: path@ },
            Referenceable::Heading { path, heading, line } => RefbView::Heading {
                path: path@,
                heading: heading@,
                line: *line,
            },
            Referenceable::IndexedBlock { path, index, line } => RefbView::IndexedBlock {
                path: path@,
                index: index@,
                line: *line,
            },
            Referenceable::UnresolvedFile { name } => RefbView::UnresolvedFile { name: name@ },
            Referenceable::UnresolvedHeading { name, heading } => RefbView::UnresolvedHeading {
                name: name@,
                heading: heading@,
            },
            Referenceable::UnresolvedIndexedBlock { name, index } =>
                RefbView::UnresolvedIndexedBlock { name: name@, index: index@ },
        }
    }
}

impl Clone for Referenceable {
    fn clone(&self) -> (r: Self)
        ensures
            r.deep_view() == self.deep_view(),
    {
        match self {
            Referenceable::File { path } => Referenceable::File { path: path.clone() },
            Referenceable::Heading { path, heading, line } => Referenceable::Heading {
                path: path.clone(),
                heading: heading.clone(),
                line: *line,
            },
            Referenceable::IndexedBlock { path, index, line } => Referenceable::IndexedBlock {
                path: path.clone(),
                index: index.clone(),
                line: *line,
            },
            Referenceable::UnresolvedFile { name } => Referenceable::UnresolvedFile {
                name: name.clone(),
            },
            Referenceable::UnresolvedHeading { name, heading } => Referenceable::UnresolvedHeading {
                name: name.clone(),
                heading: heading.clone(),
            },
            Referenceable::UnresolvedIndexedBlock { name, index } =>
                Referenceable::UnresolvedIndexedBlock { name: name.clone(), index: index.clone() },
        }
    }
}

impl RefbView {
    /// The refname a link must carry to point at this target.
    pub open spec fn refname(self) -> Seq<char> {
        match self {
            RefbView::File { path } => base_of(path),
            RefbView::Heading { path, heading, .. } => base_of(path) + seq!['#'] + heading,
            RefbView::IndexedBlock { path, index, .. } => base_of(path) + seq!['#', '^'] + index,
            RefbView::UnresolvedFile { name } => name,
            RefbView::UnresolvedHeading { name, heading } => name + seq!['#'] + heading,
            RefbView::UnresolvedIndexedBlock { name, index } => name + seq!['#', '^'] + index,
        }
    }

    pub open spec fn is_unresolved(self) -> bool {
        match self {
            RefbView::UnresolvedFile { .. } | RefbView::UnresolvedHeading { .. }
            | RefbView::UnresolvedIndexedBlock { .. } => true,
            _ => false,
        }
    }
}

impl Referenceable {
    /// Builds the refname that a link pointing at this target carries.
    pub fn get_refname(&self) -> (r: String)
        ensures
            r@ == self.deep_view().refname(),
    {
        proof {
            reveal_strlit("#");
            reveal_strlit("#^");
        }
        match self {
            Referenceable::File { path } => base(path.as_str()),
            Referenceable::Heading { path, heading, .. } => {
                let mut s = base(path.as_str());
                s.append("#");
                s.append(heading.as_str());
                proof {
                    assert(s@ =~= self.deep_view().refname());
                }
                s
            },
            Referenceable::IndexedBlock { path, index, .. } => {
                let mut s = base(path.as_str());
                s.append("#^");
                s.append(index.as_str());
                proof {
                    assert("#^"@ =~= seq!['#', '^']);
                    assert(s@ =~= self.deep_view().refname());
                }
                s
            },
            Referenceable::UnresolvedFile { name } => name.clone(),
            Referenceable::UnresolvedHeading { name, heading } => {
                let mut s = name.clone();
                s.append("#");
                s.append(heading.as_str());
                proof {
                    assert(s@ =~= self.deep_view().refname());
                }
                s
            },
            Referenceable::UnresolvedIndexedBlock { name, index } => {
                let mut s = name.clone();
                s.append("#^");
                s.append(index.as_str());
                proof {
                    assert("#^"@ =~= seq!['#', '^']);
                    assert(s@ =~= self.deep_view().refname());
                }
                s
            },
        }
    }

    pub fn is_unresolved(&self) -> (r: bool)
        ensures
            r == self.deep_view().is_unresolved(),
    {
        match self {
            Referenceable::UnresolvedFile { .. } | Referenceable::UnresolvedHeading { .. }
            | Referenceable::UnresolvedIndexedBlock { .. } => true,
            _ => false,
        }
    }

    /// Structural equality of targets: same kind and same identifying fields.
    pub fn same_as(&self, other: &Referenceable) -> (r: bool)
        ensures
            r == (self.deep_view() == other.deep_view()),
    {
        match (self, other) {
            (Referenceable::File { path: a }, Referenceable::File { path: b }) => *a == *b,
            (
                Referenceable::Heading { path: a, heading: ha, line: la },
                Referenceable::Heading { path: b, heading: hb, line: lb },
            ) => *a == *b && *ha == *hb && *la == *lb,
            (
                Referenceable::IndexedBlock { path: a, index: ia, line: la },
                Referenceable::IndexedBlock { path: b, index: ib, line: lb },
            ) => *a == *b && *ia == *ib && *la == *lb,
            (
                Referenceable::UnresolvedFile { name: a },
                Referenceable::UnresolvedFile { name: b },
            ) => *a == *b,
            (
                Referenceable::UnresolvedHeading { name: a, heading: ha },
                Referenceable::UnresolvedHeading { name: b, heading: hb },
            ) => *a == *b && *ha == *hb,
            (
                Referenceable::UnresolvedIndexedBlock { name: a, index: ia },
                Referenceable::UnresolvedIndexedBlock { name: b, index: ib },
            ) => *a == *b && *ia == *ib,
            _ => false,
        }
    }
}

/// A complete link found at one position of a line: its refname span,
/// the span of the whole occurrence, and its kind.
pub struct LinkAt {
    pub kind: RefKind,
    pub tgt_start: int,
    pub tgt_end: int,
    pub end: int,
}

/// The syntactic kind of a wiki target, read off its refname.
pub open spec fn wiki_kind(t: Seq<char>) -> RefKind {
    let h = find_char(t, 0, '#');
    if h >= t.len() {
        RefKind::WikiFileLink
    } else if h + 1 < t.len() && t[h + 1] == '^' {
        RefKind::WikiIndexedBlockLink
    } else {
        RefKind::WikiHeadingLink
    }
}

/// A complete wiki link `[[target]]` or `[[target|display]]` starting at `i`.
pub open spec fn wiki_link_at(s: Seq<char>, i: int) -> Option<LinkAt>
    recommends
        0 <= i < s.len(),
{
    if i + 1 >= s.len() || s[i] != '[' || s[i + 1] != '[' {
        None
    } else {
        let e = first_stop(s, i + 2, Stop::WikiDelim);
        if e <= i + 2 {
            None
        } else if e < s.len() && s[e] == ']' && e + 1 < s.len() && s[e + 1] == ']' {
            Some(
                LinkAt {
                    kind: wiki_kind(s.subrange(i + 2, e)),
                    tgt_start: i + 2,
                    tgt_end: e,
                    end: e + 2,
                },
            )
        } else if e < s.len() && s[e] == '|' {
            let e2 = first_stop(s, e + 1, Stop::WikiDelim);
            if e2 < s.len() && s[e2] == ']' && e2 + 1 < s.len() && s[e2 + 1] == ']' {
                Some(
                    LinkAt {
                        kind: wiki_kind(s.subrange(i + 2, e)),
                        tgt_start: i + 2,
                        tgt_end: e,
                        end: e2 + 2,
                    },
                )
            } else {
                None
            }
        } else {
            None
        }
    }
}

/// A complete markdown link `[display](path)`, `[display](path#heading)` or
/// `[display](path#^index)` starting at `i`.
pub open spec fn md_link_at(s: Seq<char>, i: int) -> Option<LinkAt>
    recommends
        0 <= i < s.len(),
{
    if s[i] != '[' {
        None
    } else {
        let d = first_stop(s, i + 1, Stop::MdDelim);
        if !(d < s.len() && s[d] == ']' && d + 1 < s.len() && s[d + 1] == '(') {
            None
        } else {
            let p = first_stop(s, d + 2, Stop::PathDelim);
            if p < s.len() && s[p] == ')' && p > d + 2 {
                Some(LinkAt { kind: RefKind::MDFileLink, tgt_start: d + 2, tgt_end: p, end: p + 1 })
            } else if p < s.len() && s[p] == '#' {
                let r = first_stop(s, p + 1, Stop::MdDelim);
                if r < s.len() && s[r] == ')' {
                    Some(
                        LinkAt {
                            kind: if p + 1 < r && s[p + 1] == '^' {
                                RefKind::MDIndexedBlockLink
                            } else {
                                RefKind::MDHeadingLink
                            },
                            tgt_start: d + 2,
                            tgt_end: r,
                            end: r + 1,
                        },
                    )
                } else {
                    None
                }
            } else {
                None
            }
        }
    }
}

/// The complete link starting at `i`, wiki syntax tried first.
pub open spec fn link_at(s: Seq<char>, i: int) -> Option<LinkAt>
    recommends
        0 <= i < s.len(),
{
    if wiki_link_at(s, i) is Some {
        wiki_link_at(s, i)
    } else {
        md_link_at(s, i)
    }
}

pub proof fn lemma_link_at_bounds(s: Seq<char>, i: int)
    requires
        0 <= i < s.len(),
        link_at(s, i) is Some,
    ensures
        i < link_at(s, i)->Some_0.tgt_start <= link_at(s, i)->Some_0.tgt_end
            < link_at(s, i)->Some_0.end <= s.len(),
{
    if wiki_link_at(s, i) is Some {
        lemma_first_stop_bounds(s, i + 2, Stop::WikiDelim);
        let e = first_stop(s, i + 2, Stop::WikiDelim);
        if !(e < s.len() && s[e] == ']' && e + 1 < s.len() && s[e + 1] == ']') {
            lemma_first_stop_bounds(s, e + 1, Stop::WikiDelim);
        }
    } else {
        lemma_first_stop_bounds(s, i + 1, Stop::MdDelim);
        let d = first_stop(s, i + 1, Stop::MdDelim);
        lemma_first_stop_bounds(s, d + 2, Stop::PathDelim);
        let p = first_stop(s, d + 2, Stop::PathDelim);
        if !(p < s.len() && s[p] == ')') {
            lemma_first_stop_bounds(s, p + 1, Stop::MdDelim);
        }
    }
}

/// All complete links of the line at or after `i`, leftmost first,
/// non-overlapping.
pub open spec fn scan_from(s: Seq<char>, i: int, line: u32) -> Seq<RefView>
    decreases s.len() - i when 0 <= i
{
    if i >= s.len() {
        Seq::<RefView>::empty()
    } else {
        match link_at(s, i) {
            Some(l) => {
                let nxt = if l.end <= i { i + 1 } else { l.end };
                seq![
                    RefView {
                        kind: l.kind,
                        refname: s.subrange(l.tgt_start, l.tgt_end),
                        range: DocRange {
                            start: Position { line, character: i as u32 },
                            end: Position { line, character: l.end as u32 },
                        },
                    },
                ] + scan_from(s, nxt, line)
            },
            None => scan_from(s, i + 1, line),
        }
    }
}

/// All complete links of one line.
pub open spec fn spec_scan_line(s: Seq<char>, line: u32) -> Seq<RefView> {
    scan_from(s, 0, line)
}

/// Executable counterpart of `link_at`, returning the spans as indices.
fn try_link_at(s: &str, i: usize, len: usize) -> (r: Option<(RefKind, usize, usize, usize)>)
    requires
        len == s@.len(),
        i < len,
    ensures
        match r {
            Some((kind, ts, te, end)) => {
                &&& link_at(s@, i as int) == Some(
                    LinkAt { kind, tgt_start: ts as int, tgt_end: te as int, end: end as int },
                )
                &&& i < ts <= te < end <= len
            },
            None => link_at(s@, i as int) is None,
        },
{
    proof {
        if link_at(s@, i as int) is Some {
            lemma_link_at_bounds(s@, i as int);
        }
    }
    let c0 = s.get_char(i);
    let wiki = if c0 == '[' && i + 1 < len && s.get_char(i + 1) == '[' {
        let e = seek_stop(s, i + 2, len, Stop::WikiDelim);
        if e <= i + 2 {
            None
        } else if e < len && s.get_char(e) == ']' {
            if e + 1 < len && s.get_char(e + 1) == ']' {
                let t = s.substring_char(i + 2, e);
                Some((wiki_kind_of(t), i + 2, e, e + 2))
            } else {
                None
            }
        } else if e < len && s.get_char(e) == '|' {
            let e2 = seek_stop(s, e + 1, len, Stop::WikiDelim);
            if e2 < len && s.get_char(e2) == ']' && e2 + 1 < len && s.get_char(e2 + 1) == ']' {
                let t = s.substring_char(i + 2, e);
                Some((wiki_kind_of(t), i + 2, e, e2 + 2))
            } else {
                None
            }
        } else {
            None
        }
    } else {
        None
    };
    if wiki.is_some() {
        return wiki;
    }
    proof {
        assert(wiki_link_at(s@, i as int) is None);
    }
    if c0 != '[' {
        return None;
    }
    let d = seek_stop(s, i + 1, len, Stop::MdDelim);
    if !(d < len && s.get_char(d) == ']' && d + 1 < len && s.get_char(d + 1) == '(') {
        return None;
    }
    let p = seek_stop(s, d + 2, len, Stop::PathDelim);
    if p < len && s.get_char(p) == ')' && p > d + 2 {
        Some((RefKind::MDFileLink, d + 2, p, p + 1))
    } else if p < len && s.get_char(p) == '#' {
        let r = seek_stop(s, p + 1, len, Stop::MdDelim);
        if r < len && s.get_char(r) == ')' {
            let kind = if p + 1 < r && s.get_char(p + 1) == '^' {
                RefKind::MDIndexedBlockLink
            } else {
                RefKind::MDHeadingLink
            };
            Some((kind, d + 2, r, r + 1))
        } else {
            None
        }
    } else {
        None
    }
}

/// Executable counterpart of `wiki_kind`.
fn wiki_kind_of(t: &str) -> (r: RefKind)
    ensures
        r == wiki_kind(t@),
{
    let len = t.unicode_len();
    let h = seek_char(t, 0, len, '#');
    if h == len {
        RefKind::WikiFileLink
    } else if h + 1 < len && t.get_char(h + 1) == '^' {
        RefKind::WikiIndexedBlockLink
    } else {
        RefKind::WikiHeadingLink
    }
}

fn scan_line_from(s: &str, i: usize, len: usize, line: u32) -> (r: Vec<Reference>)
    requires
        len == s@.len(),
        i <= len,
        len <= u32::MAX,
    ensures
        r.deep_view() == scan_from(s@, i as int, line),
    decreases len - i,
{
    if i == len {
        Vec::new()
    } else {
        match try_link_at(s, i, len) {
            Some((kind, ts, te, end)) => {
                let refname = s.substring_char(ts, te).to_owned();
                let reference = Reference {
                    kind,
                    refname,
                    range: DocRange {
                        start: Position { line, character: i as u32 },
                        end: Position { line, character: end as u32 },
                    },
                };
                let mut v = scan_line_from(s, end, len, line);
                v.insert(0, reference);
                proof {
                    assert(v.deep_view() =~= scan_from(s@, i as int, line));
                }
                v
            },
            None => scan_line_from(s, i + 1, len, line),
        }
    }
}

/// Scans one line for every complete link occurrence.
pub fn scan_line(s: &String, line: u32) -> (r: Vec<Reference>)
    requires
        s@.len() <= u32::MAX,
    ensures
        r.deep_view() == spec_scan_line(s@, line),
{
    let len = s.as_str().unicode_len();
    scan_line_from(s.as_str(), 0, len, line)
}

/// All link occurrences of a document, in line order then left to right.
pub open spec fn file_refs_from(f: MDFile, ln: int) -> Seq<RefView>
    decreases f.lines@.len() - ln when 0 <= ln
{
    if ln >= f.lines@.len() {
        Seq::<RefView>::empty()
    } else {
        spec_scan_line(f.lines@[ln]@, ln as u32) + file_refs_from(f, ln + 1)
    }
}

pub open spec fn spec_file_refs(f: MDFile) -> Seq<RefView> {
    file_refs_from(f, 0)
}

fn file_refs_rec(f: &MDFile, ln: usize) -> (r: Vec<Reference>)
    requires
        f.wf(),
        ln <= f.lines@.len(),
    ensures
        r.deep_view() == file_refs_from(*f, ln as int),
    decreases f.lines@.len() - ln,
{
    if ln == f.lines.len() {
        Vec::new()
    } else {
        let mut v = scan_line(&f.lines[ln], ln as u32);
        let mut rest = file_refs_rec(f, ln + 1);
        v.append(&mut rest);
        proof {
            assert(v.deep_view() =~= file_refs_from(*f, ln as int));
        }
        v
    }
}

/// The targets one document offers: the file itself, its headings, its
/// indexed blocks.
pub open spec fn heading_nodes_from(f: MDFile, i: int) -> Seq<RefbView>
    decreases f.headings@.len() - i when 0 <= i
{
    if i >= f.headings@.len() {
        Seq::<RefbView>::empty()
    } else {
        seq![
            RefbView::Heading {
                path: f.path@,
                heading: f.headings@[i].text@,
                line: f.headings@[i].line,
            },
        ] + heading_nodes_from(f, i + 1)
    }
}

pub open spec fn block_nodes_from(f: MDFile, i: int) -> Seq<RefbView>
    decreases f.blocks@.len() - i when 0 <= i
{
    if i >= f.blocks@.len() {
        Seq::<RefbView>::empty()
    } else {
        seq![
            RefbView::IndexedBlock {
                path: f.path@,
                index: f.blocks@[i].index@,
                line: f.blocks@[i].line,
            },
        ] + block_nodes_from(f, i + 1)
    }
}

pub open spec fn spec_file_nodes(f: MDFile) -> Seq<RefbView> {
    seq![RefbView::File { path: f.path@ }] + heading_nodes_from(f, 0) + block_nodes_from(f, 0)
}

fn heading_nodes_rec(f: &MDFile, i: usize) -> (r: Vec<Referenceable>)
    requires
        i <= f.headings@.len(),
    ensures
        r.deep_view() == heading_nodes_from(*f, i as int),
    decreases f.headings@.len() - i,
{
    if i == f.headings.len() {
        Vec::new()
    } else {
        let mut rest = heading_nodes_rec(f, i + 1);
        rest.insert(
            0,
            Referenceable::Heading {
                path: f.path.clone(),
                heading: f.headings[i].text.clone(),
                line: f.headings[i].line,
            },
        );
        proof {
            assert(rest.deep_view() =~= heading_nodes_from(*f, i as int));
        }
        rest
    }
}

fn block_nodes_rec(f: &MDFile, i: usize) -> (r: Vec<Referenceable>)
    requires
        i <= f.blocks@.len(),
    ensures
        r.deep_view() == block_nodes_from(*f, i as int),
    decreases f.blocks@.len() - i,
{
    if i == f.blocks.len() {
        Vec::new()
    } else {
        let mut rest = block_nodes_rec(f, i + 1);
        rest.insert(
            0,
            Referenceable::IndexedBlock {
                path: f.path.clone(),
                index: f.blocks[i].index.clone(),
                line: f.blocks[i].line,
            },
        );
        proof {
            assert(rest.deep_view() =~= block_nodes_from(*f, i as int));
        }
        rest
    }
}

fn file_nodes(f: &MDFile) -> (r: Vec<Referenceable>)
    ensures
        r.deep_view() == spec_file_nodes(*f),
{
    let mut v: Vec<Referenceable> = Vec::new();
    v.push(Referenceable::File { path: f.path.clone() });
    let mut hs = heading_nodes_rec(f, 0);
    let mut bs = block_nodes_rec(f, 0);
    v.append(&mut hs);
    v.append(&mut bs);
    proof {
        assert(v.deep_view() =~= spec_file_nodes(*f));
    }
    v
}

/// The target that a refname names when nothing in the vault resolves it:
/// split at the first `#`, a following `^` marking a block index.
pub open spec fn unresolved_of(refname: Seq<char>) -> RefbView {
    let h = find_char(refname, 0, '#');
    if h >= refname.len() {
        RefbView::UnresolvedFile { name: refname }
    } else if h + 1 < refname.len() && refname[h + 1] == '^' {
        RefbView::UnresolvedIndexedBlock {
            name: refname.subrange(0, h),
            index: refname.subrange(h + 2, refname.len() as int),
        }
    } else {
        RefbView::UnresolvedHeading {
            name: refname.subrange(0, h),
            heading: refname.subrange(h + 1, refname.len() as int),
        }
    }
}

fn unresolved_of_exec(refname: &String) -> (r: Referenceable)
    ensures
        r.deep_view() == unresolved_of(refname@),
{
    let s = refname.as_str();
    let len = s.unicode_len();
    let h = seek_char(s, 0, len, '#');
    proof {
        lemma_find_char_bounds(refname@, 0, '#');
    }
    if h == len {
        Referenceable::UnresolvedFile { name: refname.clone() }
    } else if h + 1 < len && s.get_char(h + 1) == '^' {
        Referenceable::UnresolvedIndexedBlock {
            name: s.substring_char(0, h).to_owned(),
            index: s.substring_char(h + 2, len).to_owned(),
        }
    } else {
        Referenceable::UnresolvedHeading {
            name: s.substring_char(0, h).to_owned(),
            heading: s.substring_char(h + 1, len).to_owned(),
        }
    }
}

fn lines_within_limits(f: &MDFile, i: usize) -> (r: bool)
    requires
        i <= f.lines@.len(),
    ensures
        r == forall|j: int| i <= j < f.lines@.len() ==> f.lines@[j]@.len() < u32::MAX,
    decreases f.lines@.len() - i,
{
    if i == f.lines.len() {
        true
    } else if f.lines[i].as_str().unicode_len() < u32::MAX as usize {
        lines_within_limits(f, i + 1)
    } else {
        false
    }
}

fn file_within_limits(f: &MDFile) -> (r: bool)
    ensures
        r == f.wf(),
{
    f.lines.len() <= u32::MAX as usize && lines_within_limits(f, 0)
}

impl Vault {
    pub open spec fn wf(self) -> bool {
        forall|i: int| 0 <= i < self.files@.len() ==> self.files@[i].wf()
    }

    fn files_within_limits(&self, i: usize) -> (r: bool)
        requires
            i <= self.files@.len(),
        ensures
            r == forall|j: int| i <= j < self.files@.len() ==> self.files@[j].wf(),
        decreases self.files@.len() - i,
    {
        if i == self.files.len() {
            true
        } else if file_within_limits(&self.files[i]) {
            self.files_within_limits(i + 1)
        } else {
            false
        }
    }

    /// Whether the snapshot respects the machine limits the queries assume:
    /// line counts and line lengths that fit the protocol's 32-bit positions.
    pub fn is_wf(&self) -> (r: bool)
        ensures
            r == self.wf(),
    {
        self.files_within_limits(0)
    }

    /// Index of the first file with the given path, or -1.
    pub open spec fn file_idx_from(self, path: Seq<char>, i: int) -> int
        decreases self.files@.len() - i when 0 <= i
    {
        if i >= self.files@.len() {
            -1
        } else if self.files@[i].path@ == path {
            i
        } else {
            self.file_idx_from(path, i + 1)
        }
    }

    pub open spec fn spec_file_idx(self, path: Seq<char>) -> int {
        self.file_idx_from(path, 0)
    }

    pub proof fn lemma_file_idx_from(self, path: Seq<char>, i: int)
        requires
            0 <= i,
        ensures
            ({
                let fi = self.file_idx_from(path, i);
                fi == -1 || (i <= fi < self.files@.len() && self.files@[fi].path@ == path)
            }),
        decreases self.files@.len() - i,
    {
        if i < self.files@.len() && self.files@[i].path@ != path {
            self.lemma_file_idx_from(path, i + 1);
        }
    }

    /// A well-formed vault holds no line numbered beyond the protocol's
    /// 32-bit positions.
    pub proof fn lemma_select_line_none_beyond(self, path: Seq<char>, line: int)
        requires
            self.wf(),
            line > u32::MAX,
        ensures
            self.spec_select_line(path, line) is None,
    {
        self.lemma_file_idx_from(path, 0);
    }

    /// With a well-formed vault, any line handed out respects the machine
    /// limits of its file.
    pub proof fn lemma_select_line_wf(self, path: Seq<char>, line: int)
        requires
            self.wf(),
            self.spec_select_line(path, line) is Some,
        ensures
            self.spec_select_line(path, line)->Some_0.len() < u32::MAX,
    {
        self.lemma_file_idx_from(path, 0);
    }

    fn find_file(&self, path: &String, i: usize) -> (r: Option<usize>)
        requires
            i <= self.files@.len(),
        ensures
            match r {
                Some(fi) => self.file_idx_from(path@, i as int) == fi as int && fi
                    < self.files@.len(),
                None => self.file_idx_from(path@, i as int) == -1,
            },
        decreases self.files@.len() - i,
    {
        if i == self.files.len() {
            None
        } else if self.files[i].path == *path {
            Some(i)
        } else {
            self.find_file(path, i + 1)
        }
    }

    /// The text of one line of one document, when both exist.
    pub open spec fn spec_select_line(self, path: Seq<char>, line: int) -> Option<Seq<char>> {
        let fi = self.spec_file_idx(path);
        if fi >= 0 && 0 <= line < self.files@[fi].lines@.len() {
            Some(self.files@[fi].lines@[line]@)
        } else {
            None
        }
    }

    pub fn select_line(&self, path: &String, line: usize) -> (r: Option<String>)
        ensures
            match r {
                Some(s) => self.spec_select_line(path@, line as int) == Some(s@),
                None => self.spec_select_line(path@, line as int) is None,
            },
    {
        match self.find_file(path, 0) {
            Some(fi) => {
                if line < self.files[fi].lines.len() {
                    Some(self.files[fi].lines[line].clone())
                } else {
                    None
                }
            },
            None => None,
        }
    }

    /// Every link occurrence of one document.
    pub open spec fn spec_select_references(self, path: Seq<char>) -> Seq<RefView> {
        let fi = self.spec_file_idx(path);
        if fi >= 0 {
            spec_file_refs(self.files@[fi])
        } else {
            Seq::<RefView>::empty()
        }
    }

    pub fn select_references(&self, path: &String) -> (r: Vec<Reference>)
        requires
            self.wf(),
        ensures
            r.deep_view() == self.spec_select_references(path@),
    {
        match self.find_file(path, 0) {
            Some(fi) => file_refs_rec(&self.files[fi], 0),
            None => Vec::new(),
        }
    }

    /// Every link occurrence of the vault, in file order.
    pub open spec fn refs_from(self, i: int) -> Seq<RefView>
        decreases self.files@.len() - i when 0 <= i
    {
        if i >= self.files@.len() {
            Seq::<RefView>::empty()
        } else {
            spec_file_refs(self.files@[i]) + self.refs_from(i + 1)
        }
    }

    pub open spec fn spec_all_refs(self) -> Seq<RefView> {
        self.refs_from(0)
    }

    fn all_refs_rec(&self, i: usize) -> (r: Vec<Reference>)
        requires
            self.wf(),
            i <= self.files@.len(),
        ensures
            r.deep_view() == self.refs_from(i as int),
        decreases self.files@.len() - i,
    {
        if i == self.files.len() {
            Vec::new()
        } else {
            let mut v = file_refs_rec(&self.files[i], 0);
            let mut rest = self.all_refs_rec(i + 1);
            v.append(&mut rest);
            proof {
                assert(v.deep_view() =~= self.refs_from(i as int));
            }
            v
        }
    }

    /// The resolvable targets of the vault: per file in order, the file,
    /// its headings, its blocks.
    pub open spec fn resolved_from(self, i: int) -> Seq<RefbView>
        decreases self.files@.len() - i when 0 <= i
    {
        if i >= self.files@.len() {
            Seq::<RefbView>::empty()
        } else {
            spec_file_nodes(self.files@[i]) + self.resolved_from(i + 1)
        }
    }

    pub open spec fn spec_resolved_nodes(self) -> Seq<RefbView> {
        self.resolved_from(0)
    }

    fn resolved_nodes(&self, i: usize) -> (r: Vec<Referenceable>)
        requires
            i <= self.files@.len(),
        ensures
            r.deep_view() == self.resolved_from(i as int),
        decreases self.files@.len() - i,
    {
        if i == self.files.len() {
            Vec::new()
        } else {
            let mut v = file_nodes(&self.files[i]);
            let mut rest = self.resolved_nodes(i + 1);
            v.append(&mut rest);
            proof {
                assert(v.deep_view() =~= self.resolved_from(i as int));
            }
            v
        }
    }

    /// Whether some resolvable target carries this refname.
    pub open spec fn spec_resolves(self, refname: Seq<char>) -> bool {
        exists|i: int|
            0 <= i < self.spec_resolved_nodes().len() && self.spec_resolved_nodes()[i].refname()
                == refname
    }

    fn resolves(&self, refname: &String) -> (r: bool)
        ensures
            r == self.spec_resolves(refname@),
    {
        let nodes = self.resolved_nodes(0);
        let r = any_node_with_refname(&nodes, 0, refname);
        proof {
            assert(nodes.deep_view() == self.spec_resolved_nodes());
            if r {
                let j = choose|j: int|
                    0 <= j < nodes.deep_view().len() && nodes.deep_view()[j].refname() == refname@;
                assert(self.spec_resolved_nodes()[j].refname() == refname@);
            }
            if self.spec_resolves(refname@) {
                let j = choose|j: int|
                    0 <= j < self.spec_resolved_nodes().len()
                        && self.spec_resolved_nodes()[j].refname() == refname@;
                assert(nodes.deep_view()[j].refname() == refname@);
            }
        }
        r
    }

    /// The unresolved targets named by the vault's link occurrences whose
    /// refname resolves to nothing, first occurrence of each refname only.
    pub open spec fn unresolved_from(self, refs: Seq<RefView>, i: int) -> Seq<RefbView>
        decreases refs.len() - i when 0 <= i
    {
        if i >= refs.len() {
            Seq::<RefbView>::empty()
        } else {
            let rest = self.unresolved_from(refs, i + 1);
            if !self.spec_resolves(refs[i].refname) && (forall|j: int|
                0 <= j < i ==> refs[j].refname != refs[i].refname) {
                seq![unresolved_of(refs[i].refname)] + rest
            } else {
                rest
            }
        }
    }

    pub open spec fn spec_unresolved_nodes(self) -> Seq<RefbView> {
        self.unresolved_from(self.spec_all_refs(), 0)
    }

    /// Every target of the vault: the resolvable ones, then the unresolved
    /// ones.
    pub open spec fn spec_nodes(self) -> Seq<RefbView> {
        self.spec_resolved_nodes() + self.spec_unresolved_nodes()
    }

    fn unresolved_rec(&self, refs: &Vec<Reference>, i: usize) -> (r: Vec<Referenceable>)
        requires
            refs.deep_view() == self.spec_all_refs(),
            i <= refs@.len(),
        ensures
            r.deep_view() == self.unresolved_from(self.spec_all_refs(), i as int),
        decreases refs@.len() - i,
    {
        if i == refs.len() {
            Vec::new()
        } else {
            let mut rest = self.unresolved_rec(refs, i + 1);
            if !self.resolves(&refs[i].refname) && !refname_among(refs, i, &refs[i].refname) {
                rest.insert(0, unresolved_of_exec(&refs[i].refname));
                proof {
                    assert(rest.deep_view() =~= self.unresolved_from(
                        self.spec_all_refs(),
                        i as int,
                    ));
                }
            }
            rest
        }
    }

    /// Enumerates link targets: with a path, the targets that one document
    /// offers; without, every target of the vault, unresolved names included.
    pub fn select_referenceable_nodes(&self, filter: Option<&String>) -> (r: Vec<Referenceable>)
        requires
            self.wf(),
        ensures
            match filter {
                Some(path) => r.deep_view() == (if self.spec_file_idx(path@) >= 0 {
                    spec_file_nodes(self.files@[self.spec_file_idx(path@)])
                } else {
                    Seq::<RefbView>::empty()
                }),
                None => r.deep_view() == self.spec_nodes(),
            },
    {
        match filter {
            Some(path) => match self.find_file(path, 0) {
                Some(fi) => file_nodes(&self.files[fi]),
                None => Vec::new(),
            },
            None => {
                let mut v = self.resolved_nodes(0);
                let refs = self.all_refs_rec(0);
                let mut unres = self.unresolved_rec(&refs, 0);
                v.append(&mut unres);
                proof {
                    assert(v.deep_view() =~= self.spec_nodes());
                }
                v
            },
        }
    }

    /// The first link occurrence of a document whose range holds the
    /// position, both bounds inclusive.
    pub open spec fn first_ref_at(refs: Seq<RefView>, i: int, pos: Position) -> Option<RefView>
        decreases refs.len() - i when 0 <= i
    {
        if i >= refs.len() {
            None
        } else if refs[i].range.spec_contains(pos) {
            Some(refs[i])
        } else {
            Self::first_ref_at(refs, i + 1, pos)
        }
    }

    pub open spec fn spec_reference_at(self, path: Seq<char>, pos: Position) -> Option<RefView> {
        Self::first_ref_at(self.spec_select_references(path), 0, pos)
    }

    fn ref_at_rec(refs: &Vec<Reference>, i: usize, pos: Position) -> (r: Option<Reference>)
        requires
            i <= refs@.len(),
        ensures
            match r {
                Some(rf) => Self::first_ref_at(refs.deep_view(), i as int, pos) == Some(
                    rf.deep_view(),
                ),
                None => Self::first_ref_at(refs.deep_view(), i as int, pos) is None,
            },
        decreases refs@.len() - i,
    {
        if i == refs.len() {
            None
        } else if refs[i].range.contains(pos) {
            Some(refs[i].clone())
        } else {
            Self::ref_at_rec(refs, i + 1, pos)
        }
    }

    pub fn select_reference_at_position(&self, path: &String, pos: Position) -> (r: Option<
        Reference,
    >)
        requires
            self.wf(),
        ensures
            match r {
                Some(rf) => self.spec_reference_at(path@, pos) == Some(rf.deep_view()),
                None => self.spec_reference_at(path@, pos) is None,
            },
    {
        let refs = self.select_references(path);
        Self::ref_at_rec(&refs, 0, pos)
    }

    /// The targets, in enumeration order, whose refname the occurrence
    /// carries: the resolution primitive.
    pub open spec fn matching_from(nodes: Seq<RefbView>, i: int, name: Seq<char>) -> Seq<RefbView>
        decreases nodes.len() - i when 0 <= i
    {
        if i >= nodes.len() {
            Seq::<RefbView>::empty()
        } else {
            let rest = Self::matching_from(nodes, i + 1, name);
            if nodes[i].refname() == name {
                seq![nodes[i]] + rest
            } else {
                rest
            }
        }
    }

    pub open spec fn spec_resolution(self, name: Seq<char>) -> Seq<RefbView> {
        Self::matching_from(self.spec_nodes(), 0, name)
    }

    fn matching_rec(nodes: &Vec<Referenceable>, i: usize, name: &String) -> (r: Vec<Referenceable>)
        requires
            i <= nodes@.len(),
        ensures
            r.deep_view() == Self::matching_from(nodes.deep_view(), i as int, name@),
        decreases nodes@.len() - i,
    {
        if i == nodes.len() {
            Vec::new()
        } else {
            let mut rest = Self::matching_rec(nodes, i + 1, name);
            let rn = nodes[i].get_refname();
            if rn == *name {
                rest.insert(0, nodes[i].clone());
                proof {
                    assert(rest.deep_view() =~= Self::matching_from(
                        nodes.deep_view(),
                        i as int,
                        name@,
                    ));
                }
            }
            rest
        }
    }

    pub fn select_referenceables_for_reference(&self, reference: &Reference) -> (r: Vec<
        Referenceable,
    >)
        requires
            self.wf(),
        ensures
            r.deep_view() == self.spec_resolution(reference.refname@),
    {
        let nodes = self.select_referenceable_nodes(None);
        Self::matching_rec(&nodes, 0, &reference.refname)
    }

    /// How many link occurrences of the whole vault point at this target.
    pub open spec fn count_matching(refs: Seq<RefView>, i: int, name: Seq<char>) -> nat
        decreases refs.len() - i when 0 <= i
    {
        if i >= refs.len() {
            0
        } else {
            (if refs[i].refname == name {
                1nat
            } else {
                0nat
            }) + Self::count_matching(refs, i + 1, name)
        }
    }

    pub open spec fn spec_count_refs(self, name: Seq<char>) -> nat {
        Self::count_matching(self.spec_all_refs(), 0, name)
    }

    fn count_rec(refs: &Vec<Reference>, i: usize, name: &String) -> (r: usize)
        requires
            i <= refs@.len(),
        ensures
            r as nat == Self::count_matching(refs.deep_view(), i as int, name@),
            r <= refs@.len() - i,
        decreases refs@.len() - i,
    {
        if i == refs.len() {
            0
        } else {
            let rest = Self::count_rec(refs, i + 1, name);
            if refs[i].refname == *name {
                rest + 1
            } else {
                rest
            }
        }
    }

    pub fn count_references_to(&self, node: &Referenceable) -> (r: usize)
        requires
            self.wf(),
        ensures
            r as nat == self.spec_count_refs(node.deep_view().refname()),
    {
        let refs = self.all_refs_rec(0);
        let name = node.get_refname();
        Vault::count_rec(&refs, 0, &name)
    }
}

fn any_node_with_refname(nodes: &Vec<Referenceable>, i: usize, name: &String) -> (r: bool)
    requires
        i <= nodes@.len(),
    ensures
        r == exists|j: int|
            i <= j < nodes.deep_view().len() && nodes.deep_view()[j].refname() == name@,
    decreases nodes@.len() - i,
{
    if i == nodes.len() {
        false
    } else {
        let rn = nodes[i].get_refname();
        if rn == *name {
            proof {
                assert(nodes.deep_view()[i as int].refname() == name@);
            }
            true
        } else {
            let r = any_node_with_refname(nodes, i + 1, name);
            proof {
                if !r {
                    assert forall|j: int|
                        i <= j < nodes.deep_view().len() implies nodes.deep_view()[j].refname()
                        != name@ by {
                        if j > i {
                            assert(!(i + 1 <= j < nodes.deep_view().len()
                                && nodes.deep_view()[j].refname() == name@));
                        }
                    }
                }
            }
            r
        }
    }
}

fn refname_among(refs: &Vec<Reference>, upto: usize, name: &String) -> (r: bool)
    requires
        upto <= refs@.len(),
    ensures
        r == exists|j: int| 0 <= j < upto && refs.deep_view()[j].refname == name@,
{
    refname_among_rec(refs, 0, upto, name)
}

fn refname_among_rec(refs: &Vec<Reference>, i: usize, upto: usize, name: &String) -> (r: bool)
    requires
        i <= upto <= refs@.len(),
    ensures
        r == exists|j: int| i <= j < upto && refs.deep_view()[j].refname == name@,
    decreases upto - i,
{
    if i == upto {
        false
    } else if refs[i].refname == *name {
        proof {
            assert(refs.deep_view()[i as int].refname == name@);
        }
        true
    } else {
        let r = refname_among_rec(refs, i + 1, upto, name);
        proof {
            if !r {
                assert forall|j: int|
                    i <= j < upto implies refs.deep_view()[j].refname != name@ by {
                    if j > i {
                        assert(!(i + 1 <= j < upto && refs.deep_view()[j].refname == name@));
                    }
                }
            }
        }
        r
    }
}

} // verus!
