//! Completion candidates and their ranking: every vault target becomes a
//! typed candidate with a fuzzy-search key; candidates are filtered and
//! ordered against the typed text, then synthesized into protocol items.

use vstd::prelude::*;
use vstd::string::StrSliceExecFns;
use vstd::string::StringExecFns;

use crate::CompletionItem;
use crate::CompletionKind;
use crate::DocRange;
use crate::InsertFormat;
use crate::ItemView;
use crate::Position;
use crate::TextEdit;
use crate::TextEditView;
use crate::daily::DailyView;
use crate::daily::MDDailyNote;
use crate::daily::spec_daily_label;
use crate::hover::preview_referenceable;
use crate::hover::spec_preview;
use crate::parser::LinkCompleter;
use crate::parser::MarkdownLinkCompleter;
use crate::parser::MdCompleterView;
use crate::parser::WikiCompleterView;
use crate::parser::WikiLinkCompleter;
use crate::text::contains_char;
use crate::text::dec_str;
use crate::text::find_char;
use crate::text::stem_of;
use crate::text::u64_string;
use crate::vault::RefbView;
use crate::vault::Referenceable;
use crate::vault::Vault;
use crate::vault::spec_file_nodes;

verus! {

/// A candidate built from one vault target for one request, carrying the
/// string the fuzzy matcher ranks it by.
pub enum LinkCompletion {
    File { match_string: String, referenceable: Referenceable },
    Heading { match_string: String, referenceable: Referenceable },
    Block { match_string: String, referenceable: Referenceable },
    Unresolved {
        match_string: String,
        /// Everything after the `#`, the `^` of a block index included.
        infile_ref: Option<String>,
        referenceable: Referenceable,
    },
    DailyNote(MDDailyNote),
}

/// The mathematical value of a `LinkCompletion`.
pub enum LcView {
    File { match_string: Seq<char>, referenceable: RefbView },
    Heading { match_string: Seq<char>, referenceable: RefbView },
    Block { match_string: Seq<char>, referenceable: RefbView },
    Unresolved {
        match_string: Seq<char>,
        infile_ref: Option<Seq<char>>,
        referenceable: RefbView,
    },
    DailyNote(DailyView),
}

impl DeepView for LinkCompletion {
    type V = LcView;

    open spec fn deep_view(&self) -> LcView {
        match self {
            LinkCompletion::File { match_string, referenceable } => LcView::File {
                match_string: match_string@,
                referenceable: referenceable.deep_view(),
            },
            LinkCompletion::Heading { match_string, referenceable } => LcView::Heading {
                match_string: match_string@,
                referenceable: referenceable.deep_view(),
            },
            LinkCompletion::Block { match_string, referenceable } => LcView::Block {
                match_string: match_string@,
                referenceable: referenceable.deep_view(),
            },
            LinkCompletion::Unresolved { match_string, infile_ref, referenceable } =>
                LcView::Unresolved {
                match_string: match_string@,
                infile_ref: match infile_ref {
                    Some(s) => Some(s@),
                    None => None,
                },
                referenceable: referenceable.deep_view(),
            },
            LinkCompletion::DailyNote(d) => LcView::DailyNote(d.deep_view()),
        }
    }
}

impl Clone for LinkCompletion {
    fn clone(&self) -> (r: Self)
        ensures
            r.deep_view() == self.deep_view(),
    {
        match self {
            LinkCompletion::File { match_string, referenceable } => LinkCompletion::File {
                match_string: match_string.clone(),
                referenceable: referenceable.clone(),
            },
            LinkCompletion::Heading { match_string, referenceable } => LinkCompletion::Heading {
                match_string: match_string.clone(),
                referenceable: referenceable.clone(),
            },
            LinkCompletion::Block { match_string, referenceable } => LinkCompletion::Block {
                match_string: match_string.clone(),
                referenceable: referenceable.clone(),
            },
            LinkCompletion::Unresolved { match_string, infile_ref, referenceable } =>
                LinkCompletion::Unresolved {
                match_string: match_string.clone(),
                infile_ref: match infile_ref {
                    Some(s) => Some(s.clone()),
                    None => None,
                },
                referenceable: referenceable.clone(),
            },
            LinkCompletion::DailyNote(d) => LinkCompletion::DailyNote(
                MDDailyNote {
                    match_string: d.match_string.clone(),
                    ref_name: d.ref_name.clone(),
                    referenceable: d.referenceable.clone(),
                },
            ),
        }
    }
}

impl LcView {
    /// The string the fuzzy matcher ranks the candidate by.
    pub open spec fn match_string(self) -> Seq<char> {
        match self {
            LcView::File { match_string, .. } => match_string,
            LcView::Heading { match_string, .. } => match_string,
            LcView::Block { match_string, .. } => match_string,
            LcView::Unresolved { match_string, .. } => match_string,
            LcView::DailyNote(d) => d.match_string,
        }
    }

    /// The refname inserted on acceptance: the plain stem for a daily note,
    /// the match string for every other kind.
    pub open spec fn refname(self) -> Seq<char> {
        match self {
            LcView::DailyNote(d) => d.ref_name,
            _ => self.match_string(),
        }
    }

    /// The target the candidate was built from.
    pub open spec fn referenceable(self) -> RefbView {
        match self {
            LcView::File { referenceable, .. } => referenceable,
            LcView::Heading { referenceable, .. } => referenceable,
            LcView::Block { referenceable, .. } => referenceable,
            LcView::Unresolved { referenceable, .. } => referenceable,
            LcView::DailyNote(d) => d.referenceable,
        }
    }
}

/// The candidate one target yields: a daily-note relabeling when the target
/// is a file whose stem parses as a nearby date, else a candidate keyed by
/// the target's refname.
pub open spec fn spec_completion_of(node: RefbView, fmt: Seq<char>, today: int) -> LcView {
    match node {
        RefbView::File { path } => match spec_daily_label(stem_of(path), fmt, today) {
            Some(label) => LcView::DailyNote(
                DailyView { match_string: label, ref_name: stem_of(path), referenceable: node },
            ),
            None => LcView::File { match_string: node.refname(), referenceable: node },
        },
        RefbView::Heading { .. } => LcView::Heading {
            match_string: node.refname(),
            referenceable: node,
        },
        RefbView::IndexedBlock { .. } => LcView::Block {
            match_string: node.refname(),
            referenceable: node,
        },
        RefbView::UnresolvedFile { .. } => LcView::Unresolved {
            match_string: node.refname(),
            infile_ref: None,
            referenceable: node,
        },
        RefbView::UnresolvedHeading { heading, .. } => LcView::Unresolved {
            match_string: node.refname(),
            infile_ref: Some(heading),
            referenceable: node,
        },
        RefbView::UnresolvedIndexedBlock { index, .. } => LcView::Unresolved {
            match_string: node.refname(),
            infile_ref: Some(seq!['^'] + index),
            referenceable: node,
        },
    }
}

impl LinkCompletion {
    /// Converts one target into its candidate; in this model every target
    /// yields one.
    pub fn new(referenceable: &Referenceable, fmt: &String, today: i64) -> (r: Option<
        LinkCompletion,
    >)
        requires
            -100_000_000 < today < 100_000_000,
        ensures
            r matches Some(c) && c.deep_view() == spec_completion_of(
                referenceable.deep_view(),
                fmt@,
                today as int,
            ),
    {
        if let Some(daily) = MDDailyNote::new(referenceable, fmt, today) {
            return Some(LinkCompletion::DailyNote(daily));
        }
        let match_string = referenceable.get_refname();
        match referenceable {
            Referenceable::File { .. } => Some(
                LinkCompletion::File { match_string, referenceable: referenceable.clone() },
            ),
            Referenceable::Heading { .. } => Some(
                LinkCompletion::Heading { match_string, referenceable: referenceable.clone() },
            ),
            Referenceable::IndexedBlock { .. } => Some(
                LinkCompletion::Block { match_string, referenceable: referenceable.clone() },
            ),
            Referenceable::UnresolvedFile { .. } => Some(
                LinkCompletion::Unresolved {
                    match_string,
                    infile_ref: None,
                    referenceable: referenceable.clone(),
                },
            ),
            Referenceable::UnresolvedHeading { heading, .. } => Some(
                LinkCompletion::Unresolved {
                    match_string,
                    infile_ref: Some(heading.clone()),
                    referenceable: referenceable.clone(),
                },
            ),
            Referenceable::UnresolvedIndexedBlock { index, .. } => {
                proof {
                    reveal_strlit("^");
                }
                let mut inf = "^".to_owned();
                inf.append(index.as_str());
                proof {
                    assert(inf@ =~= seq!['^'] + index@);
                }
                Some(
                    LinkCompletion::Unresolved {
                        match_string,
                        infile_ref: Some(inf),
                        referenceable: referenceable.clone(),
                    },
                )
            },
        }
    }

    /// The string the fuzzy matcher ranks the candidate by.
    pub fn match_string(&self) -> (r: String)
        ensures
            r@ == self.deep_view().match_string(),
    {
        match self {
            LinkCompletion::File { match_string, .. } => match_string.clone(),
            LinkCompletion::Heading { match_string, .. } => match_string.clone(),
            LinkCompletion::Block { match_string, .. } => match_string.clone(),
            LinkCompletion::Unresolved { match_string, .. } => match_string.clone(),
            LinkCompletion::DailyNote(d) => d.match_string.clone(),
        }
    }

    /// The refname inserted into the document on acceptance.
    pub fn refname(&self) -> (r: String)
        ensures
            r@ == self.deep_view().refname(),
    {
        match self {
            LinkCompletion::DailyNote(d) => d.ref_name.clone(),
            _ => self.match_string(),
        }
    }

    /// The target the candidate was built from.
    pub fn referenceable(&self) -> (r: &Referenceable)
        ensures
            r.deep_view() == self.deep_view().referenceable(),
    {
        match self {
            LinkCompletion::File { referenceable, .. } => referenceable,
            LinkCompletion::Heading { referenceable, .. } => referenceable,
            LinkCompletion::Block { referenceable, .. } => referenceable,
            LinkCompletion::Unresolved { referenceable, .. } => referenceable,
            LinkCompletion::DailyNote(d) => &d.referenceable,
        }
    }
}

/// The character code compared by the matcher: ASCII letters fold to lower
/// case, every other character stands for itself.
pub open spec fn lower_code(c: char) -> u32 {
    if 65 <= c as u32 && c as u32 <= 90 {
        (c as u32 + 32) as u32
    } else {
        c as u32
    }
}

fn lower_code_exec(c: char) -> (r: u32)
    ensures
        r == lower_code(c),
{
    let u = c as u32;
    if 65 <= u && u <= 90 {
        u + 32
    } else {
        u
    }
}

/// The case-insensitive subsequence score of the filter against a candidate:
/// each matched character counts one, a match contiguous with the previous
/// one counts one more; `None` when the filter is not a subsequence. An empty
/// filter matches everything with score zero.
pub open spec fn spec_score(f: Seq<char>, c: Seq<char>, fi: int, ci: int, contig: bool) -> Option<
    nat,
>
    decreases c.len() - ci when 0 <= ci && 0 <= fi
{
    if fi >= f.len() {
        Some(0)
    } else if ci >= c.len() {
        None
    } else if lower_code(f[fi]) == lower_code(c[ci]) {
        match spec_score(f, c, fi + 1, ci + 1, true) {
            Some(s) => Some(
                s + 1 + if contig {
                    1nat
                } else {
                    0nat
                },
            ),
            None => None,
        }
    } else {
        spec_score(f, c, fi, ci + 1, false)
    }
}

pub open spec fn spec_match_score(filter: Seq<char>, cand: Seq<char>) -> Option<nat> {
    spec_score(filter, cand, 0, 0, false)
}

fn score_rec(f: &str, c: &str, fi: usize, ci: usize, flen: usize, clen: usize, contig: bool) -> (r:
    Option<u64>)
    requires
        flen == f@.len(),
        clen == c@.len(),
        fi <= flen,
        ci <= clen,
        flen < 0x1000_0000_0000_0000,
    ensures
        match r {
            Some(s) => spec_score(f@, c@, fi as int, ci as int, contig) == Some(s as nat) && s
                <= 2 * (flen - fi),
            None => spec_score(f@, c@, fi as int, ci as int, contig) is None,
        },
    decreases clen - ci,
{
    if fi == flen {
        Some(0)
    } else if ci == clen {
        None
    } else if lower_code_exec(f.get_char(fi)) == lower_code_exec(c.get_char(ci)) {
        match score_rec(f, c, fi + 1, ci + 1, flen, clen, true) {
            Some(s) => Some(
                s + 1 + if contig {
                    1
                } else {
                    0
                },
            ),
            None => None,
        }
    } else {
        score_rec(f, c, fi, ci + 1, flen, clen, false)
    }
}

/// Scores a candidate string against the typed filter text.
pub fn match_score(filter: &String, cand: &String) -> (r: Option<u64>)
    requires
        filter@.len() < 0x1000_0000_0000_0000,
    ensures
        match r {
            Some(s) => spec_match_score(filter@, cand@) == Some(s as nat),
            None => spec_match_score(filter@, cand@) is None,
        },
{
    let f = filter.as_str();
    let c = cand.as_str();
    score_rec(f, c, 0, 0, f.unicode_len(), c.unicode_len(), false)
}

/// A candidate paired with its score, while ranking.
pub struct Scored {
    pub item: LinkCompletion,
    pub score: u64,
}

/// The mathematical value of a `Scored`.
pub struct ScoredView {
    pub item: LcView,
    pub score: u64,
}

impl DeepView for Scored {
    type V = ScoredView;

    open spec fn deep_view(&self) -> ScoredView {
        ScoredView { item: self.item.deep_view(), score: self.score }
    }
}

/// The surviving candidates, paired with their scores, in discovery order.
pub open spec fn spec_scored(filter: Seq<char>, cands: Seq<LcView>, i: int) -> Seq<ScoredView>
    decreases cands.len() - i when 0 <= i
{
    if i >= cands.len() {
        Seq::<ScoredView>::empty()
    } else {
        let rest = spec_scored(filter, cands, i + 1);
        match spec_match_score(filter, cands[i].match_string()) {
            Some(s) => seq![ScoredView { item: cands[i], score: s as u64 }] + rest,
            None => rest,
        }
    }
}

/// Inserts a scored candidate after every element scoring at least as much:
/// descending order, stable for equal scores.
pub open spec fn insert_desc(x: ScoredView, s: Seq<ScoredView>) -> Seq<ScoredView>
    decreases s.len(),
{
    if s.len() == 0 {
        seq![x]
    } else if s[0].score >= x.score {
        seq![s[0]] + insert_desc(x, s.drop_first())
    } else {
        seq![x] + s
    }
}

/// Stable insertion sort, descending by score.
pub open spec fn sort_desc(s: Seq<ScoredView>) -> Seq<ScoredView>
    decreases s.len(),
{
    if s.len() == 0 {
        s
    } else {
        insert_desc(s.last(), sort_desc(s.drop_last()))
    }
}

proof fn lemma_insert_desc(x: ScoredView, s: Seq<ScoredView>, idx: int)
    requires
        0 <= idx <= s.len(),
        forall|j: int| 0 <= j < idx ==> s[j].score >= x.score,
        idx == s.len() || s[idx].score < x.score,
    ensures
        insert_desc(x, s) == s.subrange(0, idx) + seq![x] + s.subrange(idx, s.len() as int),
    decreases s.len(),
{
    if s.len() == 0 {
        assert(insert_desc(x, s) =~= s.subrange(0, idx) + seq![x] + s.subrange(
            idx,
            s.len() as int,
        ));
    } else if idx == 0 {
        assert(s[0].score < x.score);
        assert(insert_desc(x, s) =~= s.subrange(0, idx) + seq![x] + s.subrange(
            idx,
            s.len() as int,
        ));
    } else {
        assert(s[0].score >= x.score);
        lemma_insert_desc(x, s.drop_first(), idx - 1);
        assert(insert_desc(x, s) =~= s.subrange(0, idx) + seq![x] + s.subrange(
            idx,
            s.len() as int,
        ));
    }
}

fn insert_pos(v: &Vec<Scored>, i: usize, score: u64) -> (r: usize)
    requires
        i <= v@.len(),
    ensures
        i <= r <= v@.len(),
        forall|j: int| i <= j < r ==> v.deep_view()[j].score >= score,
        r < v@.len() ==> v.deep_view()[r as int].score < score,
    decreases v@.len() - i,
{
    if i == v.len() {
        i
    } else if v[i].score >= score {
        insert_pos(v, i + 1, score)
    } else {
        i
    }
}

fn insert_exec(v: Vec<Scored>, x: Scored) -> (r: Vec<Scored>)
    ensures
        r.deep_view() == insert_desc(x.deep_view(), v.deep_view()),
{
    let idx = insert_pos(&v, 0, x.score);
    proof {
        lemma_insert_desc(x.deep_view(), v.deep_view(), idx as int);
    }
    let ghost old_view = v.deep_view();
    let mut v = v;
    v.insert(idx, x);
    proof {
        assert(v.deep_view() =~= old_view.subrange(0, idx as int) + seq![x.deep_view()]
            + old_view.subrange(idx as int, old_view.len() as int));
    }
    v
}

fn sort_exec(v: Vec<Scored>) -> (r: Vec<Scored>)
    ensures
        r.deep_view() == sort_desc(v.deep_view()),
    decreases v@.len(),
{
    let ghost old_view = v.deep_view();
    let mut v = v;
    if v.len() == 0 {
        v
    } else {
        let x = match v.pop() {
            Some(x) => x,
            None => {
                proof {
                    assert(false);
                }
                unreached()
            },
        };
        proof {
            assert(v.deep_view() =~= old_view.drop_last());
            assert(x.deep_view() == old_view.last());
        }
        let sorted = sort_exec(v);
        insert_exec(sorted, x)
    }
}

/// The ranked candidates: scores dropped, best first, ties in discovery
/// order.
pub open spec fn drop_scores(s: Seq<ScoredView>, i: int) -> Seq<LcView>
    decreases s.len() - i when 0 <= i
{
    if i >= s.len() {
        Seq::<LcView>::empty()
    } else {
        seq![s[i].item] + drop_scores(s, i + 1)
    }
}

pub open spec fn spec_ranked(filter: Seq<char>, cands: Seq<LcView>) -> Seq<LcView> {
    drop_scores(sort_desc(spec_scored(filter, cands, 0)), 0)
}

fn scored_rec(filter: &String, cands: &Vec<LinkCompletion>, i: usize) -> (r: Vec<Scored>)
    requires
        i <= cands@.len(),
        filter@.len() < 0x1000_0000_0000_0000,
    ensures
        r.deep_view() == spec_scored(filter@, cands.deep_view(), i as int),
    decreases cands@.len() - i,
{
    if i == cands.len() {
        Vec::new()
    } else {
        let mut rest = scored_rec(filter, cands, i + 1);
        let ms = cands[i].match_string();
        match match_score(filter, &ms) {
            Some(s) => {
                rest.insert(0, Scored { item: cands[i].clone(), score: s });
                proof {
                    assert(rest.deep_view() =~= spec_scored(
                        filter@,
                        cands.deep_view(),
                        i as int,
                    ));
                }
                rest
            },
            None => rest,
        }
    }
}

fn strip_rec(v: &Vec<Scored>, i: usize) -> (r: Vec<LinkCompletion>)
    requires
        i <= v@.len(),
    ensures
        r.deep_view() == drop_scores(v.deep_view(), i as int),
    decreases v@.len() - i,
{
    if i == v.len() {
        Vec::new()
    } else {
        let mut rest = strip_rec(v, i + 1);
        rest.insert(0, v[i].item.clone());
        proof {
            assert(rest.deep_view() =~= drop_scores(v.deep_view(), i as int));
        }
        rest
    }
}

/// Filters and orders candidates against the typed filter text: candidates
/// the filter does not match are dropped, the rest sort descending by score,
/// ties keeping discovery order.
pub fn fuzzy_match_completions(filter: &String, completions: Vec<LinkCompletion>) -> (r: Vec<
    LinkCompletion,
>)
    requires
        filter@.len() < 0x1000_0000_0000_0000,
    ensures
        r.deep_view() == spec_ranked(filter@, completions.deep_view()),
{
    let scored = scored_rec(filter, &completions, 0);
    let sorted = sort_exec(scored);
    strip_rec(&sorted, 0)
}

/// A refname wrapped in angle brackets when it holds a space, else itself.
pub open spec fn wrapped_ref(refname: Seq<char>) -> Seq<char> {
    if find_char(refname, 0, ' ') < refname.len() {
        seq!['<'] + refname + seq!['>']
    } else {
        refname
    }
}

/// The markdown replacement: `[<display>](<refname>)` over the computed full
/// range of the cursor's line.
pub open spec fn spec_md_text_edit(
    c: MdCompleterView,
    display: Option<Seq<char>>,
    refname: Seq<char>,
) -> TextEditView {
    TextEditView {
        range: DocRange {
            start: Position { line: c.line_nr, character: c.full_range.start as u32 },
            end: Position { line: c.line_nr, character: c.full_range.end as u32 },
        },
        new_text: seq!['['] + (match display {
            Some(d) => d,
            None => Seq::<char>::empty(),
        }) + seq![']', '('] + wrapped_ref(refname) + seq![')'],
    }
}

/// The wiki replacement: `<refname>`, optionally `|<display>`, from one
/// character after the opening marker to the cursor.
pub open spec fn spec_wiki_text_edit(
    c: WikiCompleterView,
    display: Option<Seq<char>>,
    refname: Seq<char>,
) -> TextEditView {
    TextEditView {
        range: DocRange {
            start: Position { line: c.line, character: (c.index + 1) as u32 },
            end: Position { line: c.line, character: c.character },
        },
        new_text: refname + (match display {
            Some(d) => seq!['|'] + d,
            None => Seq::<char>::empty(),
        }),
    }
}

impl MarkdownLinkCompleter {
    /// Synthesizes the markdown replacement edit, wrapping a refname that
    /// holds a space in angle brackets.
    pub fn completion_text_edit(&self, display: Option<&String>, refname: &String) -> (r: TextEdit)
        requires
            self.wf(),
        ensures
            r.deep_view() == spec_md_text_edit(
                self.deep_view(),
                match display {
                    Some(d) => Some(d@),
                    None => None,
                },
                refname@,
            ),
    {
        proof {
            reveal_strlit("[");
            reveal_strlit("](");
            reveal_strlit(")");
            reveal_strlit("<");
            reveal_strlit(">");
        }
        let rlen = refname.as_str().unicode_len();
        let link_ref = if contains_char(refname.as_str(), 0, rlen, ' ') {
            let mut w = "<".to_owned();
            w.append(refname.as_str());
            w.append(">");
            w
        } else {
            refname.clone()
        };
        let mut t = "[".to_owned();
        match display {
            Some(d) => t.append(d.as_str()),
            None => (),
        }
        t.append("](");
        t.append(link_ref.as_str());
        t.append(")");
        let r = TextEdit {
            range: DocRange {
                start: Position { line: self.line_nr, character: self.full_range.start as u32 },
                end: Position { line: self.line_nr, character: self.full_range.end as u32 },
            },
            new_text: t,
        };
        proof {
            assert(link_ref@ =~= wrapped_ref(refname@));
            assert(r.deep_view().new_text =~= spec_md_text_edit(
                self.deep_view(),
                match display {
                    Some(d) => Some(d@),
                    None => None,
                },
                refname@,
            ).new_text);
        }
        r
    }
}

impl WikiLinkCompleter {
    /// Synthesizes the wiki replacement edit.
    pub fn completion_text_edit(&self, display: Option<&String>, refname: &String) -> (r: TextEdit)
        requires
            self.wf(),
        ensures
            r.deep_view() == spec_wiki_text_edit(
                self.deep_view(),
                match display {
                    Some(d) => Some(d@),
                    None => None,
                },
                refname@,
            ),
    {
        proof {
            reveal_strlit("|");
        }
        let mut t = refname.clone();
        match display {
            Some(d) => {
                t.append("|");
                t.append(d.as_str());
            },
            None => (),
        }
        let r = TextEdit {
            range: DocRange {
                start: Position { line: self.line, character: self.index + 1 },
                end: Position { line: self.line, character: self.character },
            },
            new_text: t,
        };
        proof {
            assert(r.deep_view().new_text =~= spec_wiki_text_edit(
                self.deep_view(),
                match display {
                    Some(d) => Some(d@),
                    None => None,
                },
                refname@,
            ).new_text);
        }
        r
    }
}

impl MarkdownLinkCompleter {
    /// The filter text an item carries for a markdown request: the typed
    /// display in link shape around the candidate's label.
    pub fn completion_filter_text(&self, label: &String) -> (r: String)
        ensures
            r@ == seq!['['] + self.display.0@ + seq![']', '('] + label@,
    {
        proof {
            reveal_strlit("[");
            reveal_strlit("](");
        }
        let mut t = "[".to_owned();
        t.append(self.display.0.as_str());
        t.append("](");
        t.append(label.as_str());
        proof {
            assert(t@ =~= seq!['['] + self.display.0@ + seq![']', '('] + label@);
        }
        t
    }
}

impl WikiLinkCompleter {
    /// The filter text an item carries for a wiki request: the candidate's
    /// label itself.
    pub fn completion_filter_text(&self, label: &String) -> (r: String)
        ensures
            r@ == label@,
    {
        label.clone()
    }
}

/// The presentation tag of a candidate.
pub open spec fn lc_kind(v: LcView) -> CompletionKind {
    match v {
        LcView::File { .. } => CompletionKind::File,
        LcView::Heading { .. } => CompletionKind::Reference,
        LcView::Block { .. } => CompletionKind::Reference,
        LcView::Unresolved { .. } => CompletionKind::Keyword,
        LcView::DailyNote(..) => CompletionKind::Event,
    }
}

pub open spec fn unresolved_detail() -> Seq<char> {
    seq!['U', 'n', 'r', 'e', 's', 'o', 'l', 'v', 'e', 'd']
}

/// The label-detail qualifier: only unresolved candidates carry one.
pub open spec fn lc_label_detail(v: LcView) -> Option<Seq<char>> {
    match v {
        LcView::Unresolved { .. } => Some(unresolved_detail()),
        _ => None,
    }
}

/// The text that stands in for an untyped display: a resolved heading's
/// heading text, an unresolved target's infile-ref text, nothing otherwise.
pub open spec fn lc_md_infile(v: LcView) -> Option<Seq<char>> {
    match v {
        LcView::Heading { referenceable, .. } => match referenceable {
            RefbView::Heading { heading, .. } => Some(heading),
            _ => None,
        },
        LcView::Unresolved { infile_ref, .. } => infile_ref,
        _ => None,
    }
}

/// A tab-stop placeholder around the chosen display text.
pub open spec fn snippet_of(text: Seq<char>) -> Seq<char> {
    seq!['$', '{', '1', ':'] + text + seq!['}']
}

/// The completion item a candidate yields for a markdown request: labeled by
/// its match string, inserting its refname as a snippet over the full range,
/// documented by the target's preview.
pub open spec fn spec_md_item(vault: Vault, c: MdCompleterView, v: LcView) -> ItemView {
    let label = v.match_string();
    let chosen = if c.display.0.len() == 0 {
        match lc_md_infile(v) {
            Some(t) => t,
            None => Seq::<char>::empty(),
        }
    } else {
        c.display.0
    };
    ItemView {
        label,
        kind: lc_kind(v),
        label_detail: lc_label_detail(v),
        text_edit: spec_md_text_edit(c, Some(snippet_of(chosen)), v.refname()),
        filter_text: seq!['['] + c.display.0 + seq![']', '('] + label,
        documentation: Some(spec_preview(vault, v.referenceable())),
        insert_format: InsertFormat::Snippet,
        sort_text: None,
    }
}

/// The completion item a candidate yields for a wiki request.
pub open spec fn spec_wiki_item(
    vault: Vault,
    c: WikiCompleterView,
    v: LcView,
    sort_text: Option<Seq<char>>,
) -> ItemView {
    let label = v.match_string();
    ItemView {
        label,
        kind: lc_kind(v),
        label_detail: lc_label_detail(v),
        text_edit: spec_wiki_text_edit(c, None, v.refname()),
        filter_text: label,
        documentation: Some(spec_preview(vault, v.referenceable())),
        insert_format: InsertFormat::PlainText,
        sort_text,
    }
}

fn lc_kind_exec(lc: &LinkCompletion) -> (r: CompletionKind)
    ensures
        r == lc_kind(lc.deep_view()),
{
    match lc {
        LinkCompletion::File { .. } => CompletionKind::File,
        LinkCompletion::Heading { .. } => CompletionKind::Reference,
        LinkCompletion::Block { .. } => CompletionKind::Reference,
        LinkCompletion::Unresolved { .. } => CompletionKind::Keyword,
        LinkCompletion::DailyNote(..) => CompletionKind::Event,
    }
}

fn lc_label_detail_exec(lc: &LinkCompletion) -> (r: Option<String>)
    ensures
        match r {
            Some(s) => lc_label_detail(lc.deep_view()) == Some(s@),
            None => lc_label_detail(lc.deep_view()) is None,
        },
{
    match lc {
        LinkCompletion::Unresolved { .. } => {
            proof {
                reveal_strlit("Unresolved");
                assert("Unresolved"@ =~= unresolved_detail());
            }
            Some("Unresolved".to_owned())
        },
        _ => None,
    }
}

fn lc_md_infile_exec(lc: &LinkCompletion) -> (r: Option<String>)
    ensures
        match r {
            Some(s) => lc_md_infile(lc.deep_view()) == Some(s@),
            None => lc_md_infile(lc.deep_view()) is None,
        },
{
    match lc {
        LinkCompletion::Heading { referenceable, .. } => match referenceable {
            Referenceable::Heading { heading, .. } => Some(heading.clone()),
            _ => None,
        },
        LinkCompletion::Unresolved { infile_ref, .. } => match infile_ref {
            Some(s) => Some(s.clone()),
            None => None,
        },
        _ => None,
    }
}

/// Builds the markdown completion item for one ranked candidate.
pub fn md_completion_item(vault: &Vault, completer: &MarkdownLinkCompleter, lc: &LinkCompletion) -> (r:
    CompletionItem)
    requires
        vault.wf(),
        completer.wf(),
    ensures
        r.deep_view() == spec_md_item(*vault, completer.deep_view(), lc.deep_view()),
{
    proof {
        reveal_strlit("${1:");
        reveal_strlit("}");
        reveal_strlit("[");
        reveal_strlit("](");
    }
    let label = lc.match_string();
    let chosen = if completer.display.0.as_str().is_empty() {
        match lc_md_infile_exec(lc) {
            Some(t) => t,
            None => String::new(),
        }
    } else {
        completer.display.0.clone()
    };
    let mut snippet = "${1:".to_owned();
    snippet.append(chosen.as_str());
    snippet.append("}");
    let refname = lc.refname();
    let text_edit = completer.completion_text_edit(Some(&snippet), &refname);
    let filter_text = completer.completion_filter_text(&label);
    let documentation = preview_referenceable(vault, lc.referenceable());
    let r = CompletionItem {
        label,
        kind: lc_kind_exec(lc),
        label_detail: lc_label_detail_exec(lc),
        text_edit,
        filter_text,
        documentation: Some(documentation),
        insert_format: InsertFormat::Snippet,
        sort_text: None,
    };
    proof {
        assert(snippet@ =~= snippet_of(
            if completer.deep_view().display.0.len() == 0 {
                match lc_md_infile(lc.deep_view()) {
                    Some(t) => t,
                    None => Seq::<char>::empty(),
                }
            } else {
                completer.deep_view().display.0
            },
        ));
        assert(r.deep_view().filter_text =~= spec_md_item(
            *vault,
            completer.deep_view(),
            lc.deep_view(),
        ).filter_text);
    }
    r
}

/// Builds the wiki completion item for one candidate.
pub fn wiki_completion_item(
    vault: &Vault,
    completer: &WikiLinkCompleter,
    lc: &LinkCompletion,
    sort_text: Option<String>,
) -> (r: CompletionItem)
    requires
        vault.wf(),
        completer.wf(),
    ensures
        r.deep_view() == spec_wiki_item(
            *vault,
            completer.deep_view(),
            lc.deep_view(),
            match sort_text {
                Some(s) => Some(s@),
                None => None,
            },
        ),
{
    let label = lc.match_string();
    let refname = lc.refname();
    let text_edit = completer.completion_text_edit(None, &refname);
    let filter_text = completer.completion_filter_text(&label);
    let documentation = preview_referenceable(vault, lc.referenceable());
    CompletionItem {
        label,
        kind: lc_kind_exec(lc),
        label_detail: lc_label_detail_exec(lc),
        text_edit,
        filter_text,
        documentation: Some(documentation),
        insert_format: InsertFormat::PlainText,
        sort_text,
    }
}

/// The first unresolved target of a resolution result.
pub open spec fn first_unresolved(nodes: Seq<RefbView>, i: int) -> Option<RefbView>
    decreases nodes.len() - i when 0 <= i
{
    if i >= nodes.len() {
        None
    } else if nodes[i].is_unresolved() {
        Some(nodes[i])
    } else {
        first_unresolved(nodes, i + 1)
    }
}

/// The target excluded from candidate generation: the unresolved target
/// under the cursor, when it exists and exactly one occurrence vault-wide
/// points at it — it would only echo the text being typed.
pub open spec fn spec_excluded(vault: Vault, path: Seq<char>, pos: Position) -> Option<RefbView> {
    match vault.spec_reference_at(path, pos) {
        None => None,
        Some(rv) => match first_unresolved(vault.spec_resolution(rv.refname), 0) {
            None => None,
            Some(u) => if vault.spec_count_refs(u.refname()) == 1 {
                Some(u)
            } else {
                None
            },
        },
    }
}

/// Every target's candidate, in enumeration order, the excluded target
/// skipped.
pub open spec fn candidates_from(
    nodes: Seq<RefbView>,
    i: int,
    excluded: Option<RefbView>,
    fmt: Seq<char>,
    today: int,
) -> Seq<LcView>
    decreases nodes.len() - i when 0 <= i
{
    if i >= nodes.len() {
        Seq::<LcView>::empty()
    } else {
        let rest = candidates_from(nodes, i + 1, excluded, fmt, today);
        if excluded == Some(nodes[i]) {
            rest
        } else {
            seq![spec_completion_of(nodes[i], fmt, today)] + rest
        }
    }
}

/// The unordered candidate list of one request.
pub open spec fn spec_link_completions(
    vault: Vault,
    path: Seq<char>,
    pos: Position,
    fmt: Seq<char>,
    today: int,
) -> Seq<LcView> {
    candidates_from(vault.spec_nodes(), 0, spec_excluded(vault, path, pos), fmt, today)
}

fn first_unresolved_exec(nodes: &Vec<Referenceable>, i: usize) -> (r: Option<Referenceable>)
    requires
        i <= nodes@.len(),
    ensures
        match r {
            Some(u) => first_unresolved(nodes.deep_view(), i as int) == Some(u.deep_view()),
            None => first_unresolved(nodes.deep_view(), i as int) is None,
        },
    decreases nodes@.len() - i,
{
    if i == nodes.len() {
        None
    } else if nodes[i].is_unresolved() {
        Some(nodes[i].clone())
    } else {
        first_unresolved_exec(nodes, i + 1)
    }
}

fn cands_rec(
    nodes: &Vec<Referenceable>,
    i: usize,
    excluded: &Option<Referenceable>,
    fmt: &String,
    today: i64,
) -> (r: Vec<LinkCompletion>)
    requires
        i <= nodes@.len(),
        -100_000_000 < today < 100_000_000,
    ensures
        r.deep_view() == candidates_from(
            nodes.deep_view(),
            i as int,
            match excluded {
                Some(e) => Some(e.deep_view()),
                None => None,
            },
            fmt@,
            today as int,
        ),
    decreases nodes@.len() - i,
{
    if i == nodes.len() {
        Vec::new()
    } else {
        let mut rest = cands_rec(nodes, i + 1, excluded, fmt, today);
        let skip = match excluded {
            Some(e) => nodes[i].same_as(e),
            None => false,
        };
        if !skip {
            match LinkCompletion::new(&nodes[i], fmt, today) {
                Some(c) => {
                    rest.insert(0, c);
                    proof {
                        assert(rest.deep_view() =~= candidates_from(
                            nodes.deep_view(),
                            i as int,
                            match excluded {
                                Some(e) => Some(e.deep_view()),
                                None => None,
                            },
                            fmt@,
                            today as int,
                        ));
                    }
                },
                None => {
                    proof {
                        assert(false);
                    }
                },
            }
        }
        rest
    }
}

/// Enumerates every link target of the vault and converts each into a
/// candidate, skipping the disambiguation exclusion — at most one target:
/// the unresolved one under the cursor, when referenced exactly once.
pub fn link_completions(
    vault: &Vault,
    path: &String,
    pos: Position,
    fmt: &String,
    today: i64,
) -> (r: Vec<LinkCompletion>)
    requires
        vault.wf(),
        -100_000_000 < today < 100_000_000,
    ensures
        r.deep_view() == spec_link_completions(*vault, path@, pos, fmt@, today as int),
{
    let excluded = match vault.select_reference_at_position(path, pos) {
        None => None,
        Some(rf) => {
            let matches = vault.select_referenceables_for_reference(&rf);
            match first_unresolved_exec(&matches, 0) {
                None => None,
                Some(u) => {
                    if vault.count_references_to(&u) == 1 {
                        Some(u)
                    } else {
                        None
                    }
                },
            }
        },
    };
    let nodes = vault.select_referenceable_nodes(None);
    cands_rec(&nodes, 0, &excluded, fmt, today)
}

/// The fuzzy filter text of a markdown request: the typed path fragment,
/// then `#` and the typed infile fragment when one stands there.
pub open spec fn spec_md_filter_text(c: MdCompleterView) -> Seq<char> {
    c.path.0 + (match c.infile_ref {
        Some((inf, _)) => seq!['#'] + inf.text(),
        None => Seq::<char>::empty(),
    })
}

pub open spec fn map_md_items(vault: Vault, c: MdCompleterView, ranked: Seq<LcView>, i: int) -> Seq<
    ItemView,
>
    decreases ranked.len() - i when 0 <= i
{
    if i >= ranked.len() {
        Seq::<ItemView>::empty()
    } else {
        seq![spec_md_item(vault, c, ranked[i])] + map_md_items(vault, c, ranked, i + 1)
    }
}

/// Every item a markdown request answers, in rank order.
pub open spec fn spec_md_completions(
    vault: Vault,
    c: MdCompleterView,
    fmt: Seq<char>,
    today: int,
) -> Seq<ItemView> {
    map_md_items(
        vault,
        c,
        spec_ranked(
            spec_md_filter_text(c),
            spec_link_completions(vault, c.file_path, c.position, fmt, today),
        ),
        0,
    )
}

fn map_md_items_exec(
    vault: &Vault,
    completer: &MarkdownLinkCompleter,
    ranked: &Vec<LinkCompletion>,
    i: usize,
) -> (r: Vec<CompletionItem>)
    requires
        vault.wf(),
        completer.wf(),
        i <= ranked@.len(),
    ensures
        r.deep_view() == map_md_items(*vault, completer.deep_view(), ranked.deep_view(), i as int),
    decreases ranked@.len() - i,
{
    if i == ranked.len() {
        Vec::new()
    } else {
        let mut rest = map_md_items_exec(vault, completer, ranked, i + 1);
        rest.insert(0, md_completion_item(vault, completer, &ranked[i]));
        proof {
            assert(rest.deep_view() =~= map_md_items(
                *vault,
                completer.deep_view(),
                ranked.deep_view(),
                i as int,
            ));
        }
        rest
    }
}

impl MarkdownLinkCompleter {
    /// Serves a markdown completion request: candidates ranked against the
    /// typed path and infile fragments, each synthesized into an item.
    pub fn completions(&self, vault: &Vault, fmt: &String, today: i64) -> (r: Vec<CompletionItem>)
        requires
            vault.wf(),
            self.wf(),
            -100_000_000 < today < 100_000_000,
        ensures
            r.deep_view() == spec_md_completions(*vault, self.deep_view(), fmt@, today as int),
    {
        proof {
            reveal_strlit("#");
        }
        let mut filter_text = self.path.0.clone();
        match &self.infile_ref {
            Some((inf, _)) => {
                filter_text.append("#");
                let t = inf.completion_string();
                filter_text.append(t.as_str());
            },
            None => (),
        }
        proof {
            assert(filter_text@ =~= spec_md_filter_text(self.deep_view()));
        }
        let cands = link_completions(vault, &self.file_path, self.position, fmt, today);
        let ranked = fuzzy_match_completions(&filter_text, cands);
        map_md_items_exec(vault, self, &ranked, 0)
    }
}

/// A currently open document as the recency fallback sees it: its path and,
/// when readable, its modification time in seconds.
pub struct OpenedFile {
    pub path: String,
    pub modified_secs: Option<u64>,
}

/// The mathematical value of an `OpenedFile`.
pub struct OpenedView {
    pub path: Seq<char>,
    pub modified: Option<u64>,
}

impl DeepView for OpenedFile {
    type V = OpenedView;

    open spec fn deep_view(&self) -> OpenedView {
        OpenedView {
            path: self.path@,
            modified: match self.modified_secs {
                Some(m) => Some(m),
                None => None,
            },
        }
    }
}

/// The recency key: an unreadable modification time counts as the oldest
/// possible.
pub open spec fn opened_key(o: OpenedView) -> u64 {
    match o.modified {
        Some(m) => m,
        None => 0,
    }
}

/// Inserts an opened document after every one at least as recent: descending
/// by modification time, stable.
pub open spec fn insert_recent(x: OpenedView, s: Seq<OpenedView>) -> Seq<OpenedView>
    decreases s.len(),
{
    if s.len() == 0 {
        seq![x]
    } else if opened_key(s[0]) >= opened_key(x) {
        seq![s[0]] + insert_recent(x, s.drop_first())
    } else {
        seq![x] + s
    }
}

/// Stable sort of the open documents, most recently modified first.
pub open spec fn sort_recent(s: Seq<OpenedView>) -> Seq<OpenedView>
    decreases s.len(),
{
    if s.len() == 0 {
        s
    } else {
        insert_recent(s.last(), sort_recent(s.drop_last()))
    }
}

proof fn lemma_insert_recent(x: OpenedView, s: Seq<OpenedView>, idx: int)
    requires
        0 <= idx <= s.len(),
        forall|j: int| 0 <= j < idx ==> opened_key(s[j]) >= opened_key(x),
        idx == s.len() || opened_key(s[idx]) < opened_key(x),
    ensures
        insert_recent(x, s) == s.subrange(0, idx) + seq![x] + s.subrange(idx, s.len() as int),
    decreases s.len(),
{
    if s.len() == 0 {
        assert(insert_recent(x, s) =~= s.subrange(0, idx) + seq![x] + s.subrange(
            idx,
            s.len() as int,
        ));
    } else if idx == 0 {
        assert(insert_recent(x, s) =~= s.subrange(0, idx) + seq![x] + s.subrange(
            idx,
            s.len() as int,
        ));
    } else {
        lemma_insert_recent(x, s.drop_first(), idx - 1);
        assert(insert_recent(x, s) =~= s.subrange(0, idx) + seq![x] + s.subrange(
            idx,
            s.len() as int,
        ));
    }
}

fn opened_key_exec(o: &OpenedFile) -> (r: u64)
    ensures
        r == opened_key(o.deep_view()),
{
    match o.modified_secs {
        Some(m) => m,
        None => 0,
    }
}

fn insert_recent_pos(v: &Vec<OpenedFile>, i: usize, key: u64) -> (r: usize)
    requires
        i <= v@.len(),
    ensures
        i <= r <= v@.len(),
        forall|j: int| i <= j < r ==> opened_key(v.deep_view()[j]) >= key,
        r < v@.len() ==> opened_key(v.deep_view()[r as int]) < key,
    decreases v@.len() - i,
{
    if i == v.len() {
        i
    } else if opened_key_exec(&v[i]) >= key {
        insert_recent_pos(v, i + 1, key)
    } else {
        i
    }
}

fn insert_recent_exec(v: Vec<OpenedFile>, x: OpenedFile) -> (r: Vec<OpenedFile>)
    ensures
        r.deep_view() == insert_recent(x.deep_view(), v.deep_view()),
{
    let key = opened_key_exec(&x);
    let idx = insert_recent_pos(&v, 0, key);
    proof {
        lemma_insert_recent(x.deep_view(), v.deep_view(), idx as int);
    }
    let ghost old_view = v.deep_view();
    let mut v = v;
    v.insert(idx, x);
    proof {
        assert(v.deep_view() =~= old_view.subrange(0, idx as int) + seq![x.deep_view()]
            + old_view.subrange(idx as int, old_view.len() as int));
    }
    v
}

fn sort_recent_exec(v: Vec<OpenedFile>) -> (r: Vec<OpenedFile>)
    ensures
        r.deep_view() == sort_recent(v.deep_view()),
    decreases v@.len(),
{
    let ghost old_view = v.deep_view();
    let mut v = v;
    if v.len() == 0 {
        v
    } else {
        let x = match v.pop() {
            Some(x) => x,
            None => {
                proof {
                    assert(false);
                }
                unreached()
            },
        };
        proof {
            assert(v.deep_view() =~= old_view.drop_last());
            assert(x.deep_view() == old_view.last());
        }
        let sorted = sort_recent_exec(v);
        insert_recent_exec(sorted, x)
    }
}

/// The items one open document contributes to the recency fallback: each of
/// its targets as a candidate, carrying the stringified modification time as
/// the presentation sort key.
pub open spec fn map_doc_items(
    vault: Vault,
    c: WikiCompleterView,
    nodes: Seq<RefbView>,
    i: int,
    key: u64,
    fmt: Seq<char>,
    today: int,
) -> Seq<ItemView>
    decreases nodes.len() - i when 0 <= i
{
    if i >= nodes.len() {
        Seq::<ItemView>::empty()
    } else {
        seq![
            spec_wiki_item(
                vault,
                c,
                spec_completion_of(nodes[i], fmt, today),
                Some(dec_str(key as int)),
            ),
        ] + map_doc_items(vault, c, nodes, i + 1, key, fmt, today)
    }
}

pub open spec fn spec_doc_items(
    vault: Vault,
    c: WikiCompleterView,
    o: OpenedView,
    fmt: Seq<char>,
    today: int,
) -> Seq<ItemView> {
    let nodes = if vault.spec_file_idx(o.path) >= 0 {
        spec_file_nodes(vault.files@[vault.spec_file_idx(o.path)])
    } else {
        Seq::<RefbView>::empty()
    };
    map_doc_items(vault, c, nodes, 0, opened_key(o), fmt, today)
}

/// The recency fallback: the open documents, most recently modified first,
/// each contributing its own targets.
pub open spec fn spec_recent_items(
    vault: Vault,
    c: WikiCompleterView,
    docs: Seq<OpenedView>,
    i: int,
    fmt: Seq<char>,
    today: int,
) -> Seq<ItemView>
    decreases docs.len() - i when 0 <= i
{
    if i >= docs.len() {
        Seq::<ItemView>::empty()
    } else {
        spec_doc_items(vault, c, docs[i], fmt, today) + spec_recent_items(
            vault,
            c,
            docs,
            i + 1,
            fmt,
            today,
        )
    }
}

fn map_doc_items_exec(
    vault: &Vault,
    completer: &WikiLinkCompleter,
    nodes: &Vec<Referenceable>,
    i: usize,
    key: u64,
    fmt: &String,
    today: i64,
) -> (r: Vec<CompletionItem>)
    requires
        vault.wf(),
        completer.wf(),
        i <= nodes@.len(),
        -100_000_000 < today < 100_000_000,
    ensures
        r.deep_view() == map_doc_items(
            *vault,
            completer.deep_view(),
            nodes.deep_view(),
            i as int,
            key,
            fmt@,
            today as int,
        ),
    decreases nodes@.len() - i,
{
    if i == nodes.len() {
        Vec::new()
    } else {
        let mut rest = map_doc_items_exec(vault, completer, nodes, i + 1, key, fmt, today);
        match LinkCompletion::new(&nodes[i], fmt, today) {
            Some(c) => {
                let item = wiki_completion_item(vault, completer, &c, Some(u64_string(key)));
                rest.insert(0, item);
                proof {
                    assert(rest.deep_view() =~= map_doc_items(
                        *vault,
                        completer.deep_view(),
                        nodes.deep_view(),
                        i as int,
                        key,
                        fmt@,
                        today as int,
                    ));
                }
                rest
            },
            None => {
                proof {
                    assert(false);
                }
                rest
            },
        }
    }
}

fn recent_items_exec(
    vault: &Vault,
    completer: &WikiLinkCompleter,
    docs: &Vec<OpenedFile>,
    i: usize,
    fmt: &String,
    today: i64,
) -> (r: Vec<CompletionItem>)
    requires
        vault.wf(),
        completer.wf(),
        i <= docs@.len(),
        -100_000_000 < today < 100_000_000,
    ensures
        r.deep_view() == spec_recent_items(
            *vault,
            completer.deep_view(),
            docs.deep_view(),
            i as int,
            fmt@,
            today as int,
        ),
    decreases docs@.len() - i,
{
    if i == docs.len() {
        Vec::new()
    } else {
        let nodes = vault.select_referenceable_nodes(Some(&docs[i].path));
        let key = opened_key_exec(&docs[i]);
        let mut v = map_doc_items_exec(vault, completer, &nodes, 0, key, fmt, today);
        let mut rest = recent_items_exec(vault, completer, docs, i + 1, fmt, today);
        v.append(&mut rest);
        proof {
            assert(v.deep_view() =~= spec_recent_items(
                *vault,
                completer.deep_view(),
                docs.deep_view(),
                i as int,
                fmt@,
                today as int,
            ));
        }
        v
    }
}

pub open spec fn map_wiki_items(
    vault: Vault,
    c: WikiCompleterView,
    ranked: Seq<LcView>,
    i: int,
) -> Seq<ItemView>
    decreases ranked.len() - i when 0 <= i
{
    if i >= ranked.len() {
        Seq::<ItemView>::empty()
    } else {
        seq![spec_wiki_item(vault, c, ranked[i], None)] + map_wiki_items(vault, c, ranked, i + 1)
    }
}

/// Every item a wiki request answers: the recency fallback when nothing has
/// been typed yet, else the ranked candidates.
pub open spec fn spec_wiki_completions(
    vault: Vault,
    c: WikiCompleterView,
    opened: Seq<OpenedView>,
    fmt: Seq<char>,
    today: int,
) -> Seq<ItemView> {
    if c.cmp_text.len() == 0 {
        spec_recent_items(vault, c, sort_recent(opened), 0, fmt, today)
    } else {
        map_wiki_items(
            vault,
            c,
            spec_ranked(
                c.cmp_text,
                spec_link_completions(
                    vault,
                    c.file_path,
                    Position { line: c.line, character: c.character },
                    fmt,
                    today,
                ),
            ),
            0,
        )
    }
}

fn map_wiki_items_exec(
    vault: &Vault,
    completer: &WikiLinkCompleter,
    ranked: &Vec<LinkCompletion>,
    i: usize,
) -> (r: Vec<CompletionItem>)
    requires
        vault.wf(),
        completer.wf(),
        i <= ranked@.len(),
    ensures
        r.deep_view() == map_wiki_items(
            *vault,
            completer.deep_view(),
            ranked.deep_view(),
            i as int,
        ),
    decreases ranked@.len() - i,
{
    if i == ranked.len() {
        Vec::new()
    } else {
        let mut rest = map_wiki_items_exec(vault, completer, ranked, i + 1);
        rest.insert(0, wiki_completion_item(vault, completer, &ranked[i], None));
        proof {
            assert(rest.deep_view() =~= map_wiki_items(
                *vault,
                completer.deep_view(),
                ranked.deep_view(),
                i as int,
            ));
        }
        rest
    }
}

impl WikiLinkCompleter {
    /// Serves a wiki completion request: the recency fallback over the open
    /// documents when the typed fragment is empty, else candidates ranked
    /// against it.
    pub fn completions(
        &self,
        vault: &Vault,
        opened: Vec<OpenedFile>,
        fmt: &String,
        today: i64,
    ) -> (r: Vec<CompletionItem>)
        requires
            vault.wf(),
            self.wf(),
            -100_000_000 < today < 100_000_000,
        ensures
            r.deep_view() == spec_wiki_completions(
                *vault,
                self.deep_view(),
                opened.deep_view(),
                fmt@,
                today as int,
            ),
    {
        if self.cmp_text.as_str().is_empty() {
            let sorted = sort_recent_exec(opened);
            recent_items_exec(vault, self, &sorted, 0, fmt, today)
        } else {
            let cands = link_completions(
                vault,
                &self.file_path,
                self.position(),
                fmt,
                today,
            );
            let ranked = fuzzy_match_completions(&self.cmp_text, cands);
            map_wiki_items_exec(vault, self, &ranked, 0)
        }
    }
}

impl LinkCompleter {
    /// Enumerates and converts the vault's targets for this request.
    pub fn link_completions(&self, vault: &Vault, fmt: &String, today: i64) -> (r: Vec<
        LinkCompletion,
    >)
        requires
            vault.wf(),
            -100_000_000 < today < 100_000_000,
        ensures
            r.deep_view() == spec_link_completions(
                *vault,
                self.spec_file_path(),
                self.spec_position(),
                fmt@,
                today as int,
            ),
    {
        link_completions(vault, self.file_path(), self.position(), fmt, today)
    }

    /// Serves the completion request for whichever syntax the completer was
    /// built from.
    pub fn completions(&self, vault: &Vault, opened: Vec<OpenedFile>, fmt: &String, today: i64) -> (r:
        Vec<CompletionItem>)
        requires
            vault.wf(),
            self.wf(),
            -100_000_000 < today < 100_000_000,
        ensures
            r.deep_view() == match self {
                LinkCompleter::Markdown(c) => spec_md_completions(
                    *vault,
                    c.deep_view(),
                    fmt@,
                    today as int,
                ),
                LinkCompleter::Wiki(c) => spec_wiki_completions(
                    *vault,
                    c.deep_view(),
                    opened.deep_view(),
                    fmt@,
                    today as int,
                ),
            },
    {
        match self {
            LinkCompleter::Markdown(c) => c.completions(vault, fmt, today),
            LinkCompleter::Wiki(c) => c.completions(vault, opened, fmt, today),
        }
    }
}

/// What one completion request answers: the markdown recognizer's items when
/// it matches at the cursor, else the wiki recognizer's, else nothing.
pub open spec fn spec_completions(
    vault: Vault,
    opened: Seq<OpenedView>,
    path: Seq<char>,
    line: u32,
    character: u32,
    fmt: Seq<char>,
    today: int,
) -> Seq<ItemView> {
    match vault.spec_select_line(path, line as int) {
        None => Seq::<ItemView>::empty(),
        Some(l) => match crate::parser::spec_md_construct(l, line, character as int, path) {
            Some(c) => spec_md_completions(vault, c, fmt, today),
            None => match crate::parser::spec_wiki_construct(l, line, character as int, path) {
                Some(c) => spec_wiki_completions(vault, c, opened, fmt, today),
                None => Seq::<ItemView>::empty(),
            },
        },
    }
}

/// Serves one completion request at a cursor position of a document.
pub fn completions(
    vault: &Vault,
    opened: Vec<OpenedFile>,
    path: &String,
    line: u32,
    character: u32,
    fmt: &String,
    today: i64,
) -> (r: Vec<CompletionItem>)
    requires
        vault.wf(),
        -100_000_000 < today < 100_000_000,
    ensures
        r.deep_view() == spec_completions(
            *vault,
            opened.deep_view(),
            path@,
            line,
            character,
            fmt@,
            today as int,
        ),
{
    match MarkdownLinkCompleter::construct(vault, path, line, character) {
        Some(c) => LinkCompleter::Markdown(c).completions(vault, opened, fmt, today),
        None => match WikiLinkCompleter::construct(vault, path, line, character) {
            Some(c) => LinkCompleter::Wiki(c).completions(vault, opened, fmt, today),
            None => Vec::new(),
        },
    }
}

/// Serves one completion request against the machine's clock.
pub fn completions_now(
    vault: &Vault,
    opened: Vec<OpenedFile>,
    path: &String,
    line: u32,
    character: u32,
    fmt: &String,
) -> (r: Vec<CompletionItem>)
    requires
        vault.wf(),
    ensures
        exists|today: int|
            -100_000_000 < today < 100_000_000 && r.deep_view() == spec_completions(
                *vault,
                opened.deep_view(),
                path@,
                line,
                character,
                fmt@,
                today,
            ),
{
    let today = crate::daily::today_days();
    let ghost opened_view = opened.deep_view();
    let r = completions(vault, opened, path, line, character, fmt, today);
    proof {
        let t: int = today as int;
        assert(-100_000_000 < t && t < 100_000_000 && r.deep_view() == spec_completions(
            *vault,
            opened_view,
            path@,
            line,
            character,
            fmt@,
            t,
        ));
    }
    r
}

/// A cursor position where neither recognizer matches answers no
/// completions.
pub proof fn lemma_no_recognizer_no_completions(
    vault: Vault,
    opened: Seq<OpenedView>,
    path: Seq<char>,
    line: u32,
    character: u32,
    fmt: Seq<char>,
    today: int,
)
    requires
        match vault.spec_select_line(path, line as int) {
            Some(l) => crate::parser::spec_md_construct(l, line, character as int, path) is None
                && crate::parser::spec_wiki_construct(l, line, character as int, path) is None,
            None => true,
        },
    ensures
        spec_completions(vault, opened, path, line, character, fmt, today) == Seq::<
            ItemView,
        >::empty(),
{
}

/// Candidate generation against an unmutated snapshot is a function of the
/// request alone: two results meeting the contract carry identical candidates
/// with identical match strings, in one order.
pub proof fn lemma_link_completions_deterministic(
    vault: Vault,
    path: Seq<char>,
    pos: Position,
    fmt: Seq<char>,
    today: int,
    a: Seq<LcView>,
    b: Seq<LcView>,
)
    requires
        a == spec_link_completions(vault, path, pos, fmt, today),
        b == spec_link_completions(vault, path, pos, fmt, today),
    ensures
        a == b,
        a.len() == b.len(),
        forall|i: int| 0 <= i < a.len() ==> a[i].match_string() == b[i].match_string(),
{
}

/// The whole answer, post-ranking order included, is a function of the
/// snapshot and the request alone: two runs agree item for item.
pub proof fn lemma_completions_deterministic(
    vault: Vault,
    opened: Seq<OpenedView>,
    path: Seq<char>,
    line: u32,
    character: u32,
    fmt: Seq<char>,
    today: int,
    a: Seq<ItemView>,
    b: Seq<ItemView>,
)
    requires
        a == spec_completions(vault, opened, path, line, character, fmt, today),
        b == spec_completions(vault, opened, path, line, character, fmt, today),
    ensures
        a == b,
{
}

} // verus!
