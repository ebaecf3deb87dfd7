//! The hover resolver: cursor to reference, reference to target, target to a
//! rendered preview — the anchor line and the ten lines after it, under a
//! heading chosen by the target's kind.

use vstd::prelude::*;
use vstd::string::StringExecFns;

use crate::Position;
use crate::vault::RefbView;
use crate::vault::Referenceable;
use crate::vault::Vault;

verus! {

/// The line a target is anchored at: a file at its top, a heading or block
/// at its own line, an unresolved name at a line that no document holds.
pub open spec fn anchor_line(v: RefbView) -> u32 {
    match v {
        RefbView::Heading { line, .. } => line,
        RefbView::IndexedBlock { line, .. } => line,
        _ => 0,
    }
}

/// The document path a target lives in; for an unresolved target, its bare
/// name, which no document of the vault carries.
pub open spec fn target_path(v: RefbView) -> Seq<char> {
    match v {
        RefbView::File { path } => path,
        RefbView::Heading { path, .. } => path,
        RefbView::IndexedBlock { path, .. } => path,
        RefbView::UnresolvedFile { name } => name,
        RefbView::UnresolvedHeading { name, .. } => name,
        RefbView::UnresolvedIndexedBlock { name, .. } => name,
    }
}

/// The lines `from..upto` of a document, concatenated; a line the document
/// does not hold contributes nothing.
pub open spec fn preview_lines(vault: Vault, path: Seq<char>, from: int, upto: int) -> Seq<char>
    decreases upto - from when from <= upto
{
    if from >= upto {
        Seq::<char>::empty()
    } else {
        (match vault.spec_select_line(path, from) {
            Some(l) => l,
            None => Seq::<char>::empty(),
        }) + preview_lines(vault, path, from + 1, upto)
    }
}

pub open spec fn file_heading() -> Seq<char> {
    seq![
        'F', 'i', 'l', 'e', ' ', 'P', 'r', 'e', 'v', 'i', 'e', 'w', ':', '\n', '-', '-', '-',
        '\n', '\n',
    ]
}

pub open spec fn heading_heading() -> Seq<char> {
    seq![
        'H', 'e', 'a', 'd', 'i', 'n', 'g', ' ', 'P', 'r', 'e', 'v', 'i', 'e', 'w', ':', '\n',
        '-', '-', '-', '\n', '\n',
    ]
}

pub open spec fn block_heading() -> Seq<char> {
    seq![
        'B', 'l', 'o', 'c', 'k', ' ', 'P', 'r', 'e', 'v', 'i', 'e', 'w', ':', '\n', '-', '-',
        '-', '\n', '\n',
    ]
}

pub open spec fn generic_heading() -> Seq<char> {
    seq!['P', 'r', 'e', 'v', 'i', 'e', 'w', ':', '\n', '-', '-', '-', '\n', '\n']
}

/// The markup heading for a target's preview, by kind.
pub open spec fn preview_heading(v: RefbView) -> Seq<char> {
    match v {
        RefbView::File { .. } => file_heading(),
        RefbView::Heading { .. } => heading_heading(),
        RefbView::IndexedBlock { .. } => block_heading(),
        _ => generic_heading(),
    }
}

/// The rendered preview of a target: its heading, then the anchor line and
/// the ten lines after it.
pub open spec fn spec_preview(vault: Vault, v: RefbView) -> Seq<char> {
    preview_heading(v) + preview_lines(
        vault,
        target_path(v),
        anchor_line(v) as int,
        anchor_line(v) + 11,
    )
}

fn preview_window(vault: &Vault, path: &String, anchor: u32, k: u64) -> (r: String)
    requires
        vault.wf(),
        k <= 11,
    ensures
        r@ == preview_lines(*vault, path@, anchor as int + k as int, anchor as int + 11),
    decreases 11 - k,
{
    if k == 11 {
        String::new()
    } else {
        let line: u64 = anchor as u64 + k;
        let mut s = if line <= usize::MAX as u64 {
            match vault.select_line(path, line as usize) {
                Some(l) => l,
                None => String::new(),
            }
        } else {
            proof {
                vault.lemma_select_line_none_beyond(path@, line as int);
            }
            String::new()
        };
        let rest = preview_window(vault, path, anchor, k + 1);
        s.append(rest.as_str());
        proof {
            assert(s@ =~= preview_lines(*vault, path@, anchor as int + k as int, anchor as int + 11));
        }
        s
    }
}

/// Renders the preview markup for a target: the external collaborator that
/// completion documentation and hover share.
pub fn preview_referenceable(vault: &Vault, referenceable: &Referenceable) -> (r: String)
    requires
        vault.wf(),
    ensures
        r@ == spec_preview(*vault, referenceable.deep_view()),
{
    proof {
        reveal_strlit("File Preview:\n---\n\n");
        reveal_strlit("Heading Preview:\n---\n\n");
        reveal_strlit("Block Preview:\n---\n\n");
        reveal_strlit("Preview:\n---\n\n");
        assert("File Preview:\n---\n\n"@ =~= file_heading());
        assert("Heading Preview:\n---\n\n"@ =~= heading_heading());
        assert("Block Preview:\n---\n\n"@ =~= block_heading());
        assert("Preview:\n---\n\n"@ =~= generic_heading());
    }
    let (mut s, path, anchor): (String, &String, u32) = match referenceable {
        Referenceable::File { path } => ("File Preview:\n---\n\n".to_owned(), path, 0),
        Referenceable::Heading { path, line, .. } => (
            "Heading Preview:\n---\n\n".to_owned(),
            path,
            *line,
        ),
        Referenceable::IndexedBlock { path, line, .. } => (
            "Block Preview:\n---\n\n".to_owned(),
            path,
            *line,
        ),
        Referenceable::UnresolvedFile { name } => ("Preview:\n---\n\n".to_owned(), name, 0),
        Referenceable::UnresolvedHeading { name, .. } => (
            "Preview:\n---\n\n".to_owned(),
            name,
            0,
        ),
        Referenceable::UnresolvedIndexedBlock { name, .. } => (
            "Preview:\n---\n\n".to_owned(),
            name,
            0,
        ),
    };
    let body = preview_window(vault, path, anchor, 0);
    s.append(body.as_str());
    proof {
        assert(s@ =~= spec_preview(*vault, referenceable.deep_view()));
    }
    s
}

/// What a hover request answers: the first link occurrence holding the
/// cursor, resolved to its first matching target, rendered as a preview;
/// nothing when no occurrence holds the cursor or nothing matches.
pub open spec fn spec_hover(vault: Vault, path: Seq<char>, pos: Position) -> Option<Seq<char>> {
    match vault.spec_reference_at(path, pos) {
        None => None,
        Some(rv) => {
            let matches = vault.spec_resolution(rv.refname);
            if matches.len() == 0 {
                None
            } else {
                Some(spec_preview(vault, matches[0]))
            }
        },
    }
}

/// Serves a hover request: the rendered preview of the target under the
/// cursor, or nothing.
pub fn hover(vault: &Vault, path: &String, position: Position) -> (r: Option<String>)
    requires
        vault.wf(),
    ensures
        match r {
            Some(s) => spec_hover(*vault, path@, position) == Some(s@),
            None => spec_hover(*vault, path@, position) is None,
        },
{
    let reference = match vault.select_reference_at_position(path, position) {
        Some(rf) => rf,
        None => {
            return None;
        },
    };
    let matches = vault.select_referenceables_for_reference(&reference);
    if matches.len() == 0 {
        None
    } else {
        Some(preview_referenceable(vault, &matches[0]))
    }
}

} // verus!
