//! Completion and hover backend for a vault of cross-linked markdown
//! documents.
//!
//! The library recognizes an unfinished link of either syntax (markdown
//! `[display](path#ref)` or wiki `[[path#ref|display]]`) under the cursor,
//! enumerates every possible link target in the vault, ranks the targets
//! against the typed text, and synthesizes the exact replacement edit for
//! each; it also resolves the link under the cursor to its target and
//! renders a short preview for hover requests.

use vstd::prelude::*;

pub mod completion;
pub mod daily;
pub mod hover;
pub mod parser;
pub mod text;
pub mod vault;

verus! {

/// A zero-based position in a document, counted in characters.
#[derive(Clone, Copy, PartialEq, Eq, Structural, Debug)]
pub struct Position {
    pub line: u32,
    pub character: u32,
}

/// A half-open character range on a single line.
#[derive(Clone, Copy, PartialEq, Eq, Structural, Debug)]
pub struct LineRange {
    pub start: usize,
    pub end: usize,
}

/// A half-open range between two positions.
#[derive(Clone, Copy, PartialEq, Eq, Structural, Debug)]
pub struct DocRange {
    pub start: Position,
    pub end: Position,
}

impl DocRange {
    /// Whether a cursor position falls in the range, both bounds inclusive.
    pub open spec fn spec_contains(self, pos: Position) -> bool {
        &&& self.start.line <= pos.line
        &&& pos.line <= self.end.line
        &&& self.start.character <= pos.character
        &&& pos.character <= self.end.character
    }

    pub fn contains(self, pos: Position) -> (r: bool)
        ensures
            r == self.spec_contains(pos),
    {
        self.start.line <= pos.line && pos.line <= self.end.line
            && self.start.character <= pos.character && pos.character <= self.end.character
    }
}

/// The presentation tag of a completion candidate.
#[derive(Clone, Copy, PartialEq, Eq, Structural, Debug)]
pub enum CompletionKind {
    File,
    Reference,
    Keyword,
    Event,
}

/// Whether the new text is inserted verbatim or as a snippet with tab stops.
#[derive(Clone, Copy, PartialEq, Eq, Structural, Debug)]
pub enum InsertFormat {
    PlainText,
    Snippet,
}

/// A protocol text edit: the new text and the span it replaces.
pub struct TextEdit {
    pub range: DocRange,
    pub new_text: String,
}

/// The mathematical value of a `TextEdit`.
pub struct TextEditView {
    pub range: DocRange,
    pub new_text: Seq<char>,
}

impl DeepView for TextEdit {
    type V = TextEditView;

    open spec fn deep_view(&self) -> TextEditView {
        TextEditView { range: self.range, new_text: self.new_text@ }
    }
}

/// One completion item as answered to the editor.
pub struct CompletionItem {
    pub label: String,
    pub kind: CompletionKind,
    pub label_detail: Option<String>,
    pub text_edit: TextEdit,
    pub filter_text: String,
    pub documentation: Option<String>,
    pub insert_format: InsertFormat,
    pub sort_text: Option<String>,
}

/// The mathematical value of a `CompletionItem`.
pub struct ItemView {
    pub label: Seq<char>,
    pub kind: CompletionKind,
    pub label_detail: Option<Seq<char>>,
    pub text_edit: TextEditView,
    pub filter_text: Seq<char>,
    pub documentation: Option<Seq<char>>,
    pub insert_format: InsertFormat,
    pub sort_text: Option<Seq<char>>,
}

impl DeepView for CompletionItem {
    type V = ItemView;

    open spec fn deep_view(&self) -> ItemView {
        ItemView {
            label: self.label@,
            kind: self.kind,
            label_detail: match &self.label_detail {
                Some(s) => Some(s@),
                None => None,
            },
            text_edit: self.text_edit.deep_view(),
            filter_text: self.filter_text@,
            documentation: match &self.documentation {
                Some(s) => Some(s@),
                None => None,
            },
            insert_format: self.insert_format,
            sort_text: match &self.sort_text {
                Some(s) => Some(s@),
                None => None,
            },
        }
    }
}

} // verus!
