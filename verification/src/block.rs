//! The record of one code block.

use vstd::prelude::*;

verus! {

/// One code block of a document: the file name and the language that its info
/// string declares, and the text between its fences.
#[derive(Debug, Clone, PartialEq, Eq)]
pub struct CodeBlock {
    pub filename: Option<String>,
    pub language: Option<String>,
    pub content: String,
}

/// A code block as contracts see it.
pub struct CodeBlockView {
    pub filename: Option<Seq<char>>,
    pub language: Option<Seq<char>>,
    pub content: Seq<char>,
}

impl View for CodeBlock {
    type V = CodeBlockView;

    open spec fn view(&self) -> CodeBlockView {
        CodeBlockView {
            filename: self.filename.deep_view(),
            language: self.language.deep_view(),
            content: self.content@,
        }
    }
}

impl DeepView for CodeBlock {
    type V = CodeBlockView;

    open spec fn deep_view(&self) -> CodeBlockView {
        self@
    }
}

} // verus!
