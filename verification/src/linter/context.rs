//! What a rule is given, and where it reports.
use super::ast::AstNode;
use crate::span::Span;
use vstd::prelude::*;

verus! {

#[derive(Clone, Copy, Debug, PartialEq, Eq, Structural)]
pub enum LanguageVariant {
    Standard,
    Jsx,
}

/// The kind of a source file.
#[derive(Clone, Copy, Debug, PartialEq, Eq, Structural)]
pub struct SourceType {
    pub variant: LanguageVariant,
}

impl SourceType {
    /// Tells whether the file may hold JSX.
    pub fn is_jsx(self) -> (jsx: bool)
        ensures
            jsx == (self.variant == LanguageVariant::Jsx),
    {
        match self.variant {
            LanguageVariant::Standard => false,
            LanguageVariant::Jsx => true,
        }
    }
}

/// The file that is about to be linted.
#[derive(Clone, Copy, Debug, PartialEq, Eq, Structural)]
pub struct ContextHost {
    pub source_type: SourceType,
}

#[derive(Clone, Copy, Debug, PartialEq, Eq, Structural)]
pub enum Severity {
    Warning,
    Error,
}

/// A finding: what is wrong, how to mend it, and where it is.
#[derive(Clone, Copy, Debug)]
pub struct OxcDiagnostic {
    pub severity: Severity,
    pub message: &'static str,
    pub help: &'static str,
    pub label: Span,
}

/// The syntax tree of a file, and what has been reported of it.
#[derive(Debug)]
pub struct LintContext {
    pub nodes: Vec<AstNode>,
    pub diagnostics: Vec<OxcDiagnostic>,
}

impl LintContext {
    /// The nodes are those of a tree.
    pub open spec fn well_formed(self) -> bool {
        super::ast::is_tree(self.nodes@)
    }

    /// A context with nothing reported.
    pub fn new(nodes: Vec<AstNode>) -> (ctx: LintContext)
        ensures
            ctx.nodes == nodes,
            ctx.diagnostics@ == Seq::<OxcDiagnostic>::empty(),
            ctx.well_formed() == super::ast::is_tree(nodes@),
    {
        LintContext { nodes, diagnostics: Vec::new() }
    }

    /// Reports a finding.
    pub fn diagnostic(&mut self, diagnostic: OxcDiagnostic)
        ensures
            final(self).nodes == old(self).nodes,
            final(self).diagnostics@ == old(self).diagnostics@.push(diagnostic),
    {
        self.diagnostics.push(diagnostic);
    }
}

} // verus!
