//! Parser for a declarative sampled-instrument definition format.
//!
//! The input text is organised as an ordered sequence of headers
//! (`<control>`, `<global>`, `<master>`, `<group>`, `<region>`, `<curve>`,
//! `<effect>`), each carrying `key=value` opcodes.  The pipeline runs in
//! strictly ordered phases: a preprocessor expands `#include` directives and
//! `$NAME` macro references, a tokenizer splits the flattened text into
//! header blocks, a control-header interpreter and an opcode classifier give
//! the raw pairs their types and ranges, and an assembler builds the final
//! scope tree with inheritance from enclosing scopes.

use vstd::prelude::*;

pub mod lexer;
pub mod numbers;
pub mod table;
pub mod preprocess;
pub mod tokenizer;
pub mod opcode_types;
pub mod taxonomy;
pub mod refinements;
pub mod control;
pub mod region;
pub mod assemble;

verus! {

/// Every failure the pipeline can report.  Positions are byte offsets into
/// the text the failing phase was reading (the flattened text for phases
/// after preprocessing).
#[derive(Debug, Clone, PartialEq)]
pub enum SfzError {
    /// A `$NAME` reference with no binding in the macro table.
    MacroUnbound { name: Vec<char>, pos: usize },
    /// A document transitively includes itself; carries the repeated path.
    IncludeCycle { path: Vec<char> },
    /// The content provider has no text for the resolved path.
    IncludeNotFound { path: Vec<char> },
    /// A `#define` or `#include` line that does not match the grammar.
    MalformedDirective { pos: usize },
    /// Structural text that is neither a header tag nor an opcode line.
    UnexpectedToken { pos: usize },
    /// A `<name>` tag whose name is outside the closed header-tag set.
    UnrecognizedHeaderTag { name: Vec<char>, pos: usize },
    /// A key inside a `<control>` block outside the control-only key set.
    UnrecognizedControlKey { key: Vec<char> },
    /// A recognized opcode key whose value has the wrong kind or lies
    /// outside the declared inclusive range.
    OpcodeRangeViolation { key: Vec<char>, value: Vec<char>, lo: i64, hi: i64 },
    /// The header sequence violates the assembler's ordering rules.
    InvalidNesting { pos: usize },
}

/// The instrument tree a successfully parsed document must denote: the
/// assembled tree for the tokenized blocks, with the preprocessor's macro
/// table and inclusion list merged into the control record.
pub open spec fn doc_complete(
    doc: assemble::InstrumentDocument,
    blocks: Seq<tokenizer::GBlock>,
    table: Map<Seq<char>, Seq<char>>,
    inclusions: Seq<Seq<char>>,
) -> bool {
    &&& assemble::doc_matches(doc, blocks)
    &&& doc.wf()
    &&& match doc.control {
        Some(c) => c.define_directives@ == table && preprocess::views_of(c.include_directives@)
            == inclusions,
        None => true,
    }
}

/// Parses one instrument document: preprocesses `text` against `provider`,
/// tokenizes the flattened stream, and assembles the typed, range-checked
/// instrument tree.  The first failure of any stage aborts the parse.
pub fn parse_sfz(text: &Vec<char>, provider: &preprocess::ContentProvider) -> (r: Result<
    assemble::InstrumentDocument,
    SfzError,
>)
    ensures
        ({
            match preprocess::preprocess_spec(text@, provider@) {
                preprocess::PpOut::Done { text: flat, table, inclusions } => {
                    match tokenizer::tokenize_spec(flat) {
                        tokenizer::TokOut::Done { blocks } => {
                            &&& (r is Ok <==> assemble::assemble_ok(blocks))
                            &&& match r {
                                Ok(doc) => doc_complete(doc, blocks, table, inclusions),
                                Err(e) => e matches SfzError::InvalidNesting { .. } || e matches
                                    SfzError::UnrecognizedControlKey { .. } || e matches
                                    SfzError::OpcodeRangeViolation { .. },
                            }
                        },
                        tokenizer::TokOut::BadTag { name } => r matches Err(
                            SfzError::UnrecognizedHeaderTag { name: n, pos },
                        ) && n@ == name,
                        tokenizer::TokOut::BadToken { pos } => r matches Err(
                            SfzError::UnexpectedToken { .. },
                        ),
                    }
                },
                preprocess::PpOut::Cycle { path } => r matches Err(
                    SfzError::IncludeCycle { path: p },
                ) && p@ == path,
                preprocess::PpOut::NotFound { path } => r matches Err(
                    SfzError::IncludeNotFound { path: p },
                ) && p@ == path,
                preprocess::PpOut::Unbound { name } => r matches Err(
                    SfzError::MacroUnbound { name: n, pos },
                ) && n@ == name,
                preprocess::PpOut::Malformed => r matches Err(
                    SfzError::MalformedDirective { .. },
                ),
            }
        }),
{
    let pre = match preprocess::preprocess(text, provider) {
        Ok(p) => p,
        Err(e) => {
            return Err(e);
        },
    };
    let blocks = match tokenizer::tokenize(&pre.text) {
        Ok(b) => b,
        Err(e) => {
            return Err(e);
        },
    };
    let mut doc = match assemble::assemble(&blocks) {
        Ok(d) => d,
        Err(e) => {
            return Err(e);
        },
    };
    match &mut doc.control {
        Some(c) => {
            let ghost inc0 = preprocess::views_of(c.include_directives@);
            c.define_directives = pre.table;
            control::add_include_directives(c, pre.inclusions);
            proof {
                assert(inc0 + preprocess::views_of(pre.inclusions@) =~= preprocess::views_of(
                    pre.inclusions@,
                ));
            }
        },
        None => {},
    }
    Ok(doc)
}

/// The accumulate-and-continue parse for tooling: like [`parse_sfz`], but
/// opcode range violations inside scope blocks are collected and the
/// offending opcodes skipped, so a best-effort document comes back beside
/// the error list.  Preprocessing, tokenization, control, nesting, curve
/// and effect failures stay fatal.
pub fn parse_sfz_lenient(text: &Vec<char>, provider: &preprocess::ContentProvider) -> (r: Result<
    (assemble::InstrumentDocument, Vec<SfzError>),
    SfzError,
>)
    ensures
        ({
            match preprocess::preprocess_spec(text@, provider@) {
                preprocess::PpOut::Done { text: flat, table, inclusions } => {
                    match tokenizer::tokenize_spec(flat) {
                        tokenizer::TokOut::Done { blocks } => {
                            &&& (r is Ok <==> assemble::assemble_lenient_ok(blocks))
                            &&& match r {
                                Ok((doc, errs)) => doc_complete(doc, blocks, table, inclusions)
                                    && region::errs_match(errs@, assemble::scope_bads(blocks)),
                                Err(e) => e matches SfzError::InvalidNesting { .. } || e matches
                                    SfzError::UnrecognizedControlKey { .. } || e matches
                                    SfzError::OpcodeRangeViolation { .. },
                            }
                        },
                        tokenizer::TokOut::BadTag { name } => r matches Err(
                            SfzError::UnrecognizedHeaderTag { name: n, pos },
                        ) && n@ == name,
                        tokenizer::TokOut::BadToken { pos } => r matches Err(
                            SfzError::UnexpectedToken { .. },
                        ),
                    }
                },
                preprocess::PpOut::Cycle { path } => r matches Err(
                    SfzError::IncludeCycle { path: p },
                ) && p@ == path,
                preprocess::PpOut::NotFound { path } => r matches Err(
                    SfzError::IncludeNotFound { path: p },
                ) && p@ == path,
                preprocess::PpOut::Unbound { name } => r matches Err(
                    SfzError::MacroUnbound { name: n, pos },
                ) && n@ == name,
                preprocess::PpOut::Malformed => r matches Err(
                    SfzError::MalformedDirective { .. },
                ),
            }
        }),
{
    let pre = match preprocess::preprocess(text, provider) {
        Ok(p) => p,
        Err(e) => {
            return Err(e);
        },
    };
    let blocks = match tokenizer::tokenize(&pre.text) {
        Ok(b) => b,
        Err(e) => {
            return Err(e);
        },
    };
    let (mut doc, errs) = match assemble::assemble_lenient(&blocks) {
        Ok(d) => d,
        Err(e) => {
            return Err(e);
        },
    };
    match &mut doc.control {
        Some(c) => {
            let ghost inc0 = preprocess::views_of(c.include_directives@);
            c.define_directives = pre.table;
            control::add_include_directives(c, pre.inclusions);
            proof {
                assert(inc0 + preprocess::views_of(pre.inclusions@) =~= preprocess::views_of(
                    pre.inclusions@,
                ));
            }
        },
        None => {},
    }
    Ok((doc, errs))
}

} // verus!
