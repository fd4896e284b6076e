//! The response for one file: the parser's diagnostics, the index of the
//! file and whether parsing went without a diagnostic.
use crate::assemble::{assemble_file, file_info_is};
use crate::laws::{items_spans_within, lemma_file_spans_within_text, refs_spans_within};
use crate::model::{ParseError, ParseResponse};
use crate::parse::{diagnostics_are, parse_source};
use crate::syntax::{decls_wf, Decl};
use vstd::prelude::*;
use vstd::string::StringSliceAdditionalSpecFns;

verus! {

/// The response for a text whose declarations are `ds` and on which the
/// parser reported `diagnostics`. The duration is left at 0 for the caller,
/// who measures it, to fill in.
pub fn build_response(text: &[u8], ds: &Vec<Decl>, diagnostics: Vec<ParseError>, include_private: bool) -> (r: ParseResponse)
    requires
        decls_wf(ds@, text@.len()),
    ensures
        r.success == (diagnostics@.len() == 0),
        r.diagnostics@ == diagnostics@,
        r.parse_time == 0,
        file_info_is(r.file_info, text@, ds@, include_private),
{
    let file_info = assemble_file(text, ds, include_private);
    ParseResponse { success: diagnostics.len() == 0, parse_time: 0, diagnostics, file_info }
}

/// Parses `code` and indexes it: every declaration at the top level and in
/// inline modules, private ones only where `include_private` is set. The
/// index is built from whatever tree the parser gives, also where it
/// reports diagnostics. The parser counts offsets in `u32`, so the text may
/// be at most `u32::MAX` bytes long.
pub fn parse_rust_code(code: &str, include_private: bool) -> (r: ParseResponse)
    requires
        code.spec_bytes().len() <= u32::MAX,
    ensures
        r.success == (r.diagnostics@.len() == 0),
        r.parse_time == 0,
        diagnostics_are(r.diagnostics@, code@, code.spec_bytes().len()),
        exists|ds: Seq<Decl>| decls_wf(ds, code.spec_bytes().len()) && file_info_is(r.file_info, code.spec_bytes(), ds, include_private),
        items_spans_within(r.file_info.items@, code.spec_bytes().len()),
        refs_spans_within(r.file_info.module_references@, code.spec_bytes().len()),
{
    let (decls, diagnostics) = parse_source(code);
    let r = build_response(code.as_bytes(), &decls, diagnostics, include_private);
    assert(decls_wf(decls@, code.spec_bytes().len()) && file_info_is(r.file_info, code.spec_bytes(), decls@, include_private));
    proof {
        lemma_file_spans_within_text(r.file_info, code.spec_bytes(), decls@, include_private);
    }
    r
}

} // verus!
