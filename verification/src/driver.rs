//! The decisions of the pipeline run: the pre-flight credential check, the
//! reading of one HTTP outcome into a payload or a fatal error, and the
//! rendering of one payload into its output lines. The surrounding loop —
//! reading the input file, sending the requests, printing and writing —
//! hands values in and takes values back.

use vstd::prelude::*;

use crate::flatten::{flatten, flatten_post, row_of};
use crate::json::parse_json;
use crate::model::{LookupResult, Meta, PipelineError};
use crate::output::{render_row, row_text};
use crate::schema::{decode_response, decode_response_spec};

verus! {

/// The pre-flight check: the run goes on exactly when a credential was
/// supplied, and otherwise stops before any input or output is touched.
pub fn get_api_key(value: Option<String>) -> (r: Result<String, PipelineError>)
    ensures
        match r {
            Result::Ok(k) => value matches Option::Some(v) && k == v,
            Result::Err(e) => value is None && e == PipelineError::CredentialMissing,
        },
{
    match value {
        Option::Some(v) => Result::Ok(v),
        Option::None => Result::Err(PipelineError::CredentialMissing),
    }
}

/// What one HTTP outcome means for the run: a failed transport is the
/// transport error with its text; a body that is no JSON document, or one
/// that does not denote a payload with its metadata, is the schema error;
/// a body that denotes one is that payload. Every error aborts the run.
pub fn process_response(body: Result<String, String>) -> (r: Result<
    (LookupResult, Meta),
    PipelineError,
>)
    ensures
        match body {
            Result::Err(t) => r == Result::<(LookupResult, Meta), PipelineError>::Err(
                PipelineError::Transport(t),
            ),
            Result::Ok(text) => match parse_json(text@) {
                Option::None => r == Result::<(LookupResult, Meta), PipelineError>::Err(
                    PipelineError::Schema,
                ),
                Option::Some(jv) => match decode_response_spec(jv) {
                    Option::None => r == Result::<(LookupResult, Meta), PipelineError>::Err(
                        PipelineError::Schema,
                    ),
                    Option::Some(p) => r matches Result::Ok(q) && q.0@ == p.0 && q.1@ == p.1,
                },
            },
        },
{
    match body {
        Result::Err(t) => Result::Err(PipelineError::Transport(t)),
        Result::Ok(text) => {
            let chars = crate::text::to_chars(text.as_str());
            match crate::json::parse_document(&chars) {
                Option::None => Result::Err(PipelineError::Schema),
                Option::Some(j) => decode_response(&j),
            }
        },
    }
}

/// Optional-field fidelity, shown for the domain pattern: a payload
/// object with no `pattern` member (or a null one) decodes to an absent
/// value, every row flattened from it carries that absent value, and the
/// absent value renders as an empty cell.
pub proof fn lemma_optional_field_fidelity(
    m: Seq<(Seq<char>, crate::json::JsonV)>,
    r: LookupResult,
    rows: Seq<crate::model::FlatRow>,
    i: int,
)
    requires
        crate::schema::opt_text(m, "pattern"@) == Option::Some(Option::<Seq<char>>::None),
        crate::schema::decode_data_spec(crate::json::JsonV::Obj(m)) == Option::Some(r@),
        flatten_post(r, rows),
        0 <= i < rows.len(),
    ensures
        rows[i].pattern is None,
        crate::output::rendered_opt(crate::model::opt_chars(rows[i].pattern))
            == Seq::<char>::empty(),
{
    assert(crate::model::opt_chars(r.pattern) is None);
    assert(rows[i] == row_of(r, r.emails@[i]));
}

/// Renders one payload into its output lines: one line per email entry,
/// in entry order, each the rendering of that entry's flat row.
pub fn render_rows(result: &LookupResult) -> (lines: Vec<String>)
    ensures
        lines@.len() == result.emails@.len(),
        forall|i: int|
            0 <= i < lines@.len() ==> (#[trigger] lines@[i])@ == row_text(
                row_of(*result, result.emails@[i]),
            ),
{
    let rows = flatten(result);
    let mut lines: Vec<String> = Vec::new();
    let mut i: usize = 0;
    while i < rows.len()
        invariant
            flatten_post(*result, rows@),
            i <= rows@.len(),
            lines@.len() == i,
            forall|t: int|
                0 <= t < i ==> (#[trigger] lines@[t])@ == row_text(
                    row_of(*result, result.emails@[t]),
                ),
        decreases rows@.len() - i,
    {
        let line = render_row(&rows[i]);
        lines.push(line);
        i = i + 1;
    }
    lines
}

} // verus!
