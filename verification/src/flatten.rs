//! The flattening transform: one `LookupResult` becomes one `FlatRow` per
//! email entry, with the eight domain-level fields broadcast onto every row
//! and the provenance (`Source`) records dropped.

use vstd::prelude::*;

use crate::model::{clone_opt, EmailEntry, FlatRow, LookupResult};

verus! {

/// The output row built from the domain-level fields of `r` and the fields
/// of the one entry `e`. No field of any `Source` record enters here.
pub open spec fn row_of(r: LookupResult, e: EmailEntry) -> FlatRow {
    FlatRow {
        domain: r.domain,
        disposable: r.disposable,
        webmail: r.webmail,
        accept_all: r.accept_all,
        pattern: r.pattern,
        organization: r.organization,
        country: r.country,
        state: r.state,
        value: e.value,
        kind: e.kind,
        confidence: e.confidence,
        first_name: e.first_name,
        last_name: e.last_name,
        position: e.position,
        seniority: e.seniority,
        department: e.department,
        linkedin: e.linkedin,
        twitter: e.twitter,
        phone_number: e.phone_number,
    }
}

/// What `flatten` returns: exactly one row per email entry, in the same
/// order, each the join of the shared domain-level fields with that entry.
pub open spec fn flatten_post(r: LookupResult, rows: Seq<FlatRow>) -> bool {
    &&& rows.len() == r.emails@.len()
    &&& forall|i: int| 0 <= i < rows.len() ==> rows[i] == row_of(r, r.emails@[i])
}

/// Converts one response into its output rows. A result with `k` email
/// entries yields exactly `k` rows; a result with none yields none.
pub fn flatten(r: &LookupResult) -> (rows: Vec<FlatRow>)
    ensures
        flatten_post(*r, rows@),
{
    let mut rows: Vec<FlatRow> = Vec::new();
    let mut idx: usize = 0;
    while idx < r.emails.len()
        invariant
            idx <= r.emails@.len(),
            rows@.len() == idx,
            forall|i: int| 0 <= i < idx ==> rows@[i] == row_of(*r, r.emails@[i]),
        decreases r.emails@.len() - idx,
    {
        let e = &r.emails[idx];
        let row = FlatRow {
            domain: r.domain.clone(),
            disposable: r.disposable,
            webmail: r.webmail,
            accept_all: r.accept_all,
            pattern: clone_opt(&r.pattern),
            organization: clone_opt(&r.organization),
            country: clone_opt(&r.country),
            state: clone_opt(&r.state),
            value: e.value.clone(),
            kind: e.kind.clone(),
            confidence: e.confidence,
            first_name: clone_opt(&e.first_name),
            last_name: clone_opt(&e.last_name),
            position: clone_opt(&e.position),
            seniority: clone_opt(&e.seniority),
            department: clone_opt(&e.department),
            linkedin: clone_opt(&e.linkedin),
            twitter: clone_opt(&e.twitter),
            phone_number: clone_opt(&e.phone_number),
        };
        rows.push(row);
        idx = idx + 1;
    }
    rows
}

/// Field broadcast: any two rows produced from one `LookupResult` carry the
/// same eight domain-level fields, and those fields equal the source's.
pub proof fn lemma_field_broadcast(r: LookupResult, rows: Seq<FlatRow>, i: int, j: int)
    requires
        flatten_post(r, rows),
        0 <= i < rows.len(),
        0 <= j < rows.len(),
    ensures
        rows[i].domain == r.domain,
        rows[i].disposable == r.disposable,
        rows[i].webmail == r.webmail,
        rows[i].accept_all == r.accept_all,
        rows[i].pattern == r.pattern,
        rows[i].organization == r.organization,
        rows[i].country == r.country,
        rows[i].state == r.state,
        rows[i].domain == rows[j].domain,
        rows[i].disposable == rows[j].disposable,
        rows[i].webmail == rows[j].webmail,
        rows[i].accept_all == rows[j].accept_all,
        rows[i].pattern == rows[j].pattern,
        rows[i].organization == rows[j].organization,
        rows[i].country == rows[j].country,
        rows[i].state == rows[j].state,
{
}

/// Two email entries that agree on everything but their provenance records.
pub open spec fn entries_agree_but_sources(a: EmailEntry, b: EmailEntry) -> bool {
    &&& a.value == b.value
    &&& a.kind == b.kind
    &&& a.confidence == b.confidence
    &&& a.first_name == b.first_name
    &&& a.last_name == b.last_name
    &&& a.position == b.position
    &&& a.seniority == b.seniority
    &&& a.department == b.department
    &&& a.linkedin == b.linkedin
    &&& a.twitter == b.twitter
    &&& a.phone_number == b.phone_number
}

/// Two results that agree on everything but the provenance records inside
/// their email entries.
pub open spec fn results_agree_but_sources(a: LookupResult, b: LookupResult) -> bool {
    &&& a.domain == b.domain
    &&& a.disposable == b.disposable
    &&& a.webmail == b.webmail
    &&& a.accept_all == b.accept_all
    &&& a.pattern == b.pattern
    &&& a.organization == b.organization
    &&& a.country == b.country
    &&& a.state == b.state
    &&& a.emails@.len() == b.emails@.len()
    &&& forall|i: int|
        0 <= i < a.emails@.len() ==> entries_agree_but_sources(a.emails@[i], b.emails@[i])
}

/// Source exclusion: the provenance records have no bearing on the output.
/// Two results that differ only in their `Source` data flatten to the very
/// same rows, so no field of any `Source` record appears in any `FlatRow`.
pub proof fn lemma_source_exclusion(
    a: LookupResult,
    b: LookupResult,
    rows_a: Seq<FlatRow>,
    rows_b: Seq<FlatRow>,
)
    requires
        flatten_post(a, rows_a),
        flatten_post(b, rows_b),
        results_agree_but_sources(a, b),
    ensures
        rows_a == rows_b,
{
    assert forall|i: int| 0 <= i < rows_a.len() implies rows_a[i] == rows_b[i] by {
        assert(entries_agree_but_sources(a.emails@[i], b.emails@[i]));
    }
    assert(rows_a =~= rows_b);
}

} // verus!
