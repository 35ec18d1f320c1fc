//! The response schema: what JSON documents denote a `LookupResult` with
//! its `Meta` block, and the runtime decoder, proved to accept exactly
//! those documents and to return exactly that denotation. Unknown members
//! are ignored; a member read as an optional text field may be absent or
//! null; a missing or ill-typed required member refuses the document.

use vstd::prelude::*;

use crate::json::{is_digit, jview, jview_members, jview_seq, Json, JsonV};
use crate::model::{
    clone_opt, EmailEntry, EmailEntryView, LookupResult, LookupResultView, Meta, MetaView,
    PipelineError, Source, SourceView,
};

verus! {

/// The value of the member named `k`: the later of two same-named members
/// wins, as the usual object readers have it.
pub open spec fn obj_get(m: Seq<(Seq<char>, JsonV)>, k: Seq<char>) -> Option<JsonV>
    decreases m.len(),
{
    if m.len() == 0 {
        Option::None
    } else if m.last().0 == k {
        Option::Some(m.last().1)
    } else {
        obj_get(m.drop_last(), k)
    }
}

/// A required text member.
pub open spec fn req_text(m: Seq<(Seq<char>, JsonV)>, k: Seq<char>) -> Option<Seq<char>> {
    match obj_get(m, k) {
        Option::Some(JsonV::Text(t)) => Option::Some(t),
        _ => Option::None,
    }
}

/// A required boolean member.
pub open spec fn req_bool(m: Seq<(Seq<char>, JsonV)>, k: Seq<char>) -> Option<bool> {
    match obj_get(m, k) {
        Option::Some(JsonV::Bool(b)) => Option::Some(b),
        _ => Option::None,
    }
}

/// An optional text member: absent or null both mean an absent value, and
/// anything but a text refuses the document.
pub open spec fn opt_text(m: Seq<(Seq<char>, JsonV)>, k: Seq<char>) -> Option<
    Option<Seq<char>>,
> {
    match obj_get(m, k) {
        Option::None => Option::Some(Option::None),
        Option::Some(JsonV::Null) => Option::Some(Option::None),
        Option::Some(JsonV::Text(t)) => Option::Some(Option::Some(t)),
        _ => Option::None,
    }
}

/// Whether a number lexeme is a plain run of decimal digits.
pub open spec fn is_digits(lex: Seq<char>) -> bool {
    lex.len() > 0 && forall|i: int| 0 <= i < lex.len() ==> is_digit(lex[i])
}

/// The value of a run of decimal digits.
pub open spec fn digits_val(lex: Seq<char>) -> int
    decreases lex.len(),
{
    if lex.len() == 0 {
        0
    } else {
        digits_val(lex.drop_last()) * 10 + (lex.last() as u32 - 48)
    }
}

/// A required unsigned-integer member: a plain digit run that fits the
/// machine word. A signed, fractional or exponent form refuses the
/// document, as the usual integer readers have it.
pub open spec fn req_count(m: Seq<(Seq<char>, JsonV)>, k: Seq<char>) -> Option<int> {
    match obj_get(m, k) {
        Option::Some(JsonV::Num(lex)) => if is_digits(lex) && digits_val(lex) <= usize::MAX as int {
            Option::Some(digits_val(lex))
        } else {
            Option::None
        },
        _ => Option::None,
    }
}

/// What a JSON value must be to denote one `Source`.
pub open spec fn decode_source_spec(j: JsonV) -> Option<SourceView> {
    match j {
        JsonV::Obj(m) => {
            if req_text(m, "domain"@) is Some && req_text(m, "uri"@) is Some && req_text(
                m,
                "extracted_on"@,
            ) is Some && req_text(m, "last_seen_on"@) is Some && req_bool(
                m,
                "still_on_page"@,
            ) is Some {
                Option::Some(
                    SourceView {
                        domain: req_text(m, "domain"@).unwrap(),
                        uri: req_text(m, "uri"@).unwrap(),
                        extracted_on: req_text(m, "extracted_on"@).unwrap(),
                        last_seen_on: req_text(m, "last_seen_on"@).unwrap(),
                        still_on_page: req_bool(m, "still_on_page"@).unwrap(),
                    },
                )
            } else {
                Option::None
            }
        },
        _ => Option::None,
    }
}

/// What a JSON array must hold to denote a sequence of `Source` records.
pub open spec fn decode_sources_spec(a: Seq<JsonV>) -> Option<Seq<SourceView>> {
    if forall|i: int| 0 <= i < a.len() ==> decode_source_spec(#[trigger] a[i]) is Some {
        Option::Some(Seq::new(a.len(), |i: int| decode_source_spec(a[i]).unwrap()))
    } else {
        Option::None
    }
}

/// The `sources` member of an email entry: a required array of sources.
pub open spec fn sources_field(m: Seq<(Seq<char>, JsonV)>) -> Option<Seq<SourceView>> {
    match obj_get(m, "sources"@) {
        Option::Some(JsonV::Arr(a)) => decode_sources_spec(a),
        _ => Option::None,
    }
}

/// What a JSON value must be to denote one `EmailEntry`.
pub open spec fn decode_email_spec(j: JsonV) -> Option<EmailEntryView> {
    match j {
        JsonV::Obj(m) => {
            if req_text(m, "value"@) is Some && req_text(m, "type"@) is Some && req_count(
                m,
                "confidence"@,
            ) is Some && sources_field(m) is Some && opt_text(m, "first_name"@) is Some && opt_text(
                m,
                "last_name"@,
            ) is Some && opt_text(m, "position"@) is Some && opt_text(m, "seniority"@) is Some
                && opt_text(m, "department"@) is Some && opt_text(m, "linkedin"@) is Some
                && opt_text(m, "twitter"@) is Some && opt_text(m, "phone_number"@) is Some {
                Option::Some(
                    EmailEntryView {
                        value: req_text(m, "value"@).unwrap(),
                        kind: req_text(m, "type"@).unwrap(),
                        confidence: req_count(m, "confidence"@).unwrap(),
                        sources: sources_field(m).unwrap(),
                        first_name: opt_text(m, "first_name"@).unwrap(),
                        last_name: opt_text(m, "last_name"@).unwrap(),
                        position: opt_text(m, "position"@).unwrap(),
                        seniority: opt_text(m, "seniority"@).unwrap(),
                        department: opt_text(m, "department"@).unwrap(),
                        linkedin: opt_text(m, "linkedin"@).unwrap(),
                        twitter: opt_text(m, "twitter"@).unwrap(),
                        phone_number: opt_text(m, "phone_number"@).unwrap(),
                    },
                )
            } else {
                Option::None
            }
        },
        _ => Option::None,
    }
}

/// What a JSON array must hold to denote a sequence of email entries.
pub open spec fn decode_emails_spec(a: Seq<JsonV>) -> Option<Seq<EmailEntryView>> {
    if forall|i: int| 0 <= i < a.len() ==> decode_email_spec(#[trigger] a[i]) is Some {
        Option::Some(Seq::new(a.len(), |i: int| decode_email_spec(a[i]).unwrap()))
    } else {
        Option::None
    }
}

/// The `emails` member of the payload: a required array of entries.
pub open spec fn emails_field(m: Seq<(Seq<char>, JsonV)>) -> Option<Seq<EmailEntryView>> {
    match obj_get(m, "emails"@) {
        Option::Some(JsonV::Arr(a)) => decode_emails_spec(a),
        _ => Option::None,
    }
}

/// What a JSON value must be to denote the domain-level payload.
pub open spec fn decode_data_spec(j: JsonV) -> Option<LookupResultView> {
    match j {
        JsonV::Obj(m) => {
            if req_text(m, "domain"@) is Some && req_bool(m, "disposable"@) is Some && req_bool(
                m,
                "webmail"@,
            ) is Some && req_bool(m, "accept_all"@) is Some && opt_text(m, "pattern"@) is Some
                && opt_text(m, "organization"@) is Some && opt_text(m, "country"@) is Some
                && opt_text(m, "state"@) is Some && emails_field(m) is Some {
                Option::Some(
                    LookupResultView {
                        domain: req_text(m, "domain"@).unwrap(),
                        disposable: req_bool(m, "disposable"@).unwrap(),
                        webmail: req_bool(m, "webmail"@).unwrap(),
                        accept_all: req_bool(m, "accept_all"@).unwrap(),
                        pattern: opt_text(m, "pattern"@).unwrap(),
                        organization: opt_text(m, "organization"@).unwrap(),
                        country: opt_text(m, "country"@).unwrap(),
                        state: opt_text(m, "state"@).unwrap(),
                        emails: emails_field(m).unwrap(),
                    },
                )
            } else {
                Option::None
            }
        },
        _ => Option::None,
    }
}

/// What a JSON value must be to denote the metadata block.
pub open spec fn decode_meta_spec(j: JsonV) -> Option<MetaView> {
    match j {
        JsonV::Obj(m) => {
            if req_count(m, "results"@) is Some && req_count(m, "limit"@) is Some && req_count(
                m,
                "offset"@,
            ) is Some {
                Option::Some(
                    MetaView {
                        results: req_count(m, "results"@).unwrap(),
                        limit: req_count(m, "limit"@).unwrap(),
                        offset: req_count(m, "offset"@).unwrap(),
                    },
                )
            } else {
                Option::None
            }
        },
        _ => Option::None,
    }
}

/// What a JSON document must be to denote one whole response: an object
/// with a `data` payload and a `meta` block.
pub open spec fn decode_response_spec(j: JsonV) -> Option<(LookupResultView, MetaView)> {
    match j {
        JsonV::Obj(m) => {
            match (obj_get(m, "data"@), obj_get(m, "meta"@)) {
                (Option::Some(d), Option::Some(t)) => {
                    match (decode_data_spec(d), decode_meta_spec(t)) {
                        (Option::Some(dv), Option::Some(tv)) => Option::Some((dv, tv)),
                        _ => Option::None,
                    }
                },
                _ => Option::None,
            }
        },
        _ => Option::None,
    }
}

/// Finds the member named `k`, searching from the back so that the later
/// of two same-named members wins.
fn obj_find(m: &Vec<(String, Json)>, k: &String) -> (r: Option<usize>)
    ensures
        match r {
            Option::Some(idx) => idx < m@.len() && obj_get(jview_members(m@), k@)
                == Option::Some(jview(m@[idx as int].1)),
            Option::None => obj_get(jview_members(m@), k@) is None,
        },
{
    proof {
        crate::json::lemma_jview_members(m@);
    }
    let ghost mv = jview_members(m@);
    proof {
        assert(mv.subrange(0, mv.len() as int) =~= mv);
    }
    let mut idx = m.len();
    loop
        invariant
            idx <= m@.len(),
            mv == jview_members(m@),
            mv.len() == m@.len(),
            forall|i: int| 0 <= i < m@.len() ==> mv[i] == (m@[i].0@, jview(m@[i].1)),
            obj_get(mv, k@) == obj_get(mv.subrange(0, idx as int), k@),
        decreases idx,
    {
        if idx == 0 {
            proof {
                assert(mv.subrange(0, 0) =~= Seq::<(Seq<char>, JsonV)>::empty());
            }
            return Option::None;
        }
        let i = idx - 1;
        if m[i].0 == *k {
            proof {
                let pre = mv.subrange(0, idx as int);
                assert(pre.last() == mv[idx - 1]);
            }
            return Option::Some(i);
        }
        proof {
            let pre = mv.subrange(0, idx as int);
            assert(pre.last() == mv[idx - 1]);
            assert(pre.drop_last() =~= mv.subrange(0, idx - 1));
        }
        idx = i;
    }
}

/// Reads a required text member as its string.
fn get_req_text(m: &Vec<(String, Json)>, k: &String) -> (r: Option<String>)
    ensures
        match r {
            Option::Some(s) => req_text(jview_members(m@), k@) == Option::Some(s@),
            Option::None => req_text(jview_members(m@), k@) is None,
        },
{
    match obj_find(m, k) {
        Option::None => Option::None,
        Option::Some(idx) => match &m[idx].1 {
            Json::Text(t) => Option::Some(t.clone()),
            _ => Option::None,
        },
    }
}

/// Reads a required boolean member.
fn get_req_bool(m: &Vec<(String, Json)>, k: &String) -> (r: Option<bool>)
    ensures
        match r {
            Option::Some(b) => req_bool(jview_members(m@), k@) == Option::Some(b),
            Option::None => req_bool(jview_members(m@), k@) is None,
        },
{
    match obj_find(m, k) {
        Option::None => Option::None,
        Option::Some(idx) => match &m[idx].1 {
            Json::Bool(b) => Option::Some(*b),
            _ => Option::None,
        },
    }
}

/// Reads an optional text member: absent and null both give an absent
/// value.
fn get_opt_text(m: &Vec<(String, Json)>, k: &String) -> (r: Option<Option<String>>)
    ensures
        match r {
            Option::Some(o) => opt_text(jview_members(m@), k@) == Option::Some(
                crate::model::opt_chars(o),
            ),
            Option::None => opt_text(jview_members(m@), k@) is None,
        },
{
    match obj_find(m, k) {
        Option::None => Option::Some(Option::None),
        Option::Some(idx) => match &m[idx].1 {
            Json::Null => Option::Some(Option::None),
            Json::Text(t) => Option::Some(Option::Some(t.clone())),
            _ => Option::None,
        },
    }
}

proof fn lemma_digits_val_nonneg(lex: Seq<char>)
    requires
        forall|i: int| 0 <= i < lex.len() ==> is_digit(lex[i]),
    ensures
        digits_val(lex) >= 0,
    decreases lex.len(),
{
    if lex.len() > 0 {
        lemma_digits_val_nonneg(lex.drop_last());
    }
}

proof fn lemma_digits_val_grows(lex: Seq<char>, k: int)
    requires
        0 <= k <= lex.len(),
        forall|i: int| 0 <= i < lex.len() ==> is_digit(lex[i]),
    ensures
        digits_val(lex) >= digits_val(lex.subrange(0, k)),
    decreases lex.len() - k,
{
    if k < lex.len() {
        lemma_digits_val_grows(lex, k + 1);
        let pre = lex.subrange(0, k + 1);
        assert(pre.drop_last() =~= lex.subrange(0, k));
        assert(forall|i: int| 0 <= i < lex.subrange(0, k).len() ==> is_digit(
            #[trigger] lex.subrange(0, k)[i],
        ));
        lemma_digits_val_nonneg(lex.subrange(0, k));
        assert(digits_val(pre) == digits_val(lex.subrange(0, k)) * 10 + (pre.last() as u32 - 48));
        assert(digits_val(pre) >= digits_val(lex.subrange(0, k)));
    } else {
        assert(lex.subrange(0, k) =~= lex);
    }
}

/// Reads a digit run as a machine word, refusing anything else and any
/// value past the largest word.
fn digits_to_usize(lex: &Vec<char>) -> (r: Option<usize>)
    ensures
        match r {
            Option::Some(n) => is_digits(lex@) && digits_val(lex@) == n as int,
            Option::None => !(is_digits(lex@) && digits_val(lex@) <= usize::MAX as int),
        },
{
    if lex.len() == 0 {
        return Option::None;
    }
    let mut acc: usize = 0;
    let mut i: usize = 0;
    while i < lex.len()
        invariant
            i <= lex@.len(),
            lex@.len() > 0,
            forall|k: int| 0 <= k < i ==> is_digit(lex@[k]),
            acc as int == digits_val(lex@.subrange(0, i as int)),
        decreases lex@.len() - i,
    {
        let c = lex[i];
        let u = c as u32;
        if !(48 <= u && u <= 57) {
            return Option::None;
        }
        let d = (u - 48) as usize;
        proof {
            let pre = lex@.subrange(0, i as int + 1);
            assert(pre.drop_last() =~= lex@.subrange(0, i as int));
            assert(digits_val(pre) == digits_val(lex@.subrange(0, i as int)) * 10 + d);
        }
        let acc10 = match acc.checked_mul(10) {
            Option::Some(x) => x,
            Option::None => {
                proof {
                    if is_digits(lex@) {
                        lemma_digits_val_nonneg(lex@);
                        lemma_digits_val_grows(lex@, i as int + 1);
                    }
                }
                return Option::None;
            },
        };
        let acc2 = match acc10.checked_add(d) {
            Option::Some(x) => x,
            Option::None => {
                proof {
                    if is_digits(lex@) {
                        lemma_digits_val_nonneg(lex@);
                        lemma_digits_val_grows(lex@, i as int + 1);
                    }
                }
                return Option::None;
            },
        };
        acc = acc2;
        i = i + 1;
    }
    proof {
        assert(lex@.subrange(0, lex@.len() as int) =~= lex@);
    }
    Option::Some(acc)
}

/// Reads a required unsigned-integer member.
fn get_req_count(m: &Vec<(String, Json)>, k: &String) -> (r: Option<usize>)
    ensures
        match r {
            Option::Some(n) => req_count(jview_members(m@), k@) == Option::Some(n as int),
            Option::None => req_count(jview_members(m@), k@) is None,
        },
{
    match obj_find(m, k) {
        Option::None => Option::None,
        Option::Some(idx) => match &m[idx].1 {
            Json::Num(lex) => digits_to_usize(lex),
            _ => Option::None,
        },
    }
}

/// Decodes one `Source` record.
fn decode_source(j: &Json) -> (r: Option<Source>)
    ensures
        match r {
            Option::Some(s) => decode_source_spec(jview(*j)) == Option::Some(s@),
            Option::None => decode_source_spec(jview(*j)) is None,
        },
{
    let m = match j {
        Json::Obj(m) => m,
        _ => {
            return Option::None;
        },
    };
    let kd = String::from_str("domain");
    let ku = String::from_str("uri");
    let ke = String::from_str("extracted_on");
    let kl = String::from_str("last_seen_on");
    let kp = String::from_str("still_on_page");
    let domain = match get_req_text(m, &kd) {
        Option::Some(s) => s,
        Option::None => {
            return Option::None;
        },
    };
    let uri = match get_req_text(m, &ku) {
        Option::Some(s) => s,
        Option::None => {
            return Option::None;
        },
    };
    let extracted_on = match get_req_text(m, &ke) {
        Option::Some(s) => s,
        Option::None => {
            return Option::None;
        },
    };
    let last_seen_on = match get_req_text(m, &kl) {
        Option::Some(s) => s,
        Option::None => {
            return Option::None;
        },
    };
    let still_on_page = match get_req_bool(m, &kp) {
        Option::Some(b) => b,
        Option::None => {
            return Option::None;
        },
    };
    Option::Some(Source { domain, uri, extracted_on, last_seen_on, still_on_page })
}

/// Decodes the elements of a `sources` array.
fn decode_sources(a: &Vec<Json>) -> (r: Option<Vec<Source>>)
    ensures
        match r {
            Option::Some(v) => decode_sources_spec(jview_seq(a@)) == Option::Some(
                Seq::new(v@.len(), |i: int| v@[i]@),
            ),
            Option::None => decode_sources_spec(jview_seq(a@)) is None,
        },
{
    proof {
        crate::json::lemma_jview_seq(a@);
    }
    let mut out: Vec<Source> = Vec::new();
    let mut i: usize = 0;
    while i < a.len()
        invariant
            i <= a@.len(),
            out@.len() == i,
            jview_seq(a@).len() == a@.len(),
            forall|k: int| 0 <= k < a@.len() ==> jview_seq(a@)[k] == jview(a@[k]),
            forall|k: int|
                0 <= k < i ==> decode_source_spec(#[trigger] jview_seq(a@)[k]) == Option::Some(
                    out@[k]@,
                ),
        decreases a@.len() - i,
    {
        match decode_source(&a[i]) {
            Option::Some(s) => {
                out.push(s);
            },
            Option::None => {
                proof {
                    assert(decode_source_spec(jview_seq(a@)[i as int]) is None);
                }
                return Option::None;
            },
        }
        i = i + 1;
    }
    proof {
        assert(Seq::new(jview_seq(a@).len(), |i: int| decode_source_spec(jview_seq(a@)[i]).unwrap())
            =~= Seq::new(out@.len(), |i: int| out@[i]@));
    }
    Option::Some(out)
}

/// Decodes one `EmailEntry`.
fn decode_email(j: &Json) -> (r: Option<EmailEntry>)
    ensures
        match r {
            Option::Some(e) => decode_email_spec(jview(*j)) == Option::Some(e@),
            Option::None => decode_email_spec(jview(*j)) is None,
        },
{
    let m = match j {
        Json::Obj(m) => m,
        _ => {
            return Option::None;
        },
    };
    let value = match get_req_text(m, &String::from_str("value")) {
        Option::Some(s) => s,
        Option::None => {
            return Option::None;
        },
    };
    let kind = match get_req_text(m, &String::from_str("type")) {
        Option::Some(s) => s,
        Option::None => {
            return Option::None;
        },
    };
    let confidence = match get_req_count(m, &String::from_str("confidence")) {
        Option::Some(n) => n,
        Option::None => {
            return Option::None;
        },
    };
    let ks = String::from_str("sources");
    let sources = match obj_find(m, &ks) {
        Option::None => {
            return Option::None;
        },
        Option::Some(idx) => match &m[idx].1 {
            Json::Arr(a) => match decode_sources(a) {
                Option::Some(v) => v,
                Option::None => {
                    return Option::None;
                },
            },
            _ => {
                return Option::None;
            },
        },
    };
    let first_name = match get_opt_text(m, &String::from_str("first_name")) {
        Option::Some(o) => o,
        Option::None => {
            return Option::None;
        },
    };
    let last_name = match get_opt_text(m, &String::from_str("last_name")) {
        Option::Some(o) => o,
        Option::None => {
            return Option::None;
        },
    };
    let position = match get_opt_text(m, &String::from_str("position")) {
        Option::Some(o) => o,
        Option::None => {
            return Option::None;
        },
    };
    let seniority = match get_opt_text(m, &String::from_str("seniority")) {
        Option::Some(o) => o,
        Option::None => {
            return Option::None;
        },
    };
    let department = match get_opt_text(m, &String::from_str("department")) {
        Option::Some(o) => o,
        Option::None => {
            return Option::None;
        },
    };
    let linkedin = match get_opt_text(m, &String::from_str("linkedin")) {
        Option::Some(o) => o,
        Option::None => {
            return Option::None;
        },
    };
    let twitter = match get_opt_text(m, &String::from_str("twitter")) {
        Option::Some(o) => o,
        Option::None => {
            return Option::None;
        },
    };
    let phone_number = match get_opt_text(m, &String::from_str("phone_number")) {
        Option::Some(o) => o,
        Option::None => {
            return Option::None;
        },
    };
    let e = EmailEntry {
        value,
        kind,
        confidence,
        sources,
        first_name,
        last_name,
        position,
        seniority,
        department,
        linkedin,
        twitter,
        phone_number,
    };
    proof {
        assert(e@.sources =~= decode_email_spec(jview(*j)).unwrap().sources);
        assert(e@ == decode_email_spec(jview(*j)).unwrap());
    }
    Option::Some(e)
}

/// Decodes the elements of an `emails` array.
fn decode_emails(a: &Vec<Json>) -> (r: Option<Vec<EmailEntry>>)
    ensures
        match r {
            Option::Some(v) => decode_emails_spec(jview_seq(a@)) == Option::Some(
                Seq::new(v@.len(), |i: int| v@[i]@),
            ),
            Option::None => decode_emails_spec(jview_seq(a@)) is None,
        },
{
    proof {
        crate::json::lemma_jview_seq(a@);
    }
    let mut out: Vec<EmailEntry> = Vec::new();
    let mut i: usize = 0;
    while i < a.len()
        invariant
            i <= a@.len(),
            out@.len() == i,
            jview_seq(a@).len() == a@.len(),
            forall|k: int| 0 <= k < a@.len() ==> jview_seq(a@)[k] == jview(a@[k]),
            forall|k: int|
                0 <= k < i ==> decode_email_spec(#[trigger] jview_seq(a@)[k]) == Option::Some(
                    out@[k]@,
                ),
        decreases a@.len() - i,
    {
        match decode_email(&a[i]) {
            Option::Some(e) => {
                out.push(e);
            },
            Option::None => {
                proof {
                    assert(decode_email_spec(jview_seq(a@)[i as int]) is None);
                }
                return Option::None;
            },
        }
        i = i + 1;
    }
    proof {
        assert(Seq::new(jview_seq(a@).len(), |i: int| decode_email_spec(jview_seq(a@)[i]).unwrap())
            =~= Seq::new(out@.len(), |i: int| out@[i]@));
    }
    Option::Some(out)
}

/// Decodes the domain-level payload.
fn decode_data(j: &Json) -> (r: Option<LookupResult>)
    ensures
        match r {
            Option::Some(d) => decode_data_spec(jview(*j)) == Option::Some(d@),
            Option::None => decode_data_spec(jview(*j)) is None,
        },
{
    let m = match j {
        Json::Obj(m) => m,
        _ => {
            return Option::None;
        },
    };
    let domain = match get_req_text(m, &String::from_str("domain")) {
        Option::Some(s) => s,
        Option::None => {
            return Option::None;
        },
    };
    let disposable = match get_req_bool(m, &String::from_str("disposable")) {
        Option::Some(b) => b,
        Option::None => {
            return Option::None;
        },
    };
    let webmail = match get_req_bool(m, &String::from_str("webmail")) {
        Option::Some(b) => b,
        Option::None => {
            return Option::None;
        },
    };
    let accept_all = match get_req_bool(m, &String::from_str("accept_all")) {
        Option::Some(b) => b,
        Option::None => {
            return Option::None;
        },
    };
    let pattern = match get_opt_text(m, &String::from_str("pattern")) {
        Option::Some(o) => o,
        Option::None => {
            return Option::None;
        },
    };
    let organization = match get_opt_text(m, &String::from_str("organization")) {
        Option::Some(o) => o,
        Option::None => {
            return Option::None;
        },
    };
    let country = match get_opt_text(m, &String::from_str("country")) {
        Option::Some(o) => o,
        Option::None => {
            return Option::None;
        },
    };
    let state = match get_opt_text(m, &String::from_str("state")) {
        Option::Some(o) => o,
        Option::None => {
            return Option::None;
        },
    };
    let ke = String::from_str("emails");
    let emails = match obj_find(m, &ke) {
        Option::None => {
            return Option::None;
        },
        Option::Some(idx) => match &m[idx].1 {
            Json::Arr(a) => match decode_emails(a) {
                Option::Some(v) => v,
                Option::None => {
                    return Option::None;
                },
            },
            _ => {
                return Option::None;
            },
        },
    };
    let d = LookupResult {
        domain,
        disposable,
        webmail,
        accept_all,
        pattern,
        organization,
        country,
        state,
        emails,
    };
    proof {
        assert(d@.emails =~= decode_data_spec(jview(*j)).unwrap().emails);
        assert(d@ == decode_data_spec(jview(*j)).unwrap());
    }
    Option::Some(d)
}

/// Decodes the metadata block.
fn decode_meta(j: &Json) -> (r: Option<Meta>)
    ensures
        match r {
            Option::Some(t) => decode_meta_spec(jview(*j)) == Option::Some(t@),
            Option::None => decode_meta_spec(jview(*j)) is None,
        },
{
    let m = match j {
        Json::Obj(m) => m,
        _ => {
            return Option::None;
        },
    };
    let results = match get_req_count(m, &String::from_str("results")) {
        Option::Some(n) => n,
        Option::None => {
            return Option::None;
        },
    };
    let limit = match get_req_count(m, &String::from_str("limit")) {
        Option::Some(n) => n,
        Option::None => {
            return Option::None;
        },
    };
    let offset = match get_req_count(m, &String::from_str("offset")) {
        Option::Some(n) => n,
        Option::None => {
            return Option::None;
        },
    };
    Option::Some(Meta { results, limit, offset })
}

/// Decodes one whole response document into the payload and its metadata.
/// It returns the payload exactly when the document denotes one, and the
/// schema error otherwise.
pub fn decode_response(j: &Json) -> (r: Result<(LookupResult, Meta), PipelineError>)
    ensures
        match r {
            Result::Ok(p) => decode_response_spec(jview(*j)) == Option::Some((p.0@, p.1@)),
            Result::Err(e) => decode_response_spec(jview(*j)) is None && e
                == PipelineError::Schema,
        },
{
    let m = match j {
        Json::Obj(m) => m,
        _ => {
            return Result::Err(PipelineError::Schema);
        },
    };
    let kd = String::from_str("data");
    let data = match obj_find(m, &kd) {
        Option::None => {
            return Result::Err(PipelineError::Schema);
        },
        Option::Some(idx) => match decode_data(&m[idx].1) {
            Option::Some(d) => d,
            Option::None => {
                return Result::Err(PipelineError::Schema);
            },
        },
    };
    let kt = String::from_str("meta");
    let meta = match obj_find(m, &kt) {
        Option::None => {
            return Result::Err(PipelineError::Schema);
        },
        Option::Some(idx) => match decode_meta(&m[idx].1) {
            Option::Some(t) => t,
            Option::None => {
                return Result::Err(PipelineError::Schema);
            },
        },
    };
    Result::Ok((data, meta))
}

} // verus!
