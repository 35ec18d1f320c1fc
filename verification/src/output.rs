//! The output side of the tabular contract: the fixed 19-column header and
//! the rendering of one `FlatRow` as one line, with the usual quoting rules
//! (a field is quoted when it holds a delimiter, a quote or a line break,
//! and quotes inside a quoted field are doubled). Absent optional fields
//! render as an empty cell; booleans render as literal `true`/`false`.

use vstd::prelude::*;

use crate::model::FlatRow;
use crate::numfmt::dec_rep;
use crate::text::push_char;

verus! {

/// Whether a field value forces quoting.
pub open spec fn is_special(c: char) -> bool {
    c == ',' || c == '"' || c == '\n' || c == '\r'
}

/// A field must be quoted when any of its characters is special.
pub open spec fn needs_quoting(f: Seq<char>) -> bool {
    exists|i: int| 0 <= i < f.len() && is_special(f[i])
}

/// How one character renders inside a quoted field: quotes are doubled.
pub open spec fn esc_char(c: char) -> Seq<char> {
    if c == '"' {
        seq!['"', '"']
    } else {
        seq![c]
    }
}

/// The body of a quoted field: every character escaped.
pub open spec fn escaped(f: Seq<char>) -> Seq<char>
    decreases f.len(),
{
    if f.len() == 0 {
        Seq::<char>::empty()
    } else {
        esc_char(f[0]) + escaped(f.drop_first())
    }
}

/// The rendering of one field value: quoted exactly when it must be.
pub open spec fn rendered_field(f: Seq<char>) -> Seq<char> {
    if needs_quoting(f) {
        seq!['"'] + escaped(f) + seq!['"']
    } else {
        f
    }
}

/// The rendering of an optional field: an empty cell when absent.
pub open spec fn rendered_opt(o: Option<Seq<char>>) -> Seq<char> {
    match o {
        Option::Some(f) => rendered_field(f),
        Option::None => Seq::<char>::empty(),
    }
}

/// The rendering of a boolean field.
pub open spec fn bool_text(b: bool) -> Seq<char> {
    if b {
        "true"@
    } else {
        "false"@
    }
}

proof fn lemma_escaped_push(f: Seq<char>, c: char)
    ensures
        escaped(f.push(c)) == escaped(f) + esc_char(c),
    decreases f.len(),
{
    if f.len() == 0 {
        assert(f.push(c) =~= seq![c]);
        assert(seq![c].drop_first() =~= Seq::<char>::empty());
        assert(escaped(seq![c].drop_first()) == Seq::<char>::empty());
        assert(escaped(seq![c]) =~= esc_char(c));
        assert(escaped(f) + esc_char(c) =~= esc_char(c));
    } else {
        assert(f.push(c).drop_first() =~= f.drop_first().push(c));
        assert(f.push(c)[0] == f[0]);
        lemma_escaped_push(f.drop_first(), c);
        assert(escaped(f.push(c)) == esc_char(f[0]) + (escaped(f.drop_first()) + esc_char(c)));
        assert(esc_char(f[0]) + (escaped(f.drop_first()) + esc_char(c)) =~= (esc_char(f[0])
            + escaped(f.drop_first())) + esc_char(c));
        assert(escaped(f.push(c)) =~= escaped(f) + esc_char(c));
    }
}

/// Appends the rendering of one field value to `out`.
pub fn append_field(out: &mut String, f: &str)
    ensures
        final(out)@ == old(out)@ + rendered_field(f@),
{
    let chars = crate::text::to_chars(f);
    let mut special = false;
    let mut k: usize = 0;
    while k < chars.len()
        invariant
            chars@ == f@,
            k <= chars@.len(),
            special == exists|i: int| 0 <= i < k && is_special(f@[i]),
        decreases chars@.len() - k,
    {
        let c = chars[k];
        if c == ',' || c == '"' || c == '\n' || c == '\r' {
            special = true;
            assert(is_special(f@[k as int]));
        }
        k = k + 1;
    }
    if !special {
        assert(!needs_quoting(f@));
        out.append(f);
    } else {
        assert(needs_quoting(f@));
        push_char(out, '"');
        let mut k: usize = 0;
        while k < chars.len()
            invariant
                chars@ == f@,
                k <= chars@.len(),
                out@ == old(out)@ + seq!['"'] + escaped(f@.subrange(0, k as int)),
            decreases chars@.len() - k,
        {
            let c = chars[k];
            proof {
                assert(f@.subrange(0, k as int + 1) =~= f@.subrange(0, k as int).push(
                    f@[k as int],
                ));
                lemma_escaped_push(f@.subrange(0, k as int), f@[k as int]);
            }
            if c == '"' {
                push_char(out, '"');
                push_char(out, '"');
            } else {
                push_char(out, c);
            }
            proof {
                assert(out@ =~= old(out)@ + seq!['"'] + escaped(f@.subrange(0, k as int + 1)));
            }
            k = k + 1;
        }
        proof {
            assert(f@.subrange(0, f@.len() as int) =~= f@);
        }
        push_char(out, '"');
        proof {
            assert(out@ =~= old(out)@ + (seq!['"'] + escaped(f@) + seq!['"']));
        }
    }
}

/// Appends the rendering of an optional field to `out`.
pub fn append_opt(out: &mut String, o: &Option<String>)
    ensures
        final(out)@ == old(out)@ + rendered_opt(crate::model::opt_chars(*o)),
{
    match o {
        Option::Some(s) => {
            append_field(out, s.as_str());
        },
        Option::None => {
            proof {
                assert(out@ =~= out@ + Seq::<char>::empty());
            }
        },
    }
}

/// Appends `true` or `false` to `out`.
pub fn append_bool(out: &mut String, b: bool)
    ensures
        final(out)@ == old(out)@ + bool_text(b),
{
    if b {
        out.append("true");
    } else {
        out.append("false");
    }
}

/// The fixed header line: the 19 column names in their one order, then a
/// line break. It never varies with the data.
pub open spec fn header_text() -> Seq<char> {
    "domain,disposable,webmail,accept_all,pattern,organization,country,state,value,type,confidence,first_name,last_name,position,seniority,department,linkedin,twitter,phone_number\n"@
}

/// Renders the header line, written exactly once before any data row.
pub fn header_line() -> (s: String)
    ensures
        s@ == header_text(),
{
    String::from_str(
        "domain,disposable,webmail,accept_all,pattern,organization,country,state,value,type,confidence,first_name,last_name,position,seniority,department,linkedin,twitter,phone_number\n",
    )
}

/// One output line: the 19 cells of a row in header order, separated by
/// commas and closed by a line break.
pub open spec fn row_text(r: FlatRow) -> Seq<char> {
    rendered_field(r.domain@) + seq![','] + bool_text(r.disposable) + seq![','] + bool_text(
        r.webmail,
    ) + seq![','] + bool_text(r.accept_all) + seq![','] + rendered_opt(
        crate::model::opt_chars(r.pattern),
    ) + seq![','] + rendered_opt(crate::model::opt_chars(r.organization)) + seq![',']
        + rendered_opt(crate::model::opt_chars(r.country)) + seq![','] + rendered_opt(
        crate::model::opt_chars(r.state),
    ) + seq![','] + rendered_field(r.value@) + seq![','] + rendered_field(r.kind@) + seq![',']
        + dec_rep(r.confidence as int) + seq![','] + rendered_opt(
        crate::model::opt_chars(r.first_name),
    ) + seq![','] + rendered_opt(crate::model::opt_chars(r.last_name)) + seq![','] + rendered_opt(
        crate::model::opt_chars(r.position),
    ) + seq![','] + rendered_opt(crate::model::opt_chars(r.seniority)) + seq![','] + rendered_opt(
        crate::model::opt_chars(r.department),
    ) + seq![','] + rendered_opt(crate::model::opt_chars(r.linkedin)) + seq![','] + rendered_opt(
        crate::model::opt_chars(r.twitter),
    ) + seq![','] + rendered_opt(crate::model::opt_chars(r.phone_number)) + seq!['\n']
}

/// Renders one data row as one line in header order.
#[verifier::rlimit(100)]
pub fn render_row(r: &FlatRow) -> (s: String)
    ensures
        s@ == row_text(*r),
{
    let mut out = String::new();
    append_field(&mut out, r.domain.as_str());
    push_char(&mut out, ',');
    append_bool(&mut out, r.disposable);
    push_char(&mut out, ',');
    append_bool(&mut out, r.webmail);
    push_char(&mut out, ',');
    append_bool(&mut out, r.accept_all);
    push_char(&mut out, ',');
    append_opt(&mut out, &r.pattern);
    push_char(&mut out, ',');
    append_opt(&mut out, &r.organization);
    push_char(&mut out, ',');
    append_opt(&mut out, &r.country);
    push_char(&mut out, ',');
    append_opt(&mut out, &r.state);
    push_char(&mut out, ',');
    append_field(&mut out, r.value.as_str());
    push_char(&mut out, ',');
    append_field(&mut out, r.kind.as_str());
    push_char(&mut out, ',');
    let conf = crate::numfmt::dec_string(r.confidence);
    out.append(conf.as_str());
    push_char(&mut out, ',');
    append_opt(&mut out, &r.first_name);
    push_char(&mut out, ',');
    append_opt(&mut out, &r.last_name);
    push_char(&mut out, ',');
    append_opt(&mut out, &r.position);
    push_char(&mut out, ',');
    append_opt(&mut out, &r.seniority);
    push_char(&mut out, ',');
    append_opt(&mut out, &r.department);
    push_char(&mut out, ',');
    append_opt(&mut out, &r.linkedin);
    push_char(&mut out, ',');
    append_opt(&mut out, &r.twitter);
    push_char(&mut out, ',');
    append_opt(&mut out, &r.phone_number);
    push_char(&mut out, '\n');
    proof {
        assert(out@ =~= row_text(*r));
    }
    out
}

} // verus!
