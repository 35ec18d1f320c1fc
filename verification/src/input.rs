//! The input side of the tabular contract: a UTF-8 text whose first record
//! names the columns, among them `name` and `domain` in either order, and
//! whose later records each carry as many fields as the header. Fields may
//! be quoted, with quotes doubled inside; records end at a line break. The
//! runtime reader is proved to return exactly what the grammar gives.

use vstd::prelude::*;

use crate::model::{InputRecord, PipelineError};
use crate::text::chars_to_string;

verus! {

/// A quoted field body, read after the opening quote: the content and the
/// index after the closing quote. A doubled quote denotes one quote.
pub open spec fn csv_quoted(s: Seq<char>, i: int) -> Option<(Seq<char>, int)>
    decreases s.len() - i,
{
    if !(0 <= i && i < s.len()) {
        Option::None
    } else if s[i] == '"' {
        if i + 1 < s.len() && s[i + 1] == '"' {
            match csv_quoted(s, i + 2) {
                Option::Some((rest, j)) => Option::Some((seq!['"'] + rest, j)),
                Option::None => Option::None,
            }
        } else {
            Option::Some((Seq::<char>::empty(), i + 1))
        }
    } else {
        match csv_quoted(s, i + 1) {
            Option::Some((rest, j)) => Option::Some((seq![s[i]] + rest, j)),
            Option::None => Option::None,
        }
    }
}

/// A bare field: the characters up to a delimiter, a line break or the
/// end. A quote inside a bare field refuses the text.
pub open spec fn csv_raw(s: Seq<char>, i: int) -> Option<(Seq<char>, int)>
    decreases s.len() - i,
{
    if i < 0 {
        Option::None
    } else if i >= s.len() {
        Option::Some((Seq::<char>::empty(), i))
    } else if s[i] == ',' || s[i] == '\n' || s[i] == '\r' {
        Option::Some((Seq::<char>::empty(), i))
    } else if s[i] == '"' {
        Option::None
    } else {
        match csv_raw(s, i + 1) {
            Option::Some((rest, j)) => Option::Some((seq![s[i]] + rest, j)),
            Option::None => Option::None,
        }
    }
}

/// One field, quoted or bare.
pub open spec fn csv_field(s: Seq<char>, i: int) -> Option<(Seq<char>, int)> {
    if 0 <= i && i < s.len() && s[i] == '"' {
        csv_quoted(s, i + 1)
    } else {
        csv_raw(s, i)
    }
}

/// One record: fields separated by commas, ending before a line break or
/// the end of the text.
pub open spec fn csv_record(s: Seq<char>, i: int) -> Option<(Seq<Seq<char>>, int)>
    decreases s.len() - i,
{
    match csv_field(s, i) {
        Option::None => Option::None,
        Option::Some((f, j)) => {
            if j >= s.len() {
                Option::Some((seq![f], j))
            } else if 0 <= j && j < s.len() && (s[j] == '\n' || s[j] == '\r') {
                Option::Some((seq![f], j))
            } else if 0 <= j && j < s.len() && s[j] == ',' {
                if i < j + 1 {
                    match csv_record(s, j + 1) {
                        Option::Some((rest, e)) => Option::Some((seq![f] + rest, e)),
                        Option::None => Option::None,
                    }
                } else {
                    Option::None
                }
            } else {
                Option::None
            }
        },
    }
}

/// All records of the text: each ended by a line break (bare or preceded
/// by a carriage return), the last line break optional.
pub open spec fn csv_records(s: Seq<char>, i: int) -> Option<Seq<Seq<Seq<char>>>>
    decreases s.len() - i,
{
    if !(0 <= i) {
        Option::None
    } else if i >= s.len() {
        Option::Some(Seq::<Seq<Seq<char>>>::empty())
    } else {
        match csv_record(s, i) {
            Option::None => Option::None,
            Option::Some((r, j)) => {
                if j >= s.len() {
                    Option::Some(seq![r])
                } else if s[j] == '\n' && i < j + 1 {
                    match csv_records(s, j + 1) {
                        Option::Some(rest) => Option::Some(seq![r] + rest),
                        Option::None => Option::None,
                    }
                } else if s[j] == '\r' && j + 1 < s.len() && s[j + 1] == '\n' && i < j + 2 {
                    match csv_records(s, j + 2) {
                        Option::Some(rest) => Option::Some(seq![r] + rest),
                        Option::None => Option::None,
                    }
                } else {
                    Option::None
                }
            },
        }
    }
}

/// The first column at or after `k` whose name is `name`.
pub open spec fn find_from(hdr: Seq<Seq<char>>, name: Seq<char>, k: int) -> Option<int>
    decreases hdr.len() - k,
{
    if !(0 <= k) {
        Option::None
    } else if k >= hdr.len() {
        Option::None
    } else if hdr[k] == name {
        Option::Some(k)
    } else {
        find_from(hdr, name, k + 1)
    }
}

/// The first data row at or after `k` whose field count is not `n`.
pub open spec fn first_bad(rows: Seq<Seq<Seq<char>>>, n: int, k: int) -> Option<int>
    decreases rows.len() - k,
{
    if !(0 <= k) {
        Option::None
    } else if k >= rows.len() {
        Option::None
    } else if rows[k].len() != n {
        Option::Some(k)
    } else {
        first_bad(rows, n, k + 1)
    }
}

/// What reading an input text gives.
pub enum InputOutcome {
    /// The name/domain pairs, one per data row, in input order.
    Rows(Seq<(Seq<char>, Seq<char>)>),
    /// The text is no tabular document at all.
    BadSyntax,
    /// The one-based index of the first data row that cannot be read:
    /// either its field count differs from the header's, or it is the
    /// first row and a required column is missing from the header.
    BadRow(int),
}

/// The meaning of an input text. A text with no data rows gives no pairs,
/// whatever its header; a missing `name` or `domain` column shows at the
/// first data row.
pub open spec fn input_outcome(s: Seq<char>) -> InputOutcome {
    match csv_records(s, 0) {
        Option::None => InputOutcome::BadSyntax,
        Option::Some(rows) => {
            if rows.len() <= 1 {
                InputOutcome::Rows(Seq::<(Seq<char>, Seq<char>)>::empty())
            } else {
                let hdr = rows[0];
                match (find_from(hdr, "name"@, 0), find_from(hdr, "domain"@, 0)) {
                    (Option::Some(ni), Option::Some(di)) => {
                        match first_bad(rows, hdr.len() as int, 1) {
                            Option::Some(k) => InputOutcome::BadRow(k),
                            Option::None => InputOutcome::Rows(
                                Seq::new(
                                    (rows.len() - 1) as nat,
                                    |k: int| (rows[k + 1][ni], rows[k + 1][di]),
                                ),
                            ),
                        }
                    },
                    _ => InputOutcome::BadRow(1),
                }
            }
        },
    }
}

/// The pairs a vector of records stands for.
pub open spec fn recs_view(v: Seq<InputRecord>) -> Seq<(Seq<char>, Seq<char>)> {
    Seq::new(v.len(), |i: int| (v[i].name@, v[i].domain@))
}

/// The fields of one runtime record, as character sequences.
pub open spec fn fields_view(r: Seq<Vec<char>>) -> Seq<Seq<char>> {
    Seq::new(r.len(), |i: int| r[i]@)
}

/// The records of a runtime table, as character sequences.
pub open spec fn rows_view(rs: Seq<Vec<Vec<char>>>) -> Seq<Seq<Seq<char>>> {
    Seq::new(rs.len(), |i: int| fields_view(rs[i]@))
}

fn exec_quoted(s: &Vec<char>, i: usize) -> (r: Option<(Vec<char>, usize)>)
    requires
        i <= s@.len(),
    ensures
        match r {
            Option::Some((f, j)) => csv_quoted(s@, i as int) == Option::Some((f@, j as int)) && i
                < j && j <= s@.len(),
            Option::None => csv_quoted(s@, i as int) is None,
        },
    decreases s@.len() - i,
{
    if i >= s.len() {
        return Option::None;
    }
    if s[i] == '"' {
        if s.len() - i > 1 && s[i + 1] == '"' {
            match exec_quoted(s, i + 2) {
                Option::Some((rest, j)) => {
                    let mut f = rest;
                    f.insert(0, '"');
                    proof {
                        assert(f@ =~= seq!['"'] + f@.subrange(1, f@.len() as int));
                    }
                    Option::Some((f, j))
                },
                Option::None => Option::None,
            }
        } else {
            let f: Vec<char> = Vec::new();
            proof {
                assert(f@ =~= Seq::<char>::empty());
            }
            Option::Some((f, i + 1))
        }
    } else {
        match exec_quoted(s, i + 1) {
            Option::Some((rest, j)) => {
                let c = s[i];
                let mut f = rest;
                f.insert(0, c);
                proof {
                    assert(f@ =~= seq![c] + f@.subrange(1, f@.len() as int));
                }
                Option::Some((f, j))
            },
            Option::None => Option::None,
        }
    }
}

fn exec_raw(s: &Vec<char>, i: usize) -> (r: Option<(Vec<char>, usize)>)
    requires
        i <= s@.len(),
    ensures
        match r {
            Option::Some((f, j)) => csv_raw(s@, i as int) == Option::Some((f@, j as int)) && i <= j
                && j <= s@.len(),
            Option::None => csv_raw(s@, i as int) is None,
        },
    decreases s@.len() - i,
{
    if i >= s.len() {
        let f: Vec<char> = Vec::new();
        proof {
            assert(f@ =~= Seq::<char>::empty());
        }
        return Option::Some((f, i));
    }
    let c = s[i];
    if c == ',' || c == '\n' || c == '\r' {
        let f: Vec<char> = Vec::new();
        proof {
            assert(f@ =~= Seq::<char>::empty());
        }
        Option::Some((f, i))
    } else if c == '"' {
        Option::None
    } else {
        match exec_raw(s, i + 1) {
            Option::Some((rest, j)) => {
                let mut f = rest;
                f.insert(0, c);
                proof {
                    assert(f@ =~= seq![c] + f@.subrange(1, f@.len() as int));
                }
                Option::Some((f, j))
            },
            Option::None => Option::None,
        }
    }
}

fn exec_field(s: &Vec<char>, i: usize) -> (r: Option<(Vec<char>, usize)>)
    requires
        i <= s@.len(),
    ensures
        match r {
            Option::Some((f, j)) => csv_field(s@, i as int) == Option::Some((f@, j as int)) && i
                <= j && j <= s@.len(),
            Option::None => csv_field(s@, i as int) is None,
        },
{
    if i < s.len() && s[i] == '"' {
        exec_quoted(s, i + 1)
    } else {
        exec_raw(s, i)
    }
}

fn exec_record(s: &Vec<char>, i: usize) -> (r: Option<(Vec<Vec<char>>, usize)>)
    requires
        i <= s@.len(),
    ensures
        match r {
            Option::Some((fs, j)) => csv_record(s@, i as int) == Option::Some(
                (fields_view(fs@), j as int),
            ) && i <= j && j <= s@.len(),
            Option::None => csv_record(s@, i as int) is None,
        },
    decreases s@.len() - i,
{
    match exec_field(s, i) {
        Option::None => Option::None,
        Option::Some((f, j)) => {
            if j >= s.len() {
                let mut fs: Vec<Vec<char>> = Vec::new();
                fs.push(f);
                proof {
                    assert(fields_view(fs@) =~= seq![fs@[0]@]);
                }
                Option::Some((fs, j))
            } else if s[j] == '\n' || s[j] == '\r' {
                let mut fs: Vec<Vec<char>> = Vec::new();
                fs.push(f);
                proof {
                    assert(fields_view(fs@) =~= seq![fs@[0]@]);
                }
                Option::Some((fs, j))
            } else if s[j] == ',' {
                match exec_record(s, j + 1) {
                    Option::Some((rest, e)) => {
                        let ghost rest0 = rest@;
                        let ghost fv = f@;
                        let mut fs = rest;
                        fs.insert(0, f);
                        proof {
                            assert(fs@ =~= seq![fs@[0]] + rest0);
                            assert(fields_view(fs@) =~= seq![fv] + fields_view(rest0));
                        }
                        Option::Some((fs, e))
                    },
                    Option::None => Option::None,
                }
            } else {
                Option::None
            }
        },
    }
}

fn exec_records(s: &Vec<char>, i: usize) -> (r: Option<Vec<Vec<Vec<char>>>>)
    requires
        i <= s@.len(),
    ensures
        match r {
            Option::Some(rs) => csv_records(s@, i as int) == Option::Some(rows_view(rs@)),
            Option::None => csv_records(s@, i as int) is None,
        },
    decreases s@.len() - i,
{
    if i >= s.len() {
        let rs: Vec<Vec<Vec<char>>> = Vec::new();
        proof {
            assert(rows_view(rs@) =~= Seq::<Seq<Seq<char>>>::empty());
        }
        return Option::Some(rs);
    }
    match exec_record(s, i) {
        Option::None => Option::None,
        Option::Some((rec, j)) => {
            if j >= s.len() {
                let ghost recv = fields_view(rec@);
                let mut rs: Vec<Vec<Vec<char>>> = Vec::new();
                rs.push(rec);
                proof {
                    assert(rows_view(rs@) =~= seq![recv]);
                }
                Option::Some(rs)
            } else if s[j] == '\n' {
                match exec_records(s, j + 1) {
                    Option::Some(rest) => {
                        let ghost rest0 = rest@;
                        let ghost recv = fields_view(rec@);
                        let mut rs = rest;
                        rs.insert(0, rec);
                        proof {
                            assert(rows_view(rs@) =~= seq![recv] + rows_view(rest0));
                        }
                        Option::Some(rs)
                    },
                    Option::None => Option::None,
                }
            } else if s[j] == '\r' && s.len() - j > 1 && s[j + 1] == '\n' {
                match exec_records(s, j + 2) {
                    Option::Some(rest) => {
                        let ghost rest0 = rest@;
                        let ghost recv = fields_view(rec@);
                        let mut rs = rest;
                        rs.insert(0, rec);
                        proof {
                            assert(rows_view(rs@) =~= seq![recv] + rows_view(rest0));
                        }
                        Option::Some(rs)
                    },
                    Option::None => Option::None,
                }
            } else {
                Option::None
            }
        },
    }
}

/// Whether two character vectors hold the same characters.
fn chars_eq(a: &Vec<char>, b: &Vec<char>) -> (r: bool)
    ensures
        r == (a@ == b@),
{
    if a.len() != b.len() {
        return false;
    }
    let mut t: usize = 0;
    while t < a.len()
        invariant
            t <= a@.len(),
            a@.len() == b@.len(),
            forall|i: int| 0 <= i < t ==> a@[i] == b@[i],
        decreases a@.len() - t,
    {
        if a[t] != b[t] {
            return false;
        }
        t = t + 1;
    }
    proof {
        assert(a@ =~= b@);
    }
    true
}

/// Finds the first column with the given name.
fn exec_find(hdr: &Vec<Vec<char>>, name: &Vec<char>) -> (r: Option<usize>)
    ensures
        match r {
            Option::Some(k) => k < hdr@.len() && find_from(fields_view(hdr@), name@, 0)
                == Option::Some(k as int),
            Option::None => find_from(fields_view(hdr@), name@, 0) is None,
        },
{
    let ghost hv = fields_view(hdr@);
    let mut k: usize = 0;
    loop
        invariant
            k <= hdr@.len(),
            hv == fields_view(hdr@),
            hv.len() == hdr@.len(),
            forall|i: int| 0 <= i < hdr@.len() ==> hv[i] == hdr@[i]@,
            find_from(hv, name@, 0) == find_from(hv, name@, k as int),
        decreases hdr@.len() - k,
    {
        if k >= hdr.len() {
            return Option::None;
        }
        if chars_eq(&hdr[k], name) {
            return Option::Some(k);
        }
        k = k + 1;
    }
}

/// Reads the whole input text: the `(name, domain)` pairs of its data
/// rows, or the malformed-input error naming the first row that cannot be
/// read (row zero standing for a text that is no table at all).
#[verifier::loop_isolation(false)]
pub fn parse_input(text: &str) -> (r: Result<Vec<InputRecord>, PipelineError>)
    ensures
        match r {
            Result::Ok(v) => input_outcome(text@) == InputOutcome::Rows(recs_view(v@)),
            Result::Err(e) => match input_outcome(text@) {
                InputOutcome::BadSyntax => e == PipelineError::MalformedInput(0),
                InputOutcome::BadRow(k) => e == PipelineError::MalformedInput(k as usize),
                InputOutcome::Rows(_) => false,
            },
        },
{
    let s = crate::text::to_chars(text);
    let rows = match exec_records(&s, 0) {
        Option::Some(rs) => rs,
        Option::None => {
            return Result::Err(PipelineError::MalformedInput(0));
        },
    };
    if rows.len() <= 1 {
        let out: Vec<InputRecord> = Vec::new();
        proof {
            assert(recs_view(out@) =~= Seq::<(Seq<char>, Seq<char>)>::empty());
        }
        return Result::Ok(out);
    }
    let ghost rv = rows_view(rows@);
    let name_lit = crate::text::to_chars("name");
    let domain_lit = crate::text::to_chars("domain");
    let hdr = &rows[0];
    let ni = match exec_find(hdr, &name_lit) {
        Option::Some(k) => k,
        Option::None => {
            return Result::Err(PipelineError::MalformedInput(1));
        },
    };
    let di = match exec_find(hdr, &domain_lit) {
        Option::Some(k) => k,
        Option::None => {
            return Result::Err(PipelineError::MalformedInput(1));
        },
    };
    let ncols = hdr.len();
    proof {
        assert(rv[0] == fields_view(rows@[0]@));
        assert(rv[0].len() == rows@[0]@.len());
    }
    let mut out: Vec<InputRecord> = Vec::new();
    let mut k: usize = 1;
    while k < rows.len()
        invariant
            1 <= k && k <= rows@.len(),
            first_bad(rv, rv[0].len() as int, 1) == first_bad(rv, rv[0].len() as int, k as int),
            out@.len() == k - 1,
            forall|t: int|
                0 <= t < out@.len() ==> (#[trigger] out@[t].name@) == rv[t + 1][ni as int]
                    && out@[t].domain@ == rv[t + 1][di as int],
        decreases rows@.len() - k,
    {
        proof {
            assert(rv[k as int] == fields_view(rows@[k as int]@));
            assert(rv[k as int].len() == rows@[k as int]@.len());
        }
        if rows[k].len() != ncols {
            proof {
                assert(first_bad(rv, rv[0].len() as int, k as int) == Option::Some(k as int));
            }
            return Result::Err(PipelineError::MalformedInput(k));
        }
        let name = chars_to_string(&rows[k][ni]);
        let domain = chars_to_string(&rows[k][di]);
        proof {
            assert(rv[k as int][ni as int] == rows@[k as int]@[ni as int]@);
            assert(rv[k as int][di as int] == rows@[k as int]@[di as int]@);
        }
        out.push(InputRecord { name, domain });
        k = k + 1;
    }
    proof {
        let target = Seq::new(
            (rv.len() - 1) as nat,
            |t: int| (rv[t + 1][ni as int], rv[t + 1][di as int]),
        );
        assert(recs_view(out@).len() == target.len());
        assert forall|t: int| 0 <= t < target.len() implies recs_view(out@)[t] == target[t] by {
            assert(out@[t].name@ == rv[t + 1][ni as int]);
            assert(out@[t].domain@ == rv[t + 1][di as int]);
        }
        assert(recs_view(out@) =~= target);
    }
    Result::Ok(out)
}

} // verus!
