//! The JSON grammar of the response body. `parse_json` gives the meaning of
//! a character sequence as a JSON document; `parse_document` is the runtime
//! parser, proved to return exactly that meaning. Numbers are kept as their
//! lexeme and only read as integers where the schema asks for one.

use vstd::prelude::*;

verus! {

/// The mathematical JSON value: what a parsed document denotes.
pub enum JsonV {
    Null,
    Bool(bool),
    /// A number, kept as its lexeme.
    Num(Seq<char>),
    Text(Seq<char>),
    Arr(Seq<JsonV>),
    Obj(Seq<(Seq<char>, JsonV)>),
}

/// The runtime JSON value.
pub enum Json {
    Null,
    Bool(bool),
    /// A number, kept as its lexeme.
    Num(Vec<char>),
    Text(String),
    Arr(Vec<Json>),
    Obj(Vec<(String, Json)>),
}

/// The meaning of a sequence of runtime values.
pub open spec fn jview_seq(a: Seq<Json>) -> Seq<JsonV>
    decreases a,
    via jview_seq_dec
{
    if a.len() == 0 {
        Seq::<JsonV>::empty()
    } else {
        seq![jview(a[0])] + jview_seq(a.subrange(1, a.len() as int))
    }
}

/// The meaning of a sequence of runtime members.
pub open spec fn jview_members(m: Seq<(String, Json)>) -> Seq<(Seq<char>, JsonV)>
    decreases m,
    via jview_members_dec
{
    if m.len() == 0 {
        Seq::<(Seq<char>, JsonV)>::empty()
    } else {
        seq![(m[0].0@, jview(m[0].1))] + jview_members(m.subrange(1, m.len() as int))
    }
}

/// The meaning of a runtime value.
pub open spec fn jview(j: Json) -> JsonV
    decreases j,
    via jview_dec
{
    match j {
        Json::Null => JsonV::Null,
        Json::Bool(b) => JsonV::Bool(b),
        Json::Num(l) => JsonV::Num(l@),
        Json::Text(s) => JsonV::Text(s@),
        Json::Arr(a) => JsonV::Arr(jview_seq(a@)),
        Json::Obj(m) => JsonV::Obj(jview_members(m@)),
    }
}

#[via_fn]
proof fn jview_dec(j: Json) {
    match j {
        Json::Arr(a) => {
            assert(decreases_to!(j => a));
            vstd::std_specs::vec::axiom_vec_decreases_to_view(a);
        },
        Json::Obj(m) => {
            assert(decreases_to!(j => m));
            vstd::std_specs::vec::axiom_vec_decreases_to_view(m);
        },
        _ => {},
    }
}

#[via_fn]
proof fn jview_seq_dec(a: Seq<Json>) {
    if a.len() != 0 {
        vstd::seq::axiom_seq_index_decreases(a, 0);
        vstd::seq::axiom_seq_subrange_decreases(a, 1, a.len() as int);
    }
}

#[via_fn]
proof fn jview_members_dec(m: Seq<(String, Json)>) {
    if m.len() != 0 {
        vstd::seq::axiom_seq_index_decreases(m, 0);
        assert(decreases_to!(m[0] => m[0].1));
        vstd::seq::axiom_seq_subrange_decreases(m, 1, m.len() as int);
    }
}

/// The length and the entries of `jview_seq`, element by element.
pub proof fn lemma_jview_seq(a: Seq<Json>)
    ensures
        jview_seq(a).len() == a.len(),
        forall|i: int| 0 <= i < a.len() ==> jview_seq(a)[i] == jview(a[i]),
    decreases a.len(),
{
    if a.len() != 0 {
        lemma_jview_seq(a.subrange(1, a.len() as int));
        assert forall|i: int| 0 <= i < a.len() implies jview_seq(a)[i] == jview(a[i]) by {
            if i > 0 {
                assert(a.subrange(1, a.len() as int)[i - 1] == a[i]);
            }
        }
    }
}

/// The length and the entries of `jview_members`, member by member.
pub proof fn lemma_jview_members(m: Seq<(String, Json)>)
    ensures
        jview_members(m).len() == m.len(),
        forall|i: int|
            0 <= i < m.len() ==> jview_members(m)[i] == (m[i].0@, jview(m[i].1)),
    decreases m.len(),
{
    if m.len() != 0 {
        lemma_jview_members(m.subrange(1, m.len() as int));
        assert forall|i: int|
            0 <= i < m.len() implies jview_members(m)[i] == (m[i].0@, jview(m[i].1)) by {
            if i > 0 {
                assert(m.subrange(1, m.len() as int)[i - 1] == m[i]);
            }
        }
    }
}

/// JSON insignificant whitespace.
pub open spec fn is_ws(c: char) -> bool {
    c == ' ' || c == '\t' || c == '\n' || c == '\r'
}

/// The first index at or after `i` holding no whitespace.
pub open spec fn skip_ws(s: Seq<char>, i: int) -> int
    decreases s.len() - i,
{
    if 0 <= i && i < s.len() && is_ws(s[i]) {
        skip_ws(s, i + 1)
    } else {
        i
    }
}

/// A decimal digit.
pub open spec fn is_digit(c: char) -> bool {
    48 <= c as u32 && c as u32 <= 57
}

/// The first index at or after `i` holding no decimal digit.
pub open spec fn skip_digits(s: Seq<char>, i: int) -> int
    decreases s.len() - i,
{
    if 0 <= i && i < s.len() && is_digit(s[i]) {
        skip_digits(s, i + 1)
    } else {
        i
    }
}

/// The value of one hexadecimal digit.
pub open spec fn hex_val(c: char) -> Option<u32> {
    let u = c as u32;
    if 48 <= u && u <= 57 {
        Option::Some((u - 48) as u32)
    } else if 97 <= u && u <= 102 {
        Option::Some((u - 87) as u32)
    } else if 65 <= u && u <= 70 {
        Option::Some((u - 55) as u32)
    } else {
        Option::None
    }
}

/// The value of the four hexadecimal digits at `i`.
pub open spec fn hex4(s: Seq<char>, i: int) -> Option<u32> {
    if 0 <= i && i + 4 <= s.len() {
        match (hex_val(s[i]), hex_val(s[i + 1]), hex_val(s[i + 2]), hex_val(s[i + 3])) {
            (
                Option::Some(a),
                Option::Some(b),
                Option::Some(c),
                Option::Some(d),
            ) => Option::Some((a * 0x1000 + b * 0x100 + c * 0x10 + d) as u32),
            _ => Option::None,
        }
    } else {
        Option::None
    }
}

/// The character denoted by a one-letter escape, if any.
pub open spec fn esc_of(c: char) -> Option<char> {
    if c == '"' {
        Option::Some('"')
    } else if c == '\\' {
        Option::Some('\\')
    } else if c == '/' {
        Option::Some('/')
    } else if c == 'b' {
        Option::Some('\u{0008}')
    } else if c == 'f' {
        Option::Some('\u{000C}')
    } else if c == 'n' {
        Option::Some('\n')
    } else if c == 'r' {
        Option::Some('\r')
    } else if c == 't' {
        Option::Some('\t')
    } else {
        Option::None
    }
}

/// Parses a string body starting right after the opening quote: the decoded
/// characters and the index after the closing quote. Surrogate escape pairs
/// denote one character; a lone surrogate escape or a bare control
/// character is refused.
pub open spec fn parse_string_body(s: Seq<char>, i: int) -> Option<(Seq<char>, int)>
    decreases s.len() - i,
{
    if !(0 <= i && i < s.len()) {
        Option::None
    } else if s[i] == '"' {
        Option::Some((Seq::<char>::empty(), i + 1))
    } else if s[i] == '\\' {
        if i + 1 < s.len() {
            let e = s[i + 1];
            if e == 'u' {
                if i + 5 < s.len() {
                    match hex4(s, i + 2) {
                        Option::Some(u) => {
                            if 0xD800 <= u && u < 0xDC00 {
                                if i + 11 < s.len() && s[i + 6] == '\\' && s[i + 7] == 'u' {
                                    match hex4(s, i + 8) {
                                        Option::Some(u2) => {
                                            if 0xDC00 <= u2 && u2 < 0xE000 {
                                                let code = 0x10000 + (u - 0xD800) * 0x400 + (u2
                                                    - 0xDC00);
                                                match parse_string_body(s, i + 12) {
                                                    Option::Some(
                                                        (rest, j),
                                                    ) => Option::Some(
                                                        (seq![(code as u32) as char] + rest, j),
                                                    ),
                                                    Option::None => Option::None,
                                                }
                                            } else {
                                                Option::None
                                            }
                                        },
                                        Option::None => Option::None,
                                    }
                                } else {
                                    Option::None
                                }
                            } else if 0xDC00 <= u && u < 0xE000 {
                                Option::None
                            } else {
                                match parse_string_body(s, i + 6) {
                                    Option::Some((rest, j)) => Option::Some((seq![u as char] + rest, j)),
                                    Option::None => Option::None,
                                }
                            }
                        },
                        Option::None => Option::None,
                    }
                } else {
                    Option::None
                }
            } else {
                match esc_of(e) {
                    Option::Some(c) => match parse_string_body(s, i + 2) {
                        Option::Some((rest, j)) => Option::Some((seq![c] + rest, j)),
                        Option::None => Option::None,
                    },
                    Option::None => Option::None,
                }
            }
        } else {
            Option::None
        }
    } else if (s[i] as u32) < 0x20 {
        Option::None
    } else {
        match parse_string_body(s, i + 1) {
            Option::Some((rest, j)) => Option::Some((seq![s[i]] + rest, j)),
            Option::None => Option::None,
        }
    }
}

/// Parses a number at `i`: its lexeme and the index after it. The grammar
/// is the JSON one: an optional sign, an integer part with no leading zero,
/// an optional fraction and an optional exponent.
pub open spec fn parse_number(s: Seq<char>, i: int) -> Option<(Seq<char>, int)> {
    let i1 = if 0 <= i && i < s.len() && s[i] == '-' {
        i + 1
    } else {
        i
    };
    if !(0 <= i1 && i1 < s.len() && is_digit(s[i1])) {
        Option::None
    } else {
        let i2 = if s[i1] == '0' {
            i1 + 1
        } else {
            skip_digits(s, i1)
        };
        let i3 = if i2 < s.len() && s[i2] == '.' {
            if i2 + 1 < s.len() && is_digit(s[i2 + 1]) {
                skip_digits(s, i2 + 1)
            } else {
                -1
            }
        } else {
            i2
        };
        if i3 < 0 {
            Option::None
        } else {
            let i4 = if i3 < s.len() && (s[i3] == 'e' || s[i3] == 'E') {
                let i3b = if i3 + 1 < s.len() && (s[i3 + 1] == '+' || s[i3 + 1] == '-') {
                    i3 + 2
                } else {
                    i3 + 1
                };
                if i3b < s.len() && is_digit(s[i3b]) {
                    skip_digits(s, i3b)
                } else {
                    -1
                }
            } else {
                i3
            };
            if i4 < 0 {
                Option::None
            } else {
                Option::Some((s.subrange(i, i4), i4))
            }
        }
    }
}

/// Parses one value at `i` (no leading whitespace): the value and the index
/// after it.
pub open spec fn parse_value(s: Seq<char>, i: int) -> Option<(JsonV, int)>
    decreases s.len() - i, 0int,
{
    if !(0 <= i && i < s.len()) {
        Option::None
    } else {
        let c = s[i];
        if c == 'n' {
            if i + 4 <= s.len() && s[i + 1] == 'u' && s[i + 2] == 'l' && s[i + 3] == 'l' {
                Option::Some((JsonV::Null, i + 4))
            } else {
                Option::None
            }
        } else if c == 't' {
            if i + 4 <= s.len() && s[i + 1] == 'r' && s[i + 2] == 'u' && s[i + 3] == 'e' {
                Option::Some((JsonV::Bool(true), i + 4))
            } else {
                Option::None
            }
        } else if c == 'f' {
            if i + 5 <= s.len() && s[i + 1] == 'a' && s[i + 2] == 'l' && s[i + 3] == 's' && s[i + 4]
                == 'e' {
                Option::Some((JsonV::Bool(false), i + 5))
            } else {
                Option::None
            }
        } else if c == '"' {
            match parse_string_body(s, i + 1) {
                Option::Some((cs, j)) => Option::Some((JsonV::Text(cs), j)),
                Option::None => Option::None,
            }
        } else if c == '[' {
            let j = skip_ws(s, i + 1);
            if 0 <= j && j < s.len() && s[j] == ']' {
                Option::Some((JsonV::Arr(Seq::<JsonV>::empty()), j + 1))
            } else if i < j && j <= s.len() {
                match parse_elements(s, j) {
                    Option::Some((vs, k)) => Option::Some((JsonV::Arr(vs), k)),
                    Option::None => Option::None,
                }
            } else {
                Option::None
            }
        } else if c == '{' {
            let j = skip_ws(s, i + 1);
            if 0 <= j && j < s.len() && s[j] == '}' {
                Option::Some((JsonV::Obj(Seq::<(Seq<char>, JsonV)>::empty()), j + 1))
            } else if i < j && j <= s.len() {
                match parse_members(s, j) {
                    Option::Some((ms, k)) => Option::Some((JsonV::Obj(ms), k)),
                    Option::None => Option::None,
                }
            } else {
                Option::None
            }
        } else if c == '-' || is_digit(c) {
            match parse_number(s, i) {
                Option::Some((lex, j)) => Option::Some((JsonV::Num(lex), j)),
                Option::None => Option::None,
            }
        } else {
            Option::None
        }
    }
}

/// Parses the elements of a non-empty array, the first starting at `i`:
/// the element values and the index after the closing bracket.
pub open spec fn parse_elements(s: Seq<char>, i: int) -> Option<(Seq<JsonV>, int)>
    decreases s.len() - i, 1int,
{
    match parse_value(s, i) {
        Option::None => Option::None,
        Option::Some((v, j)) => {
            let j2 = skip_ws(s, j);
            if 0 <= j2 && j2 < s.len() {
                if s[j2] == ']' {
                    Option::Some((seq![v], j2 + 1))
                } else if s[j2] == ',' {
                    let k = skip_ws(s, j2 + 1);
                    if i < k && k <= s.len() {
                        match parse_elements(s, k) {
                            Option::Some((rest, e)) => Option::Some((seq![v] + rest, e)),
                            Option::None => Option::None,
                        }
                    } else {
                        Option::None
                    }
                } else {
                    Option::None
                }
            } else {
                Option::None
            }
        },
    }
}

/// Parses the members of a non-empty object, the first key starting at
/// `i`: the members in document order and the index after the closing
/// brace.
pub open spec fn parse_members(s: Seq<char>, i: int) -> Option<(Seq<(Seq<char>, JsonV)>, int)>
    decreases s.len() - i, 1int,
{
    if !(0 <= i && i < s.len() && s[i] == '"') {
        Option::None
    } else {
        match parse_string_body(s, i + 1) {
            Option::None => Option::None,
            Option::Some((key, j)) => {
                let j2 = skip_ws(s, j);
                if 0 <= j2 && j2 < s.len() && s[j2] == ':' {
                    let j3 = skip_ws(s, j2 + 1);
                    if i < j3 && j3 <= s.len() {
                        match parse_value(s, j3) {
                            Option::None => Option::None,
                            Option::Some((v, k)) => {
                                let k2 = skip_ws(s, k);
                                if 0 <= k2 && k2 < s.len() {
                                    if s[k2] == '}' {
                                        Option::Some((seq![(key, v)], k2 + 1))
                                    } else if s[k2] == ',' {
                                        let m = skip_ws(s, k2 + 1);
                                        if i < m && m <= s.len() {
                                            match parse_members(s, m) {
                                                Option::Some(
                                                    (rest, e),
                                                ) => Option::Some((seq![(key, v)] + rest, e)),
                                                Option::None => Option::None,
                                            }
                                        } else {
                                            Option::None
                                        }
                                    } else {
                                        Option::None
                                    }
                                } else {
                                    Option::None
                                }
                            },
                        }
                    } else {
                        Option::None
                    }
                } else {
                    Option::None
                }
            },
        }
    }
}

/// The meaning of a whole document: one value, surrounded by whitespace
/// only.
pub open spec fn parse_json(s: Seq<char>) -> Option<JsonV> {
    let i = skip_ws(s, 0);
    match parse_value(s, i) {
        Option::Some((v, j)) => if skip_ws(s, j) == s.len() {
            Option::Some(v)
        } else {
            Option::None
        },
        Option::None => Option::None,
    }
}

fn exec_skip_ws(s: &Vec<char>, i: usize) -> (j: usize)
    requires
        i <= s@.len(),
    ensures
        i <= j && j <= s@.len(),
        j as int == skip_ws(s@, i as int),
{
    let mut j = i;
    loop
        invariant
            i <= j && j <= s@.len(),
            skip_ws(s@, i as int) == skip_ws(s@, j as int),
        ensures
            i <= j && j <= s@.len(),
            skip_ws(s@, i as int) == skip_ws(s@, j as int),
            j == s@.len() || !is_ws(s@[j as int]),
        decreases s@.len() - j,
    {
        if j < s.len() {
            let c = s[j];
            if c == ' ' || c == '\t' || c == '\n' || c == '\r' {
                j = j + 1;
            } else {
                break ;
            }
        } else {
            break ;
        }
    }
    j
}

fn exec_skip_digits(s: &Vec<char>, i: usize) -> (j: usize)
    requires
        i <= s@.len(),
    ensures
        i <= j && j <= s@.len(),
        j as int == skip_digits(s@, i as int),
{
    let mut j = i;
    loop
        invariant
            i <= j && j <= s@.len(),
            skip_digits(s@, i as int) == skip_digits(s@, j as int),
        ensures
            i <= j && j <= s@.len(),
            skip_digits(s@, i as int) == skip_digits(s@, j as int),
            j == s@.len() || !is_digit(s@[j as int]),
        decreases s@.len() - j,
    {
        if j < s.len() {
            let u = s[j] as u32;
            if 48 <= u && u <= 57 {
                j = j + 1;
            } else {
                break ;
            }
        } else {
            break ;
        }
    }
    j
}

fn exec_hex_val(c: char) -> (r: Option<u32>)
    ensures
        r == hex_val(c),
{
    let u = c as u32;
    if 48 <= u && u <= 57 {
        Option::Some(u - 48)
    } else if 97 <= u && u <= 102 {
        Option::Some(u - 87)
    } else if 65 <= u && u <= 70 {
        Option::Some(u - 55)
    } else {
        Option::None
    }
}

fn exec_hex4(s: &Vec<char>, i: usize) -> (r: Option<u32>)
    requires
        i <= s@.len(),
    ensures
        r == hex4(s@, i as int),
{
    if s.len() - i >= 4 {
        let a = exec_hex_val(s[i]);
        let b = exec_hex_val(s[i + 1]);
        let c = exec_hex_val(s[i + 2]);
        let d = exec_hex_val(s[i + 3]);
        match (a, b, c, d) {
            (Option::Some(a), Option::Some(b), Option::Some(c), Option::Some(d)) => {
                proof {
                    assert(a <= 15 && b <= 15 && c <= 15 && d <= 15);
                }
                Option::Some(a * 0x1000 + b * 0x100 + c * 0x10 + d)
            },
            _ => Option::None,
        }
    } else {
        Option::None
    }
}

/// Copies the characters of `s` between `a` and `b`.
fn subvec(s: &Vec<char>, a: usize, b: usize) -> (v: Vec<char>)
    requires
        a <= b && b <= s@.len(),
    ensures
        v@ == s@.subrange(a as int, b as int),
{
    let mut v: Vec<char> = Vec::new();
    let mut k = a;
    while k < b
        invariant
            a <= k && k <= b && b <= s@.len(),
            v@ == s@.subrange(a as int, k as int),
        decreases b - k,
    {
        v.push(s[k]);
        proof {
            assert(v@ =~= s@.subrange(a as int, k as int + 1));
        }
        k = k + 1;
    }
    v
}

/// Parses a string body at runtime, mirroring `parse_string_body`.
fn exec_string_body(s: &Vec<char>, i: usize) -> (r: Option<(Vec<char>, usize)>)
    requires
        i <= s@.len(),
    ensures
        match r {
            Option::Some((cs, j)) => parse_string_body(s@, i as int) == Option::Some(
                (cs@, j as int),
            ) && i < j && j <= s@.len(),
            Option::None => parse_string_body(s@, i as int) is None,
        },
    decreases s@.len() - i,
{
    if i >= s.len() {
        return Option::None;
    }
    let c = s[i];
    if c == '"' {
        let cs: Vec<char> = Vec::new();
        proof {
            assert(cs@ =~= Seq::<char>::empty());
        }
        return Option::Some((cs, i + 1));
    }
    if c == '\\' {
        if s.len() - i <= 1 {
            return Option::None;
        }
        let e = s[i + 1];
        if e == 'u' {
            if s.len() - i <= 5 {
                return Option::None;
            }
            match exec_hex4(s, i + 2) {
                Option::None => Option::None,
                Option::Some(u) => {
                    if 0xD800 <= u && u < 0xDC00 {
                        if s.len() - i > 11 && s[i + 6] == '\\' && s[i + 7] == 'u' {
                            match exec_hex4(s, i + 8) {
                                Option::None => Option::None,
                                Option::Some(u2) => {
                                    if 0xDC00 <= u2 && u2 < 0xE000 {
                                        let code: u32 = 0x10000 + (u - 0xD800) * 0x400 + (u2
                                            - 0xDC00);
                                        let ch = match crate::text::char_from_u32(code) {
                                            Option::Some(ch) => ch,
                                            Option::None => vstd::pervasive::unreached(),
                                        };
                                        proof {
                                            vstd::utf8::char_u32_cast(ch, code);
                                        }
                                        match exec_string_body(s, i + 12) {
                                            Option::None => Option::None,
                                            Option::Some((rest, j)) => {
                                                let mut cs = rest;
                                                cs.insert(0, ch);
                                                proof {
                                                    assert(cs@ =~= seq![(code as u32) as char]
                                                        + cs@.subrange(1, cs@.len() as int));
                                                }
                                                Option::Some((cs, j))
                                            },
                                        }
                                    } else {
                                        Option::None
                                    }
                                },
                            }
                        } else {
                            Option::None
                        }
                    } else if 0xDC00 <= u && u < 0xE000 {
                        Option::None
                    } else {
                        let ch = match crate::text::char_from_u32(u) {
                            Option::Some(ch) => ch,
                            Option::None => vstd::pervasive::unreached(),
                        };
                        proof {
                            vstd::utf8::char_u32_cast(ch, u);
                        }
                        match exec_string_body(s, i + 6) {
                            Option::None => Option::None,
                            Option::Some((rest, j)) => {
                                let mut cs = rest;
                                cs.insert(0, ch);
                                proof {
                                    assert(cs@ =~= seq![u as char] + cs@.subrange(
                                        1,
                                        cs@.len() as int,
                                    ));
                                }
                                Option::Some((cs, j))
                            },
                        }
                    }
                },
            }
        } else {
            let dec = if e == '"' {
                Option::Some('"')
            } else if e == '\\' {
                Option::Some('\\')
            } else if e == '/' {
                Option::Some('/')
            } else if e == 'b' {
                Option::Some('\u{0008}')
            } else if e == 'f' {
                Option::Some('\u{000C}')
            } else if e == 'n' {
                Option::Some('\n')
            } else if e == 'r' {
                Option::Some('\r')
            } else if e == 't' {
                Option::Some('\t')
            } else {
                Option::None
            };
            proof {
                assert(dec == esc_of(e));
            }
            match dec {
                Option::None => Option::None,
                Option::Some(ch) => match exec_string_body(s, i + 2) {
                    Option::None => Option::None,
                    Option::Some((rest, j)) => {
                        let mut cs = rest;
                        cs.insert(0, ch);
                        proof {
                            assert(cs@ =~= seq![ch] + cs@.subrange(1, cs@.len() as int));
                        }
                        Option::Some((cs, j))
                    },
                },
            }
        }
    } else if (c as u32) < 0x20 {
        Option::None
    } else {
        match exec_string_body(s, i + 1) {
            Option::None => Option::None,
            Option::Some((rest, j)) => {
                let mut cs = rest;
                cs.insert(0, c);
                proof {
                    assert(cs@ =~= seq![c] + cs@.subrange(1, cs@.len() as int));
                }
                Option::Some((cs, j))
            },
        }
    }
}

/// Parses a number at runtime, mirroring `parse_number`.
fn exec_number(s: &Vec<char>, i: usize) -> (r: Option<(Vec<char>, usize)>)
    requires
        i <= s@.len(),
    ensures
        match r {
            Option::Some((lex, j)) => parse_number(s@, i as int) == Option::Some(
                (lex@, j as int),
            ) && i <= j && j <= s@.len(),
            Option::None => parse_number(s@, i as int) is None,
        },
{
    let i1 = if i < s.len() && s[i] == '-' {
        i + 1
    } else {
        i
    };
    if i1 >= s.len() {
        return Option::None;
    }
    let first = s[i1] as u32;
    if !(48 <= first && first <= 57) {
        return Option::None;
    }
    let i2 = if s[i1] == '0' {
        i1 + 1
    } else {
        exec_skip_digits(s, i1)
    };
    let i3: usize;
    if i2 < s.len() && s[i2] == '.' {
        if s.len() - i2 > 1 {
            let u = s[i2 + 1] as u32;
            if 48 <= u && u <= 57 {
                i3 = exec_skip_digits(s, i2 + 1);
            } else {
                return Option::None;
            }
        } else {
            return Option::None;
        }
    } else {
        i3 = i2;
    }
    let i4: usize;
    if i3 < s.len() && (s[i3] == 'e' || s[i3] == 'E') {
        let i3b: usize;
        if s.len() - i3 > 1 && (s[i3 + 1] == '+' || s[i3 + 1] == '-') {
            i3b = i3 + 2;
        } else {
            i3b = i3 + 1;
        }
        if i3b < s.len() {
            let u = s[i3b] as u32;
            if 48 <= u && u <= 57 {
                i4 = exec_skip_digits(s, i3b);
            } else {
                return Option::None;
            }
        } else {
            return Option::None;
        }
    } else {
        i4 = i3;
    }
    let lex = subvec(s, i, i4);
    Option::Some((lex, i4))
}

/// Parses one value at runtime, mirroring `parse_value`.
fn exec_value(s: &Vec<char>, i: usize) -> (r: Option<(Json, usize)>)
    requires
        i <= s@.len(),
    ensures
        match r {
            Option::Some((v, j)) => parse_value(s@, i as int) == Option::Some(
                (jview(v), j as int),
            ) && j <= s@.len(),
            Option::None => parse_value(s@, i as int) is None,
        },
    decreases s@.len() - i, 0int,
{
    if i >= s.len() {
        return Option::None;
    }
    let c = s[i];
    if c == 'n' {
        if s.len() - i >= 4 && s[i + 1] == 'u' && s[i + 2] == 'l' && s[i + 3] == 'l' {
            Option::Some((Json::Null, i + 4))
        } else {
            Option::None
        }
    } else if c == 't' {
        if s.len() - i >= 4 && s[i + 1] == 'r' && s[i + 2] == 'u' && s[i + 3] == 'e' {
            Option::Some((Json::Bool(true), i + 4))
        } else {
            Option::None
        }
    } else if c == 'f' {
        if s.len() - i >= 5 && s[i + 1] == 'a' && s[i + 2] == 'l' && s[i + 3] == 's' && s[i + 4]
            == 'e' {
            Option::Some((Json::Bool(false), i + 5))
        } else {
            Option::None
        }
    } else if c == '"' {
        match exec_string_body(s, i + 1) {
            Option::Some((cs, j)) => {
                let t = crate::text::chars_to_string(&cs);
                Option::Some((Json::Text(t), j))
            },
            Option::None => Option::None,
        }
    } else if c == '[' {
        let j = exec_skip_ws(s, i + 1);
        if j < s.len() && s[j] == ']' {
            let a: Vec<Json> = Vec::new();
            proof {
                assert(jview_seq(a@) =~= Seq::<JsonV>::empty());
            }
            Option::Some((Json::Arr(a), j + 1))
        } else {
            match exec_elements(s, j) {
                Option::Some((vs, k)) => Option::Some((Json::Arr(vs), k)),
                Option::None => Option::None,
            }
        }
    } else if c == '{' {
        let j = exec_skip_ws(s, i + 1);
        if j < s.len() && s[j] == '}' {
            let m: Vec<(String, Json)> = Vec::new();
            proof {
                assert(jview_members(m@) =~= Seq::<(Seq<char>, JsonV)>::empty());
            }
            Option::Some((Json::Obj(m), j + 1))
        } else {
            match exec_members(s, j) {
                Option::Some((ms, k)) => Option::Some((Json::Obj(ms), k)),
                Option::None => Option::None,
            }
        }
    } else {
        let u = c as u32;
        if c == '-' || (48 <= u && u <= 57) {
            match exec_number(s, i) {
                Option::Some((lex, j)) => Option::Some((Json::Num(lex), j)),
                Option::None => Option::None,
            }
        } else {
            Option::None
        }
    }
}

/// Parses the elements of a non-empty array at runtime, mirroring
/// `parse_elements`.
fn exec_elements(s: &Vec<char>, i: usize) -> (r: Option<(Vec<Json>, usize)>)
    requires
        i <= s@.len(),
    ensures
        match r {
            Option::Some((vs, j)) => parse_elements(s@, i as int) == Option::Some(
                (jview_seq(vs@), j as int),
            ) && j <= s@.len(),
            Option::None => parse_elements(s@, i as int) is None,
        },
    decreases s@.len() - i, 1int,
{
    match exec_value(s, i) {
        Option::None => Option::None,
        Option::Some((v, j)) => {
            let j2 = exec_skip_ws(s, j);
            if j2 < s.len() {
                let c = s[j2];
                if c == ']' {
                    let mut vs: Vec<Json> = Vec::new();
                    vs.push(v);
                    proof {
                        assert(vs@.subrange(1, vs@.len() as int) =~= Seq::<Json>::empty());
                        assert(jview_seq(vs@.subrange(1, vs@.len() as int)) =~= Seq::<
                            JsonV,
                        >::empty());
                        assert(jview_seq(vs@) =~= seq![jview(v)]);
                    }
                    Option::Some((vs, j2 + 1))
                } else if c == ',' {
                    let k = exec_skip_ws(s, j2 + 1);
                    if k > i {
                        match exec_elements(s, k) {
                            Option::None => Option::None,
                            Option::Some((rest, e)) => {
                                let ghost rest0 = rest@;
                                let mut vs = rest;
                                vs.insert(0, v);
                                proof {
                                    assert(vs@ =~= seq![v] + rest0);
                                    assert(vs@.subrange(1, vs@.len() as int) =~= rest0);
                                    assert(jview_seq(vs@) =~= seq![jview(v)] + jview_seq(rest0));
                                }
                                Option::Some((vs, e))
                            },
                        }
                    } else {
                        Option::None
                    }
                } else {
                    Option::None
                }
            } else {
                Option::None
            }
        },
    }
}

/// Parses the members of a non-empty object at runtime, mirroring
/// `parse_members`.
fn exec_members(s: &Vec<char>, i: usize) -> (r: Option<(Vec<(String, Json)>, usize)>)
    requires
        i <= s@.len(),
    ensures
        match r {
            Option::Some((ms, j)) => parse_members(s@, i as int) == Option::Some(
                (jview_members(ms@), j as int),
            ) && j <= s@.len(),
            Option::None => parse_members(s@, i as int) is None,
        },
    decreases s@.len() - i, 1int,
{
    if !(i < s.len() && s[i] == '"') {
        return Option::None;
    }
    match exec_string_body(s, i + 1) {
        Option::None => Option::None,
        Option::Some((keycs, j)) => {
            let key = crate::text::chars_to_string(&keycs);
            let j2 = exec_skip_ws(s, j);
            if j2 < s.len() && s[j2] == ':' {
                let j3 = exec_skip_ws(s, j2 + 1);
                match exec_value(s, j3) {
                    Option::None => Option::None,
                    Option::Some((v, k)) => {
                        let k2 = exec_skip_ws(s, k);
                        if k2 < s.len() {
                            let c = s[k2];
                            if c == '}' {
                                let mut ms: Vec<(String, Json)> = Vec::new();
                                ms.push((key, v));
                                proof {
                                    assert(ms@.subrange(1, ms@.len() as int) =~= Seq::<
                                        (String, Json),
                                    >::empty());
                                    assert(jview_members(ms@.subrange(1, ms@.len() as int)) =~= Seq::<
                                        (Seq<char>, JsonV),
                                    >::empty());
                                    assert(jview_members(ms@) =~= seq![(keycs@, jview(v))]);
                                }
                                Option::Some((ms, k2 + 1))
                            } else if c == ',' {
                                let m2 = exec_skip_ws(s, k2 + 1);
                                if m2 > i {
                                    match exec_members(s, m2) {
                                        Option::None => Option::None,
                                        Option::Some((rest, e)) => {
                                            let ghost rest0 = rest@;
                                            let mut ms = rest;
                                            ms.insert(0, (key, v));
                                            proof {
                                                assert(ms@ =~= seq![(key, v)] + rest0);
                                                assert(ms@.subrange(1, ms@.len() as int)
                                                    =~= rest0);
                                                assert(jview_members(ms@) =~= seq![
                                                    (keycs@, jview(v)),
                                                ] + jview_members(rest0));
                                            }
                                            Option::Some((ms, e))
                                        },
                                    }
                                } else {
                                    Option::None
                                }
                            } else {
                                Option::None
                            }
                        } else {
                            Option::None
                        }
                    },
                }
            } else {
                Option::None
            }
        },
    }
}

/// Parses a whole document: exactly the meaning `parse_json` gives it.
pub fn parse_document(s: &Vec<char>) -> (r: Option<Json>)
    ensures
        match r {
            Option::Some(j) => parse_json(s@) == Option::Some(jview(j)),
            Option::None => parse_json(s@) is None,
        },
{
    let i = exec_skip_ws(s, 0);
    match exec_value(s, i) {
        Option::None => Option::None,
        Option::Some((v, j)) => {
            let t = exec_skip_ws(s, j);
            if t == s.len() {
                Option::Some(v)
            } else {
                Option::None
            }
        },
    }
}

} // verus!
