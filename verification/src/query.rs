//! The lookup URL: the fixed endpoint with the domain, the credential and
//! the limit as query parameters, each value encoded the form way — ASCII
//! letters, digits and `*-._` kept, a space as `+`, anything else as
//! percent-escaped UTF-8 bytes with upper-case hex digits.

use vstd::prelude::*;

use vstd::utf8::encode_scalar;

use crate::numfmt::dec_rep;
use crate::text::push_char;

verus! {

/// A character that the form encoding keeps as it is.
pub open spec fn unreserved(c: char) -> bool {
    let u = c as u32;
    (48 <= u && u <= 57) || (65 <= u && u <= 90) || (97 <= u && u <= 122) || u == 42 || u == 45
        || u == 46 || u == 95
}

/// The upper-case hex digit for one value below sixteen.
pub open spec fn hex_digit(d: int) -> char
    recommends
        0 <= d < 16,
{
    if d < 10 {
        ('0' as u8 + d as u8) as char
    } else {
        ('A' as u8 + (d - 10) as u8) as char
    }
}

/// The percent escape of one byte.
pub open spec fn enc_byte(b: u8) -> Seq<char> {
    seq!['%', hex_digit(b as int / 16), hex_digit(b as int % 16)]
}

/// The percent escapes of a run of bytes.
pub open spec fn enc_bytes(bs: Seq<u8>) -> Seq<char>
    decreases bs.len(),
{
    if bs.len() == 0 {
        Seq::<char>::empty()
    } else {
        enc_byte(bs[0]) + enc_bytes(bs.drop_first())
    }
}

/// The form encoding of one character.
pub open spec fn enc_char(c: char) -> Seq<char> {
    if unreserved(c) {
        seq![c]
    } else if c == ' ' {
        seq!['+']
    } else {
        enc_bytes(encode_scalar(c as u32))
    }
}

/// The form encoding of a value.
pub open spec fn form_encoded(s: Seq<char>) -> Seq<char>
    decreases s.len(),
{
    if s.len() == 0 {
        Seq::<char>::empty()
    } else {
        enc_char(s[0]) + form_encoded(s.drop_first())
    }
}

/// The whole lookup URL for one domain.
pub open spec fn lookup_url_text(domain: Seq<char>, key: Seq<char>, limit: int) -> Seq<char> {
    "https://api.hunter.io/v2/domain-search?domain="@ + form_encoded(domain) + "&api_key="@
        + form_encoded(key) + "&limit="@ + dec_rep(limit)
}

proof fn lemma_form_encoded_push(s: Seq<char>, c: char)
    ensures
        form_encoded(s.push(c)) == form_encoded(s) + enc_char(c),
    decreases s.len(),
{
    if s.len() == 0 {
        assert(s.push(c) =~= seq![c]);
        assert(seq![c].drop_first() =~= Seq::<char>::empty());
        assert(form_encoded(seq![c].drop_first()) == Seq::<char>::empty());
        assert(form_encoded(seq![c]) =~= enc_char(c));
        assert(form_encoded(s) + enc_char(c) =~= enc_char(c));
    } else {
        assert(s.push(c).drop_first() =~= s.drop_first().push(c));
        assert(s.push(c)[0] == s[0]);
        lemma_form_encoded_push(s.drop_first(), c);
        assert(form_encoded(s.push(c)) == enc_char(s[0]) + (form_encoded(s.drop_first())
            + enc_char(c)));
        assert(enc_char(s[0]) + (form_encoded(s.drop_first()) + enc_char(c)) =~= (enc_char(s[0])
            + form_encoded(s.drop_first())) + enc_char(c));
    }
}

/// Appends the percent escape of one byte.
fn push_pct(out: &mut String, b: u8)
    ensures
        final(out)@ == old(out)@ + enc_byte(b),
{
    push_char(out, '%');
    let hi = b / 16;
    let lo = b % 16;
    let hc: char = if hi < 10 {
        ('0' as u8 + hi) as char
    } else {
        ('A' as u8 + (hi - 10)) as char
    };
    let lc: char = if lo < 10 {
        ('0' as u8 + lo) as char
    } else {
        ('A' as u8 + (lo - 10)) as char
    };
    push_char(out, hc);
    push_char(out, lc);
    proof {
        assert(out@ =~= old(out)@ + enc_byte(b));
    }
}

/// Appends the form encoding of one character.
fn push_enc_char(out: &mut String, c: char)
    ensures
        final(out)@ == old(out)@ + enc_char(c),
{
    let u = c as u32;
    if (48 <= u && u <= 57) || (65 <= u && u <= 90) || (97 <= u && u <= 122) || u == 42 || u == 45
        || u == 46 || u == 95 {
        push_char(out, c);
        proof {
            assert(out@ =~= old(out)@ + enc_char(c));
        }
    } else if c == ' ' {
        push_char(out, '+');
        proof {
            assert(out@ =~= old(out)@ + enc_char(c));
        }
    } else if u <= 0x7F {
        push_pct(out, (u & 0x7F) as u8);
        proof {
            let b0: u8 = (u & 0x7F) as u8;
            let bs = encode_scalar(u);
            assert(bs =~= seq![b0]);
            assert(bs.drop_first() =~= Seq::<u8>::empty());
            assert(enc_bytes(Seq::<u8>::empty()) =~= Seq::<char>::empty());
            assert(enc_bytes(bs) =~= enc_byte(b0) + Seq::<char>::empty());
            assert(out@ =~= old(out)@ + enc_char(c));
        }
    } else if u <= 0x7FF {
        let b0: u8 = 0xC0 | ((u >> 6) & 0x1F) as u8;
        let b1: u8 = 0x80 | (u & 0x3F) as u8;
        push_pct(out, b0);
        push_pct(out, b1);
        proof {
            let bs = encode_scalar(u);
            assert(bs =~= seq![b0, b1]);
            assert(bs.drop_first() =~= seq![b1]);
            assert(seq![b1].drop_first() =~= Seq::<u8>::empty());
            assert(enc_bytes(Seq::<u8>::empty()) =~= Seq::<char>::empty());
            assert(enc_bytes(seq![b1]) =~= enc_byte(b1));
            assert(enc_bytes(bs) =~= enc_byte(b0) + enc_byte(b1));
            assert(out@ =~= old(out)@ + enc_char(c));
        }
    } else if u <= 0xFFFF {
        let b0: u8 = 0xE0 | ((u >> 12) & 0x0F) as u8;
        let b1: u8 = 0x80 | ((u >> 6) & 0x3F) as u8;
        let b2: u8 = 0x80 | (u & 0x3F) as u8;
        push_pct(out, b0);
        push_pct(out, b1);
        push_pct(out, b2);
        proof {
            vstd::utf8::char_is_scalar(c);
            let bs = encode_scalar(u);
            assert(bs =~= seq![b0, b1, b2]);
            assert(bs.drop_first() =~= seq![b1, b2]);
            assert(seq![b1, b2].drop_first() =~= seq![b2]);
            assert(seq![b2].drop_first() =~= Seq::<u8>::empty());
            assert(enc_bytes(Seq::<u8>::empty()) =~= Seq::<char>::empty());
            assert(enc_bytes(seq![b2]) =~= enc_byte(b2));
            assert(enc_bytes(seq![b1, b2]) =~= enc_byte(b1) + enc_byte(b2));
            assert(enc_bytes(bs) =~= enc_byte(b0) + (enc_byte(b1) + enc_byte(b2)));
            assert(out@ =~= old(out)@ + enc_char(c));
        }
    } else {
        let b0: u8 = 0xF0 | ((u >> 18) & 0x7) as u8;
        let b1: u8 = 0x80 | ((u >> 12) & 0x3F) as u8;
        let b2: u8 = 0x80 | ((u >> 6) & 0x3F) as u8;
        let b3: u8 = 0x80 | (u & 0x3F) as u8;
        push_pct(out, b0);
        push_pct(out, b1);
        push_pct(out, b2);
        push_pct(out, b3);
        proof {
            vstd::utf8::char_is_scalar(c);
            let bs = encode_scalar(u);
            assert(bs =~= seq![b0, b1, b2, b3]);
            assert(bs.drop_first() =~= seq![b1, b2, b3]);
            assert(seq![b1, b2, b3].drop_first() =~= seq![b2, b3]);
            assert(seq![b2, b3].drop_first() =~= seq![b3]);
            assert(seq![b3].drop_first() =~= Seq::<u8>::empty());
            assert(enc_bytes(Seq::<u8>::empty()) =~= Seq::<char>::empty());
            assert(enc_bytes(seq![b3]) =~= enc_byte(b3));
            assert(enc_bytes(seq![b2, b3]) =~= enc_byte(b2) + enc_byte(b3));
            assert(enc_bytes(seq![b1, b2, b3]) =~= enc_byte(b1) + (enc_byte(b2) + enc_byte(b3)));
            assert(enc_bytes(bs) =~= enc_byte(b0) + (enc_byte(b1) + (enc_byte(b2) + enc_byte(
                b3,
            ))));
            assert(out@ =~= old(out)@ + enc_char(c));
        }
    }
}

/// Appends the form encoding of a whole value.
fn append_encoded(out: &mut String, s: &str)
    ensures
        final(out)@ == old(out)@ + form_encoded(s@),
{
    let cs = crate::text::to_chars(s);
    let mut k: usize = 0;
    while k < cs.len()
        invariant
            cs@ == s@,
            k <= cs@.len(),
            out@ == old(out)@ + form_encoded(s@.subrange(0, k as int)),
        decreases cs@.len() - k,
    {
        proof {
            assert(s@.subrange(0, k as int + 1) =~= s@.subrange(0, k as int).push(s@[k as int]));
            lemma_form_encoded_push(s@.subrange(0, k as int), s@[k as int]);
        }
        push_enc_char(out, cs[k]);
        k = k + 1;
    }
    proof {
        assert(s@.subrange(0, s@.len() as int) =~= s@);
    }
}

/// Builds the lookup URL for one domain, credential and limit.
pub fn lookup_url(domain: &str, api_key: &str, limit: usize) -> (s: String)
    ensures
        s@ == lookup_url_text(domain@, api_key@, limit as int),
{
    let mut out = String::from_str("https://api.hunter.io/v2/domain-search?domain=");
    append_encoded(&mut out, domain);
    out.append("&api_key=");
    append_encoded(&mut out, api_key);
    out.append("&limit=");
    let l = crate::numfmt::dec_string(limit);
    out.append(l.as_str());
    proof {
        assert(out@ =~= lookup_url_text(domain@, api_key@, limit as int));
    }
    out
}

} // verus!
