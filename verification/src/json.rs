//! JSON response bodies, built byte by byte against an exact
//! specification: the listing array, the detail object, decimal number
//! rendering, and string escaping.

use vstd::prelude::*;
use vstd::string::*;
use vstd::utf8::encode_utf8;
use crate::api::{Leader, page_view};

verus! {

/// The mathematical content of one listing element.
pub ghost struct LeaderView {
    pub place: nat,
    pub id: nat,
    pub score: int,
    pub summary: Seq<char>,
    pub created_at: Seq<char>,
}

/// Decimal digit bytes of a number, most significant first.
pub open spec fn dec_digits(n: nat) -> Seq<u8>
    decreases n,
{
    if n < 10 {
        seq![(48 + n) as u8]
    } else {
        dec_digits(n / 10).push((48 + n % 10) as u8)
    }
}

/// Decimal bytes of a signed number: a minus sign for negative values,
/// then the digits of the magnitude.
pub open spec fn int_digits(v: int) -> Seq<u8> {
    if v < 0 {
        seq![45u8] + dec_digits((-v) as nat)
    } else {
        dec_digits(v as nat)
    }
}

/// Lower-case hexadecimal digit byte for a value below 16.
pub open spec fn hex_digit(d: u8) -> u8 {
    if d < 10 {
        (48 + d) as u8
    } else {
        (87 + d) as u8
    }
}

/// The escape of one byte inside a JSON string literal. Quotes and
/// backslashes take a backslash escape, the common control characters
/// their short forms, any other control character the `\u00..` form, and
/// every remaining byte stands for itself.
pub open spec fn esc_byte(b: u8) -> Seq<u8> {
    if b == 34 {
        seq![92u8, 34u8]
    } else if b == 92 {
        seq![92u8, 92u8]
    } else if b == 10 {
        seq![92u8, 110u8]
    } else if b == 13 {
        seq![92u8, 114u8]
    } else if b == 9 {
        seq![92u8, 116u8]
    } else if b < 32 {
        seq![92u8, 117u8, 48u8, 48u8, hex_digit(b / 16), hex_digit(b % 16)]
    } else {
        seq![b]
    }
}

/// The escape of a whole string, byte by byte.
pub open spec fn esc_bytes(s: Seq<u8>) -> Seq<u8>
    decreases s.len(),
{
    if s.len() == 0 {
        Seq::empty()
    } else {
        esc_bytes(s.drop_last()) + esc_byte(s.last())
    }
}

/// The JSON text of one listing element.
pub open spec fn leader_json(
    place: nat,
    id: nat,
    score: int,
    summary: Seq<char>,
    created_at: Seq<char>,
) -> Seq<u8> {
    ("{\"place\":").spec_bytes() + dec_digits(place) + (",\"id\":").spec_bytes() + dec_digits(id)
        + (",\"score\":").spec_bytes() + int_digits(score) + (",\"summary\":\"").spec_bytes()
        + esc_bytes(encode_utf8(summary)) + ("\",\"createdAt\":\"").spec_bytes() + esc_bytes(
        encode_utf8(created_at),
    ) + ("\"}").spec_bytes()
}

/// The JSON text of one listing element, from the element's view.
pub open spec fn leader_elem_json(l: LeaderView) -> Seq<u8> {
    leader_json(l.place, l.id, l.score, l.summary, l.created_at)
}

/// The comma-separated JSON texts of the first `n` listing elements.
pub open spec fn items_json(page: Seq<LeaderView>, n: int) -> Seq<u8>
    decreases n,
{
    if n <= 0 {
        Seq::empty()
    } else if n == 1 {
        leader_elem_json(page[0])
    } else {
        items_json(page, n - 1) + seq![44u8] + leader_elem_json(page[n - 1])
    }
}

/// The JSON array for a whole listing page.
pub open spec fn leaders_json_spec(page: Seq<LeaderView>) -> Seq<u8> {
    seq![91u8] + items_json(page, page.len() as int) + seq![93u8]
}

/// The JSON object of a detail response.
pub open spec fn details_json_spec(details: Seq<char>) -> Seq<u8> {
    ("{\"details\":\"").spec_bytes() + esc_bytes(encode_utf8(details)) + ("\"}").spec_bytes()
}

/// Appends the bytes of a string slice.
fn push_str_bytes(buf: Vec<u8>, s: &str) -> (r: Vec<u8>)
    ensures
        r@ == buf@ + s.spec_bytes(),
{
    let mut out = buf;
    out.extend_from_slice(s.as_bytes());
    proof {
        assert(out@ =~= buf@ + s.spec_bytes());
    }
    out
}

/// Appends the decimal digits of an unsigned number.
fn push_dec_u64(buf: Vec<u8>, n: u64) -> (r: Vec<u8>)
    ensures
        r@ == buf@ + dec_digits(n as nat),
    decreases n,
{
    if n < 10 {
        let mut out = buf;
        out.push(48 + (n as u8));
        proof {
            assert(out@ =~= buf@ + dec_digits(n as nat));
        }
        out
    } else {
        let mut out = push_dec_u64(buf, n / 10);
        out.push(48 + ((n % 10) as u8));
        proof {
            assert(out@ =~= buf@ + dec_digits(n as nat));
        }
        out
    }
}

/// Appends the decimal form of a signed number.
fn push_dec_i32(buf: Vec<u8>, v: i32) -> (r: Vec<u8>)
    ensures
        r@ == buf@ + int_digits(v as int),
{
    if v < 0 {
        let mut out = buf;
        out.push(45);
        let m = -(v as i64);
        let out2 = push_dec_u64(out, m as u64);
        proof {
            assert(out2@ =~= buf@ + int_digits(v as int));
        }
        out2
    } else {
        push_dec_u64(buf, v as u64)
    }
}

/// Appends a string's bytes escaped for a JSON string literal.
fn push_escaped(buf: Vec<u8>, s: &str) -> (r: Vec<u8>)
    ensures
        r@ == buf@ + esc_bytes(s.spec_bytes()),
{
    let bytes = s.as_bytes_vec();
    let n = bytes.len();
    let mut out = buf;
    let mut i: usize = 0;
    while i < n
        invariant
            n == bytes@.len(),
            bytes@ == s.spec_bytes(),
            0 <= i <= n,
            out@ == buf@ + esc_bytes(bytes@.take(i as int)),
        decreases n - i,
    {
        let ghost prev = out@;
        let b = bytes[i];
        if b == 34 {
            out.push(92);
            out.push(34);
        } else if b == 92 {
            out.push(92);
            out.push(92);
        } else if b == 10 {
            out.push(92);
            out.push(110);
        } else if b == 13 {
            out.push(92);
            out.push(114);
        } else if b == 9 {
            out.push(92);
            out.push(116);
        } else if b < 32 {
            out.push(92);
            out.push(117);
            out.push(48);
            out.push(48);
            let hi = b / 16;
            let lo = b % 16;
            out.push(if hi < 10 {
                48 + hi
            } else {
                87 + hi
            });
            out.push(if lo < 10 {
                48 + lo
            } else {
                87 + lo
            });
        } else {
            out.push(b);
        }
        proof {
            assert(out@ =~= prev + esc_byte(bytes@[i as int]));
            assert(bytes@.take(i as int + 1).drop_last() =~= bytes@.take(i as int));
            assert(bytes@.take(i as int + 1).last() == bytes@[i as int]);
            assert(out@ =~= buf@ + esc_bytes(bytes@.take(i as int + 1)));
        }
        i = i + 1;
    }
    proof {
        assert(bytes@.take(n as int) =~= bytes@);
    }
    out
}

/// Appends the JSON text of one listing element.
fn push_leader(buf: Vec<u8>, l: &Leader) -> (r: Vec<u8>)
    ensures
        r@ == buf@ + leader_elem_json((*l)@),
{
    let out = push_str_bytes(buf, "{\"place\":");
    let out = push_dec_u64(out, l.place as u64);
    let out = push_str_bytes(out, ",\"id\":");
    let out = push_dec_u64(out, l.id as u64);
    let out = push_str_bytes(out, ",\"score\":");
    let out = push_dec_i32(out, l.score);
    let out = push_str_bytes(out, ",\"summary\":\"");
    let out = push_escaped(out, l.summary.as_str());
    let out = push_str_bytes(out, "\",\"createdAt\":\"");
    let out = push_escaped(out, l.created_at.as_str());
    let out = push_str_bytes(out, "\"}");
    proof {
        assert(out@ =~= buf@ + leader_elem_json((*l)@));
    }
    out
}

/// The JSON array body of a listing response.
pub fn leaders_body(page: &Vec<Leader>) -> (r: Vec<u8>)
    ensures
        r@ == leaders_json_spec(page_view(page@)),
{
    let mut out: Vec<u8> = Vec::new();
    out.push(91);
    let n = page.len();
    let mut i: usize = 0;
    while i < n
        invariant
            n == page@.len(),
            0 <= i <= n,
            out@ == seq![91u8] + items_json(page_view(page@), i as int),
        decreases n - i,
    {
        let ghost pv = page_view(page@);
        if i > 0 {
            out.push(44);
        }
        let out2 = push_leader(out, &page[i]);
        out = out2;
        proof {
            assert(pv[i as int] == page@[i as int]@);
            if i == 0 {
                assert(items_json(pv, 1) == leader_elem_json(pv[0]));
                assert(out@ =~= seq![91u8] + items_json(pv, 1));
            } else {
                assert(items_json(pv, i as int + 1) == items_json(pv, i as int) + seq![44u8]
                    + leader_elem_json(pv[i as int]));
                assert(out@ =~= seq![91u8] + items_json(pv, i as int + 1));
            }
        }
        i = i + 1;
    }
    out.push(93);
    proof {
        assert(out@ =~= leaders_json_spec(page_view(page@)));
    }
    out
}

/// The JSON object body of a detail response.
pub fn details_body(details: &str) -> (r: Vec<u8>)
    ensures
        r@ == details_json_spec(details@),
{
    let out = push_str_bytes(Vec::new(), "{\"details\":\"");
    let out = push_escaped(out, details);
    let out = push_str_bytes(out, "\"}");
    proof {
        assert(out@ =~= details_json_spec(details@));
    }
    out
}

} // verus!
