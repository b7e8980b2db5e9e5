//! The executable decoder and encoder for the wire format, proved against
//! the grammar: `decode` returns exactly what `sp_decode` denotes, and
//! `encode` writes exactly the canonical line `spec_encode` describes.

use vstd::prelude::*;
use vstd::string::StrSliceExecFns;
use vstd::string::StringExecFns;
use crate::grammar::dec_digits;
use crate::grammar::digit_char;
use crate::grammar::digits_val;
use crate::grammar::d_val;
use crate::grammar::enc_field;
use crate::grammar::enc_loc;
use crate::grammar::enc_msg;
use crate::grammar::enc_pairs;
use crate::grammar::enc_raw;
use crate::grammar::enc_string;
use crate::grammar::fixed_chars;
use crate::grammar::frac_units;
use crate::grammar::is_digit;
use crate::grammar::is_ws;
use crate::grammar::pad_digits;
use crate::grammar::pow10;
use crate::grammar::sp_ch;
use crate::grammar::sp_decode;
use crate::grammar::sp_digits;
use crate::grammar::sp_end;
use crate::grammar::sp_field;
use crate::grammar::sp_fixed;
use crate::grammar::sp_fixed_field;
use crate::grammar::sp_lit;
use crate::grammar::sp_loc_body;
use crate::grammar::sp_msg_body;
use crate::grammar::sp_next;
use crate::grammar::sp_pairs;
use crate::grammar::sp_raw_body;
use crate::grammar::sp_string;
use crate::grammar::sp_tag;
use crate::grammar::sp_text;
use crate::grammar::sp_uint;
use crate::grammar::sp_ws;
use crate::grammar::spec_encode;
use crate::msg::data_view;
use crate::msg::unique_keys;
use crate::msg::wf_text;
use crate::msg::DebugMessage;
use crate::msg::Fixed;
use crate::msg::Location;
use crate::msg::Message;
use crate::msg::Raw;
use crate::msg::MAX_UNITS;

verus! {

fn x_ws<'a>(s: &'a str) -> (r: &'a str)
    ensures
        r@ == sp_ws(s@),
    decreases s@.len(),
{
    let n = s.unicode_len();
    if n > 0 {
        let c = s.get_char(0);
        if c == ' ' || c == '\t' || c == '\r' || c == '\n' {
            let t = s.substring_char(1, n);
            proof {
                assert(t@ =~= s@.skip(1));
            }
            x_ws(t)
        } else {
            s
        }
    } else {
        s
    }
}

fn x_lit<'a>(s: &'a str, lit: &str) -> (r: Option<&'a str>)
    ensures
        r matches Some(t) ==> sp_lit(s@, lit@) == Some(t@),
        r is None ==> sp_lit(s@, lit@) is None,
    decreases lit@.len(),
{
    let nl = lit.unicode_len();
    if nl == 0 {
        Some(s)
    } else {
        let ns = s.unicode_len();
        if ns > 0 && s.get_char(0) == lit.get_char(0) {
            let s1 = s.substring_char(1, ns);
            let l1 = lit.substring_char(1, nl);
            proof {
                assert(s1@ =~= s@.skip(1));
                assert(l1@ =~= lit@.skip(1));
            }
            x_lit(s1, l1)
        } else {
            None
        }
    }
}

fn x_ch<'a>(s: &'a str, c: char) -> (r: Option<&'a str>)
    requires
        !is_ws(c),
    ensures
        r matches Some(t) ==> sp_ch(s@, c) == Some(t@),
        r is None ==> sp_ch(s@, c) is None,
{
    let s1 = x_ws(s);
    let n = s1.unicode_len();
    if n > 0 && s1.get_char(0) == c {
        let t = s1.substring_char(1, n);
        proof {
            assert(t@ =~= s1@.skip(1));
        }
        Some(t)
    } else {
        None
    }
}

fn x_text<'a>(s: &'a str) -> (r: Option<(String, &'a str)>)
    ensures
        r matches Some(p) ==> sp_text(s@) == Some((p.0@, p.1@)) && wf_text(p.0@),
        r is None ==> sp_text(s@) is None,
    decreases s@.len(),
{
    let n = s.unicode_len();
    if n == 0 {
        None
    } else {
        let c = s.get_char(0);
        if c == '"' {
            let t = s.substring_char(1, n);
            proof {
                assert(t@ =~= s@.skip(1));
            }
            Some((String::new(), t))
        } else if c != '\\' {
            let s1 = s.substring_char(1, n);
            proof {
                assert(s1@ =~= s@.skip(1));
            }
            match x_text(s1) {
                None => None,
                Some((tail, rest)) => {
                    let head = s.substring_char(0, 1);
                    let out = String::from_str(head).concat(tail.as_str());
                    proof {
                        assert(head@ =~= seq![s@[0]]);
                        assert(out@ == seq![s@[0]] + tail@);
                    }
                    Some((out, rest))
                },
            }
        } else {
            None
        }
    }
}

fn x_string<'a>(s: &'a str) -> (r: Option<(String, &'a str)>)
    ensures
        r matches Some(p) ==> sp_string(s@) == Some((p.0@, p.1@)) && wf_text(p.0@),
        r is None ==> sp_string(s@) is None,
{
    let n = s.unicode_len();
    if n > 0 && s.get_char(0) == '"' {
        let t = s.substring_char(1, n);
        proof {
            assert(t@ =~= s@.skip(1));
        }
        x_text(t)
    } else {
        None
    }
}

fn x_is_digit(c: char) -> (b: bool)
    ensures
        b == is_digit(c),
{
    c == '0' || c == '1' || c == '2' || c == '3' || c == '4' || c == '5' || c == '6' || c == '7'
        || c == '8' || c == '9'
}

fn x_d_val(c: char) -> (v: u64)
    ensures
        v == d_val(c),
{
    if c == '0' {
        0
    } else if c == '1' {
        1
    } else if c == '2' {
        2
    } else if c == '3' {
        3
    } else if c == '4' {
        4
    } else if c == '5' {
        5
    } else if c == '6' {
        6
    } else if c == '7' {
        7
    } else if c == '8' {
        8
    } else {
        9
    }
}

fn x_digits<'a>(s: &'a str) -> (r: (String, &'a str))
    ensures
        sp_digits(s@) == (r.0@, r.1@),
    decreases s@.len(),
{
    let n = s.unicode_len();
    if n > 0 && x_is_digit(s.get_char(0)) {
        let s1 = s.substring_char(1, n);
        proof {
            assert(s1@ =~= s@.skip(1));
        }
        let (tail, rest) = x_digits(s1);
        let head = s.substring_char(0, 1);
        let out = String::from_str(head).concat(tail.as_str());
        proof {
            assert(head@ =~= seq![s@[0]]);
            assert(out@ == seq![s@[0]] + tail@);
        }
        (out, rest)
    } else {
        (String::new(), s)
    }
}

/// The value of any digit string is below ten to its length.
proof fn lemma_digits_val_bound(ds: Seq<char>)
    ensures
        digits_val(ds) < pow10(ds.len() as nat),
    decreases ds.len(),
{
    if ds.len() == 0 {
        assert(pow10(0) == 1);
    } else {
        lemma_digits_val_bound(ds.drop_last());
        assert(d_val(ds.last()) <= 9);
        assert(pow10(ds.len() as nat) == 10 * pow10((ds.len() - 1) as nat));
    }
}

fn x_dig_val(d: &str) -> (r: Option<u64>)
    ensures
        r matches Some(v) ==> v == digits_val(d@),
        r is None ==> digits_val(d@) > u64::MAX,
    decreases d@.len(),
{
    let n = d.unicode_len();
    if n == 0 {
        Some(0)
    } else {
        let hd = d.substring_char(0, n - 1);
        proof {
            assert(hd@ =~= d@.drop_last());
        }
        match x_dig_val(hd) {
            None => None,
            Some(hi) => {
                let c = d.get_char(n - 1);
                proof {
                    assert(d@.last() == c);
                }
                let dv = x_d_val(c);
                match hi.checked_mul(10) {
                    None => None,
                    Some(m) => m.checked_add(dv),
                }
            },
        }
    }
}

/// The count of ten-thousandths named by a fractional digit run; always
/// below ten thousand.
fn x_frac_units(fp: &str) -> (r: u64)
    ensures
        r == frac_units(fp@),
        r < 10000,
    decreases fp@.len(),
{
    proof {
        assert(pow10(0) == 1);
        assert(pow10(1) == 10);
        assert(pow10(2) == 100);
        assert(pow10(3) == 1000);
        assert(pow10(4) == 10000);
    }
    let n = fp.unicode_len();
    if n >= 4 {
        let four = fp.substring_char(0, 4);
        proof {
            assert(four@ =~= fp@.take(4));
            lemma_digits_val_bound(four@);
        }
        match x_dig_val(four) {
            Some(v) => v,
            None => {
                proof {
                    assert(false);
                }
                0
            },
        }
    } else {
        proof {
            lemma_digits_val_bound(fp@);
        }
        match x_dig_val(fp) {
            Some(v) => {
                let mult: u64 = if n == 0 {
                    10000
                } else if n == 1 {
                    1000
                } else if n == 2 {
                    100
                } else {
                    10
                };
                proof {
                    assert(mult == pow10((4 - fp@.len()) as nat));
                }
                v * mult
            },
            None => {
                proof {
                    assert(false);
                }
                0
            },
        }
    }
}

fn x_fixed<'a>(s: &'a str) -> (r: Option<(Fixed, &'a str)>)
    ensures
        r matches Some(p) ==> sp_fixed(s@) == Some((p.0, p.1@)) && p.0.wf(),
        r is None ==> sp_fixed(s@) is None,
{
    let n = s.unicode_len();
    let neg = n > 0 && s.get_char(0) == '-';
    let s0 = if neg {
        let t = s.substring_char(1, n);
        proof {
            assert(t@ =~= s@.skip(1));
        }
        t
    } else {
        s
    };
    let (ip, s1) = x_digits(s0);
    if ip.as_str().is_empty() {
        return None;
    }
    let iv = match x_dig_val(ip.as_str()) {
        None => {
            proof {
                assert(digits_val(ip@) * 10000 >= digits_val(ip@));
            }
            return None;
        },
        Some(iv) => iv,
    };
    let n1 = s1.unicode_len();
    if n1 > 0 && s1.get_char(0) == '.' {
        let s1b = s1.substring_char(1, n1);
        proof {
            assert(s1b@ =~= s1@.skip(1));
        }
        let (fp, s2) = x_digits(s1b);
        if fp.as_str().is_empty() {
            return None;
        }
        let fr = x_frac_units(fp.as_str());
        let mag = match iv.checked_mul(10000) {
            None => {
                proof {
                    assert(digits_val(ip@) * 10000 + frac_units(fp@) >= digits_val(ip@) * 10000);
                }
                return None;
            },
            Some(m) => match m.checked_add(fr) {
                None => {
                    return None;
                },
                Some(mag) => mag,
            },
        };
        if mag <= MAX_UNITS as u64 {
            let units: i64 = if neg {
                -(mag as i64)
            } else {
                mag as i64
            };
            Some((Fixed { units }, s2))
        } else {
            None
        }
    } else {
        let mag = match iv.checked_mul(10000) {
            None => {
                return None;
            },
            Some(m) => m,
        };
        if mag <= MAX_UNITS as u64 {
            let units: i64 = if neg {
                -(mag as i64)
            } else {
                mag as i64
            };
            Some((Fixed { units }, s1))
        } else {
            None
        }
    }
}

fn x_uint<'a>(s: &'a str) -> (r: Option<(usize, &'a str)>)
    ensures
        r matches Some(p) ==> sp_uint(s@) == Some((p.0, p.1@)),
        r is None ==> sp_uint(s@) is None,
{
    let (ds, rest) = x_digits(s);
    if ds.as_str().is_empty() {
        return None;
    }
    match x_dig_val(ds.as_str()) {
        None => None,
        Some(v) => if v <= usize::MAX as u64 {
            Some((v as usize, rest))
        } else {
            None
        },
    }
}

fn x_field<'a>(s: &'a str, key: &str) -> (r: Option<&'a str>)
    ensures
        r matches Some(t) ==> sp_field(s@, key@) == Some(t@),
        r is None ==> sp_field(s@, key@) is None,
{
    let lit = String::from_str("\"").concat(key).concat("\"");
    proof {
        reveal_strlit("\"");
        assert(lit@ =~= seq!['"'] + key@ + seq!['"']);
    }
    let s1 = x_ws(s);
    match x_lit(s1, lit.as_str()) {
        None => None,
        Some(s2) => match x_ch(s2, ':') {
            None => None,
            Some(s3) => Some(x_ws(s3)),
        },
    }
}

fn x_next<'a>(s: &'a str, key: &str) -> (r: Option<&'a str>)
    ensures
        r matches Some(t) ==> sp_next(s@, key@) == Some(t@),
        r is None ==> sp_next(s@, key@) is None,
{
    match x_ch(s, ',') {
        None => None,
        Some(s1) => x_field(s1, key),
    }
}

fn x_fixed_field<'a>(s: &'a str, key: &str) -> (r: Option<(Fixed, &'a str)>)
    ensures
        r matches Some(p) ==> sp_fixed_field(s@, key@) == Some((p.0, p.1@)) && p.0.wf(),
        r is None ==> sp_fixed_field(s@, key@) is None,
{
    match x_next(s, key) {
        None => None,
        Some(s1) => x_fixed(s1),
    }
}

fn x_end(s: &str) -> (b: bool)
    ensures
        b == sp_end(s@),
{
    match x_ch(s, '}') {
        None => false,
        Some(r) => x_ws(r).unicode_len() == 0,
    }
}

fn x_tag<'a>(s: &'a str) -> (r: Option<(String, &'a str)>)
    ensures
        r matches Some(p) ==> sp_tag(s@) == Some((p.0@, p.1@)),
        r is None ==> sp_tag(s@) is None,
{
    match x_ch(s, '{') {
        None => None,
        Some(s1) => match x_field(s1, "type") {
            None => None,
            Some(s2) => x_string(s2),
        },
    }
}

fn x_loc_body<'a>(s: &'a str) -> (r: Option<Message>)
    ensures
        r matches Some(m) ==> sp_loc_body(s@) == Some(m@) && m.wf(),
        r is None ==> sp_loc_body(s@) is None,
{
    let (x, s1) = match x_fixed_field(s, "x") {
        None => {
            return None;
        },
        Some(p) => p,
    };
    let (y, s2) = match x_fixed_field(s1, "y") {
        None => {
            return None;
        },
        Some(p) => p,
    };
    let (h, s3) = match x_fixed_field(s2, "h") {
        None => (None, s2),
        Some((hv, sh)) => (Some(hv), sh),
    };
    let s4 = match x_next(s3, "mode") {
        None => {
            return None;
        },
        Some(t) => t,
    };
    let (mode, s5) = match x_string(s4) {
        None => {
            return None;
        },
        Some(p) => p,
    };
    let s6 = match x_next(s5, "update_rate") {
        None => {
            return None;
        },
        Some(t) => t,
    };
    let (ur, s7) = match x_uint(s6) {
        None => {
            return None;
        },
        Some(p) => p,
    };
    if x_end(s7) {
        Some(Message::Location(Location { x, y, h, mode, update_rate: ur }))
    } else {
        None
    }
}

fn x_raw_body<'a>(s: &'a str) -> (r: Option<Message>)
    ensures
        r matches Some(m) ==> sp_raw_body(s@) == Some(m@) && m.wf(),
        r is None ==> sp_raw_body(s@) is None,
{
    let (ax, s1) = match x_fixed_field(s, "accel_x") {
        None => {
            return None;
        },
        Some(p) => p,
    };
    let (ay, s2) = match x_fixed_field(s1, "accel_y") {
        None => {
            return None;
        },
        Some(p) => p,
    };
    let (az, s3) = match x_fixed_field(s2, "accel_z") {
        None => {
            return None;
        },
        Some(p) => p,
    };
    let (gx, s4) = match x_fixed_field(s3, "gyro_x") {
        None => {
            return None;
        },
        Some(p) => p,
    };
    let (gy, s5) = match x_fixed_field(s4, "gyro_y") {
        None => {
            return None;
        },
        Some(p) => p,
    };
    let (gz, s6) = match x_fixed_field(s5, "gyro_z") {
        None => {
            return None;
        },
        Some(p) => p,
    };
    let (mx, s7) = match x_fixed_field(s6, "mag_x") {
        None => {
            return None;
        },
        Some(p) => p,
    };
    let (my, s8) = match x_fixed_field(s7, "mag_y") {
        None => {
            return None;
        },
        Some(p) => p,
    };
    let (mz, s9) = match x_fixed_field(s8, "mag_z") {
        None => {
            return None;
        },
        Some(p) => p,
    };
    let s10 = match x_next(s9, "sampling_rate") {
        None => {
            return None;
        },
        Some(t) => t,
    };
    let (sr, s11) = match x_uint(s10) {
        None => {
            return None;
        },
        Some(p) => p,
    };
    if x_end(s11) {
        Some(
            Message::Raw(
                Raw {
                    accel_x: ax,
                    accel_y: ay,
                    accel_z: az,
                    gyro_x: gx,
                    gyro_y: gy,
                    gyro_z: gz,
                    mag_x: mx,
                    mag_y: my,
                    mag_z: mz,
                    sampling_rate: sr,
                },
            ),
        )
    } else {
        None
    }
}

fn x_pairs<'a>(s: &'a str) -> (r: Option<(Vec<(String, String)>, &'a str)>)
    ensures
        r matches Some(p) ==> sp_pairs(s@) == Some((data_view(p.0@), p.1@)) && (forall|i: int|
            0 <= i < p.0@.len() ==> wf_text(#[trigger] data_view(p.0@)[i].0) && wf_text(
                data_view(p.0@)[i].1,
            )),
        r is None ==> sp_pairs(s@) is None,
    decreases s@.len(),
{
    let s1 = x_ws(s);
    let n = s1.unicode_len();
    if n > 0 && s1.get_char(0) == '}' {
        let t = s1.substring_char(1, n);
        proof {
            assert(t@ =~= s1@.skip(1));
            assert(data_view(Seq::<(String, String)>::empty()) =~= Seq::<(
                Seq<char>,
                Seq<char>,
            )>::empty());
        }
        Some((Vec::new(), t))
    } else {
        let (k, s2) = match x_string(s1) {
            None => {
                return None;
            },
            Some(p) => p,
        };
        let s3 = match x_ch(s2, ':') {
            None => {
                return None;
            },
            Some(t) => t,
        };
        let s3w = x_ws(s3);
        let (v, s4) = match x_string(s3w) {
            None => {
                return None;
            },
            Some(p) => p,
        };
        let s5 = x_ws(s4);
        let n5 = s5.unicode_len();
        if n5 > 0 && s5.get_char(0) == ',' {
            let s6 = s5.substring_char(1, n5);
            proof {
                assert(s6@ =~= s5@.skip(1));
            }
            if s6.unicode_len() < s.unicode_len() {
                match x_pairs(s6) {
                    None => None,
                    Some((tail, rest)) => {
                        let ghost old_tail = tail@;
                        let mut tail = tail;
                        tail.insert(0, (k, v));
                        proof {
                            assert(tail@ =~= seq![(k, v)] + old_tail);
                            assert(data_view(tail@) =~= seq![(k@, v@)] + data_view(old_tail));
                        }
                        Some((tail, rest))
                    },
                }
            } else {
                None
            }
        } else if n5 > 0 && s5.get_char(0) == '}' {
            let s6 = s5.substring_char(1, n5);
            proof {
                assert(s6@ =~= s5@.skip(1));
            }
            let mut out: Vec<(String, String)> = Vec::new();
            out.push((k, v));
            proof {
                assert(data_view(out@) =~= seq![(k@, v@)]);
            }
            Some((out, s6))
        } else {
            None
        }
    }
}

/// Runtime test that no two attributes share a key.
fn check_unique(d: &Vec<(String, String)>) -> (b: bool)
    ensures
        b == unique_keys(data_view(d@)),
{
    let n = d.len();
    let mut i: usize = 1;
    while i < n
        invariant
            1 <= i,
            n == d@.len(),
            forall|a: int, b: int|
                0 <= a < b < i ==> crate::msg::keys_of(data_view(d@))[a] != crate::msg::keys_of(
                    data_view(d@),
                )[b],
        decreases n - i,
    {
        let mut j: usize = 0;
        while j < i
            invariant
                0 <= j <= i < n,
                n == d@.len(),
                forall|a: int, b: int|
                    0 <= a < b < i ==> crate::msg::keys_of(data_view(d@))[a]
                        != crate::msg::keys_of(data_view(d@))[b],
                forall|b: int|
                    0 <= b < j ==> crate::msg::keys_of(data_view(d@))[b] != crate::msg::keys_of(
                        data_view(d@),
                    )[i as int],
            decreases i - j,
        {
            if d[j].0 == d[i].0 {
                proof {
                    assert(crate::msg::keys_of(data_view(d@))[j as int] == crate::msg::keys_of(
                        data_view(d@),
                    )[i as int]);
                }
                return false;
            }
            j += 1;
        }
        i += 1;
    }
    true
}

fn x_msg_body<'a>(s: &'a str) -> (r: Option<Message>)
    ensures
        r matches Some(m) ==> sp_msg_body(s@) == Some(m@) && m.wf(),
        r is None ==> sp_msg_body(s@) is None,
{
    proof {
        reveal_strlit("{");
    }
    let s1 = match x_next(s, "body") {
        None => {
            return None;
        },
        Some(t) => t,
    };
    let (body, s2) = match x_string(s1) {
        None => {
            return None;
        },
        Some(p) => p,
    };
    let s3 = match x_next(s2, "data") {
        None => {
            return None;
        },
        Some(t) => t,
    };
    let s4 = match x_lit(s3, "{") {
        None => {
            proof {
                assert("{"@ =~= seq!['{']);
            }
            return None;
        },
        Some(t) => t,
    };
    proof {
        assert("{"@ =~= seq!['{']);
    }
    let (data, s5) = match x_pairs(s4) {
        None => {
            return None;
        },
        Some(p) => p,
    };
    if check_unique(&data) && x_end(s5) {
        Some(Message::Message(DebugMessage { body, data }))
    } else {
        None
    }
}

/// Decodes one newline-stripped line of wire text. A line that is not a
/// well-formed record of a known shape yields no message — never an error —
/// so noise on the transport is skipped rather than fatal. The decoder
/// holds no state: the outcome is a function of the line alone.
pub fn decode(line: &str) -> (r: Option<Message>)
    ensures
        r matches Some(m) ==> sp_decode(line@) == Some(m@) && m.wf(),
        r is None ==> sp_decode(line@) is None,
{
    let (tag, rest) = match x_tag(line) {
        None => {
            return None;
        },
        Some(p) => p,
    };
    if tag == String::from_str("LOC") {
        x_loc_body(rest)
    } else if tag == String::from_str("RAW") {
        x_raw_body(rest)
    } else if tag == String::from_str("MSG") {
        x_msg_body(rest)
    } else {
        None
    }
}

fn dig_str(n: u64) -> (r: &'static str)
    requires
        n < 10,
    ensures
        r@ == seq![digit_char(n as nat)],
{
    if n == 0 {
        proof {
            reveal_strlit("0");
            assert("0"@ =~= seq![digit_char(0)]);
        }
        "0"
    } else if n == 1 {
        proof {
            reveal_strlit("1");
            assert("1"@ =~= seq![digit_char(1)]);
        }
        "1"
    } else if n == 2 {
        proof {
            reveal_strlit("2");
            assert("2"@ =~= seq![digit_char(2)]);
        }
        "2"
    } else if n == 3 {
        proof {
            reveal_strlit("3");
            assert("3"@ =~= seq![digit_char(3)]);
        }
        "3"
    } else if n == 4 {
        proof {
            reveal_strlit("4");
            assert("4"@ =~= seq![digit_char(4)]);
        }
        "4"
    } else if n == 5 {
        proof {
            reveal_strlit("5");
            assert("5"@ =~= seq![digit_char(5)]);
        }
        "5"
    } else if n == 6 {
        proof {
            reveal_strlit("6");
            assert("6"@ =~= seq![digit_char(6)]);
        }
        "6"
    } else if n == 7 {
        proof {
            reveal_strlit("7");
            assert("7"@ =~= seq![digit_char(7)]);
        }
        "7"
    } else if n == 8 {
        proof {
            reveal_strlit("8");
            assert("8"@ =~= seq![digit_char(8)]);
        }
        "8"
    } else {
        proof {
            reveal_strlit("9");
            assert("9"@ =~= seq![digit_char(9)]);
        }
        "9"
    }
}

fn u64_str(n: u64) -> (r: String)
    ensures
        r@ == dec_digits(n as nat),
    decreases n,
{
    if n < 10 {
        String::from_str(dig_str(n))
    } else {
        let hi = u64_str(n / 10);
        hi.concat(dig_str(n % 10))
    }
}

fn fixed_str(v: Fixed) -> (r: String)
    requires
        v.wf(),
    ensures
        r@ == fixed_chars(v),
{
    let mag: u64 = if v.units < 0 {
        (-(v.units)) as u64
    } else {
        v.units as u64
    };
    let ip = u64_str(mag / 10000);
    let fr: u64 = mag % 10000;
    let d1 = dig_str(fr / 1000);
    let d2 = dig_str((fr / 100) % 10);
    let d3 = dig_str((fr / 10) % 10);
    let d4 = dig_str(fr % 10);
    proof {
        let f = fr as nat;
        vstd::arithmetic::div_mod::lemma_div_denominator(f as int, 10, 10);
        vstd::arithmetic::div_mod::lemma_div_denominator(f as int, 100, 10);
        assert(pad_digits(f / 1000 / 10, 0) =~= Seq::<char>::empty());
        assert(pad_digits(f / 1000, 1) =~= seq![digit_char((f / 1000) % 10)]);
        assert(pad_digits(f / 100, 2) =~= pad_digits(f / 1000, 1) + seq![
            digit_char((f / 100) % 10),
        ]);
        assert(pad_digits(f / 10, 3) =~= pad_digits(f / 100, 2) + seq![digit_char((f / 10) % 10)]);
        assert(pad_digits(f, 4) =~= pad_digits(f / 10, 3) + seq![digit_char(f % 10)]);
        assert((f / 1000) % 10 == f / 1000);
        assert(pad_digits(f, 4) =~= seq![
            digit_char(f / 1000),
            digit_char((f / 100) % 10),
            digit_char((f / 10) % 10),
            digit_char(f % 10),
        ]);
    }
    let mut out = if v.units < 0 {
        String::from_str("-")
    } else {
        String::new()
    };
    out.append(ip.as_str());
    out.append(".");
    out.append(d1);
    out.append(d2);
    out.append(d3);
    out.append(d4);
    proof {
        reveal_strlit("-");
        reveal_strlit(".");
        assert(out@ =~= fixed_chars(v));
    }
    out
}

fn fld(key: &str) -> (r: String)
    ensures
        r@ == enc_field(key@),
{
    let r = String::from_str("\"").concat(key).concat("\":");
    proof {
        reveal_strlit("\"");
        reveal_strlit("\":");
        assert(r@ =~= seq!['"'] + key@ + seq!['"', ':']);
    }
    r
}

fn qstr(t: &str) -> (r: String)
    ensures
        r@ == enc_string(t@),
{
    let r = String::from_str("\"").concat(t).concat("\"");
    proof {
        reveal_strlit("\"");
        assert(r@ =~= seq!['"'] + t@ + seq!['"']);
    }
    r
}

fn enc_loc_str(l: &Location) -> (r: String)
    requires
        l.wf(),
    ensures
        r@ == enc_loc(l@),
{
    proof {
        reveal_strlit(",");
        reveal_strlit("}");
        reveal_strlit("{");
    }
    let t_ur = fld("update_rate").concat(u64_str(l.update_rate as u64).as_str()).concat("}");
    proof {
        assert(t_ur@ =~= enc_field("update_rate"@) + (dec_digits(l.update_rate as nat)
            + seq!['}']));
    }
    let t_mode = fld("mode").concat(qstr(l.mode.as_str()).as_str()).concat(",").concat(
        t_ur.as_str(),
    );
    proof {
        assert(t_mode@ =~= enc_field("mode"@) + (enc_string(l.mode@) + (seq![','] + t_ur@)));
    }
    let t_h = match &l.h {
        Some(hv) => {
            let t = fld("h").concat(fixed_str(*hv).as_str()).concat(",").concat(t_mode.as_str());
            proof {
                assert(t@ =~= enc_field("h"@) + (fixed_chars(l.h->Some_0) + (seq![',']
                    + t_mode@)));
            }
            t
        },
        None => t_mode,
    };
    let t_y = fld("y").concat(fixed_str(l.y).as_str()).concat(",").concat(t_h.as_str());
    proof {
        assert(t_y@ =~= enc_field("y"@) + (fixed_chars(l.y) + (seq![','] + t_h@)));
    }
    let t_x = fld("x").concat(fixed_str(l.x).as_str()).concat(",").concat(t_y.as_str());
    proof {
        assert(t_x@ =~= enc_field("x"@) + (fixed_chars(l.x) + (seq![','] + t_y@)));
    }
    let r = String::from_str("{").concat(fld("type").as_str()).concat(
        qstr("LOC").as_str(),
    ).concat(",").concat(t_x.as_str());
    proof {
        assert(r@ =~= seq!['{'] + (enc_field("type"@) + (enc_string("LOC"@) + (seq![','] + t_x@))));
    }
    r
}

#[verifier::rlimit(100)]
fn enc_raw_str(w: &Raw) -> (r: String)
    requires
        w.wf(),
    ensures
        r@ == enc_raw(w@),
{
    proof {
        reveal_strlit(",");
        reveal_strlit("}");
        reveal_strlit("{");
    }
    let t_sr = fld("sampling_rate").concat(u64_str(w.sampling_rate as u64).as_str()).concat("}");
    proof {
        assert(t_sr@ =~= enc_field("sampling_rate"@) + (dec_digits(w.sampling_rate as nat)
            + seq!['}']));
    }
    let t_mz = fld("mag_z").concat(fixed_str(w.mag_z).as_str()).concat(",").concat(t_sr.as_str());
    proof {
        assert(t_mz@ =~= enc_field("mag_z"@) + (fixed_chars(w.mag_z) + (seq![','] + t_sr@)));
    }
    let t_my = fld("mag_y").concat(fixed_str(w.mag_y).as_str()).concat(",").concat(t_mz.as_str());
    proof {
        assert(t_my@ =~= enc_field("mag_y"@) + (fixed_chars(w.mag_y) + (seq![','] + t_mz@)));
    }
    let t_mx = fld("mag_x").concat(fixed_str(w.mag_x).as_str()).concat(",").concat(t_my.as_str());
    proof {
        assert(t_mx@ =~= enc_field("mag_x"@) + (fixed_chars(w.mag_x) + (seq![','] + t_my@)));
    }
    let t_gz = fld("gyro_z").concat(fixed_str(w.gyro_z).as_str()).concat(",").concat(
        t_mx.as_str(),
    );
    proof {
        assert(t_gz@ =~= enc_field("gyro_z"@) + (fixed_chars(w.gyro_z) + (seq![','] + t_mx@)));
    }
    let t_gy = fld("gyro_y").concat(fixed_str(w.gyro_y).as_str()).concat(",").concat(
        t_gz.as_str(),
    );
    proof {
        assert(t_gy@ =~= enc_field("gyro_y"@) + (fixed_chars(w.gyro_y) + (seq![','] + t_gz@)));
    }
    let t_gx = fld("gyro_x").concat(fixed_str(w.gyro_x).as_str()).concat(",").concat(
        t_gy.as_str(),
    );
    proof {
        assert(t_gx@ =~= enc_field("gyro_x"@) + (fixed_chars(w.gyro_x) + (seq![','] + t_gy@)));
    }
    let t_az = fld("accel_z").concat(fixed_str(w.accel_z).as_str()).concat(",").concat(
        t_gx.as_str(),
    );
    proof {
        assert(t_az@ =~= enc_field("accel_z"@) + (fixed_chars(w.accel_z) + (seq![','] + t_gx@)));
    }
    let t_ay = fld("accel_y").concat(fixed_str(w.accel_y).as_str()).concat(",").concat(
        t_az.as_str(),
    );
    proof {
        assert(t_ay@ =~= enc_field("accel_y"@) + (fixed_chars(w.accel_y) + (seq![','] + t_az@)));
    }
    let t_ax = fld("accel_x").concat(fixed_str(w.accel_x).as_str()).concat(",").concat(
        t_ay.as_str(),
    );
    proof {
        assert(t_ax@ =~= enc_field("accel_x"@) + (fixed_chars(w.accel_x) + (seq![','] + t_ay@)));
    }
    let r = String::from_str("{").concat(fld("type").as_str()).concat(
        qstr("RAW").as_str(),
    ).concat(",").concat(t_ax.as_str());
    proof {
        assert(r@ =~= seq!['{'] + (enc_field("type"@) + (enc_string("RAW"@) + (seq![',']
            + t_ax@))));
    }
    r
}

fn pairs_str(d: &Vec<(String, String)>, i: usize, rest: &str) -> (r: String)
    requires
        i <= d.len(),
    ensures
        r@ == enc_pairs(data_view(d@).skip(i as int), rest@),
    decreases d@.len() - i,
{
    proof {
        reveal_strlit("}");
        reveal_strlit(",");
        reveal_strlit(":");
    }
    if i == d.len() {
        let r = String::from_str("}").concat(rest);
        proof {
            assert(data_view(d@).skip(i as int) =~= Seq::<(Seq<char>, Seq<char>)>::empty());
            assert(r@ =~= seq!['}'] + rest@);
        }
        r
    } else {
        let tail = if i + 1 == d.len() {
            let t = String::from_str("}").concat(rest);
            proof {
                assert(t@ =~= seq!['}'] + rest@);
            }
            t
        } else {
            let t = String::from_str(",").concat(pairs_str(d, i + 1, rest).as_str());
            proof {
                assert(t@ =~= seq![','] + enc_pairs(data_view(d@).skip(i as int + 1), rest@));
            }
            t
        };
        let p = &d[i];
        let r = qstr(p.0.as_str()).concat(":").concat(qstr(p.1.as_str()).as_str()).concat(
            tail.as_str(),
        );
        proof {
            let dv = data_view(d@).skip(i as int);
            assert(dv[0] == (d@[i as int].0@, d@[i as int].1@));
            assert(dv.len() == d@.len() - i);
            assert(data_view(d@).skip(i as int + 1) =~= dv.skip(1));
            assert(r@ =~= enc_string(dv[0].0) + (seq![':'] + (enc_string(dv[0].1) + tail@)));
        }
        r
    }
}

fn enc_msg_str(d: &DebugMessage) -> (r: String)
    requires
        d.wf(),
    ensures
        r@ == enc_msg(d@),
{
    proof {
        reveal_strlit(",");
        reveal_strlit("{");
    }
    let inner = pairs_str(&d.data, 0, "}");
    proof {
        reveal_strlit("}");
        assert(data_view(d.data@).skip(0) =~= data_view(d.data@));
        assert("}"@ =~= seq!['}']);
    }
    let t_data = fld("data").concat("{").concat(inner.as_str());
    proof {
        assert(t_data@ =~= enc_field("data"@) + (seq!['{'] + enc_pairs(
            data_view(d.data@),
            seq!['}'],
        )));
    }
    let t_body = fld("body").concat(qstr(d.body.as_str()).as_str()).concat(",").concat(
        t_data.as_str(),
    );
    proof {
        assert(t_body@ =~= enc_field("body"@) + (enc_string(d.body@) + (seq![','] + t_data@)));
    }
    let r = String::from_str("{").concat(fld("type").as_str()).concat(
        qstr("MSG").as_str(),
    ).concat(",").concat(t_body.as_str());
    proof {
        assert(r@ =~= seq!['{'] + (enc_field("type"@) + (enc_string("MSG"@) + (seq![',']
            + t_body@))));
    }
    r
}

/// Writes the canonical line for a message: the record that `decode` reads
/// back as exactly this message.
pub fn encode(m: &Message) -> (r: String)
    requires
        m.wf(),
    ensures
        r@ == spec_encode(m@),
{
    match m {
        Message::Location(l) => enc_loc_str(l),
        Message::Raw(w) => enc_raw_str(w),
        Message::Message(d) => enc_msg_str(d),
    }
}

} // verus!
