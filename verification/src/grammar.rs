//! The wire grammar, stated mathematically: suffix-consuming parsing
//! functions over character sequences, and the canonical encoding of each
//! message shape. The executable decoder and encoder are proved against
//! these functions.
//!
//! A record is one line of structured text: `{` followed by a `"type"`
//! field whose string value selects the shape, then the shape's fields in
//! their documented order, then `}`. Whitespace may stand between tokens.
//! Quoted strings carry any characters but `"` and `\`; numbers are plain
//! decimal numerals with at most four fractional digits kept.

use vstd::prelude::*;
use crate::msg::DebugMessageV;
use crate::msg::Fixed;
use crate::msg::LocationV;
use crate::msg::MessageV;
use crate::msg::RawV;
use crate::msg::MAX_UNITS;
use crate::msg::text_char;
use crate::msg::unique_keys;

verus! {

/// Inter-token whitespace.
pub open spec fn is_ws(c: char) -> bool {
    c == ' ' || c == '\t' || c == '\r' || c == '\n'
}

/// Drops leading whitespace.
pub open spec fn sp_ws(s: Seq<char>) -> Seq<char>
    decreases s.len(),
{
    if s.len() > 0 && is_ws(s[0]) {
        sp_ws(s.skip(1))
    } else {
        s
    }
}

/// Consumes exactly `lit`; yields the remainder.
pub open spec fn sp_lit(s: Seq<char>, lit: Seq<char>) -> Option<Seq<char>>
    decreases lit.len(),
{
    if lit.len() == 0 {
        Some(s)
    } else if s.len() > 0 && s[0] == lit[0] {
        sp_lit(s.skip(1), lit.skip(1))
    } else {
        None
    }
}

/// Consumes whitespace, then the single character `c`.
pub open spec fn sp_ch(s: Seq<char>, c: char) -> Option<Seq<char>> {
    let s1 = sp_ws(s);
    if s1.len() > 0 && s1[0] == c {
        Some(s1.skip(1))
    } else {
        None
    }
}

/// Consumes string content up to and including the closing quote; the
/// opening quote is already consumed. Only text characters may stand
/// inside.
pub open spec fn sp_text(s: Seq<char>) -> Option<(Seq<char>, Seq<char>)>
    decreases s.len(),
{
    if s.len() == 0 {
        None
    } else if s[0] == '"' {
        Some((Seq::empty(), s.skip(1)))
    } else if text_char(s[0]) {
        match sp_text(s.skip(1)) {
            None => None,
            Some((t, r)) => Some((seq![s[0]] + t, r)),
        }
    } else {
        None
    }
}

/// Consumes a quoted string, yielding its content.
pub open spec fn sp_string(s: Seq<char>) -> Option<(Seq<char>, Seq<char>)> {
    if s.len() > 0 && s[0] == '"' {
        sp_text(s.skip(1))
    } else {
        None
    }
}

pub open spec fn is_digit(c: char) -> bool {
    c == '0' || c == '1' || c == '2' || c == '3' || c == '4' || c == '5' || c == '6' || c == '7'
        || c == '8' || c == '9'
}

/// The numeric value of one digit character.
pub open spec fn d_val(c: char) -> nat {
    if c == '0' {
        0
    } else if c == '1' {
        1
    } else if c == '2' {
        2
    } else if c == '3' {
        3
    } else if c == '4' {
        4
    } else if c == '5' {
        5
    } else if c == '6' {
        6
    } else if c == '7' {
        7
    } else if c == '8' {
        8
    } else {
        9
    }
}

/// Splits off the leading run of digit characters.
pub open spec fn sp_digits(s: Seq<char>) -> (Seq<char>, Seq<char>)
    decreases s.len(),
{
    if s.len() > 0 && is_digit(s[0]) {
        let (d, r) = sp_digits(s.skip(1));
        (seq![s[0]] + d, r)
    } else {
        (Seq::empty(), s)
    }
}

/// The value of a digit string read in base ten.
pub open spec fn digits_val(ds: Seq<char>) -> nat
    decreases ds.len(),
{
    if ds.len() == 0 {
        0
    } else {
        digits_val(ds.drop_last()) * 10 + d_val(ds.last())
    }
}

/// Ten to the `n`.
pub open spec fn pow10(n: nat) -> nat
    decreases n,
{
    if n == 0 {
        1
    } else {
        10 * pow10((n - 1) as nat)
    }
}

/// The count of ten-thousandths written by a fractional digit string: the
/// first four digits, padded on the right with zeros if fewer were given.
/// Digits past the fourth are read but carry no value.
pub open spec fn frac_units(ds: Seq<char>) -> nat {
    if ds.len() >= 4 {
        digits_val(ds.take(4))
    } else {
        digits_val(ds) * pow10((4 - ds.len()) as nat)
    }
}

/// Wraps a parsed magnitude as a `Fixed` if it is within bounds.
pub open spec fn fixed_of(neg: bool, mag: nat, rest: Seq<char>) -> Option<(Fixed, Seq<char>)> {
    if mag <= MAX_UNITS {
        Some(
            (
                Fixed { units: (if neg { -(mag as int) } else { mag as int }) as i64 },
                rest,
            ),
        )
    } else {
        None
    }
}

/// Consumes a decimal numeral: an optional minus sign, at least one digit,
/// then optionally a point and at least one more digit.
pub open spec fn sp_fixed(s: Seq<char>) -> Option<(Fixed, Seq<char>)> {
    let neg = s.len() > 0 && s[0] == '-';
    let s0 = if neg {
        s.skip(1)
    } else {
        s
    };
    let (ip, s1) = sp_digits(s0);
    if ip.len() == 0 {
        None
    } else if s1.len() > 0 && s1[0] == '.' {
        let (fp, s2) = sp_digits(s1.skip(1));
        if fp.len() == 0 {
            None
        } else {
            fixed_of(neg, digits_val(ip) * 10000 + frac_units(fp), s2)
        }
    } else {
        fixed_of(neg, digits_val(ip) * 10000, s1)
    }
}

/// Consumes an unsigned integer numeral that fits the platform word.
pub open spec fn sp_uint(s: Seq<char>) -> Option<(usize, Seq<char>)> {
    let (ds, r) = sp_digits(s);
    if ds.len() == 0 {
        None
    } else if digits_val(ds) <= usize::MAX {
        Some((digits_val(ds) as usize, r))
    } else {
        None
    }
}

/// Consumes whitespace, a quoted key that must equal `key`, whitespace, a
/// colon, and the whitespace before the value.
pub open spec fn sp_field(s: Seq<char>, key: Seq<char>) -> Option<Seq<char>> {
    match sp_lit(sp_ws(s), seq!['"'] + key + seq!['"']) {
        None => None,
        Some(s1) => match sp_ch(s1, ':') {
            None => None,
            Some(s2) => Some(sp_ws(s2)),
        },
    }
}

/// Consumes a comma, a field key and its colon.
pub open spec fn sp_next(s: Seq<char>, key: Seq<char>) -> Option<Seq<char>> {
    match sp_ch(s, ',') {
        None => None,
        Some(s1) => sp_field(s1, key),
    }
}

/// Consumes a comma, the given key, and a decimal numeral.
pub open spec fn sp_fixed_field(s: Seq<char>, key: Seq<char>) -> Option<(Fixed, Seq<char>)> {
    match sp_next(s, key) {
        None => None,
        Some(s1) => sp_fixed(s1),
    }
}

/// True if only the closing brace and trailing whitespace remain.
pub open spec fn sp_end(s: Seq<char>) -> bool {
    match sp_ch(s, '}') {
        None => false,
        Some(r) => sp_ws(r).len() == 0,
    }
}

/// Consumes the opening brace and the `type` field, yielding the tag.
pub open spec fn sp_tag(s: Seq<char>) -> Option<(Seq<char>, Seq<char>)> {
    match sp_ch(s, '{') {
        None => None,
        Some(s1) => match sp_field(s1, "type"@) {
            None => None,
            Some(s2) => sp_string(s2),
        },
    }
}

/// Consumes the fields of a Location record after its tag.
pub open spec fn sp_loc_body(s: Seq<char>) -> Option<MessageV> {
    match sp_fixed_field(s, "x"@) {
        None => None,
        Some((x, s1)) => match sp_fixed_field(s1, "y"@) {
            None => None,
            Some((y, s2)) => {
                let (h, s3) = match sp_fixed_field(s2, "h"@) {
                    Some((hv, sh)) => (Some(hv), sh),
                    None => (None, s2),
                };
                match sp_next(s3, "mode"@) {
                    None => None,
                    Some(s4) => match sp_string(s4) {
                        None => None,
                        Some((mode, s5)) => match sp_next(s5, "update_rate"@) {
                            None => None,
                            Some(s6) => match sp_uint(s6) {
                                None => None,
                                Some((ur, s7)) => if sp_end(s7) {
                                    Some(
                                        MessageV::Location(
                                            LocationV { x, y, h, mode, update_rate: ur },
                                        ),
                                    )
                                } else {
                                    None
                                },
                            },
                        },
                    },
                }
            },
        },
    }
}

/// Consumes the fields of a Raw record after its tag.
pub open spec fn sp_raw_body(s: Seq<char>) -> Option<MessageV> {
    match sp_fixed_field(s, "accel_x"@) {
        None => None,
        Some((ax, s1)) => match sp_fixed_field(s1, "accel_y"@) {
            None => None,
            Some((ay, s2)) => match sp_fixed_field(s2, "accel_z"@) {
                None => None,
                Some((az, s3)) => match sp_fixed_field(s3, "gyro_x"@) {
                    None => None,
                    Some((gx, s4)) => match sp_fixed_field(s4, "gyro_y"@) {
                        None => None,
                        Some((gy, s5)) => match sp_fixed_field(s5, "gyro_z"@) {
                            None => None,
                            Some((gz, s6)) => match sp_fixed_field(s6, "mag_x"@) {
                                None => None,
                                Some((mx, s7)) => match sp_fixed_field(s7, "mag_y"@) {
                                    None => None,
                                    Some((my, s8)) => match sp_fixed_field(s8, "mag_z"@) {
                                        None => None,
                                        Some((mz, s9)) => match sp_next(s9, "sampling_rate"@) {
                                            None => None,
                                            Some(s10) => match sp_uint(s10) {
                                                None => None,
                                                Some((sr, s11)) => if sp_end(s11) {
                                                    Some(
                                                        MessageV::Raw(
                                                            RawV {
                                                                accel_x: ax,
                                                                accel_y: ay,
                                                                accel_z: az,
                                                                gyro_x: gx,
                                                                gyro_y: gy,
                                                                gyro_z: gz,
                                                                mag_x: mx,
                                                                mag_y: my,
                                                                mag_z: mz,
                                                                sampling_rate: sr,
                                                            },
                                                        ),
                                                    )
                                                } else {
                                                    None
                                                },
                                            },
                                        },
                                    },
                                },
                            },
                        },
                    },
                },
            },
        },
    }
}

/// Consumes the key/value pairs of an attribute object and its closing
/// brace; the opening brace is already consumed.
pub open spec fn sp_pairs(s: Seq<char>) -> Option<(Seq<(Seq<char>, Seq<char>)>, Seq<char>)>
    decreases s.len(),
{
    let s1 = sp_ws(s);
    if s1.len() > 0 && s1[0] == '}' {
        Some((Seq::empty(), s1.skip(1)))
    } else {
        match sp_string(s1) {
            None => None,
            Some((k, s2)) => match sp_ch(s2, ':') {
                None => None,
                Some(s3) => match sp_string(sp_ws(s3)) {
                    None => None,
                    Some((v, s4)) => {
                        let s5 = sp_ws(s4);
                        if s5.len() > 0 && s5[0] == ',' {
                            if s5.skip(1).len() < s.len() {
                                match sp_pairs(s5.skip(1)) {
                                    None => None,
                                    Some((tail, r)) => Some((seq![(k, v)] + tail, r)),
                                }
                            } else {
                                None
                            }
                        } else if s5.len() > 0 && s5[0] == '}' {
                            Some((seq![(k, v)], s5.skip(1)))
                        } else {
                            None
                        }
                    },
                },
            },
        }
    }
}

/// Consumes the fields of a debug record after its tag.
pub open spec fn sp_msg_body(s: Seq<char>) -> Option<MessageV> {
    match sp_next(s, "body"@) {
        None => None,
        Some(s1) => match sp_string(s1) {
            None => None,
            Some((body, s2)) => match sp_next(s2, "data"@) {
                None => None,
                Some(s3) => match sp_lit(s3, seq!['{']) {
                    None => None,
                    Some(s4) => match sp_pairs(s4) {
                        None => None,
                        Some((data, s5)) => if unique_keys(data) && sp_end(s5) {
                            Some(MessageV::Message(DebugMessageV { body, data }))
                        } else {
                            None
                        },
                    },
                },
            },
        },
    }
}

/// The digit character for one digit value.
pub open spec fn digit_char(n: nat) -> char {
    if n == 0 {
        '0'
    } else if n == 1 {
        '1'
    } else if n == 2 {
        '2'
    } else if n == 3 {
        '3'
    } else if n == 4 {
        '4'
    } else if n == 5 {
        '5'
    } else if n == 6 {
        '6'
    } else if n == 7 {
        '7'
    } else if n == 8 {
        '8'
    } else {
        '9'
    }
}

/// The shortest base-ten numeral for `n`.
pub open spec fn dec_digits(n: nat) -> Seq<char>
    decreases n,
{
    if n < 10 {
        seq![digit_char(n)]
    } else {
        dec_digits(n / 10) + seq![digit_char(n % 10)]
    }
}

/// The last `w` base-ten digits of `n`, zero-padded to width `w`.
pub open spec fn pad_digits(n: nat, w: nat) -> Seq<char>
    decreases w,
{
    if w == 0 {
        Seq::empty()
    } else {
        pad_digits(n / 10, (w - 1) as nat) + seq![digit_char(n % 10)]
    }
}

/// A quoted string.
pub open spec fn enc_string(t: Seq<char>) -> Seq<char> {
    seq!['"'] + t + seq!['"']
}

/// A quoted key followed by its colon.
pub open spec fn enc_field(key: Seq<char>) -> Seq<char> {
    seq!['"'] + key + seq!['"', ':']
}

/// The numeral for a quantity: an optional minus sign, the whole part,
/// a point, and exactly four fractional digits.
pub open spec fn fixed_chars(v: Fixed) -> Seq<char> {
    let mag = (if v.units < 0 {
        -(v.units as int)
    } else {
        v.units as int
    }) as nat;
    let body = dec_digits(mag / 10000) + (seq!['.'] + pad_digits(mag % 10000, 4));
    if v.units < 0 {
        seq!['-'] + body
    } else {
        body
    }
}

/// The attribute pairs of a debug record, comma-separated, closed by the
/// inner brace, and followed by `rest`.
pub open spec fn enc_pairs(d: Seq<(Seq<char>, Seq<char>)>, rest: Seq<char>) -> Seq<char>
    decreases d.len(),
{
    if d.len() == 0 {
        seq!['}'] + rest
    } else {
        enc_string(d[0].0) + (seq![':'] + (enc_string(d[0].1) + (if d.len() == 1 {
            seq!['}'] + rest
        } else {
            seq![','] + enc_pairs(d.skip(1), rest)
        })))
    }
}

/// The canonical record for a Location.
pub open spec fn enc_loc(l: LocationV) -> Seq<char> {
    let t_ur = enc_field("update_rate"@) + (dec_digits(l.update_rate as nat) + seq!['}']);
    let t_mode = enc_field("mode"@) + (enc_string(l.mode) + (seq![','] + t_ur));
    let t_h = match l.h {
        Some(v) => enc_field("h"@) + (fixed_chars(v) + (seq![','] + t_mode)),
        None => t_mode,
    };
    let t_y = enc_field("y"@) + (fixed_chars(l.y) + (seq![','] + t_h));
    let t_x = enc_field("x"@) + (fixed_chars(l.x) + (seq![','] + t_y));
    seq!['{'] + (enc_field("type"@) + (enc_string("LOC"@) + (seq![','] + t_x)))
}

/// The canonical record for a Raw sample.
pub open spec fn enc_raw(r: RawV) -> Seq<char> {
    let t_sr = enc_field("sampling_rate"@) + (dec_digits(r.sampling_rate as nat) + seq!['}']);
    let t_mz = enc_field("mag_z"@) + (fixed_chars(r.mag_z) + (seq![','] + t_sr));
    let t_my = enc_field("mag_y"@) + (fixed_chars(r.mag_y) + (seq![','] + t_mz));
    let t_mx = enc_field("mag_x"@) + (fixed_chars(r.mag_x) + (seq![','] + t_my));
    let t_gz = enc_field("gyro_z"@) + (fixed_chars(r.gyro_z) + (seq![','] + t_mx));
    let t_gy = enc_field("gyro_y"@) + (fixed_chars(r.gyro_y) + (seq![','] + t_gz));
    let t_gx = enc_field("gyro_x"@) + (fixed_chars(r.gyro_x) + (seq![','] + t_gy));
    let t_az = enc_field("accel_z"@) + (fixed_chars(r.accel_z) + (seq![','] + t_gx));
    let t_ay = enc_field("accel_y"@) + (fixed_chars(r.accel_y) + (seq![','] + t_az));
    let t_ax = enc_field("accel_x"@) + (fixed_chars(r.accel_x) + (seq![','] + t_ay));
    seq!['{'] + (enc_field("type"@) + (enc_string("RAW"@) + (seq![','] + t_ax)))
}

/// The canonical record for a debug message.
pub open spec fn enc_msg(d: DebugMessageV) -> Seq<char> {
    let t_data = enc_field("data"@) + (seq!['{'] + enc_pairs(d.data, seq!['}']));
    let t_body = enc_field("body"@) + (enc_string(d.body) + (seq![','] + t_data));
    seq!['{'] + (enc_field("type"@) + (enc_string("MSG"@) + (seq![','] + t_body)))
}

/// The canonical line for a message: what the encoder writes.
pub open spec fn spec_encode(m: MessageV) -> Seq<char> {
    match m {
        MessageV::Location(l) => enc_loc(l),
        MessageV::Raw(r) => enc_raw(r),
        MessageV::Message(d) => enc_msg(d),
    }
}

/// The decode relation: the message a line denotes, or nothing if the line
/// is not a recognized record.
pub open spec fn sp_decode(s: Seq<char>) -> Option<MessageV> {
    match sp_tag(s) {
        None => None,
        Some((tag, r)) => if tag == "LOC"@ {
            sp_loc_body(r)
        } else if tag == "RAW"@ {
            sp_raw_body(r)
        } else if tag == "MSG"@ {
            sp_msg_body(r)
        } else {
            None
        },
    }
}

} // verus!
