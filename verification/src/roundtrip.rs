//! Round-trip law: decoding the canonical line of a well-formed message
//! yields that message back, for every message shape.

use vstd::prelude::*;
use vstd::arithmetic::div_mod::lemma_breakdown;
use crate::grammar::dec_digits;
use crate::grammar::digit_char;
use crate::grammar::digits_val;
use crate::grammar::d_val;
use crate::grammar::enc_field;
use crate::grammar::enc_loc;
use crate::grammar::enc_msg;
use crate::grammar::enc_pairs;
use crate::grammar::enc_raw;
use crate::grammar::enc_string;
use crate::grammar::fixed_chars;
use crate::grammar::fixed_of;
use crate::grammar::frac_units;
use crate::grammar::is_digit;
use crate::grammar::is_ws;
use crate::grammar::pad_digits;
use crate::grammar::pow10;
use crate::grammar::sp_ch;
use crate::grammar::sp_decode;
use crate::grammar::sp_digits;
use crate::grammar::sp_end;
use crate::grammar::sp_field;
use crate::grammar::sp_fixed;
use crate::grammar::sp_fixed_field;
use crate::grammar::sp_lit;
use crate::grammar::sp_loc_body;
use crate::grammar::sp_msg_body;
use crate::grammar::sp_next;
use crate::grammar::sp_pairs;
use crate::grammar::sp_raw_body;
use crate::grammar::sp_string;
use crate::grammar::sp_tag;
use crate::grammar::sp_text;
use crate::grammar::sp_uint;
use crate::grammar::sp_ws;
use crate::grammar::spec_encode;
use crate::msg::Fixed;
use crate::msg::LocationV;
use crate::msg::MessageV;
use crate::msg::RawV;
use crate::msg::DebugMessageV;
use crate::msg::text_char;
use crate::msg::wf_text;

verus! {

/// A digit run: every character is a digit.
pub open spec fn all_digits(ds: Seq<char>) -> bool {
    forall|i: int| 0 <= i < ds.len() ==> is_digit(#[trigger] ds[i])
}

proof fn lemma_lit(lit: Seq<char>, rest: Seq<char>)
    ensures
        sp_lit(lit + rest, lit) == Some(rest),
    decreases lit.len(),
{
    if lit.len() == 0 {
        assert(lit + rest =~= rest);
    } else {
        assert((lit + rest)[0] == lit[0]);
        assert((lit + rest).skip(1) =~= lit.skip(1) + rest);
        lemma_lit(lit.skip(1), rest);
    }
}

proof fn lemma_ch(c: char, rest: Seq<char>)
    requires
        !is_ws(c),
    ensures
        sp_ch(seq![c] + rest, c) == Some(rest),
{
    let s = seq![c] + rest;
    assert(s[0] == c);
    assert(sp_ws(s) == s);
    assert(s.skip(1) =~= rest);
}

proof fn lemma_field(key: Seq<char>, rest: Seq<char>)
    requires
        rest.len() == 0 || !is_ws(rest[0]),
    ensures
        sp_field(enc_field(key) + rest, key) == Some(rest),
{
    let s = enc_field(key) + rest;
    let lit = seq!['"'] + key + seq!['"'];
    assert(s[0] == '"');
    assert(sp_ws(s) == s);
    assert(s =~= lit + (seq![':'] + rest));
    lemma_lit(lit, seq![':'] + rest);
    lemma_ch(':', rest);
    assert(sp_ws(rest) == rest);
}

proof fn lemma_text(t: Seq<char>, rest: Seq<char>)
    requires
        wf_text(t),
    ensures
        sp_text(t + (seq!['"'] + rest)) == Some((t, rest)),
    decreases t.len(),
{
    let s = t + (seq!['"'] + rest);
    if t.len() == 0 {
        assert(s =~= seq!['"'] + rest);
        assert(s[0] == '"');
        assert(s.skip(1) =~= rest);
    } else {
        assert(s[0] == t[0]);
        assert(text_char(t[0]));
        assert(s.skip(1) =~= t.skip(1) + (seq!['"'] + rest));
        lemma_text(t.skip(1), rest);
        assert(seq![t[0]] + t.skip(1) =~= t);
    }
}

proof fn lemma_string(t: Seq<char>, rest: Seq<char>)
    requires
        wf_text(t),
    ensures
        sp_string(enc_string(t) + rest) == Some((t, rest)),
{
    let s = enc_string(t) + rest;
    assert(s[0] == '"');
    assert(s.skip(1) =~= t + (seq!['"'] + rest));
    lemma_text(t, rest);
}

proof fn lemma_digits_scan(ds: Seq<char>, rest: Seq<char>)
    requires
        all_digits(ds),
        rest.len() == 0 || !is_digit(rest[0]),
    ensures
        sp_digits(ds + rest) == (ds, rest),
    decreases ds.len(),
{
    let s = ds + rest;
    if ds.len() == 0 {
        assert(s =~= rest);
        assert(sp_digits(s) == (Seq::<char>::empty(), s));
        assert(Seq::<char>::empty() =~= ds);
    } else {
        assert(s[0] == ds[0]);
        assert(is_digit(ds[0]));
        assert(s.skip(1) =~= ds.skip(1) + rest);
        lemma_digits_scan(ds.skip(1), rest);
        assert(seq![ds[0]] + ds.skip(1) =~= ds);
    }
}

proof fn lemma_dec_digits(n: nat)
    ensures
        dec_digits(n).len() > 0,
        all_digits(dec_digits(n)),
        digits_val(dec_digits(n)) == n,
    decreases n,
{
    if n < 10 {
        let ds = dec_digits(n);
        assert(ds =~= seq![digit_char(n)]);
        assert(ds.drop_last() =~= Seq::<char>::empty());
        assert(digits_val(ds.drop_last()) == 0);
        assert(ds.last() == digit_char(n));
        assert(digits_val(ds) == d_val(digit_char(n)));
    } else {
        lemma_dec_digits(n / 10);
        let hd = dec_digits(n / 10);
        let ds = hd + seq![digit_char(n % 10)];
        assert(ds.drop_last() =~= hd);
        assert(ds.last() == digit_char(n % 10));
        assert(digits_val(ds) == (n / 10) * 10 + n % 10);
    }
}

proof fn lemma_pad_digits(n: nat, w: nat)
    ensures
        pad_digits(n, w).len() == w,
        all_digits(pad_digits(n, w)),
        digits_val(pad_digits(n, w)) == n % pow10(w),
    decreases w,
{
    if w == 0 {
        assert(pow10(0) == 1);
    } else {
        lemma_pad_digits(n / 10, (w - 1) as nat);
        let hd = pad_digits(n / 10, (w - 1) as nat);
        let ds = hd + seq![digit_char(n % 10)];
        assert(ds.drop_last() =~= hd);
        assert(ds.last() == digit_char(n % 10));
        assert(digits_val(ds) == ((n / 10) % pow10((w - 1) as nat)) * 10 + n % 10);
        lemma_pow10_pos((w - 1) as nat);
        lemma_breakdown(n as int, 10, pow10((w - 1) as nat) as int);
        assert(pow10(w) == 10 * pow10((w - 1) as nat));
    }
}

proof fn lemma_pow10_pos(n: nat)
    ensures
        pow10(n) >= 1,
    decreases n,
{
    if n > 0 {
        lemma_pow10_pos((n - 1) as nat);
    }
}

proof fn lemma_fixed(v: Fixed, rest: Seq<char>)
    requires
        v.wf(),
        rest.len() > 0,
        !is_digit(rest[0]),
        rest[0] != '.',
    ensures
        sp_fixed(fixed_chars(v) + rest) == Some((v, rest)),
{
    let mag = (if v.units < 0 {
        -(v.units as int)
    } else {
        v.units as int
    }) as nat;
    let body = dec_digits(mag / 10000) + (seq!['.'] + pad_digits(mag % 10000, 4));
    lemma_dec_digits(mag / 10000);
    lemma_pad_digits(mag % 10000, 4);
    assert(pow10(0) == 1);
    assert(pow10(1) == 10);
    assert(pow10(2) == 100);
    assert(pow10(3) == 1000);
    assert(pow10(4) == 10000);
    let ip = dec_digits(mag / 10000);
    let fp = pad_digits(mag % 10000, 4);
    // the body region parses to the magnitude
    let after_ip = (seq!['.'] + fp) + rest;
    assert(body + rest =~= ip + after_ip);
    assert(!is_digit(after_ip[0]));
    lemma_digits_scan(ip, after_ip);
    assert(after_ip[0] == '.');
    assert(after_ip.skip(1) =~= fp + rest);
    lemma_digits_scan(fp, rest);
    assert(fp.take(4) =~= fp);
    assert(frac_units(fp) == mag % 10000);
    assert(digits_val(ip) * 10000 + frac_units(fp) == mag);
    if v.units < 0 {
        let s = fixed_chars(v) + rest;
        assert(s =~= seq!['-'] + (body + rest));
        assert(s[0] == '-');
        assert(s.skip(1) =~= body + rest);
        assert((body + rest)[0] == ip[0]);
        assert(sp_fixed(s) == fixed_of(true, mag, rest));
        assert(-(mag as int) == v.units as int);
    } else {
        let s = fixed_chars(v) + rest;
        assert(s =~= body + rest);
        assert(s[0] == ip[0]);
        assert(is_digit(ip[0]));
        assert(s[0] != '-');
        assert(sp_fixed(s) == fixed_of(false, mag, rest));
    }
}

proof fn lemma_uint(n: usize, rest: Seq<char>)
    requires
        rest.len() == 0 || !is_digit(rest[0]),
    ensures
        sp_uint(dec_digits(n as nat) + rest) == Some((n, rest)),
{
    lemma_dec_digits(n as nat);
    lemma_digits_scan(dec_digits(n as nat), rest);
}

/// One `,"key":value` region with a numeric value.
proof fn lemma_fixed_field(key: Seq<char>, v: Fixed, rest: Seq<char>)
    requires
        v.wf(),
        rest.len() > 0,
        !is_digit(rest[0]),
        rest[0] != '.',
    ensures
        sp_fixed_field(seq![','] + (enc_field(key) + (fixed_chars(v) + rest)), key) == Some(
            (v, rest),
        ),
{
    let t = enc_field(key) + (fixed_chars(v) + rest);
    lemma_ch(',', t);
    assert(fixed_chars(v).len() > 0) by {
        let mag = (if v.units < 0 {
            -(v.units as int)
        } else {
            v.units as int
        }) as nat;
        lemma_dec_digits(mag / 10000);
    };
    assert((fixed_chars(v) + rest)[0] == fixed_chars(v)[0]);
    assert(!is_ws(fixed_chars(v)[0])) by {
        lemma_fixed_head(v);
    };
    lemma_field(key, fixed_chars(v) + rest);
    lemma_fixed(v, rest);
}

/// The first character of a numeral is a minus sign or a digit.
proof fn lemma_fixed_head(v: Fixed)
    ensures
        fixed_chars(v).len() > 0,
        fixed_chars(v)[0] == '-' || is_digit(fixed_chars(v)[0]),
{
    let mag = (if v.units < 0 {
        -(v.units as int)
    } else {
        v.units as int
    }) as nat;
    lemma_dec_digits(mag / 10000);
    if v.units >= 0 {
        assert(fixed_chars(v)[0] == dec_digits(mag / 10000)[0]);
    }
}

/// A `,"key":` region ahead of any value.
proof fn lemma_next(key: Seq<char>, rest: Seq<char>)
    requires
        rest.len() > 0,
        !is_ws(rest[0]),
    ensures
        sp_next(seq![','] + (enc_field(key) + rest), key) == Some(rest),
{
    lemma_ch(',', enc_field(key) + rest);
    lemma_field(key, rest);
}

/// A region written under one key never parses under a key with another
/// first character.
proof fn lemma_field_mismatch(k1: Seq<char>, k2: Seq<char>, rest: Seq<char>)
    requires
        k1.len() > 0,
        k2.len() > 0,
        k1[0] != k2[0],
        k1[0] != '"',
    ensures
        sp_field(enc_field(k1) + rest, k2) == None::<Seq<char>>,
{
    let s = enc_field(k1) + rest;
    let lit = seq!['"'] + k2 + seq!['"'];
    assert(s[0] == '"');
    assert(sp_ws(s) == s);
    assert(lit[0] == '"');
    assert(s.skip(1)[0] == k1[0]);
    assert(lit.skip(1)[0] == k2[0]);
    assert(lit.skip(1).len() > 0);
    assert(s.skip(1).len() > 0);
    assert(sp_lit(s.skip(1), lit.skip(1)) is None);
    assert(sp_lit(s, lit) is None);
}

proof fn lemma_pairs(d: Seq<(Seq<char>, Seq<char>)>, rest: Seq<char>)
    requires
        forall|i: int| 0 <= i < d.len() ==> wf_text(#[trigger] d[i].0) && wf_text(d[i].1),
    ensures
        sp_pairs(enc_pairs(d, rest)) == Some((d, rest)),
    decreases d.len(),
{
    let s = enc_pairs(d, rest);
    if d.len() == 0 {
        assert(s[0] == '}');
        assert(sp_ws(s) == s);
        assert(s.skip(1) =~= rest);
        assert(Seq::<(Seq<char>, Seq<char>)>::empty() =~= d);
    } else {
        let k0 = d[0].0;
        let v0 = d[0].1;
        let tail = if d.len() == 1 {
            seq!['}'] + rest
        } else {
            seq![','] + enc_pairs(d.skip(1), rest)
        };
        assert(s == enc_string(k0) + (seq![':'] + (enc_string(v0) + tail)));
        assert(s[0] == '"');
        assert(sp_ws(s) == s);
        assert(wf_text(k0) && wf_text(v0));
        lemma_string(k0, seq![':'] + (enc_string(v0) + tail));
        lemma_ch(':', enc_string(v0) + tail);
        assert((enc_string(v0) + tail)[0] == '"');
        assert(sp_ws(enc_string(v0) + tail) == enc_string(v0) + tail);
        lemma_string(v0, tail);
        assert(tail[0] == '}' || tail[0] == ',');
        assert(sp_ws(tail) == tail);
        if d.len() == 1 {
            assert(tail.skip(1) =~= rest);
            assert(seq![(k0, v0)] =~= d);
        } else {
            let s6 = tail.skip(1);
            assert(s6 =~= enc_pairs(d.skip(1), rest));
            assert(s.len() > tail.len());
            assert(forall|i: int|
                0 <= i < d.skip(1).len() ==> wf_text(#[trigger] d.skip(1)[i].0) && wf_text(
                    d.skip(1)[i].1,
                ));
            lemma_pairs(d.skip(1), rest);
            assert(seq![(k0, v0)] + d.skip(1) =~= d);
        }
    }
}

/// The record prefix up to and including the tag string.
proof fn lemma_tag(tag: Seq<char>, rest: Seq<char>)
    requires
        wf_text(tag),
        rest.len() > 0,
        !is_ws(rest[0]),
    ensures
        sp_tag(seq!['{'] + (enc_field("type"@) + (enc_string(tag) + rest))) == Some((tag, rest)),
{
    lemma_ch('{', enc_field("type"@) + (enc_string(tag) + rest));
    assert((enc_string(tag) + rest)[0] == '"');
    lemma_field("type"@, enc_string(tag) + rest);
    lemma_string(tag, rest);
}

proof fn lemma_rt_loc(l: LocationV)
    requires
        l.wf(),
    ensures
        sp_decode(enc_loc(l)) == Some(MessageV::Location(l)),
{
    reveal_strlit("LOC");
    reveal_strlit("mode");
    reveal_strlit("h");
    let t_ur = enc_field("update_rate"@) + (dec_digits(l.update_rate as nat) + seq!['}']);
    let t_mode = enc_field("mode"@) + (enc_string(l.mode) + (seq![','] + t_ur));
    let t_h = match l.h {
        Some(v) => enc_field("h"@) + (fixed_chars(v) + (seq![','] + t_mode)),
        None => t_mode,
    };
    let t_y = enc_field("y"@) + (fixed_chars(l.y) + (seq![','] + t_h));
    let t_x = enc_field("x"@) + (fixed_chars(l.x) + (seq![','] + t_y));
    assert(wf_text("LOC"@));
    lemma_tag("LOC"@, seq![','] + t_x);
    lemma_fixed_field("x"@, l.x, seq![','] + t_y);
    lemma_fixed_field("y"@, l.y, seq![','] + t_h);
    match l.h {
        Some(hv) => {
            lemma_fixed_field("h"@, hv, seq![','] + t_mode);
        },
        None => {
            lemma_ch(',', t_mode);
            lemma_field_mismatch("mode"@, "h"@, enc_string(l.mode) + (seq![','] + t_ur));
            assert(sp_fixed_field(seq![','] + t_h, "h"@) is None);
        },
    }
    assert((enc_string(l.mode) + (seq![','] + t_ur))[0] == '"');
    lemma_next("mode"@, enc_string(l.mode) + (seq![','] + t_ur));
    lemma_string(l.mode, seq![','] + t_ur);
    let t_num = dec_digits(l.update_rate as nat) + seq!['}'];
    lemma_dec_digits(l.update_rate as nat);
    assert(t_num[0] == dec_digits(l.update_rate as nat)[0]);
    assert(is_digit(t_num[0]));
    lemma_next("update_rate"@, t_num);
    lemma_uint(l.update_rate, seq!['}']);
    assert(seq!['}'] =~= seq!['}'] + Seq::<char>::empty());
    lemma_ch('}', Seq::<char>::empty());
    assert(sp_ws(Seq::<char>::empty()).len() == 0);
    assert(sp_end(seq!['}']));
}

#[verifier::rlimit(100)]
proof fn lemma_rt_raw(r: RawV)
    requires
        r.wf(),
    ensures
        sp_decode(enc_raw(r)) == Some(MessageV::Raw(r)),
{
    reveal_strlit("LOC");
    reveal_strlit("RAW");
    let t_sr = enc_field("sampling_rate"@) + (dec_digits(r.sampling_rate as nat) + seq!['}']);
    let t_mz = enc_field("mag_z"@) + (fixed_chars(r.mag_z) + (seq![','] + t_sr));
    let t_my = enc_field("mag_y"@) + (fixed_chars(r.mag_y) + (seq![','] + t_mz));
    let t_mx = enc_field("mag_x"@) + (fixed_chars(r.mag_x) + (seq![','] + t_my));
    let t_gz = enc_field("gyro_z"@) + (fixed_chars(r.gyro_z) + (seq![','] + t_mx));
    let t_gy = enc_field("gyro_y"@) + (fixed_chars(r.gyro_y) + (seq![','] + t_gz));
    let t_gx = enc_field("gyro_x"@) + (fixed_chars(r.gyro_x) + (seq![','] + t_gy));
    let t_az = enc_field("accel_z"@) + (fixed_chars(r.accel_z) + (seq![','] + t_gx));
    let t_ay = enc_field("accel_y"@) + (fixed_chars(r.accel_y) + (seq![','] + t_az));
    let t_ax = enc_field("accel_x"@) + (fixed_chars(r.accel_x) + (seq![','] + t_ay));
    assert(wf_text("RAW"@));
    lemma_tag("RAW"@, seq![','] + t_ax);
    lemma_fixed_field("accel_x"@, r.accel_x, seq![','] + t_ay);
    lemma_fixed_field("accel_y"@, r.accel_y, seq![','] + t_az);
    lemma_fixed_field("accel_z"@, r.accel_z, seq![','] + t_gx);
    lemma_fixed_field("gyro_x"@, r.gyro_x, seq![','] + t_gy);
    lemma_fixed_field("gyro_y"@, r.gyro_y, seq![','] + t_gz);
    lemma_fixed_field("gyro_z"@, r.gyro_z, seq![','] + t_mx);
    lemma_fixed_field("mag_x"@, r.mag_x, seq![','] + t_my);
    lemma_fixed_field("mag_y"@, r.mag_y, seq![','] + t_mz);
    lemma_fixed_field("mag_z"@, r.mag_z, seq![','] + t_sr);
    let t_num = dec_digits(r.sampling_rate as nat) + seq!['}'];
    lemma_dec_digits(r.sampling_rate as nat);
    assert(t_num[0] == dec_digits(r.sampling_rate as nat)[0]);
    assert(is_digit(t_num[0]));
    lemma_next("sampling_rate"@, t_num);
    lemma_uint(r.sampling_rate, seq!['}']);
    assert(seq!['}'] =~= seq!['}'] + Seq::<char>::empty());
    lemma_ch('}', Seq::<char>::empty());
    assert(sp_ws(Seq::<char>::empty()).len() == 0);
    assert(sp_end(seq!['}']));
    let s0 = seq![','] + t_ax;
    assert("RAW"@[0] != "LOC"@[0]);
    assert("RAW"@ != "LOC"@);
    assert(sp_tag(enc_raw(r)) == Some(("RAW"@, s0)));
    assert(sp_fixed_field(s0, "accel_x"@) == Some((r.accel_x, seq![','] + t_ay)));
    assert(sp_fixed_field(seq![','] + t_ay, "accel_y"@) == Some((r.accel_y, seq![','] + t_az)));
    assert(sp_fixed_field(seq![','] + t_az, "accel_z"@) == Some((r.accel_z, seq![','] + t_gx)));
    assert(sp_fixed_field(seq![','] + t_gx, "gyro_x"@) == Some((r.gyro_x, seq![','] + t_gy)));
    assert(sp_fixed_field(seq![','] + t_gy, "gyro_y"@) == Some((r.gyro_y, seq![','] + t_gz)));
    assert(sp_fixed_field(seq![','] + t_gz, "gyro_z"@) == Some((r.gyro_z, seq![','] + t_mx)));
    assert(sp_fixed_field(seq![','] + t_mx, "mag_x"@) == Some((r.mag_x, seq![','] + t_my)));
    assert(sp_fixed_field(seq![','] + t_my, "mag_y"@) == Some((r.mag_y, seq![','] + t_mz)));
    assert(sp_fixed_field(seq![','] + t_mz, "mag_z"@) == Some((r.mag_z, seq![','] + t_sr)));
    assert(sp_next(seq![','] + t_sr, "sampling_rate"@) == Some(t_num));
    assert(sp_uint(t_num) == Some((r.sampling_rate, seq!['}'])));
    assert(sp_raw_body(s0) == Some(MessageV::Raw(r)));
}

proof fn lemma_rt_msg(d: DebugMessageV)
    requires
        d.wf(),
    ensures
        sp_decode(enc_msg(d)) == Some(MessageV::Message(d)),
{
    reveal_strlit("LOC");
    reveal_strlit("RAW");
    reveal_strlit("MSG");
    let t_data = enc_field("data"@) + (seq!['{'] + enc_pairs(d.data, seq!['}']));
    let t_body = enc_field("body"@) + (enc_string(d.body) + (seq![','] + t_data));
    assert(wf_text("MSG"@));
    lemma_tag("MSG"@, seq![','] + t_body);
    assert((enc_string(d.body) + (seq![','] + t_data))[0] == '"');
    lemma_next("body"@, enc_string(d.body) + (seq![','] + t_data));
    lemma_string(d.body, seq![','] + t_data);
    assert((seq!['{'] + enc_pairs(d.data, seq!['}']))[0] == '{');
    lemma_next("data"@, seq!['{'] + enc_pairs(d.data, seq!['}']));
    lemma_lit(seq!['{'], enc_pairs(d.data, seq!['}']));
    lemma_pairs(d.data, seq!['}']);
    assert(seq!['}'] =~= seq!['}'] + Seq::<char>::empty());
    lemma_ch('}', Seq::<char>::empty());
    assert(sp_ws(Seq::<char>::empty()).len() == 0);
    assert(sp_end(seq!['}']));
    let s0 = seq![','] + t_body;
    assert("MSG"@[0] != "LOC"@[0]);
    assert("MSG"@ != "LOC"@);
    assert("MSG"@[0] != "RAW"@[0]);
    assert("MSG"@ != "RAW"@);
    assert(sp_tag(enc_msg(d)) == Some(("MSG"@, s0)));
    assert(sp_next(s0, "body"@) == Some(enc_string(d.body) + (seq![','] + t_data)));
    assert(sp_string(enc_string(d.body) + (seq![','] + t_data)) == Some(
        (d.body, seq![','] + t_data),
    ));
    assert(sp_next(seq![','] + t_data, "data"@) == Some(seq!['{'] + enc_pairs(d.data, seq!['}'])));
    assert(sp_lit(seq!['{'] + enc_pairs(d.data, seq!['}']), seq!['{']) == Some(
        enc_pairs(d.data, seq!['}']),
    ));
    assert(sp_pairs(enc_pairs(d.data, seq!['}'])) == Some((d.data, seq!['}'])));
    assert(sp_msg_body(s0) == Some(MessageV::Message(d)));
}

/// Round trip: the canonical line of any well-formed message decodes to
/// exactly that message, whatever its shape.
pub proof fn lemma_round_trip(m: MessageV)
    requires
        m.wf(),
    ensures
        sp_decode(spec_encode(m)) == Some(m),
{
    match m {
        MessageV::Location(l) => lemma_rt_loc(l),
        MessageV::Raw(r) => lemma_rt_raw(r),
        MessageV::Message(d) => lemma_rt_msg(d),
    }
}

/// A record whose tag is none of the three known shapes is not recognized,
/// whatever follows the tag; decoding yields no message rather than an
/// error.
pub proof fn lemma_unknown_tag(s: Seq<char>, tag: Seq<char>, rest: Seq<char>)
    requires
        sp_tag(s) == Some((tag, rest)),
        tag != "LOC"@,
        tag != "RAW"@,
        tag != "MSG"@,
    ensures
        sp_decode(s) is None,
{
}

} // verus!
