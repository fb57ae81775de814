//! Reading back what was written: every value that the encoder renders is
//! read by the decoder as that same value.
use vstd::prelude::*;
use vstd::seq_lib::lemma_concat_associative;
use crate::scan::{
    escape, json_string, lemma_string_body, lemma_with_prefix, punct, string_body, with_prefix, ws,
};
use crate::scan::{digit_run, digits_value, is_digit, json_int, skip_value};
use crate::decode::{
    array_items, json_array, json_object, members, no_pricing_slots, pricing_step, pricing_step_fn,
    pricing_value, single_step, single_value, PricingSlots, ModelSlots, model_step, i64_value, u64_value,
    input_modality_fn, output_modality_fn, quantization_value, sampling_parameter_fn, feature_fn,
    datacenter_fn, model_fn, model_step_fn, model_value, no_model_slots, parse_response,
    response_step_fn,
};
use crate::encode::{
    array_text, datacenters_text, features_text, input_modalitys_text, join, member, model_text,
    opt_member, opt_quoted, output_modalitys_text, pricing_text, response_text,
    sampling_parameters_text, single_text,
};
use crate::model::{ListModelsResponse, ModelView, Feature, InputModality, OutputModality, PricingView, Quantization, SamplingParameter};
use crate::text::{dchar, digits, escape_char, escaped, hchar, int_text, quoted};

verus! {

proof fn lemma_escaped_front(c: char, t: Seq<char>)
    ensures
        escaped(seq![c] + t) == escape_char(c) + escaped(t),
    decreases t.len(),
{
    let u = seq![c] + t;
    if t.len() == 0 {
        assert(u.drop_last() =~= Seq::<char>::empty());
        assert(u.last() == c);
        assert(escaped(u.drop_last()) == Seq::<char>::empty());
        assert(escaped(t) == Seq::<char>::empty());
        assert(escaped(u) =~= escape_char(c) + escaped(t));
    } else {
        assert(u.drop_last() =~= seq![c] + t.drop_last());
        lemma_escaped_front(c, t.drop_last());
        assert(escaped(u) =~= escape_char(c) + escaped(t));
    }
}

proof fn lemma_hex_digit(d: nat)
    requires
        d < 16,
    ensures
        crate::scan::hex_val(hchar(d)) == Some(d),
{
}

#[verifier::rlimit(30)]
proof fn lemma_read_control_char(c: char, more: Seq<char>)
    requires
        (c as u32) < 32,
        c != '\n' && c != '\r' && c != '\t' && c as u32 != 8 && c as u32 != 12,
    ensures
        crate::scan::escape(escape_char(c) + more) == Some((c, 6int)),
        (escape_char(c) + more).skip(6) == more,
        (escape_char(c) + more)[0] == '\\',
{
    reveal(escape);
    let s = escape_char(c) + more;
    let v = c as u32;
    assert(s[0] == '\\');
    lemma_hex_digit((v / 16) as nat);
    lemma_hex_digit((v % 16) as nat);
    assert(s.skip(6) =~= more);
    let h = s.skip(2);
    assert(h[0] == '0');
    assert(h[1] == '0');
    assert(h[2] == hchar((v / 16) as nat));
    assert(h[3] == hchar((v % 16) as nat));
    assert(crate::scan::hex4(h) == Some(v as nat));
}

/// One escaped character is read back as that character.
#[verifier::rlimit(30)]
proof fn lemma_read_escape_char(c: char, more: Seq<char>)
    ensures
        string_body(escape_char(c) + more) == with_prefix(seq![c], string_body(more)),
{
    let s = escape_char(c) + more;
    reveal(escape);
    lemma_string_body(s);
    let v = c as u32;
    if c == '"' || c == '\\' || c == '\n' || c == '\r' || c == '\t' || v == 8 || v == 12 {
        assert(s[0] == '\\');
        assert(s.skip(2) =~= more);
        assert(v == 8 ==> c == 8u8 as char);
        assert(v == 12 ==> c == 12u8 as char);
    } else if v < 32 {
        lemma_read_control_char(c, more);
    } else {
        assert(s.drop_first() =~= more);
    }
}

/// A string's escaped characters and closing quote are read back as the
/// string, leaving what follows.
proof fn lemma_read_escaped(x: Seq<char>, rest: Seq<char>)
    ensures
        string_body(escaped(x) + seq!['"'] + rest) == Some((x, rest)),
    decreases x.len(),
{
    if x.len() == 0 {
        let s = escaped(x) + seq!['"'] + rest;
        assert(s =~= seq!['"'] + rest);
        lemma_string_body(s);
        assert(s.drop_first() =~= rest);
    } else {
        let x0 = x[0];
        let xt = x.drop_first();
        assert(x =~= seq![x0] + xt);
        lemma_escaped_front(x0, xt);
        let more = escaped(xt) + seq!['"'] + rest;
        assert(escaped(x) + seq!['"'] + rest =~= escape_char(x0) + more);
        lemma_read_escape_char(x0, more);
        lemma_read_escaped(xt, rest);
        assert(seq![x0] + xt =~= x);
    }
}

/// A string literal as written is read back as the string.
pub proof fn lemma_string_round_trip(x: Seq<char>, rest: Seq<char>)
    ensures
        json_string(quoted(x) + rest) == Some((x, rest)),
{
    let s = quoted(x) + rest;
    assert(s[0] == '"');
    assert(ws(s) == s);
    assert(s.drop_first() =~= escaped(x) + seq!['"'] + rest);
    lemma_read_escaped(x, rest);
}

/// Whether `rest` may follow a number in what the encoder writes.
pub open spec fn ends_number(rest: Seq<char>) -> bool {
    rest.len() == 0 || rest[0] == ',' || rest[0] == '}' || rest[0] == ']'
}

proof fn lemma_digits_shape(n: nat)
    ensures
        digits(n).len() >= 1,
        forall|i: int| 0 <= i < digits(n).len() ==> is_digit(#[trigger] digits(n)[i]),
        n >= 1 ==> digits(n)[0] != '0',
        digits_value(digits(n)) == n,
    decreases n,
{
    if n >= 10 {
        lemma_digits_shape(n / 10);
        let d = digits(n);
        assert(d.drop_last() =~= digits(n / 10));
        assert(d.last() == dchar(n % 10));
        assert forall|i: int| 0 <= i < d.len() implies is_digit(#[trigger] d[i]) by {
            if i < d.len() - 1 {
                assert(d[i] == digits(n / 10)[i]);
            }
        }
        assert(d[0] == digits(n / 10)[0]);
        assert((dchar(n % 10) as u32 - 48) as nat == n % 10);
        vstd::arithmetic::div_mod::lemma_fundamental_div_mod(n as int, 10);
        assert(digits_value(d) == digits_value(d.drop_last()) * 10 + (d.last() as u32 - 48) as nat);
        assert(digits_value(d) == (n / 10) * 10 + n % 10);
    } else {
        let d = digits(n);
        assert(d.drop_last() =~= Seq::<char>::empty());
        assert((dchar(n) as u32 - 48) as nat == n);
        assert(d.last() == dchar(n));
        assert(digits_value(d.drop_last()) == 0);
        assert(digits_value(d) == digits_value(d.drop_last()) * 10 + (d.last() as u32 - 48) as nat);
    }
}

proof fn lemma_digit_run_of(d: Seq<char>, rest: Seq<char>)
    requires
        forall|i: int| 0 <= i < d.len() ==> is_digit(#[trigger] d[i]),
        rest.len() == 0 || !is_digit(rest[0]),
    ensures
        digit_run(d + rest) == d.len(),
    decreases d.len(),
{
    let s = d + rest;
    if d.len() > 0 {
        assert(s[0] == d[0]);
        assert(s.drop_first() =~= d.drop_first() + rest);
        lemma_digit_run_of(d.drop_first(), rest);
    } else {
        assert(s =~= rest);
    }
}

/// An integer literal as written is read back as the integer.
pub proof fn lemma_int_round_trip(n: int, rest: Seq<char>)
    requires
        ends_number(rest),
    ensures
        json_int(int_text(n) + rest) == Some((n, rest)),
{
    let m: nat = if n < 0 { (-n) as nat } else { n as nat };
    lemma_digits_shape(m);
    let d = digits(m);
    let s = int_text(n) + rest;
    let u = d + rest;
    if n < 0 {
        assert(s[0] == '-');
        assert(s.drop_first() =~= u);
    } else {
        assert(s =~= u);
        assert(is_digit(s[0]));
    }
    assert(ws(s) == s);
    lemma_digit_run_of(d, rest);
    assert(u.skip(d.len() as int) =~= rest);
    assert(u.take(d.len() as int) =~= d);
    if d.len() > 1 {
        assert(m >= 10) by {
            if m < 10 {
                assert(digits(m).len() == 1);
            }
        }
        assert(u[0] == d[0]);
    }
}

proof fn lemma_join_front(a: Seq<char>, t: Seq<Seq<char>>)
    ensures
        join(seq![a] + t) == if t.len() == 0 {
            a
        } else {
            a + seq![','] + join(t)
        },
    decreases t.len(),
{
    let u = seq![a] + t;
    if t.len() == 0 {
        assert(u =~= seq![a]);
    } else if t.len() == 1 {
        assert(u.drop_last() =~= seq![a]);
        assert(join(seq![a]) == a);
    } else {
        assert(u.drop_last() =~= seq![a] + t.drop_last());
        lemma_join_front(a, t.drop_last());
        assert(u.last() == t.last());
        assert(join(u) =~= a + seq![','] + join(t));
    }
}

/// Whether an item written by `enc` starts with a quote or a brace.
pub open spec fn starts_value<T>(enc: spec_fn(T) -> Seq<char>, x: T) -> bool {
    enc(x).len() > 0 && (enc(x)[0] == '"' || enc(x)[0] == '{')
}

/// Whether `p` reads back each of `items` as written by `enc`, when a comma
/// or a closing bracket follows.
pub open spec fn reads_back<T>(
    items: Seq<T>,
    enc: spec_fn(T) -> Seq<char>,
    p: spec_fn(Seq<char>) -> Option<(T, Seq<char>)>,
) -> bool {
    forall|i: int, r: Seq<char>|
        0 <= i < items.len() && r.len() > 0 && (r[0] == ',' || r[0] == ']') ==> {
            &&& #[trigger] p(enc(items[i]) + r) == Some((items[i], r))
            &&& starts_value(enc, items[i])
        }
}

proof fn lemma_items_round_trip<T>(
    items: Seq<T>,
    enc: spec_fn(T) -> Seq<char>,
    p: spec_fn(Seq<char>) -> Option<(T, Seq<char>)>,
    rest: Seq<char>,
)
    requires
        items.len() > 0,
        reads_back(items, enc, p),
    ensures
        array_items(join(items.map_values(enc)) + seq![']'] + rest, p) == Some((items, rest)),
    decreases items.len(),
{
    let es = items.map_values(enc);
    let x0 = items[0];
    let tail = items.drop_first();
    let tes = tail.map_values(enc);
    assert(es =~= seq![enc(x0)] + tes);
    lemma_join_front(enc(x0), tes);
    let s = join(es) + seq![']'] + rest;
    if tail.len() == 0 {
        let r = seq![']'] + rest;
        assert(s =~= enc(x0) + r);
        assert(p(enc(items[0]) + r) == Some((items[0], r)));
        assert(ws(r) == r);
        assert(r.drop_first() =~= rest);
        assert(items =~= seq![x0]);
    } else {
        let r2 = join(tes) + seq![']'] + rest;
        let r = seq![','] + r2;
        assert(s =~= enc(x0) + r);
        assert(p(enc(items[0]) + r) == Some((items[0], r)));
        assert(ws(r) == r);
        assert(r.drop_first() =~= r2);
        assert(reads_back(tail, enc, p)) by {
            assert forall|i: int, q: Seq<char>|
                0 <= i < tail.len() && q.len() > 0 && (q[0] == ',' || q[0] == ']') implies {
                    &&& #[trigger] p(enc(tail[i]) + q) == Some((tail[i], q))
                    &&& starts_value(enc, tail[i])
                } by {
                assert(tail[i] == items[i + 1]);
                assert(p(enc(items[i + 1]) + q) == Some((items[i + 1], q)));
            }
        }
        lemma_items_round_trip(tail, enc, p, rest);
        assert(seq![x0] + tail =~= items);
    }
}

/// An array as written is read back item by item, when each item is.
pub proof fn lemma_array_round_trip<T>(
    items: Seq<T>,
    enc: spec_fn(T) -> Seq<char>,
    p: spec_fn(Seq<char>) -> Option<(T, Seq<char>)>,
    rest: Seq<char>,
)
    requires
        reads_back(items, enc, p),
    ensures
        json_array(array_text(items.map_values(enc)) + rest, p) == Some((items, rest)),
{
    let s = array_text(items.map_values(enc)) + rest;
    let u = join(items.map_values(enc)) + seq![']'] + rest;
    assert(s[0] == '[');
    assert(ws(s) == s);
    assert(s.drop_first() =~= u);
    if items.len() == 0 {
        assert(join(items.map_values(enc)) == Seq::<char>::empty());
        assert(u =~= seq![']'] + rest);
        assert(ws(u) == u);
        assert(u.drop_first() =~= rest);
        assert(items =~= Seq::<T>::empty());
    } else {
        let es = items.map_values(enc);
        assert(es =~= seq![enc(items[0])] + es.drop_first());
        lemma_join_front(enc(items[0]), es.drop_first());
        let q = seq![']'];
        assert(p(enc(items[0]) + (seq![']'] + rest)) == Some((items[0], seq![']'] + rest)));
        assert(u[0] == enc(items[0])[0]);
        assert(ws(u) == u);
        lemma_items_round_trip(items, enc, p, rest);
    }
}

/// Reading the members of an object, kept folded while proofs chain steps.
#[verifier::opaque]
pub open spec fn reading_members<S>(s: Seq<char>, acc: S, step: spec_fn(Seq<char>, Seq<char>, S) -> Option<(S, Seq<char>)>) -> Option<(S, Seq<char>)> {
    members(s, acc, step)
}

/// What reading an object does after a member's value: on to the next member
/// after a comma, or done after the closing brace.
#[verifier::opaque]
pub open spec fn resume<S>(r: Seq<char>, acc: S, step: spec_fn(Seq<char>, Seq<char>, S) -> Option<(S, Seq<char>)>) -> Option<(S, Seq<char>)> {
    if r.len() > 0 && r[0] == ',' {
        members(r.drop_first(), acc, step)
    } else if r.len() > 0 && r[0] == '}' {
        Some((acc, r.drop_first()))
    } else {
        None
    }
}

pub open spec fn ends_member(r: Seq<char>) -> bool {
    r.len() > 0 && (r[0] == ',' || r[0] == '}')
}

proof fn lemma_member<S>(
    k: Seq<char>,
    v: Seq<char>,
    r: Seq<char>,
    acc: S,
    acc2: S,
    step: spec_fn(Seq<char>, Seq<char>, S) -> Option<(S, Seq<char>)>,
)
    requires
        ends_member(r),
        step(k, v + r, acc) == Some((acc2, r)),
    ensures
        members(member(k, v) + r, acc, step) == resume(r, acc2, step),
{
    reveal(resume);
    let s = member(k, v) + r;
    let after = seq![':'] + v + r;
    assert(s =~= quoted(k) + after);
    lemma_string_round_trip(k, after);
    assert(ws(after) == after);
    assert(after.drop_first() =~= v + r);
    assert(ws(r) == r);
}

proof fn lemma_opt_member<S>(
    k: Seq<char>,
    ov: Option<Seq<char>>,
    r: Seq<char>,
    acc: S,
    acc2: S,
    step: spec_fn(Seq<char>, Seq<char>, S) -> Option<(S, Seq<char>)>,
)
    requires
        ends_member(r),
        ov is Some ==> step(k, ov->0 + r, acc) == Some((acc2, r)),
    ensures
        resume(opt_member(k, ov) + r, acc, step) == if ov is Some {
            resume(r, acc2, step)
        } else {
            resume(r, acc, step)
        },
{
    reveal(resume);
    match ov {
        Some(v) => {
            let s = opt_member(k, ov) + r;
            assert(s[0] == ',');
            assert(s.drop_first() =~= member(k, v) + r);
            lemma_member(k, v, r, acc, acc2, step);
        },
        None => {
            assert(opt_member(k, ov) + r =~= r);
        },
    }
}

proof fn lemma_resume_end<S>(rest: Seq<char>, acc: S, step: spec_fn(Seq<char>, Seq<char>, S) -> Option<(S, Seq<char>)>)
    ensures
        resume(seq!['}'] + rest, acc, step) == Some((acc, rest)),
{
    reveal(resume);
    assert((seq!['}'] + rest).drop_first() =~= rest);
}

/// An object whose first member is `first`: reading it is resuming after
/// that member's value.
proof fn lemma_object_start<S>(body: Seq<char>, init: S, step: spec_fn(Seq<char>, Seq<char>, S) -> Option<(S, Seq<char>)>)
    requires
        body.len() > 0 && body[0] == '"',
    ensures
        json_object(seq!['{'] + body, init, step) == members(body, init, step),
{
    let s = seq!['{'] + body;
    assert(ws(s) == s);
    assert(s.drop_first() =~= body);
    assert(ws(body) == body);
}

/// A record with one string member, as written, is read back.
pub proof fn lemma_single_round_trip(key: Seq<char>, x: Seq<char>, rest: Seq<char>)
    ensures
        single_value(single_text(key, x) + rest, key) == Some((x, rest)),
{
    reveal(resume);
    let r = seq!['}'] + rest;
    let body = member(key, quoted(x)) + r;
    assert(single_text(key, x) + rest =~= seq!['{'] + body);
    assert(body[0] == '"');
    lemma_object_start(body, None, single_step(key));
    lemma_string_round_trip(x, r);
    assert(quoted(x) + r == quoted(x) + r);
    lemma_member(key, quoted(x), r, None::<Seq<char>>, Some(x), single_step(key));
    lemma_resume_end(rest, Some(x), single_step(key));
}

proof fn lemma_pricing_step_prompt(v: Seq<char>, r: Seq<char>, acc: PricingSlots, x: Seq<char>)
    requires
        acc.prompt is None,
        ({ let u = v + r; json_string(u) }) == Some((x, r)),
    ensures
        pricing_step("prompt"@, v + r, acc) == Some((PricingSlots { prompt: Some(x), ..acc }, r)),
{
    reveal_strlit("prompt");
}

proof fn lemma_pricing_step_completion(v: Seq<char>, r: Seq<char>, acc: PricingSlots, x: Seq<char>)
    requires
        acc.completion is None,
        ({ let u = v + r; json_string(u) }) == Some((x, r)),
    ensures
        pricing_step("completion"@, v + r, acc) == Some((PricingSlots { completion: Some(x), ..acc }, r)),
{
    reveal_strlit("prompt");
    reveal_strlit("completion");
    assert("completion"@.len() != "prompt"@.len());
}

proof fn lemma_pricing_step_image(v: Seq<char>, r: Seq<char>, acc: PricingSlots, x: Seq<char>)
    requires
        acc.image is None,
        ({ let u = v + r; json_string(u) }) == Some((x, r)),
    ensures
        pricing_step("image"@, v + r, acc) == Some((PricingSlots { image: Some(x), ..acc }, r)),
{
    reveal_strlit("prompt");
    reveal_strlit("completion");
    reveal_strlit("image");
    assert("image"@.len() != "prompt"@.len());
    assert("image"@.len() != "completion"@.len());
}

proof fn lemma_pricing_step_request(v: Seq<char>, r: Seq<char>, acc: PricingSlots, x: Seq<char>)
    requires
        acc.request is None,
        ({ let u = v + r; json_string(u) }) == Some((x, r)),
    ensures
        pricing_step("request"@, v + r, acc) == Some((PricingSlots { request: Some(x), ..acc }, r)),
{
    reveal_strlit("prompt");
    reveal_strlit("completion");
    reveal_strlit("image");
    reveal_strlit("request");
    assert("request"@.len() != "prompt"@.len());
    assert("request"@.len() != "completion"@.len());
    assert("request"@.len() != "image"@.len());
}

proof fn lemma_pricing_step_input_cache_read(v: Seq<char>, r: Seq<char>, acc: PricingSlots, x: Seq<char>)
    requires
        acc.input_cache_read is None,
        ({ let u = v + r; json_string(u) }) == Some((x, r)),
    ensures
        pricing_step("input_cache_read"@, v + r, acc) == Some((PricingSlots { input_cache_read: Some(x), ..acc }, r)),
{
    reveal_strlit("prompt");
    reveal_strlit("completion");
    reveal_strlit("image");
    reveal_strlit("request");
    reveal_strlit("input_cache_read");
    assert("input_cache_read"@.len() != "prompt"@.len());
    assert("input_cache_read"@.len() != "completion"@.len());
    assert("input_cache_read"@.len() != "image"@.len());
    assert("input_cache_read"@.len() != "request"@.len());
}

proof fn lemma_pricing_step_input_cache_write(v: Seq<char>, r: Seq<char>, acc: PricingSlots, x: Seq<char>)
    requires
        acc.input_cache_write is None,
        ({ let u = v + r; json_string(u) }) == Some((x, r)),
    ensures
        pricing_step("input_cache_write"@, v + r, acc) == Some((PricingSlots { input_cache_write: Some(x), ..acc }, r)),
{
    reveal_strlit("prompt");
    reveal_strlit("completion");
    reveal_strlit("image");
    reveal_strlit("request");
    reveal_strlit("input_cache_read");
    reveal_strlit("input_cache_write");
    assert("input_cache_write"@.len() != "prompt"@.len());
    assert("input_cache_write"@.len() != "completion"@.len());
    assert("input_cache_write"@.len() != "image"@.len());
    assert("input_cache_write"@.len() != "request"@.len());
    assert("input_cache_write"@.len() != "input_cache_read"@.len());
}

proof fn lemma_pricing_shape(p: PricingView, rest: Seq<char>)
    ensures
        pricing_text(p) + rest == seq!['{'] + (member("prompt"@, quoted(p.prompt)) + (seq![','] + (
        member("completion"@, quoted(p.completion)) + (opt_member("image"@, opt_quoted(p.image)) + (
        opt_member("request"@, opt_quoted(p.request)) + (opt_member(
            "input_cache_read"@,
            opt_quoted(p.input_cache_read),
        ) + (opt_member("input_cache_write"@, opt_quoted(p.input_cache_write)) + (seq!['}']
            + rest)))))))),
{
    let m1 = member("prompt"@, quoted(p.prompt));
    let m2 = member("completion"@, quoted(p.completion));
    let o1 = opt_member("image"@, opt_quoted(p.image));
    let o2 = opt_member("request"@, opt_quoted(p.request));
    let o3 = opt_member("input_cache_read"@, opt_quoted(p.input_cache_read));
    let o4 = opt_member("input_cache_write"@, opt_quoted(p.input_cache_write));
    let x1 = seq!['{'] + m1;
    let x2 = x1 + seq![','];
    let x3 = x2 + m2;
    let x4 = x3 + o1;
    let x5 = x4 + o2;
    let x6 = x5 + o3;
    let x7 = x6 + o4;
    let t7 = seq!['}'] + rest;
    let t6 = o4 + t7;
    let t5 = o3 + t6;
    let t4 = o2 + t5;
    let t3 = o1 + t4;
    let t2 = m2 + t3;
    let t1 = seq![','] + t2;
    let t0 = m1 + t1;
    lemma_concat_associative(x7, seq!['}'], rest);
    lemma_concat_associative(x6, o4, t7);
    lemma_concat_associative(x5, o3, t6);
    lemma_concat_associative(x4, o2, t5);
    lemma_concat_associative(x3, o1, t4);
    lemma_concat_associative(x2, m2, t3);
    lemma_concat_associative(x1, seq![','], t2);
    lemma_concat_associative(seq!['{'], m1, t1);
}

proof fn lemma_opt_prefix(o: Seq<char>, ov: Option<Seq<char>>, k: Seq<char>, r: Seq<char>)
    requires
        o == opt_member(k, opt_quoted(ov)),
        ends_member(r),
    ensures
        ends_member(o + r),
{
    if ov is Some {
        assert((o + r)[0] == ',');
    } else {
        assert(o + r =~= r);
    }
}

/// A `Pricing` as written is read back.
pub proof fn lemma_pricing_round_trip(p: PricingView, rest: Seq<char>)
    ensures
        pricing_value(pricing_text(p) + rest) == Some((p, rest)),
{
    reveal(resume);
    let step = pricing_step_fn();
    let end = seq!['}'] + rest;
    let o4 = opt_member("input_cache_write"@, opt_quoted(p.input_cache_write));
    let o3 = opt_member("input_cache_read"@, opt_quoted(p.input_cache_read));
    let o2 = opt_member("request"@, opt_quoted(p.request));
    let o1 = opt_member("image"@, opt_quoted(p.image));
    let r4 = o4 + end;
    let r3 = o3 + r4;
    let r2 = o2 + r3;
    let r1 = o1 + r2;
    let c = member("completion"@, quoted(p.completion)) + r1;
    let r0 = seq![','] + c;
    let body = member("prompt"@, quoted(p.prompt)) + r0;
    lemma_pricing_shape(p, rest);
    assert(body[0] == '"');
    lemma_object_start(body, no_pricing_slots(), step);
    let a0 = no_pricing_slots();
    let a1 = PricingSlots { prompt: Some(p.prompt), ..a0 };
    let a2 = PricingSlots { completion: Some(p.completion), ..a1 };
    let a3 = PricingSlots { image: p.image, ..a2 };
    let a4 = PricingSlots { request: p.request, ..a3 };
    let a5 = PricingSlots { input_cache_read: p.input_cache_read, ..a4 };
    let a6 = PricingSlots { input_cache_write: p.input_cache_write, ..a5 };
    assert(ends_member(end));
    lemma_opt_prefix(o4, p.input_cache_write, "input_cache_write"@, end);
    lemma_opt_prefix(o3, p.input_cache_read, "input_cache_read"@, r4);
    lemma_opt_prefix(o2, p.request, "request"@, r3);
    lemma_opt_prefix(o1, p.image, "image"@, r2);
    assert(ends_member(r0));
    lemma_string_round_trip(p.prompt, r0);
    lemma_pricing_step_prompt(quoted(p.prompt), r0, a0, p.prompt);
    lemma_member("prompt"@, quoted(p.prompt), r0, a0, a1, step);
    assert(r0.drop_first() =~= c);
    lemma_string_round_trip(p.completion, r1);
    lemma_pricing_step_completion(quoted(p.completion), r1, a1, p.completion);
    lemma_member("completion"@, quoted(p.completion), r1, a1, a2, step);
    if let Some(x) = p.image {
        lemma_string_round_trip(x, r2);
        lemma_pricing_step_image(quoted(x), r2, a2, x);
    }
    lemma_opt_member("image"@, opt_quoted(p.image), r2, a2, a3, step);
    if let Some(x) = p.request {
        lemma_string_round_trip(x, r3);
        lemma_pricing_step_request(quoted(x), r3, a3, x);
    }
    lemma_opt_member("request"@, opt_quoted(p.request), r3, a3, a4, step);
    if let Some(x) = p.input_cache_read {
        lemma_string_round_trip(x, r4);
        lemma_pricing_step_input_cache_read(quoted(x), r4, a4, x);
    }
    lemma_opt_member("input_cache_read"@, opt_quoted(p.input_cache_read), r4, a4, a5, step);
    if let Some(x) = p.input_cache_write {
        lemma_string_round_trip(x, end);
        lemma_pricing_step_input_cache_write(quoted(x), end, a5, x);
    }
    lemma_opt_member("input_cache_write"@, opt_quoted(p.input_cache_write), end, a5, a6, step);
    lemma_resume_end(rest, a6, step);
}

proof fn lemma_model_step_id(v: Seq<char>, r: Seq<char>, acc: ModelSlots, x: Seq<char>)
    requires
        acc.id is None,
        ({ let u = v + r; json_string(u) }) == Some((x, r)),
    ensures
        model_step("id"@, v + r, acc) == Some((ModelSlots { id: Some(x), ..acc }, r)),
{
    reveal_strlit("id");
}

proof fn lemma_model_step_name(v: Seq<char>, r: Seq<char>, acc: ModelSlots, x: Seq<char>)
    requires
        acc.name is None,
        ({ let u = v + r; json_string(u) }) == Some((x, r)),
    ensures
        model_step("name"@, v + r, acc) == Some((ModelSlots { name: Some(x), ..acc }, r)),
{
    reveal_strlit("id");
    reveal_strlit("name");
    assert("name"@.len() != "id"@.len());
}

proof fn lemma_model_step_created(v: Seq<char>, r: Seq<char>, acc: ModelSlots, x: i64)
    requires
        acc.created is None,
        ({ let u = v + r; i64_value(u) }) == Some((x, r)),
    ensures
        model_step("created"@, v + r, acc) == Some((ModelSlots { created: Some(x), ..acc }, r)),
{
    reveal_strlit("id");
    reveal_strlit("name");
    reveal_strlit("created");
    assert("created"@.len() != "id"@.len());
    assert("created"@.len() != "name"@.len());
}

proof fn lemma_model_step_input_modalities(v: Seq<char>, r: Seq<char>, acc: ModelSlots, x: Seq<InputModality>)
    requires
        acc.input_modalities is None,
        ({ let u = v + r; json_array(u, input_modality_fn()) }) == Some((x, r)),
    ensures
        model_step("input_modalities"@, v + r, acc) == Some((ModelSlots { input_modalities: Some(x), ..acc }, r)),
{
    reveal_strlit("id");
    reveal_strlit("name");
    reveal_strlit("created");
    reveal_strlit("input_modalities");
    assert("input_modalities"@.len() != "id"@.len());
    assert("input_modalities"@.len() != "name"@.len());
    assert("input_modalities"@.len() != "created"@.len());
}

proof fn lemma_model_step_output_modalities(v: Seq<char>, r: Seq<char>, acc: ModelSlots, x: Seq<OutputModality>)
    requires
        acc.output_modalities is None,
        ({ let u = v + r; json_array(u, output_modality_fn()) }) == Some((x, r)),
    ensures
        model_step("output_modalities"@, v + r, acc) == Some((ModelSlots { output_modalities: Some(x), ..acc }, r)),
{
    reveal_strlit("id");
    reveal_strlit("name");
    reveal_strlit("created");
    reveal_strlit("input_modalities");
    reveal_strlit("output_modalities");
    assert("output_modalities"@.len() != "id"@.len());
    assert("output_modalities"@.len() != "name"@.len());
    assert("output_modalities"@.len() != "created"@.len());
    assert("output_modalities"@.len() != "input_modalities"@.len());
}

proof fn lemma_model_step_quantization(v: Seq<char>, r: Seq<char>, acc: ModelSlots, x: Quantization)
    requires
        acc.quantization is None,
        ({ let u = v + r; quantization_value(u) }) == Some((x, r)),
    ensures
        model_step("quantization"@, v + r, acc) == Some((ModelSlots { quantization: Some(x), ..acc }, r)),
{
    reveal_strlit("id");
    reveal_strlit("name");
    reveal_strlit("created");
    reveal_strlit("input_modalities");
    reveal_strlit("output_modalities");
    reveal_strlit("quantization");
    assert("quantization"@.len() != "id"@.len());
    assert("quantization"@.len() != "name"@.len());
    assert("quantization"@.len() != "created"@.len());
    assert("quantization"@.len() != "input_modalities"@.len());
    assert("quantization"@.len() != "output_modalities"@.len());
}

proof fn lemma_model_step_context_length(v: Seq<char>, r: Seq<char>, acc: ModelSlots, x: u64)
    requires
        acc.context_length is None,
        ({ let u = v + r; u64_value(u) }) == Some((x, r)),
    ensures
        model_step("context_length"@, v + r, acc) == Some((ModelSlots { context_length: Some(x), ..acc }, r)),
{
    reveal_strlit("id");
    reveal_strlit("name");
    reveal_strlit("created");
    reveal_strlit("input_modalities");
    reveal_strlit("output_modalities");
    reveal_strlit("quantization");
    reveal_strlit("context_length");
    assert("context_length"@.len() != "id"@.len());
    assert("context_length"@.len() != "name"@.len());
    assert("context_length"@.len() != "created"@.len());
    assert("context_length"@.len() != "input_modalities"@.len());
    assert("context_length"@.len() != "output_modalities"@.len());
    assert("context_length"@.len() != "quantization"@.len());
}

proof fn lemma_model_step_max_output_length(v: Seq<char>, r: Seq<char>, acc: ModelSlots, x: u64)
    requires
        acc.max_output_length is None,
        ({ let u = v + r; u64_value(u) }) == Some((x, r)),
    ensures
        model_step("max_output_length"@, v + r, acc) == Some((ModelSlots { max_output_length: Some(x), ..acc }, r)),
{
    reveal_strlit("id");
    reveal_strlit("name");
    reveal_strlit("created");
    reveal_strlit("input_modalities");
    reveal_strlit("output_modalities");
    reveal_strlit("quantization");
    reveal_strlit("context_length");
    reveal_strlit("max_output_length");
    assert("max_output_length"@.len() != "id"@.len());
    assert("max_output_length"@.len() != "name"@.len());
    assert("max_output_length"@.len() != "created"@.len());
    assert("max_output_length"@.len() != "input_modalities"@.len());
    assert("max_output_length"@[0] != "output_modalities"@[0]);
    assert("max_output_length"@.len() != "quantization"@.len());
    assert("max_output_length"@.len() != "context_length"@.len());
}

proof fn lemma_model_step_pricing(v: Seq<char>, r: Seq<char>, acc: ModelSlots, x: PricingView)
    requires
        acc.pricing is None,
        ({ let u = v + r; pricing_value(u) }) == Some((x, r)),
    ensures
        model_step("pricing"@, v + r, acc) == Some((ModelSlots { pricing: Some(x), ..acc }, r)),
{
    reveal_strlit("id");
    reveal_strlit("name");
    reveal_strlit("created");
    reveal_strlit("input_modalities");
    reveal_strlit("output_modalities");
    reveal_strlit("quantization");
    reveal_strlit("context_length");
    reveal_strlit("max_output_length");
    reveal_strlit("pricing");
    assert("pricing"@.len() != "id"@.len());
    assert("pricing"@.len() != "name"@.len());
    assert("pricing"@[0] != "created"@[0]);
    assert("pricing"@.len() != "input_modalities"@.len());
    assert("pricing"@.len() != "output_modalities"@.len());
    assert("pricing"@.len() != "quantization"@.len());
    assert("pricing"@.len() != "context_length"@.len());
    assert("pricing"@.len() != "max_output_length"@.len());
}

proof fn lemma_model_step_supported_sampling_parameters(v: Seq<char>, r: Seq<char>, acc: ModelSlots, x: Seq<SamplingParameter>)
    requires
        acc.supported_sampling_parameters is None,
        ({ let u = v + r; json_array(u, sampling_parameter_fn()) }) == Some((x, r)),
    ensures
        model_step("supported_sampling_parameters"@, v + r, acc) == Some((ModelSlots { supported_sampling_parameters: Some(x), ..acc }, r)),
{
    reveal_strlit("id");
    reveal_strlit("name");
    reveal_strlit("created");
    reveal_strlit("input_modalities");
    reveal_strlit("output_modalities");
    reveal_strlit("quantization");
    reveal_strlit("context_length");
    reveal_strlit("max_output_length");
    reveal_strlit("pricing");
    reveal_strlit("supported_sampling_parameters");
    assert("supported_sampling_parameters"@.len() != "id"@.len());
    assert("supported_sampling_parameters"@.len() != "name"@.len());
    assert("supported_sampling_parameters"@.len() != "created"@.len());
    assert("supported_sampling_parameters"@.len() != "input_modalities"@.len());
    assert("supported_sampling_parameters"@.len() != "output_modalities"@.len());
    assert("supported_sampling_parameters"@.len() != "quantization"@.len());
    assert("supported_sampling_parameters"@.len() != "context_length"@.len());
    assert("supported_sampling_parameters"@.len() != "max_output_length"@.len());
    assert("supported_sampling_parameters"@.len() != "pricing"@.len());
}

proof fn lemma_model_step_supported_features(v: Seq<char>, r: Seq<char>, acc: ModelSlots, x: Seq<Feature>)
    requires
        acc.supported_features is None,
        ({ let u = v + r; json_array(u, feature_fn()) }) == Some((x, r)),
    ensures
        model_step("supported_features"@, v + r, acc) == Some((ModelSlots { supported_features: Some(x), ..acc }, r)),
{
    reveal_strlit("id");
    reveal_strlit("name");
    reveal_strlit("created");
    reveal_strlit("input_modalities");
    reveal_strlit("output_modalities");
    reveal_strlit("quantization");
    reveal_strlit("context_length");
    reveal_strlit("max_output_length");
    reveal_strlit("pricing");
    reveal_strlit("supported_sampling_parameters");
    reveal_strlit("supported_features");
    assert("supported_features"@.len() != "id"@.len());
    assert("supported_features"@.len() != "name"@.len());
    assert("supported_features"@.len() != "created"@.len());
    assert("supported_features"@.len() != "input_modalities"@.len());
    assert("supported_features"@.len() != "output_modalities"@.len());
    assert("supported_features"@.len() != "quantization"@.len());
    assert("supported_features"@.len() != "context_length"@.len());
    assert("supported_features"@.len() != "max_output_length"@.len());
    assert("supported_features"@.len() != "pricing"@.len());
    assert("supported_features"@.len() != "supported_sampling_parameters"@.len());
}

proof fn lemma_model_step_openrouter(v: Seq<char>, r: Seq<char>, acc: ModelSlots, x: Seq<char>)
    requires
        acc.openrouter is None,
        ({ let u = v + r; single_value(u, "slug"@) }) == Some((x, r)),
    ensures
        model_step("openrouter"@, v + r, acc) == Some((ModelSlots { openrouter: Some(x), ..acc }, r)),
{
    reveal_strlit("id");
    reveal_strlit("name");
    reveal_strlit("created");
    reveal_strlit("input_modalities");
    reveal_strlit("output_modalities");
    reveal_strlit("quantization");
    reveal_strlit("context_length");
    reveal_strlit("max_output_length");
    reveal_strlit("pricing");
    reveal_strlit("supported_sampling_parameters");
    reveal_strlit("supported_features");
    reveal_strlit("openrouter");
    assert("openrouter"@.len() != "id"@.len());
    assert("openrouter"@.len() != "name"@.len());
    assert("openrouter"@.len() != "created"@.len());
    assert("openrouter"@.len() != "input_modalities"@.len());
    assert("openrouter"@.len() != "output_modalities"@.len());
    assert("openrouter"@.len() != "quantization"@.len());
    assert("openrouter"@.len() != "context_length"@.len());
    assert("openrouter"@.len() != "max_output_length"@.len());
    assert("openrouter"@.len() != "pricing"@.len());
    assert("openrouter"@.len() != "supported_sampling_parameters"@.len());
    assert("openrouter"@.len() != "supported_features"@.len());
}

proof fn lemma_model_step_hugging_face_id(v: Seq<char>, r: Seq<char>, acc: ModelSlots, x: Seq<char>)
    requires
        acc.hugging_face_id is None,
        ({ let u = v + r; json_string(u) }) == Some((x, r)),
    ensures
        model_step("hugging_face_id"@, v + r, acc) == Some((ModelSlots { hugging_face_id: Some(x), ..acc }, r)),
{
    reveal_strlit("id");
    reveal_strlit("name");
    reveal_strlit("created");
    reveal_strlit("input_modalities");
    reveal_strlit("output_modalities");
    reveal_strlit("quantization");
    reveal_strlit("context_length");
    reveal_strlit("max_output_length");
    reveal_strlit("pricing");
    reveal_strlit("supported_sampling_parameters");
    reveal_strlit("supported_features");
    reveal_strlit("openrouter");
    reveal_strlit("hugging_face_id");
    assert("hugging_face_id"@.len() != "id"@.len());
    assert("hugging_face_id"@.len() != "name"@.len());
    assert("hugging_face_id"@.len() != "created"@.len());
    assert("hugging_face_id"@.len() != "input_modalities"@.len());
    assert("hugging_face_id"@.len() != "output_modalities"@.len());
    assert("hugging_face_id"@.len() != "quantization"@.len());
    assert("hugging_face_id"@.len() != "context_length"@.len());
    assert("hugging_face_id"@.len() != "max_output_length"@.len());
    assert("hugging_face_id"@.len() != "pricing"@.len());
    assert("hugging_face_id"@.len() != "supported_sampling_parameters"@.len());
    assert("hugging_face_id"@.len() != "supported_features"@.len());
    assert("hugging_face_id"@.len() != "openrouter"@.len());
}

proof fn lemma_model_step_description(v: Seq<char>, r: Seq<char>, acc: ModelSlots, x: Seq<char>)
    requires
        acc.description is None,
        ({ let u = v + r; json_string(u) }) == Some((x, r)),
    ensures
        model_step("description"@, v + r, acc) == Some((ModelSlots { description: Some(x), ..acc }, r)),
{
    reveal_strlit("id");
    reveal_strlit("name");
    reveal_strlit("created");
    reveal_strlit("input_modalities");
    reveal_strlit("output_modalities");
    reveal_strlit("quantization");
    reveal_strlit("context_length");
    reveal_strlit("max_output_length");
    reveal_strlit("pricing");
    reveal_strlit("supported_sampling_parameters");
    reveal_strlit("supported_features");
    reveal_strlit("openrouter");
    reveal_strlit("hugging_face_id");
    reveal_strlit("description");
    assert("description"@.len() != "id"@.len());
    assert("description"@.len() != "name"@.len());
    assert("description"@.len() != "created"@.len());
    assert("description"@.len() != "input_modalities"@.len());
    assert("description"@.len() != "output_modalities"@.len());
    assert("description"@.len() != "quantization"@.len());
    assert("description"@.len() != "context_length"@.len());
    assert("description"@.len() != "max_output_length"@.len());
    assert("description"@.len() != "pricing"@.len());
    assert("description"@.len() != "supported_sampling_parameters"@.len());
    assert("description"@.len() != "supported_features"@.len());
    assert("description"@.len() != "openrouter"@.len());
    assert("description"@.len() != "hugging_face_id"@.len());
}

proof fn lemma_model_step_datacenters(v: Seq<char>, r: Seq<char>, acc: ModelSlots, x: Seq<Seq<char>>)
    requires
        acc.datacenters is None,
        ({ let u = v + r; json_array(u, datacenter_fn()) }) == Some((x, r)),
    ensures
        model_step("datacenters"@, v + r, acc) == Some((ModelSlots { datacenters: Some(x), ..acc }, r)),
{
    reveal_strlit("id");
    reveal_strlit("name");
    reveal_strlit("created");
    reveal_strlit("input_modalities");
    reveal_strlit("output_modalities");
    reveal_strlit("quantization");
    reveal_strlit("context_length");
    reveal_strlit("max_output_length");
    reveal_strlit("pricing");
    reveal_strlit("supported_sampling_parameters");
    reveal_strlit("supported_features");
    reveal_strlit("openrouter");
    reveal_strlit("hugging_face_id");
    reveal_strlit("description");
    reveal_strlit("datacenters");
    assert("datacenters"@.len() != "id"@.len());
    assert("datacenters"@.len() != "name"@.len());
    assert("datacenters"@.len() != "created"@.len());
    assert("datacenters"@.len() != "input_modalities"@.len());
    assert("datacenters"@.len() != "output_modalities"@.len());
    assert("datacenters"@.len() != "quantization"@.len());
    assert("datacenters"@.len() != "context_length"@.len());
    assert("datacenters"@.len() != "max_output_length"@.len());
    assert("datacenters"@.len() != "pricing"@.len());
    assert("datacenters"@.len() != "supported_sampling_parameters"@.len());
    assert("datacenters"@.len() != "supported_features"@.len());
    assert("datacenters"@.len() != "openrouter"@.len());
    assert("datacenters"@.len() != "hugging_face_id"@.len());
    assert("datacenters"@[1] != "description"@[1]);
}

proof fn lemma_input_modality_items(items: Seq<InputModality>)
    ensures
        reads_back(items, |x: InputModality| quoted(x.wire()), input_modality_fn()),
{
    let enc = |x: InputModality| quoted(x.wire());
    assert forall|i: int, q: Seq<char>|
        0 <= i < items.len() && q.len() > 0 && (q[0] == ',' || q[0] == ']') implies {
            &&& #[trigger] input_modality_fn()(enc(items[i]) + q) == Some((items[i], q))
            &&& starts_value(enc, items[i])
        } by {
        lemma_string_round_trip(items[i].wire(), q);
        items[i].lemma_wire_round_trip();
    }
}

proof fn lemma_output_modality_items(items: Seq<OutputModality>)
    ensures
        reads_back(items, |x: OutputModality| quoted(x.wire()), output_modality_fn()),
{
    let enc = |x: OutputModality| quoted(x.wire());
    assert forall|i: int, q: Seq<char>|
        0 <= i < items.len() && q.len() > 0 && (q[0] == ',' || q[0] == ']') implies {
            &&& #[trigger] output_modality_fn()(enc(items[i]) + q) == Some((items[i], q))
            &&& starts_value(enc, items[i])
        } by {
        lemma_string_round_trip(items[i].wire(), q);
        items[i].lemma_wire_round_trip();
    }
}

proof fn lemma_sampling_parameter_items(items: Seq<SamplingParameter>)
    ensures
        reads_back(items, |x: SamplingParameter| quoted(x.wire()), sampling_parameter_fn()),
{
    let enc = |x: SamplingParameter| quoted(x.wire());
    assert forall|i: int, q: Seq<char>|
        0 <= i < items.len() && q.len() > 0 && (q[0] == ',' || q[0] == ']') implies {
            &&& #[trigger] sampling_parameter_fn()(enc(items[i]) + q) == Some((items[i], q))
            &&& starts_value(enc, items[i])
        } by {
        lemma_string_round_trip(items[i].wire(), q);
        items[i].lemma_wire_round_trip();
    }
}

proof fn lemma_feature_items(items: Seq<Feature>)
    ensures
        reads_back(items, |x: Feature| quoted(x.wire()), feature_fn()),
{
    let enc = |x: Feature| quoted(x.wire());
    assert forall|i: int, q: Seq<char>|
        0 <= i < items.len() && q.len() > 0 && (q[0] == ',' || q[0] == ']') implies {
            &&& #[trigger] feature_fn()(enc(items[i]) + q) == Some((items[i], q))
            &&& starts_value(enc, items[i])
        } by {
        lemma_string_round_trip(items[i].wire(), q);
        items[i].lemma_wire_round_trip();
    }
}

proof fn lemma_datacenter_items(items: Seq<Seq<char>>)
    ensures
        reads_back(items, |c: Seq<char>| single_text("country_code"@, c), datacenter_fn()),
{
    let enc = |c: Seq<char>| single_text("country_code"@, c);
    assert forall|i: int, q: Seq<char>|
        0 <= i < items.len() && q.len() > 0 && (q[0] == ',' || q[0] == ']') implies {
            &&& #[trigger] datacenter_fn()(enc(items[i]) + q) == Some((items[i], q))
            &&& starts_value(enc, items[i])
        } by {
        lemma_single_round_trip("country_code"@, items[i], q);
    }
}

/// The text of a model after its opening brace, from a given member on;
/// each is a name for one suffix, so that chained steps stay small.
#[verifier::opaque]
pub open spec fn tail_from_id(m: ModelView, rest: Seq<char>) -> Seq<char> {
    member("id"@, quoted(m.id)) + (seq![','] + tail_from_name(m, rest))
}

#[verifier::opaque]
pub open spec fn tail_from_name(m: ModelView, rest: Seq<char>) -> Seq<char> {
    member("name"@, quoted(m.name)) + (seq![','] + tail_from_created(m, rest))
}

#[verifier::opaque]
pub open spec fn tail_from_created(m: ModelView, rest: Seq<char>) -> Seq<char> {
    member("created"@, int_text(m.created as int)) + (seq![','] + tail_from_input_modalities(m, rest))
}

#[verifier::opaque]
pub open spec fn tail_from_input_modalities(m: ModelView, rest: Seq<char>) -> Seq<char> {
    member("input_modalities"@, input_modalitys_text(m.input_modalities)) + (seq![','] + tail_from_output_modalities(m, rest))
}

#[verifier::opaque]
pub open spec fn tail_from_output_modalities(m: ModelView, rest: Seq<char>) -> Seq<char> {
    member("output_modalities"@, output_modalitys_text(m.output_modalities)) + (seq![','] + tail_from_quantization(m, rest))
}

#[verifier::opaque]
pub open spec fn tail_from_quantization(m: ModelView, rest: Seq<char>) -> Seq<char> {
    member("quantization"@, quoted(m.quantization.wire())) + (seq![','] + tail_from_context_length(m, rest))
}

#[verifier::opaque]
pub open spec fn tail_from_context_length(m: ModelView, rest: Seq<char>) -> Seq<char> {
    member("context_length"@, int_text(m.context_length as int)) + (seq![','] + tail_from_max_output_length(m, rest))
}

#[verifier::opaque]
pub open spec fn tail_from_max_output_length(m: ModelView, rest: Seq<char>) -> Seq<char> {
    member("max_output_length"@, int_text(m.max_output_length as int)) + (seq![','] + tail_from_pricing(m, rest))
}

#[verifier::opaque]
pub open spec fn tail_from_pricing(m: ModelView, rest: Seq<char>) -> Seq<char> {
    member("pricing"@, pricing_text(m.pricing)) + (seq![','] + tail_from_supported_sampling_parameters(m, rest))
}

#[verifier::opaque]
pub open spec fn tail_from_supported_sampling_parameters(m: ModelView, rest: Seq<char>) -> Seq<char> {
    member("supported_sampling_parameters"@, sampling_parameters_text(m.supported_sampling_parameters)) + (seq![','] + tail_from_supported_features(m, rest))
}

#[verifier::opaque]
pub open spec fn tail_from_supported_features(m: ModelView, rest: Seq<char>) -> Seq<char> {
    member("supported_features"@, features_text(m.supported_features)) + tail_from_openrouter(m, rest)
}

#[verifier::opaque]
pub open spec fn tail_from_openrouter(m: ModelView, rest: Seq<char>) -> Seq<char> {
    opt_member("openrouter"@, match m.openrouter { Some(s) => Some(single_text("slug"@, s)), None => None }) + tail_from_hugging_face_id(m, rest)
}

#[verifier::opaque]
pub open spec fn tail_from_hugging_face_id(m: ModelView, rest: Seq<char>) -> Seq<char> {
    opt_member("hugging_face_id"@, opt_quoted(m.hugging_face_id)) + tail_from_description(m, rest)
}

#[verifier::opaque]
pub open spec fn tail_from_description(m: ModelView, rest: Seq<char>) -> Seq<char> {
    opt_member("description"@, opt_quoted(m.description)) + tail_from_datacenters(m, rest)
}

#[verifier::opaque]
pub open spec fn tail_from_datacenters(m: ModelView, rest: Seq<char>) -> Seq<char> {
    opt_member("datacenters"@, match m.datacenters { Some(d) => Some(datacenters_text(d)), None => None }) + tail_from_end(m, rest)
}

#[verifier::opaque]
pub open spec fn tail_from_end(m: ModelView, rest: Seq<char>) -> Seq<char> {
    seq!['}'] + rest
}

proof fn lemma_model_text_expanded(m: ModelView, rest: Seq<char>)
    ensures
        model_text(m) + rest == (seq!['{'] + (member("id"@, quoted(m.id)) + (seq![','] + (member("name"@, quoted(m.name)) + (seq![','] + (member("created"@, int_text(m.created as int)) + (seq![','] + (member("input_modalities"@, input_modalitys_text(m.input_modalities)) + (seq![','] + (member("output_modalities"@, output_modalitys_text(m.output_modalities)) + (seq![','] + (member("quantization"@, quoted(m.quantization.wire())) + (seq![','] + (member("context_length"@, int_text(m.context_length as int)) + (seq![','] + (member("max_output_length"@, int_text(m.max_output_length as int)) + (seq![','] + (member("pricing"@, pricing_text(m.pricing)) + (seq![','] + (member("supported_sampling_parameters"@, sampling_parameters_text(m.supported_sampling_parameters)) + (seq![','] + (member("supported_features"@, features_text(m.supported_features)) + (opt_member("openrouter"@, match m.openrouter { Some(s) => Some(single_text("slug"@, s)), None => None }) + (opt_member("hugging_face_id"@, opt_quoted(m.hugging_face_id)) + (opt_member("description"@, opt_quoted(m.description)) + (opt_member("datacenters"@, match m.datacenters { Some(d) => Some(datacenters_text(d)), None => None }) + (seq!['}'] + rest))))))))))))))))))))))))))),
{
    reveal(model_text);
    let p0 = seq!['{'];
    let p1 = member("id"@, quoted(m.id));
    let p2 = seq![','];
    let p3 = member("name"@, quoted(m.name));
    let p4 = seq![','];
    let p5 = member("created"@, int_text(m.created as int));
    let p6 = seq![','];
    let p7 = member("input_modalities"@, input_modalitys_text(m.input_modalities));
    let p8 = seq![','];
    let p9 = member("output_modalities"@, output_modalitys_text(m.output_modalities));
    let p10 = seq![','];
    let p11 = member("quantization"@, quoted(m.quantization.wire()));
    let p12 = seq![','];
    let p13 = member("context_length"@, int_text(m.context_length as int));
    let p14 = seq![','];
    let p15 = member("max_output_length"@, int_text(m.max_output_length as int));
    let p16 = seq![','];
    let p17 = member("pricing"@, pricing_text(m.pricing));
    let p18 = seq![','];
    let p19 = member("supported_sampling_parameters"@, sampling_parameters_text(m.supported_sampling_parameters));
    let p20 = seq![','];
    let p21 = member("supported_features"@, features_text(m.supported_features));
    let p22 = opt_member("openrouter"@, match m.openrouter { Some(s) => Some(single_text("slug"@, s)), None => None });
    let p23 = opt_member("hugging_face_id"@, opt_quoted(m.hugging_face_id));
    let p24 = opt_member("description"@, opt_quoted(m.description));
    let p25 = opt_member("datacenters"@, match m.datacenters { Some(d) => Some(datacenters_text(d)), None => None });
    let p26 = seq!['}'];
    let x0 = p0;
    let x1 = x0 + p1;
    let x2 = x1 + p2;
    let x3 = x2 + p3;
    let x4 = x3 + p4;
    let x5 = x4 + p5;
    let x6 = x5 + p6;
    let x7 = x6 + p7;
    let x8 = x7 + p8;
    let x9 = x8 + p9;
    let x10 = x9 + p10;
    let x11 = x10 + p11;
    let x12 = x11 + p12;
    let x13 = x12 + p13;
    let x14 = x13 + p14;
    let x15 = x14 + p15;
    let x16 = x15 + p16;
    let x17 = x16 + p17;
    let x18 = x17 + p18;
    let x19 = x18 + p19;
    let x20 = x19 + p20;
    let x21 = x20 + p21;
    let x22 = x21 + p22;
    let x23 = x22 + p23;
    let x24 = x23 + p24;
    let x25 = x24 + p25;
    let x26 = x25 + p26;
    let t27 = rest;
    let t26 = p26 + t27;
    let t25 = p25 + t26;
    let t24 = p24 + t25;
    let t23 = p23 + t24;
    let t22 = p22 + t23;
    let t21 = p21 + t22;
    let t20 = p20 + t21;
    let t19 = p19 + t20;
    let t18 = p18 + t19;
    let t17 = p17 + t18;
    let t16 = p16 + t17;
    let t15 = p15 + t16;
    let t14 = p14 + t15;
    let t13 = p13 + t14;
    let t12 = p12 + t13;
    let t11 = p11 + t12;
    let t10 = p10 + t11;
    let t9 = p9 + t10;
    let t8 = p8 + t9;
    let t7 = p7 + t8;
    let t6 = p6 + t7;
    let t5 = p5 + t6;
    let t4 = p4 + t5;
    let t3 = p3 + t4;
    let t2 = p2 + t3;
    let t1 = p1 + t2;
    let t0 = p0 + t1;
    assert(model_text(m) == x26);
    lemma_concat_associative(x25, p26, t27);
    lemma_concat_associative(x24, p25, t26);
    lemma_concat_associative(x23, p24, t25);
    lemma_concat_associative(x22, p23, t24);
    lemma_concat_associative(x21, p22, t23);
    lemma_concat_associative(x20, p21, t22);
    lemma_concat_associative(x19, p20, t21);
    lemma_concat_associative(x18, p19, t20);
    lemma_concat_associative(x17, p18, t19);
    lemma_concat_associative(x16, p17, t18);
    lemma_concat_associative(x15, p16, t17);
    lemma_concat_associative(x14, p15, t16);
    lemma_concat_associative(x13, p14, t15);
    lemma_concat_associative(x12, p13, t14);
    lemma_concat_associative(x11, p12, t13);
    lemma_concat_associative(x10, p11, t12);
    lemma_concat_associative(x9, p10, t11);
    lemma_concat_associative(x8, p9, t10);
    lemma_concat_associative(x7, p8, t9);
    lemma_concat_associative(x6, p7, t8);
    lemma_concat_associative(x5, p6, t7);
    lemma_concat_associative(x4, p5, t6);
    lemma_concat_associative(x3, p4, t5);
    lemma_concat_associative(x2, p3, t4);
    lemma_concat_associative(x1, p2, t3);
    lemma_concat_associative(x0, p1, t2);
}

proof fn lemma_model_tails_expanded(m: ModelView, rest: Seq<char>)
    ensures
        tail_from_id(m, rest) == (member("id"@, quoted(m.id)) + (seq![','] + (member("name"@, quoted(m.name)) + (seq![','] + (member("created"@, int_text(m.created as int)) + (seq![','] + (member("input_modalities"@, input_modalitys_text(m.input_modalities)) + (seq![','] + (member("output_modalities"@, output_modalitys_text(m.output_modalities)) + (seq![','] + (member("quantization"@, quoted(m.quantization.wire())) + (seq![','] + (member("context_length"@, int_text(m.context_length as int)) + (seq![','] + (member("max_output_length"@, int_text(m.max_output_length as int)) + (seq![','] + (member("pricing"@, pricing_text(m.pricing)) + (seq![','] + (member("supported_sampling_parameters"@, sampling_parameters_text(m.supported_sampling_parameters)) + (seq![','] + (member("supported_features"@, features_text(m.supported_features)) + (opt_member("openrouter"@, match m.openrouter { Some(s) => Some(single_text("slug"@, s)), None => None }) + (opt_member("hugging_face_id"@, opt_quoted(m.hugging_face_id)) + (opt_member("description"@, opt_quoted(m.description)) + (opt_member("datacenters"@, match m.datacenters { Some(d) => Some(datacenters_text(d)), None => None }) + (seq!['}'] + rest)))))))))))))))))))))))))),
{
    reveal(tail_from_id);
    reveal(tail_from_name);
    reveal(tail_from_created);
    reveal(tail_from_input_modalities);
    reveal(tail_from_output_modalities);
    reveal(tail_from_quantization);
    reveal(tail_from_context_length);
    reveal(tail_from_max_output_length);
    reveal(tail_from_pricing);
    reveal(tail_from_supported_sampling_parameters);
    reveal(tail_from_supported_features);
    reveal(tail_from_openrouter);
    reveal(tail_from_hugging_face_id);
    reveal(tail_from_description);
    reveal(tail_from_datacenters);
    reveal(tail_from_end);
}

proof fn lemma_model_shape(m: ModelView, rest: Seq<char>)
    ensures
        model_text(m) + rest == seq!['{'] + tail_from_id(m, rest),
{
    lemma_model_text_expanded(m, rest);
    lemma_model_tails_expanded(m, rest);
}

proof fn lemma_tail_ends_tail_from_end(m: ModelView, rest: Seq<char>)
    ensures
        ends_member(tail_from_end(m, rest)),
{
    reveal(tail_from_end);
}

proof fn lemma_tail_ends_tail_from_datacenters(m: ModelView, rest: Seq<char>)
    ensures
        ends_member(tail_from_datacenters(m, rest)),
{
    reveal(tail_from_datacenters);
    lemma_tail_ends_tail_from_end(m, rest);
    if m.datacenters is Some {
        assert(tail_from_datacenters(m, rest)[0] == ',');
    } else {
        assert(tail_from_datacenters(m, rest) =~= tail_from_end(m, rest));
    }
}

proof fn lemma_tail_ends_tail_from_description(m: ModelView, rest: Seq<char>)
    ensures
        ends_member(tail_from_description(m, rest)),
{
    reveal(tail_from_description);
    lemma_tail_ends_tail_from_datacenters(m, rest);
    if m.description is Some {
        assert(tail_from_description(m, rest)[0] == ',');
    } else {
        assert(tail_from_description(m, rest) =~= tail_from_datacenters(m, rest));
    }
}

proof fn lemma_tail_ends_tail_from_hugging_face_id(m: ModelView, rest: Seq<char>)
    ensures
        ends_member(tail_from_hugging_face_id(m, rest)),
{
    reveal(tail_from_hugging_face_id);
    lemma_tail_ends_tail_from_description(m, rest);
    if m.hugging_face_id is Some {
        assert(tail_from_hugging_face_id(m, rest)[0] == ',');
    } else {
        assert(tail_from_hugging_face_id(m, rest) =~= tail_from_description(m, rest));
    }
}

proof fn lemma_tail_ends_tail_from_openrouter(m: ModelView, rest: Seq<char>)
    ensures
        ends_member(tail_from_openrouter(m, rest)),
{
    reveal(tail_from_openrouter);
    lemma_tail_ends_tail_from_hugging_face_id(m, rest);
    if m.openrouter is Some {
        assert(tail_from_openrouter(m, rest)[0] == ',');
    } else {
        assert(tail_from_openrouter(m, rest) =~= tail_from_hugging_face_id(m, rest));
    }
}

proof fn lemma_model_member_id(m: ModelView, rest: Seq<char>, acc: ModelSlots)
    requires
        acc.id is None,
    ensures
        reading_members(tail_from_id(m, rest), acc, model_step_fn()) == reading_members(tail_from_name(m, rest), ModelSlots { id: Some(m.id), ..acc }, model_step_fn()),
{
    reveal(resume);
    reveal(reading_members);
    reveal(tail_from_id);
    let r = seq![','] + tail_from_name(m, rest);
    assert(r[0] == ',');
    assert(r.drop_first() =~= tail_from_name(m, rest));
    lemma_string_round_trip(m.id, r);
    lemma_model_step_id(quoted(m.id), r, acc, m.id);
    lemma_member("id"@, quoted(m.id), r, acc, ModelSlots { id: Some(m.id), ..acc }, model_step_fn());
}

proof fn lemma_model_member_name(m: ModelView, rest: Seq<char>, acc: ModelSlots)
    requires
        acc.name is None,
    ensures
        reading_members(tail_from_name(m, rest), acc, model_step_fn()) == reading_members(tail_from_created(m, rest), ModelSlots { name: Some(m.name), ..acc }, model_step_fn()),
{
    reveal(resume);
    reveal(reading_members);
    reveal(tail_from_name);
    let r = seq![','] + tail_from_created(m, rest);
    assert(r[0] == ',');
    assert(r.drop_first() =~= tail_from_created(m, rest));
    lemma_string_round_trip(m.name, r);
    lemma_model_step_name(quoted(m.name), r, acc, m.name);
    lemma_member("name"@, quoted(m.name), r, acc, ModelSlots { name: Some(m.name), ..acc }, model_step_fn());
}

proof fn lemma_model_member_created(m: ModelView, rest: Seq<char>, acc: ModelSlots)
    requires
        acc.created is None,
    ensures
        reading_members(tail_from_created(m, rest), acc, model_step_fn()) == reading_members(tail_from_input_modalities(m, rest), ModelSlots { created: Some(m.created), ..acc }, model_step_fn()),
{
    reveal(resume);
    reveal(reading_members);
    reveal(tail_from_created);
    let r = seq![','] + tail_from_input_modalities(m, rest);
    assert(r[0] == ',');
    assert(r.drop_first() =~= tail_from_input_modalities(m, rest));
    lemma_int_round_trip(m.created as int, r);
    lemma_model_step_created(int_text(m.created as int), r, acc, m.created);
    lemma_member("created"@, int_text(m.created as int), r, acc, ModelSlots { created: Some(m.created), ..acc }, model_step_fn());
}

proof fn lemma_model_member_input_modalities(m: ModelView, rest: Seq<char>, acc: ModelSlots)
    requires
        acc.input_modalities is None,
    ensures
        reading_members(tail_from_input_modalities(m, rest), acc, model_step_fn()) == reading_members(tail_from_output_modalities(m, rest), ModelSlots { input_modalities: Some(m.input_modalities), ..acc }, model_step_fn()),
{
    reveal(resume);
    reveal(reading_members);
    reveal(tail_from_input_modalities);
    let r = seq![','] + tail_from_output_modalities(m, rest);
    assert(r[0] == ',');
    assert(r.drop_first() =~= tail_from_output_modalities(m, rest));
    lemma_input_modality_items(m.input_modalities);
    lemma_array_round_trip(m.input_modalities, |x: InputModality| quoted(x.wire()), input_modality_fn(), r);
    lemma_model_step_input_modalities(input_modalitys_text(m.input_modalities), r, acc, m.input_modalities);
    lemma_member("input_modalities"@, input_modalitys_text(m.input_modalities), r, acc, ModelSlots { input_modalities: Some(m.input_modalities), ..acc }, model_step_fn());
}

proof fn lemma_model_member_output_modalities(m: ModelView, rest: Seq<char>, acc: ModelSlots)
    requires
        acc.output_modalities is None,
    ensures
        reading_members(tail_from_output_modalities(m, rest), acc, model_step_fn()) == reading_members(tail_from_quantization(m, rest), ModelSlots { output_modalities: Some(m.output_modalities), ..acc }, model_step_fn()),
{
    reveal(resume);
    reveal(reading_members);
    reveal(tail_from_output_modalities);
    let r = seq![','] + tail_from_quantization(m, rest);
    assert(r[0] == ',');
    assert(r.drop_first() =~= tail_from_quantization(m, rest));
    lemma_output_modality_items(m.output_modalities);
    lemma_array_round_trip(m.output_modalities, |x: OutputModality| quoted(x.wire()), output_modality_fn(), r);
    lemma_model_step_output_modalities(output_modalitys_text(m.output_modalities), r, acc, m.output_modalities);
    lemma_member("output_modalities"@, output_modalitys_text(m.output_modalities), r, acc, ModelSlots { output_modalities: Some(m.output_modalities), ..acc }, model_step_fn());
}

proof fn lemma_model_member_quantization(m: ModelView, rest: Seq<char>, acc: ModelSlots)
    requires
        acc.quantization is None,
    ensures
        reading_members(tail_from_quantization(m, rest), acc, model_step_fn()) == reading_members(tail_from_context_length(m, rest), ModelSlots { quantization: Some(m.quantization), ..acc }, model_step_fn()),
{
    reveal(resume);
    reveal(reading_members);
    reveal(tail_from_quantization);
    let r = seq![','] + tail_from_context_length(m, rest);
    assert(r[0] == ',');
    assert(r.drop_first() =~= tail_from_context_length(m, rest));
    lemma_string_round_trip(m.quantization.wire(), r);
    m.quantization.lemma_wire_round_trip();
    lemma_model_step_quantization(quoted(m.quantization.wire()), r, acc, m.quantization);
    lemma_member("quantization"@, quoted(m.quantization.wire()), r, acc, ModelSlots { quantization: Some(m.quantization), ..acc }, model_step_fn());
}

proof fn lemma_model_member_context_length(m: ModelView, rest: Seq<char>, acc: ModelSlots)
    requires
        acc.context_length is None,
    ensures
        reading_members(tail_from_context_length(m, rest), acc, model_step_fn()) == reading_members(tail_from_max_output_length(m, rest), ModelSlots { context_length: Some(m.context_length), ..acc }, model_step_fn()),
{
    reveal(resume);
    reveal(reading_members);
    reveal(tail_from_context_length);
    let r = seq![','] + tail_from_max_output_length(m, rest);
    assert(r[0] == ',');
    assert(r.drop_first() =~= tail_from_max_output_length(m, rest));
    lemma_int_round_trip(m.context_length as int, r);
    lemma_model_step_context_length(int_text(m.context_length as int), r, acc, m.context_length);
    lemma_member("context_length"@, int_text(m.context_length as int), r, acc, ModelSlots { context_length: Some(m.context_length), ..acc }, model_step_fn());
}

proof fn lemma_model_member_max_output_length(m: ModelView, rest: Seq<char>, acc: ModelSlots)
    requires
        acc.max_output_length is None,
    ensures
        reading_members(tail_from_max_output_length(m, rest), acc, model_step_fn()) == reading_members(tail_from_pricing(m, rest), ModelSlots { max_output_length: Some(m.max_output_length), ..acc }, model_step_fn()),
{
    reveal(resume);
    reveal(reading_members);
    reveal(tail_from_max_output_length);
    let r = seq![','] + tail_from_pricing(m, rest);
    assert(r[0] == ',');
    assert(r.drop_first() =~= tail_from_pricing(m, rest));
    lemma_int_round_trip(m.max_output_length as int, r);
    lemma_model_step_max_output_length(int_text(m.max_output_length as int), r, acc, m.max_output_length);
    lemma_member("max_output_length"@, int_text(m.max_output_length as int), r, acc, ModelSlots { max_output_length: Some(m.max_output_length), ..acc }, model_step_fn());
}

proof fn lemma_model_member_pricing(m: ModelView, rest: Seq<char>, acc: ModelSlots)
    requires
        acc.pricing is None,
    ensures
        reading_members(tail_from_pricing(m, rest), acc, model_step_fn()) == reading_members(tail_from_supported_sampling_parameters(m, rest), ModelSlots { pricing: Some(m.pricing), ..acc }, model_step_fn()),
{
    reveal(resume);
    reveal(reading_members);
    reveal(tail_from_pricing);
    let r = seq![','] + tail_from_supported_sampling_parameters(m, rest);
    assert(r[0] == ',');
    assert(r.drop_first() =~= tail_from_supported_sampling_parameters(m, rest));
    lemma_pricing_round_trip(m.pricing, r);
    lemma_model_step_pricing(pricing_text(m.pricing), r, acc, m.pricing);
    lemma_member("pricing"@, pricing_text(m.pricing), r, acc, ModelSlots { pricing: Some(m.pricing), ..acc }, model_step_fn());
}

proof fn lemma_model_member_supported_sampling_parameters(m: ModelView, rest: Seq<char>, acc: ModelSlots)
    requires
        acc.supported_sampling_parameters is None,
    ensures
        reading_members(tail_from_supported_sampling_parameters(m, rest), acc, model_step_fn()) == reading_members(tail_from_supported_features(m, rest), ModelSlots { supported_sampling_parameters: Some(m.supported_sampling_parameters), ..acc }, model_step_fn()),
{
    reveal(resume);
    reveal(reading_members);
    reveal(tail_from_supported_sampling_parameters);
    let r = seq![','] + tail_from_supported_features(m, rest);
    assert(r[0] == ',');
    assert(r.drop_first() =~= tail_from_supported_features(m, rest));
    lemma_sampling_parameter_items(m.supported_sampling_parameters);
    lemma_array_round_trip(m.supported_sampling_parameters, |x: SamplingParameter| quoted(x.wire()), sampling_parameter_fn(), r);
    lemma_model_step_supported_sampling_parameters(sampling_parameters_text(m.supported_sampling_parameters), r, acc, m.supported_sampling_parameters);
    lemma_member("supported_sampling_parameters"@, sampling_parameters_text(m.supported_sampling_parameters), r, acc, ModelSlots { supported_sampling_parameters: Some(m.supported_sampling_parameters), ..acc }, model_step_fn());
}

proof fn lemma_model_member_supported_features(m: ModelView, rest: Seq<char>, acc: ModelSlots)
    requires
        acc.supported_features is None,
    ensures
        reading_members(tail_from_supported_features(m, rest), acc, model_step_fn()) == resume(tail_from_openrouter(m, rest), ModelSlots { supported_features: Some(m.supported_features), ..acc }, model_step_fn()),
{
    reveal(resume);
    reveal(reading_members);
    reveal(tail_from_supported_features);
    let r = tail_from_openrouter(m, rest);
    lemma_tail_ends_tail_from_openrouter(m, rest);
    lemma_feature_items(m.supported_features);
    lemma_array_round_trip(m.supported_features, |x: Feature| quoted(x.wire()), feature_fn(), r);
    lemma_model_step_supported_features(features_text(m.supported_features), r, acc, m.supported_features);
    lemma_member("supported_features"@, features_text(m.supported_features), r, acc, ModelSlots { supported_features: Some(m.supported_features), ..acc }, model_step_fn());
}

proof fn lemma_model_member_openrouter(m: ModelView, rest: Seq<char>, acc: ModelSlots)
    requires
        acc.openrouter is None,
    ensures
        resume(tail_from_openrouter(m, rest), acc, model_step_fn()) == resume(tail_from_hugging_face_id(m, rest), ModelSlots { openrouter: m.openrouter, ..acc }, model_step_fn()),
{
    reveal(tail_from_openrouter);
    let r = tail_from_hugging_face_id(m, rest);
    lemma_tail_ends_tail_from_hugging_face_id(m, rest);
    if let Some(x) = m.openrouter {
        lemma_single_round_trip("slug"@, x, r);
        lemma_model_step_openrouter(single_text("slug"@, x), r, acc, x);
    }
    lemma_opt_member("openrouter"@, match m.openrouter { Some(s) => Some(single_text("slug"@, s)), None => None }, r, acc, ModelSlots { openrouter: m.openrouter, ..acc }, model_step_fn());
}

proof fn lemma_model_member_hugging_face_id(m: ModelView, rest: Seq<char>, acc: ModelSlots)
    requires
        acc.hugging_face_id is None,
    ensures
        resume(tail_from_hugging_face_id(m, rest), acc, model_step_fn()) == resume(tail_from_description(m, rest), ModelSlots { hugging_face_id: m.hugging_face_id, ..acc }, model_step_fn()),
{
    reveal(tail_from_hugging_face_id);
    let r = tail_from_description(m, rest);
    lemma_tail_ends_tail_from_description(m, rest);
    if let Some(x) = m.hugging_face_id {
        lemma_string_round_trip(x, r);
        lemma_model_step_hugging_face_id(quoted(x), r, acc, x);
    }
    lemma_opt_member("hugging_face_id"@, opt_quoted(m.hugging_face_id), r, acc, ModelSlots { hugging_face_id: m.hugging_face_id, ..acc }, model_step_fn());
}

proof fn lemma_model_member_description(m: ModelView, rest: Seq<char>, acc: ModelSlots)
    requires
        acc.description is None,
    ensures
        resume(tail_from_description(m, rest), acc, model_step_fn()) == resume(tail_from_datacenters(m, rest), ModelSlots { description: m.description, ..acc }, model_step_fn()),
{
    reveal(tail_from_description);
    let r = tail_from_datacenters(m, rest);
    lemma_tail_ends_tail_from_datacenters(m, rest);
    if let Some(x) = m.description {
        lemma_string_round_trip(x, r);
        lemma_model_step_description(quoted(x), r, acc, x);
    }
    lemma_opt_member("description"@, opt_quoted(m.description), r, acc, ModelSlots { description: m.description, ..acc }, model_step_fn());
}

proof fn lemma_model_member_datacenters(m: ModelView, rest: Seq<char>, acc: ModelSlots)
    requires
        acc.datacenters is None,
    ensures
        resume(tail_from_datacenters(m, rest), acc, model_step_fn()) == resume(tail_from_end(m, rest), ModelSlots { datacenters: m.datacenters, ..acc }, model_step_fn()),
{
    reveal(tail_from_datacenters);
    let r = tail_from_end(m, rest);
    lemma_tail_ends_tail_from_end(m, rest);
    if let Some(x) = m.datacenters {
        lemma_datacenter_items(x);
    lemma_array_round_trip(x, |c: Seq<char>| single_text("country_code"@, c), datacenter_fn(), r);
        lemma_model_step_datacenters(datacenters_text(x), r, acc, x);
    }
    lemma_opt_member("datacenters"@, match m.datacenters { Some(d) => Some(datacenters_text(d)), None => None }, r, acc, ModelSlots { datacenters: m.datacenters, ..acc }, model_step_fn());
}

/// The record that reading a model's members fills in.
pub open spec fn model_slots(m: ModelView) -> ModelSlots {
    ModelSlots { id: Some(m.id), name: Some(m.name), created: Some(m.created), input_modalities: Some(m.input_modalities), output_modalities: Some(m.output_modalities), quantization: Some(m.quantization), context_length: Some(m.context_length), max_output_length: Some(m.max_output_length), pricing: Some(m.pricing), supported_sampling_parameters: Some(m.supported_sampling_parameters), supported_features: Some(m.supported_features), openrouter: m.openrouter, hugging_face_id: m.hugging_face_id, description: m.description, datacenters: m.datacenters }
}

proof fn lemma_model_members(m: ModelView, rest: Seq<char>)
    ensures
        json_object(model_text(m) + rest, no_model_slots(), model_step_fn()) == Some((model_slots(m), rest)),
{
    let step = model_step_fn();
    lemma_model_shape(m, rest);
    let a0 = no_model_slots();
    assert(tail_from_id(m, rest).len() > 0 && tail_from_id(m, rest)[0] == '"') by {
        reveal(tail_from_id);
        assert(member("id"@, quoted(m.id))[0] == '"');
    }
    lemma_object_start(tail_from_id(m, rest), a0, step);
    reveal(reading_members);
    let a1 = ModelSlots { id: Some(m.id), ..a0 };
    lemma_model_member_id(m, rest, a0);
    let a2 = ModelSlots { name: Some(m.name), ..a1 };
    lemma_model_member_name(m, rest, a1);
    let a3 = ModelSlots { created: Some(m.created), ..a2 };
    lemma_model_member_created(m, rest, a2);
    let a4 = ModelSlots { input_modalities: Some(m.input_modalities), ..a3 };
    lemma_model_member_input_modalities(m, rest, a3);
    let a5 = ModelSlots { output_modalities: Some(m.output_modalities), ..a4 };
    lemma_model_member_output_modalities(m, rest, a4);
    let a6 = ModelSlots { quantization: Some(m.quantization), ..a5 };
    lemma_model_member_quantization(m, rest, a5);
    let a7 = ModelSlots { context_length: Some(m.context_length), ..a6 };
    lemma_model_member_context_length(m, rest, a6);
    let a8 = ModelSlots { max_output_length: Some(m.max_output_length), ..a7 };
    lemma_model_member_max_output_length(m, rest, a7);
    let a9 = ModelSlots { pricing: Some(m.pricing), ..a8 };
    lemma_model_member_pricing(m, rest, a8);
    let a10 = ModelSlots { supported_sampling_parameters: Some(m.supported_sampling_parameters), ..a9 };
    lemma_model_member_supported_sampling_parameters(m, rest, a9);
    let a11 = ModelSlots { supported_features: Some(m.supported_features), ..a10 };
    lemma_model_member_supported_features(m, rest, a10);
    let a12 = ModelSlots { openrouter: m.openrouter, ..a11 };
    lemma_model_member_openrouter(m, rest, a11);
    let a13 = ModelSlots { hugging_face_id: m.hugging_face_id, ..a12 };
    lemma_model_member_hugging_face_id(m, rest, a12);
    let a14 = ModelSlots { description: m.description, ..a13 };
    lemma_model_member_description(m, rest, a13);
    let a15 = ModelSlots { datacenters: m.datacenters, ..a14 };
    lemma_model_member_datacenters(m, rest, a14);
    reveal(tail_from_end);
    lemma_resume_end(rest, a15, step);
    assert(a15 == model_slots(m));
}

/// A `Model` as written is read back.
pub proof fn lemma_model_round_trip(m: ModelView, rest: Seq<char>)
    ensures
        model_value(model_text(m) + rest) == Some((m, rest)),
{
    lemma_model_members(m, rest);
    reveal(model_value);
}

/// What the encoder writes for a model starts with a brace.
proof fn lemma_model_starts(m: ModelView)
    ensures
        model_text(m).len() > 0 && model_text(m)[0] == '{',
{
    reveal(model_text);
}

/// Encoding then decoding a response gives back the same models, in the same
/// order, with every optional member present or absent as it was.
pub proof fn lemma_response_round_trip(ms: Seq<ModelView>)
    ensures
        parse_response(response_text(ms)) == Some(ms),
{
    reveal(resume);
    let step = response_step_fn();
    let enc = |m: ModelView| model_text(m);
    let rest = Seq::<char>::empty();
    let arr = array_text(ms.map_values(enc));
    let r = seq!['}'] + rest;
    let body = member("data"@, arr) + r;
    assert(response_text(ms) =~= seq!['{'] + body);
    assert(body[0] == '"');
    lemma_object_start(body, None, step);
    assert forall|i: int, q: Seq<char>|
        0 <= i < ms.len() && q.len() > 0 && (q[0] == ',' || q[0] == ']') implies {
            &&& #[trigger] model_fn()(enc(ms[i]) + q) == Some((ms[i], q))
            &&& starts_value(enc, ms[i])
        } by {
        lemma_model_round_trip(ms[i], q);
        lemma_model_starts(ms[i]);
    }
    lemma_array_round_trip(ms, enc, model_fn(), r);
    reveal_strlit("data");
    lemma_member("data"@, arr, r, None::<Seq<ModelView>>, Some(ms), step);
    lemma_resume_end(rest, Some(ms), step);
    assert(response_text(ms) + rest =~= response_text(ms));
}

/// Whether `k` names a member of a model.
pub open spec fn is_model_key(k: Seq<char>) -> bool {
    k == "id"@
        || k == "name"@
        || k == "created"@
        || k == "input_modalities"@
        || k == "output_modalities"@
        || k == "quantization"@
        || k == "context_length"@
        || k == "max_output_length"@
        || k == "pricing"@
        || k == "supported_sampling_parameters"@
        || k == "supported_features"@
        || k == "openrouter"@
        || k == "hugging_face_id"@
        || k == "description"@
        || k == "datacenters"@
}

/// Whether `k` names a member of a pricing record.
pub open spec fn is_pricing_key(k: Seq<char>) -> bool {
    k == "prompt"@
        || k == "completion"@
        || k == "image"@
        || k == "request"@
        || k == "input_cache_read"@
        || k == "input_cache_write"@
}

/// A member of a model whose key the schema does not know is read over: the
/// record being read is left as it was.
pub proof fn lemma_unknown_model_member(k: Seq<char>, v: Seq<char>, r: Seq<char>, acc: ModelSlots)
    requires
        !is_model_key(k),
        skip_value(v + r) == Some(r),
        ends_member(r),
    ensures
        members(member(k, v) + r, acc, model_step_fn()) == resume(r, acc, model_step_fn()),
{
    lemma_member(k, v, r, acc, acc, model_step_fn());
}

/// A member of a pricing record whose key the schema does not know is read
/// over: the record being read is left as it was.
pub proof fn lemma_unknown_pricing_member(k: Seq<char>, v: Seq<char>, r: Seq<char>, acc: PricingSlots)
    requires
        !is_pricing_key(k),
        skip_value(v + r) == Some(r),
        ends_member(r),
    ensures
        members(member(k, v) + r, acc, pricing_step_fn()) == resume(r, acc, pricing_step_fn()),
{
    lemma_member(k, v, r, acc, acc, pricing_step_fn());
}

/// Decoding what `to_json` writes for a response gives back a response with
/// the same value: the same models in the same order, each optional member
/// present or absent as it was, each enumeration value the same variant.
pub proof fn lemma_to_json_from_json(r: ListModelsResponse, text: Seq<char>)
    requires
        text == response_text(r@),
    ensures
        parse_response(text) == Some(r@),
{
    lemma_response_round_trip(r@);
}

/// The opening brace and the members that every model has, in the order in
/// which they are written.
pub open spec fn required_members_text(m: ModelView) -> Seq<char> {
    seq!['{'] + member("id"@, quoted(m.id)) + seq![','] + member("name"@, quoted(m.name)) + seq![',']
        + member("created"@, int_text(m.created as int)) + seq![',']
        + member("input_modalities"@, input_modalitys_text(m.input_modalities)) + seq![',']
        + member("output_modalities"@, output_modalitys_text(m.output_modalities)) + seq![',']
        + member("quantization"@, quoted(m.quantization.wire())) + seq![',']
        + member("context_length"@, int_text(m.context_length as int)) + seq![',']
        + member("max_output_length"@, int_text(m.max_output_length as int)) + seq![',']
        + member("pricing"@, pricing_text(m.pricing)) + seq![',']
        + member("supported_sampling_parameters"@, sampling_parameters_text(m.supported_sampling_parameters)) + seq![',']
        + member("supported_features"@, features_text(m.supported_features))
}

proof fn lemma_add_nothing(s: Seq<char>)
    ensures
        s + Seq::<char>::empty() == s,
{
    assert(s + Seq::<char>::empty() =~= s);
}

/// A model without its optional members is written as its required members
/// alone, then the closing brace: no key of an absent member appears, not
/// even with `null`.
pub proof fn lemma_absent_optionals_omitted(m: ModelView)
    requires
        m.openrouter is None,
        m.hugging_face_id is None,
        m.description is None,
        m.datacenters is None,
    ensures
        model_text(m) == required_members_text(m) + seq!['}'],
{
    reveal(model_text);
    let p = required_members_text(m);
    let e = Seq::<char>::empty();
    lemma_add_nothing(p);
    lemma_add_nothing(p + e);
    lemma_add_nothing(p + e + e);
    lemma_add_nothing(p + e + e + e);
}

} // verus!
