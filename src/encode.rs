//! Rendering catalog values as compact JSON text.
//!
//! Members appear in declaration order; an absent optional member is left out
//! entirely, never written as `null`.
use vstd::prelude::*;
use vstd::string::StringExecFns;
use crate::model::{
    datacenters_view, opt_view, Datacenter, Feature, InputModality, ListModelsResponse, Model,
    ModelView, OutputModality, Pricing, PricingView, Quantization, SamplingParameter,
};
use crate::text::{int_text, push_char, push_i64, push_quoted, push_u64, quoted};

verus! {

broadcast use vstd::string::group_string_axioms;

/// `"key":value`
pub open spec fn member(key: Seq<char>, value: Seq<char>) -> Seq<char> {
    quoted(key) + seq![':'] + value
}

/// `,"key":value` when a value is there, nothing otherwise.
pub open spec fn opt_member(key: Seq<char>, value: Option<Seq<char>>) -> Seq<char> {
    match value {
        Some(v) => seq![','] + member(key, v),
        None => Seq::empty(),
    }
}

/// The items separated by commas.
pub open spec fn join(items: Seq<Seq<char>>) -> Seq<char>
    decreases items.len(),
{
    if items.len() == 0 {
        Seq::empty()
    } else if items.len() == 1 {
        items[0]
    } else {
        join(items.drop_last()) + seq![','] + items.last()
    }
}

/// A JSON array of already rendered items.
pub open spec fn array_text(items: Seq<Seq<char>>) -> Seq<char> {
    seq!['['] + join(items) + seq![']']
}

pub open spec fn opt_quoted(s: Option<Seq<char>>) -> Option<Seq<char>> {
    match s {
        Some(t) => Some(quoted(t)),
        None => None,
    }
}

/// A record with one string member.
pub open spec fn single_text(key: Seq<char>, s: Seq<char>) -> Seq<char> {
    seq!['{'] + member(key, quoted(s)) + seq!['}']
}

pub open spec fn pricing_text(p: PricingView) -> Seq<char> {
    seq!['{'] + member("prompt"@, quoted(p.prompt)) + seq![','] + member("completion"@, quoted(p.completion))
        + opt_member("image"@, opt_quoted(p.image))
        + opt_member("request"@, opt_quoted(p.request))
        + opt_member("input_cache_read"@, opt_quoted(p.input_cache_read))
        + opt_member("input_cache_write"@, opt_quoted(p.input_cache_write))
        + seq!['}']
}

pub open spec fn datacenters_text(d: Seq<Seq<char>>) -> Seq<char> {
    array_text(d.map_values(|c: Seq<char>| single_text("country_code"@, c)))
}

pub open spec fn input_modalitys_text(v: Seq<InputModality>) -> Seq<char> {
    array_text(v.map_values(|x: InputModality| quoted(x.wire())))
}

pub open spec fn output_modalitys_text(v: Seq<OutputModality>) -> Seq<char> {
    array_text(v.map_values(|x: OutputModality| quoted(x.wire())))
}

pub open spec fn sampling_parameters_text(v: Seq<SamplingParameter>) -> Seq<char> {
    array_text(v.map_values(|x: SamplingParameter| quoted(x.wire())))
}

pub open spec fn features_text(v: Seq<Feature>) -> Seq<char> {
    array_text(v.map_values(|x: Feature| quoted(x.wire())))
}

#[verifier::opaque]
pub open spec fn model_text(m: ModelView) -> Seq<char> {
    seq!['{'] + member("id"@, quoted(m.id)) + seq![','] + member("name"@, quoted(m.name)) + seq![',']
        + member("created"@, int_text(m.created as int)) + seq![',']
        + member("input_modalities"@, input_modalitys_text(m.input_modalities)) + seq![',']
        + member("output_modalities"@, output_modalitys_text(m.output_modalities)) + seq![',']
        + member("quantization"@, quoted(m.quantization.wire())) + seq![',']
        + member("context_length"@, int_text(m.context_length as int)) + seq![',']
        + member("max_output_length"@, int_text(m.max_output_length as int)) + seq![',']
        + member("pricing"@, pricing_text(m.pricing)) + seq![',']
        + member("supported_sampling_parameters"@, sampling_parameters_text(m.supported_sampling_parameters)) + seq![',']
        + member("supported_features"@, features_text(m.supported_features))
        + opt_member("openrouter"@, match m.openrouter {
            Some(s) => Some(single_text("slug"@, s)),
            None => None,
        })
        + opt_member("hugging_face_id"@, opt_quoted(m.hugging_face_id))
        + opt_member("description"@, opt_quoted(m.description))
        + opt_member("datacenters"@, match m.datacenters {
            Some(d) => Some(datacenters_text(d)),
            None => None,
        })
        + seq!['}']
}

pub open spec fn response_text(ms: Seq<ModelView>) -> Seq<char> {
    seq!['{'] + member("data"@, array_text(ms.map_values(|m: ModelView| model_text(m)))) + seq!['}']
}

proof fn lemma_join_step(items: Seq<Seq<char>>, i: int)
    requires
        0 <= i < items.len(),
    ensures
        join(items.take(i + 1)) == if i == 0 {
            items[0]
        } else {
            join(items.take(i)) + seq![','] + items[i]
        },
{
    assert(items.take(i + 1).drop_last() =~= items.take(i));
}

fn push_sym(out: &mut String, c: char)
    ensures
        final(out)@ == old(out)@ + seq![c],
{
    push_char(out, c);
    assert(out@ =~= old(out)@ + seq![c]);
}

/// Appends `"key":` followed by `value`.
fn push_member(out: &mut String, key: &str, value: &str)
    ensures
        final(out)@ == old(out)@ + member(key@, value@),
{
    let ghost start = out@;
    push_quoted(out, key);
    push_char(out, ':');
    out.append(value);
    assert(out@ =~= start + member(key@, value@));
}

/// Appends `,"key":value` when `value` is there.
fn push_opt_member(out: &mut String, key: &str, value: &Option<String>)
    ensures
        final(out)@ == old(out)@ + opt_member(key@, opt_view(*value)),
{
    let ghost start = out@;
    match value {
        Some(v) => {
            push_sym(out, ',');
            push_member(out, key, v.as_str());
            assert(out@ =~= start + opt_member(key@, opt_view(*value)));
        },
        None => {
            assert(out@ =~= start + opt_member(key@, opt_view(*value)));
        },
    }
}

fn quoted_json(s: &str) -> (r: String)
    ensures
        r@ == quoted(s@),
{
    let mut out = String::new();
    push_quoted(&mut out, s);
    assert(out@ =~= quoted(s@));
    out
}

fn opt_quoted_json(s: &Option<String>) -> (r: Option<String>)
    ensures
        opt_view(r) == opt_quoted(opt_view(*s)),
{
    match s {
        Some(t) => Some(quoted_json(t.as_str())),
        None => None,
    }
}

fn int_json(n: i64) -> (r: String)
    ensures
        r@ == int_text(n as int),
{
    let mut out = String::new();
    push_i64(&mut out, n);
    assert(out@ =~= int_text(n as int));
    out
}

fn uint_json(n: u64) -> (r: String)
    ensures
        r@ == int_text(n as int),
{
    let mut out = String::new();
    push_u64(&mut out, n);
    assert(out@ =~= int_text(n as int));
    out
}

fn single_json(key: &str, s: &String) -> (r: String)
    ensures
        r@ == single_text(key@, s@),
{
    let mut out = String::new();
    push_sym(&mut out, '{');
    assert(out@ =~= seq!['{']);
    push_member(&mut out, key, quoted_json(s.as_str()).as_str());
    push_sym(&mut out, '}');
    out
}

fn input_modalitys_json(v: &Vec<InputModality>) -> (r: String)
    ensures
        r@ == input_modalitys_text(v@),
{
    let ghost items = v@.map_values(|x: InputModality| quoted(x.wire()));
    let mut out = String::new();
    push_sym(&mut out, '[');
    assert(out@ =~= seq!['['] + join(items.take(0)));
    let mut i: usize = 0;
    while i < v.len()
        invariant
            i <= v@.len(),
            items.len() == v@.len(),
            items == v@.map_values(|x: InputModality| quoted(x.wire())),
            out@ == seq!['['] + join(items.take(i as int)),
        decreases v@.len() - i,
    {
        proof { lemma_join_step(items, i as int); }
        if i > 0 {
            push_sym(&mut out, ',');
        }
        let item = quoted_json(v[i].wire_name());
        out.append(item.as_str());
        i = i + 1;
        assert(out@ =~= seq!['['] + join(items.take(i as int)));
    }
    push_sym(&mut out, ']');
    assert(items.take(v@.len() as int) =~= items);
    out
}

fn output_modalitys_json(v: &Vec<OutputModality>) -> (r: String)
    ensures
        r@ == output_modalitys_text(v@),
{
    let ghost items = v@.map_values(|x: OutputModality| quoted(x.wire()));
    let mut out = String::new();
    push_sym(&mut out, '[');
    assert(out@ =~= seq!['['] + join(items.take(0)));
    let mut i: usize = 0;
    while i < v.len()
        invariant
            i <= v@.len(),
            items.len() == v@.len(),
            items == v@.map_values(|x: OutputModality| quoted(x.wire())),
            out@ == seq!['['] + join(items.take(i as int)),
        decreases v@.len() - i,
    {
        proof { lemma_join_step(items, i as int); }
        if i > 0 {
            push_sym(&mut out, ',');
        }
        let item = quoted_json(v[i].wire_name());
        out.append(item.as_str());
        i = i + 1;
        assert(out@ =~= seq!['['] + join(items.take(i as int)));
    }
    push_sym(&mut out, ']');
    assert(items.take(v@.len() as int) =~= items);
    out
}

fn sampling_parameters_json(v: &Vec<SamplingParameter>) -> (r: String)
    ensures
        r@ == sampling_parameters_text(v@),
{
    let ghost items = v@.map_values(|x: SamplingParameter| quoted(x.wire()));
    let mut out = String::new();
    push_sym(&mut out, '[');
    assert(out@ =~= seq!['['] + join(items.take(0)));
    let mut i: usize = 0;
    while i < v.len()
        invariant
            i <= v@.len(),
            items.len() == v@.len(),
            items == v@.map_values(|x: SamplingParameter| quoted(x.wire())),
            out@ == seq!['['] + join(items.take(i as int)),
        decreases v@.len() - i,
    {
        proof { lemma_join_step(items, i as int); }
        if i > 0 {
            push_sym(&mut out, ',');
        }
        let item = quoted_json(v[i].wire_name());
        out.append(item.as_str());
        i = i + 1;
        assert(out@ =~= seq!['['] + join(items.take(i as int)));
    }
    push_sym(&mut out, ']');
    assert(items.take(v@.len() as int) =~= items);
    out
}

fn features_json(v: &Vec<Feature>) -> (r: String)
    ensures
        r@ == features_text(v@),
{
    let ghost items = v@.map_values(|x: Feature| quoted(x.wire()));
    let mut out = String::new();
    push_sym(&mut out, '[');
    assert(out@ =~= seq!['['] + join(items.take(0)));
    let mut i: usize = 0;
    while i < v.len()
        invariant
            i <= v@.len(),
            items.len() == v@.len(),
            items == v@.map_values(|x: Feature| quoted(x.wire())),
            out@ == seq!['['] + join(items.take(i as int)),
        decreases v@.len() - i,
    {
        proof { lemma_join_step(items, i as int); }
        if i > 0 {
            push_sym(&mut out, ',');
        }
        let item = quoted_json(v[i].wire_name());
        out.append(item.as_str());
        i = i + 1;
        assert(out@ =~= seq!['['] + join(items.take(i as int)));
    }
    push_sym(&mut out, ']');
    assert(items.take(v@.len() as int) =~= items);
    out
}

fn datacenters_json(v: &Vec<Datacenter>) -> (r: String)
    ensures
        r@ == datacenters_text(datacenters_view(v@)),
{
    let ghost items = datacenters_view(v@).map_values(|c: Seq<char>| single_text("country_code"@, c));
    let mut out = String::new();
    push_sym(&mut out, '[');
    assert(out@ =~= seq!['['] + join(items.take(0)));
    let mut i: usize = 0;
    while i < v.len()
        invariant
            i <= v@.len(),
            items.len() == v@.len(),
            items == datacenters_view(v@).map_values(|c: Seq<char>| single_text("country_code"@, c)),
            out@ == seq!['['] + join(items.take(i as int)),
        decreases v@.len() - i,
    {
        proof { lemma_join_step(items, i as int); }
        if i > 0 {
            push_sym(&mut out, ',');
        }
        let item = single_json("country_code", &v[i].country_code);
        out.append(item.as_str());
        i = i + 1;
        assert(out@ =~= seq!['['] + join(items.take(i as int)));
    }
    push_sym(&mut out, ']');
    assert(items.take(v@.len() as int) =~= items);
    out
}

fn models_json(v: &Vec<Model>) -> (r: String)
    ensures
        r@ == array_text(v@.map_values(|m: Model| model_text(m@))),
{
    let ghost items = v@.map_values(|m: Model| model_text(m@));
    let mut out = String::new();
    push_sym(&mut out, '[');
    assert(out@ =~= seq!['['] + join(items.take(0)));
    let mut i: usize = 0;
    while i < v.len()
        invariant
            i <= v@.len(),
            items.len() == v@.len(),
            items == v@.map_values(|m: Model| model_text(m@)),
            out@ == seq!['['] + join(items.take(i as int)),
        decreases v@.len() - i,
    {
        proof { lemma_join_step(items, i as int); }
        if i > 0 {
            push_sym(&mut out, ',');
        }
        let item = model_json(&v[i]);
        out.append(item.as_str());
        i = i + 1;
        assert(out@ =~= seq!['['] + join(items.take(i as int)));
    }
    push_sym(&mut out, ']');
    assert(items.take(v@.len() as int) =~= items);
    out
}

fn pricing_json(p: &Pricing) -> (r: String)
    ensures
        r@ == pricing_text(p@),
{
    let mut out = String::new();
    push_sym(&mut out, '{');
    assert(out@ =~= seq!['{']);
    push_member(&mut out, "prompt", quoted_json(p.prompt.as_str()).as_str());
    push_sym(&mut out, ',');
    push_member(&mut out, "completion", quoted_json(p.completion.as_str()).as_str());
    push_opt_member(&mut out, "image", &opt_quoted_json(&p.image));
    push_opt_member(&mut out, "request", &opt_quoted_json(&p.request));
    push_opt_member(&mut out, "input_cache_read", &opt_quoted_json(&p.input_cache_read));
    push_opt_member(&mut out, "input_cache_write", &opt_quoted_json(&p.input_cache_write));
    push_sym(&mut out, '}');
    out
}

fn model_json(m: &Model) -> (r: String)
    ensures
        r@ == model_text(m@),
{
    reveal(model_text);
    let mut out = String::new();
    push_sym(&mut out, '{');
    assert(out@ =~= seq!['{']);
    push_member(&mut out, "id", quoted_json(m.id.as_str()).as_str());
    push_sym(&mut out, ',');
    push_member(&mut out, "name", quoted_json(m.name.as_str()).as_str());
    push_sym(&mut out, ',');
    push_member(&mut out, "created", int_json(m.created).as_str());
    push_sym(&mut out, ',');
    push_member(&mut out, "input_modalities", input_modalitys_json(&m.input_modalities).as_str());
    push_sym(&mut out, ',');
    push_member(&mut out, "output_modalities", output_modalitys_json(&m.output_modalities).as_str());
    push_sym(&mut out, ',');
    push_member(&mut out, "quantization", quoted_json(m.quantization.wire_name()).as_str());
    push_sym(&mut out, ',');
    push_member(&mut out, "context_length", uint_json(m.context_length).as_str());
    push_sym(&mut out, ',');
    push_member(&mut out, "max_output_length", uint_json(m.max_output_length).as_str());
    push_sym(&mut out, ',');
    push_member(&mut out, "pricing", pricing_json(&m.pricing).as_str());
    push_sym(&mut out, ',');
    push_member(
        &mut out,
        "supported_sampling_parameters",
        sampling_parameters_json(&m.supported_sampling_parameters).as_str(),
    );
    push_sym(&mut out, ',');
    push_member(&mut out, "supported_features", features_json(&m.supported_features).as_str());
    let openrouter: Option<String> = match &m.openrouter {
        Some(o) => Some(single_json("slug", &o.slug)),
        None => None,
    };
    push_opt_member(&mut out, "openrouter", &openrouter);
    push_opt_member(&mut out, "hugging_face_id", &opt_quoted_json(&m.hugging_face_id));
    push_opt_member(&mut out, "description", &opt_quoted_json(&m.description));
    let datacenters: Option<String> = match &m.datacenters {
        Some(d) => Some(datacenters_json(d)),
        None => None,
    };
    push_opt_member(&mut out, "datacenters", &datacenters);
    push_sym(&mut out, '}');
    out
}

impl Pricing {
    /// This record as JSON text.
    pub fn to_json(&self) -> (r: String)
        ensures
            r@ == pricing_text(self@),
    {
        pricing_json(self)
    }
}

impl Model {
    /// This record as JSON text.
    pub fn to_json(&self) -> (r: String)
        ensures
            r@ == model_text(self@),
    {
        model_json(self)
    }
}

impl ListModelsResponse {
    /// The whole response as JSON text.
    pub fn to_json(&self) -> (r: String)
        ensures
            r@ == response_text(self@),
    {
        let mut out = String::new();
        push_sym(&mut out, '{');
        assert(out@ =~= seq!['{']);
        push_member(&mut out, "data", models_json(&self.data).as_str());
        push_sym(&mut out, '}');
        assert(self@ =~= self.data@.map_values(|m: Model| m@));
        assert(self.data@.map_values(|m: Model| model_text(m@)) =~= self@.map_values(|m: ModelView| model_text(m)));
        out
    }
}

impl InputModality {
    /// This value as a JSON string literal.
    pub fn to_json(&self) -> (r: String)
        ensures
            r@ == quoted(self.wire()),
    {
        quoted_json(self.wire_name())
    }
}

impl OutputModality {
    /// This value as a JSON string literal.
    pub fn to_json(&self) -> (r: String)
        ensures
            r@ == quoted(self.wire()),
    {
        quoted_json(self.wire_name())
    }
}

impl SamplingParameter {
    /// This value as a JSON string literal.
    pub fn to_json(&self) -> (r: String)
        ensures
            r@ == quoted(self.wire()),
    {
        quoted_json(self.wire_name())
    }
}

impl Feature {
    /// This value as a JSON string literal.
    pub fn to_json(&self) -> (r: String)
        ensures
            r@ == quoted(self.wire()),
    {
        quoted_json(self.wire_name())
    }
}

impl Quantization {
    /// This value as a JSON string literal.
    pub fn to_json(&self) -> (r: String)
        ensures
            r@ == quoted(self.wire()),
    {
        quoted_json(self.wire_name())
    }
}

} // verus!
