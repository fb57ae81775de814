use openrouter_provider::DecodeError;
use openrouter_provider::{
    Datacenter, Feature, InputModality, ListModelsResponse, Model, OpenRouterInfo, OutputModality,
    Pricing, Quantization, SamplingParameter,
};

fn sample_model() -> Model {
    Model {
        id: "org/model".to_string(),
        name: "Model".to_string(),
        created: 1700000000,
        input_modalities: vec![InputModality::Text, InputModality::Image],
        output_modalities: vec![OutputModality::Text],
        quantization: Quantization::Fp16,
        context_length: 128000,
        max_output_length: 4096,
        pricing: Pricing::new("0.001", "0.002"),
        supported_sampling_parameters: vec![SamplingParameter::Temperature],
        supported_features: vec![Feature::Tools],
        openrouter: None,
        hugging_face_id: None,
        description: Some("Test".to_string()),
        datacenters: Some(vec![Datacenter::new("US")]),
    }
}

fn bare_model() -> Model {
    Model {
        id: "a/b".to_string(),
        name: "B".to_string(),
        created: 0,
        input_modalities: vec![],
        output_modalities: vec![],
        quantization: Quantization::Int4,
        context_length: 0,
        max_output_length: 0,
        pricing: Pricing::new("0", "0"),
        supported_sampling_parameters: vec![],
        supported_features: vec![],
        openrouter: None,
        hugging_face_id: None,
        description: None,
        datacenters: None,
    }
}

fn round_trip(r: &ListModelsResponse) -> ListModelsResponse {
    ListModelsResponse::from_json(&r.to_json()).unwrap()
}

#[test]
fn test_round_trip() {
    let original = ListModelsResponse { data: vec![sample_model()] };
    let json = original.to_json();
    let parsed = ListModelsResponse::from_json(&json).unwrap();
    assert_eq!(original, parsed);
}

#[test]
fn test_quantization_serialization() {
    assert_eq!(Quantization::Int4.to_json(), "\"int4\"");
    assert_eq!(Quantization::Bf16.to_json(), "\"bf16\"");
    assert_eq!(Quantization::Fp32.to_json(), "\"fp32\"");
}

#[test]
fn test_feature_serialization() {
    assert_eq!(Feature::JsonMode.to_json(), "\"json_mode\"");
    assert_eq!(Feature::StructuredOutputs.to_json(), "\"structured_outputs\"");
}

#[test]
fn test_sampling_parameter_serialization() {
    assert_eq!(SamplingParameter::TopP.to_json(), "\"top_p\"");
    assert_eq!(SamplingParameter::RepetitionPenalty.to_json(), "\"repetition_penalty\"");
}

#[test]
fn every_wire_name() {
    let inputs = [
        (InputModality::Text, "text"),
        (InputModality::File, "file"),
        (InputModality::Image, "image"),
        (InputModality::Audio, "audio"),
        (InputModality::Video, "video"),
    ];
    for (v, w) in inputs {
        assert_eq!(v.wire_name(), w);
        assert_eq!(v.to_json(), format!("\"{}\"", w));
        let cs: Vec<char> = w.chars().collect();
        assert_eq!(InputModality::from_wire(&cs), Some(v));
    }
    assert_eq!(OutputModality::Text.wire_name(), "text");
    assert_eq!(OutputModality::Image.wire_name(), "image");
    let quants = [
        (Quantization::Int4, "int4"),
        (Quantization::Int8, "int8"),
        (Quantization::Fp4, "fp4"),
        (Quantization::Fp6, "fp6"),
        (Quantization::Fp8, "fp8"),
        (Quantization::Fp16, "fp16"),
        (Quantization::Bf16, "bf16"),
        (Quantization::Fp32, "fp32"),
    ];
    for (v, w) in quants {
        assert_eq!(v.wire_name(), w);
        let cs: Vec<char> = w.chars().collect();
        assert_eq!(Quantization::from_wire(&cs), Some(v));
    }
    let params = [
        (SamplingParameter::Temperature, "temperature"),
        (SamplingParameter::TopP, "top_p"),
        (SamplingParameter::TopK, "top_k"),
        (SamplingParameter::RepetitionPenalty, "repetition_penalty"),
        (SamplingParameter::FrequencyPenalty, "frequency_penalty"),
        (SamplingParameter::PresencePenalty, "presence_penalty"),
        (SamplingParameter::Stop, "stop"),
        (SamplingParameter::Seed, "seed"),
    ];
    for (v, w) in params {
        assert_eq!(v.wire_name(), w);
    }
    let features = [
        (Feature::Tools, "tools"),
        (Feature::JsonMode, "json_mode"),
        (Feature::StructuredOutputs, "structured_outputs"),
        (Feature::WebSearch, "web_search"),
        (Feature::Reasoning, "reasoning"),
    ];
    for (v, w) in features {
        assert_eq!(v.wire_name(), w);
    }
    let bad: Vec<char> = "int2".chars().collect();
    assert_eq!(Quantization::from_wire(&bad), None);
    let upper: Vec<char> = "Text".chars().collect();
    assert_eq!(InputModality::from_wire(&upper), None);
}

#[test]
fn optional_members_are_omitted() {
    let json = bare_model().to_json();
    for key in ["openrouter", "hugging_face_id", "description", "datacenters", "null"] {
        assert!(!json.contains(key), "{} in {}", key, json);
    }
    let pricing = Pricing::new("0.1", "0.2").to_json();
    assert_eq!(pricing, "{\"prompt\":\"0.1\",\"completion\":\"0.2\"}");
}

#[test]
fn exact_model_text() {
    assert_eq!(
        bare_model().to_json(),
        "{\"id\":\"a/b\",\"name\":\"B\",\"created\":0,\"input_modalities\":[],\"output_modalities\":[],\"quantization\":\"int4\",\"context_length\":0,\"max_output_length\":0,\"pricing\":{\"prompt\":\"0\",\"completion\":\"0\"},\"supported_sampling_parameters\":[],\"supported_features\":[]}"
    );
    let mut m = bare_model();
    m.created = -42;
    m.openrouter = Some(OpenRouterInfo { slug: "x/y".to_string() });
    m.datacenters = Some(vec![]);
    m.input_modalities = vec![InputModality::Audio, InputModality::Audio];
    let json = m.to_json();
    assert!(json.contains("\"created\":-42"));
    assert!(json.contains("\"input_modalities\":[\"audio\",\"audio\"]"));
    assert!(json.ends_with(",\"openrouter\":{\"slug\":\"x/y\"},\"datacenters\":[]}"));
}

#[test]
fn round_trip_every_option() {
    let mut full = sample_model();
    full.openrouter = Some(OpenRouterInfo { slug: "org/model".to_string() });
    full.hugging_face_id = Some("org/hf".to_string());
    full.created = i64::MIN;
    full.context_length = u64::MAX;
    full.max_output_length = 7;
    full.pricing.image = Some("1".to_string());
    full.pricing.request = Some("2".to_string());
    full.pricing.input_cache_read = Some("3".to_string());
    full.pricing.input_cache_write = Some("4".to_string());
    full.input_modalities = vec![
        InputModality::Video,
        InputModality::File,
        InputModality::Audio,
        InputModality::Video,
    ];
    full.output_modalities = vec![OutputModality::Image, OutputModality::Text];
    full.supported_sampling_parameters = vec![
        SamplingParameter::TopK,
        SamplingParameter::FrequencyPenalty,
        SamplingParameter::PresencePenalty,
        SamplingParameter::Stop,
        SamplingParameter::Seed,
    ];
    full.supported_features =
        vec![Feature::WebSearch, Feature::Reasoning, Feature::JsonMode, Feature::StructuredOutputs];
    full.datacenters = Some(vec![Datacenter::new("DE"), Datacenter::new("US"), Datacenter::new("DE")]);
    let mut empty_dc = bare_model();
    empty_dc.datacenters = Some(vec![]);
    empty_dc.created = i64::MAX;
    let r = ListModelsResponse { data: vec![full, bare_model(), empty_dc, bare_model()] };
    assert_eq!(round_trip(&r), r);
    let empty = ListModelsResponse { data: vec![] };
    assert_eq!(empty.to_json(), "{\"data\":[]}");
    assert_eq!(round_trip(&empty), empty);
}

#[test]
fn strings_with_escapes_round_trip() {
    let mut m = bare_model();
    m.name = "quote \" back \\ nl \n tab \t bell \u{7} nul \u{0} é 😀".to_string();
    m.description = Some("\u{8}\u{c}\r/".to_string());
    let json = m.to_json();
    assert!(json.contains("\\u0007"));
    assert!(json.contains("\\u0000"));
    assert!(json.contains("\\b\\f\\r"));
    let r = ListModelsResponse { data: vec![m] };
    assert_eq!(round_trip(&r), r);
}

#[test]
fn unicode_escapes_are_read() {
    let doc = "{\"data\":[{\"id\":\"\\u0061\\/\\ud83d\\ude00\",\"name\":\"n\",\"created\":1,\"input_modalities\":[],\"output_modalities\":[],\"quantization\":\"fp8\",\"context_length\":1,\"max_output_length\":1,\"pricing\":{\"prompt\":\"1\",\"completion\":\"1\"},\"supported_sampling_parameters\":[],\"supported_features\":[]}]}";
    let r = ListModelsResponse::from_json(doc).unwrap();
    assert_eq!(r.data[0].id, "a/😀");
    let lone = doc.replace("\\ude00", "x");
    assert_eq!(ListModelsResponse::from_json(&lone), Err(DecodeError::MalformedJson));
}

const EXAMPLE: &str = "{\"data\":[{\"id\":\"org/model\",\"name\":\"Model\",\"created\":1700000000,
    \"input_modalities\":[\"text\",\"image\"],\"output_modalities\":[\"text\"],
    \"quantization\":\"fp16\",\"context_length\":128000,\"max_output_length\":4096,
    \"pricing\":{\"prompt\":\"0.001\",\"completion\":\"0.002\"},
    \"supported_sampling_parameters\":[\"temperature\"],
    \"supported_features\":[\"tools\"],
    \"description\":\"Test\",\"datacenters\":[{\"country_code\":\"US\"}]}]}";

#[test]
fn end_to_end_example() {
    let decoded = ListModelsResponse::from_json(EXAMPLE).unwrap();
    assert_eq!(decoded, ListModelsResponse { data: vec![sample_model()] });
    assert_eq!(decoded.data[0].openrouter, None);
    assert_eq!(decoded.data[0].hugging_face_id, None);
    let again = ListModelsResponse::from_json(&decoded.to_json()).unwrap();
    assert_eq!(again, decoded);
}

#[test]
fn unknown_keys_are_ignored() {
    let doc = EXAMPLE
        .replace("\"name\":\"Model\"", "\"name\":\"Model\",\"extra\":{\"a\":[1,-2.5e+3,true,false,null,\"s\"],\"b\":{}}")
        .replace("\"prompt\":\"0.001\"", "\"prompt\":\"0.001\",\"discount\":0.5")
        .replace("{\"data\"", "{\"version\":2, \"data\"");
    let decoded = ListModelsResponse::from_json(&doc).unwrap();
    assert_eq!(decoded, ListModelsResponse { data: vec![sample_model()] });
}

#[test]
fn members_in_any_order() {
    let doc = " { \"data\" : [ { \"supported_features\" : [ ] , \"name\" : \"B\" , \"pricing\" : { \"completion\" : \"0\" , \"prompt\" : \"0\" } , \"id\" : \"a/b\" , \"created\" : 0 , \"input_modalities\" : [ ] , \"output_modalities\" : [ ] , \"quantization\" : \"int4\" , \"context_length\" : 0 , \"max_output_length\" : 0 , \"supported_sampling_parameters\" : [ ] } ] } \n";
    let decoded = ListModelsResponse::from_json(doc).unwrap();
    assert_eq!(decoded, ListModelsResponse { data: vec![bare_model()] });
}

#[test]
fn invalid_enum_is_schema_mismatch() {
    let doc = EXAMPLE.replace("\"fp16\"", "\"int2\"");
    assert_eq!(ListModelsResponse::from_json(&doc), Err(DecodeError::SchemaMismatch));
}

#[test]
fn schema_mismatches() {
    let cases = [
        EXAMPLE.replace("\"name\":\"Model\",", ""),
        EXAMPLE.replace("1700000000", "\"1700000000\""),
        EXAMPLE.replace("128000", "-1"),
        EXAMPLE.replace("128000", "18446744073709551616"),
        EXAMPLE.replace("128000", "1.5"),
        EXAMPLE.replace("\"description\":\"Test\"", "\"description\":null"),
        EXAMPLE.replace("\"name\":\"Model\"", "\"name\":\"Model\",\"name\":\"Again\""),
        EXAMPLE.replace("\"completion\":\"0.002\"", "\"completion\":0.002"),
        "{}".to_string(),
        "{\"data\":{}}".to_string(),
    ];
    for doc in cases.iter() {
        assert_eq!(ListModelsResponse::from_json(doc), Err(DecodeError::SchemaMismatch), "{}", doc);
    }
}

#[test]
fn malformed_json() {
    let cases = [
        "".to_string(),
        "[]".to_string(),
        "{\"data\":[]".to_string(),
        "{\"data\":[]} x".to_string(),
        "{\"data\":[],}".to_string(),
        "{\"data\":[01]}".to_string(),
        "{\"data\":\"\\q\"}".to_string(),
        EXAMPLE.replace("}]}", "}]"),
    ];
    for doc in cases.iter() {
        assert_eq!(ListModelsResponse::from_json(doc), Err(DecodeError::MalformedJson), "{}", doc);
    }
}

#[test]
fn constructors() {
    let p = Pricing::new("0.001", "0.002");
    assert_eq!(p.prompt, "0.001");
    assert_eq!(p.completion, "0.002");
    assert_eq!(p.image, None);
    assert_eq!(p.request, None);
    assert_eq!(p.input_cache_read, None);
    assert_eq!(p.input_cache_write, None);
    assert_eq!(Datacenter::new("US").country_code, "US");
}
