//! The fixed wire string of each enumeration value, in both directions.
use vstd::prelude::*;
use crate::model::{Feature, InputModality, OutputModality, Quantization, SamplingParameter};

verus! {

impl InputModality {
    /// The value's wire string.
    pub open spec fn wire(self) -> Seq<char> {
        match self {
            InputModality::Text => "text"@,
            InputModality::File => "file"@,
            InputModality::Image => "image"@,
            InputModality::Audio => "audio"@,
            InputModality::Video => "video"@,
        }
    }

    /// The value whose wire string is `s`, if any.
    pub open spec fn from_wire_spec(s: Seq<char>) -> Option<InputModality> {
        if s == "text"@ {
            Some(InputModality::Text)
        } else if s == "file"@ {
            Some(InputModality::File)
        } else if s == "image"@ {
            Some(InputModality::Image)
        } else if s == "audio"@ {
            Some(InputModality::Audio)
        } else if s == "video"@ {
            Some(InputModality::Video)
        } else {
            None
        }
    }

    pub fn wire_name(&self) -> (r: &'static str)
        ensures
            r@ == self.wire(),
    {
        match self {
            InputModality::Text => "text",
            InputModality::File => "file",
            InputModality::Image => "image",
            InputModality::Audio => "audio",
            InputModality::Video => "video",
        }
    }

    /// Parses a wire string; `None` when it names no value.
    pub fn from_wire(s: &[char]) -> (r: Option<InputModality>)
        ensures
            r == InputModality::from_wire_spec(s@),
    {
        if chars_eq(s, "text") {
            Some(InputModality::Text)
        } else if chars_eq(s, "file") {
            Some(InputModality::File)
        } else if chars_eq(s, "image") {
            Some(InputModality::Image)
        } else if chars_eq(s, "audio") {
            Some(InputModality::Audio)
        } else if chars_eq(s, "video") {
            Some(InputModality::Video)
        } else {
            None
        }
    }

    /// Reading back the wire string of a value gives that value, and no
    /// other value has the same wire string.
    pub proof fn lemma_wire_round_trip(self)
        ensures
            InputModality::from_wire_spec(self.wire()) == Some(self),
    {
        reveal_strlit("text");
        reveal_strlit("file");
        reveal_strlit("image");
        reveal_strlit("audio");
        reveal_strlit("video");
        match self {
            InputModality::Text => {
            },
            InputModality::File => {
                assert("file"@[0] != "text"@[0]);
            },
            InputModality::Image => {
                assert("image"@.len() != "text"@.len());
                assert("image"@.len() != "file"@.len());
            },
            InputModality::Audio => {
                assert("audio"@.len() != "text"@.len());
                assert("audio"@.len() != "file"@.len());
                assert("audio"@[0] != "image"@[0]);
            },
            InputModality::Video => {
                assert("video"@.len() != "text"@.len());
                assert("video"@.len() != "file"@.len());
                assert("video"@[0] != "image"@[0]);
                assert("video"@[0] != "audio"@[0]);
            },
        }
    }
}

impl OutputModality {
    /// The value's wire string.
    pub open spec fn wire(self) -> Seq<char> {
        match self {
            OutputModality::Text => "text"@,
            OutputModality::Image => "image"@,
        }
    }

    /// The value whose wire string is `s`, if any.
    pub open spec fn from_wire_spec(s: Seq<char>) -> Option<OutputModality> {
        if s == "text"@ {
            Some(OutputModality::Text)
        } else if s == "image"@ {
            Some(OutputModality::Image)
        } else {
            None
        }
    }

    pub fn wire_name(&self) -> (r: &'static str)
        ensures
            r@ == self.wire(),
    {
        match self {
            OutputModality::Text => "text",
            OutputModality::Image => "image",
        }
    }

    /// Parses a wire string; `None` when it names no value.
    pub fn from_wire(s: &[char]) -> (r: Option<OutputModality>)
        ensures
            r == OutputModality::from_wire_spec(s@),
    {
        if chars_eq(s, "text") {
            Some(OutputModality::Text)
        } else if chars_eq(s, "image") {
            Some(OutputModality::Image)
        } else {
            None
        }
    }

    /// Reading back the wire string of a value gives that value, and no
    /// other value has the same wire string.
    pub proof fn lemma_wire_round_trip(self)
        ensures
            OutputModality::from_wire_spec(self.wire()) == Some(self),
    {
        reveal_strlit("text");
        reveal_strlit("image");
        match self {
            OutputModality::Text => {
            },
            OutputModality::Image => {
                assert("image"@.len() != "text"@.len());
            },
        }
    }
}

impl Quantization {
    /// The value's wire string.
    pub open spec fn wire(self) -> Seq<char> {
        match self {
            Quantization::Int4 => "int4"@,
            Quantization::Int8 => "int8"@,
            Quantization::Fp4 => "fp4"@,
            Quantization::Fp6 => "fp6"@,
            Quantization::Fp8 => "fp8"@,
            Quantization::Fp16 => "fp16"@,
            Quantization::Bf16 => "bf16"@,
            Quantization::Fp32 => "fp32"@,
        }
    }

    /// The value whose wire string is `s`, if any.
    pub open spec fn from_wire_spec(s: Seq<char>) -> Option<Quantization> {
        if s == "int4"@ {
            Some(Quantization::Int4)
        } else if s == "int8"@ {
            Some(Quantization::Int8)
        } else if s == "fp4"@ {
            Some(Quantization::Fp4)
        } else if s == "fp6"@ {
            Some(Quantization::Fp6)
        } else if s == "fp8"@ {
            Some(Quantization::Fp8)
        } else if s == "fp16"@ {
            Some(Quantization::Fp16)
        } else if s == "bf16"@ {
            Some(Quantization::Bf16)
        } else if s == "fp32"@ {
            Some(Quantization::Fp32)
        } else {
            None
        }
    }

    pub fn wire_name(&self) -> (r: &'static str)
        ensures
            r@ == self.wire(),
    {
        match self {
            Quantization::Int4 => "int4",
            Quantization::Int8 => "int8",
            Quantization::Fp4 => "fp4",
            Quantization::Fp6 => "fp6",
            Quantization::Fp8 => "fp8",
            Quantization::Fp16 => "fp16",
            Quantization::Bf16 => "bf16",
            Quantization::Fp32 => "fp32",
        }
    }

    /// Parses a wire string; `None` when it names no value.
    pub fn from_wire(s: &[char]) -> (r: Option<Quantization>)
        ensures
            r == Quantization::from_wire_spec(s@),
    {
        if chars_eq(s, "int4") {
            Some(Quantization::Int4)
        } else if chars_eq(s, "int8") {
            Some(Quantization::Int8)
        } else if chars_eq(s, "fp4") {
            Some(Quantization::Fp4)
        } else if chars_eq(s, "fp6") {
            Some(Quantization::Fp6)
        } else if chars_eq(s, "fp8") {
            Some(Quantization::Fp8)
        } else if chars_eq(s, "fp16") {
            Some(Quantization::Fp16)
        } else if chars_eq(s, "bf16") {
            Some(Quantization::Bf16)
        } else if chars_eq(s, "fp32") {
            Some(Quantization::Fp32)
        } else {
            None
        }
    }

    /// Reading back the wire string of a value gives that value, and no
    /// other value has the same wire string.
    pub proof fn lemma_wire_round_trip(self)
        ensures
            Quantization::from_wire_spec(self.wire()) == Some(self),
    {
        reveal_strlit("int4");
        reveal_strlit("int8");
        reveal_strlit("fp4");
        reveal_strlit("fp6");
        reveal_strlit("fp8");
        reveal_strlit("fp16");
        reveal_strlit("bf16");
        reveal_strlit("fp32");
        match self {
            Quantization::Int4 => {
            },
            Quantization::Int8 => {
                assert("int8"@[3] != "int4"@[3]);
            },
            Quantization::Fp4 => {
                assert("fp4"@.len() != "int4"@.len());
                assert("fp4"@.len() != "int8"@.len());
            },
            Quantization::Fp6 => {
                assert("fp6"@.len() != "int4"@.len());
                assert("fp6"@.len() != "int8"@.len());
                assert("fp6"@[2] != "fp4"@[2]);
            },
            Quantization::Fp8 => {
                assert("fp8"@.len() != "int4"@.len());
                assert("fp8"@.len() != "int8"@.len());
                assert("fp8"@[2] != "fp4"@[2]);
                assert("fp8"@[2] != "fp6"@[2]);
            },
            Quantization::Fp16 => {
                assert("fp16"@[0] != "int4"@[0]);
                assert("fp16"@[0] != "int8"@[0]);
                assert("fp16"@.len() != "fp4"@.len());
                assert("fp16"@.len() != "fp6"@.len());
                assert("fp16"@.len() != "fp8"@.len());
            },
            Quantization::Bf16 => {
                assert("bf16"@[0] != "int4"@[0]);
                assert("bf16"@[0] != "int8"@[0]);
                assert("bf16"@.len() != "fp4"@.len());
                assert("bf16"@.len() != "fp6"@.len());
                assert("bf16"@.len() != "fp8"@.len());
                assert("bf16"@[0] != "fp16"@[0]);
            },
            Quantization::Fp32 => {
                assert("fp32"@[0] != "int4"@[0]);
                assert("fp32"@[0] != "int8"@[0]);
                assert("fp32"@.len() != "fp4"@.len());
                assert("fp32"@.len() != "fp6"@.len());
                assert("fp32"@.len() != "fp8"@.len());
                assert("fp32"@[2] != "fp16"@[2]);
                assert("fp32"@[0] != "bf16"@[0]);
            },
        }
    }
}

impl SamplingParameter {
    /// The value's wire string.
    pub open spec fn wire(self) -> Seq<char> {
        match self {
            SamplingParameter::Temperature => "temperature"@,
            SamplingParameter::TopP => "top_p"@,
            SamplingParameter::TopK => "top_k"@,
            SamplingParameter::RepetitionPenalty => "repetition_penalty"@,
            SamplingParameter::FrequencyPenalty => "frequency_penalty"@,
            SamplingParameter::PresencePenalty => "presence_penalty"@,
            SamplingParameter::Stop => "stop"@,
            SamplingParameter::Seed => "seed"@,
        }
    }

    /// The value whose wire string is `s`, if any.
    pub open spec fn from_wire_spec(s: Seq<char>) -> Option<SamplingParameter> {
        if s == "temperature"@ {
            Some(SamplingParameter::Temperature)
        } else if s == "top_p"@ {
            Some(SamplingParameter::TopP)
        } else if s == "top_k"@ {
            Some(SamplingParameter::TopK)
        } else if s == "repetition_penalty"@ {
            Some(SamplingParameter::RepetitionPenalty)
        } else if s == "frequency_penalty"@ {
            Some(SamplingParameter::FrequencyPenalty)
        } else if s == "presence_penalty"@ {
            Some(SamplingParameter::PresencePenalty)
        } else if s == "stop"@ {
            Some(SamplingParameter::Stop)
        } else if s == "seed"@ {
            Some(SamplingParameter::Seed)
        } else {
            None
        }
    }

    pub fn wire_name(&self) -> (r: &'static str)
        ensures
            r@ == self.wire(),
    {
        match self {
            SamplingParameter::Temperature => "temperature",
            SamplingParameter::TopP => "top_p",
            SamplingParameter::TopK => "top_k",
            SamplingParameter::RepetitionPenalty => "repetition_penalty",
            SamplingParameter::FrequencyPenalty => "frequency_penalty",
            SamplingParameter::PresencePenalty => "presence_penalty",
            SamplingParameter::Stop => "stop",
            SamplingParameter::Seed => "seed",
        }
    }

    /// Parses a wire string; `None` when it names no value.
    pub fn from_wire(s: &[char]) -> (r: Option<SamplingParameter>)
        ensures
            r == SamplingParameter::from_wire_spec(s@),
    {
        if chars_eq(s, "temperature") {
            Some(SamplingParameter::Temperature)
        } else if chars_eq(s, "top_p") {
            Some(SamplingParameter::TopP)
        } else if chars_eq(s, "top_k") {
            Some(SamplingParameter::TopK)
        } else if chars_eq(s, "repetition_penalty") {
            Some(SamplingParameter::RepetitionPenalty)
        } else if chars_eq(s, "frequency_penalty") {
            Some(SamplingParameter::FrequencyPenalty)
        } else if chars_eq(s, "presence_penalty") {
            Some(SamplingParameter::PresencePenalty)
        } else if chars_eq(s, "stop") {
            Some(SamplingParameter::Stop)
        } else if chars_eq(s, "seed") {
            Some(SamplingParameter::Seed)
        } else {
            None
        }
    }

    /// Reading back the wire string of a value gives that value, and no
    /// other value has the same wire string.
    pub proof fn lemma_wire_round_trip(self)
        ensures
            SamplingParameter::from_wire_spec(self.wire()) == Some(self),
    {
        reveal_strlit("temperature");
        reveal_strlit("top_p");
        reveal_strlit("top_k");
        reveal_strlit("repetition_penalty");
        reveal_strlit("frequency_penalty");
        reveal_strlit("presence_penalty");
        reveal_strlit("stop");
        reveal_strlit("seed");
        match self {
            SamplingParameter::Temperature => {
            },
            SamplingParameter::TopP => {
                assert("top_p"@.len() != "temperature"@.len());
            },
            SamplingParameter::TopK => {
                assert("top_k"@.len() != "temperature"@.len());
                assert("top_k"@[4] != "top_p"@[4]);
            },
            SamplingParameter::RepetitionPenalty => {
                assert("repetition_penalty"@.len() != "temperature"@.len());
                assert("repetition_penalty"@.len() != "top_p"@.len());
                assert("repetition_penalty"@.len() != "top_k"@.len());
            },
            SamplingParameter::FrequencyPenalty => {
                assert("frequency_penalty"@.len() != "temperature"@.len());
                assert("frequency_penalty"@.len() != "top_p"@.len());
                assert("frequency_penalty"@.len() != "top_k"@.len());
                assert("frequency_penalty"@.len() != "repetition_penalty"@.len());
            },
            SamplingParameter::PresencePenalty => {
                assert("presence_penalty"@.len() != "temperature"@.len());
                assert("presence_penalty"@.len() != "top_p"@.len());
                assert("presence_penalty"@.len() != "top_k"@.len());
                assert("presence_penalty"@.len() != "repetition_penalty"@.len());
                assert("presence_penalty"@.len() != "frequency_penalty"@.len());
            },
            SamplingParameter::Stop => {
                assert("stop"@.len() != "temperature"@.len());
                assert("stop"@.len() != "top_p"@.len());
                assert("stop"@.len() != "top_k"@.len());
                assert("stop"@.len() != "repetition_penalty"@.len());
                assert("stop"@.len() != "frequency_penalty"@.len());
                assert("stop"@.len() != "presence_penalty"@.len());
            },
            SamplingParameter::Seed => {
                assert("seed"@.len() != "temperature"@.len());
                assert("seed"@.len() != "top_p"@.len());
                assert("seed"@.len() != "top_k"@.len());
                assert("seed"@.len() != "repetition_penalty"@.len());
                assert("seed"@.len() != "frequency_penalty"@.len());
                assert("seed"@.len() != "presence_penalty"@.len());
                assert("seed"@[1] != "stop"@[1]);
            },
        }
    }
}

impl Feature {
    /// The value's wire string.
    pub open spec fn wire(self) -> Seq<char> {
        match self {
            Feature::Tools => "tools"@,
            Feature::JsonMode => "json_mode"@,
            Feature::StructuredOutputs => "structured_outputs"@,
            Feature::WebSearch => "web_search"@,
            Feature::Reasoning => "reasoning"@,
        }
    }

    /// The value whose wire string is `s`, if any.
    pub open spec fn from_wire_spec(s: Seq<char>) -> Option<Feature> {
        if s == "tools"@ {
            Some(Feature::Tools)
        } else if s == "json_mode"@ {
            Some(Feature::JsonMode)
        } else if s == "structured_outputs"@ {
            Some(Feature::StructuredOutputs)
        } else if s == "web_search"@ {
            Some(Feature::WebSearch)
        } else if s == "reasoning"@ {
            Some(Feature::Reasoning)
        } else {
            None
        }
    }

    pub fn wire_name(&self) -> (r: &'static str)
        ensures
            r@ == self.wire(),
    {
        match self {
            Feature::Tools => "tools",
            Feature::JsonMode => "json_mode",
            Feature::StructuredOutputs => "structured_outputs",
            Feature::WebSearch => "web_search",
            Feature::Reasoning => "reasoning",
        }
    }

    /// Parses a wire string; `None` when it names no value.
    pub fn from_wire(s: &[char]) -> (r: Option<Feature>)
        ensures
            r == Feature::from_wire_spec(s@),
    {
        if chars_eq(s, "tools") {
            Some(Feature::Tools)
        } else if chars_eq(s, "json_mode") {
            Some(Feature::JsonMode)
        } else if chars_eq(s, "structured_outputs") {
            Some(Feature::StructuredOutputs)
        } else if chars_eq(s, "web_search") {
            Some(Feature::WebSearch)
        } else if chars_eq(s, "reasoning") {
            Some(Feature::Reasoning)
        } else {
            None
        }
    }

    /// Reading back the wire string of a value gives that value, and no
    /// other value has the same wire string.
    pub proof fn lemma_wire_round_trip(self)
        ensures
            Feature::from_wire_spec(self.wire()) == Some(self),
    {
        reveal_strlit("tools");
        reveal_strlit("json_mode");
        reveal_strlit("structured_outputs");
        reveal_strlit("web_search");
        reveal_strlit("reasoning");
        match self {
            Feature::Tools => {
            },
            Feature::JsonMode => {
                assert("json_mode"@.len() != "tools"@.len());
            },
            Feature::StructuredOutputs => {
                assert("structured_outputs"@.len() != "tools"@.len());
                assert("structured_outputs"@.len() != "json_mode"@.len());
            },
            Feature::WebSearch => {
                assert("web_search"@.len() != "tools"@.len());
                assert("web_search"@.len() != "json_mode"@.len());
                assert("web_search"@.len() != "structured_outputs"@.len());
            },
            Feature::Reasoning => {
                assert("reasoning"@.len() != "tools"@.len());
                assert("reasoning"@[0] != "json_mode"@[0]);
                assert("reasoning"@.len() != "structured_outputs"@.len());
                assert("reasoning"@.len() != "web_search"@.len());
            },
        }
    }
}

/// Whether the characters `s` spell exactly the text `lit`.
pub fn chars_eq(s: &[char], lit: &str) -> (r: bool)
    ensures
        r == (s@ == lit@),
{
    let n = lit.unicode_len();
    if s.len() != n {
        return false;
    }
    let mut i: usize = 0;
    while i < n
        invariant
            n == lit@.len(),
            s@.len() == n,
            i <= n,
            s@.subrange(0, i as int) == lit@.subrange(0, i as int),
        decreases n - i,
    {
        if s[i] != lit.get_char(i) {
            return false;
        }
        assert(s@.subrange(0, i + 1) =~= s@.subrange(0, i as int).push(s@[i as int]));
        assert(lit@.subrange(0, i + 1) =~= lit@.subrange(0, i as int).push(lit@[i as int]));
        i = i + 1;
    }
    assert(s@ =~= s@.subrange(0, n as int));
    assert(lit@ =~= lit@.subrange(0, n as int));
    true
}

} // verus!
