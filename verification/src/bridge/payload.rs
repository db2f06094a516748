//! Wire payloads: one profiled shape as named plain values.

use crate::text::text_eq;
use crate::text_map::TextMap;
use vstd::prelude::*;

verus! {

/// Name of a kernel kind; it doubles as the stem of its profiler functions.
pub type KernelKind = &'static str;

/// Precision tag carried by a kernel configuration.
#[derive(Clone, Copy, Debug, PartialEq, Eq, Hash, Structural)]
pub enum DType {
    Fp16,
    Bf16,
    Fp32,
    Fp8E4m3,
    Fp8E5m2,
    Int8,
    Int4,
}

/// The wire literal of a precision.
pub open spec fn dtype_text(dtype: DType) -> Seq<char> {
    match dtype {
        DType::Fp16 => "fp16"@,
        DType::Bf16 => "bf16"@,
        DType::Fp32 => "fp32"@,
        DType::Fp8E4m3 => "fp8_e4m3"@,
        DType::Fp8E5m2 => "fp8_e5m2"@,
        DType::Int8 => "int8"@,
        DType::Int4 => "int4"@,
    }
}

/// Bytes per element of a precision; half a byte counts as one.
pub open spec fn dtype_bytes(dtype: DType) -> int {
    match dtype {
        DType::Fp32 => 4,
        DType::Fp16 => 2,
        DType::Bf16 => 2,
        _ => 1,
    }
}

/// Different precisions have different wire literals.
pub proof fn dtype_text_injective(a: DType, b: DType)
    requires
        dtype_text(a) == dtype_text(b),
    ensures
        a == b,
{
    reveal_strlit("fp16");
    reveal_strlit("bf16");
    reveal_strlit("fp32");
    reveal_strlit("fp8_e4m3");
    reveal_strlit("fp8_e5m2");
    reveal_strlit("int8");
    reveal_strlit("int4");
    assert("fp16"@.len() == 4 && "fp16"@[0] == 'f' && "fp16"@[2] == '1');
    assert("bf16"@.len() == 4 && "bf16"@[0] == 'b');
    assert("fp32"@.len() == 4 && "fp32"@[0] == 'f' && "fp32"@[2] == '3');
    assert("fp8_e4m3"@.len() == 8 && "fp8_e4m3"@[5] == '4');
    assert("fp8_e5m2"@.len() == 8 && "fp8_e5m2"@[5] == '5');
    assert("int8"@.len() == 4 && "int8"@[0] == 'i' && "int8"@[3] == '8');
    assert("int4"@.len() == 4 && "int4"@[0] == 'i' && "int4"@[3] == '4');
}

impl DType {
    /// The wire literal.
    pub fn as_str(self) -> (r: &'static str)
        ensures
            r@ == dtype_text(self),
    {
        match self {
            DType::Fp16 => "fp16",
            DType::Bf16 => "bf16",
            DType::Fp32 => "fp32",
            DType::Fp8E4m3 => "fp8_e4m3",
            DType::Fp8E5m2 => "fp8_e5m2",
            DType::Int8 => "int8",
            DType::Int4 => "int4",
        }
    }

    /// Bytes per element.
    pub fn size_bytes(self) -> (r: u32)
        ensures
            r == dtype_bytes(self),
    {
        match self {
            DType::Fp32 => 4,
            DType::Fp16 => 2,
            DType::Bf16 => 2,
            DType::Fp8E4m3 => 1,
            DType::Fp8E5m2 => 1,
            DType::Int8 => 1,
            DType::Int4 => 1,
        }
    }

    /// The precision with wire literal `s`, if there is one.
    pub fn from_wire(s: &str) -> (r: Option<DType>)
        ensures
            match r {
                Some(dtype) => dtype_text(dtype) == s@,
                None => forall|dtype: DType| dtype_text(dtype) != s@,
            },
    {
        if text_eq(s, "fp16") {
            return Some(DType::Fp16);
        }
        if text_eq(s, "bf16") {
            return Some(DType::Bf16);
        }
        if text_eq(s, "fp32") {
            return Some(DType::Fp32);
        }
        if text_eq(s, "fp8_e4m3") {
            return Some(DType::Fp8E4m3);
        }
        if text_eq(s, "fp8_e5m2") {
            return Some(DType::Fp8E5m2);
        }
        if text_eq(s, "int8") {
            return Some(DType::Int8);
        }
        if text_eq(s, "int4") {
            return Some(DType::Int4);
        }
        None
    }
}

/// A real number of the wire, kept exact.
#[derive(Clone, Copy, Debug, PartialEq, Eq, Hash, Structural)]
pub enum Real {
    /// The double with these bits.
    Bits(u64),
    /// One over a whole number.
    Reciprocal(u32),
    /// One over the square root of a whole number.
    ReciprocalRoot(u32),
}

/// A value of a wire payload.
#[derive(Clone, Debug, PartialEq, Eq)]
pub enum PayloadValue {
    Flag(bool),
    Number(u64),
    Real(Real),
    Text(String),
    Numbers(Vec<u32>),
    Pairs(Vec<(u32, u32)>),
}

/// What a payload value says.
pub enum WireValue {
    Flag(bool),
    Number(nat),
    Real(Real),
    Text(Seq<char>),
    Numbers(Seq<u32>),
    Pairs(Seq<(u32, u32)>),
}

impl View for PayloadValue {
    type V = WireValue;

    open spec fn view(&self) -> WireValue {
        match *self {
            PayloadValue::Flag(value) => WireValue::Flag(value),
            PayloadValue::Number(value) => WireValue::Number(value as nat),
            PayloadValue::Real(value) => WireValue::Real(value),
            PayloadValue::Text(value) => WireValue::Text(value@),
            PayloadValue::Numbers(value) => WireValue::Numbers(value@),
            PayloadValue::Pairs(value) => WireValue::Pairs(value@),
        }
    }
}

/// A text value.
pub fn text_value(value: &str) -> (r: PayloadValue)
    ensures
        r@ == WireValue::Text(value@),
{
    PayloadValue::Text(value.to_owned())
}

/// A number value.
pub fn number_value(value: u32) -> (r: PayloadValue)
    ensures
        r@ == WireValue::Number(value as nat),
{
    PayloadValue::Number(value as u64)
}

/// A flag value.
pub fn flag_value(value: bool) -> (r: PayloadValue)
    ensures
        r@ == WireValue::Flag(value),
{
    PayloadValue::Flag(value)
}

/// One profiled shape: named values, each name once, listed in dictionary order.
#[derive(Clone, Debug, PartialEq, Eq)]
pub struct ArgsPayload {
    fields: TextMap<PayloadValue>,
}

impl View for ArgsPayload {
    type V = Map<Seq<char>, WireValue>;

    closed spec fn view(&self) -> Map<Seq<char>, WireValue> {
        self.fields@.map_values(|value: PayloadValue| value@)
    }
}

/// The backend that a payload names, if it names one as text.
pub open spec fn payload_backend(fields: Map<Seq<char>, WireValue>) -> Option<Seq<char>> {
    if fields.contains_key("backend"@) {
        match fields["backend"@] {
            WireValue::Text(name) => Some(name),
            _ => None,
        }
    } else {
        None
    }
}

impl ArgsPayload {
    pub closed spec fn wf(&self) -> bool {
        self.fields.wf()
    }

    /// A payload without fields.
    pub fn new() -> (r: Self)
        ensures
            r.wf(),
            r@ == Map::<Seq<char>, WireValue>::empty(),
    {
        let r = ArgsPayload { fields: TextMap::new() };
        assert(r@ =~= Map::<Seq<char>, WireValue>::empty());
        r
    }

    /// Set field `key`, replacing an earlier value.
    pub fn insert(&mut self, key: &str, value: PayloadValue)
        requires
            old(self).wf(),
        ensures
            final(self).wf(),
            final(self)@ == old(self)@.insert(key@, value@),
    {
        self.fields.insert(key, value);
        assert(self@ =~= old(self)@.insert(key@, value@));
    }

    /// The payload with field `key` set.
    pub fn with(self, key: &str, value: PayloadValue) -> (r: Self)
        requires
            self.wf(),
        ensures
            r.wf(),
            r@ == self@.insert(key@, value@),
    {
        let mut fields = self.fields;
        fields.insert(key, value);
        let r = ArgsPayload { fields };
        assert(r@ =~= self@.insert(key@, value@));
        r
    }

    /// The fields in dictionary order of their names.
    pub fn fields(&self) -> (r: &TextMap<PayloadValue>)
        requires
            self.wf(),
        ensures
            r.wf(),
            r@.map_values(|value: PayloadValue| value@) == self@,
    {
        &self.fields
    }

    /// The value of field `key`.
    pub fn get(&self, key: &str) -> (r: Option<&PayloadValue>)
        requires
            self.wf(),
        ensures
            match r {
                Some(value) => self@.contains_key(key@) && self@[key@] == value@,
                None => !self@.contains_key(key@),
            },
    {
        self.fields.get(key)
    }

    /// The backend that the payload names.
    pub fn backend(&self) -> (r: Option<&str>)
        requires
            self.wf(),
        ensures
            match r {
                Some(name) => payload_backend(self@) == Some(name@),
                None => payload_backend(self@) is None,
            },
    {
        match self.fields.get("backend") {
            Some(value) => match value {
                PayloadValue::Text(name) => Some(name.as_str()),
                _ => None,
            },
            None => None,
        }
    }
}

/// What the profile database says of itself.
#[derive(Clone, Debug, PartialEq, Eq)]
pub struct DbMetadata {
    pub schema_version: u32,
    pub schema_hash: String,
    pub created_at: Option<String>,
    pub last_migrated_at: Option<String>,
}

/// The profiler revision that measured one family of operations.
#[derive(Clone, Debug, PartialEq, Eq)]
pub struct ProfilerVersion {
    pub op_family: String,
    pub profiler_git_hash: String,
}

} // verus!
