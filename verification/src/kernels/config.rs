//! Static identity of a kernel: its configuration and how it is described.

use crate::bridge::payload::DType;
use crate::dims::{Dim, DimTerm};
use crate::expert_demand::{ExpertDemand, TokenCorpusConfig};
use crate::text::push_decimal;
use vstd::prelude::*;

verus! {

/// The interconnect that a collective runs over.
#[derive(Clone, Copy, Debug, PartialEq, Eq, Hash)]
pub enum Fabric {
    Nvlink,
    /// Another interconnect, by its wire literal.
    Other(&'static str),
}

/// The wire literal of an interconnect.
pub open spec fn fabric_text(fabric: Fabric) -> Seq<char> {
    match fabric {
        Fabric::Nvlink => "nvlink"@,
        Fabric::Other(name) => name@,
    }
}

impl Fabric {
    /// The wire literal.
    pub fn as_str(self) -> (r: &'static str)
        ensures
            r@ == fabric_text(self),
    {
        match self {
            Fabric::Nvlink => "nvlink",
            Fabric::Other(name) => name,
        }
    }
}

/// One configuration value.
#[derive(Clone, Debug, PartialEq, Eq)]
pub enum ConfigValue {
    Text(String),
    Number(u64),
    Flag(bool),
    Precision(DType),
    Link(Fabric),
    Dimension(Dim),
    Names(Vec<&'static str>),
    Numbers(Vec<u32>),
    Lists(Vec<Vec<u32>>),
    Corpus(TokenCorpusConfig),
    /// A variant of an enumeration with its numeric fields.
    Variant { tag: &'static str, fields: Vec<(&'static str, u32)> },
}

/// What a configuration value says.
pub enum ConfigTerm {
    Text(Seq<char>),
    Number(nat),
    Flag(bool),
    Precision(DType),
    Link(Fabric),
    Dimension(DimTerm),
    Names(Seq<&'static str>),
    Numbers(Seq<u32>),
    Lists(Seq<Seq<u32>>),
    Corpus(Seq<char>, u64, nat, u32, u64, nat, nat, u32),
    Variant(Seq<char>, Seq<(&'static str, u32)>),
}

impl View for ConfigValue {
    type V = ConfigTerm;

    open spec fn view(&self) -> ConfigTerm {
        match *self {
            ConfigValue::Text(value) => ConfigTerm::Text(value@),
            ConfigValue::Number(value) => ConfigTerm::Number(value as nat),
            ConfigValue::Flag(value) => ConfigTerm::Flag(value),
            ConfigValue::Precision(value) => ConfigTerm::Precision(value),
            ConfigValue::Link(value) => ConfigTerm::Link(value),
            ConfigValue::Dimension(value) => ConfigTerm::Dimension(value@),
            ConfigValue::Names(value) => ConfigTerm::Names(value@),
            ConfigValue::Numbers(value) => ConfigTerm::Numbers(value@),
            ConfigValue::Lists(value) => ConfigTerm::Lists(value@.map_values(|v: Vec<u32>| v@)),
            ConfigValue::Corpus(value) => corpus_term(value),
            ConfigValue::Variant { tag, fields } => ConfigTerm::Variant(tag@, fields@),
        }
    }
}

/// What a corpus binding says.
pub open spec fn corpus_term(config: TokenCorpusConfig) -> ConfigTerm {
    ConfigTerm::Corpus(
        config.data_file@,
        config.checksum_fnv1a64,
        config.num_experts as nat,
        config.group_size,
        config.seed,
        config.first_layer as nat,
        config.end_layer as nat,
        config.sampling_candidates,
    )
}

/// What a demand source says.
pub open spec fn demand_term(demand: ExpertDemand) -> ConfigTerm {
    match demand {
        ExpertDemand::Popularity { layerwise_global_ppm } => ConfigTerm::Lists(
            layerwise_global_ppm@.map_values(|v: Vec<u32>| v@),
        ),
        ExpertDemand::Corpus(config) => corpus_term(config),
    }
}

/// A named configuration value.
#[derive(Clone, Debug, PartialEq, Eq)]
pub struct ConfigField {
    pub name: &'static str,
    pub value: ConfigValue,
}

impl View for ConfigField {
    type V = (Seq<char>, ConfigTerm);

    open spec fn view(&self) -> (Seq<char>, ConfigTerm) {
        (self.name@, self.value@)
    }
}

/// What a list of configuration fields says, in order.
pub open spec fn fields_view(fields: Seq<ConfigField>) -> Seq<(Seq<char>, ConfigTerm)> {
    fields.map_values(|field: ConfigField| field@)
}

/// A named value.
pub fn field(name: &'static str, value: ConfigValue) -> (r: ConfigField)
    ensures
        r@ == (name@, value@),
{
    ConfigField { name, value }
}

pub fn text_of(value: &str) -> (r: ConfigValue)
    ensures
        r@ == ConfigTerm::Text(value@),
{
    ConfigValue::Text(value.to_owned())
}

pub fn number_of(value: u32) -> (r: ConfigValue)
    ensures
        r@ == ConfigTerm::Number(value as nat),
{
    ConfigValue::Number(value as u64)
}

pub fn bits_of(value: u64) -> (r: ConfigValue)
    ensures
        r@ == ConfigTerm::Number(value as nat),
{
    ConfigValue::Number(value)
}

pub fn flag_of(value: bool) -> (r: ConfigValue)
    ensures
        r@ == ConfigTerm::Flag(value),
{
    ConfigValue::Flag(value)
}

pub fn precision_of(value: DType) -> (r: ConfigValue)
    ensures
        r@ == ConfigTerm::Precision(value),
{
    ConfigValue::Precision(value)
}

pub fn link_of(value: Fabric) -> (r: ConfigValue)
    ensures
        r@ == ConfigTerm::Link(value),
{
    ConfigValue::Link(value)
}

pub fn dimension_of(value: &Dim) -> (r: ConfigValue)
    ensures
        r@ == ConfigTerm::Dimension(value@),
{
    ConfigValue::Dimension(value.clone())
}

pub fn names_of(value: &Vec<&'static str>) -> (r: ConfigValue)
    ensures
        r@ == ConfigTerm::Names(value@),
{
    ConfigValue::Names(copy_names(value))
}

pub fn numbers_of(value: &Vec<u32>) -> (r: ConfigValue)
    ensures
        r@ == ConfigTerm::Numbers(value@),
{
    ConfigValue::Numbers(copy_numbers(value))
}

pub fn demand_of(value: &ExpertDemand) -> (r: ConfigValue)
    ensures
        r@ == demand_term(*value),
{
    match value {
        ExpertDemand::Popularity { layerwise_global_ppm } => {
            let mut lists: Vec<Vec<u32>> = Vec::new();
            let mut i: usize = 0;
            while i < layerwise_global_ppm.len()
                invariant
                    i <= layerwise_global_ppm@.len(),
                    lists@.len() == i,
                    forall|j: int| 0 <= j < i ==> #[trigger] lists@[j]@ == layerwise_global_ppm@[j]@,
                decreases layerwise_global_ppm@.len() - i,
            {
                lists.push(copy_numbers(&layerwise_global_ppm[i]));
                i += 1;
            }
            assert(lists@.map_values(|v: Vec<u32>| v@) =~= layerwise_global_ppm@.map_values(
                |v: Vec<u32>| v@,
            ));
            ConfigValue::Lists(lists)
        },
        ExpertDemand::Corpus(config) => ConfigValue::Corpus(
            TokenCorpusConfig {
                data_file: config.data_file.clone(),
                checksum_fnv1a64: config.checksum_fnv1a64,
                num_experts: config.num_experts,
                group_size: config.group_size,
                seed: config.seed,
                first_layer: config.first_layer,
                end_layer: config.end_layer,
                sampling_candidates: config.sampling_candidates,
            },
        ),
    }
}

/// A copy of a list of names.
pub fn copy_names(names: &Vec<&'static str>) -> (r: Vec<&'static str>)
    ensures
        r@ == names@,
{
    let mut out: Vec<&'static str> = Vec::new();
    let mut i: usize = 0;
    while i < names.len()
        invariant
            i <= names@.len(),
            out@ == names@.take(i as int),
        decreases names@.len() - i,
    {
        out.push(names[i]);
        i += 1;
        assert(out@ =~= names@.take(i as int));
    }
    assert(out@ =~= names@);
    out
}

/// A copy of a list of numbers.
pub fn copy_numbers(numbers: &Vec<u32>) -> (r: Vec<u32>)
    ensures
        r@ == numbers@,
{
    let mut out: Vec<u32> = Vec::new();
    let mut i: usize = 0;
    while i < numbers.len()
        invariant
            i <= numbers@.len(),
            out@ == numbers@.take(i as int),
        decreases numbers@.len() - i,
    {
        out.push(numbers[i]);
        i += 1;
        assert(out@ =~= numbers@.take(i as int));
    }
    assert(out@ =~= numbers@);
    out
}

/// A kernel configuration: what it runs on, at which precision, and its fields.
pub trait KernelConfig: Sized {
    /// Name of the candidate list, for error messages.
    const BACKENDS_FIELD: &'static str;

    /// The candidate backends.
    spec fn candidates(&self) -> Seq<&'static str>;

    /// The GPU whose profiled rows the kernel uses.
    spec fn gpu(&self) -> Seq<char>;

    /// The precision computed in, if any.
    spec fn compute(&self) -> Option<DType>;

    /// The precision of the key-value cache, if any.
    spec fn kv(&self) -> Option<DType>;

    /// Every field in declaration order.
    spec fn description(&self) -> Seq<(Seq<char>, ConfigTerm)>;

    fn backends(&self) -> (r: &Vec<&'static str>)
        ensures
            r@ == self.candidates(),
    ;

    fn gpu_name(&self) -> (r: &str)
        ensures
            r@ == self.gpu(),
    ;

    fn compute_dtype(&self) -> (r: Option<DType>)
        ensures
            r == self.compute(),
    ;

    fn kv_dtype(&self) -> (r: Option<DType>)
        ensures
            r == self.kv(),
    ;

    fn describe_config(&self) -> (r: Vec<ConfigField>)
        ensures
            fields_view(r@) == self.description(),
    ;
}

/// The quoted and escaped notation of a text.
pub uninterp spec fn quoted_text(text: Seq<char>) -> Seq<char>;

/// `format!("{:?}")` of a string slice: the text in double quotes with the
/// standard library's escapes. The result depends on the text alone and is given
/// a name; which characters are escaped is not stated.
#[verifier::external_body]
fn quoted(text: &str) -> (r: String)
    ensures
        r@ == quoted_text(text@),
{
    format!("{:?}", text)
}

/// The name of a precision's variant.
pub open spec fn dtype_name(dtype: DType) -> Seq<char> {
    match dtype {
        DType::Fp16 => "Fp16"@,
        DType::Bf16 => "Bf16"@,
        DType::Fp32 => "Fp32"@,
        DType::Fp8E4m3 => "Fp8E4m3"@,
        DType::Fp8E5m2 => "Fp8E5m2"@,
        DType::Int8 => "Int8"@,
        DType::Int4 => "Int4"@,
    }
}

fn dtype_variant(dtype: DType) -> (r: &'static str)
    ensures
        r@ == dtype_name(dtype),
{
    match dtype {
        DType::Fp16 => "Fp16",
        DType::Bf16 => "Bf16",
        DType::Fp32 => "Fp32",
        DType::Fp8E4m3 => "Fp8E4m3",
        DType::Fp8E5m2 => "Fp8E5m2",
        DType::Int8 => "Int8",
        DType::Int4 => "Int4",
    }
}

/// Texts separated by a comma and a space.
pub open spec fn listed(texts: Seq<Seq<char>>) -> Seq<char>
    decreases texts.len(),
{
    if texts.len() == 0 {
        seq![]
    } else if texts.len() == 1 {
        texts[0]
    } else {
        listed(texts.drop_last()) + ", "@ + texts.last()
    }
}

/// `name=value` pairs separated by spaces.
pub open spec fn joined_fields(names: Seq<Seq<char>>, values: Seq<Seq<char>>) -> Seq<char>
    decreases names.len(),
{
    if names.len() == 0 {
        seq![]
    } else {
        let head = joined_fields(names.drop_last(), values.drop_last());
        let gap = if names.len() == 1 {
            seq![]
        } else {
            " "@
        };
        head + gap + names.last() + "="@ + values.last()
    }
}

/// Append texts separated by a comma and a space.
fn push_listed(out: &mut String, texts: &Vec<String>)
    ensures
        final(out)@ == old(out)@ + listed(texts@.map_values(|t: String| t@)),
{
    let ghost views = texts@.map_values(|t: String| t@);
    let mut i: usize = 0;
    assert(out@ =~= old(out)@ + listed(views.take(0)));
    while i < texts.len()
        invariant
            i <= texts@.len(),
            views == texts@.map_values(|t: String| t@),
            out@ == old(out)@ + listed(views.take(i as int)),
        decreases texts@.len() - i,
    {
        assert(views.take(i + 1).drop_last() =~= views.take(i as int));
        assert(views.take(i + 1).last() == texts@[i as int]@);
        if i > 0 {
            out.append(", ");
        }
        out.append(texts[i].as_str());
        i += 1;
        assert(out@ =~= old(out)@ + listed(views.take(i as int)));
    }
    assert(views.take(i as int) =~= views);
}

/// One line of `name=value` pairs.
pub fn join_fields(names: &Vec<&'static str>, values: &Vec<String>) -> (r: String)
    requires
        names@.len() == values@.len(),
    ensures
        r@ == joined_fields(
            names@.map_values(|n: &'static str| n@),
            values@.map_values(|v: String| v@),
        ),
{
    let ghost ns = names@.map_values(|n: &'static str| n@);
    let ghost vs = values@.map_values(|v: String| v@);
    let mut out = String::new();
    let mut i: usize = 0;
    assert(out@ =~= joined_fields(ns.take(0), vs.take(0)));
    while i < names.len()
        invariant
            i <= names@.len() == values@.len(),
            ns == names@.map_values(|n: &'static str| n@),
            vs == values@.map_values(|v: String| v@),
            out@ == joined_fields(ns.take(i as int), vs.take(i as int)),
        decreases names@.len() - i,
    {
        proof {
            assert(ns.take(i + 1).drop_last() =~= ns.take(i as int));
            assert(vs.take(i + 1).drop_last() =~= vs.take(i as int));
            assert(ns.take(i + 1).last() == names@[i as int]@);
            assert(vs.take(i + 1).last() == values@[i as int]@);
        }
        if i > 0 {
            out.append(" ");
        }
        out.append(names[i]);
        out.append("=");
        out.append(values[i].as_str());
        i += 1;
        assert(out@ =~= joined_fields(ns.take(i as int), vs.take(i as int)));
    }
    assert(ns.take(i as int) =~= ns);
    assert(vs.take(i as int) =~= vs);
    out
}

/// How a configuration value reads in a one-line description.
pub open spec fn term_text(term: ConfigTerm) -> Seq<char> {
    match term {
        ConfigTerm::Text(text) => quoted_text(text),
        ConfigTerm::Number(value) => crate::text::decimal(value),
        ConfigTerm::Flag(value) => if value {
            "true"@
        } else {
            "false"@
        },
        ConfigTerm::Precision(dtype) => dtype_name(dtype),
        ConfigTerm::Link(fabric) => match fabric {
            Fabric::Nvlink => "Nvlink"@,
            Fabric::Other(name) => name@,
        },
        ConfigTerm::Dimension(dim) => dim.labelled_text(),
        ConfigTerm::Names(names) => "["@ + listed(
            names.map_values(|n: &'static str| quoted_text(n@)),
        ) + "]"@,
        ConfigTerm::Numbers(numbers) => numbers_text(numbers),
        ConfigTerm::Lists(lists) => "["@ + listed(lists.map_values(|l: Seq<u32>| numbers_text(l)))
            + "]"@,
        ConfigTerm::Corpus(file, ..) => quoted_text(file),
        ConfigTerm::Variant(tag, fields) => variant_text(tag, fields),
    }
}

pub open spec fn numbers_text(numbers: Seq<u32>) -> Seq<char> {
    "["@ + listed(numbers.map_values(|n: u32| crate::text::decimal(n as nat))) + "]"@
}

/// A variant's tag, followed by its fields in braces if it has any.
pub open spec fn variant_text(tag: Seq<char>, fields: Seq<(&'static str, u32)>) -> Seq<char> {
    if fields.len() == 0 {
        tag
    } else {
        tag + "{"@ + listed(
            fields.map_values(
                |f: (&'static str, u32)| f.0@ + "="@ + crate::text::decimal(f.1 as nat),
            ),
        ) + "}"@
    }
}

fn render_numbers(numbers: &Vec<u32>) -> (r: String)
    ensures
        r@ == numbers_text(numbers@),
{
    let mut parts: Vec<String> = Vec::new();
    let mut i: usize = 0;
    while i < numbers.len()
        invariant
            i <= numbers@.len(),
            parts@.len() == i,
            forall|j: int|
                0 <= j < i ==> #[trigger] parts@[j]@ == crate::text::decimal(numbers@[j] as nat),
        decreases numbers@.len() - i,
    {
        parts.push(crate::text::decimal_text(numbers[i] as u64));
        i += 1;
    }
    assert(parts@.map_values(|t: String| t@) =~= numbers@.map_values(
        |n: u32| crate::text::decimal(n as nat),
    ));
    let mut out = String::new();
    out.append("[");
    push_listed(&mut out, &parts);
    out.append("]");
    assert(out@ =~= numbers_text(numbers@));
    out
}

/// How a configuration value reads in a one-line description.
pub fn render_value(value: &ConfigValue) -> (r: String)
    ensures
        r@ == term_text(value@),
{
    let mut out = String::new();
    match value {
        ConfigValue::Text(text) => {
            return quoted(text.as_str());
        },
        ConfigValue::Number(number) => {
            push_decimal(&mut out, *number);
        },
        ConfigValue::Flag(flag) => {
            out.append(
                if *flag {
                    "true"
                } else {
                    "false"
                },
            );
        },
        ConfigValue::Precision(dtype) => {
            out.append(dtype_variant(*dtype));
        },
        ConfigValue::Link(fabric) => {
            match fabric {
                Fabric::Nvlink => {
                    out.append("Nvlink");
                },
                Fabric::Other(name) => {
                    out.append(name);
                },
            }
        },
        ConfigValue::Dimension(dim) => {
            return dim.labelled();
        },
        ConfigValue::Names(names) => {
            let mut parts: Vec<String> = Vec::new();
            let mut i: usize = 0;
            while i < names.len()
                invariant
                    i <= names@.len(),
                    parts@.len() == i,
                    forall|j: int| 0 <= j < i ==> #[trigger] parts@[j]@ == quoted_text(names@[j]@),
                decreases names@.len() - i,
            {
                parts.push(quoted(names[i]));
                i += 1;
            }
            assert(parts@.map_values(|t: String| t@) =~= names@.map_values(
                |n: &'static str| quoted_text(n@),
            ));
            out.append("[");
            push_listed(&mut out, &parts);
            out.append("]");
        },
        ConfigValue::Numbers(numbers) => {
            return render_numbers(numbers);
        },
        ConfigValue::Lists(lists) => {
            let mut parts: Vec<String> = Vec::new();
            let mut i: usize = 0;
            while i < lists.len()
                invariant
                    i <= lists@.len(),
                    parts@.len() == i,
                    forall|j: int| 0 <= j < i ==> #[trigger] parts@[j]@ == numbers_text(lists@[j]@),
                decreases lists@.len() - i,
            {
                parts.push(render_numbers(&lists[i]));
                i += 1;
            }
            assert(parts@.map_values(|t: String| t@) =~= lists@.map_values(
                |v: Vec<u32>| v@,
            ).map_values(|l: Seq<u32>| numbers_text(l)));
            out.append("[");
            push_listed(&mut out, &parts);
            out.append("]");
        },
        ConfigValue::Corpus(config) => {
            return quoted(config.data_file.as_str());
        },
        ConfigValue::Variant { tag, fields } => {
            out.append(tag);
            if fields.len() > 0 {
                let mut parts: Vec<String> = Vec::new();
                let mut i: usize = 0;
                while i < fields.len()
                    invariant
                        i <= fields@.len(),
                        parts@.len() == i,
                        forall|j: int|
                            0 <= j < i ==> #[trigger] parts@[j]@ == fields@[j].0@ + "="@
                                + crate::text::decimal(fields@[j].1 as nat),
                    decreases fields@.len() - i,
                {
                    let mut part = String::new();
                    part.append(fields[i].0);
                    part.append("=");
                    push_decimal(&mut part, fields[i].1 as u64);
                    assert(part@ =~= fields@[i as int].0@ + "="@ + crate::text::decimal(
                        fields@[i as int].1 as nat,
                    ));
                    parts.push(part);
                    i += 1;
                }
                assert(parts@.map_values(|t: String| t@) =~= fields@.map_values(
                    |f: (&'static str, u32)| f.0@ + "="@ + crate::text::decimal(f.1 as nat),
                ));
                out.append("{");
                push_listed(&mut out, &parts);
                out.append("}");
            }
        },
    }
    assert(out@ =~= term_text(value@));
    out
}

/// The one-line description of a list of fields.
pub open spec fn description_line(fields: Seq<(Seq<char>, ConfigTerm)>) -> Seq<char> {
    joined_fields(
        fields.map_values(|f: (Seq<char>, ConfigTerm)| f.0),
        fields.map_values(|f: (Seq<char>, ConfigTerm)| term_text(f.1)),
    )
}

/// The one-line description of a configuration's fields.
pub fn describe_line(fields: &Vec<ConfigField>) -> (r: String)
    ensures
        r@ == description_line(fields_view(fields@)),
{
    let mut names: Vec<&'static str> = Vec::new();
    let mut values: Vec<String> = Vec::new();
    let mut i: usize = 0;
    while i < fields.len()
        invariant
            i <= fields@.len(),
            names@.len() == i,
            values@.len() == i,
            forall|j: int| 0 <= j < i ==> #[trigger] names@[j]@ == fields@[j].name@,
            forall|j: int| 0 <= j < i ==> #[trigger] values@[j]@ == term_text(fields@[j].value@),
        decreases fields@.len() - i,
    {
        names.push(fields[i].name);
        values.push(render_value(&fields[i].value));
        i += 1;
    }
    proof {
        let all = fields_view(fields@);
        assert(names@.map_values(|n: &'static str| n@) =~= all.map_values(
            |f: (Seq<char>, ConfigTerm)| f.0,
        ));
        assert(values@.map_values(|v: String| v@) =~= all.map_values(
            |f: (Seq<char>, ConfigTerm)| term_text(f.1),
        ));
    }
    join_fields(&names, &values)
}

} // verus!
