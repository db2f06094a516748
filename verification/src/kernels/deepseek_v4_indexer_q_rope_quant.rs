//! Rotary embedding of indexer queries fused with FP8 quantization.

use crate::bridge::payload::{
    dtype_text, number_value, text_value, ArgsPayload, DType, KernelKind, PayloadValue, Real,
    WireValue,
};
use crate::cache::CacheKind;
use crate::dims::Dim;
use crate::kernels::config::{
    dimension_of, field, fields_view, names_of, number_of, precision_of, text_of, ConfigField,
    ConfigTerm, KernelConfig,
};
use crate::kernels::engine::{
    carries, number_at, whole_units, CellPayloads, KernelSpec, SweepCoords,
};
use crate::sweep::{cell_on_axes, whole, Axis, Ratio, SweepGrid};
use vstd::prelude::*;

verus! {

/// The bits of the double 0.08838834764831845.
pub const SOFTMAX_SCALE_BITS: u64 = 0x3fb6_a09e_667f_3bcd;

/// The bits of the double 0.125.
pub const HEAD_SCALE_BITS: u64 = 0x3fc0_0000_0000_0000;

/// The bits of the double 448.
pub const FP8_MAX_BITS: u64 = 0x407c_0000_0000_0000;

/// The bits of the double nearest to one ten-thousandth.
pub const SCALE_EPSILON_BITS: u64 = 0x3f1a_36e2_eb1c_432d;

#[derive(Clone, Debug, PartialEq, Eq, Hash)]
pub struct DeepseekV4IndexerQRopeQuantKernelConfig {
    pub backends: Vec<&'static str>,
    pub gpu_name: String,
    pub num_heads: Dim,
    pub head_dim: Dim,
    pub rope_dim: Dim,
    pub max_model_len: u32,
    pub max_num_batched_tokens: u32,
    pub positions_dtype: String,
    pub q_dtype: DType,
    pub rope_dtype: DType,
    pub weight_dtype: DType,
    pub q_output_dtype: DType,
    pub weight_output_dtype: DType,
    pub rope_style: String,
    pub quant_mode: String,
}

impl KernelConfig for DeepseekV4IndexerQRopeQuantKernelConfig {
    const BACKENDS_FIELD: &'static str = "DeepseekV4IndexerQRopeQuantKernelConfig.backends";

    open spec fn candidates(&self) -> Seq<&'static str> {
        self.backends@
    }

    open spec fn gpu(&self) -> Seq<char> {
        self.gpu_name@
    }

    open spec fn compute(&self) -> Option<DType> {
        Some(self.q_dtype)
    }

    open spec fn kv(&self) -> Option<DType> {
        None
    }

    open spec fn description(&self) -> Seq<(Seq<char>, ConfigTerm)> {
        seq![
            ("backends"@, ConfigTerm::Names(self.backends@)),
            ("gpu_name"@, ConfigTerm::Text(self.gpu_name@)),
            ("num_heads"@, ConfigTerm::Dimension(self.num_heads@)),
            ("head_dim"@, ConfigTerm::Dimension(self.head_dim@)),
            ("rope_dim"@, ConfigTerm::Dimension(self.rope_dim@)),
            ("max_model_len"@, ConfigTerm::Number(self.max_model_len as nat)),
            ("max_num_batched_tokens"@, ConfigTerm::Number(self.max_num_batched_tokens as nat)),
            ("positions_dtype"@, ConfigTerm::Text(self.positions_dtype@)),
            ("q_dtype"@, ConfigTerm::Precision(self.q_dtype)),
            ("rope_dtype"@, ConfigTerm::Precision(self.rope_dtype)),
            ("weight_dtype"@, ConfigTerm::Precision(self.weight_dtype)),
            ("q_output_dtype"@, ConfigTerm::Precision(self.q_output_dtype)),
            ("weight_output_dtype"@, ConfigTerm::Precision(self.weight_output_dtype)),
            ("rope_style"@, ConfigTerm::Text(self.rope_style@)),
            ("quant_mode"@, ConfigTerm::Text(self.quant_mode@)),
        ]
    }

    fn backends(&self) -> (r: &Vec<&'static str>) {
        &self.backends
    }

    fn gpu_name(&self) -> (r: &str) {
        self.gpu_name.as_str()
    }

    fn compute_dtype(&self) -> (r: Option<DType>) {
        Some(self.q_dtype)
    }

    fn kv_dtype(&self) -> (r: Option<DType>) {
        None
    }

    fn describe_config(&self) -> (r: Vec<ConfigField>) {
        let r: Vec<ConfigField> = vec![
            field("backends", names_of(&self.backends)),
            field("gpu_name", text_of(self.gpu_name.as_str())),
            field("num_heads", dimension_of(&self.num_heads)),
            field("head_dim", dimension_of(&self.head_dim)),
            field("rope_dim", dimension_of(&self.rope_dim)),
            field("max_model_len", number_of(self.max_model_len)),
            field("max_num_batched_tokens", number_of(self.max_num_batched_tokens)),
            field("positions_dtype", text_of(self.positions_dtype.as_str())),
            field("q_dtype", precision_of(self.q_dtype)),
            field("rope_dtype", precision_of(self.rope_dtype)),
            field("weight_dtype", precision_of(self.weight_dtype)),
            field("q_output_dtype", precision_of(self.q_output_dtype)),
            field("weight_output_dtype", precision_of(self.weight_output_dtype)),
            field("rope_style", text_of(self.rope_style.as_str())),
            field("quant_mode", text_of(self.quant_mode.as_str())),
        ];
        assert(fields_view(r@) =~= self.description());
        r
    }
}

#[derive(Clone, Copy, Debug, PartialEq, Eq, Hash)]
pub struct DeepseekV4IndexerQRopeQuantKernelInput {
    pub num_tokens: u32,
}

impl SweepCoords for DeepseekV4IndexerQRopeQuantKernelInput {
    open spec fn well_shaped(&self) -> bool {
        true
    }

    open spec fn position(&self) -> Seq<Ratio> {
        seq![whole(self.num_tokens as int)]
    }

    open spec fn axis_names() -> Seq<Seq<char>> {
        seq!["num_tokens"@]
    }

    fn is_well_shaped(&self) -> (r: bool) {
        true
    }

    fn coords(&self) -> (r: Vec<Ratio>) {
        let r: Vec<Ratio> = vec![Ratio::from_whole(self.num_tokens)];
        assert(r@ =~= self.position());
        r
    }

    fn coord_field_names() -> (r: Vec<&'static str>) {
        let r: Vec<&'static str> = vec!["num_tokens"];
        assert(r@.map_values(|name: &'static str| name@) =~= Self::axis_names());
        r
    }
}

pub struct DeepseekV4IndexerQRopeQuantSpec;

impl KernelSpec for DeepseekV4IndexerQRopeQuantSpec {
    type Config = DeepseekV4IndexerQRopeQuantKernelConfig;

    type Input = DeepseekV4IndexerQRopeQuantKernelInput;

    const KIND: KernelKind = "deepseek_v4_indexer_q_rope_quant";

    open spec fn admits(config: DeepseekV4IndexerQRopeQuantKernelConfig) -> bool {
        config.max_num_batched_tokens == 8192
    }

    open spec fn axes(
        config: DeepseekV4IndexerQRopeQuantKernelConfig,
        tokens: Seq<u32>,
    ) -> Seq<Seq<u32>> {
        seq![
            seq![
                1u32, 2, 4, 8, 16, 32, 64, 128, 256, 384, 511, 512, 513, 768, 1024, 2048, 4096, 8192,
            ],
        ]
    }

    open spec fn units(axes: Seq<Seq<u32>>) -> Seq<u32> {
        whole_units(axes)
    }

    open spec fn table(backend: Seq<char>) -> CacheKind {
        CacheKind::Cache1DLinear
    }

    open spec fn masks() -> bool {
        false
    }

    open spec fn judges(config: DeepseekV4IndexerQRopeQuantKernelConfig, cell: Seq<u32>) -> bool {
        true
    }

    open spec fn infeasible(
        config: DeepseekV4IndexerQRopeQuantKernelConfig,
        cell: Seq<u32>,
    ) -> bool {
        false
    }

    open spec fn table_position(
        config: DeepseekV4IndexerQRopeQuantKernelConfig,
        input: DeepseekV4IndexerQRopeQuantKernelInput,
    ) -> Seq<Ratio> {
        input.position()
    }

    open spec fn answers(
        config: DeepseekV4IndexerQRopeQuantKernelConfig,
        input: DeepseekV4IndexerQRopeQuantKernelInput,
    ) -> bool {
        input.well_shaped()
    }

    fn profile_kind() -> (r: KernelKind) {
        Self::KIND
    }

    fn can_sweep(config: &DeepseekV4IndexerQRopeQuantKernelConfig) -> (r: bool) {
        config.max_num_batched_tokens == 8192
    }

    fn sweep_grid(
        config: &DeepseekV4IndexerQRopeQuantKernelConfig,
        tokens: &Vec<u32>,
    ) -> (r: SweepGrid) {
        let a0: Vec<u32> = Axis::values(vec![
            1, 2, 4, 8, 16, 32, 64, 128, 256, 384, 511, 512, 513, 768, 1024, 2048, 4096, 8192,
        ]);
        let r = SweepGrid::new(vec![a0]);
        proof {
            assert(r.points() =~= Self::axes(*config, tokens@));
            assert(r.scale() =~= whole_units(r.points()));
        }
        r
    }

    fn cache_kind(backend: &str) -> (r: CacheKind) {
        CacheKind::Cache1DLinear
    }

    fn has_mask() -> (r: bool) {
        false
    }

    fn is_infeasible(
        config: &DeepseekV4IndexerQRopeQuantKernelConfig,
        cell: &Vec<u32>,
    ) -> (r: bool) {
        false
    }

    fn can_answer(
        config: &DeepseekV4IndexerQRopeQuantKernelConfig,
        input: &DeepseekV4IndexerQRopeQuantKernelInput,
    ) -> (r: bool) {
        input.is_well_shaped()
    }

    fn cache_coords(
        config: &DeepseekV4IndexerQRopeQuantKernelConfig,
        input: &DeepseekV4IndexerQRopeQuantKernelInput,
    ) -> (r: Vec<Ratio>) {
        input.coords()
    }

    proof fn sweep_fits_table(
        config: DeepseekV4IndexerQRopeQuantKernelConfig,
        tokens: Seq<u32>,
        backend: Seq<char>,
    ) {
    }

    proof fn sweep_is_judged(
        config: DeepseekV4IndexerQRopeQuantKernelConfig,
        tokens: Seq<u32>,
        index: nat,
    ) {
    }

    proof fn queries_fit_table(
        config: DeepseekV4IndexerQRopeQuantKernelConfig,
        input: DeepseekV4IndexerQRopeQuantKernelInput,
        backend: Seq<char>,
    ) {
    }
}

impl CellPayloads for DeepseekV4IndexerQRopeQuantSpec {
    open spec fn covers(config: DeepseekV4IndexerQRopeQuantKernelConfig, cell: Seq<u32>) -> bool {
        cell.len() == 1
    }

    open spec fn enumerates(config: DeepseekV4IndexerQRopeQuantKernelConfig) -> bool {
        true
    }

    open spec fn fields(
        config: DeepseekV4IndexerQRopeQuantKernelConfig,
        cell: Seq<u32>,
        backend: Seq<char>,
    ) -> Map<Seq<char>, WireValue> {
        Map::<Seq<char>, WireValue>::empty()
            .insert("num_tokens"@, WireValue::Number(cell[0] as nat))
            .insert("num_heads"@, WireValue::Number(config.num_heads@.fold() as nat))
            .insert("head_dim"@, WireValue::Number(config.head_dim@.fold() as nat))
            .insert("rope_dim"@, WireValue::Number(config.rope_dim@.fold() as nat))
            .insert("max_model_len"@, WireValue::Number(config.max_model_len as nat))
            .insert(
                "max_num_batched_tokens"@,
                WireValue::Number(config.max_num_batched_tokens as nat),
            )
            .insert("index_weights_softmax_scale"@, WireValue::Real(Real::Bits(SOFTMAX_SCALE_BITS)))
            .insert("index_weights_head_scale"@, WireValue::Real(Real::Bits(HEAD_SCALE_BITS)))
            .insert("fp8_max"@, WireValue::Real(Real::Bits(FP8_MAX_BITS)))
            .insert("scale_epsilon"@, WireValue::Real(Real::Bits(SCALE_EPSILON_BITS)))
            .insert("positions_dtype"@, WireValue::Text(config.positions_dtype@))
            .insert("q_dtype"@, WireValue::Text(dtype_text(config.q_dtype)))
            .insert("rope_dtype"@, WireValue::Text(dtype_text(config.rope_dtype)))
            .insert("weight_dtype"@, WireValue::Text(dtype_text(config.weight_dtype)))
            .insert("q_output_dtype"@, WireValue::Text(dtype_text(config.q_output_dtype)))
            .insert("weight_output_dtype"@, WireValue::Text(dtype_text(config.weight_output_dtype)))
            .insert("rope_style"@, WireValue::Text(config.rope_style@))
            .insert("quant_mode"@, WireValue::Text(config.quant_mode@))
            .insert("backend"@, WireValue::Text(backend))
    }

    fn can_enumerate(config: &DeepseekV4IndexerQRopeQuantKernelConfig) -> (r: bool) {
        true
    }

    fn cell_payload(
        config: &DeepseekV4IndexerQRopeQuantKernelConfig,
        cell: &Vec<u32>,
        backend: &str,
    ) -> (r: ArgsPayload) {
        ArgsPayload::new()
            .with("num_tokens", number_value(cell[0]))
            .with("num_heads", number_value(config.num_heads.get()))
            .with("head_dim", number_value(config.head_dim.get()))
            .with("rope_dim", number_value(config.rope_dim.get()))
            .with("max_model_len", number_value(config.max_model_len))
            .with("max_num_batched_tokens", number_value(config.max_num_batched_tokens))
            .with("index_weights_softmax_scale", PayloadValue::Real(Real::Bits(SOFTMAX_SCALE_BITS)))
            .with("index_weights_head_scale", PayloadValue::Real(Real::Bits(HEAD_SCALE_BITS)))
            .with("fp8_max", PayloadValue::Real(Real::Bits(FP8_MAX_BITS)))
            .with("scale_epsilon", PayloadValue::Real(Real::Bits(SCALE_EPSILON_BITS)))
            .with("positions_dtype", text_value(config.positions_dtype.as_str()))
            .with("q_dtype", text_value(config.q_dtype.as_str()))
            .with("rope_dtype", text_value(config.rope_dtype.as_str()))
            .with("weight_dtype", text_value(config.weight_dtype.as_str()))
            .with("q_output_dtype", text_value(config.q_output_dtype.as_str()))
            .with("weight_output_dtype", text_value(config.weight_output_dtype.as_str()))
            .with("rope_style", text_value(config.rope_style.as_str()))
            .with("quant_mode", text_value(config.quant_mode.as_str()))
            .with("backend", text_value(backend))
    }

    proof fn sweep_is_covered(
        config: DeepseekV4IndexerQRopeQuantKernelConfig,
        tokens: Seq<u32>,
        index: nat,
    ) {
        cell_on_axes(Self::axes(config, tokens), index);
    }

    proof fn fields_name_backend(
        config: DeepseekV4IndexerQRopeQuantKernelConfig,
        cell: Seq<u32>,
        backend: Seq<char>,
    ) {
    }

    open spec fn describes(
        config: DeepseekV4IndexerQRopeQuantKernelConfig,
        fields: Map<Seq<char>, WireValue>,
        input: DeepseekV4IndexerQRopeQuantKernelInput,
    ) -> bool {
        number_at(fields, "num_tokens"@) == input.num_tokens
    }

    open spec fn occurs(config: DeepseekV4IndexerQRopeQuantKernelConfig, cell: Seq<u32>) -> bool {
        true
    }

    open spec fn kept_back() -> Set<Seq<char>> {
        set!["backends"@, "gpu_name"@]
    }

    proof fn payload_stands_at_its_cell(
        config: DeepseekV4IndexerQRopeQuantKernelConfig,
        tokens: Seq<u32>,
        index: nat,
        backend: Seq<char>,
        input: DeepseekV4IndexerQRopeQuantKernelInput,
    ) {
        cell_on_axes(Self::axes(config, tokens), index);
        reveal_strlit("num_tokens");
        reveal_strlit("num_heads");
        reveal_strlit("head_dim");
        reveal_strlit("rope_dim");
        reveal_strlit("max_model_len");
        reveal_strlit("max_num_batched_tokens");
        reveal_strlit("index_weights_softmax_scale");
        reveal_strlit("index_weights_head_scale");
        reveal_strlit("fp8_max");
        reveal_strlit("scale_epsilon");
        reveal_strlit("positions_dtype");
        reveal_strlit("q_dtype");
        reveal_strlit("rope_dtype");
        reveal_strlit("weight_dtype");
        reveal_strlit("q_output_dtype");
        reveal_strlit("weight_output_dtype");
        reveal_strlit("rope_style");
        reveal_strlit("quant_mode");
        reveal_strlit("backend");
        assert("num_tokens"@.len() == 10 && "num_tokens"@[0] == 'n');
        assert("num_heads"@.len() == 9);
        assert("head_dim"@.len() == 8);
        assert("rope_dim"@.len() == 8);
        assert("max_model_len"@.len() == 13);
        assert("max_num_batched_tokens"@.len() == 22);
        assert("index_weights_softmax_scale"@.len() == 27);
        assert("index_weights_head_scale"@.len() == 24);
        assert("fp8_max"@.len() == 7);
        assert("scale_epsilon"@.len() == 13);
        assert("positions_dtype"@.len() == 15);
        assert("q_dtype"@.len() == 7);
        assert("rope_dtype"@.len() == 10 && "rope_dtype"@[0] == 'r');
        assert("weight_dtype"@.len() == 12);
        assert("q_output_dtype"@.len() == 14);
        assert("weight_output_dtype"@.len() == 19);
        assert("rope_style"@.len() == 10 && "rope_style"@[0] == 'r');
        assert("quant_mode"@.len() == 10 && "quant_mode"@[0] == 'q');
        assert("backend"@.len() == 7);
    }

    proof fn payload_carries_config(
        config: DeepseekV4IndexerQRopeQuantKernelConfig,
        cell: Seq<u32>,
        backend: Seq<char>,
        i: int,
    ) {
        reveal_strlit("num_heads");
        reveal_strlit("head_dim");
        reveal_strlit("rope_dim");
        reveal_strlit("max_model_len");
        reveal_strlit("max_num_batched_tokens");
        reveal_strlit("index_weights_softmax_scale");
        reveal_strlit("index_weights_head_scale");
        reveal_strlit("fp8_max");
        reveal_strlit("scale_epsilon");
        reveal_strlit("positions_dtype");
        reveal_strlit("q_dtype");
        reveal_strlit("rope_dtype");
        reveal_strlit("weight_dtype");
        reveal_strlit("q_output_dtype");
        reveal_strlit("weight_output_dtype");
        reveal_strlit("rope_style");
        reveal_strlit("quant_mode");
        reveal_strlit("backend");
        assert("num_heads"@.len() == 9);
        assert("head_dim"@.len() == 8 && "head_dim"@[0] == 'h');
        assert("rope_dim"@.len() == 8 && "rope_dim"@[0] == 'r');
        assert("max_model_len"@.len() == 13 && "max_model_len"@[0] == 'm');
        assert("max_num_batched_tokens"@.len() == 22);
        assert("index_weights_softmax_scale"@.len() == 27);
        assert("index_weights_head_scale"@.len() == 24);
        assert("fp8_max"@.len() == 7 && "fp8_max"@[0] == 'f');
        assert("scale_epsilon"@.len() == 13 && "scale_epsilon"@[0] == 's');
        assert("positions_dtype"@.len() == 15);
        assert("q_dtype"@.len() == 7 && "q_dtype"@[0] == 'q');
        assert("rope_dtype"@.len() == 10 && "rope_dtype"@[5] == 'd');
        assert("weight_dtype"@.len() == 12);
        assert("q_output_dtype"@.len() == 14);
        assert("weight_output_dtype"@.len() == 19);
        assert("rope_style"@.len() == 10 && "rope_style"@[5] == 's');
        assert("quant_mode"@.len() == 10 && "quant_mode"@[5] == '_');
        assert("backend"@.len() == 7 && "backend"@[0] == 'b');
        let fields = Self::fields(config, cell, backend);
        let terms = config.description();
        assert(carries(fields, terms[2]));
        assert(carries(fields, terms[3]));
        assert(carries(fields, terms[4]));
        assert(carries(fields, terms[5]));
        assert(carries(fields, terms[6]));
        assert(carries(fields, terms[7]));
        assert(carries(fields, terms[8]));
        assert(carries(fields, terms[9]));
        assert(carries(fields, terms[10]));
        assert(carries(fields, terms[11]));
        assert(carries(fields, terms[12]));
        assert(carries(fields, terms[13]));
        assert(carries(fields, terms[14]));
    }

    proof fn described_alike_is_profiled_alike(
        a: DeepseekV4IndexerQRopeQuantKernelConfig,
        b: DeepseekV4IndexerQRopeQuantKernelConfig,
        tokens: Seq<u32>,
        cell: Seq<u32>,
        backend: Seq<char>,
    ) {
        let (x, y) = (a.description(), b.description());
        assert(x[0] == y[0]);
        assert(x[1] == y[1]);
        assert(x[2] == y[2]);
        assert(x[3] == y[3]);
        assert(x[4] == y[4]);
        assert(x[5] == y[5]);
        assert(x[6] == y[6]);
        assert(x[7] == y[7]);
        assert(x[8] == y[8]);
        assert(x[9] == y[9]);
        assert(x[10] == y[10]);
        assert(x[11] == y[11]);
        assert(x[12] == y[12]);
        assert(x[13] == y[13]);
        assert(x[14] == y[14]);
    }
}

/// The scales are fixed doubles: the reciprocal root of 128, an eighth, 448 and the one
/// nearest to a ten-thousandth.
pub proof fn scales_are_fixed(
    config: DeepseekV4IndexerQRopeQuantKernelConfig,
    cell: Seq<u32>,
    backend: Seq<char>,
)
    ensures
        DeepseekV4IndexerQRopeQuantSpec::fields(config, cell, backend)["index_weights_softmax_scale"@]
            == WireValue::Real(Real::Bits(0x3fb6_a09e_667f_3bcd)),
        DeepseekV4IndexerQRopeQuantSpec::fields(config, cell, backend)["index_weights_head_scale"@]
            == WireValue::Real(Real::Bits(0x3fc0_0000_0000_0000)),
        DeepseekV4IndexerQRopeQuantSpec::fields(config, cell, backend)["fp8_max"@]
            == WireValue::Real(Real::Bits(0x407c_0000_0000_0000)),
        DeepseekV4IndexerQRopeQuantSpec::fields(config, cell, backend)["scale_epsilon"@]
            == WireValue::Real(Real::Bits(0x3f1a_36e2_eb1c_432d)),
{
    reveal_strlit("index_weights_softmax_scale");
    reveal_strlit("index_weights_head_scale");
    reveal_strlit("fp8_max");
    reveal_strlit("scale_epsilon");
    reveal_strlit("positions_dtype");
    reveal_strlit("q_dtype");
    reveal_strlit("rope_dtype");
    reveal_strlit("weight_dtype");
    reveal_strlit("q_output_dtype");
    reveal_strlit("weight_output_dtype");
    reveal_strlit("rope_style");
    reveal_strlit("quant_mode");
    reveal_strlit("backend");
    assert("index_weights_softmax_scale"@.len() == 27);
    assert("index_weights_head_scale"@.len() == 24);
    assert("fp8_max"@.len() == 7 && "fp8_max"@[0] == 'f');
    assert("scale_epsilon"@.len() == 13);
    assert("positions_dtype"@.len() == 15);
    assert("q_dtype"@.len() == 7 && "q_dtype"@[0] == 'q');
    assert("rope_dtype"@.len() == 10);
    assert("weight_dtype"@.len() == 12);
    assert("q_output_dtype"@.len() == 14);
    assert("weight_output_dtype"@.len() == 19);
    assert("rope_style"@.len() == 10);
    assert("quant_mode"@.len() == 10);
    assert("backend"@.len() == 7 && "backend"@[0] == 'b');
}

/// The kernel computes in the precision that is described as `q_dtype` and names no
/// precision that it keeps its cache in.
pub proof fn precisions_are_described(config: DeepseekV4IndexerQRopeQuantKernelConfig)
    ensures
        config.compute() matches Some(precision) && config.description()[8] == (
            "q_dtype"@,
            ConfigTerm::Precision(precision),
        ),
        config.kv() is None,
{
}

} // verus!
