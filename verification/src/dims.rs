//! Symbolic model dimensions: a folded value together with the formula that
//! derived it from model inputs.
//!
//! Two dimensions are equal when they fold to the same value, however each was
//! derived, so a configuration keyed by its shape stays one cache row.

use crate::text::{decimal, push_decimal, text_before};
use crate::text_map::{entries_map, entries_map_at, key_at, TextMap};
use std::ops::{Add, Div, Mul, Sub};
use std::sync::Arc;
use vstd::prelude::*;
use vstd::std_specs::cmp::{PartialEqSpec, PartialOrdSpec};

verus! {

/// The four arithmetic operators of a dimension formula.
#[derive(Clone, Copy, Debug, PartialEq, Eq, Structural)]
pub enum DimOp {
    Add,
    Sub,
    Mul,
    Div,
}

/// The formula of a dimension.
pub enum DimTerm {
    /// A named model input.
    Param { name: Seq<char>, value: u32 },
    /// A bare number.
    Const(u32),
    /// An operator applied to two formulas.
    Expr { op: DimOp, lhs: Box<DimTerm>, rhs: Box<DimTerm> },
}

/// One arithmetic step on whole numbers.
pub open spec fn op_value(op: DimOp, a: int, b: int) -> int {
    match op {
        DimOp::Add => a + b,
        DimOp::Sub => a - b,
        DimOp::Mul => a * b,
        DimOp::Div => a / b,
    }
}

/// Whether one arithmetic step on dimensions stays a dimension.
pub open spec fn op_fits(op: DimOp, a: int, b: int) -> bool {
    match op {
        DimOp::Add => a + b <= u32::MAX,
        DimOp::Sub => a >= b,
        DimOp::Mul => a * b <= u32::MAX,
        DimOp::Div => b != 0,
    }
}

impl DimTerm {
    /// The value that the formula evaluates to.
    pub open spec fn fold(self) -> int
        decreases self,
    {
        match self {
            DimTerm::Param { name, value } => value as int,
            DimTerm::Const(value) => value as int,
            DimTerm::Expr { op, lhs, rhs } => op_value(op, lhs.fold(), rhs.fold()),
        }
    }

    /// Every step of the formula stays within the range of a dimension.
    pub open spec fn fits(self) -> bool
        decreases self,
    {
        match self {
            DimTerm::Expr { op, lhs, rhs } => lhs.fits() && rhs.fits() && op_fits(
                op,
                lhs.fold(),
                rhs.fold(),
            ),
            _ => true,
        }
    }

    /// The named inputs of the formula with their values; where a name occurs
    /// twice, the rightmost occurrence counts.
    pub open spec fn bindings(self) -> Map<Seq<char>, u32>
        decreases self,
    {
        match self {
            DimTerm::Param { name, value } => Map::<Seq<char>, u32>::empty().insert(name, value),
            DimTerm::Const(value) => Map::<Seq<char>, u32>::empty(),
            DimTerm::Expr { op, lhs, rhs } => lhs.bindings().union_prefer_right(rhs.bindings()),
        }
    }

    /// The names of the inputs of the formula.
    pub open spec fn names(self) -> Set<Seq<char>>
        decreases self,
    {
        match self {
            DimTerm::Param { name, value } => Set::<Seq<char>>::empty().insert(name),
            DimTerm::Const(value) => Set::<Seq<char>>::empty(),
            DimTerm::Expr { op, lhs, rhs } => lhs.names().union(rhs.names()),
        }
    }

    /// The formula as text. An operand is put in brackets when its own operator
    /// binds less tightly than the operator above it.
    pub open spec fn text(self) -> Seq<char>
        decreases self,
    {
        match self {
            DimTerm::Param { name, value } => name,
            DimTerm::Const(value) => decimal(value as nat),
            DimTerm::Expr { op, lhs, rhs } => bracketed(
                lhs.text(),
                lhs.binding_strength() < op_strength(op),
            ) + op_text(op) + bracketed(rhs.text(), rhs.binding_strength() < op_strength(op)),
        }
    }

    /// How tightly the outermost part of the formula binds.
    pub open spec fn binding_strength(self) -> int {
        match self {
            DimTerm::Expr { op, lhs, rhs } => op_strength(op),
            _ => 3,
        }
    }

    /// The formula and its value; a bare number stands for itself.
    pub open spec fn labelled_text(self) -> Seq<char> {
        match self {
            DimTerm::Const(value) => decimal(value as nat),
            _ => self.text() + "="@ + decimal(self.fold() as nat),
        }
    }
}

pub open spec fn op_text(op: DimOp) -> Seq<char> {
    match op {
        DimOp::Add => "+"@,
        DimOp::Sub => "-"@,
        DimOp::Mul => "*"@,
        DimOp::Div => "/"@,
    }
}

pub open spec fn op_strength(op: DimOp) -> int {
    match op {
        DimOp::Add => 1,
        DimOp::Sub => 1,
        DimOp::Mul => 2,
        DimOp::Div => 2,
    }
}

pub open spec fn bracketed(text: Seq<char>, needed: bool) -> Seq<char> {
    if needed {
        "("@ + text + ")"@
    } else {
        text
    }
}

/// Formulas calculate as numbers do: sums and products fold to those of their parts, a
/// difference is what makes up for what was taken away, and a quotient is rounded down.
pub proof fn formulas_calculate(lhs: DimTerm, rhs: DimTerm)
    ensures
        combined(DimOp::Add, lhs, rhs).fold() == lhs.fold() + rhs.fold(),
        combined(DimOp::Sub, lhs, rhs).fold() + rhs.fold() == lhs.fold(),
        combined(DimOp::Mul, lhs, rhs).fold() == lhs.fold() * rhs.fold(),
        rhs.fold() > 0 ==> combined(DimOp::Div, lhs, rhs).fold() * rhs.fold() <= lhs.fold() < (
        combined(DimOp::Div, lhs, rhs).fold() + 1) * rhs.fold(),
{
    let (a, b) = (lhs.fold(), rhs.fold());
    assert(b > 0 ==> (a / b) * b <= a < (a / b + 1) * b) by (nonlinear_arith);
}

/// A formula that fits folds to the range of a dimension.
pub proof fn fold_in_range(term: DimTerm)
    requires
        term.fits(),
    ensures
        0 <= term.fold() <= u32::MAX,
    decreases term,
{
    match term {
        DimTerm::Expr { op, lhs, rhs } => {
            fold_in_range(*lhs);
            fold_in_range(*rhs);
            let a = lhs.fold();
            let b = rhs.fold();
            if op == DimOp::Mul {
                assert(a * b >= 0) by (nonlinear_arith)
                    requires
                        a >= 0,
                        b >= 0,
                ;
            }
            if op == DimOp::Div {
                assert(0 <= a / b <= a) by (nonlinear_arith)
                    requires
                        a >= 0,
                        b > 0,
                ;
            }
        },
        _ => {},
    }
}

/// The names of a formula are exactly the keys of its bindings.
pub proof fn names_are_bound(term: DimTerm)
    ensures
        term.bindings().dom() =~= term.names(),
    decreases term,
{
    match term {
        DimTerm::Expr { op, lhs, rhs } => {
            names_are_bound(*lhs);
            names_are_bound(*rhs);
        },
        _ => {},
    }
}

/// Each input of a formula carries one value wherever it occurs.
pub open spec fn agree(term: DimTerm, values: Map<Seq<char>, u32>) -> bool
    decreases term,
{
    match term {
        DimTerm::Param { name, value } => values.contains_key(name) && values[name] == value,
        DimTerm::Const(value) => true,
        DimTerm::Expr { op, lhs, rhs } => agree(*lhs, values) && agree(*rhs, values),
    }
}

/// The formula evaluated with its named inputs looked up.
pub open spec fn resolve(term: DimTerm, values: Map<Seq<char>, u32>) -> int
    decreases term,
{
    match term {
        DimTerm::Param { name, value } => values[name] as int,
        DimTerm::Const(value) => value as int,
        DimTerm::Expr { op, lhs, rhs } => op_value(op, resolve(*lhs, values), resolve(*rhs, values)),
    }
}

/// A legend that gives every input its value resolves the formula to its fold.
pub proof fn legend_resolves_to_fold(term: DimTerm, values: Map<Seq<char>, u32>)
    requires
        agree(term, values),
    ensures
        resolve(term, values) == term.fold(),
    decreases term,
{
    match term {
        DimTerm::Expr { op, lhs, rhs } => {
            legend_resolves_to_fold(*lhs, values);
            legend_resolves_to_fold(*rhs, values);
        },
        _ => {},
    }
}

/// A formula whose inputs each carry one value throughout is resolved by its own
/// bindings.
pub proof fn bindings_agree(term: DimTerm, values: Map<Seq<char>, u32>)
    requires
        agree(term, values),
    ensures
        agree(term, term.bindings()),
        term.bindings().submap_of(values),
        resolve(term, term.bindings()) == term.fold(),
    decreases term,
{
    match term {
        DimTerm::Expr { op, lhs, rhs } => {
            bindings_agree(*lhs, values);
            bindings_agree(*rhs, values);
            assert forall|name: Seq<char>| #[trigger]
                lhs.bindings().dom().contains(name) implies term.bindings().dom().contains(name)
                && lhs.bindings()[name] == term.bindings()[name] by {
                assert(values.dom().contains(name));
                if rhs.bindings().dom().contains(name) {
                    assert(values[name] == rhs.bindings()[name]);
                }
            }
            agree_extends(*lhs, lhs.bindings(), term.bindings());
            agree_extends(*rhs, rhs.bindings(), term.bindings());
        },
        _ => {},
    }
    legend_resolves_to_fold(term, term.bindings());
}

proof fn agree_extends(term: DimTerm, small: Map<Seq<char>, u32>, large: Map<Seq<char>, u32>)
    requires
        agree(term, small),
        small.submap_of(large),
    ensures
        agree(term, large),
    decreases term,
{
    match term {
        DimTerm::Expr { op, lhs, rhs } => {
            agree_extends(*lhs, small, large);
            agree_extends(*rhs, small, large);
        },
        _ => {},
    }
}

/// A model dimension: its folded value and the formula behind it.
#[derive(Debug)]
pub struct Dim(Arc<DimNode>);

#[derive(Debug)]
enum DimNode {
    Param { name: &'static str, value: u32 },
    Const(u32),
    Expr { value: u32, op: DimOp, lhs: Dim, rhs: Dim },
}

impl View for Dim {
    type V = DimTerm;

    closed spec fn view(&self) -> DimTerm {
        self.term()
    }
}

impl Dim {
    spec fn term(self) -> DimTerm
        decreases self,
    {
        match *self.0 {
            DimNode::Param { name, value } => DimTerm::Param { name: name@, value },
            DimNode::Const(value) => DimTerm::Const(value),
            DimNode::Expr { value, op, lhs, rhs } => DimTerm::Expr {
                op,
                lhs: Box::new(lhs.term()),
                rhs: Box::new(rhs.term()),
            },
        }
    }

    /// Every node memoizes the value that its formula folds to.
    #[verifier::type_invariant]
    spec fn memoized(self) -> bool {
        self.memo_ok()
    }

    spec fn memo_ok(self) -> bool
        decreases self,
    {
        &&& self.term().fits()
        &&& match *self.0 {
            DimNode::Expr { value, op, lhs, rhs } => value == self.term().fold() && lhs.memo_ok()
                && rhs.memo_ok(),
            _ => true,
        }
    }

    /// A named model input.
    pub fn param(name: &'static str, value: u32) -> (r: Dim)
        ensures
            r@ == (DimTerm::Param { name: name@, value }),
    {
        Dim(Arc::new(DimNode::Param { name, value }))
    }

    /// A bare number.
    pub fn lit(value: u32) -> (r: Dim)
        ensures
            r@ == DimTerm::Const(value),
    {
        Dim(Arc::new(DimNode::Const(value)))
    }

    /// The folded value.
    pub fn get(&self) -> (r: u32)
        ensures
            r as int == self@.fold(),
            self@.fits(),
    {
        proof {
            use_type_invariant(self);
        }
        match &*self.0 {
            DimNode::Param { value, .. } => *value,
            DimNode::Const(value) => *value,
            DimNode::Expr { value, .. } => *value,
        }
    }

    /// The names of the inputs that the formula is derived from, in dictionary order.
    pub fn params(&self) -> (r: Vec<String>)
        ensures
            forall|i: int, j: int|
                #![trigger r@[i], r@[j]]
                0 <= i < j < r@.len() ==> text_before(r@[i]@, r@[j]@),
            forall|name: Seq<char>|
                #[trigger] self@.names().contains(name) <==> exists|i: int|
                    0 <= i < r@.len() && #[trigger] r@[i]@ == name,
    {
        let bindings = self.bindings();
        let entries = bindings.entries();
        let mut out: Vec<String> = Vec::new();
        let mut i: usize = 0;
        while i < entries.len()
            invariant
                i <= entries@.len(),
                out@.len() == i,
                forall|j: int| 0 <= j < i ==> #[trigger] out@[j]@ == entries@[j].0@,
            decreases entries@.len() - i,
        {
            out.push(entries[i].0.clone());
            i += 1;
        }
        proof {
            names_are_bound(self@);
            let map = entries_map(entries@);
            assert(map == self@.bindings());
            assert forall|a: int, b: int|
                #![trigger out@[a], out@[b]]
                0 <= a < b < out@.len() implies text_before(out@[a]@, out@[b]@) by {
                assert(out@[a]@ == entries@[a].0@);
                assert(out@[b]@ == entries@[b].0@);
            }
            assert forall|name: Seq<char>|
                #[trigger] self@.names().contains(name) <==> exists|k: int|
                    0 <= k < out@.len() && #[trigger] out@[k]@ == name by {
                if self@.names().contains(name) {
                    assert(map.dom().contains(name));
                    let k = choose|k: int| key_at(entries@, name, k);
                    assert(out@[k]@ == name);
                }
                if exists|k: int| 0 <= k < out@.len() && #[trigger] out@[k]@ == name {
                    let k = choose|k: int| 0 <= k < out@.len() && #[trigger] out@[k]@ == name;
                    entries_map_at(entries@, k);
                    assert(map.dom().contains(name));
                }
            }
        }
        out
    }

    /// The named inputs with their values: the legend of the formula.
    pub fn bindings(&self) -> (r: TextMap<u32>)
        ensures
            r.wf(),
            r@ == self@.bindings(),
    {
        let mut map: TextMap<u32> = TextMap::new();
        self.collect_bindings(&mut map);
        assert(Map::<Seq<char>, u32>::empty().union_prefer_right(self@.bindings())
            =~= self@.bindings());
        map
    }

    fn collect_bindings(&self, map: &mut TextMap<u32>)
        requires
            old(map).wf(),
        ensures
            final(map).wf(),
            final(map)@ == old(map)@.union_prefer_right(self@.bindings()),
        decreases self,
    {
        match &*self.0 {
            DimNode::Param { name, value } => {
                map.insert(name, *value);
                assert(map@ =~= old(map)@.union_prefer_right(self@.bindings()));
            },
            DimNode::Const(_) => {
                assert(map@ =~= old(map)@.union_prefer_right(self@.bindings()));
            },
            DimNode::Expr { lhs, rhs, .. } => {
                lhs.collect_bindings(map);
                rhs.collect_bindings(map);
                assert(map@ =~= old(map)@.union_prefer_right(self@.bindings()));
            },
        }
    }

    /// Whether the dimension is a bare number.
    pub fn is_literal(&self) -> (r: bool)
        ensures
            r == (self@ is Const),
    {
        match &*self.0 {
            DimNode::Const(_) => true,
            _ => false,
        }
    }

    /// The formula as text, with brackets where precedence asks for them.
    pub fn formula(&self) -> (r: String)
        ensures
            r@ == self@.text(),
    {
        let mut out = String::new();
        self.write_formula(&mut out);
        assert(out@ =~= self@.text());
        out
    }

    fn write_formula(&self, out: &mut String)
        ensures
            final(out)@ == old(out)@ + self@.text(),
        decreases self, 0int,
    {
        match &*self.0 {
            DimNode::Param { name, .. } => {
                out.append(name);
            },
            DimNode::Const(value) => {
                push_decimal(out, *value as u64);
            },
            DimNode::Expr { op, lhs, rhs, .. } => {
                let strength: u8 = op_prec(*op);
                lhs.write_child(strength, out);
                out.append(op_str(*op));
                rhs.write_child(strength, out);
                assert(out@ =~= old(out)@ + self@.text());
            },
        }
    }

    fn write_child(&self, parent: u8, out: &mut String)
        requires
            parent <= 2,
        ensures
            final(out)@ == old(out)@ + bracketed(
                self@.text(),
                self@.binding_strength() < parent,
            ),
        decreases self, 1int,
    {
        let needed: bool = match &*self.0 {
            DimNode::Expr { op, .. } => op_prec(*op) < parent,
            _ => false,
        };
        if needed {
            out.append("(");
            self.write_formula(out);
            out.append(")");
        } else {
            self.write_formula(out);
        }
        assert(out@ =~= old(out)@ + bracketed(
            self@.text(),
            self@.binding_strength() < parent,
        ));
    }

    /// The formula and its value, or the number itself for a bare number.
    pub fn labelled(&self) -> (r: String)
        ensures
            r@ == self@.labelled_text(),
    {
        let mut out = String::new();
        if self.is_literal() {
            self.write_formula(&mut out);
        } else {
            self.write_formula(&mut out);
            out.append("=");
            push_decimal(&mut out, self.get() as u64);
        }
        assert(out@ =~= self@.labelled_text());
        out
    }
}

impl Clone for Dim {
    fn clone(&self) -> (r: Dim)
        ensures
            r@ == self@,
    {
        proof {
            use_type_invariant(self);
        }
        Dim(self.0.clone())
    }
}

fn op_str(op: DimOp) -> (r: &'static str)
    ensures
        r@ == op_text(op),
{
    match op {
        DimOp::Add => "+",
        DimOp::Sub => "-",
        DimOp::Mul => "*",
        DimOp::Div => "/",
    }
}

fn op_prec(op: DimOp) -> (r: u8)
    ensures
        r == op_strength(op),
{
    match op {
        DimOp::Add => 1,
        DimOp::Sub => 1,
        DimOp::Mul => 2,
        DimOp::Div => 2,
    }
}

/// The formula of an operator applied to two dimensions.
pub open spec fn combined(op: DimOp, lhs: DimTerm, rhs: DimTerm) -> DimTerm {
    DimTerm::Expr { op, lhs: Box::new(lhs), rhs: Box::new(rhs) }
}

fn expr(op: DimOp, lhs: Dim, rhs: Dim) -> (r: Dim)
    requires
        op_fits(op, lhs@.fold(), rhs@.fold()),
    ensures
        r@ == combined(op, lhs@, rhs@),
{
    let a: u32 = lhs.get();
    let b: u32 = rhs.get();
    let value: u32 = match op {
        DimOp::Add => a + b,
        DimOp::Sub => a - b,
        DimOp::Mul => a * b,
        DimOp::Div => a / b,
    };
    proof {
        use_type_invariant(&lhs);
        use_type_invariant(&rhs);
    }
    Dim(Arc::new(DimNode::Expr { value, op, lhs, rhs }))
}

impl From<u32> for Dim {
    fn from(value: u32) -> (r: Dim)
        ensures
            r@ == DimTerm::Const(value),
    {
        Dim::lit(value)
    }
}

impl vstd::std_specs::convert::FromSpecImpl<u32> for Dim {
    open spec fn obeys_from_spec() -> bool {
        false
    }

    open spec fn from_spec(value: u32) -> Dim {
        arbitrary()
    }
}

impl PartialEq for Dim {
    fn eq(&self, other: &Dim) -> (r: bool) {
        self.get() == other.get()
    }
}

impl vstd::std_specs::cmp::PartialEqSpecImpl for Dim {
    open spec fn obeys_eq_spec() -> bool {
        true
    }

    open spec fn eq_spec(&self, other: &Dim) -> bool {
        self@.fold() == other@.fold()
    }
}

impl Eq for Dim {

}

/// `u32::hash` of the standard library: feeds the number to a hasher. Nothing is
/// claimed of the hasher's state afterwards.
pub assume_specification<H: std::hash::Hasher>[ <u32 as std::hash::Hash>::hash::<H> ](
    value: &u32,
    state: &mut H,
)
;

impl std::hash::Hash for Dim {
    /// Feeds the folded value to the hasher, and nothing of the formula.
    fn hash<H: std::hash::Hasher>(&self, state: &mut H) {
        self.get().hash(state)
    }
}

impl PartialOrd for Dim {
    fn partial_cmp(&self, other: &Dim) -> (r: Option<std::cmp::Ordering>) {
        let a: u32 = self.get();
        let b: u32 = other.get();
        if a < b {
            Some(std::cmp::Ordering::Less)
        } else if a == b {
            Some(std::cmp::Ordering::Equal)
        } else {
            Some(std::cmp::Ordering::Greater)
        }
    }
}

impl vstd::std_specs::cmp::PartialOrdSpecImpl for Dim {
    open spec fn obeys_partial_cmp_spec() -> bool {
        true
    }

    open spec fn partial_cmp_spec(&self, other: &Dim) -> Option<std::cmp::Ordering> {
        if self@.fold() < other@.fold() {
            Some(std::cmp::Ordering::Less)
        } else if self@.fold() == other@.fold() {
            Some(std::cmp::Ordering::Equal)
        } else {
            Some(std::cmp::Ordering::Greater)
        }
    }
}

impl Dim {
    /// The order of two dimensions, by what they fold to.
    pub fn cmp(&self, other: &Dim) -> (r: std::cmp::Ordering)
        ensures
            Some(r) == self.partial_cmp_spec(other),
    {
        let a: u32 = self.get();
        let b: u32 = other.get();
        if a < b {
            std::cmp::Ordering::Less
        } else if a == b {
            std::cmp::Ordering::Equal
        } else {
            std::cmp::Ordering::Greater
        }
    }
}

/// What a dimension equals, and what it comes before, goes by the value it folds to
/// alone: two that fold to the same value stand alike to every third, however each was
/// derived, and equal is what neither comes before.
pub proof fn identity_is_by_value(a: Dim, b: Dim, other: Dim)
    ensures
        a.eq_spec(&b) <==> a@.fold() == b@.fold(),
        a.eq_spec(&b) <==> a.partial_cmp_spec(&b) == Some(std::cmp::Ordering::Equal),
        a.partial_cmp_spec(&b) == Some(std::cmp::Ordering::Less) <==> a@.fold() < b@.fold(),
        a.partial_cmp_spec(&b) == Some(std::cmp::Ordering::Greater) <==> a@.fold() > b@.fold(),
        a.eq_spec(&b) ==> a.eq_spec(&other) == b.eq_spec(&other),
        a.eq_spec(&b) ==> a.partial_cmp_spec(&other) == b.partial_cmp_spec(&other),
{
}

impl PartialEq<u32> for Dim {
    fn eq(&self, other: &u32) -> (r: bool) {
        self.get() == *other
    }
}

impl vstd::std_specs::cmp::PartialEqSpecImpl<u32> for Dim {
    open spec fn obeys_eq_spec() -> bool {
        true
    }

    open spec fn eq_spec(&self, other: &u32) -> bool {
        self@.fold() == *other
    }
}

impl PartialEq<Dim> for u32 {
    fn eq(&self, other: &Dim) -> (r: bool) {
        *self == other.get()
    }
}

impl vstd::std_specs::cmp::PartialEqSpecImpl<Dim> for u32 {
    open spec fn obeys_eq_spec() -> bool {
        true
    }

    open spec fn eq_spec(&self, other: &Dim) -> bool {
        *self == other@.fold()
    }
}

impl vstd::std_specs::ops::AddSpecImpl<Dim> for Dim {
    open spec fn obeys_add_spec() -> bool {
        false
    }

    open spec fn add_req(self, rhs: Dim) -> bool {
        op_fits(DimOp::Add, self@.fold(), rhs@.fold())
    }

    open spec fn add_spec(self, rhs: Dim) -> Dim {
        arbitrary()
    }
}

impl Add<Dim> for Dim {
    type Output = Dim;

    fn add(self, rhs: Dim) -> (r: Dim)
        ensures
            r@ == combined(DimOp::Add, self@, rhs@),
    {
        expr(DimOp::Add, self, rhs)
    }
}

impl vstd::std_specs::ops::AddSpecImpl<u32> for Dim {
    open spec fn obeys_add_spec() -> bool {
        false
    }

    open spec fn add_req(self, rhs: u32) -> bool {
        op_fits(DimOp::Add, self@.fold(), DimTerm::Const(rhs).fold())
    }

    open spec fn add_spec(self, rhs: u32) -> Dim {
        arbitrary()
    }
}

impl Add<u32> for Dim {
    type Output = Dim;

    fn add(self, rhs: u32) -> (r: Dim)
        ensures
            r@ == combined(DimOp::Add, self@, DimTerm::Const(rhs)),
    {
        expr(DimOp::Add, self, Dim::lit(rhs))
    }
}

impl vstd::std_specs::ops::AddSpecImpl<Dim> for u32 {
    open spec fn obeys_add_spec() -> bool {
        false
    }

    open spec fn add_req(self, rhs: Dim) -> bool {
        op_fits(DimOp::Add, DimTerm::Const(self).fold(), rhs@.fold())
    }

    open spec fn add_spec(self, rhs: Dim) -> Dim {
        arbitrary()
    }
}

impl Add<Dim> for u32 {
    type Output = Dim;

    fn add(self, rhs: Dim) -> (r: Dim)
        ensures
            r@ == combined(DimOp::Add, DimTerm::Const(self), rhs@),
    {
        expr(DimOp::Add, Dim::lit(self), rhs)
    }
}

impl vstd::std_specs::ops::SubSpecImpl<Dim> for Dim {
    open spec fn obeys_sub_spec() -> bool {
        false
    }

    open spec fn sub_req(self, rhs: Dim) -> bool {
        op_fits(DimOp::Sub, self@.fold(), rhs@.fold())
    }

    open spec fn sub_spec(self, rhs: Dim) -> Dim {
        arbitrary()
    }
}

impl Sub<Dim> for Dim {
    type Output = Dim;

    fn sub(self, rhs: Dim) -> (r: Dim)
        ensures
            r@ == combined(DimOp::Sub, self@, rhs@),
    {
        expr(DimOp::Sub, self, rhs)
    }
}

impl vstd::std_specs::ops::SubSpecImpl<u32> for Dim {
    open spec fn obeys_sub_spec() -> bool {
        false
    }

    open spec fn sub_req(self, rhs: u32) -> bool {
        op_fits(DimOp::Sub, self@.fold(), DimTerm::Const(rhs).fold())
    }

    open spec fn sub_spec(self, rhs: u32) -> Dim {
        arbitrary()
    }
}

impl Sub<u32> for Dim {
    type Output = Dim;

    fn sub(self, rhs: u32) -> (r: Dim)
        ensures
            r@ == combined(DimOp::Sub, self@, DimTerm::Const(rhs)),
    {
        expr(DimOp::Sub, self, Dim::lit(rhs))
    }
}

impl vstd::std_specs::ops::SubSpecImpl<Dim> for u32 {
    open spec fn obeys_sub_spec() -> bool {
        false
    }

    open spec fn sub_req(self, rhs: Dim) -> bool {
        op_fits(DimOp::Sub, DimTerm::Const(self).fold(), rhs@.fold())
    }

    open spec fn sub_spec(self, rhs: Dim) -> Dim {
        arbitrary()
    }
}

impl Sub<Dim> for u32 {
    type Output = Dim;

    fn sub(self, rhs: Dim) -> (r: Dim)
        ensures
            r@ == combined(DimOp::Sub, DimTerm::Const(self), rhs@),
    {
        expr(DimOp::Sub, Dim::lit(self), rhs)
    }
}

impl vstd::std_specs::ops::MulSpecImpl<Dim> for Dim {
    open spec fn obeys_mul_spec() -> bool {
        false
    }

    open spec fn mul_req(self, rhs: Dim) -> bool {
        op_fits(DimOp::Mul, self@.fold(), rhs@.fold())
    }

    open spec fn mul_spec(self, rhs: Dim) -> Dim {
        arbitrary()
    }
}

impl Mul<Dim> for Dim {
    type Output = Dim;

    fn mul(self, rhs: Dim) -> (r: Dim)
        ensures
            r@ == combined(DimOp::Mul, self@, rhs@),
    {
        expr(DimOp::Mul, self, rhs)
    }
}

impl vstd::std_specs::ops::MulSpecImpl<u32> for Dim {
    open spec fn obeys_mul_spec() -> bool {
        false
    }

    open spec fn mul_req(self, rhs: u32) -> bool {
        op_fits(DimOp::Mul, self@.fold(), DimTerm::Const(rhs).fold())
    }

    open spec fn mul_spec(self, rhs: u32) -> Dim {
        arbitrary()
    }
}

impl Mul<u32> for Dim {
    type Output = Dim;

    fn mul(self, rhs: u32) -> (r: Dim)
        ensures
            r@ == combined(DimOp::Mul, self@, DimTerm::Const(rhs)),
    {
        expr(DimOp::Mul, self, Dim::lit(rhs))
    }
}

impl vstd::std_specs::ops::MulSpecImpl<Dim> for u32 {
    open spec fn obeys_mul_spec() -> bool {
        false
    }

    open spec fn mul_req(self, rhs: Dim) -> bool {
        op_fits(DimOp::Mul, DimTerm::Const(self).fold(), rhs@.fold())
    }

    open spec fn mul_spec(self, rhs: Dim) -> Dim {
        arbitrary()
    }
}

impl Mul<Dim> for u32 {
    type Output = Dim;

    fn mul(self, rhs: Dim) -> (r: Dim)
        ensures
            r@ == combined(DimOp::Mul, DimTerm::Const(self), rhs@),
    {
        expr(DimOp::Mul, Dim::lit(self), rhs)
    }
}

impl vstd::std_specs::ops::DivSpecImpl<Dim> for Dim {
    open spec fn obeys_div_spec() -> bool {
        false
    }

    open spec fn div_req(self, rhs: Dim) -> bool {
        op_fits(DimOp::Div, self@.fold(), rhs@.fold())
    }

    open spec fn div_spec(self, rhs: Dim) -> Dim {
        arbitrary()
    }
}

impl Div<Dim> for Dim {
    type Output = Dim;

    fn div(self, rhs: Dim) -> (r: Dim)
        ensures
            r@ == combined(DimOp::Div, self@, rhs@),
    {
        expr(DimOp::Div, self, rhs)
    }
}

impl vstd::std_specs::ops::DivSpecImpl<u32> for Dim {
    open spec fn obeys_div_spec() -> bool {
        false
    }

    open spec fn div_req(self, rhs: u32) -> bool {
        op_fits(DimOp::Div, self@.fold(), DimTerm::Const(rhs).fold())
    }

    open spec fn div_spec(self, rhs: u32) -> Dim {
        arbitrary()
    }
}

impl Div<u32> for Dim {
    type Output = Dim;

    fn div(self, rhs: u32) -> (r: Dim)
        ensures
            r@ == combined(DimOp::Div, self@, DimTerm::Const(rhs)),
    {
        expr(DimOp::Div, self, Dim::lit(rhs))
    }
}

impl vstd::std_specs::ops::DivSpecImpl<Dim> for u32 {
    open spec fn obeys_div_spec() -> bool {
        false
    }

    open spec fn div_req(self, rhs: Dim) -> bool {
        op_fits(DimOp::Div, DimTerm::Const(self).fold(), rhs@.fold())
    }

    open spec fn div_spec(self, rhs: Dim) -> Dim {
        arbitrary()
    }
}

impl Div<Dim> for u32 {
    type Output = Dim;

    fn div(self, rhs: Dim) -> (r: Dim)
        ensures
            r@ == combined(DimOp::Div, DimTerm::Const(self), rhs@),
    {
        expr(DimOp::Div, Dim::lit(self), rhs)
    }
}

} // verus!
