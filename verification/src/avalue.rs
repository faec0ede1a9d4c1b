//! The polymorphic heap-value envelope.
//!
//! [`StarlarkValue`] is the capability interface every storable value type
//! exposes. [`Wrapper`] is the one generic envelope around a payload,
//! parameterized by a zero-size mode tag — [`Simple`] for intrinsically
//! immutable values that need no tracing, [`Complex`] for values that may
//! hold heap references and must be traced and, exactly once, frozen.
//! The envelope forwards every capability operation unchanged to the
//! payload and adds only the two lifecycle operations, trace and freeze.
//! Type identity is transparent: the envelope reports the payload's own
//! type tag, and the downcast path strips one envelope layer explicitly.

use vstd::prelude::*;

use crate::heap::Freezer;
use crate::value::{
    ConstFrozenValue, EvalError, Evaluator, FreezeError, Globals, Parameters, Span, Tracer, Value,
};

verus! {

/// The capability interface: the full set of dynamic operations a stored
/// value exposes. Each operation's result is pinned by a per-type
/// specification function, so an implementation and every envelope around
/// it answer exactly alike.
pub trait StarlarkValue: Sized {
    /// The type's identity tag, used for downcasting.
    spec fn type_tag_spec() -> u64;

    /// What `get_type` answers.
    spec fn get_type_spec(&self) -> Seq<char>;

    /// What `matches_type` answers for a given type name.
    spec fn matches_type_spec(&self, ty: Seq<char>) -> bool;

    /// What `get_methods` answers.
    spec fn get_methods_spec(&self) -> Option<Globals>;

    /// What `collect_repr` appends.
    spec fn repr_spec(&self) -> Seq<char>;

    /// What `to_json` answers.
    spec fn to_json_spec(&self) -> Result<Seq<char>, EvalError>;

    /// What `to_bool` answers.
    spec fn to_bool_spec(&self) -> bool;

    /// What `to_int` answers.
    spec fn to_int_spec(&self) -> Result<i32, EvalError>;

    /// What `get_hash` answers.
    spec fn get_hash_spec(&self) -> Result<u64, EvalError>;

    /// What `equals` answers.
    spec fn equals_spec(&self, other: Value) -> Result<bool, EvalError>;

    /// What `compare` answers.
    spec fn compare_spec(&self, other: Value) -> Result<core::cmp::Ordering, EvalError>;

    /// What `invoke` answers.
    spec fn invoke_spec(&self, me: Value, location: Option<Span>, params: Parameters) -> Result<
        Value,
        EvalError,
    >;

    /// How `invoke` leaves the evaluator.
    spec fn invoke_eval_spec(
        &self,
        me: Value,
        location: Option<Span>,
        params: Parameters,
        eval: Evaluator,
    ) -> Evaluator;

    /// What `at` answers.
    spec fn at_spec(&self, index: Value) -> Result<Value, EvalError>;

    /// What `slice` answers.
    spec fn slice_spec(
        &self,
        start: Option<Value>,
        stop: Option<Value>,
        stride: Option<Value>,
    ) -> Result<Value, EvalError>;

    /// What `iterate` yields.
    spec fn iterate_spec(&self) -> Result<Seq<Value>, EvalError>;

    /// What `length` answers.
    spec fn length_spec(&self) -> Result<i32, EvalError>;

    /// What `get_attr` answers for a given attribute name.
    spec fn get_attr_spec(&self, attribute: Seq<char>) -> Option<Value>;

    /// What `has_attr` answers.
    spec fn has_attr_spec(&self, attribute: Seq<char>) -> bool;

    /// What `dir_attr` lists.
    spec fn dir_attr_spec(&self) -> Seq<Seq<char>>;

    /// What `is_in` answers.
    spec fn is_in_spec(&self, other: Value) -> Result<bool, EvalError>;

    /// What unary plus answers.
    spec fn plus_spec(&self) -> Result<Value, EvalError>;

    /// What unary minus answers.
    spec fn minus_spec(&self) -> Result<Value, EvalError>;

    /// What reflected addition answers, where supported.
    spec fn radd_spec(&self, lhs: Value) -> Option<Result<Value, EvalError>>;

    /// What addition answers.
    spec fn add_spec(&self, other: Value) -> Result<Value, EvalError>;

    /// What subtraction answers.
    spec fn sub_spec(&self, other: Value) -> Result<Value, EvalError>;

    /// What multiplication answers.
    spec fn mul_spec(&self, other: Value) -> Result<Value, EvalError>;

    /// What the percent operator answers.
    spec fn percent_spec(&self, other: Value) -> Result<Value, EvalError>;

    /// What floor division answers.
    spec fn floor_div_spec(&self, other: Value) -> Result<Value, EvalError>;

    /// What bitwise and answers.
    spec fn bit_and_spec(&self, other: Value) -> Result<Value, EvalError>;

    /// What bitwise or answers.
    spec fn bit_or_spec(&self, other: Value) -> Result<Value, EvalError>;

    /// What bitwise xor answers.
    spec fn bit_xor_spec(&self, other: Value) -> Result<Value, EvalError>;

    /// What left shift answers.
    spec fn left_shift_spec(&self, other: Value) -> Result<Value, EvalError>;

    /// What right shift answers.
    spec fn right_shift_spec(&self, other: Value) -> Result<Value, EvalError>;

    /// How `export_as` leaves the evaluator.
    spec fn export_as_spec(&self, variable_name: Seq<char>, eval: Evaluator) -> Evaluator;

    /// What `set_at` answers.
    spec fn set_at_spec(&self, index: Value, new_value: Value) -> Result<(), EvalError>;

    /// The one relation between the value before and after `set_at`.
    spec fn set_at_rel(&self, index: Value, new_value: Value, post: Self) -> bool;

    /// What `set_attr` answers.
    spec fn set_attr_spec(&self, attribute: Seq<char>, new_value: Value) -> Result<(), EvalError>;

    /// The one relation between the value before and after `set_attr`.
    spec fn set_attr_rel(&self, attribute: Seq<char>, new_value: Value, post: Self) -> bool;

    /// The type's identity tag.
    fn static_type_id() -> (r: u64)
        ensures
            r == Self::type_tag_spec(),
    ;

    /// The identity tag of this value's type.
    fn static_type_of(&self) -> (r: u64)
        ensures
            r == Self::type_tag_spec(),
    ;

    /// The value's type name.
    fn get_type(&self) -> (r: String)
        ensures
            r@ == self.get_type_spec(),
    ;

    /// The value's type name as a frozen string constant.
    fn get_type_value(&self) -> (r: ConstFrozenValue)
        ensures
            r.text@ == self.get_type_spec(),
    ;

    /// Whether the value is of the named type.
    fn matches_type(&self, ty: &str) -> (r: bool)
        ensures
            r == self.matches_type_spec(ty@),
    ;

    /// The methods the value's type offers.
    fn get_methods(&self) -> (r: Option<Globals>)
        ensures
            r == self.get_methods_spec(),
    ;

    /// Append the value's representation to the collector.
    fn collect_repr(&self, collector: &mut String)
        ensures
            final(collector)@ == old(collector)@ + self.repr_spec(),
    ;

    /// The value rendered as JSON, where the type supports it.
    fn to_json(&self) -> (r: Result<String, EvalError>)
        ensures
            (r is Ok) == (self.to_json_spec() is Ok),
            r matches Ok(s) ==> self.to_json_spec() matches Ok(t) && s@ == t,
            r matches Err(e) ==> self.to_json_spec() matches Err(e2) && e == e2,
    ;

    /// The value's truthiness.
    fn to_bool(&self) -> (r: bool)
        ensures
            r == self.to_bool_spec(),
    ;

    /// The value as a machine integer, where the type supports it.
    fn to_int(&self) -> (r: Result<i32, EvalError>)
        ensures
            r == self.to_int_spec(),
    ;

    /// The value's hash, where the type is hashable.
    fn get_hash(&self) -> (r: Result<u64, EvalError>)
        ensures
            r == self.get_hash_spec(),
    ;

    /// Equality against another value.
    fn equals(&self, other: &Value) -> (r: Result<bool, EvalError>)
        ensures
            r == self.equals_spec(*other),
    ;

    /// Ordering against another value, where the type orders.
    fn compare(&self, other: &Value) -> (r: Result<core::cmp::Ordering, EvalError>)
        ensures
            r == self.compare_spec(*other),
    ;

    /// Call the value, where the type is callable.
    fn invoke(
        &self,
        me: &Value,
        location: Option<Span>,
        params: &Parameters,
        eval: &mut Evaluator,
    ) -> (r: Result<Value, EvalError>)
        ensures
            r == self.invoke_spec(*me, location, *params),
            *final(eval) == self.invoke_eval_spec(*me, location, *params, *old(eval)),
    ;

    /// Indexing.
    fn at(&self, index: &Value) -> (r: Result<Value, EvalError>)
        ensures
            r == self.at_spec(*index),
    ;

    /// Slicing.
    fn slice(
        &self,
        start: Option<&Value>,
        stop: Option<&Value>,
        stride: Option<&Value>,
    ) -> (r: Result<Value, EvalError>)
        ensures
            r == self.slice_spec(
                crate::value::deref_opt(start),
                crate::value::deref_opt(stop),
                crate::value::deref_opt(stride),
            ),
    ;

    /// The elements the value yields when iterated, where iterable.
    fn iterate(&self) -> (r: Result<Vec<Value>, EvalError>)
        ensures
            (r is Ok) == (self.iterate_spec() is Ok),
            r matches Ok(v) ==> self.iterate_spec() matches Ok(s) && v@ == s,
            r matches Err(e) ==> self.iterate_spec() matches Err(e2) && e == e2,
    ;

    /// The value's length, where the type has one.
    fn length(&self) -> (r: Result<i32, EvalError>)
        ensures
            r == self.length_spec(),
    ;

    /// Attribute access.
    fn get_attr(&self, attribute: &str) -> (r: Option<Value>)
        ensures
            r == self.get_attr_spec(attribute@),
    ;

    /// Whether the value has the named attribute.
    fn has_attr(&self, attribute: &str) -> (r: bool)
        ensures
            r == self.has_attr_spec(attribute@),
    ;

    /// The names of the value's attributes.
    fn dir_attr(&self) -> (r: Vec<String>)
        ensures
            r.deep_view() == self.dir_attr_spec(),
    ;

    /// Membership of another value in this one.
    fn is_in(&self, other: &Value) -> (r: Result<bool, EvalError>)
        ensures
            r == self.is_in_spec(*other),
    ;

    /// Unary plus.
    fn plus(&self) -> (r: Result<Value, EvalError>)
        ensures
            r == self.plus_spec(),
    ;

    /// Unary minus.
    fn minus(&self) -> (r: Result<Value, EvalError>)
        ensures
            r == self.minus_spec(),
    ;

    /// Reflected addition, for types that take part on the right.
    fn radd(&self, lhs: &Value) -> (r: Option<Result<Value, EvalError>>)
        ensures
            r == self.radd_spec(*lhs),
    ;

    /// Addition.
    fn add(&self, other: &Value) -> (r: Result<Value, EvalError>)
        ensures
            r == self.add_spec(*other),
    ;

    /// Subtraction.
    fn sub(&self, other: &Value) -> (r: Result<Value, EvalError>)
        ensures
            r == self.sub_spec(*other),
    ;

    /// Multiplication.
    fn mul(&self, other: &Value) -> (r: Result<Value, EvalError>)
        ensures
            r == self.mul_spec(*other),
    ;

    /// The percent operator.
    fn percent(&self, other: &Value) -> (r: Result<Value, EvalError>)
        ensures
            r == self.percent_spec(*other),
    ;

    /// Floor division.
    fn floor_div(&self, other: &Value) -> (r: Result<Value, EvalError>)
        ensures
            r == self.floor_div_spec(*other),
    ;

    /// Bitwise and.
    fn bit_and(&self, other: &Value) -> (r: Result<Value, EvalError>)
        ensures
            r == self.bit_and_spec(*other),
    ;

    /// Bitwise or.
    fn bit_or(&self, other: &Value) -> (r: Result<Value, EvalError>)
        ensures
            r == self.bit_or_spec(*other),
    ;

    /// Bitwise xor.
    fn bit_xor(&self, other: &Value) -> (r: Result<Value, EvalError>)
        ensures
            r == self.bit_xor_spec(*other),
    ;

    /// Left shift.
    fn left_shift(&self, other: &Value) -> (r: Result<Value, EvalError>)
        ensures
            r == self.left_shift_spec(*other),
    ;

    /// Right shift.
    fn right_shift(&self, other: &Value) -> (r: Result<Value, EvalError>)
        ensures
            r == self.right_shift_spec(*other),
    ;

    /// Hook invoked when the value is bound to a name.
    fn export_as(&self, variable_name: &str, eval: &mut Evaluator)
        ensures
            *final(eval) == self.export_as_spec(variable_name@, *old(eval)),
    ;

    /// Index assignment, where the type permits mutation.
    fn set_at(&mut self, index: &Value, new_value: &Value) -> (r: Result<(), EvalError>)
        ensures
            r == old(self).set_at_spec(*index, *new_value),
            old(self).set_at_rel(*index, *new_value, *final(self)),
    ;

    /// Attribute assignment, where the type permits mutation.
    fn set_attr(&mut self, attribute: &str, new_value: &Value) -> (r: Result<(), EvalError>)
        ensures
            r == old(self).set_attr_spec(attribute@, *new_value),
            old(self).set_attr_rel(attribute@, *new_value, *final(self)),
    ;
}

/// A payload that is intrinsically immutable, holds no heap references,
/// and freezes to itself.
pub trait SimpleValue: StarlarkValue {

}

/// A payload that may hold heap references: it must show the collector
/// every reference it owns, and it must be freezable, exactly once, into
/// an intrinsically simple counterpart.
pub trait ComplexValue: StarlarkValue {
    /// The intrinsically simple type this payload freezes into.
    type Frozen: SimpleValue;

    /// Every heap reference the payload owns or holds, in the order the
    /// collector is shown them.
    spec fn refs_spec(&self) -> Seq<usize>;

    /// Show the collector every owned heap reference; the value itself is
    /// left untouched.
    fn trace(&mut self, tracer: &mut Tracer)
        ensures
            *final(self) == *old(self),
            final(tracer).visited@ == old(tracer).visited@ + old(self).refs_spec(),
    ;

    /// Whether freezing succeeds against the given memo table.
    spec fn freeze_ok_spec(&self, memo: Seq<Option<usize>>) -> bool;

    /// How a successful freeze result relates to this payload: same data,
    /// with every owned reference redirected through the memo table.
    spec fn frozen_rel(&self, memo: Seq<Option<usize>>, out: Self::Frozen) -> bool;

    /// The error a failing freeze reports against the given memo table.
    spec fn freeze_err_spec(&self, memo: Seq<Option<usize>>) -> FreezeError;

    /// Freeze this payload: produce its simple counterpart, resolving every
    /// owned reference through the freezer. Fails exactly where
    /// `freeze_ok_spec` refuses, and the error is pinned by
    /// `freeze_err_spec`.
    fn freeze(self, freezer: &Freezer) -> (r: Result<Self::Frozen, FreezeError>)
        ensures
            (r is Ok) == self.freeze_ok_spec(freezer.memo_view()),
            r matches Ok(s) ==> self.frozen_rel(freezer.memo_view(), s),
            r matches Err(e) ==> e == self.freeze_err_spec(freezer.memo_view()),
    ;
}

/// The mode tag of an envelope around an intrinsically simple payload.
pub struct Simple;

/// The mode tag of an envelope around a possibly complex payload.
pub struct Complex;

/// The one generic envelope: a zero-size mode tag and the payload. Every
/// capability operation is forwarded to the payload unchanged; the mode
/// decides only the two lifecycle operations.
pub struct Wrapper<Mode, T>(pub Mode, pub T);

/// The union of the capability interface with the two lifecycle
/// operations the heap needs of every stored value: trace and the one-way
/// conversion into a simple, frozen envelope.
pub trait AValue: StarlarkValue {
    /// The simple payload type this value freezes into.
    type Frozen: SimpleValue;

    /// The heap references the collector is shown: none for a simple
    /// value, the payload's own for a complex one.
    spec fn traced_refs_spec(&self) -> Seq<usize>;

    /// Show the collector the value's references; a simple value shows
    /// nothing and nothing is mutated.
    fn trace(&mut self, tracer: &mut Tracer)
        ensures
            *final(self) == *old(self),
            final(tracer).visited@ == old(tracer).visited@ + old(self).traced_refs_spec(),
    ;

    /// Whether conversion succeeds against the given memo table.
    spec fn into_simple_ok_spec(&self, memo: Seq<Option<usize>>) -> bool;

    /// How a successful conversion result relates to this value.
    spec fn into_simple_rel(
        &self,
        memo: Seq<Option<usize>>,
        out: Wrapper<Simple, Self::Frozen>,
    ) -> bool;

    /// The error a failing conversion reports.
    spec fn into_simple_err_spec(&self, memo: Seq<Option<usize>>) -> FreezeError;

    /// Convert into a simple envelope: the identity for a value that is
    /// already simple — freezing a frozen value is a no-op, never an
    /// error — and the payload's own freeze routine, re-wrapped as simple,
    /// for a complex one.
    fn into_simple(self, freezer: &Freezer) -> (r: Result<
        Wrapper<Simple, Self::Frozen>,
        FreezeError,
    >)
        ensures
            (r is Ok) == self.into_simple_ok_spec(freezer.memo_view()),
            r matches Ok(w) ==> self.into_simple_rel(freezer.memo_view(), w),
            r matches Err(e) ==> e == self.into_simple_err_spec(freezer.memo_view()),
    ;
}

/// Envelop an intrinsically simple payload, usable directly on a frozen
/// heap.
pub fn simple<T: SimpleValue>(x: T) -> (r: Wrapper<Simple, T>)
    ensures
        r == Wrapper(Simple, x),
        r.1 == x,
{
    Wrapper(Simple, x)
}

/// Envelop a possibly complex payload, usable on a mutable heap.
pub fn complex<T: ComplexValue>(x: T) -> (r: Wrapper<Complex, T>)
    ensures
        r == Wrapper(Complex, x),
        r.1 == x,
{
    Wrapper(Complex, x)
}

impl<Mode, T: StarlarkValue> Wrapper<Mode, T> {
    /// The explicit wrapper-aware downcast: strip one envelope layer where
    /// the queried tag is the payload type's own identity. A query against
    /// any other tag fails.
    pub fn downcast_payload(&self, tag: u64) -> (r: Option<&T>)
        ensures
            tag == T::type_tag_spec() ==> (r matches Some(p) && *p == self.1),
            tag != T::type_tag_spec() ==> r is None,
    {
        if tag == T::static_type_id() {
            Some(&self.1)
        } else {
            None
        }
    }

    /// The payload, with the envelope stripped.
    pub fn into_payload(self) -> (r: T)
        ensures
            r == self.1,
    {
        self.1
    }
}

impl<Mode, T: StarlarkValue> StarlarkValue for Wrapper<Mode, T> {
    open spec fn type_tag_spec() -> u64 {
        T::type_tag_spec()
    }

    open spec fn get_type_spec(&self) -> Seq<char> {
        self.1.get_type_spec()
    }

    open spec fn matches_type_spec(&self, ty: Seq<char>) -> bool {
        self.1.matches_type_spec(ty)
    }

    open spec fn get_methods_spec(&self) -> Option<Globals> {
        self.1.get_methods_spec()
    }

    open spec fn repr_spec(&self) -> Seq<char> {
        self.1.repr_spec()
    }

    open spec fn to_json_spec(&self) -> Result<Seq<char>, EvalError> {
        self.1.to_json_spec()
    }

    open spec fn to_bool_spec(&self) -> bool {
        self.1.to_bool_spec()
    }

    open spec fn to_int_spec(&self) -> Result<i32, EvalError> {
        self.1.to_int_spec()
    }

    open spec fn get_hash_spec(&self) -> Result<u64, EvalError> {
        self.1.get_hash_spec()
    }

    open spec fn equals_spec(&self, other: Value) -> Result<bool, EvalError> {
        self.1.equals_spec(other)
    }

    open spec fn compare_spec(&self, other: Value) -> Result<core::cmp::Ordering, EvalError> {
        self.1.compare_spec(other)
    }

    open spec fn invoke_spec(
        &self,
        me: Value,
        location: Option<Span>,
        params: Parameters,
    ) -> Result<Value, EvalError> {
        self.1.invoke_spec(me, location, params)
    }

    open spec fn invoke_eval_spec(
        &self,
        me: Value,
        location: Option<Span>,
        params: Parameters,
        eval: Evaluator,
    ) -> Evaluator {
        self.1.invoke_eval_spec(me, location, params, eval)
    }

    open spec fn at_spec(&self, index: Value) -> Result<Value, EvalError> {
        self.1.at_spec(index)
    }

    open spec fn slice_spec(
        &self,
        start: Option<Value>,
        stop: Option<Value>,
        stride: Option<Value>,
    ) -> Result<Value, EvalError> {
        self.1.slice_spec(start, stop, stride)
    }

    open spec fn iterate_spec(&self) -> Result<Seq<Value>, EvalError> {
        self.1.iterate_spec()
    }

    open spec fn length_spec(&self) -> Result<i32, EvalError> {
        self.1.length_spec()
    }

    open spec fn get_attr_spec(&self, attribute: Seq<char>) -> Option<Value> {
        self.1.get_attr_spec(attribute)
    }

    open spec fn has_attr_spec(&self, attribute: Seq<char>) -> bool {
        self.1.has_attr_spec(attribute)
    }

    open spec fn dir_attr_spec(&self) -> Seq<Seq<char>> {
        self.1.dir_attr_spec()
    }

    open spec fn is_in_spec(&self, other: Value) -> Result<bool, EvalError> {
        self.1.is_in_spec(other)
    }

    open spec fn plus_spec(&self) -> Result<Value, EvalError> {
        self.1.plus_spec()
    }

    open spec fn minus_spec(&self) -> Result<Value, EvalError> {
        self.1.minus_spec()
    }

    open spec fn radd_spec(&self, lhs: Value) -> Option<Result<Value, EvalError>> {
        self.1.radd_spec(lhs)
    }

    open spec fn add_spec(&self, other: Value) -> Result<Value, EvalError> {
        self.1.add_spec(other)
    }

    open spec fn sub_spec(&self, other: Value) -> Result<Value, EvalError> {
        self.1.sub_spec(other)
    }

    open spec fn mul_spec(&self, other: Value) -> Result<Value, EvalError> {
        self.1.mul_spec(other)
    }

    open spec fn percent_spec(&self, other: Value) -> Result<Value, EvalError> {
        self.1.percent_spec(other)
    }

    open spec fn floor_div_spec(&self, other: Value) -> Result<Value, EvalError> {
        self.1.floor_div_spec(other)
    }

    open spec fn bit_and_spec(&self, other: Value) -> Result<Value, EvalError> {
        self.1.bit_and_spec(other)
    }

    open spec fn bit_or_spec(&self, other: Value) -> Result<Value, EvalError> {
        self.1.bit_or_spec(other)
    }

    open spec fn bit_xor_spec(&self, other: Value) -> Result<Value, EvalError> {
        self.1.bit_xor_spec(other)
    }

    open spec fn left_shift_spec(&self, other: Value) -> Result<Value, EvalError> {
        self.1.left_shift_spec(other)
    }

    open spec fn right_shift_spec(&self, other: Value) -> Result<Value, EvalError> {
        self.1.right_shift_spec(other)
    }

    open spec fn export_as_spec(&self, variable_name: Seq<char>, eval: Evaluator) -> Evaluator {
        self.1.export_as_spec(variable_name, eval)
    }

    open spec fn set_at_spec(&self, index: Value, new_value: Value) -> Result<(), EvalError> {
        self.1.set_at_spec(index, new_value)
    }

    open spec fn set_at_rel(&self, index: Value, new_value: Value, post: Self) -> bool {
        post.0 == self.0 && self.1.set_at_rel(index, new_value, post.1)
    }

    open spec fn set_attr_spec(&self, attribute: Seq<char>, new_value: Value) -> Result<
        (),
        EvalError,
    > {
        self.1.set_attr_spec(attribute, new_value)
    }

    open spec fn set_attr_rel(&self, attribute: Seq<char>, new_value: Value, post: Self) -> bool {
        post.0 == self.0 && self.1.set_attr_rel(attribute, new_value, post.1)
    }

    fn static_type_id() -> (r: u64) {
        T::static_type_id()
    }

    fn static_type_of(&self) -> (r: u64) {
        T::static_type_id()
    }

    fn get_type(&self) -> (r: String) {
        self.1.get_type()
    }

    fn get_type_value(&self) -> (r: ConstFrozenValue) {
        self.1.get_type_value()
    }

    fn matches_type(&self, ty: &str) -> (r: bool) {
        self.1.matches_type(ty)
    }

    fn get_methods(&self) -> (r: Option<Globals>) {
        self.1.get_methods()
    }

    fn collect_repr(&self, collector: &mut String) {
        self.1.collect_repr(collector)
    }

    fn to_json(&self) -> (r: Result<String, EvalError>) {
        self.1.to_json()
    }

    fn to_bool(&self) -> (r: bool) {
        self.1.to_bool()
    }

    fn to_int(&self) -> (r: Result<i32, EvalError>) {
        self.1.to_int()
    }

    fn get_hash(&self) -> (r: Result<u64, EvalError>) {
        self.1.get_hash()
    }

    fn equals(&self, other: &Value) -> (r: Result<bool, EvalError>) {
        self.1.equals(other)
    }

    fn compare(&self, other: &Value) -> (r: Result<core::cmp::Ordering, EvalError>) {
        self.1.compare(other)
    }

    fn invoke(
        &self,
        me: &Value,
        location: Option<Span>,
        params: &Parameters,
        eval: &mut Evaluator,
    ) -> (r: Result<Value, EvalError>) {
        self.1.invoke(me, location, params, eval)
    }

    fn at(&self, index: &Value) -> (r: Result<Value, EvalError>) {
        self.1.at(index)
    }

    fn slice(
        &self,
        start: Option<&Value>,
        stop: Option<&Value>,
        stride: Option<&Value>,
    ) -> (r: Result<Value, EvalError>) {
        self.1.slice(start, stop, stride)
    }

    fn iterate(&self) -> (r: Result<Vec<Value>, EvalError>) {
        self.1.iterate()
    }

    fn length(&self) -> (r: Result<i32, EvalError>) {
        self.1.length()
    }

    fn get_attr(&self, attribute: &str) -> (r: Option<Value>) {
        self.1.get_attr(attribute)
    }

    fn has_attr(&self, attribute: &str) -> (r: bool) {
        self.1.has_attr(attribute)
    }

    fn dir_attr(&self) -> (r: Vec<String>) {
        self.1.dir_attr()
    }

    fn is_in(&self, other: &Value) -> (r: Result<bool, EvalError>) {
        self.1.is_in(other)
    }

    fn plus(&self) -> (r: Result<Value, EvalError>) {
        self.1.plus()
    }

    fn minus(&self) -> (r: Result<Value, EvalError>) {
        self.1.minus()
    }

    fn radd(&self, lhs: &Value) -> (r: Option<Result<Value, EvalError>>) {
        self.1.radd(lhs)
    }

    fn add(&self, other: &Value) -> (r: Result<Value, EvalError>) {
        self.1.add(other)
    }

    fn sub(&self, other: &Value) -> (r: Result<Value, EvalError>) {
        self.1.sub(other)
    }

    fn mul(&self, other: &Value) -> (r: Result<Value, EvalError>) {
        self.1.mul(other)
    }

    fn percent(&self, other: &Value) -> (r: Result<Value, EvalError>) {
        self.1.percent(other)
    }

    fn floor_div(&self, other: &Value) -> (r: Result<Value, EvalError>) {
        self.1.floor_div(other)
    }

    fn bit_and(&self, other: &Value) -> (r: Result<Value, EvalError>) {
        self.1.bit_and(other)
    }

    fn bit_or(&self, other: &Value) -> (r: Result<Value, EvalError>) {
        self.1.bit_or(other)
    }

    fn bit_xor(&self, other: &Value) -> (r: Result<Value, EvalError>) {
        self.1.bit_xor(other)
    }

    fn left_shift(&self, other: &Value) -> (r: Result<Value, EvalError>) {
        self.1.left_shift(other)
    }

    fn right_shift(&self, other: &Value) -> (r: Result<Value, EvalError>) {
        self.1.right_shift(other)
    }

    fn export_as(&self, variable_name: &str, eval: &mut Evaluator) {
        self.1.export_as(variable_name, eval)
    }

    fn set_at(&mut self, index: &Value, new_value: &Value) -> (r: Result<(), EvalError>) {
        self.1.set_at(index, new_value)
    }

    fn set_attr(&mut self, attribute: &str, new_value: &Value) -> (r: Result<(), EvalError>) {
        self.1.set_attr(attribute, new_value)
    }
}

impl<T: SimpleValue> AValue for Wrapper<Simple, T> {
    type Frozen = T;

    open spec fn traced_refs_spec(&self) -> Seq<usize> {
        Seq::empty()
    }

    fn trace(&mut self, tracer: &mut Tracer) {
        proof {
            assert(final(tracer).visited@ =~= old(tracer).visited@ + old(self).traced_refs_spec());
        }
    }

    open spec fn into_simple_ok_spec(&self, memo: Seq<Option<usize>>) -> bool {
        true
    }

    open spec fn into_simple_rel(
        &self,
        memo: Seq<Option<usize>>,
        out: Wrapper<Simple, T>,
    ) -> bool {
        out == *self
    }

    open spec fn into_simple_err_spec(&self, memo: Seq<Option<usize>>) -> FreezeError {
        FreezeError::Unfreezable
    }

    fn into_simple(self, freezer: &Freezer) -> (r: Result<Wrapper<Simple, T>, FreezeError>) {
        Ok(self)
    }
}

impl<T: ComplexValue> AValue for Wrapper<Complex, T> {
    type Frozen = T::Frozen;

    open spec fn traced_refs_spec(&self) -> Seq<usize> {
        self.1.refs_spec()
    }

    fn trace(&mut self, tracer: &mut Tracer) {
        self.1.trace(tracer)
    }

    open spec fn into_simple_ok_spec(&self, memo: Seq<Option<usize>>) -> bool {
        self.1.freeze_ok_spec(memo)
    }

    open spec fn into_simple_rel(
        &self,
        memo: Seq<Option<usize>>,
        out: Wrapper<Simple, T::Frozen>,
    ) -> bool {
        self.1.frozen_rel(memo, out.1)
    }

    open spec fn into_simple_err_spec(&self, memo: Seq<Option<usize>>) -> FreezeError {
        self.1.freeze_err_spec(memo)
    }

    fn into_simple(self, freezer: &Freezer) -> (r: Result<
        Wrapper<Simple, T::Frozen>,
        FreezeError,
    >) {
        match self.1.freeze(freezer) {
            Ok(s) => Ok(simple(s)),
            Err(e) => Err(e),
        }
    }
}

/// Type-identity transparency: the envelope reports exactly the payload
/// type's tag, whichever mode wraps it, so a downcast against the payload's
/// identity succeeds through the envelope and one against any other
/// identity fails.
pub proof fn lemma_type_identity_transparent<Mode, T: StarlarkValue>(tag: u64)
    ensures
        Wrapper::<Mode, T>::type_tag_spec() == T::type_tag_spec(),
        (tag == Wrapper::<Mode, T>::type_tag_spec()) == (tag == T::type_tag_spec()),
{
}

/// Trace of a simple envelope is a no-op: it shows the collector nothing,
/// so the tracer's record is left exactly as it was — and by the trace
/// contract the value itself is untouched.
pub proof fn lemma_simple_trace_no_op<T: SimpleValue>(w: Wrapper<Simple, T>, visited: Seq<usize>)
    ensures
        w.traced_refs_spec() == Seq::<usize>::empty(),
        visited + w.traced_refs_spec() == visited,
{
    assert(visited + w.traced_refs_spec() =~= visited);
}

/// Freeze idempotence: converting an already simple envelope always
/// succeeds, and the one result it relates to is the envelope itself,
/// unchanged — no freeze routine is consulted.
pub proof fn lemma_freeze_idempotent<T: SimpleValue>(
    w: Wrapper<Simple, T>,
    memo: Seq<Option<usize>>,
)
    ensures
        w.into_simple_ok_spec(memo),
        forall|out: Wrapper<Simple, T>| #[trigger] w.into_simple_rel(memo, out) <==> out == w,
{
}

} // verus!
