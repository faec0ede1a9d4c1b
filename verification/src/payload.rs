//! Concrete payload types stored on the heaps.
//!
//! [`SimplePayload`] is the intrinsically immutable form: immediate data
//! and frozen counterparts of the complex forms, whose references point
//! into the frozen graph. [`ComplexPayload`] is the mutable form: its
//! references point into the mutable heap, it shows them to the collector,
//! and it freezes — exactly once — into its [`SimplePayload`] counterpart.

use core::cmp::Ordering;
use vstd::prelude::*;
use vstd::string::StringExecFns;
use vstd::string::StrSliceExecFns;

use crate::avalue::{ComplexValue, SimpleValue, StarlarkValue};
use crate::hashed::{hash_chars, str_hash};
use crate::heap::{memo_lookup, Freezer};
use crate::value::{
    floor_div_int, floor_mod_int, i64_dec, i64_floor_div_mod, lex_cmp, lex_cmp_chars,
    push_i64_dec, spec_str_contains, str_contains, str_eq, ConstFrozenValue, EvalError, Evaluator,
    FreezeError, Globals, Parameters, Span, Tracer, Value,
};
use vstd::arithmetic::div_mod::lemma_fundamental_div_mod_converse;

verus! {

/// Whether a slot reference occurs among a list payload's elements.
fn contains_ref(l: &Vec<usize>, j: usize) -> (r: bool)
    ensures
        r == l@.contains(j),
{
    let n = l.len();
    let mut i: usize = 0;
    while i < n
        invariant
            n == l@.len(),
            i <= n,
            forall|k: int| 0 <= k < i ==> l@[k] != j,
        decreases n - i,
    {
        if l[i] == j {
            proof {
                assert(l@.contains(j)) by {
                    assert(l@[i as int] == j);
                }
            }
            return true;
        }
        i = i + 1;
    }
    proof {
        assert(!l@.contains(j));
    }
    false
}

/// Show the collector every reference a list payload holds, in order.
fn visit_all(l: &Vec<usize>, tracer: &mut Tracer)
    ensures
        final(tracer).visited@ == old(tracer).visited@ + l@,
{
    let n = l.len();
    let mut i: usize = 0;
    while i < n
        invariant
            n == l@.len(),
            i <= n,
            tracer.visited@ == old(tracer).visited@ + l@.subrange(0, i as int),
        decreases n - i,
    {
        let r = l[i];
        tracer.visit(r);
        proof {
            assert(l@.subrange(0, i + 1 as int) =~= l@.subrange(0, i as int).push(l@[i as int]));
            assert(tracer.visited@ =~= old(tracer).visited@ + l@.subrange(0, i + 1 as int));
        }
        i = i + 1;
    }
    proof {
        assert(l@.subrange(0, n as int) =~= l@);
    }
}

/// Resolve every reference a list payload holds through the freezer's memo
/// table; fails on the first reference with no frozen counterpart.
fn freeze_refs(l: &Vec<usize>, freezer: &Freezer) -> (r: Result<Vec<usize>, FreezeError>)
    ensures
        (r is Ok) == (forall|i: int|
            0 <= i < l@.len() ==> memo_lookup(freezer.memo_view(), #[trigger] l@[i]) is Some),
        r matches Ok(out) ==> out@.len() == l@.len() && (forall|i: int|
            0 <= i < l@.len() ==> memo_lookup(freezer.memo_view(), #[trigger] l@[i]) == Some(
                out@[i],
            )),
        r matches Err(e) ==> e == FreezeError::Unresolved,
{
    let mut out: Vec<usize> = Vec::new();
    let n = l.len();
    let mut i: usize = 0;
    while i < n
        invariant
            n == l@.len(),
            i <= n,
            out@.len() == i,
            forall|k: int|
                0 <= k < i ==> memo_lookup(freezer.memo_view(), #[trigger] l@[k]) == Some(
                    out@[k],
                ),
        decreases n - i,
    {
        match freezer.freeze(l[i]) {
            Ok(j) => {
                out.push(j);
            }
            Err(e) => {
                proof {
                    assert(memo_lookup(freezer.memo_view(), l@[i as int]) is None);
                }
                return Err(e);
            }
        }
        i = i + 1;
    }
    Ok(out)
}

/// An intrinsically simple payload: immediate data, or the frozen form of
/// a complex payload, whose references point into the frozen graph.
#[derive(Debug, PartialEq)]
pub enum SimplePayload {
    Bool(bool),
    Int(i64),
    Str(String),
    FrozenCounter { count: i64, inner: Option<usize> },
    FrozenList(Vec<usize>),
}

impl StarlarkValue for SimplePayload {
    open spec fn type_tag_spec() -> u64 {
        1
    }

    open spec fn get_type_spec(&self) -> Seq<char> {
        match self {
            SimplePayload::Bool(_) => "bool"@,
            SimplePayload::Int(_) => "int"@,
            SimplePayload::Str(_) => "string"@,
            SimplePayload::FrozenCounter { .. } => "counter"@,
            SimplePayload::FrozenList(_) => "list"@,
        }
    }

    open spec fn matches_type_spec(&self, ty: Seq<char>) -> bool {
        ty == self.get_type_spec()
    }

    open spec fn get_methods_spec(&self) -> Option<Globals> {
        None
    }

    open spec fn repr_spec(&self) -> Seq<char> {
        match self {
            SimplePayload::Bool(b) => if *b {
                "True"@
            } else {
                "False"@
            },
            SimplePayload::Int(n) => i64_dec(*n as int),
            SimplePayload::Str(s) => seq!['"'] + s@ + seq!['"'],
            SimplePayload::FrozenCounter { count, .. } => "counter("@ + i64_dec(*count as int)
                + ")"@,
            SimplePayload::FrozenList(_) => "[...]"@,
        }
    }

    open spec fn to_json_spec(&self) -> Result<Seq<char>, EvalError> {
        match self {
            SimplePayload::Bool(b) => Ok(
                if *b {
                    "true"@
                } else {
                    "false"@
                },
            ),
            SimplePayload::Int(n) => Ok(i64_dec(*n as int)),
            SimplePayload::Str(s) => Ok(seq!['"'] + s@ + seq!['"']),
            SimplePayload::FrozenCounter { .. } => Err(EvalError::Unsupported),
            SimplePayload::FrozenList(_) => Err(EvalError::Unsupported),
        }
    }

    open spec fn to_bool_spec(&self) -> bool {
        match self {
            SimplePayload::Bool(b) => *b,
            SimplePayload::Int(n) => *n != 0,
            SimplePayload::Str(s) => s@.len() > 0,
            SimplePayload::FrozenCounter { .. } => true,
            SimplePayload::FrozenList(l) => l@.len() > 0,
        }
    }

    open spec fn to_int_spec(&self) -> Result<i32, EvalError> {
        match self {
            SimplePayload::Int(n) => if -2147483648 <= *n <= 2147483647 {
                Ok(*n as i32)
            } else {
                Err(EvalError::Overflow)
            },
            SimplePayload::Bool(b) => Ok(
                if *b {
                    1
                } else {
                    0
                },
            ),
            SimplePayload::FrozenCounter { count, .. } => if -2147483648 <= *count
                <= 2147483647 {
                Ok(*count as i32)
            } else {
                Err(EvalError::Overflow)
            },
            _ => Err(EvalError::Unsupported),
        }
    }

    open spec fn get_hash_spec(&self) -> Result<u64, EvalError> {
        match self {
            SimplePayload::Bool(b) => Ok(
                if *b {
                    1
                } else {
                    0
                },
            ),
            SimplePayload::Int(n) => Ok(*n as u64),
            SimplePayload::Str(s) => Ok(str_hash(s@) as u64),
            SimplePayload::FrozenCounter { .. } => Err(EvalError::Unhashable),
            SimplePayload::FrozenList(_) => Err(EvalError::Unhashable),
        }
    }

    open spec fn equals_spec(&self, other: Value) -> Result<bool, EvalError> {
        match (self, other) {
            (SimplePayload::Bool(b), Value::Bool(c)) => Ok(*b == c),
            (SimplePayload::Int(n), Value::Int(m)) => Ok(*n == m),
            (SimplePayload::Str(s), Value::Str(t)) => Ok(s@ == t@),
            _ => Ok(false),
        }
    }

    open spec fn compare_spec(&self, other: Value) -> Result<Ordering, EvalError> {
        match (self, other) {
            (SimplePayload::Int(n), Value::Int(m)) => if *n < m {
                Ok(Ordering::Less)
            } else if *n == m {
                Ok(Ordering::Equal)
            } else {
                Ok(Ordering::Greater)
            },
            (SimplePayload::Str(s), Value::Str(t)) => Ok(lex_cmp_chars(s@, t@)),
            _ => Err(EvalError::Unsupported),
        }
    }

    open spec fn invoke_spec(&self, me: Value, location: Option<Span>, params: Parameters) -> Result<
        Value,
        EvalError,
    > {
        Err(EvalError::NotCallable)
    }

    open spec fn invoke_eval_spec(
        &self,
        me: Value,
        location: Option<Span>,
        params: Parameters,
        eval: Evaluator,
    ) -> Evaluator {
        eval
    }

    open spec fn at_spec(&self, index: Value) -> Result<Value, EvalError> {
        match (self, index) {
            (SimplePayload::FrozenList(l), Value::Int(i)) => if 0 <= i < l@.len() {
                Ok(Value::FrozenRef(l@[i as int]))
            } else {
                Err(EvalError::OutOfBounds)
            },
            _ => Err(EvalError::Unsupported),
        }
    }

    open spec fn slice_spec(
        &self,
        start: Option<Value>,
        stop: Option<Value>,
        stride: Option<Value>,
    ) -> Result<Value, EvalError> {
        Err(EvalError::Unsupported)
    }

    open spec fn iterate_spec(&self) -> Result<Seq<Value>, EvalError> {
        match self {
            SimplePayload::FrozenList(l) => Ok(
                Seq::new(l@.len(), |i: int| Value::FrozenRef(l@[i])),
            ),
            _ => Err(EvalError::Unsupported),
        }
    }

    open spec fn length_spec(&self) -> Result<i32, EvalError> {
        match self {
            SimplePayload::Str(s) => if s@.len() <= 2147483647 {
                Ok(s@.len() as i32)
            } else {
                Err(EvalError::Overflow)
            },
            SimplePayload::FrozenList(l) => if l@.len() <= 2147483647 {
                Ok(l@.len() as i32)
            } else {
                Err(EvalError::Overflow)
            },
            _ => Err(EvalError::Unsupported),
        }
    }

    open spec fn get_attr_spec(&self, attribute: Seq<char>) -> Option<Value> {
        match self {
            SimplePayload::FrozenCounter { count, .. } => if attribute == "count"@ {
                Some(Value::Int(*count))
            } else {
                None
            },
            _ => None,
        }
    }

    open spec fn has_attr_spec(&self, attribute: Seq<char>) -> bool {
        self.get_attr_spec(attribute) is Some
    }

    open spec fn dir_attr_spec(&self) -> Seq<Seq<char>> {
        match self {
            SimplePayload::FrozenCounter { .. } => seq!["count"@],
            _ => Seq::empty(),
        }
    }

    open spec fn is_in_spec(&self, other: Value) -> Result<bool, EvalError> {
        match self {
            SimplePayload::FrozenList(l) => match other {
                Value::FrozenRef(j) => Ok(l@.contains(j)),
                _ => Ok(false),
            },
            SimplePayload::Str(s) => match other {
                Value::Str(t) => Ok(spec_str_contains(s@, t@)),
                _ => Err(EvalError::Unsupported),
            },
            _ => Err(EvalError::Unsupported),
        }
    }

    open spec fn plus_spec(&self) -> Result<Value, EvalError> {
        match self {
            SimplePayload::Int(n) => Ok(Value::Int(*n)),
            _ => Err(EvalError::Unsupported),
        }
    }

    open spec fn minus_spec(&self) -> Result<Value, EvalError> {
        match self {
            SimplePayload::Int(n) => if *n == i64::MIN {
                Err(EvalError::Overflow)
            } else {
                Ok(Value::Int(-*n as i64))
            },
            _ => Err(EvalError::Unsupported),
        }
    }

    open spec fn radd_spec(&self, lhs: Value) -> Option<Result<Value, EvalError>> {
        None
    }

    open spec fn add_spec(&self, other: Value) -> Result<Value, EvalError> {
        match (self, other) {
            (SimplePayload::Int(n), Value::Int(m)) => if i64::MIN <= *n + m <= i64::MAX {
                Ok(Value::Int((*n + m) as i64))
            } else {
                Err(EvalError::Overflow)
            },
            _ => Err(EvalError::Unsupported),
        }
    }

    open spec fn sub_spec(&self, other: Value) -> Result<Value, EvalError> {
        match (self, other) {
            (SimplePayload::Int(n), Value::Int(m)) => if i64::MIN <= *n - m <= i64::MAX {
                Ok(Value::Int((*n - m) as i64))
            } else {
                Err(EvalError::Overflow)
            },
            _ => Err(EvalError::Unsupported),
        }
    }

    open spec fn mul_spec(&self, other: Value) -> Result<Value, EvalError> {
        match (self, other) {
            (SimplePayload::Int(n), Value::Int(m)) => if i64::MIN <= *n * m <= i64::MAX {
                Ok(Value::Int((*n * m) as i64))
            } else {
                Err(EvalError::Overflow)
            },
            _ => Err(EvalError::Unsupported),
        }
    }

    open spec fn percent_spec(&self, other: Value) -> Result<Value, EvalError> {
        match (self, other) {
            (SimplePayload::Int(n), Value::Int(m)) => if m == 0 {
                Err(EvalError::DivisionByZero)
            } else {
                Ok(Value::Int(floor_mod_int(*n as int, m as int) as i64))
            },
            _ => Err(EvalError::Unsupported),
        }
    }

    open spec fn floor_div_spec(&self, other: Value) -> Result<Value, EvalError> {
        match (self, other) {
            (SimplePayload::Int(n), Value::Int(m)) => if m == 0 {
                Err(EvalError::DivisionByZero)
            } else if *n == i64::MIN && m == -1 {
                Err(EvalError::Overflow)
            } else {
                Ok(Value::Int(floor_div_int(*n as int, m as int) as i64))
            },
            _ => Err(EvalError::Unsupported),
        }
    }

    open spec fn bit_and_spec(&self, other: Value) -> Result<Value, EvalError> {
        match (self, other) {
            (SimplePayload::Int(n), Value::Int(m)) => Ok(Value::Int(*n & m)),
            _ => Err(EvalError::Unsupported),
        }
    }

    open spec fn bit_or_spec(&self, other: Value) -> Result<Value, EvalError> {
        match (self, other) {
            (SimplePayload::Int(n), Value::Int(m)) => Ok(Value::Int(*n | m)),
            _ => Err(EvalError::Unsupported),
        }
    }

    open spec fn bit_xor_spec(&self, other: Value) -> Result<Value, EvalError> {
        match (self, other) {
            (SimplePayload::Int(n), Value::Int(m)) => Ok(Value::Int(*n ^ m)),
            _ => Err(EvalError::Unsupported),
        }
    }

    open spec fn left_shift_spec(&self, other: Value) -> Result<Value, EvalError> {
        match (self, other) {
            (SimplePayload::Int(n), Value::Int(m)) => if 0 <= m < 64 {
                Ok(Value::Int(*n << m))
            } else {
                Err(EvalError::Overflow)
            },
            _ => Err(EvalError::Unsupported),
        }
    }

    open spec fn right_shift_spec(&self, other: Value) -> Result<Value, EvalError> {
        match (self, other) {
            (SimplePayload::Int(n), Value::Int(m)) => if 0 <= m < 64 {
                Ok(Value::Int(*n >> m))
            } else {
                Err(EvalError::Overflow)
            },
            _ => Err(EvalError::Unsupported),
        }
    }

    open spec fn export_as_spec(&self, variable_name: Seq<char>, eval: Evaluator) -> Evaluator {
        eval
    }

    open spec fn set_at_spec(&self, index: Value, new_value: Value) -> Result<(), EvalError> {
        Err(EvalError::Immutable)
    }

    open spec fn set_at_rel(&self, index: Value, new_value: Value, post: Self) -> bool {
        post == *self
    }

    open spec fn set_attr_spec(&self, attribute: Seq<char>, new_value: Value) -> Result<
        (),
        EvalError,
    > {
        Err(EvalError::Immutable)
    }

    open spec fn set_attr_rel(&self, attribute: Seq<char>, new_value: Value, post: Self) -> bool {
        post == *self
    }

    fn static_type_id() -> (r: u64) {
        1
    }

    fn static_type_of(&self) -> (r: u64) {
        1
    }

    fn get_type(&self) -> (r: String) {
        match self {
            SimplePayload::Bool(_) => String::from_str("bool"),
            SimplePayload::Int(_) => String::from_str("int"),
            SimplePayload::Str(_) => String::from_str("string"),
            SimplePayload::FrozenCounter { .. } => String::from_str("counter"),
            SimplePayload::FrozenList(_) => String::from_str("list"),
        }
    }

    fn get_type_value(&self) -> (r: ConstFrozenValue) {
        ConstFrozenValue { text: self.get_type() }
    }

    fn matches_type(&self, ty: &str) -> (r: bool) {
        let name = self.get_type();
        str_eq(ty, name.as_str())
    }

    fn get_methods(&self) -> (r: Option<Globals>) {
        None
    }

    fn collect_repr(&self, collector: &mut String) {
        match self {
            SimplePayload::Bool(b) => {
                if *b {
                    collector.append("True");
                } else {
                    collector.append("False");
                }
            }
            SimplePayload::Int(n) => {
                push_i64_dec(*n, collector);
            }
            SimplePayload::Str(s) => {
                collector.append("\"");
                collector.append(s.as_str());
                collector.append("\"");
                proof {
                    reveal_strlit("\"");
                    assert(collector@ =~= old(collector)@ + self.repr_spec());
                }
            }
            SimplePayload::FrozenCounter { count, .. } => {
                collector.append("counter(");
                push_i64_dec(*count, collector);
                collector.append(")");
                proof {
                    assert(collector@ =~= old(collector)@ + self.repr_spec());
                }
            }
            SimplePayload::FrozenList(_) => {
                collector.append("[...]");
            }
        }
    }

    fn to_json(&self) -> (r: Result<String, EvalError>) {
        match self {
            SimplePayload::Bool(b) => {
                if *b {
                    Ok(String::from_str("true"))
                } else {
                    Ok(String::from_str("false"))
                }
            }
            SimplePayload::Int(n) => {
                let mut out = String::new();
                push_i64_dec(*n, &mut out);
                proof {
                    assert(out@ =~= i64_dec(*n as int));
                }
                Ok(out)
            }
            SimplePayload::Str(s) => {
                let mut out = String::from_str("\"");
                out.append(s.as_str());
                out.append("\"");
                proof {
                    reveal_strlit("\"");
                    assert(out@ =~= seq!['"'] + s@ + seq!['"']);
                }
                Ok(out)
            }
            SimplePayload::FrozenCounter { .. } => Err(EvalError::Unsupported),
            SimplePayload::FrozenList(_) => Err(EvalError::Unsupported),
        }
    }

    fn to_bool(&self) -> (r: bool) {
        match self {
            SimplePayload::Bool(b) => *b,
            SimplePayload::Int(n) => *n != 0,
            SimplePayload::Str(s) => !s.as_str().is_empty(),
            SimplePayload::FrozenCounter { .. } => true,
            SimplePayload::FrozenList(l) => l.len() > 0,
        }
    }

    fn to_int(&self) -> (r: Result<i32, EvalError>) {
        match self {
            SimplePayload::Int(n) => {
                if -2147483648i64 <= *n && *n <= 2147483647i64 {
                    Ok(*n as i32)
                } else {
                    Err(EvalError::Overflow)
                }
            }
            SimplePayload::Bool(b) => {
                if *b {
                    Ok(1)
                } else {
                    Ok(0)
                }
            }
            SimplePayload::FrozenCounter { count, .. } => {
                if -2147483648i64 <= *count && *count <= 2147483647i64 {
                    Ok(*count as i32)
                } else {
                    Err(EvalError::Overflow)
                }
            }
            _ => Err(EvalError::Unsupported),
        }
    }

    fn get_hash(&self) -> (r: Result<u64, EvalError>) {
        match self {
            SimplePayload::Bool(b) => {
                if *b {
                    Ok(1)
                } else {
                    Ok(0)
                }
            }
            SimplePayload::Int(n) => Ok(#[verifier::truncate] (*n as u64)),
            SimplePayload::Str(s) => Ok(hash_chars(s.as_str()) as u64),
            SimplePayload::FrozenCounter { .. } => Err(EvalError::Unhashable),
            SimplePayload::FrozenList(_) => Err(EvalError::Unhashable),
        }
    }

    fn equals(&self, other: &Value) -> (r: Result<bool, EvalError>) {
        match (self, other) {
            (SimplePayload::Bool(b), Value::Bool(c)) => Ok(*b == *c),
            (SimplePayload::Int(n), Value::Int(m)) => Ok(*n == *m),
            (SimplePayload::Str(s), Value::Str(t)) => Ok(*s == *t),
            _ => Ok(false),
        }
    }

    fn compare(&self, other: &Value) -> (r: Result<Ordering, EvalError>) {
        match (self, other) {
            (SimplePayload::Int(n), Value::Int(m)) => {
                if *n < *m {
                    Ok(Ordering::Less)
                } else if *n == *m {
                    Ok(Ordering::Equal)
                } else {
                    Ok(Ordering::Greater)
                }
            }
            (SimplePayload::Str(s), Value::Str(t)) => Ok(lex_cmp(s.as_str(), t.as_str())),
            _ => Err(EvalError::Unsupported),
        }
    }

    fn invoke(
        &self,
        me: &Value,
        location: Option<Span>,
        params: &Parameters,
        eval: &mut Evaluator,
    ) -> (r: Result<Value, EvalError>) {
        Err(EvalError::NotCallable)
    }

    fn at(&self, index: &Value) -> (r: Result<Value, EvalError>) {
        match (self, index) {
            (SimplePayload::FrozenList(l), Value::Int(i)) => {
                if 0 <= *i && (*i as u64) < (l.len() as u64) {
                    Ok(Value::FrozenRef(l[*i as usize]))
                } else {
                    Err(EvalError::OutOfBounds)
                }
            }
            _ => Err(EvalError::Unsupported),
        }
    }

    fn slice(
        &self,
        start: Option<&Value>,
        stop: Option<&Value>,
        stride: Option<&Value>,
    ) -> (r: Result<Value, EvalError>) {
        Err(EvalError::Unsupported)
    }

    fn iterate(&self) -> (r: Result<Vec<Value>, EvalError>) {
        match self {
            SimplePayload::FrozenList(l) => {
                let mut out: Vec<Value> = Vec::new();
                let n = l.len();
                let mut i: usize = 0;
                while i < n
                    invariant
                        n == l@.len(),
                        i <= n,
                        out@.len() == i,
                        forall|j: int| 0 <= j < i ==> out@[j] == Value::FrozenRef(l@[j]),
                    decreases n - i,
                {
                    out.push(Value::FrozenRef(l[i]));
                    i = i + 1;
                }
                proof {
                    assert(out@ =~= Seq::new(l@.len(), |j: int| Value::FrozenRef(l@[j])));
                }
                Ok(out)
            }
            _ => Err(EvalError::Unsupported),
        }
    }

    fn length(&self) -> (r: Result<i32, EvalError>) {
        match self {
            SimplePayload::Str(s) => {
                let n = s.as_str().unicode_len();
                if n <= 2147483647usize {
                    Ok(n as i32)
                } else {
                    Err(EvalError::Overflow)
                }
            }
            SimplePayload::FrozenList(l) => {
                let n = l.len();
                if n <= 2147483647usize {
                    Ok(n as i32)
                } else {
                    Err(EvalError::Overflow)
                }
            }
            _ => Err(EvalError::Unsupported),
        }
    }

    fn get_attr(&self, attribute: &str) -> (r: Option<Value>) {
        match self {
            SimplePayload::FrozenCounter { count, .. } => {
                if str_eq(attribute, "count") {
                    Some(Value::Int(*count))
                } else {
                    None
                }
            }
            _ => None,
        }
    }

    fn has_attr(&self, attribute: &str) -> (r: bool) {
        match self.get_attr(attribute) {
            Some(_) => true,
            None => false,
        }
    }

    fn dir_attr(&self) -> (r: Vec<String>) {
        match self {
            SimplePayload::FrozenCounter { .. } => {
                let mut out: Vec<String> = Vec::new();
                out.push(String::from_str("count"));
                proof {
                    assert(out.deep_view() =~= self.dir_attr_spec());
                }
                out
            }
            _ => {
                let out: Vec<String> = Vec::new();
                proof {
                    assert(out.deep_view() =~= self.dir_attr_spec());
                }
                out
            }
        }
    }

    fn is_in(&self, other: &Value) -> (r: Result<bool, EvalError>) {
        match self {
            SimplePayload::FrozenList(l) => {
                match other {
                    Value::FrozenRef(j) => Ok(contains_ref(l, *j)),
                    _ => Ok(false),
                }
            }
            SimplePayload::Str(s) => {
                match other {
                    Value::Str(t) => Ok(str_contains(s.as_str(), t.as_str())),
                    _ => Err(EvalError::Unsupported),
                }
            }
            _ => Err(EvalError::Unsupported),
        }
    }

    fn plus(&self) -> (r: Result<Value, EvalError>) {
        match self {
            SimplePayload::Int(n) => Ok(Value::Int(*n)),
            _ => Err(EvalError::Unsupported),
        }
    }

    fn minus(&self) -> (r: Result<Value, EvalError>) {
        match self {
            SimplePayload::Int(n) => {
                if *n == i64::MIN {
                    Err(EvalError::Overflow)
                } else {
                    Ok(Value::Int(-*n))
                }
            }
            _ => Err(EvalError::Unsupported),
        }
    }

    fn radd(&self, lhs: &Value) -> (r: Option<Result<Value, EvalError>>) {
        None
    }

    fn add(&self, other: &Value) -> (r: Result<Value, EvalError>) {
        match (self, other) {
            (SimplePayload::Int(n), Value::Int(m)) => {
                match n.checked_add(*m) {
                    Some(s) => Ok(Value::Int(s)),
                    None => Err(EvalError::Overflow),
                }
            }
            _ => Err(EvalError::Unsupported),
        }
    }

    fn sub(&self, other: &Value) -> (r: Result<Value, EvalError>) {
        match (self, other) {
            (SimplePayload::Int(n), Value::Int(m)) => {
                match n.checked_sub(*m) {
                    Some(s) => Ok(Value::Int(s)),
                    None => Err(EvalError::Overflow),
                }
            }
            _ => Err(EvalError::Unsupported),
        }
    }

    fn mul(&self, other: &Value) -> (r: Result<Value, EvalError>) {
        match (self, other) {
            (SimplePayload::Int(n), Value::Int(m)) => {
                match n.checked_mul(*m) {
                    Some(s) => Ok(Value::Int(s)),
                    None => Err(EvalError::Overflow),
                }
            }
            _ => Err(EvalError::Unsupported),
        }
    }

    fn percent(&self, other: &Value) -> (r: Result<Value, EvalError>) {
        match (self, other) {
            (SimplePayload::Int(n), Value::Int(m)) => {
                if *m == 0 {
                    Err(EvalError::DivisionByZero)
                } else if *n == i64::MIN && *m == -1 {
                    proof {
                        lemma_fundamental_div_mod_converse(
                            9223372036854775808int,
                            1int,
                            9223372036854775808int,
                            0int,
                        );
                        assert(floor_mod_int(*n as int, *m as int) == 0);
                    }
                    Ok(Value::Int(0))
                } else {
                    let qr = i64_floor_div_mod(*n, *m);
                    Ok(Value::Int(qr.1))
                }
            }
            _ => Err(EvalError::Unsupported),
        }
    }

    fn floor_div(&self, other: &Value) -> (r: Result<Value, EvalError>) {
        match (self, other) {
            (SimplePayload::Int(n), Value::Int(m)) => {
                if *m == 0 {
                    Err(EvalError::DivisionByZero)
                } else if *n == i64::MIN && *m == -1 {
                    Err(EvalError::Overflow)
                } else {
                    let qr = i64_floor_div_mod(*n, *m);
                    Ok(Value::Int(qr.0))
                }
            }
            _ => Err(EvalError::Unsupported),
        }
    }

    fn bit_and(&self, other: &Value) -> (r: Result<Value, EvalError>) {
        match (self, other) {
            (SimplePayload::Int(n), Value::Int(m)) => Ok(Value::Int(*n & *m)),
            _ => Err(EvalError::Unsupported),
        }
    }

    fn bit_or(&self, other: &Value) -> (r: Result<Value, EvalError>) {
        match (self, other) {
            (SimplePayload::Int(n), Value::Int(m)) => Ok(Value::Int(*n | *m)),
            _ => Err(EvalError::Unsupported),
        }
    }

    fn bit_xor(&self, other: &Value) -> (r: Result<Value, EvalError>) {
        match (self, other) {
            (SimplePayload::Int(n), Value::Int(m)) => Ok(Value::Int(*n ^ *m)),
            _ => Err(EvalError::Unsupported),
        }
    }

    fn left_shift(&self, other: &Value) -> (r: Result<Value, EvalError>) {
        match (self, other) {
            (SimplePayload::Int(n), Value::Int(m)) => {
                if 0 <= *m && *m < 64 {
                    Ok(Value::Int(*n << *m))
                } else {
                    Err(EvalError::Overflow)
                }
            }
            _ => Err(EvalError::Unsupported),
        }
    }

    fn right_shift(&self, other: &Value) -> (r: Result<Value, EvalError>) {
        match (self, other) {
            (SimplePayload::Int(n), Value::Int(m)) => {
                if 0 <= *m && *m < 64 {
                    Ok(Value::Int(*n >> *m))
                } else {
                    Err(EvalError::Overflow)
                }
            }
            _ => Err(EvalError::Unsupported),
        }
    }

    fn export_as(&self, variable_name: &str, eval: &mut Evaluator) {
    }

    fn set_at(&mut self, index: &Value, new_value: &Value) -> (r: Result<(), EvalError>) {
        Err(EvalError::Immutable)
    }

    fn set_attr(&mut self, attribute: &str, new_value: &Value) -> (r: Result<(), EvalError>) {
        Err(EvalError::Immutable)
    }
}

impl SimpleValue for SimplePayload {

}

/// A possibly complex payload: it may hold references into the mutable
/// heap, shows them to the collector, and freezes into its
/// [`SimplePayload`] counterpart.
#[derive(Debug, PartialEq)]
pub enum ComplexPayload {
    /// A mutable counter that may hold a reference to another heap value.
    Counter { count: i64, inner: Option<usize> },
    /// A mutable list of heap references.
    List(Vec<usize>),
    /// A transient working value whose freeze hook always refuses: it
    /// stands for payloads that cannot outlive the mutable phase.
    Ephemeral(u64),
}

impl StarlarkValue for ComplexPayload {
    open spec fn type_tag_spec() -> u64 {
        2
    }

    open spec fn get_type_spec(&self) -> Seq<char> {
        match self {
            ComplexPayload::Counter { .. } => "counter"@,
            ComplexPayload::List(_) => "list"@,
            ComplexPayload::Ephemeral(_) => "ephemeral"@,
        }
    }

    open spec fn matches_type_spec(&self, ty: Seq<char>) -> bool {
        ty == self.get_type_spec()
    }

    open spec fn get_methods_spec(&self) -> Option<Globals> {
        None
    }

    open spec fn repr_spec(&self) -> Seq<char> {
        match self {
            ComplexPayload::Counter { count, .. } => "counter("@ + i64_dec(*count as int) + ")"@,
            ComplexPayload::List(_) => "[...]"@,
            ComplexPayload::Ephemeral(_) => "ephemeral"@,
        }
    }

    open spec fn to_json_spec(&self) -> Result<Seq<char>, EvalError> {
        Err(EvalError::Unsupported)
    }

    open spec fn to_bool_spec(&self) -> bool {
        match self {
            ComplexPayload::Counter { .. } => true,
            ComplexPayload::List(l) => l@.len() > 0,
            ComplexPayload::Ephemeral(_) => true,
        }
    }

    open spec fn to_int_spec(&self) -> Result<i32, EvalError> {
        match self {
            ComplexPayload::Counter { count, .. } => if -2147483648 <= *count <= 2147483647 {
                Ok(*count as i32)
            } else {
                Err(EvalError::Overflow)
            },
            _ => Err(EvalError::Unsupported),
        }
    }

    open spec fn get_hash_spec(&self) -> Result<u64, EvalError> {
        Err(EvalError::Unhashable)
    }

    open spec fn equals_spec(&self, other: Value) -> Result<bool, EvalError> {
        Ok(false)
    }

    open spec fn compare_spec(&self, other: Value) -> Result<Ordering, EvalError> {
        Err(EvalError::Unsupported)
    }

    open spec fn invoke_spec(&self, me: Value, location: Option<Span>, params: Parameters) -> Result<
        Value,
        EvalError,
    > {
        Err(EvalError::NotCallable)
    }

    open spec fn invoke_eval_spec(
        &self,
        me: Value,
        location: Option<Span>,
        params: Parameters,
        eval: Evaluator,
    ) -> Evaluator {
        eval
    }

    open spec fn at_spec(&self, index: Value) -> Result<Value, EvalError> {
        match (self, index) {
            (ComplexPayload::List(l), Value::Int(i)) => if 0 <= i < l@.len() {
                Ok(Value::Ref(l@[i as int]))
            } else {
                Err(EvalError::OutOfBounds)
            },
            _ => Err(EvalError::Unsupported),
        }
    }

    open spec fn slice_spec(
        &self,
        start: Option<Value>,
        stop: Option<Value>,
        stride: Option<Value>,
    ) -> Result<Value, EvalError> {
        Err(EvalError::Unsupported)
    }

    open spec fn iterate_spec(&self) -> Result<Seq<Value>, EvalError> {
        match self {
            ComplexPayload::List(l) => Ok(Seq::new(l@.len(), |i: int| Value::Ref(l@[i]))),
            _ => Err(EvalError::Unsupported),
        }
    }

    open spec fn length_spec(&self) -> Result<i32, EvalError> {
        match self {
            ComplexPayload::List(l) => if l@.len() <= 2147483647 {
                Ok(l@.len() as i32)
            } else {
                Err(EvalError::Overflow)
            },
            _ => Err(EvalError::Unsupported),
        }
    }

    open spec fn get_attr_spec(&self, attribute: Seq<char>) -> Option<Value> {
        match self {
            ComplexPayload::Counter { count, .. } => if attribute == "count"@ {
                Some(Value::Int(*count))
            } else {
                None
            },
            _ => None,
        }
    }

    open spec fn has_attr_spec(&self, attribute: Seq<char>) -> bool {
        self.get_attr_spec(attribute) is Some
    }

    open spec fn dir_attr_spec(&self) -> Seq<Seq<char>> {
        match self {
            ComplexPayload::Counter { .. } => seq!["count"@],
            _ => Seq::empty(),
        }
    }

    open spec fn is_in_spec(&self, other: Value) -> Result<bool, EvalError> {
        match self {
            ComplexPayload::List(l) => match other {
                Value::Ref(j) => Ok(l@.contains(j)),
                _ => Ok(false),
            },
            _ => Err(EvalError::Unsupported),
        }
    }

    open spec fn plus_spec(&self) -> Result<Value, EvalError> {
        Err(EvalError::Unsupported)
    }

    open spec fn minus_spec(&self) -> Result<Value, EvalError> {
        Err(EvalError::Unsupported)
    }

    open spec fn radd_spec(&self, lhs: Value) -> Option<Result<Value, EvalError>> {
        None
    }

    open spec fn add_spec(&self, other: Value) -> Result<Value, EvalError> {
        Err(EvalError::Unsupported)
    }

    open spec fn sub_spec(&self, other: Value) -> Result<Value, EvalError> {
        Err(EvalError::Unsupported)
    }

    open spec fn mul_spec(&self, other: Value) -> Result<Value, EvalError> {
        Err(EvalError::Unsupported)
    }

    open spec fn percent_spec(&self, other: Value) -> Result<Value, EvalError> {
        Err(EvalError::Unsupported)
    }

    open spec fn floor_div_spec(&self, other: Value) -> Result<Value, EvalError> {
        Err(EvalError::Unsupported)
    }

    open spec fn bit_and_spec(&self, other: Value) -> Result<Value, EvalError> {
        Err(EvalError::Unsupported)
    }

    open spec fn bit_or_spec(&self, other: Value) -> Result<Value, EvalError> {
        Err(EvalError::Unsupported)
    }

    open spec fn bit_xor_spec(&self, other: Value) -> Result<Value, EvalError> {
        Err(EvalError::Unsupported)
    }

    open spec fn left_shift_spec(&self, other: Value) -> Result<Value, EvalError> {
        Err(EvalError::Unsupported)
    }

    open spec fn right_shift_spec(&self, other: Value) -> Result<Value, EvalError> {
        Err(EvalError::Unsupported)
    }

    open spec fn export_as_spec(&self, variable_name: Seq<char>, eval: Evaluator) -> Evaluator {
        eval
    }

    open spec fn set_at_spec(&self, index: Value, new_value: Value) -> Result<(), EvalError> {
        match (self, index, new_value) {
            (ComplexPayload::List(l), Value::Int(i), Value::Ref(_)) => if 0 <= i < l@.len() {
                Ok(())
            } else {
                Err(EvalError::OutOfBounds)
            },
            (ComplexPayload::List(_), _, _) => Err(EvalError::Unsupported),
            _ => Err(EvalError::Unsupported),
        }
    }

    open spec fn set_at_rel(&self, index: Value, new_value: Value, post: Self) -> bool {
        match (self, index, new_value) {
            (ComplexPayload::List(l), Value::Int(i), Value::Ref(j)) => if 0 <= i < l@.len() {
                post matches ComplexPayload::List(l2) && l2@ == l@.update(i as int, j)
            } else {
                post == *self
            },
            _ => post == *self,
        }
    }

    open spec fn set_attr_spec(&self, attribute: Seq<char>, new_value: Value) -> Result<
        (),
        EvalError,
    > {
        match self {
            ComplexPayload::Counter { .. } => if attribute == "count"@ {
                match new_value {
                    Value::Int(_) => Ok(()),
                    _ => Err(EvalError::Unsupported),
                }
            } else {
                Err(EvalError::NoAttribute)
            },
            _ => Err(EvalError::Unsupported),
        }
    }

    open spec fn set_attr_rel(&self, attribute: Seq<char>, new_value: Value, post: Self) -> bool {
        match self {
            ComplexPayload::Counter { count, inner } => if attribute == "count"@ {
                match new_value {
                    Value::Int(n) => post == (ComplexPayload::Counter { count: n, inner: *inner }),
                    _ => post == *self,
                }
            } else {
                post == *self
            },
            _ => post == *self,
        }
    }

    fn static_type_id() -> (r: u64) {
        2
    }

    fn static_type_of(&self) -> (r: u64) {
        2
    }

    fn get_type(&self) -> (r: String) {
        match self {
            ComplexPayload::Counter { .. } => String::from_str("counter"),
            ComplexPayload::List(_) => String::from_str("list"),
            ComplexPayload::Ephemeral(_) => String::from_str("ephemeral"),
        }
    }

    fn get_type_value(&self) -> (r: ConstFrozenValue) {
        ConstFrozenValue { text: self.get_type() }
    }

    fn matches_type(&self, ty: &str) -> (r: bool) {
        let name = self.get_type();
        str_eq(ty, name.as_str())
    }

    fn get_methods(&self) -> (r: Option<Globals>) {
        None
    }

    fn collect_repr(&self, collector: &mut String) {
        match self {
            ComplexPayload::Counter { count, .. } => {
                collector.append("counter(");
                push_i64_dec(*count, collector);
                collector.append(")");
                proof {
                    assert(collector@ =~= old(collector)@ + self.repr_spec());
                }
            }
            ComplexPayload::List(_) => {
                collector.append("[...]");
            }
            ComplexPayload::Ephemeral(_) => {
                collector.append("ephemeral");
            }
        }
    }

    fn to_json(&self) -> (r: Result<String, EvalError>) {
        Err(EvalError::Unsupported)
    }

    fn to_bool(&self) -> (r: bool) {
        match self {
            ComplexPayload::Counter { .. } => true,
            ComplexPayload::List(l) => l.len() > 0,
            ComplexPayload::Ephemeral(_) => true,
        }
    }

    fn to_int(&self) -> (r: Result<i32, EvalError>) {
        match self {
            ComplexPayload::Counter { count, .. } => {
                if -2147483648i64 <= *count && *count <= 2147483647i64 {
                    Ok(*count as i32)
                } else {
                    Err(EvalError::Overflow)
                }
            }
            _ => Err(EvalError::Unsupported),
        }
    }

    fn get_hash(&self) -> (r: Result<u64, EvalError>) {
        Err(EvalError::Unhashable)
    }

    fn equals(&self, other: &Value) -> (r: Result<bool, EvalError>) {
        Ok(false)
    }

    fn compare(&self, other: &Value) -> (r: Result<Ordering, EvalError>) {
        Err(EvalError::Unsupported)
    }

    fn invoke(
        &self,
        me: &Value,
        location: Option<Span>,
        params: &Parameters,
        eval: &mut Evaluator,
    ) -> (r: Result<Value, EvalError>) {
        Err(EvalError::NotCallable)
    }

    fn at(&self, index: &Value) -> (r: Result<Value, EvalError>) {
        match (self, index) {
            (ComplexPayload::List(l), Value::Int(i)) => {
                if 0 <= *i && (*i as u64) < (l.len() as u64) {
                    Ok(Value::Ref(l[*i as usize]))
                } else {
                    Err(EvalError::OutOfBounds)
                }
            }
            _ => Err(EvalError::Unsupported),
        }
    }

    fn slice(
        &self,
        start: Option<&Value>,
        stop: Option<&Value>,
        stride: Option<&Value>,
    ) -> (r: Result<Value, EvalError>) {
        Err(EvalError::Unsupported)
    }

    fn iterate(&self) -> (r: Result<Vec<Value>, EvalError>) {
        match self {
            ComplexPayload::List(l) => {
                let mut out: Vec<Value> = Vec::new();
                let n = l.len();
                let mut i: usize = 0;
                while i < n
                    invariant
                        n == l@.len(),
                        i <= n,
                        out@.len() == i,
                        forall|j: int| 0 <= j < i ==> out@[j] == Value::Ref(l@[j]),
                    decreases n - i,
                {
                    out.push(Value::Ref(l[i]));
                    i = i + 1;
                }
                proof {
                    assert(out@ =~= Seq::new(l@.len(), |j: int| Value::Ref(l@[j])));
                }
                Ok(out)
            }
            _ => Err(EvalError::Unsupported),
        }
    }

    fn length(&self) -> (r: Result<i32, EvalError>) {
        match self {
            ComplexPayload::List(l) => {
                let n = l.len();
                if n <= 2147483647usize {
                    Ok(n as i32)
                } else {
                    Err(EvalError::Overflow)
                }
            }
            _ => Err(EvalError::Unsupported),
        }
    }

    fn get_attr(&self, attribute: &str) -> (r: Option<Value>) {
        match self {
            ComplexPayload::Counter { count, .. } => {
                if str_eq(attribute, "count") {
                    Some(Value::Int(*count))
                } else {
                    None
                }
            }
            _ => None,
        }
    }

    fn has_attr(&self, attribute: &str) -> (r: bool) {
        match self.get_attr(attribute) {
            Some(_) => true,
            None => false,
        }
    }

    fn dir_attr(&self) -> (r: Vec<String>) {
        match self {
            ComplexPayload::Counter { .. } => {
                let mut out: Vec<String> = Vec::new();
                out.push(String::from_str("count"));
                proof {
                    assert(out.deep_view() =~= self.dir_attr_spec());
                }
                out
            }
            _ => {
                let out: Vec<String> = Vec::new();
                proof {
                    assert(out.deep_view() =~= self.dir_attr_spec());
                }
                out
            }
        }
    }

    fn is_in(&self, other: &Value) -> (r: Result<bool, EvalError>) {
        match self {
            ComplexPayload::List(l) => {
                match other {
                    Value::Ref(j) => Ok(contains_ref(l, *j)),
                    _ => Ok(false),
                }
            }
            _ => Err(EvalError::Unsupported),
        }
    }

    fn plus(&self) -> (r: Result<Value, EvalError>) {
        Err(EvalError::Unsupported)
    }

    fn minus(&self) -> (r: Result<Value, EvalError>) {
        Err(EvalError::Unsupported)
    }

    fn radd(&self, lhs: &Value) -> (r: Option<Result<Value, EvalError>>) {
        None
    }

    fn add(&self, other: &Value) -> (r: Result<Value, EvalError>) {
        Err(EvalError::Unsupported)
    }

    fn sub(&self, other: &Value) -> (r: Result<Value, EvalError>) {
        Err(EvalError::Unsupported)
    }

    fn mul(&self, other: &Value) -> (r: Result<Value, EvalError>) {
        Err(EvalError::Unsupported)
    }

    fn percent(&self, other: &Value) -> (r: Result<Value, EvalError>) {
        Err(EvalError::Unsupported)
    }

    fn floor_div(&self, other: &Value) -> (r: Result<Value, EvalError>) {
        Err(EvalError::Unsupported)
    }

    fn bit_and(&self, other: &Value) -> (r: Result<Value, EvalError>) {
        Err(EvalError::Unsupported)
    }

    fn bit_or(&self, other: &Value) -> (r: Result<Value, EvalError>) {
        Err(EvalError::Unsupported)
    }

    fn bit_xor(&self, other: &Value) -> (r: Result<Value, EvalError>) {
        Err(EvalError::Unsupported)
    }

    fn left_shift(&self, other: &Value) -> (r: Result<Value, EvalError>) {
        Err(EvalError::Unsupported)
    }

    fn right_shift(&self, other: &Value) -> (r: Result<Value, EvalError>) {
        Err(EvalError::Unsupported)
    }

    fn export_as(&self, variable_name: &str, eval: &mut Evaluator) {
    }

    fn set_at(&mut self, index: &Value, new_value: &Value) -> (r: Result<(), EvalError>) {
        match self {
            ComplexPayload::List(l) => {
                match (index, new_value) {
                    (Value::Int(i), Value::Ref(j)) => {
                        if 0 <= *i && (*i as u64) < (l.len() as u64) {
                            let ui = *i as usize;
                            let dest = &mut l[ui];
                            *dest = *j;
                            Ok(())
                        } else {
                            Err(EvalError::OutOfBounds)
                        }
                    }
                    _ => Err(EvalError::Unsupported),
                }
            }
            _ => Err(EvalError::Unsupported),
        }
    }

    fn set_attr(&mut self, attribute: &str, new_value: &Value) -> (r: Result<(), EvalError>) {
        match self {
            ComplexPayload::Counter { count, .. } => {
                if str_eq(attribute, "count") {
                    match new_value {
                        Value::Int(n) => {
                            *count = *n;
                            Ok(())
                        }
                        _ => Err(EvalError::Unsupported),
                    }
                } else {
                    Err(EvalError::NoAttribute)
                }
            }
            _ => Err(EvalError::Unsupported),
        }
    }
}

impl ComplexValue for ComplexPayload {
    type Frozen = SimplePayload;

    open spec fn refs_spec(&self) -> Seq<usize> {
        match self {
            ComplexPayload::Counter { inner, .. } => match inner {
                Some(r) => seq![*r],
                None => Seq::empty(),
            },
            ComplexPayload::List(l) => l@,
            ComplexPayload::Ephemeral(_) => Seq::empty(),
        }
    }

    fn trace(&mut self, tracer: &mut Tracer) {
        match &*self {
            ComplexPayload::Counter { inner, .. } => {
                match inner {
                    Some(r) => {
                        tracer.visit(*r);
                        proof {
                            assert(final(tracer).visited@ =~= old(tracer).visited@ + old(
                                self,
                            ).refs_spec());
                        }
                    }
                    None => {
                        proof {
                            assert(final(tracer).visited@ =~= old(tracer).visited@ + old(
                                self,
                            ).refs_spec());
                        }
                    }
                }
            }
            ComplexPayload::List(l) => {
                visit_all(l, tracer);
            }
            ComplexPayload::Ephemeral(_) => {
                proof {
                    assert(final(tracer).visited@ =~= old(tracer).visited@ + old(
                        self,
                    ).refs_spec());
                }
            }
        }
    }

    open spec fn freeze_ok_spec(&self, memo: Seq<Option<usize>>) -> bool {
        match self {
            ComplexPayload::Counter { inner, .. } => match inner {
                Some(r) => memo_lookup(memo, *r) is Some,
                None => true,
            },
            ComplexPayload::List(l) => forall|i: int|
                0 <= i < l@.len() ==> memo_lookup(memo, #[trigger] l@[i]) is Some,
            ComplexPayload::Ephemeral(_) => false,
        }
    }

    open spec fn frozen_rel(&self, memo: Seq<Option<usize>>, out: SimplePayload) -> bool {
        match self {
            ComplexPayload::Counter { count, inner } => match inner {
                Some(r) => out == (SimplePayload::FrozenCounter {
                    count: *count,
                    inner: memo_lookup(memo, *r),
                }),
                None => out == (SimplePayload::FrozenCounter { count: *count, inner: None }),
            },
            ComplexPayload::List(l) => out matches SimplePayload::FrozenList(l2) && l2@.len()
                == l@.len() && (forall|i: int|
                0 <= i < l@.len() ==> memo_lookup(memo, #[trigger] l@[i]) == Some(l2@[i])),
            ComplexPayload::Ephemeral(_) => false,
        }
    }

    open spec fn freeze_err_spec(&self, memo: Seq<Option<usize>>) -> FreezeError {
        match self {
            ComplexPayload::Ephemeral(_) => FreezeError::Unfreezable,
            _ => FreezeError::Unresolved,
        }
    }

    fn freeze(self, freezer: &Freezer) -> (r: Result<SimplePayload, FreezeError>) {
        match self {
            ComplexPayload::Counter { count, inner } => {
                match inner {
                    None => Ok(SimplePayload::FrozenCounter { count, inner: None }),
                    Some(r) => {
                        match freezer.freeze(r) {
                            Ok(j) => Ok(SimplePayload::FrozenCounter { count, inner: Some(j) }),
                            Err(e) => Err(e),
                        }
                    }
                }
            }
            ComplexPayload::List(l) => {
                match freeze_refs(&l, freezer) {
                    Ok(out) => Ok(SimplePayload::FrozenList(out)),
                    Err(e) => Err(e),
                }
            }
            ComplexPayload::Ephemeral(_) => Err(FreezeError::Unfreezable),
        }
    }
}

/// A payload's freeze outcome depends on the memo table only at the
/// references the payload holds: two tables that agree there decide
/// success, result and error alike.
pub proof fn lemma_freeze_memo_agree(
    p: ComplexPayload,
    m1: Seq<Option<usize>>,
    m2: Seq<Option<usize>>,
)
    requires
        forall|k: int|
            0 <= k < p.refs_spec().len() ==> memo_lookup(m1, #[trigger] p.refs_spec()[k])
                == memo_lookup(m2, p.refs_spec()[k]),
    ensures
        p.freeze_ok_spec(m1) == p.freeze_ok_spec(m2),
        forall|out: SimplePayload| #[trigger]
            p.frozen_rel(m1, out) == p.frozen_rel(m2, out),
        p.freeze_err_spec(m1) == p.freeze_err_spec(m2),
{
    match p {
        ComplexPayload::Counter { count, inner } => {
            match inner {
                Some(r) => {
                    assert(p.refs_spec()[0] == r);
                    assert(memo_lookup(m1, r) == memo_lookup(m2, r));
                }
                None => {
                }
            }
        }
        ComplexPayload::List(l) => {
            assert forall|i: int|
                0 <= i < l@.len() implies memo_lookup(m1, #[trigger] l@[i]) == memo_lookup(
                m2,
                l@[i],
            ) by {
                assert(p.refs_spec()[i] == l@[i]);
                assert(memo_lookup(m1, p.refs_spec()[i]) == memo_lookup(m2, p.refs_spec()[i]));
            }
            assert(p.freeze_ok_spec(m1) == p.freeze_ok_spec(m2));
            assert forall|out: SimplePayload| #[trigger]
                p.frozen_rel(m1, out) == p.frozen_rel(m2, out) by {
                if p.frozen_rel(m1, out) {
                    assert(p.frozen_rel(m2, out));
                }
                if p.frozen_rel(m2, out) {
                    assert(p.frozen_rel(m1, out));
                }
            }
        }
        ComplexPayload::Ephemeral(_) => {
        }
    }
}

} // verus!
