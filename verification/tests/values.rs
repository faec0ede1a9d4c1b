use starlark::avalue::{complex, simple, AValue, StarlarkValue};
use starlark::heap::Freezer;
use starlark::payload::{ComplexPayload, SimplePayload};
use starlark::value::{EvalError, Evaluator, Parameters, Tracer, Value};

#[test]
fn wrapper_forwards_capability_operations() {
    let w = simple(SimplePayload::Int(40));
    assert_eq!(w.get_type(), "int");
    assert!(w.matches_type("int"));
    assert!(!w.matches_type("string"));
    assert!(w.to_bool());
    assert_eq!(w.to_int(), Ok(40));
    match w.add(&Value::Int(2)) {
        Ok(Value::Int(n)) => assert_eq!(n, 42),
        _ => panic!("int addition must succeed"),
    }
    match w.equals(&Value::Int(40)) {
        Ok(b) => assert!(b),
        Err(_) => panic!("int equality must succeed"),
    }
    match w.compare(&Value::Int(50)) {
        Ok(o) => assert_eq!(o, std::cmp::Ordering::Less),
        Err(_) => panic!("int comparison must succeed"),
    }
}

#[test]
fn type_identity_is_transparent_through_both_modes() {
    let s = simple(SimplePayload::Int(1));
    let c = complex(ComplexPayload::Counter { count: 0, inner: None });

    // The envelope reports the payload type's own tag, whichever mode.
    assert_eq!(s.static_type_of(), SimplePayload::static_type_id());
    assert_eq!(c.static_type_of(), ComplexPayload::static_type_id());

    // A downcast against the payload's identity succeeds and yields the
    // payload; one against an unrelated identity fails.
    let p = s.downcast_payload(SimplePayload::static_type_id());
    match p {
        Some(SimplePayload::Int(n)) => assert_eq!(*n, 1),
        _ => panic!("downcast against the payload's own tag must succeed"),
    }
    assert!(s.downcast_payload(ComplexPayload::static_type_id()).is_none());
    assert!(c.downcast_payload(ComplexPayload::static_type_id()).is_some());
    assert!(c.downcast_payload(SimplePayload::static_type_id()).is_none());
}

#[test]
fn mutation_forwards_through_the_envelope() {
    let mut w = complex(ComplexPayload::Counter { count: 0, inner: None });
    assert_eq!(w.set_attr("count", &Value::Int(8)), Ok(()));
    match w.get_attr("count") {
        Some(Value::Int(n)) => assert_eq!(n, 8),
        _ => panic!("the envelope reads the mutated payload"),
    }
    match w.into_payload() {
        ComplexPayload::Counter { count, inner } => {
            assert_eq!(count, 8);
            assert!(inner.is_none());
        }
        _ => panic!("payload survives unwrapping"),
    }
}

#[test]
fn trace_on_simple_is_a_no_op() {
    let mut w = simple(SimplePayload::Str(String::from("still")));
    let mut tracer = Tracer::new();
    w.trace(&mut tracer);
    assert!(tracer.visited.is_empty());
    match w.into_payload() {
        SimplePayload::Str(s) => assert_eq!(s, "still"),
        _ => panic!("payload unchanged"),
    }
}

#[test]
fn trace_on_complex_visits_every_owned_reference() {
    let mut w = complex(ComplexPayload::Counter { count: 1, inner: Some(4) });
    let mut tracer = Tracer::new();
    w.trace(&mut tracer);
    assert_eq!(tracer.visited, vec![4]);

    let mut l = complex(ComplexPayload::List(vec![2, 7, 2]));
    let mut tracer = Tracer::new();
    l.trace(&mut tracer);
    assert_eq!(tracer.visited, vec![2, 7, 2]);
}

#[test]
fn freezing_a_simple_envelope_is_identity() {
    let w = simple(SimplePayload::Int(5));
    let freezer = Freezer::new(0);
    let frozen = w.into_simple(&freezer).expect("freezing frozen data never fails");
    match frozen.into_payload() {
        SimplePayload::Int(n) => assert_eq!(n, 5),
        _ => panic!("identity conversion"),
    }
}

#[test]
fn repr_and_json_render_exactly() {
    let mut out = String::from("x=");
    SimplePayload::Int(-42).collect_repr(&mut out);
    assert_eq!(out, "x=-42");

    let mut out = String::new();
    SimplePayload::Str(String::from("hi")).collect_repr(&mut out);
    assert_eq!(out, "\"hi\"");

    let mut out = String::new();
    SimplePayload::Bool(true).collect_repr(&mut out);
    assert_eq!(out, "True");

    let mut out = String::new();
    ComplexPayload::Counter { count: 7, inner: None }.collect_repr(&mut out);
    assert_eq!(out, "counter(7)");

    assert_eq!(SimplePayload::Int(7).to_json(), Ok(String::from("7")));
    assert_eq!(SimplePayload::Bool(false).to_json(), Ok(String::from("false")));
    assert_eq!(
        SimplePayload::Str(String::from("a")).to_json(),
        Ok(String::from("\"a\""))
    );
    assert_eq!(
        SimplePayload::FrozenList(vec![]).to_json(),
        Err(EvalError::Unsupported)
    );
}

#[test]
fn arithmetic_errors_exactly_on_overflow() {
    let max = SimplePayload::Int(i64::MAX);
    assert_eq!(max.add(&Value::Int(1)), Err(EvalError::Overflow));
    match max.add(&Value::Int(0)) {
        Ok(Value::Int(n)) => assert_eq!(n, i64::MAX),
        _ => panic!("no overflow"),
    }
    let min = SimplePayload::Int(i64::MIN);
    assert_eq!(min.minus(), Err(EvalError::Overflow));
    assert_eq!(min.sub(&Value::Int(1)), Err(EvalError::Overflow));
    assert_eq!(min.mul(&Value::Int(2)), Err(EvalError::Overflow));
    assert_eq!(
        SimplePayload::Int(1).left_shift(&Value::Int(64)),
        Err(EvalError::Overflow)
    );
    match SimplePayload::Int(1).left_shift(&Value::Int(3)) {
        Ok(Value::Int(n)) => assert_eq!(n, 8),
        _ => panic!("shift in range"),
    }
    match SimplePayload::Int(12).bit_and(&Value::Int(10)) {
        Ok(Value::Int(n)) => assert_eq!(n, 8),
        _ => panic!("bitwise and"),
    }
}

#[test]
fn percent_and_floor_div_round_toward_negative_infinity() {
    let cases: [(i64, i64, i64, i64); 4] = [
        (7, 3, 2, 1),
        (-7, 3, -3, 2),
        (7, -3, -3, -2),
        (-7, -3, 2, -1),
    ];
    for (n, m, q, r) in cases {
        assert_eq!(SimplePayload::Int(n).floor_div(&Value::Int(m)), Ok(Value::Int(q)));
        assert_eq!(SimplePayload::Int(n).percent(&Value::Int(m)), Ok(Value::Int(r)));
    }
    assert_eq!(
        SimplePayload::Int(5).percent(&Value::Int(0)),
        Err(EvalError::DivisionByZero)
    );
    assert_eq!(
        SimplePayload::Int(5).floor_div(&Value::Int(0)),
        Err(EvalError::DivisionByZero)
    );
    assert_eq!(
        SimplePayload::Int(i64::MIN).floor_div(&Value::Int(-1)),
        Err(EvalError::Overflow)
    );
    assert_eq!(
        SimplePayload::Int(i64::MIN).percent(&Value::Int(-1)),
        Ok(Value::Int(0))
    );
    assert_eq!(
        SimplePayload::Int(i64::MIN).floor_div(&Value::Int(1)),
        Ok(Value::Int(i64::MIN))
    );
}

#[test]
fn to_int_errors_exactly_outside_machine_range() {
    assert_eq!(SimplePayload::Int(2147483647).to_int(), Ok(2147483647));
    assert_eq!(
        SimplePayload::Int(2147483648).to_int(),
        Err(EvalError::Overflow)
    );
    assert_eq!(SimplePayload::Bool(true).to_int(), Ok(1));
    assert_eq!(
        SimplePayload::Str(String::from("3")).to_int(),
        Err(EvalError::Unsupported)
    );
}

#[test]
fn mutable_values_are_unhashable_and_frozen_ones_immutable() {
    assert_eq!(
        ComplexPayload::List(vec![]).get_hash(),
        Err(EvalError::Unhashable)
    );
    assert_eq!(
        SimplePayload::FrozenList(vec![]).get_hash(),
        Err(EvalError::Unhashable)
    );
    match SimplePayload::Str(String::from("s")).get_hash() {
        Ok(_) => {}
        Err(_) => panic!("strings hash"),
    }

    // No mutation path remains reachable on a frozen value.
    let mut frozen = SimplePayload::FrozenList(vec![1]);
    assert_eq!(
        frozen.set_at(&Value::Int(0), &Value::FrozenRef(2)),
        Err(EvalError::Immutable)
    );
    let mut frozen = SimplePayload::FrozenCounter { count: 0, inner: None };
    assert_eq!(
        frozen.set_attr("count", &Value::Int(1)),
        Err(EvalError::Immutable)
    );
}

#[test]
fn complex_values_mutate_through_the_capability_interface() {
    let mut c = ComplexPayload::Counter { count: 1, inner: None };
    assert_eq!(c.set_attr("count", &Value::Int(9)), Ok(()));
    match c.get_attr("count") {
        Some(Value::Int(n)) => assert_eq!(n, 9),
        _ => panic!("count attribute"),
    }
    assert_eq!(
        c.set_attr("missing", &Value::Int(0)),
        Err(EvalError::NoAttribute)
    );
    assert!(c.has_attr("count"));
    assert!(!c.has_attr("missing"));
    assert_eq!(c.dir_attr(), vec![String::from("count")]);

    let mut l = ComplexPayload::List(vec![5, 6]);
    assert_eq!(l.set_at(&Value::Int(1), &Value::Ref(7)), Ok(()));
    match l.at(&Value::Int(1)) {
        Ok(Value::Ref(j)) => assert_eq!(j, 7),
        _ => panic!("list indexing"),
    }
    assert_eq!(
        l.set_at(&Value::Int(9), &Value::Ref(0)),
        Err(EvalError::OutOfBounds)
    );
    assert_eq!(l.at(&Value::Int(-1)), Err(EvalError::OutOfBounds));
}

#[test]
fn iteration_length_and_membership() {
    let l = ComplexPayload::List(vec![3, 4]);
    let items = l.iterate().expect("lists iterate");
    assert_eq!(items.len(), 2);
    match (&items[0], &items[1]) {
        (Value::Ref(a), Value::Ref(b)) => {
            assert_eq!(*a, 3);
            assert_eq!(*b, 4);
        }
        _ => panic!("refs"),
    }
    assert_eq!(l.length(), Ok(2));
    assert_eq!(l.is_in(&Value::Ref(4)), Ok(true));
    assert_eq!(l.is_in(&Value::Ref(9)), Ok(false));
    assert_eq!(
        SimplePayload::Int(1).iterate().unwrap_err(),
        EvalError::Unsupported
    );
    assert_eq!(SimplePayload::Str(String::from("abc")).length(), Ok(3));
}

#[test]
fn strings_compare_lexicographically() {
    let s = SimplePayload::Str(String::from("apple"));
    assert_eq!(
        s.compare(&Value::Str(String::from("banana"))),
        Ok(std::cmp::Ordering::Less)
    );
    assert_eq!(
        s.compare(&Value::Str(String::from("apple"))),
        Ok(std::cmp::Ordering::Equal)
    );
    assert_eq!(
        s.compare(&Value::Str(String::from("app"))),
        Ok(std::cmp::Ordering::Greater)
    );
    assert_eq!(
        s.compare(&Value::Str(String::from("applesauce"))),
        Ok(std::cmp::Ordering::Less)
    );
    assert_eq!(s.compare(&Value::Int(1)), Err(EvalError::Unsupported));
}

#[test]
fn substring_membership_on_strings() {
    let hay = SimplePayload::Str(String::from("module load"));
    assert_eq!(hay.is_in(&Value::Str(String::from("le lo"))), Ok(true));
    assert_eq!(hay.is_in(&Value::Str(String::from("module"))), Ok(true));
    assert_eq!(hay.is_in(&Value::Str(String::from(""))), Ok(true));
    assert_eq!(hay.is_in(&Value::Str(String::from("loud"))), Ok(false));
    assert_eq!(
        hay.is_in(&Value::Str(String::from("module load bearing"))),
        Ok(false)
    );
    assert_eq!(hay.is_in(&Value::Int(3)), Err(EvalError::Unsupported));
}

#[test]
fn values_are_not_callable_and_leave_the_evaluator_alone() {
    let mut eval = Evaluator { exports: vec![] };
    let params = Parameters { pos: vec![] };
    let r = SimplePayload::Int(1).invoke(&Value::Int(1), None, &params, &mut eval);
    assert_eq!(r.unwrap_err(), EvalError::NotCallable);
    assert!(eval.exports.is_empty());
    SimplePayload::Int(1).export_as("name", &mut eval);
    assert!(eval.exports.is_empty());
}

#[test]
fn unsupported_operations_say_so() {
    assert_eq!(
        SimplePayload::Str(String::from("a")).sub(&Value::Str(String::from("b"))),
        Err(EvalError::Unsupported)
    );
    assert_eq!(
        ComplexPayload::Ephemeral(0).percent(&Value::Int(2)),
        Err(EvalError::Unsupported)
    );
    assert_eq!(
        SimplePayload::Int(1).slice(None, None, None),
        Err(EvalError::Unsupported)
    );
    assert!(SimplePayload::Int(1).radd(&Value::Int(2)).is_none());
    assert!(SimplePayload::Int(1).get_methods().is_none());
    assert_eq!(
        SimplePayload::Int(1).get_type_value().text,
        String::from("int")
    );
}
