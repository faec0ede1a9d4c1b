use starlark::avalue::ComplexValue;
use starlark::heap::{Freezer, Heap, HeapSlot};
use starlark::payload::{ComplexPayload, SimplePayload};
use starlark::value::FreezeError;

#[test]
fn whole_heap_freeze_produces_one_frozen_slot_per_value() {
    let mut heap = Heap::new();
    let child = heap.alloc_complex(ComplexPayload::Counter { count: 5, inner: None });
    // Two parents share the one child.
    let p1 = heap.alloc_complex(ComplexPayload::Counter { count: 1, inner: Some(child) });
    let p2 = heap.alloc_complex(ComplexPayload::Counter { count: 2, inner: Some(child) });

    let frozen = heap.freeze().expect("all values freeze");
    // Exactly one frozen slot per old value: the shared child was frozen
    // once, not once per parent.
    assert_eq!(frozen.len(), 3);

    let f1 = frozen.get(p1).expect("parent one frozen");
    let f2 = frozen.get(p2).expect("parent two frozen");
    match (&f1.1, &f2.1) {
        (
            SimplePayload::FrozenCounter { count: c1, inner: i1 },
            SimplePayload::FrozenCounter { count: c2, inner: i2 },
        ) => {
            assert_eq!(*c1, 1);
            assert_eq!(*c2, 2);
            // Both parents resolve the child to the same frozen slot.
            assert_eq!(*i1, Some(child));
            assert_eq!(*i2, Some(child));
        }
        _ => panic!("counters freeze to frozen counters"),
    }
}

#[test]
fn scenario_nested_counters_freeze_into_the_frozen_graph() {
    let mut heap = Heap::new();
    let inner = heap.alloc_complex(ComplexPayload::Counter { count: 10, inner: None });
    let outer = heap.alloc_complex(ComplexPayload::Counter { count: 20, inner: Some(inner) });

    let frozen = heap.freeze().expect("freezes");

    // Both are simple now; the outer's frozen form holds a reference to
    // the inner's frozen value, not the original mutable one.
    let fo = frozen.get(outer).expect("outer frozen");
    let inner_frozen_slot = match &fo.1 {
        SimplePayload::FrozenCounter { count, inner } => {
            assert_eq!(*count, 20);
            inner.expect("outer still references its child")
        }
        _ => panic!("frozen counter"),
    };
    let fi = frozen.get(inner_frozen_slot).expect("inner frozen");
    match &fi.1 {
        SimplePayload::FrozenCounter { count, inner } => {
            assert_eq!(*count, 10);
            assert!(inner.is_none());
        }
        _ => panic!("frozen counter"),
    }

    // An outstanding handle to the old mutable slot observably resolves
    // to the new simple value.
    let through_old_handle = heap.resolve(&frozen, outer).expect("redirected");
    match &through_old_handle.1 {
        SimplePayload::FrozenCounter { count, .. } => assert_eq!(*count, 20),
        _ => panic!("resolves to the frozen outer"),
    }
}

#[test]
fn simple_values_are_carried_over_unchanged() {
    let mut heap = Heap::new();
    let s = heap.alloc_simple(SimplePayload::Int(9));
    let l = heap.alloc_complex(ComplexPayload::List(vec![s]));
    let frozen = heap.freeze().expect("freezes");
    assert_eq!(frozen.len(), 2);
    match &frozen.get(s).expect("carried over").1 {
        SimplePayload::Int(n) => assert_eq!(*n, 9),
        _ => panic!("unchanged"),
    }
    match &frozen.get(l).expect("list frozen").1 {
        SimplePayload::FrozenList(items) => assert_eq!(items, &vec![s]),
        _ => panic!("lists freeze to frozen lists"),
    }
}

#[test]
fn freeze_stops_at_the_first_refusing_value_without_rollback() {
    let mut heap = Heap::new();
    let a = heap.alloc_complex(ComplexPayload::Counter { count: 1, inner: None });
    let b = heap.alloc_complex(ComplexPayload::Ephemeral(0));
    let c = heap.alloc_complex(ComplexPayload::Counter { count: 3, inner: None });

    let err = match heap.freeze() {
        Err(e) => e,
        Ok(_) => panic!("the transient value refuses"),
    };
    assert_eq!(err, FreezeError::Unfreezable);

    // Values frozen before the failure stay frozen; the failing slot is
    // vacated; later values are untouched.
    assert!(matches!(heap.get(a), Some(HeapSlot::Redirected(0))));
    assert!(matches!(heap.get(b), Some(HeapSlot::Vacant)));
    assert!(matches!(
        heap.get(c),
        Some(HeapSlot::Complex(_))
    ));
}

#[test]
fn freezer_memo_resolves_only_recorded_slots() {
    let mut freezer = Freezer::new(2);
    assert_eq!(freezer.freeze(0), Err(FreezeError::Unresolved));
    assert_eq!(freezer.freeze(5), Err(FreezeError::Unresolved));
    freezer.record(0, 7);
    assert_eq!(freezer.freeze(0), Ok(7));
    assert_eq!(freezer.freeze(1), Err(FreezeError::Unresolved));
}

#[test]
fn payload_freeze_fails_on_an_unresolved_reference() {
    let freezer = Freezer::new(1);
    let p = ComplexPayload::Counter { count: 0, inner: Some(0) };
    assert_eq!(p.freeze(&freezer), Err(FreezeError::Unresolved));

    let mut freezer = Freezer::new(1);
    freezer.record(0, 0);
    let p = ComplexPayload::Counter { count: 4, inner: Some(0) };
    match p.freeze(&freezer) {
        Ok(SimplePayload::FrozenCounter { count, inner }) => {
            assert_eq!(count, 4);
            assert_eq!(inner, Some(0));
        }
        _ => panic!("freezes once the reference is recorded"),
    }

    let p = ComplexPayload::List(vec![0, 1]);
    let freezer = Freezer::new(1);
    assert_eq!(p.freeze(&freezer), Err(FreezeError::Unresolved));
}

#[test]
fn heap_accessors_report_slots() {
    let mut heap = Heap::new();
    assert_eq!(heap.len(), 0);
    assert!(heap.get(0).is_none());
    let i = heap.alloc_simple(SimplePayload::Bool(true));
    assert_eq!(i, 0);
    assert_eq!(heap.len(), 1);
    assert!(matches!(heap.get(0), Some(HeapSlot::Simple(_))));
}
