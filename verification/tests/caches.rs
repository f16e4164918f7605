use aguila::hotspot::HotspotDetector;
use aguila::inline_cache::InlineCache;
use aguila::specialization::{OperationType, SpecializationCache, TypePattern};
use aguila::value::Value;

#[test]
fn test_hotspot_detection() {
    let mut detector = HotspotDetector::new();

    for _ in 0..999 {
        detector.record_call(0);
    }

    assert!(detector.pending_compilations() == 0);

    detector.record_call(0);

    assert_eq!(detector.pending_compilations(), 1);
}

#[test]
fn test_jit_address_update() {
    let mut detector = HotspotDetector::new();

    for _ in 0..1000 {
        detector.record_call(0);
    }
    assert_eq!(detector.next_compilation(), Some(0));

    detector.jit_compiled(0, 0x4000);

    assert_eq!(detector.info(0).unwrap().jit_address, Some(0x4000));
}

#[test]
fn test_hotspot_stats_totals() {
    let mut detector = HotspotDetector::new();
    for _ in 0..5 {
        detector.record_call(3);
    }
    for _ in 0..7 {
        detector.record_call(9);
    }
    detector.jit_compiled(9, 77);
    let stats = detector.stats();
    assert_eq!(stats.total_hotspots, 2);
    assert_eq!(stats.jitted_count, 1);
    assert_eq!(stats.total_calls, 12);
    detector.clear();
    assert_eq!(detector.stats().total_hotspots, 0);
}

#[test]
fn test_monomorphic_cache() {
    let mut cache = InlineCache::new();
    let x = "x".to_string();

    cache.record(0, &x, 1, 100);
    assert_eq!(cache.lookup(0, &x, 1), Some(100));
    assert_eq!(cache.hits(), 1);
    assert_eq!(cache.misses(), 0);
}

#[test]
fn test_polymorphic_migration() {
    let mut cache = InlineCache::new();
    let x = "x".to_string();

    cache.record(0, &x, 1, 100);
    cache.record(0, &x, 2, 200);

    assert_eq!(cache.lookup(0, &x, 1), Some(100));
    assert_eq!(cache.lookup(0, &x, 2), Some(200));
    assert!(cache.es_polimorfico(0, &x));
}

#[test]
fn test_megamorphic_limit() {
    let mut cache = InlineCache::new();
    let x = "x".to_string();

    for i in 1..=5 {
        cache.record(0, &x, i as u64, (i * 100) as usize);
    }

    assert_eq!(cache.lookup(0, &x, 1), None);
}

#[test]
fn test_type_pattern_learning() {
    let mut spec = SpecializationCache::new();

    let int_val = Value::entero(5);
    let int_val2 = Value::entero(3);

    for _ in 0..100 {
        spec.record(0, OperationType::Add, int_val, int_val2);
    }

    let pattern = spec.get_pattern(0, OperationType::Add);
    assert_eq!(pattern, Some(TypePattern::IntInt));
}

#[test]
fn test_type_mismatch_resets() {
    let mut spec = SpecializationCache::new();

    let int_val = Value::entero(5);
    let float_val = Value::numero_bits((3.5f64).to_bits());

    for _ in 0..50 {
        spec.record(0, OperationType::Add, int_val, int_val);
    }

    for _ in 0..15 {
        spec.record(0, OperationType::Add, int_val, float_val);
    }

    let pattern = spec.get_pattern(0, OperationType::Add);
    assert_eq!(pattern, None);
}

#[test]
fn test_fast_add_specializado() {
    let mut spec = SpecializationCache::new();
    for _ in 0..100 {
        spec.record(7, OperationType::Add, Value::entero(1), Value::entero(2));
    }
    let suma = spec.fast_add(7, 20, 22).unwrap();
    assert!(suma.es_entero());
    assert_eq!(suma.a_entero(), 42);
    // An overflowing sum deoptimizes to the exact double.
    let grande = spec.fast_add(7, i32::MAX, i32::MAX).unwrap();
    assert!(!grande.es_entero());
    assert_eq!(grande.0, ((i32::MAX as f64) + (i32::MAX as f64)).to_bits());
    // An unlearned site yields nothing.
    assert!(spec.fast_add(8, 1, 2).is_none());
}
