use legion_core::quantum::{QuantumEngineRS, FIB_TABLE_LEN};

#[test]
fn quantization_pair_is_fixed() {
    let engine = QuantumEngineRS::new();
    assert_eq!(engine.phi_quantization(), (232996, 144));
}

#[test]
fn table_holds_the_fibonacci_numbers() {
    let engine = QuantumEngineRS::new();
    assert_eq!(FIB_TABLE_LEN, 52);
    assert_eq!(engine.fib_at(0), 0);
    assert_eq!(engine.fib_at(1), 1);
    assert_eq!(engine.fib_at(2), 1);
    assert_eq!(engine.fib_at(12), 144);
    assert_eq!(engine.fib_at(30), 832040);
    assert_eq!(engine.fib_at(50), 12586269025);
    assert_eq!(engine.fib_at(51), 20365011074);
}

#[test]
fn table_follows_the_recurrence() {
    let engine = QuantumEngineRS::new();
    for i in 2..FIB_TABLE_LEN {
        assert_eq!(engine.fib_at(i), engine.fib_at(i - 1) + engine.fib_at(i - 2));
    }
}

#[test]
fn nearest_to_161_is_144() {
    let engine = QuantumEngineRS::new();
    assert_eq!(engine.nearest_fib(161), 144);
}

#[test]
fn nearest_exact_hits() {
    let engine = QuantumEngineRS::new();
    assert_eq!(engine.nearest_fib(0), 0);
    assert_eq!(engine.nearest_fib(1), 1);
    assert_eq!(engine.nearest_fib(233), 233);
}

#[test]
fn nearest_tie_takes_the_smaller() {
    let engine = QuantumEngineRS::new();
    // 4 lies between 3 and 5 at distance 1 from each.
    assert_eq!(engine.nearest_fib(4), 3);
    // 7 is nearer to 8 than to 5.
    assert_eq!(engine.nearest_fib(7), 8);
}

#[test]
fn nearest_beyond_the_table_is_its_last_entry() {
    let engine = QuantumEngineRS::new();
    assert_eq!(engine.nearest_fib(u64::MAX), 20365011074);
}
