use rustation::tracer::{module_tracer, remove_trace, Module, SizedValue, Tracer};

#[test]
fn trace_keeps_value_changes() {
    let mut m = Module::new();
    m.trace(1, "irq", SizedValue::from(true));
    m.trace(2, "irq", SizedValue::from(true));
    m.trace(3, "irq", SizedValue::from(false));
    m.trace(4, "pc", SizedValue::from(0xbfc00000u32));
    let vars = m.variables();
    assert_eq!(vars.len(), 2);
    assert_eq!(vars[0].0, "irq");
    assert_eq!(vars[0].1.size(), 1);
    // The repeated value at date 2 is not recorded
    assert_eq!(vars[0].1.log(), &vec![(1, 1), (3, 0)]);
    assert_eq!(vars[1].0, "pc");
    assert_eq!(vars[1].1.size(), 32);
    assert_eq!(vars[1].1.log(), &vec![(4, 0xbfc00000)]);
}

#[test]
fn sized_values() {
    let v = SizedValue::from(0xabu8);
    assert_eq!((v.0, v.1), (0xab, 8));
    let v = SizedValue::from(0xabcdu16);
    assert_eq!((v.0, v.1), (0xabcd, 16));
    let v = SizedValue::from(false);
    assert_eq!((v.0, v.1), (0, 1));
}

#[test]
fn tracing_compiled_out() {
    assert!(remove_trace().is_empty());
    let mut called = false;
    module_tracer("cpu", |_m: &mut Module| called = true);
    assert!(!called);
    let mut t = Tracer::new();
    assert!(t.remove_trace().is_empty());
}
