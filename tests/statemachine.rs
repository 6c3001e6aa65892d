use interesting_rust_codes::statemachine::A;

#[test]
fn full_cycle_of_transitions() {
    let a = A::new();
    let b = a.b();
    let b = b.b();
    let c = b.c();
    let a = c.a();
    let _b = a.b();
}
