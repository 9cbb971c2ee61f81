use consair::runtime::{
    float_bits_eq, int_arith, int_div_exact, int_neg, IntOp, rt_eq, rt_is_atom, rt_is_cons, rt_is_nil, rt_is_number, rt_not, RuntimeValue,
    TAG_CONS, TAG_FLOAT,
};

fn float_value(f: f64) -> RuntimeValue {
    RuntimeValue { tag: TAG_FLOAT, data: f.to_bits() }
}

/// A cons-tagged value standing for a heap cell at `addr`.
fn cons_at(addr: u64) -> RuntimeValue {
    RuntimeValue { tag: TAG_CONS, data: addr }
}

#[test]
fn test_nil() {
    let v = RuntimeValue::nil();
    assert!(v.is_nil());
    assert!(!v.is_truthy());
    assert!(v.is_atom());
}

#[test]
fn test_bool_true() {
    let v = RuntimeValue::from_bool(true);
    assert!(v.is_bool());
    assert_eq!(v.to_bool(), Some(true));
    assert!(v.is_truthy());
    assert!(v.is_atom());
}

#[test]
fn test_bool_false() {
    let v = RuntimeValue::from_bool(false);
    assert!(v.is_bool());
    assert_eq!(v.to_bool(), Some(false));
    assert!(!v.is_truthy());
    assert!(v.is_atom());
}

#[test]
fn test_int_positive() {
    let v = RuntimeValue::from_int(42);
    assert!(v.is_int());
    assert!(v.is_number());
    assert_eq!(v.to_int(), Some(42));
    assert!(v.is_truthy());
    assert!(v.is_atom());
}

#[test]
fn test_int_negative() {
    let v = RuntimeValue::from_int(-123);
    assert!(v.is_int());
    assert_eq!(v.to_int(), Some(-123));
}

#[test]
fn test_int_zero() {
    let v = RuntimeValue::from_int(0);
    assert!(v.is_int());
    assert_eq!(v.to_int(), Some(0));
    assert!(v.is_truthy()); // 0 is truthy in Lisp!
}

#[test]
fn test_int_max() {
    let v = RuntimeValue::from_int(i64::MAX);
    assert_eq!(v.to_int(), Some(i64::MAX));
}

#[test]
fn test_int_min() {
    let v = RuntimeValue::from_int(i64::MIN);
    assert_eq!(v.to_int(), Some(i64::MIN));
}

#[test]
fn test_symbol() {
    let v = RuntimeValue::from_symbol(12345);
    assert!(v.is_symbol());
    assert_eq!(v.to_symbol_key(), Some(12345));
    assert!(v.is_atom());
}

#[test]
fn test_struct_size() {
    // RuntimeValue should be 16 bytes (1 byte tag + 7 padding + 8 byte data)
    assert!(std::mem::size_of::<RuntimeValue>() <= 16);
}

#[test]
fn test_wrong_accessor() {
    let int_val = RuntimeValue::from_int(42);
    assert_eq!(int_val.to_bool(), None);
    assert!(!int_val.is_float());

    let bool_val = RuntimeValue::from_bool(true);
    assert_eq!(bool_val.to_int(), None);
    assert!(!bool_val.is_float());
}

#[test]
fn test_equality() {
    assert_eq!(RuntimeValue::nil(), RuntimeValue::nil());
    assert_eq!(RuntimeValue::from_bool(true), RuntimeValue::from_bool(true));
    assert_eq!(RuntimeValue::from_int(42), RuntimeValue::from_int(42));
    assert_eq!(float_value(3.125), float_value(3.125));

    assert_ne!(RuntimeValue::nil(), RuntimeValue::from_bool(false));
    assert_ne!(RuntimeValue::from_int(42), float_value(42.0));
    assert_ne!(RuntimeValue::from_int(1), RuntimeValue::from_int(2));
}

#[test]
fn test_rt_is_nil() {
    assert_eq!(rt_is_nil(RuntimeValue::nil()).to_bool(), Some(true));
    assert_eq!(rt_is_nil(RuntimeValue::from_int(0)).to_bool(), Some(false));
}

#[test]
fn test_rt_is_atom() {
    assert_eq!(rt_is_atom(RuntimeValue::nil()).to_bool(), Some(true));
    assert_eq!(rt_is_atom(RuntimeValue::from_int(42)).to_bool(), Some(true));
    assert_eq!(rt_is_atom(RuntimeValue::from_symbol(123)).to_bool(), Some(true));

    let cons = cons_at(0x1000);
    assert_eq!(rt_is_atom(cons).to_bool(), Some(false));
}

#[test]
fn test_rt_is_cons() {
    let cons = cons_at(0x1000);
    assert_eq!(rt_is_cons(cons).to_bool(), Some(true));
    assert_eq!(rt_is_cons(RuntimeValue::nil()).to_bool(), Some(false));
}

#[test]
fn test_rt_is_number() {
    assert_eq!(rt_is_number(RuntimeValue::from_int(42)).to_bool(), Some(true));
    assert_eq!(rt_is_number(float_value(3.125)).to_bool(), Some(true));
    assert_eq!(rt_is_number(RuntimeValue::nil()).to_bool(), Some(false));
    assert_eq!(rt_is_number(RuntimeValue::from_bool(true)).to_bool(), Some(false));
}

#[test]
fn test_rt_eq() {
    assert_eq!(rt_eq(RuntimeValue::nil(), RuntimeValue::nil()).to_bool(), Some(true));
    assert_eq!(
        rt_eq(RuntimeValue::from_int(42), RuntimeValue::from_int(42)).to_bool(),
        Some(true)
    );
    assert_eq!(
        rt_eq(RuntimeValue::from_bool(true), RuntimeValue::from_bool(true)).to_bool(),
        Some(true)
    );
    assert_eq!(
        rt_eq(RuntimeValue::from_int(1), RuntimeValue::from_int(2)).to_bool(),
        Some(false)
    );
    assert_eq!(rt_eq(RuntimeValue::nil(), RuntimeValue::from_int(0)).to_bool(), Some(false));

    // Same cons (by identity)
    let cons = cons_at(0x1000);
    assert_eq!(rt_eq(cons, cons).to_bool(), Some(true));

    // Different cons cells with same values
    let cons1 = cons_at(0x1000);
    let cons2 = cons_at(0x2000);
    assert_eq!(rt_eq(cons1, cons2).to_bool(), Some(false));
}

#[test]
fn test_rt_not() {
    assert_eq!(rt_not(RuntimeValue::nil()).to_bool(), Some(true));
    assert_eq!(rt_not(RuntimeValue::from_bool(false)).to_bool(), Some(true));
    assert_eq!(rt_not(RuntimeValue::from_bool(true)).to_bool(), Some(false));
    assert_eq!(rt_not(RuntimeValue::from_int(0)).to_bool(), Some(false));
    assert_eq!(rt_not(RuntimeValue::from_int(42)).to_bool(), Some(false));
}

#[test]
fn float_equality_follows_ieee() {
    let nan = f64::NAN.to_bits();
    assert!(!float_bits_eq(nan, nan));
    assert!(float_bits_eq(0.0f64.to_bits(), (-0.0f64).to_bits()));
    assert!(float_bits_eq(1.5f64.to_bits(), 1.5f64.to_bits()));
    assert!(!float_bits_eq(1.5f64.to_bits(), 2.5f64.to_bits()));
    assert!(float_bits_eq(f64::INFINITY.to_bits(), f64::INFINITY.to_bits()));
    // agrees with the machine's float comparison on a sample of bit patterns
    let samples = [
        0.0f64, -0.0, 1.0, -1.0, 3.125, f64::NAN, f64::INFINITY, f64::NEG_INFINITY,
        f64::MIN_POSITIVE, f64::MAX, 1e-310,
    ];
    for a in samples.iter() {
        for b in samples.iter() {
            assert_eq!(float_bits_eq(a.to_bits(), b.to_bits()), a == b);
        }
    }
    assert_ne!(float_value(f64::NAN), float_value(f64::NAN));
    assert_eq!(float_value(0.0), float_value(-0.0));
}

#[test]
fn int_roundtrip_through_data() {
    for n in [i64::MIN, -1, 0, 1, 7, i64::MAX] {
        assert_eq!(RuntimeValue::from_int(n).to_int(), Some(n));
    }
    assert_eq!(RuntimeValue::from_int(-1).data, u64::MAX);
}

#[test]
fn unknown_tag_is_never_equal() {
    let v = RuntimeValue { tag: 200, data: 1 };
    assert_ne!(v, v);
    assert_eq!(rt_eq(v, v).to_bool(), Some(false));
}

fn as_int(v: Option<RuntimeValue>) -> Option<i64> {
    v.map(|r| r.to_int().unwrap())
}

#[test]
fn integer_arithmetic_paths() {
    let i = RuntimeValue::from_int;
    assert_eq!(as_int(int_arith(IntOp::Add, i(2), i(3))), Some(5));
    assert_eq!(as_int(int_arith(IntOp::Sub, i(2), i(3))), Some(-1));
    assert_eq!(as_int(int_arith(IntOp::Mul, i(-4), i(3))), Some(-12));
    assert_eq!(as_int(int_arith(IntOp::Add, i(i64::MAX), i(1))), None);
    assert_eq!(as_int(int_arith(IntOp::Sub, i(i64::MIN), i(1))), None);
    assert_eq!(as_int(int_arith(IntOp::Mul, i(i64::MAX), i(2))), None);
    assert_eq!(as_int(int_arith(IntOp::Add, i(1), float_value(1.0))), None);
    assert_eq!(as_int(int_arith(IntOp::Add, RuntimeValue::nil(), i(1))), None);

    assert_eq!(as_int(int_div_exact(i(6), i(3))), Some(2));
    assert_eq!(as_int(int_div_exact(i(-6), i(3))), Some(-2));
    assert_eq!(as_int(int_div_exact(i(6), i(-4))), None);
    assert_eq!(as_int(int_div_exact(i(7), i(2))), None);
    assert_eq!(as_int(int_div_exact(i(-7), i(2))), None);
    assert_eq!(as_int(int_div_exact(i(6), i(0))), None);
    assert_eq!(as_int(int_div_exact(i(i64::MIN), i(2))), Some(i64::MIN / 2));
    assert_eq!(as_int(int_div_exact(float_value(6.0), i(3))), None);

    assert_eq!(as_int(int_neg(i(5))), Some(-5));
    assert_eq!(as_int(int_neg(i(i64::MIN))), None);
    assert_eq!(as_int(int_neg(float_value(1.0))), None);
}
