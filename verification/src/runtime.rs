//! The tagged value representation that compiled code passes to and from
//! runtime functions, and the runtime functions that only look at tags and
//! scalar data.

use vstd::prelude::*;

verus! {

// ============================================================================
// Tag Constants
// ============================================================================

/// Tag for nil value
pub const TAG_NIL: u8 = 0;

/// Tag for boolean values
pub const TAG_BOOL: u8 = 1;

/// Tag for integer values (i64)
pub const TAG_INT: u8 = 2;

/// Tag for floating-point values (f64)
pub const TAG_FLOAT: u8 = 3;

/// Tag for cons cell pointers
pub const TAG_CONS: u8 = 4;

/// Tag for interned symbol keys
pub const TAG_SYMBOL: u8 = 5;

/// Tag for closure pointers
pub const TAG_CLOSURE: u8 = 6;

/// Tag for string pointers
pub const TAG_STRING: u8 = 7;

/// Tag for vector pointers
pub const TAG_VECTOR: u8 = 8;

// ============================================================================
// RuntimeValue
// ============================================================================

/// A tagged value: `tag` identifies the kind of value, `data` holds a scalar
/// directly (booleans as 0 or 1, integers in two's complement, floats as
/// their IEEE-754 bits, symbol keys) or the address of a heap object.
#[derive(Clone, Copy, Debug)]
pub struct RuntimeValue {
    /// Type tag identifying what kind of value this is
    pub tag: u8,
    /// The actual data - either a scalar value or a pointer
    pub data: u64,
}

impl RuntimeValue {
    // ========================================================================
    // Constructors
    // ========================================================================

    /// Create a nil value.
    pub fn nil() -> (r: Self)
        ensures
            r.tag == TAG_NIL,
            r.data == 0,
    {
        RuntimeValue { tag: TAG_NIL, data: 0 }
    }

    /// Create a boolean value.
    pub fn from_bool(b: bool) -> (r: Self)
        ensures
            r.tag == TAG_BOOL,
            r.data == (if b {
                1u64
            } else {
                0u64
            }),
    {
        RuntimeValue {
            tag: TAG_BOOL,
            data: if b {
                1
            } else {
                0
            },
        }
    }

    /// Create an integer value.
    pub fn from_int(n: i64) -> (r: Self)
        ensures
            r == RuntimeValue::spec_from_int(n),
    {
        RuntimeValue { tag: TAG_INT, data: n as u64 }
    }

    /// Create a symbol value from an interned symbol key.
    pub fn from_symbol(key: u64) -> (r: Self)
        ensures
            r.tag == TAG_SYMBOL,
            r.data == key,
    {
        RuntimeValue { tag: TAG_SYMBOL, data: key }
    }

    // ========================================================================
    // Type Predicates
    // ========================================================================

    /// Check if this value is nil.
    pub fn is_nil(&self) -> (r: bool)
        ensures
            r == (self.tag == TAG_NIL),
    {
        self.tag == TAG_NIL
    }

    /// Check if this value is a boolean.
    pub fn is_bool(&self) -> (r: bool)
        ensures
            r == (self.tag == TAG_BOOL),
    {
        self.tag == TAG_BOOL
    }

    /// Check if this value is an integer.
    pub fn is_int(&self) -> (r: bool)
        ensures
            r == (self.tag == TAG_INT),
    {
        self.tag == TAG_INT
    }

    /// Check if this value is a float.
    pub fn is_float(&self) -> (r: bool)
        ensures
            r == (self.tag == TAG_FLOAT),
    {
        self.tag == TAG_FLOAT
    }

    /// Check if this value is a number (int or float).
    pub fn is_number(&self) -> (r: bool)
        ensures
            r == (self.tag == TAG_INT || self.tag == TAG_FLOAT),
    {
        self.tag == TAG_INT || self.tag == TAG_FLOAT
    }

    /// Check if this value is a symbol.
    pub fn is_symbol(&self) -> (r: bool)
        ensures
            r == (self.tag == TAG_SYMBOL),
    {
        self.tag == TAG_SYMBOL
    }

    /// Check if this value is a cons cell.
    pub fn is_cons(&self) -> (r: bool)
        ensures
            r == (self.tag == TAG_CONS),
    {
        self.tag == TAG_CONS
    }

    /// Check if this value is a string.
    pub fn is_string(&self) -> (r: bool)
        ensures
            r == (self.tag == TAG_STRING),
    {
        self.tag == TAG_STRING
    }

    /// Check if this value is a vector.
    pub fn is_vector(&self) -> (r: bool)
        ensures
            r == (self.tag == TAG_VECTOR),
    {
        self.tag == TAG_VECTOR
    }

    /// Check if this value is a closure.
    pub fn is_closure(&self) -> (r: bool)
        ensures
            r == (self.tag == TAG_CLOSURE),
    {
        self.tag == TAG_CLOSURE
    }

    /// Check if this value is an atom (not a cons cell).
    pub fn is_atom(&self) -> (r: bool)
        ensures
            r == (self.tag != TAG_CONS),
    {
        self.tag != TAG_CONS
    }

    /// Truthiness: everything but nil and false.
    pub open spec fn spec_truthy(self) -> bool {
        if self.tag == TAG_NIL {
            false
        } else if self.tag == TAG_BOOL {
            self.data != 0
        } else {
            true
        }
    }

    /// Check if this value is truthy (not nil and not false).
    pub fn is_truthy(&self) -> (r: bool)
        ensures
            r == self.spec_truthy(),
    {
        if self.tag == TAG_NIL {
            false
        } else if self.tag == TAG_BOOL {
            self.data != 0
        } else {
            true
        }
    }

    // ========================================================================
    // Accessors
    // ========================================================================

    /// Get the boolean value if this is a bool.
    pub fn to_bool(&self) -> (r: Option<bool>)
        ensures
            r == (if self.tag == TAG_BOOL {
                Some(self.data != 0)
            } else {
                None
            }),
    {
        if self.tag == TAG_BOOL {
            Some(self.data != 0)
        } else {
            None
        }
    }

    /// Get the integer value if this is an int.
    pub fn to_int(&self) -> (r: Option<i64>)
        ensures
            r == (if self.tag == TAG_INT {
                Some(self.data as i64)
            } else {
                None
            }),
    {
        if self.tag == TAG_INT {
            Some(self.data as i64)
        } else {
            None
        }
    }

    /// Get the symbol key if this is a symbol.
    pub fn to_symbol_key(&self) -> (r: Option<u64>)
        ensures
            r == (if self.tag == TAG_SYMBOL {
                Some(self.data)
            } else {
                None
            }),
    {
        if self.tag == TAG_SYMBOL {
            Some(self.data)
        } else {
            None
        }
    }
}

// ============================================================================
// Laws of the representation
// ============================================================================

/// An integer stored in a value is read back unchanged (what `to_int`
/// reads of what `from_int` made), and every integer is truthy.
pub proof fn law_int_roundtrip(n: i64)
    ensures
        RuntimeValue::spec_from_int(n).tag == TAG_INT,
        RuntimeValue::spec_from_int(n).data as i64 == n,
        RuntimeValue::spec_from_int(n).spec_truthy(),
{
    assert((n as u64) as i64 == n) by (bit_vector);
}

/// A boolean stored in a value is read back unchanged (what `to_bool` reads
/// of what `from_bool` made), and the value is truthy exactly when the
/// boolean is true.
pub proof fn law_bool_roundtrip(b: bool)
    ensures
        RuntimeValue::spec_from_bool(b).tag == TAG_BOOL,
        (RuntimeValue::spec_from_bool(b).data != 0) == b,
        RuntimeValue::spec_from_bool(b).spec_truthy() == b,
{
}

// ============================================================================
// Floating-point equality on bit patterns
// ============================================================================

/// A NaN: all exponent bits set and a nonzero fraction.
pub open spec fn is_nan_bits(bits: u64) -> bool {
    (bits & 0x7FF0_0000_0000_0000u64) == 0x7FF0_0000_0000_0000u64 && (bits
        & 0x000F_FFFF_FFFF_FFFFu64) != 0
}

/// Positive or negative zero.
pub open spec fn is_zero_bits(bits: u64) -> bool {
    (bits & 0x7FFF_FFFF_FFFF_FFFFu64) == 0
}

/// IEEE-754 equality of the floats with these bit patterns: no NaN equals
/// anything, the two zeros are equal, otherwise equal exactly when the bits
/// are.
pub open spec fn float_bits_equal(a: u64, b: u64) -> bool {
    !is_nan_bits(a) && !is_nan_bits(b) && (a == b || (is_zero_bits(a) && is_zero_bits(b)))
}

/// IEEE-754 equality of the floats with bit patterns `a` and `b`.
pub fn float_bits_eq(a: u64, b: u64) -> (r: bool)
    ensures
        r == float_bits_equal(a, b),
{
    let a_nan = (a & 0x7FF0_0000_0000_0000u64) == 0x7FF0_0000_0000_0000u64 && (a
        & 0x000F_FFFF_FFFF_FFFFu64) != 0;
    let b_nan = (b & 0x7FF0_0000_0000_0000u64) == 0x7FF0_0000_0000_0000u64 && (b
        & 0x000F_FFFF_FFFF_FFFFu64) != 0;
    let a_zero = (a & 0x7FFF_FFFF_FFFF_FFFFu64) == 0;
    let b_zero = (b & 0x7FFF_FFFF_FFFF_FFFFu64) == 0;
    !a_nan && !b_nan && (a == b || (a_zero && b_zero))
}

/// Equality of runtime values: same tag, and equal data (floats compared as
/// IEEE-754 numbers); values with an unknown tag are never equal.
pub open spec fn runtime_values_equal(a: RuntimeValue, b: RuntimeValue) -> bool {
    if a.tag != b.tag {
        false
    } else if a.tag == TAG_NIL {
        true
    } else if a.tag == TAG_FLOAT {
        float_bits_equal(a.data, b.data)
    } else if a.tag <= TAG_VECTOR {
        a.data == b.data
    } else {
        false
    }
}

impl PartialEq for RuntimeValue {
    fn eq(&self, other: &Self) -> (r: bool) {
        if self.tag != other.tag {
            return false;
        }
        if self.tag == TAG_NIL {
            true
        } else if self.tag == TAG_FLOAT {
            float_bits_eq(self.data, other.data)
        } else if self.tag <= TAG_VECTOR {
            self.data == other.data
        } else {
            false
        }
    }
}

impl vstd::std_specs::cmp::PartialEqSpecImpl for RuntimeValue {
    open spec fn obeys_eq_spec() -> bool {
        true
    }

    open spec fn eq_spec(&self, other: &RuntimeValue) -> bool {
        runtime_values_equal(*self, *other)
    }
}

// ============================================================================
// Runtime functions on tags
// ============================================================================

/// Check if value is nil.
pub fn rt_is_nil(val: RuntimeValue) -> (r: RuntimeValue)
    ensures
        r == RuntimeValue::spec_from_bool(val.tag == TAG_NIL),
{
    RuntimeValue::from_bool(val.tag == TAG_NIL)
}

/// Check if value is an atom (not a cons cell).
pub fn rt_is_atom(val: RuntimeValue) -> (r: RuntimeValue)
    ensures
        r == RuntimeValue::spec_from_bool(val.tag != TAG_CONS),
{
    RuntimeValue::from_bool(val.tag != TAG_CONS)
}

/// Check if value is a cons cell.
pub fn rt_is_cons(val: RuntimeValue) -> (r: RuntimeValue)
    ensures
        r == RuntimeValue::spec_from_bool(val.tag == TAG_CONS),
{
    RuntimeValue::from_bool(val.tag == TAG_CONS)
}

/// Check if value is a number.
pub fn rt_is_number(val: RuntimeValue) -> (r: RuntimeValue)
    ensures
        r == RuntimeValue::spec_from_bool(val.tag == TAG_INT || val.tag == TAG_FLOAT),
{
    RuntimeValue::from_bool(val.tag == TAG_INT || val.tag == TAG_FLOAT)
}

/// Atom equality - compares atoms by value, heap objects by identity.
pub fn rt_eq(a: RuntimeValue, b: RuntimeValue) -> (r: RuntimeValue)
    ensures
        r == RuntimeValue::spec_from_bool(runtime_values_equal(a, b)),
{
    if a.tag != b.tag {
        return RuntimeValue::from_bool(false);
    }
    if a.tag == TAG_NIL {
        RuntimeValue::from_bool(true)
    } else if a.tag == TAG_BOOL || a.tag == TAG_INT || a.tag == TAG_SYMBOL {
        RuntimeValue::from_bool(a.data == b.data)
    } else if a.tag == TAG_FLOAT {
        RuntimeValue::from_bool(float_bits_eq(a.data, b.data))
    } else if a.tag == TAG_CONS || a.tag == TAG_STRING || a.tag == TAG_VECTOR || a.tag
        == TAG_CLOSURE {
        RuntimeValue::from_bool(a.data == b.data)
    } else {
        RuntimeValue::from_bool(false)
    }
}

/// Boolean not.
pub fn rt_not(val: RuntimeValue) -> (r: RuntimeValue)
    ensures
        r == RuntimeValue::spec_from_bool(!val.spec_truthy()),
{
    RuntimeValue::from_bool(!val.is_truthy())
}

impl RuntimeValue {
    /// The integer value `n`, stored in two's complement.
    pub open spec fn spec_from_int(n: i64) -> RuntimeValue {
        RuntimeValue { tag: TAG_INT, data: n as u64 }
    }

    /// The boolean value `b`.
    pub open spec fn spec_from_bool(b: bool) -> RuntimeValue {
        RuntimeValue {
            tag: TAG_BOOL,
            data: if b {
                1
            } else {
                0
            },
        }
    }
}

// ============================================================================
// Integer arithmetic
// ============================================================================

/// The arithmetic operations that stay exact on integers when the result
/// fits.
pub enum IntOp {
    Add,
    Sub,
    Mul,
}

/// The exact value of an operation on integers.
pub open spec fn int_op_value(op: IntOp, a: int, b: int) -> int {
    match op {
        IntOp::Add => a + b,
        IntOp::Sub => a - b,
        IntOp::Mul => a * b,
    }
}

/// Both values are integers.
pub open spec fn both_ints(a: RuntimeValue, b: RuntimeValue) -> bool {
    a.tag == TAG_INT && b.tag == TAG_INT
}

/// The integer result of `rt_add`, `rt_sub` or `rt_mul`: when both operands
/// are integers and the exact result fits in an integer, that result;
/// otherwise `None`, and the operation is carried out in floating point.
pub fn int_arith(op: IntOp, a: RuntimeValue, b: RuntimeValue) -> (r: Option<RuntimeValue>)
    ensures
        match r {
            Some(v) => both_ints(a, b) && v.tag == TAG_INT && v.data as i64 == int_op_value(
                op,
                a.data as i64 as int,
                b.data as i64 as int,
            ),
            None => !(both_ints(a, b) && i64::MIN <= int_op_value(
                op,
                a.data as i64 as int,
                b.data as i64 as int,
            ) <= i64::MAX),
        },
{
    if a.tag == TAG_INT && b.tag == TAG_INT {
        let x = a.data as i64;
        let y = b.data as i64;
        let res = match op {
            IntOp::Add => x.checked_add(y),
            IntOp::Sub => x.checked_sub(y),
            IntOp::Mul => x.checked_mul(y),
        };
        match res {
            Some(n) => {
                proof {
                    law_int_roundtrip(n);
                }
                Some(RuntimeValue::from_int(n))
            },
            None => None,
        }
    } else {
        None
    }
}

/// The division `i64::MIN / -1`, on which the integer path of `rt_div`
/// overflows.
pub open spec fn div_overflows(a: RuntimeValue, b: RuntimeValue) -> bool {
    both_ints(a, b) && a.data as i64 == i64::MIN && b.data as i64 == -1
}

/// The integer result of `rt_div`: when both operands are integers and the
/// divisor is nonzero and divides the dividend, the quotient; otherwise
/// `None`, and the division is carried out in floating point.
pub fn int_div_exact(a: RuntimeValue, b: RuntimeValue) -> (r: Option<RuntimeValue>)
    requires
        !div_overflows(a, b),
    ensures
        match r {
            Some(v) => both_ints(a, b) && v.tag == TAG_INT && (v.data as i64) * (b.data as i64)
                == a.data as i64,
            None => !(both_ints(a, b) && b.data as i64 != 0 && (a.data as i64) % (b.data as i64)
                == 0),
        },
{
    if a.tag == TAG_INT && b.tag == TAG_INT {
        let x = a.data as i64;
        let y = b.data as i64;
        if y == 0 {
            return None;
        }
        match x.checked_rem_euclid(y) {
            Some(0) => {
                proof {
                    vstd::arithmetic::div_mod::lemma_fundamental_div_mod(x as int, y as int);
                    let q = x as int / y as int;
                    assert(i64::MIN <= q <= i64::MAX) by (nonlinear_arith)
                        requires
                            x as int == y as int * q,
                            y != 0,
                            !(x == i64::MIN && y == -1),
                            i64::MIN <= x <= i64::MAX,
                    ;
                }
                let q = x.checked_div_euclid(y).unwrap();
                proof {
                    law_int_roundtrip(q);
                    assert(q as int * y as int == x as int) by (nonlinear_arith)
                        requires
                            x as int == y as int * (q as int),
                    ;
                }
                Some(RuntimeValue::from_int(q))
            },
            _ => None,
        }
    } else {
        None
    }
}

/// The integer result of `rt_neg`: the negation of an integer other than
/// `i64::MIN`; otherwise `None`.
pub fn int_neg(a: RuntimeValue) -> (r: Option<RuntimeValue>)
    ensures
        match r {
            Some(v) => a.tag == TAG_INT && v.tag == TAG_INT && v.data as i64 == -(a.data as i64),
            None => !(a.tag == TAG_INT && a.data as i64 != i64::MIN),
        },
{
    if a.tag == TAG_INT {
        let x = a.data as i64;
        if x == i64::MIN {
            return None;
        }
        let n = -x;
        proof {
            law_int_roundtrip(n);
        }
        Some(RuntimeValue::from_int(n))
    } else {
        None
    }
}

} // verus!
