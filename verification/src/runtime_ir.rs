//! The runtime as LLVM IR text, for embedding in ahead-of-time compiled
//! output.

use vstd::prelude::*;

use crate::runtime::{
    TAG_BOOL, TAG_CLOSURE, TAG_CONS, TAG_FLOAT, TAG_INT, TAG_NIL, TAG_STRING, TAG_SYMBOL,
    TAG_VECTOR,
};
use crate::text::{decimal, push_decimal};

verus! {

/// The declaration of a tag constant: `@TAG_<name> = private constant i8 <tag>`.
pub open spec fn tag_line(name: Seq<char>, tag: u8) -> Seq<char> {
    "@TAG_"@ + name + " = private constant i8 "@ + decimal(tag as nat)
}

fn push_tag_line(ir: &mut String, name: &str, tag: u8)
    ensures
        final(ir)@ == old(ir)@ + tag_line(name@, tag),
{
    ir.append("@TAG_");
    ir.append(name);
    ir.append(" = private constant i8 ");
    push_decimal(ir, tag as u64);
    assert(ir@ =~= old(ir)@ + tag_line(name@, tag));
}

pub open spec fn ir_type_definitions() -> Seq<char> {
    "\n; Type definitions\n%RuntimeValue = type { i8, i64 }\n%RuntimeConsCell = type { %RuntimeValue, %RuntimeValue, i32 }\n%RuntimeClosure = type { ptr, ptr, i32, i32 }\n%RuntimeString = type { ptr, i64, i32 }\n%RuntimeVector = type { ptr, i64, i32 }\n\n; Tag constants\n"@
        + tag_line("NIL"@, TAG_NIL)
        + "\n"@
        + tag_line("BOOL"@, TAG_BOOL)
        + "\n"@
        + tag_line("INT"@, TAG_INT)
        + "\n"@
        + tag_line("FLOAT"@, TAG_FLOAT)
        + "\n"@
        + tag_line("CONS"@, TAG_CONS)
        + "\n"@
        + tag_line("SYMBOL"@, TAG_SYMBOL)
        + "\n"@
        + tag_line("CLOSURE"@, TAG_CLOSURE)
        + "\n"@
        + tag_line("STRING"@, TAG_STRING)
        + "\n"@
        + tag_line("VECTOR"@, TAG_VECTOR)
        + "\n\n; Format strings for printing\n@fmt_nil = private constant [4 x i8] c\"nil\\00\"\n@fmt_true = private constant [5 x i8] c\"true\\00\"\n@fmt_false = private constant [6 x i8] c\"false\\00\"\n@fmt_int = private constant [5 x i8] c\"%lld\\00\"\n@fmt_float = private constant [3 x i8] c\"%g\\00\"\n@fmt_cons_open = private constant [2 x i8] c\"(\\00\"\n@fmt_cons_close = private constant [2 x i8] c\")\\00\"\n@fmt_space = private constant [2 x i8] c\" \\00\"\n@fmt_dot = private constant [4 x i8] c\" . \\00\"\n@fmt_newline = private constant [2 x i8] c\"\\0A\\00\"\n@fmt_string = private constant [5 x i8] c\"%.*s\\00\"\n"@
}

fn generate_type_definitions() -> (r: String)
    ensures
        r@ == ir_type_definitions(),
{
    let mut ir = String::from_str("\n; Type definitions\n%RuntimeValue = type { i8, i64 }\n%RuntimeConsCell = type { %RuntimeValue, %RuntimeValue, i32 }\n%RuntimeClosure = type { ptr, ptr, i32, i32 }\n%RuntimeString = type { ptr, i64, i32 }\n%RuntimeVector = type { ptr, i64, i32 }\n\n; Tag constants\n");
    push_tag_line(&mut ir, "NIL", TAG_NIL);
    ir.append("\n");
    push_tag_line(&mut ir, "BOOL", TAG_BOOL);
    ir.append("\n");
    push_tag_line(&mut ir, "INT", TAG_INT);
    ir.append("\n");
    push_tag_line(&mut ir, "FLOAT", TAG_FLOAT);
    ir.append("\n");
    push_tag_line(&mut ir, "CONS", TAG_CONS);
    ir.append("\n");
    push_tag_line(&mut ir, "SYMBOL", TAG_SYMBOL);
    ir.append("\n");
    push_tag_line(&mut ir, "CLOSURE", TAG_CLOSURE);
    ir.append("\n");
    push_tag_line(&mut ir, "STRING", TAG_STRING);
    ir.append("\n");
    push_tag_line(&mut ir, "VECTOR", TAG_VECTOR);
    ir.append("\n\n; Format strings for printing\n@fmt_nil = private constant [4 x i8] c\"nil\\00\"\n@fmt_true = private constant [5 x i8] c\"true\\00\"\n@fmt_false = private constant [6 x i8] c\"false\\00\"\n@fmt_int = private constant [5 x i8] c\"%lld\\00\"\n@fmt_float = private constant [3 x i8] c\"%g\\00\"\n@fmt_cons_open = private constant [2 x i8] c\"(\\00\"\n@fmt_cons_close = private constant [2 x i8] c\")\\00\"\n@fmt_space = private constant [2 x i8] c\" \\00\"\n@fmt_dot = private constant [4 x i8] c\" . \\00\"\n@fmt_newline = private constant [2 x i8] c\"\\0A\\00\"\n@fmt_string = private constant [5 x i8] c\"%.*s\\00\"\n");
    ir
}

pub open spec fn ir_runtime_functions() -> Seq<char> {
    Seq::<char>::empty()
        + ir_rt_cons()
        + ir_rt_car()
        + ir_rt_cdr()
        + ir_rt_add()
        + ir_rt_sub()
        + ir_rt_mul()
        + ir_rt_div()
        + ir_rt_neg()
        + ir_rt_num_eq()
        + ir_rt_lt()
        + ir_rt_gt()
        + ir_rt_lte()
        + ir_rt_gte()
        + ir_rt_eq()
        + ir_rt_is_nil()
        + ir_rt_is_atom()
        + ir_rt_is_cons()
        + ir_rt_is_number()
        + ir_rt_not()
        + ir_rt_incref()
        + ir_rt_decref()
        + ir_rt_make_closure()
        + ir_rt_closure_fn_ptr()
        + ir_rt_closure_env_get()
        + ir_rt_closure_env_size()
        + ir_rt_length()
        + ir_rt_append()
        + ir_rt_reverse()
        + ir_rt_nth()
        + ir_rt_make_vector()
        + ir_rt_vector_length()
        + ir_rt_vector_ref()
        + ir_rt_make_string()
        + ir_rt_now()
}

fn generate_runtime_functions() -> (r: String)
    ensures
        r@ == ir_runtime_functions(),
{
    let mut ir = String::new();
    let part = generate_rt_cons();
    ir.append(part.as_str());
    let part = generate_rt_car();
    ir.append(part.as_str());
    let part = generate_rt_cdr();
    ir.append(part.as_str());
    let part = generate_rt_add();
    ir.append(part.as_str());
    let part = generate_rt_sub();
    ir.append(part.as_str());
    let part = generate_rt_mul();
    ir.append(part.as_str());
    let part = generate_rt_div();
    ir.append(part.as_str());
    let part = generate_rt_neg();
    ir.append(part.as_str());
    let part = generate_rt_num_eq();
    ir.append(part.as_str());
    let part = generate_rt_lt();
    ir.append(part.as_str());
    let part = generate_rt_gt();
    ir.append(part.as_str());
    let part = generate_rt_lte();
    ir.append(part.as_str());
    let part = generate_rt_gte();
    ir.append(part.as_str());
    let part = generate_rt_eq();
    ir.append(part.as_str());
    let part = generate_rt_is_nil();
    ir.append(part.as_str());
    let part = generate_rt_is_atom();
    ir.append(part.as_str());
    let part = generate_rt_is_cons();
    ir.append(part.as_str());
    let part = generate_rt_is_number();
    ir.append(part.as_str());
    let part = generate_rt_not();
    ir.append(part.as_str());
    let part = generate_rt_incref();
    ir.append(part.as_str());
    let part = generate_rt_decref();
    ir.append(part.as_str());
    let part = generate_rt_make_closure();
    ir.append(part.as_str());
    let part = generate_rt_closure_fn_ptr();
    ir.append(part.as_str());
    let part = generate_rt_closure_env_get();
    ir.append(part.as_str());
    let part = generate_rt_closure_env_size();
    ir.append(part.as_str());
    let part = generate_rt_length();
    ir.append(part.as_str());
    let part = generate_rt_append();
    ir.append(part.as_str());
    let part = generate_rt_reverse();
    ir.append(part.as_str());
    let part = generate_rt_nth();
    ir.append(part.as_str());
    let part = generate_rt_make_vector();
    ir.append(part.as_str());
    let part = generate_rt_vector_length();
    ir.append(part.as_str());
    let part = generate_rt_vector_ref();
    ir.append(part.as_str());
    let part = generate_rt_make_string();
    ir.append(part.as_str());
    let part = generate_rt_now();
    ir.append(part.as_str());
    ir
}

pub open spec fn ir_io_functions() -> Seq<char> {
    Seq::<char>::empty()
        + ir_rt_println()
        + ir_rt_print()
        + ir_rt_print_space()
        + ir_rt_print_newline()
}

/// I/O functions (these depend on print_value, so must come after generate_print_result)
fn generate_io_functions() -> (r: String)
    ensures
        r@ == ir_io_functions(),
{
    let mut ir = String::new();
    let part = generate_rt_println();
    ir.append(part.as_str());
    let part = generate_rt_print();
    ir.append(part.as_str());
    let part = generate_rt_print_space();
    ir.append(part.as_str());
    let part = generate_rt_print_newline();
    ir.append(part.as_str());
    ir
}

pub open spec fn ir_external_declarations() -> Seq<char> {
    "\n; External declarations (libc)\ndeclare ptr @malloc(i64)\ndeclare void @free(ptr)\ndeclare i32 @printf(ptr, ...)\ndeclare ptr @memcpy(ptr, ptr, i64)\n"@
}

fn generate_external_declarations() -> (r: String)
    ensures
        r@ == ir_external_declarations(),
{
    String::from_str("\n; External declarations (libc)\ndeclare ptr @malloc(i64)\ndeclare void @free(ptr)\ndeclare i32 @printf(ptr, ...)\ndeclare ptr @memcpy(ptr, ptr, i64)\n")
}

pub open spec fn ir_rt_cons() -> Seq<char> {
    "\n; rt_cons: Allocate a new cons cell\ndefine %RuntimeValue @rt_cons(%RuntimeValue %car, %RuntimeValue %cdr) {\nentry:\n  ; Allocate cons cell (2 RuntimeValues + refcount = 16 + 16 + 4 = 36 bytes, round to 40)\n  %cell_ptr = call ptr @malloc(i64 40)\n\n  ; Store car\n  %car_ptr = getelementptr %RuntimeConsCell, ptr %cell_ptr, i32 0, i32 0\n  store %RuntimeValue %car, ptr %car_ptr\n\n  ; Store cdr\n  %cdr_ptr = getelementptr %RuntimeConsCell, ptr %cell_ptr, i32 0, i32 1\n  store %RuntimeValue %cdr, ptr %cdr_ptr\n\n  ; Initialize refcount to 1\n  %refcount_ptr = getelementptr %RuntimeConsCell, ptr %cell_ptr, i32 0, i32 2\n  store i32 1, ptr %refcount_ptr\n\n  ; Create result RuntimeValue\n  %ptr_int = ptrtoint ptr %cell_ptr to i64\n  %result1 = insertvalue %RuntimeValue undef, i8 "@
        + decimal(TAG_CONS as nat)
        + ", 0\n  %result2 = insertvalue %RuntimeValue %result1, i64 %ptr_int, 1\n  ret %RuntimeValue %result2\n}\n"@
}

fn generate_rt_cons() -> (r: String)
    ensures
        r@ == ir_rt_cons(),
{
    let mut ir = String::from_str("\n; rt_cons: Allocate a new cons cell\ndefine %RuntimeValue @rt_cons(%RuntimeValue %car, %RuntimeValue %cdr) {\nentry:\n  ; Allocate cons cell (2 RuntimeValues + refcount = 16 + 16 + 4 = 36 bytes, round to 40)\n  %cell_ptr = call ptr @malloc(i64 40)\n\n  ; Store car\n  %car_ptr = getelementptr %RuntimeConsCell, ptr %cell_ptr, i32 0, i32 0\n  store %RuntimeValue %car, ptr %car_ptr\n\n  ; Store cdr\n  %cdr_ptr = getelementptr %RuntimeConsCell, ptr %cell_ptr, i32 0, i32 1\n  store %RuntimeValue %cdr, ptr %cdr_ptr\n\n  ; Initialize refcount to 1\n  %refcount_ptr = getelementptr %RuntimeConsCell, ptr %cell_ptr, i32 0, i32 2\n  store i32 1, ptr %refcount_ptr\n\n  ; Create result RuntimeValue\n  %ptr_int = ptrtoint ptr %cell_ptr to i64\n  %result1 = insertvalue %RuntimeValue undef, i8 ");
    push_decimal(&mut ir, TAG_CONS as u64);
    ir.append(", 0\n  %result2 = insertvalue %RuntimeValue %result1, i64 %ptr_int, 1\n  ret %RuntimeValue %result2\n}\n");
    ir
}

pub open spec fn ir_rt_car() -> Seq<char> {
    "\n; rt_car: Get the car of a cons cell\ndefine %RuntimeValue @rt_car(%RuntimeValue %val) {\nentry:\n  %tag = extractvalue %RuntimeValue %val, 0\n  %is_cons = icmp eq i8 %tag, "@
        + decimal(TAG_CONS as nat)
        + "\n  br i1 %is_cons, label %extract, label %error\n\nextract:\n  %ptr_int = extractvalue %RuntimeValue %val, 1\n  %cell_ptr = inttoptr i64 %ptr_int to ptr\n  %car_ptr = getelementptr %RuntimeConsCell, ptr %cell_ptr, i32 0, i32 0\n  %car = load %RuntimeValue, ptr %car_ptr\n  ret %RuntimeValue %car\n\nerror:\n  ; Return nil on error\n  %nil = insertvalue %RuntimeValue undef, i8 "@
        + decimal(TAG_NIL as nat)
        + ", 0\n  %nil2 = insertvalue %RuntimeValue %nil, i64 0, 1\n  ret %RuntimeValue %nil2\n}\n"@
}

fn generate_rt_car() -> (r: String)
    ensures
        r@ == ir_rt_car(),
{
    let mut ir = String::from_str("\n; rt_car: Get the car of a cons cell\ndefine %RuntimeValue @rt_car(%RuntimeValue %val) {\nentry:\n  %tag = extractvalue %RuntimeValue %val, 0\n  %is_cons = icmp eq i8 %tag, ");
    push_decimal(&mut ir, TAG_CONS as u64);
    ir.append("\n  br i1 %is_cons, label %extract, label %error\n\nextract:\n  %ptr_int = extractvalue %RuntimeValue %val, 1\n  %cell_ptr = inttoptr i64 %ptr_int to ptr\n  %car_ptr = getelementptr %RuntimeConsCell, ptr %cell_ptr, i32 0, i32 0\n  %car = load %RuntimeValue, ptr %car_ptr\n  ret %RuntimeValue %car\n\nerror:\n  ; Return nil on error\n  %nil = insertvalue %RuntimeValue undef, i8 ");
    push_decimal(&mut ir, TAG_NIL as u64);
    ir.append(", 0\n  %nil2 = insertvalue %RuntimeValue %nil, i64 0, 1\n  ret %RuntimeValue %nil2\n}\n");
    ir
}

pub open spec fn ir_rt_cdr() -> Seq<char> {
    "\n; rt_cdr: Get the cdr of a cons cell\ndefine %RuntimeValue @rt_cdr(%RuntimeValue %val) {\nentry:\n  %tag = extractvalue %RuntimeValue %val, 0\n  %is_cons = icmp eq i8 %tag, "@
        + decimal(TAG_CONS as nat)
        + "\n  br i1 %is_cons, label %extract, label %error\n\nextract:\n  %ptr_int = extractvalue %RuntimeValue %val, 1\n  %cell_ptr = inttoptr i64 %ptr_int to ptr\n  %cdr_ptr = getelementptr %RuntimeConsCell, ptr %cell_ptr, i32 0, i32 1\n  %cdr = load %RuntimeValue, ptr %cdr_ptr\n  ret %RuntimeValue %cdr\n\nerror:\n  %nil = insertvalue %RuntimeValue undef, i8 "@
        + decimal(TAG_NIL as nat)
        + ", 0\n  %nil2 = insertvalue %RuntimeValue %nil, i64 0, 1\n  ret %RuntimeValue %nil2\n}\n"@
}

fn generate_rt_cdr() -> (r: String)
    ensures
        r@ == ir_rt_cdr(),
{
    let mut ir = String::from_str("\n; rt_cdr: Get the cdr of a cons cell\ndefine %RuntimeValue @rt_cdr(%RuntimeValue %val) {\nentry:\n  %tag = extractvalue %RuntimeValue %val, 0\n  %is_cons = icmp eq i8 %tag, ");
    push_decimal(&mut ir, TAG_CONS as u64);
    ir.append("\n  br i1 %is_cons, label %extract, label %error\n\nextract:\n  %ptr_int = extractvalue %RuntimeValue %val, 1\n  %cell_ptr = inttoptr i64 %ptr_int to ptr\n  %cdr_ptr = getelementptr %RuntimeConsCell, ptr %cell_ptr, i32 0, i32 1\n  %cdr = load %RuntimeValue, ptr %cdr_ptr\n  ret %RuntimeValue %cdr\n\nerror:\n  %nil = insertvalue %RuntimeValue undef, i8 ");
    push_decimal(&mut ir, TAG_NIL as u64);
    ir.append(", 0\n  %nil2 = insertvalue %RuntimeValue %nil, i64 0, 1\n  ret %RuntimeValue %nil2\n}\n");
    ir
}

pub open spec fn ir_rt_add() -> Seq<char> {
    "\n; rt_add: Add two numbers\ndefine %RuntimeValue @rt_add(%RuntimeValue %a, %RuntimeValue %b) {\nentry:\n  %a_tag = extractvalue %RuntimeValue %a, 0\n  %b_tag = extractvalue %RuntimeValue %b, 0\n  %a_data = extractvalue %RuntimeValue %a, 1\n  %b_data = extractvalue %RuntimeValue %b, 1\n\n  ; Check if both are integers\n  %a_is_int = icmp eq i8 %a_tag, "@
        + decimal(TAG_INT as nat)
        + "\n  %b_is_int = icmp eq i8 %b_tag, "@
        + decimal(TAG_INT as nat)
        + "\n  %both_int = and i1 %a_is_int, %b_is_int\n  br i1 %both_int, label %int_add, label %float_add\n\nint_add:\n  ; Integer addition\n  %a_int = bitcast i64 %a_data to i64\n  %b_int = bitcast i64 %b_data to i64\n  %sum_int = add i64 %a_int, %b_int\n  %result_int1 = insertvalue %RuntimeValue undef, i8 "@
        + decimal(TAG_INT as nat)
        + ", 0\n  %result_int2 = insertvalue %RuntimeValue %result_int1, i64 %sum_int, 1\n  ret %RuntimeValue %result_int2\n\nfloat_add:\n  ; Convert to float and add\n  %a_is_float = icmp eq i8 %a_tag, "@
        + decimal(TAG_FLOAT as nat)
        + "\n  %a_float = select i1 %a_is_float, double bitcast (i64 0 to double), double 0.0\n  %a_float_bits = select i1 %a_is_float, i64 %a_data, i64 0\n  %a_float_val = bitcast i64 %a_float_bits to double\n  %a_int_val = sitofp i64 %a_data to double\n  %a_final = select i1 %a_is_float, double %a_float_val, double %a_int_val\n\n  %b_is_float = icmp eq i8 %b_tag, "@
        + decimal(TAG_FLOAT as nat)
        + "\n  %b_float_bits = select i1 %b_is_float, i64 %b_data, i64 0\n  %b_float_val = bitcast i64 %b_float_bits to double\n  %b_int_val = sitofp i64 %b_data to double\n  %b_final = select i1 %b_is_float, double %b_float_val, double %b_int_val\n\n  %sum_float = fadd double %a_final, %b_final\n  %sum_bits = bitcast double %sum_float to i64\n  %result_float1 = insertvalue %RuntimeValue undef, i8 "@
        + decimal(TAG_FLOAT as nat)
        + ", 0\n  %result_float2 = insertvalue %RuntimeValue %result_float1, i64 %sum_bits, 1\n  ret %RuntimeValue %result_float2\n}\n"@
}

fn generate_rt_add() -> (r: String)
    ensures
        r@ == ir_rt_add(),
{
    let mut ir = String::from_str("\n; rt_add: Add two numbers\ndefine %RuntimeValue @rt_add(%RuntimeValue %a, %RuntimeValue %b) {\nentry:\n  %a_tag = extractvalue %RuntimeValue %a, 0\n  %b_tag = extractvalue %RuntimeValue %b, 0\n  %a_data = extractvalue %RuntimeValue %a, 1\n  %b_data = extractvalue %RuntimeValue %b, 1\n\n  ; Check if both are integers\n  %a_is_int = icmp eq i8 %a_tag, ");
    push_decimal(&mut ir, TAG_INT as u64);
    ir.append("\n  %b_is_int = icmp eq i8 %b_tag, ");
    push_decimal(&mut ir, TAG_INT as u64);
    ir.append("\n  %both_int = and i1 %a_is_int, %b_is_int\n  br i1 %both_int, label %int_add, label %float_add\n\nint_add:\n  ; Integer addition\n  %a_int = bitcast i64 %a_data to i64\n  %b_int = bitcast i64 %b_data to i64\n  %sum_int = add i64 %a_int, %b_int\n  %result_int1 = insertvalue %RuntimeValue undef, i8 ");
    push_decimal(&mut ir, TAG_INT as u64);
    ir.append(", 0\n  %result_int2 = insertvalue %RuntimeValue %result_int1, i64 %sum_int, 1\n  ret %RuntimeValue %result_int2\n\nfloat_add:\n  ; Convert to float and add\n  %a_is_float = icmp eq i8 %a_tag, ");
    push_decimal(&mut ir, TAG_FLOAT as u64);
    ir.append("\n  %a_float = select i1 %a_is_float, double bitcast (i64 0 to double), double 0.0\n  %a_float_bits = select i1 %a_is_float, i64 %a_data, i64 0\n  %a_float_val = bitcast i64 %a_float_bits to double\n  %a_int_val = sitofp i64 %a_data to double\n  %a_final = select i1 %a_is_float, double %a_float_val, double %a_int_val\n\n  %b_is_float = icmp eq i8 %b_tag, ");
    push_decimal(&mut ir, TAG_FLOAT as u64);
    ir.append("\n  %b_float_bits = select i1 %b_is_float, i64 %b_data, i64 0\n  %b_float_val = bitcast i64 %b_float_bits to double\n  %b_int_val = sitofp i64 %b_data to double\n  %b_final = select i1 %b_is_float, double %b_float_val, double %b_int_val\n\n  %sum_float = fadd double %a_final, %b_final\n  %sum_bits = bitcast double %sum_float to i64\n  %result_float1 = insertvalue %RuntimeValue undef, i8 ");
    push_decimal(&mut ir, TAG_FLOAT as u64);
    ir.append(", 0\n  %result_float2 = insertvalue %RuntimeValue %result_float1, i64 %sum_bits, 1\n  ret %RuntimeValue %result_float2\n}\n");
    ir
}

pub open spec fn ir_rt_sub() -> Seq<char> {
    "\n; rt_sub: Subtract two numbers\ndefine %RuntimeValue @rt_sub(%RuntimeValue %a, %RuntimeValue %b) {\nentry:\n  %a_tag = extractvalue %RuntimeValue %a, 0\n  %b_tag = extractvalue %RuntimeValue %b, 0\n  %a_data = extractvalue %RuntimeValue %a, 1\n  %b_data = extractvalue %RuntimeValue %b, 1\n\n  %a_is_int = icmp eq i8 %a_tag, "@
        + decimal(TAG_INT as nat)
        + "\n  %b_is_int = icmp eq i8 %b_tag, "@
        + decimal(TAG_INT as nat)
        + "\n  %both_int = and i1 %a_is_int, %b_is_int\n  br i1 %both_int, label %int_sub, label %float_sub\n\nint_sub:\n  %diff_int = sub i64 %a_data, %b_data\n  %result_int1 = insertvalue %RuntimeValue undef, i8 "@
        + decimal(TAG_INT as nat)
        + ", 0\n  %result_int2 = insertvalue %RuntimeValue %result_int1, i64 %diff_int, 1\n  ret %RuntimeValue %result_int2\n\nfloat_sub:\n  %a_is_float = icmp eq i8 %a_tag, "@
        + decimal(TAG_FLOAT as nat)
        + "\n  %a_float_bits = select i1 %a_is_float, i64 %a_data, i64 0\n  %a_float_val = bitcast i64 %a_float_bits to double\n  %a_int_val = sitofp i64 %a_data to double\n  %a_final = select i1 %a_is_float, double %a_float_val, double %a_int_val\n\n  %b_is_float = icmp eq i8 %b_tag, "@
        + decimal(TAG_FLOAT as nat)
        + "\n  %b_float_bits = select i1 %b_is_float, i64 %b_data, i64 0\n  %b_float_val = bitcast i64 %b_float_bits to double\n  %b_int_val = sitofp i64 %b_data to double\n  %b_final = select i1 %b_is_float, double %b_float_val, double %b_int_val\n\n  %diff_float = fsub double %a_final, %b_final\n  %diff_bits = bitcast double %diff_float to i64\n  %result_float1 = insertvalue %RuntimeValue undef, i8 "@
        + decimal(TAG_FLOAT as nat)
        + ", 0\n  %result_float2 = insertvalue %RuntimeValue %result_float1, i64 %diff_bits, 1\n  ret %RuntimeValue %result_float2\n}\n"@
}

fn generate_rt_sub() -> (r: String)
    ensures
        r@ == ir_rt_sub(),
{
    let mut ir = String::from_str("\n; rt_sub: Subtract two numbers\ndefine %RuntimeValue @rt_sub(%RuntimeValue %a, %RuntimeValue %b) {\nentry:\n  %a_tag = extractvalue %RuntimeValue %a, 0\n  %b_tag = extractvalue %RuntimeValue %b, 0\n  %a_data = extractvalue %RuntimeValue %a, 1\n  %b_data = extractvalue %RuntimeValue %b, 1\n\n  %a_is_int = icmp eq i8 %a_tag, ");
    push_decimal(&mut ir, TAG_INT as u64);
    ir.append("\n  %b_is_int = icmp eq i8 %b_tag, ");
    push_decimal(&mut ir, TAG_INT as u64);
    ir.append("\n  %both_int = and i1 %a_is_int, %b_is_int\n  br i1 %both_int, label %int_sub, label %float_sub\n\nint_sub:\n  %diff_int = sub i64 %a_data, %b_data\n  %result_int1 = insertvalue %RuntimeValue undef, i8 ");
    push_decimal(&mut ir, TAG_INT as u64);
    ir.append(", 0\n  %result_int2 = insertvalue %RuntimeValue %result_int1, i64 %diff_int, 1\n  ret %RuntimeValue %result_int2\n\nfloat_sub:\n  %a_is_float = icmp eq i8 %a_tag, ");
    push_decimal(&mut ir, TAG_FLOAT as u64);
    ir.append("\n  %a_float_bits = select i1 %a_is_float, i64 %a_data, i64 0\n  %a_float_val = bitcast i64 %a_float_bits to double\n  %a_int_val = sitofp i64 %a_data to double\n  %a_final = select i1 %a_is_float, double %a_float_val, double %a_int_val\n\n  %b_is_float = icmp eq i8 %b_tag, ");
    push_decimal(&mut ir, TAG_FLOAT as u64);
    ir.append("\n  %b_float_bits = select i1 %b_is_float, i64 %b_data, i64 0\n  %b_float_val = bitcast i64 %b_float_bits to double\n  %b_int_val = sitofp i64 %b_data to double\n  %b_final = select i1 %b_is_float, double %b_float_val, double %b_int_val\n\n  %diff_float = fsub double %a_final, %b_final\n  %diff_bits = bitcast double %diff_float to i64\n  %result_float1 = insertvalue %RuntimeValue undef, i8 ");
    push_decimal(&mut ir, TAG_FLOAT as u64);
    ir.append(", 0\n  %result_float2 = insertvalue %RuntimeValue %result_float1, i64 %diff_bits, 1\n  ret %RuntimeValue %result_float2\n}\n");
    ir
}

pub open spec fn ir_rt_mul() -> Seq<char> {
    "\n; rt_mul: Multiply two numbers\ndefine %RuntimeValue @rt_mul(%RuntimeValue %a, %RuntimeValue %b) {\nentry:\n  %a_tag = extractvalue %RuntimeValue %a, 0\n  %b_tag = extractvalue %RuntimeValue %b, 0\n  %a_data = extractvalue %RuntimeValue %a, 1\n  %b_data = extractvalue %RuntimeValue %b, 1\n\n  %a_is_int = icmp eq i8 %a_tag, "@
        + decimal(TAG_INT as nat)
        + "\n  %b_is_int = icmp eq i8 %b_tag, "@
        + decimal(TAG_INT as nat)
        + "\n  %both_int = and i1 %a_is_int, %b_is_int\n  br i1 %both_int, label %int_mul, label %float_mul\n\nint_mul:\n  %prod_int = mul i64 %a_data, %b_data\n  %result_int1 = insertvalue %RuntimeValue undef, i8 "@
        + decimal(TAG_INT as nat)
        + ", 0\n  %result_int2 = insertvalue %RuntimeValue %result_int1, i64 %prod_int, 1\n  ret %RuntimeValue %result_int2\n\nfloat_mul:\n  %a_is_float = icmp eq i8 %a_tag, "@
        + decimal(TAG_FLOAT as nat)
        + "\n  %a_float_bits = select i1 %a_is_float, i64 %a_data, i64 0\n  %a_float_val = bitcast i64 %a_float_bits to double\n  %a_int_val = sitofp i64 %a_data to double\n  %a_final = select i1 %a_is_float, double %a_float_val, double %a_int_val\n\n  %b_is_float = icmp eq i8 %b_tag, "@
        + decimal(TAG_FLOAT as nat)
        + "\n  %b_float_bits = select i1 %b_is_float, i64 %b_data, i64 0\n  %b_float_val = bitcast i64 %b_float_bits to double\n  %b_int_val = sitofp i64 %b_data to double\n  %b_final = select i1 %b_is_float, double %b_float_val, double %b_int_val\n\n  %prod_float = fmul double %a_final, %b_final\n  %prod_bits = bitcast double %prod_float to i64\n  %result_float1 = insertvalue %RuntimeValue undef, i8 "@
        + decimal(TAG_FLOAT as nat)
        + ", 0\n  %result_float2 = insertvalue %RuntimeValue %result_float1, i64 %prod_bits, 1\n  ret %RuntimeValue %result_float2\n}\n"@
}

fn generate_rt_mul() -> (r: String)
    ensures
        r@ == ir_rt_mul(),
{
    let mut ir = String::from_str("\n; rt_mul: Multiply two numbers\ndefine %RuntimeValue @rt_mul(%RuntimeValue %a, %RuntimeValue %b) {\nentry:\n  %a_tag = extractvalue %RuntimeValue %a, 0\n  %b_tag = extractvalue %RuntimeValue %b, 0\n  %a_data = extractvalue %RuntimeValue %a, 1\n  %b_data = extractvalue %RuntimeValue %b, 1\n\n  %a_is_int = icmp eq i8 %a_tag, ");
    push_decimal(&mut ir, TAG_INT as u64);
    ir.append("\n  %b_is_int = icmp eq i8 %b_tag, ");
    push_decimal(&mut ir, TAG_INT as u64);
    ir.append("\n  %both_int = and i1 %a_is_int, %b_is_int\n  br i1 %both_int, label %int_mul, label %float_mul\n\nint_mul:\n  %prod_int = mul i64 %a_data, %b_data\n  %result_int1 = insertvalue %RuntimeValue undef, i8 ");
    push_decimal(&mut ir, TAG_INT as u64);
    ir.append(", 0\n  %result_int2 = insertvalue %RuntimeValue %result_int1, i64 %prod_int, 1\n  ret %RuntimeValue %result_int2\n\nfloat_mul:\n  %a_is_float = icmp eq i8 %a_tag, ");
    push_decimal(&mut ir, TAG_FLOAT as u64);
    ir.append("\n  %a_float_bits = select i1 %a_is_float, i64 %a_data, i64 0\n  %a_float_val = bitcast i64 %a_float_bits to double\n  %a_int_val = sitofp i64 %a_data to double\n  %a_final = select i1 %a_is_float, double %a_float_val, double %a_int_val\n\n  %b_is_float = icmp eq i8 %b_tag, ");
    push_decimal(&mut ir, TAG_FLOAT as u64);
    ir.append("\n  %b_float_bits = select i1 %b_is_float, i64 %b_data, i64 0\n  %b_float_val = bitcast i64 %b_float_bits to double\n  %b_int_val = sitofp i64 %b_data to double\n  %b_final = select i1 %b_is_float, double %b_float_val, double %b_int_val\n\n  %prod_float = fmul double %a_final, %b_final\n  %prod_bits = bitcast double %prod_float to i64\n  %result_float1 = insertvalue %RuntimeValue undef, i8 ");
    push_decimal(&mut ir, TAG_FLOAT as u64);
    ir.append(", 0\n  %result_float2 = insertvalue %RuntimeValue %result_float1, i64 %prod_bits, 1\n  ret %RuntimeValue %result_float2\n}\n");
    ir
}

pub open spec fn ir_rt_div() -> Seq<char> {
    "\n; rt_div: Divide two numbers\ndefine %RuntimeValue @rt_div(%RuntimeValue %a, %RuntimeValue %b) {\nentry:\n  %a_tag = extractvalue %RuntimeValue %a, 0\n  %b_tag = extractvalue %RuntimeValue %b, 0\n  %a_data = extractvalue %RuntimeValue %a, 1\n  %b_data = extractvalue %RuntimeValue %b, 1\n\n  ; Always do float division for simplicity\n  %a_is_float = icmp eq i8 %a_tag, "@
        + decimal(TAG_FLOAT as nat)
        + "\n  %a_float_bits = select i1 %a_is_float, i64 %a_data, i64 0\n  %a_float_val = bitcast i64 %a_float_bits to double\n  %a_int_val = sitofp i64 %a_data to double\n  %a_final = select i1 %a_is_float, double %a_float_val, double %a_int_val\n\n  %b_is_float = icmp eq i8 %b_tag, "@
        + decimal(TAG_FLOAT as nat)
        + "\n  %b_float_bits = select i1 %b_is_float, i64 %b_data, i64 0\n  %b_float_val = bitcast i64 %b_float_bits to double\n  %b_int_val = sitofp i64 %b_data to double\n  %b_final = select i1 %b_is_float, double %b_float_val, double %b_int_val\n\n  %quot_float = fdiv double %a_final, %b_final\n  %quot_bits = bitcast double %quot_float to i64\n  %result1 = insertvalue %RuntimeValue undef, i8 "@
        + decimal(TAG_FLOAT as nat)
        + ", 0\n  %result2 = insertvalue %RuntimeValue %result1, i64 %quot_bits, 1\n  ret %RuntimeValue %result2\n}\n"@
}

fn generate_rt_div() -> (r: String)
    ensures
        r@ == ir_rt_div(),
{
    let mut ir = String::from_str("\n; rt_div: Divide two numbers\ndefine %RuntimeValue @rt_div(%RuntimeValue %a, %RuntimeValue %b) {\nentry:\n  %a_tag = extractvalue %RuntimeValue %a, 0\n  %b_tag = extractvalue %RuntimeValue %b, 0\n  %a_data = extractvalue %RuntimeValue %a, 1\n  %b_data = extractvalue %RuntimeValue %b, 1\n\n  ; Always do float division for simplicity\n  %a_is_float = icmp eq i8 %a_tag, ");
    push_decimal(&mut ir, TAG_FLOAT as u64);
    ir.append("\n  %a_float_bits = select i1 %a_is_float, i64 %a_data, i64 0\n  %a_float_val = bitcast i64 %a_float_bits to double\n  %a_int_val = sitofp i64 %a_data to double\n  %a_final = select i1 %a_is_float, double %a_float_val, double %a_int_val\n\n  %b_is_float = icmp eq i8 %b_tag, ");
    push_decimal(&mut ir, TAG_FLOAT as u64);
    ir.append("\n  %b_float_bits = select i1 %b_is_float, i64 %b_data, i64 0\n  %b_float_val = bitcast i64 %b_float_bits to double\n  %b_int_val = sitofp i64 %b_data to double\n  %b_final = select i1 %b_is_float, double %b_float_val, double %b_int_val\n\n  %quot_float = fdiv double %a_final, %b_final\n  %quot_bits = bitcast double %quot_float to i64\n  %result1 = insertvalue %RuntimeValue undef, i8 ");
    push_decimal(&mut ir, TAG_FLOAT as u64);
    ir.append(", 0\n  %result2 = insertvalue %RuntimeValue %result1, i64 %quot_bits, 1\n  ret %RuntimeValue %result2\n}\n");
    ir
}

pub open spec fn ir_rt_neg() -> Seq<char> {
    "\n; rt_neg: Negate a number\ndefine %RuntimeValue @rt_neg(%RuntimeValue %a) {\nentry:\n  %tag = extractvalue %RuntimeValue %a, 0\n  %data = extractvalue %RuntimeValue %a, 1\n\n  %is_int = icmp eq i8 %tag, "@
        + decimal(TAG_INT as nat)
        + "\n  br i1 %is_int, label %neg_int, label %neg_float\n\nneg_int:\n  %neg_val = sub i64 0, %data\n  %result_int1 = insertvalue %RuntimeValue undef, i8 "@
        + decimal(TAG_INT as nat)
        + ", 0\n  %result_int2 = insertvalue %RuntimeValue %result_int1, i64 %neg_val, 1\n  ret %RuntimeValue %result_int2\n\nneg_float:\n  %float_val = bitcast i64 %data to double\n  %neg_float_val = fneg double %float_val\n  %neg_bits = bitcast double %neg_float_val to i64\n  %result_float1 = insertvalue %RuntimeValue undef, i8 "@
        + decimal(TAG_FLOAT as nat)
        + ", 0\n  %result_float2 = insertvalue %RuntimeValue %result_float1, i64 %neg_bits, 1\n  ret %RuntimeValue %result_float2\n}\n"@
}

fn generate_rt_neg() -> (r: String)
    ensures
        r@ == ir_rt_neg(),
{
    let mut ir = String::from_str("\n; rt_neg: Negate a number\ndefine %RuntimeValue @rt_neg(%RuntimeValue %a) {\nentry:\n  %tag = extractvalue %RuntimeValue %a, 0\n  %data = extractvalue %RuntimeValue %a, 1\n\n  %is_int = icmp eq i8 %tag, ");
    push_decimal(&mut ir, TAG_INT as u64);
    ir.append("\n  br i1 %is_int, label %neg_int, label %neg_float\n\nneg_int:\n  %neg_val = sub i64 0, %data\n  %result_int1 = insertvalue %RuntimeValue undef, i8 ");
    push_decimal(&mut ir, TAG_INT as u64);
    ir.append(", 0\n  %result_int2 = insertvalue %RuntimeValue %result_int1, i64 %neg_val, 1\n  ret %RuntimeValue %result_int2\n\nneg_float:\n  %float_val = bitcast i64 %data to double\n  %neg_float_val = fneg double %float_val\n  %neg_bits = bitcast double %neg_float_val to i64\n  %result_float1 = insertvalue %RuntimeValue undef, i8 ");
    push_decimal(&mut ir, TAG_FLOAT as u64);
    ir.append(", 0\n  %result_float2 = insertvalue %RuntimeValue %result_float1, i64 %neg_bits, 1\n  ret %RuntimeValue %result_float2\n}\n");
    ir
}

pub open spec fn ir_rt_num_eq() -> Seq<char> {
    "\n; rt_num_eq: Numeric equality\ndefine %RuntimeValue @rt_num_eq(%RuntimeValue %a, %RuntimeValue %b) {\nentry:\n  %a_tag = extractvalue %RuntimeValue %a, 0\n  %b_tag = extractvalue %RuntimeValue %b, 0\n  %a_data = extractvalue %RuntimeValue %a, 1\n  %b_data = extractvalue %RuntimeValue %b, 1\n\n  ; Convert to float for comparison\n  %a_is_float = icmp eq i8 %a_tag, "@
        + decimal(TAG_FLOAT as nat)
        + "\n  %a_float_bits = select i1 %a_is_float, i64 %a_data, i64 0\n  %a_float_val = bitcast i64 %a_float_bits to double\n  %a_int_val = sitofp i64 %a_data to double\n  %a_final = select i1 %a_is_float, double %a_float_val, double %a_int_val\n\n  %b_is_float = icmp eq i8 %b_tag, "@
        + decimal(TAG_FLOAT as nat)
        + "\n  %b_float_bits = select i1 %b_is_float, i64 %b_data, i64 0\n  %b_float_val = bitcast i64 %b_float_bits to double\n  %b_int_val = sitofp i64 %b_data to double\n  %b_final = select i1 %b_is_float, double %b_float_val, double %b_int_val\n\n  %eq = fcmp oeq double %a_final, %b_final\n  %eq_int = zext i1 %eq to i64\n  %result1 = insertvalue %RuntimeValue undef, i8 "@
        + decimal(TAG_BOOL as nat)
        + ", 0\n  %result2 = insertvalue %RuntimeValue %result1, i64 %eq_int, 1\n  ret %RuntimeValue %result2\n}\n"@
}

fn generate_rt_num_eq() -> (r: String)
    ensures
        r@ == ir_rt_num_eq(),
{
    let mut ir = String::from_str("\n; rt_num_eq: Numeric equality\ndefine %RuntimeValue @rt_num_eq(%RuntimeValue %a, %RuntimeValue %b) {\nentry:\n  %a_tag = extractvalue %RuntimeValue %a, 0\n  %b_tag = extractvalue %RuntimeValue %b, 0\n  %a_data = extractvalue %RuntimeValue %a, 1\n  %b_data = extractvalue %RuntimeValue %b, 1\n\n  ; Convert to float for comparison\n  %a_is_float = icmp eq i8 %a_tag, ");
    push_decimal(&mut ir, TAG_FLOAT as u64);
    ir.append("\n  %a_float_bits = select i1 %a_is_float, i64 %a_data, i64 0\n  %a_float_val = bitcast i64 %a_float_bits to double\n  %a_int_val = sitofp i64 %a_data to double\n  %a_final = select i1 %a_is_float, double %a_float_val, double %a_int_val\n\n  %b_is_float = icmp eq i8 %b_tag, ");
    push_decimal(&mut ir, TAG_FLOAT as u64);
    ir.append("\n  %b_float_bits = select i1 %b_is_float, i64 %b_data, i64 0\n  %b_float_val = bitcast i64 %b_float_bits to double\n  %b_int_val = sitofp i64 %b_data to double\n  %b_final = select i1 %b_is_float, double %b_float_val, double %b_int_val\n\n  %eq = fcmp oeq double %a_final, %b_final\n  %eq_int = zext i1 %eq to i64\n  %result1 = insertvalue %RuntimeValue undef, i8 ");
    push_decimal(&mut ir, TAG_BOOL as u64);
    ir.append(", 0\n  %result2 = insertvalue %RuntimeValue %result1, i64 %eq_int, 1\n  ret %RuntimeValue %result2\n}\n");
    ir
}

pub open spec fn ir_rt_lt() -> Seq<char> {
    "\n; rt_lt: Less than comparison\ndefine %RuntimeValue @rt_lt(%RuntimeValue %a, %RuntimeValue %b) {\nentry:\n  %a_tag = extractvalue %RuntimeValue %a, 0\n  %b_tag = extractvalue %RuntimeValue %b, 0\n  %a_data = extractvalue %RuntimeValue %a, 1\n  %b_data = extractvalue %RuntimeValue %b, 1\n\n  %a_is_float = icmp eq i8 %a_tag, "@
        + decimal(TAG_FLOAT as nat)
        + "\n  %a_float_bits = select i1 %a_is_float, i64 %a_data, i64 0\n  %a_float_val = bitcast i64 %a_float_bits to double\n  %a_int_val = sitofp i64 %a_data to double\n  %a_final = select i1 %a_is_float, double %a_float_val, double %a_int_val\n\n  %b_is_float = icmp eq i8 %b_tag, "@
        + decimal(TAG_FLOAT as nat)
        + "\n  %b_float_bits = select i1 %b_is_float, i64 %b_data, i64 0\n  %b_float_val = bitcast i64 %b_float_bits to double\n  %b_int_val = sitofp i64 %b_data to double\n  %b_final = select i1 %b_is_float, double %b_float_val, double %b_int_val\n\n  %lt = fcmp olt double %a_final, %b_final\n  %lt_int = zext i1 %lt to i64\n  %result1 = insertvalue %RuntimeValue undef, i8 "@
        + decimal(TAG_BOOL as nat)
        + ", 0\n  %result2 = insertvalue %RuntimeValue %result1, i64 %lt_int, 1\n  ret %RuntimeValue %result2\n}\n"@
}

fn generate_rt_lt() -> (r: String)
    ensures
        r@ == ir_rt_lt(),
{
    let mut ir = String::from_str("\n; rt_lt: Less than comparison\ndefine %RuntimeValue @rt_lt(%RuntimeValue %a, %RuntimeValue %b) {\nentry:\n  %a_tag = extractvalue %RuntimeValue %a, 0\n  %b_tag = extractvalue %RuntimeValue %b, 0\n  %a_data = extractvalue %RuntimeValue %a, 1\n  %b_data = extractvalue %RuntimeValue %b, 1\n\n  %a_is_float = icmp eq i8 %a_tag, ");
    push_decimal(&mut ir, TAG_FLOAT as u64);
    ir.append("\n  %a_float_bits = select i1 %a_is_float, i64 %a_data, i64 0\n  %a_float_val = bitcast i64 %a_float_bits to double\n  %a_int_val = sitofp i64 %a_data to double\n  %a_final = select i1 %a_is_float, double %a_float_val, double %a_int_val\n\n  %b_is_float = icmp eq i8 %b_tag, ");
    push_decimal(&mut ir, TAG_FLOAT as u64);
    ir.append("\n  %b_float_bits = select i1 %b_is_float, i64 %b_data, i64 0\n  %b_float_val = bitcast i64 %b_float_bits to double\n  %b_int_val = sitofp i64 %b_data to double\n  %b_final = select i1 %b_is_float, double %b_float_val, double %b_int_val\n\n  %lt = fcmp olt double %a_final, %b_final\n  %lt_int = zext i1 %lt to i64\n  %result1 = insertvalue %RuntimeValue undef, i8 ");
    push_decimal(&mut ir, TAG_BOOL as u64);
    ir.append(", 0\n  %result2 = insertvalue %RuntimeValue %result1, i64 %lt_int, 1\n  ret %RuntimeValue %result2\n}\n");
    ir
}

pub open spec fn ir_rt_gt() -> Seq<char> {
    "\n; rt_gt: Greater than comparison\ndefine %RuntimeValue @rt_gt(%RuntimeValue %a, %RuntimeValue %b) {\nentry:\n  %a_tag = extractvalue %RuntimeValue %a, 0\n  %b_tag = extractvalue %RuntimeValue %b, 0\n  %a_data = extractvalue %RuntimeValue %a, 1\n  %b_data = extractvalue %RuntimeValue %b, 1\n\n  %a_is_float = icmp eq i8 %a_tag, "@
        + decimal(TAG_FLOAT as nat)
        + "\n  %a_float_bits = select i1 %a_is_float, i64 %a_data, i64 0\n  %a_float_val = bitcast i64 %a_float_bits to double\n  %a_int_val = sitofp i64 %a_data to double\n  %a_final = select i1 %a_is_float, double %a_float_val, double %a_int_val\n\n  %b_is_float = icmp eq i8 %b_tag, "@
        + decimal(TAG_FLOAT as nat)
        + "\n  %b_float_bits = select i1 %b_is_float, i64 %b_data, i64 0\n  %b_float_val = bitcast i64 %b_float_bits to double\n  %b_int_val = sitofp i64 %b_data to double\n  %b_final = select i1 %b_is_float, double %b_float_val, double %b_int_val\n\n  %gt = fcmp ogt double %a_final, %b_final\n  %gt_int = zext i1 %gt to i64\n  %result1 = insertvalue %RuntimeValue undef, i8 "@
        + decimal(TAG_BOOL as nat)
        + ", 0\n  %result2 = insertvalue %RuntimeValue %result1, i64 %gt_int, 1\n  ret %RuntimeValue %result2\n}\n"@
}

fn generate_rt_gt() -> (r: String)
    ensures
        r@ == ir_rt_gt(),
{
    let mut ir = String::from_str("\n; rt_gt: Greater than comparison\ndefine %RuntimeValue @rt_gt(%RuntimeValue %a, %RuntimeValue %b) {\nentry:\n  %a_tag = extractvalue %RuntimeValue %a, 0\n  %b_tag = extractvalue %RuntimeValue %b, 0\n  %a_data = extractvalue %RuntimeValue %a, 1\n  %b_data = extractvalue %RuntimeValue %b, 1\n\n  %a_is_float = icmp eq i8 %a_tag, ");
    push_decimal(&mut ir, TAG_FLOAT as u64);
    ir.append("\n  %a_float_bits = select i1 %a_is_float, i64 %a_data, i64 0\n  %a_float_val = bitcast i64 %a_float_bits to double\n  %a_int_val = sitofp i64 %a_data to double\n  %a_final = select i1 %a_is_float, double %a_float_val, double %a_int_val\n\n  %b_is_float = icmp eq i8 %b_tag, ");
    push_decimal(&mut ir, TAG_FLOAT as u64);
    ir.append("\n  %b_float_bits = select i1 %b_is_float, i64 %b_data, i64 0\n  %b_float_val = bitcast i64 %b_float_bits to double\n  %b_int_val = sitofp i64 %b_data to double\n  %b_final = select i1 %b_is_float, double %b_float_val, double %b_int_val\n\n  %gt = fcmp ogt double %a_final, %b_final\n  %gt_int = zext i1 %gt to i64\n  %result1 = insertvalue %RuntimeValue undef, i8 ");
    push_decimal(&mut ir, TAG_BOOL as u64);
    ir.append(", 0\n  %result2 = insertvalue %RuntimeValue %result1, i64 %gt_int, 1\n  ret %RuntimeValue %result2\n}\n");
    ir
}

pub open spec fn ir_rt_lte() -> Seq<char> {
    "\n; rt_lte: Less than or equal comparison\ndefine %RuntimeValue @rt_lte(%RuntimeValue %a, %RuntimeValue %b) {\nentry:\n  %a_tag = extractvalue %RuntimeValue %a, 0\n  %b_tag = extractvalue %RuntimeValue %b, 0\n  %a_data = extractvalue %RuntimeValue %a, 1\n  %b_data = extractvalue %RuntimeValue %b, 1\n\n  %a_is_float = icmp eq i8 %a_tag, "@
        + decimal(TAG_FLOAT as nat)
        + "\n  %a_float_bits = select i1 %a_is_float, i64 %a_data, i64 0\n  %a_float_val = bitcast i64 %a_float_bits to double\n  %a_int_val = sitofp i64 %a_data to double\n  %a_final = select i1 %a_is_float, double %a_float_val, double %a_int_val\n\n  %b_is_float = icmp eq i8 %b_tag, "@
        + decimal(TAG_FLOAT as nat)
        + "\n  %b_float_bits = select i1 %b_is_float, i64 %b_data, i64 0\n  %b_float_val = bitcast i64 %b_float_bits to double\n  %b_int_val = sitofp i64 %b_data to double\n  %b_final = select i1 %b_is_float, double %b_float_val, double %b_int_val\n\n  %lte = fcmp ole double %a_final, %b_final\n  %lte_int = zext i1 %lte to i64\n  %result1 = insertvalue %RuntimeValue undef, i8 "@
        + decimal(TAG_BOOL as nat)
        + ", 0\n  %result2 = insertvalue %RuntimeValue %result1, i64 %lte_int, 1\n  ret %RuntimeValue %result2\n}\n"@
}

fn generate_rt_lte() -> (r: String)
    ensures
        r@ == ir_rt_lte(),
{
    let mut ir = String::from_str("\n; rt_lte: Less than or equal comparison\ndefine %RuntimeValue @rt_lte(%RuntimeValue %a, %RuntimeValue %b) {\nentry:\n  %a_tag = extractvalue %RuntimeValue %a, 0\n  %b_tag = extractvalue %RuntimeValue %b, 0\n  %a_data = extractvalue %RuntimeValue %a, 1\n  %b_data = extractvalue %RuntimeValue %b, 1\n\n  %a_is_float = icmp eq i8 %a_tag, ");
    push_decimal(&mut ir, TAG_FLOAT as u64);
    ir.append("\n  %a_float_bits = select i1 %a_is_float, i64 %a_data, i64 0\n  %a_float_val = bitcast i64 %a_float_bits to double\n  %a_int_val = sitofp i64 %a_data to double\n  %a_final = select i1 %a_is_float, double %a_float_val, double %a_int_val\n\n  %b_is_float = icmp eq i8 %b_tag, ");
    push_decimal(&mut ir, TAG_FLOAT as u64);
    ir.append("\n  %b_float_bits = select i1 %b_is_float, i64 %b_data, i64 0\n  %b_float_val = bitcast i64 %b_float_bits to double\n  %b_int_val = sitofp i64 %b_data to double\n  %b_final = select i1 %b_is_float, double %b_float_val, double %b_int_val\n\n  %lte = fcmp ole double %a_final, %b_final\n  %lte_int = zext i1 %lte to i64\n  %result1 = insertvalue %RuntimeValue undef, i8 ");
    push_decimal(&mut ir, TAG_BOOL as u64);
    ir.append(", 0\n  %result2 = insertvalue %RuntimeValue %result1, i64 %lte_int, 1\n  ret %RuntimeValue %result2\n}\n");
    ir
}

pub open spec fn ir_rt_gte() -> Seq<char> {
    "\n; rt_gte: Greater than or equal comparison\ndefine %RuntimeValue @rt_gte(%RuntimeValue %a, %RuntimeValue %b) {\nentry:\n  %a_tag = extractvalue %RuntimeValue %a, 0\n  %b_tag = extractvalue %RuntimeValue %b, 0\n  %a_data = extractvalue %RuntimeValue %a, 1\n  %b_data = extractvalue %RuntimeValue %b, 1\n\n  %a_is_float = icmp eq i8 %a_tag, "@
        + decimal(TAG_FLOAT as nat)
        + "\n  %a_float_bits = select i1 %a_is_float, i64 %a_data, i64 0\n  %a_float_val = bitcast i64 %a_float_bits to double\n  %a_int_val = sitofp i64 %a_data to double\n  %a_final = select i1 %a_is_float, double %a_float_val, double %a_int_val\n\n  %b_is_float = icmp eq i8 %b_tag, "@
        + decimal(TAG_FLOAT as nat)
        + "\n  %b_float_bits = select i1 %b_is_float, i64 %b_data, i64 0\n  %b_float_val = bitcast i64 %b_float_bits to double\n  %b_int_val = sitofp i64 %b_data to double\n  %b_final = select i1 %b_is_float, double %b_float_val, double %b_int_val\n\n  %gte = fcmp oge double %a_final, %b_final\n  %gte_int = zext i1 %gte to i64\n  %result1 = insertvalue %RuntimeValue undef, i8 "@
        + decimal(TAG_BOOL as nat)
        + ", 0\n  %result2 = insertvalue %RuntimeValue %result1, i64 %gte_int, 1\n  ret %RuntimeValue %result2\n}\n"@
}

fn generate_rt_gte() -> (r: String)
    ensures
        r@ == ir_rt_gte(),
{
    let mut ir = String::from_str("\n; rt_gte: Greater than or equal comparison\ndefine %RuntimeValue @rt_gte(%RuntimeValue %a, %RuntimeValue %b) {\nentry:\n  %a_tag = extractvalue %RuntimeValue %a, 0\n  %b_tag = extractvalue %RuntimeValue %b, 0\n  %a_data = extractvalue %RuntimeValue %a, 1\n  %b_data = extractvalue %RuntimeValue %b, 1\n\n  %a_is_float = icmp eq i8 %a_tag, ");
    push_decimal(&mut ir, TAG_FLOAT as u64);
    ir.append("\n  %a_float_bits = select i1 %a_is_float, i64 %a_data, i64 0\n  %a_float_val = bitcast i64 %a_float_bits to double\n  %a_int_val = sitofp i64 %a_data to double\n  %a_final = select i1 %a_is_float, double %a_float_val, double %a_int_val\n\n  %b_is_float = icmp eq i8 %b_tag, ");
    push_decimal(&mut ir, TAG_FLOAT as u64);
    ir.append("\n  %b_float_bits = select i1 %b_is_float, i64 %b_data, i64 0\n  %b_float_val = bitcast i64 %b_float_bits to double\n  %b_int_val = sitofp i64 %b_data to double\n  %b_final = select i1 %b_is_float, double %b_float_val, double %b_int_val\n\n  %gte = fcmp oge double %a_final, %b_final\n  %gte_int = zext i1 %gte to i64\n  %result1 = insertvalue %RuntimeValue undef, i8 ");
    push_decimal(&mut ir, TAG_BOOL as u64);
    ir.append(", 0\n  %result2 = insertvalue %RuntimeValue %result1, i64 %gte_int, 1\n  ret %RuntimeValue %result2\n}\n");
    ir
}

pub open spec fn ir_rt_eq() -> Seq<char> {
    "\n; rt_eq: Value equality\ndefine %RuntimeValue @rt_eq(%RuntimeValue %a, %RuntimeValue %b) {\nentry:\n  %a_tag = extractvalue %RuntimeValue %a, 0\n  %b_tag = extractvalue %RuntimeValue %b, 0\n  %tags_equal = icmp eq i8 %a_tag, %b_tag\n  br i1 %tags_equal, label %check_data, label %not_equal\n\ncheck_data:\n  %a_data = extractvalue %RuntimeValue %a, 1\n  %b_data = extractvalue %RuntimeValue %b, 1\n  %data_equal = icmp eq i64 %a_data, %b_data\n  br i1 %data_equal, label %equal, label %not_equal\n\nequal:\n  %result_true1 = insertvalue %RuntimeValue undef, i8 "@
        + decimal(TAG_BOOL as nat)
        + ", 0\n  %result_true2 = insertvalue %RuntimeValue %result_true1, i64 1, 1\n  ret %RuntimeValue %result_true2\n\nnot_equal:\n  %result_false1 = insertvalue %RuntimeValue undef, i8 "@
        + decimal(TAG_BOOL as nat)
        + ", 0\n  %result_false2 = insertvalue %RuntimeValue %result_false1, i64 0, 1\n  ret %RuntimeValue %result_false2\n}\n"@
}

fn generate_rt_eq() -> (r: String)
    ensures
        r@ == ir_rt_eq(),
{
    let mut ir = String::from_str("\n; rt_eq: Value equality\ndefine %RuntimeValue @rt_eq(%RuntimeValue %a, %RuntimeValue %b) {\nentry:\n  %a_tag = extractvalue %RuntimeValue %a, 0\n  %b_tag = extractvalue %RuntimeValue %b, 0\n  %tags_equal = icmp eq i8 %a_tag, %b_tag\n  br i1 %tags_equal, label %check_data, label %not_equal\n\ncheck_data:\n  %a_data = extractvalue %RuntimeValue %a, 1\n  %b_data = extractvalue %RuntimeValue %b, 1\n  %data_equal = icmp eq i64 %a_data, %b_data\n  br i1 %data_equal, label %equal, label %not_equal\n\nequal:\n  %result_true1 = insertvalue %RuntimeValue undef, i8 ");
    push_decimal(&mut ir, TAG_BOOL as u64);
    ir.append(", 0\n  %result_true2 = insertvalue %RuntimeValue %result_true1, i64 1, 1\n  ret %RuntimeValue %result_true2\n\nnot_equal:\n  %result_false1 = insertvalue %RuntimeValue undef, i8 ");
    push_decimal(&mut ir, TAG_BOOL as u64);
    ir.append(", 0\n  %result_false2 = insertvalue %RuntimeValue %result_false1, i64 0, 1\n  ret %RuntimeValue %result_false2\n}\n");
    ir
}

pub open spec fn ir_rt_is_nil() -> Seq<char> {
    "\n; rt_is_nil: Check if value is nil\ndefine %RuntimeValue @rt_is_nil(%RuntimeValue %val) {\nentry:\n  %tag = extractvalue %RuntimeValue %val, 0\n  %is_nil = icmp eq i8 %tag, "@
        + decimal(TAG_NIL as nat)
        + "\n  %is_nil_int = zext i1 %is_nil to i64\n  %result1 = insertvalue %RuntimeValue undef, i8 "@
        + decimal(TAG_BOOL as nat)
        + ", 0\n  %result2 = insertvalue %RuntimeValue %result1, i64 %is_nil_int, 1\n  ret %RuntimeValue %result2\n}\n"@
}

fn generate_rt_is_nil() -> (r: String)
    ensures
        r@ == ir_rt_is_nil(),
{
    let mut ir = String::from_str("\n; rt_is_nil: Check if value is nil\ndefine %RuntimeValue @rt_is_nil(%RuntimeValue %val) {\nentry:\n  %tag = extractvalue %RuntimeValue %val, 0\n  %is_nil = icmp eq i8 %tag, ");
    push_decimal(&mut ir, TAG_NIL as u64);
    ir.append("\n  %is_nil_int = zext i1 %is_nil to i64\n  %result1 = insertvalue %RuntimeValue undef, i8 ");
    push_decimal(&mut ir, TAG_BOOL as u64);
    ir.append(", 0\n  %result2 = insertvalue %RuntimeValue %result1, i64 %is_nil_int, 1\n  ret %RuntimeValue %result2\n}\n");
    ir
}

pub open spec fn ir_rt_is_atom() -> Seq<char> {
    "\n; rt_is_atom: Check if value is an atom (not a cons cell)\ndefine %RuntimeValue @rt_is_atom(%RuntimeValue %val) {\nentry:\n  %tag = extractvalue %RuntimeValue %val, 0\n  %is_cons = icmp eq i8 %tag, "@
        + decimal(TAG_CONS as nat)
        + "\n  %is_atom = xor i1 %is_cons, true\n  %is_atom_int = zext i1 %is_atom to i64\n  %result1 = insertvalue %RuntimeValue undef, i8 "@
        + decimal(TAG_BOOL as nat)
        + ", 0\n  %result2 = insertvalue %RuntimeValue %result1, i64 %is_atom_int, 1\n  ret %RuntimeValue %result2\n}\n"@
}

fn generate_rt_is_atom() -> (r: String)
    ensures
        r@ == ir_rt_is_atom(),
{
    let mut ir = String::from_str("\n; rt_is_atom: Check if value is an atom (not a cons cell)\ndefine %RuntimeValue @rt_is_atom(%RuntimeValue %val) {\nentry:\n  %tag = extractvalue %RuntimeValue %val, 0\n  %is_cons = icmp eq i8 %tag, ");
    push_decimal(&mut ir, TAG_CONS as u64);
    ir.append("\n  %is_atom = xor i1 %is_cons, true\n  %is_atom_int = zext i1 %is_atom to i64\n  %result1 = insertvalue %RuntimeValue undef, i8 ");
    push_decimal(&mut ir, TAG_BOOL as u64);
    ir.append(", 0\n  %result2 = insertvalue %RuntimeValue %result1, i64 %is_atom_int, 1\n  ret %RuntimeValue %result2\n}\n");
    ir
}

pub open spec fn ir_rt_is_cons() -> Seq<char> {
    "\n; rt_is_cons: Check if value is a cons cell\ndefine %RuntimeValue @rt_is_cons(%RuntimeValue %val) {\nentry:\n  %tag = extractvalue %RuntimeValue %val, 0\n  %is_cons = icmp eq i8 %tag, "@
        + decimal(TAG_CONS as nat)
        + "\n  %is_cons_int = zext i1 %is_cons to i64\n  %result1 = insertvalue %RuntimeValue undef, i8 "@
        + decimal(TAG_BOOL as nat)
        + ", 0\n  %result2 = insertvalue %RuntimeValue %result1, i64 %is_cons_int, 1\n  ret %RuntimeValue %result2\n}\n"@
}

fn generate_rt_is_cons() -> (r: String)
    ensures
        r@ == ir_rt_is_cons(),
{
    let mut ir = String::from_str("\n; rt_is_cons: Check if value is a cons cell\ndefine %RuntimeValue @rt_is_cons(%RuntimeValue %val) {\nentry:\n  %tag = extractvalue %RuntimeValue %val, 0\n  %is_cons = icmp eq i8 %tag, ");
    push_decimal(&mut ir, TAG_CONS as u64);
    ir.append("\n  %is_cons_int = zext i1 %is_cons to i64\n  %result1 = insertvalue %RuntimeValue undef, i8 ");
    push_decimal(&mut ir, TAG_BOOL as u64);
    ir.append(", 0\n  %result2 = insertvalue %RuntimeValue %result1, i64 %is_cons_int, 1\n  ret %RuntimeValue %result2\n}\n");
    ir
}

pub open spec fn ir_rt_is_number() -> Seq<char> {
    "\n; rt_is_number: Check if value is a number\ndefine %RuntimeValue @rt_is_number(%RuntimeValue %val) {\nentry:\n  %tag = extractvalue %RuntimeValue %val, 0\n  %is_int = icmp eq i8 %tag, "@
        + decimal(TAG_INT as nat)
        + "\n  %is_float = icmp eq i8 %tag, "@
        + decimal(TAG_FLOAT as nat)
        + "\n  %is_number = or i1 %is_int, %is_float\n  %is_number_int = zext i1 %is_number to i64\n  %result1 = insertvalue %RuntimeValue undef, i8 "@
        + decimal(TAG_BOOL as nat)
        + ", 0\n  %result2 = insertvalue %RuntimeValue %result1, i64 %is_number_int, 1\n  ret %RuntimeValue %result2\n}\n"@
}

fn generate_rt_is_number() -> (r: String)
    ensures
        r@ == ir_rt_is_number(),
{
    let mut ir = String::from_str("\n; rt_is_number: Check if value is a number\ndefine %RuntimeValue @rt_is_number(%RuntimeValue %val) {\nentry:\n  %tag = extractvalue %RuntimeValue %val, 0\n  %is_int = icmp eq i8 %tag, ");
    push_decimal(&mut ir, TAG_INT as u64);
    ir.append("\n  %is_float = icmp eq i8 %tag, ");
    push_decimal(&mut ir, TAG_FLOAT as u64);
    ir.append("\n  %is_number = or i1 %is_int, %is_float\n  %is_number_int = zext i1 %is_number to i64\n  %result1 = insertvalue %RuntimeValue undef, i8 ");
    push_decimal(&mut ir, TAG_BOOL as u64);
    ir.append(", 0\n  %result2 = insertvalue %RuntimeValue %result1, i64 %is_number_int, 1\n  ret %RuntimeValue %result2\n}\n");
    ir
}

pub open spec fn ir_rt_not() -> Seq<char> {
    "\n; rt_not: Boolean not\ndefine %RuntimeValue @rt_not(%RuntimeValue %val) {\nentry:\n  %tag = extractvalue %RuntimeValue %val, 0\n  %data = extractvalue %RuntimeValue %val, 1\n\n  ; Check if nil\n  %is_nil = icmp eq i8 %tag, "@
        + decimal(TAG_NIL as nat)
        + "\n  br i1 %is_nil, label %return_true, label %check_bool\n\ncheck_bool:\n  ; Check if false\n  %is_bool = icmp eq i8 %tag, "@
        + decimal(TAG_BOOL as nat)
        + "\n  %is_false = icmp eq i64 %data, 0\n  %is_bool_false = and i1 %is_bool, %is_false\n  br i1 %is_bool_false, label %return_true, label %return_false\n\nreturn_true:\n  %result_true1 = insertvalue %RuntimeValue undef, i8 "@
        + decimal(TAG_BOOL as nat)
        + ", 0\n  %result_true2 = insertvalue %RuntimeValue %result_true1, i64 1, 1\n  ret %RuntimeValue %result_true2\n\nreturn_false:\n  %result_false1 = insertvalue %RuntimeValue undef, i8 "@
        + decimal(TAG_BOOL as nat)
        + ", 0\n  %result_false2 = insertvalue %RuntimeValue %result_false1, i64 0, 1\n  ret %RuntimeValue %result_false2\n}\n"@
}

fn generate_rt_not() -> (r: String)
    ensures
        r@ == ir_rt_not(),
{
    let mut ir = String::from_str("\n; rt_not: Boolean not\ndefine %RuntimeValue @rt_not(%RuntimeValue %val) {\nentry:\n  %tag = extractvalue %RuntimeValue %val, 0\n  %data = extractvalue %RuntimeValue %val, 1\n\n  ; Check if nil\n  %is_nil = icmp eq i8 %tag, ");
    push_decimal(&mut ir, TAG_NIL as u64);
    ir.append("\n  br i1 %is_nil, label %return_true, label %check_bool\n\ncheck_bool:\n  ; Check if false\n  %is_bool = icmp eq i8 %tag, ");
    push_decimal(&mut ir, TAG_BOOL as u64);
    ir.append("\n  %is_false = icmp eq i64 %data, 0\n  %is_bool_false = and i1 %is_bool, %is_false\n  br i1 %is_bool_false, label %return_true, label %return_false\n\nreturn_true:\n  %result_true1 = insertvalue %RuntimeValue undef, i8 ");
    push_decimal(&mut ir, TAG_BOOL as u64);
    ir.append(", 0\n  %result_true2 = insertvalue %RuntimeValue %result_true1, i64 1, 1\n  ret %RuntimeValue %result_true2\n\nreturn_false:\n  %result_false1 = insertvalue %RuntimeValue undef, i8 ");
    push_decimal(&mut ir, TAG_BOOL as u64);
    ir.append(", 0\n  %result_false2 = insertvalue %RuntimeValue %result_false1, i64 0, 1\n  ret %RuntimeValue %result_false2\n}\n");
    ir
}

pub open spec fn ir_rt_incref() -> Seq<char> {
    "\n; rt_incref: Increment reference count (no-op for AOT)\ndefine void @rt_incref(%RuntimeValue %val) {\nentry:\n  ret void\n}\n"@
}

fn generate_rt_incref() -> (r: String)
    ensures
        r@ == ir_rt_incref(),
{
    String::from_str("\n; rt_incref: Increment reference count (no-op for AOT)\ndefine void @rt_incref(%RuntimeValue %val) {\nentry:\n  ret void\n}\n")
}

pub open spec fn ir_rt_decref() -> Seq<char> {
    "\n; rt_decref: Decrement reference count (no-op for AOT - rely on OS cleanup)\ndefine void @rt_decref(%RuntimeValue %val) {\nentry:\n  ret void\n}\n"@
}

fn generate_rt_decref() -> (r: String)
    ensures
        r@ == ir_rt_decref(),
{
    String::from_str("\n; rt_decref: Decrement reference count (no-op for AOT - rely on OS cleanup)\ndefine void @rt_decref(%RuntimeValue %val) {\nentry:\n  ret void\n}\n")
}

pub open spec fn ir_rt_make_closure() -> Seq<char> {
    "\n; rt_make_closure: Create a closure\ndefine %RuntimeValue @rt_make_closure(ptr %fn_ptr, ptr %env_values, i32 %env_size) {\nentry:\n  ; Allocate closure struct\n  %closure_ptr = call ptr @malloc(i64 32)\n\n  ; Store function pointer\n  %fn_ptr_slot = getelementptr %RuntimeClosure, ptr %closure_ptr, i32 0, i32 0\n  store ptr %fn_ptr, ptr %fn_ptr_slot\n\n  ; Allocate and copy environment if non-empty\n  %env_empty = icmp eq i32 %env_size, 0\n  br i1 %env_empty, label %store_null_env, label %copy_env\n\ncopy_env:\n  %env_bytes = mul i32 %env_size, 16  ; sizeof(RuntimeValue) = 16\n  %env_bytes_64 = zext i32 %env_bytes to i64\n  %new_env = call ptr @malloc(i64 %env_bytes_64)\n  call ptr @memcpy(ptr %new_env, ptr %env_values, i64 %env_bytes_64)\n  br label %store_env\n\nstore_null_env:\n  br label %store_env\n\nstore_env:\n  %env_to_store = phi ptr [ null, %store_null_env ], [ %new_env, %copy_env ]\n  %env_slot = getelementptr %RuntimeClosure, ptr %closure_ptr, i32 0, i32 1\n  store ptr %env_to_store, ptr %env_slot\n\n  ; Store env size\n  %size_slot = getelementptr %RuntimeClosure, ptr %closure_ptr, i32 0, i32 2\n  store i32 %env_size, ptr %size_slot\n\n  ; Store refcount\n  %refcount_slot = getelementptr %RuntimeClosure, ptr %closure_ptr, i32 0, i32 3\n  store i32 1, ptr %refcount_slot\n\n  ; Create result RuntimeValue\n  %ptr_int = ptrtoint ptr %closure_ptr to i64\n  %result1 = insertvalue %RuntimeValue undef, i8 "@
        + decimal(TAG_CLOSURE as nat)
        + ", 0\n  %result2 = insertvalue %RuntimeValue %result1, i64 %ptr_int, 1\n  ret %RuntimeValue %result2\n}\n"@
}

fn generate_rt_make_closure() -> (r: String)
    ensures
        r@ == ir_rt_make_closure(),
{
    let mut ir = String::from_str("\n; rt_make_closure: Create a closure\ndefine %RuntimeValue @rt_make_closure(ptr %fn_ptr, ptr %env_values, i32 %env_size) {\nentry:\n  ; Allocate closure struct\n  %closure_ptr = call ptr @malloc(i64 32)\n\n  ; Store function pointer\n  %fn_ptr_slot = getelementptr %RuntimeClosure, ptr %closure_ptr, i32 0, i32 0\n  store ptr %fn_ptr, ptr %fn_ptr_slot\n\n  ; Allocate and copy environment if non-empty\n  %env_empty = icmp eq i32 %env_size, 0\n  br i1 %env_empty, label %store_null_env, label %copy_env\n\ncopy_env:\n  %env_bytes = mul i32 %env_size, 16  ; sizeof(RuntimeValue) = 16\n  %env_bytes_64 = zext i32 %env_bytes to i64\n  %new_env = call ptr @malloc(i64 %env_bytes_64)\n  call ptr @memcpy(ptr %new_env, ptr %env_values, i64 %env_bytes_64)\n  br label %store_env\n\nstore_null_env:\n  br label %store_env\n\nstore_env:\n  %env_to_store = phi ptr [ null, %store_null_env ], [ %new_env, %copy_env ]\n  %env_slot = getelementptr %RuntimeClosure, ptr %closure_ptr, i32 0, i32 1\n  store ptr %env_to_store, ptr %env_slot\n\n  ; Store env size\n  %size_slot = getelementptr %RuntimeClosure, ptr %closure_ptr, i32 0, i32 2\n  store i32 %env_size, ptr %size_slot\n\n  ; Store refcount\n  %refcount_slot = getelementptr %RuntimeClosure, ptr %closure_ptr, i32 0, i32 3\n  store i32 1, ptr %refcount_slot\n\n  ; Create result RuntimeValue\n  %ptr_int = ptrtoint ptr %closure_ptr to i64\n  %result1 = insertvalue %RuntimeValue undef, i8 ");
    push_decimal(&mut ir, TAG_CLOSURE as u64);
    ir.append(", 0\n  %result2 = insertvalue %RuntimeValue %result1, i64 %ptr_int, 1\n  ret %RuntimeValue %result2\n}\n");
    ir
}

pub open spec fn ir_rt_closure_fn_ptr() -> Seq<char> {
    "\n; rt_closure_fn_ptr: Get function pointer from closure\ndefine ptr @rt_closure_fn_ptr(%RuntimeValue %val) {\nentry:\n  %tag = extractvalue %RuntimeValue %val, 0\n  %is_closure = icmp eq i8 %tag, "@
        + decimal(TAG_CLOSURE as nat)
        + "\n  br i1 %is_closure, label %extract, label %error\n\nextract:\n  %ptr_int = extractvalue %RuntimeValue %val, 1\n  %closure_ptr = inttoptr i64 %ptr_int to ptr\n  %fn_ptr_slot = getelementptr %RuntimeClosure, ptr %closure_ptr, i32 0, i32 0\n  %fn_ptr = load ptr, ptr %fn_ptr_slot\n  ret ptr %fn_ptr\n\nerror:\n  ret ptr null\n}\n"@
}

fn generate_rt_closure_fn_ptr() -> (r: String)
    ensures
        r@ == ir_rt_closure_fn_ptr(),
{
    let mut ir = String::from_str("\n; rt_closure_fn_ptr: Get function pointer from closure\ndefine ptr @rt_closure_fn_ptr(%RuntimeValue %val) {\nentry:\n  %tag = extractvalue %RuntimeValue %val, 0\n  %is_closure = icmp eq i8 %tag, ");
    push_decimal(&mut ir, TAG_CLOSURE as u64);
    ir.append("\n  br i1 %is_closure, label %extract, label %error\n\nextract:\n  %ptr_int = extractvalue %RuntimeValue %val, 1\n  %closure_ptr = inttoptr i64 %ptr_int to ptr\n  %fn_ptr_slot = getelementptr %RuntimeClosure, ptr %closure_ptr, i32 0, i32 0\n  %fn_ptr = load ptr, ptr %fn_ptr_slot\n  ret ptr %fn_ptr\n\nerror:\n  ret ptr null\n}\n");
    ir
}

pub open spec fn ir_rt_closure_env_get() -> Seq<char> {
    "\n; rt_closure_env_get: Get captured value from closure environment\ndefine %RuntimeValue @rt_closure_env_get(%RuntimeValue %val, i32 %index) {\nentry:\n  %tag = extractvalue %RuntimeValue %val, 0\n  %is_closure = icmp eq i8 %tag, "@
        + decimal(TAG_CLOSURE as nat)
        + "\n  br i1 %is_closure, label %check_bounds, label %return_nil\n\ncheck_bounds:\n  %ptr_int = extractvalue %RuntimeValue %val, 1\n  %closure_ptr = inttoptr i64 %ptr_int to ptr\n  %size_slot = getelementptr %RuntimeClosure, ptr %closure_ptr, i32 0, i32 2\n  %env_size = load i32, ptr %size_slot\n  %in_bounds = icmp ult i32 %index, %env_size\n  br i1 %in_bounds, label %extract, label %return_nil\n\nextract:\n  %env_slot = getelementptr %RuntimeClosure, ptr %closure_ptr, i32 0, i32 1\n  %env = load ptr, ptr %env_slot\n  %val_ptr = getelementptr %RuntimeValue, ptr %env, i32 %index\n  %result = load %RuntimeValue, ptr %val_ptr\n  ret %RuntimeValue %result\n\nreturn_nil:\n  %nil1 = insertvalue %RuntimeValue undef, i8 "@
        + decimal(TAG_NIL as nat)
        + ", 0\n  %nil2 = insertvalue %RuntimeValue %nil1, i64 0, 1\n  ret %RuntimeValue %nil2\n}\n"@
}

fn generate_rt_closure_env_get() -> (r: String)
    ensures
        r@ == ir_rt_closure_env_get(),
{
    let mut ir = String::from_str("\n; rt_closure_env_get: Get captured value from closure environment\ndefine %RuntimeValue @rt_closure_env_get(%RuntimeValue %val, i32 %index) {\nentry:\n  %tag = extractvalue %RuntimeValue %val, 0\n  %is_closure = icmp eq i8 %tag, ");
    push_decimal(&mut ir, TAG_CLOSURE as u64);
    ir.append("\n  br i1 %is_closure, label %check_bounds, label %return_nil\n\ncheck_bounds:\n  %ptr_int = extractvalue %RuntimeValue %val, 1\n  %closure_ptr = inttoptr i64 %ptr_int to ptr\n  %size_slot = getelementptr %RuntimeClosure, ptr %closure_ptr, i32 0, i32 2\n  %env_size = load i32, ptr %size_slot\n  %in_bounds = icmp ult i32 %index, %env_size\n  br i1 %in_bounds, label %extract, label %return_nil\n\nextract:\n  %env_slot = getelementptr %RuntimeClosure, ptr %closure_ptr, i32 0, i32 1\n  %env = load ptr, ptr %env_slot\n  %val_ptr = getelementptr %RuntimeValue, ptr %env, i32 %index\n  %result = load %RuntimeValue, ptr %val_ptr\n  ret %RuntimeValue %result\n\nreturn_nil:\n  %nil1 = insertvalue %RuntimeValue undef, i8 ");
    push_decimal(&mut ir, TAG_NIL as u64);
    ir.append(", 0\n  %nil2 = insertvalue %RuntimeValue %nil1, i64 0, 1\n  ret %RuntimeValue %nil2\n}\n");
    ir
}

pub open spec fn ir_rt_closure_env_size() -> Seq<char> {
    "\n; rt_closure_env_size: Get size of closure environment\ndefine i32 @rt_closure_env_size(%RuntimeValue %val) {\nentry:\n  %tag = extractvalue %RuntimeValue %val, 0\n  %is_closure = icmp eq i8 %tag, "@
        + decimal(TAG_CLOSURE as nat)
        + "\n  br i1 %is_closure, label %extract, label %return_zero\n\nextract:\n  %ptr_int = extractvalue %RuntimeValue %val, 1\n  %closure_ptr = inttoptr i64 %ptr_int to ptr\n  %size_slot = getelementptr %RuntimeClosure, ptr %closure_ptr, i32 0, i32 2\n  %env_size = load i32, ptr %size_slot\n  ret i32 %env_size\n\nreturn_zero:\n  ret i32 0\n}\n"@
}

fn generate_rt_closure_env_size() -> (r: String)
    ensures
        r@ == ir_rt_closure_env_size(),
{
    let mut ir = String::from_str("\n; rt_closure_env_size: Get size of closure environment\ndefine i32 @rt_closure_env_size(%RuntimeValue %val) {\nentry:\n  %tag = extractvalue %RuntimeValue %val, 0\n  %is_closure = icmp eq i8 %tag, ");
    push_decimal(&mut ir, TAG_CLOSURE as u64);
    ir.append("\n  br i1 %is_closure, label %extract, label %return_zero\n\nextract:\n  %ptr_int = extractvalue %RuntimeValue %val, 1\n  %closure_ptr = inttoptr i64 %ptr_int to ptr\n  %size_slot = getelementptr %RuntimeClosure, ptr %closure_ptr, i32 0, i32 2\n  %env_size = load i32, ptr %size_slot\n  ret i32 %env_size\n\nreturn_zero:\n  ret i32 0\n}\n");
    ir
}

pub open spec fn ir_rt_length() -> Seq<char> {
    "\n; rt_length: Get length of a list\ndefine %RuntimeValue @rt_length(%RuntimeValue %val) {\nentry:\n  br label %loop\n\nloop:\n  %count = phi i64 [ 0, %entry ], [ %next_count, %next ]\n  %current = phi %RuntimeValue [ %val, %entry ], [ %cdr, %next ]\n\n  %tag = extractvalue %RuntimeValue %current, 0\n  %is_cons = icmp eq i8 %tag, "@
        + decimal(TAG_CONS as nat)
        + "\n  br i1 %is_cons, label %next, label %done\n\nnext:\n  %next_count = add i64 %count, 1\n  %ptr_int = extractvalue %RuntimeValue %current, 1\n  %cell_ptr = inttoptr i64 %ptr_int to ptr\n  %cdr_ptr = getelementptr %RuntimeConsCell, ptr %cell_ptr, i32 0, i32 1\n  %cdr = load %RuntimeValue, ptr %cdr_ptr\n  br label %loop\n\ndone:\n  %result1 = insertvalue %RuntimeValue undef, i8 "@
        + decimal(TAG_INT as nat)
        + ", 0\n  %result2 = insertvalue %RuntimeValue %result1, i64 %count, 1\n  ret %RuntimeValue %result2\n}\n"@
}

fn generate_rt_length() -> (r: String)
    ensures
        r@ == ir_rt_length(),
{
    let mut ir = String::from_str("\n; rt_length: Get length of a list\ndefine %RuntimeValue @rt_length(%RuntimeValue %val) {\nentry:\n  br label %loop\n\nloop:\n  %count = phi i64 [ 0, %entry ], [ %next_count, %next ]\n  %current = phi %RuntimeValue [ %val, %entry ], [ %cdr, %next ]\n\n  %tag = extractvalue %RuntimeValue %current, 0\n  %is_cons = icmp eq i8 %tag, ");
    push_decimal(&mut ir, TAG_CONS as u64);
    ir.append("\n  br i1 %is_cons, label %next, label %done\n\nnext:\n  %next_count = add i64 %count, 1\n  %ptr_int = extractvalue %RuntimeValue %current, 1\n  %cell_ptr = inttoptr i64 %ptr_int to ptr\n  %cdr_ptr = getelementptr %RuntimeConsCell, ptr %cell_ptr, i32 0, i32 1\n  %cdr = load %RuntimeValue, ptr %cdr_ptr\n  br label %loop\n\ndone:\n  %result1 = insertvalue %RuntimeValue undef, i8 ");
    push_decimal(&mut ir, TAG_INT as u64);
    ir.append(", 0\n  %result2 = insertvalue %RuntimeValue %result1, i64 %count, 1\n  ret %RuntimeValue %result2\n}\n");
    ir
}

pub open spec fn ir_rt_append() -> Seq<char> {
    "\n; rt_append: Append two lists\ndefine %RuntimeValue @rt_append(%RuntimeValue %list1, %RuntimeValue %list2) {\nentry:\n  %tag1 = extractvalue %RuntimeValue %list1, 0\n  %is_nil = icmp eq i8 %tag1, "@
        + decimal(TAG_NIL as nat)
        + "\n  br i1 %is_nil, label %return_list2, label %check_cons\n\ncheck_cons:\n  %is_cons = icmp eq i8 %tag1, "@
        + decimal(TAG_CONS as nat)
        + "\n  br i1 %is_cons, label %do_append, label %return_list2\n\nreturn_list2:\n  ret %RuntimeValue %list2\n\ndo_append:\n  ; Get car and cdr of list1\n  %ptr_int = extractvalue %RuntimeValue %list1, 1\n  %cell_ptr = inttoptr i64 %ptr_int to ptr\n  %car_ptr = getelementptr %RuntimeConsCell, ptr %cell_ptr, i32 0, i32 0\n  %car = load %RuntimeValue, ptr %car_ptr\n  %cdr_ptr = getelementptr %RuntimeConsCell, ptr %cell_ptr, i32 0, i32 1\n  %cdr = load %RuntimeValue, ptr %cdr_ptr\n\n  ; Recursively append cdr with list2\n  %rest = call %RuntimeValue @rt_append(%RuntimeValue %cdr, %RuntimeValue %list2)\n\n  ; Cons car with the result\n  %result = call %RuntimeValue @rt_cons(%RuntimeValue %car, %RuntimeValue %rest)\n  ret %RuntimeValue %result\n}\n"@
}

fn generate_rt_append() -> (r: String)
    ensures
        r@ == ir_rt_append(),
{
    let mut ir = String::from_str("\n; rt_append: Append two lists\ndefine %RuntimeValue @rt_append(%RuntimeValue %list1, %RuntimeValue %list2) {\nentry:\n  %tag1 = extractvalue %RuntimeValue %list1, 0\n  %is_nil = icmp eq i8 %tag1, ");
    push_decimal(&mut ir, TAG_NIL as u64);
    ir.append("\n  br i1 %is_nil, label %return_list2, label %check_cons\n\ncheck_cons:\n  %is_cons = icmp eq i8 %tag1, ");
    push_decimal(&mut ir, TAG_CONS as u64);
    ir.append("\n  br i1 %is_cons, label %do_append, label %return_list2\n\nreturn_list2:\n  ret %RuntimeValue %list2\n\ndo_append:\n  ; Get car and cdr of list1\n  %ptr_int = extractvalue %RuntimeValue %list1, 1\n  %cell_ptr = inttoptr i64 %ptr_int to ptr\n  %car_ptr = getelementptr %RuntimeConsCell, ptr %cell_ptr, i32 0, i32 0\n  %car = load %RuntimeValue, ptr %car_ptr\n  %cdr_ptr = getelementptr %RuntimeConsCell, ptr %cell_ptr, i32 0, i32 1\n  %cdr = load %RuntimeValue, ptr %cdr_ptr\n\n  ; Recursively append cdr with list2\n  %rest = call %RuntimeValue @rt_append(%RuntimeValue %cdr, %RuntimeValue %list2)\n\n  ; Cons car with the result\n  %result = call %RuntimeValue @rt_cons(%RuntimeValue %car, %RuntimeValue %rest)\n  ret %RuntimeValue %result\n}\n");
    ir
}

pub open spec fn ir_rt_reverse() -> Seq<char> {
    "\n; rt_reverse: Reverse a list\ndefine %RuntimeValue @rt_reverse(%RuntimeValue %list) {\nentry:\n  ; Start with nil as accumulator\n  %nil1 = insertvalue %RuntimeValue undef, i8 "@
        + decimal(TAG_NIL as nat)
        + ", 0\n  %nil2 = insertvalue %RuntimeValue %nil1, i64 0, 1\n  br label %loop\n\nloop:\n  %acc = phi %RuntimeValue [ %nil2, %entry ], [ %new_acc, %next ]\n  %current = phi %RuntimeValue [ %list, %entry ], [ %cdr, %next ]\n\n  %tag = extractvalue %RuntimeValue %current, 0\n  %is_cons = icmp eq i8 %tag, "@
        + decimal(TAG_CONS as nat)
        + "\n  br i1 %is_cons, label %next, label %done\n\nnext:\n  %ptr_int = extractvalue %RuntimeValue %current, 1\n  %cell_ptr = inttoptr i64 %ptr_int to ptr\n  %car_ptr = getelementptr %RuntimeConsCell, ptr %cell_ptr, i32 0, i32 0\n  %car = load %RuntimeValue, ptr %car_ptr\n  %cdr_ptr = getelementptr %RuntimeConsCell, ptr %cell_ptr, i32 0, i32 1\n  %cdr = load %RuntimeValue, ptr %cdr_ptr\n\n  ; Cons car onto accumulator\n  %new_acc = call %RuntimeValue @rt_cons(%RuntimeValue %car, %RuntimeValue %acc)\n  br label %loop\n\ndone:\n  ret %RuntimeValue %acc\n}\n"@
}

fn generate_rt_reverse() -> (r: String)
    ensures
        r@ == ir_rt_reverse(),
{
    let mut ir = String::from_str("\n; rt_reverse: Reverse a list\ndefine %RuntimeValue @rt_reverse(%RuntimeValue %list) {\nentry:\n  ; Start with nil as accumulator\n  %nil1 = insertvalue %RuntimeValue undef, i8 ");
    push_decimal(&mut ir, TAG_NIL as u64);
    ir.append(", 0\n  %nil2 = insertvalue %RuntimeValue %nil1, i64 0, 1\n  br label %loop\n\nloop:\n  %acc = phi %RuntimeValue [ %nil2, %entry ], [ %new_acc, %next ]\n  %current = phi %RuntimeValue [ %list, %entry ], [ %cdr, %next ]\n\n  %tag = extractvalue %RuntimeValue %current, 0\n  %is_cons = icmp eq i8 %tag, ");
    push_decimal(&mut ir, TAG_CONS as u64);
    ir.append("\n  br i1 %is_cons, label %next, label %done\n\nnext:\n  %ptr_int = extractvalue %RuntimeValue %current, 1\n  %cell_ptr = inttoptr i64 %ptr_int to ptr\n  %car_ptr = getelementptr %RuntimeConsCell, ptr %cell_ptr, i32 0, i32 0\n  %car = load %RuntimeValue, ptr %car_ptr\n  %cdr_ptr = getelementptr %RuntimeConsCell, ptr %cell_ptr, i32 0, i32 1\n  %cdr = load %RuntimeValue, ptr %cdr_ptr\n\n  ; Cons car onto accumulator\n  %new_acc = call %RuntimeValue @rt_cons(%RuntimeValue %car, %RuntimeValue %acc)\n  br label %loop\n\ndone:\n  ret %RuntimeValue %acc\n}\n");
    ir
}

pub open spec fn ir_rt_nth() -> Seq<char> {
    "\n; rt_nth: Get nth element of a list\ndefine %RuntimeValue @rt_nth(%RuntimeValue %list, %RuntimeValue %index) {\nentry:\n  %idx_tag = extractvalue %RuntimeValue %index, 0\n  %is_int = icmp eq i8 %idx_tag, "@
        + decimal(TAG_INT as nat)
        + "\n  br i1 %is_int, label %start_loop, label %return_nil\n\nstart_loop:\n  %n = extractvalue %RuntimeValue %index, 1\n  br label %loop\n\nloop:\n  %i = phi i64 [ 0, %start_loop ], [ %next_i, %next ]\n  %current = phi %RuntimeValue [ %list, %start_loop ], [ %cdr, %next ]\n\n  %tag = extractvalue %RuntimeValue %current, 0\n  %is_cons = icmp eq i8 %tag, "@
        + decimal(TAG_CONS as nat)
        + "\n  br i1 %is_cons, label %check_index, label %return_nil\n\ncheck_index:\n  %found = icmp eq i64 %i, %n\n  br i1 %found, label %return_car, label %next\n\nreturn_car:\n  %ptr_int = extractvalue %RuntimeValue %current, 1\n  %cell_ptr = inttoptr i64 %ptr_int to ptr\n  %car_ptr = getelementptr %RuntimeConsCell, ptr %cell_ptr, i32 0, i32 0\n  %car = load %RuntimeValue, ptr %car_ptr\n  ret %RuntimeValue %car\n\nnext:\n  %next_i = add i64 %i, 1\n  %ptr_int2 = extractvalue %RuntimeValue %current, 1\n  %cell_ptr2 = inttoptr i64 %ptr_int2 to ptr\n  %cdr_ptr = getelementptr %RuntimeConsCell, ptr %cell_ptr2, i32 0, i32 1\n  %cdr = load %RuntimeValue, ptr %cdr_ptr\n  br label %loop\n\nreturn_nil:\n  %nil1 = insertvalue %RuntimeValue undef, i8 "@
        + decimal(TAG_NIL as nat)
        + ", 0\n  %nil2 = insertvalue %RuntimeValue %nil1, i64 0, 1\n  ret %RuntimeValue %nil2\n}\n"@
}

fn generate_rt_nth() -> (r: String)
    ensures
        r@ == ir_rt_nth(),
{
    let mut ir = String::from_str("\n; rt_nth: Get nth element of a list\ndefine %RuntimeValue @rt_nth(%RuntimeValue %list, %RuntimeValue %index) {\nentry:\n  %idx_tag = extractvalue %RuntimeValue %index, 0\n  %is_int = icmp eq i8 %idx_tag, ");
    push_decimal(&mut ir, TAG_INT as u64);
    ir.append("\n  br i1 %is_int, label %start_loop, label %return_nil\n\nstart_loop:\n  %n = extractvalue %RuntimeValue %index, 1\n  br label %loop\n\nloop:\n  %i = phi i64 [ 0, %start_loop ], [ %next_i, %next ]\n  %current = phi %RuntimeValue [ %list, %start_loop ], [ %cdr, %next ]\n\n  %tag = extractvalue %RuntimeValue %current, 0\n  %is_cons = icmp eq i8 %tag, ");
    push_decimal(&mut ir, TAG_CONS as u64);
    ir.append("\n  br i1 %is_cons, label %check_index, label %return_nil\n\ncheck_index:\n  %found = icmp eq i64 %i, %n\n  br i1 %found, label %return_car, label %next\n\nreturn_car:\n  %ptr_int = extractvalue %RuntimeValue %current, 1\n  %cell_ptr = inttoptr i64 %ptr_int to ptr\n  %car_ptr = getelementptr %RuntimeConsCell, ptr %cell_ptr, i32 0, i32 0\n  %car = load %RuntimeValue, ptr %car_ptr\n  ret %RuntimeValue %car\n\nnext:\n  %next_i = add i64 %i, 1\n  %ptr_int2 = extractvalue %RuntimeValue %current, 1\n  %cell_ptr2 = inttoptr i64 %ptr_int2 to ptr\n  %cdr_ptr = getelementptr %RuntimeConsCell, ptr %cell_ptr2, i32 0, i32 1\n  %cdr = load %RuntimeValue, ptr %cdr_ptr\n  br label %loop\n\nreturn_nil:\n  %nil1 = insertvalue %RuntimeValue undef, i8 ");
    push_decimal(&mut ir, TAG_NIL as u64);
    ir.append(", 0\n  %nil2 = insertvalue %RuntimeValue %nil1, i64 0, 1\n  ret %RuntimeValue %nil2\n}\n");
    ir
}

pub open spec fn ir_rt_make_vector() -> Seq<char> {
    "\n; rt_make_vector: Create a vector from elements\ndefine %RuntimeValue @rt_make_vector(ptr %elements, i32 %len) {\nentry:\n  ; Allocate vector struct\n  %vec_ptr = call ptr @malloc(i64 24)\n\n  ; Allocate and copy elements if non-empty\n  %empty = icmp eq i32 %len, 0\n  br i1 %empty, label %store_null, label %copy_elements\n\ncopy_elements:\n  %bytes = mul i32 %len, 16\n  %bytes_64 = zext i32 %bytes to i64\n  %new_elements = call ptr @malloc(i64 %bytes_64)\n  call ptr @memcpy(ptr %new_elements, ptr %elements, i64 %bytes_64)\n  br label %store_elements\n\nstore_null:\n  br label %store_elements\n\nstore_elements:\n  %elements_to_store = phi ptr [ null, %store_null ], [ %new_elements, %copy_elements ]\n  %elements_slot = getelementptr %RuntimeVector, ptr %vec_ptr, i32 0, i32 0\n  store ptr %elements_to_store, ptr %elements_slot\n\n  ; Store length\n  %len_64 = zext i32 %len to i64\n  %len_slot = getelementptr %RuntimeVector, ptr %vec_ptr, i32 0, i32 1\n  store i64 %len_64, ptr %len_slot\n\n  ; Store refcount\n  %refcount_slot = getelementptr %RuntimeVector, ptr %vec_ptr, i32 0, i32 2\n  store i32 1, ptr %refcount_slot\n\n  ; Create result\n  %ptr_int = ptrtoint ptr %vec_ptr to i64\n  %result1 = insertvalue %RuntimeValue undef, i8 "@
        + decimal(TAG_VECTOR as nat)
        + ", 0\n  %result2 = insertvalue %RuntimeValue %result1, i64 %ptr_int, 1\n  ret %RuntimeValue %result2\n}\n"@
}

fn generate_rt_make_vector() -> (r: String)
    ensures
        r@ == ir_rt_make_vector(),
{
    let mut ir = String::from_str("\n; rt_make_vector: Create a vector from elements\ndefine %RuntimeValue @rt_make_vector(ptr %elements, i32 %len) {\nentry:\n  ; Allocate vector struct\n  %vec_ptr = call ptr @malloc(i64 24)\n\n  ; Allocate and copy elements if non-empty\n  %empty = icmp eq i32 %len, 0\n  br i1 %empty, label %store_null, label %copy_elements\n\ncopy_elements:\n  %bytes = mul i32 %len, 16\n  %bytes_64 = zext i32 %bytes to i64\n  %new_elements = call ptr @malloc(i64 %bytes_64)\n  call ptr @memcpy(ptr %new_elements, ptr %elements, i64 %bytes_64)\n  br label %store_elements\n\nstore_null:\n  br label %store_elements\n\nstore_elements:\n  %elements_to_store = phi ptr [ null, %store_null ], [ %new_elements, %copy_elements ]\n  %elements_slot = getelementptr %RuntimeVector, ptr %vec_ptr, i32 0, i32 0\n  store ptr %elements_to_store, ptr %elements_slot\n\n  ; Store length\n  %len_64 = zext i32 %len to i64\n  %len_slot = getelementptr %RuntimeVector, ptr %vec_ptr, i32 0, i32 1\n  store i64 %len_64, ptr %len_slot\n\n  ; Store refcount\n  %refcount_slot = getelementptr %RuntimeVector, ptr %vec_ptr, i32 0, i32 2\n  store i32 1, ptr %refcount_slot\n\n  ; Create result\n  %ptr_int = ptrtoint ptr %vec_ptr to i64\n  %result1 = insertvalue %RuntimeValue undef, i8 ");
    push_decimal(&mut ir, TAG_VECTOR as u64);
    ir.append(", 0\n  %result2 = insertvalue %RuntimeValue %result1, i64 %ptr_int, 1\n  ret %RuntimeValue %result2\n}\n");
    ir
}

pub open spec fn ir_rt_vector_length() -> Seq<char> {
    "\n; rt_vector_length: Get length of a vector\ndefine %RuntimeValue @rt_vector_length(%RuntimeValue %val) {\nentry:\n  %tag = extractvalue %RuntimeValue %val, 0\n  %is_vector = icmp eq i8 %tag, "@
        + decimal(TAG_VECTOR as nat)
        + "\n  br i1 %is_vector, label %extract, label %return_zero\n\nextract:\n  %ptr_int = extractvalue %RuntimeValue %val, 1\n  %vec_ptr = inttoptr i64 %ptr_int to ptr\n  %len_slot = getelementptr %RuntimeVector, ptr %vec_ptr, i32 0, i32 1\n  %len = load i64, ptr %len_slot\n  %result1 = insertvalue %RuntimeValue undef, i8 "@
        + decimal(TAG_INT as nat)
        + ", 0\n  %result2 = insertvalue %RuntimeValue %result1, i64 %len, 1\n  ret %RuntimeValue %result2\n\nreturn_zero:\n  %zero1 = insertvalue %RuntimeValue undef, i8 "@
        + decimal(TAG_INT as nat)
        + ", 0\n  %zero2 = insertvalue %RuntimeValue %zero1, i64 0, 1\n  ret %RuntimeValue %zero2\n}\n"@
}

fn generate_rt_vector_length() -> (r: String)
    ensures
        r@ == ir_rt_vector_length(),
{
    let mut ir = String::from_str("\n; rt_vector_length: Get length of a vector\ndefine %RuntimeValue @rt_vector_length(%RuntimeValue %val) {\nentry:\n  %tag = extractvalue %RuntimeValue %val, 0\n  %is_vector = icmp eq i8 %tag, ");
    push_decimal(&mut ir, TAG_VECTOR as u64);
    ir.append("\n  br i1 %is_vector, label %extract, label %return_zero\n\nextract:\n  %ptr_int = extractvalue %RuntimeValue %val, 1\n  %vec_ptr = inttoptr i64 %ptr_int to ptr\n  %len_slot = getelementptr %RuntimeVector, ptr %vec_ptr, i32 0, i32 1\n  %len = load i64, ptr %len_slot\n  %result1 = insertvalue %RuntimeValue undef, i8 ");
    push_decimal(&mut ir, TAG_INT as u64);
    ir.append(", 0\n  %result2 = insertvalue %RuntimeValue %result1, i64 %len, 1\n  ret %RuntimeValue %result2\n\nreturn_zero:\n  %zero1 = insertvalue %RuntimeValue undef, i8 ");
    push_decimal(&mut ir, TAG_INT as u64);
    ir.append(", 0\n  %zero2 = insertvalue %RuntimeValue %zero1, i64 0, 1\n  ret %RuntimeValue %zero2\n}\n");
    ir
}

pub open spec fn ir_rt_vector_ref() -> Seq<char> {
    "\n; rt_vector_ref: Get element from vector by index\ndefine %RuntimeValue @rt_vector_ref(%RuntimeValue %vec, %RuntimeValue %index) {\nentry:\n  %vec_tag = extractvalue %RuntimeValue %vec, 0\n  %is_vector = icmp eq i8 %vec_tag, "@
        + decimal(TAG_VECTOR as nat)
        + "\n  br i1 %is_vector, label %check_index, label %return_nil\n\ncheck_index:\n  %idx_tag = extractvalue %RuntimeValue %index, 0\n  %is_int = icmp eq i8 %idx_tag, "@
        + decimal(TAG_INT as nat)
        + "\n  br i1 %is_int, label %bounds_check, label %return_nil\n\nbounds_check:\n  %idx = extractvalue %RuntimeValue %index, 1\n  %ptr_int = extractvalue %RuntimeValue %vec, 1\n  %vec_ptr = inttoptr i64 %ptr_int to ptr\n  %len_slot = getelementptr %RuntimeVector, ptr %vec_ptr, i32 0, i32 1\n  %len = load i64, ptr %len_slot\n  %in_bounds = icmp ult i64 %idx, %len\n  br i1 %in_bounds, label %extract, label %return_nil\n\nextract:\n  %elements_slot = getelementptr %RuntimeVector, ptr %vec_ptr, i32 0, i32 0\n  %elements = load ptr, ptr %elements_slot\n  %idx_32 = trunc i64 %idx to i32\n  %elem_ptr = getelementptr %RuntimeValue, ptr %elements, i32 %idx_32\n  %result = load %RuntimeValue, ptr %elem_ptr\n  ret %RuntimeValue %result\n\nreturn_nil:\n  %nil1 = insertvalue %RuntimeValue undef, i8 "@
        + decimal(TAG_NIL as nat)
        + ", 0\n  %nil2 = insertvalue %RuntimeValue %nil1, i64 0, 1\n  ret %RuntimeValue %nil2\n}\n"@
}

fn generate_rt_vector_ref() -> (r: String)
    ensures
        r@ == ir_rt_vector_ref(),
{
    let mut ir = String::from_str("\n; rt_vector_ref: Get element from vector by index\ndefine %RuntimeValue @rt_vector_ref(%RuntimeValue %vec, %RuntimeValue %index) {\nentry:\n  %vec_tag = extractvalue %RuntimeValue %vec, 0\n  %is_vector = icmp eq i8 %vec_tag, ");
    push_decimal(&mut ir, TAG_VECTOR as u64);
    ir.append("\n  br i1 %is_vector, label %check_index, label %return_nil\n\ncheck_index:\n  %idx_tag = extractvalue %RuntimeValue %index, 0\n  %is_int = icmp eq i8 %idx_tag, ");
    push_decimal(&mut ir, TAG_INT as u64);
    ir.append("\n  br i1 %is_int, label %bounds_check, label %return_nil\n\nbounds_check:\n  %idx = extractvalue %RuntimeValue %index, 1\n  %ptr_int = extractvalue %RuntimeValue %vec, 1\n  %vec_ptr = inttoptr i64 %ptr_int to ptr\n  %len_slot = getelementptr %RuntimeVector, ptr %vec_ptr, i32 0, i32 1\n  %len = load i64, ptr %len_slot\n  %in_bounds = icmp ult i64 %idx, %len\n  br i1 %in_bounds, label %extract, label %return_nil\n\nextract:\n  %elements_slot = getelementptr %RuntimeVector, ptr %vec_ptr, i32 0, i32 0\n  %elements = load ptr, ptr %elements_slot\n  %idx_32 = trunc i64 %idx to i32\n  %elem_ptr = getelementptr %RuntimeValue, ptr %elements, i32 %idx_32\n  %result = load %RuntimeValue, ptr %elem_ptr\n  ret %RuntimeValue %result\n\nreturn_nil:\n  %nil1 = insertvalue %RuntimeValue undef, i8 ");
    push_decimal(&mut ir, TAG_NIL as u64);
    ir.append(", 0\n  %nil2 = insertvalue %RuntimeValue %nil1, i64 0, 1\n  ret %RuntimeValue %nil2\n}\n");
    ir
}

pub open spec fn ir_rt_make_string() -> Seq<char> {
    "\n; rt_make_string: Create a string from a pointer and length\n; For string literals, the data pointer points to constant data (no allocation needed)\ndefine %RuntimeValue @rt_make_string(ptr %data, i64 %len) {\nentry:\n  ; Allocate RuntimeString struct (ptr + i64 + i32 = 8 + 8 + 4 = 20, round to 24)\n  %str_ptr = call ptr @malloc(i64 24)\n\n  ; Store data pointer\n  %data_slot = getelementptr %RuntimeString, ptr %str_ptr, i32 0, i32 0\n  store ptr %data, ptr %data_slot\n\n  ; Store length\n  %len_slot = getelementptr %RuntimeString, ptr %str_ptr, i32 0, i32 1\n  store i64 %len, ptr %len_slot\n\n  ; Store refcount (1 for new allocation)\n  %refcount_slot = getelementptr %RuntimeString, ptr %str_ptr, i32 0, i32 2\n  store i32 1, ptr %refcount_slot\n\n  ; Create result RuntimeValue\n  %ptr_int = ptrtoint ptr %str_ptr to i64\n  %result1 = insertvalue %RuntimeValue undef, i8 "@
        + decimal(TAG_STRING as nat)
        + ", 0\n  %result2 = insertvalue %RuntimeValue %result1, i64 %ptr_int, 1\n  ret %RuntimeValue %result2\n}\n"@
}

fn generate_rt_make_string() -> (r: String)
    ensures
        r@ == ir_rt_make_string(),
{
    let mut ir = String::from_str("\n; rt_make_string: Create a string from a pointer and length\n; For string literals, the data pointer points to constant data (no allocation needed)\ndefine %RuntimeValue @rt_make_string(ptr %data, i64 %len) {\nentry:\n  ; Allocate RuntimeString struct (ptr + i64 + i32 = 8 + 8 + 4 = 20, round to 24)\n  %str_ptr = call ptr @malloc(i64 24)\n\n  ; Store data pointer\n  %data_slot = getelementptr %RuntimeString, ptr %str_ptr, i32 0, i32 0\n  store ptr %data, ptr %data_slot\n\n  ; Store length\n  %len_slot = getelementptr %RuntimeString, ptr %str_ptr, i32 0, i32 1\n  store i64 %len, ptr %len_slot\n\n  ; Store refcount (1 for new allocation)\n  %refcount_slot = getelementptr %RuntimeString, ptr %str_ptr, i32 0, i32 2\n  store i32 1, ptr %refcount_slot\n\n  ; Create result RuntimeValue\n  %ptr_int = ptrtoint ptr %str_ptr to i64\n  %result1 = insertvalue %RuntimeValue undef, i8 ");
    push_decimal(&mut ir, TAG_STRING as u64);
    ir.append(", 0\n  %result2 = insertvalue %RuntimeValue %result1, i64 %ptr_int, 1\n  ret %RuntimeValue %result2\n}\n");
    ir
}

pub open spec fn ir_rt_now() -> Seq<char> {
    "\n; rt_now: Get current Unix timestamp (stub - returns 0)\n; Note: Would need platform-specific syscall for real implementation\ndefine %RuntimeValue @rt_now() {\nentry:\n  %result1 = insertvalue %RuntimeValue undef, i8 2, 0\n  %result2 = insertvalue %RuntimeValue %result1, i64 0, 1\n  ret %RuntimeValue %result2\n}\n"@
}

fn generate_rt_now() -> (r: String)
    ensures
        r@ == ir_rt_now(),
{
    String::from_str("\n; rt_now: Get current Unix timestamp (stub - returns 0)\n; Note: Would need platform-specific syscall for real implementation\ndefine %RuntimeValue @rt_now() {\nentry:\n  %result1 = insertvalue %RuntimeValue undef, i8 2, 0\n  %result2 = insertvalue %RuntimeValue %result1, i64 0, 1\n  ret %RuntimeValue %result2\n}\n")
}

pub open spec fn ir_rt_println() -> Seq<char> {
    "\n; rt_println: Print a RuntimeValue followed by newline, return nil\ndefine %RuntimeValue @rt_println(%RuntimeValue %val) {\nentry:\n  call void @print_value(%RuntimeValue %val)\n  %newline_fmt = getelementptr [2 x i8], ptr @fmt_newline, i32 0, i32 0\n  call i32 (ptr, ...) @printf(ptr %newline_fmt)\n\n  ; Return nil\n  %nil1 = insertvalue %RuntimeValue undef, i8 "@
        + decimal(TAG_NIL as nat)
        + ", 0\n  %nil2 = insertvalue %RuntimeValue %nil1, i64 0, 1\n  ret %RuntimeValue %nil2\n}\n"@
}

fn generate_rt_println() -> (r: String)
    ensures
        r@ == ir_rt_println(),
{
    let mut ir = String::from_str("\n; rt_println: Print a RuntimeValue followed by newline, return nil\ndefine %RuntimeValue @rt_println(%RuntimeValue %val) {\nentry:\n  call void @print_value(%RuntimeValue %val)\n  %newline_fmt = getelementptr [2 x i8], ptr @fmt_newline, i32 0, i32 0\n  call i32 (ptr, ...) @printf(ptr %newline_fmt)\n\n  ; Return nil\n  %nil1 = insertvalue %RuntimeValue undef, i8 ");
    push_decimal(&mut ir, TAG_NIL as u64);
    ir.append(", 0\n  %nil2 = insertvalue %RuntimeValue %nil1, i64 0, 1\n  ret %RuntimeValue %nil2\n}\n");
    ir
}

pub open spec fn ir_rt_print() -> Seq<char> {
    "\n; rt_print: Print a RuntimeValue without newline, return nil\ndefine %RuntimeValue @rt_print(%RuntimeValue %val) {\nentry:\n  call void @print_value(%RuntimeValue %val)\n\n  ; Return nil\n  %nil1 = insertvalue %RuntimeValue undef, i8 "@
        + decimal(TAG_NIL as nat)
        + ", 0\n  %nil2 = insertvalue %RuntimeValue %nil1, i64 0, 1\n  ret %RuntimeValue %nil2\n}\n"@
}

fn generate_rt_print() -> (r: String)
    ensures
        r@ == ir_rt_print(),
{
    let mut ir = String::from_str("\n; rt_print: Print a RuntimeValue without newline, return nil\ndefine %RuntimeValue @rt_print(%RuntimeValue %val) {\nentry:\n  call void @print_value(%RuntimeValue %val)\n\n  ; Return nil\n  %nil1 = insertvalue %RuntimeValue undef, i8 ");
    push_decimal(&mut ir, TAG_NIL as u64);
    ir.append(", 0\n  %nil2 = insertvalue %RuntimeValue %nil1, i64 0, 1\n  ret %RuntimeValue %nil2\n}\n");
    ir
}

pub open spec fn ir_rt_print_space() -> Seq<char> {
    "\n; rt_print_space: Print a space character, return nil\ndefine %RuntimeValue @rt_print_space() {\nentry:\n  %space_fmt = getelementptr [2 x i8], ptr @fmt_space, i32 0, i32 0\n  call i32 (ptr, ...) @printf(ptr %space_fmt)\n\n  ; Return nil\n  %nil1 = insertvalue %RuntimeValue undef, i8 0, 0\n  %nil2 = insertvalue %RuntimeValue %nil1, i64 0, 1\n  ret %RuntimeValue %nil2\n}\n"@
}

fn generate_rt_print_space() -> (r: String)
    ensures
        r@ == ir_rt_print_space(),
{
    String::from_str("\n; rt_print_space: Print a space character, return nil\ndefine %RuntimeValue @rt_print_space() {\nentry:\n  %space_fmt = getelementptr [2 x i8], ptr @fmt_space, i32 0, i32 0\n  call i32 (ptr, ...) @printf(ptr %space_fmt)\n\n  ; Return nil\n  %nil1 = insertvalue %RuntimeValue undef, i8 0, 0\n  %nil2 = insertvalue %RuntimeValue %nil1, i64 0, 1\n  ret %RuntimeValue %nil2\n}\n")
}

pub open spec fn ir_rt_print_newline() -> Seq<char> {
    "\n; rt_print_newline: Print a newline character, return nil\ndefine %RuntimeValue @rt_print_newline() {\nentry:\n  %newline_fmt = getelementptr [2 x i8], ptr @fmt_newline, i32 0, i32 0\n  call i32 (ptr, ...) @printf(ptr %newline_fmt)\n\n  ; Return nil\n  %nil1 = insertvalue %RuntimeValue undef, i8 0, 0\n  %nil2 = insertvalue %RuntimeValue %nil1, i64 0, 1\n  ret %RuntimeValue %nil2\n}\n"@
}

fn generate_rt_print_newline() -> (r: String)
    ensures
        r@ == ir_rt_print_newline(),
{
    String::from_str("\n; rt_print_newline: Print a newline character, return nil\ndefine %RuntimeValue @rt_print_newline() {\nentry:\n  %newline_fmt = getelementptr [2 x i8], ptr @fmt_newline, i32 0, i32 0\n  call i32 (ptr, ...) @printf(ptr %newline_fmt)\n\n  ; Return nil\n  %nil1 = insertvalue %RuntimeValue undef, i8 0, 0\n  %nil2 = insertvalue %RuntimeValue %nil1, i64 0, 1\n  ret %RuntimeValue %nil2\n}\n")
}

pub open spec fn ir_print_result() -> Seq<char> {
    "\n; print_value: Print a RuntimeValue\ndefine void @print_value(%RuntimeValue %val) {\nentry:\n  %tag = extractvalue %RuntimeValue %val, 0\n  %data = extractvalue %RuntimeValue %val, 1\n\n  switch i8 %tag, label %print_unknown [\n    i8 "@
        + decimal(TAG_NIL as nat)
        + ", label %print_nil\n    i8 "@
        + decimal(TAG_BOOL as nat)
        + ", label %print_bool\n    i8 "@
        + decimal(TAG_INT as nat)
        + ", label %print_int\n    i8 "@
        + decimal(TAG_FLOAT as nat)
        + ", label %print_float\n    i8 "@
        + decimal(TAG_CONS as nat)
        + ", label %print_cons\n    i8 "@
        + decimal(TAG_STRING as nat)
        + ", label %print_string\n  ]\n\nprint_nil:\n  %nil_fmt = getelementptr [4 x i8], ptr @fmt_nil, i32 0, i32 0\n  call i32 (ptr, ...) @printf(ptr %nil_fmt)\n  br label %done\n\nprint_bool:\n  %is_true = icmp ne i64 %data, 0\n  br i1 %is_true, label %print_true, label %print_false\n\nprint_true:\n  %true_fmt = getelementptr [5 x i8], ptr @fmt_true, i32 0, i32 0\n  call i32 (ptr, ...) @printf(ptr %true_fmt)\n  br label %done\n\nprint_false:\n  %false_fmt = getelementptr [6 x i8], ptr @fmt_false, i32 0, i32 0\n  call i32 (ptr, ...) @printf(ptr %false_fmt)\n  br label %done\n\nprint_int:\n  %int_fmt = getelementptr [5 x i8], ptr @fmt_int, i32 0, i32 0\n  call i32 (ptr, ...) @printf(ptr %int_fmt, i64 %data)\n  br label %done\n\nprint_float:\n  %float_val = bitcast i64 %data to double\n  %float_fmt = getelementptr [3 x i8], ptr @fmt_float, i32 0, i32 0\n  call i32 (ptr, ...) @printf(ptr %float_fmt, double %float_val)\n  br label %done\n\nprint_cons:\n  ; Print opening paren\n  %open_fmt = getelementptr [2 x i8], ptr @fmt_cons_open, i32 0, i32 0\n  call i32 (ptr, ...) @printf(ptr %open_fmt)\n\n  ; Print list elements\n  call void @print_list(%RuntimeValue %val)\n\n  ; Print closing paren\n  %close_fmt = getelementptr [2 x i8], ptr @fmt_cons_close, i32 0, i32 0\n  call i32 (ptr, ...) @printf(ptr %close_fmt)\n  br label %done\n\nprint_string:\n  ; Get RuntimeString pointer\n  %str_ptr = inttoptr i64 %data to ptr\n  ; Get data pointer\n  %str_data_slot = getelementptr %RuntimeString, ptr %str_ptr, i32 0, i32 0\n  %str_data = load ptr, ptr %str_data_slot\n  ; Get length\n  %str_len_slot = getelementptr %RuntimeString, ptr %str_ptr, i32 0, i32 1\n  %str_len = load i64, ptr %str_len_slot\n  ; Truncate length to i32 for printf precision\n  %str_len_32 = trunc i64 %str_len to i32\n  ; Print using %.*s format (precision, pointer)\n  %string_fmt = getelementptr [5 x i8], ptr @fmt_string, i32 0, i32 0\n  call i32 (ptr, ...) @printf(ptr %string_fmt, i32 %str_len_32, ptr %str_data)\n  br label %done\n\nprint_unknown:\n  br label %done\n\ndone:\n  ret void\n}\n\n; print_list: Print elements of a list (without parens)\ndefine void @print_list(%RuntimeValue %val) {\nentry:\n  br label %loop\n\nloop:\n  %current = phi %RuntimeValue [ %val, %entry ], [ %cdr, %print_space ]\n  %first = phi i1 [ true, %entry ], [ false, %print_space ]\n\n  %tag = extractvalue %RuntimeValue %current, 0\n  %is_cons = icmp eq i8 %tag, "@
        + decimal(TAG_CONS as nat)
        + "\n  br i1 %is_cons, label %process_cons, label %check_nil\n\nprocess_cons:\n  ; Print space if not first element\n  br i1 %first, label %get_car, label %print_sep\n\nprint_sep:\n  %space_fmt = getelementptr [2 x i8], ptr @fmt_space, i32 0, i32 0\n  call i32 (ptr, ...) @printf(ptr %space_fmt)\n  br label %get_car\n\nget_car:\n  %ptr_int = extractvalue %RuntimeValue %current, 1\n  %cell_ptr = inttoptr i64 %ptr_int to ptr\n  %car_ptr = getelementptr %RuntimeConsCell, ptr %cell_ptr, i32 0, i32 0\n  %car = load %RuntimeValue, ptr %car_ptr\n\n  ; Print car\n  call void @print_value(%RuntimeValue %car)\n\n  ; Get cdr\n  %cdr_ptr = getelementptr %RuntimeConsCell, ptr %cell_ptr, i32 0, i32 1\n  %cdr = load %RuntimeValue, ptr %cdr_ptr\n  br label %print_space\n\nprint_space:\n  br label %loop\n\ncheck_nil:\n  %is_nil = icmp eq i8 %tag, "@
        + decimal(TAG_NIL as nat)
        + "\n  br i1 %is_nil, label %done, label %print_dot\n\nprint_dot:\n  ; Improper list - print \" . value\"\n  %dot_fmt = getelementptr [4 x i8], ptr @fmt_dot, i32 0, i32 0\n  call i32 (ptr, ...) @printf(ptr %dot_fmt)\n  call void @print_value(%RuntimeValue %current)\n  br label %done\n\ndone:\n  ret void\n}\n"@
}

fn generate_print_result() -> (r: String)
    ensures
        r@ == ir_print_result(),
{
    let mut ir = String::from_str("\n; print_value: Print a RuntimeValue\ndefine void @print_value(%RuntimeValue %val) {\nentry:\n  %tag = extractvalue %RuntimeValue %val, 0\n  %data = extractvalue %RuntimeValue %val, 1\n\n  switch i8 %tag, label %print_unknown [\n    i8 ");
    push_decimal(&mut ir, TAG_NIL as u64);
    ir.append(", label %print_nil\n    i8 ");
    push_decimal(&mut ir, TAG_BOOL as u64);
    ir.append(", label %print_bool\n    i8 ");
    push_decimal(&mut ir, TAG_INT as u64);
    ir.append(", label %print_int\n    i8 ");
    push_decimal(&mut ir, TAG_FLOAT as u64);
    ir.append(", label %print_float\n    i8 ");
    push_decimal(&mut ir, TAG_CONS as u64);
    ir.append(", label %print_cons\n    i8 ");
    push_decimal(&mut ir, TAG_STRING as u64);
    ir.append(", label %print_string\n  ]\n\nprint_nil:\n  %nil_fmt = getelementptr [4 x i8], ptr @fmt_nil, i32 0, i32 0\n  call i32 (ptr, ...) @printf(ptr %nil_fmt)\n  br label %done\n\nprint_bool:\n  %is_true = icmp ne i64 %data, 0\n  br i1 %is_true, label %print_true, label %print_false\n\nprint_true:\n  %true_fmt = getelementptr [5 x i8], ptr @fmt_true, i32 0, i32 0\n  call i32 (ptr, ...) @printf(ptr %true_fmt)\n  br label %done\n\nprint_false:\n  %false_fmt = getelementptr [6 x i8], ptr @fmt_false, i32 0, i32 0\n  call i32 (ptr, ...) @printf(ptr %false_fmt)\n  br label %done\n\nprint_int:\n  %int_fmt = getelementptr [5 x i8], ptr @fmt_int, i32 0, i32 0\n  call i32 (ptr, ...) @printf(ptr %int_fmt, i64 %data)\n  br label %done\n\nprint_float:\n  %float_val = bitcast i64 %data to double\n  %float_fmt = getelementptr [3 x i8], ptr @fmt_float, i32 0, i32 0\n  call i32 (ptr, ...) @printf(ptr %float_fmt, double %float_val)\n  br label %done\n\nprint_cons:\n  ; Print opening paren\n  %open_fmt = getelementptr [2 x i8], ptr @fmt_cons_open, i32 0, i32 0\n  call i32 (ptr, ...) @printf(ptr %open_fmt)\n\n  ; Print list elements\n  call void @print_list(%RuntimeValue %val)\n\n  ; Print closing paren\n  %close_fmt = getelementptr [2 x i8], ptr @fmt_cons_close, i32 0, i32 0\n  call i32 (ptr, ...) @printf(ptr %close_fmt)\n  br label %done\n\nprint_string:\n  ; Get RuntimeString pointer\n  %str_ptr = inttoptr i64 %data to ptr\n  ; Get data pointer\n  %str_data_slot = getelementptr %RuntimeString, ptr %str_ptr, i32 0, i32 0\n  %str_data = load ptr, ptr %str_data_slot\n  ; Get length\n  %str_len_slot = getelementptr %RuntimeString, ptr %str_ptr, i32 0, i32 1\n  %str_len = load i64, ptr %str_len_slot\n  ; Truncate length to i32 for printf precision\n  %str_len_32 = trunc i64 %str_len to i32\n  ; Print using %.*s format (precision, pointer)\n  %string_fmt = getelementptr [5 x i8], ptr @fmt_string, i32 0, i32 0\n  call i32 (ptr, ...) @printf(ptr %string_fmt, i32 %str_len_32, ptr %str_data)\n  br label %done\n\nprint_unknown:\n  br label %done\n\ndone:\n  ret void\n}\n\n; print_list: Print elements of a list (without parens)\ndefine void @print_list(%RuntimeValue %val) {\nentry:\n  br label %loop\n\nloop:\n  %current = phi %RuntimeValue [ %val, %entry ], [ %cdr, %print_space ]\n  %first = phi i1 [ true, %entry ], [ false, %print_space ]\n\n  %tag = extractvalue %RuntimeValue %current, 0\n  %is_cons = icmp eq i8 %tag, ");
    push_decimal(&mut ir, TAG_CONS as u64);
    ir.append("\n  br i1 %is_cons, label %process_cons, label %check_nil\n\nprocess_cons:\n  ; Print space if not first element\n  br i1 %first, label %get_car, label %print_sep\n\nprint_sep:\n  %space_fmt = getelementptr [2 x i8], ptr @fmt_space, i32 0, i32 0\n  call i32 (ptr, ...) @printf(ptr %space_fmt)\n  br label %get_car\n\nget_car:\n  %ptr_int = extractvalue %RuntimeValue %current, 1\n  %cell_ptr = inttoptr i64 %ptr_int to ptr\n  %car_ptr = getelementptr %RuntimeConsCell, ptr %cell_ptr, i32 0, i32 0\n  %car = load %RuntimeValue, ptr %car_ptr\n\n  ; Print car\n  call void @print_value(%RuntimeValue %car)\n\n  ; Get cdr\n  %cdr_ptr = getelementptr %RuntimeConsCell, ptr %cell_ptr, i32 0, i32 1\n  %cdr = load %RuntimeValue, ptr %cdr_ptr\n  br label %print_space\n\nprint_space:\n  br label %loop\n\ncheck_nil:\n  %is_nil = icmp eq i8 %tag, ");
    push_decimal(&mut ir, TAG_NIL as u64);
    ir.append("\n  br i1 %is_nil, label %done, label %print_dot\n\nprint_dot:\n  ; Improper list - print \" . value\"\n  %dot_fmt = getelementptr [4 x i8], ptr @fmt_dot, i32 0, i32 0\n  call i32 (ptr, ...) @printf(ptr %dot_fmt)\n  call void @print_value(%RuntimeValue %current)\n  br label %done\n\ndone:\n  ret void\n}\n");
    ir
}

pub open spec fn ir_runtime() -> Seq<char> {
    Seq::<char>::empty()
        + ir_type_definitions()
        + ir_external_declarations()
        + ir_runtime_functions()
        + ir_print_result()
        + ir_io_functions()
}

/// Generate the complete runtime LLVM IR as a string.
///
/// This includes type definitions, constants, and all runtime function definitions
/// needed for standalone AOT-compiled executables.
pub fn generate_runtime_ir() -> (r: String)
    ensures
        r@ == ir_runtime(),
{
    let mut ir = String::new();
    let part = generate_type_definitions();
    ir.append(part.as_str());
    let part = generate_external_declarations();
    ir.append(part.as_str());
    let part = generate_runtime_functions();
    ir.append(part.as_str());
    let part = generate_print_result();
    ir.append(part.as_str());
    let part = generate_io_functions();
    ir.append(part.as_str());
    ir
}


// ============================================================================
// Laws
// ============================================================================

/// `t` occurs in `s` starting at index `i`.
pub open spec fn occurs_at(s: Seq<char>, t: Seq<char>, i: int) -> bool {
    0 <= i && i + t.len() <= s.len() && s.subrange(i, i + t.len()) == t
}

proof fn lemma_occurs_end(a: Seq<char>, t: Seq<char>)
    ensures
        occurs_at(a + t, t, a.len() as int),
{
    assert((a + t).subrange(a.len() as int, (a.len() + t.len()) as int) =~= t);
}

proof fn lemma_occurs_append(s: Seq<char>, t: Seq<char>, i: int, u: Seq<char>)
    requires
        occurs_at(s, t, i),
    ensures
        occurs_at(s + u, t, i),
{
    assert((s + u).subrange(i, i + t.len()) =~= s.subrange(i, i + t.len()));
}

proof fn lemma_occurs_prepend(u: Seq<char>, s: Seq<char>, t: Seq<char>, i: int)
    requires
        occurs_at(s, t, i),
    ensures
        occurs_at(u + s, t, i + u.len()),
{
    assert((u + s).subrange(i + u.len(), i + u.len() + t.len()) =~= s.subrange(i, i + t.len()));
}

/// Where the declaration of a tag constant starts in the type definitions.
proof fn lemma_tag_lines_in_type_definitions()
    ensures
        exists|i: int| occurs_at(ir_type_definitions(), tag_line("NIL"@, TAG_NIL), i),
        exists|i: int| occurs_at(ir_type_definitions(), tag_line("BOOL"@, TAG_BOOL), i),
        exists|i: int| occurs_at(ir_type_definitions(), tag_line("INT"@, TAG_INT), i),
        exists|i: int| occurs_at(ir_type_definitions(), tag_line("FLOAT"@, TAG_FLOAT), i),
        exists|i: int| occurs_at(ir_type_definitions(), tag_line("CONS"@, TAG_CONS), i),
        exists|i: int| occurs_at(ir_type_definitions(), tag_line("SYMBOL"@, TAG_SYMBOL), i),
        exists|i: int| occurs_at(ir_type_definitions(), tag_line("CLOSURE"@, TAG_CLOSURE), i),
        exists|i: int| occurs_at(ir_type_definitions(), tag_line("STRING"@, TAG_STRING), i),
        exists|i: int| occurs_at(ir_type_definitions(), tag_line("VECTOR"@, TAG_VECTOR), i),
{
    let types = "\n; Type definitions\n%RuntimeValue = type { i8, i64 }\n%RuntimeConsCell = type { %RuntimeValue, %RuntimeValue, i32 }\n%RuntimeClosure = type { ptr, ptr, i32, i32 }\n%RuntimeString = type { ptr, i64, i32 }\n%RuntimeVector = type { ptr, i64, i32 }\n\n; Tag constants\n"@;
    let mut acc = types;
    let i_nil = acc.len() as int;
    lemma_occurs_end(acc, tag_line("NIL"@, TAG_NIL));
    let p_nil = acc + tag_line("NIL"@, TAG_NIL);
    acc = p_nil;
    lemma_occurs_append(acc, tag_line("NIL"@, TAG_NIL), i_nil, "\n"@);
    acc = acc + "\n"@;
    let i_bool = acc.len() as int;
    lemma_occurs_end(acc, tag_line("BOOL"@, TAG_BOOL));
    let p_bool = acc + tag_line("BOOL"@, TAG_BOOL);
    lemma_occurs_append(acc, tag_line("NIL"@, TAG_NIL), i_nil, tag_line("BOOL"@, TAG_BOOL));
    acc = p_bool;
    lemma_occurs_append(acc, tag_line("NIL"@, TAG_NIL), i_nil, "\n"@);
    lemma_occurs_append(acc, tag_line("BOOL"@, TAG_BOOL), i_bool, "\n"@);
    acc = acc + "\n"@;
    let i_int = acc.len() as int;
    lemma_occurs_end(acc, tag_line("INT"@, TAG_INT));
    let p_int = acc + tag_line("INT"@, TAG_INT);
    lemma_occurs_append(acc, tag_line("NIL"@, TAG_NIL), i_nil, tag_line("INT"@, TAG_INT));
    lemma_occurs_append(acc, tag_line("BOOL"@, TAG_BOOL), i_bool, tag_line("INT"@, TAG_INT));
    acc = p_int;
    lemma_occurs_append(acc, tag_line("NIL"@, TAG_NIL), i_nil, "\n"@);
    lemma_occurs_append(acc, tag_line("BOOL"@, TAG_BOOL), i_bool, "\n"@);
    lemma_occurs_append(acc, tag_line("INT"@, TAG_INT), i_int, "\n"@);
    acc = acc + "\n"@;
    let i_float = acc.len() as int;
    lemma_occurs_end(acc, tag_line("FLOAT"@, TAG_FLOAT));
    let p_float = acc + tag_line("FLOAT"@, TAG_FLOAT);
    lemma_occurs_append(acc, tag_line("NIL"@, TAG_NIL), i_nil, tag_line("FLOAT"@, TAG_FLOAT));
    lemma_occurs_append(acc, tag_line("BOOL"@, TAG_BOOL), i_bool, tag_line("FLOAT"@, TAG_FLOAT));
    lemma_occurs_append(acc, tag_line("INT"@, TAG_INT), i_int, tag_line("FLOAT"@, TAG_FLOAT));
    acc = p_float;
    lemma_occurs_append(acc, tag_line("NIL"@, TAG_NIL), i_nil, "\n"@);
    lemma_occurs_append(acc, tag_line("BOOL"@, TAG_BOOL), i_bool, "\n"@);
    lemma_occurs_append(acc, tag_line("INT"@, TAG_INT), i_int, "\n"@);
    lemma_occurs_append(acc, tag_line("FLOAT"@, TAG_FLOAT), i_float, "\n"@);
    acc = acc + "\n"@;
    let i_cons = acc.len() as int;
    lemma_occurs_end(acc, tag_line("CONS"@, TAG_CONS));
    let p_cons = acc + tag_line("CONS"@, TAG_CONS);
    lemma_occurs_append(acc, tag_line("NIL"@, TAG_NIL), i_nil, tag_line("CONS"@, TAG_CONS));
    lemma_occurs_append(acc, tag_line("BOOL"@, TAG_BOOL), i_bool, tag_line("CONS"@, TAG_CONS));
    lemma_occurs_append(acc, tag_line("INT"@, TAG_INT), i_int, tag_line("CONS"@, TAG_CONS));
    lemma_occurs_append(acc, tag_line("FLOAT"@, TAG_FLOAT), i_float, tag_line("CONS"@, TAG_CONS));
    acc = p_cons;
    lemma_occurs_append(acc, tag_line("NIL"@, TAG_NIL), i_nil, "\n"@);
    lemma_occurs_append(acc, tag_line("BOOL"@, TAG_BOOL), i_bool, "\n"@);
    lemma_occurs_append(acc, tag_line("INT"@, TAG_INT), i_int, "\n"@);
    lemma_occurs_append(acc, tag_line("FLOAT"@, TAG_FLOAT), i_float, "\n"@);
    lemma_occurs_append(acc, tag_line("CONS"@, TAG_CONS), i_cons, "\n"@);
    acc = acc + "\n"@;
    let i_symbol = acc.len() as int;
    lemma_occurs_end(acc, tag_line("SYMBOL"@, TAG_SYMBOL));
    let p_symbol = acc + tag_line("SYMBOL"@, TAG_SYMBOL);
    lemma_occurs_append(acc, tag_line("NIL"@, TAG_NIL), i_nil, tag_line("SYMBOL"@, TAG_SYMBOL));
    lemma_occurs_append(acc, tag_line("BOOL"@, TAG_BOOL), i_bool, tag_line("SYMBOL"@, TAG_SYMBOL));
    lemma_occurs_append(acc, tag_line("INT"@, TAG_INT), i_int, tag_line("SYMBOL"@, TAG_SYMBOL));
    lemma_occurs_append(acc, tag_line("FLOAT"@, TAG_FLOAT), i_float, tag_line("SYMBOL"@, TAG_SYMBOL));
    lemma_occurs_append(acc, tag_line("CONS"@, TAG_CONS), i_cons, tag_line("SYMBOL"@, TAG_SYMBOL));
    acc = p_symbol;
    lemma_occurs_append(acc, tag_line("NIL"@, TAG_NIL), i_nil, "\n"@);
    lemma_occurs_append(acc, tag_line("BOOL"@, TAG_BOOL), i_bool, "\n"@);
    lemma_occurs_append(acc, tag_line("INT"@, TAG_INT), i_int, "\n"@);
    lemma_occurs_append(acc, tag_line("FLOAT"@, TAG_FLOAT), i_float, "\n"@);
    lemma_occurs_append(acc, tag_line("CONS"@, TAG_CONS), i_cons, "\n"@);
    lemma_occurs_append(acc, tag_line("SYMBOL"@, TAG_SYMBOL), i_symbol, "\n"@);
    acc = acc + "\n"@;
    let i_closure = acc.len() as int;
    lemma_occurs_end(acc, tag_line("CLOSURE"@, TAG_CLOSURE));
    let p_closure = acc + tag_line("CLOSURE"@, TAG_CLOSURE);
    lemma_occurs_append(acc, tag_line("NIL"@, TAG_NIL), i_nil, tag_line("CLOSURE"@, TAG_CLOSURE));
    lemma_occurs_append(acc, tag_line("BOOL"@, TAG_BOOL), i_bool, tag_line("CLOSURE"@, TAG_CLOSURE));
    lemma_occurs_append(acc, tag_line("INT"@, TAG_INT), i_int, tag_line("CLOSURE"@, TAG_CLOSURE));
    lemma_occurs_append(acc, tag_line("FLOAT"@, TAG_FLOAT), i_float, tag_line("CLOSURE"@, TAG_CLOSURE));
    lemma_occurs_append(acc, tag_line("CONS"@, TAG_CONS), i_cons, tag_line("CLOSURE"@, TAG_CLOSURE));
    lemma_occurs_append(acc, tag_line("SYMBOL"@, TAG_SYMBOL), i_symbol, tag_line("CLOSURE"@, TAG_CLOSURE));
    acc = p_closure;
    lemma_occurs_append(acc, tag_line("NIL"@, TAG_NIL), i_nil, "\n"@);
    lemma_occurs_append(acc, tag_line("BOOL"@, TAG_BOOL), i_bool, "\n"@);
    lemma_occurs_append(acc, tag_line("INT"@, TAG_INT), i_int, "\n"@);
    lemma_occurs_append(acc, tag_line("FLOAT"@, TAG_FLOAT), i_float, "\n"@);
    lemma_occurs_append(acc, tag_line("CONS"@, TAG_CONS), i_cons, "\n"@);
    lemma_occurs_append(acc, tag_line("SYMBOL"@, TAG_SYMBOL), i_symbol, "\n"@);
    lemma_occurs_append(acc, tag_line("CLOSURE"@, TAG_CLOSURE), i_closure, "\n"@);
    acc = acc + "\n"@;
    let i_string = acc.len() as int;
    lemma_occurs_end(acc, tag_line("STRING"@, TAG_STRING));
    let p_string = acc + tag_line("STRING"@, TAG_STRING);
    lemma_occurs_append(acc, tag_line("NIL"@, TAG_NIL), i_nil, tag_line("STRING"@, TAG_STRING));
    lemma_occurs_append(acc, tag_line("BOOL"@, TAG_BOOL), i_bool, tag_line("STRING"@, TAG_STRING));
    lemma_occurs_append(acc, tag_line("INT"@, TAG_INT), i_int, tag_line("STRING"@, TAG_STRING));
    lemma_occurs_append(acc, tag_line("FLOAT"@, TAG_FLOAT), i_float, tag_line("STRING"@, TAG_STRING));
    lemma_occurs_append(acc, tag_line("CONS"@, TAG_CONS), i_cons, tag_line("STRING"@, TAG_STRING));
    lemma_occurs_append(acc, tag_line("SYMBOL"@, TAG_SYMBOL), i_symbol, tag_line("STRING"@, TAG_STRING));
    lemma_occurs_append(acc, tag_line("CLOSURE"@, TAG_CLOSURE), i_closure, tag_line("STRING"@, TAG_STRING));
    acc = p_string;
    lemma_occurs_append(acc, tag_line("NIL"@, TAG_NIL), i_nil, "\n"@);
    lemma_occurs_append(acc, tag_line("BOOL"@, TAG_BOOL), i_bool, "\n"@);
    lemma_occurs_append(acc, tag_line("INT"@, TAG_INT), i_int, "\n"@);
    lemma_occurs_append(acc, tag_line("FLOAT"@, TAG_FLOAT), i_float, "\n"@);
    lemma_occurs_append(acc, tag_line("CONS"@, TAG_CONS), i_cons, "\n"@);
    lemma_occurs_append(acc, tag_line("SYMBOL"@, TAG_SYMBOL), i_symbol, "\n"@);
    lemma_occurs_append(acc, tag_line("CLOSURE"@, TAG_CLOSURE), i_closure, "\n"@);
    lemma_occurs_append(acc, tag_line("STRING"@, TAG_STRING), i_string, "\n"@);
    acc = acc + "\n"@;
    let i_vector = acc.len() as int;
    lemma_occurs_end(acc, tag_line("VECTOR"@, TAG_VECTOR));
    let p_vector = acc + tag_line("VECTOR"@, TAG_VECTOR);
    lemma_occurs_append(acc, tag_line("NIL"@, TAG_NIL), i_nil, tag_line("VECTOR"@, TAG_VECTOR));
    lemma_occurs_append(acc, tag_line("BOOL"@, TAG_BOOL), i_bool, tag_line("VECTOR"@, TAG_VECTOR));
    lemma_occurs_append(acc, tag_line("INT"@, TAG_INT), i_int, tag_line("VECTOR"@, TAG_VECTOR));
    lemma_occurs_append(acc, tag_line("FLOAT"@, TAG_FLOAT), i_float, tag_line("VECTOR"@, TAG_VECTOR));
    lemma_occurs_append(acc, tag_line("CONS"@, TAG_CONS), i_cons, tag_line("VECTOR"@, TAG_VECTOR));
    lemma_occurs_append(acc, tag_line("SYMBOL"@, TAG_SYMBOL), i_symbol, tag_line("VECTOR"@, TAG_VECTOR));
    lemma_occurs_append(acc, tag_line("CLOSURE"@, TAG_CLOSURE), i_closure, tag_line("VECTOR"@, TAG_VECTOR));
    lemma_occurs_append(acc, tag_line("STRING"@, TAG_STRING), i_string, tag_line("VECTOR"@, TAG_VECTOR));
    acc = p_vector;
    let fmt = "\n\n; Format strings for printing\n@fmt_nil = private constant [4 x i8] c\"nil\\00\"\n@fmt_true = private constant [5 x i8] c\"true\\00\"\n@fmt_false = private constant [6 x i8] c\"false\\00\"\n@fmt_int = private constant [5 x i8] c\"%lld\\00\"\n@fmt_float = private constant [3 x i8] c\"%g\\00\"\n@fmt_cons_open = private constant [2 x i8] c\"(\\00\"\n@fmt_cons_close = private constant [2 x i8] c\")\\00\"\n@fmt_space = private constant [2 x i8] c\" \\00\"\n@fmt_dot = private constant [4 x i8] c\" . \\00\"\n@fmt_newline = private constant [2 x i8] c\"\\0A\\00\"\n@fmt_string = private constant [5 x i8] c\"%.*s\\00\"\n"@;
    lemma_occurs_append(acc, tag_line("NIL"@, TAG_NIL), i_nil, fmt);
    lemma_occurs_append(acc, tag_line("BOOL"@, TAG_BOOL), i_bool, fmt);
    lemma_occurs_append(acc, tag_line("INT"@, TAG_INT), i_int, fmt);
    lemma_occurs_append(acc, tag_line("FLOAT"@, TAG_FLOAT), i_float, fmt);
    lemma_occurs_append(acc, tag_line("CONS"@, TAG_CONS), i_cons, fmt);
    lemma_occurs_append(acc, tag_line("SYMBOL"@, TAG_SYMBOL), i_symbol, fmt);
    lemma_occurs_append(acc, tag_line("CLOSURE"@, TAG_CLOSURE), i_closure, fmt);
    lemma_occurs_append(acc, tag_line("STRING"@, TAG_STRING), i_string, fmt);
    lemma_occurs_append(acc, tag_line("VECTOR"@, TAG_VECTOR), i_vector, fmt);
    acc = acc + fmt;
    assert(acc == ir_type_definitions());
    assert(occurs_at(ir_type_definitions(), tag_line("NIL"@, TAG_NIL), i_nil));
    assert(occurs_at(ir_type_definitions(), tag_line("BOOL"@, TAG_BOOL), i_bool));
    assert(occurs_at(ir_type_definitions(), tag_line("INT"@, TAG_INT), i_int));
    assert(occurs_at(ir_type_definitions(), tag_line("FLOAT"@, TAG_FLOAT), i_float));
    assert(occurs_at(ir_type_definitions(), tag_line("CONS"@, TAG_CONS), i_cons));
    assert(occurs_at(ir_type_definitions(), tag_line("SYMBOL"@, TAG_SYMBOL), i_symbol));
    assert(occurs_at(ir_type_definitions(), tag_line("CLOSURE"@, TAG_CLOSURE), i_closure));
    assert(occurs_at(ir_type_definitions(), tag_line("STRING"@, TAG_STRING), i_string));
    assert(occurs_at(ir_type_definitions(), tag_line("VECTOR"@, TAG_VECTOR), i_vector));
}

/// Every tag constant that the runtime IR declares has the value that the
/// runtime value representation gives that tag.
pub proof fn law_ir_tags_match_runtime()
    ensures
        exists|i: int| occurs_at(ir_runtime(), tag_line("NIL"@, TAG_NIL), i),
        exists|i: int| occurs_at(ir_runtime(), tag_line("BOOL"@, TAG_BOOL), i),
        exists|i: int| occurs_at(ir_runtime(), tag_line("INT"@, TAG_INT), i),
        exists|i: int| occurs_at(ir_runtime(), tag_line("FLOAT"@, TAG_FLOAT), i),
        exists|i: int| occurs_at(ir_runtime(), tag_line("CONS"@, TAG_CONS), i),
        exists|i: int| occurs_at(ir_runtime(), tag_line("SYMBOL"@, TAG_SYMBOL), i),
        exists|i: int| occurs_at(ir_runtime(), tag_line("CLOSURE"@, TAG_CLOSURE), i),
        exists|i: int| occurs_at(ir_runtime(), tag_line("STRING"@, TAG_STRING), i),
        exists|i: int| occurs_at(ir_runtime(), tag_line("VECTOR"@, TAG_VECTOR), i),
{
    lemma_tag_lines_in_type_definitions();
    let rest = ir_external_declarations() + ir_runtime_functions() + ir_print_result() + ir_io_functions();
    assert(ir_runtime() =~= Seq::<char>::empty() + ir_type_definitions() + rest);
    {
        let i = choose|i: int| occurs_at(ir_type_definitions(), tag_line("NIL"@, TAG_NIL), i);
        lemma_occurs_prepend(Seq::<char>::empty(), ir_type_definitions(), tag_line("NIL"@, TAG_NIL), i);
        lemma_occurs_append(Seq::<char>::empty() + ir_type_definitions(), tag_line("NIL"@, TAG_NIL), i, rest);
    }
    {
        let i = choose|i: int| occurs_at(ir_type_definitions(), tag_line("BOOL"@, TAG_BOOL), i);
        lemma_occurs_prepend(Seq::<char>::empty(), ir_type_definitions(), tag_line("BOOL"@, TAG_BOOL), i);
        lemma_occurs_append(Seq::<char>::empty() + ir_type_definitions(), tag_line("BOOL"@, TAG_BOOL), i, rest);
    }
    {
        let i = choose|i: int| occurs_at(ir_type_definitions(), tag_line("INT"@, TAG_INT), i);
        lemma_occurs_prepend(Seq::<char>::empty(), ir_type_definitions(), tag_line("INT"@, TAG_INT), i);
        lemma_occurs_append(Seq::<char>::empty() + ir_type_definitions(), tag_line("INT"@, TAG_INT), i, rest);
    }
    {
        let i = choose|i: int| occurs_at(ir_type_definitions(), tag_line("FLOAT"@, TAG_FLOAT), i);
        lemma_occurs_prepend(Seq::<char>::empty(), ir_type_definitions(), tag_line("FLOAT"@, TAG_FLOAT), i);
        lemma_occurs_append(Seq::<char>::empty() + ir_type_definitions(), tag_line("FLOAT"@, TAG_FLOAT), i, rest);
    }
    {
        let i = choose|i: int| occurs_at(ir_type_definitions(), tag_line("CONS"@, TAG_CONS), i);
        lemma_occurs_prepend(Seq::<char>::empty(), ir_type_definitions(), tag_line("CONS"@, TAG_CONS), i);
        lemma_occurs_append(Seq::<char>::empty() + ir_type_definitions(), tag_line("CONS"@, TAG_CONS), i, rest);
    }
    {
        let i = choose|i: int| occurs_at(ir_type_definitions(), tag_line("SYMBOL"@, TAG_SYMBOL), i);
        lemma_occurs_prepend(Seq::<char>::empty(), ir_type_definitions(), tag_line("SYMBOL"@, TAG_SYMBOL), i);
        lemma_occurs_append(Seq::<char>::empty() + ir_type_definitions(), tag_line("SYMBOL"@, TAG_SYMBOL), i, rest);
    }
    {
        let i = choose|i: int| occurs_at(ir_type_definitions(), tag_line("CLOSURE"@, TAG_CLOSURE), i);
        lemma_occurs_prepend(Seq::<char>::empty(), ir_type_definitions(), tag_line("CLOSURE"@, TAG_CLOSURE), i);
        lemma_occurs_append(Seq::<char>::empty() + ir_type_definitions(), tag_line("CLOSURE"@, TAG_CLOSURE), i, rest);
    }
    {
        let i = choose|i: int| occurs_at(ir_type_definitions(), tag_line("STRING"@, TAG_STRING), i);
        lemma_occurs_prepend(Seq::<char>::empty(), ir_type_definitions(), tag_line("STRING"@, TAG_STRING), i);
        lemma_occurs_append(Seq::<char>::empty() + ir_type_definitions(), tag_line("STRING"@, TAG_STRING), i, rest);
    }
    {
        let i = choose|i: int| occurs_at(ir_type_definitions(), tag_line("VECTOR"@, TAG_VECTOR), i);
        lemma_occurs_prepend(Seq::<char>::empty(), ir_type_definitions(), tag_line("VECTOR"@, TAG_VECTOR), i);
        lemma_occurs_append(Seq::<char>::empty() + ir_type_definitions(), tag_line("VECTOR"@, TAG_VECTOR), i, rest);
    }
}

} // verus!
