use consair::runtime::{TAG_BOOL, TAG_CONS, TAG_FLOAT, TAG_INT, TAG_NIL};
use consair::runtime_ir::generate_runtime_ir;

#[test]
fn test_generate_runtime_ir() {
    let ir = generate_runtime_ir();

    assert!(ir.contains("%RuntimeValue = type"));
    assert!(ir.contains("%RuntimeConsCell = type"));
    assert!(ir.contains("define %RuntimeValue @rt_cons"));
    assert!(ir.contains("define %RuntimeValue @rt_car"));
    assert!(ir.contains("define %RuntimeValue @rt_cdr"));
    assert!(ir.contains("define %RuntimeValue @rt_add"));
    assert!(ir.contains("define %RuntimeValue @rt_sub"));
    assert!(ir.contains("define %RuntimeValue @rt_mul"));
    assert!(ir.contains("define %RuntimeValue @rt_div"));
    assert!(ir.contains("define %RuntimeValue @rt_eq"));
    assert!(ir.contains("define %RuntimeValue @rt_lt"));
    assert!(ir.contains("define %RuntimeValue @rt_is_nil"));
    assert!(ir.contains("define void @print_value"));
}

#[test]
fn test_tag_constants_correct() {
    let ir = generate_runtime_ir();

    assert!(ir.contains(&format!("@TAG_NIL = private constant i8 {TAG_NIL}")));
    assert!(ir.contains(&format!("@TAG_BOOL = private constant i8 {TAG_BOOL}")));
    assert!(ir.contains(&format!("@TAG_INT = private constant i8 {TAG_INT}")));
    assert!(ir.contains(&format!("@TAG_FLOAT = private constant i8 {TAG_FLOAT}")));
    assert!(ir.contains(&format!("@TAG_CONS = private constant i8 {TAG_CONS}")));
}

#[test]
fn runtime_ir_layout() {
    let ir = generate_runtime_ir();
    assert!(ir.starts_with("\n; Type definitions\n%RuntimeValue = type { i8, i64 }\n"));
    assert!(ir.contains("@fmt_newline = private constant [2 x i8] c\"\\0A\\00\""));
    assert!(ir.contains("%result1 = insertvalue %RuntimeValue undef, i8 4, 0"));
    // print_value comes before the I/O functions that call it
    let print = ir.find("define void @print_value").unwrap();
    let println = ir.find("define %RuntimeValue @rt_println").unwrap();
    assert!(print < println);
    assert!(ir.ends_with("  ret %RuntimeValue %nil2\n}\n"));
}
