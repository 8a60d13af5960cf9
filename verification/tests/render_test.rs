use java_asm::render::append_java_flags;

#[test]
fn flags_are_written_lowest_bit_first_without_acc() {
    let mut names: Vec<Option<&str>> = vec![None; 16];
    names[0] = Some("acc_public");
    names[4] = Some("acc_final");
    names[5] = Some("acc_super");
    names[9] = Some("interface");
    let mut out = String::from(".class");
    append_java_flags(&mut out, 0x0231, &names);
    assert_eq!(out, ".class public final super interface");
    let mut out = String::new();
    append_java_flags(&mut out, 0x0002, &names);
    assert_eq!(out, "");
    let mut out = String::new();
    append_java_flags(&mut out, 0x0001, &[]);
    assert_eq!(out, "");
}
