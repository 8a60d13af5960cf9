use java_asm::descriptor::split_method_descriptor;

#[test]
fn method_descriptors_split_into_arguments_and_return_type() {
    let (args, returned, levels) = split_method_descriptor("(I[[Ljava/lang/String;J)[V").unwrap();
    assert_eq!(
        args,
        vec![("I".to_string(), 0), ("Ljava/lang/String;".to_string(), 2), ("J".to_string(), 0)]
    );
    assert_eq!(returned, "[V");
    assert_eq!(levels, 1);
    let (args, returned, levels) = split_method_descriptor("()V").unwrap();
    assert!(args.is_empty());
    assert_eq!(returned, "V");
    assert_eq!(levels, 0);
}

#[test]
fn malformed_method_descriptors_are_not_split() {
    assert_eq!(split_method_descriptor("(Ljava/lang/String)V"), None);
    assert_eq!(split_method_descriptor("I)V"), None);
    assert_eq!(split_method_descriptor("(I"), None);
    assert_eq!(split_method_descriptor(""), None);
}
