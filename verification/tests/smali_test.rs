use java_asm::smali::{stb, tokens_to_display, write_tokens_display, MappedName, SmaliNode, SmaliToken, ToSmali};

#[test]
fn mapped_names_start_shown_as_stored() {
    let name = MappedName::new("a".to_string());
    assert_eq!(name.raw_name, "a");
    assert_eq!(name.display_name, "a");
}

#[test]
fn tokens_are_shown_with_spaces_between() {
    let node = stb()
        .op("invoke-virtual".to_string())
        .vr(0, 3)
        .d("Ljava/lang/Object;".to_string())
        .mn("toString".to_string())
        .s();
    assert_eq!(tokens_to_display(&node.content), "invoke-virtual v0..v3 Ljava/lang/Object; toString");
    assert!(node.children.is_empty());
    assert_eq!(node.end_tag, None);
}

#[test]
fn offsets_show_absolute_and_signed_relative() {
    let node = stb().off(10, 5).off(10, -4).off(3, 0).s();
    assert_eq!(tokens_to_display(&node.content), "@15(+5) @6(-4) @3(+0)");
    assert_eq!(node.content[1], SmaliToken::Offset { relative: -4, absolute: 6 });
}

#[test]
fn each_token_kind_is_shown() {
    assert_eq!(SmaliToken::SourceInfo("A.java".to_string()).display_text(), "# source: A.java");
    assert_eq!(SmaliToken::Register(12).display_text(), "v12");
    assert_eq!(SmaliToken::SourceLine { raw_line: 7, display_line: 42 }.display_text(), "42");
    assert_eq!(
        SmaliToken::LineStartOffsetMarker { offset: Some(3), raw: "0003:".to_string() }.display_text(),
        "0003:"
    );
    assert_eq!(SmaliToken::Offset { relative: i32::MIN, absolute: 0 }.display_text(), "@0(-2147483648)");
    assert_eq!(SmaliToken::Literal("0x1".to_string()).display_text(), "0x1");
    assert_eq!(SmaliToken::Raw(".method".to_string()).display_text(), ".method");
    let mut name = MappedName::new("a".to_string());
    name.display_name = "onCreate".to_string();
    assert_eq!(SmaliToken::MemberName(name).display_text(), "onCreate");
}

#[test]
fn builders_add_in_order() {
    let node = stb()
        .raw(".line".to_string())
        .source_line(9)
        .l("1".to_string())
        .other("x".to_string())
        .v(2)
        .push(SmaliToken::Op("nop".to_string()))
        .append(vec![SmaliToken::Register(1), SmaliToken::Register(2)])
        .into_smali(vec![SmaliNode::empty()], ".end".to_string());
    assert_eq!(tokens_to_display(&node.content), ".line 9 1 x v2 nop v1 v2");
    assert_eq!(node.children.len(), 1);
    assert_eq!(node.end_tag, Some(".end".to_string()));
    let mut out = String::from(">");
    write_tokens_display(&[], &mut out);
    assert_eq!(out, ">");
}

#[test]
fn nodes_grow_children() {
    let mut node = SmaliNode::new("root".to_string());
    node.add_child(SmaliNode::new_with_children("child".to_string(), vec![]));
    node.add_child(stb().s_with_children(vec![SmaliNode::raw("null".to_string())]));
    assert_eq!(node.children.len(), 2);
    assert_eq!(node.content, vec![SmaliToken::Other("root".to_string())]);
    assert_eq!(node.children[1].children[0].tag, Some("null".to_string()));
    assert_eq!("text".to_string().to_smali().content, vec![SmaliToken::Other("text".to_string())]);
}
