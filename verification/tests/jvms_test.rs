use java_asm::err::AsmErr;
use java_asm::jvms::attr::{Attribute, ExceptionTable};
use java_asm::jvms::element::{AttributeInfo, CPInfo, ClassFile, Const, MethodInfo};
use java_asm::jvms::element::FieldInfo;
use java_asm::jvms::read::bytes::ReadContext;
use java_asm::jvms::read::jvms_reader::read_raw_class_file;
use java_asm::jvms::{JvmsClassReader, JvmsClassWriter};
use java_asm::jvms::attr::annotation::{AnnotationElement, AnnotationElementValue, AnnotationElementValueInfo, AnnotationInfo};
use java_asm::node::element::{
    AnnotationNode, AnnotationValue, ClassNode, FieldInitialValue, InnerClassNode, NodeReader, UnknownAttribute,
};
use java_asm::node::values::ConstValue;
use java_asm::node::node_reader::class_node_from_jvms;
use java_asm::render::render_jvm_class;

fn utf8(text: &str) -> Vec<u8> {
    let mut v = vec![1u8];
    v.extend_from_slice(&(text.len() as u16).to_be_bytes());
    v.extend_from_slice(text.as_bytes());
    v
}

/// A class `Test` extending `java/lang/Object`, with a method `main()V` whose body is a
/// single `return`, and a `SourceFile` attribute.
fn sample_class_bytes() -> Vec<u8> {
    let mut b = vec![0xCA, 0xFE, 0xBA, 0xBE, 0x00, 0x00, 0x00, 0x34];
    b.extend_from_slice(&10u16.to_be_bytes());
    b.extend(utf8("Test")); // 1
    b.extend([7, 0, 1]); // 2: Class #1
    b.extend(utf8("java/lang/Object")); // 3
    b.extend([7, 0, 3]); // 4: Class #3
    b.extend(utf8("Code")); // 5
    b.extend(utf8("main")); // 6
    b.extend(utf8("()V")); // 7
    b.extend(utf8("SourceFile")); // 8
    b.extend(utf8("Test.java")); // 9
    b.extend([0x00, 0x21, 0x00, 0x02, 0x00, 0x04]); // access, this, super
    b.extend([0x00, 0x00]); // interfaces
    b.extend([0x00, 0x00]); // fields
    b.extend([0x00, 0x01]); // methods
    b.extend([0x00, 0x09, 0x00, 0x06, 0x00, 0x07, 0x00, 0x01]);
    b.extend([0x00, 0x05, 0x00, 0x00, 0x00, 0x0D]); // Code, length 13
    b.extend([0x00, 0x01, 0x00, 0x01, 0x00, 0x00, 0x00, 0x01, 0xB1, 0x00, 0x00, 0x00, 0x00]);
    b.extend([0x00, 0x01]); // class attributes
    b.extend([0x00, 0x08, 0x00, 0x00, 0x00, 0x02, 0x00, 0x09]);
    b
}

fn read_jvms() -> Result<ClassFile, AsmErr> {
    JvmsClassReader::read_class_bytes(&sample_class_bytes())
}

#[test]
fn jvm_read_test_read_jvms_test() {
    println!("{:?}", read_jvms().unwrap());
}

#[test]
fn read_test_read_jvms_test() {
    println!("{:?}", read_jvms().unwrap());
}

#[test]
fn reads_the_structure_of_a_class() {
    let class_file = read_jvms().unwrap();
    assert_eq!(class_file.magic, 0xCAFEBABE);
    assert_eq!(class_file.major_version, 52);
    assert_eq!(class_file.constant_pool_count, 10);
    assert_eq!(class_file.constant_pool.len(), 10);
    assert_eq!(class_file.constant_pool[2].info, Const::Class { name_index: 1 });
    assert_eq!(class_file.this_class, 2);
    assert_eq!(class_file.super_class, 4);
    assert_eq!(class_file.methods.len(), 1);
    let method = &class_file.methods[0];
    assert_eq!(method.name_index, 6);
    match &method.attributes[0].info {
        Attribute::Code { max_stack, code, attributes, .. } => {
            assert_eq!(*max_stack, 1);
            assert_eq!(code, &vec![0xB1]);
            assert!(attributes.is_empty());
        }
        other => panic!("expected a Code attribute, got {:?}", other),
    }
    assert_eq!(class_file.attributes[0].info, Attribute::SourceFile { sourcefile_index: 9 });
}

#[test]
fn writing_what_was_read_gives_the_same_bytes() {
    let bytes = sample_class_bytes();
    let class_file = JvmsClassReader::read_class_bytes(&bytes).unwrap();
    let written = JvmsClassWriter::write_class_bytes(vec![], class_file).unwrap();
    assert_eq!(written, bytes);
}

#[test]
fn written_class_reads_back_as_itself() {
    let class_file = read_jvms().unwrap();
    let expected = read_jvms().unwrap();
    let written = JvmsClassWriter::write_class_bytes(vec![1, 2], class_file).unwrap();
    assert_eq!(&written[..2], &[1, 2]);
    let again = JvmsClassReader::read_class_bytes(&written[2..]).unwrap();
    assert_eq!(again, expected);
}

#[test]
fn truncated_class_is_out_of_range() {
    let bytes = sample_class_bytes();
    let result = JvmsClassReader::read_class_bytes(&bytes[..bytes.len() - 3]);
    assert_eq!(result, Err(AsmErr::OutOfRange));
}

#[test]
fn unknown_constant_tag_is_reported() {
    let mut bytes = sample_class_bytes();
    bytes[10] = 2; // the tag of the first constant
    let result = JvmsClassReader::read_class_bytes(&bytes);
    assert_eq!(result, Err(AsmErr::UnknownConstTag(2)));
}

#[test]
fn attribute_name_that_is_not_utf8_is_reported() {
    let mut bytes = sample_class_bytes();
    let n = bytes.len();
    bytes[n - 7] = 2; // the SourceFile attribute now names constant #2, a Class
    let result = JvmsClassReader::read_class_bytes(&bytes);
    assert_eq!(result, Err(AsmErr::NotUtf8Const { index: 2, tag: 7 }));
}

#[test]
fn unknown_attribute_stays_bytes() {
    let class_file = ClassFile {
        magic: 0xCAFEBABE,
        minor_version: 0,
        major_version: 52,
        constant_pool_count: 2,
        constant_pool: vec![
            CPInfo { tag: 0, info: Const::Invalid },
            CPInfo { tag: 1, info: Const::Utf8 { length: 5, bytes: b"Other".to_vec() } },
        ],
        access_flags: 1,
        this_class: 0,
        super_class: 0,
        interfaces_count: 0,
        interfaces: vec![],
        fields_count: 0,
        fields: vec![],
        methods_count: 1,
        methods: vec![MethodInfo {
            access_flags: 1,
            name_index: 1,
            descriptor_index: 1,
            attributes_count: 0,
            attributes: vec![],
        }],
        attributes_count: 1,
        attributes: vec![AttributeInfo {
            attribute_name_index: 1,
            attribute_length: 3,
            info: Attribute::Custom(vec![7, 8, 9]),
        }],
    };
    let written = JvmsClassWriter::write_class_bytes(vec![], class_file).unwrap();
    let read = JvmsClassReader::read_class_bytes(&written).unwrap();
    assert_eq!(read.attributes[0].info, Attribute::Custom(vec![7, 8, 9]));
    assert_eq!(read.methods[0].attributes_count, 0);
}

#[test]
fn exception_table_roundtrip_in_code() {
    let mut class_file = read_jvms().unwrap();
    let code = &mut class_file.methods[0].attributes[0];
    if let Attribute::Code { exception_table_length, exception_table, .. } = &mut code.info {
        *exception_table_length = 1;
        exception_table.push(ExceptionTable { start_pc: 0, end_pc: 1, handler_pc: 0, catch_type: 4 });
    }
    code.attribute_length += 8;
    let expected = format!("{:?}", class_file);
    let written = JvmsClassWriter::write_class_bytes(vec![], class_file).unwrap();
    let read = JvmsClassReader::read_class_bytes(&written).unwrap();
    assert_eq!(format!("{:?}", read), expected);
    match &read.methods[0].attributes[0].info {
        Attribute::Code { exception_table, .. } => assert_eq!(exception_table[0].catch_type, 4),
        other => panic!("expected a Code attribute, got {:?}", other),
    }
}

/// A class whose pool holds a `Long` at index 3, with the unusable slot 4 after it, and a
/// `SourceFile` attribute naming entry 5.
fn class_with_long_bytes() -> Vec<u8> {
    let mut b = vec![0xCA, 0xFE, 0xBA, 0xBE, 0x00, 0x00, 0x00, 0x34];
    b.extend_from_slice(&7u16.to_be_bytes());
    b.extend(utf8("Test")); // 1
    b.extend([7, 0, 1]); // 2: Class #1
    b.extend([5, 0, 0, 0, 1, 0, 0, 0, 2]); // 3: Long, 4: unusable
    b.extend(utf8("SourceFile")); // 5
    b.extend(utf8("Test.java")); // 6
    b.extend([0x00, 0x21, 0x00, 0x02, 0x00, 0x00]);
    b.extend([0x00, 0x00, 0x00, 0x00, 0x00, 0x00]);
    b.extend([0x00, 0x01, 0x00, 0x05, 0x00, 0x00, 0x00, 0x02, 0x00, 0x06]);
    b
}

#[test]
fn the_slot_after_a_long_is_unusable_and_entries_keep_their_indices() {
    let bytes = class_with_long_bytes();
    let class_file = JvmsClassReader::read_class_bytes(&bytes).unwrap();
    assert_eq!(class_file.constant_pool.len(), class_file.constant_pool_count as usize);
    assert_eq!(class_file.constant_pool[3].info, Const::Long { high_bytes: 1, low_bytes: 2 });
    assert_eq!(class_file.constant_pool[4], CPInfo { tag: 0, info: Const::Invalid });
    assert_eq!(class_file.constant_pool[5].info, Const::Utf8 { length: 10, bytes: b"SourceFile".to_vec() });
    assert_eq!(class_file.attributes[0].info, Attribute::SourceFile { sourcefile_index: 6 });
    let written = JvmsClassWriter::write_class_bytes(vec![], class_file).unwrap();
    assert_eq!(written, bytes);
}

#[test]
fn a_class_reads_into_its_node_and_renders_as_smali() {
    let node = class_node_from_jvms(read_jvms().unwrap()).unwrap().unwrap();
    assert_eq!(node.name, "Test");
    assert_eq!(node.source_file.as_deref(), Some("Test.java"));
    assert_eq!(node.methods.len(), 1);
    assert_eq!(node.methods[0].name, "main");
    assert_eq!(
        render_jvm_class(&node),
        ".class public super Test\n.super java/lang/Object\n.source Test.java\n.method public static main ()V\n.end method\n.end class\n"
    );
}

fn field_class(value_index: u16) -> ClassFile {
    let utf8_entry = |t: &str| CPInfo { tag: 1, info: Const::Utf8 { length: t.len() as u16, bytes: t.as_bytes().to_vec() } };
    let constant = |name_index: u16, descriptor_index: u16, access_flags: u16, value: u16| FieldInfo {
        access_flags,
        name_index,
        descriptor_index,
        attributes_count: 1,
        attributes: vec![AttributeInfo {
            attribute_name_index: 10,
            attribute_length: 2,
            info: Attribute::ConstantValue { constantvalue_index: value },
        }],
    };
    ClassFile {
        magic: 0xCAFEBABE,
        minor_version: 0,
        major_version: 52,
        constant_pool_count: 11,
        constant_pool: vec![
            CPInfo { tag: 0, info: Const::Invalid },
            utf8_entry("C"),
            CPInfo { tag: 7, info: Const::Class { name_index: 1 } },
            utf8_entry("x"),
            utf8_entry("I"),
            CPInfo { tag: 3, info: Const::Integer { bytes: (-5i32) as u32 } },
            utf8_entry("s"),
            utf8_entry("Ljava/lang/String;"),
            CPInfo { tag: 8, info: Const::String { string_index: 9 } },
            utf8_entry("a\"b"),
            utf8_entry("ConstantValue"),
        ],
        access_flags: 1,
        this_class: 2,
        super_class: 0,
        interfaces_count: 0,
        interfaces: vec![],
        fields_count: 2,
        fields: vec![constant(3, 4, 0x0019, value_index), constant(6, 7, 0x0002, 8)],
        methods_count: 0,
        methods: vec![],
        attributes_count: 0,
        attributes: vec![],
    }
}

#[test]
fn fields_keep_their_initial_values() {
    let node = class_node_from_jvms(field_class(5)).unwrap().unwrap();
    assert_eq!(node.fields[0].value, Some(FieldInitialValue::Integer(-5)));
    assert_eq!(node.fields[1].value, Some(FieldInitialValue::String("a\"b".to_string())));
    assert_eq!(
        render_jvm_class(&node),
        ".class public C\n.field public static final x I = Integer(-5)\n.field private s Ljava/lang/String; = String(\"a\\\"b\")\n.end class\n"
    );
}

#[test]
fn a_constant_value_that_is_no_value_is_an_error() {
    assert_eq!(class_node_from_jvms(field_class(2)), Some(Err(AsmErr::ResolveNode(2))));
    let mut cf = field_class(5);
    cf.this_class = 40;
    assert_eq!(class_node_from_jvms(cf), None);
}

#[test]
fn reading_attribute_bodies_again_changes_nothing() {
    use_transform_twice();
}

fn use_transform_twice() {
    let once = read_jvms().unwrap();
    let again = java_asm::jvms::read::transform::transform_class_file(read_jvms().unwrap());
    assert_eq!(again, Some(Ok(once)));
}

#[test]
fn nest_attributes_name_their_classes() {
    let mut cf = field_class(5);
    cf.attributes = vec![
        AttributeInfo { attribute_name_index: 10, attribute_length: 2, info: Attribute::NestHost { host_class_index: 2 } },
        AttributeInfo {
            attribute_name_index: 10,
            attribute_length: 4,
            info: Attribute::NestMembers { number_of_classes: 1, classes: vec![2] },
        },
        AttributeInfo {
            attribute_name_index: 10,
            attribute_length: 6,
            info: Attribute::PermittedSubclasses { number_of_classes: 2, classes: vec![2, 2] },
        },
        AttributeInfo {
            attribute_name_index: 10,
            attribute_length: 4,
            info: Attribute::NestMembers { number_of_classes: 1, classes: vec![2] },
        },
    ];
    cf.attributes_count = 4;
    let node = class_node_from_jvms(cf).unwrap().unwrap();
    assert_eq!(node.nest_host_class.as_deref(), Some("C"));
    assert_eq!(node.nest_members, vec!["C".to_string(), "C".to_string()]);
    assert_eq!(node.permitted_subclasses, vec!["C".to_string(), "C".to_string()]);
    let mut bad = field_class(5);
    bad.attributes = vec![AttributeInfo {
        attribute_name_index: 10,
        attribute_length: 4,
        info: Attribute::NestMembers { number_of_classes: 1, classes: vec![3] },
    }];
    assert_eq!(
        class_node_from_jvms(bad),
        Some(Err(AsmErr::IllegalConst { index: 3, required: java_asm::err::ConstKind::Class }))
    );
}

#[test]
fn writing_what_was_read_raw_gives_the_bytes_back() {
    raw_reread(sample_class_bytes());
    raw_reread(class_with_long_bytes());
}

fn raw_reread(bytes: Vec<u8>) {
    let mut padded = bytes.clone();
    padded.extend([9, 9, 9]);
    let mut context = ReadContext::big_endian(&padded);
    let raw = read_raw_class_file(&mut context).unwrap().unwrap();
    assert_eq!(context.index, bytes.len());
    let written = JvmsClassWriter::write_class_bytes(vec![], raw).unwrap();
    assert_eq!(written, bytes);
}

fn utf8_entry(t: &str) -> CPInfo {
    CPInfo { tag: 1, info: Const::Utf8 { length: t.len() as u16, bytes: t.as_bytes().to_vec() } }
}

/// A class `A` extending `B` and implementing `I`, with no members.
fn abi_class() -> ClassFile {
    ClassFile {
        magic: 0xCAFEBABE,
        minor_version: 0,
        major_version: 52,
        constant_pool_count: 7,
        constant_pool: vec![
            CPInfo { tag: 0, info: Const::Invalid },
            CPInfo { tag: 7, info: Const::Class { name_index: 2 } },
            utf8_entry("A"),
            CPInfo { tag: 7, info: Const::Class { name_index: 4 } },
            utf8_entry("B"),
            CPInfo { tag: 7, info: Const::Class { name_index: 6 } },
            utf8_entry("I"),
        ],
        access_flags: 0x21,
        this_class: 1,
        super_class: 3,
        interfaces_count: 1,
        interfaces: vec![5],
        fields_count: 0,
        fields: vec![],
        methods_count: 0,
        methods: vec![],
        attributes_count: 0,
        attributes: vec![],
    }
}

#[test]
fn the_node_names_its_super_class_and_interfaces() {
    let node = class_node_from_jvms(abi_class()).unwrap().unwrap();
    assert_eq!(node.name, "A");
    assert_eq!(node.super_name.as_deref(), Some("B"));
    assert_eq!(node.interfaces, vec!["I".to_string()]);
    assert!(node.fields.is_empty());
    assert!(node.methods.is_empty());
    assert_eq!(render_jvm_class(&node), ".class public super A\n.super B\n.implements I\n.end class\n");
}

#[test]
fn a_class_without_super_class_has_none() {
    let mut cf = abi_class();
    cf.super_class = 0;
    cf.interfaces = vec![];
    let node = class_node_from_jvms(cf).unwrap().unwrap();
    assert_eq!(node.super_name, None);
    assert!(node.interfaces.is_empty());
}

#[test]
fn an_interface_that_is_no_class_is_an_error() {
    let mut cf = abi_class();
    cf.interfaces = vec![6];
    assert_eq!(
        class_node_from_jvms(cf),
        Some(Err(AsmErr::IllegalConst { index: 6, required: java_asm::err::ConstKind::Class }))
    );
}

/// `abi_class` with a pool that also holds a method name and type and attribute names.
fn attributed_class(attributes: Vec<AttributeInfo>) -> ClassFile {
    let mut cf = abi_class();
    cf.constant_pool.extend([
        utf8_entry("run"),                                                       // 7
        utf8_entry("()V"),                                                       // 8
        CPInfo { tag: 12, info: Const::NameAndType { name_index: 7, descriptor_index: 8 } }, // 9
        utf8_entry("Inner"),                                                     // 10
        utf8_entry("Deprecated"),                                                // 11
        utf8_entry("Custom"),                                                    // 12
    ]);
    cf.constant_pool_count = 13;
    cf.attributes_count = attributes.len() as u16;
    cf.attributes = attributes;
    cf
}

#[test]
fn enclosing_method_and_inner_classes_are_read() {
    let cf = attributed_class(vec![
        AttributeInfo {
            attribute_name_index: 11,
            attribute_length: 4,
            info: Attribute::EnclosingMethod { class_index: 3, method_index: 9 },
        },
        AttributeInfo {
            attribute_name_index: 11,
            attribute_length: 18,
            info: Attribute::InnerClasses {
                number_of_classes: 2,
                classes: vec![
                    java_asm::jvms::attr::InnerClassInfo {
                        inner_class_info_index: 5,
                        outer_class_info_index: 1,
                        inner_name_index: 10,
                        inner_class_access_flags: 9,
                    },
                    java_asm::jvms::attr::InnerClassInfo {
                        inner_class_info_index: 3,
                        outer_class_info_index: 0,
                        inner_name_index: 0,
                        inner_class_access_flags: 0,
                    },
                ],
            },
        },
    ]);
    let node = class_node_from_jvms(cf).unwrap().unwrap();
    assert_eq!(node.outer_class.as_deref(), Some("B"));
    assert_eq!(node.outer_method.as_deref(), Some("run"));
    assert_eq!(node.outer_method_desc.as_deref(), Some("()V"));
    assert_eq!(
        node.inner_classes,
        vec![
            InnerClassNode { name: "I".to_string(), outer_name: Some("A".to_string()), inner_name: Some("Inner".to_string()), access: 9 },
            InnerClassNode { name: "B".to_string(), outer_name: None, inner_name: None, access: 0 },
        ]
    );
    assert!(node.attrs.is_empty());
}

#[test]
fn enclosing_class_outside_a_method_has_no_method() {
    let cf = attributed_class(vec![AttributeInfo {
        attribute_name_index: 11,
        attribute_length: 4,
        info: Attribute::EnclosingMethod { class_index: 3, method_index: 0 },
    }]);
    let node = class_node_from_jvms(cf).unwrap().unwrap();
    assert_eq!(node.outer_class.as_deref(), Some("B"));
    assert_eq!(node.outer_method, None);
    assert_eq!(node.outer_method_desc, None);
}

#[test]
fn source_debug_extension_is_decoded() {
    let cf = attributed_class(vec![AttributeInfo {
        attribute_name_index: 11,
        attribute_length: 3,
        info: Attribute::SourceDebugExtension { debug_extension: b"SMP".to_vec() },
    }]);
    let node = class_node_from_jvms(cf).unwrap().unwrap();
    assert_eq!(node.source_debug.as_deref(), Some("SMP"));
}

#[test]
fn other_attributes_are_kept_under_their_names() {
    let cf = attributed_class(vec![
        AttributeInfo { attribute_name_index: 11, attribute_length: 0, info: Attribute::Deprecated },
        AttributeInfo { attribute_name_index: 12, attribute_length: 2, info: Attribute::Custom(vec![1, 2]) },
    ]);
    let node = class_node_from_jvms(cf).unwrap().unwrap();
    assert_eq!(
        node.attrs,
        vec![
            UnknownAttribute { name: "Deprecated".to_string(), index: 0 },
            UnknownAttribute { name: "Custom".to_string(), index: 1 },
        ]
    );
}

#[test]
fn an_attribute_whose_name_is_no_string_is_an_error() {
    let cf = attributed_class(vec![AttributeInfo { attribute_name_index: 9, attribute_length: 0, info: Attribute::Synthetic }]);
    assert_eq!(
        class_node_from_jvms(cf),
        Some(Err(AsmErr::IllegalConst { index: 9, required: java_asm::err::ConstKind::Utf8 }))
    );
}

#[test]
fn field_attributes_beside_signature_and_value_are_kept() {
    let mut cf = field_class(5);
    cf.fields[0].attributes.push(AttributeInfo { attribute_name_index: 10, attribute_length: 0, info: Attribute::Synthetic });
    cf.fields[0].attributes_count = 2;
    let node = class_node_from_jvms(cf).unwrap().unwrap();
    assert_eq!(node.fields[0].attrs, vec![UnknownAttribute { name: "ConstantValue".to_string(), index: 1 }]);
    assert!(node.fields[1].attrs.is_empty());
}

#[test]
fn node_compositions_agree() {
    let bytes = sample_class_bytes();
    let direct = || class_node_from_jvms(read_jvms().unwrap()).unwrap().unwrap();
    assert_eq!(ClassNode::from_bytes(&bytes), Ok(direct()));
    assert_eq!(NodeReader::read_class_bytes(&bytes), Ok(direct()));
    assert_eq!(ClassNode::from_jvms(read_jvms().unwrap()), Ok(direct()));
    assert_eq!(NodeReader::from_jvms(read_jvms().unwrap()), Ok(direct()));
    assert_eq!(ClassNode::try_from_bytes(&bytes), Some(Ok(direct())));
    assert_eq!(ClassNode::try_from_bytes(&bytes[..20]), Some(Err(AsmErr::OutOfRange)));
}

/// `attributed_class` with module and package entries: module `m` (14), package `p` (16),
/// module `n` (18).
fn module_class(attributes: Vec<AttributeInfo>) -> ClassFile {
    let mut cf = attributed_class(attributes);
    cf.constant_pool.extend([
        utf8_entry("m"),                                                 // 13
        CPInfo { tag: 19, info: Const::Module { name_index: 13 } },      // 14
        utf8_entry("p"),                                                 // 15
        CPInfo { tag: 20, info: Const::Package { name_index: 15 } },     // 16
        utf8_entry("n"),                                                 // 17
        CPInfo { tag: 19, info: Const::Module { name_index: 17 } },      // 18
        utf8_entry("1.0"),                                               // 19
    ]);
    cf.constant_pool_count = 20;
    cf
}

fn module_attribute() -> AttributeInfo {
    AttributeInfo {
        attribute_name_index: 11,
        attribute_length: 0,
        info: Attribute::Module {
            module_name_index: 14,
            module_flags: 0x20,
            module_version_index: 19,
            requires_count: 1,
            module_requires: vec![java_asm::jvms::attr::module::ModuleRequires {
                requires_index: 18,
                requires_flags: 0,
                requires_version_index: 0,
            }],
            exports_count: 1,
            exports: vec![java_asm::jvms::attr::module::ModuleExports {
                exports_index: 16,
                exports_flags: 0,
                exports_to_count: 1,
                exports_to_index: vec![18],
            }],
            opens_count: 1,
            opens: vec![java_asm::jvms::attr::module::ModuleOpens {
                opens_index: 16,
                opens_flags: 0,
                opens_to_count: 0,
                opens_to_index: vec![],
            }],
            uses_count: 1,
            uses_index: vec![3],
            provides_count: 1,
            provides: vec![java_asm::jvms::attr::module::ModuleProvides {
                provides_index: 5,
                provides_with_count: 1,
                provides_with_index: vec![1],
            }],
        },
    }
}

#[test]
fn a_module_is_read_with_its_packages_and_main_class() {
    let cf = module_class(vec![
        module_attribute(),
        AttributeInfo {
            attribute_name_index: 11,
            attribute_length: 4,
            info: Attribute::ModulePackages { package_count: 1, package_index: vec![16] },
        },
        AttributeInfo { attribute_name_index: 11, attribute_length: 2, info: Attribute::ModuleMainClass { main_class_index: 1 } },
    ]);
    let module = class_node_from_jvms(cf).unwrap().unwrap().module.unwrap();
    assert_eq!(module.name, "m");
    assert_eq!(module.access, 0x20);
    assert_eq!(module.version.as_deref(), Some("1.0"));
    assert_eq!(module.main_class.as_deref(), Some("A"));
    assert_eq!(module.packages, vec!["p".to_string()]);
    assert_eq!(module.requires.len(), 1);
    assert_eq!(module.requires[0].module, "n");
    assert_eq!(module.requires[0].version, None);
    assert_eq!(module.exports[0].package, "p");
    assert_eq!(module.exports[0].modules, vec!["n".to_string()]);
    assert_eq!(module.opens[0].package, "p");
    assert!(module.opens[0].modules.is_empty());
    assert_eq!(module.uses, vec!["B".to_string()]);
    assert_eq!(module.provides[0].service, "I");
    assert_eq!(module.provides[0].providers, vec!["A".to_string()]);
}

#[test]
fn a_module_without_package_attribute_has_no_packages() {
    let node = class_node_from_jvms(module_class(vec![module_attribute()])).unwrap().unwrap();
    let module = node.module.unwrap();
    assert!(module.packages.is_empty());
    assert_eq!(module.main_class, None);
    assert!(class_node_from_jvms(abi_class()).unwrap().unwrap().module.is_none());
}

#[test]
fn a_package_that_is_a_module_is_an_error() {
    let cf = module_class(vec![AttributeInfo {
        attribute_name_index: 11,
        attribute_length: 4,
        info: Attribute::ModulePackages { package_count: 1, package_index: vec![14] },
    }]);
    assert_eq!(
        class_node_from_jvms(cf),
        Some(Err(AsmErr::IllegalConst { index: 14, required: java_asm::err::ConstKind::Package }))
    );
}

#[test]
fn record_components_are_read_with_their_signatures() {
    let component = java_asm::jvms::attr::RecordComponentInfo {
        name_index: 7,
        descriptor_index: 8,
        attributes_count: 2,
        attributes: vec![
            AttributeInfo { attribute_name_index: 11, attribute_length: 2, info: Attribute::Signature { signature_index: 10 } },
            AttributeInfo { attribute_name_index: 11, attribute_length: 0, info: Attribute::Synthetic },
        ],
    };
    let cf = attributed_class(vec![AttributeInfo {
        attribute_name_index: 11,
        attribute_length: 0,
        info: Attribute::Record { components_count: 1, components: vec![component] },
    }]);
    let node = class_node_from_jvms(cf).unwrap().unwrap();
    assert_eq!(node.record_components.len(), 1);
    let c = &node.record_components[0];
    assert_eq!(c.name, "run");
    assert_eq!(c.desc, "()V");
    assert_eq!(c.signature.as_deref(), Some("Inner"));
    assert_eq!(c.attrs, vec![UnknownAttribute { name: "Deprecated".to_string(), index: 1 }]);
    assert!(c.annotations.is_empty() && c.type_annotations.is_empty());
    assert!(node.attrs.is_empty());
}

#[test]
fn a_body_written_in_another_form_does_not_read_back_as_its_bytes() {
    let mut bytes = sample_class_bytes();
    // the SourceFile attribute, stored with length 3 and a body of one byte more
    let n = bytes.len();
    bytes[n - 3] = 3;
    bytes.push(0);
    let class_file = JvmsClassReader::read_class_bytes(&bytes).unwrap();
    let written = JvmsClassWriter::write_class_bytes(vec![], class_file).unwrap();
    assert_ne!(written, bytes);
}

/// `attributed_class` with an annotation type `LAnn;` (13), an int constant (14) and an
/// element name `v` (15).
fn annotated_class(attributes: Vec<AttributeInfo>) -> ClassFile {
    let mut cf = attributed_class(attributes);
    cf.constant_pool.extend([
        utf8_entry("LAnn;"),                                         // 13
        CPInfo { tag: 3, info: Const::Integer { bytes: 7 } },        // 14
        utf8_entry("v"),                                             // 15
    ]);
    cf.constant_pool_count = 16;
    cf
}

fn element(name_index: u16, tag: u8, value: AnnotationElementValue) -> AnnotationElement {
    AnnotationElement { element_name_index: name_index, value: AnnotationElementValueInfo { tag, value } }
}

#[test]
fn annotations_are_read_with_their_values() {
    let nested = AnnotationInfo { type_index: 13, num_element_value_pairs: 0, element_value_pairs: vec![] };
    let annotation = AnnotationInfo {
        type_index: 13,
        num_element_value_pairs: 4,
        element_value_pairs: vec![
            element(15, b'I', AnnotationElementValue::Const { const_value_index: 14 }),
            element(15, b'e', AnnotationElementValue::EnumConst { type_name_index: 13, const_name_index: 15 }),
            element(15, b'c', AnnotationElementValue::Class { class_info_index: 8 }),
            element(
                15,
                b'[',
                AnnotationElementValue::Array {
                    num_values: 1,
                    values: vec![AnnotationElementValueInfo { tag: b'@', value: AnnotationElementValue::Annotation { annotation_value: nested } }],
                },
            ),
        ],
    };
    let cf = annotated_class(vec![AttributeInfo {
        attribute_name_index: 11,
        attribute_length: 0,
        info: Attribute::RuntimeInvisibleAnnotations { num_annotations: 1, annotations: vec![annotation] },
    }]);
    let node = class_node_from_jvms(cf).unwrap().unwrap();
    assert_eq!(node.annotations.len(), 1);
    let a = &node.annotations[0];
    assert!(!a.visible);
    assert_eq!(a.desc, "LAnn;");
    assert_eq!(
        a.values,
        vec![
            ("v".to_string(), AnnotationValue::Const(ConstValue::Integer(7))),
            ("v".to_string(), AnnotationValue::Enum("LAnn;".to_string(), "v".to_string())),
            ("v".to_string(), AnnotationValue::Class("()V".to_string())),
            (
                "v".to_string(),
                AnnotationValue::Array(vec![AnnotationValue::Annotation(AnnotationNode {
                    visible: false,
                    desc: "LAnn;".to_string(),
                    values: vec![],
                })])
            ),
        ]
    );
    assert!(node.attrs.is_empty());
}

#[test]
fn an_annotation_whose_type_is_no_string_is_an_error() {
    let cf = annotated_class(vec![AttributeInfo {
        attribute_name_index: 11,
        attribute_length: 0,
        info: Attribute::RuntimeVisibleAnnotations {
            num_annotations: 1,
            annotations: vec![AnnotationInfo { type_index: 14, num_element_value_pairs: 0, element_value_pairs: vec![] }],
        },
    }]);
    assert_eq!(
        class_node_from_jvms(cf),
        Some(Err(AsmErr::IllegalConst { index: 14, required: java_asm::err::ConstKind::Utf8 }))
    );
}

#[test]
fn field_annotations_are_read() {
    let mut cf = field_class(5);
    cf.fields[0].attributes.push(AttributeInfo {
        attribute_name_index: 10,
        attribute_length: 0,
        info: Attribute::RuntimeVisibleAnnotations {
            num_annotations: 1,
            annotations: vec![AnnotationInfo { type_index: 4, num_element_value_pairs: 0, element_value_pairs: vec![] }],
        },
    });
    cf.fields[0].attributes_count = 2;
    let node = class_node_from_jvms(cf).unwrap().unwrap();
    assert_eq!(
        node.fields[0].annotations,
        vec![AnnotationNode { visible: true, desc: "I".to_string(), values: vec![] }]
    );
    assert!(node.fields[0].attrs.is_empty());
}

#[test]
fn type_annotations_keep_their_targets() {
    let target = java_asm::jvms::attr::annotation::TypeAnnotationTargetInfo::LocalVar {
        table_length: 1,
        table: vec![java_asm::jvms::attr::annotation::TypeAnnotationTargetInfoLocalVarTable { start_pc: 0, length: 4, index: 1 }],
    };
    let path = java_asm::jvms::attr::annotation::TypeAnnotationTargetPath {
        path_length: 1,
        path: vec![java_asm::jvms::attr::annotation::TypeAnnotationTargetPathInfo { type_path_kind: 3, type_argument_index: 0 }],
    };
    let cf = annotated_class(vec![AttributeInfo {
        attribute_name_index: 11,
        attribute_length: 0,
        info: Attribute::RuntimeVisibleTypeAnnotations {
            num_parameters: 1,
            annotations: vec![java_asm::jvms::attr::annotation::TypeAnnotation {
                target_type: 0x40,
                target_info: target.clone(),
                target_path: path.clone(),
                type_index: 13,
                num_element_value_pairs: 0,
                element_value_pairs: vec![],
            }],
        },
    }]);
    let node = class_node_from_jvms(cf).unwrap().unwrap();
    assert_eq!(node.type_annotations.len(), 1);
    let t = &node.type_annotations[0];
    assert_eq!(t.target_type, 0x40);
    assert_eq!(t.target_info, target);
    assert_eq!(t.target_path, path);
    assert_eq!(t.annotation_node, AnnotationNode { visible: true, desc: "LAnn;".to_string(), values: vec![] });
    assert!(node.annotations.is_empty());
    assert!(node.attrs.is_empty());
}

#[test]
fn method_attributes_are_read() {
    let node = class_node_from_jvms(read_jvms().unwrap()).unwrap().unwrap();
    assert_eq!(node.methods[0].attrs, vec![UnknownAttribute { name: "Code".to_string(), index: 0 }]);
    assert!(node.methods[0].exceptions.is_empty());
    let mut cf = annotated_class(vec![]);
    cf.methods = vec![MethodInfo {
        access_flags: 1,
        name_index: 7,
        descriptor_index: 8,
        attributes_count: 4,
        attributes: vec![
            AttributeInfo { attribute_name_index: 11, attribute_length: 2, info: Attribute::Signature { signature_index: 8 } },
            AttributeInfo {
                attribute_name_index: 11,
                attribute_length: 4,
                info: Attribute::Exceptions { number_of_exceptions: 1, exception_index_table: vec![3] },
            },
            AttributeInfo {
                attribute_name_index: 11,
                attribute_length: 9,
                info: Attribute::MethodParameters {
                    parameters_count: 2,
                    parameters: vec![
                        java_asm::jvms::attr::MethodParameter { name_index: 15, access_flags: 0x10 },
                        java_asm::jvms::attr::MethodParameter { name_index: 0, access_flags: 0 },
                    ],
                },
            },
            AttributeInfo {
                attribute_name_index: 11,
                attribute_length: 0,
                info: Attribute::RuntimeVisibleAnnotations {
                    num_annotations: 1,
                    annotations: vec![AnnotationInfo { type_index: 13, num_element_value_pairs: 0, element_value_pairs: vec![] }],
                },
            },
        ],
    }];
    cf.methods_count = 1;
    let node = class_node_from_jvms(cf).unwrap().unwrap();
    let m = &node.methods[0];
    assert_eq!(m.name, "run");
    assert_eq!(m.signature.as_deref(), Some("()V"));
    assert_eq!(m.exceptions, vec!["B".to_string()]);
    assert_eq!(
        m.parameters,
        vec![
            java_asm::node::element::ParameterNode { name: Some("v".to_string()), access: 0x10 },
            java_asm::node::element::ParameterNode { name: None, access: 0 },
        ]
    );
    assert_eq!(m.annotations, vec![AnnotationNode { visible: true, desc: "LAnn;".to_string(), values: vec![] }]);
    assert!(m.attrs.is_empty());
}
