use java_asm::err::{AsmErr, ConstKind};
use java_asm::jvms::element::{CPInfo, ClassFile, Const};
use java_asm::node::const_reader::ClassNodeContext;
use java_asm::node::values::ConstValue;

fn utf8_entry(text: &str) -> CPInfo {
    CPInfo { tag: 1, info: Const::Utf8 { length: text.len() as u16, bytes: text.as_bytes().to_vec() } }
}

fn class_file(constant_pool: Vec<CPInfo>, this_class: u16) -> ClassFile {
    ClassFile {
        magic: 0xCAFEBABE,
        minor_version: 0,
        major_version: 52,
        constant_pool_count: constant_pool.len() as u16,
        constant_pool,
        access_flags: 0x21,
        this_class,
        super_class: 0,
        interfaces_count: 0,
        interfaces: vec![],
        fields_count: 0,
        fields: vec![],
        methods_count: 0,
        methods: vec![],
        attributes_count: 0,
        attributes: vec![],
    }
}

fn sample_pool() -> Vec<CPInfo> {
    vec![
        CPInfo { tag: 0, info: Const::Invalid },
        utf8_entry("com/example/Main"),                                            // 1
        CPInfo { tag: 7, info: Const::Class { name_index: 1 } },                  // 2
        utf8_entry("run"),                                                         // 3
        utf8_entry("()V"),                                                         // 4
        CPInfo { tag: 12, info: Const::NameAndType { name_index: 3, descriptor_index: 4 } }, // 5
        CPInfo { tag: 10, info: Const::Method { class_index: 2, name_and_type_index: 5 } }, // 6
        CPInfo { tag: 5, info: Const::Long { high_bytes: 1, low_bytes: 2 } },    // 7
        CPInfo { tag: 4, info: Const::Float { bytes: 0x3F80_0000 } },            // 8
        CPInfo { tag: 8, info: Const::String { string_index: 3 } },              // 9
        CPInfo { tag: 7, info: Const::Class { name_index: 2 } },                  // 10
        CPInfo { tag: 3, info: Const::Integer { bytes: 0xFFFF_FFFF } },          // 11
        CPInfo { tag: 18, info: Const::InvokeDynamic { bootstrap_method_attr_index: 4, name_and_type_index: 5 } }, // 12
        CPInfo { tag: 1, info: Const::Utf8 { length: 2, bytes: vec![0xC0, 0x80] } }, // 13
    ]
}

#[test]
fn resolves_member_references() {
    let mut context = ClassNodeContext::new(class_file(sample_pool(), 2));
    let member = context.read_const(6).unwrap();
    assert_eq!(
        member,
        ConstValue::Member {
            class: "com/example/Main".to_string(),
            name: "run".to_string(),
            desc: "()V".to_string(),
        }
    );
    assert_eq!(context.read_const(6).unwrap(), member);
    assert_eq!(context.name(), Some("com/example/Main".to_string()));
}

#[test]
fn resolves_numbers_as_their_bits() {
    let mut context = ClassNodeContext::new(class_file(sample_pool(), 2));
    assert_eq!(context.read_const(7).unwrap(), ConstValue::Long((1i64 << 32) | 2));
    assert_eq!(context.read_const(8).unwrap(), ConstValue::Float(1.0f32.to_bits()));
    assert_eq!(context.read_const(11).unwrap(), ConstValue::Integer(-1));
    assert_eq!(
        context.read_const(12).unwrap(),
        ConstValue::Dynamic { bootstrap_method_attr_index: 4, name: "run".to_string(), desc: "()V".to_string() }
    );
}

#[test]
fn strings_read_as_utf8_and_modified_utf8_is_decoded() {
    let mut context = ClassNodeContext::new(class_file(sample_pool(), 2));
    assert_eq!(context.read_utf8(9).unwrap(), "run");
    assert_eq!(context.read_utf8(13).unwrap(), "\u{0}");
    assert_eq!(context.read_class_info(2).unwrap(), "com/example/Main");
    assert_eq!(context.read_name_and_type(5).unwrap(), ("run".to_string(), "()V".to_string()));
}

#[test]
fn kind_mismatch_is_an_error() {
    let mut context = ClassNodeContext::new(class_file(sample_pool(), 2));
    assert_eq!(context.read_class_info(1), Err(AsmErr::IllegalConst { index: 1, required: ConstKind::Class }));
    assert_eq!(context.read_const(10), Err(AsmErr::IllegalConst { index: 2, required: ConstKind::Utf8 }));
    assert_eq!(context.read_module(1), Err(AsmErr::IllegalConst { index: 1, required: ConstKind::Module }));
    assert_eq!(context.read_package(1), Err(AsmErr::IllegalConst { index: 1, required: ConstKind::Package }));
    assert_eq!(context.name(), Some("com/example/Main".to_string()));
    let mut other = ClassNodeContext::new(class_file(sample_pool(), 1));
    assert_eq!(other.name(), None);
}
