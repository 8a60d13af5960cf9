use java_asm::class_index::{class_members, member_le, sort_members, str_le, MemberEntry};
use java_asm::err::AsmErr;
use java_asm::jvms::element::{CPInfo, ClassFile, Const, FieldInfo, MethodInfo};
use java_asm::jvms::read::bytes::ReadContext;
use java_asm::jvms::JvmsClassReader;
use java_asm::mutf8::{try_mutf8_to_string, try_mutf8_to_utf8};
use java_asm::node::const_reader::{try_resolve, try_resolve_utf8, ClassNodeContext};
use java_asm::node::values::ConstValue;

fn entry(name: &str, descriptor: &str) -> MemberEntry {
    MemberEntry { name: name.to_string(), descriptor: descriptor.to_string() }
}

fn utf8_entry(text: &str) -> CPInfo {
    CPInfo { tag: 1, info: Const::Utf8 { length: text.len() as u16, bytes: text.as_bytes().to_vec() } }
}

fn member(name_index: u16, descriptor_index: u16) -> (u16, u16) {
    (name_index, descriptor_index)
}

fn class_file(pool: Vec<CPInfo>, fields: Vec<(u16, u16)>, methods: Vec<(u16, u16)>) -> ClassFile {
    ClassFile {
        magic: 0xCAFEBABE,
        minor_version: 0,
        major_version: 52,
        constant_pool_count: pool.len() as u16,
        constant_pool: pool,
        access_flags: 0x21,
        this_class: 2,
        super_class: 0,
        interfaces_count: 0,
        interfaces: vec![],
        fields_count: fields.len() as u16,
        fields: fields
            .into_iter()
            .map(|(n, d)| FieldInfo {
                access_flags: 0,
                name_index: n,
                descriptor_index: d,
                attributes_count: 0,
                attributes: vec![],
            })
            .collect(),
        methods_count: methods.len() as u16,
        methods: methods
            .into_iter()
            .map(|(n, d)| MethodInfo {
                access_flags: 0,
                name_index: n,
                descriptor_index: d,
                attributes_count: 0,
                attributes: vec![],
            })
            .collect(),
        attributes_count: 0,
        attributes: vec![],
    }
}

fn pool() -> Vec<CPInfo> {
    vec![
        CPInfo { tag: 0, info: Const::Invalid },
        utf8_entry("Main"),                                       // 1
        CPInfo { tag: 7, info: Const::Class { name_index: 1 } }, // 2
        utf8_entry("run"),                                        // 3
        utf8_entry("()V"),                                        // 4
        utf8_entry("main"),                                       // 5
        utf8_entry("([Ljava/lang/String;)V"),                     // 6
        utf8_entry("count"),                                      // 7
        utf8_entry("I"),                                          // 8
        utf8_entry("(I)V"),                                       // 9
    ]
}

#[test]
fn strings_are_ordered_by_code_point_with_prefixes_first() {
    assert!(str_le("abc", "abd"));
    assert!(!str_le("abd", "abc"));
    assert!(str_le("ab", "abc"));
    assert!(!str_le("abc", "ab"));
    assert!(str_le("", ""));
    assert!(str_le("Z", "a"));
    assert!(str_le("run", "run"));
}

#[test]
fn members_are_ordered_by_name_then_descriptor() {
    assert!(member_le(&entry("run", "()V"), &entry("run", "(I)V")));
    assert!(!member_le(&entry("run", "(I)V"), &entry("run", "()V")));
    assert!(member_le(&entry("main", "(I)V"), &entry("run", "()V")));
    let sorted = sort_members(vec![
        entry("run", "(I)V"),
        entry("main", "([Ljava/lang/String;)V"),
        entry("run", "()V"),
        entry("<init>", "()V"),
    ]);
    assert_eq!(
        sorted,
        vec![
            entry("<init>", "()V"),
            entry("main", "([Ljava/lang/String;)V"),
            entry("run", "()V"),
            entry("run", "(I)V"),
        ]
    );
    assert_eq!(sort_members(vec![]), vec![]);
}

#[test]
fn class_members_lists_methods_and_fields_in_order() {
    let cf = class_file(pool(), vec![member(7, 8)], vec![member(3, 9), member(5, 6), member(3, 4)]);
    let (methods, fields) = class_members(&cf).unwrap().unwrap();
    assert_eq!(
        methods,
        vec![entry("main", "([Ljava/lang/String;)V"), entry("run", "()V"), entry("run", "(I)V")]
    );
    assert_eq!(fields, vec![entry("count", "I")]);
}

#[test]
fn class_members_reports_a_name_that_is_not_a_string() {
    let cf = class_file(pool(), vec![member(2, 8)], vec![]);
    assert_eq!(
        class_members(&cf),
        Some(Err(AsmErr::IllegalConst { index: 2, required: java_asm::err::ConstKind::Utf8 }))
    );
}

#[test]
fn class_members_stops_where_a_name_is_past_the_pool() {
    let cf = class_file(pool(), vec![], vec![member(40, 4)]);
    assert_eq!(class_members(&cf), None);
}

#[test]
fn total_resolution_gives_none_for_a_cycle_and_an_index_past_the_pool() {
    let mut p = pool();
    p.push(CPInfo { tag: 8, info: Const::String { string_index: 10 } }); // 10: points at itself
    assert_eq!(try_resolve(&p, 10, p.len()), None);
    assert_eq!(try_resolve(&p, 11, p.len()), None);
    assert_eq!(try_resolve_utf8(&p, 3, p.len()), Some(Ok("run".to_string())));
    assert_eq!(try_resolve(&p, 2, p.len()), Some(Ok(ConstValue::Class("Main".to_string()))));
}

#[test]
fn try_name_and_try_read_utf8_agree_with_the_cached_reads() {
    let cf = class_file(pool(), vec![], vec![]);
    let mut context = ClassNodeContext::new(cf);
    assert_eq!(context.try_name(), Some(Some("Main".to_string())));
    assert_eq!(context.try_read_utf8(5), Some(Ok("main".to_string())));
    assert_eq!(context.try_read_utf8(30), None);
    assert_eq!(context.name(), Some("Main".to_string()));
    assert_eq!(context.read_utf8(5), Ok("main".to_string()));
}

#[test]
fn total_mutf8_conversion_gives_none_for_a_cut_form() {
    assert_eq!(try_mutf8_to_utf8(&[0x41, 0xC3]), None);
    assert_eq!(try_mutf8_to_utf8(&[0xE2, 0x82]), None);
    assert_eq!(try_mutf8_to_utf8(&[0x41, 0xC0, 0x80]), Some(Ok(vec![0x41, 0x00])));
    assert_eq!(try_mutf8_to_utf8(&[0xF8, 0x80, 0x80]), Some(Err(AsmErr::ReadMUTF8(0xF8))));
    assert_eq!(try_mutf8_to_string(&[0x68, 0x69]), Some(Ok("hi".to_string())));
}

#[test]
fn total_class_reading_gives_none_where_reading_panics() {
    // constant_pool_count 0
    let bytes = vec![0xCA, 0xFE, 0xBA, 0xBE, 0, 0, 0, 52, 0, 0];
    assert_eq!(JvmsClassReader::try_read_class_bytes(&bytes), None);
    // a Long in the last slot of a pool of two slots
    let mut bytes = vec![0xCA, 0xFE, 0xBA, 0xBE, 0, 0, 0, 52, 0, 2];
    bytes.extend([5, 0, 0, 0, 0, 0, 0, 0, 1]);
    assert_eq!(JvmsClassReader::try_read_class_bytes(&bytes), None);
    // too short
    assert_eq!(JvmsClassReader::try_read_class_bytes(&[0xCA, 0xFE]), Some(Err(AsmErr::OutOfRange)));
    // an attribute whose name index is past the pool
    let mut bytes = vec![0xCA, 0xFE, 0xBA, 0xBE, 0, 0, 0, 52, 0, 1];
    bytes.extend([0, 0x21, 0, 0, 0, 0]); // access, this, super
    bytes.extend([0, 0, 0, 0, 0, 0]); // interfaces, fields, methods
    bytes.extend([0, 1, 0, 7, 0, 0, 0, 0]); // one attribute named by entry 7, empty body
    assert_eq!(JvmsClassReader::try_read_class_bytes(&bytes), None);
}

#[test]
fn sorting_any_arrangement_of_the_same_members_gives_one_result() {
    let a = vec![entry("b", "()V"), entry("a", "(I)V"), entry("a", "()V")];
    let b = vec![entry("a", "()V"), entry("b", "()V"), entry("a", "(I)V")];
    assert_eq!(sort_members(a), sort_members(b));
}

#[test]
fn reading_through_a_copy_moves_the_cursor() {
    let bytes = [0u8, 7, 0, 9];
    let mut context = ReadContext::big_endian(&bytes);
    let first: u16 = context.copy().read().unwrap();
    assert_eq!(first, 7);
    assert_eq!(context.index, 2);
    let (slice, index) = context.paired();
    assert_eq!(slice.len(), 4);
    *index = 4;
    assert_eq!(context.index, 4);
}

#[test]
fn an_unknown_constant_tag_consumes_nothing() {
    let bytes = [0u8, 1, 2, 3];
    let mut context = ReadContext::big_endian(&bytes);
    assert_eq!(Const::from_context(&mut context, 13), Err(AsmErr::UnknownConstTag(13)));
    assert_eq!(context.index, 0);
}
