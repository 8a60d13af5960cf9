use java_asm::err::AsmErr;
use java_asm::jvms::attr::annotation::{
    AnnotationElement, AnnotationElementValue, AnnotationElementValueInfo, AnnotationInfo, ParameterAnnotationInfo,
    TypeAnnotation, TypeAnnotationTargetInfo, TypeAnnotationTargetInfoLocalVarTable, TypeAnnotationTargetPath,
    TypeAnnotationTargetPathInfo,
};
use java_asm::jvms::attr::Attribute;
use java_asm::jvms::element::{AttributeInfo, CPInfo, ClassFile, Const};
use java_asm::jvms::write::bytes::WriteContext;
use java_asm::jvms::write::jvms_writer::write_attribute;
use java_asm::jvms::{JvmsClassReader, JvmsClassWriter};

fn utf8_entry(text: &str) -> CPInfo {
    CPInfo { tag: 1, info: Const::Utf8 { length: text.len() as u16, bytes: text.as_bytes().to_vec() } }
}

fn body_len(info: &Attribute) -> u32 {
    let mut context = WriteContext { bytes: vec![] };
    write_attribute(&mut context, info);
    context.bytes.len() as u32
}

fn class_with(name: &str, info: Attribute) -> ClassFile {
    let attribute_length = body_len(&info);
    ClassFile {
        magic: 0xCAFEBABE,
        minor_version: 0,
        major_version: 61,
        constant_pool_count: 3,
        constant_pool: vec![CPInfo { tag: 0, info: Const::Invalid }, utf8_entry(name), utf8_entry("LA;")],
        access_flags: 0x21,
        this_class: 0,
        super_class: 0,
        interfaces_count: 0,
        interfaces: vec![],
        fields_count: 0,
        fields: vec![],
        methods_count: 0,
        methods: vec![],
        attributes_count: 1,
        attributes: vec![AttributeInfo { attribute_name_index: 1, attribute_length, info }],
    }
}

fn nested_annotation() -> AnnotationInfo {
    AnnotationInfo {
        type_index: 2,
        num_element_value_pairs: 2,
        element_value_pairs: vec![
            AnnotationElement {
                element_name_index: 1,
                value: AnnotationElementValueInfo {
                    tag: b'[',
                    value: AnnotationElementValue::Array {
                        num_values: 2,
                        values: vec![
                            AnnotationElementValueInfo {
                                tag: b'I',
                                value: AnnotationElementValue::Const { const_value_index: 7 },
                            },
                            AnnotationElementValueInfo {
                                tag: b'e',
                                value: AnnotationElementValue::EnumConst { type_name_index: 2, const_name_index: 1 },
                            },
                        ],
                    },
                },
            },
            AnnotationElement {
                element_name_index: 1,
                value: AnnotationElementValueInfo {
                    tag: b'@',
                    value: AnnotationElementValue::Annotation {
                        annotation_value: AnnotationInfo {
                            type_index: 2,
                            num_element_value_pairs: 1,
                            element_value_pairs: vec![AnnotationElement {
                                element_name_index: 1,
                                value: AnnotationElementValueInfo {
                                    tag: b'c',
                                    value: AnnotationElementValue::Class { class_info_index: 2 },
                                },
                            }],
                        },
                    },
                },
            },
        ],
    }
}

fn roundtrip(class_file: ClassFile) -> ClassFile {
    let expected = format!("{:?}", class_file);
    let bytes = JvmsClassWriter::write_class_bytes(vec![], class_file).unwrap();
    let read = JvmsClassReader::read_class_bytes(&bytes).unwrap();
    assert_eq!(format!("{:?}", read), expected);
    read
}

#[test]
fn annotations_read_back_as_written() {
    let read = roundtrip(class_with(
        "RuntimeVisibleAnnotations",
        Attribute::RuntimeVisibleAnnotations { num_annotations: 1, annotations: vec![nested_annotation()] },
    ));
    match &read.attributes[0].info {
        Attribute::RuntimeVisibleAnnotations { annotations, .. } => {
            assert_eq!(annotations[0].element_value_pairs.len(), 2)
        }
        other => panic!("expected annotations, got {:?}", other),
    }
}

#[test]
fn invisible_parameter_annotations_read_back_as_written() {
    roundtrip(class_with(
        "RuntimeInvisibleParameterAnnotations",
        Attribute::RuntimeInvisibleParameterAnnotations {
            num_parameters: 2,
            parameter_annotations: vec![
                ParameterAnnotationInfo { num_annotations: 0, annotations: vec![] },
                ParameterAnnotationInfo { num_annotations: 1, annotations: vec![nested_annotation()] },
            ],
        },
    ));
}

#[test]
fn type_annotations_read_back_as_written() {
    roundtrip(class_with(
        "RuntimeVisibleTypeAnnotations",
        Attribute::RuntimeVisibleTypeAnnotations {
            num_parameters: 2,
            annotations: vec![
                TypeAnnotation {
                    target_type: 0x40,
                    target_info: TypeAnnotationTargetInfo::LocalVar {
                        table_length: 1,
                        table: vec![TypeAnnotationTargetInfoLocalVarTable { start_pc: 1, length: 2, index: 3 }],
                    },
                    target_path: TypeAnnotationTargetPath {
                        path_length: 1,
                        path: vec![TypeAnnotationTargetPathInfo { type_path_kind: 3, type_argument_index: 0 }],
                    },
                    type_index: 2,
                    num_element_value_pairs: 0,
                    element_value_pairs: vec![],
                },
                TypeAnnotation {
                    target_type: 0x47,
                    target_info: TypeAnnotationTargetInfo::TypeArgument { offset: 9, type_argument_index: 1 },
                    target_path: TypeAnnotationTargetPath { path_length: 0, path: vec![] },
                    type_index: 2,
                    num_element_value_pairs: 0,
                    element_value_pairs: vec![],
                },
            ],
        },
    ));
}

#[test]
fn annotation_default_reads_back_as_written() {
    roundtrip(class_with(
        "AnnotationDefault",
        Attribute::AnnotationDefault {
            default_value: AnnotationElementValueInfo {
                tag: b's',
                value: AnnotationElementValue::Const { const_value_index: 1 },
            },
        },
    ));
}

#[test]
fn unknown_element_value_tag_is_reported() {
    let mut class_file = class_with(
        "AnnotationDefault",
        Attribute::AnnotationDefault {
            default_value: AnnotationElementValueInfo {
                tag: b'I',
                value: AnnotationElementValue::Const { const_value_index: 1 },
            },
        },
    );
    class_file.attributes[0].info = Attribute::Custom(vec![b'x', 0, 1]);
    let bytes = JvmsClassWriter::write_class_bytes(vec![], class_file).unwrap();
    assert_eq!(JvmsClassReader::read_class_bytes(&bytes), Err(AsmErr::UnknownElementValueTag(b'x')));
}

#[test]
fn unknown_target_type_is_reported() {
    let mut class_file = class_with(
        "RuntimeVisibleTypeAnnotations",
        Attribute::RuntimeVisibleTypeAnnotations { num_parameters: 0, annotations: vec![] },
    );
    class_file.attributes[0].info = Attribute::Custom(vec![0, 1, 0x99]);
    class_file.attributes[0].attribute_length = 3;
    let bytes = JvmsClassWriter::write_class_bytes(vec![], class_file).unwrap();
    assert_eq!(JvmsClassReader::read_class_bytes(&bytes), Err(AsmErr::UnknownTargetType(0x99)));
}
