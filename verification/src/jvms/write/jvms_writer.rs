//! Writing the structures of a class file as bytes (JVMS 4).

use crate::jvms::attr::module::{
    ModuleExports, ModuleOpens, ModuleProvides, ModuleRequires, SpecModuleExports, SpecModuleOpens,
    SpecModuleProvides,
};
use crate::jvms::attr::{
    attribute_info_view, attribute_infos_view, attribute_view, record_component_view, record_components_view, Attribute, BootstrapMethod,
    ExceptionTable, InnerClassInfo, LineNumberTableInfo, LocalVariableTableInfo, LocalVariableTypeTableInfo,
    MethodParameter, RecordComponentInfo, SpecAttribute, SpecBootstrapMethod, SpecRecordComponentInfo,
    SpecStackMapFrame, StackMapFrame, VerificationTypeInfo,
};
use crate::jvms::element::{
    AttributeInfo, CPInfo, ClassFile, Const, FieldInfo, MethodInfo, SpecAttributeInfo, SpecCPInfo,
    SpecClassFile, SpecConst, SpecMemberInfo,
};
use crate::jvms::attr::annotation::{
    annotations_view, parameter_annotations_view, type_annotations_view, AnnotationInfo, ParameterAnnotationInfo,
    TypeAnnotation,
};
use crate::jvms::write::annotation_writer::{element_value_bytes, write_element_value};
use crate::jvms::write::bytes::{spec_write_vec, u16_bytes, u32_bytes, FromWriteContext, WriteContext};
use vstd::prelude::*;

verus! {

/// The bytes of the body of a constant-pool entry.
pub open spec fn const_body_bytes(c: SpecConst) -> Seq<u8> {
    match c {
        SpecConst::Invalid => Seq::empty(),
        SpecConst::Class { name_index } => u16_bytes(name_index),
        SpecConst::Field { class_index, name_and_type_index } => u16_bytes(class_index) + u16_bytes(
            name_and_type_index,
        ),
        SpecConst::Method { class_index, name_and_type_index } => u16_bytes(class_index) + u16_bytes(
            name_and_type_index,
        ),
        SpecConst::InterfaceMethod { class_index, name_and_type_index } => u16_bytes(class_index)
            + u16_bytes(name_and_type_index),
        SpecConst::String { string_index } => u16_bytes(string_index),
        SpecConst::Integer { bytes } => u32_bytes(bytes),
        SpecConst::Float { bytes } => u32_bytes(bytes),
        SpecConst::Long { high_bytes, low_bytes } => u32_bytes(high_bytes) + u32_bytes(low_bytes),
        SpecConst::Double { high_bytes, low_bytes } => u32_bytes(high_bytes) + u32_bytes(low_bytes),
        SpecConst::NameAndType { name_index, descriptor_index } => u16_bytes(name_index) + u16_bytes(
            descriptor_index,
        ),
        SpecConst::Utf8 { length, bytes } => u16_bytes(length) + bytes,
        SpecConst::MethodHandle { reference_kind, reference_index } => seq![reference_kind] + u16_bytes(
            reference_index,
        ),
        SpecConst::MethodType { descriptor_index } => u16_bytes(descriptor_index),
        SpecConst::Dynamic { bootstrap_method_attr_index, name_and_type_index } => u16_bytes(
            bootstrap_method_attr_index,
        ) + u16_bytes(name_and_type_index),
        SpecConst::InvokeDynamic { bootstrap_method_attr_index, name_and_type_index } => u16_bytes(
            bootstrap_method_attr_index,
        ) + u16_bytes(name_and_type_index),
        SpecConst::Module { name_index } => u16_bytes(name_index),
        SpecConst::Package { name_index } => u16_bytes(name_index),
    }
}

impl FromWriteContext for Const {
    open spec fn spec_write(v: SpecConst) -> Seq<u8> {
        const_body_bytes(v)
    }

    fn into_context(context: &mut WriteContext, from: &Const) {
        match from {
            Const::Invalid => {},
            Const::Class { name_index } => context.push(name_index),
            Const::Field { class_index, name_and_type_index }
            | Const::Method { class_index, name_and_type_index }
            | Const::InterfaceMethod { class_index, name_and_type_index } => {
                context.push(class_index);
                context.push(name_and_type_index);
            },
            Const::String { string_index } => context.push(string_index),
            Const::Integer { bytes } | Const::Float { bytes } => context.push(bytes),
            Const::Long { high_bytes, low_bytes } | Const::Double { high_bytes, low_bytes } => {
                context.push(high_bytes);
                context.push(low_bytes);
            },
            Const::NameAndType { name_index, descriptor_index } => {
                context.push(name_index);
                context.push(descriptor_index);
            },
            Const::Utf8 { length, bytes } => {
                context.push(length);
                write_bytes(context, bytes);
            },
            Const::MethodHandle { reference_kind, reference_index } => {
                context.push(reference_kind);
                context.push(reference_index);
            },
            Const::MethodType { descriptor_index } => context.push(descriptor_index),
            Const::Dynamic { bootstrap_method_attr_index, name_and_type_index }
            | Const::InvokeDynamic { bootstrap_method_attr_index, name_and_type_index } => {
                context.push(bootstrap_method_attr_index);
                context.push(name_and_type_index);
            },
            Const::Module { name_index } | Const::Package { name_index } => context.push(name_index),
        }
    }
}

/// Appends `bytes` as they are.
pub fn write_bytes(context: &mut WriteContext, bytes: &Vec<u8>)
    ensures
        final(context).bytes@ == old(context).bytes@ + bytes@,
{
    let mut i: usize = 0;
    while i < bytes.len()
        invariant
            i <= bytes.len(),
            context.bytes@ == old(context).bytes@ + bytes@.take(i as int),
        decreases bytes.len() - i,
    {
        context.bytes.push(bytes[i]);
        proof {
            assert(bytes@.take(i + 1) =~= bytes@.take(i as int).push(bytes@[i as int]));
        }
        i = i + 1;
    }
    proof {
        assert(bytes@.take(bytes.len() as int) =~= bytes@);
    }
}

impl FromWriteContext for CPInfo {
    open spec fn spec_write(v: SpecCPInfo) -> Seq<u8> {
        seq![v.tag] + const_body_bytes(v.info)
    }

    fn into_context(context: &mut WriteContext, from: &CPInfo) {
        context.push(&from.tag);
        context.push(&from.info);
    }
}

/// How many pool slots the entry `e` fills: two for a `Long` or `Double`, else one.
pub open spec fn entry_slots(e: SpecCPInfo, left: nat) -> nat {
    if (e.tag == 5 || e.tag == 6) && left >= 2 {
        2
    } else {
        1
    }
}

/// The bytes of the constant-pool entries `es`, first to last: each entry's tag and body;
/// the unusable slot after a `Long` or `Double` is not written.
pub open spec fn cp_entries_bytes(es: Seq<SpecCPInfo>) -> Seq<u8>
    decreases es.len(),
{
    if es.len() == 0 {
        Seq::empty()
    } else {
        CPInfo::spec_write(es[0]) + cp_entries_bytes(es.skip(entry_slots(es[0], es.len()) as int))
    }
}

/// The bytes of a constant pool: its entries after the placeholder at index 0.
pub open spec fn cp_bytes(cp: Seq<SpecCPInfo>) -> Seq<u8> {
    if cp.len() == 0 {
        Seq::empty()
    } else {
        cp_entries_bytes(cp.skip(1))
    }
}

/// Writes the entries of a constant pool after the placeholder at index 0, leaving out
/// the unusable slot after each `Long` and `Double`.
pub fn write_constant_pool(context: &mut WriteContext, cp: &Vec<CPInfo>)
    ensures
        final(context).bytes@ == old(context).bytes@ + cp_bytes(cp.deep_view()),
{
    if cp.len() == 0 {
        return ;
    }
    let ghost all = cp_entries_bytes(cp.deep_view().skip(1));
    let mut i: usize = 1;
    proof {
        assert(old(context).bytes@ + all =~= context.bytes@ + cp_entries_bytes(cp.deep_view().skip(1)));
    }
    while i < cp.len()
        invariant
            1 <= i <= cp.len(),
            all == cp_entries_bytes(cp.deep_view().skip(1)),
            old(context).bytes@ + all == context.bytes@ + cp_entries_bytes(cp.deep_view().skip(i as int)),
        decreases cp.len() - i,
    {
        let ghost es = cp.deep_view().skip(i as int);
        let ghost before = context.bytes@;
        context.push(&cp[i]);
        let tag = cp[i].tag;
        let step: usize = if (tag == 5 || tag == 6) && cp.len() - i >= 2 {
            2
        } else {
            1
        };
        proof {
            assert(es[0] == cp[i as int].deep_view());
            assert(step == entry_slots(es[0], es.len()));
            assert(es.skip(step as int) =~= cp.deep_view().skip(i + step));
            assert(before + cp_entries_bytes(es) =~= context.bytes@ + cp_entries_bytes(es.skip(step as int)));
        }
        i = i + step;
    }
    proof {
        assert(cp.deep_view().skip(i as int) =~= Seq::<SpecCPInfo>::empty());
        assert(context.bytes@ + Seq::<u8>::empty() =~= context.bytes@);
    }
}

} // verus!

verus! {

/// The bytes of an attribute: its name index, its stored length, then its body.
pub open spec fn attribute_info_bytes(a: SpecAttributeInfo) -> Seq<u8>
    decreases a,
{
    u16_bytes(a.attribute_name_index) + u32_bytes(a.attribute_length) + attribute_body_bytes(a.info)
}

/// The bytes of the attributes of `s`, one after another.
pub open spec fn attribute_infos_bytes(s: Seq<SpecAttributeInfo>) -> Seq<u8>
    decreases s,
{
    if s.len() == 0 {
        Seq::empty()
    } else {
        attribute_infos_bytes(s.subrange(0, s.len() - 1)) + attribute_info_bytes(s[s.len() - 1])
    }
}

/// The bytes of a record component.
pub open spec fn record_component_bytes(r: SpecRecordComponentInfo) -> Seq<u8>
    decreases r,
{
    u16_bytes(r.name_index) + u16_bytes(r.descriptor_index) + u16_bytes(r.attributes_count)
        + attribute_infos_bytes(r.attributes)
}

/// The bytes of the record components of `s`, one after another.
pub open spec fn record_components_bytes(s: Seq<SpecRecordComponentInfo>) -> Seq<u8>
    decreases s,
{
    if s.len() == 0 {
        Seq::empty()
    } else {
        record_components_bytes(s.subrange(0, s.len() - 1)) + record_component_bytes(s[s.len() - 1])
    }
}

/// The bytes of the body of an attribute.
pub open spec fn attribute_body_bytes(info: SpecAttribute) -> Seq<u8>
    decreases info,
{
    match info {
        SpecAttribute::Custom(bytes) => bytes,
        SpecAttribute::ConstantValue { constantvalue_index } => u16_bytes(constantvalue_index),
        SpecAttribute::Code {
            max_stack,
            max_locals,
            code_length,
            code,
            exception_table_length,
            exception_table,
            attributes_count,
            attributes,
        } => u16_bytes(max_stack) + u16_bytes(max_locals) + u32_bytes(code_length) + code + u16_bytes(
            exception_table_length,
        ) + spec_write_vec::<ExceptionTable>(exception_table) + u16_bytes(attributes_count)
            + attribute_infos_bytes(attributes),
        SpecAttribute::StackMapTable { number_of_entries, entries } => u16_bytes(number_of_entries)
            + spec_write_vec::<StackMapFrame>(entries),
        SpecAttribute::Exceptions { number_of_exceptions, exception_index_table } => u16_bytes(
            number_of_exceptions,
        ) + spec_write_vec::<u16>(exception_index_table),
        SpecAttribute::InnerClasses { number_of_classes, classes } => u16_bytes(number_of_classes)
            + spec_write_vec::<InnerClassInfo>(classes),
        SpecAttribute::EnclosingMethod { class_index, method_index } => u16_bytes(class_index) + u16_bytes(
            method_index,
        ),
        SpecAttribute::Synthetic => Seq::empty(),
        SpecAttribute::Signature { signature_index } => u16_bytes(signature_index),
        SpecAttribute::SourceFile { sourcefile_index } => u16_bytes(sourcefile_index),
        SpecAttribute::SourceDebugExtension { debug_extension } => debug_extension,
        SpecAttribute::LineNumberTable { line_number_table_length, line_number_table } => u16_bytes(
            line_number_table_length,
        ) + spec_write_vec::<LineNumberTableInfo>(line_number_table),
        SpecAttribute::LocalVariableTable { local_variable_table_length, local_variable_table } => u16_bytes(
            local_variable_table_length,
        ) + spec_write_vec::<LocalVariableTableInfo>(local_variable_table),
        SpecAttribute::LocalVariableTypeTable { local_variable_type_table_length, local_variable_table } =>
            u16_bytes(local_variable_type_table_length) + spec_write_vec::<LocalVariableTypeTableInfo>(
            local_variable_table,
        ),
        SpecAttribute::Deprecated => Seq::empty(),
        SpecAttribute::RuntimeVisibleAnnotations { num_annotations, annotations } => u16_bytes(num_annotations)
            + spec_write_vec::<AnnotationInfo>(annotations),
        SpecAttribute::RuntimeInvisibleAnnotations { num_annotations, annotations } => u16_bytes(num_annotations)
            + spec_write_vec::<AnnotationInfo>(annotations),
        SpecAttribute::RuntimeVisibleParameterAnnotations { num_parameters, parameter_annotations } => seq![
            num_parameters,
        ] + spec_write_vec::<ParameterAnnotationInfo>(parameter_annotations),
        SpecAttribute::RuntimeInvisibleParameterAnnotations { num_parameters, parameter_annotations } => seq![
            num_parameters,
        ] + spec_write_vec::<ParameterAnnotationInfo>(parameter_annotations),
        SpecAttribute::RuntimeVisibleTypeAnnotations { num_parameters, annotations } => u16_bytes(num_parameters)
            + spec_write_vec::<TypeAnnotation>(annotations),
        SpecAttribute::RuntimeInvisibleTypeAnnotations { num_parameters, annotations } => u16_bytes(num_parameters)
            + spec_write_vec::<TypeAnnotation>(annotations),
        SpecAttribute::AnnotationDefault { default_value } => element_value_bytes(default_value),
        SpecAttribute::BootstrapMethods { num_bootstrap_methods, bootstrap_methods } => u16_bytes(
            num_bootstrap_methods,
        ) + spec_write_vec::<BootstrapMethod>(bootstrap_methods),
        SpecAttribute::MethodParameters { parameters_count, parameters } => seq![parameters_count]
            + spec_write_vec::<MethodParameter>(parameters),
        SpecAttribute::Module {
            module_name_index,
            module_flags,
            module_version_index,
            requires_count,
            module_requires,
            exports_count,
            exports,
            opens_count,
            opens,
            uses_count,
            uses_index,
            provides_count,
            provides,
        } => u16_bytes(module_name_index) + u16_bytes(module_flags) + u16_bytes(module_version_index)
            + u16_bytes(requires_count) + spec_write_vec::<ModuleRequires>(module_requires) + u16_bytes(
            exports_count,
        ) + spec_write_vec::<ModuleExports>(exports) + u16_bytes(opens_count) + spec_write_vec::<ModuleOpens>(
            opens,
        ) + u16_bytes(uses_count) + spec_write_vec::<u16>(uses_index) + u16_bytes(provides_count)
            + spec_write_vec::<ModuleProvides>(provides),
        SpecAttribute::ModulePackages { package_count, package_index } => u16_bytes(package_count)
            + spec_write_vec::<u16>(package_index),
        SpecAttribute::ModuleMainClass { main_class_index } => u16_bytes(main_class_index),
        SpecAttribute::NestHost { host_class_index } => u16_bytes(host_class_index),
        SpecAttribute::NestMembers { number_of_classes, classes } => u16_bytes(number_of_classes)
            + spec_write_vec::<u16>(classes),
        SpecAttribute::Record { components_count, components } => u16_bytes(components_count)
            + record_components_bytes(components),
        SpecAttribute::PermittedSubclasses { number_of_classes, classes } => u16_bytes(number_of_classes)
            + spec_write_vec::<u16>(classes),
    }
}

/// Writing attributes one after another is writing each of them in turn.
pub proof fn lemma_attribute_infos_bytes(s: Seq<SpecAttributeInfo>)
    ensures
        spec_write_vec::<AttributeInfo>(s) == attribute_infos_bytes(s),
    decreases s.len(),
{
    if s.len() > 0 {
        lemma_attribute_infos_bytes(s.drop_last());
        assert(s.drop_last() =~= s.subrange(0, s.len() - 1));
    }
}

/// Writing record components one after another is writing each of them in turn.
pub proof fn lemma_record_components_bytes(s: Seq<SpecRecordComponentInfo>)
    ensures
        spec_write_vec::<RecordComponentInfo>(s) == record_components_bytes(s),
    decreases s.len(),
{
    if s.len() > 0 {
        lemma_record_components_bytes(s.drop_last());
        assert(s.drop_last() =~= s.subrange(0, s.len() - 1));
    }
}

impl FromWriteContext for AttributeInfo {
    open spec fn spec_write(v: SpecAttributeInfo) -> Seq<u8> {
        attribute_info_bytes(v)
    }

    fn into_context(context: &mut WriteContext, from: &AttributeInfo) {
        write_attribute_info(context, from)
    }
}

impl FromWriteContext for RecordComponentInfo {
    open spec fn spec_write(v: SpecRecordComponentInfo) -> Seq<u8> {
        record_component_bytes(v)
    }

    fn into_context(context: &mut WriteContext, from: &RecordComponentInfo) {
        write_record_component(context, from)
    }
}

/// Writes an attribute: its name index, its stored length, then its body.
pub fn write_attribute_info(context: &mut WriteContext, a: &AttributeInfo)
    ensures
        final(context).bytes@ == old(context).bytes@ + attribute_info_bytes(attribute_info_view(*a)),
    decreases a,
{
    let ghost start = context.bytes@;
    context.push(&a.attribute_name_index);
    context.push(&a.attribute_length);
    write_attribute(context, &a.info);
    proof {
        assert(context.bytes@ =~= start + attribute_info_bytes(attribute_info_view(*a)));
    }
}

/// Writes attributes one after another.
pub fn write_attribute_infos(context: &mut WriteContext, v: &Vec<AttributeInfo>)
    ensures
        final(context).bytes@ == old(context).bytes@ + attribute_infos_bytes(attribute_infos_view(v@)),
    decreases v,
{
    let ghost start = context.bytes@;
    let ghost sv = attribute_infos_view(v@);
    let mut i: usize = 0;
    while i < v.len()
        invariant
            i <= v.len(),
            sv == attribute_infos_view(v@),
            context.bytes@ == start + attribute_infos_bytes(sv.subrange(0, i as int)),
        decreases v.len() - i,
    {
        proof {
            assert(decreases_to!(v => v[i as int]));
        }
        write_attribute_info(context, &v[i]);
        proof {
            let t = sv.subrange(0, i + 1);
            assert(t.subrange(0, t.len() - 1) =~= sv.subrange(0, i as int));
            assert(t[t.len() - 1] == attribute_info_view(v@[i as int]));
        }
        i = i + 1;
    }
    proof {
        assert(sv.subrange(0, v.len() as int) =~= sv);
    }
}

/// Writes a record component.
pub fn write_record_component(context: &mut WriteContext, r: &RecordComponentInfo)
    ensures
        final(context).bytes@ == old(context).bytes@ + record_component_bytes(record_component_view(*r)),
    decreases r,
{
    let ghost start = context.bytes@;
    context.push(&r.name_index);
    context.push(&r.descriptor_index);
    context.push(&r.attributes_count);
    write_attribute_infos(context, &r.attributes);
    proof {
        assert(context.bytes@ =~= start + record_component_bytes(record_component_view(*r)));
    }
}

/// Writes record components one after another.
pub fn write_record_components(context: &mut WriteContext, v: &Vec<RecordComponentInfo>)
    ensures
        final(context).bytes@ == old(context).bytes@ + record_components_bytes(record_components_view(v@)),
    decreases v,
{
    let ghost start = context.bytes@;
    let ghost sv = record_components_view(v@);
    let mut i: usize = 0;
    while i < v.len()
        invariant
            i <= v.len(),
            sv == record_components_view(v@),
            context.bytes@ == start + record_components_bytes(sv.subrange(0, i as int)),
        decreases v.len() - i,
    {
        proof {
            assert(decreases_to!(v => v[i as int]));
        }
        write_record_component(context, &v[i]);
        proof {
            let t = sv.subrange(0, i + 1);
            assert(t.subrange(0, t.len() - 1) =~= sv.subrange(0, i as int));
        }
        i = i + 1;
    }
    proof {
        assert(sv.subrange(0, v.len() as int) =~= sv);
    }
}

/// Writes the body of an attribute that holds annotations.
pub fn write_annotation_attribute(context: &mut WriteContext, info: &Attribute)
    requires
        info is RuntimeVisibleAnnotations || info is RuntimeInvisibleAnnotations
            || info is RuntimeVisibleParameterAnnotations || info is RuntimeInvisibleParameterAnnotations
            || info is RuntimeVisibleTypeAnnotations || info is RuntimeInvisibleTypeAnnotations
            || info is AnnotationDefault,
    ensures
        final(context).bytes@ == old(context).bytes@ + attribute_body_bytes(attribute_view(*info)),
{
    let ghost start = context.bytes@;
    match info {
        Attribute::RuntimeVisibleAnnotations { num_annotations, annotations }
        | Attribute::RuntimeInvisibleAnnotations { num_annotations, annotations } => {
            context.push(num_annotations);
            context.push(annotations);
            proof {
                assert(annotations.deep_view() =~= annotations_view(annotations@));
            }
        },
        Attribute::RuntimeVisibleParameterAnnotations { num_parameters, parameter_annotations }
        | Attribute::RuntimeInvisibleParameterAnnotations { num_parameters, parameter_annotations } => {
            context.push(num_parameters);
            context.push(parameter_annotations);
            proof {
                assert(parameter_annotations.deep_view() =~= parameter_annotations_view(parameter_annotations@));
            }
        },
        Attribute::RuntimeVisibleTypeAnnotations { num_parameters, annotations }
        | Attribute::RuntimeInvisibleTypeAnnotations { num_parameters, annotations } => {
            context.push(num_parameters);
            context.push(annotations);
            proof {
                assert(annotations.deep_view() =~= type_annotations_view(annotations@));
            }
        },
        Attribute::AnnotationDefault { default_value } => {
            write_element_value(context, default_value);
        },
        _ => {},
    }
    proof {
        assert(context.bytes@ =~= start + attribute_body_bytes(attribute_view(*info)));
    }
}

/// Writes the body of an attribute.
#[verifier::spinoff_prover]
#[verifier::rlimit(100)]
pub fn write_attribute(context: &mut WriteContext, info: &Attribute)
    ensures
        final(context).bytes@ == old(context).bytes@ + attribute_body_bytes(attribute_view(*info)),
    decreases info,
{
    let ghost start = context.bytes@;
    match info {
        Attribute::Custom(bytes) => { write_bytes(context, bytes); proof { assert(context.bytes@ =~= start + attribute_body_bytes(attribute_view(*info))); } },
        Attribute::ConstantValue { constantvalue_index } => { context.push(constantvalue_index); proof { assert(context.bytes@ =~= start + attribute_body_bytes(attribute_view(*info))); } },
        Attribute::Code {
            max_stack,
            max_locals,
            code_length,
            code,
            exception_table_length,
            exception_table,
            attributes_count,
            attributes,
        } => {
            context.push(max_stack);
            context.push(max_locals);
            context.push(code_length);
            write_bytes(context, code);
            context.push(exception_table_length);
            context.push(exception_table);
            context.push(attributes_count);
            write_attribute_infos(context, attributes);
            proof { assert(context.bytes@ =~= start + attribute_body_bytes(attribute_view(*info))); }
        },
        Attribute::StackMapTable { number_of_entries, entries } => {
            context.push(number_of_entries);
            context.push(entries);
            proof { assert(context.bytes@ =~= start + attribute_body_bytes(attribute_view(*info))); }
        },
        Attribute::Exceptions { number_of_exceptions, exception_index_table } => {
            context.push(number_of_exceptions);
            context.push(exception_index_table);
            proof { assert(context.bytes@ =~= start + attribute_body_bytes(attribute_view(*info))); }
        },
        Attribute::InnerClasses { number_of_classes, classes } => {
            context.push(number_of_classes);
            context.push(classes);
            proof { assert(context.bytes@ =~= start + attribute_body_bytes(attribute_view(*info))); }
        },
        Attribute::EnclosingMethod { class_index, method_index } => {
            context.push(class_index);
            context.push(method_index);
            proof { assert(context.bytes@ =~= start + attribute_body_bytes(attribute_view(*info))); }
        },
        Attribute::Synthetic => {},
        Attribute::Signature { signature_index } => { context.push(signature_index); proof { assert(context.bytes@ =~= start + attribute_body_bytes(attribute_view(*info))); } },
        Attribute::SourceFile { sourcefile_index } => { context.push(sourcefile_index); proof { assert(context.bytes@ =~= start + attribute_body_bytes(attribute_view(*info))); } },
        Attribute::SourceDebugExtension { debug_extension } => { write_bytes(context, debug_extension); proof { assert(context.bytes@ =~= start + attribute_body_bytes(attribute_view(*info))); } },
        Attribute::LineNumberTable { line_number_table_length, line_number_table } => {
            context.push(line_number_table_length);
            context.push(line_number_table);
            proof { assert(context.bytes@ =~= start + attribute_body_bytes(attribute_view(*info))); }
        },
        Attribute::LocalVariableTable { local_variable_table_length, local_variable_table } => {
            context.push(local_variable_table_length);
            context.push(local_variable_table);
            proof { assert(context.bytes@ =~= start + attribute_body_bytes(attribute_view(*info))); }
        },
        Attribute::LocalVariableTypeTable { local_variable_type_table_length, local_variable_table } => {
            context.push(local_variable_type_table_length);
            context.push(local_variable_table);
            proof { assert(context.bytes@ =~= start + attribute_body_bytes(attribute_view(*info))); }
        },
        Attribute::Deprecated => {},
        Attribute::RuntimeVisibleAnnotations { .. } | Attribute::RuntimeInvisibleAnnotations { .. }
        | Attribute::RuntimeVisibleParameterAnnotations { .. } | Attribute::RuntimeInvisibleParameterAnnotations {
            ..
        } | Attribute::RuntimeVisibleTypeAnnotations { .. } | Attribute::RuntimeInvisibleTypeAnnotations { .. }
        | Attribute::AnnotationDefault { .. } => {
            write_annotation_attribute(context, info);
        },
        Attribute::BootstrapMethods { num_bootstrap_methods, bootstrap_methods } => {
            context.push(num_bootstrap_methods);
            context.push(bootstrap_methods);
            proof { assert(context.bytes@ =~= start + attribute_body_bytes(attribute_view(*info))); }
        },
        Attribute::MethodParameters { parameters_count, parameters } => {
            context.push(parameters_count);
            context.push(parameters);
            proof { assert(context.bytes@ =~= start + attribute_body_bytes(attribute_view(*info))); }
        },
        Attribute::Module {
            module_name_index,
            module_flags,
            module_version_index,
            requires_count,
            module_requires,
            exports_count,
            exports,
            opens_count,
            opens,
            uses_count,
            uses_index,
            provides_count,
            provides,
        } => {
            context.push(module_name_index);
            context.push(module_flags);
            context.push(module_version_index);
            context.push(requires_count);
            context.push(module_requires);
            context.push(exports_count);
            context.push(exports);
            context.push(opens_count);
            context.push(opens);
            context.push(uses_count);
            context.push(uses_index);
            context.push(provides_count);
            context.push(provides);
            proof { assert(context.bytes@ =~= start + attribute_body_bytes(attribute_view(*info))); }
        },
        Attribute::ModulePackages { package_count, package_index } => {
            context.push(package_count);
            context.push(package_index);
            proof { assert(context.bytes@ =~= start + attribute_body_bytes(attribute_view(*info))); }
        },
        Attribute::ModuleMainClass { main_class_index } => { context.push(main_class_index); proof { assert(context.bytes@ =~= start + attribute_body_bytes(attribute_view(*info))); } },
        Attribute::NestHost { host_class_index } => { context.push(host_class_index); proof { assert(context.bytes@ =~= start + attribute_body_bytes(attribute_view(*info))); } },
        Attribute::NestMembers { number_of_classes, classes } => {
            context.push(number_of_classes);
            context.push(classes);
            proof { assert(context.bytes@ =~= start + attribute_body_bytes(attribute_view(*info))); }
        },
        Attribute::Record { components_count, components } => {
            context.push(components_count);
            write_record_components(context, components);
            proof { assert(context.bytes@ =~= start + attribute_body_bytes(attribute_view(*info))); }
        },
        Attribute::PermittedSubclasses { number_of_classes, classes } => {
            context.push(number_of_classes);
            context.push(classes);
            proof { assert(context.bytes@ =~= start + attribute_body_bytes(attribute_view(*info))); }
        },
    }
}

} // verus!

verus! {

/// The bytes of a `field_info` or `method_info`.
pub open spec fn member_bytes(m: SpecMemberInfo) -> Seq<u8> {
    u16_bytes(m.access_flags) + u16_bytes(m.name_index) + u16_bytes(m.descriptor_index) + u16_bytes(
        m.attributes_count,
    ) + attribute_infos_bytes(m.attributes)
}

impl FromWriteContext for FieldInfo {
    open spec fn spec_write(v: SpecMemberInfo) -> Seq<u8> {
        member_bytes(v)
    }

    fn into_context(context: &mut WriteContext, from: &FieldInfo) {
        let ghost start = context.bytes@;
        context.push(&from.access_flags);
        context.push(&from.name_index);
        context.push(&from.descriptor_index);
        context.push(&from.attributes_count);
        write_attribute_infos(context, &from.attributes);
        proof {
            assert(from.attributes.deep_view() =~= attribute_infos_view(from.attributes@));
            assert(context.bytes@ =~= start + member_bytes(from.deep_view()));
        }
    }
}

impl FromWriteContext for MethodInfo {
    open spec fn spec_write(v: SpecMemberInfo) -> Seq<u8> {
        member_bytes(v)
    }

    fn into_context(context: &mut WriteContext, from: &MethodInfo) {
        let ghost start = context.bytes@;
        context.push(&from.access_flags);
        context.push(&from.name_index);
        context.push(&from.descriptor_index);
        context.push(&from.attributes_count);
        write_attribute_infos(context, &from.attributes);
        proof {
            assert(from.attributes.deep_view() =~= attribute_infos_view(from.attributes@));
            assert(context.bytes@ =~= start + member_bytes(from.deep_view()));
        }
    }
}

/// The bytes of a class file. The placeholder at index 0 of the constant pool is not written.
pub open spec fn class_file_bytes(cf: SpecClassFile) -> Seq<u8> {
    u32_bytes(cf.magic) + u16_bytes(cf.minor_version) + u16_bytes(cf.major_version) + u16_bytes(
        cf.constant_pool_count,
    ) + cp_bytes(cf.constant_pool) + u16_bytes(cf.access_flags) + u16_bytes(cf.this_class) + u16_bytes(
        cf.super_class,
    ) + u16_bytes(cf.interfaces_count) + spec_write_vec::<u16>(cf.interfaces) + u16_bytes(cf.fields_count)
        + spec_write_vec::<FieldInfo>(cf.fields) + u16_bytes(cf.methods_count) + spec_write_vec::<MethodInfo>(
        cf.methods,
    ) + u16_bytes(cf.attributes_count) + attribute_infos_bytes(cf.attributes)
}

impl FromWriteContext for ClassFile {
    open spec fn spec_write(v: SpecClassFile) -> Seq<u8> {
        class_file_bytes(v)
    }

    fn into_context(context: &mut WriteContext, from: &ClassFile) {
        let ghost start = context.bytes@;
        context.push(&from.magic);
        context.push(&from.minor_version);
        context.push(&from.major_version);
        context.push(&from.constant_pool_count);
        write_constant_pool(context, &from.constant_pool);
        context.push(&from.access_flags);
        context.push(&from.this_class);
        context.push(&from.super_class);
        context.push(&from.interfaces_count);
        context.push(&from.interfaces);
        context.push(&from.fields_count);
        context.push(&from.fields);
        context.push(&from.methods_count);
        context.push(&from.methods);
        context.push(&from.attributes_count);
        write_attribute_infos(context, &from.attributes);
        proof {
            assert(from.attributes.deep_view() =~= attribute_infos_view(from.attributes@));
            assert(context.bytes@ =~= start + class_file_bytes(from.deep_view()));
        }
    }
}

} // verus!
