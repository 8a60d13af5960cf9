//! Attributes in their normal form: each body written under the name of its kind, with
//! its counts and its stored length agreeing with its contents. Such a body, once
//! written, reads back as itself.

use crate::jvms::attr::module::{ModuleExports, ModuleOpens, ModuleProvides, ModuleRequires};
use crate::jvms::annotation_roundtrip::{element_value_wf, lemma_element_value_roundtrip};
use crate::jvms::attr::annotation::{AnnotationInfo, ParameterAnnotationInfo, TypeAnnotation};
use crate::jvms::attr::{
    BootstrapMethod, ExceptionTable, InnerClassInfo, LineNumberTableInfo, LocalVariableTableInfo,
    LocalVariableTypeTableInfo, MethodParameter, RecordComponentInfo, SpecAttribute, SpecRecordComponentInfo,
    StackMapFrame,
};
use crate::jvms::element::{AttributeInfo, SpecAttributeInfo, SpecCPInfo};
use crate::jvms::read::attr_body::{
    spec_attribute_body, spec_body_bootstrap_methods, spec_body_constant_value, spec_body_enclosing_method,
    spec_body_exceptions, spec_body_inner_classes, spec_body_line_number_table, spec_body_local_variable_table,
    spec_body_local_variable_type_table, spec_body_method_parameters, spec_body_module, spec_body_module_main_class,
    spec_body_module_packages, spec_body_nest_host, spec_body_nest_members, spec_body_permitted_subclasses,
    spec_body_record, spec_body_signature, spec_body_source_debug_extension, spec_body_source_file,
    spec_body_stack_map_table, spec_body_annotations, spec_body_parameter_annotations, spec_body_type_annotations,
    spec_body_annotation_default,
};
use crate::jvms::read::bytes::{spec_read_vec, FromReadContext, Parsed};
use crate::jvms::read::jvms_reader::spec_read_counted;
use crate::jvms::read::transform::{spec_cp_utf8, Outcome};
use crate::jvms::roundtrip::lemma_counted_roundtrip;
use crate::jvms::wire::{all_wf, lemma_u16_bytes, lemma_vec_roundtrip, Codec};
use crate::jvms::write::bytes::{spec_write_vec, u16_bytes, FromWriteContext};
use crate::jvms::write::jvms_writer::{attribute_body_bytes, lemma_attribute_infos_bytes, record_component_bytes};
use vstd::prelude::*;

verus! {

impl Codec for RecordComponentInfo {
    /// The count matches, and the component's own attributes are bytes.
    open spec fn spec_wf(v: SpecRecordComponentInfo) -> bool {
        v.attributes.len() == v.attributes_count && all_wf::<AttributeInfo>(v.attributes)
    }

    proof fn lemma_roundtrip(v: SpecRecordComponentInfo, rest: Seq<u8>) {
        lemma_attribute_infos_bytes(v.attributes);
        let w = record_component_bytes(v);
        let b = w + rest;
        lemma_u16_bytes(v.name_index);
        lemma_u16_bytes(v.descriptor_index);
        assert(b[0] == u16_bytes(v.name_index)[0] && b[1] == u16_bytes(v.name_index)[1]);
        assert(b[2] == u16_bytes(v.descriptor_index)[0] && b[3] == u16_bytes(v.descriptor_index)[1]);
        assert(b.skip(4) =~= u16_bytes(v.attributes_count) + spec_write_vec::<AttributeInfo>(v.attributes) + rest);
        lemma_counted_roundtrip::<AttributeInfo>(v.attributes_count, v.attributes, rest);
    }
}

/// The name under which a body of this kind is stored in the constant pool.
pub open spec fn attribute_name(info: SpecAttribute) -> Seq<char> {
    match info {
        SpecAttribute::Custom(_) => Seq::empty(),
        SpecAttribute::ConstantValue { .. } => "ConstantValue"@,
        SpecAttribute::Code { .. } => "Code"@,
        SpecAttribute::StackMapTable { .. } => "StackMapTable"@,
        SpecAttribute::Exceptions { .. } => "Exceptions"@,
        SpecAttribute::InnerClasses { .. } => "InnerClasses"@,
        SpecAttribute::EnclosingMethod { .. } => "EnclosingMethod"@,
        SpecAttribute::Synthetic => "Synthetic"@,
        SpecAttribute::Signature { .. } => "Signature"@,
        SpecAttribute::SourceFile { .. } => "SourceFile"@,
        SpecAttribute::SourceDebugExtension { .. } => "SourceDebugExtension"@,
        SpecAttribute::LineNumberTable { .. } => "LineNumberTable"@,
        SpecAttribute::LocalVariableTable { .. } => "LocalVariableTable"@,
        SpecAttribute::LocalVariableTypeTable { .. } => "LocalVariableTypeTable"@,
        SpecAttribute::Deprecated => "Deprecated"@,
        SpecAttribute::BootstrapMethods { .. } => "BootstrapMethods"@,
        SpecAttribute::MethodParameters { .. } => "MethodParameters"@,
        SpecAttribute::Module { .. } => "Module"@,
        SpecAttribute::ModulePackages { .. } => "ModulePackages"@,
        SpecAttribute::ModuleMainClass { .. } => "ModuleMainClass"@,
        SpecAttribute::NestHost { .. } => "NestHost"@,
        SpecAttribute::NestMembers { .. } => "NestMembers"@,
        SpecAttribute::Record { .. } => "Record"@,
        SpecAttribute::PermittedSubclasses { .. } => "PermittedSubclasses"@,
        SpecAttribute::RuntimeVisibleAnnotations { .. } => "RuntimeVisibleAnnotations"@,
        SpecAttribute::RuntimeInvisibleAnnotations { .. } => "RuntimeInvisibleAnnotations"@,
        SpecAttribute::RuntimeVisibleParameterAnnotations { .. } => "RuntimeVisibleParameterAnnotations"@,
        SpecAttribute::RuntimeInvisibleParameterAnnotations { .. } => "RuntimeInvisibleParameterAnnotations"@,
        SpecAttribute::RuntimeVisibleTypeAnnotations { .. } => "RuntimeVisibleTypeAnnotations"@,
        SpecAttribute::RuntimeInvisibleTypeAnnotations { .. } => "RuntimeInvisibleTypeAnnotations"@,
        SpecAttribute::AnnotationDefault { .. } => "AnnotationDefault"@,
    }
}

/// Whether the reader reads the bodies of attributes named `name` into a structure.
pub open spec fn is_known_attribute_name(name: Seq<char>) -> bool {
    ||| name == "ConstantValue"@
    ||| name == "Code"@
    ||| name == "StackMapTable"@
    ||| name == "Exceptions"@
    ||| name == "InnerClasses"@
    ||| name == "EnclosingMethod"@
    ||| name == "Synthetic"@
    ||| name == "Signature"@
    ||| name == "SourceFile"@
    ||| name == "SourceDebugExtension"@
    ||| name == "LineNumberTable"@
    ||| name == "LocalVariableTable"@
    ||| name == "LocalVariableTypeTable"@
    ||| name == "Deprecated"@
    ||| name == "BootstrapMethods"@
    ||| name == "MethodParameters"@
    ||| name == "Module"@
    ||| name == "ModulePackages"@
    ||| name == "ModuleMainClass"@
    ||| name == "NestHost"@
    ||| name == "NestMembers"@
    ||| name == "Record"@
    ||| name == "PermittedSubclasses"@
    ||| name == "RuntimeVisibleAnnotations"@
    ||| name == "RuntimeInvisibleAnnotations"@
    ||| name == "RuntimeVisibleParameterAnnotations"@
    ||| name == "RuntimeInvisibleParameterAnnotations"@
    ||| name == "RuntimeVisibleTypeAnnotations"@
    ||| name == "RuntimeInvisibleTypeAnnotations"@
    ||| name == "AnnotationDefault"@
}

/// The counts of a body agree with the lists they count, and what the lists hold is
/// well-formed. The attributes inside a Code body are left to [attribute_wf].
pub open spec fn body_wf(info: SpecAttribute) -> bool {
    match info {
        SpecAttribute::Code {
            code_length,
            code,
            exception_table_length,
            exception_table,
            attributes_count,
            attributes,
            ..
        } => code.len() == code_length && exception_table.len() == exception_table_length
            && attributes.len() == attributes_count,
        SpecAttribute::StackMapTable { number_of_entries, entries } => entries.len() == number_of_entries
            && all_wf::<StackMapFrame>(entries),
        SpecAttribute::Exceptions { number_of_exceptions, exception_index_table } =>
            exception_index_table.len() == number_of_exceptions,
        SpecAttribute::InnerClasses { number_of_classes, classes } => classes.len() == number_of_classes,
        SpecAttribute::LineNumberTable { line_number_table_length, line_number_table } =>
            line_number_table.len() == line_number_table_length,
        SpecAttribute::LocalVariableTable { local_variable_table_length, local_variable_table } =>
            local_variable_table.len() == local_variable_table_length,
        SpecAttribute::LocalVariableTypeTable { local_variable_type_table_length, local_variable_table } =>
            local_variable_table.len() == local_variable_type_table_length,
        SpecAttribute::BootstrapMethods { num_bootstrap_methods, bootstrap_methods } =>
            bootstrap_methods.len() == num_bootstrap_methods && all_wf::<BootstrapMethod>(bootstrap_methods),
        SpecAttribute::MethodParameters { parameters_count, parameters } => parameters.len() == parameters_count,
        SpecAttribute::Module {
            requires_count,
            module_requires,
            exports_count,
            exports,
            opens_count,
            opens,
            uses_count,
            uses_index,
            provides_count,
            provides,
            ..
        } => {
            &&& module_requires.len() == requires_count
            &&& exports.len() == exports_count && all_wf::<ModuleExports>(exports)
            &&& opens.len() == opens_count && all_wf::<ModuleOpens>(opens)
            &&& uses_index.len() == uses_count
            &&& provides.len() == provides_count && all_wf::<ModuleProvides>(provides)
        },
        SpecAttribute::ModulePackages { package_count, package_index } => package_index.len() == package_count,
        SpecAttribute::NestMembers { number_of_classes, classes } => classes.len() == number_of_classes,
        SpecAttribute::Record { components_count, components } => components.len() == components_count
            && all_wf::<RecordComponentInfo>(components),
        SpecAttribute::PermittedSubclasses { number_of_classes, classes } => classes.len() == number_of_classes,
        SpecAttribute::RuntimeVisibleAnnotations { num_annotations, annotations }
        | SpecAttribute::RuntimeInvisibleAnnotations { num_annotations, annotations } => annotations.len()
            == num_annotations && all_wf::<AnnotationInfo>(annotations),
        SpecAttribute::RuntimeVisibleParameterAnnotations { num_parameters, parameter_annotations }
        | SpecAttribute::RuntimeInvisibleParameterAnnotations { num_parameters, parameter_annotations } =>
            parameter_annotations.len() == num_parameters && all_wf::<ParameterAnnotationInfo>(parameter_annotations),
        SpecAttribute::RuntimeVisibleTypeAnnotations { num_parameters, annotations }
        | SpecAttribute::RuntimeInvisibleTypeAnnotations { num_parameters, annotations } => annotations.len()
            == num_parameters && all_wf::<TypeAnnotation>(annotations),
        SpecAttribute::AnnotationDefault { default_value } => element_value_wf(default_value),
        _ => true,
    }
}

/// An attribute in normal form, given the constant pool `cp`: its stored length is the
/// length of its body, its name is a `CONSTANT_Utf8` entry that names its kind (or, for
/// a body kept as bytes, names no kind the reader knows), its counts agree with its
/// lists, and the attributes of a Code body are in normal form too.
pub open spec fn attribute_wf(a: SpecAttributeInfo, cp: Seq<SpecCPInfo>) -> bool
    decreases a,
{
    &&& a.attribute_length == attribute_body_bytes(a.info).len()
    &&& body_wf(a.info)
    &&& spec_cp_utf8(cp, a.attribute_name_index as int) matches Outcome::Value(name) && if a.info is Custom {
        !is_known_attribute_name(name)
    } else {
        name == attribute_name(a.info)
    }
    &&& match a.info {
        SpecAttribute::Code { attributes, .. } => forall|i: int|
            0 <= i < attributes.len() ==> attribute_wf(#[trigger] attributes[i], cp),
        _ => true,
    }
}

/// A counted list, written with its count, reads back as itself.
proof fn lemma_counted_body<T: Codec>(n: u16, vs: Seq<<T as DeepView>::V>)
    requires
        vs.len() == n,
        all_wf::<T>(vs),
    ensures
        spec_read_counted::<T>(u16_bytes(n) + spec_write_vec::<T>(vs)) == Parsed::Done(
            (n, vs),
            (u16_bytes(n) + spec_write_vec::<T>(vs)).len(),
        ),
{
    lemma_counted_roundtrip::<T>(n, vs, Seq::empty());
    assert(u16_bytes(n) + spec_write_vec::<T>(vs) + Seq::<u8>::empty() =~= u16_bytes(n) + spec_write_vec::<T>(vs));
}

/// Every element of a list of values whose well-formedness always holds is well-formed.
proof fn lemma_all_wf_trivial<T: Codec>(vs: Seq<<T as DeepView>::V>)
    requires
        forall|v: <T as DeepView>::V| #[trigger] T::spec_wf(v),
    ensures
        all_wf::<T>(vs),
{
}

/// A counted list followed by `rest` reads back as itself, leaving `rest`.
proof fn lemma_counted_then<T: Codec>(n: u16, vs: Seq<<T as DeepView>::V>, rest: Seq<u8>, s: Seq<u8>)
    requires
        vs.len() == n,
        all_wf::<T>(vs),
        s == u16_bytes(n) + spec_write_vec::<T>(vs) + rest,
    ensures
        spec_read_counted::<T>(s) == Parsed::Done((n, vs), (u16_bytes(n) + spec_write_vec::<T>(vs)).len()),
        s.skip((u16_bytes(n) + spec_write_vec::<T>(vs)).len() as int) == rest,
{
    lemma_counted_roundtrip::<T>(n, vs, rest);
    lemma_u16_bytes(n);
    assert(s.skip((u16_bytes(n) + spec_write_vec::<T>(vs)).len() as int) =~= rest);
}

/// A Module body reads back as itself.
#[verifier::spinoff_prover]
#[verifier::rlimit(80)]
proof fn lemma_module_body_roundtrip(info: SpecAttribute)
    requires
        info is Module,
        body_wf(info),
    ensures
        spec_body_module(attribute_body_bytes(info)) matches Parsed::Done(v, _) && v == info,
{
    if let SpecAttribute::Module {
        module_name_index,
        module_flags,
        module_version_index,
        requires_count,
        module_requires,
        exports_count,
        exports,
        opens_count,
        opens,
        uses_count,
        uses_index,
        provides_count,
        provides,
    } = info {
        let s = attribute_body_bytes(info);
        let c1 = u16_bytes(requires_count) + spec_write_vec::<ModuleRequires>(module_requires);
        let c2 = u16_bytes(exports_count) + spec_write_vec::<ModuleExports>(exports);
        let c3 = u16_bytes(opens_count) + spec_write_vec::<ModuleOpens>(opens);
        let c4 = u16_bytes(uses_count) + spec_write_vec::<u16>(uses_index);
        let c5 = u16_bytes(provides_count) + spec_write_vec::<ModuleProvides>(provides);
        let h = u16_bytes(module_name_index) + u16_bytes(module_flags) + u16_bytes(module_version_index);
        let t5 = c5;
        let t4 = c4 + t5;
        let t3 = c3 + t4;
        let t2 = c2 + t3;
        let t1 = c1 + t2;
        assert(s =~= h + t1);
        lemma_u16_bytes(module_name_index);
        lemma_u16_bytes(module_flags);
        lemma_u16_bytes(module_version_index);
        assert(s[0] == h[0] && s[1] == h[1] && s[2] == h[2] && s[3] == h[3] && s[4] == h[4] && s[5] == h[5]);
        assert(s.skip(6) =~= t1);
        lemma_all_wf_trivial::<ModuleRequires>(module_requires);
        lemma_all_wf_trivial::<u16>(uses_index);
        assert(t1 =~= c1 + t2);
        lemma_counted_then::<ModuleRequires>(requires_count, module_requires, t2, t1);
        let p1: int = 6 + c1.len() as int;
        assert(s.skip(p1) =~= t2);
        lemma_counted_then::<ModuleExports>(exports_count, exports, t3, t2);
        let p2: int = p1 + c2.len() as int;
        assert(s.skip(p2) =~= t3);
        lemma_counted_then::<ModuleOpens>(opens_count, opens, t4, t3);
        let p3: int = p2 + c3.len() as int;
        assert(s.skip(p3) =~= t4);
        lemma_counted_then::<u16>(uses_count, uses_index, t5, t4);
        let p4: int = p3 + c4.len() as int;
        assert(s.skip(p4) =~= t5);
        assert(t5 =~= c5 + Seq::<u8>::empty());
        lemma_counted_then::<ModuleProvides>(provides_count, provides, Seq::empty(), t5);
    }
}

/// What reading a body of the kind of `info` gives, `length` being the stored length.
pub open spec fn spec_body_of(info: SpecAttribute, s: Seq<u8>, length: u32) -> Parsed<SpecAttribute> {
    match info {
        SpecAttribute::ConstantValue { .. } => spec_body_constant_value(s),
        SpecAttribute::StackMapTable { .. } => spec_body_stack_map_table(s),
        SpecAttribute::Exceptions { .. } => spec_body_exceptions(s),
        SpecAttribute::InnerClasses { .. } => spec_body_inner_classes(s),
        SpecAttribute::EnclosingMethod { .. } => spec_body_enclosing_method(s),
        SpecAttribute::Synthetic => Parsed::Done(SpecAttribute::Synthetic, 0),
        SpecAttribute::Signature { .. } => spec_body_signature(s),
        SpecAttribute::SourceFile { .. } => spec_body_source_file(s),
        SpecAttribute::SourceDebugExtension { .. } => spec_body_source_debug_extension(s, length),
        SpecAttribute::LineNumberTable { .. } => spec_body_line_number_table(s),
        SpecAttribute::LocalVariableTable { .. } => spec_body_local_variable_table(s),
        SpecAttribute::LocalVariableTypeTable { .. } => spec_body_local_variable_type_table(s),
        SpecAttribute::Deprecated => Parsed::Done(SpecAttribute::Deprecated, 0),
        SpecAttribute::BootstrapMethods { .. } => spec_body_bootstrap_methods(s),
        SpecAttribute::MethodParameters { .. } => spec_body_method_parameters(s),
        SpecAttribute::Module { .. } => spec_body_module(s),
        SpecAttribute::ModulePackages { .. } => spec_body_module_packages(s),
        SpecAttribute::ModuleMainClass { .. } => spec_body_module_main_class(s),
        SpecAttribute::NestHost { .. } => spec_body_nest_host(s),
        SpecAttribute::NestMembers { .. } => spec_body_nest_members(s),
        SpecAttribute::Record { .. } => spec_body_record(s),
        SpecAttribute::PermittedSubclasses { .. } => spec_body_permitted_subclasses(s),
        SpecAttribute::RuntimeVisibleAnnotations { .. } => spec_body_annotations(s, true),
        SpecAttribute::RuntimeInvisibleAnnotations { .. } => spec_body_annotations(s, false),
        SpecAttribute::RuntimeVisibleParameterAnnotations { .. } => spec_body_parameter_annotations(s, true),
        SpecAttribute::RuntimeInvisibleParameterAnnotations { .. } => spec_body_parameter_annotations(s, false),
        SpecAttribute::RuntimeVisibleTypeAnnotations { .. } => spec_body_type_annotations(s, true),
        SpecAttribute::RuntimeInvisibleTypeAnnotations { .. } => spec_body_type_annotations(s, false),
        SpecAttribute::AnnotationDefault { .. } => spec_body_annotation_default(s),
        _ => Parsed::Done(SpecAttribute::Custom(s), 0),
    }
}

/// The length and the first two letters of each attribute name, which tell them apart.
pub proof fn lemma_attribute_names()
    ensures
        "ConstantValue"@.len() == 13 && "ConstantValue"@[0] == 'C' && "ConstantValue"@[1] == 'o',
        "Code"@.len() == 4 && "Code"@[0] == 'C' && "Code"@[1] == 'o',
        "StackMapTable"@.len() == 13 && "StackMapTable"@[0] == 'S' && "StackMapTable"@[1] == 't',
        "Exceptions"@.len() == 10 && "Exceptions"@[0] == 'E' && "Exceptions"@[1] == 'x',
        "InnerClasses"@.len() == 12 && "InnerClasses"@[0] == 'I' && "InnerClasses"@[1] == 'n',
        "EnclosingMethod"@.len() == 15 && "EnclosingMethod"@[0] == 'E' && "EnclosingMethod"@[1] == 'n',
        "Synthetic"@.len() == 9 && "Synthetic"@[0] == 'S' && "Synthetic"@[1] == 'y',
        "Signature"@.len() == 9 && "Signature"@[0] == 'S' && "Signature"@[1] == 'i',
        "SourceFile"@.len() == 10 && "SourceFile"@[0] == 'S' && "SourceFile"@[1] == 'o',
        "SourceDebugExtension"@.len() == 20 && "SourceDebugExtension"@[0] == 'S' && "SourceDebugExtension"@[1] == 'o',
        "LineNumberTable"@.len() == 15 && "LineNumberTable"@[0] == 'L' && "LineNumberTable"@[1] == 'i',
        "LocalVariableTable"@.len() == 18 && "LocalVariableTable"@[0] == 'L' && "LocalVariableTable"@[1] == 'o',
        "LocalVariableTypeTable"@.len() == 22 && "LocalVariableTypeTable"@[0] == 'L' && "LocalVariableTypeTable"@[1] == 'o',
        "Deprecated"@.len() == 10 && "Deprecated"@[0] == 'D' && "Deprecated"@[1] == 'e',
        "BootstrapMethods"@.len() == 16 && "BootstrapMethods"@[0] == 'B' && "BootstrapMethods"@[1] == 'o',
        "MethodParameters"@.len() == 16 && "MethodParameters"@[0] == 'M' && "MethodParameters"@[1] == 'e',
        "Module"@.len() == 6 && "Module"@[0] == 'M' && "Module"@[1] == 'o',
        "ModulePackages"@.len() == 14 && "ModulePackages"@[0] == 'M' && "ModulePackages"@[1] == 'o',
        "ModuleMainClass"@.len() == 15 && "ModuleMainClass"@[0] == 'M' && "ModuleMainClass"@[1] == 'o',
        "NestHost"@.len() == 8 && "NestHost"@[0] == 'N' && "NestHost"@[1] == 'e',
        "NestMembers"@.len() == 11 && "NestMembers"@[0] == 'N' && "NestMembers"@[1] == 'e',
        "Record"@.len() == 6 && "Record"@[0] == 'R' && "Record"@[1] == 'e',
        "PermittedSubclasses"@.len() == 19 && "PermittedSubclasses"@[0] == 'P' && "PermittedSubclasses"@[1] == 'e',
        "RuntimeVisibleAnnotations"@.len() == 25 && "RuntimeVisibleAnnotations"@[0] == 'R' && "RuntimeVisibleAnnotations"@[1] == 'u',
        "RuntimeInvisibleAnnotations"@.len() == 27 && "RuntimeInvisibleAnnotations"@[0] == 'R' && "RuntimeInvisibleAnnotations"@[1] == 'u',
        "RuntimeVisibleParameterAnnotations"@.len() == 34 && "RuntimeVisibleParameterAnnotations"@[0] == 'R' && "RuntimeVisibleParameterAnnotations"@[1] == 'u',
        "RuntimeInvisibleParameterAnnotations"@.len() == 36 && "RuntimeInvisibleParameterAnnotations"@[0] == 'R' && "RuntimeInvisibleParameterAnnotations"@[1] == 'u',
        "RuntimeVisibleTypeAnnotations"@.len() == 29 && "RuntimeVisibleTypeAnnotations"@[0] == 'R' && "RuntimeVisibleTypeAnnotations"@[1] == 'u',
        "RuntimeInvisibleTypeAnnotations"@.len() == 31 && "RuntimeInvisibleTypeAnnotations"@[0] == 'R' && "RuntimeInvisibleTypeAnnotations"@[1] == 'u',
        "AnnotationDefault"@.len() == 17 && "AnnotationDefault"@[0] == 'A' && "AnnotationDefault"@[1] == 'n',
{
    reveal_strlit("ConstantValue");
    assert("ConstantValue"@.len() == 13 && "ConstantValue"@[0] == 'C' && "ConstantValue"@[1] == 'o');
    reveal_strlit("Code");
    assert("Code"@.len() == 4 && "Code"@[0] == 'C' && "Code"@[1] == 'o');
    reveal_strlit("StackMapTable");
    assert("StackMapTable"@.len() == 13 && "StackMapTable"@[0] == 'S' && "StackMapTable"@[1] == 't');
    reveal_strlit("Exceptions");
    assert("Exceptions"@.len() == 10 && "Exceptions"@[0] == 'E' && "Exceptions"@[1] == 'x');
    reveal_strlit("InnerClasses");
    assert("InnerClasses"@.len() == 12 && "InnerClasses"@[0] == 'I' && "InnerClasses"@[1] == 'n');
    reveal_strlit("EnclosingMethod");
    assert("EnclosingMethod"@.len() == 15 && "EnclosingMethod"@[0] == 'E' && "EnclosingMethod"@[1] == 'n');
    reveal_strlit("Synthetic");
    assert("Synthetic"@.len() == 9 && "Synthetic"@[0] == 'S' && "Synthetic"@[1] == 'y');
    reveal_strlit("Signature");
    assert("Signature"@.len() == 9 && "Signature"@[0] == 'S' && "Signature"@[1] == 'i');
    reveal_strlit("SourceFile");
    assert("SourceFile"@.len() == 10 && "SourceFile"@[0] == 'S' && "SourceFile"@[1] == 'o');
    reveal_strlit("SourceDebugExtension");
    assert("SourceDebugExtension"@.len() == 20 && "SourceDebugExtension"@[0] == 'S' && "SourceDebugExtension"@[1] == 'o');
    reveal_strlit("LineNumberTable");
    assert("LineNumberTable"@.len() == 15 && "LineNumberTable"@[0] == 'L' && "LineNumberTable"@[1] == 'i');
    reveal_strlit("LocalVariableTable");
    assert("LocalVariableTable"@.len() == 18 && "LocalVariableTable"@[0] == 'L' && "LocalVariableTable"@[1] == 'o');
    reveal_strlit("LocalVariableTypeTable");
    assert("LocalVariableTypeTable"@.len() == 22 && "LocalVariableTypeTable"@[0] == 'L' && "LocalVariableTypeTable"@[1] == 'o');
    reveal_strlit("Deprecated");
    assert("Deprecated"@.len() == 10 && "Deprecated"@[0] == 'D' && "Deprecated"@[1] == 'e');
    reveal_strlit("BootstrapMethods");
    assert("BootstrapMethods"@.len() == 16 && "BootstrapMethods"@[0] == 'B' && "BootstrapMethods"@[1] == 'o');
    reveal_strlit("MethodParameters");
    assert("MethodParameters"@.len() == 16 && "MethodParameters"@[0] == 'M' && "MethodParameters"@[1] == 'e');
    reveal_strlit("Module");
    assert("Module"@.len() == 6 && "Module"@[0] == 'M' && "Module"@[1] == 'o');
    reveal_strlit("ModulePackages");
    assert("ModulePackages"@.len() == 14 && "ModulePackages"@[0] == 'M' && "ModulePackages"@[1] == 'o');
    reveal_strlit("ModuleMainClass");
    assert("ModuleMainClass"@.len() == 15 && "ModuleMainClass"@[0] == 'M' && "ModuleMainClass"@[1] == 'o');
    reveal_strlit("NestHost");
    assert("NestHost"@.len() == 8 && "NestHost"@[0] == 'N' && "NestHost"@[1] == 'e');
    reveal_strlit("NestMembers");
    assert("NestMembers"@.len() == 11 && "NestMembers"@[0] == 'N' && "NestMembers"@[1] == 'e');
    reveal_strlit("Record");
    assert("Record"@.len() == 6 && "Record"@[0] == 'R' && "Record"@[1] == 'e');
    reveal_strlit("PermittedSubclasses");
    assert("PermittedSubclasses"@.len() == 19 && "PermittedSubclasses"@[0] == 'P' && "PermittedSubclasses"@[1] == 'e');
    reveal_strlit("RuntimeVisibleAnnotations");
    assert("RuntimeVisibleAnnotations"@.len() == 25 && "RuntimeVisibleAnnotations"@[0] == 'R' && "RuntimeVisibleAnnotations"@[1] == 'u');
    reveal_strlit("RuntimeInvisibleAnnotations");
    assert("RuntimeInvisibleAnnotations"@.len() == 27 && "RuntimeInvisibleAnnotations"@[0] == 'R' && "RuntimeInvisibleAnnotations"@[1] == 'u');
    reveal_strlit("RuntimeVisibleParameterAnnotations");
    assert("RuntimeVisibleParameterAnnotations"@.len() == 34 && "RuntimeVisibleParameterAnnotations"@[0] == 'R' && "RuntimeVisibleParameterAnnotations"@[1] == 'u');
    reveal_strlit("RuntimeInvisibleParameterAnnotations");
    assert("RuntimeInvisibleParameterAnnotations"@.len() == 36 && "RuntimeInvisibleParameterAnnotations"@[0] == 'R' && "RuntimeInvisibleParameterAnnotations"@[1] == 'u');
    reveal_strlit("RuntimeVisibleTypeAnnotations");
    assert("RuntimeVisibleTypeAnnotations"@.len() == 29 && "RuntimeVisibleTypeAnnotations"@[0] == 'R' && "RuntimeVisibleTypeAnnotations"@[1] == 'u');
    reveal_strlit("RuntimeInvisibleTypeAnnotations");
    assert("RuntimeInvisibleTypeAnnotations"@.len() == 31 && "RuntimeInvisibleTypeAnnotations"@[0] == 'R' && "RuntimeInvisibleTypeAnnotations"@[1] == 'u');
    reveal_strlit("AnnotationDefault");
    assert("AnnotationDefault"@.len() == 17 && "AnnotationDefault"@[0] == 'A' && "AnnotationDefault"@[1] == 'n');
}

/// Under the name of its kind, a body other than Code is read by the reader of that kind.
#[verifier::spinoff_prover]
proof fn lemma_body_dispatch(info: SpecAttribute, s: Seq<u8>, length: u32)
    requires
        !(info is Custom),
        !(info is Code),
        body_wf(info),
    ensures
        spec_attribute_body(attribute_name(info), s, length) == spec_body_of(info, s, length),
{
    lemma_attribute_names();
}

/// A body of a kind the reader knows, other than Code, written and read back with the
/// reader of its kind, is itself.
proof fn lemma_body_of_roundtrip(info: SpecAttribute)
    requires
        !(info is Custom),
        !(info is Code),
        body_wf(info),
        attribute_body_bytes(info).len() <= u32::MAX,
    ensures
        spec_body_of(info, attribute_body_bytes(info), attribute_body_bytes(info).len() as u32) matches Parsed::Done(
            v,
            _,
        ) && v == info,
{
    let s = attribute_body_bytes(info);
    match info {
        SpecAttribute::ConstantValue { constantvalue_index } => {
            lemma_u16_bytes(constantvalue_index);
        },
        SpecAttribute::StackMapTable { number_of_entries, entries } => {
            lemma_counted_body::<StackMapFrame>(number_of_entries, entries);
        },
        SpecAttribute::Exceptions { number_of_exceptions, exception_index_table } => {
            lemma_all_wf_trivial::<u16>(exception_index_table);
            lemma_counted_body::<u16>(number_of_exceptions, exception_index_table);
        },
        SpecAttribute::InnerClasses { number_of_classes, classes } => {
            lemma_all_wf_trivial::<InnerClassInfo>(classes);
            lemma_counted_body::<InnerClassInfo>(number_of_classes, classes);
        },
        SpecAttribute::EnclosingMethod { class_index, method_index } => {
            lemma_u16_bytes(class_index);
            lemma_u16_bytes(method_index);
            assert(s[0] == u16_bytes(class_index)[0] && s[1] == u16_bytes(class_index)[1]);
            assert(s[2] == u16_bytes(method_index)[0] && s[3] == u16_bytes(method_index)[1]);
        },
        SpecAttribute::Signature { signature_index } => {
            lemma_u16_bytes(signature_index);
        },
        SpecAttribute::SourceFile { sourcefile_index } => {
            lemma_u16_bytes(sourcefile_index);
        },
        SpecAttribute::SourceDebugExtension { debug_extension } => {
            assert(debug_extension.take(debug_extension.len() as int) =~= debug_extension);
        },
        SpecAttribute::LineNumberTable { line_number_table_length, line_number_table } => {
            lemma_all_wf_trivial::<LineNumberTableInfo>(line_number_table);
            lemma_counted_body::<LineNumberTableInfo>(line_number_table_length, line_number_table);
        },
        SpecAttribute::LocalVariableTable { local_variable_table_length, local_variable_table } => {
            lemma_all_wf_trivial::<LocalVariableTableInfo>(local_variable_table);
            lemma_counted_body::<LocalVariableTableInfo>(local_variable_table_length, local_variable_table);
        },
        SpecAttribute::LocalVariableTypeTable { local_variable_type_table_length, local_variable_table } => {
            lemma_all_wf_trivial::<LocalVariableTypeTableInfo>(local_variable_table);
            lemma_counted_body::<LocalVariableTypeTableInfo>(local_variable_type_table_length, local_variable_table);
        },
        SpecAttribute::BootstrapMethods { num_bootstrap_methods, bootstrap_methods } => {
            lemma_counted_body::<BootstrapMethod>(num_bootstrap_methods, bootstrap_methods);
        },
        SpecAttribute::MethodParameters { parameters_count, parameters } => {
            lemma_all_wf_trivial::<MethodParameter>(parameters);
            lemma_vec_roundtrip::<MethodParameter>(parameters, Seq::empty());
            assert(s.skip(1) =~= spec_write_vec::<MethodParameter>(parameters) + Seq::<u8>::empty());
        },
        SpecAttribute::Module { .. } => {
            lemma_module_body_roundtrip(info);
        },
        SpecAttribute::ModulePackages { package_count, package_index } => {
            lemma_all_wf_trivial::<u16>(package_index);
            lemma_counted_body::<u16>(package_count, package_index);
        },
        SpecAttribute::ModuleMainClass { main_class_index } => {
            lemma_u16_bytes(main_class_index);
        },
        SpecAttribute::NestHost { host_class_index } => {
            lemma_u16_bytes(host_class_index);
        },
        SpecAttribute::NestMembers { number_of_classes, classes } => {
            lemma_all_wf_trivial::<u16>(classes);
            lemma_counted_body::<u16>(number_of_classes, classes);
        },
        SpecAttribute::Record { components_count, components } => {
            crate::jvms::write::jvms_writer::lemma_record_components_bytes(components);
            lemma_counted_body::<RecordComponentInfo>(components_count, components);
        },
        SpecAttribute::PermittedSubclasses { number_of_classes, classes } => {
            lemma_all_wf_trivial::<u16>(classes);
            lemma_counted_body::<u16>(number_of_classes, classes);
        },
        SpecAttribute::RuntimeVisibleAnnotations { num_annotations, annotations }
        | SpecAttribute::RuntimeInvisibleAnnotations { num_annotations, annotations } => {
            lemma_counted_body::<AnnotationInfo>(num_annotations, annotations);
        },
        SpecAttribute::RuntimeVisibleParameterAnnotations { num_parameters, parameter_annotations }
        | SpecAttribute::RuntimeInvisibleParameterAnnotations { num_parameters, parameter_annotations } => {
            lemma_vec_roundtrip::<ParameterAnnotationInfo>(parameter_annotations, Seq::empty());
            assert(s.skip(1) =~= spec_write_vec::<ParameterAnnotationInfo>(parameter_annotations) + Seq::<
                u8,
            >::empty());
        },
        SpecAttribute::RuntimeVisibleTypeAnnotations { num_parameters, annotations }
        | SpecAttribute::RuntimeInvisibleTypeAnnotations { num_parameters, annotations } => {
            lemma_counted_body::<TypeAnnotation>(num_parameters, annotations);
        },
        SpecAttribute::AnnotationDefault { default_value } => {
            lemma_element_value_roundtrip(default_value, Seq::empty());
            assert(s + Seq::<u8>::empty() =~= s);
        },
        _ => {},
    }
}


/// A body of a kind the reader knows, other than Code, written and read back under the
/// name of its kind, is itself.
pub proof fn lemma_known_body_roundtrip(info: SpecAttribute)
    requires
        !(info is Custom),
        !(info is Code),
        body_wf(info),
        attribute_body_bytes(info).len() <= u32::MAX,
    ensures
        spec_attribute_body(attribute_name(info), attribute_body_bytes(info), attribute_body_bytes(info).len() as u32)
            matches Parsed::Done(v, _) && v == info,
{
    lemma_body_dispatch(info, attribute_body_bytes(info), attribute_body_bytes(info).len() as u32);
    lemma_body_of_roundtrip(info);
}

} // verus!
