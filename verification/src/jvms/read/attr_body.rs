//! Reading the bodies of attributes whose names this library knows (JVMS 4.7).

use crate::err::{AsmErr, AsmResult};
use crate::jvms::attr::module::{ModuleExports, ModuleOpens, ModuleProvides, ModuleRequires};
use crate::jvms::attr::{
    attribute_infos_view, attribute_view, record_component_view, record_components_view, Attribute,
    BootstrapMethod, InnerClassInfo, LineNumberTableInfo, LocalVariableTableInfo, LocalVariableTypeTableInfo,
    MethodParameter, RecordComponentInfo, SpecAttribute, SpecRecordComponentInfo, StackMapFrame,
    VerificationTypeInfo,
};
use crate::jvms::attr::annotation::{
    annotations_view, parameter_annotations_view, type_annotations_view, AnnotationInfo, ParameterAnnotationInfo,
    TypeAnnotation,
};
use crate::jvms::attr::tables::lemma_types_never_abort;
use crate::jvms::read::annotation_reader::{
    lemma_annotations_total, lemma_element_value_total, lemma_parameter_annotations_total,
    lemma_type_annotations_total, read_element_value, spec_read_element_value,
};
use crate::jvms::element::AttributeInfo;
use crate::jvms::read::bytes::{
    be_u16, lemma_read_vec_len, spec_read_vec, FromReadContext, Parsed, ReadContext,
};
use crate::jvms::read::jvms_reader::{
    lemma_members_never_abort, lemma_raw_attributes_never_abort, read_bytes, read_counted, spec_read_counted,
};
use vstd::prelude::*;

verus! {

/// How an executable read of an attribute body relates to its specification.
pub open spec fn body_result(p: Parsed<SpecAttribute>, r: AsmResult<Attribute>) -> bool {
    match p {
        Parsed::Done(v, _) => r matches Ok(x) && attribute_view(x) == v,
        Parsed::Fail(e) => r == Err::<Attribute, AsmErr>(e),
        Parsed::Abort => false,
    }
}

/// Reading `n` values of a type whose reads never abort never aborts.
pub proof fn lemma_read_vec_total<T: FromReadContext>(s: Seq<u8>, n: nat)
    requires
        forall|t: Seq<u8>| !(#[trigger] T::spec_read(t) is Abort),
    ensures
        !(spec_read_vec::<T>(s, n) is Abort),
    decreases n,
{
    if n > 0 {
        lemma_read_vec_total::<T>(s, (n - 1) as nat);
        if let Parsed::Done(_, m) = spec_read_vec::<T>(s, (n - 1) as nat) {
            assert(!(T::spec_read(s.skip(m as int)) is Abort));
        }
    }
}

/// Reading a counted sequence of a type whose reads never abort never aborts.
pub proof fn lemma_counted_total<T: FromReadContext>(s: Seq<u8>)
    requires
        forall|t: Seq<u8>| !(#[trigger] T::spec_read(t) is Abort),
    ensures
        !(spec_read_counted::<T>(s) is Abort),
{
    reveal(spec_read_counted);
    if s.len() >= 2 {
        lemma_read_vec_total::<T>(s.skip(2), be_u16(s[0], s[1]) as nat);
    }
}

/// None of the tables of attribute bodies aborts when read.
pub proof fn lemma_tables_total()
    ensures
        forall|t: Seq<u8>| !(#[trigger] u16::spec_read(t) is Abort),
        forall|t: Seq<u8>| !(#[trigger] StackMapFrame::spec_read(t) is Abort),
        forall|t: Seq<u8>| !(#[trigger] InnerClassInfo::spec_read(t) is Abort),
        forall|t: Seq<u8>| !(#[trigger] LineNumberTableInfo::spec_read(t) is Abort),
        forall|t: Seq<u8>| !(#[trigger] LocalVariableTableInfo::spec_read(t) is Abort),
        forall|t: Seq<u8>| !(#[trigger] LocalVariableTypeTableInfo::spec_read(t) is Abort),
        forall|t: Seq<u8>| !(#[trigger] BootstrapMethod::spec_read(t) is Abort),
        forall|t: Seq<u8>| !(#[trigger] RecordComponentInfo::spec_read(t) is Abort),
        forall|t: Seq<u8>| !(#[trigger] MethodParameter::spec_read(t) is Abort),
        forall|t: Seq<u8>| !(#[trigger] ModuleRequires::spec_read(t) is Abort),
        forall|t: Seq<u8>| !(#[trigger] ModuleExports::spec_read(t) is Abort),
        forall|t: Seq<u8>| !(#[trigger] ModuleOpens::spec_read(t) is Abort),
        forall|t: Seq<u8>| !(#[trigger] ModuleProvides::spec_read(t) is Abort),
{
    assert forall|t: Seq<u8>| !(#[trigger] StackMapFrame::spec_read(t) is Abort) by {
        if t.len() >= 3 {
            lemma_types_never_abort(t.skip(3), (t[0] - 251) as nat);
        }
        if t.len() >= 5 {
            let nl = be_u16(t[3], t[4]);
            lemma_types_never_abort(t.skip(5), nl as nat);
            if let Parsed::Done(_, k1) = spec_read_vec::<VerificationTypeInfo>(t.skip(5), nl as nat) {
                let p: int = 5 + k1 as int;
                if t.len() >= p + 2 {
                    lemma_types_never_abort(t.skip(p + 2), be_u16(t[p], t[p + 1]) as nat);
                }
            }
        }
    }
    assert forall|t: Seq<u8>| !(#[trigger] BootstrapMethod::spec_read(t) is Abort) by {
        if t.len() >= 4 {
            lemma_members_never_abort(t.skip(4), be_u16(t[2], t[3]) as nat);
        }
    }
    assert forall|t: Seq<u8>| !(#[trigger] ModuleExports::spec_read(t) is Abort) by {
        if t.len() >= 6 {
            lemma_members_never_abort(t.skip(6), be_u16(t[4], t[5]) as nat);
        }
    }
    assert forall|t: Seq<u8>| !(#[trigger] ModuleOpens::spec_read(t) is Abort) by {
        if t.len() >= 6 {
            lemma_members_never_abort(t.skip(6), be_u16(t[4], t[5]) as nat);
        }
    }
    assert forall|t: Seq<u8>| !(#[trigger] ModuleProvides::spec_read(t) is Abort) by {
        if t.len() >= 4 {
            lemma_members_never_abort(t.skip(4), be_u16(t[2], t[3]) as nat);
        }
    }
    assert forall|t: Seq<u8>| !(#[trigger] RecordComponentInfo::spec_read(t) is Abort) by {
        if t.len() >= 4 {
            lemma_counted_raw_attributes_total(t.skip(4));
        }
    }
}

/// Reading a counted sequence of raw attributes never aborts.
pub proof fn lemma_counted_raw_attributes_total(s: Seq<u8>)
    ensures
        !(spec_read_counted::<AttributeInfo>(s) is Abort),
{
    reveal(spec_read_counted);
    if s.len() >= 2 {
        lemma_raw_attributes_never_abort(s.skip(2), be_u16(s[0], s[1]) as nat);
    }
}

impl FromReadContext for RecordComponentInfo {
    /// Reads a record component; its attributes stay bytes.
    open spec fn spec_read(s: Seq<u8>) -> Parsed<SpecRecordComponentInfo> {
        if s.len() < 4 {
            Parsed::Fail(AsmErr::OutOfRange)
        } else {
            match spec_read_counted::<AttributeInfo>(s.skip(4)) {
                Parsed::Done(c, n) => Parsed::Done(
                    SpecRecordComponentInfo {
                        name_index: be_u16(s[0], s[1]),
                        descriptor_index: be_u16(s[2], s[3]),
                        attributes_count: c.0,
                        attributes: c.1,
                    },
                    4 + n,
                ),
                Parsed::Fail(e) => Parsed::Fail(e),
                Parsed::Abort => Parsed::Abort,
            }
        }
    }

    proof fn lemma_read_len(s: Seq<u8>) {
        reveal(spec_read_counted);
        if s.len() >= 6 {
            lemma_read_vec_len::<AttributeInfo>(s.skip(4).skip(2), be_u16(s[4], s[5]) as nat);
        }
    }

    fn from_context(context: &mut ReadContext) -> (r: AsmResult<RecordComponentInfo>) {
        let ghost s = context.rest();
        let name_index: u16 = context.read()?;
        let descriptor_index: u16 = context.read()?;
        proof {
            assert(context.rest() =~= s.skip(4));
            lemma_counted_raw_attributes_total(context.rest());
        }
        let (attributes_count, attributes) = read_counted::<AttributeInfo>(context)?;
        let r = RecordComponentInfo { name_index, descriptor_index, attributes_count, attributes };
        proof {
            assert(attributes.deep_view() =~= attribute_infos_view(attributes@));
        }
        Ok(r)
    }
}

pub open spec fn spec_body_stack_map_table(s: Seq<u8>) -> Parsed<SpecAttribute> {
    match spec_read_counted::<StackMapFrame>(s) {
        Parsed::Done(c, k) => Parsed::Done(SpecAttribute::StackMapTable { number_of_entries: c.0, entries: c.1 }, k),
        Parsed::Fail(e) => Parsed::Fail(e),
        Parsed::Abort => Parsed::Abort,
    }
}

fn read_body_stack_map_table(context: &mut ReadContext) -> (r: AsmResult<Attribute>)
    requires
        old(context).wf(),
    ensures
        body_result(spec_body_stack_map_table(old(context).rest()), r),
{
    proof {
        lemma_tables_total();
        lemma_counted_total::<StackMapFrame>(context.rest());
    }
    let (number_of_entries, entries) = read_counted::<StackMapFrame>(context)?;
    
    Ok(Attribute::StackMapTable { number_of_entries, entries })
}

pub open spec fn spec_body_exceptions(s: Seq<u8>) -> Parsed<SpecAttribute> {
    match spec_read_counted::<u16>(s) {
        Parsed::Done(c, k) => Parsed::Done(SpecAttribute::Exceptions { number_of_exceptions: c.0, exception_index_table: c.1 }, k),
        Parsed::Fail(e) => Parsed::Fail(e),
        Parsed::Abort => Parsed::Abort,
    }
}

fn read_body_exceptions(context: &mut ReadContext) -> (r: AsmResult<Attribute>)
    requires
        old(context).wf(),
    ensures
        body_result(spec_body_exceptions(old(context).rest()), r),
{
    proof {
        lemma_tables_total();
        lemma_counted_total::<u16>(context.rest());
    }
    let (number_of_exceptions, exception_index_table) = read_counted::<u16>(context)?;
    
    Ok(Attribute::Exceptions { number_of_exceptions, exception_index_table })
}

pub open spec fn spec_body_inner_classes(s: Seq<u8>) -> Parsed<SpecAttribute> {
    match spec_read_counted::<InnerClassInfo>(s) {
        Parsed::Done(c, k) => Parsed::Done(SpecAttribute::InnerClasses { number_of_classes: c.0, classes: c.1 }, k),
        Parsed::Fail(e) => Parsed::Fail(e),
        Parsed::Abort => Parsed::Abort,
    }
}

fn read_body_inner_classes(context: &mut ReadContext) -> (r: AsmResult<Attribute>)
    requires
        old(context).wf(),
    ensures
        body_result(spec_body_inner_classes(old(context).rest()), r),
{
    proof {
        lemma_tables_total();
        lemma_counted_total::<InnerClassInfo>(context.rest());
    }
    let (number_of_classes, classes) = read_counted::<InnerClassInfo>(context)?;
    
    Ok(Attribute::InnerClasses { number_of_classes, classes })
}

pub open spec fn spec_body_line_number_table(s: Seq<u8>) -> Parsed<SpecAttribute> {
    match spec_read_counted::<LineNumberTableInfo>(s) {
        Parsed::Done(c, k) => Parsed::Done(SpecAttribute::LineNumberTable { line_number_table_length: c.0, line_number_table: c.1 }, k),
        Parsed::Fail(e) => Parsed::Fail(e),
        Parsed::Abort => Parsed::Abort,
    }
}

fn read_body_line_number_table(context: &mut ReadContext) -> (r: AsmResult<Attribute>)
    requires
        old(context).wf(),
    ensures
        body_result(spec_body_line_number_table(old(context).rest()), r),
{
    proof {
        lemma_tables_total();
        lemma_counted_total::<LineNumberTableInfo>(context.rest());
    }
    let (line_number_table_length, line_number_table) = read_counted::<LineNumberTableInfo>(context)?;
    
    Ok(Attribute::LineNumberTable { line_number_table_length, line_number_table })
}

pub open spec fn spec_body_local_variable_table(s: Seq<u8>) -> Parsed<SpecAttribute> {
    match spec_read_counted::<LocalVariableTableInfo>(s) {
        Parsed::Done(c, k) => Parsed::Done(SpecAttribute::LocalVariableTable { local_variable_table_length: c.0, local_variable_table: c.1 }, k),
        Parsed::Fail(e) => Parsed::Fail(e),
        Parsed::Abort => Parsed::Abort,
    }
}

fn read_body_local_variable_table(context: &mut ReadContext) -> (r: AsmResult<Attribute>)
    requires
        old(context).wf(),
    ensures
        body_result(spec_body_local_variable_table(old(context).rest()), r),
{
    proof {
        lemma_tables_total();
        lemma_counted_total::<LocalVariableTableInfo>(context.rest());
    }
    let (local_variable_table_length, local_variable_table) = read_counted::<LocalVariableTableInfo>(context)?;
    
    Ok(Attribute::LocalVariableTable { local_variable_table_length, local_variable_table })
}

pub open spec fn spec_body_local_variable_type_table(s: Seq<u8>) -> Parsed<SpecAttribute> {
    match spec_read_counted::<LocalVariableTypeTableInfo>(s) {
        Parsed::Done(c, k) => Parsed::Done(SpecAttribute::LocalVariableTypeTable { local_variable_type_table_length: c.0, local_variable_table: c.1 }, k),
        Parsed::Fail(e) => Parsed::Fail(e),
        Parsed::Abort => Parsed::Abort,
    }
}

fn read_body_local_variable_type_table(context: &mut ReadContext) -> (r: AsmResult<Attribute>)
    requires
        old(context).wf(),
    ensures
        body_result(spec_body_local_variable_type_table(old(context).rest()), r),
{
    proof {
        lemma_tables_total();
        lemma_counted_total::<LocalVariableTypeTableInfo>(context.rest());
    }
    let (local_variable_type_table_length, local_variable_table) = read_counted::<LocalVariableTypeTableInfo>(context)?;
    
    Ok(Attribute::LocalVariableTypeTable { local_variable_type_table_length, local_variable_table })
}

pub open spec fn spec_body_bootstrap_methods(s: Seq<u8>) -> Parsed<SpecAttribute> {
    match spec_read_counted::<BootstrapMethod>(s) {
        Parsed::Done(c, k) => Parsed::Done(SpecAttribute::BootstrapMethods { num_bootstrap_methods: c.0, bootstrap_methods: c.1 }, k),
        Parsed::Fail(e) => Parsed::Fail(e),
        Parsed::Abort => Parsed::Abort,
    }
}

fn read_body_bootstrap_methods(context: &mut ReadContext) -> (r: AsmResult<Attribute>)
    requires
        old(context).wf(),
    ensures
        body_result(spec_body_bootstrap_methods(old(context).rest()), r),
{
    proof {
        lemma_tables_total();
        lemma_counted_total::<BootstrapMethod>(context.rest());
    }
    let (num_bootstrap_methods, bootstrap_methods) = read_counted::<BootstrapMethod>(context)?;
    
    Ok(Attribute::BootstrapMethods { num_bootstrap_methods, bootstrap_methods })
}

pub open spec fn spec_body_module_packages(s: Seq<u8>) -> Parsed<SpecAttribute> {
    match spec_read_counted::<u16>(s) {
        Parsed::Done(c, k) => Parsed::Done(SpecAttribute::ModulePackages { package_count: c.0, package_index: c.1 }, k),
        Parsed::Fail(e) => Parsed::Fail(e),
        Parsed::Abort => Parsed::Abort,
    }
}

fn read_body_module_packages(context: &mut ReadContext) -> (r: AsmResult<Attribute>)
    requires
        old(context).wf(),
    ensures
        body_result(spec_body_module_packages(old(context).rest()), r),
{
    proof {
        lemma_tables_total();
        lemma_counted_total::<u16>(context.rest());
    }
    let (package_count, package_index) = read_counted::<u16>(context)?;
    
    Ok(Attribute::ModulePackages { package_count, package_index })
}

pub open spec fn spec_body_nest_members(s: Seq<u8>) -> Parsed<SpecAttribute> {
    match spec_read_counted::<u16>(s) {
        Parsed::Done(c, k) => Parsed::Done(SpecAttribute::NestMembers { number_of_classes: c.0, classes: c.1 }, k),
        Parsed::Fail(e) => Parsed::Fail(e),
        Parsed::Abort => Parsed::Abort,
    }
}

fn read_body_nest_members(context: &mut ReadContext) -> (r: AsmResult<Attribute>)
    requires
        old(context).wf(),
    ensures
        body_result(spec_body_nest_members(old(context).rest()), r),
{
    proof {
        lemma_tables_total();
        lemma_counted_total::<u16>(context.rest());
    }
    let (number_of_classes, classes) = read_counted::<u16>(context)?;
    
    Ok(Attribute::NestMembers { number_of_classes, classes })
}

pub open spec fn spec_body_record(s: Seq<u8>) -> Parsed<SpecAttribute> {
    match spec_read_counted::<RecordComponentInfo>(s) {
        Parsed::Done(c, k) => Parsed::Done(SpecAttribute::Record { components_count: c.0, components: c.1 }, k),
        Parsed::Fail(e) => Parsed::Fail(e),
        Parsed::Abort => Parsed::Abort,
    }
}

fn read_body_record(context: &mut ReadContext) -> (r: AsmResult<Attribute>)
    requires
        old(context).wf(),
    ensures
        body_result(spec_body_record(old(context).rest()), r),
{
    proof {
        lemma_tables_total();
        lemma_counted_total::<RecordComponentInfo>(context.rest());
    }
    let (components_count, components) = read_counted::<RecordComponentInfo>(context)?;
    proof { assert(record_components_view(components@) =~= components.deep_view()); }
    Ok(Attribute::Record { components_count, components })
}

pub open spec fn spec_body_permitted_subclasses(s: Seq<u8>) -> Parsed<SpecAttribute> {
    match spec_read_counted::<u16>(s) {
        Parsed::Done(c, k) => Parsed::Done(SpecAttribute::PermittedSubclasses { number_of_classes: c.0, classes: c.1 }, k),
        Parsed::Fail(e) => Parsed::Fail(e),
        Parsed::Abort => Parsed::Abort,
    }
}

fn read_body_permitted_subclasses(context: &mut ReadContext) -> (r: AsmResult<Attribute>)
    requires
        old(context).wf(),
    ensures
        body_result(spec_body_permitted_subclasses(old(context).rest()), r),
{
    proof {
        lemma_tables_total();
        lemma_counted_total::<u16>(context.rest());
    }
    let (number_of_classes, classes) = read_counted::<u16>(context)?;
    
    Ok(Attribute::PermittedSubclasses { number_of_classes, classes })
}

pub open spec fn spec_body_constant_value(s: Seq<u8>) -> Parsed<SpecAttribute> {
    if s.len() < 2 {
        Parsed::Fail(AsmErr::OutOfRange)
    } else {
        Parsed::Done(SpecAttribute::ConstantValue { constantvalue_index: be_u16(s[0], s[1]) }, 2)
    }
}

fn read_body_constant_value(context: &mut ReadContext) -> (r: AsmResult<Attribute>)
    requires
        old(context).wf(),
    ensures
        body_result(spec_body_constant_value(old(context).rest()), r),
{
    let constantvalue_index: u16 = context.read()?;
    Ok(Attribute::ConstantValue { constantvalue_index })
}

pub open spec fn spec_body_signature(s: Seq<u8>) -> Parsed<SpecAttribute> {
    if s.len() < 2 {
        Parsed::Fail(AsmErr::OutOfRange)
    } else {
        Parsed::Done(SpecAttribute::Signature { signature_index: be_u16(s[0], s[1]) }, 2)
    }
}

fn read_body_signature(context: &mut ReadContext) -> (r: AsmResult<Attribute>)
    requires
        old(context).wf(),
    ensures
        body_result(spec_body_signature(old(context).rest()), r),
{
    let signature_index: u16 = context.read()?;
    Ok(Attribute::Signature { signature_index })
}

pub open spec fn spec_body_source_file(s: Seq<u8>) -> Parsed<SpecAttribute> {
    if s.len() < 2 {
        Parsed::Fail(AsmErr::OutOfRange)
    } else {
        Parsed::Done(SpecAttribute::SourceFile { sourcefile_index: be_u16(s[0], s[1]) }, 2)
    }
}

fn read_body_source_file(context: &mut ReadContext) -> (r: AsmResult<Attribute>)
    requires
        old(context).wf(),
    ensures
        body_result(spec_body_source_file(old(context).rest()), r),
{
    let sourcefile_index: u16 = context.read()?;
    Ok(Attribute::SourceFile { sourcefile_index })
}

pub open spec fn spec_body_module_main_class(s: Seq<u8>) -> Parsed<SpecAttribute> {
    if s.len() < 2 {
        Parsed::Fail(AsmErr::OutOfRange)
    } else {
        Parsed::Done(SpecAttribute::ModuleMainClass { main_class_index: be_u16(s[0], s[1]) }, 2)
    }
}

fn read_body_module_main_class(context: &mut ReadContext) -> (r: AsmResult<Attribute>)
    requires
        old(context).wf(),
    ensures
        body_result(spec_body_module_main_class(old(context).rest()), r),
{
    let main_class_index: u16 = context.read()?;
    Ok(Attribute::ModuleMainClass { main_class_index })
}

pub open spec fn spec_body_nest_host(s: Seq<u8>) -> Parsed<SpecAttribute> {
    if s.len() < 2 {
        Parsed::Fail(AsmErr::OutOfRange)
    } else {
        Parsed::Done(SpecAttribute::NestHost { host_class_index: be_u16(s[0], s[1]) }, 2)
    }
}

fn read_body_nest_host(context: &mut ReadContext) -> (r: AsmResult<Attribute>)
    requires
        old(context).wf(),
    ensures
        body_result(spec_body_nest_host(old(context).rest()), r),
{
    let host_class_index: u16 = context.read()?;
    Ok(Attribute::NestHost { host_class_index })
}

pub open spec fn spec_body_enclosing_method(s: Seq<u8>) -> Parsed<SpecAttribute> {
    if s.len() < 4 {
        Parsed::Fail(AsmErr::OutOfRange)
    } else {
        Parsed::Done(
            SpecAttribute::EnclosingMethod { class_index: be_u16(s[0], s[1]), method_index: be_u16(s[2], s[3]) },
            4,
        )
    }
}

fn read_body_enclosing_method(context: &mut ReadContext) -> (r: AsmResult<Attribute>)
    requires
        old(context).wf(),
    ensures
        body_result(spec_body_enclosing_method(old(context).rest()), r),
{
    let ghost s = context.rest();
    let class_index: u16 = context.read()?;
    proof {
        assert(context.rest() =~= s.skip(2));
    }
    let method_index: u16 = context.read()?;
    Ok(Attribute::EnclosingMethod { class_index, method_index })
}

/// The debug extension is as many bytes as the attribute's length says.
pub open spec fn spec_body_source_debug_extension(s: Seq<u8>, length: u32) -> Parsed<SpecAttribute> {
    if s.len() < length {
        Parsed::Fail(AsmErr::OutOfRange)
    } else {
        Parsed::Done(SpecAttribute::SourceDebugExtension { debug_extension: s.take(length as int) }, length as nat)
    }
}

fn read_body_source_debug_extension(context: &mut ReadContext, length: u32) -> (r: AsmResult<Attribute>)
    requires
        old(context).wf(),
    ensures
        body_result(spec_body_source_debug_extension(old(context).rest(), length), r),
{
    let debug_extension = read_bytes(context, length as usize)?;
    Ok(Attribute::SourceDebugExtension { debug_extension })
}

/// A `u1` count, then that many parameters.
pub open spec fn spec_body_method_parameters(s: Seq<u8>) -> Parsed<SpecAttribute> {
    if s.len() < 1 {
        Parsed::Fail(AsmErr::OutOfRange)
    } else {
        match spec_read_vec::<MethodParameter>(s.skip(1), s[0] as nat) {
            Parsed::Done(parameters, k) => Parsed::Done(
                SpecAttribute::MethodParameters { parameters_count: s[0], parameters },
                1 + k,
            ),
            Parsed::Fail(e) => Parsed::Fail(e),
            Parsed::Abort => Parsed::Abort,
        }
    }
}

fn read_body_method_parameters(context: &mut ReadContext) -> (r: AsmResult<Attribute>)
    requires
        old(context).wf(),
    ensures
        body_result(spec_body_method_parameters(old(context).rest()), r),
{
    let ghost s = context.rest();
    let parameters_count: u8 = context.read()?;
    proof {
        assert(context.rest() =~= s.skip(1));
        lemma_tables_total();
        lemma_read_vec_total::<MethodParameter>(context.rest(), parameters_count as nat);
    }
    let parameters: Vec<MethodParameter> = context.read_vec(parameters_count as usize)?;
    Ok(Attribute::MethodParameters { parameters_count, parameters })
}

/// The body of a Module attribute: three indices, then five counted tables.
pub open spec fn spec_body_module(s: Seq<u8>) -> Parsed<SpecAttribute> {
    if s.len() < 6 {
        Parsed::Fail(AsmErr::OutOfRange)
    } else {
        match spec_read_counted::<ModuleRequires>(s.skip(6)) {
            Parsed::Done(rq, n1) => {
                let p1: int = 6 + n1 as int;
                match spec_read_counted::<ModuleExports>(s.skip(p1)) {
                    Parsed::Done(ex, n2) => {
                        let p2: int = p1 + n2;
                        match spec_read_counted::<ModuleOpens>(s.skip(p2)) {
                            Parsed::Done(op, n3) => {
                                let p3: int = p2 + n3;
                                match spec_read_counted::<u16>(s.skip(p3)) {
                                    Parsed::Done(us, n4) => {
                                        let p4: int = p3 + n4;
                                        match spec_read_counted::<ModuleProvides>(s.skip(p4)) {
                                            Parsed::Done(pr, n5) => Parsed::Done(
                                                SpecAttribute::Module {
                                                    module_name_index: be_u16(s[0], s[1]),
                                                    module_flags: be_u16(s[2], s[3]),
                                                    module_version_index: be_u16(s[4], s[5]),
                                                    requires_count: rq.0,
                                                    module_requires: rq.1,
                                                    exports_count: ex.0,
                                                    exports: ex.1,
                                                    opens_count: op.0,
                                                    opens: op.1,
                                                    uses_count: us.0,
                                                    uses_index: us.1,
                                                    provides_count: pr.0,
                                                    provides: pr.1,
                                                },
                                                (p4 + n5) as nat,
                                            ),
                                            Parsed::Fail(e) => Parsed::Fail(e),
                                            Parsed::Abort => Parsed::Abort,
                                        }
                                    },
                                    Parsed::Fail(e) => Parsed::Fail(e),
                                    Parsed::Abort => Parsed::Abort,
                                }
                            },
                            Parsed::Fail(e) => Parsed::Fail(e),
                            Parsed::Abort => Parsed::Abort,
                        }
                    },
                    Parsed::Fail(e) => Parsed::Fail(e),
                    Parsed::Abort => Parsed::Abort,
                }
            },
            Parsed::Fail(e) => Parsed::Fail(e),
            Parsed::Abort => Parsed::Abort,
        }
    }
}

fn read_body_module(context: &mut ReadContext) -> (r: AsmResult<Attribute>)
    requires
        old(context).wf(),
    ensures
        body_result(spec_body_module(old(context).rest()), r),
{
    let ghost s = context.rest();
    let ghost start = context.index;
    proof {
        lemma_tables_total();
    }
    let module_name_index: u16 = context.read()?;
    let module_flags: u16 = context.read()?;
    let module_version_index: u16 = context.read()?;
    proof {
        assert(context.rest() =~= s.skip(6));
        lemma_counted_total::<ModuleRequires>(context.rest());
    }
    let (requires_count, module_requires) = read_counted::<ModuleRequires>(context)?;
    proof {
        assert(context.rest() =~= s.skip(context.index - start));
        lemma_counted_total::<ModuleExports>(context.rest());
    }
    let (exports_count, exports) = read_counted::<ModuleExports>(context)?;
    proof {
        assert(context.rest() =~= s.skip(context.index - start));
        lemma_counted_total::<ModuleOpens>(context.rest());
    }
    let (opens_count, opens) = read_counted::<ModuleOpens>(context)?;
    proof {
        assert(context.rest() =~= s.skip(context.index - start));
        lemma_counted_total::<u16>(context.rest());
    }
    let (uses_count, uses_index) = read_counted::<u16>(context)?;
    proof {
        assert(context.rest() =~= s.skip(context.index - start));
        lemma_counted_total::<ModuleProvides>(context.rest());
    }
    let (provides_count, provides) = read_counted::<ModuleProvides>(context)?;
    Ok(Attribute::Module {
        module_name_index,
        module_flags,
        module_version_index,
        requires_count,
        module_requires,
        exports_count,
        exports,
        opens_count,
        opens,
        uses_count,
        uses_index,
        provides_count,
        provides,
    })
}

/// A counted list of annotations, visible at run time or not.
pub open spec fn spec_body_annotations(s: Seq<u8>, visible: bool) -> Parsed<SpecAttribute> {
    match spec_read_counted::<AnnotationInfo>(s) {
        Parsed::Done(c, k) => Parsed::Done(
            if visible {
                SpecAttribute::RuntimeVisibleAnnotations { num_annotations: c.0, annotations: c.1 }
            } else {
                SpecAttribute::RuntimeInvisibleAnnotations { num_annotations: c.0, annotations: c.1 }
            },
            k,
        ),
        Parsed::Fail(e) => Parsed::Fail(e),
        Parsed::Abort => Parsed::Abort,
    }
}

fn read_body_annotations(context: &mut ReadContext, visible: bool) -> (r: AsmResult<Attribute>)
    requires
        old(context).wf(),
    ensures
        body_result(spec_body_annotations(old(context).rest(), visible), r),
{
    proof {
        lemma_annotations_total();
        lemma_counted_total::<AnnotationInfo>(context.rest());
    }
    let (num_annotations, annotations) = read_counted::<AnnotationInfo>(context)?;
    proof {
        assert(annotations.deep_view() =~= annotations_view(annotations@));
    }
    if visible {
        Ok(Attribute::RuntimeVisibleAnnotations { num_annotations, annotations })
    } else {
        Ok(Attribute::RuntimeInvisibleAnnotations { num_annotations, annotations })
    }
}

/// A `u1` count of parameters, then the annotations of each, visible at run time or not.
pub open spec fn spec_body_parameter_annotations(s: Seq<u8>, visible: bool) -> Parsed<SpecAttribute> {
    if s.len() < 1 {
        Parsed::Fail(AsmErr::OutOfRange)
    } else {
        match spec_read_vec::<ParameterAnnotationInfo>(s.skip(1), s[0] as nat) {
            Parsed::Done(ps, k) => Parsed::Done(
                if visible {
                    SpecAttribute::RuntimeVisibleParameterAnnotations { num_parameters: s[0], parameter_annotations: ps }
                } else {
                    SpecAttribute::RuntimeInvisibleParameterAnnotations { num_parameters: s[0], parameter_annotations: ps }
                },
                1 + k,
            ),
            Parsed::Fail(e) => Parsed::Fail(e),
            Parsed::Abort => Parsed::Abort,
        }
    }
}

fn read_body_parameter_annotations(context: &mut ReadContext, visible: bool) -> (r: AsmResult<Attribute>)
    requires
        old(context).wf(),
    ensures
        body_result(spec_body_parameter_annotations(old(context).rest(), visible), r),
{
    let ghost s = context.rest();
    let num_parameters: u8 = context.read()?;
    proof {
        assert(context.rest() =~= s.skip(1));
        lemma_parameter_annotations_total();
        lemma_read_vec_total::<ParameterAnnotationInfo>(context.rest(), num_parameters as nat);
    }
    let parameter_annotations = context.read_vec::<ParameterAnnotationInfo>(num_parameters as usize)?;
    proof {
        assert(parameter_annotations.deep_view() =~= parameter_annotations_view(parameter_annotations@));
    }
    if visible {
        Ok(Attribute::RuntimeVisibleParameterAnnotations { num_parameters, parameter_annotations })
    } else {
        Ok(Attribute::RuntimeInvisibleParameterAnnotations { num_parameters, parameter_annotations })
    }
}

/// A counted list of type annotations, visible at run time or not.
pub open spec fn spec_body_type_annotations(s: Seq<u8>, visible: bool) -> Parsed<SpecAttribute> {
    match spec_read_counted::<TypeAnnotation>(s) {
        Parsed::Done(c, k) => Parsed::Done(
            if visible {
                SpecAttribute::RuntimeVisibleTypeAnnotations { num_parameters: c.0, annotations: c.1 }
            } else {
                SpecAttribute::RuntimeInvisibleTypeAnnotations { num_parameters: c.0, annotations: c.1 }
            },
            k,
        ),
        Parsed::Fail(e) => Parsed::Fail(e),
        Parsed::Abort => Parsed::Abort,
    }
}

fn read_body_type_annotations(context: &mut ReadContext, visible: bool) -> (r: AsmResult<Attribute>)
    requires
        old(context).wf(),
    ensures
        body_result(spec_body_type_annotations(old(context).rest(), visible), r),
{
    proof {
        lemma_type_annotations_total();
        lemma_counted_total::<TypeAnnotation>(context.rest());
    }
    let (num_parameters, annotations) = read_counted::<TypeAnnotation>(context)?;
    proof {
        assert(annotations.deep_view() =~= type_annotations_view(annotations@));
    }
    if visible {
        Ok(Attribute::RuntimeVisibleTypeAnnotations { num_parameters, annotations })
    } else {
        Ok(Attribute::RuntimeInvisibleTypeAnnotations { num_parameters, annotations })
    }
}

/// The default value of an annotation element: one element value.
pub open spec fn spec_body_annotation_default(s: Seq<u8>) -> Parsed<SpecAttribute> {
    match spec_read_element_value(s) {
        Parsed::Done(v, k) => Parsed::Done(SpecAttribute::AnnotationDefault { default_value: v }, k),
        Parsed::Fail(e) => Parsed::Fail(e),
        Parsed::Abort => Parsed::Abort,
    }
}

fn read_body_annotation_default(context: &mut ReadContext) -> (r: AsmResult<Attribute>)
    requires
        old(context).wf(),
    ensures
        body_result(spec_body_annotation_default(old(context).rest()), r),
{
    proof {
        lemma_element_value_total(context.rest());
    }
    let ghost len = context.rest().len();
    let default_value = read_element_value(context, Ghost(len))?;
    Ok(Attribute::AnnotationDefault { default_value })
}

/// What reading the body of an attribute named `name`, other than `Code`, gives. A body
/// whose name is not one of these stays bytes.
pub open spec fn spec_attribute_body(name: Seq<char>, s: Seq<u8>, length: u32) -> Parsed<SpecAttribute> {
    if name == "ConstantValue"@ {
        spec_body_constant_value(s)
    } else if name == "StackMapTable"@ {
        spec_body_stack_map_table(s)
    } else if name == "Exceptions"@ {
        spec_body_exceptions(s)
    } else if name == "InnerClasses"@ {
        spec_body_inner_classes(s)
    } else if name == "EnclosingMethod"@ {
        spec_body_enclosing_method(s)
    } else if name == "Synthetic"@ {
        Parsed::Done(SpecAttribute::Synthetic, 0)
    } else if name == "Signature"@ {
        spec_body_signature(s)
    } else if name == "SourceFile"@ {
        spec_body_source_file(s)
    } else if name == "SourceDebugExtension"@ {
        spec_body_source_debug_extension(s, length)
    } else if name == "LineNumberTable"@ {
        spec_body_line_number_table(s)
    } else if name == "LocalVariableTable"@ {
        spec_body_local_variable_table(s)
    } else if name == "LocalVariableTypeTable"@ {
        spec_body_local_variable_type_table(s)
    } else if name == "Deprecated"@ {
        Parsed::Done(SpecAttribute::Deprecated, 0)
    } else if name == "BootstrapMethods"@ {
        spec_body_bootstrap_methods(s)
    } else if name == "MethodParameters"@ {
        spec_body_method_parameters(s)
    } else if name == "Module"@ {
        spec_body_module(s)
    } else if name == "ModulePackages"@ {
        spec_body_module_packages(s)
    } else if name == "ModuleMainClass"@ {
        spec_body_module_main_class(s)
    } else if name == "NestHost"@ {
        spec_body_nest_host(s)
    } else if name == "NestMembers"@ {
        spec_body_nest_members(s)
    } else if name == "Record"@ {
        spec_body_record(s)
    } else if name == "PermittedSubclasses"@ {
        spec_body_permitted_subclasses(s)
    } else if name == "RuntimeVisibleAnnotations"@ {
        spec_body_annotations(s, true)
    } else if name == "RuntimeInvisibleAnnotations"@ {
        spec_body_annotations(s, false)
    } else if name == "RuntimeVisibleParameterAnnotations"@ {
        spec_body_parameter_annotations(s, true)
    } else if name == "RuntimeInvisibleParameterAnnotations"@ {
        spec_body_parameter_annotations(s, false)
    } else if name == "RuntimeVisibleTypeAnnotations"@ {
        spec_body_type_annotations(s, true)
    } else if name == "RuntimeInvisibleTypeAnnotations"@ {
        spec_body_type_annotations(s, false)
    } else if name == "AnnotationDefault"@ {
        spec_body_annotation_default(s)
    } else {
        Parsed::Done(SpecAttribute::Custom(s), 0)
    }
}

/// Reads the body `bytes` of an attribute named `name`, other than `Code`. A body whose
/// name is not known stays bytes.
pub fn read_attribute_body(name: &str, bytes: Vec<u8>, length: u32) -> (r: AsmResult<Attribute>)
    ensures
        body_result(spec_attribute_body(name@, bytes@, length), r),
{
    let mut context = ReadContext::big_endian(bytes.as_slice());
    proof {
        assert(context.rest() =~= bytes@);
    }
    if crate::util::str_eq(name, "ConstantValue") {
        read_body_constant_value(&mut context)
    } else if crate::util::str_eq(name, "StackMapTable") {
        read_body_stack_map_table(&mut context)
    } else if crate::util::str_eq(name, "Exceptions") {
        read_body_exceptions(&mut context)
    } else if crate::util::str_eq(name, "InnerClasses") {
        read_body_inner_classes(&mut context)
    } else if crate::util::str_eq(name, "EnclosingMethod") {
        read_body_enclosing_method(&mut context)
    } else if crate::util::str_eq(name, "Synthetic") {
        Ok(Attribute::Synthetic)
    } else if crate::util::str_eq(name, "Signature") {
        read_body_signature(&mut context)
    } else if crate::util::str_eq(name, "SourceFile") {
        read_body_source_file(&mut context)
    } else if crate::util::str_eq(name, "SourceDebugExtension") {
        read_body_source_debug_extension(&mut context, length)
    } else if crate::util::str_eq(name, "LineNumberTable") {
        read_body_line_number_table(&mut context)
    } else if crate::util::str_eq(name, "LocalVariableTable") {
        read_body_local_variable_table(&mut context)
    } else if crate::util::str_eq(name, "LocalVariableTypeTable") {
        read_body_local_variable_type_table(&mut context)
    } else if crate::util::str_eq(name, "Deprecated") {
        Ok(Attribute::Deprecated)
    } else if crate::util::str_eq(name, "BootstrapMethods") {
        read_body_bootstrap_methods(&mut context)
    } else if crate::util::str_eq(name, "MethodParameters") {
        read_body_method_parameters(&mut context)
    } else if crate::util::str_eq(name, "Module") {
        read_body_module(&mut context)
    } else if crate::util::str_eq(name, "ModulePackages") {
        read_body_module_packages(&mut context)
    } else if crate::util::str_eq(name, "ModuleMainClass") {
        read_body_module_main_class(&mut context)
    } else if crate::util::str_eq(name, "NestHost") {
        read_body_nest_host(&mut context)
    } else if crate::util::str_eq(name, "NestMembers") {
        read_body_nest_members(&mut context)
    } else if crate::util::str_eq(name, "Record") {
        read_body_record(&mut context)
    } else if crate::util::str_eq(name, "PermittedSubclasses") {
        read_body_permitted_subclasses(&mut context)
    } else if crate::util::str_eq(name, "RuntimeVisibleAnnotations") {
        read_body_annotations(&mut context, true)
    } else if crate::util::str_eq(name, "RuntimeInvisibleAnnotations") {
        read_body_annotations(&mut context, false)
    } else if crate::util::str_eq(name, "RuntimeVisibleParameterAnnotations") {
        read_body_parameter_annotations(&mut context, true)
    } else if crate::util::str_eq(name, "RuntimeInvisibleParameterAnnotations") {
        read_body_parameter_annotations(&mut context, false)
    } else if crate::util::str_eq(name, "RuntimeVisibleTypeAnnotations") {
        read_body_type_annotations(&mut context, true)
    } else if crate::util::str_eq(name, "RuntimeInvisibleTypeAnnotations") {
        read_body_type_annotations(&mut context, false)
    } else if crate::util::str_eq(name, "AnnotationDefault") {
        read_body_annotation_default(&mut context)
    } else {
        proof {
            assert(context.rest() =~= bytes@);
        }
        Ok(Attribute::Custom(bytes))
    }
}

} // verus!
