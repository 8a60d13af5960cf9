//! Turning a class file into the node view: names resolved from the constant pool.

use crate::err::{AsmErr, AsmResult, ConstKind};
use crate::jvms::attr::annotation::{
    annotations_view, annotation_view, element_value_info_view, element_value_infos_view, element_view, elements_view,
    target_info_view, type_annotation_view, type_annotations_view, AnnotationElement, AnnotationElementValue,
    AnnotationElementValueInfo, AnnotationInfo, SpecAnnotationElement, SpecAnnotationElementValue,
    SpecAnnotationElementValueInfo, SpecAnnotationInfo, SpecTypeAnnotation, TypeAnnotation, TypeAnnotationTargetInfo,
    TypeAnnotationTargetPath,
};
use crate::jvms::attr::module::{
    ModuleExports, ModuleOpens, ModuleProvides, ModuleRequires, SpecModuleExports, SpecModuleOpens, SpecModuleProvides,
};
use crate::jvms::attr::{
    MethodParameter, attribute_info_view, attribute_infos_view, attribute_view, record_components_view, Attribute, InnerClassInfo, RecordComponentInfo, SpecAttribute,
    SpecRecordComponentInfo,
};
use crate::jvms::element::{AttributeInfo, CPInfo, ClassFile, FieldInfo, MethodInfo, SpecAttributeInfo, SpecCPInfo, SpecClassFile, SpecConst, SpecMemberInfo};
use crate::jvms::read::class_reader::{spec_read_class_bytes, JvmsClassReader};
use crate::jvms::read::transform::{outcome_option, outcome_result, Outcome};
use crate::mutf8::{spec_mutf8_to_string, try_mutf8_to_string};
use crate::node::const_reader::{
    lemma_resolve_name_and_type_entry, lemma_resolve_names, lemma_resolve_numbers,
    as_class, as_module, as_name_and_type, as_package, as_utf8, class_entry, name_and_type_entry, utf8_entry, spec_resolve, try_resolve, try_resolve_class, try_resolve_name_and_type,
    try_resolve_utf8,
};
use crate::node::element::{
    opt_view, ClassNode, FieldInitialValue, FieldNode, InnerClassNode, MethodNode, ModuleExportNode, ModuleNode,
    ModuleOpenNode, ModuleProvides as ModuleProvidesNode, ModuleRequireNode, NodeReader, SpecModuleExportNode,
    annotation_node_view, annotation_nodes_view, annotation_values_view, annotation_value_view, pair_view, pairs_view,
    type_annotation_node_view, type_annotation_nodes_view, ParameterNode, SpecParameterNode, AnnotationNode, AnnotationValue, RecordComponentNode,
    SpecAnnotationNode, SpecAnnotationValue, SpecModuleNode, SpecTypeAnnotationNode, TypeAnnotationNode, SpecModuleProvidesNode, SpecModuleRequireNode, SpecRecordComponentNode, SpecClassNode, SpecFieldInitialValue,
    SpecFieldNode, SpecInnerClassNode, SpecMethodNode, SpecUnknownAttribute, UnknownAttribute,
};
use crate::node::values::{ConstValue, SpecConstValue};
use vstd::prelude::*;

verus! {

/// The string of the entry at `index` of `cp`, resolved with the size of the pool as fuel.
pub open spec fn res_utf8(cp: Seq<SpecCPInfo>, index: u16) -> Outcome<Seq<char>> {
    as_utf8(spec_resolve(cp, index, cp.len()), index)
}

/// Reads the string of the entry at `index`, as [res_utf8] says.
fn read_utf8(cp: &Vec<CPInfo>, index: u16) -> (r: Option<AsmResult<String>>)
    ensures
        match res_utf8(cp.deep_view(), index) {
            Outcome::Value(v) => r matches Some(Ok(x)) && x@ == v,
            Outcome::Error(e) => r == Some(Err::<String, AsmErr>(e)),
            Outcome::Panic => r is None,
        },
{
    try_resolve_utf8(cp, index, cp.len())
}

/// What `s` gives when each item is turned by `f`, first to last; it stops at the first
/// error or panic.
pub open spec fn map_outcome<A, B>(s: Seq<A>, f: spec_fn(A) -> Outcome<B>) -> Outcome<Seq<B>>
    decreases s.len(),
{
    if s.len() == 0 {
        Outcome::Value(Seq::empty())
    } else {
        match map_outcome(s.drop_last(), f) {
            Outcome::Value(vs) => match f(s.last()) {
                Outcome::Value(v) => Outcome::Value(vs.push(v)),
                Outcome::Error(e) => Outcome::Error(e),
                Outcome::Panic => Outcome::Panic,
            },
            Outcome::Error(e) => Outcome::Error(e),
            Outcome::Panic => Outcome::Panic,
        }
    }
}

/// Once a prefix stops, the whole list stops the same way.
pub proof fn lemma_map_outcome_stuck<A, B>(s: Seq<A>, f: spec_fn(A) -> Outcome<B>, i: int, n: int)
    requires
        0 <= i <= n <= s.len(),
        !(map_outcome(s.take(i), f) is Value),
    ensures
        map_outcome(s.take(n), f) == map_outcome(s.take(i), f),
    decreases n - i,
{
    if i < n {
        lemma_map_outcome_stuck(s, f, i, n - 1);
        assert(s.take(n).drop_last() =~= s.take(n - 1));
    }
}

/// The name of the class that the entry at `index` of `cp` names.
pub open spec fn res_class(cp: Seq<SpecCPInfo>, index: u16) -> Outcome<Seq<char>> {
    as_class(spec_resolve(cp, index, cp.len()), index)
}

/// Reads a class name, as [res_class] says.
pub open spec fn class_name_fn(cp: Seq<SpecCPInfo>) -> spec_fn(u16) -> Outcome<Seq<char>> {
    |i: u16| res_class(cp, i)
}

/// The class name at `index`, or `None` where `index` is zero.
pub open spec fn opt_class(cp: Seq<SpecCPInfo>, index: u16) -> Outcome<Option<Seq<char>>> {
    if index == 0 {
        Outcome::Value(None)
    } else {
        match res_class(cp, index) {
            Outcome::Value(v) => Outcome::Value(Some(v)),
            Outcome::Error(e) => Outcome::Error(e),
            Outcome::Panic => Outcome::Panic,
        }
    }
}

/// The string at `index`, or `None` where `index` is zero.
pub open spec fn opt_utf8(cp: Seq<SpecCPInfo>, index: u16) -> Outcome<Option<Seq<char>>> {
    if index == 0 {
        Outcome::Value(None)
    } else {
        match res_utf8(cp, index) {
            Outcome::Value(v) => Outcome::Value(Some(v)),
            Outcome::Error(e) => Outcome::Error(e),
            Outcome::Panic => Outcome::Panic,
        }
    }
}

/// An inner class in the node view: its name, then the class it is a member of, then its
/// simple name.
pub open spec fn spec_inner_class(cp: Seq<SpecCPInfo>, c: InnerClassInfo) -> Outcome<SpecInnerClassNode> {
    match res_class(cp, c.inner_class_info_index) {
        Outcome::Value(name) => match opt_class(cp, c.outer_class_info_index) {
            Outcome::Value(outer_name) => match opt_utf8(cp, c.inner_name_index) {
                Outcome::Value(inner_name) => Outcome::Value(
                    SpecInnerClassNode { name, outer_name, inner_name, access: c.inner_class_access_flags },
                ),
                Outcome::Error(e) => Outcome::Error(e),
                Outcome::Panic => Outcome::Panic,
            },
            Outcome::Error(e) => Outcome::Error(e),
            Outcome::Panic => Outcome::Panic,
        },
        Outcome::Error(e) => Outcome::Error(e),
        Outcome::Panic => Outcome::Panic,
    }
}

/// Reads an inner class, as [spec_inner_class] says.
pub open spec fn inner_class_fn(cp: Seq<SpecCPInfo>) -> spec_fn(InnerClassInfo) -> Outcome<SpecInnerClassNode> {
    |c: InnerClassInfo| spec_inner_class(cp, c)
}

/// The name of the module (`package` false) or package (`package` true) that the entry
/// at `index` of `cp` names.
pub open spec fn res_mp(cp: Seq<SpecCPInfo>, index: u16, package: bool) -> Outcome<Seq<char>> {
    if package {
        as_package(spec_resolve(cp, index, cp.len()), index)
    } else {
        as_module(spec_resolve(cp, index, cp.len()), index)
    }
}

/// Reads a module or package name, as [res_mp] says.
pub open spec fn mp_name_fn(cp: Seq<SpecCPInfo>, package: bool) -> spec_fn(u16) -> Outcome<Seq<char>> {
    |i: u16| res_mp(cp, i, package)
}

/// A module that a module requires: its name, then its version (`None` where the index
/// is zero).
pub open spec fn spec_require(cp: Seq<SpecCPInfo>, r: ModuleRequires) -> Outcome<SpecModuleRequireNode> {
    match res_mp(cp, r.requires_index, false) {
        Outcome::Value(module) => match opt_utf8(cp, r.requires_version_index) {
            Outcome::Value(version) => Outcome::Value(
                SpecModuleRequireNode { module, access: r.requires_flags, version },
            ),
            Outcome::Error(e) => Outcome::Error(e),
            Outcome::Panic => Outcome::Panic,
        },
        Outcome::Error(e) => Outcome::Error(e),
        Outcome::Panic => Outcome::Panic,
    }
}

/// A package that a module exports or opens: the package, then the modules it is
/// exported or opened to.
pub open spec fn spec_export(cp: Seq<SpecCPInfo>, package_index: u16, flags: u16, to: Seq<u16>) -> Outcome<
    SpecModuleExportNode,
> {
    match res_mp(cp, package_index, true) {
        Outcome::Value(package) => match map_outcome(to, mp_name_fn(cp, false)) {
            Outcome::Value(modules) => Outcome::Value(SpecModuleExportNode { package, access: flags, modules }),
            Outcome::Error(e) => Outcome::Error(e),
            Outcome::Panic => Outcome::Panic,
        },
        Outcome::Error(e) => Outcome::Error(e),
        Outcome::Panic => Outcome::Panic,
    }
}

/// A service that a module provides: the service, then its implementations.
pub open spec fn spec_provide(cp: Seq<SpecCPInfo>, p: SpecModuleProvides) -> Outcome<SpecModuleProvidesNode> {
    match res_class(cp, p.provides_index) {
        Outcome::Value(service) => match map_outcome(p.provides_with_index, class_name_fn(cp)) {
            Outcome::Value(providers) => Outcome::Value(SpecModuleProvidesNode { service, providers }),
            Outcome::Error(e) => Outcome::Error(e),
            Outcome::Panic => Outcome::Panic,
        },
        Outcome::Error(e) => Outcome::Error(e),
        Outcome::Panic => Outcome::Panic,
    }
}

/// Reads a required module, as [spec_require] says.
pub open spec fn require_fn(cp: Seq<SpecCPInfo>) -> spec_fn(ModuleRequires) -> Outcome<SpecModuleRequireNode> {
    |r: ModuleRequires| spec_require(cp, r)
}

/// Reads an exported package, as [spec_export] says.
pub open spec fn export_fn(cp: Seq<SpecCPInfo>) -> spec_fn(SpecModuleExports) -> Outcome<SpecModuleExportNode> {
    |e: SpecModuleExports| spec_export(cp, e.exports_index, e.exports_flags, e.exports_to_index)
}

/// Reads an opened package, as [spec_export] says.
pub open spec fn open_fn(cp: Seq<SpecCPInfo>) -> spec_fn(SpecModuleOpens) -> Outcome<SpecModuleExportNode> {
    |o: SpecModuleOpens| spec_export(cp, o.opens_index, o.opens_flags, o.opens_to_index)
}

/// Reads a provided service, as [spec_provide] says.
pub open spec fn provide_fn(cp: Seq<SpecCPInfo>) -> spec_fn(SpecModuleProvides) -> Outcome<SpecModuleProvidesNode> {
    |p: SpecModuleProvides| spec_provide(cp, p)
}

/// The parts of a module that its own attribute gives, read in the order of its table:
/// its name, version, requires, exports, opens, uses and provides. Its main class and
/// packages come from other attributes and are left empty here.
pub open spec fn spec_module(
    cp: Seq<SpecCPInfo>,
    name_index: u16,
    flags: u16,
    version_index: u16,
    required: Seq<ModuleRequires>,
    exports: Seq<SpecModuleExports>,
    opens: Seq<SpecModuleOpens>,
    uses: Seq<u16>,
    provides: Seq<SpecModuleProvides>,
) -> Outcome<SpecModuleNode> {
    match res_mp(cp, name_index, false) {
        Outcome::Value(name) => match opt_utf8(cp, version_index) {
            Outcome::Value(version) => match map_outcome(required, require_fn(cp)) {
                Outcome::Value(rs) => match map_outcome(exports, export_fn(cp)) {
                    Outcome::Value(es) => match map_outcome(opens, open_fn(cp)) {
                        Outcome::Value(os) => match map_outcome(uses, class_name_fn(cp)) {
                            Outcome::Value(us) => match map_outcome(provides, provide_fn(cp)) {
                                Outcome::Value(ps) => Outcome::Value(
                                    SpecModuleNode {
                                        name,
                                        access: flags,
                                        version,
                                        main_class: None,
                                        packages: Seq::empty(),
                                        requires: rs,
                                        exports: es,
                                        opens: os,
                                        uses: us,
                                        provides: ps,
                                    },
                                ),
                                Outcome::Error(e) => Outcome::Error(e),
                                Outcome::Panic => Outcome::Panic,
                            },
                            Outcome::Error(e) => Outcome::Error(e),
                            Outcome::Panic => Outcome::Panic,
                        },
                        Outcome::Error(e) => Outcome::Error(e),
                        Outcome::Panic => Outcome::Panic,
                    },
                    Outcome::Error(e) => Outcome::Error(e),
                    Outcome::Panic => Outcome::Panic,
                },
                Outcome::Error(e) => Outcome::Error(e),
                Outcome::Panic => Outcome::Panic,
            },
            Outcome::Error(e) => Outcome::Error(e),
            Outcome::Panic => Outcome::Panic,
        },
        Outcome::Error(e) => Outcome::Error(e),
        Outcome::Panic => Outcome::Panic,
    }
}

/// An annotation in the node view: the descriptor of its type, then its element-value
/// pairs, first to last; `visible` says whether it is visible at run time, and holds for
/// the annotations nested in it too.
pub open spec fn spec_annotation(cp: Seq<SpecCPInfo>, a: SpecAnnotationInfo, visible: bool) -> Outcome<SpecAnnotationNode>
    decreases a,
{
    match res_utf8(cp, a.type_index) {
        Outcome::Value(desc) => match spec_pairs(cp, a.element_value_pairs, visible) {
            Outcome::Value(values) => Outcome::Value(SpecAnnotationNode { visible, desc, values }),
            Outcome::Error(e) => Outcome::Error(e),
            Outcome::Panic => Outcome::Panic,
        },
        Outcome::Error(e) => Outcome::Error(e),
        Outcome::Panic => Outcome::Panic,
    }
}

/// The element-value pairs `s` in the node view, first to last.
pub open spec fn spec_pairs(cp: Seq<SpecCPInfo>, s: Seq<SpecAnnotationElement>, visible: bool) -> Outcome<
    Seq<(Seq<char>, SpecAnnotationValue)>,
>
    decreases s,
{
    if s.len() == 0 {
        Outcome::Value(Seq::empty())
    } else {
        match spec_pairs(cp, s.subrange(0, s.len() - 1), visible) {
            Outcome::Value(vs) => match spec_pair(cp, s[s.len() - 1], visible) {
                Outcome::Value(v) => Outcome::Value(vs.push(v)),
                Outcome::Error(e) => Outcome::Error(e),
                Outcome::Panic => Outcome::Panic,
            },
            Outcome::Error(e) => Outcome::Error(e),
            Outcome::Panic => Outcome::Panic,
        }
    }
}

/// An element-value pair in the node view: the element's name, then its value.
pub open spec fn spec_pair(cp: Seq<SpecCPInfo>, e: SpecAnnotationElement, visible: bool) -> Outcome<
    (Seq<char>, SpecAnnotationValue),
>
    decreases e,
{
    match res_utf8(cp, e.element_name_index) {
        Outcome::Value(name) => match spec_annotation_value(cp, e.value, visible) {
            Outcome::Value(v) => Outcome::Value((name, v)),
            Outcome::Error(e) => Outcome::Error(e),
            Outcome::Panic => Outcome::Panic,
        },
        Outcome::Error(e) => Outcome::Error(e),
        Outcome::Panic => Outcome::Panic,
    }
}

/// An element value in the node view: a constant resolved from the pool; an enum
/// constant's type descriptor and name; a class's return descriptor; a nested annotation;
/// or an array of values, first to last.
pub open spec fn spec_annotation_value(cp: Seq<SpecCPInfo>, v: SpecAnnotationElementValueInfo, visible: bool) -> Outcome<
    SpecAnnotationValue,
>
    decreases v,
{
    match v.value {
        SpecAnnotationElementValue::Const { const_value_index } => match spec_resolve(
            cp,
            const_value_index,
            cp.len(),
        ) {
            Outcome::Value(c) => Outcome::Value(SpecAnnotationValue::Const(c)),
            Outcome::Error(e) => Outcome::Error(e),
            Outcome::Panic => Outcome::Panic,
        },
        SpecAnnotationElementValue::EnumConst { type_name_index, const_name_index } => match res_utf8(
            cp,
            type_name_index,
        ) {
            Outcome::Value(t) => match res_utf8(cp, const_name_index) {
                Outcome::Value(n) => Outcome::Value(SpecAnnotationValue::Enum(t, n)),
                Outcome::Error(e) => Outcome::Error(e),
                Outcome::Panic => Outcome::Panic,
            },
            Outcome::Error(e) => Outcome::Error(e),
            Outcome::Panic => Outcome::Panic,
        },
        SpecAnnotationElementValue::Class { class_info_index } => match res_utf8(cp, class_info_index) {
            Outcome::Value(c) => Outcome::Value(SpecAnnotationValue::Class(c)),
            Outcome::Error(e) => Outcome::Error(e),
            Outcome::Panic => Outcome::Panic,
        },
        SpecAnnotationElementValue::Annotation { annotation_value } => match spec_annotation(
            cp,
            annotation_value,
            visible,
        ) {
            Outcome::Value(a) => Outcome::Value(SpecAnnotationValue::Annotation(a)),
            Outcome::Error(e) => Outcome::Error(e),
            Outcome::Panic => Outcome::Panic,
        },
        SpecAnnotationElementValue::Array { values, .. } => match spec_annotation_values(cp, values, visible) {
            Outcome::Value(vs) => Outcome::Value(SpecAnnotationValue::Array(vs)),
            Outcome::Error(e) => Outcome::Error(e),
            Outcome::Panic => Outcome::Panic,
        },
    }
}

/// The element values `s` in the node view, first to last.
pub open spec fn spec_annotation_values(cp: Seq<SpecCPInfo>, s: Seq<SpecAnnotationElementValueInfo>, visible: bool) -> Outcome<
    Seq<SpecAnnotationValue>,
>
    decreases s,
{
    if s.len() == 0 {
        Outcome::Value(Seq::empty())
    } else {
        match spec_annotation_values(cp, s.subrange(0, s.len() - 1), visible) {
            Outcome::Value(vs) => match spec_annotation_value(cp, s[s.len() - 1], visible) {
                Outcome::Value(v) => Outcome::Value(vs.push(v)),
                Outcome::Error(e) => Outcome::Error(e),
                Outcome::Panic => Outcome::Panic,
            },
            Outcome::Error(e) => Outcome::Error(e),
            Outcome::Panic => Outcome::Panic,
        }
    }
}

/// A type annotation in the node view: its target as it stands, and its annotation, read
/// as [spec_annotation] says.
pub open spec fn spec_type_annotation(cp: Seq<SpecCPInfo>, t: SpecTypeAnnotation, visible: bool) -> Outcome<
    SpecTypeAnnotationNode,
> {
    match spec_annotation(
        cp,
        SpecAnnotationInfo {
            type_index: t.type_index,
            num_element_value_pairs: t.num_element_value_pairs,
            element_value_pairs: t.element_value_pairs,
        },
        visible,
    ) {
        Outcome::Value(a) => Outcome::Value(
            SpecTypeAnnotationNode {
                target_type: t.target_type,
                target_info: t.target_info,
                target_path: t.target_path,
                annotation_node: a,
            },
        ),
        Outcome::Error(e) => Outcome::Error(e),
        Outcome::Panic => Outcome::Panic,
    }
}

/// Reads a type annotation, as [spec_type_annotation] says.
pub open spec fn type_annotation_fn(cp: Seq<SpecCPInfo>, visible: bool) -> spec_fn(SpecTypeAnnotation) -> Outcome<
    SpecTypeAnnotationNode,
> {
    |t: SpecTypeAnnotation| spec_type_annotation(cp, t, visible)
}

/// Reads an annotation, as [spec_annotation] says.
pub open spec fn annotation_fn(cp: Seq<SpecCPInfo>, visible: bool) -> spec_fn(SpecAnnotationInfo) -> Outcome<SpecAnnotationNode> {
    |a: SpecAnnotationInfo| spec_annotation(cp, a, visible)
}

/// What the attributes of a record component give to its node view: its signature, the
/// attributes it has beside those below, its annotations and its type annotations.
pub type SpecComponentAttrs = (
    Option<Seq<char>>,
    Seq<SpecUnknownAttribute>,
    Seq<SpecAnnotationNode>,
    Seq<SpecTypeAnnotationNode>,
);

/// What a scan of attributes keeps for a record component, for the attribute `a` at
/// position `pos`: a signature replaces what came before; annotations and type
/// annotations are added; an attribute that the node view does not read is kept under
/// its name.
pub open spec fn component_attr_step(cp: Seq<SpecCPInfo>, acc: SpecComponentAttrs, a: SpecAttributeInfo, pos: int) -> Outcome<
    SpecComponentAttrs,
> {
    match a.info {
        SpecAttribute::Signature { signature_index } => match res_utf8(cp, signature_index) {
            Outcome::Value(v) => Outcome::Value((Some(v), acc.1, acc.2, acc.3)),
            Outcome::Error(e) => Outcome::Error(e),
            Outcome::Panic => Outcome::Panic,
        },
        SpecAttribute::RuntimeVisibleAnnotations { annotations, .. } => match map_outcome(
            annotations,
            annotation_fn(cp, true),
        ) {
            Outcome::Value(vs) => Outcome::Value((acc.0, acc.1, acc.2 + vs, acc.3)),
            Outcome::Error(e) => Outcome::Error(e),
            Outcome::Panic => Outcome::Panic,
        },
        SpecAttribute::RuntimeInvisibleAnnotations { annotations, .. } => match map_outcome(
            annotations,
            annotation_fn(cp, false),
        ) {
            Outcome::Value(vs) => Outcome::Value((acc.0, acc.1, acc.2 + vs, acc.3)),
            Outcome::Error(e) => Outcome::Error(e),
            Outcome::Panic => Outcome::Panic,
        },
        SpecAttribute::RuntimeVisibleTypeAnnotations { annotations, .. } => match map_outcome(
            annotations,
            type_annotation_fn(cp, true),
        ) {
            Outcome::Value(vs) => Outcome::Value((acc.0, acc.1, acc.2, acc.3 + vs)),
            Outcome::Error(e) => Outcome::Error(e),
            Outcome::Panic => Outcome::Panic,
        },
        SpecAttribute::RuntimeInvisibleTypeAnnotations { annotations, .. } => match map_outcome(
            annotations,
            type_annotation_fn(cp, false),
        ) {
            Outcome::Value(vs) => Outcome::Value((acc.0, acc.1, acc.2, acc.3 + vs)),
            Outcome::Error(e) => Outcome::Error(e),
            Outcome::Panic => Outcome::Panic,
        },
        _ => match unknown_attr(cp, a, pos) {
            Outcome::Value(u) => Outcome::Value((acc.0, acc.1.push(u), acc.2, acc.3)),
            Outcome::Error(e) => Outcome::Error(e),
            Outcome::Panic => Outcome::Panic,
        },
    }
}

/// What the attributes `s` of a record component give, read first to last.
pub open spec fn spec_component_attrs(cp: Seq<SpecCPInfo>, s: Seq<SpecAttributeInfo>) -> Outcome<SpecComponentAttrs>
    decreases s.len(),
{
    if s.len() == 0 {
        Outcome::Value((None, Seq::empty(), Seq::empty(), Seq::empty()))
    } else {
        match spec_component_attrs(cp, s.drop_last()) {
            Outcome::Value(acc) => component_attr_step(cp, acc, s.last(), s.len() - 1),
            Outcome::Error(e) => Outcome::Error(e),
            Outcome::Panic => Outcome::Panic,
        }
    }
}

/// A record component in the node view: its name, then its descriptor, then its attributes.
pub open spec fn spec_component(cp: Seq<SpecCPInfo>, c: SpecRecordComponentInfo) -> Outcome<SpecRecordComponentNode> {
    match res_utf8(cp, c.name_index) {
        Outcome::Value(name) => match res_utf8(cp, c.descriptor_index) {
            Outcome::Value(desc) => match spec_component_attrs(cp, c.attributes) {
                Outcome::Value(a) => Outcome::Value(
                    SpecRecordComponentNode {
                        name,
                        desc,
                        signature: a.0,
                        annotations: a.2,
                        type_annotations: a.3,
                        attrs: a.1,
                    },
                ),
                Outcome::Error(e) => Outcome::Error(e),
                Outcome::Panic => Outcome::Panic,
            },
            Outcome::Error(e) => Outcome::Error(e),
            Outcome::Panic => Outcome::Panic,
        },
        Outcome::Error(e) => Outcome::Error(e),
        Outcome::Panic => Outcome::Panic,
    }
}

/// Reads a record component, as [spec_component] says.
pub open spec fn component_fn(cp: Seq<SpecCPInfo>) -> spec_fn(SpecRecordComponentInfo) -> Outcome<SpecRecordComponentNode> {
    |c: SpecRecordComponentInfo| spec_component(cp, c)
}

/// What an annotations attribute adds: the annotations it lists, first to last, visible
/// at run time or not as `visible` says.
pub open spec fn annotations_step(cp: Seq<SpecCPInfo>, acc: SpecClassAttrs, annotations: Seq<SpecAnnotationInfo>, visible: bool) -> Outcome<
    SpecClassAttrs,
> {
    match map_outcome(annotations, annotation_fn(cp, visible)) {
        Outcome::Value(vs) => Outcome::Value(SpecClassAttrs { annotations: acc.annotations + vs, ..acc }),
        Outcome::Error(e) => Outcome::Error(e),
        Outcome::Panic => Outcome::Panic,
    }
}

/// What a type-annotations attribute adds: the type annotations it lists, first to last,
/// visible at run time or not as `visible` says.
pub open spec fn type_annotations_step(
    cp: Seq<SpecCPInfo>,
    acc: SpecClassAttrs,
    annotations: Seq<SpecTypeAnnotation>,
    visible: bool,
) -> Outcome<SpecClassAttrs> {
    match map_outcome(annotations, type_annotation_fn(cp, visible)) {
        Outcome::Value(vs) => Outcome::Value(SpecClassAttrs { type_annotations: acc.type_annotations + vs, ..acc }),
        Outcome::Error(e) => Outcome::Error(e),
        Outcome::Panic => Outcome::Panic,
    }
}

/// What the record attribute adds: the components it lists, first to last.
pub open spec fn record_step(cp: Seq<SpecCPInfo>, acc: SpecClassAttrs, components: Seq<SpecRecordComponentInfo>) -> Outcome<
    SpecClassAttrs,
> {
    match map_outcome(components, component_fn(cp)) {
        Outcome::Value(vs) => Outcome::Value(SpecClassAttrs { record_components: acc.record_components + vs, ..acc }),
        Outcome::Error(e) => Outcome::Error(e),
        Outcome::Panic => Outcome::Panic,
    }
}

/// What the attributes of a class give to its node view.
#[verifier::ext_equal]
pub struct SpecClassAttrs {
    pub signature: Option<Seq<char>>,
    pub source_file: Option<Seq<char>>,
    pub source_debug: Option<Seq<char>>,
    pub module: Option<SpecModuleNode>,
    pub module_packages: Option<Seq<Seq<char>>>,
    pub module_main: Option<Seq<char>>,
    pub outer_class: Option<Seq<char>>,
    pub outer_method: Option<Seq<char>>,
    pub outer_method_desc: Option<Seq<char>>,
    pub annotations: Seq<SpecAnnotationNode>,
    pub type_annotations: Seq<SpecTypeAnnotationNode>,
    pub inner_classes: Seq<SpecInnerClassNode>,
    pub nest_host_class: Option<Seq<char>>,
    pub nest_members: Seq<Seq<char>>,
    pub permitted_subclasses: Seq<Seq<char>>,
    pub record_components: Seq<SpecRecordComponentNode>,
    pub attrs: Seq<SpecUnknownAttribute>,
}

/// What no attribute gives.
pub open spec fn no_class_attrs() -> SpecClassAttrs {
    SpecClassAttrs {
        signature: None,
        source_file: None,
        source_debug: None,
        module: None,
        module_packages: None,
        module_main: None,
        outer_class: None,
        outer_method: None,
        outer_method_desc: None,
        annotations: Seq::empty(),
        type_annotations: Seq::empty(),
        inner_classes: Seq::empty(),
        nest_host_class: None,
        nest_members: Seq::empty(),
        permitted_subclasses: Seq::empty(),
        record_components: Seq::empty(),
        attrs: Seq::empty(),
    }
}

/// What the enclosing-method attribute gives: the class, and, where `method_index` is not
/// zero, the name and descriptor of the method.
pub open spec fn enclosing_step(cp: Seq<SpecCPInfo>, acc: SpecClassAttrs, class_index: u16, method_index: u16) -> Outcome<
    SpecClassAttrs,
> {
    match res_class(cp, class_index) {
        Outcome::Value(c) => if method_index == 0 {
            Outcome::Value(
                SpecClassAttrs { outer_class: Some(c), outer_method: None, outer_method_desc: None, ..acc },
            )
        } else {
            match as_name_and_type(spec_resolve(cp, method_index, cp.len()), method_index) {
                Outcome::Value(nt) => Outcome::Value(
                    SpecClassAttrs {
                        outer_class: Some(c),
                        outer_method: Some(nt.0),
                        outer_method_desc: Some(nt.1),
                        ..acc
                    },
                ),
                Outcome::Error(e) => Outcome::Error(e),
                Outcome::Panic => Outcome::Panic,
            }
        },
        Outcome::Error(e) => Outcome::Error(e),
        Outcome::Panic => Outcome::Panic,
    }
}

/// An attribute kept as it is, under its name, at position `pos`.
pub open spec fn unknown_attr(cp: Seq<SpecCPInfo>, a: SpecAttributeInfo, pos: int) -> Outcome<SpecUnknownAttribute> {
    match res_utf8(cp, a.attribute_name_index) {
        Outcome::Value(name) => Outcome::Value(SpecUnknownAttribute { name, index: pos }),
        Outcome::Error(e) => Outcome::Error(e),
        Outcome::Panic => Outcome::Panic,
    }
}

/// What a scan of attributes keeps for a class, for the attribute `a` at position `pos`: a
/// signature, a source file, a debug extension, an enclosing method and a nest host
/// replace what came before; inner classes, nest members and permitted subclasses are
/// added; an attribute that the node view does not read is kept under its name.
pub open spec fn class_attr_step(cp: Seq<SpecCPInfo>, acc: SpecClassAttrs, a: SpecAttributeInfo, pos: int) -> Outcome<
    SpecClassAttrs,
> {
    match a.info {
        SpecAttribute::Signature { signature_index } => match res_utf8(cp, signature_index) {
            Outcome::Value(v) => Outcome::Value(SpecClassAttrs { signature: Some(v), ..acc }),
            Outcome::Error(e) => Outcome::Error(e),
            Outcome::Panic => Outcome::Panic,
        },
        SpecAttribute::SourceFile { sourcefile_index } => match res_utf8(cp, sourcefile_index) {
            Outcome::Value(v) => Outcome::Value(SpecClassAttrs { source_file: Some(v), ..acc }),
            Outcome::Error(e) => Outcome::Error(e),
            Outcome::Panic => Outcome::Panic,
        },
        SpecAttribute::SourceDebugExtension { debug_extension } => match spec_mutf8_to_string(debug_extension) {
            Outcome::Value(v) => Outcome::Value(SpecClassAttrs { source_debug: Some(v), ..acc }),
            Outcome::Error(e) => Outcome::Error(e),
            Outcome::Panic => Outcome::Panic,
        },
        SpecAttribute::Module {
            module_name_index,
            module_flags,
            module_version_index,
            module_requires,
            exports,
            opens,
            uses_index,
            provides,
            ..
        } => match spec_module(
            cp,
            module_name_index,
            module_flags,
            module_version_index,
            module_requires,
            exports,
            opens,
            uses_index,
            provides,
        ) {
            Outcome::Value(m) => Outcome::Value(SpecClassAttrs { module: Some(m), ..acc }),
            Outcome::Error(e) => Outcome::Error(e),
            Outcome::Panic => Outcome::Panic,
        },
        SpecAttribute::ModulePackages { package_index, .. } => match map_outcome(package_index, mp_name_fn(cp, true)) {
            Outcome::Value(ps) => Outcome::Value(SpecClassAttrs { module_packages: Some(ps), ..acc }),
            Outcome::Error(e) => Outcome::Error(e),
            Outcome::Panic => Outcome::Panic,
        },
        SpecAttribute::ModuleMainClass { main_class_index } => match res_class(cp, main_class_index) {
            Outcome::Value(v) => Outcome::Value(SpecClassAttrs { module_main: Some(v), ..acc }),
            Outcome::Error(e) => Outcome::Error(e),
            Outcome::Panic => Outcome::Panic,
        },
        SpecAttribute::EnclosingMethod { class_index, method_index } => enclosing_step(
            cp,
            acc,
            class_index,
            method_index,
        ),
        SpecAttribute::InnerClasses { classes, .. } => inner_classes_step(cp, acc, classes),
        SpecAttribute::Record { components, .. } => record_step(cp, acc, components),
        SpecAttribute::RuntimeVisibleAnnotations { annotations, .. } => annotations_step(cp, acc, annotations, true),
        SpecAttribute::RuntimeInvisibleAnnotations { annotations, .. } => annotations_step(cp, acc, annotations, false),
        SpecAttribute::RuntimeVisibleTypeAnnotations { annotations, .. } => type_annotations_step(
            cp,
            acc,
            annotations,
            true,
        ),
        SpecAttribute::RuntimeInvisibleTypeAnnotations { annotations, .. } => type_annotations_step(
            cp,
            acc,
            annotations,
            false,
        ),
        SpecAttribute::NestHost { host_class_index } => match res_class(cp, host_class_index) {
            Outcome::Value(v) => Outcome::Value(SpecClassAttrs { nest_host_class: Some(v), ..acc }),
            Outcome::Error(e) => Outcome::Error(e),
            Outcome::Panic => Outcome::Panic,
        },
        SpecAttribute::NestMembers { classes, .. } => match map_outcome(classes, class_name_fn(cp)) {
            Outcome::Value(vs) => Outcome::Value(SpecClassAttrs { nest_members: acc.nest_members + vs, ..acc }),
            Outcome::Error(e) => Outcome::Error(e),
            Outcome::Panic => Outcome::Panic,
        },
        SpecAttribute::PermittedSubclasses { classes, .. } => match map_outcome(classes, class_name_fn(cp)) {
            Outcome::Value(vs) => Outcome::Value(
                SpecClassAttrs { permitted_subclasses: acc.permitted_subclasses + vs, ..acc },
            ),
            Outcome::Error(e) => Outcome::Error(e),
            Outcome::Panic => Outcome::Panic,
        },
        _ => other_attr_step(cp, acc, a, pos),
    }
}

/// What the inner-classes attribute adds: the inner classes it lists, first to last.
pub open spec fn inner_classes_step(cp: Seq<SpecCPInfo>, acc: SpecClassAttrs, classes: Seq<InnerClassInfo>) -> Outcome<
    SpecClassAttrs,
> {
    match map_outcome(classes, inner_class_fn(cp)) {
        Outcome::Value(vs) => Outcome::Value(SpecClassAttrs { inner_classes: acc.inner_classes + vs, ..acc }),
        Outcome::Error(e) => Outcome::Error(e),
        Outcome::Panic => Outcome::Panic,
    }
}

/// What a scan keeps for a class of an attribute that has no field of its own: the
/// attribute under its name.
pub open spec fn other_attr_step(cp: Seq<SpecCPInfo>, acc: SpecClassAttrs, a: SpecAttributeInfo, pos: int) -> Outcome<
    SpecClassAttrs,
> {
    match unknown_attr(cp, a, pos) {
        Outcome::Value(u) => Outcome::Value(SpecClassAttrs { attrs: acc.attrs.push(u), ..acc }),
        Outcome::Error(e) => Outcome::Error(e),
        Outcome::Panic => Outcome::Panic,
    }
}

/// What the attributes `s` of a class give, read first to last.
pub open spec fn spec_class_attrs(cp: Seq<SpecCPInfo>, s: Seq<SpecAttributeInfo>) -> Outcome<SpecClassAttrs>
    decreases s.len(),
{
    if s.len() == 0 {
        Outcome::Value(no_class_attrs())
    } else {
        match spec_class_attrs(cp, s.drop_last()) {
            Outcome::Value(acc) => class_attr_step(cp, acc, s.last(), s.len() - 1),
            Outcome::Error(e) => Outcome::Error(e),
            Outcome::Panic => Outcome::Panic,
        }
    }
}

/// The value a field starts with, from the resolved entry `o` at `index`: an `int`,
/// `float`, `long`, `double` or string; another kind of entry is an error.
pub open spec fn field_value(o: Outcome<SpecConstValue>, index: u16) -> Outcome<SpecFieldInitialValue> {
    match o {
        Outcome::Value(SpecConstValue::Integer(i)) => Outcome::Value(SpecFieldInitialValue::Integer(i)),
        Outcome::Value(SpecConstValue::Float(f)) => Outcome::Value(SpecFieldInitialValue::Float(f)),
        Outcome::Value(SpecConstValue::Long(l)) => Outcome::Value(SpecFieldInitialValue::Long(l)),
        Outcome::Value(SpecConstValue::Double(d)) => Outcome::Value(SpecFieldInitialValue::Double(d)),
        Outcome::Value(SpecConstValue::String(s)) => Outcome::Value(SpecFieldInitialValue::String(s)),
        Outcome::Value(_) => Outcome::Error(AsmErr::ResolveNode(index)),
        Outcome::Error(e) => Outcome::Error(e),
        Outcome::Panic => Outcome::Panic,
    }
}

/// What the attributes of a field give to its node view: its signature, its initial
/// value, the attributes it has beside those, its annotations and its type annotations.
pub type SpecFieldAttrs = (
    Option<Seq<char>>,
    Option<SpecFieldInitialValue>,
    Seq<SpecUnknownAttribute>,
    Seq<SpecAnnotationNode>,
    Seq<SpecTypeAnnotationNode>,
);

/// What a scan of attributes keeps for a field, for the attribute `a` at position `pos`:
/// a signature and an initial value replace what came before; an attribute that the node
/// view does not read is kept under its name.
pub open spec fn field_attr_step(cp: Seq<SpecCPInfo>, acc: SpecFieldAttrs, a: SpecAttributeInfo, pos: int) -> Outcome<
    SpecFieldAttrs,
> {
    match a.info {
        SpecAttribute::Signature { signature_index } => match res_utf8(cp, signature_index) {
            Outcome::Value(v) => Outcome::Value((Some(v), acc.1, acc.2, acc.3, acc.4)),
            Outcome::Error(e) => Outcome::Error(e),
            Outcome::Panic => Outcome::Panic,
        },
        SpecAttribute::ConstantValue { constantvalue_index } => match field_value(
            spec_resolve(cp, constantvalue_index, cp.len()),
            constantvalue_index,
        ) {
            Outcome::Value(v) => Outcome::Value((acc.0, Some(v), acc.2, acc.3, acc.4)),
            Outcome::Error(e) => Outcome::Error(e),
            Outcome::Panic => Outcome::Panic,
        },
        SpecAttribute::RuntimeVisibleAnnotations { annotations, .. } => match map_outcome(
            annotations,
            annotation_fn(cp, true),
        ) {
            Outcome::Value(vs) => Outcome::Value((acc.0, acc.1, acc.2, acc.3 + vs, acc.4)),
            Outcome::Error(e) => Outcome::Error(e),
            Outcome::Panic => Outcome::Panic,
        },
        SpecAttribute::RuntimeInvisibleAnnotations { annotations, .. } => match map_outcome(
            annotations,
            annotation_fn(cp, false),
        ) {
            Outcome::Value(vs) => Outcome::Value((acc.0, acc.1, acc.2, acc.3 + vs, acc.4)),
            Outcome::Error(e) => Outcome::Error(e),
            Outcome::Panic => Outcome::Panic,
        },
        SpecAttribute::RuntimeVisibleTypeAnnotations { annotations, .. } => match map_outcome(
            annotations,
            type_annotation_fn(cp, true),
        ) {
            Outcome::Value(vs) => Outcome::Value((acc.0, acc.1, acc.2, acc.3, acc.4 + vs)),
            Outcome::Error(e) => Outcome::Error(e),
            Outcome::Panic => Outcome::Panic,
        },
        SpecAttribute::RuntimeInvisibleTypeAnnotations { annotations, .. } => match map_outcome(
            annotations,
            type_annotation_fn(cp, false),
        ) {
            Outcome::Value(vs) => Outcome::Value((acc.0, acc.1, acc.2, acc.3, acc.4 + vs)),
            Outcome::Error(e) => Outcome::Error(e),
            Outcome::Panic => Outcome::Panic,
        },
        _ => match unknown_attr(cp, a, pos) {
            Outcome::Value(u) => Outcome::Value((acc.0, acc.1, acc.2.push(u), acc.3, acc.4)),
            Outcome::Error(e) => Outcome::Error(e),
            Outcome::Panic => Outcome::Panic,
        },
    }
}

/// What the attributes `s` of a field give, read first to last.
pub open spec fn spec_field_attrs(cp: Seq<SpecCPInfo>, s: Seq<SpecAttributeInfo>) -> Outcome<SpecFieldAttrs>
    decreases s.len(),
{
    if s.len() == 0 {
        Outcome::Value((None, None, Seq::empty(), Seq::empty(), Seq::empty()))
    } else {
        match spec_field_attrs(cp, s.drop_last()) {
            Outcome::Value(acc) => field_attr_step(cp, acc, s.last(), s.len() - 1),
            Outcome::Error(e) => Outcome::Error(e),
            Outcome::Panic => Outcome::Panic,
        }
    }
}

/// A field in the node view: its name, then its descriptor, then its attributes.
pub open spec fn spec_field_node(cp: Seq<SpecCPInfo>, m: SpecMemberInfo) -> Outcome<SpecFieldNode> {
    match res_utf8(cp, m.name_index) {
        Outcome::Value(name) => match res_utf8(cp, m.descriptor_index) {
            Outcome::Value(desc) => match spec_field_attrs(cp, m.attributes) {
                Outcome::Value(a) => Outcome::Value(
                    SpecFieldNode {
                        access: m.access_flags,
                        name,
                        desc,
                        signature: a.0,
                        value: a.1,
                        annotations: a.3,
                        type_annotations: a.4,
                        attrs: a.2,
                    },
                ),
                Outcome::Error(e) => Outcome::Error(e),
                Outcome::Panic => Outcome::Panic,
            },
            Outcome::Error(e) => Outcome::Error(e),
            Outcome::Panic => Outcome::Panic,
        },
        Outcome::Error(e) => Outcome::Error(e),
        Outcome::Panic => Outcome::Panic,
    }
}

/// What the attributes of a method give to its node view.
#[verifier::ext_equal]
pub struct SpecMethodAttrs {
    pub signature: Option<Seq<char>>,
    pub exceptions: Seq<Seq<char>>,
    pub parameters: Seq<SpecParameterNode>,
    pub annotations: Seq<SpecAnnotationNode>,
    pub type_annotations: Seq<SpecTypeAnnotationNode>,
    pub attrs: Seq<SpecUnknownAttribute>,
}

/// What no attribute of a method gives.
pub open spec fn no_method_attrs() -> SpecMethodAttrs {
    SpecMethodAttrs {
        signature: None,
        exceptions: Seq::empty(),
        parameters: Seq::empty(),
        annotations: Seq::empty(),
        type_annotations: Seq::empty(),
        attrs: Seq::empty(),
    }
}

/// A parameter of a method in the node view: its name (`None` where the index is zero)
/// and its access flags.
pub open spec fn spec_parameter(cp: Seq<SpecCPInfo>, p: MethodParameter) -> Outcome<SpecParameterNode> {
    match opt_utf8(cp, p.name_index) {
        Outcome::Value(name) => Outcome::Value(SpecParameterNode { name, access: p.access_flags as u32 }),
        Outcome::Error(e) => Outcome::Error(e),
        Outcome::Panic => Outcome::Panic,
    }
}

/// Reads a parameter, as [spec_parameter] says.
pub open spec fn parameter_fn(cp: Seq<SpecCPInfo>) -> spec_fn(MethodParameter) -> Outcome<SpecParameterNode> {
    |p: MethodParameter| spec_parameter(cp, p)
}

/// What a scan of attributes keeps for a method, for the attribute `a` at position `pos`:
/// a signature replaces what came before; exceptions, parameters, annotations and type
/// annotations are added; an attribute that the node view does not read is kept under
/// its name.
pub open spec fn method_attr_step(cp: Seq<SpecCPInfo>, acc: SpecMethodAttrs, a: SpecAttributeInfo, pos: int) -> Outcome<
    SpecMethodAttrs,
> {
    match a.info {
        SpecAttribute::Signature { signature_index } => match res_utf8(cp, signature_index) {
            Outcome::Value(v) => Outcome::Value(SpecMethodAttrs { signature: Some(v), ..acc }),
            Outcome::Error(e) => Outcome::Error(e),
            Outcome::Panic => Outcome::Panic,
        },
        SpecAttribute::Exceptions { exception_index_table, .. } => exceptions_step(cp, acc, exception_index_table),
        SpecAttribute::MethodParameters { parameters, .. } => parameters_step(cp, acc, parameters),
        SpecAttribute::RuntimeVisibleAnnotations { annotations, .. } => method_annotations_step(cp, acc, annotations, true),
        SpecAttribute::RuntimeInvisibleAnnotations { annotations, .. } => method_annotations_step(
            cp,
            acc,
            annotations,
            false,
        ),
        SpecAttribute::RuntimeVisibleTypeAnnotations { annotations, .. } => method_type_annotations_step(
            cp,
            acc,
            annotations,
            true,
        ),
        SpecAttribute::RuntimeInvisibleTypeAnnotations { annotations, .. } => method_type_annotations_step(
            cp,
            acc,
            annotations,
            false,
        ),
        _ => match unknown_attr(cp, a, pos) {
            Outcome::Value(u) => Outcome::Value(SpecMethodAttrs { attrs: acc.attrs.push(u), ..acc }),
            Outcome::Error(e) => Outcome::Error(e),
            Outcome::Panic => Outcome::Panic,
        },
    }
}

/// What an exceptions attribute adds to a method: the classes it lists, first to last.
pub open spec fn exceptions_step(cp: Seq<SpecCPInfo>, acc: SpecMethodAttrs, table: Seq<u16>) -> Outcome<SpecMethodAttrs> {
    match map_outcome(table, class_name_fn(cp)) {
        Outcome::Value(vs) => Outcome::Value(SpecMethodAttrs { exceptions: acc.exceptions + vs, ..acc }),
        Outcome::Error(e) => Outcome::Error(e),
        Outcome::Panic => Outcome::Panic,
    }
}

/// What a method-parameters attribute adds to a method: the parameters it lists, first to
/// last.
pub open spec fn parameters_step(cp: Seq<SpecCPInfo>, acc: SpecMethodAttrs, parameters: Seq<MethodParameter>) -> Outcome<
    SpecMethodAttrs,
> {
    match map_outcome(parameters, parameter_fn(cp)) {
        Outcome::Value(vs) => Outcome::Value(SpecMethodAttrs { parameters: acc.parameters + vs, ..acc }),
        Outcome::Error(e) => Outcome::Error(e),
        Outcome::Panic => Outcome::Panic,
    }
}

/// What an annotations attribute adds to a method: its annotations, first to last.
pub open spec fn method_annotations_step(
    cp: Seq<SpecCPInfo>,
    acc: SpecMethodAttrs,
    annotations: Seq<SpecAnnotationInfo>,
    visible: bool,
) -> Outcome<SpecMethodAttrs> {
    match map_outcome(annotations, annotation_fn(cp, visible)) {
        Outcome::Value(vs) => Outcome::Value(SpecMethodAttrs { annotations: acc.annotations + vs, ..acc }),
        Outcome::Error(e) => Outcome::Error(e),
        Outcome::Panic => Outcome::Panic,
    }
}

/// What a type-annotations attribute adds to a method: its type annotations, first to last.
pub open spec fn method_type_annotations_step(
    cp: Seq<SpecCPInfo>,
    acc: SpecMethodAttrs,
    annotations: Seq<SpecTypeAnnotation>,
    visible: bool,
) -> Outcome<SpecMethodAttrs> {
    match map_outcome(annotations, type_annotation_fn(cp, visible)) {
        Outcome::Value(vs) => Outcome::Value(SpecMethodAttrs { type_annotations: acc.type_annotations + vs, ..acc }),
        Outcome::Error(e) => Outcome::Error(e),
        Outcome::Panic => Outcome::Panic,
    }
}

/// What the attributes `s` of a method give, read first to last.
pub open spec fn spec_method_attrs(cp: Seq<SpecCPInfo>, s: Seq<SpecAttributeInfo>) -> Outcome<SpecMethodAttrs>
    decreases s.len(),
{
    if s.len() == 0 {
        Outcome::Value(no_method_attrs())
    } else {
        match spec_method_attrs(cp, s.drop_last()) {
            Outcome::Value(acc) => method_attr_step(cp, acc, s.last(), s.len() - 1),
            Outcome::Error(e) => Outcome::Error(e),
            Outcome::Panic => Outcome::Panic,
        }
    }
}

/// A method in the node view: its name, then its descriptor, then its attributes.
pub open spec fn spec_method_node(cp: Seq<SpecCPInfo>, m: SpecMemberInfo) -> Outcome<SpecMethodNode> {
    match res_utf8(cp, m.name_index) {
        Outcome::Value(name) => match res_utf8(cp, m.descriptor_index) {
            Outcome::Value(desc) => match spec_method_attrs(cp, m.attributes) {
                Outcome::Value(a) => Outcome::Value(
                    SpecMethodNode {
                        access: m.access_flags,
                        name,
                        desc,
                        signature: a.signature,
                        exceptions: a.exceptions,
                        parameters: a.parameters,
                        annotations: a.annotations,
                        type_annotations: a.type_annotations,
                        attrs: a.attrs,
                    },
                ),
                Outcome::Error(e) => Outcome::Error(e),
                Outcome::Panic => Outcome::Panic,
            },
            Outcome::Error(e) => Outcome::Error(e),
            Outcome::Panic => Outcome::Panic,
        },
        Outcome::Error(e) => Outcome::Error(e),
        Outcome::Panic => Outcome::Panic,
    }
}

/// Turns a field into its node view, as [spec_field_node] says.
pub open spec fn field_node_fn(cp: Seq<SpecCPInfo>) -> spec_fn(SpecMemberInfo) -> Outcome<SpecFieldNode> {
    |m: SpecMemberInfo| spec_field_node(cp, m)
}

/// Turns a method into its node view, as [spec_method_node] says.
pub open spec fn method_node_fn(cp: Seq<SpecCPInfo>) -> spec_fn(SpecMemberInfo) -> Outcome<SpecMethodNode> {
    |m: SpecMemberInfo| spec_method_node(cp, m)
}

/// The module of a class: the one its module attribute gives, with the main class and
/// the packages (none where no attribute lists them) that its other attributes give.
pub open spec fn module_of(
    module: Option<SpecModuleNode>,
    packages: Option<Seq<Seq<char>>>,
    main: Option<Seq<char>>,
) -> Option<SpecModuleNode> {
    match module {
        Some(m) => Some(
            SpecModuleNode {
                main_class: main,
                packages: match packages {
                    Some(p) => p,
                    None => Seq::empty(),
                },
                ..m
            },
        ),
        None => None,
    }
}

/// The node view of a class file: its name (the class that `this_class` names), its super
/// class (`None` where `super_class` is zero), its interfaces, then what its attributes
/// give, then its fields and its methods, each first to last. It stops at the first
/// error, and panics where a resolution panics.
pub open spec fn spec_class_node(cf: SpecClassFile) -> Outcome<SpecClassNode> {
    let cp = cf.constant_pool;
    match as_class(spec_resolve(cp, cf.this_class, cp.len()), cf.this_class) {
        Outcome::Value(name) => match opt_class(cp, cf.super_class) {
            Outcome::Value(super_name) => match map_outcome(cf.interfaces, class_name_fn(cp)) {
                Outcome::Value(interfaces) => match spec_class_attrs(cp, cf.attributes) {
                    Outcome::Value(a) => match map_outcome(cf.fields, field_node_fn(cp)) {
                        Outcome::Value(fields) => match map_outcome(cf.methods, method_node_fn(cp)) {
                            Outcome::Value(methods) => Outcome::Value(
                                SpecClassNode {
                                    minor_version: cf.minor_version,
                                    major_version: cf.major_version,
                                    access: cf.access_flags,
                                    name,
                                    signature: a.signature,
                                    super_name,
                                    interfaces,
                                    source_file: a.source_file,
                                    source_debug: a.source_debug,
                                    module: module_of(a.module, a.module_packages, a.module_main),
                                    outer_class: a.outer_class,
                                    outer_method: a.outer_method,
                                    outer_method_desc: a.outer_method_desc,
                                    annotations: a.annotations,
                                    type_annotations: a.type_annotations,
                                    inner_classes: a.inner_classes,
                                    nest_host_class: a.nest_host_class,
                                    nest_members: a.nest_members,
                                    permitted_subclasses: a.permitted_subclasses,
                                    record_components: a.record_components,
                                    attrs: a.attrs,
                                    fields,
                                    methods,
                                },
                            ),
                            Outcome::Error(e) => Outcome::Error(e),
                            Outcome::Panic => Outcome::Panic,
                        },
                        Outcome::Error(e) => Outcome::Error(e),
                        Outcome::Panic => Outcome::Panic,
                    },
                    Outcome::Error(e) => Outcome::Error(e),
                    Outcome::Panic => Outcome::Panic,
                },
                Outcome::Error(e) => Outcome::Error(e),
                Outcome::Panic => Outcome::Panic,
            },
            Outcome::Error(e) => Outcome::Error(e),
            Outcome::Panic => Outcome::Panic,
        },
        Outcome::Error(e) => Outcome::Error(e),
        Outcome::Panic => Outcome::Panic,
    }
}

/// Once a prefix of class attributes stops, the whole list stops the same way.
proof fn lemma_class_attrs_stuck(cp: Seq<SpecCPInfo>, s: Seq<SpecAttributeInfo>, i: int, n: int)
    requires
        0 <= i <= n <= s.len(),
        !(spec_class_attrs(cp, s.take(i)) is Value),
    ensures
        spec_class_attrs(cp, s.take(n)) == spec_class_attrs(cp, s.take(i)),
    decreases n - i,
{
    if i < n {
        lemma_class_attrs_stuck(cp, s, i, n - 1);
        assert(s.take(n).drop_last() =~= s.take(n - 1));
    }
}

/// Once a prefix of field attributes stops, the whole list stops the same way.
proof fn lemma_field_attrs_stuck(cp: Seq<SpecCPInfo>, s: Seq<SpecAttributeInfo>, i: int, n: int)
    requires
        0 <= i <= n <= s.len(),
        !(spec_field_attrs(cp, s.take(i)) is Value),
    ensures
        spec_field_attrs(cp, s.take(n)) == spec_field_attrs(cp, s.take(i)),
    decreases n - i,
{
    if i < n {
        lemma_field_attrs_stuck(cp, s, i, n - 1);
        assert(s.take(n).drop_last() =~= s.take(n - 1));
    }
}

/// The texts of `v`.
pub open spec fn texts(v: Seq<String>) -> Seq<Seq<char>> {
    v.map_values(|x: String| x@)
}

/// Reads the class names at the indices `classes`, first to last.
fn read_class_names(cp: &Vec<CPInfo>, classes: &Vec<u16>) -> (r: Option<AsmResult<Vec<String>>>)
    ensures
        match map_outcome(classes.deep_view(), class_name_fn(cp.deep_view())) {
            Outcome::Value(v) => r matches Some(Ok(x)) && texts(x@) == v,
            Outcome::Error(e) => r == Some(Err::<Vec<String>, AsmErr>(e)),
            Outcome::Panic => r is None,
        },
{
    let ghost s = classes@;
    let ghost f = class_name_fn(cp.deep_view());
    proof {
        assert(classes.deep_view() =~= classes@);
    }
    let n = classes.len();
    let mut out: Vec<String> = Vec::new();
    let mut i: usize = 0;
    proof {
        assert(s.take(0) =~= Seq::<u16>::empty());
        assert(texts(out@) =~= Seq::<Seq<char>>::empty());
    }
    while i < n
        invariant
            n == s.len(),
            s == classes@,
            s == classes.deep_view(),
            f == class_name_fn(cp.deep_view()),
            i <= n,
            map_outcome(s.take(i as int), f) == Outcome::Value(texts(out@)),
        decreases n - i,
    {
        proof {
            assert(s.take(i + 1).drop_last() =~= s.take(i as int));
            assert(s.take(i + 1).last() == classes@[i as int]);
            assert(s.take(n as int) =~= s);
        }
        match try_resolve_class(cp, classes[i], cp.len()) {
            Some(Ok(name)) => {
                let ghost before = texts(out@);
                out.push(name);
                proof {
                    assert(texts(out@) =~= before.push(name@));
                }
            },
            Some(Err(e)) => {
                proof {
                    lemma_map_outcome_stuck(s, f, i + 1, n as int);
                }
                return Some(Err(e));
            },
            None => {
                proof {
                    lemma_map_outcome_stuck(s, f, i + 1, n as int);
                }
                return None;
            },
        }
        i = i + 1;
    }
    proof {
        assert(s.take(n as int) =~= s);
    }
    Some(Ok(out))
}

/// Reads a class name where `index` is not zero, as [opt_class] says.
fn read_opt_class(cp: &Vec<CPInfo>, index: u16) -> (r: Option<AsmResult<Option<String>>>)
    ensures
        match opt_class(cp.deep_view(), index) {
            Outcome::Value(v) => r matches Some(Ok(x)) && opt_view(x) == v,
            Outcome::Error(e) => r == Some(Err::<Option<String>, AsmErr>(e)),
            Outcome::Panic => r is None,
        },
{
    if index == 0 {
        return Some(Ok(None));
    }
    match try_resolve_class(cp, index, cp.len()) {
        Some(Ok(v)) => Some(Ok(Some(v))),
        Some(Err(e)) => Some(Err(e)),
        None => None,
    }
}

/// Reads a string where `index` is not zero, as [opt_utf8] says.
fn read_opt_utf8(cp: &Vec<CPInfo>, index: u16) -> (r: Option<AsmResult<Option<String>>>)
    ensures
        match opt_utf8(cp.deep_view(), index) {
            Outcome::Value(v) => r matches Some(Ok(x)) && opt_view(x) == v,
            Outcome::Error(e) => r == Some(Err::<Option<String>, AsmErr>(e)),
            Outcome::Panic => r is None,
        },
{
    if index == 0 {
        return Some(Ok(None));
    }
    match read_utf8(cp, index) {
        Some(Ok(v)) => Some(Ok(Some(v))),
        Some(Err(e)) => Some(Err(e)),
        None => None,
    }
}

/// Reads an inner class, as [spec_inner_class] says.
fn read_inner_class(cp: &Vec<CPInfo>, c: &InnerClassInfo) -> (r: Option<AsmResult<InnerClassNode>>)
    ensures
        outcome_option::<InnerClassNode>(spec_inner_class(cp.deep_view(), *c), r),
{
    let name = match try_resolve_class(cp, c.inner_class_info_index, cp.len()) {
        Some(Ok(v)) => v,
        Some(Err(e)) => {
            return Some(Err(e));
        },
        None => {
            return None;
        },
    };
    let outer_name = match read_opt_class(cp, c.outer_class_info_index) {
        Some(Ok(v)) => v,
        Some(Err(e)) => {
            return Some(Err(e));
        },
        None => {
            return None;
        },
    };
    match read_opt_utf8(cp, c.inner_name_index) {
        Some(Ok(inner_name)) => Some(
            Ok(InnerClassNode { name, outer_name, inner_name, access: c.inner_class_access_flags }),
        ),
        Some(Err(e)) => Some(Err(e)),
        None => None,
    }
}

/// Reads the inner classes `classes`, first to last.
fn read_inner_classes(cp: &Vec<CPInfo>, classes: &Vec<InnerClassInfo>) -> (r: Option<AsmResult<Vec<InnerClassNode>>>)
    ensures
        outcome_option::<Vec<InnerClassNode>>(map_outcome(classes@, inner_class_fn(cp.deep_view())), r),
{
    let ghost s = classes@;
    let ghost f = inner_class_fn(cp.deep_view());
    let n = classes.len();
    let mut out: Vec<InnerClassNode> = Vec::new();
    let mut i: usize = 0;
    proof {
        assert(s.take(0) =~= Seq::<InnerClassInfo>::empty());
        assert(out.deep_view() =~= Seq::<SpecInnerClassNode>::empty());
    }
    while i < n
        invariant
            n == s.len(),
            s == classes@,
            f == inner_class_fn(cp.deep_view()),
            i <= n,
            map_outcome(s.take(i as int), f) == Outcome::Value(out.deep_view()),
        decreases n - i,
    {
        proof {
            assert(s.take(i + 1).drop_last() =~= s.take(i as int));
            assert(s.take(i + 1).last() == classes@[i as int]);
            assert(s.take(n as int) =~= s);
        }
        match read_inner_class(cp, &classes[i]) {
            Some(Ok(node)) => {
                let ghost before = out.deep_view();
                out.push(node);
                proof {
                    assert(out.deep_view() =~= before.push(node.deep_view()));
                }
            },
            Some(Err(e)) => {
                proof {
                    lemma_map_outcome_stuck(s, f, i + 1, n as int);
                }
                return Some(Err(e));
            },
            None => {
                proof {
                    lemma_map_outcome_stuck(s, f, i + 1, n as int);
                }
                return None;
            },
        }
        i = i + 1;
    }
    proof {
        assert(s.take(n as int) =~= s);
    }
    Some(Ok(out))
}

/// Reads the attribute `a` at position `pos` under its name, as [unknown_attr] says.
fn read_unknown_attr(cp: &Vec<CPInfo>, a: &AttributeInfo, pos: usize) -> (r: Option<AsmResult<UnknownAttribute>>)
    ensures
        outcome_option::<UnknownAttribute>(unknown_attr(cp.deep_view(), attribute_info_view(*a), pos as int), r),
{
    match read_utf8(cp, a.attribute_name_index) {
        Some(Ok(name)) => Some(Ok(UnknownAttribute { name, index: pos })),
        Some(Err(e)) => Some(Err(e)),
        None => None,
    }
}

/// Reads a module or package name, as [res_mp] says.
fn read_mp(cp: &Vec<CPInfo>, index: u16, package: bool) -> (r: Option<AsmResult<String>>)
    ensures
        match res_mp(cp.deep_view(), index, package) {
            Outcome::Value(v) => r matches Some(Ok(x)) && x@ == v,
            Outcome::Error(e) => r == Some(Err::<String, AsmErr>(e)),
            Outcome::Panic => r is None,
        },
{
    match try_resolve(cp, index, cp.len()) {
        Some(Ok(ConstValue::Package(v))) => if package {
            Some(Ok(v))
        } else {
            Some(Err(AsmErr::IllegalConst { index, required: ConstKind::Module }))
        },
        Some(Ok(ConstValue::Module(v))) => if package {
            Some(Err(AsmErr::IllegalConst { index, required: ConstKind::Package }))
        } else {
            Some(Ok(v))
        },
        Some(Ok(_)) => if package {
            Some(Err(AsmErr::IllegalConst { index, required: ConstKind::Package }))
        } else {
            Some(Err(AsmErr::IllegalConst { index, required: ConstKind::Module }))
        },
        Some(Err(e)) => Some(Err(e)),
        None => None,
    }
}

/// Reads the module or package names at the indices `indices`, first to last.
fn read_mp_names(cp: &Vec<CPInfo>, indices: &Vec<u16>, package: bool) -> (r: Option<AsmResult<Vec<String>>>)
    ensures
        match map_outcome(indices.deep_view(), mp_name_fn(cp.deep_view(), package)) {
            Outcome::Value(v) => r matches Some(Ok(x)) && texts(x@) == v,
            Outcome::Error(e) => r == Some(Err::<Vec<String>, AsmErr>(e)),
            Outcome::Panic => r is None,
        },
{
    let ghost s = indices@;
    let ghost f = mp_name_fn(cp.deep_view(), package);
    proof {
        assert(indices.deep_view() =~= indices@);
    }
    let n = indices.len();
    let mut out: Vec<String> = Vec::new();
    let mut i: usize = 0;
    proof {
        assert(s.take(0) =~= Seq::<u16>::empty());
        assert(texts(out@) =~= Seq::<Seq<char>>::empty());
    }
    while i < n
        invariant
            n == s.len(),
            s == indices@,
            s == indices.deep_view(),
            f == mp_name_fn(cp.deep_view(), package),
            i <= n,
            map_outcome(s.take(i as int), f) == Outcome::Value(texts(out@)),
        decreases n - i,
    {
        proof {
            assert(s.take(i + 1).drop_last() =~= s.take(i as int));
            assert(s.take(i + 1).last() == indices@[i as int]);
            assert(s.take(n as int) =~= s);
        }
        match read_mp(cp, indices[i], package) {
            Some(Ok(name)) => {
                let ghost before = texts(out@);
                out.push(name);
                proof {
                    assert(texts(out@) =~= before.push(name@));
                }
            },
            Some(Err(e)) => {
                proof {
                    lemma_map_outcome_stuck(s, f, i + 1, n as int);
                }
                return Some(Err(e));
            },
            None => {
                proof {
                    lemma_map_outcome_stuck(s, f, i + 1, n as int);
                }
                return None;
            },
        }
        i = i + 1;
    }
    proof {
        assert(s.take(n as int) =~= s);
    }
    Some(Ok(out))
}

/// Reads a required module, as [spec_require] says.
fn read_require(cp: &Vec<CPInfo>, r: &ModuleRequires) -> (o: Option<AsmResult<ModuleRequireNode>>)
    ensures
        outcome_option::<ModuleRequireNode>(spec_require(cp.deep_view(), *r), o),
{
    let module = match read_mp(cp, r.requires_index, false) {
        Some(Ok(v)) => v,
        Some(Err(e)) => {
            return Some(Err(e));
        },
        None => {
            return None;
        },
    };
    match read_opt_utf8(cp, r.requires_version_index) {
        Some(Ok(version)) => Some(Ok(ModuleRequireNode { module, access: r.requires_flags, version })),
        Some(Err(e)) => Some(Err(e)),
        None => None,
    }
}

/// Reads an exported or opened package, as [spec_export] says.
fn read_export(cp: &Vec<CPInfo>, package_index: u16, flags: u16, to: &Vec<u16>) -> (o: Option<
    AsmResult<ModuleExportNode>,
>)
    ensures
        outcome_option::<ModuleExportNode>(spec_export(cp.deep_view(), package_index, flags, to.deep_view()), o),
{
    let package = match read_mp(cp, package_index, true) {
        Some(Ok(v)) => v,
        Some(Err(e)) => {
            return Some(Err(e));
        },
        None => {
            return None;
        },
    };
    match read_mp_names(cp, to, false) {
        Some(Ok(modules)) => {
            let node = ModuleExportNode { package, access: flags, modules };
            proof {
                assert(node.deep_view().modules =~= texts(node.modules@));
            }
            Some(Ok(node))
        },
        Some(Err(e)) => Some(Err(e)),
        None => None,
    }
}

/// Reads an exported package, as [export_fn] says.
fn read_one_export(cp: &Vec<CPInfo>, e: &ModuleExports) -> (o: Option<AsmResult<ModuleExportNode>>)
    ensures
        outcome_option::<ModuleExportNode>(export_fn(cp.deep_view())(e.deep_view()), o),
{
    read_export(cp, e.exports_index, e.exports_flags, &e.exports_to_index)
}

/// Reads an opened package, as [open_fn] says.
fn read_one_open(cp: &Vec<CPInfo>, o: &ModuleOpens) -> (r: Option<AsmResult<ModuleOpenNode>>)
    ensures
        outcome_option::<ModuleOpenNode>(open_fn(cp.deep_view())(o.deep_view()), r),
{
    match read_export(cp, o.opens_index, o.opens_flags, &o.opens_to_index) {
        Some(Ok(x)) => Some(Ok(ModuleOpenNode { package: x.package, access: x.access, modules: x.modules })),
        Some(Err(e)) => Some(Err(e)),
        None => None,
    }
}

/// Reads a provided service, as [spec_provide] says.
fn read_provide(cp: &Vec<CPInfo>, p: &ModuleProvides) -> (o: Option<AsmResult<ModuleProvidesNode>>)
    ensures
        outcome_option::<ModuleProvidesNode>(spec_provide(cp.deep_view(), p.deep_view()), o),
{
    let service = match try_resolve_class(cp, p.provides_index, cp.len()) {
        Some(Ok(v)) => v,
        Some(Err(e)) => {
            return Some(Err(e));
        },
        None => {
            return None;
        },
    };
    proof {
        assert(p.provides_with_index.deep_view() =~= p.provides_with_index@);
    }
    match read_class_names(cp, &p.provides_with_index) {
        Some(Ok(providers)) => {
            let node = ModuleProvidesNode { service, providers };
            proof {
                assert(node.deep_view().providers =~= texts(node.providers@));
            }
            Some(Ok(node))
        },
        Some(Err(e)) => Some(Err(e)),
        None => None,
    }
}

/// Reads the required modules `items`, first to last.
fn read_requires(cp: &Vec<CPInfo>, items: &Vec<ModuleRequires>) -> (r: Option<AsmResult<Vec<ModuleRequireNode>>>)
    ensures
        outcome_option::<Vec<ModuleRequireNode>>(map_outcome(items.deep_view(), require_fn(cp.deep_view())), r),
{
    let ghost s = items.deep_view();
    let ghost f = require_fn(cp.deep_view());
    let n = items.len();
    let mut out: Vec<ModuleRequireNode> = Vec::new();
    let mut i: usize = 0;
    proof {
        assert(s.take(0) =~= Seq::<ModuleRequires>::empty());
        assert(out.deep_view() =~= Seq::<SpecModuleRequireNode>::empty());
    }
    while i < n
        invariant
            n == s.len(),
            s == items.deep_view(),
            f == require_fn(cp.deep_view()),
            i <= n,
            map_outcome(s.take(i as int), f) == Outcome::Value(out.deep_view()),
        decreases n - i,
    {
        proof {
            assert(s.take(i + 1).drop_last() =~= s.take(i as int));
            assert(s.take(i + 1).last() == items@[i as int].deep_view());
            assert(s.take(n as int) =~= s);
        }
        match read_require(cp, &items[i]) {
            Some(Ok(node)) => {
                let ghost before = out.deep_view();
                out.push(node);
                proof {
                    assert(out.deep_view() =~= before.push(node.deep_view()));
                }
            },
            Some(Err(e)) => {
                proof {
                    lemma_map_outcome_stuck(s, f, i + 1, n as int);
                }
                return Some(Err(e));
            },
            None => {
                proof {
                    lemma_map_outcome_stuck(s, f, i + 1, n as int);
                }
                return None;
            },
        }
        i = i + 1;
    }
    proof {
        assert(s.take(n as int) =~= s);
    }
    Some(Ok(out))
}

/// Reads the exported packages `items`, first to last.
fn read_exports(cp: &Vec<CPInfo>, items: &Vec<ModuleExports>) -> (r: Option<AsmResult<Vec<ModuleExportNode>>>)
    ensures
        outcome_option::<Vec<ModuleExportNode>>(map_outcome(items.deep_view(), export_fn(cp.deep_view())), r),
{
    let ghost s = items.deep_view();
    let ghost f = export_fn(cp.deep_view());
    let n = items.len();
    let mut out: Vec<ModuleExportNode> = Vec::new();
    let mut i: usize = 0;
    proof {
        assert(s.take(0) =~= Seq::<SpecModuleExports>::empty());
        assert(out.deep_view() =~= Seq::<SpecModuleExportNode>::empty());
    }
    while i < n
        invariant
            n == s.len(),
            s == items.deep_view(),
            f == export_fn(cp.deep_view()),
            i <= n,
            map_outcome(s.take(i as int), f) == Outcome::Value(out.deep_view()),
        decreases n - i,
    {
        proof {
            assert(s.take(i + 1).drop_last() =~= s.take(i as int));
            assert(s.take(i + 1).last() == items@[i as int].deep_view());
            assert(s.take(n as int) =~= s);
        }
        match read_one_export(cp, &items[i]) {
            Some(Ok(node)) => {
                let ghost before = out.deep_view();
                out.push(node);
                proof {
                    assert(out.deep_view() =~= before.push(node.deep_view()));
                }
            },
            Some(Err(e)) => {
                proof {
                    lemma_map_outcome_stuck(s, f, i + 1, n as int);
                }
                return Some(Err(e));
            },
            None => {
                proof {
                    lemma_map_outcome_stuck(s, f, i + 1, n as int);
                }
                return None;
            },
        }
        i = i + 1;
    }
    proof {
        assert(s.take(n as int) =~= s);
    }
    Some(Ok(out))
}

/// Reads the opened packages `items`, first to last.
fn read_opens(cp: &Vec<CPInfo>, items: &Vec<ModuleOpens>) -> (r: Option<AsmResult<Vec<ModuleOpenNode>>>)
    ensures
        outcome_option::<Vec<ModuleOpenNode>>(map_outcome(items.deep_view(), open_fn(cp.deep_view())), r),
{
    let ghost s = items.deep_view();
    let ghost f = open_fn(cp.deep_view());
    let n = items.len();
    let mut out: Vec<ModuleOpenNode> = Vec::new();
    let mut i: usize = 0;
    proof {
        assert(s.take(0) =~= Seq::<SpecModuleOpens>::empty());
        assert(out.deep_view() =~= Seq::<SpecModuleExportNode>::empty());
    }
    while i < n
        invariant
            n == s.len(),
            s == items.deep_view(),
            f == open_fn(cp.deep_view()),
            i <= n,
            map_outcome(s.take(i as int), f) == Outcome::Value(out.deep_view()),
        decreases n - i,
    {
        proof {
            assert(s.take(i + 1).drop_last() =~= s.take(i as int));
            assert(s.take(i + 1).last() == items@[i as int].deep_view());
            assert(s.take(n as int) =~= s);
        }
        match read_one_open(cp, &items[i]) {
            Some(Ok(node)) => {
                let ghost before = out.deep_view();
                out.push(node);
                proof {
                    assert(out.deep_view() =~= before.push(node.deep_view()));
                }
            },
            Some(Err(e)) => {
                proof {
                    lemma_map_outcome_stuck(s, f, i + 1, n as int);
                }
                return Some(Err(e));
            },
            None => {
                proof {
                    lemma_map_outcome_stuck(s, f, i + 1, n as int);
                }
                return None;
            },
        }
        i = i + 1;
    }
    proof {
        assert(s.take(n as int) =~= s);
    }
    Some(Ok(out))
}

/// Reads the provided services `items`, first to last.
fn read_provides(cp: &Vec<CPInfo>, items: &Vec<ModuleProvides>) -> (r: Option<AsmResult<Vec<ModuleProvidesNode>>>)
    ensures
        outcome_option::<Vec<ModuleProvidesNode>>(map_outcome(items.deep_view(), provide_fn(cp.deep_view())), r),
{
    let ghost s = items.deep_view();
    let ghost f = provide_fn(cp.deep_view());
    let n = items.len();
    let mut out: Vec<ModuleProvidesNode> = Vec::new();
    let mut i: usize = 0;
    proof {
        assert(s.take(0) =~= Seq::<SpecModuleProvides>::empty());
        assert(out.deep_view() =~= Seq::<SpecModuleProvidesNode>::empty());
    }
    while i < n
        invariant
            n == s.len(),
            s == items.deep_view(),
            f == provide_fn(cp.deep_view()),
            i <= n,
            map_outcome(s.take(i as int), f) == Outcome::Value(out.deep_view()),
        decreases n - i,
    {
        proof {
            assert(s.take(i + 1).drop_last() =~= s.take(i as int));
            assert(s.take(i + 1).last() == items@[i as int].deep_view());
            assert(s.take(n as int) =~= s);
        }
        match read_provide(cp, &items[i]) {
            Some(Ok(node)) => {
                let ghost before = out.deep_view();
                out.push(node);
                proof {
                    assert(out.deep_view() =~= before.push(node.deep_view()));
                }
            },
            Some(Err(e)) => {
                proof {
                    lemma_map_outcome_stuck(s, f, i + 1, n as int);
                }
                return Some(Err(e));
            },
            None => {
                proof {
                    lemma_map_outcome_stuck(s, f, i + 1, n as int);
                }
                return None;
            },
        }
        i = i + 1;
    }
    proof {
        assert(s.take(n as int) =~= s);
    }
    Some(Ok(out))
}

/// Reads the parts of a module that its own attribute gives, as [spec_module] says.
fn read_module(
    cp: &Vec<CPInfo>,
    name_index: u16,
    flags: u16,
    version_index: u16,
    required: &Vec<ModuleRequires>,
    exports: &Vec<ModuleExports>,
    opens: &Vec<ModuleOpens>,
    uses: &Vec<u16>,
    provides: &Vec<ModuleProvides>,
) -> (r: Option<AsmResult<ModuleNode>>)
    ensures
        outcome_option::<ModuleNode>(
            spec_module(
                cp.deep_view(),
                name_index,
                flags,
                version_index,
                required.deep_view(),
                exports.deep_view(),
                opens.deep_view(),
                uses.deep_view(),
                provides.deep_view(),
            ),
            r,
        ),
{
    let name = match read_mp(cp, name_index, false) {
        Some(Ok(v)) => v,
        Some(Err(e)) => {
            return Some(Err(e));
        },
        None => {
            return None;
        },
    };
    let version = match read_opt_utf8(cp, version_index) {
        Some(Ok(v)) => v,
        Some(Err(e)) => {
            return Some(Err(e));
        },
        None => {
            return None;
        },
    };
    let rs = match read_requires(cp, required) {
        Some(Ok(v)) => v,
        Some(Err(e)) => {
            return Some(Err(e));
        },
        None => {
            return None;
        },
    };
    let es = match read_exports(cp, exports) {
        Some(Ok(v)) => v,
        Some(Err(e)) => {
            return Some(Err(e));
        },
        None => {
            return None;
        },
    };
    let os = match read_opens(cp, opens) {
        Some(Ok(v)) => v,
        Some(Err(e)) => {
            return Some(Err(e));
        },
        None => {
            return None;
        },
    };
    let us = match read_class_names(cp, uses) {
        Some(Ok(v)) => v,
        Some(Err(e)) => {
            return Some(Err(e));
        },
        None => {
            return None;
        },
    };
    let ps = match read_provides(cp, provides) {
        Some(Ok(v)) => v,
        Some(Err(e)) => {
            return Some(Err(e));
        },
        None => {
            return None;
        },
    };
    let node = ModuleNode {
        name,
        access: flags,
        version,
        main_class: None,
        packages: Vec::new(),
        requires: rs,
        exports: es,
        opens: os,
        uses: us,
        provides: ps,
    };
    proof {
        assert(node.deep_view().packages =~= Seq::<Seq<char>>::empty());
        assert(node.deep_view().uses =~= texts(node.uses@));
    }
    Some(Ok(node))
}

/// Reads the module attribute into `acc`, as the module arm of [class_attr_step] says.
fn module_update(cp: &Vec<CPInfo>, acc: &mut ClassAttrs, a: &AttributeInfo, pos: usize) -> (r: Option<AsmResult<()>>)
    requires
        a.info is Module,
    ensures
        match class_attr_step(cp.deep_view(), class_attrs_view(*old(acc)), attribute_info_view(*a), pos as int) {
            Outcome::Value(v) => r == Some(Ok::<(), AsmErr>(())) && class_attrs_view(*final(acc)) == v,
            Outcome::Error(e) => r == Some(Err::<(), AsmErr>(e)),
            Outcome::Panic => r is None,
        },
{
    match &a.info {
        Attribute::Module {
            module_name_index,
            module_flags,
            module_version_index,
            module_requires,
            exports,
            opens,
            uses_index,
            provides,
            ..
        } => {
            match read_module(
                cp,
                *module_name_index,
                *module_flags,
                *module_version_index,
                module_requires,
                exports,
                opens,
                uses_index,
                provides,
            ) {
                Some(Ok(m)) => {
                    acc.module = Some(m);
                    Some(Ok(()))
                },
                Some(Err(e)) => Some(Err(e)),
                None => None,
            }
        },
        _ => None,
    }
}

/// Reads the module-packages attribute into `acc`.
fn packages_update(cp: &Vec<CPInfo>, acc: &mut ClassAttrs, indices: &Vec<u16>) -> (r: Option<AsmResult<()>>)
    ensures
        match map_outcome(indices.deep_view(), mp_name_fn(cp.deep_view(), true)) {
            Outcome::Value(v) => r == Some(Ok::<(), AsmErr>(())) && class_attrs_view(*final(acc)) == SpecClassAttrs {
                module_packages: Some(v),
                ..class_attrs_view(*old(acc))
            },
            Outcome::Error(e) => r == Some(Err::<(), AsmErr>(e)),
            Outcome::Panic => r is None,
        },
{
    match read_mp_names(cp, indices, true) {
        Some(Ok(v)) => {
            acc.module_packages = Some(v);
            Some(Ok(()))
        },
        Some(Err(e)) => Some(Err(e)),
        None => None,
    }
}

/// Once a prefix of component attributes stops, the whole list stops the same way.
proof fn lemma_component_attrs_stuck(cp: Seq<SpecCPInfo>, s: Seq<SpecAttributeInfo>, i: int, n: int)
    requires
        0 <= i <= n <= s.len(),
        !(spec_component_attrs(cp, s.take(i)) is Value),
    ensures
        spec_component_attrs(cp, s.take(n)) == spec_component_attrs(cp, s.take(i)),
    decreases n - i,
{
    if i < n {
        lemma_component_attrs_stuck(cp, s, i, n - 1);
        assert(s.take(n).drop_last() =~= s.take(n - 1));
    }
}

/// What the attributes of a record component give, held as values: its signature, the
/// attributes it has beside those below, its annotations and its type annotations.
pub type ComponentAttrs = (Option<String>, Vec<UnknownAttribute>, Vec<AnnotationNode>, Vec<TypeAnnotationNode>);

/// Reads what the attributes of a record component give, as [spec_component_attrs] says.
fn component_attrs(cp: &Vec<CPInfo>, attributes: &Vec<AttributeInfo>) -> (r: Option<
    AsmResult<ComponentAttrs>,
>)
    ensures
        match spec_component_attrs(cp.deep_view(), attributes.deep_view()) {
            Outcome::Value(v) => r matches Some(Ok(x)) && opt_view(x.0) == v.0 && x.1.deep_view() == v.1
                && annotation_nodes_view(x.2@) == v.2 && type_annotation_nodes_view(x.3@) == v.3,
            Outcome::Error(e) => r == Some(Err::<ComponentAttrs, AsmErr>(e)),
            Outcome::Panic => r is None,
        },
{
    let ghost s = attributes.deep_view();
    let ghost cpv = cp.deep_view();
    let n = attributes.len();
    let mut signature: Option<String> = None;
    let mut attrs: Vec<UnknownAttribute> = Vec::new();
    let mut annotations: Vec<AnnotationNode> = Vec::new();
    let mut type_annotations: Vec<TypeAnnotationNode> = Vec::new();
    let mut i: usize = 0;
    proof {
        assert(s.take(0) =~= Seq::<SpecAttributeInfo>::empty());
        assert(attrs.deep_view() =~= Seq::<SpecUnknownAttribute>::empty());
        assert(annotation_nodes_view(annotations@) =~= Seq::<SpecAnnotationNode>::empty());
        assert(type_annotation_nodes_view(type_annotations@) =~= Seq::<SpecTypeAnnotationNode>::empty());
    }
    while i < n
        invariant
            n == s.len(),
            s == attributes.deep_view(),
            cpv == cp.deep_view(),
            i <= n,
            spec_component_attrs(cpv, s.take(i as int)) == Outcome::Value(
                (
                    opt_view(signature),
                    attrs.deep_view(),
                    annotation_nodes_view(annotations@),
                    type_annotation_nodes_view(type_annotations@),
                ),
            ),
        decreases n - i,
    {
        proof {
            assert(s.take(i + 1).drop_last() =~= s.take(i as int));
            assert(s.take(i + 1).last() == attribute_info_view(attributes@[i as int]));
            assert(s.take(n as int) =~= s);
        }
        match &attributes[i].info {
            Attribute::Signature { signature_index } => match read_utf8(cp, *signature_index) {
                Some(Ok(v)) => {
                    signature = Some(v);
                },
                Some(Err(e)) => {
                    proof {
                        lemma_component_attrs_stuck(cpv, s, i + 1, n as int);
                    }
                    return Some(Err(e));
                },
                None => {
                    proof {
                        lemma_component_attrs_stuck(cpv, s, i + 1, n as int);
                    }
                    return None;
                },
            },
            Attribute::RuntimeVisibleAnnotations { annotations: found, .. } => match read_annotations(cp, found, true) {
                Some(Ok(mut more)) => {
                    let ghost before = annotation_nodes_view(annotations@);
                    let ghost added = annotation_nodes_view(more@);
                    annotations.append(&mut more);
                    proof {
                        assert(annotation_nodes_view(annotations@) =~= before + added);
                    }
                },
                Some(Err(e)) => {
                    proof {
                        lemma_component_attrs_stuck(cpv, s, i + 1, n as int);
                    }
                    return Some(Err(e));
                },
                None => {
                    proof {
                        lemma_component_attrs_stuck(cpv, s, i + 1, n as int);
                    }
                    return None;
                },
            },
            Attribute::RuntimeInvisibleAnnotations { annotations: found, .. } => match read_annotations(cp, found, false) {
                Some(Ok(mut more)) => {
                    let ghost before = annotation_nodes_view(annotations@);
                    let ghost added = annotation_nodes_view(more@);
                    annotations.append(&mut more);
                    proof {
                        assert(annotation_nodes_view(annotations@) =~= before + added);
                    }
                },
                Some(Err(e)) => {
                    proof {
                        lemma_component_attrs_stuck(cpv, s, i + 1, n as int);
                    }
                    return Some(Err(e));
                },
                None => {
                    proof {
                        lemma_component_attrs_stuck(cpv, s, i + 1, n as int);
                    }
                    return None;
                },
            },
            Attribute::RuntimeVisibleTypeAnnotations { annotations: found, .. } => match read_type_annotations(cp, found, true) {
                Some(Ok(mut more)) => {
                    let ghost before = type_annotation_nodes_view(type_annotations@);
                    let ghost added = type_annotation_nodes_view(more@);
                    type_annotations.append(&mut more);
                    proof {
                        assert(type_annotation_nodes_view(type_annotations@) =~= before + added);
                    }
                },
                Some(Err(e)) => {
                    proof {
                        lemma_component_attrs_stuck(cpv, s, i + 1, n as int);
                    }
                    return Some(Err(e));
                },
                None => {
                    proof {
                        lemma_component_attrs_stuck(cpv, s, i + 1, n as int);
                    }
                    return None;
                },
            },
            Attribute::RuntimeInvisibleTypeAnnotations { annotations: found, .. } => match read_type_annotations(cp, found, false) {
                Some(Ok(mut more)) => {
                    let ghost before = type_annotation_nodes_view(type_annotations@);
                    let ghost added = type_annotation_nodes_view(more@);
                    type_annotations.append(&mut more);
                    proof {
                        assert(type_annotation_nodes_view(type_annotations@) =~= before + added);
                    }
                },
                Some(Err(e)) => {
                    proof {
                        lemma_component_attrs_stuck(cpv, s, i + 1, n as int);
                    }
                    return Some(Err(e));
                },
                None => {
                    proof {
                        lemma_component_attrs_stuck(cpv, s, i + 1, n as int);
                    }
                    return None;
                },
            },
            _ => match read_unknown_attr(cp, &attributes[i], i) {
                Some(Ok(u)) => {
                    let ghost before = attrs.deep_view();
                    attrs.push(u);
                    proof {
                        assert(attrs.deep_view() =~= before.push(u.deep_view()));
                    }
                },
                Some(Err(e)) => {
                    proof {
                        lemma_component_attrs_stuck(cpv, s, i + 1, n as int);
                    }
                    return Some(Err(e));
                },
                None => {
                    proof {
                        lemma_component_attrs_stuck(cpv, s, i + 1, n as int);
                    }
                    return None;
                },
            },
        }
        i = i + 1;
    }
    proof {
        assert(s.take(n as int) =~= s);
    }
    Some(Ok((signature, attrs, annotations, type_annotations)))
}

/// Reads a record component, as [spec_component] says.
fn read_component(cp: &Vec<CPInfo>, c: &RecordComponentInfo) -> (r: Option<AsmResult<RecordComponentNode>>)
    ensures
        outcome_option::<RecordComponentNode>(spec_component(cp.deep_view(), c.deep_view()), r),
{
    let name = match read_utf8(cp, c.name_index) {
        Some(Ok(v)) => v,
        Some(Err(e)) => {
            return Some(Err(e));
        },
        None => {
            return None;
        },
    };
    let desc = match read_utf8(cp, c.descriptor_index) {
        Some(Ok(v)) => v,
        Some(Err(e)) => {
            return Some(Err(e));
        },
        None => {
            return None;
        },
    };
    proof {
        assert(attribute_infos_view(c.attributes@) =~= c.attributes.deep_view());
    }
    match component_attrs(cp, &c.attributes) {
        Some(Ok((signature, attrs, annotations, type_annotations))) => Some(
            Ok(RecordComponentNode { name, desc, signature, annotations, type_annotations, attrs }),
        ),
        Some(Err(e)) => Some(Err(e)),
        None => None,
    }
}

/// Reads the record components `items`, first to last.
fn read_components(cp: &Vec<CPInfo>, items: &Vec<RecordComponentInfo>) -> (r: Option<AsmResult<Vec<RecordComponentNode>>>)
    ensures
        outcome_option::<Vec<RecordComponentNode>>(map_outcome(items.deep_view(), component_fn(cp.deep_view())), r),
{
    let ghost s = items.deep_view();
    let ghost f = component_fn(cp.deep_view());
    let n = items.len();
    let mut out: Vec<RecordComponentNode> = Vec::new();
    let mut i: usize = 0;
    proof {
        assert(s.take(0) =~= Seq::<SpecRecordComponentInfo>::empty());
        assert(out.deep_view() =~= Seq::<SpecRecordComponentNode>::empty());
    }
    while i < n
        invariant
            n == s.len(),
            s == items.deep_view(),
            f == component_fn(cp.deep_view()),
            i <= n,
            map_outcome(s.take(i as int), f) == Outcome::Value(out.deep_view()),
        decreases n - i,
    {
        proof {
            assert(s.take(i + 1).drop_last() =~= s.take(i as int));
            assert(s.take(i + 1).last() == items@[i as int].deep_view());
            assert(s.take(n as int) =~= s);
        }
        match read_component(cp, &items[i]) {
            Some(Ok(node)) => {
                let ghost before = out.deep_view();
                out.push(node);
                proof {
                    assert(out.deep_view() =~= before.push(node.deep_view()));
                }
            },
            Some(Err(e)) => {
                proof {
                    lemma_map_outcome_stuck(s, f, i + 1, n as int);
                }
                return Some(Err(e));
            },
            None => {
                proof {
                    lemma_map_outcome_stuck(s, f, i + 1, n as int);
                }
                return None;
            },
        }
        i = i + 1;
    }
    proof {
        assert(s.take(n as int) =~= s);
    }
    Some(Ok(out))
}

/// Adds the record components `components` to `acc`, as [record_step] says.
fn record_update(cp: &Vec<CPInfo>, acc: &mut ClassAttrs, components: &Vec<RecordComponentInfo>) -> (r: Option<
    AsmResult<()>,
>)
    ensures
        match record_step(cp.deep_view(), class_attrs_view(*old(acc)), components.deep_view()) {
            Outcome::Value(v) => r == Some(Ok::<(), AsmErr>(())) && class_attrs_view(*final(acc)) == v,
            Outcome::Error(e) => r == Some(Err::<(), AsmErr>(e)),
            Outcome::Panic => r is None,
        },
{
    let ghost before = class_attrs_view(*acc);
    match read_components(cp, components) {
        Some(Ok(mut found)) => {
            let ghost added = found.deep_view();
            let ghost kept = acc.record_components.deep_view();
            acc.record_components.append(&mut found);
            proof {
                assert(acc.record_components.deep_view() =~= kept + added);
                assert(class_attrs_view(*acc) =~= SpecClassAttrs {
                    record_components: before.record_components + added,
                    ..before
                });
            }
            Some(Ok(()))
        },
        Some(Err(e)) => Some(Err(e)),
        None => None,
    }
}

/// Reads an annotation, as [spec_annotation] says.
fn read_annotation(cp: &Vec<CPInfo>, a: &AnnotationInfo, visible: bool) -> (r: Option<AsmResult<AnnotationNode>>)
    ensures
        match spec_annotation(cp.deep_view(), annotation_view(*a), visible) {
            Outcome::Value(v) => r matches Some(Ok(x)) && annotation_node_view(x) == v,
            Outcome::Error(e) => r == Some(Err::<AnnotationNode, AsmErr>(e)),
            Outcome::Panic => r is None,
        },
    decreases a,
{
    let desc = match read_utf8(cp, a.type_index) {
        Some(Ok(v)) => v,
        Some(Err(e)) => {
            return Some(Err(e));
        },
        None => {
            return None;
        },
    };
    match read_pairs(cp, &a.element_value_pairs, visible) {
        Some(Ok(values)) => Some(Ok(AnnotationNode { visible, desc, values })),
        Some(Err(e)) => Some(Err(e)),
        None => None,
    }
}

/// Reads element-value pairs, as [spec_pairs] says.
fn read_pairs(cp: &Vec<CPInfo>, v: &Vec<AnnotationElement>, visible: bool) -> (r: Option<
    AsmResult<Vec<(String, AnnotationValue)>>,
>)
    ensures
        match spec_pairs(cp.deep_view(), elements_view(v@), visible) {
            Outcome::Value(x) => r matches Some(Ok(y)) && pairs_view(y@) == x,
            Outcome::Error(e) => r == Some(Err::<Vec<(String, AnnotationValue)>, AsmErr>(e)),
            Outcome::Panic => r is None,
        },
    decreases v,
{
    let ghost sv = elements_view(v@);
    let ghost cpv = cp.deep_view();
    let mut out: Vec<(String, AnnotationValue)> = Vec::new();
    let mut i: usize = 0;
    proof {
        assert(sv.subrange(0, 0) =~= Seq::<SpecAnnotationElement>::empty());
        assert(pairs_view(out@) =~= Seq::<(Seq<char>, SpecAnnotationValue)>::empty());
    }
    while i < v.len()
        invariant
            i <= v.len(),
            sv == elements_view(v@),
            cpv == cp.deep_view(),
            spec_pairs(cpv, sv.subrange(0, i as int), visible) == Outcome::Value(pairs_view(out@)),
        decreases v.len() - i,
    {
        proof {
            assert(decreases_to!(v => v[i as int]));
        }
        let ghost t = sv.subrange(0, i + 1);
        proof {
            assert(t.subrange(0, t.len() - 1) =~= sv.subrange(0, i as int));
            assert(t[t.len() - 1] == element_view(v@[i as int]));
        }
        match read_pair(cp, &v[i], visible) {
            Some(Ok(p)) => {
                let ghost before = pairs_view(out@);
                out.push(p);
                proof {
                    assert(pairs_view(out@) =~= before.push(pair_view(p)));
                }
            },
            Some(Err(e)) => {
                proof {
                    lemma_pairs_stuck(cpv, sv, visible, i + 1, v.len() as int);
                    assert(sv.subrange(0, v.len() as int) =~= sv);
                }
                return Some(Err(e));
            },
            None => {
                proof {
                    lemma_pairs_stuck(cpv, sv, visible, i + 1, v.len() as int);
                    assert(sv.subrange(0, v.len() as int) =~= sv);
                }
                return None;
            },
        }
        i = i + 1;
    }
    proof {
        assert(sv.subrange(0, v.len() as int) =~= sv);
    }
    Some(Ok(out))
}

/// Reads an element-value pair, as [spec_pair] says.
fn read_pair(cp: &Vec<CPInfo>, e: &AnnotationElement, visible: bool) -> (r: Option<AsmResult<(String, AnnotationValue)>>)
    ensures
        match spec_pair(cp.deep_view(), element_view(*e), visible) {
            Outcome::Value(x) => r matches Some(Ok(y)) && pair_view(y) == x,
            Outcome::Error(err) => r == Some(Err::<(String, AnnotationValue), AsmErr>(err)),
            Outcome::Panic => r is None,
        },
    decreases e,
{
    let name = match read_utf8(cp, e.element_name_index) {
        Some(Ok(v)) => v,
        Some(Err(err)) => {
            return Some(Err(err));
        },
        None => {
            return None;
        },
    };
    match read_annotation_value(cp, &e.value, visible) {
        Some(Ok(value)) => Some(Ok((name, value))),
        Some(Err(err)) => Some(Err(err)),
        None => None,
    }
}

/// Reads an element value, as [spec_annotation_value] says.
fn read_annotation_value(cp: &Vec<CPInfo>, v: &AnnotationElementValueInfo, visible: bool) -> (r: Option<
    AsmResult<AnnotationValue>,
>)
    ensures
        match spec_annotation_value(cp.deep_view(), element_value_info_view(*v), visible) {
            Outcome::Value(x) => r matches Some(Ok(y)) && annotation_value_view(y) == x,
            Outcome::Error(e) => r == Some(Err::<AnnotationValue, AsmErr>(e)),
            Outcome::Panic => r is None,
        },
    decreases v,
{
    match &v.value {
        AnnotationElementValue::Const { const_value_index } => match try_resolve(cp, *const_value_index, cp.len()) {
            Some(Ok(c)) => Some(Ok(AnnotationValue::Const(c))),
            Some(Err(e)) => Some(Err(e)),
            None => None,
        },
        AnnotationElementValue::EnumConst { type_name_index, const_name_index } => {
            let t = match read_utf8(cp, *type_name_index) {
                Some(Ok(x)) => x,
                Some(Err(e)) => {
                    return Some(Err(e));
                },
                None => {
                    return None;
                },
            };
            match read_utf8(cp, *const_name_index) {
                Some(Ok(n)) => Some(Ok(AnnotationValue::Enum(t, n))),
                Some(Err(e)) => Some(Err(e)),
                None => None,
            }
        },
        AnnotationElementValue::Class { class_info_index } => match read_utf8(cp, *class_info_index) {
            Some(Ok(c)) => Some(Ok(AnnotationValue::Class(c))),
            Some(Err(e)) => Some(Err(e)),
            None => None,
        },
        AnnotationElementValue::Annotation { annotation_value } => match read_annotation(
            cp,
            annotation_value,
            visible,
        ) {
            Some(Ok(a)) => Some(Ok(AnnotationValue::Annotation(a))),
            Some(Err(e)) => Some(Err(e)),
            None => None,
        },
        AnnotationElementValue::Array { values, .. } => match read_annotation_values(cp, values, visible) {
            Some(Ok(vs)) => Some(Ok(AnnotationValue::Array(vs))),
            Some(Err(e)) => Some(Err(e)),
            None => None,
        },
    }
}

/// Reads element values, as [spec_annotation_values] says.
fn read_annotation_values(cp: &Vec<CPInfo>, v: &Vec<AnnotationElementValueInfo>, visible: bool) -> (r: Option<
    AsmResult<Vec<AnnotationValue>>,
>)
    ensures
        match spec_annotation_values(cp.deep_view(), element_value_infos_view(v@), visible) {
            Outcome::Value(x) => r matches Some(Ok(y)) && annotation_values_view(y@) == x,
            Outcome::Error(e) => r == Some(Err::<Vec<AnnotationValue>, AsmErr>(e)),
            Outcome::Panic => r is None,
        },
    decreases v,
{
    let ghost sv = element_value_infos_view(v@);
    let ghost cpv = cp.deep_view();
    let mut out: Vec<AnnotationValue> = Vec::new();
    let mut i: usize = 0;
    proof {
        assert(sv.subrange(0, 0) =~= Seq::<SpecAnnotationElementValueInfo>::empty());
        assert(annotation_values_view(out@) =~= Seq::<SpecAnnotationValue>::empty());
    }
    while i < v.len()
        invariant
            i <= v.len(),
            sv == element_value_infos_view(v@),
            cpv == cp.deep_view(),
            spec_annotation_values(cpv, sv.subrange(0, i as int), visible) == Outcome::Value(
                annotation_values_view(out@),
            ),
        decreases v.len() - i,
    {
        proof {
            assert(decreases_to!(v => v[i as int]));
        }
        let ghost t = sv.subrange(0, i + 1);
        proof {
            assert(t.subrange(0, t.len() - 1) =~= sv.subrange(0, i as int));
            assert(t[t.len() - 1] == element_value_info_view(v@[i as int]));
        }
        match read_annotation_value(cp, &v[i], visible) {
            Some(Ok(x)) => {
                let ghost before = annotation_values_view(out@);
                out.push(x);
                proof {
                    assert(annotation_values_view(out@) =~= before.push(annotation_value_view(x)));
                }
            },
            Some(Err(e)) => {
                proof {
                    lemma_values_stuck(cpv, sv, visible, i + 1, v.len() as int);
                    assert(sv.subrange(0, v.len() as int) =~= sv);
                }
                return Some(Err(e));
            },
            None => {
                proof {
                    lemma_values_stuck(cpv, sv, visible, i + 1, v.len() as int);
                    assert(sv.subrange(0, v.len() as int) =~= sv);
                }
                return None;
            },
        }
        i = i + 1;
    }
    proof {
        assert(sv.subrange(0, v.len() as int) =~= sv);
    }
    Some(Ok(out))
}

/// Once a prefix of element-value pairs stops, the whole list stops the same way.
proof fn lemma_pairs_stuck(cp: Seq<SpecCPInfo>, s: Seq<SpecAnnotationElement>, visible: bool, i: int, n: int)
    requires
        0 <= i <= n <= s.len(),
        !(spec_pairs(cp, s.subrange(0, i), visible) is Value),
    ensures
        spec_pairs(cp, s.subrange(0, n), visible) == spec_pairs(cp, s.subrange(0, i), visible),
    decreases n - i,
{
    if i < n {
        lemma_pairs_stuck(cp, s, visible, i, n - 1);
        let t = s.subrange(0, n);
        assert(t.subrange(0, t.len() - 1) =~= s.subrange(0, n - 1));
    }
}

/// Once a prefix of element values stops, the whole list stops the same way.
proof fn lemma_values_stuck(cp: Seq<SpecCPInfo>, s: Seq<SpecAnnotationElementValueInfo>, visible: bool, i: int, n: int)
    requires
        0 <= i <= n <= s.len(),
        !(spec_annotation_values(cp, s.subrange(0, i), visible) is Value),
    ensures
        spec_annotation_values(cp, s.subrange(0, n), visible) == spec_annotation_values(cp, s.subrange(0, i), visible),
    decreases n - i,
{
    if i < n {
        lemma_values_stuck(cp, s, visible, i, n - 1);
        let t = s.subrange(0, n);
        assert(t.subrange(0, t.len() - 1) =~= s.subrange(0, n - 1));
    }
}

/// Reads the annotations `v`, first to last.
fn read_annotations(cp: &Vec<CPInfo>, v: &Vec<AnnotationInfo>, visible: bool) -> (r: Option<
    AsmResult<Vec<AnnotationNode>>,
>)
    ensures
        match map_outcome(annotations_view(v@), annotation_fn(cp.deep_view(), visible)) {
            Outcome::Value(x) => r matches Some(Ok(y)) && annotation_nodes_view(y@) == x,
            Outcome::Error(e) => r == Some(Err::<Vec<AnnotationNode>, AsmErr>(e)),
            Outcome::Panic => r is None,
        },
{
    let ghost s = annotations_view(v@);
    let ghost f = annotation_fn(cp.deep_view(), visible);
    let n = v.len();
    let mut out: Vec<AnnotationNode> = Vec::new();
    let mut i: usize = 0;
    proof {
        assert(s.take(0) =~= Seq::<SpecAnnotationInfo>::empty());
        assert(annotation_nodes_view(out@) =~= Seq::<SpecAnnotationNode>::empty());
    }
    while i < n
        invariant
            n == s.len(),
            n == v.len(),
            s == annotations_view(v@),
            f == annotation_fn(cp.deep_view(), visible),
            i <= n,
            map_outcome(s.take(i as int), f) == Outcome::Value(annotation_nodes_view(out@)),
        decreases n - i,
    {
        proof {
            assert(s.take(i + 1).drop_last() =~= s.take(i as int));
            assert(s.take(i + 1).last() == annotation_view(v@[i as int]));
            assert(s.take(n as int) =~= s);
        }
        match read_annotation(cp, &v[i], visible) {
            Some(Ok(node)) => {
                let ghost before = annotation_nodes_view(out@);
                out.push(node);
                proof {
                    assert(annotation_nodes_view(out@) =~= before.push(annotation_node_view(node)));
                }
            },
            Some(Err(e)) => {
                proof {
                    lemma_map_outcome_stuck(s, f, i + 1, n as int);
                }
                return Some(Err(e));
            },
            None => {
                proof {
                    lemma_map_outcome_stuck(s, f, i + 1, n as int);
                }
                return None;
            },
        }
        i = i + 1;
    }
    proof {
        assert(s.take(n as int) =~= s);
    }
    Some(Ok(out))
}

/// Adds the annotations `v` to `acc`, as [annotations_step] says.
fn annotations_update(cp: &Vec<CPInfo>, acc: &mut ClassAttrs, v: &Vec<AnnotationInfo>, visible: bool) -> (r: Option<
    AsmResult<()>,
>)
    ensures
        match annotations_step(cp.deep_view(), class_attrs_view(*old(acc)), annotations_view(v@), visible) {
            Outcome::Value(x) => r == Some(Ok::<(), AsmErr>(())) && class_attrs_view(*final(acc)) == x,
            Outcome::Error(e) => r == Some(Err::<(), AsmErr>(e)),
            Outcome::Panic => r is None,
        },
{
    let ghost before = class_attrs_view(*acc);
    match read_annotations(cp, v, visible) {
        Some(Ok(mut found)) => {
            let ghost added = annotation_nodes_view(found@);
            let ghost kept = annotation_nodes_view(acc.annotations@);
            acc.annotations.append(&mut found);
            proof {
                assert(annotation_nodes_view(acc.annotations@) =~= kept + added);
                assert(class_attrs_view(*acc) =~= SpecClassAttrs { annotations: before.annotations + added, ..before });
            }
            Some(Ok(()))
        },
        Some(Err(e)) => Some(Err(e)),
        None => None,
    }
}

/// A copy of the values `v`.
fn copy_vec<T: Copy>(v: &Vec<T>) -> (r: Vec<T>)
    ensures
        r@ == v@,
{
    let mut out: Vec<T> = Vec::new();
    let mut i: usize = 0;
    while i < v.len()
        invariant
            i <= v.len(),
            out@ == v@.subrange(0, i as int),
        decreases v.len() - i,
    {
        out.push(v[i]);
        proof {
            assert(out@ =~= v@.subrange(0, i + 1));
        }
        i = i + 1;
    }
    proof {
        assert(v@.subrange(0, v.len() as int) =~= v@);
    }
    out
}

/// A copy of the target of a type annotation.
fn copy_target_info(t: &TypeAnnotationTargetInfo) -> (r: TypeAnnotationTargetInfo)
    ensures
        target_info_view(r) == target_info_view(*t),
{
    match t {
        TypeAnnotationTargetInfo::TypeParameter { type_parameter_index } => TypeAnnotationTargetInfo::TypeParameter {
            type_parameter_index: *type_parameter_index,
        },
        TypeAnnotationTargetInfo::SuperType { supertype_index } => TypeAnnotationTargetInfo::SuperType {
            supertype_index: *supertype_index,
        },
        TypeAnnotationTargetInfo::TypeParameterBound { type_parameter_index, bound_index } =>
            TypeAnnotationTargetInfo::TypeParameterBound {
            type_parameter_index: *type_parameter_index,
            bound_index: *bound_index,
        },
        TypeAnnotationTargetInfo::Empty => TypeAnnotationTargetInfo::Empty,
        TypeAnnotationTargetInfo::FormalParameter { formal_parameter_index } =>
            TypeAnnotationTargetInfo::FormalParameter { formal_parameter_index: *formal_parameter_index },
        TypeAnnotationTargetInfo::Throws { throws_type_index } => TypeAnnotationTargetInfo::Throws {
            throws_type_index: *throws_type_index,
        },
        TypeAnnotationTargetInfo::LocalVar { table_length, table } => TypeAnnotationTargetInfo::LocalVar {
            table_length: *table_length,
            table: copy_vec(table),
        },
        TypeAnnotationTargetInfo::Catch { exception_table_index } => TypeAnnotationTargetInfo::Catch {
            exception_table_index: *exception_table_index,
        },
        TypeAnnotationTargetInfo::Offset { offset } => TypeAnnotationTargetInfo::Offset { offset: *offset },
        TypeAnnotationTargetInfo::TypeArgument { offset, type_argument_index } =>
            TypeAnnotationTargetInfo::TypeArgument { offset: *offset, type_argument_index: *type_argument_index },
    }
}

/// Reads a type annotation, as [spec_type_annotation] says.
fn read_type_annotation(cp: &Vec<CPInfo>, t: &TypeAnnotation, visible: bool) -> (r: Option<
    AsmResult<TypeAnnotationNode>,
>)
    ensures
        match spec_type_annotation(cp.deep_view(), type_annotation_view(*t), visible) {
            Outcome::Value(v) => r matches Some(Ok(x)) && type_annotation_node_view(x) == v,
            Outcome::Error(e) => r == Some(Err::<TypeAnnotationNode, AsmErr>(e)),
            Outcome::Panic => r is None,
        },
{
    let desc = match read_utf8(cp, t.type_index) {
        Some(Ok(v)) => v,
        Some(Err(e)) => {
            return Some(Err(e));
        },
        None => {
            return None;
        },
    };
    match read_pairs(cp, &t.element_value_pairs, visible) {
        Some(Ok(values)) => {
            let target_path = TypeAnnotationTargetPath {
                path_length: t.target_path.path_length,
                path: copy_vec(&t.target_path.path),
            };
            Some(
                Ok(
                    TypeAnnotationNode {
                        target_type: t.target_type,
                        target_info: copy_target_info(&t.target_info),
                        target_path,
                        annotation_node: AnnotationNode { visible, desc, values },
                    },
                ),
            )
        },
        Some(Err(e)) => Some(Err(e)),
        None => None,
    }
}

/// Reads the type annotations `v`, first to last.
fn read_type_annotations(cp: &Vec<CPInfo>, v: &Vec<TypeAnnotation>, visible: bool) -> (r: Option<
    AsmResult<Vec<TypeAnnotationNode>>,
>)
    ensures
        match map_outcome(type_annotations_view(v@), type_annotation_fn(cp.deep_view(), visible)) {
            Outcome::Value(x) => r matches Some(Ok(y)) && type_annotation_nodes_view(y@) == x,
            Outcome::Error(e) => r == Some(Err::<Vec<TypeAnnotationNode>, AsmErr>(e)),
            Outcome::Panic => r is None,
        },
{
    let ghost s = type_annotations_view(v@);
    let ghost f = type_annotation_fn(cp.deep_view(), visible);
    let n = v.len();
    let mut out: Vec<TypeAnnotationNode> = Vec::new();
    let mut i: usize = 0;
    proof {
        assert(s.take(0) =~= Seq::<SpecTypeAnnotation>::empty());
        assert(type_annotation_nodes_view(out@) =~= Seq::<SpecTypeAnnotationNode>::empty());
    }
    while i < n
        invariant
            n == s.len(),
            n == v.len(),
            s == type_annotations_view(v@),
            f == type_annotation_fn(cp.deep_view(), visible),
            i <= n,
            map_outcome(s.take(i as int), f) == Outcome::Value(type_annotation_nodes_view(out@)),
        decreases n - i,
    {
        proof {
            assert(s.take(i + 1).drop_last() =~= s.take(i as int));
            assert(s.take(i + 1).last() == type_annotation_view(v@[i as int]));
            assert(s.take(n as int) =~= s);
        }
        match read_type_annotation(cp, &v[i], visible) {
            Some(Ok(node)) => {
                let ghost before = type_annotation_nodes_view(out@);
                out.push(node);
                proof {
                    assert(type_annotation_nodes_view(out@) =~= before.push(type_annotation_node_view(node)));
                }
            },
            Some(Err(e)) => {
                proof {
                    lemma_map_outcome_stuck(s, f, i + 1, n as int);
                }
                return Some(Err(e));
            },
            None => {
                proof {
                    lemma_map_outcome_stuck(s, f, i + 1, n as int);
                }
                return None;
            },
        }
        i = i + 1;
    }
    proof {
        assert(s.take(n as int) =~= s);
    }
    Some(Ok(out))
}

/// Adds the type annotations `v` to `acc`, as [type_annotations_step] says.
fn type_annotations_update(cp: &Vec<CPInfo>, acc: &mut ClassAttrs, v: &Vec<TypeAnnotation>, visible: bool) -> (r: Option<
    AsmResult<()>,
>)
    ensures
        match type_annotations_step(cp.deep_view(), class_attrs_view(*old(acc)), type_annotations_view(v@), visible) {
            Outcome::Value(x) => r == Some(Ok::<(), AsmErr>(())) && class_attrs_view(*final(acc)) == x,
            Outcome::Error(e) => r == Some(Err::<(), AsmErr>(e)),
            Outcome::Panic => r is None,
        },
{
    let ghost before = class_attrs_view(*acc);
    match read_type_annotations(cp, v, visible) {
        Some(Ok(mut found)) => {
            let ghost added = type_annotation_nodes_view(found@);
            let ghost kept = type_annotation_nodes_view(acc.type_annotations@);
            acc.type_annotations.append(&mut found);
            proof {
                assert(type_annotation_nodes_view(acc.type_annotations@) =~= kept + added);
                assert(class_attrs_view(*acc) =~= SpecClassAttrs {
                    type_annotations: before.type_annotations + added,
                    ..before
                });
            }
            Some(Ok(()))
        },
        Some(Err(e)) => Some(Err(e)),
        None => None,
    }
}

/// What the attributes of a class give, held as values.
pub struct ClassAttrs {
    pub signature: Option<String>,
    pub source_file: Option<String>,
    pub source_debug: Option<String>,
    pub module: Option<ModuleNode>,
    pub module_packages: Option<Vec<String>>,
    pub module_main: Option<String>,
    pub outer_class: Option<String>,
    pub outer_method: Option<String>,
    pub outer_method_desc: Option<String>,
    pub annotations: Vec<AnnotationNode>,
    pub type_annotations: Vec<TypeAnnotationNode>,
    pub inner_classes: Vec<InnerClassNode>,
    pub nest_host_class: Option<String>,
    pub nest_members: Vec<String>,
    pub permitted_subclasses: Vec<String>,
    pub record_components: Vec<RecordComponentNode>,
    pub attrs: Vec<UnknownAttribute>,
}

/// The mathematical value of a [ClassAttrs].
pub open spec fn class_attrs_view(a: ClassAttrs) -> SpecClassAttrs {
    SpecClassAttrs {
        signature: opt_view(a.signature),
        source_file: opt_view(a.source_file),
        source_debug: opt_view(a.source_debug),
        module: match a.module {
            Some(m) => Some(m.deep_view()),
            None => None,
        },
        module_packages: match a.module_packages {
            Some(p) => Some(texts(p@)),
            None => None,
        },
        module_main: opt_view(a.module_main),
        outer_class: opt_view(a.outer_class),
        outer_method: opt_view(a.outer_method),
        outer_method_desc: opt_view(a.outer_method_desc),
        annotations: annotation_nodes_view(a.annotations@),
        type_annotations: type_annotation_nodes_view(a.type_annotations@),
        inner_classes: a.inner_classes.deep_view(),
        nest_host_class: opt_view(a.nest_host_class),
        nest_members: texts(a.nest_members@),
        permitted_subclasses: texts(a.permitted_subclasses@),
        record_components: a.record_components.deep_view(),
        attrs: a.attrs.deep_view(),
    }
}

/// Reads the enclosing-method attribute into `acc`, as [enclosing_step] says.
fn enclosing_update(cp: &Vec<CPInfo>, acc: &mut ClassAttrs, class_index: u16, method_index: u16) -> (r: Option<
    AsmResult<()>,
>)
    ensures
        match enclosing_step(cp.deep_view(), class_attrs_view(*old(acc)), class_index, method_index) {
            Outcome::Value(v) => r == Some(Ok::<(), AsmErr>(())) && class_attrs_view(*final(acc)) == v,
            Outcome::Error(e) => r == Some(Err::<(), AsmErr>(e)),
            Outcome::Panic => r is None,
        },
{
    let c = match try_resolve_class(cp, class_index, cp.len()) {
        Some(Ok(v)) => v,
        Some(Err(e)) => {
            return Some(Err(e));
        },
        None => {
            return None;
        },
    };
    if method_index == 0 {
        acc.outer_class = Some(c);
        acc.outer_method = None;
        acc.outer_method_desc = None;
        return Some(Ok(()));
    }
    match try_resolve_name_and_type(cp, method_index, cp.len()) {
        Some(Ok((name, desc))) => {
            acc.outer_class = Some(c);
            acc.outer_method = Some(name);
            acc.outer_method_desc = Some(desc);
            Some(Ok(()))
        },
        Some(Err(e)) => Some(Err(e)),
        None => None,
    }
}

/// Adds the inner classes `classes` to `acc`, as [inner_classes_step] says.
fn inner_classes_update(cp: &Vec<CPInfo>, acc: &mut ClassAttrs, classes: &Vec<InnerClassInfo>) -> (r: Option<
    AsmResult<()>,
>)
    ensures
        match inner_classes_step(cp.deep_view(), class_attrs_view(*old(acc)), classes.deep_view()) {
            Outcome::Value(v) => r == Some(Ok::<(), AsmErr>(())) && class_attrs_view(*final(acc)) == v,
            Outcome::Error(e) => r == Some(Err::<(), AsmErr>(e)),
            Outcome::Panic => r is None,
        },
{
    let ghost before = class_attrs_view(*acc);
    proof {
        assert(classes.deep_view() =~= classes@);
    }
    match read_inner_classes(cp, classes) {
        Some(Ok(mut found)) => {
            let ghost added = found.deep_view();
            let ghost kept = acc.inner_classes.deep_view();
            acc.inner_classes.append(&mut found);
            proof {
                assert(acc.inner_classes.deep_view() =~= kept + added);
                assert(class_attrs_view(*acc) =~= SpecClassAttrs { inner_classes: before.inner_classes + added, ..before });
            }
            Some(Ok(()))
        },
        Some(Err(e)) => Some(Err(e)),
        None => None,
    }
}

/// Keeps the attribute `a` at position `pos` in `acc` under its name, as [other_attr_step]
/// says.
fn other_attr_update(cp: &Vec<CPInfo>, acc: &mut ClassAttrs, a: &AttributeInfo, pos: usize) -> (r: Option<
    AsmResult<()>,
>)
    ensures
        match other_attr_step(cp.deep_view(), class_attrs_view(*old(acc)), attribute_info_view(*a), pos as int) {
            Outcome::Value(v) => r == Some(Ok::<(), AsmErr>(())) && class_attrs_view(*final(acc)) == v,
            Outcome::Error(e) => r == Some(Err::<(), AsmErr>(e)),
            Outcome::Panic => r is None,
        },
{
    let ghost before = class_attrs_view(*acc);
    match read_unknown_attr(cp, a, pos) {
        Some(Ok(u)) => {
            acc.attrs.push(u);
            proof {
                assert(acc.attrs.deep_view() =~= before.attrs.push(u.deep_view()));
                assert(class_attrs_view(*acc) =~= SpecClassAttrs { attrs: before.attrs.push(u.deep_view()), ..before });
            }
            Some(Ok(()))
        },
        Some(Err(e)) => Some(Err(e)),
        None => None,
    }
}

/// Adds what the attribute `a` at position `pos` gives to `acc`, as [class_attr_step] says,
/// for an attribute that lists annotations, inner classes, record components or nest
/// members, or that the node view keeps under its name.
#[verifier::spinoff_prover]
#[verifier::rlimit(30)]
fn class_list_update(cp: &Vec<CPInfo>, acc: &mut ClassAttrs, a: &AttributeInfo, pos: usize) -> (r: Option<
    AsmResult<()>,
>)
    requires
        !(a.info is Signature || a.info is SourceFile || a.info is SourceDebugExtension || a.info is EnclosingMethod
            || a.info is Module || a.info is ModulePackages || a.info is ModuleMainClass),
    ensures
        match class_attr_step(cp.deep_view(), class_attrs_view(*old(acc)), attribute_info_view(*a), pos as int) {
            Outcome::Value(v) => r == Some(Ok::<(), AsmErr>(())) && class_attrs_view(*final(acc)) == v,
            Outcome::Error(e) => r == Some(Err::<(), AsmErr>(e)),
            Outcome::Panic => r is None,
        },
{
    let ghost before = class_attrs_view(*acc);
    match &a.info {
        Attribute::InnerClasses { classes, .. } => {
            return inner_classes_update(cp, acc, classes);
        },
        Attribute::RuntimeVisibleAnnotations { annotations, .. } => {
            return annotations_update(cp, acc, annotations, true);
        },
        Attribute::RuntimeInvisibleAnnotations { annotations, .. } => {
            return annotations_update(cp, acc, annotations, false);
        },
        Attribute::RuntimeVisibleTypeAnnotations { annotations, .. } => {
            return type_annotations_update(cp, acc, annotations, true);
        },
        Attribute::RuntimeInvisibleTypeAnnotations { annotations, .. } => {
            return type_annotations_update(cp, acc, annotations, false);
        },
        Attribute::Record { components, .. } => {
            proof {
                assert(record_components_view(components@) =~= components.deep_view());
            }
            return record_update(cp, acc, components);
        },
        Attribute::NestHost { host_class_index } => match try_resolve_class(cp, *host_class_index, cp.len()) {
            Some(Ok(v)) => {
                acc.nest_host_class = Some(v);
            },
            Some(Err(e)) => {
                return Some(Err(e));
            },
            None => {
                return None;
            },
        },
        Attribute::NestMembers { classes, .. } => match read_class_names(cp, classes) {
            Some(Ok(mut names)) => {
                let ghost added = texts(names@);
                let ghost kept = acc.nest_members@;
                acc.nest_members.append(&mut names);
                proof {
                    assert(texts(acc.nest_members@) =~= texts(kept) + added);
                    assert(class_attrs_view(*acc) =~= SpecClassAttrs { nest_members: before.nest_members + added, ..before });
                }
            },
            Some(Err(e)) => {
                return Some(Err(e));
            },
            None => {
                return None;
            },
        },
        Attribute::PermittedSubclasses { classes, .. } => match read_class_names(cp, classes) {
            Some(Ok(mut names)) => {
                let ghost added = texts(names@);
                let ghost kept = acc.permitted_subclasses@;
                acc.permitted_subclasses.append(&mut names);
                proof {
                    assert(texts(acc.permitted_subclasses@) =~= texts(kept) + added);
                    assert(class_attrs_view(*acc) =~= SpecClassAttrs {
                        permitted_subclasses: before.permitted_subclasses + added,
                        ..before
                    });
                }
            },
            Some(Err(e)) => {
                return Some(Err(e));
            },
            None => {
                return None;
            },
        },
        _ => {
            return other_attr_update(cp, acc, a, pos);
        },
    }
    Some(Ok(()))
}

/// Adds what the attribute `a` at position `pos` gives to `acc`, as [class_attr_step] says.
#[verifier::spinoff_prover]
#[verifier::rlimit(30)]
fn class_attr_update(cp: &Vec<CPInfo>, acc: &mut ClassAttrs, a: &AttributeInfo, pos: usize) -> (r: Option<
    AsmResult<()>,
>)
    ensures
        match class_attr_step(cp.deep_view(), class_attrs_view(*old(acc)), attribute_info_view(*a), pos as int) {
            Outcome::Value(v) => r == Some(Ok::<(), AsmErr>(())) && class_attrs_view(*final(acc)) == v,
            Outcome::Error(e) => r == Some(Err::<(), AsmErr>(e)),
            Outcome::Panic => r is None,
        },
{
    let ghost before = class_attrs_view(*acc);
    match &a.info {
        Attribute::Signature { signature_index } => match read_utf8(cp, *signature_index) {
            Some(Ok(v)) => {
                acc.signature = Some(v);
            },
            Some(Err(e)) => {
                return Some(Err(e));
            },
            None => {
                return None;
            },
        },
        Attribute::SourceFile { sourcefile_index } => match read_utf8(cp, *sourcefile_index) {
            Some(Ok(v)) => {
                acc.source_file = Some(v);
            },
            Some(Err(e)) => {
                return Some(Err(e));
            },
            None => {
                return None;
            },
        },
        Attribute::SourceDebugExtension { debug_extension } => match try_mutf8_to_string(debug_extension.as_slice()) {
            Some(Ok(v)) => {
                acc.source_debug = Some(v);
            },
            Some(Err(e)) => {
                return Some(Err(e));
            },
            None => {
                return None;
            },
        },
        Attribute::EnclosingMethod { class_index, method_index } => {
            return enclosing_update(cp, acc, *class_index, *method_index);
        },
        Attribute::Module { .. } => {
            return module_update(cp, acc, a, pos);
        },
        Attribute::ModulePackages { package_index, .. } => {
            return packages_update(cp, acc, package_index);
        },
        Attribute::ModuleMainClass { main_class_index } => match try_resolve_class(cp, *main_class_index, cp.len()) {
            Some(Ok(v)) => {
                acc.module_main = Some(v);
            },
            Some(Err(e)) => {
                return Some(Err(e));
            },
            None => {
                return None;
            },
        },
        _ => {
            return class_list_update(cp, acc, a, pos);
        },
    }
    Some(Ok(()))
}

/// Reads what the attributes of a class give, as [spec_class_attrs] says.
fn class_attrs(cp: &Vec<CPInfo>, attributes: &Vec<AttributeInfo>) -> (r: Option<AsmResult<ClassAttrs>>)
    ensures
        match spec_class_attrs(cp.deep_view(), attributes.deep_view()) {
            Outcome::Value(v) => r matches Some(Ok(x)) && class_attrs_view(x) == v,
            Outcome::Error(e) => r == Some(Err::<ClassAttrs, AsmErr>(e)),
            Outcome::Panic => r is None,
        },
{
    let ghost s = attributes.deep_view();
    let ghost cpv = cp.deep_view();
    let n = attributes.len();
    let mut acc = ClassAttrs {
        signature: None,
        source_file: None,
        source_debug: None,
        module: None,
        module_packages: None,
        module_main: None,
        outer_class: None,
        outer_method: None,
        outer_method_desc: None,
        annotations: Vec::new(),
        type_annotations: Vec::new(),
        inner_classes: Vec::new(),
        nest_host_class: None,
        nest_members: Vec::new(),
        permitted_subclasses: Vec::new(),
        record_components: Vec::new(),
        attrs: Vec::new(),
    };
    let mut i: usize = 0;
    proof {
        assert(s.take(0) =~= Seq::<SpecAttributeInfo>::empty());
        assert(texts(acc.nest_members@) =~= Seq::<Seq<char>>::empty());
        assert(texts(acc.permitted_subclasses@) =~= Seq::<Seq<char>>::empty());
        assert(acc.inner_classes.deep_view() =~= Seq::<SpecInnerClassNode>::empty());
        assert(acc.attrs.deep_view() =~= Seq::<SpecUnknownAttribute>::empty());
        assert(acc.record_components.deep_view() =~= Seq::<SpecRecordComponentNode>::empty());
        assert(annotation_nodes_view(acc.annotations@) =~= Seq::<SpecAnnotationNode>::empty());
        assert(type_annotation_nodes_view(acc.type_annotations@) =~= Seq::<SpecTypeAnnotationNode>::empty());
        assert(class_attrs_view(acc) =~= no_class_attrs());
    }
    while i < n
        invariant
            n == s.len(),
            s == attributes.deep_view(),
            cpv == cp.deep_view(),
            i <= n,
            spec_class_attrs(cpv, s.take(i as int)) == Outcome::Value(class_attrs_view(acc)),
        decreases n - i,
    {
        proof {
            assert(s.take(i + 1).drop_last() =~= s.take(i as int));
            assert(s.take(i + 1).last() == attribute_info_view(attributes@[i as int]));
            assert(s.take(n as int) =~= s);
        }
        match class_attr_update(cp, &mut acc, &attributes[i], i) {
            Some(Ok(())) => {},
            Some(Err(e)) => {
                proof {
                    lemma_class_attrs_stuck(cpv, s, i + 1, n as int);
                }
                return Some(Err(e));
            },
            None => {
                proof {
                    lemma_class_attrs_stuck(cpv, s, i + 1, n as int);
                }
                return None;
            },
        }
        i = i + 1;
    }
    proof {
        assert(s.take(n as int) =~= s);
    }
    Some(Ok(acc))
}

/// Reads the value a field starts with from the entry at `index`.
fn read_field_value(cp: &Vec<CPInfo>, index: u16) -> (r: Option<AsmResult<FieldInitialValue>>)
    ensures
        outcome_option::<FieldInitialValue>(field_value(spec_resolve(cp.deep_view(), index, cp.len() as nat), index), r),
{
    match try_resolve(cp, index, cp.len()) {
        Some(Ok(ConstValue::Integer(i))) => Some(Ok(FieldInitialValue::Integer(i))),
        Some(Ok(ConstValue::Float(f))) => Some(Ok(FieldInitialValue::Float(f))),
        Some(Ok(ConstValue::Long(l))) => Some(Ok(FieldInitialValue::Long(l))),
        Some(Ok(ConstValue::Double(d))) => Some(Ok(FieldInitialValue::Double(d))),
        Some(Ok(ConstValue::String(s))) => Some(Ok(FieldInitialValue::String(s))),
        Some(Ok(_)) => Some(Err(AsmErr::ResolveNode(index))),
        Some(Err(e)) => Some(Err(e)),
        None => None,
    }
}

/// The value of an optional initial value.
pub open spec fn opt_value_view(v: Option<FieldInitialValue>) -> Option<SpecFieldInitialValue> {
    match v {
        Some(y) => Some(y.deep_view()),
        None => None,
    }
}

/// What the attributes of a field give, held as values: its signature, its initial value,
/// the attributes it has beside those, its annotations and its type annotations.
pub type FieldAttrs = (
    Option<String>,
    Option<FieldInitialValue>,
    Vec<UnknownAttribute>,
    Vec<AnnotationNode>,
    Vec<TypeAnnotationNode>,
);

/// Reads what the attributes of a field give, as [spec_field_attrs] says.
fn field_attrs(cp: &Vec<CPInfo>, attributes: &Vec<AttributeInfo>) -> (r: Option<
    AsmResult<FieldAttrs>,
>)
    ensures
        match spec_field_attrs(cp.deep_view(), attributes.deep_view()) {
            Outcome::Value(v) => r matches Some(Ok(x)) && opt_view(x.0) == v.0 && opt_value_view(x.1) == v.1
                && x.2.deep_view() == v.2 && annotation_nodes_view(x.3@) == v.3 && type_annotation_nodes_view(x.4@)
                == v.4,
            Outcome::Error(e) => r == Some(
                Err::<FieldAttrs, AsmErr>(e),
            ),
            Outcome::Panic => r is None,
        },
{
    let ghost s = attributes.deep_view();
    let ghost cpv = cp.deep_view();
    let n = attributes.len();
    let mut signature: Option<String> = None;
    let mut value: Option<FieldInitialValue> = None;
    let mut attrs: Vec<UnknownAttribute> = Vec::new();
    let mut annotations: Vec<AnnotationNode> = Vec::new();
    let mut type_annotations: Vec<TypeAnnotationNode> = Vec::new();
    let mut i: usize = 0;
    proof {
        assert(s.take(0) =~= Seq::<SpecAttributeInfo>::empty());
        assert(attrs.deep_view() =~= Seq::<SpecUnknownAttribute>::empty());
        assert(annotation_nodes_view(annotations@) =~= Seq::<SpecAnnotationNode>::empty());
        assert(type_annotation_nodes_view(type_annotations@) =~= Seq::<SpecTypeAnnotationNode>::empty());
    }
    while i < n
        invariant
            n == s.len(),
            s == attributes.deep_view(),
            cpv == cp.deep_view(),
            i <= n,
            spec_field_attrs(cpv, s.take(i as int)) == Outcome::Value(
                (
                    opt_view(signature),
                    opt_value_view(value),
                    attrs.deep_view(),
                    annotation_nodes_view(annotations@),
                    type_annotation_nodes_view(type_annotations@),
                ),
            ),
        decreases n - i,
    {
        proof {
            assert(s.take(i + 1).drop_last() =~= s.take(i as int));
            assert(s.take(i + 1).last() == attribute_info_view(attributes@[i as int]));
            assert(s.take(n as int) =~= s);
        }
        match &attributes[i].info {
            Attribute::Signature { signature_index } => match read_utf8(cp, *signature_index) {
                Some(Ok(v)) => {
                    signature = Some(v);
                },
                Some(Err(e)) => {
                    proof {
                        lemma_field_attrs_stuck(cpv, s, i + 1, n as int);
                    }
                    return Some(Err(e));
                },
                None => {
                    proof {
                        lemma_field_attrs_stuck(cpv, s, i + 1, n as int);
                    }
                    return None;
                },
            },
            Attribute::ConstantValue { constantvalue_index } => match read_field_value(cp, *constantvalue_index) {
                Some(Ok(v)) => {
                    value = Some(v);
                },
                Some(Err(e)) => {
                    proof {
                        lemma_field_attrs_stuck(cpv, s, i + 1, n as int);
                    }
                    return Some(Err(e));
                },
                None => {
                    proof {
                        lemma_field_attrs_stuck(cpv, s, i + 1, n as int);
                    }
                    return None;
                },
            },
            Attribute::RuntimeVisibleAnnotations { annotations: found, .. } => match read_annotations(cp, found, true) {
                Some(Ok(mut more)) => {
                    let ghost before = annotation_nodes_view(annotations@);
                    let ghost added = annotation_nodes_view(more@);
                    annotations.append(&mut more);
                    proof {
                        assert(annotation_nodes_view(annotations@) =~= before + added);
                    }
                },
                Some(Err(e)) => {
                    proof {
                        lemma_field_attrs_stuck(cpv, s, i + 1, n as int);
                    }
                    return Some(Err(e));
                },
                None => {
                    proof {
                        lemma_field_attrs_stuck(cpv, s, i + 1, n as int);
                    }
                    return None;
                },
            },
            Attribute::RuntimeInvisibleAnnotations { annotations: found, .. } => match read_annotations(cp, found, false) {
                Some(Ok(mut more)) => {
                    let ghost before = annotation_nodes_view(annotations@);
                    let ghost added = annotation_nodes_view(more@);
                    annotations.append(&mut more);
                    proof {
                        assert(annotation_nodes_view(annotations@) =~= before + added);
                    }
                },
                Some(Err(e)) => {
                    proof {
                        lemma_field_attrs_stuck(cpv, s, i + 1, n as int);
                    }
                    return Some(Err(e));
                },
                None => {
                    proof {
                        lemma_field_attrs_stuck(cpv, s, i + 1, n as int);
                    }
                    return None;
                },
            },
            Attribute::RuntimeVisibleTypeAnnotations { annotations: found, .. } => match read_type_annotations(cp, found, true) {
                Some(Ok(mut more)) => {
                    let ghost before = type_annotation_nodes_view(type_annotations@);
                    let ghost added = type_annotation_nodes_view(more@);
                    type_annotations.append(&mut more);
                    proof {
                        assert(type_annotation_nodes_view(type_annotations@) =~= before + added);
                    }
                },
                Some(Err(e)) => {
                    proof {
                        lemma_field_attrs_stuck(cpv, s, i + 1, n as int);
                    }
                    return Some(Err(e));
                },
                None => {
                    proof {
                        lemma_field_attrs_stuck(cpv, s, i + 1, n as int);
                    }
                    return None;
                },
            },
            Attribute::RuntimeInvisibleTypeAnnotations { annotations: found, .. } => match read_type_annotations(cp, found, false) {
                Some(Ok(mut more)) => {
                    let ghost before = type_annotation_nodes_view(type_annotations@);
                    let ghost added = type_annotation_nodes_view(more@);
                    type_annotations.append(&mut more);
                    proof {
                        assert(type_annotation_nodes_view(type_annotations@) =~= before + added);
                    }
                },
                Some(Err(e)) => {
                    proof {
                        lemma_field_attrs_stuck(cpv, s, i + 1, n as int);
                    }
                    return Some(Err(e));
                },
                None => {
                    proof {
                        lemma_field_attrs_stuck(cpv, s, i + 1, n as int);
                    }
                    return None;
                },
            },
            _ => match read_unknown_attr(cp, &attributes[i], i) {
                Some(Ok(u)) => {
                    let ghost before = attrs.deep_view();
                    attrs.push(u);
                    proof {
                        assert(attrs.deep_view() =~= before.push(u.deep_view()));
                    }
                },
                Some(Err(e)) => {
                    proof {
                        lemma_field_attrs_stuck(cpv, s, i + 1, n as int);
                    }
                    return Some(Err(e));
                },
                None => {
                    proof {
                        lemma_field_attrs_stuck(cpv, s, i + 1, n as int);
                    }
                    return None;
                },
            },
        }
        i = i + 1;
    }
    proof {
        assert(s.take(n as int) =~= s);
    }
    Some(Ok((signature, value, attrs, annotations, type_annotations)))
}

/// Reads a field into its node view, as [spec_field_node] says.
fn field_node(cp: &Vec<CPInfo>, field: &FieldInfo) -> (r: Option<AsmResult<FieldNode>>)
    ensures
        outcome_option::<FieldNode>(spec_field_node(cp.deep_view(), field.deep_view()), r),
{
    let name = match read_utf8(cp, field.name_index) {
        Some(Ok(v)) => v,
        Some(Err(e)) => {
            return Some(Err(e));
        },
        None => {
            return None;
        },
    };
    let desc = match read_utf8(cp, field.descriptor_index) {
        Some(Ok(v)) => v,
        Some(Err(e)) => {
            return Some(Err(e));
        },
        None => {
            return None;
        },
    };
    match field_attrs(cp, &field.attributes) {
        Some(Ok((signature, value, attrs, annotations, type_annotations))) => Some(
            Ok(FieldNode { access: field.access_flags, name, desc, signature, value, annotations, type_annotations, attrs }),
        ),
        Some(Err(e)) => Some(Err(e)),
        None => None,
    }
}

/// What the attributes of a method give, held as values.
pub struct MethodAttrs {
    pub signature: Option<String>,
    pub exceptions: Vec<String>,
    pub parameters: Vec<ParameterNode>,
    pub annotations: Vec<AnnotationNode>,
    pub type_annotations: Vec<TypeAnnotationNode>,
    pub attrs: Vec<UnknownAttribute>,
}

/// The mathematical value of a [MethodAttrs].
pub open spec fn method_attrs_view(a: MethodAttrs) -> SpecMethodAttrs {
    SpecMethodAttrs {
        signature: opt_view(a.signature),
        exceptions: texts(a.exceptions@),
        parameters: parameters_view(a.parameters@),
        annotations: annotation_nodes_view(a.annotations@),
        type_annotations: type_annotation_nodes_view(a.type_annotations@),
        attrs: a.attrs.deep_view(),
    }
}

/// The values of the parameters `v`.
pub open spec fn parameters_view(v: Seq<ParameterNode>) -> Seq<SpecParameterNode> {
    v.map_values(|p: ParameterNode| p.deep_view())
}

/// Reads a parameter, as [spec_parameter] says.
fn read_parameter(cp: &Vec<CPInfo>, p: &MethodParameter) -> (r: Option<AsmResult<ParameterNode>>)
    ensures
        outcome_option::<ParameterNode>(spec_parameter(cp.deep_view(), *p), r),
{
    match read_opt_utf8(cp, p.name_index) {
        Some(Ok(name)) => Some(Ok(ParameterNode { name, access: p.access_flags as u32 })),
        Some(Err(e)) => Some(Err(e)),
        None => None,
    }
}

/// Reads the parameters `items`, first to last.
fn read_parameters(cp: &Vec<CPInfo>, items: &Vec<MethodParameter>) -> (r: Option<AsmResult<Vec<ParameterNode>>>)
    ensures
        match map_outcome(items.deep_view(), parameter_fn(cp.deep_view())) {
            Outcome::Value(x) => r matches Some(Ok(y)) && parameters_view(y@) == x,
            Outcome::Error(e) => r == Some(Err::<Vec<ParameterNode>, AsmErr>(e)),
            Outcome::Panic => r is None,
        },
{
    let ghost s = items.deep_view();
    let ghost f = parameter_fn(cp.deep_view());
    let n = items.len();
    let mut out: Vec<ParameterNode> = Vec::new();
    let mut i: usize = 0;
    proof {
        assert(s.take(0) =~= Seq::<MethodParameter>::empty());
        assert(parameters_view(out@) =~= Seq::<SpecParameterNode>::empty());
    }
    while i < n
        invariant
            n == s.len(),
            n == items.len(),
            s == items.deep_view(),
            f == parameter_fn(cp.deep_view()),
            i <= n,
            map_outcome(s.take(i as int), f) == Outcome::Value(parameters_view(out@)),
        decreases n - i,
    {
        proof {
            assert(s.take(i + 1).drop_last() =~= s.take(i as int));
            assert(s.take(i + 1).last() == items@[i as int].deep_view());
            assert(s.take(n as int) =~= s);
        }
        match read_parameter(cp, &items[i]) {
            Some(Ok(node)) => {
                let ghost before = parameters_view(out@);
                out.push(node);
                proof {
                    assert(parameters_view(out@) =~= before.push(node.deep_view()));
                }
            },
            Some(Err(e)) => {
                proof {
                    lemma_map_outcome_stuck(s, f, i + 1, n as int);
                }
                return Some(Err(e));
            },
            None => {
                proof {
                    lemma_map_outcome_stuck(s, f, i + 1, n as int);
                }
                return None;
            },
        }
        i = i + 1;
    }
    proof {
        assert(s.take(n as int) =~= s);
    }
    Some(Ok(out))
}

/// Adds the exceptions at the indices `table` to `acc`.
fn exceptions_update(cp: &Vec<CPInfo>, acc: &mut MethodAttrs, table: &Vec<u16>) -> (r: Option<AsmResult<()>>)
    ensures
        match exceptions_step(cp.deep_view(), method_attrs_view(*old(acc)), table.deep_view()) {
            Outcome::Value(x) => r == Some(Ok::<(), AsmErr>(())) && method_attrs_view(*final(acc)) == x,
            Outcome::Error(e) => r == Some(Err::<(), AsmErr>(e)),
            Outcome::Panic => r is None,
        },
{
    let ghost before = method_attrs_view(*acc);
    proof {
        assert(table.deep_view() =~= table@);
    }
    match read_class_names(cp, table) {
        Some(Ok(mut found)) => {
            let ghost added = texts(found@);
            let ghost kept = texts(acc.exceptions@);
            acc.exceptions.append(&mut found);
            proof {
                assert(texts(acc.exceptions@) =~= kept + added);
                assert(method_attrs_view(*acc) =~= SpecMethodAttrs { exceptions: before.exceptions + added, ..before });
            }
            Some(Ok(()))
        },
        Some(Err(e)) => Some(Err(e)),
        None => None,
    }
}

/// Adds the parameters `items` to `acc`.
fn parameters_update(cp: &Vec<CPInfo>, acc: &mut MethodAttrs, items: &Vec<MethodParameter>) -> (r: Option<AsmResult<()>>)
    ensures
        match parameters_step(cp.deep_view(), method_attrs_view(*old(acc)), items.deep_view()) {
            Outcome::Value(x) => r == Some(Ok::<(), AsmErr>(())) && method_attrs_view(*final(acc)) == x,
            Outcome::Error(e) => r == Some(Err::<(), AsmErr>(e)),
            Outcome::Panic => r is None,
        },
{
    let ghost before = method_attrs_view(*acc);
    match read_parameters(cp, items) {
        Some(Ok(mut found)) => {
            let ghost added = parameters_view(found@);
            let ghost kept = parameters_view(acc.parameters@);
            acc.parameters.append(&mut found);
            proof {
                assert(parameters_view(acc.parameters@) =~= kept + added);
                assert(method_attrs_view(*acc) =~= SpecMethodAttrs { parameters: before.parameters + added, ..before });
            }
            Some(Ok(()))
        },
        Some(Err(e)) => Some(Err(e)),
        None => None,
    }
}

/// Adds the annotations `v` to `acc`, as [method_annotations_step] says.
fn method_annotations_update(cp: &Vec<CPInfo>, acc: &mut MethodAttrs, v: &Vec<AnnotationInfo>, visible: bool) -> (r: Option<AsmResult<()>>)
    ensures
        match method_annotations_step(cp.deep_view(), method_attrs_view(*old(acc)), annotations_view(v@), visible) {
            Outcome::Value(x) => r == Some(Ok::<(), AsmErr>(())) && method_attrs_view(*final(acc)) == x,
            Outcome::Error(e) => r == Some(Err::<(), AsmErr>(e)),
            Outcome::Panic => r is None,
        },
{
    let ghost before = method_attrs_view(*acc);
    match read_annotations(cp, v, visible) {
        Some(Ok(mut found)) => {
            let ghost added = annotation_nodes_view(found@);
            let ghost kept = annotation_nodes_view(acc.annotations@);
            acc.annotations.append(&mut found);
            proof {
                assert(annotation_nodes_view(acc.annotations@) =~= kept + added);
                assert(method_attrs_view(*acc) =~= SpecMethodAttrs { annotations: before.annotations + added, ..before });
            }
            Some(Ok(()))
        },
        Some(Err(e)) => Some(Err(e)),
        None => None,
    }
}

/// Adds the type annotations `v` to `acc`, as [method_type_annotations_step] says.
fn method_type_annotations_update(cp: &Vec<CPInfo>, acc: &mut MethodAttrs, v: &Vec<TypeAnnotation>, visible: bool) -> (r: Option<AsmResult<()>>)
    ensures
        match method_type_annotations_step(cp.deep_view(), method_attrs_view(*old(acc)), type_annotations_view(v@), visible) {
            Outcome::Value(x) => r == Some(Ok::<(), AsmErr>(())) && method_attrs_view(*final(acc)) == x,
            Outcome::Error(e) => r == Some(Err::<(), AsmErr>(e)),
            Outcome::Panic => r is None,
        },
{
    let ghost before = method_attrs_view(*acc);
    match read_type_annotations(cp, v, visible) {
        Some(Ok(mut found)) => {
            let ghost added = type_annotation_nodes_view(found@);
            let ghost kept = type_annotation_nodes_view(acc.type_annotations@);
            acc.type_annotations.append(&mut found);
            proof {
                assert(type_annotation_nodes_view(acc.type_annotations@) =~= kept + added);
                assert(method_attrs_view(*acc) =~= SpecMethodAttrs { type_annotations: before.type_annotations + added, ..before });
            }
            Some(Ok(()))
        },
        Some(Err(e)) => Some(Err(e)),
        None => None,
    }
}

/// Adds what the attribute `a` at position `pos` gives to `acc`, as [method_attr_step] says.
#[verifier::spinoff_prover]
fn method_attr_update(cp: &Vec<CPInfo>, acc: &mut MethodAttrs, a: &AttributeInfo, pos: usize) -> (r: Option<
    AsmResult<()>,
>)
    ensures
        match method_attr_step(cp.deep_view(), method_attrs_view(*old(acc)), attribute_info_view(*a), pos as int) {
            Outcome::Value(v) => r == Some(Ok::<(), AsmErr>(())) && method_attrs_view(*final(acc)) == v,
            Outcome::Error(e) => r == Some(Err::<(), AsmErr>(e)),
            Outcome::Panic => r is None,
        },
{
    let ghost before = method_attrs_view(*acc);
    match &a.info {
        Attribute::Signature { signature_index } => match read_utf8(cp, *signature_index) {
            Some(Ok(v)) => {
                acc.signature = Some(v);
                Some(Ok(()))
            },
            Some(Err(e)) => Some(Err(e)),
            None => None,
        },
        Attribute::Exceptions { exception_index_table, .. } => exceptions_update(cp, acc, exception_index_table),
        Attribute::MethodParameters { parameters, .. } => parameters_update(cp, acc, parameters),
        Attribute::RuntimeVisibleAnnotations { annotations, .. } => method_annotations_update(cp, acc, annotations, true),
        Attribute::RuntimeInvisibleAnnotations { annotations, .. } => method_annotations_update(
            cp,
            acc,
            annotations,
            false,
        ),
        Attribute::RuntimeVisibleTypeAnnotations { annotations, .. } => method_type_annotations_update(
            cp,
            acc,
            annotations,
            true,
        ),
        Attribute::RuntimeInvisibleTypeAnnotations { annotations, .. } => method_type_annotations_update(
            cp,
            acc,
            annotations,
            false,
        ),
        _ => match read_unknown_attr(cp, a, pos) {
            Some(Ok(u)) => {
                acc.attrs.push(u);
                proof {
                    assert(acc.attrs.deep_view() =~= before.attrs.push(u.deep_view()));
                    assert(method_attrs_view(*acc) =~= SpecMethodAttrs { attrs: before.attrs.push(u.deep_view()), ..before });
                }
                Some(Ok(()))
            },
            Some(Err(e)) => Some(Err(e)),
            None => None,
        },
    }
}

/// Once a prefix of method attributes stops, the whole list stops the same way.
proof fn lemma_method_attrs_stuck(cp: Seq<SpecCPInfo>, s: Seq<SpecAttributeInfo>, i: int, n: int)
    requires
        0 <= i <= n <= s.len(),
        !(spec_method_attrs(cp, s.take(i)) is Value),
    ensures
        spec_method_attrs(cp, s.take(n)) == spec_method_attrs(cp, s.take(i)),
    decreases n - i,
{
    if i < n {
        lemma_method_attrs_stuck(cp, s, i, n - 1);
        assert(s.take(n).drop_last() =~= s.take(n - 1));
    }
}

/// Reads what the attributes of a method give, as [spec_method_attrs] says.
fn method_attrs(cp: &Vec<CPInfo>, attributes: &Vec<AttributeInfo>) -> (r: Option<AsmResult<MethodAttrs>>)
    ensures
        match spec_method_attrs(cp.deep_view(), attributes.deep_view()) {
            Outcome::Value(v) => r matches Some(Ok(x)) && method_attrs_view(x) == v,
            Outcome::Error(e) => r == Some(Err::<MethodAttrs, AsmErr>(e)),
            Outcome::Panic => r is None,
        },
{
    let ghost s = attributes.deep_view();
    let ghost cpv = cp.deep_view();
    let n = attributes.len();
    let mut acc = MethodAttrs {
        signature: None,
        exceptions: Vec::new(),
        parameters: Vec::new(),
        annotations: Vec::new(),
        type_annotations: Vec::new(),
        attrs: Vec::new(),
    };
    let mut i: usize = 0;
    proof {
        assert(s.take(0) =~= Seq::<SpecAttributeInfo>::empty());
        assert(method_attrs_view(acc) =~= no_method_attrs());
    }
    while i < n
        invariant
            n == s.len(),
            s == attributes.deep_view(),
            cpv == cp.deep_view(),
            i <= n,
            spec_method_attrs(cpv, s.take(i as int)) == Outcome::Value(method_attrs_view(acc)),
        decreases n - i,
    {
        proof {
            assert(s.take(i + 1).drop_last() =~= s.take(i as int));
            assert(s.take(i + 1).last() == attribute_info_view(attributes@[i as int]));
            assert(s.take(n as int) =~= s);
        }
        match method_attr_update(cp, &mut acc, &attributes[i], i) {
            Some(Ok(())) => {},
            Some(Err(e)) => {
                proof {
                    lemma_method_attrs_stuck(cpv, s, i + 1, n as int);
                }
                return Some(Err(e));
            },
            None => {
                proof {
                    lemma_method_attrs_stuck(cpv, s, i + 1, n as int);
                }
                return None;
            },
        }
        i = i + 1;
    }
    proof {
        assert(s.take(n as int) =~= s);
    }
    Some(Ok(acc))
}

/// Reads a method into its node view, as [spec_method_node] says.
fn method_node(cp: &Vec<CPInfo>, method: &MethodInfo) -> (r: Option<AsmResult<MethodNode>>)
    ensures
        outcome_option::<MethodNode>(spec_method_node(cp.deep_view(), method.deep_view()), r),
{
    let name = match read_utf8(cp, method.name_index) {
        Some(Ok(v)) => v,
        Some(Err(e)) => {
            return Some(Err(e));
        },
        None => {
            return None;
        },
    };
    let desc = match read_utf8(cp, method.descriptor_index) {
        Some(Ok(v)) => v,
        Some(Err(e)) => {
            return Some(Err(e));
        },
        None => {
            return None;
        },
    };
    match method_attrs(cp, &method.attributes) {
        Some(Ok(a)) => {
            let node = MethodNode {
                access: method.access_flags,
                name,
                desc,
                signature: a.signature,
                exceptions: a.exceptions,
                parameters: a.parameters,
                annotations: a.annotations,
                type_annotations: a.type_annotations,
                attrs: a.attrs,
            };
            proof {
                assert(node.deep_view().exceptions =~= texts(node.exceptions@));
                assert(node.deep_view().parameters =~= parameters_view(node.parameters@));
            }
            Some(Ok(node))
        },
        Some(Err(e)) => Some(Err(e)),
        None => None,
    }
}

/// Reads the fields of a class file into their node views, first to last.
fn field_nodes(cf: &ClassFile) -> (r: Option<AsmResult<Vec<FieldNode>>>)
    ensures
        outcome_option::<Vec<FieldNode>>(
            map_outcome(cf.fields.deep_view(), field_node_fn(cf.constant_pool.deep_view())),
            r,
        ),
{
    let ghost s = cf.fields.deep_view();
    let ghost f = field_node_fn(cf.constant_pool.deep_view());
    let n = cf.fields.len();
    let mut out: Vec<FieldNode> = Vec::new();
    let mut i: usize = 0;
    proof {
        assert(s.take(0) =~= Seq::<SpecMemberInfo>::empty());
        assert(out.deep_view() =~= Seq::<SpecFieldNode>::empty());
    }
    while i < n
        invariant
            n == s.len(),
            s == cf.fields.deep_view(),
            f == field_node_fn(cf.constant_pool.deep_view()),
            i <= n,
            map_outcome(s.take(i as int), f) == Outcome::Value(out.deep_view()),
        decreases n - i,
    {
        proof {
            assert(s.take(i + 1).drop_last() =~= s.take(i as int));
            assert(s.take(i + 1).last() == cf.fields@[i as int].deep_view());
            assert(s.take(n as int) =~= s);
        }
        match field_node(&cf.constant_pool, &cf.fields[i]) {
            Some(Ok(node)) => {
                let ghost before = out.deep_view();
                out.push(node);
                proof {
                    assert(out.deep_view() =~= before.push(node.deep_view()));
                }
            },
            Some(Err(e)) => {
                proof {
                    lemma_map_outcome_stuck(s, f, i + 1, n as int);
                }
                return Some(Err(e));
            },
            None => {
                proof {
                    lemma_map_outcome_stuck(s, f, i + 1, n as int);
                }
                return None;
            },
        }
        i = i + 1;
    }
    proof {
        assert(s.take(n as int) =~= s);
    }
    Some(Ok(out))
}

/// Reads the methods of a class file into their node views, first to last.
fn method_nodes(cf: &ClassFile) -> (r: Option<AsmResult<Vec<MethodNode>>>)
    ensures
        outcome_option::<Vec<MethodNode>>(
            map_outcome(cf.methods.deep_view(), method_node_fn(cf.constant_pool.deep_view())),
            r,
        ),
{
    let ghost s = cf.methods.deep_view();
    let ghost f = method_node_fn(cf.constant_pool.deep_view());
    let n = cf.methods.len();
    let mut out: Vec<MethodNode> = Vec::new();
    let mut i: usize = 0;
    proof {
        assert(s.take(0) =~= Seq::<SpecMemberInfo>::empty());
        assert(out.deep_view() =~= Seq::<SpecMethodNode>::empty());
    }
    while i < n
        invariant
            n == s.len(),
            s == cf.methods.deep_view(),
            f == method_node_fn(cf.constant_pool.deep_view()),
            i <= n,
            map_outcome(s.take(i as int), f) == Outcome::Value(out.deep_view()),
        decreases n - i,
    {
        proof {
            assert(s.take(i + 1).drop_last() =~= s.take(i as int));
            assert(s.take(i + 1).last() == cf.methods@[i as int].deep_view());
            assert(s.take(n as int) =~= s);
        }
        match method_node(&cf.constant_pool, &cf.methods[i]) {
            Some(Ok(node)) => {
                let ghost before = out.deep_view();
                out.push(node);
                proof {
                    assert(out.deep_view() =~= before.push(node.deep_view()));
                }
            },
            Some(Err(e)) => {
                proof {
                    lemma_map_outcome_stuck(s, f, i + 1, n as int);
                }
                return Some(Err(e));
            },
            None => {
                proof {
                    lemma_map_outcome_stuck(s, f, i + 1, n as int);
                }
                return None;
            },
        }
        i = i + 1;
    }
    proof {
        assert(s.take(n as int) =~= s);
    }
    Some(Ok(out))
}

/// The optional value of a module.
pub open spec fn opt_module_view(m: Option<ModuleNode>) -> Option<SpecModuleNode> {
    match m {
        Some(x) => Some(x.deep_view()),
        None => None,
    }
}

/// The module of a class, as [module_of] says.
fn assemble_module(module: Option<ModuleNode>, packages: Option<Vec<String>>, main: Option<String>) -> (r: Option<
    ModuleNode,
>)
    ensures
        opt_module_view(r) == module_of(
            opt_module_view(module),
            match packages {
                Some(p) => Some(texts(p@)),
                None => None,
            },
            opt_view(main),
        ),
{
    match module {
        Some(mut m) => {
            m.main_class = main;
            m.packages = match packages {
                Some(p) => p,
                None => Vec::new(),
            };
            proof {
                assert(m.packages@.map_values(|s: String| s@) =~= match packages {
                    Some(p) => texts(p@),
                    None => Seq::<Seq<char>>::empty(),
                });
            }
            Some(m)
        },
        None => None,
    }
}

/// The node view of `jvms_file`, as [spec_class_node] says. It gives `None` exactly where
/// resolving a name panics.
pub fn class_node_from_jvms(jvms_file: ClassFile) -> (r: Option<AsmResult<ClassNode>>)
    ensures
        outcome_option::<ClassNode>(spec_class_node(jvms_file.deep_view()), r),
{
    let name = match try_resolve_class(&jvms_file.constant_pool, jvms_file.this_class, jvms_file.constant_pool.len()) {
        Some(Ok(v)) => v,
        Some(Err(e)) => {
            return Some(Err(e));
        },
        None => {
            return None;
        },
    };
    let super_name = match read_opt_class(&jvms_file.constant_pool, jvms_file.super_class) {
        Some(Ok(v)) => v,
        Some(Err(e)) => {
            return Some(Err(e));
        },
        None => {
            return None;
        },
    };
    proof {
        assert(jvms_file.interfaces.deep_view() =~= jvms_file.interfaces@);
    }
    let interfaces = match read_class_names(&jvms_file.constant_pool, &jvms_file.interfaces) {
        Some(Ok(v)) => v,
        Some(Err(e)) => {
            return Some(Err(e));
        },
        None => {
            return None;
        },
    };
    let attrs = match class_attrs(&jvms_file.constant_pool, &jvms_file.attributes) {
        Some(Ok(v)) => v,
        Some(Err(e)) => {
            return Some(Err(e));
        },
        None => {
            return None;
        },
    };
    let fields = match field_nodes(&jvms_file) {
        Some(Ok(v)) => v,
        Some(Err(e)) => {
            return Some(Err(e));
        },
        None => {
            return None;
        },
    };
    let methods = match method_nodes(&jvms_file) {
        Some(Ok(v)) => v,
        Some(Err(e)) => {
            return Some(Err(e));
        },
        None => {
            return None;
        },
    };
    let module = assemble_module(attrs.module, attrs.module_packages, attrs.module_main);
    let node = ClassNode {
        minor_version: jvms_file.minor_version,
        major_version: jvms_file.major_version,
        access: jvms_file.access_flags,
        name,
        signature: attrs.signature,
        super_name,
        interfaces,
        source_file: attrs.source_file,
        source_debug: attrs.source_debug,
        module,
        outer_class: attrs.outer_class,
        outer_method: attrs.outer_method,
        outer_method_desc: attrs.outer_method_desc,
        annotations: attrs.annotations,
        type_annotations: attrs.type_annotations,
        inner_classes: attrs.inner_classes,
        nest_host_class: attrs.nest_host_class,
        nest_members: attrs.nest_members,
        permitted_subclasses: attrs.permitted_subclasses,
        record_components: attrs.record_components,
        attrs: attrs.attrs,
        fields,
        methods,
    };
    Some(Ok(node))
}

} // verus!

verus! {

/// What reading the node view of a class from `s` gives: the class file that the bytes
/// hold, then its node view.
pub open spec fn spec_node_from_bytes(s: Seq<u8>) -> Outcome<SpecClassNode> {
    match spec_read_class_bytes(s) {
        Outcome::Value(cf) => spec_class_node(cf),
        Outcome::Error(e) => Outcome::Error(e),
        Outcome::Panic => Outcome::Panic,
    }
}

impl ClassNode {
    /// The node view of `jvms_file`, as [spec_class_node] says, on every class file on
    /// which resolving its names does not panic.
    pub fn from_jvms(jvms_file: ClassFile) -> (r: AsmResult<ClassNode>)
        requires
            !(spec_class_node(jvms_file.deep_view()) is Panic),
        ensures
            outcome_result::<ClassNode>(spec_class_node(jvms_file.deep_view()), r),
    {
        match class_node_from_jvms(jvms_file) {
            Some(r) => r,
            None => Err(AsmErr::OutOfRange),
        }
    }

    /// The node view of the class that `bytes` hold, as [spec_node_from_bytes] says. It
    /// gives `None` exactly where reading the class file or resolving a name panics.
    pub fn try_from_bytes(bytes: &[u8]) -> (r: Option<AsmResult<ClassNode>>)
        ensures
            outcome_option::<ClassNode>(spec_node_from_bytes(bytes@), r),
    {
        match JvmsClassReader::try_read_class_bytes(bytes) {
            Some(Ok(cf)) => class_node_from_jvms(cf),
            Some(Err(e)) => Some(Err(e)),
            None => None,
        }
    }

    /// The node view of the class that `bytes` hold, as [spec_node_from_bytes] says, on
    /// every input on which neither reading nor resolving panics.
    pub fn from_bytes(bytes: &[u8]) -> (r: AsmResult<ClassNode>)
        requires
            !(spec_node_from_bytes(bytes@) is Panic),
        ensures
            outcome_result::<ClassNode>(spec_node_from_bytes(bytes@), r),
    {
        match Self::try_from_bytes(bytes) {
            Some(r) => r,
            None => Err(AsmErr::OutOfRange),
        }
    }
}

impl NodeReader {
    /// The node view of the class that `bytes` hold, as [ClassNode::from_bytes] reads it.
    pub fn read_class_bytes(bytes: &[u8]) -> (r: AsmResult<ClassNode>)
        requires
            !(spec_node_from_bytes(bytes@) is Panic),
        ensures
            outcome_result::<ClassNode>(spec_node_from_bytes(bytes@), r),
    {
        ClassNode::from_bytes(bytes)
    }

    /// The node view of `jvms_file`, as [ClassNode::from_jvms] reads it.
    pub fn from_jvms(jvms_file: ClassFile) -> (r: AsmResult<ClassNode>)
        requires
            !(spec_class_node(jvms_file.deep_view()) is Panic),
        ensures
            outcome_result::<ClassNode>(spec_class_node(jvms_file.deep_view()), r),
    {
        ClassNode::from_jvms(jvms_file)
    }
}

} // verus!

verus! {

/// A `CONSTANT_Utf8` entry is read as the string its bytes decode to.
proof fn lemma_res_utf8_entry(cp: Seq<SpecCPInfo>, index: u16, t: Seq<char>)
    requires
        utf8_entry(cp, index, t),
    ensures
        res_utf8(cp, index) == Outcome::Value(t),
{
    assert(spec_resolve(cp, index, cp.len()) == Outcome::Value(SpecConstValue::String(t)));
}

/// After the attribute `s[k]`, a `Signature` attribute naming `t`, and no other
/// `Signature` attribute before position `j`, the signature read so far is `t`.
proof fn lemma_class_attrs_signature(cp: Seq<SpecCPInfo>, s: Seq<SpecAttributeInfo>, k: int, t: Seq<char>, j: int)
    requires
        0 <= k < j <= s.len(),
        s[k].info matches SpecAttribute::Signature { signature_index } && utf8_entry(cp, signature_index, t),
        forall|i: int| k < i < j ==> !(#[trigger] s[i].info is Signature),
    ensures
        spec_class_attrs(cp, s.take(j)) matches Outcome::Value(a) ==> a.signature == Some(t),
    decreases j,
{
    let p = s.take(j);
    assert(p.drop_last() =~= s.take(j - 1));
    assert(p.last() == s[j - 1]);
    if j == k + 1 {
        if let SpecAttribute::Signature { signature_index } = s[k].info {
            lemma_res_utf8_entry(cp, signature_index, t);
        }
    } else {
        lemma_class_attrs_signature(cp, s, k, t, j - 1);
        assert(!(s[j - 1].info is Signature));
    }
}

/// Without a `Signature` attribute before position `j`, no signature is read so far.
proof fn lemma_class_attrs_no_signature(cp: Seq<SpecCPInfo>, s: Seq<SpecAttributeInfo>, j: int)
    requires
        0 <= j <= s.len(),
        forall|i: int| 0 <= i < j ==> !(#[trigger] s[i].info is Signature),
    ensures
        spec_class_attrs(cp, s.take(j)) matches Outcome::Value(a) ==> a.signature is None,
    decreases j,
{
    if j > 0 {
        let p = s.take(j);
        assert(p.drop_last() =~= s.take(j - 1));
        assert(p.last() == s[j - 1]);
        lemma_class_attrs_no_signature(cp, s, j - 1);
    }
}

/// The generic signature of a class is the string that its last `Signature` attribute
/// names, and a class without a `Signature` attribute has none.
pub proof fn lemma_class_signature(cf: SpecClassFile, k: int, t: Seq<char>)
    requires
        spec_class_node(cf) is Value,
        0 <= k < cf.attributes.len(),
        cf.attributes[k].info matches SpecAttribute::Signature { signature_index } && utf8_entry(
            cf.constant_pool,
            signature_index,
            t,
        ),
        forall|i: int| k < i < cf.attributes.len() ==> !(#[trigger] cf.attributes[i].info is Signature),
    ensures
        spec_class_node(cf)->Value_0.signature == Some(t),
{
    let s = cf.attributes;
    lemma_class_attrs_signature(cf.constant_pool, s, k, t, s.len() as int);
    assert(s.take(s.len() as int) =~= s);
}

/// A class without a `Signature` attribute has no generic signature.
pub proof fn lemma_class_no_signature(cf: SpecClassFile)
    requires
        spec_class_node(cf) is Value,
        forall|i: int| 0 <= i < cf.attributes.len() ==> !(#[trigger] cf.attributes[i].info is Signature),
    ensures
        spec_class_node(cf)->Value_0.signature is None,
{
    let s = cf.attributes;
    lemma_class_attrs_no_signature(cf.constant_pool, s, s.len() as int);
    assert(s.take(s.len() as int) =~= s);
}

/// After the attribute `s[k]`, a `SourceFile` attribute naming `t`, and no other
/// `SourceFile` attribute before position `j`, the source file read so far is `t`.
proof fn lemma_class_attrs_source_file(cp: Seq<SpecCPInfo>, s: Seq<SpecAttributeInfo>, k: int, t: Seq<char>, j: int)
    requires
        0 <= k < j <= s.len(),
        s[k].info matches SpecAttribute::SourceFile { sourcefile_index } && utf8_entry(cp, sourcefile_index, t),
        forall|i: int| k < i < j ==> !(#[trigger] s[i].info is SourceFile),
    ensures
        spec_class_attrs(cp, s.take(j)) matches Outcome::Value(a) ==> a.source_file == Some(t),
    decreases j,
{
    let p = s.take(j);
    assert(p.drop_last() =~= s.take(j - 1));
    assert(p.last() == s[j - 1]);
    if j == k + 1 {
        if let SpecAttribute::SourceFile { sourcefile_index } = s[k].info {
            lemma_res_utf8_entry(cp, sourcefile_index, t);
        }
    } else {
        lemma_class_attrs_source_file(cp, s, k, t, j - 1);
        assert(!(s[j - 1].info is SourceFile));
    }
}

/// Without a `SourceFile` attribute before position `j`, no source file is read so far.
proof fn lemma_class_attrs_no_source_file(cp: Seq<SpecCPInfo>, s: Seq<SpecAttributeInfo>, j: int)
    requires
        0 <= j <= s.len(),
        forall|i: int| 0 <= i < j ==> !(#[trigger] s[i].info is SourceFile),
    ensures
        spec_class_attrs(cp, s.take(j)) matches Outcome::Value(a) ==> a.source_file is None,
    decreases j,
{
    if j > 0 {
        let p = s.take(j);
        assert(p.drop_last() =~= s.take(j - 1));
        assert(p.last() == s[j - 1]);
        lemma_class_attrs_no_source_file(cp, s, j - 1);
    }
}

/// The source file of a class is the string that its last `SourceFile` attribute
/// names, and a class without a `SourceFile` attribute has none.
pub proof fn lemma_class_source_file(cf: SpecClassFile, k: int, t: Seq<char>)
    requires
        spec_class_node(cf) is Value,
        0 <= k < cf.attributes.len(),
        cf.attributes[k].info matches SpecAttribute::SourceFile { sourcefile_index } && utf8_entry(
            cf.constant_pool,
            sourcefile_index,
            t,
        ),
        forall|i: int| k < i < cf.attributes.len() ==> !(#[trigger] cf.attributes[i].info is SourceFile),
    ensures
        spec_class_node(cf)->Value_0.source_file == Some(t),
{
    let s = cf.attributes;
    lemma_class_attrs_source_file(cf.constant_pool, s, k, t, s.len() as int);
    assert(s.take(s.len() as int) =~= s);
}

/// A class without a `SourceFile` attribute has no source file.
pub proof fn lemma_class_no_source_file(cf: SpecClassFile)
    requires
        spec_class_node(cf) is Value,
        forall|i: int| 0 <= i < cf.attributes.len() ==> !(#[trigger] cf.attributes[i].info is SourceFile),
    ensures
        spec_class_node(cf)->Value_0.source_file is None,
{
    let s = cf.attributes;
    lemma_class_attrs_no_source_file(cf.constant_pool, s, s.len() as int);
    assert(s.take(s.len() as int) =~= s);
}

} // verus!

verus! {

/// A `CONSTANT_Class` entry is read as the class name its `CONSTANT_Utf8` entry holds.
proof fn lemma_res_class_entry(cp: Seq<SpecCPInfo>, index: u16, t: Seq<char>)
    requires
        class_entry(cp, index, t),
    ensures
        res_class(cp, index) == Outcome::Value(t),
{
    if let SpecConst::Class { name_index } = cp[index as int].info {
        assert(name_index != index);
        lemma_resolve_names(cp, index, cp.len(), t);
    }
}

/// Where every item of `s` reads without error, the items are read one for one, in order.
pub proof fn lemma_map_outcome_items<A, B>(s: Seq<A>, f: spec_fn(A) -> Outcome<B>)
    ensures
        map_outcome(s, f) matches Outcome::Value(vs) ==> vs.len() == s.len() && forall|i: int|
            0 <= i < s.len() ==> f(s[i]) == Outcome::Value(#[trigger] vs[i]),
    decreases s.len(),
{
    if s.len() > 0 {
        lemma_map_outcome_items(s.drop_last(), f);
        if let Outcome::Value(vs) = map_outcome(s, f) {
            let ws = map_outcome(s.drop_last(), f)->Value_0;
            assert forall|i: int| 0 <= i < s.len() implies f(s[i]) == Outcome::Value(#[trigger] vs[i]) by {
                if i < s.len() - 1 {
                    assert(vs[i] == ws[i]);
                    assert(s[i] == s.drop_last()[i]);
                }
            }
        }
    }
}

/// The node of a class carries its version and access flags as they are; its name is the
/// class that `this_class` names; its super class is the class that `super_class` names, or
/// none where `super_class` is zero.
#[verifier::spinoff_prover]
#[verifier::rlimit(60)]
pub proof fn lemma_class_node_head(cf: SpecClassFile)
    requires
        spec_class_node(cf) is Value,
    ensures
        ({
            let n = spec_class_node(cf)->Value_0;
            let cp = cf.constant_pool;
            &&& n.minor_version == cf.minor_version && n.major_version == cf.major_version
            &&& n.access == cf.access_flags
            &&& forall|t: Seq<char>| #[trigger] class_entry(cp, cf.this_class, t) ==> n.name == t
            &&& cf.super_class == 0 ==> n.super_name is None
            &&& forall|t: Seq<char>|
                cf.super_class != 0 && #[trigger] class_entry(cp, cf.super_class, t) ==> n.super_name == Some(t)
        }),
{
    let cp = cf.constant_pool;
    let n = spec_class_node(cf)->Value_0;
    assert(res_class(cp, cf.this_class) == Outcome::Value(n.name));
    assert(opt_class(cp, cf.super_class) == Outcome::Value(n.super_name));
    lemma_class_named(cp, cf.this_class, n.name);
    if cf.super_class != 0 {
        lemma_class_named(cp, cf.super_class, n.super_name->Some_0);
    }
}

/// Where the entry at `index` reads as the class name `name`, every class entry that
/// names a string there names `name`.
proof fn lemma_class_named(cp: Seq<SpecCPInfo>, index: u16, name: Seq<char>)
    requires
        res_class(cp, index) == Outcome::Value(name),
    ensures
        forall|t: Seq<char>| #[trigger] class_entry(cp, index, t) ==> name == t,
{
    assert forall|t: Seq<char>| #[trigger] class_entry(cp, index, t) implies name == t by {
        lemma_res_class_entry(cp, index, t);
    }
}

/// The node of a class has one interface for each index of the class file's interface
/// table, in order: the class that the index names.
pub proof fn lemma_class_node_interfaces(cf: SpecClassFile)
    requires
        spec_class_node(cf) is Value,
    ensures
        ({
            let n = spec_class_node(cf)->Value_0;
            &&& n.interfaces.len() == cf.interfaces.len()
            &&& forall|i: int, t: Seq<char>|
                0 <= i < cf.interfaces.len() && #[trigger] class_entry(cf.constant_pool, cf.interfaces[i], t)
                    ==> n.interfaces[i] == t
        }),
{
    let cp = cf.constant_pool;
    let n = spec_class_node(cf)->Value_0;
    lemma_map_outcome_items(cf.interfaces, class_name_fn(cp));
    assert forall|i: int, t: Seq<char>|
        0 <= i < cf.interfaces.len() && #[trigger] class_entry(cp, cf.interfaces[i], t) implies n.interfaces[i] == t by {
        lemma_res_class_entry(cp, cf.interfaces[i], t);
    }
}

/// The node of a class has one field for each of the class file's, in order, each with the
/// access flags of its entry and the name and descriptor its entry names.
pub proof fn lemma_class_node_fields(cf: SpecClassFile)
    requires
        spec_class_node(cf) is Value,
    ensures
        ({
            let n = spec_class_node(cf)->Value_0;
            let cp = cf.constant_pool;
            &&& n.fields.len() == cf.fields.len()
            &&& forall|i: int| 0 <= i < cf.fields.len() ==> (#[trigger] n.fields[i]).access == cf.fields[i].access_flags
            &&& forall|i: int, t: Seq<char>|
                0 <= i < cf.fields.len() && #[trigger] utf8_entry(cp, cf.fields[i].name_index, t) ==> n.fields[i].name == t
            &&& forall|i: int, t: Seq<char>|
                0 <= i < cf.fields.len() && #[trigger] utf8_entry(cp, cf.fields[i].descriptor_index, t)
                    ==> n.fields[i].desc == t
        }),
{
    let cp = cf.constant_pool;
    let n = spec_class_node(cf)->Value_0;
    lemma_map_outcome_items(cf.fields, field_node_fn(cp));
    assert forall|i: int, t: Seq<char>|
        0 <= i < cf.fields.len() && #[trigger] utf8_entry(cp, cf.fields[i].name_index, t) implies n.fields[i].name == t by {
        lemma_res_utf8_entry(cp, cf.fields[i].name_index, t);
    }
    assert forall|i: int, t: Seq<char>|
        0 <= i < cf.fields.len() && #[trigger] utf8_entry(cp, cf.fields[i].descriptor_index, t) implies n.fields[i].desc
        == t by {
        lemma_res_utf8_entry(cp, cf.fields[i].descriptor_index, t);
    }
}

/// The node of a class has one method for each of the class file's, in order, each with
/// the access flags of its entry and the name and descriptor its entry names.
pub proof fn lemma_class_node_methods(cf: SpecClassFile)
    requires
        spec_class_node(cf) is Value,
    ensures
        ({
            let n = spec_class_node(cf)->Value_0;
            let cp = cf.constant_pool;
            &&& n.methods.len() == cf.methods.len()
            &&& forall|i: int| 0 <= i < cf.methods.len() ==> (#[trigger] n.methods[i]).access == cf.methods[i].access_flags
            &&& forall|i: int, t: Seq<char>|
                0 <= i < cf.methods.len() && #[trigger] utf8_entry(cp, cf.methods[i].name_index, t) ==> n.methods[i].name == t
            &&& forall|i: int, t: Seq<char>|
                0 <= i < cf.methods.len() && #[trigger] utf8_entry(cp, cf.methods[i].descriptor_index, t)
                    ==> n.methods[i].desc == t
        }),
{
    let cp = cf.constant_pool;
    let n = spec_class_node(cf)->Value_0;
    lemma_map_outcome_items(cf.methods, method_node_fn(cp));
    assert forall|i: int, t: Seq<char>|
        0 <= i < cf.methods.len() && #[trigger] utf8_entry(cp, cf.methods[i].name_index, t) implies n.methods[i].name == t by {
        lemma_res_utf8_entry(cp, cf.methods[i].name_index, t);
    }
    assert forall|i: int, t: Seq<char>|
        0 <= i < cf.methods.len() && #[trigger] utf8_entry(cp, cf.methods[i].descriptor_index, t) implies n.methods[i].desc
        == t by {
        lemma_res_utf8_entry(cp, cf.methods[i].descriptor_index, t);
    }
}

} // verus!

verus! {

/// Whether `v` is the value that the entry at `index` of `cp` holds: an `int`, `float`,
/// `long` or `double` entry holds the number its bytes make (a `long` or `double` with
/// `high_bytes` as its upper and `low_bytes` as its lower 32 bits), and a `String` entry
/// the string of its `CONSTANT_Utf8` entry.
pub open spec fn holds_value(cp: Seq<SpecCPInfo>, index: u16, v: SpecFieldInitialValue) -> bool {
    &&& index < cp.len()
    &&& match cp[index as int].info {
        SpecConst::Integer { bytes } => v matches SpecFieldInitialValue::Integer(x) && x as u32 == bytes,
        SpecConst::Float { bytes } => v == SpecFieldInitialValue::Float(bytes),
        SpecConst::Long { high_bytes, low_bytes } => v matches SpecFieldInitialValue::Long(x) && (x as u64) >> 32u64
            == high_bytes as u64 && (x as u64) & 0xFFFF_FFFFu64 == low_bytes as u64,
        SpecConst::Double { high_bytes, low_bytes } => v matches SpecFieldInitialValue::Double(x) && x >> 32u64
            == high_bytes as u64 && x & 0xFFFF_FFFFu64 == low_bytes as u64,
        SpecConst::String { string_index } => forall|t: Seq<char>|
            #[trigger] utf8_entry(cp, string_index, t) ==> v == SpecFieldInitialValue::String(t),
        _ => true,
    }
}

/// After the attribute `s[k]`, a `ConstantValue` attribute, and no other before position
/// `j`, the initial value read so far is the one that its entry resolves to.
proof fn lemma_field_attrs_value(cp: Seq<SpecCPInfo>, s: Seq<SpecAttributeInfo>, k: int, j: int)
    requires
        0 <= k < j <= s.len(),
        s[k].info is ConstantValue,
        forall|i: int| k < i < j ==> !(#[trigger] s[i].info is ConstantValue),
    ensures
        spec_field_attrs(cp, s.take(j)) matches Outcome::Value(a) ==> ({
            let idx = s[k].info->constantvalue_index;
            field_value(spec_resolve(cp, idx, cp.len()), idx) matches Outcome::Value(w) && a.1 == Some(w)
        }),
    decreases j,
{
    let p = s.take(j);
    assert(p.drop_last() =~= s.take(j - 1));
    assert(p.last() == s[j - 1]);
    if j > k + 1 {
        lemma_field_attrs_value(cp, s, k, j - 1);
        assert(!(s[j - 1].info is ConstantValue));
    }
}

/// Without a `ConstantValue` attribute before position `j`, no initial value is read.
proof fn lemma_field_attrs_no_value(cp: Seq<SpecCPInfo>, s: Seq<SpecAttributeInfo>, j: int)
    requires
        0 <= j <= s.len(),
        forall|i: int| 0 <= i < j ==> !(#[trigger] s[i].info is ConstantValue),
    ensures
        spec_field_attrs(cp, s.take(j)) matches Outcome::Value(a) ==> a.1 is None,
    decreases j,
{
    if j > 0 {
        let p = s.take(j);
        assert(p.drop_last() =~= s.take(j - 1));
        assert(p.last() == s[j - 1]);
        lemma_field_attrs_no_value(cp, s, j - 1);
    }
}

/// A resolved initial value is the value its entry holds.
proof fn lemma_field_value_holds(cp: Seq<SpecCPInfo>, index: u16, w: SpecFieldInitialValue)
    requires
        index < cp.len(),
        field_value(spec_resolve(cp, index, cp.len()), index) == Outcome::Value(w),
    ensures
        holds_value(cp, index, w),
{
    lemma_resolve_numbers(cp, index, cp.len());
    if let SpecConst::String { string_index } = cp[index as int].info {
        assert forall|t: Seq<char>| #[trigger] utf8_entry(cp, string_index, t) implies w == SpecFieldInitialValue::String(
            t,
        ) by {
            assert(string_index != index);
            lemma_resolve_names(cp, index, cp.len(), t);
        }
    }
}

/// The initial value of a field is the value that the entry its last `ConstantValue`
/// attribute names holds, and a field without a `ConstantValue` attribute has none.
pub proof fn lemma_field_initial_value(cp: Seq<SpecCPInfo>, s: Seq<SpecAttributeInfo>)
    requires
        spec_field_attrs(cp, s) is Value,
    ensures
        (forall|i: int| 0 <= i < s.len() ==> !(#[trigger] s[i].info is ConstantValue)) ==> spec_field_attrs(
            cp,
            s,
        )->Value_0.1 is None,
        forall|k: int|
            0 <= k < s.len() && (#[trigger] s[k].info is ConstantValue) && (forall|i: int|
                k < i < s.len() ==> !(#[trigger] s[i].info is ConstantValue)) ==> (spec_field_attrs(cp, s)->Value_0.1 matches Some(
                v,
            ) && holds_value(cp, s[k].info->constantvalue_index, v)),
{
    assert(s.take(s.len() as int) =~= s);
    if forall|i: int| 0 <= i < s.len() ==> !(#[trigger] s[i].info is ConstantValue) {
        lemma_field_attrs_no_value(cp, s, s.len() as int);
    }
    assert forall|k: int|
        0 <= k < s.len() && (#[trigger] s[k].info is ConstantValue) && (forall|i: int|
            k < i < s.len() ==> !(#[trigger] s[i].info is ConstantValue)) implies (spec_field_attrs(cp, s)->Value_0.1 matches Some(
            v,
        ) && holds_value(cp, s[k].info->constantvalue_index, v)) by {
        lemma_field_attrs_value(cp, s, k, s.len() as int);
        let idx = s[k].info->constantvalue_index;
        let w = field_value(spec_resolve(cp, idx, cp.len()), idx)->Value_0;
        assert(idx < cp.len());
        lemma_field_value_holds(cp, idx, w);
    }
}

} // verus!

verus! {

/// Whether the enclosing class and method that `a` holds are those that the
/// `EnclosingMethod` attribute `info` names: the class its class entry names, and, where
/// its method index is zero, no method, else the name and descriptor of its name-and-type
/// entry.
pub open spec fn encloses(cp: Seq<SpecCPInfo>, info: SpecAttribute, a: SpecClassAttrs) -> bool {
    &&& info matches SpecAttribute::EnclosingMethod { class_index, method_index }
    &&& forall|t: Seq<char>| #[trigger] class_entry(cp, class_index, t) ==> a.outer_class == Some(t)
    &&& method_index == 0 ==> a.outer_method is None && a.outer_method_desc is None
    &&& forall|n: Seq<char>, d: Seq<char>|
        #[trigger] name_and_type_entry(cp, method_index, n, d) && method_index != 0 ==> a.outer_method == Some(n)
            && a.outer_method_desc == Some(d)
}

/// After the attribute `s[k]`, an `EnclosingMethod` attribute, and no other before
/// position `j`, the enclosing class and method read so far are those it names.
proof fn lemma_class_attrs_enclosing(cp: Seq<SpecCPInfo>, s: Seq<SpecAttributeInfo>, k: int, j: int)
    requires
        0 <= k < j <= s.len(),
        s[k].info is EnclosingMethod,
        forall|i: int| k < i < j ==> !(#[trigger] s[i].info is EnclosingMethod),
    ensures
        spec_class_attrs(cp, s.take(j)) matches Outcome::Value(a) ==> encloses(cp, s[k].info, a),
    decreases j,
{
    let p = s.take(j);
    assert(p.drop_last() =~= s.take(j - 1));
    assert(p.last() == s[j - 1]);
    if j == k + 1 {
        if let SpecAttribute::EnclosingMethod { class_index, method_index } = s[k].info {
            if let Outcome::Value(a) = spec_class_attrs(cp, p) {
                assert forall|t: Seq<char>| #[trigger] class_entry(cp, class_index, t) implies a.outer_class == Some(t) by {
                    lemma_res_class_entry(cp, class_index, t);
                }
                assert forall|n: Seq<char>, d: Seq<char>|
                    #[trigger] name_and_type_entry(cp, method_index, n, d) && method_index != 0 implies a.outer_method
                    == Some(n) && a.outer_method_desc == Some(d) by {
                    lemma_resolve_name_and_type_entry(cp, method_index, cp.len(), n, d);
                }
            }
        }
    } else {
        lemma_class_attrs_enclosing(cp, s, k, j - 1);
        assert(!(s[j - 1].info is EnclosingMethod));
    }
}

/// The enclosing class and method of a class are those that its last `EnclosingMethod`
/// attribute names.
pub proof fn lemma_class_enclosing_method(cf: SpecClassFile, k: int)
    requires
        spec_class_node(cf) is Value,
        0 <= k < cf.attributes.len(),
        cf.attributes[k].info is EnclosingMethod,
        forall|i: int| k < i < cf.attributes.len() ==> !(#[trigger] cf.attributes[i].info is EnclosingMethod),
    ensures
        ({
            let n = spec_class_node(cf)->Value_0;
            let a = spec_class_attrs(cf.constant_pool, cf.attributes)->Value_0;
            &&& encloses(cf.constant_pool, cf.attributes[k].info, a)
            &&& n.outer_class == a.outer_class && n.outer_method == a.outer_method
            &&& n.outer_method_desc == a.outer_method_desc
        }),
{
    let s = cf.attributes;
    lemma_class_attrs_enclosing(cf.constant_pool, s, k, s.len() as int);
    assert(s.take(s.len() as int) =~= s);
}

} // verus!
