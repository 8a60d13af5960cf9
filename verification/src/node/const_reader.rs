//! Resolving constant-pool entries into values, with a cache that never changes what a
//! read gives.

use crate::err::{AsmErr, AsmResult, ConstKind};
use crate::jvms::element::{CPInfo, ClassFile, Const, SpecCPInfo, SpecConst};
use crate::jvms::read::transform::{outcome_option, Outcome};
use crate::mutf8::{mutf8_to_string, spec_mutf8_to_string, try_mutf8_to_string};
use crate::node::values::{ConstValue, SpecConstValue};
use vstd::prelude::*;

verus! {

/// The string of a resolved constant read as UTF-8: that of a `String` value, an error otherwise.
pub open spec fn as_utf8(o: Outcome<SpecConstValue>, index: u16) -> Outcome<Seq<char>> {
    match o {
        Outcome::Value(SpecConstValue::String(s)) => Outcome::Value(s),
        Outcome::Value(_) => Outcome::Error(AsmErr::IllegalConst { index, required: ConstKind::Utf8 }),
        Outcome::Error(e) => Outcome::Error(e),
        Outcome::Panic => Outcome::Panic,
    }
}

/// The name of a resolved constant read as a class: that of a `Class` value, an error otherwise.
pub open spec fn as_class(o: Outcome<SpecConstValue>, index: u16) -> Outcome<Seq<char>> {
    match o {
        Outcome::Value(SpecConstValue::Class(s)) => Outcome::Value(s),
        Outcome::Value(_) => Outcome::Error(AsmErr::IllegalConst { index, required: ConstKind::Class }),
        Outcome::Error(e) => Outcome::Error(e),
        Outcome::Panic => Outcome::Panic,
    }
}

/// The name of a resolved constant read as a module: that of a `Module` value, an error otherwise.
pub open spec fn as_module(o: Outcome<SpecConstValue>, index: u16) -> Outcome<Seq<char>> {
    match o {
        Outcome::Value(SpecConstValue::Module(s)) => Outcome::Value(s),
        Outcome::Value(_) => Outcome::Error(AsmErr::IllegalConst { index, required: ConstKind::Module }),
        Outcome::Error(e) => Outcome::Error(e),
        Outcome::Panic => Outcome::Panic,
    }
}

/// The name of a resolved constant read as a package: that of a `Package` value, an error otherwise.
pub open spec fn as_package(o: Outcome<SpecConstValue>, index: u16) -> Outcome<Seq<char>> {
    match o {
        Outcome::Value(SpecConstValue::Package(s)) => Outcome::Value(s),
        Outcome::Value(_) => Outcome::Error(AsmErr::IllegalConst { index, required: ConstKind::Package }),
        Outcome::Error(e) => Outcome::Error(e),
        Outcome::Panic => Outcome::Panic,
    }
}

/// The name and descriptor of a resolved constant read as a `NameAndType`, an error otherwise.
pub open spec fn as_name_and_type(o: Outcome<SpecConstValue>, index: u16) -> Outcome<(Seq<char>, Seq<char>)> {
    match o {
        Outcome::Value(SpecConstValue::NameAndType { name, desc }) => Outcome::Value((name, desc)),
        Outcome::Value(_) => Outcome::Error(AsmErr::IllegalConst { index, required: ConstKind::NameAndType }),
        Outcome::Error(e) => Outcome::Error(e),
        Outcome::Panic => Outcome::Panic,
    }
}

/// A member reference: its class, then its name and type.
pub open spec fn resolve_member(cp: Seq<SpecCPInfo>, class_index: u16, nat_index: u16, fuel: nat) -> Outcome<
    SpecConstValue,
>
    decreases fuel, 1nat,
{
    match as_class(spec_resolve(cp, class_index, fuel), class_index) {
        Outcome::Value(class) => match as_name_and_type(spec_resolve(cp, nat_index, fuel), nat_index) {
            Outcome::Value(nt) => Outcome::Value(SpecConstValue::Member { class, name: nt.0, desc: nt.1 }),
            Outcome::Error(e) => Outcome::Error(e),
            Outcome::Panic => Outcome::Panic,
        },
        Outcome::Error(e) => Outcome::Error(e),
        Outcome::Panic => Outcome::Panic,
    }
}

/// A name and type: its name, then its descriptor.
pub open spec fn resolve_name_and_type(cp: Seq<SpecCPInfo>, name_index: u16, descriptor_index: u16, fuel: nat) -> Outcome<
    SpecConstValue,
>
    decreases fuel, 1nat,
{
    match as_utf8(spec_resolve(cp, name_index, fuel), name_index) {
        Outcome::Value(name) => match as_utf8(spec_resolve(cp, descriptor_index, fuel), descriptor_index) {
            Outcome::Value(desc) => Outcome::Value(SpecConstValue::NameAndType { name, desc }),
            Outcome::Error(e) => Outcome::Error(e),
            Outcome::Panic => Outcome::Panic,
        },
        Outcome::Error(e) => Outcome::Error(e),
        Outcome::Panic => Outcome::Panic,
    }
}

/// A dynamic constant: its bootstrap method index, and its name and type.
pub open spec fn resolve_dynamic(cp: Seq<SpecCPInfo>, bsm: u16, nat_index: u16, fuel: nat) -> Outcome<SpecConstValue>
    decreases fuel, 1nat,
{
    match as_name_and_type(spec_resolve(cp, nat_index, fuel), nat_index) {
        Outcome::Value(nt) => Outcome::Value(
            SpecConstValue::Dynamic { bootstrap_method_attr_index: bsm, name: nt.0, desc: nt.1 },
        ),
        Outcome::Error(e) => Outcome::Error(e),
        Outcome::Panic => Outcome::Panic,
    }
}

/// The kinds of constant whose value is one string read from another entry.
pub enum NamedKind {
    Class,
    String,
    MethodType,
    Module,
    Package,
}

/// A constant of kind `kind` whose value is the string read from the entry at `index`.
pub open spec fn resolve_named(cp: Seq<SpecCPInfo>, index: u16, fuel: nat, kind: NamedKind) -> Outcome<
    SpecConstValue,
>
    decreases fuel, 1nat,
{
    match as_utf8(spec_resolve(cp, index, fuel), index) {
        Outcome::Value(s) => Outcome::Value(
            match kind {
                NamedKind::Class => SpecConstValue::Class(s),
                NamedKind::String => SpecConstValue::String(s),
                NamedKind::MethodType => SpecConstValue::MethodType(s),
                NamedKind::Module => SpecConstValue::Module(s),
                NamedKind::Package => SpecConstValue::Package(s),
            },
        ),
        Outcome::Error(e) => Outcome::Error(e),
        Outcome::Panic => Outcome::Panic,
    }
}

/// The value of the entry at `index` of the constant pool `cp`, with the entries it points
/// at resolved in turn, at most `fuel` deep. A name read as UTF-8 may be a `CONSTANT_Utf8`
/// or a `CONSTANT_String`; a `CONSTANT_Utf8` is decoded from modified UTF-8; a `long` is
/// its high word shifted left by 32 and or-ed with its low word. It panics past the end of
/// the pool, where decoding panics, and where the chain of entries is deeper than `fuel`
/// (with `fuel` the size of the pool, such a chain comes back to an entry on it, and the
/// resolution never ends).
pub open spec fn spec_resolve(cp: Seq<SpecCPInfo>, index: u16, fuel: nat) -> Outcome<SpecConstValue>
    decreases fuel, 0nat,
{
    if index >= cp.len() || fuel == 0 {
        Outcome::Panic
    } else {
        let f = (fuel - 1) as nat;
        match cp[index as int].info {
            SpecConst::Invalid => Outcome::Value(SpecConstValue::Invalid),
            SpecConst::Class { name_index } => resolve_named(cp, name_index, f, NamedKind::Class),
            SpecConst::Field { class_index, name_and_type_index } => resolve_member(
                cp,
                class_index,
                name_and_type_index,
                f,
            ),
            SpecConst::Method { class_index, name_and_type_index } => resolve_member(
                cp,
                class_index,
                name_and_type_index,
                f,
            ),
            SpecConst::InterfaceMethod { class_index, name_and_type_index } => resolve_member(
                cp,
                class_index,
                name_and_type_index,
                f,
            ),
            SpecConst::String { string_index } => resolve_named(cp, string_index, f, NamedKind::String),
            SpecConst::Integer { bytes } => Outcome::Value(SpecConstValue::Integer(bytes as i32)),
            SpecConst::Float { bytes } => Outcome::Value(SpecConstValue::Float(bytes)),
            SpecConst::Long { high_bytes, low_bytes } => Outcome::Value(
                SpecConstValue::Long((high_bytes as int * 0x1_0000_0000 + low_bytes as int) as i64),
            ),
            SpecConst::Double { high_bytes, low_bytes } => Outcome::Value(
                SpecConstValue::Double((high_bytes as int * 0x1_0000_0000 + low_bytes as int) as u64),
            ),
            SpecConst::NameAndType { name_index, descriptor_index } => resolve_name_and_type(
                cp,
                name_index,
                descriptor_index,
                f,
            ),
            SpecConst::Utf8 { bytes, .. } => match spec_mutf8_to_string(bytes) {
                Outcome::Value(s) => Outcome::Value(SpecConstValue::String(s)),
                Outcome::Error(e) => Outcome::Error(e),
                Outcome::Panic => Outcome::Panic,
            },
            SpecConst::MethodHandle { reference_kind, reference_index } => Outcome::Value(
                SpecConstValue::MethodHandle { reference_kind, reference_index },
            ),
            SpecConst::MethodType { descriptor_index } => resolve_named(cp, descriptor_index, f, NamedKind::MethodType),
            SpecConst::Dynamic { bootstrap_method_attr_index, name_and_type_index } => resolve_dynamic(
                cp,
                bootstrap_method_attr_index,
                name_and_type_index,
                f,
            ),
            SpecConst::InvokeDynamic { bootstrap_method_attr_index, name_and_type_index } => resolve_dynamic(
                cp,
                bootstrap_method_attr_index,
                name_and_type_index,
                f,
            ),
            SpecConst::Module { name_index } => resolve_named(cp, name_index, f, NamedKind::Module),
            SpecConst::Package { name_index } => resolve_named(cp, name_index, f, NamedKind::Package),
        }
    }
}

/// More fuel changes nothing once a resolution is done with less.
pub proof fn lemma_resolve_fuel(cp: Seq<SpecCPInfo>, index: u16, f1: nat, f2: nat)
    requires
        f1 <= f2,
        !(spec_resolve(cp, index, f1) is Panic),
    ensures
        spec_resolve(cp, index, f2) == spec_resolve(cp, index, f1),
    decreases f1,
{
    if index < cp.len() && f1 > 0 {
        let g1 = (f1 - 1) as nat;
        let g2 = (f2 - 1) as nat;
        match cp[index as int].info {
            SpecConst::Class { name_index } => {
                lemma_resolve_fuel(cp, name_index, g1, g2);
            },
            SpecConst::String { string_index } => {
                lemma_resolve_fuel(cp, string_index, g1, g2);
            },
            SpecConst::MethodType { descriptor_index } => {
                lemma_resolve_fuel(cp, descriptor_index, g1, g2);
            },
            SpecConst::Module { name_index } => {
                lemma_resolve_fuel(cp, name_index, g1, g2);
            },
            SpecConst::Package { name_index } => {
                lemma_resolve_fuel(cp, name_index, g1, g2);
            },
            SpecConst::Field { class_index, name_and_type_index }
            | SpecConst::Method { class_index, name_and_type_index }
            | SpecConst::InterfaceMethod { class_index, name_and_type_index } => {
                lemma_resolve_fuel(cp, class_index, g1, g2);
                if as_class(spec_resolve(cp, class_index, g1), class_index) is Value {
                    lemma_resolve_fuel(cp, name_and_type_index, g1, g2);
                }
            },
            SpecConst::NameAndType { name_index, descriptor_index } => {
                lemma_resolve_fuel(cp, name_index, g1, g2);
                if as_utf8(spec_resolve(cp, name_index, g1), name_index) is Value {
                    lemma_resolve_fuel(cp, descriptor_index, g1, g2);
                }
            },
            SpecConst::Dynamic { name_and_type_index, .. } | SpecConst::InvokeDynamic {
                name_and_type_index,
                ..
            } => {
                lemma_resolve_fuel(cp, name_and_type_index, g1, g2);
            },
            _ => {},
        }
    }
}

/// The context of resolving the names of a class: its class file and a cache of the
/// constants resolved so far.
pub struct ClassNodeContext {
    pub jvms_file: ClassFile,
    pub cp_cache: Vec<Option<ConstValue>>,
}

impl ClassNodeContext {
    /// The constant pool of the class file.
    pub open spec fn cp(&self) -> Seq<SpecCPInfo> {
        self.jvms_file.constant_pool.deep_view()
    }

    /// The value of the entry at `index`, resolved with the size of the pool as fuel.
    pub open spec fn resolved(&self, index: u16) -> Outcome<SpecConstValue> {
        spec_resolve(self.cp(), index, self.cp().len())
    }

    /// The cache has a slot for each entry of the pool, and holds, at the positions that
    /// an index can name, only values that a resolution gives.
    pub closed spec fn wf(&self) -> bool {
        &&& self.cp_cache@.len() == self.cp().len()
        &&& forall|i: int|
            0 <= i < self.cp_cache@.len() && i <= u16::MAX ==> (#[trigger] self.cp_cache@[i] matches Some(v) ==> self.resolved(
                i as u16,
            ) == Outcome::Value(v.deep_view()))
    }

    /// A context for `jvms_file` with nothing resolved yet.
    pub fn new(jvms_file: ClassFile) -> (r: ClassNodeContext)
        ensures
            r.wf(),
            r.jvms_file == jvms_file,
    {
        let n = jvms_file.constant_pool.len();
        let mut cp_cache: Vec<Option<ConstValue>> = Vec::new();
        let mut i: usize = 0;
        while i < n
            invariant
                i <= n,
                cp_cache@.len() == i,
                forall|j: int| 0 <= j < i ==> #[trigger] cp_cache@[j] is None,
            decreases n - i,
        {
            cp_cache.push(None);
            i = i + 1;
        }
        ClassNodeContext { jvms_file, cp_cache }
    }

    /// Resolves the entry at `index` with `fuel`, as [spec_resolve] says.
    fn read_const_at(&mut self, index: u16, Ghost(fuel): Ghost<nat>) -> (r: AsmResult<ConstValue>)
        requires
            old(self).wf(),
            fuel <= old(self).cp().len(),
            !(spec_resolve(old(self).cp(), index, fuel) is Panic),
        ensures
            final(self).wf(),
            final(self).jvms_file == old(self).jvms_file,
            match spec_resolve(old(self).cp(), index, fuel) {
                Outcome::Value(v) => r matches Ok(x) && x.deep_view() == v,
                Outcome::Error(e) => r == Err::<ConstValue, AsmErr>(e),
                Outcome::Panic => false,
            },
        decreases fuel, 0nat,
    {
        let ghost cp = self.cp();
        let i = index as usize;
        if let Some(c) = &self.cp_cache[i] {
            proof {
                assert(self.cp_cache@[i as int] matches Some(v) && self.resolved(index) == Outcome::Value(
                    v.deep_view(),
                ));
                lemma_resolve_fuel(cp, index, fuel, cp.len());
            }
            return Ok(c.copy_value());
        }
        let ghost f = (fuel - 1) as nat;
        let value = match &self.jvms_file.constant_pool[i].info {
            Const::Invalid => ConstValue::Invalid,
            Const::Class { name_index } => {
                let name_index = *name_index;
                ConstValue::Class(self.read_utf8_at(name_index, Ghost(f))?)
            },
            Const::Field { class_index, name_and_type_index } | Const::Method {
                class_index,
                name_and_type_index,
            } | Const::InterfaceMethod { class_index, name_and_type_index } => {
                let class_index = *class_index;
                let name_and_type_index = *name_and_type_index;
                let class = self.read_class_info_at(class_index, Ghost(f))?;
                let (name, desc) = self.read_name_and_type_at(name_and_type_index, Ghost(f))?;
                ConstValue::Member { class, name, desc }
            },
            Const::String { string_index } => {
                let string_index = *string_index;
                ConstValue::String(self.read_utf8_at(string_index, Ghost(f))?)
            },
            Const::Integer { bytes } => ConstValue::Integer(*bytes as i32),
            Const::Float { bytes } => ConstValue::Float(*bytes),
            Const::Long { high_bytes, low_bytes } => {
                let value = ((*high_bytes as u64) << 32) | (*low_bytes as u64);
                proof {
                    lemma_words(*high_bytes, *low_bytes);
                }
                ConstValue::Long(value as i64)
            },
            Const::Double { high_bytes, low_bytes } => {
                let value = ((*high_bytes as u64) << 32) | (*low_bytes as u64);
                proof {
                    lemma_words(*high_bytes, *low_bytes);
                }
                ConstValue::Double(value)
            },
            Const::NameAndType { name_index, descriptor_index } => {
                let name_index = *name_index;
                let descriptor_index = *descriptor_index;
                let name = self.read_utf8_at(name_index, Ghost(f))?;
                let desc = self.read_utf8_at(descriptor_index, Ghost(f))?;
                ConstValue::NameAndType { name, desc }
            },
            Const::Utf8 { bytes, .. } => ConstValue::String(mutf8_to_string(bytes.as_slice())?),
            Const::MethodHandle { reference_kind, reference_index } => ConstValue::MethodHandle {
                reference_kind: *reference_kind,
                reference_index: *reference_index,
            },
            Const::MethodType { descriptor_index } => {
                let descriptor_index = *descriptor_index;
                ConstValue::MethodType(self.read_utf8_at(descriptor_index, Ghost(f))?)
            },
            Const::Dynamic { bootstrap_method_attr_index, name_and_type_index } | Const::InvokeDynamic {
                bootstrap_method_attr_index,
                name_and_type_index,
            } => {
                let bootstrap_method_attr_index = *bootstrap_method_attr_index;
                let name_and_type_index = *name_and_type_index;
                let (name, desc) = self.read_name_and_type_at(name_and_type_index, Ghost(f))?;
                ConstValue::Dynamic { bootstrap_method_attr_index, name, desc }
            },
            Const::Module { name_index } => {
                let name_index = *name_index;
                ConstValue::Module(self.read_utf8_at(name_index, Ghost(f))?)
            },
            Const::Package { name_index } => {
                let name_index = *name_index;
                ConstValue::Package(self.read_utf8_at(name_index, Ghost(f))?)
            },
        };
        proof {
            lemma_resolve_fuel(cp, index, fuel, cp.len());
        }
        let cached = value.copy_value();
        self.cp_cache.set(i, Some(cached));
        Ok(value)
    }

    /// Resolves the entry at `index` and reads it as UTF-8.
    fn read_utf8_at(&mut self, index: u16, Ghost(fuel): Ghost<nat>) -> (r: AsmResult<String>)
        requires
            old(self).wf(),
            fuel <= old(self).cp().len(),
            !(as_utf8(spec_resolve(old(self).cp(), index, fuel), index) is Panic),
        ensures
            final(self).wf(),
            final(self).jvms_file == old(self).jvms_file,
            match as_utf8(spec_resolve(old(self).cp(), index, fuel), index) {
                Outcome::Value(v) => r matches Ok(x) && x@ == v,
                Outcome::Error(e) => r == Err::<String, AsmErr>(e),
                Outcome::Panic => false,
            },
        decreases fuel, 1nat,
    {
        match self.read_const_at(index, Ghost(fuel))? {
            ConstValue::String(s) => Ok(s),
            _ => Err(AsmErr::IllegalConst { index, required: ConstKind::Utf8 }),
        }
    }

    /// Resolves the entry at `index` and reads it as a class.
    fn read_class_info_at(&mut self, index: u16, Ghost(fuel): Ghost<nat>) -> (r: AsmResult<String>)
        requires
            old(self).wf(),
            fuel <= old(self).cp().len(),
            !(as_class(spec_resolve(old(self).cp(), index, fuel), index) is Panic),
        ensures
            final(self).wf(),
            final(self).jvms_file == old(self).jvms_file,
            match as_class(spec_resolve(old(self).cp(), index, fuel), index) {
                Outcome::Value(v) => r matches Ok(x) && x@ == v,
                Outcome::Error(e) => r == Err::<String, AsmErr>(e),
                Outcome::Panic => false,
            },
        decreases fuel, 1nat,
    {
        match self.read_const_at(index, Ghost(fuel))? {
            ConstValue::Class(s) => Ok(s),
            _ => Err(AsmErr::IllegalConst { index, required: ConstKind::Class }),
        }
    }

    /// Resolves the entry at `index` and reads it as a name and type.
    fn read_name_and_type_at(&mut self, index: u16, Ghost(fuel): Ghost<nat>) -> (r: AsmResult<(String, String)>)
        requires
            old(self).wf(),
            fuel <= old(self).cp().len(),
            !(as_name_and_type(spec_resolve(old(self).cp(), index, fuel), index) is Panic),
        ensures
            final(self).wf(),
            final(self).jvms_file == old(self).jvms_file,
            match as_name_and_type(spec_resolve(old(self).cp(), index, fuel), index) {
                Outcome::Value(v) => r matches Ok(x) && x.0@ == v.0 && x.1@ == v.1,
                Outcome::Error(e) => r == Err::<(String, String), AsmErr>(e),
                Outcome::Panic => false,
            },
        decreases fuel, 1nat,
    {
        match self.read_const_at(index, Ghost(fuel))? {
            ConstValue::NameAndType { name, desc } => Ok((name, desc)),
            _ => Err(AsmErr::IllegalConst { index, required: ConstKind::NameAndType }),
        }
    }
}

impl ClassNodeContext {
    /// The value of the entry at `index` of the constant pool, as [spec_resolve] says with
    /// the size of the pool as fuel. Values read before are taken from the cache, which
    /// gives the same value; what is read is added to it.
    pub fn read_const(&mut self, index: u16) -> (r: AsmResult<ConstValue>)
        requires
            old(self).wf(),
            !(old(self).resolved(index) is Panic),
        ensures
            final(self).wf(),
            final(self).jvms_file == old(self).jvms_file,
            match old(self).resolved(index) {
                Outcome::Value(v) => r matches Ok(x) && x.deep_view() == v,
                Outcome::Error(e) => r == Err::<ConstValue, AsmErr>(e),
                Outcome::Panic => false,
            },
    {
        let ghost n = self.cp().len();
        self.read_const_at(index, Ghost(n))
    }

    /// The string of the entry at `index`: a `CONSTANT_Utf8`, or a `CONSTANT_String` that
    /// points at one; another kind of entry is an error.
    pub fn read_utf8(&mut self, index: u16) -> (r: AsmResult<String>)
        requires
            old(self).wf(),
            !(as_utf8(old(self).resolved(index), index) is Panic),
        ensures
            final(self).wf(),
            final(self).jvms_file == old(self).jvms_file,
            match as_utf8(old(self).resolved(index), index) {
                Outcome::Value(v) => r matches Ok(x) && x@ == v,
                Outcome::Error(e) => r == Err::<String, AsmErr>(e),
                Outcome::Panic => false,
            },
    {
        let ghost n = self.cp().len();
        self.read_utf8_at(index, Ghost(n))
    }

    /// The internal name of the `CONSTANT_Class` at `index`; another kind of entry is an error.
    pub fn read_class_info(&mut self, index: u16) -> (r: AsmResult<String>)
        requires
            old(self).wf(),
            !(as_class(old(self).resolved(index), index) is Panic),
        ensures
            final(self).wf(),
            final(self).jvms_file == old(self).jvms_file,
            match as_class(old(self).resolved(index), index) {
                Outcome::Value(v) => r matches Ok(x) && x@ == v,
                Outcome::Error(e) => r == Err::<String, AsmErr>(e),
                Outcome::Panic => false,
            },
    {
        let ghost n = self.cp().len();
        self.read_class_info_at(index, Ghost(n))
    }

    /// The name of the `CONSTANT_Module` at `index`; another kind of entry is an error.
    pub fn read_module(&mut self, index: u16) -> (r: AsmResult<String>)
        requires
            old(self).wf(),
            !(as_module(old(self).resolved(index), index) is Panic),
        ensures
            final(self).wf(),
            final(self).jvms_file == old(self).jvms_file,
            match as_module(old(self).resolved(index), index) {
                Outcome::Value(v) => r matches Ok(x) && x@ == v,
                Outcome::Error(e) => r == Err::<String, AsmErr>(e),
                Outcome::Panic => false,
            },
    {
        match self.read_const(index)? {
            ConstValue::Module(s) => Ok(s),
            _ => Err(AsmErr::IllegalConst { index, required: ConstKind::Module }),
        }
    }

    /// The name of the `CONSTANT_Package` at `index`; another kind of entry is an error.
    pub fn read_package(&mut self, index: u16) -> (r: AsmResult<String>)
        requires
            old(self).wf(),
            !(as_package(old(self).resolved(index), index) is Panic),
        ensures
            final(self).wf(),
            final(self).jvms_file == old(self).jvms_file,
            match as_package(old(self).resolved(index), index) {
                Outcome::Value(v) => r matches Ok(x) && x@ == v,
                Outcome::Error(e) => r == Err::<String, AsmErr>(e),
                Outcome::Panic => false,
            },
    {
        match self.read_const(index)? {
            ConstValue::Package(s) => Ok(s),
            _ => Err(AsmErr::IllegalConst { index, required: ConstKind::Package }),
        }
    }

    /// The name and descriptor of the `CONSTANT_NameAndType` at `index`; another kind of
    /// entry is an error.
    pub fn read_name_and_type(&mut self, index: u16) -> (r: AsmResult<(String, String)>)
        requires
            old(self).wf(),
            !(as_name_and_type(old(self).resolved(index), index) is Panic),
        ensures
            final(self).wf(),
            final(self).jvms_file == old(self).jvms_file,
            match as_name_and_type(old(self).resolved(index), index) {
                Outcome::Value(v) => r matches Ok(x) && x.0@ == v.0 && x.1@ == v.1,
                Outcome::Error(e) => r == Err::<(String, String), AsmErr>(e),
                Outcome::Panic => false,
            },
    {
        let ghost n = self.cp().len();
        self.read_name_and_type_at(index, Ghost(n))
    }

    /// The internal name of the class, if its `this_class` entry reads as a class.
    pub fn name(&mut self) -> (r: Option<String>)
        requires
            old(self).wf(),
            !(as_class(old(self).resolved(old(self).jvms_file.this_class), old(self).jvms_file.this_class) is Panic),
        ensures
            final(self).wf(),
            final(self).jvms_file == old(self).jvms_file,
            match as_class(old(self).resolved(old(self).jvms_file.this_class), old(self).jvms_file.this_class) {
                Outcome::Value(v) => r matches Some(x) && x@ == v,
                _ => r is None,
            },
    {
        let this_class = self.jvms_file.this_class;
        self.read_class_info(this_class).ok()
    }
}

/// How a resolution that stops where the reader would panic relates to its
/// specification, for a string result.
pub open spec fn string_option(o: Outcome<Seq<char>>, r: Option<AsmResult<String>>) -> bool {
    match o {
        Outcome::Value(v) => r matches Some(Ok(x)) && x@ == v,
        Outcome::Error(e) => r == Some(Err::<String, AsmErr>(e)),
        Outcome::Panic => r is None,
    }
}

/// Resolves the entry at `index` of `cp` with `fuel`, as [spec_resolve] says, without a
/// cache. It gives `None` exactly where the resolution panics.
pub fn try_resolve(cp: &Vec<CPInfo>, index: u16, fuel: usize) -> (r: Option<AsmResult<ConstValue>>)
    ensures
        outcome_option::<ConstValue>(spec_resolve(cp.deep_view(), index, fuel as nat), r),
    decreases fuel, 0nat,
{
    let i = index as usize;
    if i >= cp.len() || fuel == 0 {
        return None;
    }
    let f = fuel - 1;
    let value = match &cp[i].info {
        Const::Invalid => ConstValue::Invalid,
        Const::Class { name_index } => match try_resolve_utf8(cp, *name_index, f) {
            Some(Ok(s)) => ConstValue::Class(s),
            Some(Err(e)) => {
                return Some(Err(e));
            },
            None => {
                return None;
            },
        },
        Const::Field { class_index, name_and_type_index } | Const::Method {
            class_index,
            name_and_type_index,
        } | Const::InterfaceMethod { class_index, name_and_type_index } => {
            let class = match try_resolve_class(cp, *class_index, f) {
                Some(Ok(s)) => s,
                Some(Err(e)) => {
                    return Some(Err(e));
                },
                None => {
                    return None;
                },
            };
            match try_resolve_name_and_type(cp, *name_and_type_index, f) {
                Some(Ok((name, desc))) => ConstValue::Member { class, name, desc },
                Some(Err(e)) => {
                    return Some(Err(e));
                },
                None => {
                    return None;
                },
            }
        },
        Const::String { string_index } => match try_resolve_utf8(cp, *string_index, f) {
            Some(Ok(s)) => ConstValue::String(s),
            Some(Err(e)) => {
                return Some(Err(e));
            },
            None => {
                return None;
            },
        },
        Const::Integer { bytes } => ConstValue::Integer(*bytes as i32),
        Const::Float { bytes } => ConstValue::Float(*bytes),
        Const::Long { high_bytes, low_bytes } => {
            let value = ((*high_bytes as u64) << 32) | (*low_bytes as u64);
            proof {
                lemma_words(*high_bytes, *low_bytes);
            }
            ConstValue::Long(value as i64)
        },
        Const::Double { high_bytes, low_bytes } => {
            let value = ((*high_bytes as u64) << 32) | (*low_bytes as u64);
            proof {
                lemma_words(*high_bytes, *low_bytes);
            }
            ConstValue::Double(value)
        },
        Const::NameAndType { name_index, descriptor_index } => {
            let name = match try_resolve_utf8(cp, *name_index, f) {
                Some(Ok(s)) => s,
                Some(Err(e)) => {
                    return Some(Err(e));
                },
                None => {
                    return None;
                },
            };
            match try_resolve_utf8(cp, *descriptor_index, f) {
                Some(Ok(desc)) => ConstValue::NameAndType { name, desc },
                Some(Err(e)) => {
                    return Some(Err(e));
                },
                None => {
                    return None;
                },
            }
        },
        Const::Utf8 { bytes, .. } => match try_mutf8_to_string(bytes.as_slice()) {
            Some(Ok(s)) => ConstValue::String(s),
            Some(Err(e)) => {
                return Some(Err(e));
            },
            None => {
                return None;
            },
        },
        Const::MethodHandle { reference_kind, reference_index } => ConstValue::MethodHandle {
            reference_kind: *reference_kind,
            reference_index: *reference_index,
        },
        Const::MethodType { descriptor_index } => match try_resolve_utf8(cp, *descriptor_index, f) {
            Some(Ok(s)) => ConstValue::MethodType(s),
            Some(Err(e)) => {
                return Some(Err(e));
            },
            None => {
                return None;
            },
        },
        Const::Dynamic { bootstrap_method_attr_index, name_and_type_index } | Const::InvokeDynamic {
            bootstrap_method_attr_index,
            name_and_type_index,
        } => match try_resolve_name_and_type(cp, *name_and_type_index, f) {
            Some(Ok((name, desc))) => ConstValue::Dynamic {
                bootstrap_method_attr_index: *bootstrap_method_attr_index,
                name,
                desc,
            },
            Some(Err(e)) => {
                return Some(Err(e));
            },
            None => {
                return None;
            },
        },
        Const::Module { name_index } => match try_resolve_utf8(cp, *name_index, f) {
            Some(Ok(s)) => ConstValue::Module(s),
            Some(Err(e)) => {
                return Some(Err(e));
            },
            None => {
                return None;
            },
        },
        Const::Package { name_index } => match try_resolve_utf8(cp, *name_index, f) {
            Some(Ok(s)) => ConstValue::Package(s),
            Some(Err(e)) => {
                return Some(Err(e));
            },
            None => {
                return None;
            },
        },
    };
    Some(Ok(value))
}

/// Resolves the entry at `index` and reads it as UTF-8, without a cache.
pub fn try_resolve_utf8(cp: &Vec<CPInfo>, index: u16, fuel: usize) -> (r: Option<AsmResult<String>>)
    ensures
        string_option(as_utf8(spec_resolve(cp.deep_view(), index, fuel as nat), index), r),
    decreases fuel, 1nat,
{
    match try_resolve(cp, index, fuel) {
        Some(Ok(ConstValue::String(s))) => Some(Ok(s)),
        Some(Ok(_)) => Some(Err(AsmErr::IllegalConst { index, required: ConstKind::Utf8 })),
        Some(Err(e)) => Some(Err(e)),
        None => None,
    }
}

/// Resolves the entry at `index` and reads it as a class, without a cache.
pub fn try_resolve_class(cp: &Vec<CPInfo>, index: u16, fuel: usize) -> (r: Option<AsmResult<String>>)
    ensures
        string_option(as_class(spec_resolve(cp.deep_view(), index, fuel as nat), index), r),
    decreases fuel, 1nat,
{
    match try_resolve(cp, index, fuel) {
        Some(Ok(ConstValue::Class(s))) => Some(Ok(s)),
        Some(Ok(_)) => Some(Err(AsmErr::IllegalConst { index, required: ConstKind::Class })),
        Some(Err(e)) => Some(Err(e)),
        None => None,
    }
}

/// Resolves the entry at `index` and reads it as a name and type, without a cache.
pub fn try_resolve_name_and_type(cp: &Vec<CPInfo>, index: u16, fuel: usize) -> (r: Option<
    AsmResult<(String, String)>,
>)
    ensures
        match as_name_and_type(spec_resolve(cp.deep_view(), index, fuel as nat), index) {
            Outcome::Value(v) => r matches Some(Ok(x)) && x.0@ == v.0 && x.1@ == v.1,
            Outcome::Error(e) => r == Some(Err::<(String, String), AsmErr>(e)),
            Outcome::Panic => r is None,
        },
    decreases fuel, 1nat,
{
    match try_resolve(cp, index, fuel) {
        Some(Ok(ConstValue::NameAndType { name, desc })) => Some(Ok((name, desc))),
        Some(Ok(_)) => Some(Err(AsmErr::IllegalConst { index, required: ConstKind::NameAndType })),
        Some(Err(e)) => Some(Err(e)),
        None => None,
    }
}

impl ClassNodeContext {
    /// The string of the entry at `index`, as [ClassNodeContext::read_utf8] reads it. It
    /// gives `None` exactly where that read panics, and leaves the cache as it is.
    pub fn try_read_utf8(&self, index: u16) -> (r: Option<AsmResult<String>>)
        ensures
            string_option(as_utf8(self.resolved(index), index), r),
    {
        try_resolve_utf8(&self.jvms_file.constant_pool, index, self.jvms_file.constant_pool.len())
    }

    /// The internal name of the class, as [ClassNodeContext::name] reads it. It gives
    /// `None` exactly where that read panics, and leaves the cache as it is.
    pub fn try_name(&self) -> (r: Option<Option<String>>)
        ensures
            match as_class(self.resolved(self.jvms_file.this_class), self.jvms_file.this_class) {
                Outcome::Value(v) => r matches Some(Some(x)) && x@ == v,
                Outcome::Error(_) => r == Some(None::<String>),
                Outcome::Panic => r is None,
            },
    {
        let this_class = self.jvms_file.this_class;
        match try_resolve_class(&self.jvms_file.constant_pool, this_class, self.jvms_file.constant_pool.len()) {
            Some(Ok(s)) => Some(Some(s)),
            Some(Err(_)) => Some(None),
            None => None,
        }
    }
}

/// The high word shifted left by 32 and or-ed with the low word is the number the two words make.
proof fn lemma_words(high: u32, low: u32)
    ensures
        ((high as u64) << 32u64) | (low as u64) == high as int * 0x1_0000_0000 + low as int,
{
    assert(((high as u64) << 32u64) | (low as u64) == (high as u64) * 0x1_0000_0000u64 + (low as u64)) by (bit_vector);
}

} // verus!

verus! {

/// The 64 bits made of `high` and `low`: `high` is their upper half, `low` their lower
/// half, read as unsigned and as signed.
proof fn lemma_halves(high: u32, low: u32)
    ensures
        ((high as int * 0x1_0000_0000 + low as int) as u64) >> 32u64 == high as u64,
        ((high as int * 0x1_0000_0000 + low as int) as u64) & 0xFFFF_FFFFu64 == low as u64,
        (((high as int * 0x1_0000_0000 + low as int) as i64) as u64) >> 32u64 == high as u64,
        (((high as int * 0x1_0000_0000 + low as int) as i64) as u64) & 0xFFFF_FFFFu64 == low as u64,
{
    assert(((high as int * 0x1_0000_0000 + low as int) as u64) >> 32u64 == high as u64) by (bit_vector);
    assert(((high as int * 0x1_0000_0000 + low as int) as u64) & 0xFFFF_FFFFu64 == low as u64) by (bit_vector);
    assert((((high as int * 0x1_0000_0000 + low as int) as i64) as u64) >> 32u64 == high as u64) by (bit_vector);
    assert((((high as int * 0x1_0000_0000 + low as int) as i64) as u64) & 0xFFFF_FFFFu64 == low as u64)
        by (bit_vector);
}

/// A numeric constant resolves to the value its bytes hold: an `int` to the same 32 bits,
/// a `float` to its bits, and a `long` or `double` to the 64 bits whose upper half is
/// `high_bytes` and whose lower half is `low_bytes`.
pub proof fn lemma_resolve_numbers(cp: Seq<SpecCPInfo>, index: u16, fuel: nat)
    requires
        index < cp.len(),
        fuel > 0,
    ensures
        cp[index as int].info matches SpecConst::Integer { bytes } ==> (spec_resolve(cp, index, fuel) matches Outcome::Value(
            SpecConstValue::Integer(v),
        ) && v as u32 == bytes),
        cp[index as int].info matches SpecConst::Float { bytes } ==> spec_resolve(cp, index, fuel) == Outcome::Value(
            SpecConstValue::Float(bytes),
        ),
        cp[index as int].info matches SpecConst::Long { high_bytes, low_bytes } ==> (spec_resolve(
            cp,
            index,
            fuel,
        ) matches Outcome::Value(SpecConstValue::Long(v)) && (v as u64) >> 32u64 == high_bytes as u64 && (v as u64)
            & 0xFFFF_FFFFu64 == low_bytes as u64),
        cp[index as int].info matches SpecConst::Double { high_bytes, low_bytes } ==> (spec_resolve(
            cp,
            index,
            fuel,
        ) matches Outcome::Value(SpecConstValue::Double(v)) && v >> 32u64 == high_bytes as u64 && v & 0xFFFF_FFFFu64
            == low_bytes as u64),
{
    match cp[index as int].info {
        SpecConst::Integer { bytes } => {
            assert((bytes as i32) as u32 == bytes) by (bit_vector);
        },
        SpecConst::Long { high_bytes, low_bytes } => {
            lemma_halves(high_bytes, low_bytes);
        },
        SpecConst::Double { high_bytes, low_bytes } => {
            lemma_halves(high_bytes, low_bytes);
        },
        _ => {},
    }
}

/// A `CONSTANT_Utf8` entry resolves to the string its modified UTF-8 bytes decode to, and
/// a `Class`, `String`, `MethodType`, `Module` or `Package` entry to the string of the
/// `CONSTANT_Utf8` entry it points at, under its own kind.
pub proof fn lemma_resolve_names(cp: Seq<SpecCPInfo>, index: u16, fuel: nat, t: Seq<char>)
    requires
        index < cp.len(),
        fuel > 1,
    ensures
        cp[index as int].info matches SpecConst::Utf8 { bytes, .. } ==> (spec_mutf8_to_string(bytes) == Outcome::Value(
            t,
        ) ==> spec_resolve(cp, index, fuel) == Outcome::Value(SpecConstValue::String(t))),
        cp[index as int].info matches SpecConst::Class { name_index } ==> (utf8_entry(cp, name_index, t)
            ==> spec_resolve(cp, index, fuel) == Outcome::Value(SpecConstValue::Class(t))),
        cp[index as int].info matches SpecConst::String { string_index } ==> (utf8_entry(cp, string_index, t)
            ==> spec_resolve(cp, index, fuel) == Outcome::Value(SpecConstValue::String(t))),
        cp[index as int].info matches SpecConst::MethodType { descriptor_index } ==> (utf8_entry(
            cp,
            descriptor_index,
            t,
        ) ==> spec_resolve(cp, index, fuel) == Outcome::Value(SpecConstValue::MethodType(t))),
        cp[index as int].info matches SpecConst::Module { name_index } ==> (utf8_entry(cp, name_index, t)
            ==> spec_resolve(cp, index, fuel) == Outcome::Value(SpecConstValue::Module(t))),
        cp[index as int].info matches SpecConst::Package { name_index } ==> (utf8_entry(cp, name_index, t)
            ==> spec_resolve(cp, index, fuel) == Outcome::Value(SpecConstValue::Package(t))),
{
    let f = (fuel - 1) as nat;
    match cp[index as int].info {
        SpecConst::Class { name_index } => {
            if utf8_entry(cp, name_index, t) {
                assert(spec_resolve(cp, name_index, f) == Outcome::Value(SpecConstValue::String(t)));
            }
        },
        SpecConst::String { string_index } => {
            if utf8_entry(cp, string_index, t) {
                assert(spec_resolve(cp, string_index, f) == Outcome::Value(SpecConstValue::String(t)));
            }
        },
        SpecConst::MethodType { descriptor_index } => {
            if utf8_entry(cp, descriptor_index, t) {
                assert(spec_resolve(cp, descriptor_index, f) == Outcome::Value(SpecConstValue::String(t)));
            }
        },
        SpecConst::Module { name_index } => {
            if utf8_entry(cp, name_index, t) {
                assert(spec_resolve(cp, name_index, f) == Outcome::Value(SpecConstValue::String(t)));
            }
        },
        SpecConst::Package { name_index } => {
            if utf8_entry(cp, name_index, t) {
                assert(spec_resolve(cp, name_index, f) == Outcome::Value(SpecConstValue::String(t)));
            }
        },
        _ => {},
    }
}

/// Whether the entry at `index` of `cp` is a `CONSTANT_Class` naming a `CONSTANT_Utf8`
/// entry whose bytes decode to `t`.
pub open spec fn class_entry(cp: Seq<SpecCPInfo>, index: u16, t: Seq<char>) -> bool {
    &&& index < cp.len()
    &&& cp[index as int].info matches SpecConst::Class { name_index } && utf8_entry(cp, name_index, t)
}

/// Whether the entry at `index` of `cp` is a `CONSTANT_NameAndType` whose name and
/// descriptor entries are `CONSTANT_Utf8` entries decoding to `name` and `desc`.
pub open spec fn name_and_type_entry(cp: Seq<SpecCPInfo>, index: u16, name: Seq<char>, desc: Seq<char>) -> bool {
    &&& index < cp.len()
    &&& cp[index as int].info matches SpecConst::NameAndType { name_index, descriptor_index } && utf8_entry(
        cp,
        name_index,
        name,
    ) && utf8_entry(cp, descriptor_index, desc)
}

/// A name-and-type entry resolves to the name, then the descriptor, that it points at.
pub proof fn lemma_resolve_name_and_type_entry(cp: Seq<SpecCPInfo>, index: u16, fuel: nat, name: Seq<char>, desc: Seq<char>)
    requires
        fuel > 1,
        name_and_type_entry(cp, index, name, desc),
    ensures
        spec_resolve(cp, index, fuel) == Outcome::Value(SpecConstValue::NameAndType { name, desc }),
{
    if let SpecConst::NameAndType { name_index, descriptor_index } = cp[index as int].info {
        let f = (fuel - 1) as nat;
        assert(spec_resolve(cp, name_index, f) == Outcome::Value(SpecConstValue::String(name)));
        assert(spec_resolve(cp, descriptor_index, f) == Outcome::Value(SpecConstValue::String(desc)));
    }
}

/// A class entry resolves to the class name it points at.
proof fn lemma_resolve_class_entry(cp: Seq<SpecCPInfo>, index: u16, fuel: nat, t: Seq<char>)
    requires
        fuel > 1,
        class_entry(cp, index, t),
    ensures
        spec_resolve(cp, index, fuel) == Outcome::Value(SpecConstValue::Class(t)),
{
    lemma_resolve_names(cp, index, fuel, t);
}

/// A field, method or interface-method reference resolves to the class it names, then the
/// name and descriptor of its name-and-type entry; a dynamic constant to its bootstrap
/// index with that name and descriptor; a name-and-type entry to its name, then its
/// descriptor; a method handle to its kind and its reference, as they are.
pub proof fn lemma_resolve_references(
    cp: Seq<SpecCPInfo>,
    index: u16,
    fuel: nat,
    class: Seq<char>,
    name: Seq<char>,
    desc: Seq<char>,
)
    requires
        index < cp.len(),
        fuel > 2,
    ensures
        cp[index as int].info matches SpecConst::NameAndType { .. } ==> (name_and_type_entry(cp, index, name, desc)
            ==> spec_resolve(cp, index, fuel) == Outcome::Value(SpecConstValue::NameAndType { name, desc })),
        cp[index as int].info matches SpecConst::Field { class_index, name_and_type_index } ==> (class_entry(
            cp,
            class_index,
            class,
        ) && name_and_type_entry(cp, name_and_type_index, name, desc) ==> spec_resolve(cp, index, fuel)
            == Outcome::Value(SpecConstValue::Member { class, name, desc })),
        cp[index as int].info matches SpecConst::Method { class_index, name_and_type_index } ==> (class_entry(
            cp,
            class_index,
            class,
        ) && name_and_type_entry(cp, name_and_type_index, name, desc) ==> spec_resolve(cp, index, fuel)
            == Outcome::Value(SpecConstValue::Member { class, name, desc })),
        cp[index as int].info matches SpecConst::InterfaceMethod { class_index, name_and_type_index } ==> (class_entry(
            cp,
            class_index,
            class,
        ) && name_and_type_entry(cp, name_and_type_index, name, desc) ==> spec_resolve(cp, index, fuel)
            == Outcome::Value(SpecConstValue::Member { class, name, desc })),
        cp[index as int].info matches SpecConst::Dynamic { bootstrap_method_attr_index, name_and_type_index } ==> (
        name_and_type_entry(cp, name_and_type_index, name, desc) ==> spec_resolve(cp, index, fuel) == Outcome::Value(
            SpecConstValue::Dynamic { bootstrap_method_attr_index, name, desc },
        )),
        cp[index as int].info matches SpecConst::InvokeDynamic { bootstrap_method_attr_index, name_and_type_index }
            ==> (name_and_type_entry(cp, name_and_type_index, name, desc) ==> spec_resolve(cp, index, fuel)
            == Outcome::Value(SpecConstValue::Dynamic { bootstrap_method_attr_index, name, desc })),
        cp[index as int].info matches SpecConst::MethodHandle { reference_kind, reference_index } ==> spec_resolve(
            cp,
            index,
            fuel,
        ) == Outcome::Value(SpecConstValue::MethodHandle { reference_kind, reference_index }),
{
    let f = (fuel - 1) as nat;
    match cp[index as int].info {
        SpecConst::NameAndType { .. } => {
            if name_and_type_entry(cp, index, name, desc) {
                lemma_resolve_name_and_type_entry(cp, index, fuel, name, desc);
            }
        },
        SpecConst::Field { class_index, name_and_type_index } => {
            if class_entry(cp, class_index, class) && name_and_type_entry(cp, name_and_type_index, name, desc) {
                lemma_resolve_class_entry(cp, class_index, f, class);
                lemma_resolve_name_and_type_entry(cp, name_and_type_index, f, name, desc);
            }
        },
        SpecConst::Method { class_index, name_and_type_index } => {
            if class_entry(cp, class_index, class) && name_and_type_entry(cp, name_and_type_index, name, desc) {
                lemma_resolve_class_entry(cp, class_index, f, class);
                lemma_resolve_name_and_type_entry(cp, name_and_type_index, f, name, desc);
            }
        },
        SpecConst::InterfaceMethod { class_index, name_and_type_index } => {
            if class_entry(cp, class_index, class) && name_and_type_entry(cp, name_and_type_index, name, desc) {
                lemma_resolve_class_entry(cp, class_index, f, class);
                lemma_resolve_name_and_type_entry(cp, name_and_type_index, f, name, desc);
            }
        },
        SpecConst::Dynamic { name_and_type_index, .. } => {
            if name_and_type_entry(cp, name_and_type_index, name, desc) {
                lemma_resolve_name_and_type_entry(cp, name_and_type_index, f, name, desc);
            }
        },
        SpecConst::InvokeDynamic { name_and_type_index, .. } => {
            if name_and_type_entry(cp, name_and_type_index, name, desc) {
                lemma_resolve_name_and_type_entry(cp, name_and_type_index, f, name, desc);
            }
        },
        _ => {},
    }
}

/// Whether the entry at `index` of `cp` is a `CONSTANT_Utf8` whose bytes decode to `t`.
pub open spec fn utf8_entry(cp: Seq<SpecCPInfo>, index: u16, t: Seq<char>) -> bool {
    &&& index < cp.len()
    &&& cp[index as int].info matches SpecConst::Utf8 { bytes, .. } && spec_mutf8_to_string(bytes) == Outcome::Value(t)
}

} // verus!
