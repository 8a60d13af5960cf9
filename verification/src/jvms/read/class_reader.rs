//! Reading a whole class file from bytes.

use crate::err::{AsmErr, AsmResult};
use crate::jvms::element::{
    AttributeInfo, ClassFile, FieldInfo, MethodInfo, SpecAttributeInfo, SpecCPInfo, SpecClassFile, SpecMemberInfo,
};
use crate::jvms::read::bytes::{be_u16, lemma_read_vec_len, spec_read_vec, Parsed, ReadContext};
use crate::jvms::read::jvms_reader::{
    lemma_counted_len, lemma_cp_count, read_raw_class_file, spec_read_class_tail, spec_read_counted, spec_read_cp,
    spec_read_member, spec_read_raw_class_file,
};
use crate::jvms::read::transform::{
    body_limit, outcome_option, outcome_result, spec_transform_attributes, spec_transform_class_file,
    spec_transform_members, transform_class_file, Outcome,
};
use vstd::prelude::*;

verus! {

/// What reading a class file from `s` gives: the class file read with its attribute
/// bodies as bytes, then every body of a known attribute read into its structure.
/// Bytes after the class file are ignored.
pub open spec fn spec_read_class_bytes(s: Seq<u8>) -> Outcome<SpecClassFile> {
    match spec_read_raw_class_file(s) {
        Parsed::Done(cf, _) => spec_transform_class_file(cf),
        Parsed::Fail(e) => Outcome::Error(e),
        Parsed::Abort => Outcome::Panic,
    }
}

/// Reads class files.
pub struct JvmsClassReader;

impl ClassFile {
    /// Each table of the class file holds as many entries as its count says: one
    /// constant-pool entry per slot, and as many interfaces, fields, methods and
    /// attributes as counted.
    pub open spec fn counts_match(&self) -> bool {
        &&& self.constant_pool@.len() == self.constant_pool_count
        &&& self.interfaces@.len() == self.interfaces_count
        &&& self.fields@.len() == self.fields_count
        &&& self.methods@.len() == self.methods_count
        &&& self.attributes@.len() == self.attributes_count
        &&& forall|i: int|
            0 <= i < self.fields@.len() ==> (#[trigger] self.fields@[i]).attributes@.len()
                == self.fields@[i].attributes_count
        &&& forall|i: int|
            0 <= i < self.methods@.len() ==> (#[trigger] self.methods@[i]).attributes@.len()
                == self.methods@[i].attributes_count
    }
}

impl JvmsClassReader {
    /// Reads a class file from `bytes`, as [spec_read_class_bytes] says, on every input
    /// on which the reading does not panic.
    pub fn read_class_bytes(bytes: &[u8]) -> (r: AsmResult<ClassFile>)
        requires
            !(spec_read_class_bytes(bytes@) is Panic),
        ensures
            outcome_result::<ClassFile>(spec_read_class_bytes(bytes@), r),
            r matches Ok(cf) ==> cf.counts_match(),
    {
        proof {
            lemma_read_class_counts(bytes@);
        }
        match Self::try_read_class_bytes(bytes) {
            Some(r) => r,
            None => Err(AsmErr::OutOfRange),
        }
    }

    /// Reads a class file from `bytes`, as [spec_read_class_bytes] says. It gives `None`
    /// exactly where the reading panics: a constant pool count of 0, a `Long` or `Double`
    /// entry in the last slot of the pool, or an attribute name index past its end.
    pub fn try_read_class_bytes(bytes: &[u8]) -> (r: Option<AsmResult<ClassFile>>)
        ensures
            outcome_option::<ClassFile>(spec_read_class_bytes(bytes@), r),
            r matches Some(Ok(cf)) ==> cf.counts_match(),
    {
        proof {
            lemma_read_class_counts(bytes@);
        }
        let mut context = ReadContext::big_endian(bytes);
        proof {
            assert(context.rest() =~= bytes@);
        }
        let r = match read_raw_class_file(&mut context) {
            Some(Ok(raw_file)) => transform_class_file(raw_file),
            Some(Err(e)) => Some(Err(e)),
            None => None,
        };
        proof {
            if r is Some && r->Some_0 is Ok {
                let cf = r->Some_0->Ok_0;
                let v = cf.deep_view();
                assert forall|i: int| 0 <= i < cf.fields@.len() implies (#[trigger] cf.fields@[i]).attributes@.len()
                    == cf.fields@[i].attributes_count by {
                    assert(v.fields[i] == cf.fields@[i].deep_view());
                    assert(v.fields[i].attributes.len() == cf.fields@[i].attributes@.len());
                }
                assert forall|i: int| 0 <= i < cf.methods@.len() implies (#[trigger] cf.methods@[i]).attributes@.len()
                    == cf.methods@[i].attributes_count by {
                    assert(v.methods[i] == cf.methods@[i].deep_view());
                    assert(v.methods[i].attributes.len() == cf.methods@[i].attributes@.len());
                }
            }
        }
        r
    }
}

} // verus!

verus! {

/// Reading bodies keeps the number of attributes.
proof fn lemma_transform_attributes_len(s: Seq<SpecAttributeInfo>, cp: Seq<SpecCPInfo>, limit: nat)
    ensures
        spec_transform_attributes(s, cp, limit) matches Outcome::Value(vs) ==> vs.len() == s.len(),
    decreases s.len(),
{
    if s.len() > 0 {
        lemma_transform_attributes_len(s.drop_last(), cp, limit);
    }
}

/// Reading bodies keeps the number of members.
proof fn lemma_transform_members_len(s: Seq<SpecMemberInfo>, cp: Seq<SpecCPInfo>)
    ensures
        spec_transform_members(s, cp) matches Outcome::Value(vs) ==> vs.len() == s.len(),
    decreases s.len(),
{
    if s.len() > 0 {
        lemma_transform_members_len(s.drop_last(), cp);
    }
}

/// Each member of `s` holds as many attributes as it counts.
pub open spec fn members_counted(s: Seq<SpecMemberInfo>) -> bool {
    forall|i: int| 0 <= i < s.len() ==> (#[trigger] s[i]).attributes.len() == s[i].attributes_count
}

/// A member read from bytes holds as many attributes as it counts.
proof fn lemma_member_counted(s: Seq<u8>)
    ensures
        spec_read_member(s) matches Parsed::Done(m, _) ==> m.attributes.len() == m.attributes_count,
{
    if s.len() >= 8 {
        lemma_read_vec_len::<AttributeInfo>(s.skip(8), be_u16(s[6], s[7]) as nat);
    }
}

/// Fields read from bytes hold as many attributes as they count.
proof fn lemma_fields_counted(s: Seq<u8>, n: nat)
    ensures
        spec_read_vec::<FieldInfo>(s, n) matches Parsed::Done(vs, _) ==> members_counted(vs),
    decreases n,
{
    if n > 0 {
        lemma_fields_counted(s, (n - 1) as nat);
        if let Parsed::Done(vs, m) = spec_read_vec::<FieldInfo>(s, (n - 1) as nat) {
            lemma_member_counted(s.skip(m as int));
        }
    }
}

/// Methods read from bytes hold as many attributes as they count.
proof fn lemma_methods_counted(s: Seq<u8>, n: nat)
    ensures
        spec_read_vec::<MethodInfo>(s, n) matches Parsed::Done(vs, _) ==> members_counted(vs),
    decreases n,
{
    if n > 0 {
        lemma_methods_counted(s, (n - 1) as nat);
        if let Parsed::Done(vs, m) = spec_read_vec::<MethodInfo>(s, (n - 1) as nat) {
            lemma_member_counted(s.skip(m as int));
        }
    }
}

/// Reading the bodies of the members' attributes keeps each member's count of attributes.
proof fn lemma_transform_members_counted(s: Seq<SpecMemberInfo>, cp: Seq<SpecCPInfo>)
    requires
        members_counted(s),
    ensures
        spec_transform_members(s, cp) matches Outcome::Value(vs) ==> members_counted(vs),
    decreases s.len(),
{
    if s.len() > 0 {
        assert forall|i: int| 0 <= i < s.drop_last().len() implies (#[trigger] s.drop_last()[i]).attributes.len()
            == s.drop_last()[i].attributes_count by {
            assert(s.drop_last()[i] == s[i]);
        }
        lemma_transform_members_counted(s.drop_last(), cp);
        lemma_transform_members_len(s.drop_last(), cp);
        lemma_transform_attributes_len(s.last().attributes, cp, body_limit());
        assert(s.last() == s[s.len() - 1]);
    }
}

/// A class file read from bytes holds as many entries as its counts say: one constant-pool
/// entry per slot (the placeholder at index 0 and the unusable slot after each `Long` and
/// `Double` included), as many interfaces, fields, methods and attributes as counted, and
/// in each field and method as many attributes as it counts.
pub proof fn lemma_read_class_counts(s: Seq<u8>)
    ensures
        spec_read_class_bytes(s) matches Outcome::Value(cf) ==> {
            &&& cf.constant_pool.len() == cf.constant_pool_count
            &&& cf.interfaces.len() == cf.interfaces_count
            &&& cf.fields.len() == cf.fields_count
            &&& cf.methods.len() == cf.methods_count
            &&& cf.attributes.len() == cf.attributes_count
            &&& members_counted(cf.fields)
            &&& members_counted(cf.methods)
        },
{
    reveal(spec_read_class_tail);
    reveal(spec_read_counted);
    if s.len() >= 10 {
        let count = be_u16(s[8], s[9]);
        lemma_cp_count(s.skip(10), count as nat);
        if let Parsed::Done(cp, n1) = spec_read_cp(s.skip(10), count as nat) {
            let t = s.skip(10 + n1 as int);
            if t.len() >= 6 {
                lemma_counted_len::<u16>(t.skip(6));
                if let Parsed::Done(_, m1) = spec_read_counted::<u16>(t.skip(6)) {
                    let p1: int = 6 + m1 as int;
                    lemma_counted_len::<FieldInfo>(t.skip(p1));
                    if t.skip(p1).len() >= 2 {
                        lemma_fields_counted(t.skip(p1).skip(2), be_u16(t.skip(p1)[0], t.skip(p1)[1]) as nat);
                    }
                    if let Parsed::Done(_, m2) = spec_read_counted::<FieldInfo>(t.skip(p1)) {
                        let p2: int = p1 + m2;
                        lemma_counted_len::<MethodInfo>(t.skip(p2));
                        if t.skip(p2).len() >= 2 {
                            lemma_methods_counted(t.skip(p2).skip(2), be_u16(t.skip(p2)[0], t.skip(p2)[1]) as nat);
                        }
                        if let Parsed::Done(_, m3) = spec_read_counted::<MethodInfo>(t.skip(p2)) {
                            let p3: int = p2 + m3;
                            lemma_counted_len::<AttributeInfo>(t.skip(p3));
                        }
                    }
                }
            }
        }
    }
    if let Parsed::Done(raw, _) = spec_read_raw_class_file(s) {
        lemma_transform_attributes_len(raw.attributes, raw.constant_pool, body_limit());
        lemma_transform_members_len(raw.fields, raw.constant_pool);
        lemma_transform_members_len(raw.methods, raw.constant_pool);
        lemma_transform_members_counted(raw.fields, raw.constant_pool);
        lemma_transform_members_counted(raw.methods, raw.constant_pool);
    }
}

} // verus!
