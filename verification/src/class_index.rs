//! The members a class lists: each method and field by name and descriptor, in the
//! order of their names and then of their descriptors.

use crate::err::{AsmErr, AsmResult};
use crate::jvms::element::{CPInfo, ClassFile, SpecCPInfo, SpecClassFile, SpecMemberInfo};
use crate::jvms::read::transform::Outcome;
use crate::node::const_reader::{as_utf8, spec_resolve, try_resolve_utf8};
use crate::util::str_eq;
use vstd::multiset::Multiset;
use vstd::prelude::*;
use vstd::string::StrSliceExecFns;

verus! {

/// Whether the string `a` comes before `b` or equals it: compared character by character
/// by code point, a proper prefix coming first. This is the order of `str`.
pub open spec fn chars_le(a: Seq<char>, b: Seq<char>) -> bool
    decreases a.len(),
{
    if a.len() == 0 {
        true
    } else if b.len() == 0 {
        false
    } else if a[0] != b[0] {
        (a[0] as int) < (b[0] as int)
    } else {
        chars_le(a.drop_first(), b.drop_first())
    }
}

/// Of two strings, one comes before the other or equals it.
pub proof fn lemma_chars_le_total(a: Seq<char>, b: Seq<char>)
    ensures
        chars_le(a, b) || chars_le(b, a),
    decreases a.len(),
{
    if a.len() > 0 && b.len() > 0 {
        if a[0] == b[0] {
            lemma_chars_le_total(a.drop_first(), b.drop_first());
        } else {
            assert((a[0] as int) != (b[0] as int));
        }
    }
}

/// Two strings that each come before the other are equal.
pub proof fn lemma_chars_le_antisymmetric(a: Seq<char>, b: Seq<char>)
    requires
        chars_le(a, b),
        chars_le(b, a),
    ensures
        a == b,
    decreases a.len(),
{
    if a.len() == 0 {
        assert(b.len() == 0);
        assert(a =~= b);
    } else {
        lemma_chars_le_antisymmetric(a.drop_first(), b.drop_first());
        assert(a =~= seq![a[0]] + a.drop_first());
        assert(b =~= seq![b[0]] + b.drop_first());
    }
}

/// The order of strings is transitive.
pub proof fn lemma_chars_le_transitive(a: Seq<char>, b: Seq<char>, c: Seq<char>)
    requires
        chars_le(a, b),
        chars_le(b, c),
    ensures
        chars_le(a, c),
    decreases a.len(),
{
    if a.len() > 0 && b.len() > 0 && c.len() > 0 && a[0] == b[0] && b[0] == c[0] {
        lemma_chars_le_transitive(a.drop_first(), b.drop_first(), c.drop_first());
    }
}

/// Whether `a` comes before `b` or equals it, in the order of `str`.
pub fn str_le(a: &str, b: &str) -> (r: bool)
    ensures
        r == chars_le(a@, b@),
{
    let n = a.unicode_len();
    let m = b.unicode_len();
    let mut k: usize = 0;
    proof {
        assert(a@.skip(0) =~= a@);
        assert(b@.skip(0) =~= b@);
    }
    while k < n && k < m
        invariant
            n == a@.len(),
            m == b@.len(),
            k <= n,
            k <= m,
            chars_le(a@, b@) == chars_le(a@.skip(k as int), b@.skip(k as int)),
        decreases n - k,
    {
        let x = a.get_char(k);
        let y = b.get_char(k);
        proof {
            assert(a@.skip(k as int)[0] == x);
            assert(b@.skip(k as int)[0] == y);
            assert(a@.skip(k as int).drop_first() =~= a@.skip(k + 1));
            assert(b@.skip(k as int).drop_first() =~= b@.skip(k + 1));
        }
        if x != y {
            return (x as u32) < (y as u32);
        }
        k = k + 1;
    }
    k == n
}

/// A method or field as a class lists it: its name and its descriptor.
#[derive(Debug, Clone, PartialEq, Eq)]
pub struct MemberEntry {
    pub name: String,
    pub descriptor: String,
}

impl DeepView for MemberEntry {
    type V = (Seq<char>, Seq<char>);

    open spec fn deep_view(&self) -> (Seq<char>, Seq<char>) {
        (self.name@, self.descriptor@)
    }
}

/// Whether the member `x` comes before `y` or equals it: by name, and by descriptor
/// where the names are equal.
pub open spec fn entry_le(x: (Seq<char>, Seq<char>), y: (Seq<char>, Seq<char>)) -> bool {
    if x.0 == y.0 {
        chars_le(x.1, y.1)
    } else {
        chars_le(x.0, y.0)
    }
}

/// Whether the members of `s` are in order.
pub open spec fn entries_sorted(s: Seq<(Seq<char>, Seq<char>)>) -> bool {
    forall|i: int, j: int| 0 <= i < j < s.len() ==> entry_le(#[trigger] s[i], #[trigger] s[j])
}

/// Of two members, one comes before the other or equals it.
pub proof fn lemma_entry_le_total(x: (Seq<char>, Seq<char>), y: (Seq<char>, Seq<char>))
    ensures
        entry_le(x, y) || entry_le(y, x),
{
    lemma_chars_le_total(x.0, y.0);
    lemma_chars_le_total(x.1, y.1);
}

/// The order of members is transitive.
pub proof fn lemma_entry_le_transitive(
    x: (Seq<char>, Seq<char>),
    y: (Seq<char>, Seq<char>),
    z: (Seq<char>, Seq<char>),
)
    requires
        entry_le(x, y),
        entry_le(y, z),
    ensures
        entry_le(x, z),
{
    if x.0 == y.0 && y.0 == z.0 {
        lemma_chars_le_transitive(x.1, y.1, z.1);
    } else if x.0 != y.0 && y.0 != z.0 {
        lemma_chars_le_transitive(x.0, y.0, z.0);
        if x.0 == z.0 {
            lemma_chars_le_antisymmetric(x.0, y.0);
        }
    }
}

/// Two members that each come before the other are the same member.
pub proof fn lemma_entry_le_antisymmetric(x: (Seq<char>, Seq<char>), y: (Seq<char>, Seq<char>))
    requires
        entry_le(x, y),
        entry_le(y, x),
    ensures
        x == y,
{
    if x.0 == y.0 {
        lemma_chars_le_antisymmetric(x.1, y.1);
    } else {
        lemma_chars_le_antisymmetric(x.0, y.0);
    }
}

/// Members in order are determined by which members they are: two ordered lists of the
/// same members are equal, so [sort_members] has one possible result.
pub proof fn lemma_sorted_unique(a: Seq<(Seq<char>, Seq<char>)>, b: Seq<(Seq<char>, Seq<char>)>)
    requires
        entries_sorted(a),
        entries_sorted(b),
        a.to_multiset() == b.to_multiset(),
    ensures
        a == b,
    decreases a.len(),
{
    broadcast use vstd::seq_lib::group_to_multiset_ensures;

    if a.len() == 0 {
        assert(b.to_multiset().len() == 0);
        assert(b =~= a);
    } else {
        assert(a.len() == a.to_multiset().len());
        assert(b.len() == b.to_multiset().len());
        let x = a[0];
        let y = b[0];
        assert(a.contains(x));
        assert(b.to_multiset().count(x) > 0);
        assert(b.contains(x));
        let k = choose|k: int| 0 <= k < b.len() && b[k] == x;
        if k > 0 {
            assert(entry_le(b[0], b[k]));
        } else {
            lemma_chars_le_total(y.1, y.1);
        }
        assert(b.contains(y));
        assert(a.to_multiset().count(y) > 0);
        assert(a.contains(y));
        let j = choose|j: int| 0 <= j < a.len() && a[j] == y;
        if j > 0 {
            assert(entry_le(a[0], a[j]));
        } else {
            lemma_chars_le_total(x.1, x.1);
        }
        if k > 0 && j > 0 {
            lemma_entry_le_antisymmetric(x, y);
        }
        assert(x == y);
        assert(a.remove(0) =~= a.drop_first());
        assert(b.remove(0) =~= b.drop_first());
        assert(a.drop_first().to_multiset() == a.to_multiset().remove(x));
        assert(b.drop_first().to_multiset() == b.to_multiset().remove(y));
        lemma_sorted_unique(a.drop_first(), b.drop_first());
        assert(a =~= seq![x] + a.drop_first());
        assert(b =~= seq![y] + b.drop_first());
    }
}

/// Whether `x` comes before `y` or equals it, as [entry_le] says.
pub fn member_le(x: &MemberEntry, y: &MemberEntry) -> (r: bool)
    ensures
        r == entry_le(x.deep_view(), y.deep_view()),
{
    if str_eq(x.name.as_str(), y.name.as_str()) {
        str_le(x.descriptor.as_str(), y.descriptor.as_str())
    } else {
        str_le(x.name.as_str(), y.name.as_str())
    }
}

/// The members of `v` in order: by name, then by descriptor.
pub fn sort_members(v: Vec<MemberEntry>) -> (r: Vec<MemberEntry>)
    ensures
        entries_sorted(r.deep_view()),
        r.deep_view().to_multiset() == v.deep_view().to_multiset(),
{
    broadcast use vstd::seq_lib::group_to_multiset_ensures;

    let ghost orig = v.deep_view();
    let mut v = v;
    let mut r: Vec<MemberEntry> = Vec::new();
    proof {
        assert(r.deep_view().to_multiset() =~= Multiset::empty());
        assert(r.deep_view().to_multiset().add(v.deep_view().to_multiset()) =~= orig.to_multiset());
    }
    while v.len() > 0
        invariant
            entries_sorted(r.deep_view()),
            r.deep_view().to_multiset().add(v.deep_view().to_multiset()) == orig.to_multiset(),
        decreases v.len(),
    {
        let ghost v_before = v.deep_view();
        let x = v.pop().unwrap();
        let ghost xv = x.deep_view();
        proof {
            assert(v_before =~= v.deep_view().push(xv));
        }
        let ghost rv = r.deep_view();
        let mut j: usize = 0;
        while j < r.len() && member_le(&r[j], &x)
            invariant
                j <= r.len(),
                r.deep_view() == rv,
                xv == x.deep_view(),
                forall|k: int| 0 <= k < j ==> entry_le(#[trigger] rv[k], xv),
            decreases r.len() - j,
        {
            j = j + 1;
        }
        proof {
            if j < r.len() {
                lemma_entry_le_total(rv[j as int], xv);
            }
        }
        r.insert(j, x);
        proof {
            let t = r.deep_view();
            assert(t =~= rv.insert(j as int, xv));
            assert forall|a: int, b: int| 0 <= a < b < t.len() implies entry_le(#[trigger] t[a], #[trigger] t[b]) by {
                if b < j {
                } else if b == j {
                } else if a == j {
                    if b - 1 > j {
                        assert(entry_le(rv[j as int], rv[b - 1]));
                        lemma_entry_le_transitive(xv, rv[j as int], rv[b - 1]);
                    }
                } else if a < j {
                    assert(entry_le(rv[a], rv[b - 1]));
                } else {
                    assert(entry_le(rv[a - 1], rv[b - 1]));
                }
            }
            vstd::seq_lib::to_multiset_insert(rv, j as int, xv);
            vstd::seq_lib::to_multiset_build(v.deep_view(), xv);
            assert(t.to_multiset().add(v.deep_view().to_multiset()) =~= orig.to_multiset());
        }
    }
    proof {
        assert(v.deep_view().to_multiset() =~= Multiset::empty());
        assert(r.deep_view().to_multiset() =~= r.deep_view().to_multiset().add(v.deep_view().to_multiset()));
    }
    r
}

/// The name and descriptor of the member `m`, each read as UTF-8 from the pool `cp`.
pub open spec fn spec_member_entry(cp: Seq<SpecCPInfo>, m: SpecMemberInfo) -> Outcome<(Seq<char>, Seq<char>)> {
    match as_utf8(spec_resolve(cp, m.name_index, cp.len()), m.name_index) {
        Outcome::Value(name) => match as_utf8(spec_resolve(cp, m.descriptor_index, cp.len()), m.descriptor_index) {
            Outcome::Value(desc) => Outcome::Value((name, desc)),
            Outcome::Error(e) => Outcome::Error(e),
            Outcome::Panic => Outcome::Panic,
        },
        Outcome::Error(e) => Outcome::Error(e),
        Outcome::Panic => Outcome::Panic,
    }
}

/// The names and descriptors of the members of `s`, read first to last; it stops at the
/// first error.
pub open spec fn spec_member_entries(cp: Seq<SpecCPInfo>, s: Seq<SpecMemberInfo>) -> Outcome<
    Seq<(Seq<char>, Seq<char>)>,
>
    decreases s.len(),
{
    if s.len() == 0 {
        Outcome::Value(Seq::empty())
    } else {
        match spec_member_entries(cp, s.drop_last()) {
            Outcome::Value(vs) => match spec_member_entry(cp, s.last()) {
                Outcome::Value(v) => Outcome::Value(vs.push(v)),
                Outcome::Error(e) => Outcome::Error(e),
                Outcome::Panic => Outcome::Panic,
            },
            Outcome::Error(e) => Outcome::Error(e),
            Outcome::Panic => Outcome::Panic,
        }
    }
}

/// Once a prefix stops with an error or a panic, the whole list stops the same way.
pub proof fn lemma_member_entries_stuck(cp: Seq<SpecCPInfo>, s: Seq<SpecMemberInfo>, i: int, n: int)
    requires
        0 <= i <= n <= s.len(),
        !(spec_member_entries(cp, s.take(i)) is Value),
    ensures
        spec_member_entries(cp, s.take(n)) == spec_member_entries(cp, s.take(i)),
    decreases n - i,
{
    if i < n {
        lemma_member_entries_stuck(cp, s, i, n - 1);
        assert(s.take(n).drop_last() =~= s.take(n - 1));
    }
}

/// The methods and the fields of a class file, each by name and descriptor: the fields
/// are read first, then the methods.
pub open spec fn spec_class_members(cf: SpecClassFile) -> Outcome<
    (Seq<(Seq<char>, Seq<char>)>, Seq<(Seq<char>, Seq<char>)>),
> {
    match spec_member_entries(cf.constant_pool, cf.fields) {
        Outcome::Value(fields) => match spec_member_entries(cf.constant_pool, cf.methods) {
            Outcome::Value(methods) => Outcome::Value((methods, fields)),
            Outcome::Error(e) => Outcome::Error(e),
            Outcome::Panic => Outcome::Panic,
        },
        Outcome::Error(e) => Outcome::Error(e),
        Outcome::Panic => Outcome::Panic,
    }
}

/// Reads the name and descriptor of a member. It gives `None` exactly where the reading panics.
fn member_entry(cp: &Vec<CPInfo>, name_index: u16, descriptor_index: u16, Ghost(m): Ghost<SpecMemberInfo>) -> (r: Option<
    AsmResult<MemberEntry>,
>)
    requires
        m.name_index == name_index,
        m.descriptor_index == descriptor_index,
    ensures
        match spec_member_entry(cp.deep_view(), m) {
            Outcome::Value(v) => r matches Some(Ok(x)) && x.deep_view() == v,
            Outcome::Error(e) => r == Some(Err::<MemberEntry, AsmErr>(e)),
            Outcome::Panic => r is None,
        },
{
    let name = match try_resolve_utf8(cp, name_index, cp.len()) {
        Some(Ok(name)) => name,
        Some(Err(e)) => {
            return Some(Err(e));
        },
        None => {
            return None;
        },
    };
    match try_resolve_utf8(cp, descriptor_index, cp.len()) {
        Some(Ok(descriptor)) => Some(Ok(MemberEntry { name, descriptor })),
        Some(Err(e)) => Some(Err(e)),
        None => None,
    }
}

/// How reading a list of members relates to [spec_member_entries].
pub open spec fn entries_option(o: Outcome<Seq<(Seq<char>, Seq<char>)>>, r: Option<AsmResult<Vec<MemberEntry>>>) -> bool {
    match o {
        Outcome::Value(v) => r matches Some(Ok(x)) && x.deep_view() == v,
        Outcome::Error(e) => r == Some(Err::<Vec<MemberEntry>, AsmErr>(e)),
        Outcome::Panic => r is None,
    }
}

/// Reads the names and descriptors of the fields of `class_file`, first to last.
fn field_entries(class_file: &ClassFile) -> (r: Option<AsmResult<Vec<MemberEntry>>>)
    ensures
        entries_option(spec_member_entries(class_file.constant_pool.deep_view(), class_file.fields.deep_view()), r),
{
    let ghost cp = class_file.constant_pool.deep_view();
    let ghost s = class_file.fields.deep_view();
    let n = class_file.fields.len();
    let mut out: Vec<MemberEntry> = Vec::new();
    let mut i: usize = 0;
    proof {
        assert(s.take(0) =~= Seq::<SpecMemberInfo>::empty());
        assert(out.deep_view() =~= Seq::<(Seq<char>, Seq<char>)>::empty());
    }
    while i < n
        invariant
            n == s.len(),
            i <= n,
            cp == class_file.constant_pool.deep_view(),
            s == class_file.fields.deep_view(),
            spec_member_entries(cp, s.take(i as int)) == Outcome::Value(out.deep_view()),
        decreases n - i,
    {
        let field = &class_file.fields[i];
        let ghost m = s[i as int];
        proof {
            assert(s.take(i + 1).drop_last() =~= s.take(i as int));
            assert(s.take(i + 1).last() == m);
            assert(s.take(n as int) =~= s);
        }
        match member_entry(&class_file.constant_pool, field.name_index, field.descriptor_index, Ghost(m)) {
            Some(Ok(e)) => {
                let ghost before = out.deep_view();
                out.push(e);
                proof {
                    assert(out.deep_view() =~= before.push(e.deep_view()));
                }
            },
            Some(Err(e)) => {
                proof {
                    lemma_member_entries_stuck(cp, s, i + 1, n as int);
                }
                return Some(Err(e));
            },
            None => {
                proof {
                    lemma_member_entries_stuck(cp, s, i + 1, n as int);
                }
                return None;
            },
        }
        i = i + 1;
    }
    proof {
        assert(s.take(n as int) =~= s);
    }
    Some(Ok(out))
}

/// Reads the names and descriptors of the methods of `class_file`, first to last.
fn method_entries(class_file: &ClassFile) -> (r: Option<AsmResult<Vec<MemberEntry>>>)
    ensures
        entries_option(spec_member_entries(class_file.constant_pool.deep_view(), class_file.methods.deep_view()), r),
{
    let ghost cp = class_file.constant_pool.deep_view();
    let ghost s = class_file.methods.deep_view();
    let n = class_file.methods.len();
    let mut out: Vec<MemberEntry> = Vec::new();
    let mut i: usize = 0;
    proof {
        assert(s.take(0) =~= Seq::<SpecMemberInfo>::empty());
        assert(out.deep_view() =~= Seq::<(Seq<char>, Seq<char>)>::empty());
    }
    while i < n
        invariant
            n == s.len(),
            i <= n,
            cp == class_file.constant_pool.deep_view(),
            s == class_file.methods.deep_view(),
            spec_member_entries(cp, s.take(i as int)) == Outcome::Value(out.deep_view()),
        decreases n - i,
    {
        let method = &class_file.methods[i];
        let ghost m = s[i as int];
        proof {
            assert(s.take(i + 1).drop_last() =~= s.take(i as int));
            assert(s.take(i + 1).last() == m);
            assert(s.take(n as int) =~= s);
        }
        match member_entry(&class_file.constant_pool, method.name_index, method.descriptor_index, Ghost(m)) {
            Some(Ok(e)) => {
                let ghost before = out.deep_view();
                out.push(e);
                proof {
                    assert(out.deep_view() =~= before.push(e.deep_view()));
                }
            },
            Some(Err(e)) => {
                proof {
                    lemma_member_entries_stuck(cp, s, i + 1, n as int);
                }
                return Some(Err(e));
            },
            None => {
                proof {
                    lemma_member_entries_stuck(cp, s, i + 1, n as int);
                }
                return None;
            },
        }
        i = i + 1;
    }
    proof {
        assert(s.take(n as int) =~= s);
    }
    Some(Ok(out))
}

/// The methods and the fields of `class_file`, each list by name and descriptor and in
/// order (by name, then by descriptor). It gives `None` exactly where reading a name
/// panics; the fields are read before the methods, so an error of a field comes first.
pub fn class_members(class_file: &ClassFile) -> (r: Option<AsmResult<(Vec<MemberEntry>, Vec<MemberEntry>)>>)
    ensures
        match spec_class_members(class_file.deep_view()) {
            Outcome::Value((methods, fields)) => r matches Some(Ok((m, f))) && {
                &&& entries_sorted(m.deep_view())
                &&& m.deep_view().to_multiset() == methods.to_multiset()
                &&& entries_sorted(f.deep_view())
                &&& f.deep_view().to_multiset() == fields.to_multiset()
            },
            Outcome::Error(e) => r == Some(Err::<(Vec<MemberEntry>, Vec<MemberEntry>), AsmErr>(e)),
            Outcome::Panic => r is None,
        },
{
    let fields = match field_entries(class_file) {
        Some(Ok(fields)) => fields,
        Some(Err(e)) => {
            return Some(Err(e));
        },
        None => {
            return None;
        },
    };
    let methods = match method_entries(class_file) {
        Some(Ok(methods)) => methods,
        Some(Err(e)) => {
            return Some(Err(e));
        },
        None => {
            return None;
        },
    };
    Some(Ok((sort_members(methods), sort_members(fields))))
}

} // verus!
