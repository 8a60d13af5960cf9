//! Writing the access flags of a class, field or method as smali writes them.

use crate::node::element::{ClassNode, FieldInitialValue, SpecClassNode, SpecFieldInitialValue, SpecFieldNode, SpecMethodNode};
use crate::smali::{decimal, push_decimal};
use vstd::prelude::*;
use vstd::string::{StrSliceExecFns, StringExecFns};

verus! {

/// A flag's name as written: without its leading `acc_`, if it has one.
pub open spec fn flag_text(name: Seq<char>) -> Seq<char> {
    if name.len() >= 4 && name.take(4) == "acc_"@ {
        name.skip(4)
    } else {
        name
    }
}

/// Whether bit `bit` of `flags` is set.
pub open spec fn flag_set(flags: u16, bit: u16) -> bool {
    flags & (1u16 << bit) != 0
}

/// The text written for the bits of `flags` below `bit`, lowest first: for each set bit
/// that has a name in `names` (the name of the flag with bit `b` alone is `names[b]`), a
/// space and the name as [flag_text] writes it.
pub open spec fn flags_text(flags: u16, names: Seq<Option<&str>>, bit: u16) -> Seq<char>
    decreases bit,
{
    if bit == 0 {
        Seq::empty()
    } else {
        let b = (bit - 1) as u16;
        flags_text(flags, names, b) + if flag_set(flags, b) && b < names.len() && names[b as int] is Some {
            " "@ + flag_text(names[b as int]->0@)
        } else {
            Seq::empty()
        }
    }
}

/// Appends to `output` the names of the flags set in `flags`, lowest bit first, each
/// after a space and without its `acc_` prefix; `names[b]` is the name of the flag with
/// bit `b` alone, and a bit with no name is left out.
pub fn append_java_flags(output: &mut String, flags: u16, names: &[Option<&str>])
    ensures
        final(output)@ == old(output)@ + flags_text(flags, names@, 16),
{
    let ghost start = output@;
    let mut bit: u16 = 0;
    proof {
        assert(start + flags_text(flags, names@, 0) =~= start);
        reveal_strlit(" ");
        reveal_strlit("acc_");
    }
    while bit < 16
        invariant
            bit <= 16,
            output@ == start + flags_text(flags, names@, bit),
        decreases 16 - bit,
    {
        let ghost before = output@;
        let flag: u16 = 1u16 << bit;
        if flags & flag != 0 && (bit as usize) < names.len() {
            if let Some(name) = names[bit as usize] {
                output.append(" ");
                let n = name.unicode_len();
                if n >= 4 && name.get_char(0) == 'a' && name.get_char(1) == 'c' && name.get_char(2) == 'c'
                    && name.get_char(3) == '_' {
                    output.append(name.substring_char(4, n));
                    proof {
                        reveal_strlit("acc_");
                        assert(name@.take(4) =~= "acc_"@);
                        assert(name@.subrange(4, n as int) =~= name@.skip(4));
                    }
                } else {
                    output.append(name);
                    proof {
                        reveal_strlit("acc_");
                        if n >= 4 {
                            assert(name@.take(4)[0] == name@[0]);
                            assert(name@.take(4)[1] == name@[1]);
                            assert(name@.take(4)[2] == name@[2]);
                            assert(name@.take(4)[3] == name@[3]);
                            assert(name@.take(4) != "acc_"@);
                        }
                    }
                }
            }
        }
        proof {
            reveal_strlit(" ");
            assert(output@ =~= start + flags_text(flags, names@, (bit + 1) as u16));
        }
        bit = bit + 1;
    }
}

} // verus!

verus! {

/// The names of the access flags of a class, by bit (JVMS 4.1, table 4.1-B).
pub open spec fn class_flag_names() -> Seq<Option<&'static str>> {
    seq![
        Some("acc_public"), None, None, None, Some("acc_final"), Some("acc_super"), None, None,
        None, Some("acc_interface"), Some("acc_abstract"), None, Some("acc_synthetic"),
        Some("acc_annotation"), Some("acc_enum"), Some("acc_module"),
    ]
}

/// The names of the access flags of a field, by bit (JVMS 4.5, table 4.5-A).
pub open spec fn field_flag_names() -> Seq<Option<&'static str>> {
    seq![
        Some("acc_public"), Some("acc_private"), Some("acc_protected"), Some("acc_static"),
        Some("acc_final"), None, Some("acc_volatile"), Some("acc_transient"), None, None, None, None,
        Some("acc_synthetic"), None, Some("acc_enum"), None,
    ]
}

/// The names of the access flags of a method, by bit (JVMS 4.6, table 4.6-A).
pub open spec fn method_flag_names() -> Seq<Option<&'static str>> {
    seq![
        Some("acc_public"), Some("acc_private"), Some("acc_protected"), Some("acc_static"),
        Some("acc_final"), Some("acc_synchronized"), Some("acc_bridge"), Some("acc_varargs"),
        Some("acc_native"), None, Some("acc_abstract"), Some("acc_strict"), Some("acc_synthetic"),
        None, None, None,
    ]
}

/// The names of the access flags of a class, as [class_flag_names] lists them.
pub fn class_flags() -> (r: Vec<Option<&'static str>>)
    ensures
        r@ == class_flag_names(),
{
    vec![
        Some("acc_public"), None, None, None, Some("acc_final"), Some("acc_super"), None, None,
        None, Some("acc_interface"), Some("acc_abstract"), None, Some("acc_synthetic"),
        Some("acc_annotation"), Some("acc_enum"), Some("acc_module"),
    ]
}

/// The names of the access flags of a field, as [field_flag_names] lists them.
pub fn field_flags() -> (r: Vec<Option<&'static str>>)
    ensures
        r@ == field_flag_names(),
{
    vec![
        Some("acc_public"), Some("acc_private"), Some("acc_protected"), Some("acc_static"),
        Some("acc_final"), None, Some("acc_volatile"), Some("acc_transient"), None, None, None, None,
        Some("acc_synthetic"), None, Some("acc_enum"), None,
    ]
}

/// The names of the access flags of a method, as [method_flag_names] lists them.
pub fn method_flags() -> (r: Vec<Option<&'static str>>)
    ensures
        r@ == method_flag_names(),
{
    vec![
        Some("acc_public"), Some("acc_private"), Some("acc_protected"), Some("acc_static"),
        Some("acc_final"), Some("acc_synchronized"), Some("acc_bridge"), Some("acc_varargs"),
        Some("acc_native"), None, Some("acc_abstract"), Some("acc_strict"), Some("acc_synthetic"),
        None, None, None,
    ]
}

} // verus!

verus! {

/// The text of an integer as `{:?}` writes it: a minus sign before a negative number, then
/// its decimal digits.
pub open spec fn int_text(n: int) -> Seq<char> {
    if n >= 0 {
        decimal(n as nat)
    } else {
        "-"@ + decimal((-n) as nat)
    }
}

/// Appends the decimal text of `n`, as [int_text] says.
fn push_int(out: &mut String, n: i64)
    ensures
        final(out)@ == old(out)@ + int_text(n as int),
{
    if n >= 0 {
        push_decimal(out, n as u64);
    } else {
        out.append("-");
        let m: u64 = (-(n as i128)) as u64;
        push_decimal(out, m);
        proof {
            assert(old(out)@ + "-"@ + decimal(m as nat) =~= old(out)@ + ("-"@ + decimal(m as nat)));
        }
    }
}

/// How a character of a string is written between quotes: `"`, `\` and the line feed,
/// carriage return, tab and null characters by their escapes, every other as it is.
pub open spec fn escaped_char(c: char) -> Seq<char> {
    if c == '"' {
        "\\\""@
    } else if c == '\\' {
        "\\\\"@
    } else if c == '\n' {
        "\\n"@
    } else if c == '\r' {
        "\\r"@
    } else if c == '\t' {
        "\\t"@
    } else if c == '\0' {
        "\\0"@
    } else {
        seq![c]
    }
}

/// The characters of `s`, each written as [escaped_char] says.
pub open spec fn escaped(s: Seq<char>) -> Seq<char>
    decreases s.len(),
{
    if s.len() == 0 {
        Seq::empty()
    } else {
        escaped(s.drop_last()) + escaped_char(s.last())
    }
}

/// Appends `s` with its characters escaped, as [escaped] says.
fn push_escaped(out: &mut String, s: &str)
    ensures
        final(out)@ == old(out)@ + escaped(s@),
{
    let n = s.unicode_len();
    let mut i: usize = 0;
    proof {
        assert(s@.take(0) =~= Seq::<char>::empty());
        assert(old(out)@ + escaped(Seq::<char>::empty()) =~= old(out)@);
    }
    while i < n
        invariant
            n == s@.len(),
            i <= n,
            out@ == old(out)@ + escaped(s@.take(i as int)),
        decreases n - i,
    {
        let c = s.get_char(i);
        let ghost before = out@;
        if c == '"' {
            out.append("\\\"");
        } else if c == '\\' {
            out.append("\\\\");
        } else if c == '\n' {
            out.append("\\n");
        } else if c == '\r' {
            out.append("\\r");
        } else if c == '\t' {
            out.append("\\t");
        } else if c == '\0' {
            out.append("\\0");
        } else {
            out.append(s.substring_char(i, i + 1));
            proof {
                assert(s@.subrange(i as int, i + 1) =~= seq![c]);
            }
        }
        proof {
            assert(s@.take(i + 1).drop_last() =~= s@.take(i as int));
            assert(s@.take(i + 1).last() == c);
            assert(out@ =~= before + escaped_char(c));
            assert(out@ =~= old(out)@ + escaped(s@.take(i + 1)));
        }
        i = i + 1;
    }
    proof {
        assert(s@.take(n as int) =~= s@);
    }
}

/// How the value a field starts with is written after ` = `: the variant's name and, in
/// brackets, an integer in decimal, a `float` or `double` by the decimal value of its
/// IEEE 754 bits, or a string between quotes with its characters escaped.
pub open spec fn value_text(v: SpecFieldInitialValue) -> Seq<char> {
    match v {
        SpecFieldInitialValue::Integer(i) => "Integer("@ + int_text(i as int) + ")"@,
        SpecFieldInitialValue::Float(b) => "Float("@ + decimal(b as nat) + ")"@,
        SpecFieldInitialValue::Long(l) => "Long("@ + int_text(l as int) + ")"@,
        SpecFieldInitialValue::Double(b) => "Double("@ + decimal(b as nat) + ")"@,
        SpecFieldInitialValue::String(s) => "String(\""@ + escaped(s) + "\")"@,
    }
}

/// The line of a field: `.field`, its flags, its name and descriptor, and ` = ` and its
/// initial value if it has one.
pub open spec fn field_text(f: SpecFieldNode) -> Seq<char> {
    ".field"@ + flags_text(f.access, field_flag_names(), 16) + " "@ + f.name + " "@ + f.desc + match f.value {
        Some(v) => " = "@ + value_text(v),
        None => Seq::empty(),
    } + "\n"@
}

/// The lines of a method: `.method`, its flags, its name and descriptor, then `.end method`.
pub open spec fn method_text(m: SpecMethodNode) -> Seq<char> {
    ".method"@ + flags_text(m.access, method_flag_names(), 16) + " "@ + m.name + " "@ + m.desc + "\n"@
        + ".end method\n"@
}

/// The lines of the fields `s`, first to last.
pub open spec fn fields_text(s: Seq<SpecFieldNode>) -> Seq<char>
    decreases s.len(),
{
    if s.len() == 0 {
        Seq::empty()
    } else {
        fields_text(s.drop_last()) + field_text(s.last())
    }
}

/// The lines of the methods `s`, first to last.
pub open spec fn methods_text(s: Seq<SpecMethodNode>) -> Seq<char>
    decreases s.len(),
{
    if s.len() == 0 {
        Seq::empty()
    } else {
        methods_text(s.drop_last()) + method_text(s.last())
    }
}

/// The `.implements` lines of the interfaces `s`, first to last.
pub open spec fn interfaces_text(s: Seq<Seq<char>>) -> Seq<char>
    decreases s.len(),
{
    if s.len() == 0 {
        Seq::empty()
    } else {
        interfaces_text(s.drop_last()) + ".implements "@ + s.last() + "\n"@
    }
}

/// A line of `head` and the text `o`, if there is one.
pub open spec fn optional_line(head: Seq<char>, o: Option<Seq<char>>) -> Seq<char> {
    match o {
        Some(v) => head + v + "\n"@,
        None => Seq::empty(),
    }
}

/// The smali text of a class: `.class` with its flags and name, `.super`, `.implements`
/// and `.source` lines where it has them, its fields, its methods, and `.end class`.
pub open spec fn spec_render_class(n: SpecClassNode) -> Seq<char> {
    ".class"@ + flags_text(n.access, class_flag_names(), 16) + " "@ + n.name + "\n"@ + optional_line(
        ".super "@,
        n.super_name,
    ) + interfaces_text(n.interfaces) + optional_line(".source "@, n.source_file) + fields_text(n.fields)
        + methods_text(n.methods) + ".end class\n"@
}

/// Appends the text of a field's initial value, as [value_text] says.
fn push_value(out: &mut String, v: &FieldInitialValue)
    ensures
        final(out)@ == old(out)@ + value_text(v.deep_view()),
{
    let ghost start = out@;
    match v {
        FieldInitialValue::Integer(i) => {
            out.append("Integer(");
            push_int(out, *i as i64);
            out.append(")");
        },
        FieldInitialValue::Float(b) => {
            out.append("Float(");
            push_decimal(out, *b as u64);
            out.append(")");
        },
        FieldInitialValue::Long(l) => {
            out.append("Long(");
            push_int(out, *l);
            out.append(")");
        },
        FieldInitialValue::Double(b) => {
            out.append("Double(");
            push_decimal(out, *b);
            out.append(")");
        },
        FieldInitialValue::String(s) => {
            out.append("String(\"");
            push_escaped(out, s.as_str());
            out.append("\")");
        },
    }
    proof {
        assert(out@ =~= start + value_text(v.deep_view()));
    }
}

/// The smali text of `node`, as [spec_render_class] says.
pub fn render_jvm_class(node: &ClassNode) -> (r: String)
    ensures
        r@ == spec_render_class(node.deep_view()),
{
    let ghost n = node.deep_view();
    let mut output = String::new();
    output.append(".class");
    append_java_flags(&mut output, node.access, class_flags().as_slice());
    output.append(" ");
    output.append(node.name.as_str());
    output.append("\n");
    if let Some(super_name) = &node.super_name {
        output.append(".super ");
        output.append(super_name.as_str());
        output.append("\n");
    }
    let ghost head = output@;
    proof {
        assert(head =~= ".class"@ + flags_text(n.access, class_flag_names(), 16) + " "@ + n.name + "\n"@
            + optional_line(".super "@, n.super_name));
        assert(n.interfaces.take(0) =~= Seq::<Seq<char>>::empty());
        assert(head + interfaces_text(n.interfaces.take(0)) =~= head);
    }
    let mut i: usize = 0;
    while i < node.interfaces.len()
        invariant
            i <= node.interfaces@.len(),
            n == node.deep_view(),
            output@ == head + interfaces_text(n.interfaces.take(i as int)),
        decreases node.interfaces@.len() - i,
    {
        output.append(".implements ");
        output.append(node.interfaces[i].as_str());
        output.append("\n");
        proof {
            assert(n.interfaces.take(i + 1).drop_last() =~= n.interfaces.take(i as int));
            assert(n.interfaces.take(i + 1).last() == node.interfaces@[i as int]@);
            assert(output@ =~= head + interfaces_text(n.interfaces.take(i + 1)));
        }
        i = i + 1;
    }
    if let Some(source_file) = &node.source_file {
        output.append(".source ");
        output.append(source_file.as_str());
        output.append("\n");
    }
    let ghost head2 = output@;
    proof {
        assert(n.interfaces.take(node.interfaces@.len() as int) =~= n.interfaces);
        assert(head2 =~= head + interfaces_text(n.interfaces) + optional_line(".source "@, n.source_file));
        assert(n.fields.take(0) =~= Seq::<SpecFieldNode>::empty());
        assert(head2 + fields_text(n.fields.take(0)) =~= head2);
    }
    let field_names = field_flags();
    let mut j: usize = 0;
    while j < node.fields.len()
        invariant
            j <= node.fields@.len(),
            n == node.deep_view(),
            field_names@ == field_flag_names(),
            output@ == head2 + fields_text(n.fields.take(j as int)),
        decreases node.fields@.len() - j,
    {
        let ghost before = output@;
        let field = &node.fields[j];
        output.append(".field");
        append_java_flags(&mut output, field.access, field_names.as_slice());
        output.append(" ");
        output.append(field.name.as_str());
        output.append(" ");
        output.append(field.desc.as_str());
        if let Some(value) = &field.value {
            output.append(" = ");
            push_value(&mut output, value);
        }
        output.append("\n");
        proof {
            assert(n.fields.take(j + 1).drop_last() =~= n.fields.take(j as int));
            assert(n.fields.take(j + 1).last() == field.deep_view());
            assert(output@ =~= before + field_text(field.deep_view()));
            assert(output@ =~= head2 + fields_text(n.fields.take(j + 1)));
        }
        j = j + 1;
    }
    let ghost head3 = output@;
    proof {
        assert(n.fields.take(node.fields@.len() as int) =~= n.fields);
        assert(n.methods.take(0) =~= Seq::<SpecMethodNode>::empty());
        assert(head3 + methods_text(n.methods.take(0)) =~= head3);
    }
    let method_names = method_flags();
    let mut k: usize = 0;
    while k < node.methods.len()
        invariant
            k <= node.methods@.len(),
            n == node.deep_view(),
            method_names@ == method_flag_names(),
            output@ == head3 + methods_text(n.methods.take(k as int)),
        decreases node.methods@.len() - k,
    {
        let ghost before = output@;
        let method = &node.methods[k];
        output.append(".method");
        append_java_flags(&mut output, method.access, method_names.as_slice());
        output.append(" ");
        output.append(method.name.as_str());
        output.append(" ");
        output.append(method.desc.as_str());
        output.append("\n");
        output.append(".end method\n");
        proof {
            assert(n.methods.take(k + 1).drop_last() =~= n.methods.take(k as int));
            assert(n.methods.take(k + 1).last() == method.deep_view());
            assert(output@ =~= before + method_text(method.deep_view()));
            assert(output@ =~= head3 + methods_text(n.methods.take(k + 1)));
        }
        k = k + 1;
    }
    output.append(".end class\n");
    proof {
        assert(n.methods.take(node.methods@.len() as int) =~= n.methods);
        assert(output@ =~= spec_render_class(n));
    }
    output
}

} // verus!
