//! Smali token trees: the tokens of a line of smali, how they are shown, and the nodes
//! that group them into a tree.

use vstd::prelude::*;
use vstd::string::StringExecFns;

verus! {

/// A bytecode name with separate storage and presentation forms: `raw_name` is what the
/// class or DEX file stores and what lookups use; `display_name` is what users see. It
/// starts equal to `raw_name`; a mapping may later replace it with the pre-obfuscation name.
#[derive(Debug, Clone, PartialEq, Eq, Hash)]
pub struct MappedName {
    pub raw_name: String,
    pub display_name: String,
}

impl MappedName {
    /// A name shown as it is stored.
    pub fn new(raw_name: String) -> (r: MappedName)
        ensures
            r.raw_name@ == raw_name@,
            r.display_name@ == raw_name@,
    {
        let display_name = raw_name.clone();
        MappedName { raw_name, display_name }
    }
}

/// One token of a line of smali.
#[derive(Debug, Clone, PartialEq, Eq, Hash)]
pub enum SmaliToken {
    SourceInfo(String),
    Raw(String),
    Op(String),
    /// Marks the start of a line: the offset of its instruction, if it is one, and the
    /// text shown for the marker.
    LineStartOffsetMarker { offset: Option<u32>, raw: String },
    Offset { relative: i32, absolute: u32 },
    Register(u16),
    RegisterRange(u16, u16),
    MemberName(MappedName),
    Descriptor(MappedName),
    SourceLine { raw_line: u32, display_line: u32 },
    Literal(String),
    Other(String),
}

/// A node of a smali tree: an optional tag, the tokens of its own line, a hint of the
/// offset it stands for, its children, and an optional closing tag.
#[derive(Debug, PartialEq, Eq, Hash)]
pub struct SmaliNode {
    pub tag: Option<String>,
    pub content: Vec<SmaliToken>,
    pub offset_hint: Option<u32>,
    pub children: Vec<SmaliNode>,
    pub end_tag: Option<String>,
}

/// Builds the tokens of a line one after another.
pub struct SmaliTokensBuilder(pub Vec<SmaliToken>);

/// A builder with no tokens yet.
pub fn stb() -> (r: SmaliTokensBuilder)
    ensures
        r.0@ == Seq::<SmaliToken>::empty(),
{
    SmaliTokensBuilder::new()
}

impl SmaliTokensBuilder {
    /// A builder with no tokens yet.
    pub fn new() -> (r: SmaliTokensBuilder)
        ensures
            r.0@ == Seq::<SmaliToken>::empty(),
    {
        SmaliTokensBuilder(Vec::new())
    }

    /// Adds `token` at the end.
    pub fn push(self, token: SmaliToken) -> (r: SmaliTokensBuilder)
        ensures
            r.0@ == self.0@.push(token),
    {
        let mut tokens = self.0;
        tokens.push(token);
        SmaliTokensBuilder(tokens)
    }

    /// Adds `tokens` at the end, in their order.
    pub fn append(self, tokens: Vec<SmaliToken>) -> (r: SmaliTokensBuilder)
        ensures
            r.0@ == self.0@ + tokens@,
    {
        let mut all = self.0;
        let mut more = tokens;
        all.append(&mut more);
        SmaliTokensBuilder(all)
    }

    /// Adds a raw token.
    pub fn raw(self, raw: String) -> (r: SmaliTokensBuilder)
        ensures
            r.0@ == self.0@.push(SmaliToken::Raw(raw)),
    {
        self.push(SmaliToken::Raw(raw))
    }

    /// The node whose line is these tokens, with no children.
    pub fn s(self) -> (r: SmaliNode)
        ensures
            r.content@ == self.0@,
            r.tag is None,
            r.offset_hint is None,
            r.children@ == Seq::<SmaliNode>::empty(),
            r.end_tag is None,
    {
        SmaliNode { tag: None, content: self.0, offset_hint: None, children: Vec::new(), end_tag: None }
    }

    /// The node whose line is these tokens, with `children`.
    pub fn s_with_children(self, children: Vec<SmaliNode>) -> (r: SmaliNode)
        ensures
            r.content@ == self.0@,
            r.tag is None,
            r.offset_hint is None,
            r.children@ == children@,
            r.end_tag is None,
    {
        SmaliNode { tag: None, content: self.0, offset_hint: None, children, end_tag: None }
    }

    /// The node whose line is these tokens, with `children` and the closing tag `postfix`.
    pub fn into_smali(self, children: Vec<SmaliNode>, postfix: String) -> (r: SmaliNode)
        ensures
            r.content@ == self.0@,
            r.tag is None,
            r.offset_hint is None,
            r.children@ == children@,
            r.end_tag == Some(postfix),
    {
        SmaliNode { tag: None, content: self.0, offset_hint: None, children, end_tag: Some(postfix) }
    }

    /// Adds an opcode token.
    pub fn op(self, op: String) -> (r: SmaliTokensBuilder)
        ensures
            r.0@ == self.0@.push(SmaliToken::Op(op)),
    {
        self.push(SmaliToken::Op(op))
    }

    /// Adds the offset `relative` to the instruction at `current`, with the absolute
    /// offset it reaches: `current`, read as an `i32`, plus `relative`, read as a `u32`.
    pub fn off(self, current: u32, relative: i32) -> (r: SmaliTokensBuilder)
        requires
            i32::MIN <= current as i32 + relative <= i32::MAX,
        ensures
            r.0@ == self.0@.push(
                SmaliToken::Offset { relative, absolute: (current as i32 + relative) as i32 as u32 },
            ),
    {
        let absolute = (current as i32 + relative) as u32;
        self.push(SmaliToken::Offset { relative, absolute })
    }

    /// Adds a register token.
    pub fn v(self, reg: u16) -> (r: SmaliTokensBuilder)
        ensures
            r.0@ == self.0@.push(SmaliToken::Register(reg)),
    {
        self.push(SmaliToken::Register(reg))
    }

    /// Adds a register-range token.
    pub fn vr(self, start: u16, end: u16) -> (r: SmaliTokensBuilder)
        ensures
            r.0@ == self.0@.push(SmaliToken::RegisterRange(start, end)),
    {
        self.push(SmaliToken::RegisterRange(start, end))
    }

    /// Adds a member-name token, shown as it is stored.
    pub fn mn(self, name: String) -> (r: SmaliTokensBuilder)
        ensures
            r.0@.len() == self.0@.len() + 1,
            r.0@.drop_last() == self.0@,
            r.0@.last() matches SmaliToken::MemberName(m) && m.raw_name@ == name@ && m.display_name@ == name@,
    {
        self.push(SmaliToken::MemberName(MappedName::new(name)))
    }

    /// Adds a descriptor token, shown as it is stored.
    pub fn d(self, desc: String) -> (r: SmaliTokensBuilder)
        ensures
            r.0@.len() == self.0@.len() + 1,
            r.0@.drop_last() == self.0@,
            r.0@.last() matches SmaliToken::Descriptor(m) && m.raw_name@ == desc@ && m.display_name@ == desc@,
    {
        self.push(SmaliToken::Descriptor(MappedName::new(desc)))
    }

    /// Adds a source-line token, shown as the line itself.
    pub fn source_line(self, raw_line: u32) -> (r: SmaliTokensBuilder)
        ensures
            r.0@ == self.0@.push(SmaliToken::SourceLine { raw_line, display_line: raw_line }),
    {
        self.push(SmaliToken::SourceLine { raw_line, display_line: raw_line })
    }

    /// Adds a literal token.
    pub fn l(self, lit: String) -> (r: SmaliTokensBuilder)
        ensures
            r.0@ == self.0@.push(SmaliToken::Literal(lit)),
    {
        self.push(SmaliToken::Literal(lit))
    }

    /// Adds any other token.
    pub fn other(self, other: String) -> (r: SmaliTokensBuilder)
        ensures
            r.0@ == self.0@.push(SmaliToken::Other(other)),
    {
        self.push(SmaliToken::Other(other))
    }
}

/// The character of the decimal digit `d`.
pub open spec fn digit_char(d: nat) -> char {
    ((d + 48) as u8) as char
}

/// The decimal digits of `n`, most significant first, with no leading zero.
pub open spec fn decimal(n: nat) -> Seq<char>
    decreases n,
{
    if n < 10 {
        seq![digit_char(n)]
    } else {
        decimal(n / 10) + seq![digit_char(n % 10)]
    }
}

/// `n` in decimal, with its sign always written: `+` before zero and positive numbers.
pub open spec fn signed_decimal(n: int) -> Seq<char> {
    if n >= 0 {
        "+"@ + decimal(n as nat)
    } else {
        "-"@ + decimal((-n) as nat)
    }
}

/// The string of one decimal digit.
fn digit_str(d: u64) -> (r: &'static str)
    requires
        d < 10,
    ensures
        r@ == seq![digit_char(d as nat)],
{
    match d {
        0 => {
            proof {
                reveal_strlit("0");
            }
            "0"
        },
        1 => {
            proof {
                reveal_strlit("1");
            }
            "1"
        },
        2 => {
            proof {
                reveal_strlit("2");
            }
            "2"
        },
        3 => {
            proof {
                reveal_strlit("3");
            }
            "3"
        },
        4 => {
            proof {
                reveal_strlit("4");
            }
            "4"
        },
        5 => {
            proof {
                reveal_strlit("5");
            }
            "5"
        },
        6 => {
            proof {
                reveal_strlit("6");
            }
            "6"
        },
        7 => {
            proof {
                reveal_strlit("7");
            }
            "7"
        },
        8 => {
            proof {
                reveal_strlit("8");
            }
            "8"
        },
        _ => {
            proof {
                reveal_strlit("9");
            }
            "9"
        },
    }
}

/// Appends `n` in decimal to `out`.
pub fn push_decimal(out: &mut String, n: u64)
    ensures
        final(out)@ == old(out)@ + decimal(n as nat),
    decreases n,
{
    if n >= 10 {
        push_decimal(out, n / 10);
    }
    let ghost mid = out@;
    out.append(digit_str(n % 10));
    proof {
        if n >= 10 {
            assert(out@ =~= old(out)@ + decimal(n as nat));
        } else {
            assert(old(out)@ == mid);
        }
    }
}

/// How a token is shown.
pub open spec fn token_text(t: SmaliToken) -> Seq<char> {
    match t {
        SmaliToken::SourceInfo(source) => "# source: "@ + source@,
        SmaliToken::Raw(tag) => tag@,
        SmaliToken::Op(op) => op@,
        SmaliToken::LineStartOffsetMarker { raw, .. } => raw@,
        SmaliToken::Offset { relative, absolute } => "@"@ + decimal(absolute as nat) + "("@ + signed_decimal(
            relative as int,
        ) + ")"@,
        SmaliToken::Register(reg) => "v"@ + decimal(reg as nat),
        SmaliToken::RegisterRange(start, end) => "v"@ + decimal(start as nat) + "..v"@ + decimal(end as nat),
        SmaliToken::MemberName(name) => name.display_name@,
        SmaliToken::Descriptor(name) => name.display_name@,
        SmaliToken::SourceLine { display_line, .. } => decimal(display_line as nat),
        SmaliToken::Literal(lit) => lit@,
        SmaliToken::Other(other) => other@,
    }
}

/// How a line of tokens is shown: each token, with one space between two tokens.
pub open spec fn tokens_text(tokens: Seq<SmaliToken>) -> Seq<char>
    decreases tokens.len(),
{
    if tokens.len() == 0 {
        Seq::empty()
    } else if tokens.len() == 1 {
        token_text(tokens[0])
    } else {
        tokens_text(tokens.drop_last()) + " "@ + token_text(tokens.last())
    }
}

/// Appends how `token` is shown to `out`.
pub fn write_token_display(token: &SmaliToken, out: &mut String)
    ensures
        final(out)@ == old(out)@ + token_text(*token),
{
    let ghost start = out@;
    match token {
        SmaliToken::SourceInfo(source) => {
            out.append("# source: ");
            out.append(source.as_str());
            proof {
                assert(out@ =~= start + token_text(*token));
            }
        },
        SmaliToken::Raw(text) | SmaliToken::Op(text) | SmaliToken::Literal(text) | SmaliToken::Other(text) => {
            out.append(text.as_str());
        },
        SmaliToken::LineStartOffsetMarker { raw, .. } => {
            out.append(raw.as_str());
        },
        SmaliToken::Offset { relative, absolute } => {
            out.append("@");
            push_decimal(out, *absolute as u64);
            out.append("(");
            if *relative >= 0 {
                out.append("+");
                push_decimal(out, *relative as u64);
            } else {
                out.append("-");
                let magnitude = (-(*relative as i64)) as u64;
                push_decimal(out, magnitude);
            }
            out.append(")");
            proof {
                assert(out@ =~= start + token_text(*token));
            }
        },
        SmaliToken::Register(reg) => {
            out.append("v");
            push_decimal(out, *reg as u64);
            proof {
                assert(out@ =~= start + token_text(*token));
            }
        },
        SmaliToken::RegisterRange(first, last) => {
            out.append("v");
            push_decimal(out, *first as u64);
            out.append("..v");
            push_decimal(out, *last as u64);
            proof {
                assert(out@ =~= start + token_text(*token));
            }
        },
        SmaliToken::MemberName(name) | SmaliToken::Descriptor(name) => {
            out.append(name.display_name.as_str());
        },
        SmaliToken::SourceLine { display_line, .. } => {
            push_decimal(out, *display_line as u64);
        },
    }
}

/// Appends how the line `tokens` is shown to `output`: each token, with one space
/// between two tokens.
pub fn write_tokens_display(tokens: &[SmaliToken], output: &mut String)
    ensures
        final(output)@ == old(output)@ + tokens_text(tokens@),
{
    let ghost start = output@;
    let n = tokens.len();
    let mut index: usize = 0;
    proof {
        assert(tokens@.take(0) =~= Seq::<SmaliToken>::empty());
        assert(output@ =~= start + tokens_text(tokens@.take(0)));
    }
    while index < n
        invariant
            n == tokens@.len(),
            index <= n,
            output@ == start + tokens_text(tokens@.take(index as int)),
        decreases n - index,
    {
        let ghost before = output@;
        if index > 0 {
            output.append(" ");
        }
        write_token_display(&tokens[index], output);
        proof {
            let t = tokens@.take(index + 1);
            assert(t.drop_last() =~= tokens@.take(index as int));
            assert(t.last() == tokens@[index as int]);
            if index == 0 {
                assert(t.len() == 1);
            }
            assert(output@ =~= start + tokens_text(t));
        }
        index = index + 1;
    }
    proof {
        assert(tokens@.take(n as int) =~= tokens@);
    }
}

/// How the line `tokens` is shown.
pub fn tokens_to_display(tokens: &[SmaliToken]) -> (r: String)
    ensures
        r@ == tokens_text(tokens@),
{
    let mut output = String::new();
    write_tokens_display(tokens, &mut output);
    proof {
        assert(output@ =~= tokens_text(tokens@));
    }
    output
}

impl SmaliToken {
    /// How this token is shown.
    pub fn display_text(&self) -> (r: String)
        ensures
            r@ == token_text(*self),
    {
        let mut output = String::new();
        write_token_display(self, &mut output);
        proof {
            assert(output@ =~= token_text(*self));
        }
        output
    }
}

impl SmaliNode {
    /// A node that is only the tag `s`.
    pub fn raw(s: String) -> (r: SmaliNode)
        ensures
            r.tag == Some(s),
            r.content@ == Seq::<SmaliToken>::empty(),
            r.offset_hint is None,
            r.children@ == Seq::<SmaliNode>::empty(),
            r.end_tag is None,
    {
        SmaliNode { tag: Some(s), content: Vec::new(), offset_hint: None, children: Vec::new(), end_tag: None }
    }

    /// A node with nothing in it.
    pub fn empty() -> (r: SmaliNode)
        ensures
            r.tag is None,
            r.content@ == Seq::<SmaliToken>::empty(),
            r.offset_hint is None,
            r.children@ == Seq::<SmaliNode>::empty(),
            r.end_tag is None,
    {
        SmaliNode { tag: None, content: Vec::new(), offset_hint: None, children: Vec::new(), end_tag: None }
    }

    /// A node whose line is the single token `current`.
    pub fn new(current: String) -> (r: SmaliNode)
        ensures
            r.tag is None,
            r.content@ == seq![SmaliToken::Other(current)],
            r.offset_hint is None,
            r.children@ == Seq::<SmaliNode>::empty(),
            r.end_tag is None,
    {
        let mut content = Vec::new();
        content.push(SmaliToken::Other(current));
        SmaliNode { tag: None, content, offset_hint: None, children: Vec::new(), end_tag: None }
    }

    /// A node whose line is the single token `current`, with `children`.
    pub fn new_with_children(current: String, children: Vec<SmaliNode>) -> (r: SmaliNode)
        ensures
            r.tag is None,
            r.content@ == seq![SmaliToken::Other(current)],
            r.offset_hint is None,
            r.children@ == children@,
            r.end_tag is None,
    {
        let mut content = Vec::new();
        content.push(SmaliToken::Other(current));
        SmaliNode { tag: None, content, offset_hint: None, children, end_tag: None }
    }

    /// Adds `child` after the node's other children.
    pub fn add_child(&mut self, child: SmaliNode)
        ensures
            final(self).children@ == old(self).children@.push(child),
            final(self).tag == old(self).tag,
            final(self).content == old(self).content,
            final(self).offset_hint == old(self).offset_hint,
            final(self).end_tag == old(self).end_tag,
    {
        self.children.push(child);
    }
}

/// A value that can be shown as a smali node.
pub trait ToSmali {
    fn to_smali(&self) -> SmaliNode;
}

impl ToSmali for String {
    /// A node whose line is the string itself.
    fn to_smali(&self) -> (r: SmaliNode)
        ensures
            r.content@.len() == 1,
            r.content@[0] matches SmaliToken::Other(o) && o@ == self@,
            r.children@ == Seq::<SmaliNode>::empty(),
    {
        stb().other(self.clone()).s()
    }
}

} // verus!
