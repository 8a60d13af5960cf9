//! The rules of the command-line front end: recognizing inputs by their first bytes and
//! names, and forming class names, archive paths and output file names.

use crate::util::str_eq;
use vstd::prelude::*;
use vstd::string::{StrSliceExecFns, StringExecFns};

verus! {

/// The representation classes are exported in.
#[derive(Debug, Clone, Copy, PartialEq, Eq)]
pub enum ExportFormat {
    Smali,
}

impl ExportFormat {
    /// The name of the format.
    pub fn as_str(self) -> (r: &'static str)
        ensures
            r@ == "smali"@,
    {
        match self {
            ExportFormat::Smali => "smali",
        }
    }

    /// The file extension of exported files: the name of the format.
    pub fn extension(self) -> (r: &'static str)
        ensures
            r@ == "smali"@,
    {
        self.as_str()
    }
}

/// What went wrong in the front end. Paths are held as the text they are shown as.
#[derive(Debug, Clone, PartialEq, Eq)]
pub enum CliError {
    Io { path: String, message: String },
    Zip { path: String, message: String },
    Parse { source: String, message: String },
    NotFound(String),
    Ambiguous(String),
}

impl CliError {
    /// How the error is shown: `path: message` for I/O and archive errors, `source:
    /// message` for parse errors, and the message alone otherwise.
    pub fn message(&self) -> (r: String)
        ensures
            r@ == match *self {
                CliError::Io { path, message } => path@ + ": "@ + message@,
                CliError::Zip { path, message } => path@ + ": "@ + message@,
                CliError::Parse { source, message } => source@ + ": "@ + message@,
                CliError::NotFound(message) => message@,
                CliError::Ambiguous(message) => message@,
            },
    {
        match self {
            CliError::Io { path: first, message } | CliError::Zip { path: first, message } | CliError::Parse {
                source: first,
                message,
            } => {
                let mut r = first.clone();
                r.append(": ");
                r.append(message.as_str());
                r
            },
            CliError::NotFound(message) | CliError::Ambiguous(message) => message.clone(),
        }
    }
}

/// Whether `c` is white space as Unicode's `White_Space` property defines it.
pub open spec fn is_white_space(c: char) -> bool {
    let u = c as u32;
    ||| 0x9 <= u <= 0xD
    ||| u == 0x20
    ||| u == 0x85
    ||| u == 0xA0
    ||| u == 0x1680
    ||| 0x2000 <= u <= 0x200A
    ||| u == 0x2028
    ||| u == 0x2029
    ||| u == 0x202F
    ||| u == 0x205F
    ||| u == 0x3000
}

fn white_space(c: char) -> (r: bool)
    ensures
        r == is_white_space(c),
{
    let u = c as u32;
    (0x9 <= u && u <= 0xD) || u == 0x20 || u == 0x85 || u == 0xA0 || u == 0x1680 || (0x2000 <= u && u <= 0x200A)
        || u == 0x2028 || u == 0x2029 || u == 0x202F || u == 0x205F || u == 0x3000
}

/// `s` without its leading white space.
pub open spec fn trim_start(s: Seq<char>) -> Seq<char>
    decreases s.len(),
{
    if s.len() > 0 && is_white_space(s[0]) {
        trim_start(s.drop_first())
    } else {
        s
    }
}

/// `s` without its trailing white space.
pub open spec fn trim_end(s: Seq<char>) -> Seq<char>
    decreases s.len(),
{
    if s.len() > 0 && is_white_space(s.last()) {
        trim_end(s.drop_last())
    } else {
        s
    }
}

/// `s` without its leading and trailing white space.
pub open spec fn trim(s: Seq<char>) -> Seq<char> {
    trim_end(trim_start(s))
}

/// `s` without a first `c`, if it starts with one.
pub open spec fn strip_prefix_char(s: Seq<char>, c: char) -> Seq<char> {
    if s.len() > 0 && s[0] == c {
        s.drop_first()
    } else {
        s
    }
}

/// `s` without a last `c`, if it ends with one.
pub open spec fn strip_suffix_char(s: Seq<char>, c: char) -> Seq<char> {
    if s.len() > 0 && s.last() == c {
        s.drop_last()
    } else {
        s
    }
}

/// `s` with every `from` replaced by `to`.
pub open spec fn replace_char(s: Seq<char>, from: char, to: char) -> Seq<char> {
    s.map_values(|c: char| if c == from { to } else { c })
}

/// The positions `start..end` of `s` that [trim] keeps.
proof fn lemma_trim_bounds(s: Seq<char>, start: int, end: int)
    requires
        0 <= start <= end <= s.len(),
        forall|i: int| 0 <= i < start ==> is_white_space(#[trigger] s[i]),
        start == s.len() || !is_white_space(s[start]),
        forall|i: int| end <= i < s.len() ==> is_white_space(#[trigger] s[i]),
        start == end || !is_white_space(s[end - 1]),
    ensures
        trim(s) == s.subrange(start, end),
{
    lemma_trim_start(s, start);
    assert(trim_start(s) == s.skip(start));
    let t = s.skip(start);
    lemma_trim_end(t, end - start);
    assert(t.take(end - start) =~= s.subrange(start, end));
}

proof fn lemma_trim_start(s: Seq<char>, start: int)
    requires
        0 <= start <= s.len(),
        forall|i: int| 0 <= i < start ==> is_white_space(#[trigger] s[i]),
        start == s.len() || !is_white_space(s[start]),
    ensures
        trim_start(s) == s.skip(start),
    decreases start,
{
    if start > 0 {
        let t = s.drop_first();
        assert forall|i: int| 0 <= i < start - 1 implies is_white_space(#[trigger] t[i]) by {
            assert(t[i] == s[i + 1]);
        }
        if start < s.len() {
            assert(t[start - 1] == s[start]);
        }
        lemma_trim_start(t, start - 1);
        assert(t.skip(start - 1) =~= s.skip(start));
        assert(is_white_space(s[0]));
    } else {
        assert(s.skip(0) =~= s);
    }
}

proof fn lemma_trim_end(s: Seq<char>, end: int)
    requires
        0 <= end <= s.len(),
        forall|i: int| end <= i < s.len() ==> is_white_space(#[trigger] s[i]),
        end == 0 || !is_white_space(s[end - 1]),
    ensures
        trim_end(s) == s.take(end),
    decreases s.len() - end,
{
    if end < s.len() {
        let t = s.drop_last();
        assert forall|i: int| end <= i < t.len() implies is_white_space(#[trigger] t[i]) by {
            assert(t[i] == s[i]);
        }
        if end > 0 {
            assert(t[end - 1] == s[end - 1]);
        }
        lemma_trim_end(t, end);
        assert(t.take(end) =~= s.take(end));
        assert(is_white_space(s[s.len() - 1]));
    } else {
        assert(s.take(end) =~= s);
    }
}

/// Appends the characters `start..end` of `s` to `out`, with every `from` written as `to`.
fn append_replacing(out: &mut String, s: &str, start: usize, end: usize, from: char, to: &str)
    requires
        start <= end <= s@.len(),
        to@.len() == 1,
    ensures
        final(out)@ == old(out)@ + replace_char(s@.subrange(start as int, end as int), from, to@[0]),
{
    let ghost t = s@.subrange(start as int, end as int);
    let mut seg_start = start;
    let mut i = start;
    while i < end
        invariant
            start <= seg_start <= i <= end <= s@.len(),
            to@.len() == 1,
            t == s@.subrange(start as int, end as int),
            out@ + s@.subrange(seg_start as int, i as int) == old(out)@ + replace_char(
                s@.subrange(start as int, i as int),
                from,
                to@[0],
            ),
            forall|k: int| seg_start <= k < i ==> s@[k] != from,
        decreases end - i,
    {
        let c = s.get_char(i);
        let ghost before = replace_char(s@.subrange(start as int, i as int), from, to@[0]);
        proof {
            assert(replace_char(s@.subrange(start as int, i + 1), from, to@[0]) =~= before.push(
                if c == from { to@[0] } else { c },
            ));
        }
        let ghost out0 = out@;
        let ghost seg = s@.subrange(seg_start as int, i as int);
        assert(out0 + seg == old(out)@ + before);
        if c == from {
            out.append(s.substring_char(seg_start, i));
            out.append(to);
            proof {
                assert(to@ =~= seq![to@[0]]);
                assert(out@ =~= (out0 + seg).push(to@[0]));
                assert(s@.subrange(i + 1, i + 1) =~= Seq::<char>::empty());
                assert(out@ + s@.subrange(i + 1, i + 1) =~= out@);
                assert((old(out)@ + before).push(to@[0]) =~= old(out)@ + before.push(to@[0]));
            }
            seg_start = i + 1;
        } else {
            proof {
                assert(s@.subrange(seg_start as int, i + 1) =~= seg.push(c));
                assert(out0 + seg.push(c) =~= (out0 + seg).push(c));
                assert((old(out)@ + before).push(c) =~= old(out)@ + before.push(c));
            }
        }
        i = i + 1;
    }
    out.append(s.substring_char(seg_start, end));
}

/// The internal name a user's class name stands for: without leading and trailing white
/// space, without a leading `L` and then a trailing `;`, and with `/` for every `.`.
pub open spec fn spec_normalize_class_name(s: Seq<char>) -> Seq<char> {
    replace_char(strip_suffix_char(strip_prefix_char(trim(s), 'L'), ';'), '.', '/')
}

/// The positions `start..end` of `s` that remain once leading and trailing white space is cut.
fn trim_bounds(value: &str) -> (r: (usize, usize))
    ensures
        r.0 <= r.1 <= value@.len(),
        trim(value@) == value@.subrange(r.0 as int, r.1 as int),
{
    let n = value.unicode_len();
    let mut start: usize = 0;
    while start < n && white_space(value.get_char(start))
        invariant
            n == value@.len(),
            start <= n,
            forall|i: int| 0 <= i < start ==> is_white_space(#[trigger] value@[i]),
        decreases n - start,
    {
        start = start + 1;
    }
    let mut end: usize = n;
    while end > start && white_space(value.get_char(end - 1))
        invariant
            n == value@.len(),
            start <= end <= n,
            forall|i: int| end <= i < n ==> is_white_space(#[trigger] value@[i]),
        decreases end,
    {
        end = end - 1;
    }
    proof {
        lemma_trim_bounds(value@, start as int, end as int);
    }
    (start, end)
}

/// The internal name a user's class name stands for, as [spec_normalize_class_name] says:
/// `com.example.Main` and `Lcom/example/Main;` both stand for `com/example/Main`.
pub fn normalize_class_name(value: &str) -> (r: String)
    ensures
        r@ == spec_normalize_class_name(value@),
{
    let (start, end) = trim_bounds(value);
    let ghost t = value@.subrange(start as int, end as int);
    let mut start = start;
    let mut end = end;
    if start < end && value.get_char(start) == 'L' {
        start = start + 1;
    }
    proof {
        assert(strip_prefix_char(t, 'L') =~= value@.subrange(start as int, end as int));
    }
    let ghost u = value@.subrange(start as int, end as int);
    if start < end && value.get_char(end - 1) == ';' {
        end = end - 1;
    }
    proof {
        assert(strip_suffix_char(u, ';') =~= value@.subrange(start as int, end as int));
        reveal_strlit("/");
    }
    let mut out = String::new();
    append_replacing(&mut out, value, start, end, '.', "/");
    proof {
        assert(out@ =~= spec_normalize_class_name(value@));
    }
    out
}

/// The internal name in a descriptor `L...;`, if it is one.
pub open spec fn spec_descriptor_to_internal(s: Seq<char>) -> Option<Seq<char>> {
    if s.len() >= 2 && s[0] == 'L' && s.last() == ';' {
        Some(s.subrange(1, s.len() - 1))
    } else {
        None
    }
}

/// The internal name in a descriptor `L...;`, if it is one.
pub fn descriptor_to_internal(descriptor: &str) -> (r: Option<String>)
    ensures
        match spec_descriptor_to_internal(descriptor@) {
            Some(v) => r matches Some(x) && x@ == v,
            None => r is None,
        },
{
    let n = descriptor.unicode_len();
    if n >= 2 && descriptor.get_char(0) == 'L' && descriptor.get_char(n - 1) == ';' {
        let mut out = String::new();
        out.append(descriptor.substring_char(1, n - 1));
        proof {
            assert(out@ =~= descriptor@.subrange(1, n - 1));
        }
        Some(out)
    } else {
        None
    }
}

/// The path of an entry inside an archive: the archive's own path, `!`, and the entry's
/// name; or the entry's name alone at the top.
pub fn join_internal_path(prefix: Option<&str>, entry: &str) -> (r: String)
    ensures
        r@ == match prefix {
            Some(p) => p@ + "!"@ + entry@,
            None => entry@,
        },
{
    let mut out = String::new();
    match prefix {
        Some(p) => {
            out.append(p);
            out.append("!");
            out.append(entry);
        },
        None => {
            out.append(entry);
        },
    }
    proof {
        assert(out@ =~= match prefix {
            Some(p) => p@ + "!"@ + entry@,
            None => entry@,
        });
    }
    out
}

/// How an input is named in messages: its path, then `!` and the path inside it, if any.
pub fn input_label(path: &str, internal_path: Option<&str>) -> (r: String)
    ensures
        r@ == match internal_path {
            Some(p) => path@ + "!"@ + p@,
            None => path@,
        },
{
    let mut out = String::new();
    out.append(path);
    if let Some(p) = internal_path {
        out.append("!");
        out.append(p);
    }
    proof {
        assert(out@ =~= match internal_path {
            Some(p) => path@ + "!"@ + p@,
            None => path@,
        });
    }
    out
}

/// The dotted name of a class: its internal name with `.` for every `/`.
pub fn qualified_name(internal_name: &str) -> (r: String)
    ensures
        r@ == replace_char(internal_name@, '/', '.'),
{
    let n = internal_name.unicode_len();
    let mut out = String::new();
    proof {
        reveal_strlit(".");
    }
    append_replacing(&mut out, internal_name, 0, n, '/', ".");
    proof {
        assert(internal_name@.subrange(0, n as int) =~= internal_name@);
        assert(out@ =~= replace_char(internal_name@, '/', '.'));
    }
    out
}

/// Whether `bytes` begins with the four bytes `m`.
pub open spec fn starts_with4(bytes: Seq<u8>, m: Seq<u8>) -> bool {
    bytes.len() >= 4 && bytes.take(4) == m
}

/// Whether `bytes` begins like a DEX file: `dex\n`.
pub fn is_dex(bytes: &[u8]) -> (r: bool)
    ensures
        r == starts_with4(bytes@, seq![0x64u8, 0x65u8, 0x78u8, 0x0Au8]),
{
    let r = bytes.len() >= 4 && bytes[0] == 0x64 && bytes[1] == 0x65 && bytes[2] == 0x78 && bytes[3] == 0x0A;
    proof {
        if bytes@.len() >= 4 {
            assert(r == (bytes@.take(4) =~= seq![0x64u8, 0x65u8, 0x78u8, 0x0Au8]));
        }
    }
    r
}

/// Whether `bytes` begins like a class file: `CA FE BA BE`.
pub fn is_class(bytes: &[u8]) -> (r: bool)
    ensures
        r == starts_with4(bytes@, seq![0xCAu8, 0xFEu8, 0xBAu8, 0xBEu8]),
{
    let r = bytes.len() >= 4 && bytes[0] == 0xCA && bytes[1] == 0xFE && bytes[2] == 0xBA && bytes[3] == 0xBE;
    proof {
        if bytes@.len() >= 4 {
            assert(r == (bytes@.take(4) =~= seq![0xCAu8, 0xFEu8, 0xBAu8, 0xBEu8]));
        }
    }
    r
}

/// Whether `bytes` begins like a ZIP archive: `PK` and then `03 04`, `05 06` or `07 08`.
pub open spec fn spec_is_zip(bytes: Seq<u8>) -> bool {
    ||| starts_with4(bytes, seq![0x50u8, 0x4Bu8, 0x03u8, 0x04u8])
    ||| starts_with4(bytes, seq![0x50u8, 0x4Bu8, 0x05u8, 0x06u8])
    ||| starts_with4(bytes, seq![0x50u8, 0x4Bu8, 0x07u8, 0x08u8])
}

/// Whether `bytes` begins like a ZIP archive, as [spec_is_zip] says.
pub fn is_zip(bytes: &[u8]) -> (r: bool)
    ensures
        r == spec_is_zip(bytes@),
{
    let r = bytes.len() >= 4 && bytes[0] == 0x50 && bytes[1] == 0x4B && ((bytes[2] == 0x03 && bytes[3] == 0x04) || (
    bytes[2] == 0x05 && bytes[3] == 0x06) || (bytes[2] == 0x07 && bytes[3] == 0x08));
    proof {
        if bytes@.len() >= 4 {
            assert(bytes@.take(4) =~= seq![bytes@[0], bytes@[1], bytes@[2], bytes@[3]]);
        }
    }
    r
}

/// Whether `bytes` begins like an input this tool reads: a DEX file, a class file or a ZIP archive.
pub fn is_supported_magic(bytes: &[u8]) -> (r: bool)
    ensures
        r == (starts_with4(bytes@, seq![0x64u8, 0x65u8, 0x78u8, 0x0Au8]) || starts_with4(
            bytes@,
            seq![0xCAu8, 0xFEu8, 0xBAu8, 0xBEu8],
        ) || starts_with4(bytes@, seq![0x50u8, 0x4Bu8, 0x03u8, 0x04u8]) || starts_with4(
            bytes@,
            seq![0x50u8, 0x4Bu8, 0x05u8, 0x06u8],
        ) || starts_with4(bytes@, seq![0x50u8, 0x4Bu8, 0x07u8, 0x08u8])),
{
    is_dex(bytes) || is_class(bytes) || is_zip(bytes)
}

/// The position of the last `c` in `s`, if there is one.
pub open spec fn last_index_of(s: Seq<char>, c: char) -> Option<int>
    decreases s.len(),
{
    if s.len() == 0 {
        None
    } else if s.last() == c {
        Some(s.len() - 1)
    } else {
        last_index_of(s.drop_last(), c)
    }
}

/// The position of the last `c` in `s`, if there is one.
fn find_last(s: &str, c: char) -> (r: Option<usize>)
    ensures
        match last_index_of(s@, c) {
            Some(i) => r matches Some(j) && j as int == i,
            None => r is None,
        },
        r matches Some(i) ==> i < s@.len() <= usize::MAX,
{
    let n = s.unicode_len();
    let mut i = n;
    proof {
        assert(s@.take(n as int) =~= s@);
    }
    while i > 0
        invariant
            n == s@.len(),
            i <= n,
            last_index_of(s@, c) == last_index_of(s@.take(i as int), c),
        decreases i,
    {
        if s.get_char(i - 1) == c {
            proof {
                assert(s@.take(i as int).last() == s@[i - 1]);
            }
            return Some(i - 1);
        }
        proof {
            assert(s@.take(i as int).drop_last() =~= s@.take(i - 1));
        }
        i = i - 1;
    }
    None
}

/// `c` in lower case if it is an ASCII capital letter.
pub open spec fn ascii_lower(c: char) -> char {
    if 'A' <= c <= 'Z' {
        ((c as u32) + 32) as char
    } else {
        c
    }
}

/// Whether `a` and `b` are the same text, ASCII letters compared without regard to case.
pub open spec fn eq_ignore_ascii_case(a: Seq<char>, b: Seq<char>) -> bool {
    a.len() == b.len() && forall|i: int| 0 <= i < a.len() ==> ascii_lower(#[trigger] a[i]) == ascii_lower(b[i])
}

fn lower(c: char) -> (r: char)
    ensures
        r == ascii_lower(c),
{
    if 'A' <= c && c <= 'Z' {
        ((c as u8) + 32) as char
    } else {
        c
    }
}

/// Whether the characters `start..` of `a` are `b`, ASCII letters compared without regard to case.
fn tail_eq_ignore_ascii_case(a: &str, start: usize, b: &str) -> (r: bool)
    requires
        start <= a@.len(),
    ensures
        r == eq_ignore_ascii_case(a@.skip(start as int), b@),
{
    let n = a.unicode_len();
    let m = b.unicode_len();
    if n - start != m {
        return false;
    }
    let mut i: usize = 0;
    while i < m
        invariant
            n == a@.len(),
            m == b@.len(),
            start + m == n,
            i <= m,
            forall|j: int| 0 <= j < i ==> ascii_lower(#[trigger] a@.skip(start as int)[j]) == ascii_lower(b@[j]),
        decreases m - i,
    {
        if lower(a.get_char(start + i)) != lower(b.get_char(i)) {
            proof {
                assert(a@.skip(start as int)[i as int] == a@[start + i]);
            }
            return false;
        }
        proof {
            assert(a@.skip(start as int)[i as int] == a@[start + i]);
        }
        i = i + 1;
    }
    true
}

/// Whether an archive entry named `name` may hold an input: it has no `.`, or the text
/// after its last `.` is one of `dex`, `class`, `apk`, `apks`, `xapk`, `aab`, `zip` and
/// `jar`, ASCII letters compared without regard to case.
pub open spec fn spec_is_possible_input_entry(name: Seq<char>) -> bool {
    match last_index_of(name, '.') {
        None => true,
        Some(i) => {
            let e = name.skip(i + 1);
            ||| eq_ignore_ascii_case(e, "dex"@)
            ||| eq_ignore_ascii_case(e, "class"@)
            ||| eq_ignore_ascii_case(e, "apk"@)
            ||| eq_ignore_ascii_case(e, "apks"@)
            ||| eq_ignore_ascii_case(e, "xapk"@)
            ||| eq_ignore_ascii_case(e, "aab"@)
            ||| eq_ignore_ascii_case(e, "zip"@)
            ||| eq_ignore_ascii_case(e, "jar"@)
        },
    }
}

/// Whether an archive entry named `name` may hold an input, as
/// [spec_is_possible_input_entry] says.
pub fn is_possible_input_entry(name: &str) -> (r: bool)
    ensures
        r == spec_is_possible_input_entry(name@),
{
    match find_last(name, '.') {
        None => true,
        Some(i) => {
            let start = i + 1;
            tail_eq_ignore_ascii_case(name, start, "dex") || tail_eq_ignore_ascii_case(name, start, "class")
                || tail_eq_ignore_ascii_case(name, start, "apk") || tail_eq_ignore_ascii_case(name, start, "apks")
                || tail_eq_ignore_ascii_case(name, start, "xapk") || tail_eq_ignore_ascii_case(name, start, "aab")
                || tail_eq_ignore_ascii_case(name, start, "zip") || tail_eq_ignore_ascii_case(name, start, "jar")
        },
    }
}

/// Whether `c` may stand in a file name as it is: an ASCII letter or digit, `.`, `_`, `-` or `$`.
pub open spec fn is_safe_char(c: char) -> bool {
    ||| 'a' <= c <= 'z'
    ||| 'A' <= c <= 'Z'
    ||| '0' <= c <= '9'
    ||| c == '.'
    ||| c == '_'
    ||| c == '-'
    ||| c == '$'
}

/// `value` with each character that may not stand in a file name as it is replaced by `_`.
pub open spec fn safe_chars(value: Seq<char>) -> Seq<char> {
    value.map_values(|c: char| if is_safe_char(c) { c } else { '_' })
}

/// `value` made safe as one component of a file path: each character that may not stand
/// as it is becomes `_`; nothing at all becomes `input`.
pub open spec fn spec_safe_component(value: Seq<char>) -> Seq<char> {
    if value.len() == 0 {
        "input"@
    } else {
        safe_chars(value)
    }
}

/// Each of `parts` made safe as [spec_safe_component] says.
pub open spec fn safe_components(parts: Seq<Seq<char>>) -> Seq<Seq<char>> {
    parts.map_values(|part: Seq<char>| spec_safe_component(part))
}

/// `value` made safe as one component of a file path, as [spec_safe_component] says.
pub fn safe_component(value: &str) -> (r: String)
    ensures
        r@ == spec_safe_component(value@),
{
    let n = value.unicode_len();
    if n == 0 {
        return String::from_str("input");
    }
    proof {
        reveal_strlit("_");
    }
    let mut out = String::new();
    let mut i: usize = 0;
    while i < n
        invariant
            n == value@.len(),
            i <= n,
            out@ == safe_chars(value@.take(i as int)),
        decreases n - i,
    {
        let c = value.get_char(i);
        let ghost before = out@;
        proof {
            reveal_strlit("_");
        }
        if ('a' <= c && c <= 'z') || ('A' <= c && c <= 'Z') || ('0' <= c && c <= '9') || c == '.' || c == '_' || c
            == '-' || c == '$' {
            out.append(value.substring_char(i, i + 1));
            proof {
                assert(value@.subrange(i as int, i + 1) =~= seq![c]);
            }
        } else {
            out.append("_");
        }
        proof {
            assert(value@.take(i + 1) =~= value@.take(i as int).push(c));
            assert(out@ =~= safe_chars(value@.take(i + 1)));
        }
        i = i + 1;
    }
    proof {
        assert(value@.take(n as int) =~= value@);
    }
    out
}

/// The pieces of `s` between occurrences of `sep`, first to last, as `str::split` gives
/// them: there is always at least one, and two `sep` side by side have an empty piece between.
pub open spec fn split(s: Seq<char>, sep: char) -> Seq<Seq<char>>
    decreases s.len(),
{
    if s.len() == 0 {
        seq![Seq::empty()]
    } else {
        let r = split(s.drop_last(), sep);
        if s.last() == sep {
            r.push(Seq::empty())
        } else {
            r.update(r.len() - 1, r.last().push(s.last()))
        }
    }
}

/// There is always at least one piece.
pub proof fn lemma_split_len(s: Seq<char>, sep: char)
    ensures
        split(s, sep).len() >= 1,
    decreases s.len(),
{
    if s.len() > 0 {
        lemma_split_len(s.drop_last(), sep);
    }
}

/// The texts of `v`.
pub open spec fn strings_view(v: Seq<String>) -> Seq<Seq<char>> {
    v.map_values(|x: String| x@)
}

/// The pieces of `s` between occurrences of `sep`, as [split] says.
pub fn split_str(s: &str, sep: char) -> (r: Vec<String>)
    ensures
        strings_view(r@) == split(s@, sep),
{
    let n = s.unicode_len();
    let mut pieces: Vec<String> = Vec::new();
    let mut seg_start: usize = 0;
    let mut i: usize = 0;
    proof {
        assert(s@.take(0) =~= Seq::<char>::empty());
        assert(strings_view(pieces@).push(s@.subrange(0, 0)) =~= seq![Seq::<char>::empty()]);
    }
    while i < n
        invariant
            n == s@.len(),
            seg_start <= i <= n,
            strings_view(pieces@).push(s@.subrange(seg_start as int, i as int)) == split(s@.take(i as int), sep),
        decreases n - i,
    {
        let c = s.get_char(i);
        let ghost before = split(s@.take(i as int), sep);
        proof {
            lemma_split_len(s@.take(i as int), sep);
            assert(s@.take(i + 1).drop_last() =~= s@.take(i as int));
            assert(s@.take(i + 1).last() == c);
        }
        if c == sep {
            let mut piece = String::new();
            piece.append(s.substring_char(seg_start, i));
            let ghost pv = strings_view(pieces@);
            pieces.push(piece);
            proof {
                assert(strings_view(pieces@) =~= pv.push(piece@));
                assert(s@.subrange(i + 1, i + 1) =~= Seq::<char>::empty());
                assert(strings_view(pieces@).push(s@.subrange(i + 1, i + 1)) =~= before.push(Seq::empty()));
            }
            seg_start = i + 1;
        } else {
            proof {
                assert(s@.subrange(seg_start as int, i + 1) =~= s@.subrange(seg_start as int, i as int).push(c));
                assert(strings_view(pieces@).push(s@.subrange(seg_start as int, i + 1)) =~= before.update(
                    before.len() - 1,
                    before.last().push(c),
                ));
            }
        }
        i = i + 1;
    }
    let mut last = String::new();
    last.append(s.substring_char(seg_start, n));
    let ghost pv = strings_view(pieces@);
    pieces.push(last);
    proof {
        assert(s@.take(n as int) =~= s@);
        assert(strings_view(pieces@) =~= pv.push(last@));
    }
    pieces
}

/// The parts of a path inside archives, one per archive level: the pieces between `!`.
pub fn split_internal_path(internal_path: &str) -> (r: Vec<String>)
    ensures
        strings_view(r@) == split(internal_path@, '!'),
{
    split_str(internal_path, '!')
}

/// The components of the path, below the output directory, that a class is exported to,
/// before the extension is set: for a class from a DEX file inside an archive, the whole
/// path inside the archive; for a class file inside an archive, the path of the archive
/// that holds it (the part before the last `!`), if it has one; then each part of the
/// class's internal name. Each is made safe as [spec_safe_component] says.
pub open spec fn spec_class_output_components(
    from_dex: bool,
    internal_path: Option<Seq<char>>,
    internal_name: Seq<char>,
) -> Seq<Seq<char>> {
    let head: Seq<Seq<char>> = match internal_path {
        Some(p) => if from_dex {
            seq![spec_safe_component(p)]
        } else {
            match last_index_of(p, '!') {
                Some(i) => seq![spec_safe_component(p.take(i))],
                None => Seq::empty(),
            }
        },
        None => Seq::empty(),
    };
    head + safe_components(split(internal_name, '/'))
}

/// The components of the path that a class is exported to, as
/// [spec_class_output_components] says.
pub fn class_output_components(from_dex: bool, internal_path: Option<&str>, internal_name: &str) -> (r: Vec<
    String,
>)
    ensures
        strings_view(r@) == spec_class_output_components(
            from_dex,
            match internal_path {
                Some(p) => Some(p@),
                None => None,
            },
            internal_name@,
        ),
{
    let mut result: Vec<String> = Vec::new();
    if let Some(p) = internal_path {
        if from_dex {
            result.push(safe_component(p));
        } else if let Some(i) = find_last(p, '!') {
            let mut archive = String::new();
            archive.append(p.substring_char(0, i));
            proof {
                assert(archive@ =~= p@.take(i as int));
            }
            result.push(safe_component(archive.as_str()));
        }
    }
    let ghost head = strings_view(result@);
    proof {
        let ip = match internal_path {
            Some(p) => Some(p@),
            None => None::<Seq<char>>,
        };
        let expected: Seq<Seq<char>> = match ip {
            Some(p) => if from_dex {
                seq![spec_safe_component(p)]
            } else {
                match last_index_of(p, '!') {
                    Some(i) => seq![spec_safe_component(p.take(i))],
                    None => Seq::empty(),
                }
            },
            None => Seq::empty(),
        };
        assert(head =~= expected);
    }
    let parts = split_str(internal_name, '/');
    let ghost ps = split(internal_name@, '/');
    let n = parts.len();
    let mut k: usize = 0;
    while k < n
        invariant
            n == parts@.len(),
            n == ps.len(),
            k <= n,
            strings_view(parts@) == ps,
            strings_view(result@) == head + safe_components(ps.take(k as int)),
        decreases n - k,
    {
        let ghost before = strings_view(result@);
        proof {
            assert(parts@[k as int]@ == ps[k as int]);
        }
        let c = safe_component(parts[k].as_str());
        result.push(c);
        proof {
            assert(strings_view(result@) =~= before.push(c@));
            assert(ps.take(k + 1) =~= ps.take(k as int).push(ps[k as int]));
            assert(safe_components(ps.take(k + 1)) =~= safe_components(ps.take(k as int)).push(
                spec_safe_component(ps[k as int]),
            ));
            assert(strings_view(result@) =~= head + safe_components(ps.take(k + 1)));
        }
        k = k + 1;
    }
    proof {
        assert(ps.take(n as int) =~= ps);
        assert(strings_view(result@) =~= head + safe_components(ps));
    }
    result
}

} // verus!

verus! {

/// How deep archives may nest inside one another.
pub const MAX_ARCHIVE_DEPTH: usize = 8;

/// The error for an archive at `depth` levels of nesting, if that is too deep: a parse
/// error of the archive's path (or `input` at the top).
pub fn archive_too_deep(prefix: Option<&str>, depth: usize) -> (r: Option<CliError>)
    ensures
        depth >= MAX_ARCHIVE_DEPTH ==> (r matches Some(CliError::Parse { source, message }) && source@ == match prefix {
            Some(p) => p@,
            None => "input"@,
        } && message@ == "archive nesting is too deep"@),
        depth < MAX_ARCHIVE_DEPTH ==> r is None,
{
    if depth >= MAX_ARCHIVE_DEPTH {
        let mut source = String::new();
        match prefix {
            Some(p) => source.append(p),
            None => source.append("input"),
        }
        let mut message = String::new();
        message.append("archive nesting is too deep");
        proof {
            assert(source@ =~= match prefix {
                Some(p) => p@,
                None => "input"@,
            });
            assert(message@ =~= "archive nesting is too deep"@);
        }
        Some(CliError::Parse { source, message })
    } else {
        None
    }
}

/// Whether an archive entry is looked into: it is not a directory, its name is one an
/// input may have, and it holds at least the four bytes of a magic number.
pub fn is_candidate_entry(is_dir: bool, name: &str, size: u64) -> (r: bool)
    ensures
        r == (!is_dir && spec_is_possible_input_entry(name@) && size >= 4),
{
    !is_dir && is_possible_input_entry(name) && size >= 4
}

/// The texts of `parts` with `sep` between each two.
pub open spec fn join(parts: Seq<Seq<char>>, sep: Seq<char>) -> Seq<char>
    decreases parts.len(),
{
    if parts.len() == 0 {
        Seq::empty()
    } else if parts.len() == 1 {
        parts[0]
    } else {
        join(parts.drop_last(), sep) + sep + parts.last()
    }
}

/// Joining the pieces of `s` between occurrences of `sep` with `sep` gives back `s`: so
/// the pieces of a path inside archives, joined with `!`, are the path.
pub proof fn lemma_join_split(s: Seq<char>, sep: char)
    ensures
        join(split(s, sep), seq![sep]) == s,
    decreases s.len(),
{
    if s.len() > 0 {
        let r = split(s.drop_last(), sep);
        lemma_join_split(s.drop_last(), sep);
        lemma_split_len(s.drop_last(), sep);
        if s.last() == sep {
            assert(r.push(Seq::empty()).drop_last() =~= r);
            assert(s =~= s.drop_last() + seq![sep] + Seq::<char>::empty());
        } else {
            let c = s.last();
            let r2 = r.update(r.len() - 1, r.last().push(c));
            if r.len() == 1 {
                assert(join(r2, seq![sep]) == r2[0]);
                assert(s =~= s.drop_last().push(c));
            } else {
                assert(r2.drop_last() =~= r.drop_last());
                assert(join(r2, seq![sep]) =~= join(r.drop_last(), seq![sep]) + seq![sep] + r.last().push(c));
                assert(s =~= s.drop_last().push(c));
            }
        }
    }
}

/// The texts of `parts` with `sep` between each two, as [join] says.
pub fn join_strings(parts: &Vec<String>, sep: &str) -> (r: String)
    ensures
        r@ == join(strings_view(parts@), sep@),
{
    let mut out = String::new();
    let n = parts.len();
    let mut i: usize = 0;
    proof {
        assert(strings_view(parts@).take(0) =~= Seq::<Seq<char>>::empty());
    }
    while i < n
        invariant
            n == parts@.len(),
            i <= n,
            out@ == join(strings_view(parts@).take(i as int), sep@),
        decreases n - i,
    {
        let ghost before = out@;
        if i > 0 {
            out.append(sep);
        }
        out.append(parts[i].as_str());
        proof {
            let v = strings_view(parts@);
            assert(v.take(i + 1).drop_last() =~= v.take(i as int));
            assert(v.take(i + 1).last() == parts@[i as int]@);
            if i == 0 {
                assert(out@ =~= parts@[0]@);
            } else {
                assert(out@ =~= before + sep@ + parts@[i as int]@);
            }
        }
        i = i + 1;
    }
    proof {
        assert(strings_view(parts@).take(n as int) =~= strings_view(parts@));
    }
    out
}

/// The pieces of a path inside archives, one per archive level; an empty path is an
/// error of the input.
pub fn internal_path_segments(input: &str, internal_path: &str) -> (r: Result<Vec<String>, CliError>)
    ensures
        internal_path@.len() == 0 ==> (r matches Err(CliError::Parse { source, message }) && source@ == input@
            && message@ == "internal_path cannot be empty"@),
        internal_path@.len() > 0 ==> (r matches Ok(v) && strings_view(v@) == split(internal_path@, '!')),
{
    if internal_path.unicode_len() == 0 {
        let mut source = String::new();
        source.append(input);
        let mut message = String::new();
        message.append("internal_path cannot be empty");
        proof {
            assert(source@ =~= input@);
            assert(message@ =~= "internal_path cannot be empty"@);
        }
        Err(CliError::Parse { source, message })
    } else {
        Ok(split_internal_path(internal_path))
    }
}

/// Whether the next piece `segment` of the path inside archives can be followed from the
/// bytes `current`, reached through the pieces `consumed`: an empty piece is an error of
/// the whole path; bytes that are not an archive are an error of the pieces consumed.
pub fn descend_check(internal_path: &str, consumed: &Vec<String>, segment: &str, current: &[u8]) -> (r: Option<
    CliError,
>)
    ensures
        segment@.len() == 0 ==> (r matches Some(CliError::Parse { source, message }) && source@ == internal_path@
            && message@ == "internal_path contains an empty segment"@),
        segment@.len() > 0 && !spec_is_zip(current@) ==> (r matches Some(CliError::Parse { source, message })
            && source@ == join(strings_view(consumed@), "!"@) && message@ == "cannot descend into non-archive entry "@
            + segment@),
        segment@.len() > 0 && spec_is_zip(current@) ==> r is None,
{
    if segment.unicode_len() == 0 {
        let mut source = String::new();
        source.append(internal_path);
        let mut message = String::new();
        message.append("internal_path contains an empty segment");
        proof {
            assert(source@ =~= internal_path@);
            assert(message@ =~= "internal_path contains an empty segment"@);
        }
        Some(CliError::Parse { source, message })
    } else if !is_zip(current) {
        let source = join_strings(consumed, "!");
        let mut message = String::new();
        message.append("cannot descend into non-archive entry ");
        message.append(segment);
        proof {
            assert(message@ =~= "cannot descend into non-archive entry "@ + segment@);
        }
        Some(CliError::Parse { source, message })
    } else {
        None
    }
}

} // verus!

verus! {

/// The internal names of indexed classes.
pub open spec fn entry_names(entries: Seq<(String, Option<String>)>) -> Seq<Seq<char>> {
    entries.map_values(|e: (String, Option<String>)| e.0@)
}

/// The paths inside archives of indexed classes, where they have one.
pub open spec fn entry_paths(entries: Seq<(String, Option<String>)>) -> Seq<Option<Seq<char>>> {
    entries.map_values(
        |e: (String, Option<String>)|
            match e.1 {
                Some(p) => Some(p@),
                None => None,
            },
    )
}

/// The positions of the entries of `names` equal to `expected`, first to last.
pub open spec fn positions(names: Seq<Seq<char>>, expected: Seq<char>) -> Seq<int>
    decreases names.len(),
{
    if names.len() == 0 {
        Seq::empty()
    } else {
        let p = positions(names.drop_last(), expected);
        if names.last() == expected {
            p.push(names.len() - 1)
        } else {
            p
        }
    }
}

/// The paths at the positions `ps` of `paths`, in order, leaving out those that are absent.
pub open spec fn paths_at(paths: Seq<Option<Seq<char>>>, ps: Seq<int>) -> Seq<Seq<char>>
    decreases ps.len(),
{
    if ps.len() == 0 {
        Seq::empty()
    } else {
        let r = paths_at(paths, ps.drop_last());
        match paths[ps.last()] {
            Some(p) => r.push(p),
            None => r,
        }
    }
}

/// Every position of `names` that [positions] lists is a position of `names`.
proof fn lemma_positions_in_range(names: Seq<Seq<char>>, expected: Seq<char>)
    ensures
        forall|k: int| 0 <= k < positions(names, expected).len() ==> 0 <= #[trigger] positions(names, expected)[k] < names.len(),
    decreases names.len(),
{
    if names.len() > 0 {
        lemma_positions_in_range(names.drop_last(), expected);
        let p = positions(names.drop_last(), expected);
        assert forall|k: int| 0 <= k < positions(names, expected).len() implies 0 <= #[trigger] positions(
            names,
            expected,
        )[k] < names.len() by {
            if k < p.len() {
                assert(positions(names, expected)[k] == p[k]);
            }
        }
    }
}

/// Which of the indexed classes `entries` (internal name, path inside archives) the user's
/// class name `class_name` picks: the one whose internal name is the normalized
/// `class_name`. None is an error that names the class; more than one is an error that
/// lists their paths inside archives.
pub fn select_class(entries: &Vec<(String, Option<String>)>, class_name: &str) -> (r: Result<usize, CliError>)
    ensures
        ({
            let ps = positions(entry_names(entries@), spec_normalize_class_name(class_name@));
            &&& ps.len() == 0 ==> (r matches Err(CliError::NotFound(m)) && m@ == "class not found: "@ + class_name@)
            &&& ps.len() == 1 ==> r == Ok::<usize, CliError>(ps[0] as usize)
            &&& ps.len() > 1 ==> (r matches Err(CliError::Ambiguous(m)) && m@ == "class "@ + class_name@
                + " exists in multiple locations; pass --internal-path with one of: "@ + join(
                paths_at(entry_paths(entries@), ps),
                ", "@,
            ))
        }),
{
    let expected = normalize_class_name(class_name);
    let ghost names = entry_names(entries@);
    let ghost paths = entry_paths(entries@);
    let n = entries.len();
    let mut hits: Vec<usize> = Vec::new();
    let mut i: usize = 0;
    proof {
        assert(names.take(0) =~= Seq::<Seq<char>>::empty());
        assert(hits@.map_values(|x: usize| x as int) =~= Seq::<int>::empty());
    }
    while i < n
        invariant
            n == entries@.len(),
            n == names.len(),
            names == entry_names(entries@),
            i <= n,
            hits@.map_values(|x: usize| x as int) == positions(names.take(i as int), expected@),
        decreases n - i,
    {
        let ghost before = hits@.map_values(|x: usize| x as int);
        proof {
            assert(names.take(i + 1).drop_last() =~= names.take(i as int));
            assert(names.take(i + 1).last() == entries@[i as int].0@);
        }
        if str_eq(entries[i].0.as_str(), expected.as_str()) {
            hits.push(i);
            proof {
                assert(hits@.map_values(|x: usize| x as int) =~= before.push(i as int));
            }
        }
        i = i + 1;
    }
    let ghost ps = hits@.map_values(|x: usize| x as int);
    proof {
        assert(names.take(n as int) =~= names);
        lemma_positions_in_range(names, expected@);
    }
    if hits.len() == 0 {
        let mut m = String::new();
        m.append("class not found: ");
        m.append(class_name);
        return Err(CliError::NotFound(m));
    }
    if hits.len() == 1 {
        proof {
            assert(ps[0] == hits@[0] as int);
        }
        return Ok(hits[0]);
    }
    let mut found: Vec<String> = Vec::new();
    let mut k: usize = 0;
    proof {
        assert(ps.take(0) =~= Seq::<int>::empty());
        assert(strings_view(found@) =~= Seq::<Seq<char>>::empty());
    }
    while k < hits.len()
        invariant
            k <= hits@.len(),
            ps == hits@.map_values(|x: usize| x as int),
            paths == entry_paths(entries@),
            forall|j: int| 0 <= j < ps.len() ==> 0 <= #[trigger] ps[j] < entries@.len(),
            strings_view(found@) == paths_at(paths, ps.take(k as int)),
        decreases hits@.len() - k,
    {
        let ghost before = strings_view(found@);
        let h = hits[k];
        proof {
            assert(ps[k as int] == h as int);
            assert(ps.take(k + 1).drop_last() =~= ps.take(k as int));
            assert(ps.take(k + 1).last() == h as int);
            assert(paths[h as int] == match entries@[h as int].1 {
                Some(p) => Some(p@),
                None => None::<Seq<char>>,
            });
        }
        if let Some(p) = &entries[h].1 {
            found.push(p.clone());
            proof {
                assert(strings_view(found@) =~= before.push(p@));
            }
        }
        k = k + 1;
    }
    proof {
        assert(ps.take(hits@.len() as int) =~= ps);
    }
    let listed = join_strings(&found, ", ");
    let mut m = String::new();
    m.append("class ");
    m.append(class_name);
    m.append(" exists in multiple locations; pass --internal-path with one of: ");
    m.append(listed.as_str());
    Err(CliError::Ambiguous(m))
}

/// The error of an export of all classes that matched none: the filter is named.
pub fn no_match_error(selected: usize, filter: &str) -> (r: Option<CliError>)
    ensures
        selected == 0 ==> (r matches Some(CliError::NotFound(m)) && m@ == "no classes matched filter: "@ + filter@),
        selected > 0 ==> r is None,
{
    if selected == 0 {
        let mut m = String::new();
        m.append("no classes matched filter: ");
        m.append(filter);
        Some(CliError::NotFound(m))
    } else {
        None
    }
}

} // verus!
