//! Taking a method descriptor apart: its argument types, each with how many array levels
//! stand before it, and its return type.

use crate::cli::{split, split_str, strings_view};
use vstd::prelude::*;
use vstd::string::{StrSliceExecFns, StringExecFns};

verus! {

/// The position of the first `c` in `s`, if there is one.
pub open spec fn find_char(s: Seq<char>, c: char) -> Option<int>
    decreases s.len(),
{
    if s.len() == 0 {
        None
    } else if s[0] == c {
        Some(0)
    } else {
        match find_char(s.skip(1), c) {
            Some(k) => Some(k + 1),
            None => None,
        }
    }
}

/// The position that [find_char] gives lies within `s`.
pub proof fn lemma_find_char_range(s: Seq<char>, c: char)
    ensures
        find_char(s, c) matches Some(k) ==> 0 <= k < s.len() && s[k] == c,
    decreases s.len(),
{
    if s.len() > 0 && s[0] != c {
        lemma_find_char_range(s.skip(1), c);
    }
}

/// How many times `c` occurs in `s`.
pub open spec fn count_char(s: Seq<char>, c: char) -> nat
    decreases s.len(),
{
    if s.len() == 0 {
        0
    } else {
        (if s.last() == c {
            1nat
        } else {
            0nat
        }) + count_char(s.drop_last(), c)
    }
}

/// The argument types of the argument part `s` of a method descriptor, after `level`
/// array levels already read: an `L` type runs to the next `;`; each `[` adds an array level
/// to the type that follows; any other character is a type of its own. An `L` with no `;`
/// after it makes the whole descriptor unreadable.
pub open spec fn spec_parse_args(s: Seq<char>, level: nat) -> Option<Seq<(Seq<char>, nat)>>
    decreases s.len(),
{
    if s.len() == 0 {
        Some(Seq::empty())
    } else if s[0] == 'L' {
        match find_char(s.skip(1), ';') {
            Some(k) => match {
                proof {
                    lemma_find_char_range(s.skip(1), ';');
                }
                spec_parse_args(s.skip(k + 2), 0)
            } {
                Some(rest) => Some(seq![(s.take(k + 2), level)] + rest),
                None => None,
            },
            None => None,
        }
    } else if s[0] == '[' {
        spec_parse_args(s.skip(1), level + 1)
    } else {
        match spec_parse_args(s.skip(1), 0) {
            Some(rest) => Some(seq![(seq![s[0]], level)] + rest),
            None => None,
        }
    }
}

/// `n` copies of `c`.
pub open spec fn repeat_char(c: char, n: nat) -> Seq<char>
    decreases n,
{
    if n == 0 {
        Seq::empty()
    } else {
        repeat_char(c, (n - 1) as nat).push(c)
    }
}

/// The text of the arguments `args`, each type written after as many `[` as its array
/// level.
pub open spec fn args_text(args: Seq<(Seq<char>, nat)>) -> Seq<char>
    decreases args.len(),
{
    if args.len() == 0 {
        Seq::empty()
    } else {
        repeat_char('[', args[0].1) + args[0].0 + args_text(args.skip(1))
    }
}

/// Whether `t` is the text of one type, its array levels left out: an `L` type up to and
/// including the first `;` after it, or one character other than `[` and `L`.
pub open spec fn is_type_text(t: Seq<char>) -> bool {
    ||| t.len() == 1 && t[0] != '[' && t[0] != 'L'
    ||| t.len() >= 2 && t[0] == 'L' && t.last() == ';' && forall|i: int| 0 < i < t.len() - 1 ==> t[i] != ';'
}

/// No `c` stands before the position [find_char] gives.
pub proof fn lemma_find_char_first(s: Seq<char>, c: char)
    ensures
        find_char(s, c) matches Some(k) ==> forall|j: int| 0 <= j < k ==> s[j] != c,
    decreases s.len(),
{
    if s.len() > 0 && s[0] != c {
        lemma_find_char_first(s.skip(1), c);
        lemma_find_char_range(s.skip(1), c);
        if let Some(k) = find_char(s.skip(1), c) {
            assert forall|j: int| 0 <= j < k + 1 implies s[j] != c by {
                if j > 0 {
                    assert(s[j] == s.skip(1)[j - 1]);
                }
            }
        }
    }
}

/// Reading argument types loses nothing and invents nothing: the arguments read from `s`,
/// after `level` array levels, are one type each, and writing each type after as many `[`
/// as its array level gives back those `[` and `s`. So each argument's array level is the
/// number of `[` that stand right before its type. This holds of every `s` that does not
/// end in a `[` (a trailing `[` names no type, and reading drops it).
pub proof fn lemma_parse_args_text(s: Seq<char>, level: nat)
    requires
        s.len() == 0 ==> level == 0,
        s.len() > 0 ==> s.last() != '[',
    ensures
        spec_parse_args(s, level) matches Some(args) ==> {
            &&& repeat_char('[', level) + s == args_text(args)
            &&& forall|i: int| 0 <= i < args.len() ==> is_type_text(#[trigger] args[i].0)
        },
    decreases s.len(),
{
    if s.len() == 0 {
        assert(repeat_char('[', level) + s =~= Seq::<char>::empty());
    } else if s[0] == 'L' {
        let t = s.skip(1);
        if let Some(k) = find_char(t, ';') {
            lemma_find_char_range(t, ';');
            lemma_find_char_first(t, ';');
            let rest_s = s.skip(k + 2);
            if rest_s.len() > 0 {
                assert(rest_s.last() == s.last());
            }
            lemma_parse_args_text(rest_s, 0);
            if let Some(rest) = spec_parse_args(rest_s, 0) {
                let head = s.take(k + 2);
                let args = seq![(head, level)] + rest;
                assert(args.skip(1) =~= rest);
                assert(args[0] == (head, level));
                assert(repeat_char('[', 0) =~= Seq::<char>::empty());
                assert(repeat_char('[', 0) + rest_s =~= rest_s);
                assert(head + rest_s =~= s);
                assert(repeat_char('[', level) + s =~= repeat_char('[', level) + head + args_text(rest));
                assert forall|j: int| 0 < j < head.len() - 1 implies head[j] != ';' by {
                    assert(head[j] == t[j - 1]);
                }
                assert(head.last() == t[k]);
                assert forall|i: int| 0 <= i < args.len() implies is_type_text(#[trigger] args[i].0) by {
                    if i > 0 {
                        assert(args[i] == rest[i - 1]);
                    }
                }
            }
        }
    } else if s[0] == '[' {
        let t = s.skip(1);
        assert(t.last() == s.last());
        lemma_parse_args_text(t, level + 1);
        assert(repeat_char('[', level + 1) == repeat_char('[', level).push('['));
        assert(repeat_char('[', level) + s =~= repeat_char('[', level + 1) + t);
    } else {
        let t = s.skip(1);
        if t.len() > 0 {
            assert(t.last() == s.last());
        }
        lemma_parse_args_text(t, 0);
        if let Some(rest) = spec_parse_args(t, 0) {
            let args = seq![(seq![s[0]], level)] + rest;
            assert(args.skip(1) =~= rest);
            assert(args[0] == (seq![s[0]], level));
            assert(repeat_char('[', 0) =~= Seq::<char>::empty());
            assert(repeat_char('[', 0) + t =~= t);
            assert(seq![s[0]] + t =~= s);
            assert(repeat_char('[', level) + s =~= repeat_char('[', level) + seq![s[0]] + args_text(rest));
            assert forall|i: int| 0 <= i < args.len() implies is_type_text(#[trigger] args[i].0) by {
                if i > 0 {
                    assert(args[i] == rest[i - 1]);
                }
            }
        }
    }
}

/// A method descriptor taken apart: after a leading `(`, the text up to the first `)`
/// holds the arguments, as [spec_parse_args] reads them, and the text after it (up to a
/// second `)`, if any) is the return type, with the number of `[` in it. A descriptor
/// without the `(` or the `)` is not taken apart.
pub open spec fn spec_split_method_descriptor(d: Seq<char>) -> Option<(Seq<(Seq<char>, nat)>, Seq<char>, nat)> {
    if d.len() == 0 || d[0] != '(' {
        None
    } else {
        let parts = split(d.skip(1), ')');
        if parts.len() < 2 {
            None
        } else {
            match spec_parse_args(parts[0], 0) {
                Some(args) => Some((args, parts[1], count_char(parts[1], '['))),
                None => None,
            }
        }
    }
}

/// Without `sep` in it, `s` is one piece.
proof fn lemma_split_whole(s: Seq<char>, sep: char)
    requires
        forall|i: int| 0 <= i < s.len() ==> s[i] != sep,
    ensures
        split(s, sep) == seq![s],
    decreases s.len(),
{
    if s.len() > 0 {
        assert forall|i: int| 0 <= i < s.drop_last().len() implies s.drop_last()[i] != sep by {
            assert(s.drop_last()[i] == s[i]);
        }
        lemma_split_whole(s.drop_last(), sep);
        assert(s.last() != sep);
        assert(s.drop_last().push(s.last()) =~= s);
        let r = split(s.drop_last(), sep);
        assert(r.len() == 1 && r.last() == s.drop_last());
        assert(split(s, sep) == r.update(0, r.last().push(s.last())));
        assert(r.update(0, r.last().push(s.last())) =~= seq![s]);
    } else {
        assert(s =~= Seq::<char>::empty());
    }
}

/// `x`, `sep` and `y`, with no `sep` in `x` or `y`, are two pieces: `x` and `y`.
proof fn lemma_split_two(x: Seq<char>, y: Seq<char>, sep: char)
    requires
        forall|i: int| 0 <= i < x.len() ==> x[i] != sep,
        forall|i: int| 0 <= i < y.len() ==> y[i] != sep,
    ensures
        split(x + seq![sep] + y, sep) == seq![x, y],
    decreases y.len(),
{
    let w = x + seq![sep] + y;
    if y.len() == 0 {
        assert(y =~= Seq::<char>::empty());
        assert(w.drop_last() =~= x);
        lemma_split_whole(x, sep);
        assert(seq![x].push(Seq::<char>::empty()) =~= seq![x, y]);
    } else {
        assert forall|i: int| 0 <= i < y.drop_last().len() implies y.drop_last()[i] != sep by {
            assert(y.drop_last()[i] == y[i]);
        }
        lemma_split_two(x, y.drop_last(), sep);
        assert(w.drop_last() =~= x + seq![sep] + y.drop_last());
        assert(y.drop_last().push(y.last()) =~= y);
        assert(w.last() == y.last());
        assert(seq![x, y.drop_last()].update(1, y.drop_last().push(y.last())) =~= seq![x, y]);
    }
}

/// The number of `c` in `s` is the length of what is left of `s` when only the `c` are kept.
pub proof fn lemma_count_char_filter(s: Seq<char>, c: char)
    ensures
        count_char(s, c) == s.filter(|x: char| x == c).len(),
    decreases s.len(),
{
    reveal(Seq::filter);
    if s.len() > 0 {
        lemma_count_char_filter(s.drop_last(), c);
    }
}

/// A method descriptor `(`, then the argument part `a`, then `)`, then the return type
/// `r`, with no `)` in `a` or `r`, is taken apart into the arguments read from `a` and the
/// return type `r` with as many array levels as it holds `[`.
pub proof fn lemma_split_method_descriptor(a: Seq<char>, r: Seq<char>)
    requires
        forall|i: int| 0 <= i < a.len() ==> a[i] != ')',
        forall|i: int| 0 <= i < r.len() ==> r[i] != ')',
    ensures
        spec_split_method_descriptor(seq!['('] + a + seq![')'] + r) == match spec_parse_args(a, 0) {
            Some(args) => Some((args, r, r.filter(|x: char| x == '[').len())),
            None => None,
        },
{
    let d = seq!['('] + a + seq![')'] + r;
    assert(d.skip(1) =~= a + seq![')'] + r);
    lemma_split_two(a, r, ')');
    lemma_count_char_filter(r, '[');
}

/// The arguments as text: each type's text with its array level.
pub open spec fn args_view(v: Seq<(String, usize)>) -> Seq<(Seq<char>, nat)> {
    v.map_values(|a: (String, usize)| (a.0@, a.1 as nat))
}

/// Reads the argument part `s` of a method descriptor, as [spec_parse_args] says.
pub fn parse_args(s: &str) -> (r: Option<Vec<(String, usize)>>)
    ensures
        match spec_parse_args(s@, 0) {
            Some(v) => r matches Some(x) && args_view(x@) == v,
            None => r is None,
        },
{
    let n = s.unicode_len();
    let mut out: Vec<(String, usize)> = Vec::new();
    let mut i: usize = 0;
    let mut level: usize = 0;
    proof {
        assert(s@.skip(0) =~= s@);
        if let Some(v) = spec_parse_args(s@, 0) {
            assert(args_view(out@) + v =~= v);
        }
    }
    while i < n
        invariant
            n == s@.len(),
            i <= n,
            level <= i,
            spec_parse_args(s@, 0) == match spec_parse_args(s@.skip(i as int), level as nat) {
                Some(rest) => Some(args_view(out@) + rest),
                None => None::<Seq<(Seq<char>, nat)>>,
            },
        decreases n - i,
    {
        let ghost t = s@.skip(i as int);
        let c = s.get_char(i);
        assert(t[0] == c);
        let ghost before = args_view(out@);
        if c == 'L' {
            let mut j: usize = i + 1;
            proof {
                assert(t.skip(1) =~= s@.skip(i + 1));
            }
            while j < n && s.get_char(j) != ';'
                invariant
                    i < j <= n,
                    n == s@.len(),
                    t == s@.skip(i as int),
                    find_char(t.skip(1), ';') == match find_char(s@.skip(j as int), ';') {
                        Some(k) => Some(k + (j - i - 1)),
                        None => None::<int>,
                    },
                decreases n - j,
            {
                proof {
                    assert(s@.skip(j as int)[0] == s@[j as int]);
                    assert(s@.skip(j as int).skip(1) =~= s@.skip(j + 1));
                }
                j = j + 1;
            }
            if j == n {
                proof {
                    assert(s@.skip(j as int) =~= Seq::<char>::empty());
                }
                return None;
            }
            proof {
                assert(s@.skip(j as int)[0] == ';');
                assert(find_char(t.skip(1), ';') == Some((j - i - 1) as int));
                assert(t.skip((j - i + 1) as int) =~= s@.skip(j + 1));
                assert(t.take((j - i + 1) as int) =~= s@.subrange(i as int, j + 1));
            }
            let mut arg = String::new();
            arg.append(s.substring_char(i, j + 1));
            out.push((arg, level));
            proof {
                assert(args_view(out@) =~= before + seq![(s@.subrange(i as int, j + 1), level as nat)]);
                if let Some(rest) = spec_parse_args(s@.skip(j + 1), 0) {
                    assert(before + (seq![(s@.subrange(i as int, j + 1), level as nat)] + rest) =~= args_view(out@)
                        + rest);
                }
            }
            level = 0;
            i = j + 1;
        } else if c == '[' {
            proof {
                assert(t.skip(1) =~= s@.skip(i + 1));
            }
            level = level + 1;
            i = i + 1;
        } else {
            let mut arg = String::new();
            arg.append(s.substring_char(i, i + 1));
            out.push((arg, level));
            proof {
                assert(s@.subrange(i as int, i + 1) =~= seq![c]);
                assert(t.skip(1) =~= s@.skip(i + 1));
                assert(args_view(out@) =~= before + seq![(seq![c], level as nat)]);
                if let Some(rest) = spec_parse_args(s@.skip(i + 1), 0) {
                    assert(before + (seq![(seq![c], level as nat)] + rest) =~= args_view(out@) + rest);
                }
            }
            level = 0;
            i = i + 1;
        }
    }
    proof {
        assert(s@.skip(n as int) =~= Seq::<char>::empty());
        assert(args_view(out@) + Seq::<(Seq<char>, nat)>::empty() =~= args_view(out@));
    }
    Some(out)
}

/// How many times `c` occurs in `s`, as [count_char] says.
pub fn count_chars(s: &str, c: char) -> (r: usize)
    ensures
        r == count_char(s@, c),
{
    let n = s.unicode_len();
    let mut count: usize = 0;
    let mut i: usize = 0;
    proof {
        assert(s@.take(0) =~= Seq::<char>::empty());
    }
    while i < n
        invariant
            n == s@.len(),
            i <= n,
            count == count_char(s@.take(i as int), c),
            count <= i,
        decreases n - i,
    {
        proof {
            assert(s@.take(i + 1).drop_last() =~= s@.take(i as int));
            assert(s@.take(i + 1).last() == s@[i as int]);
        }
        if s.get_char(i) == c {
            count = count + 1;
        }
        i = i + 1;
    }
    proof {
        assert(s@.take(n as int) =~= s@);
    }
    count
}

/// A method descriptor taken apart, as [spec_split_method_descriptor] says: its argument
/// types with their array levels, its return type, and the array levels of the return type.
pub fn split_method_descriptor(descriptor: &str) -> (r: Option<(Vec<(String, usize)>, String, usize)>)
    ensures
        match spec_split_method_descriptor(descriptor@) {
            Some(v) => r matches Some(x) && args_view(x.0@) == v.0 && x.1@ == v.1 && x.2 == v.2,
            None => r is None,
        },
{
    let n = descriptor.unicode_len();
    if n == 0 || descriptor.get_char(0) != '(' {
        return None;
    }
    let rest = descriptor.substring_char(1, n);
    proof {
        assert(rest@ =~= descriptor@.skip(1));
    }
    let parts = split_str(rest, ')');
    if parts.len() < 2 {
        return None;
    }
    proof {
        assert(parts@[0]@ == split(rest@, ')')[0]);
        assert(parts@[1]@ == split(rest@, ')')[1]);
    }
    let args = match parse_args(parts[0].as_str()) {
        Some(args) => args,
        None => {
            return None;
        },
    };
    let returned = parts[1].clone();
    let levels = count_chars(returned.as_str(), '[');
    Some((args, returned, levels))
}

} // verus!
