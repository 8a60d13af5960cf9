//! Java's modified UTF-8 (JVMS 4.4.7), which differs from UTF-8 in two ways: the null
//! character is written as the two bytes `C0 80`, so that no zero byte appears, and a
//! character outside the Basic Multilingual Plane is written as six bytes, the two
//! halves of its UTF-16 surrogate pair, three bytes each.

use crate::err::{AsmErr, AsmResult};
use crate::jvms::read::transform::Outcome;
use crate::util::string_from_utf8;
use vstd::prelude::*;
use vstd::utf8::{
    codepoint_width_2, codepoint_width_3, codepoint_width_4, decode_utf8, length_of_first_scalar, pop_first_scalar,
    valid_utf8,
};

verus! {

/// The outcome `o` of converting the rest of the input, with `prefix` written before it.
pub open spec fn after(prefix: Seq<u8>, o: Outcome<Seq<u8>>) -> Outcome<Seq<u8>> {
    match o {
        Outcome::Value(v) => Outcome::Value(prefix + v),
        Outcome::Error(e) => Outcome::Error(e),
        Outcome::Panic => Outcome::Panic,
    }
}

/// Writing `a` and then `b` before an outcome is writing `a + b` before it.
pub proof fn lemma_after_after(a: Seq<u8>, b: Seq<u8>, o: Outcome<Seq<u8>>)
    ensures
        after(a, after(b, o)) == after(a + b, o),
{
    if let Outcome::Value(v) = o {
        assert(a + (b + v) =~= a + b + v);
    }
}

/// The code point of the supplementary character that the six-byte form
/// `ED b2 b3 ED b5 b6` stands for: that form is the UTF-16 surrogate pair, high half
/// `D800 + H` and low half `DC00 + L`, each written as three bytes, where `H` is the low four
/// bits of `b2` and the low six bits of `b3`, and `L` the low four bits of `b5` and the low six
/// bits of `b6`. The character is 0x10000 plus the 20 bits `H L`.
pub open spec fn surrogate_code(b2: u8, b3: u8, b5: u8, b6: u8) -> u32 {
    (0x10000u32 + ((((b2 as u32) & 0x0F) << 16u32) | (((b3 as u32) & 0x3F) << 10u32) | (((b5 as u32) & 0x0F)
        << 6u32) | ((b6 as u32) & 0x3F))) as u32
}

/// The four-byte UTF-8 form of the code point `code` (0x10000..=0x10FFFF): `F0` with its
/// top three bits, then three continuation bytes with six bits each.
pub open spec fn utf8_form4(code: u32) -> Seq<u8> {
    seq![
        0xF0u8 | ((code >> 18u32) as u8),
        0x80u8 | (((code >> 12u32) & 0x3F) as u8),
        0x80u8 | (((code >> 6u32) & 0x3F) as u8),
        0x80u8 | ((code & 0x3F) as u8),
    ]
}

/// What converting the modified UTF-8 bytes `s` to UTF-8 gives, read from the front:
/// a byte 01..7F stays; `C0 80` is the null character and becomes a zero byte; any other
/// byte C0..DF and the next stay; `ED A0..AF` starts a six-byte surrogate pair that
/// becomes the four-byte form of its character; a byte E0..EF and the next two stay; any
/// other first byte is an error. It panics where a form needs
/// more bytes than are left (the second and third byte are looked at before the first
/// byte is judged).
pub open spec fn spec_mutf8_to_utf8(s: Seq<u8>) -> Outcome<Seq<u8>>
    decreases s.len(),
{
    if s.len() == 0 {
        Outcome::Value(Seq::empty())
    } else {
        let b1 = s[0];
        if 0x01 <= b1 <= 0x7F {
            after(seq![b1], spec_mutf8_to_utf8(s.skip(1)))
        } else if s.len() < 2 {
            Outcome::Panic
        } else if 0xC0 <= b1 <= 0xDF {
            let out = if b1 == 0xC0 && s[1] == 0x80 {
                seq![0x00u8]
            } else {
                seq![b1, s[1]]
            };
            after(out, spec_mutf8_to_utf8(s.skip(2)))
        } else if s.len() < 3 {
            Outcome::Panic
        } else if b1 == 0xED && 0xA0 <= s[1] <= 0xAF {
            if s.len() < 6 {
                Outcome::Panic
            } else {
                after(utf8_form4(surrogate_code(s[1], s[2], s[4], s[5])), spec_mutf8_to_utf8(s.skip(6)))
            }
        } else if 0xE0 <= b1 <= 0xEF {
            after(s.take(3), spec_mutf8_to_utf8(s.skip(3)))
        } else {
            Outcome::Error(AsmErr::ReadMUTF8(b1))
        }
    }
}

/// How a conversion relates to its specification.
pub open spec fn bytes_result(o: Outcome<Seq<u8>>, r: AsmResult<Vec<u8>>) -> bool {
    match o {
        Outcome::Value(v) => r matches Ok(x) && x@ == v,
        Outcome::Error(e) => r == Err::<Vec<u8>, AsmErr>(e),
        Outcome::Panic => false,
    }
}

/// Converts modified UTF-8 to UTF-8, as [spec_mutf8_to_utf8] says, on every input on
/// which the conversion does not panic.
pub fn mutf8_to_utf8(mutf8: &[u8]) -> (r: AsmResult<Vec<u8>>)
    requires
        !(spec_mutf8_to_utf8(mutf8@) is Panic),
    ensures
        bytes_result(spec_mutf8_to_utf8(mutf8@), r),
{
    match try_mutf8_to_utf8(mutf8) {
        Some(r) => r,
        None => Err(AsmErr::ReadUTF8),
    }
}

/// Converts modified UTF-8 to UTF-8, as [spec_mutf8_to_utf8] says. It gives `None`
/// exactly where the conversion panics: where a form needs more bytes than are left.
pub fn try_mutf8_to_utf8(mutf8: &[u8]) -> (r: Option<AsmResult<Vec<u8>>>)
    ensures
        match spec_mutf8_to_utf8(mutf8@) {
            Outcome::Panic => r is None,
            o => r matches Some(x) && bytes_result(o, x),
        },
{
    let len = mutf8.len();
    let mut utf8: Vec<u8> = Vec::with_capacity(len);
    let mut current_offset: usize = 0;
    proof {
        assert(mutf8@.skip(0) =~= mutf8@);
        lemma_after_after(Seq::empty(), Seq::empty(), spec_mutf8_to_utf8(mutf8@));
        if let Outcome::Value(v) = spec_mutf8_to_utf8(mutf8@) {
            assert(Seq::<u8>::empty() + v =~= v);
        }
    }
    while current_offset < len
        invariant
            len == mutf8@.len(),
            current_offset <= len,
            spec_mutf8_to_utf8(mutf8@) == after(utf8@, spec_mutf8_to_utf8(mutf8@.skip(current_offset as int))),
        decreases len - current_offset,
    {
        let ghost rest = mutf8@.skip(current_offset as int);
        let ghost before = utf8@;
        assert(rest[0] == mutf8@[current_offset as int]);
        let byte1 = mutf8[current_offset];
        if 0x01 <= byte1 && byte1 <= 0x7F {
            utf8.push(byte1);
            proof {
                assert(rest.skip(1) =~= mutf8@.skip(current_offset + 1));
                lemma_after_after(before, seq![byte1], spec_mutf8_to_utf8(rest.skip(1)));
                assert(utf8@ =~= before + seq![byte1]);
            }
            current_offset += 1;
        } else {
            if len - current_offset < 2 {
                return None;
            }
            assert(rest[1] == mutf8@[current_offset + 1]);
            let byte2 = mutf8[current_offset + 1];
            if 0xC0 <= byte1 && byte1 <= 0xDF {
                let ghost out = if byte1 == 0xC0 && byte2 == 0x80 {
                    seq![0x00u8]
                } else {
                    seq![byte1, byte2]
                };
                if byte1 == 0xC0 && byte2 == 0x80 {
                    utf8.push(0x00);
                } else {
                    utf8.push(byte1);
                    utf8.push(byte2);
                }
                proof {
                    assert(rest.skip(2) =~= mutf8@.skip(current_offset + 2));
                    lemma_after_after(before, out, spec_mutf8_to_utf8(rest.skip(2)));
                    assert(utf8@ =~= before + out);
                }
                current_offset += 2;
            } else {
                if len - current_offset < 3 {
                    return None;
                }
                assert(rest[2] == mutf8@[current_offset + 2]);
                let byte3 = mutf8[current_offset + 2];
                if byte1 == 0xED && byte2 >= 0xA0 && byte2 <= 0xAF {
                    if len - current_offset < 6 {
                        return None;
                    }
                    assert(rest[4] == mutf8@[current_offset + 4]);
                    assert(rest[5] == mutf8@[current_offset + 5]);
                    let byte5 = mutf8[current_offset + 4];
                    let byte6 = mutf8[current_offset + 5];
                    let code1 = (byte2 as u32 & 0x0F) << 16;
                    let code2 = (byte3 as u32 & 0x3F) << 10;
                    let code3 = (byte5 as u32 & 0x0F) << 6;
                    let code4 = byte6 as u32 & 0x3F;
                    assert((code1 | code2 | code3 | code4) <= 0xFFFFF) by (bit_vector)
                        requires
                            code1 == (byte2 as u32 & 0x0F) << 16,
                            code2 == (byte3 as u32 & 0x3F) << 10,
                            code3 == (byte5 as u32 & 0x0F) << 6,
                            code4 == byte6 as u32 & 0x3F,
                    ;
                    let code = 0x10000 + (code1 | code2 | code3 | code4);
                    let utf1 = 0xF0 | ((code >> 18) as u8);
                    let utf2 = 0x80 | (((code >> 12) & 0x3F) as u8);
                    let utf3 = 0x80 | (((code >> 6) & 0x3F) as u8);
                    let utf4 = 0x80 | ((code & 0x3F) as u8);
                    utf8.push(utf1);
                    utf8.push(utf2);
                    utf8.push(utf3);
                    utf8.push(utf4);
                    proof {
                        let out = utf8_form4(surrogate_code(byte2, byte3, byte5, byte6));
                        assert(code == surrogate_code(byte2, byte3, byte5, byte6));
                        assert(rest.skip(6) =~= mutf8@.skip(current_offset + 6));
                        lemma_after_after(before, out, spec_mutf8_to_utf8(rest.skip(6)));
                        assert(utf8@ =~= before + out);
                    }
                    current_offset += 6;
                } else if byte1 >= 0xE0 && byte1 <= 0xEF {
                    utf8.push(byte1);
                    utf8.push(byte2);
                    utf8.push(byte3);
                    proof {
                        assert(rest.take(3) =~= seq![byte1, byte2, byte3]);
                        assert(rest.skip(3) =~= mutf8@.skip(current_offset + 3));
                        lemma_after_after(before, rest.take(3), spec_mutf8_to_utf8(rest.skip(3)));
                        assert(utf8@ =~= before + rest.take(3));
                    }
                    current_offset += 3;
                } else {
                    return Some(Err(AsmErr::ReadMUTF8(byte1)));
                }
            }
        }
    }
    proof {
        assert(mutf8@.skip(len as int) =~= Seq::<u8>::empty());
        assert(utf8@ + Seq::<u8>::empty() =~= utf8@);
    }
    Some(Ok(utf8))
}

/// What converting modified UTF-8 to a string gives: the UTF-8 of [spec_mutf8_to_utf8],
/// decoded, or an error where that UTF-8 is not valid.
pub open spec fn spec_mutf8_to_string(s: Seq<u8>) -> Outcome<Seq<char>> {
    match spec_mutf8_to_utf8(s) {
        Outcome::Value(u) => if valid_utf8(u) {
            Outcome::Value(decode_utf8(u))
        } else {
            Outcome::Error(AsmErr::ReadUTF8)
        },
        Outcome::Error(e) => Outcome::Error(e),
        Outcome::Panic => Outcome::Panic,
    }
}

/// Converts modified UTF-8 to a string, as [spec_mutf8_to_string] says.
pub fn mutf8_to_string(mutf8: &[u8]) -> (r: AsmResult<String>)
    requires
        !(spec_mutf8_to_string(mutf8@) is Panic),
    ensures
        match spec_mutf8_to_string(mutf8@) {
            Outcome::Value(v) => r matches Ok(x) && x@ == v,
            Outcome::Error(e) => r == Err::<String, AsmErr>(e),
            Outcome::Panic => false,
        },
{
    match try_mutf8_to_string(mutf8) {
        Some(r) => r,
        None => Err(AsmErr::ReadUTF8),
    }
}

/// Converts modified UTF-8 to a string, as [spec_mutf8_to_string] says. It gives `None`
/// exactly where the conversion panics.
pub fn try_mutf8_to_string(mutf8: &[u8]) -> (r: Option<AsmResult<String>>)
    ensures
        match spec_mutf8_to_string(mutf8@) {
            Outcome::Value(v) => r matches Some(Ok(x)) && x@ == v,
            Outcome::Error(e) => r == Some(Err::<String, AsmErr>(e)),
            Outcome::Panic => r is None,
        },
{
    let utf8 = match try_mutf8_to_utf8(mutf8) {
        Some(Ok(utf8)) => utf8,
        Some(Err(e)) => {
            return Some(Err(e));
        },
        None => {
            return None;
        },
    };
    match string_from_utf8(utf8.as_slice()) {
        Some(s) => Some(Ok(s)),
        None => Some(Err(AsmErr::ReadUTF8)),
    }
}

/// The code point of the four-byte UTF-8 form `b1 b2 b3 b4`: the low three bits of `b1`
/// and the low six bits of each of the others.
pub open spec fn utf8_code4(b1: u8, b2: u8, b3: u8, b4: u8) -> u32 {
    ((b1 as u32 & 0x07) << 18u32) | ((b2 as u32 & 0x3F) << 12u32) | ((b3 as u32 & 0x3F) << 6u32) | (b4 as u32 & 0x3F)
}

/// The six bytes written for `code`, the code point less 0x10000: the UTF-16 surrogate
/// pair, high half `D800` plus the top ten of its 20 bits and low half `DC00` plus the
/// bottom ten, each written as three bytes: `ED`, `A0` or-ed with bits 16..19, `80` or-ed
/// with bits 10..15, `ED`, `B0` or-ed with bits 6..9, and `80` or-ed with bits 0..5.
pub open spec fn mutf8_pair(code: u32) -> Seq<u8> {
    seq![
        0xEDu8,
        0xA0u8 | (((code >> 16u32) & 0x0F) as u8),
        0x80u8 | (((code >> 10u32) & 0x3F) as u8),
        0xEDu8,
        0xB0u8 | (((code >> 6u32) & 0x0F) as u8),
        0x80u8 | ((code & 0x3F) as u8),
    ]
}

/// What converting the UTF-8 bytes `s` to modified UTF-8 gives, read from the front: a
/// zero byte becomes `C0 80`; a byte 01..7F stays; a byte C0..DF and the next stay; a byte
/// E0..EF and the next two stay; a byte F0..F4 and the next three become six bytes;
/// any other first byte is an error. It panics where a form needs more bytes than are
/// left, and where a four-byte form stands for a code point below 0x10000 (the
/// subtraction of 0x10000 overflows).
pub open spec fn spec_utf8_to_mutf8(s: Seq<u8>) -> Outcome<Seq<u8>>
    decreases s.len(),
{
    if s.len() == 0 {
        Outcome::Value(Seq::empty())
    } else {
        let b1 = s[0];
        if b1 == 0x00 {
            after(seq![0xC0u8, 0x80u8], spec_utf8_to_mutf8(s.skip(1)))
        } else if 0x01 <= b1 <= 0x7F {
            after(seq![b1], spec_utf8_to_mutf8(s.skip(1)))
        } else if s.len() < 2 {
            Outcome::Panic
        } else if 0xC0 <= b1 <= 0xDF {
            after(s.take(2), spec_utf8_to_mutf8(s.skip(2)))
        } else if s.len() < 3 {
            Outcome::Panic
        } else if 0xE0 <= b1 <= 0xEF {
            after(s.take(3), spec_utf8_to_mutf8(s.skip(3)))
        } else if 0xF0 <= b1 <= 0xF4 {
            if s.len() < 4 {
                Outcome::Panic
            } else if utf8_code4(b1, s[1], s[2], s[3]) < 0x10000 {
                Outcome::Panic
            } else {
                after(
                    mutf8_pair((utf8_code4(b1, s[1], s[2], s[3]) - 0x10000) as u32),
                    spec_utf8_to_mutf8(s.skip(4)),
                )
            }
        } else {
            Outcome::Error(AsmErr::ReadUTF8Byte(b1))
        }
    }
}

/// Converts UTF-8 to modified UTF-8, as [spec_utf8_to_mutf8] says.
pub fn utf8_to_mutf8(utf8: &[u8]) -> (r: AsmResult<Vec<u8>>)
    requires
        !(spec_utf8_to_mutf8(utf8@) is Panic),
    ensures
        bytes_result(spec_utf8_to_mutf8(utf8@), r),
{
    let len = utf8.len();
    let mut mutf8: Vec<u8> = Vec::with_capacity(len);
    let mut current_offset: usize = 0;
    proof {
        assert(utf8@.skip(0) =~= utf8@);
        if let Outcome::Value(v) = spec_utf8_to_mutf8(utf8@) {
            assert(Seq::<u8>::empty() + v =~= v);
        }
    }
    while current_offset < len
        invariant
            len == utf8@.len(),
            current_offset <= len,
            spec_utf8_to_mutf8(utf8@) == after(mutf8@, spec_utf8_to_mutf8(utf8@.skip(current_offset as int))),
            !(spec_utf8_to_mutf8(utf8@) is Panic),
        decreases len - current_offset,
    {
        let ghost rest = utf8@.skip(current_offset as int);
        let ghost before = mutf8@;
        assert(rest[0] == utf8@[current_offset as int]);
        let byte1 = utf8[current_offset];
        if byte1 == 0x00 {
            mutf8.push(0xC0);
            mutf8.push(0x80);
            proof {
                assert(rest.skip(1) =~= utf8@.skip(current_offset + 1));
                lemma_after_after(before, seq![0xC0u8, 0x80u8], spec_utf8_to_mutf8(rest.skip(1)));
                assert(mutf8@ =~= before + seq![0xC0u8, 0x80u8]);
            }
            current_offset += 1;
        } else if byte1 >= 0x01 && byte1 <= 0x7F {
            mutf8.push(byte1);
            proof {
                assert(rest.skip(1) =~= utf8@.skip(current_offset + 1));
                lemma_after_after(before, seq![byte1], spec_utf8_to_mutf8(rest.skip(1)));
                assert(mutf8@ =~= before + seq![byte1]);
            }
            current_offset += 1;
        } else {
            assert(rest.len() >= 2);
            assert(rest[1] == utf8@[current_offset + 1]);
            let byte2 = utf8[current_offset + 1];
            if byte1 >= 0xC0 && byte1 <= 0xDF {
                mutf8.push(byte1);
                mutf8.push(byte2);
                proof {
                    assert(rest.take(2) =~= seq![byte1, byte2]);
                    assert(rest.skip(2) =~= utf8@.skip(current_offset + 2));
                    lemma_after_after(before, rest.take(2), spec_utf8_to_mutf8(rest.skip(2)));
                    assert(mutf8@ =~= before + rest.take(2));
                }
                current_offset += 2;
            } else {
                assert(rest.len() >= 3);
                assert(rest[2] == utf8@[current_offset + 2]);
                let byte3 = utf8[current_offset + 2];
                if byte1 >= 0xE0 && byte1 <= 0xEF {
                    mutf8.push(byte1);
                    mutf8.push(byte2);
                    mutf8.push(byte3);
                    proof {
                        assert(rest.take(3) =~= seq![byte1, byte2, byte3]);
                        assert(rest.skip(3) =~= utf8@.skip(current_offset + 3));
                        lemma_after_after(before, rest.take(3), spec_utf8_to_mutf8(rest.skip(3)));
                        assert(mutf8@ =~= before + rest.take(3));
                    }
                    current_offset += 3;
                } else if byte1 >= 0xF0 && byte1 <= 0xF4 {
                    assert(rest.len() >= 4);
                    assert(rest[3] == utf8@[current_offset + 3]);
                    let byte4 = utf8[current_offset + 3];
                    let code = ((byte1 as u32 & 0x07) << 18) | ((byte2 as u32 & 0x3F) << 12) | ((byte3 as u32
                        & 0x3F) << 6) | (byte4 as u32 & 0x3F);
                    assert(code == utf8_code4(byte1, byte2, byte3, byte4));
                    let code = code - 0x010000;
                    mutf8.push(0xED);
                    mutf8.push(0xA0 | (((code >> 16) & 0x0F) as u8));
                    mutf8.push(0x80 | (((code >> 10) & 0x3F) as u8));
                    mutf8.push(0xED);
                    mutf8.push(0xB0 | (((code >> 6) & 0x0F) as u8));
                    mutf8.push(0x80 | ((code & 0x3F) as u8));
                    proof {
                        let out = mutf8_pair(code);
                        assert(rest.skip(4) =~= utf8@.skip(current_offset + 4));
                        lemma_after_after(before, out, spec_utf8_to_mutf8(rest.skip(4)));
                        assert(mutf8@ =~= before + out);
                    }
                    current_offset += 4;
                } else {
                    return Err(AsmErr::ReadUTF8Byte(byte1));
                }
            }
        }
    }
    proof {
        assert(utf8@.skip(len as int) =~= Seq::<u8>::empty());
        assert(mutf8@ + Seq::<u8>::empty() =~= mutf8@);
    }
    Ok(mutf8)
}

/// Whether `b` is a UTF-8 continuation byte, `10xx_xxxx`.
pub open spec fn is_continuation(b: u8) -> bool {
    0x80 <= b <= 0xBF
}

/// Whether `s` is a run of UTF-8 forms: one byte 00..7F; a byte C0..DF and one
/// continuation byte; a byte E0..EF and two; or a byte F0..F4 and three, standing for a
/// code point of at least 0x10000.
pub open spec fn utf8_forms(s: Seq<u8>) -> bool
    decreases s.len(),
{
    if s.len() == 0 {
        true
    } else {
        let b1 = s[0];
        if b1 <= 0x7F {
            utf8_forms(s.skip(1))
        } else if 0xC0 <= b1 <= 0xDF {
            s.len() >= 2 && is_continuation(s[1]) && utf8_forms(s.skip(2))
        } else if 0xE0 <= b1 <= 0xEF {
            s.len() >= 3 && is_continuation(s[1]) && is_continuation(s[2]) && utf8_forms(s.skip(3))
        } else if 0xF0 <= b1 <= 0xF4 {
            s.len() >= 4 && is_continuation(s[1]) && is_continuation(s[2]) && is_continuation(s[3])
                && utf8_code4(b1, s[1], s[2], s[3]) >= 0x10000 && utf8_forms(s.skip(4))
        } else {
            false
        }
    }
}

/// The bytes of a six-byte form lie between 80 and EF, and its second byte is A0..AF.
proof fn lemma_mutf8_pair_bytes(code: u32)
    ensures
        forall|i: int| 0 <= i < 6 ==> 0x80 <= #[trigger] mutf8_pair(code)[i] <= 0xEF,
        0xA0 <= mutf8_pair(code)[1] <= 0xAF,
{
    let x0 = ((code >> 16u32) & 0x0F) as u8;
    let x1 = ((code >> 10u32) & 0x3F) as u8;
    let x2 = ((code >> 6u32) & 0x0F) as u8;
    let x3 = (code & 0x3F) as u8;
    assert(0xA0 <= 0xA0u8 | x0 <= 0xAF && 0x80 <= 0x80u8 | x1 <= 0xBF && 0xB0 <= 0xB0u8 | x2 <= 0xBF && 0x80
        <= 0x80u8 | x3 <= 0xBF) by (bit_vector)
        requires
            x0 == ((code >> 16u32) & 0x0F) as u8,
            x1 == ((code >> 10u32) & 0x3F) as u8,
            x2 == ((code >> 6u32) & 0x0F) as u8,
            x3 == (code & 0x3F) as u8,
    ;
}

/// Modified UTF-8 holds no zero byte and no byte F0..FF: converting a run of UTF-8 forms
/// succeeds, and what comes out holds only bytes 01..EF.
pub proof fn lemma_utf8_to_mutf8_no_zero(s: Seq<u8>)
    requires
        utf8_forms(s),
    ensures
        spec_utf8_to_mutf8(s) matches Outcome::Value(m) && forall|i: int|
            0 <= i < m.len() ==> #[trigger] m[i] != 0 && m[i] < 0xF0,
    decreases s.len(),
{
    if s.len() > 0 {
        let b1 = s[0];
        let k: int = if b1 <= 0x7F {
            1
        } else if 0xC0 <= b1 <= 0xDF {
            2
        } else if 0xE0 <= b1 <= 0xEF {
            3
        } else {
            4
        };
        lemma_utf8_to_mutf8_no_zero(s.skip(k));
        let out = if b1 == 0x00 {
            seq![0xC0u8, 0x80u8]
        } else if b1 <= 0x7F {
            seq![b1]
        } else if k == 2 {
            s.take(2)
        } else if k == 3 {
            s.take(3)
        } else {
            mutf8_pair((utf8_code4(b1, s[1], s[2], s[3]) - 0x10000) as u32)
        };
        if k == 4 {
            lemma_mutf8_pair_bytes((utf8_code4(b1, s[1], s[2], s[3]) - 0x10000) as u32);
        }
        assert(forall|i: int| 0 <= i < out.len() ==> #[trigger] out[i] != 0 && out[i] < 0xF0);
        let m = spec_utf8_to_mutf8(s.skip(k))->Value_0;
        assert(spec_utf8_to_mutf8(s) == Outcome::<Seq<u8>>::Value(out + m));
        assert forall|i: int| 0 <= i < (out + m).len() implies #[trigger] (out + m)[i] != 0 && (out + m)[i]
            < 0xF0 by {
            if i >= out.len() {
                assert((out + m)[i] == m[i - out.len()]);
            }
        }
    }
}

/// Whether `s` is a run of UTF-8 forms that converting to modified UTF-8 and back gives
/// back: forms of one byte; of two bytes other than the overlong `C0 80`; of three bytes
/// other than a surrogate half `ED A0..AF ..`; and of four bytes, with continuation bytes,
/// standing for a code point 0x10000..=0x10FFFF. Valid UTF-8 is made of these
/// ([lemma_valid_utf8_forms]).
pub open spec fn mutf8_roundtrip_safe(s: Seq<u8>) -> bool
    decreases s.len(),
{
    if s.len() == 0 {
        true
    } else {
        let b1 = s[0];
        if b1 <= 0x7F {
            mutf8_roundtrip_safe(s.skip(1))
        } else if 0xC0 <= b1 <= 0xDF {
            s.len() >= 2 && !(b1 == 0xC0 && s[1] == 0x80) && mutf8_roundtrip_safe(s.skip(2))
        } else if 0xE0 <= b1 <= 0xEF {
            s.len() >= 3 && !(b1 == 0xED && 0xA0 <= s[1] <= 0xAF) && mutf8_roundtrip_safe(s.skip(3))
        } else if 0xF0 <= b1 <= 0xF4 {
            &&& s.len() >= 4
            &&& is_continuation(s[1]) && is_continuation(s[2]) && is_continuation(s[3])
            &&& 0x10000 <= utf8_code4(b1, s[1], s[2], s[3]) <= 0x10FFFF
            &&& mutf8_roundtrip_safe(s.skip(4))
        } else {
            false
        }
    }
}

/// Valid UTF-8 is made of UTF-8 forms, and of forms that converting to modified UTF-8 and
/// back gives back: it has no overlong `C0 80`, no surrogate half and no code point past
/// 0x10FFFF.
pub proof fn lemma_valid_utf8_forms(s: Seq<u8>)
    requires
        valid_utf8(s),
    ensures
        utf8_forms(s),
        mutf8_roundtrip_safe(s),
    decreases s.len(),
{
    if s.len() > 0 {
        let b1 = s[0];
        let k = length_of_first_scalar(s);
        assert(pop_first_scalar(s) =~= s.skip(k));
        lemma_valid_utf8_forms(s.skip(k));
        if 0xC0 <= b1 <= 0xDF {
            let b2 = s[1];
            assert(b1 == 0xC0 && b2 == 0x80 ==> codepoint_width_2(b1, b2) < 0x80) by (bit_vector);
        } else if 0xE0 <= b1 <= 0xEF {
            let b2 = s[1];
            let b3 = s[2];
            assert(b1 == 0xED && 0xA0 <= b2 <= 0xAF ==> 0xD800 <= codepoint_width_3(b1, b2, b3) <= 0xDFFF)
                by (bit_vector);
        } else if 0xF0 <= b1 {
            let b2 = s[1];
            let b3 = s[2];
            let b4 = s[3];
            assert(codepoint_width_4(b1, b2, b3, b4) == utf8_code4(b1, b2, b3, b4)) by (bit_vector);
            assert(0xF0 <= b1 <= 0xF7 && utf8_code4(b1, b2, b3, b4) <= 0x10FFFF ==> b1 <= 0xF4) by (bit_vector);
        }
    }
}

/// The six-byte form of a supplementary character reads back as its four-byte form.
proof fn lemma_pair_inverse(b1: u8, b2: u8, b3: u8, b4: u8, c: u32, m1: u8, m2: u8, m4: u8, m5: u8)
    by (bit_vector)
    requires
        0xF0 <= b1 <= 0xF4,
        0x80 <= b2 <= 0xBF,
        0x80 <= b3 <= 0xBF,
        0x80 <= b4 <= 0xBF,
        0x10000 <= ((b1 as u32 & 0x07) << 18u32) | ((b2 as u32 & 0x3F) << 12u32) | ((b3 as u32 & 0x3F) << 6u32) | (
        b4 as u32 & 0x3F) <= 0x10FFFF,
        c == (((b1 as u32 & 0x07) << 18u32) | ((b2 as u32 & 0x3F) << 12u32) | ((b3 as u32 & 0x3F) << 6u32) | (b4 as u32
            & 0x3F)) - 0x10000u32,
        m1 == 0xA0u8 | (((c >> 16u32) & 0x0F) as u8),
        m2 == 0x80u8 | (((c >> 10u32) & 0x3F) as u8),
        m4 == 0xB0u8 | (((c >> 6u32) & 0x0F) as u8),
        m5 == 0x80u8 | ((c & 0x3F) as u8),
    ensures
        ({
            let d = (0x10000u32 + ((((m1 as u32) & 0x0F) << 16u32) | (((m2 as u32) & 0x3F) << 10u32) | (((m4 as u32)
                & 0x0F) << 6u32) | ((m5 as u32) & 0x3F))) as u32;
            &&& 0xF0u8 | ((d >> 18u32) as u8) == b1
            &&& 0x80u8 | (((d >> 12u32) & 0x3F) as u8) == b2
            &&& 0x80u8 | (((d >> 6u32) & 0x3F) as u8) == b3
            &&& 0x80u8 | ((d & 0x3F) as u8) == b4
        }),
{
}

/// Converting to modified UTF-8 and back gives the input, for a run of forms that
/// [mutf8_roundtrip_safe] admits (valid UTF-8 among them).
pub proof fn lemma_mutf8_roundtrip(s: Seq<u8>)
    requires
        mutf8_roundtrip_safe(s),
    ensures
        spec_utf8_to_mutf8(s) matches Outcome::Value(m) && spec_mutf8_to_utf8(m) == Outcome::Value(s),
    decreases s.len(),
{
    if s.len() > 0 {
        let b1 = s[0];
        if b1 == 0x00 {
            lemma_mutf8_roundtrip(s.skip(1));
            let m = spec_utf8_to_mutf8(s.skip(1))->Value_0;
            let w = seq![0xC0u8, 0x80u8] + m;
            assert(w[0] == 0xC0 && w[1] == 0x80);
            assert(w.skip(2) =~= m);
            assert(seq![0x00u8] + s.skip(1) =~= s);
        } else if b1 <= 0x7F {
            lemma_mutf8_roundtrip(s.skip(1));
            let m = spec_utf8_to_mutf8(s.skip(1))->Value_0;
            let w = seq![b1] + m;
            assert(w[0] == b1);
            assert(w.skip(1) =~= m);
            assert(seq![b1] + s.skip(1) =~= s);
        } else if 0xC0 <= b1 <= 0xDF {
            lemma_mutf8_roundtrip(s.skip(2));
            let m = spec_utf8_to_mutf8(s.skip(2))->Value_0;
            let w = s.take(2) + m;
            assert(w[0] == b1 && w[1] == s[1]);
            assert(w.skip(2) =~= m);
            assert(seq![b1, s[1]] =~= s.take(2));
            assert(s.take(2) + s.skip(2) =~= s);
        } else if 0xE0 <= b1 <= 0xEF {
            lemma_mutf8_roundtrip(s.skip(3));
            let m = spec_utf8_to_mutf8(s.skip(3))->Value_0;
            let w = s.take(3) + m;
            assert(w[0] == b1 && w[1] == s[1] && w[2] == s[2]);
            assert(w.take(3) =~= s.take(3));
            assert(w.skip(3) =~= m);
            assert(s.take(3) + s.skip(3) =~= s);
        } else {
            lemma_mutf8_roundtrip(s.skip(4));
            let m = spec_utf8_to_mutf8(s.skip(4))->Value_0;
            let code = utf8_code4(b1, s[1], s[2], s[3]);
            let c = (code - 0x10000) as u32;
            let p = mutf8_pair(c);
            lemma_mutf8_pair_bytes(c);
            lemma_pair_inverse(b1, s[1], s[2], s[3], c, p[1], p[2], p[4], p[5]);
            let w = p + m;
            assert(w[0] == 0xED && w[1] == p[1] && w[2] == p[2] && w[4] == p[4] && w[5] == p[5]);
            assert(w.skip(6) =~= m);
            assert(utf8_form4(surrogate_code(p[1], p[2], p[4], p[5])) =~= s.take(4));
            assert(s.take(4) + s.skip(4) =~= s);
        }
    } else {
        assert(s =~= Seq::<u8>::empty());
    }
}

} // verus!

verus! {

/// Converting valid UTF-8 to modified UTF-8 and back gives back the same bytes, and the
/// modified UTF-8 reads as the string that the UTF-8 encodes.
pub proof fn lemma_valid_utf8_roundtrip(u: Seq<u8>)
    requires
        valid_utf8(u),
    ensures
        spec_utf8_to_mutf8(u) matches Outcome::Value(m) && spec_mutf8_to_utf8(m) == Outcome::Value(u)
            && spec_mutf8_to_string(m) == Outcome::Value(decode_utf8(u)),
{
    lemma_valid_utf8_forms(u);
    lemma_mutf8_roundtrip(u);
}

} // verus!
