//! What holds between reading and writing: a value that is written and read back
//! comes back whole, and the bytes after it are left alone.

use crate::jvms::read::bytes::{be_u16, be_u32, spec_read_vec, FromReadContext, Parsed};
use crate::jvms::write::bytes::{spec_write_vec, u16_bytes, u32_bytes, FromWriteContext};
use vstd::prelude::*;

verus! {

/// A value whose encoding reads back as the value itself.
pub trait Codec: FromReadContext + FromWriteContext {
    /// The values whose stored counts and lengths agree with their contents.
    spec fn spec_wf(v: <Self as DeepView>::V) -> bool;

    /// Writing a well-formed value and reading it back gives the value and takes exactly its bytes.
    proof fn lemma_roundtrip(v: <Self as DeepView>::V, rest: Seq<u8>)
        requires
            Self::spec_wf(v),
        ensures
            Self::spec_read(Self::spec_write(v) + rest) == Parsed::Done(v, Self::spec_write(v).len()),
    ;
}

/// The two bytes of a `u16` read back as the `u16`.
pub proof fn lemma_u16_bytes(v: u16)
    ensures
        u16_bytes(v).len() == 2,
        be_u16(u16_bytes(v)[0], u16_bytes(v)[1]) == v,
{
}

impl Codec for u8 {
    open spec fn spec_wf(v: u8) -> bool {
        true
    }

    proof fn lemma_roundtrip(v: u8, rest: Seq<u8>) {
        assert((seq![v] + rest)[0] == v);
    }
}

impl Codec for u16 {
    open spec fn spec_wf(v: u16) -> bool {
        true
    }

    proof fn lemma_roundtrip(v: u16, rest: Seq<u8>) {
        let s = u16_bytes(v) + rest;
        assert(s[0] == (v / 256) as u8 && s[1] == (v % 256) as u8);
    }
}

impl Codec for u32 {
    open spec fn spec_wf(v: u32) -> bool {
        true
    }

    proof fn lemma_roundtrip(v: u32, rest: Seq<u8>) {
        let s = u32_bytes(v) + rest;
        assert(s[0] == (v / 16777216) as u8);
        assert(s[1] == (v / 65536 % 256) as u8);
        assert(s[2] == (v / 256 % 256) as u8);
        assert(s[3] == (v % 256) as u8);
        assert(be_u32(s[0], s[1], s[2], s[3]) == v) by (nonlinear_arith)
            requires
                s[0] == (v / 16777216) as u8,
                s[1] == (v / 65536 % 256) as u8,
                s[2] == (v / 256 % 256) as u8,
                s[3] == (v % 256) as u8,
        ;
    }
}

/// Every element of `vs` is well-formed.
pub open spec fn all_wf<T: Codec>(vs: Seq<<T as DeepView>::V>) -> bool {
    forall|i: int| 0 <= i < vs.len() ==> #[trigger] T::spec_wf(vs[i])
}

/// Writing well-formed values one after another and reading as many back gives them all.
pub proof fn lemma_vec_roundtrip<T: Codec>(vs: Seq<<T as DeepView>::V>, rest: Seq<u8>)
    requires
        all_wf::<T>(vs),
    ensures
        spec_read_vec::<T>(spec_write_vec::<T>(vs) + rest, vs.len())
            == Parsed::Done(vs, spec_write_vec::<T>(vs).len()),
    decreases vs.len(),
{
    if vs.len() > 0 {
        let init = vs.drop_last();
        let last = vs.last();
        let wi = spec_write_vec::<T>(init);
        let wl = T::spec_write(last);
        assert(all_wf::<T>(init)) by {
            assert forall|i: int| 0 <= i < init.len() implies #[trigger] T::spec_wf(init[i]) by {
                assert(init[i] == vs[i]);
            }
        }
        assert(T::spec_wf(vs[vs.len() - 1]));
        lemma_vec_roundtrip::<T>(init, wl + rest);
        assert(spec_write_vec::<T>(vs) + rest =~= wi + (wl + rest));
        assert((wi + (wl + rest)).skip(wi.len() as int) =~= wl + rest);
        T::lemma_roundtrip(last, rest);
        assert(init.push(last) =~= vs);
    } else {
        assert(vs =~= Seq::<<T as DeepView>::V>::empty());
    }
}

} // verus!
