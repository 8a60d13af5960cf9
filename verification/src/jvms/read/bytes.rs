use crate::err::{AsmErr, AsmResult};
use vstd::prelude::*;

verus! {

/// What reading a value from the front of a byte sequence gives: the value and the
/// number of bytes it took, an error, or an abort where the reader would panic.
pub enum Parsed<T> {
    Done(T, nat),
    Fail(AsmErr),
    Abort,
}

/// Continues a read that produced `p` with the reader `k`, which starts after the bytes `p` took.
pub open spec fn then_read<A, B>(
    p: Parsed<A>,
    s: Seq<u8>,
    k: spec_fn(A, Seq<u8>) -> Parsed<B>,
) -> Parsed<B> {
    match p {
        Parsed::Done(a, n) => match k(a, s.skip(n as int)) {
            Parsed::Done(b, m) => Parsed::Done(b, n + m),
            Parsed::Fail(e) => Parsed::Fail(e),
            Parsed::Abort => Parsed::Abort,
        },
        Parsed::Fail(e) => Parsed::Fail(e),
        Parsed::Abort => Parsed::Abort,
    }
}

/// The big-endian value of two bytes.
pub open spec fn be_u16(b0: u8, b1: u8) -> u16 {
    (b0 as int * 256 + b1 as int) as u16
}

/// The big-endian value of four bytes.
pub open spec fn be_u32(b0: u8, b1: u8, b2: u8, b3: u8) -> u32 {
    (b0 as int * 16777216 + b1 as int * 65536 + b2 as int * 256 + b3 as int) as u32
}

/// A cursor over a byte slice: `bytes[index..]` is what is left to read.
pub struct ReadContext<'a> {
    pub bytes: &'a [u8],
    pub index: usize,
}

impl<'a> ReadContext<'a> {
    /// The bytes that are left to read.
    pub open spec fn rest(&self) -> Seq<u8> {
        self.bytes@.skip(self.index as int)
    }

    pub open spec fn wf(&self) -> bool {
        self.index <= self.bytes@.len()
    }

    /// A cursor at the start of `bytes`, for big-endian values (the only order of class files).
    pub fn big_endian(bytes: &'a [u8]) -> (r: ReadContext<'a>)
        ensures
            r.bytes@ == bytes@,
            r.index == 0,
            r.wf(),
    {
        ReadContext { bytes, index: 0 }
    }

    /// The same cursor, borrowed again: reading through it moves this one.
    pub fn copy(&mut self) -> (r: &mut ReadContext<'a>)
        ensures
            *r == *old(self),
            *final(self) == *final(r),
    {
        self
    }

    /// The slice and the position, taken apart: moving the position moves this cursor.
    pub fn paired(&mut self) -> (r: (&'a [u8], &mut usize))
        ensures
            r.0@ == old(self).bytes@,
            *r.1 == old(self).index,
            final(self).bytes@ == old(self).bytes@,
            final(self).index == *final(r.1),
    {
        (self.bytes, &mut self.index)
    }

    /// Reads one value of type `T` and moves past it.
    pub fn read<T: FromReadContext>(&mut self) -> (r: AsmResult<T>)
        requires
            old(self).wf(),
            !(T::spec_read(old(self).rest()) is Abort),
        ensures
            final(self).wf(),
            final(self).bytes@ == old(self).bytes@,
            read_result::<T>(T::spec_read(old(self).rest()), r, old(self).index, final(self).index),
    {
        T::from_context(self)
    }

    /// Reads `vec_size` values of type `T` one after another.
    pub fn read_vec<T: FromReadContext>(&mut self, vec_size: usize) -> (r: AsmResult<Vec<T>>)
        requires
            old(self).wf(),
            !(spec_read_vec::<T>(old(self).rest(), vec_size as nat) is Abort),
        ensures
            final(self).wf(),
            final(self).bytes@ == old(self).bytes@,
            read_result::<Vec<T>>(
                spec_read_vec::<T>(old(self).rest(), vec_size as nat),
                r,
                old(self).index,
                final(self).index,
            ),
    {
        let ghost s = self.rest();
        let ghost start = self.index;
        let mut vec: Vec<T> = Vec::new();
        let mut i: usize = 0;
        proof {
            assert(vec.deep_view() =~= Seq::<<T as DeepView>::V>::empty());
        }
        while i < vec_size
            invariant
                self.wf(),
                self.bytes@ == old(self).bytes@,
                start == old(self).index,
                s == old(self).rest(),
                i <= vec_size,
                self.index >= start,
                spec_read_vec::<T>(s, i as nat) == Parsed::Done(vec.deep_view(), (self.index - start) as nat),
                !(spec_read_vec::<T>(s, vec_size as nat) is Abort),
            decreases vec_size - i,
        {
            proof {
                assert(self.rest() == s.skip(self.index - start));
                lemma_read_vec_step::<T>(s, i as nat);
                if T::spec_read(self.rest()) is Abort {
                    lemma_read_vec_stuck::<T>(s, (i + 1) as nat, vec_size as nat);
                }
            }
            let item = T::from_context(self);
            match item {
                Ok(v) => {
                    let ghost old_vec = vec.deep_view();
                    vec.push(v);
                    proof {
                        assert(vec.deep_view() =~= old_vec.push(v.deep_view()));
                    }
                }
                Err(e) => {
                    proof {
                        lemma_read_vec_stuck::<T>(s, (i + 1) as nat, vec_size as nat);
                    }
                    return Err(e);
                }
            }
            i = i + 1;
        }
        Ok(vec)
    }
}

/// How an executable read relates to its specification: the same value and the same
/// number of bytes taken, or the same error.
pub open spec fn read_result<T: DeepView>(p: Parsed<T::V>, r: AsmResult<T>, before: usize, after: usize) -> bool {
    match p {
        Parsed::Done(v, n) => r matches Ok(x) && x.deep_view() == v && after == before + n,
        Parsed::Fail(e) => r == Err::<T, AsmErr>(e),
        Parsed::Abort => false,
    }
}

/// How a read that stops where the reader would panic relates to its specification: it
/// gives `None` exactly there.
pub open spec fn read_option<T: DeepView>(p: Parsed<T::V>, r: Option<AsmResult<T>>, before: usize, after: usize) -> bool {
    match p {
        Parsed::Abort => r is None,
        _ => r matches Some(x) && read_result::<T>(p, x, before, after),
    }
}

/// A value that can be read from the front of a byte sequence.
pub trait FromReadContext: Sized + DeepView {
    /// What reading a value from the front of `s` gives.
    spec fn spec_read(s: Seq<u8>) -> Parsed<<Self as DeepView>::V>;

    /// A successful read takes no more bytes than there are.
    proof fn lemma_read_len(s: Seq<u8>)
        ensures
            Self::spec_read(s) matches Parsed::Done(_, n) ==> n <= s.len(),
    ;

    fn from_context(context: &mut ReadContext) -> (r: AsmResult<Self>)
        requires
            old(context).wf(),
            !(Self::spec_read(old(context).rest()) is Abort),
        ensures
            final(context).wf(),
            final(context).bytes@ == old(context).bytes@,
            read_result::<Self>(Self::spec_read(old(context).rest()), r, old(context).index, final(context).index),
    ;
}

/// What reading `n` values of type `T` one after another gives.
pub open spec fn spec_read_vec<T: FromReadContext>(s: Seq<u8>, n: nat) -> Parsed<Seq<<T as DeepView>::V>>
    decreases n,
{
    if n == 0 {
        Parsed::Done(Seq::empty(), 0)
    } else {
        match spec_read_vec::<T>(s, (n - 1) as nat) {
            Parsed::Done(vs, m) => match T::spec_read(s.skip(m as int)) {
                Parsed::Done(v, k) => Parsed::Done(vs.push(v), m + k),
                Parsed::Fail(e) => Parsed::Fail(e),
                Parsed::Abort => Parsed::Abort,
            },
            Parsed::Fail(e) => Parsed::Fail(e),
            Parsed::Abort => Parsed::Abort,
        }
    }
}

/// Reading `n` values takes no more bytes than there are.
pub proof fn lemma_read_vec_len<T: FromReadContext>(s: Seq<u8>, n: nat)
    ensures
        spec_read_vec::<T>(s, n) matches Parsed::Done(vs, m) ==> m <= s.len() && vs.len() == n,
    decreases n,
{
    if n > 0 {
        lemma_read_vec_len::<T>(s, (n - 1) as nat);
        if let Parsed::Done(vs, m) = spec_read_vec::<T>(s, (n - 1) as nat) {
            T::lemma_read_len(s.skip(m as int));
        }
    }
}

/// One more element: reading `i + 1` values is reading `i` and then one more.
pub proof fn lemma_read_vec_step<T: FromReadContext>(s: Seq<u8>, i: nat)
    ensures
        spec_read_vec::<T>(s, i) matches Parsed::Done(vs, m) ==> spec_read_vec::<T>(s, i + 1) == (
        match T::spec_read(s.skip(m as int)) {
            Parsed::Done(v, k) => Parsed::Done(vs.push(v), m + k),
            Parsed::Fail(e) => Parsed::Fail(e),
            Parsed::Abort => Parsed::Abort,
        }),
{
}

/// Once reading a prefix fails or aborts, reading more elements fails or aborts the same way.
pub proof fn lemma_read_vec_stuck<T: FromReadContext>(s: Seq<u8>, i: nat, n: nat)
    requires
        i <= n,
    ensures
        !(spec_read_vec::<T>(s, i) is Done) ==> spec_read_vec::<T>(s, n) == spec_read_vec::<T>(s, i),
    decreases n - i,
{
    if i < n {
        lemma_read_vec_stuck::<T>(s, i, (n - 1) as nat);
    }
}

impl FromReadContext for u8 {
    open spec fn spec_read(s: Seq<u8>) -> Parsed<u8> {
        if s.len() >= 1 {
            Parsed::Done(s[0], 1)
        } else {
            Parsed::Fail(AsmErr::OutOfRange)
        }
    }

    proof fn lemma_read_len(s: Seq<u8>) {
    }

    fn from_context(context: &mut ReadContext) -> (r: AsmResult<u8>) {
        if context.index < context.bytes.len() {
            let b = context.bytes[context.index];
            context.index = context.index + 1;
            Ok(b)
        } else {
            Err(AsmErr::OutOfRange)
        }
    }
}

impl FromReadContext for u16 {
    open spec fn spec_read(s: Seq<u8>) -> Parsed<u16> {
        if s.len() >= 2 {
            Parsed::Done(be_u16(s[0], s[1]), 2)
        } else {
            Parsed::Fail(AsmErr::OutOfRange)
        }
    }

    proof fn lemma_read_len(s: Seq<u8>) {
    }

    fn from_context(context: &mut ReadContext) -> (r: AsmResult<u16>) {
        if context.bytes.len() - context.index >= 2 {
            let b0 = context.bytes[context.index] as u16;
            let b1 = context.bytes[context.index + 1] as u16;
            context.index = context.index + 2;
            Ok(b0 * 256 + b1)
        } else {
            Err(AsmErr::OutOfRange)
        }
    }
}

impl FromReadContext for u32 {
    open spec fn spec_read(s: Seq<u8>) -> Parsed<u32> {
        if s.len() >= 4 {
            Parsed::Done(be_u32(s[0], s[1], s[2], s[3]), 4)
        } else {
            Parsed::Fail(AsmErr::OutOfRange)
        }
    }

    proof fn lemma_read_len(s: Seq<u8>) {
    }

    fn from_context(context: &mut ReadContext) -> (r: AsmResult<u32>) {
        if context.bytes.len() - context.index >= 4 {
            let i = context.index;
            let b0 = context.bytes[i] as u32;
            let b1 = context.bytes[i + 1] as u32;
            let b2 = context.bytes[i + 2] as u32;
            let b3 = context.bytes[i + 3] as u32;
            context.index = i + 4;
            Ok(b0 * 16777216 + b1 * 65536 + b2 * 256 + b3)
        } else {
            Err(AsmErr::OutOfRange)
        }
    }
}

} // verus!
