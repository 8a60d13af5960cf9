use vstd::prelude::*;

verus! {

/// The bytes written so far.
pub struct WriteContext {
    pub bytes: Vec<u8>,
}

impl WriteContext {
    /// The bytes written so far, to append to.
    pub fn bytes(&mut self) -> (r: &mut Vec<u8>)
        ensures
            *r == old(self).bytes,
            final(self).bytes == *final(r),
    {
        &mut self.bytes
    }

    /// Appends the encoding of `from`.
    pub fn push<T: FromWriteContext>(&mut self, from: &T)
        ensures
            final(self).bytes@ == old(self).bytes@ + T::spec_write(from.deep_view()),
    {
        T::into_context(self, from)
    }
}

/// A value that can be written as bytes.
pub trait FromWriteContext: Sized + DeepView {
    /// The bytes that encode `v`.
    spec fn spec_write(v: <Self as DeepView>::V) -> Seq<u8>;

    fn into_context(context: &mut WriteContext, from: &Self)
        ensures
            final(context).bytes@ == old(context).bytes@ + Self::spec_write(from.deep_view()),
    ;
}

/// The big-endian bytes of a `u16`.
pub open spec fn u16_bytes(v: u16) -> Seq<u8> {
    seq![(v / 256) as u8, (v % 256) as u8]
}

/// The big-endian bytes of a `u32`.
pub open spec fn u32_bytes(v: u32) -> Seq<u8> {
    seq![(v / 16777216) as u8, (v / 65536 % 256) as u8, (v / 256 % 256) as u8, (v % 256) as u8]
}

impl FromWriteContext for u8 {
    open spec fn spec_write(v: u8) -> Seq<u8> {
        seq![v]
    }

    fn into_context(context: &mut WriteContext, from: &u8) {
        context.bytes.push(*from);
    }
}

impl FromWriteContext for u16 {
    open spec fn spec_write(v: u16) -> Seq<u8> {
        u16_bytes(v)
    }

    fn into_context(context: &mut WriteContext, from: &u16) {
        let v = *from;
        context.bytes.push((v / 256) as u8);
        context.bytes.push((v % 256) as u8);
    }
}

impl FromWriteContext for u32 {
    open spec fn spec_write(v: u32) -> Seq<u8> {
        u32_bytes(v)
    }

    fn into_context(context: &mut WriteContext, from: &u32) {
        let v = *from;
        context.bytes.push((v / 16777216) as u8);
        context.bytes.push((v / 65536 % 256) as u8);
        context.bytes.push((v / 256 % 256) as u8);
        context.bytes.push((v % 256) as u8);
    }
}

/// The bytes of the values of `vs`, one after another.
pub open spec fn spec_write_vec<T: FromWriteContext>(vs: Seq<<T as DeepView>::V>) -> Seq<u8>
    decreases vs.len(),
{
    if vs.len() == 0 {
        Seq::empty()
    } else {
        spec_write_vec::<T>(vs.drop_last()) + T::spec_write(vs.last())
    }
}

impl<T: FromWriteContext> FromWriteContext for Vec<T> {
    open spec fn spec_write(v: Seq<<T as DeepView>::V>) -> Seq<u8> {
        spec_write_vec::<T>(v)
    }

    fn into_context(context: &mut WriteContext, from: &Vec<T>) {
        let ghost start = context.bytes@;
        let mut i: usize = 0;
        while i < from.len()
            invariant
                i <= from.len(),
                context.bytes@ == start + spec_write_vec::<T>(from.deep_view().take(i as int)),
            decreases from.len() - i,
        {
            T::into_context(context, &from[i]);
            proof {
                let dv = from.deep_view();
                assert(dv.take(i + 1).drop_last() =~= dv.take(i as int));
                assert(dv.take(i + 1).last() == from[i as int].deep_view());
            }
            i = i + 1;
        }
        proof {
            assert(from.deep_view().take(from.len() as int) =~= from.deep_view());
        }
    }
}

} // verus!
