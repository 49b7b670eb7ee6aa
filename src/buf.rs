use vstd::prelude::*;

verus! {

/// A length as the kernel interface takes it: capped at `u32::MAX`.
pub open spec fn clamp_u32(n: nat) -> u32 {
    if n <= u32::MAX {
        n as u32
    } else {
        u32::MAX
    }
}

fn len_u32(n: usize) -> (r: u32)
    ensures
        r == clamp_u32(n as nat),
{
    if n <= u32::MAX as usize {
        n as u32
    } else {
        u32::MAX
    }
}

/// A byte container that a write-class operation can read from: its bytes
/// stay where they are while the operation owns it.
pub trait IoBuf {
    spec fn bytes_view(&self) -> Seq<u8>;

    /// The valid bytes.
    fn bytes(&self) -> (r: &[u8])
        ensures
            r@ == self.bytes_view(),
    ;

    /// How many bytes are valid.
    fn valid_len(&self) -> (r: u32)
        ensures
            r == clamp_u32(self.bytes_view().len()),
    ;
}

/// A byte container that a read-class operation can fill: the kernel
/// writes into its available bytes, then the transferred length is
/// committed.
pub trait IoBufMut: IoBuf {
    /// The bytes the kernel may write into.
    fn bytes_mut(&mut self) -> (r: &mut [u8])
        ensures
            r@ == old(self).bytes_view(),
            final(self).bytes_view() == final(r)@,
    ;

    /// How many bytes the kernel may write.
    fn available_len(&self) -> (r: u32)
        ensures
            r == clamp_u32(self.bytes_view().len()),
    ;

    /// Keeps the first `size` bytes: the ones the kernel reported written.
    fn set_valid_len(&mut self, size: u32)
        requires
            size <= old(self).bytes_view().len(),
        ensures
            final(self).bytes_view() == old(self).bytes_view().subrange(0, size as int),
    ;
}

impl IoBuf for Vec<u8> {
    open spec fn bytes_view(&self) -> Seq<u8> {
        self@
    }

    fn bytes(&self) -> (r: &[u8]) {
        self.as_slice()
    }

    fn valid_len(&self) -> (r: u32) {
        len_u32(self.len())
    }
}

impl IoBufMut for Vec<u8> {
    fn bytes_mut(&mut self) -> (r: &mut [u8]) {
        self.as_mut_slice()
    }

    fn available_len(&self) -> (r: u32) {
        len_u32(self.len())
    }

    fn set_valid_len(&mut self, size: u32) {
        self.truncate(size as usize);
        assert(self@ =~= old(self)@.subrange(0, size as int));
    }
}

impl IoBuf for Box<[u8]> {
    open spec fn bytes_view(&self) -> Seq<u8> {
        (**self)@
    }

    fn bytes(&self) -> (r: &[u8]) {
        &**self
    }

    fn valid_len(&self) -> (r: u32) {
        len_u32((**self).len())
    }
}

impl IoBuf for &'static [u8] {
    open spec fn bytes_view(&self) -> Seq<u8> {
        (**self)@
    }

    fn bytes(&self) -> (r: &[u8]) {
        *self
    }

    fn valid_len(&self) -> (r: u32) {
        len_u32(self.len())
    }
}

} // verus!
