use vstd::prelude::*;

use crate::buf::{IoBuf, IoBufMut};
use crate::driver::{queue_entry, Op, OpStage, UringDriver};

verus! {

/// Read into `buf` at the file's current position.
pub struct Read<T> {
    pub fd: i32,
    pub buf: T,
}

/// Read into `buf` at `offset`.
pub struct ReadAt<T> {
    pub fd: i32,
    pub buf: T,
    pub offset: u64,
}

/// Write `buf` at the file's current position.
pub struct Write<T> {
    pub fd: i32,
    pub buf: T,
}

/// Write `buf` at `offset`.
pub struct WriteAt<T> {
    pub fd: i32,
    pub buf: T,
    pub offset: u64,
}

/// Receive into `buf` from a connected socket.
pub struct Recv<T> {
    pub fd: i32,
    pub buf: T,
}

/// Send `buf` on a connected socket.
pub struct Send<T> {
    pub fd: i32,
    pub buf: T,
}

/// Close a descriptor.
pub struct Close {
    pub fd: i32,
}

/// Open `path` (its bytes, without a terminating NUL, holding none).
pub struct Open {
    pub path: Vec<u8>,
    pub flags: i32,
    pub mode: u32,
}

/// Size of the address area an accept fills in.
pub const SOCKADDR_STORAGE_LEN: usize = 128;

/// Accept a connection on a listening socket; the kernel writes the peer's
/// address into `addr` and its length into `addr_len`.
pub struct Accept {
    pub fd: i32,
    pub addr: Vec<u8>,
    pub addr_len: Box<u32>,
}

/// A path with a NUL byte inside cannot be handed to the kernel.
#[derive(Clone, Copy, PartialEq, Eq, Structural, Debug)]
pub struct InteriorNul {
    pub position: usize,
}

fn find_nul(path: &Vec<u8>) -> (r: Option<usize>)
    ensures
        r is None ==> forall|i: int| 0 <= i < path@.len() ==> path@[i] != 0,
        r is Some ==> {
            &&& r->0 < path@.len()
            &&& path@[r->0 as int] == 0
            &&& forall|j: int| 0 <= j < r->0 ==> path@[j] != 0
        },
{
    let mut i: usize = 0;
    while i < path.len()
        invariant
            i <= path@.len(),
            forall|j: int| 0 <= j < i ==> path@[j] != 0,
        decreases path@.len() - i,
    {
        if path[i] == 0 {
            return Some(i);
        }
        i = i + 1;
    }
    None
}

/// The contract shared by every constructor: a fresh id tracked as
/// `Submitted`, and whether the submission side must be flushed first.
pub open spec fn submitted<T>(old_d: UringDriver, new_d: UringDriver, op: Op<T>, flush: bool, data: T) -> bool {
    &&& new_d.wf()
    &&& op.id == old_d.last_id() + 1
    &&& !old_d.table().contains_key(op.id)
    &&& new_d.table() == old_d.table().insert(op.id, OpStage::Submitted)
    &&& op.data == Some(data)
    &&& new_d.last_id() == op.id
    &&& new_d.waiting() == old_d.waiting() + 1
    &&& (new_d.queued(), flush) == queue_entry(old_d.queued(), old_d.capacity())
    &&& new_d.capacity() == old_d.capacity()
}

impl<T: IoBufMut> Op<Read<T>> {
    pub fn read(driver: &mut UringDriver, fd: i32, buf: T) -> (r: (Op<Read<T>>, bool))
        requires
            old(driver).wf(),
            old(driver).last_id() < u64::MAX,
            old(driver).waiting() < usize::MAX,
        ensures
            submitted(*old(driver), *final(driver), r.0, r.1, Read { fd, buf }),
    {
        driver.submit_op(Read { fd, buf })
    }
}

impl<T: IoBufMut> Op<ReadAt<T>> {
    pub fn read_at(driver: &mut UringDriver, fd: i32, buf: T, offset: u64) -> (r: (Op<ReadAt<T>>, bool))
        requires
            old(driver).wf(),
            old(driver).last_id() < u64::MAX,
            old(driver).waiting() < usize::MAX,
        ensures
            submitted(*old(driver), *final(driver), r.0, r.1, ReadAt { fd, buf, offset }),
    {
        driver.submit_op(ReadAt { fd, buf, offset })
    }
}

impl<T: IoBuf> Op<Write<T>> {
    pub fn write(driver: &mut UringDriver, fd: i32, buf: T) -> (r: (Op<Write<T>>, bool))
        requires
            old(driver).wf(),
            old(driver).last_id() < u64::MAX,
            old(driver).waiting() < usize::MAX,
        ensures
            submitted(*old(driver), *final(driver), r.0, r.1, Write { fd, buf }),
    {
        driver.submit_op(Write { fd, buf })
    }
}

impl<T: IoBuf> Op<WriteAt<T>> {
    pub fn write_at(driver: &mut UringDriver, fd: i32, buf: T, offset: u64) -> (r: (Op<WriteAt<T>>, bool))
        requires
            old(driver).wf(),
            old(driver).last_id() < u64::MAX,
            old(driver).waiting() < usize::MAX,
        ensures
            submitted(*old(driver), *final(driver), r.0, r.1, WriteAt { fd, buf, offset }),
    {
        driver.submit_op(WriteAt { fd, buf, offset })
    }
}

impl<T: IoBufMut> Op<Recv<T>> {
    pub fn recv(driver: &mut UringDriver, fd: i32, buf: T) -> (r: (Op<Recv<T>>, bool))
        requires
            old(driver).wf(),
            old(driver).last_id() < u64::MAX,
            old(driver).waiting() < usize::MAX,
        ensures
            submitted(*old(driver), *final(driver), r.0, r.1, Recv { fd, buf }),
    {
        driver.submit_op(Recv { fd, buf })
    }
}

impl<T: IoBuf> Op<Send<T>> {
    pub fn send(driver: &mut UringDriver, fd: i32, buf: T) -> (r: (Op<Send<T>>, bool))
        requires
            old(driver).wf(),
            old(driver).last_id() < u64::MAX,
            old(driver).waiting() < usize::MAX,
        ensures
            submitted(*old(driver), *final(driver), r.0, r.1, Send { fd, buf }),
    {
        driver.submit_op(Send { fd, buf })
    }
}

impl Op<Close> {
    pub fn close(driver: &mut UringDriver, fd: i32) -> (r: (Op<Close>, bool))
        requires
            old(driver).wf(),
            old(driver).last_id() < u64::MAX,
            old(driver).waiting() < usize::MAX,
        ensures
            submitted(*old(driver), *final(driver), r.0, r.1, Close { fd }),
    {
        driver.submit_op(Close { fd })
    }
}

impl Op<Open> {
    /// Opens `path`; a path holding a NUL byte is refused before anything
    /// is submitted, with the position of the first one.
    pub fn open(driver: &mut UringDriver, path: Vec<u8>, flags: i32, mode: u32) -> (r: Result<
        (Op<Open>, bool),
        InteriorNul,
    >)
        requires
            old(driver).wf(),
            old(driver).last_id() < u64::MAX,
            old(driver).waiting() < usize::MAX,
        ensures
            (forall|i: int| 0 <= i < path@.len() ==> path@[i] != 0) ==> r is Ok && submitted(
                *old(driver),
                *final(driver),
                r->Ok_0.0,
                r->Ok_0.1,
                Open { path, flags, mode },
            ),
            (exists|i: int| 0 <= i < path@.len() && path@[i] == 0) ==> {
                &&& r is Err
                &&& path@[r->Err_0.position as int] == 0
                &&& r->Err_0.position < path@.len()
                &&& forall|j: int| 0 <= j < r->Err_0.position ==> path@[j] != 0
                &&& *final(driver) == *old(driver)
            },
    {
        match find_nul(&path) {
            Some(position) => Err(InteriorNul { position }),
            None => Ok(driver.submit_op(Open { path, flags, mode })),
        }
    }
}

impl Op<Accept> {
    /// Accepts on `fd`, with a zeroed address area for the kernel to fill.
    pub fn accept(driver: &mut UringDriver, fd: i32) -> (r: (Op<Accept>, bool))
        requires
            old(driver).wf(),
            old(driver).last_id() < u64::MAX,
            old(driver).waiting() < usize::MAX,
        ensures
            final(driver).wf(),
            r.0.id == old(driver).last_id() + 1,
            !old(driver).table().contains_key(r.0.id),
            final(driver).table() == old(driver).table().insert(r.0.id, OpStage::Submitted),
            r.0.data is Some,
            r.0.data->0.fd == fd,
            r.0.data->0.addr@ == Seq::new(SOCKADDR_STORAGE_LEN as nat, |i: int| 0u8),
            *r.0.data->0.addr_len == SOCKADDR_STORAGE_LEN as u32,
            final(driver).last_id() == r.0.id,
            final(driver).waiting() == old(driver).waiting() + 1,
            (final(driver).queued(), r.1) == queue_entry(old(driver).queued(), old(driver).capacity()),
            final(driver).capacity() == old(driver).capacity(),
    {
        let addr = vec![0u8; SOCKADDR_STORAGE_LEN];
        proof {
            assert(addr@ =~= Seq::new(SOCKADDR_STORAGE_LEN as nat, |i: int| 0u8));
        }
        driver.submit_op(Accept { fd, addr, addr_len: Box::new(SOCKADDR_STORAGE_LEN as u32) })
    }
}

} // verus!
