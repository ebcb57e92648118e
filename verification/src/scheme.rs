//! The interface of a scheme, and the dispatch of packets to it.
//!
//! A scheme provides resources of one type: files, devices, pipes. It
//! serves two classes of operations. Those of the path class take a path
//! and give the number of a new resource; those of the file class work on
//! a resource that is open. A request reaches a scheme as a [`Packet`],
//! whose first word says which operation is asked for.

use crate::bytes::overwrite;
use crate::data::{Packet, Stat, STAT_SIZE};
use crate::error::{Error, Result};
use crate::number::{
    SYS_ARG, SYS_ARG_MSLICE, SYS_ARG_PATH, SYS_ARG_SLICE, SYS_CLASS, SYS_CLASS_FILE,
    SYS_CLASS_PATH, SYS_CLOSE, SYS_DUP, SYS_FEVENT, SYS_FPATH, SYS_FSTAT, SYS_FSYNC,
    SYS_FTRUNCATE, SYS_LSEEK, SYS_MKDIR, SYS_OPEN, SYS_READ, SYS_RET, SYS_RET_FILE, SYS_RMDIR,
    SYS_UNLINK, SYS_WRITE,
};
use vstd::prelude::*;

verus! {

/// The class of an operation: the top field of its number.
#[derive(Copy, Clone, Debug, PartialEq, Eq, Structural)]
pub enum Class {
    /// The operation takes a path.
    Path,
    /// The operation works on an open resource.
    File,
    /// The operation is not one that schemes serve.
    Other,
}

/// The shape of the argument of an operation: the second field of its
/// number.
#[derive(Copy, Clone, Debug, PartialEq, Eq, Structural)]
pub enum Argument {
    /// Plain values.
    Plain,
    /// A region of the caller's memory that the scheme reads.
    Slice,
    /// A region of the caller's memory that the scheme may write.
    MutSlice,
    /// A second path.
    Path,
    /// No shape that is known.
    Other,
}

/// The shape of the result of an operation: the third field of its number.
#[derive(Copy, Clone, Debug, PartialEq, Eq, Structural)]
pub enum Return {
    /// A plain value: a count, a position, a status.
    Plain,
    /// The number of a new resource.
    File,
    /// No shape that is known.
    Other,
}

impl Class {
    /// The class that the number `code` names.
    pub open spec fn of(code: usize) -> Class {
        if code & SYS_CLASS == SYS_CLASS_PATH {
            Class::Path
        } else if code & SYS_CLASS == SYS_CLASS_FILE {
            Class::File
        } else {
            Class::Other
        }
    }

    /// Read the class from the number of an operation.
    pub fn decode(code: usize) -> (class: Class)
        ensures
            class == Class::of(code),
    {
        let field: usize = code & SYS_CLASS;
        if field == SYS_CLASS_PATH {
            Class::Path
        } else if field == SYS_CLASS_FILE {
            Class::File
        } else {
            Class::Other
        }
    }
}

impl Argument {
    /// The shape of argument that the number `code` names.
    pub open spec fn of(code: usize) -> Argument {
        if code & SYS_ARG == 0 {
            Argument::Plain
        } else if code & SYS_ARG == SYS_ARG_SLICE {
            Argument::Slice
        } else if code & SYS_ARG == SYS_ARG_MSLICE {
            Argument::MutSlice
        } else if code & SYS_ARG == SYS_ARG_PATH {
            Argument::Path
        } else {
            Argument::Other
        }
    }

    /// Read the shape of the argument from the number of an operation.
    pub fn decode(code: usize) -> (argument: Argument)
        ensures
            argument == Argument::of(code),
    {
        let field: usize = code & SYS_ARG;
        if field == 0 {
            Argument::Plain
        } else if field == SYS_ARG_SLICE {
            Argument::Slice
        } else if field == SYS_ARG_MSLICE {
            Argument::MutSlice
        } else if field == SYS_ARG_PATH {
            Argument::Path
        } else {
            Argument::Other
        }
    }
}

impl Return {
    /// The shape of result that the number `code` names.
    pub open spec fn of(code: usize) -> Return {
        if code & SYS_RET == 0 {
            Return::Plain
        } else if code & SYS_RET == SYS_RET_FILE {
            Return::File
        } else {
            Return::Other
        }
    }

    /// Read the shape of the result from the number of an operation.
    pub fn decode(code: usize) -> (ret: Return)
        ensures
            ret == Return::of(code),
    {
        let field: usize = code & SYS_RET;
        if field == 0 {
            Return::Plain
        } else if field == SYS_RET_FILE {
            Return::File
        } else {
            Return::Other
        }
    }
}

/// A region of the caller's memory, as the caller names it.
#[derive(Copy, Clone, Debug, PartialEq, Eq, Structural)]
pub struct Region {
    /// Where the region starts.
    pub address: usize,
    /// How many bytes it holds.
    pub len: usize,
}

/// A request to a scheme, with its arguments told apart.
#[derive(Copy, Clone, Debug, PartialEq, Eq, Structural)]
pub enum Call {
    Open { path: Region, flags: usize },
    Mkdir { path: Region, mode: usize },
    Rmdir { path: Region },
    Unlink { path: Region },
    Dup { id: usize },
    Read { id: usize, buffer: Region },
    Write { id: usize, buffer: Region },
    Seek { id: usize, position: usize, whence: usize },
    Fevent { id: usize, flags: usize },
    Fpath { id: usize, buffer: Region },
    Fstat { id: usize, buffer: Region },
    Fsync { id: usize },
    Ftruncate { id: usize, len: usize },
    Close { id: usize },
    /// The packet names no operation that schemes serve.
    Unknown,
}

impl Call {
    /// The request that `packet` carries. A path lies in the region that
    /// the words `b` and `c` name; for a call on a resource, `b` is its
    /// number, and its buffer lies in the region that `c` and `d` name.
    pub open spec fn of(packet: Packet) -> Call {
        let path = Region { address: packet.b, len: packet.c };
        let buffer = Region { address: packet.c, len: packet.d };
        if packet.a == SYS_OPEN {
            Call::Open { path, flags: packet.d }
        } else if packet.a == SYS_MKDIR {
            Call::Mkdir { path, mode: packet.d }
        } else if packet.a == SYS_RMDIR {
            Call::Rmdir { path }
        } else if packet.a == SYS_UNLINK {
            Call::Unlink { path }
        } else if packet.a == SYS_DUP {
            Call::Dup { id: packet.b }
        } else if packet.a == SYS_READ {
            Call::Read { id: packet.b, buffer }
        } else if packet.a == SYS_WRITE {
            Call::Write { id: packet.b, buffer }
        } else if packet.a == SYS_LSEEK {
            Call::Seek { id: packet.b, position: packet.c, whence: packet.d }
        } else if packet.a == SYS_FEVENT {
            Call::Fevent { id: packet.b, flags: packet.c }
        } else if packet.a == SYS_FPATH {
            Call::Fpath { id: packet.b, buffer }
        } else if packet.a == SYS_FSTAT {
            Call::Fstat { id: packet.b, buffer }
        } else if packet.a == SYS_FSYNC {
            Call::Fsync { id: packet.b }
        } else if packet.a == SYS_FTRUNCATE {
            Call::Ftruncate { id: packet.b, len: packet.c }
        } else if packet.a == SYS_CLOSE {
            Call::Close { id: packet.b }
        } else {
            Call::Unknown
        }
    }

    /// The region of the caller's memory that the scheme is shown to serve
    /// the call, if it is shown any.
    pub open spec fn region(self) -> Option<Region> {
        match self {
            Call::Open { path, .. } => Some(path),
            Call::Mkdir { path, .. } => Some(path),
            Call::Rmdir { path } => Some(path),
            Call::Unlink { path } => Some(path),
            Call::Read { buffer, .. } => Some(buffer),
            Call::Write { buffer, .. } => Some(buffer),
            Call::Fpath { buffer, .. } => Some(buffer),
            Call::Fstat { buffer, .. } => Some(buffer),
            _ => None,
        }
    }

    /// The scheme may write to the region that it is shown.
    pub open spec fn writes(self) -> bool {
        self is Read || self is Fpath || self is Fstat
    }

    /// The least length of the region that the call can be served with.
    pub open spec fn least_len(self) -> usize {
        if self is Fstat {
            STAT_SIZE
        } else {
            0
        }
    }

    /// Tell the request that a packet carries.
    pub fn decode(packet: &Packet) -> (call: Call)
        ensures
            call == Call::of(*packet),
    {
        let path = Region { address: packet.b, len: packet.c };
        let buffer = Region { address: packet.c, len: packet.d };
        if packet.a == SYS_OPEN {
            Call::Open { path, flags: packet.d }
        } else if packet.a == SYS_MKDIR {
            Call::Mkdir { path, mode: packet.d }
        } else if packet.a == SYS_RMDIR {
            Call::Rmdir { path }
        } else if packet.a == SYS_UNLINK {
            Call::Unlink { path }
        } else if packet.a == SYS_DUP {
            Call::Dup { id: packet.b }
        } else if packet.a == SYS_READ {
            Call::Read { id: packet.b, buffer }
        } else if packet.a == SYS_WRITE {
            Call::Write { id: packet.b, buffer }
        } else if packet.a == SYS_LSEEK {
            Call::Seek { id: packet.b, position: packet.c, whence: packet.d }
        } else if packet.a == SYS_FEVENT {
            Call::Fevent { id: packet.b, flags: packet.c }
        } else if packet.a == SYS_FPATH {
            Call::Fpath { id: packet.b, buffer }
        } else if packet.a == SYS_FSTAT {
            Call::Fstat { id: packet.b, buffer }
        } else if packet.a == SYS_FSYNC {
            Call::Fsync { id: packet.b }
        } else if packet.a == SYS_FTRUNCATE {
            Call::Ftruncate { id: packet.b, len: packet.c }
        } else if packet.a == SYS_CLOSE {
            Call::Close { id: packet.b }
        } else {
            Call::Unknown
        }
    }

    /// The region of the caller's memory that the scheme must be shown.
    pub fn view(&self) -> (region: Option<Region>)
        ensures
            region == self.region(),
    {
        match self {
            Call::Open { path, .. } => Some(*path),
            Call::Mkdir { path, .. } => Some(*path),
            Call::Rmdir { path } => Some(*path),
            Call::Unlink { path } => Some(*path),
            Call::Read { buffer, .. } => Some(*buffer),
            Call::Write { buffer, .. } => Some(*buffer),
            Call::Fpath { buffer, .. } => Some(*buffer),
            Call::Fstat { buffer, .. } => Some(*buffer),
            _ => None,
        }
    }

    /// Whether what the scheme leaves in the region goes back to the
    /// caller.
    pub fn is_written(&self) -> (r: bool)
        ensures
            r == self.writes(),
    {
        match self {
            Call::Read { .. } => true,
            Call::Fpath { .. } => true,
            Call::Fstat { .. } => true,
            _ => false,
        }
    }

    /// Whether a region of `len` bytes is enough to serve the call.
    pub fn fits(&self, len: usize) -> (r: bool)
        ensures
            r == (len >= self.least_len()),
    {
        match self {
            Call::Fstat { .. } => len >= STAT_SIZE,
            _ => true,
        }
    }
}

/// A provider of resources.
///
/// A scheme implements the operations that it backs. Each of the others
/// fails as its class does: an operation on a path with
/// [`Error::NotFound`], an operation on a resource with
/// [`Error::BadDescriptor`].
pub trait Scheme {
    /// Serve the request that `packet` carries, and leave in `packet.a` the
    /// word that stands for the result.
    ///
    /// `view` is the region of the caller's memory that the request names
    /// (see [`Call::region`]), or empty where it names none. It is formed
    /// by whoever owns the caller's address space, who also sees to it
    /// that the region lies inside that space and can hold what the call
    /// exchanges: nothing of that is checked here.
    ///
    /// One method of the scheme is called, with the arguments of the
    /// request and with the view, and the word left in `packet.a` stands
    /// for what it returned. A view that the scheme only reads stays as it
    /// was. For `fstat`, the scheme is shown the record at the front of the
    /// view, and what it leaves of the record is written back there. A
    /// request that is not known is answered by [`Error::NotSupported`].
    fn handle(&self, packet: &mut Packet, view: &mut [u8])
        requires
            old(view)@.len() >= Call::of(*old(packet)).least_len(),
        ensures
            *final(packet) == (Packet { a: final(packet).a, ..*old(packet) }),
            final(view)@.len() == old(view)@.len(),
            !Call::of(*old(packet)).writes() ==> final(view)@ == old(view)@,
            Call::of(*old(packet)) is Unknown ==> final(packet).a == Error::NotSupported.word(),
            Call::of(*old(packet)) matches Call::Open { flags, .. } ==> exists|
                result: Result<usize>,
                path: &[u8],
            |
                path@ == old(view)@ && call_ensures(Self::open, (self, path, flags), result)
                    && final(packet).a == Error::muxed(result),
            Call::of(*old(packet)) matches Call::Mkdir { mode, .. } ==> exists|
                result: Result<usize>,
                path: &[u8],
            |
                path@ == old(view)@ && call_ensures(Self::mkdir, (self, path, mode), result)
                    && final(packet).a == Error::muxed(result),
            Call::of(*old(packet)) matches Call::Rmdir { .. } ==> exists|
                result: Result<usize>,
                path: &[u8],
            |
                path@ == old(view)@ && call_ensures(Self::rmdir, (self, path), result)
                    && final(packet).a == Error::muxed(result),
            Call::of(*old(packet)) matches Call::Unlink { .. } ==> exists|
                result: Result<usize>,
                path: &[u8],
            |
                path@ == old(view)@ && call_ensures(Self::unlink, (self, path), result)
                    && final(packet).a == Error::muxed(result),
            Call::of(*old(packet)) matches Call::Dup { id } ==> exists|
                result: Result<usize>,
            |
                call_ensures(Self::dup, (self, id), result) && final(packet).a
                    == Error::muxed(result),
            Call::of(*old(packet)) matches Call::Write { id, .. } ==> exists|
                result: Result<usize>,
                buf: &[u8],
            |
                buf@ == old(view)@ && call_ensures(Self::write, (self, id, buf), result)
                    && final(packet).a == Error::muxed(result),
            Call::of(*old(packet)) matches Call::Seek { id, position, whence } ==> exists|
                result: Result<usize>,
            |
                call_ensures(Self::seek, (self, id, position, whence), result) && final(packet).a
                    == Error::muxed(result),
            Call::of(*old(packet)) matches Call::Fevent { id, flags } ==> exists|
                result: Result<usize>,
            |
                call_ensures(Self::fevent, (self, id, flags), result) && final(packet).a
                    == Error::muxed(result),
            Call::of(*old(packet)) matches Call::Fsync { id } ==> exists|
                result: Result<usize>,
            |
                call_ensures(Self::fsync, (self, id), result) && final(packet).a
                    == Error::muxed(result),
            Call::of(*old(packet)) matches Call::Ftruncate { id, len } ==> exists|
                result: Result<usize>,
            |
                call_ensures(Self::ftruncate, (self, id, len), result) && final(packet).a
                    == Error::muxed(result),
            Call::of(*old(packet)) matches Call::Close { id } ==> exists|
                result: Result<usize>,
            |
                call_ensures(Self::close, (self, id), result) && final(packet).a
                    == Error::muxed(result),
            Call::of(*old(packet)) matches Call::Read { id, .. } ==> exists|
                result: Result<usize>,
                buf: &mut [u8],
            |
                buf@ == old(view)@ && final(buf)@ == final(view)@ && call_ensures(
                    Self::read,
                    (self, id, buf),
                    result,
                ) && final(packet).a == Error::muxed(result),
            Call::of(*old(packet)) matches Call::Fpath { id, .. } ==> exists|
                result: Result<usize>,
                buf: &mut [u8],
            |
                buf@ == old(view)@ && final(buf)@ == final(view)@ && call_ensures(
                    Self::fpath,
                    (self, id, buf),
                    result,
                ) && final(packet).a == Error::muxed(result),
            Call::of(*old(packet)) matches Call::Fstat { id, .. } ==> exists|
                result: Result<usize>,
                stat: &mut Stat,
            |
                *stat == Stat::decoded(old(view)@) && final(view)@ == final(stat).encoded() + old(
                    view,
                )@.skip(STAT_SIZE as int) && call_ensures(Self::fstat, (self, id, stat), result)
                    && final(packet).a == Error::muxed(result),
    {
        let result = match Call::decode(packet) {
            Call::Open { flags, .. } => self.open(view, flags),
            Call::Mkdir { mode, .. } => self.mkdir(view, mode),
            Call::Rmdir { .. } => self.rmdir(view),
            Call::Unlink { .. } => self.unlink(view),
            Call::Dup { id } => self.dup(id),
            Call::Read { id, .. } => self.read(id, view),
            Call::Write { id, .. } => self.write(id, view),
            Call::Seek { id, position, whence } => self.seek(id, position, whence),
            Call::Fevent { id, flags } => self.fevent(id, flags),
            Call::Fpath { id, .. } => self.fpath(id, view),
            Call::Fstat { id, .. } => {
                let mut stat = Stat::read(view);
                let result = self.fstat(id, &mut stat);
                overwrite(view, stat.to_bytes().as_slice());
                result
            },
            Call::Fsync { id } => self.fsync(id),
            Call::Ftruncate { id, len } => self.ftruncate(id, len),
            Call::Close { id } => self.close(id),
            Call::Unknown => Err(Error::NotSupported),
        };
        packet.a = Error::mux(result);
    }

    /// Open the resource at `path`, and give its number.
    fn open(&self, path: &[u8], flags: usize) -> (result: Result<usize>)
        default_ensures
            result == Err::<usize, Error>(Error::NotFound),
    {
        Err(Error::NotFound)
    }

    /// Make a directory at `path`.
    fn mkdir(&self, path: &[u8], mode: usize) -> (result: Result<usize>)
        default_ensures
            result == Err::<usize, Error>(Error::NotFound),
    {
        Err(Error::NotFound)
    }

    /// Remove the directory at `path`.
    fn rmdir(&self, path: &[u8]) -> (result: Result<usize>)
        default_ensures
            result == Err::<usize, Error>(Error::NotFound),
    {
        Err(Error::NotFound)
    }

    /// Remove the file at `path`.
    fn unlink(&self, path: &[u8]) -> (result: Result<usize>)
        default_ensures
            result == Err::<usize, Error>(Error::NotFound),
    {
        Err(Error::NotFound)
    }

    /// Open the resource `old_id` once more, and give the new number.
    fn dup(&self, old_id: usize) -> (result: Result<usize>)
        default_ensures
            result == Err::<usize, Error>(Error::BadDescriptor),
    {
        Err(Error::BadDescriptor)
    }

    /// Read from the resource `id` into `buf`, and give the number of bytes
    /// read. A slice keeps its length, whatever is written to it.
    fn read(&self, id: usize, buf: &mut [u8]) -> (result: Result<usize>)
        ensures
            final(buf)@.len() == old(buf)@.len(),
        default_ensures
            result == Err::<usize, Error>(Error::BadDescriptor),
            final(buf)@ == old(buf)@,
    {
        Err(Error::BadDescriptor)
    }

    /// Write `buf` to the resource `id`, and give the number of bytes
    /// written.
    fn write(&self, id: usize, buf: &[u8]) -> (result: Result<usize>)
        default_ensures
            result == Err::<usize, Error>(Error::BadDescriptor),
    {
        Err(Error::BadDescriptor)
    }

    /// Move the position of the resource `id`, and give the new position.
    fn seek(&self, id: usize, pos: usize, whence: usize) -> (result: Result<usize>)
        default_ensures
            result == Err::<usize, Error>(Error::BadDescriptor),
    {
        Err(Error::BadDescriptor)
    }

    /// Say which events of the resource `id` the caller waits for.
    fn fevent(&self, id: usize, flags: usize) -> (result: Result<usize>)
        default_ensures
            result == Err::<usize, Error>(Error::BadDescriptor),
    {
        Err(Error::BadDescriptor)
    }

    /// Write the path of the resource `id` into `buf`, and give its length.
    /// A slice keeps its length, whatever is written to it.
    fn fpath(&self, id: usize, buf: &mut [u8]) -> (result: Result<usize>)
        ensures
            final(buf)@.len() == old(buf)@.len(),
        default_ensures
            result == Err::<usize, Error>(Error::BadDescriptor),
            final(buf)@ == old(buf)@,
    {
        Err(Error::BadDescriptor)
    }

    /// Describe the resource `id` in `stat`.
    fn fstat(&self, id: usize, stat: &mut Stat) -> (result: Result<usize>)
        default_ensures
            result == Err::<usize, Error>(Error::BadDescriptor),
            *final(stat) == *old(stat),
    {
        Err(Error::BadDescriptor)
    }

    /// Bring what backs the resource `id` up to date.
    fn fsync(&self, id: usize) -> (result: Result<usize>)
        default_ensures
            result == Err::<usize, Error>(Error::BadDescriptor),
    {
        Err(Error::BadDescriptor)
    }

    /// Cut or extend the resource `id` to the length `len`.
    fn ftruncate(&self, id: usize, len: usize) -> (result: Result<usize>)
        default_ensures
            result == Err::<usize, Error>(Error::BadDescriptor),
    {
        Err(Error::BadDescriptor)
    }

    /// Close the resource `id`.
    fn close(&self, id: usize) -> (result: Result<usize>)
        default_ensures
            result == Err::<usize, Error>(Error::BadDescriptor),
    {
        Err(Error::BadDescriptor)
    }
}

impl Call {
    /// The call takes a path.
    pub open spec fn on_path(self) -> bool {
        self is Open || self is Mkdir || self is Rmdir || self is Unlink
    }

    /// The call works on an open resource.
    pub open spec fn on_resource(self) -> bool {
        !self.on_path() && !(self is Unknown)
    }

    /// The call gives the number of a new resource.
    pub open spec fn gives_resource(self) -> bool {
        self is Open || self is Dup
    }
}

/// The fields in the number of an operation say how its packet is read: the
/// class, whether it carries a path or the number of a resource; the shape
/// of the argument, whether the scheme is shown a region to read or one to
/// write; the shape of the result, whether a new resource comes back. A
/// number of neither class names no operation.
pub proof fn lemma_fields_describe_call(packet: Packet)
    ensures
        ({
            let call = Call::of(packet);
            &&& call.on_path() ==> Class::of(packet.a) == Class::Path
            &&& call.on_resource() ==> Class::of(packet.a) == Class::File
            &&& Class::of(packet.a) == Class::Other ==> call is Unknown
            &&& !(call is Unknown) ==> (Argument::of(packet.a) == Argument::MutSlice
                <==> call.writes())
            &&& !(call is Unknown) ==> (Argument::of(packet.a) == Argument::Slice <==> call is Write)
            &&& !(call is Unknown) ==> (Return::of(packet.a) == Return::File
                <==> call.gives_resource())
            &&& !(call is Unknown) ==> Argument::of(packet.a) != Argument::Other && Return::of(
                packet.a,
            ) != Return::Other
        }),
{
    assert(0x1010_0005usize & 0xF000_0000usize == 0x1000_0000usize && 0x1010_0005usize & 0x0F00_0000usize
        == 0x0000_0000usize && 0x1010_0005usize & 0x00F0_0000usize == 0x0010_0000usize) by (bit_vector);
    assert(0x1000_0027usize & 0xF000_0000usize == 0x1000_0000usize && 0x1000_0027usize & 0x0F00_0000usize
        == 0x0000_0000usize && 0x1000_0027usize & 0x00F0_0000usize == 0x0000_0000usize) by (bit_vector);
    assert(0x1000_0054usize & 0xF000_0000usize == 0x1000_0000usize && 0x1000_0054usize & 0x0F00_0000usize
        == 0x0000_0000usize && 0x1000_0054usize & 0x00F0_0000usize == 0x0000_0000usize) by (bit_vector);
    assert(0x1000_000Ausize & 0xF000_0000usize == 0x1000_0000usize && 0x1000_000Ausize & 0x0F00_0000usize
        == 0x0000_0000usize && 0x1000_000Ausize & 0x00F0_0000usize == 0x0000_0000usize) by (bit_vector);
    assert(0x2000_0006usize & 0xF000_0000usize == 0x2000_0000usize && 0x2000_0006usize & 0x0F00_0000usize
        == 0x0000_0000usize && 0x2000_0006usize & 0x00F0_0000usize == 0x0000_0000usize) by (bit_vector);
    assert(0x2010_0029usize & 0xF000_0000usize == 0x2000_0000usize && 0x2010_0029usize & 0x0F00_0000usize
        == 0x0000_0000usize && 0x2010_0029usize & 0x00F0_0000usize == 0x0010_0000usize) by (bit_vector);
    assert(0x2200_0003usize & 0xF000_0000usize == 0x2000_0000usize && 0x2200_0003usize & 0x0F00_0000usize
        == 0x0200_0000usize && 0x2200_0003usize & 0x00F0_0000usize == 0x0000_0000usize) by (bit_vector);
    assert(0x2100_0004usize & 0xF000_0000usize == 0x2000_0000usize && 0x2100_0004usize & 0x0F00_0000usize
        == 0x0100_0000usize && 0x2100_0004usize & 0x00F0_0000usize == 0x0000_0000usize) by (bit_vector);
    assert(0x2000_039Fusize & 0xF000_0000usize == 0x2000_0000usize && 0x2000_039Fusize & 0x0F00_0000usize
        == 0x0000_0000usize && 0x2000_039Fusize & 0x00F0_0000usize == 0x0000_0000usize) by (bit_vector);
    assert(0x2000_0013usize & 0xF000_0000usize == 0x2000_0000usize && 0x2000_0013usize & 0x0F00_0000usize
        == 0x0000_0000usize && 0x2000_0013usize & 0x00F0_0000usize == 0x0000_0000usize) by (bit_vector);
    assert(0x2200_03A0usize & 0xF000_0000usize == 0x2000_0000usize && 0x2200_03A0usize & 0x0F00_0000usize
        == 0x0200_0000usize && 0x2200_03A0usize & 0x00F0_0000usize == 0x0000_0000usize) by (bit_vector);
    assert(0x2200_001Cusize & 0xF000_0000usize == 0x2000_0000usize && 0x2200_001Cusize & 0x0F00_0000usize
        == 0x0200_0000usize && 0x2200_001Cusize & 0x00F0_0000usize == 0x0000_0000usize) by (bit_vector);
    assert(0x2000_0076usize & 0xF000_0000usize == 0x2000_0000usize && 0x2000_0076usize & 0x0F00_0000usize
        == 0x0000_0000usize && 0x2000_0076usize & 0x00F0_0000usize == 0x0000_0000usize) by (bit_vector);
    assert(0x2000_005Dusize & 0xF000_0000usize == 0x2000_0000usize && 0x2000_005Dusize & 0x0F00_0000usize
        == 0x0000_0000usize && 0x2000_005Dusize & 0x00F0_0000usize == 0x0000_0000usize) by (bit_vector);
}

} // verus!
