use kernel::data::{Packet, Stat, STAT_SIZE};
use kernel::error::{Error, Result, EBADF, ENOENT, ENOSYS};
use kernel::number::{
    SYS_CLOSE, SYS_DUP, SYS_FEVENT, SYS_FPATH, SYS_FSTAT, SYS_FSYNC, SYS_FTRUNCATE, SYS_LINK,
    SYS_LSEEK, SYS_MKDIR, SYS_OPEN, SYS_READ, SYS_RMDIR, SYS_UNLINK, SYS_WRITE, SYS_YIELD,
};
use kernel::scheme::{Argument, Call, Class, Region, Return, Scheme};

/// Backs `open` and `read` only.
struct Hello;

impl Scheme for Hello {
    fn open(&self, path: &[u8], flags: usize) -> Result<usize> {
        if path == b"hello" {
            Ok(40 + flags)
        } else {
            Err(Error::NotFound)
        }
    }

    fn read(&self, id: usize, buf: &mut [u8]) -> Result<usize> {
        if id != 42 {
            return Err(Error::BadDescriptor);
        }
        let text = b"world";
        let n = text.len().min(buf.len());
        buf[..n].copy_from_slice(&text[..n]);
        Ok(n)
    }
}

/// Backs everything, and answers with a number made of its arguments.
struct Echo;

impl Scheme for Echo {
    fn open(&self, path: &[u8], flags: usize) -> Result<usize> {
        Ok(1000 + path.len() * 10 + flags)
    }

    fn mkdir(&self, path: &[u8], mode: usize) -> Result<usize> {
        Ok(2000 + path.len() * 10 + mode)
    }

    fn rmdir(&self, path: &[u8]) -> Result<usize> {
        Ok(3000 + path.len())
    }

    fn unlink(&self, path: &[u8]) -> Result<usize> {
        Ok(4000 + path.len())
    }

    fn dup(&self, old_id: usize) -> Result<usize> {
        Ok(5000 + old_id)
    }

    fn write(&self, id: usize, buf: &[u8]) -> Result<usize> {
        Ok(6000 + id * 10 + buf.len())
    }

    fn seek(&self, id: usize, pos: usize, whence: usize) -> Result<usize> {
        Ok(7000 + id * 100 + pos * 10 + whence)
    }

    fn fevent(&self, id: usize, flags: usize) -> Result<usize> {
        Ok(8000 + id * 10 + flags)
    }

    fn fpath(&self, id: usize, buf: &mut [u8]) -> Result<usize> {
        for byte in buf.iter_mut() {
            *byte = b'p';
        }
        Ok(9000 + id)
    }

    fn fstat(&self, id: usize, stat: &mut Stat) -> Result<usize> {
        stat.st_size += 1;
        stat.st_mode = 0o644;
        Ok(10000 + id)
    }

    fn fsync(&self, id: usize) -> Result<usize> {
        Ok(11000 + id)
    }

    fn ftruncate(&self, id: usize, len: usize) -> Result<usize> {
        Ok(12000 + id * 10 + len)
    }

    fn close(&self, id: usize) -> Result<usize> {
        Ok(13000 + id)
    }
}

fn packet(a: usize, b: usize, c: usize, d: usize) -> Packet {
    Packet { id: 9, pid: 8, uid: 7, gid: 6, a, b, c, d }
}

fn word(error: Error) -> usize {
    Error::mux(Err(error))
}

#[test]
fn dispatch_round_trip() {
    let scheme = Hello;

    let mut view = b"hello".to_vec();
    let mut open = packet(SYS_OPEN, 0x1000, 5, 2);
    scheme.handle(&mut open, &mut view);
    assert_eq!(open.a, 42);
    assert_eq!(Error::demux(open.a), Ok(42));
    assert_eq!(view, b"hello".to_vec());

    let mut mkdir = packet(SYS_MKDIR, 0x1000, 5, 0);
    scheme.handle(&mut mkdir, &mut view);
    assert_eq!(mkdir.a, ENOENT.wrapping_neg());
    assert_eq!(Error::demux(mkdir.a), Err(Error::NotFound));

    let mut buffer = vec![0u8; 8];
    let mut read = packet(SYS_READ, 99, 0x2000, 8);
    scheme.handle(&mut read, &mut buffer);
    assert_eq!(read.a, EBADF.wrapping_neg());
    assert_eq!(Error::demux(read.a), Err(Error::BadDescriptor));
    assert_eq!(buffer, vec![0u8; 8]);

    let mut read = packet(SYS_READ, 42, 0x2000, 8);
    scheme.handle(&mut read, &mut buffer);
    assert_eq!(read.a, 5);
    assert_eq!(buffer, b"world\0\0\0".to_vec());
}

#[test]
fn missing_path_is_not_found() {
    let scheme = Hello;
    let mut view = b"nothing".to_vec();
    let mut open = packet(SYS_OPEN, 0x1000, 7, 0);
    scheme.handle(&mut open, &mut view);
    assert_eq!(Error::demux(open.a), Err(Error::NotFound));
}

#[test]
fn handle_changes_only_the_first_word() {
    let scheme = Hello;
    let mut view = b"hello".to_vec();
    let mut open = packet(SYS_OPEN, 0x1000, 5, 2);
    scheme.handle(&mut open, &mut view);
    assert_eq!(open, Packet { id: 9, pid: 8, uid: 7, gid: 6, a: 42, b: 0x1000, c: 5, d: 2 });
}

#[test]
fn unknown_operations_are_not_supported() {
    let scheme = Echo;
    let mut view: Vec<u8> = Vec::new();
    for code in [0, 1, SYS_YIELD, SYS_LINK, SYS_OPEN + 1, usize::MAX, 0x1000_0000, 0x2000_0000] {
        let mut request = packet(code, 1, 2, 3);
        scheme.handle(&mut request, &mut view);
        assert_eq!(request.a, ENOSYS.wrapping_neg());
        assert_eq!(Error::demux(request.a), Err(Error::NotSupported));
    }
}

#[test]
fn unimplemented_operations_fail_by_class() {
    let scheme = Hello;
    let mut view = vec![0u8; STAT_SIZE];
    for code in [SYS_MKDIR, SYS_RMDIR, SYS_UNLINK] {
        let mut request = packet(code, 1, 2, 3);
        scheme.handle(&mut request, &mut view);
        assert_eq!(request.a, word(Error::NotFound));
    }
    for code in [
        SYS_DUP,
        SYS_WRITE,
        SYS_LSEEK,
        SYS_FEVENT,
        SYS_FPATH,
        SYS_FSTAT,
        SYS_FSYNC,
        SYS_FTRUNCATE,
        SYS_CLOSE,
    ] {
        let mut request = packet(code, 1, 2, 3);
        scheme.handle(&mut request, &mut view);
        assert_eq!(request.a, word(Error::BadDescriptor));
        assert_eq!(view, vec![0u8; STAT_SIZE]);
    }
}

#[test]
fn every_operation_gets_its_arguments() {
    let scheme = Echo;
    let cases: [(usize, usize, usize, usize, usize); 11] = [
        (SYS_OPEN, 0x1000, 3, 7, 1037),
        (SYS_MKDIR, 0x1000, 3, 5, 2035),
        (SYS_RMDIR, 0x1000, 3, 0, 3003),
        (SYS_UNLINK, 0x1000, 3, 0, 4003),
        (SYS_DUP, 4, 0, 0, 5004),
        (SYS_WRITE, 4, 0x1000, 3, 6043),
        (SYS_LSEEK, 4, 5, 6, 7456),
        (SYS_FEVENT, 4, 5, 0, 8045),
        (SYS_FSYNC, 4, 0, 0, 11004),
        (SYS_FTRUNCATE, 4, 5, 0, 12045),
        (SYS_CLOSE, 4, 0, 0, 13004),
    ];
    for (code, b, c, d, expected) in cases {
        let mut view = b"abc".to_vec();
        let mut request = packet(code, b, c, d);
        scheme.handle(&mut request, &mut view);
        assert_eq!(request.a, expected);
        assert_eq!(view, b"abc".to_vec());
    }
}

#[test]
fn fpath_writes_into_the_view() {
    let scheme = Echo;
    let mut view = vec![0u8; 4];
    let mut request = packet(SYS_FPATH, 4, 0x1000, 4);
    scheme.handle(&mut request, &mut view);
    assert_eq!(request.a, 9004);
    assert_eq!(view, b"pppp".to_vec());
}

#[test]
fn fstat_exchanges_the_record_through_the_view() {
    let scheme = Echo;
    let before = Stat { st_mode: 1, st_uid: 2, st_gid: 3, st_size: 4 };
    let mut view = before.to_bytes();
    view.extend_from_slice(b"xy");
    let mut request = packet(SYS_FSTAT, 4, 0x1000, STAT_SIZE + 2);
    scheme.handle(&mut request, &mut view);
    assert_eq!(request.a, 10004);
    assert_eq!(
        Stat::from_bytes(&view),
        Some(Stat { st_mode: 0o644, st_uid: 2, st_gid: 3, st_size: 5 })
    );
    assert_eq!(&view[STAT_SIZE..], b"xy");
}

#[test]
fn decode_tells_the_arguments_apart() {
    let path = Region { address: 10, len: 20 };
    let buffer = Region { address: 20, len: 30 };
    assert_eq!(Call::decode(&packet(SYS_OPEN, 10, 20, 30)), Call::Open { path, flags: 30 });
    assert_eq!(Call::decode(&packet(SYS_MKDIR, 10, 20, 30)), Call::Mkdir { path, mode: 30 });
    assert_eq!(Call::decode(&packet(SYS_RMDIR, 10, 20, 30)), Call::Rmdir { path });
    assert_eq!(Call::decode(&packet(SYS_UNLINK, 10, 20, 30)), Call::Unlink { path });
    assert_eq!(Call::decode(&packet(SYS_DUP, 10, 20, 30)), Call::Dup { id: 10 });
    assert_eq!(Call::decode(&packet(SYS_READ, 10, 20, 30)), Call::Read { id: 10, buffer });
    assert_eq!(Call::decode(&packet(SYS_WRITE, 10, 20, 30)), Call::Write { id: 10, buffer });
    assert_eq!(
        Call::decode(&packet(SYS_LSEEK, 10, 20, 30)),
        Call::Seek { id: 10, position: 20, whence: 30 }
    );
    assert_eq!(Call::decode(&packet(SYS_FEVENT, 10, 20, 30)), Call::Fevent { id: 10, flags: 20 });
    assert_eq!(Call::decode(&packet(SYS_FPATH, 10, 20, 30)), Call::Fpath { id: 10, buffer });
    assert_eq!(Call::decode(&packet(SYS_FSTAT, 10, 20, 30)), Call::Fstat { id: 10, buffer });
    assert_eq!(Call::decode(&packet(SYS_FSYNC, 10, 20, 30)), Call::Fsync { id: 10 });
    assert_eq!(
        Call::decode(&packet(SYS_FTRUNCATE, 10, 20, 30)),
        Call::Ftruncate { id: 10, len: 20 }
    );
    assert_eq!(Call::decode(&packet(SYS_CLOSE, 10, 20, 30)), Call::Close { id: 10 });
    assert_eq!(Call::decode(&packet(SYS_LINK, 10, 20, 30)), Call::Unknown);
    assert_eq!(Call::decode(&packet(0, 10, 20, 30)), Call::Unknown);
}

#[test]
fn views_follow_the_call() {
    let path = Region { address: 10, len: 20 };
    let buffer = Region { address: 20, len: 30 };
    let open = Call::decode(&packet(SYS_OPEN, 10, 20, 30));
    assert_eq!(open.view(), Some(path));
    assert!(!open.is_written());
    assert!(open.fits(0));
    let read = Call::decode(&packet(SYS_READ, 10, 20, 30));
    assert_eq!(read.view(), Some(buffer));
    assert!(read.is_written());
    assert!(read.fits(0));
    let write = Call::decode(&packet(SYS_WRITE, 10, 20, 30));
    assert_eq!(write.view(), Some(buffer));
    assert!(!write.is_written());
    let fstat = Call::decode(&packet(SYS_FSTAT, 10, 20, 30));
    assert_eq!(fstat.view(), Some(buffer));
    assert!(fstat.is_written());
    assert!(fstat.fits(STAT_SIZE));
    assert!(!fstat.fits(STAT_SIZE - 1));
    let close = Call::decode(&packet(SYS_CLOSE, 10, 20, 30));
    assert_eq!(close.view(), None);
    assert!(!close.is_written());
    assert_eq!(Call::Unknown.view(), None);
}

#[test]
fn operation_numbers_carry_their_fields() {
    assert_eq!(SYS_OPEN, 0x1010_0005);
    assert_eq!(SYS_READ, 0x2200_0003);
    assert_eq!(SYS_WRITE, 0x2100_0004);
    assert_eq!(SYS_FPATH, 0x2200_03A0);
    assert_eq!(Class::decode(SYS_OPEN), Class::Path);
    assert_eq!(Class::decode(SYS_LINK), Class::Path);
    assert_eq!(Class::decode(SYS_READ), Class::File);
    assert_eq!(Class::decode(SYS_YIELD), Class::Other);
    assert_eq!(Class::decode(0x3000_0000), Class::Other);
    assert_eq!(Argument::decode(SYS_OPEN), Argument::Plain);
    assert_eq!(Argument::decode(SYS_WRITE), Argument::Slice);
    assert_eq!(Argument::decode(SYS_READ), Argument::MutSlice);
    assert_eq!(Argument::decode(SYS_FSTAT), Argument::MutSlice);
    assert_eq!(Argument::decode(SYS_LINK), Argument::Path);
    assert_eq!(Argument::decode(0x0400_0000), Argument::Other);
    assert_eq!(Return::decode(SYS_OPEN), Return::File);
    assert_eq!(Return::decode(SYS_DUP), Return::File);
    assert_eq!(Return::decode(SYS_READ), Return::Plain);
    assert_eq!(Return::decode(0x0020_0000), Return::Other);
}

#[test]
fn results_travel_in_one_word() {
    assert_eq!(Error::NotFound.errno(), 2);
    assert_eq!(Error::BadDescriptor.errno(), 9);
    assert_eq!(Error::NotSupported.errno(), 38);
    assert_eq!(Error::mux(Ok(0)), 0);
    assert_eq!(Error::mux(Ok(12345)), 12345);
    assert_eq!(Error::mux(Err(Error::NotFound)), usize::MAX - 1);
    assert_eq!(Error::mux(Err(Error::BadDescriptor)), usize::MAX - 8);
    assert_eq!(Error::mux(Err(Error::NotSupported)), usize::MAX - 37);
    assert_eq!(Error::demux(0), Ok(0));
    assert_eq!(Error::demux(12345), Ok(12345));
    assert_eq!(Error::demux(usize::MAX - 1), Err(Error::NotFound));
    assert_eq!(Error::demux(usize::MAX - 8), Err(Error::BadDescriptor));
    assert_eq!(Error::demux(usize::MAX - 37), Err(Error::NotSupported));
    assert_eq!(Error::demux(usize::MAX), Ok(usize::MAX));
}
