//! The numbers of the system calls.
//!
//! The number of an operation that a scheme serves is made of four fields:
//! its class in the top four bits of the low 32, then the shape of its
//! argument, then the shape of what it returns, and in the low bits the
//! number that the operation has had traditionally.

use vstd::prelude::*;

verus! {

/// The bits that hold the class of an operation.
pub const SYS_CLASS: usize = 0xF000_0000;

/// The class of the operations on a path.
pub const SYS_CLASS_PATH: usize = 0x1000_0000;

/// The class of the operations on an open resource.
pub const SYS_CLASS_FILE: usize = 0x2000_0000;

/// The bits that hold the shape of the argument.
pub const SYS_ARG: usize = 0x0F00_0000;

/// The argument is a region that the scheme reads.
pub const SYS_ARG_SLICE: usize = 0x0100_0000;

/// The argument is a region that the scheme may write.
pub const SYS_ARG_MSLICE: usize = 0x0200_0000;

/// The argument is a second path.
pub const SYS_ARG_PATH: usize = 0x0300_0000;

/// The bits that hold the shape of the result.
pub const SYS_RET: usize = 0x00F0_0000;

/// The result is the number of a new resource.
pub const SYS_RET_FILE: usize = 0x0010_0000;

/// `SYS_CLASS_PATH | SYS_ARG_PATH | 9`
pub const SYS_LINK: usize = 0x1300_0009;

/// `SYS_CLASS_PATH | SYS_RET_FILE | 5`
pub const SYS_OPEN: usize = 0x1010_0005;

/// `SYS_CLASS_PATH | 39`
pub const SYS_MKDIR: usize = 0x1000_0027;

/// `SYS_CLASS_PATH | 84`
pub const SYS_RMDIR: usize = 0x1000_0054;

/// `SYS_CLASS_PATH | 10`
pub const SYS_UNLINK: usize = 0x1000_000A;

/// `SYS_CLASS_FILE | 6`
pub const SYS_CLOSE: usize = 0x2000_0006;

/// `SYS_CLASS_FILE | SYS_RET_FILE | 41`
pub const SYS_DUP: usize = 0x2010_0029;

/// `SYS_CLASS_FILE | SYS_ARG_MSLICE | 3`
pub const SYS_READ: usize = 0x2200_0003;

/// `SYS_CLASS_FILE | SYS_ARG_SLICE | 4`
pub const SYS_WRITE: usize = 0x2100_0004;

/// `SYS_CLASS_FILE | 927`
pub const SYS_FEVENT: usize = 0x2000_039F;

/// `SYS_CLASS_FILE | 19`
pub const SYS_LSEEK: usize = 0x2000_0013;

/// `SYS_CLASS_FILE | SYS_ARG_MSLICE | 928`
pub const SYS_FPATH: usize = 0x2200_03A0;

/// `SYS_CLASS_FILE | SYS_ARG_MSLICE | 28`
pub const SYS_FSTAT: usize = 0x2200_001C;

/// `SYS_CLASS_FILE | 118`
pub const SYS_FSYNC: usize = 0x2000_0076;

/// `SYS_CLASS_FILE | 93`
pub const SYS_FTRUNCATE: usize = 0x2000_005D;

// The operations on the process itself, which no scheme serves.

pub const SYS_BRK: usize = 45;

pub const SYS_CHDIR: usize = 12;

pub const SYS_CLOCK_GETTIME: usize = 265;

pub const SYS_CLONE: usize = 120;

pub const SYS_EXECVE: usize = 11;

pub const SYS_EXIT: usize = 1;

pub const SYS_FUTEX: usize = 240;

pub const SYS_GETCWD: usize = 183;

pub const SYS_GETEGID: usize = 202;

pub const SYS_GETEUID: usize = 201;

pub const SYS_GETGID: usize = 200;

pub const SYS_GETPID: usize = 20;

pub const SYS_GETUID: usize = 199;

pub const SYS_IOPL: usize = 110;

pub const SYS_NANOSLEEP: usize = 162;

pub const SYS_PHYSALLOC: usize = 945;

pub const SYS_PHYSFREE: usize = 946;

pub const SYS_PHYSMAP: usize = 947;

pub const SYS_PHYSUNMAP: usize = 948;

pub const SYS_VIRTTOPHYS: usize = 949;

pub const SYS_PIPE2: usize = 331;

pub const SYS_SETGID: usize = 214;

pub const SYS_SETUID: usize = 213;

pub const SYS_WAITPID: usize = 7;

pub const SYS_YIELD: usize = 158;

} // verus!
