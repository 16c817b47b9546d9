//! The UART serial port of the boot-time kernel, reached through an I/O port or a
//! memory-mapped register block.
//!
//! Register reads and writes are done by the caller: this module computes register
//! addresses, the bytes to send, and the outcome of the self test.

use vstd::prelude::*;

use crate::serial::{char_bytes, init_writes, ComPort, LOOPBACK_TEST_BYTE};

verus! {

/// Errors of the serial port.
#[derive(Copy, Clone, Debug, PartialEq, Eq)]
pub enum Error {
    NoError,
    InvalidPort,
    WriteFailed,
    SerialPortSelfTestFailed,
}

/// An I/O port.
#[derive(Copy, Clone, Debug, PartialEq, Eq)]
pub struct IoPort {
    pub port: u16,
}

impl IoPort {
    pub open spec fn spec_number(&self) -> u16 {
        self.port
    }

    /// The I/O port `port`.
    pub fn new(port: u16) -> (p: Self)
        ensures
            p.spec_number() == port,
    {
        IoPort { port }
    }

    /// The port number.
    pub fn number(&self) -> (n: u16)
        ensures
            n == self.spec_number(),
    {
        self.port
    }
}

/// A memory-mapped register, by its linear address.
#[derive(Copy, Clone, Debug, PartialEq, Eq)]
pub struct MmioRegister {
    pub vaddr: usize,
}

/// Where a serial port's registers are: memory-mapped or on I/O ports.
#[derive(Copy, Clone, Debug, PartialEq, Eq)]
pub enum SerialAddr {
    Mmio(MmioRegister),
    IoPort(IoPort),
}

/// The register `offset` registers past `base`: a memory-mapped address moves on by
/// `offset` bytes, wrapping around the address space; an I/O port number moves on by
/// `offset`.
pub open spec fn serial_addr_offset(base: SerialAddr, offset: u16) -> SerialAddr {
    match base {
        SerialAddr::Mmio(r) => SerialAddr::Mmio(
            MmioRegister {
                vaddr: if r.vaddr + offset > usize::MAX {
                    (r.vaddr + offset - (usize::MAX + 1)) as usize
                } else {
                    (r.vaddr + offset) as usize
                },
            },
        ),
        SerialAddr::IoPort(p) => SerialAddr::IoPort(IoPort { port: (p.spec_number() + offset) as u16 }),
    }
}

/// The register is reachable: an I/O port number stays within 16 bits.
pub open spec fn offset_fits(base: SerialAddr, offset: u16) -> bool {
    match base {
        SerialAddr::Mmio(_) => true,
        SerialAddr::IoPort(p) => p.spec_number() + offset <= u16::MAX,
    }
}

impl SerialAddr {
    /// The register `offset` registers past this one (see `serial_addr_offset`).
    pub fn offset(self, offset: u16) -> (a: SerialAddr)
        requires
            offset_fits(self, offset),
        ensures
            a == serial_addr_offset(self, offset),
    {
        match self {
            SerialAddr::Mmio(addr) => SerialAddr::Mmio(MmioRegister { vaddr: addr.vaddr.wrapping_add(offset as usize) }),
            SerialAddr::IoPort(port) => SerialAddr::IoPort(IoPort::new(port.number() + offset)),
        }
    }
}

/// A register write of the serial port's setup.
#[derive(Copy, Clone, Debug, PartialEq, Eq)]
pub struct RegisterWrite {
    pub addr: SerialAddr,
    pub value: u8,
}

/// The serial port at the I/O port of `com_port`.
pub fn com_port_addr(com_port: ComPort) -> (a: SerialAddr)
    ensures
        a == SerialAddr::IoPort(IoPort { port: com_port.spec_base() }),
{
    SerialAddr::IoPort(IoPort::new(com_port.base()))
}

/// The bytes sent for a NUL-terminated string `s`: each byte before the first NUL
/// (or the end) as its character, up to the first that is not ASCII; the flag says
/// whether every byte went out.
pub open spec fn cstr_bytes(s: Seq<u8>) -> (Seq<u8>, bool)
    decreases s.len(),
{
    if s.len() == 0 || s[0] == 0 {
        (Seq::empty(), true)
    } else {
        match char_bytes(s[0] as char) {
            Some(b) => {
                let (rest, ok) = cstr_bytes(s.drop_first());
                (b + rest, ok)
            },
            None => (Seq::empty(), false),
        }
    }
}

/// A serial port controlled by a UART, by the address of its registers.
#[derive(Copy, Clone, Debug, PartialEq, Eq)]
pub struct SerialPort {
    base: SerialAddr,
}

impl SerialPort {
    pub closed spec fn spec_base(&self) -> SerialAddr {
        self.base
    }

    /// The register writes that set up the UART at `base` and start its self test,
    /// the same sequence as for the PC's serial ports (see `init_writes`); the caller
    /// then reads the base register and hands the byte to `try_new`.
    pub fn init_sequence(base: SerialAddr) -> (w: Vec<RegisterWrite>)
        requires
            offset_fits(base, 4),
        ensures
            w@.len() == 9,
            forall|k: int|
                0 <= k < 9 ==> {
                    let iw = init_writes(0);
                    #[trigger] w@[k] == RegisterWrite {
                        addr: serial_addr_offset(base, iw[k].port),
                        value: iw[k].value,
                    }
                },
    {
        let mut w: Vec<RegisterWrite> = Vec::new();
        w.push(RegisterWrite { addr: base.offset(1), value: 0x00 });
        w.push(RegisterWrite { addr: base.offset(3), value: 0x80 });
        w.push(RegisterWrite { addr: base.offset(0), value: 0x03 });
        w.push(RegisterWrite { addr: base.offset(1), value: 0x00 });
        w.push(RegisterWrite { addr: base.offset(3), value: 0x03 });
        w.push(RegisterWrite { addr: base.offset(2), value: 0xC7 });
        w.push(RegisterWrite { addr: base.offset(4), value: 0x0B });
        w.push(RegisterWrite { addr: base.offset(4), value: 0x1E });
        w.push(RegisterWrite { addr: base.offset(0), value: LOOPBACK_TEST_BYTE });
        w
    }

    /// Decides on the self test of the UART at `base`, given the byte read back from
    /// it after `init_sequence`: the test byte gives the port and the write that puts
    /// it in normal operation; anything else is `SerialPortSelfTestFailed`.
    pub fn try_new(base: SerialAddr, echoed: u8) -> (r: (Result<SerialPort, Error>, Vec<RegisterWrite>))
        requires
            offset_fits(base, 4),
        ensures
            echoed == LOOPBACK_TEST_BYTE ==> {
                &&& r.0 matches Ok(p) && p.spec_base() == base
                &&& r.1@ == seq![RegisterWrite { addr: serial_addr_offset(base, 4), value: 0x0F }]
            },
            echoed != LOOPBACK_TEST_BYTE ==> r.0 == Err::<SerialPort, Error>(Error::SerialPortSelfTestFailed) && r.1@.len()
                == 0,
    {
        let mut w: Vec<RegisterWrite> = Vec::new();
        if echoed != LOOPBACK_TEST_BYTE {
            (Err(Error::SerialPortSelfTestFailed), w)
        } else {
            w.push(RegisterWrite { addr: base.offset(4), value: 0x0F });
            (Ok(SerialPort { base }), w)
        }
    }

    /// The bytes to send for the NUL-terminated string `s` (see `cstr_bytes`); a
    /// byte that is not ASCII is `WriteFailed`, after the bytes before it.
    pub fn write_cstr(&self, s: &[u8]) -> (r: (Vec<u8>, Result<(), Error>))
        ensures
            r.0@ == cstr_bytes(s@).0,
            cstr_bytes(s@).1 ==> r.1 is Ok,
            !cstr_bytes(s@).1 ==> r.1 == Err::<(), Error>(Error::WriteFailed),
    {
        let mut out: Vec<u8> = Vec::new();
        let mut i: usize = 0;
        assert(s@.skip(0) =~= s@);
        assert(out@ + cstr_bytes(s@).0 =~= cstr_bytes(s@).0);
        while i < s.len() && s[i] != 0
            invariant
                i <= s@.len(),
                cstr_bytes(s@).0 == out@ + cstr_bytes(s@.skip(i as int)).0,
                cstr_bytes(s@).1 == cstr_bytes(s@.skip(i as int)).1,
            decreases s@.len() - i,
        {
            let c = s[i] as char;
            let ghost rest = s@.skip(i as int);
            assert(rest[0] == s@[i as int]);
            assert(rest.drop_first() =~= s@.skip(i + 1));
            if (c as u32) < 0x80 {
                let ghost before = out@;
                if c == '\n' {
                    out.push(0x0D);
                    out.push(0x0A);
                } else {
                    out.push(c as u32 as u8);
                }
                proof {
                    let b = char_bytes(c).unwrap();
                    assert(out@ =~= before + b);
                    assert(cstr_bytes(rest).0 == b + cstr_bytes(s@.skip(i + 1)).0);
                    assert(before + cstr_bytes(rest).0 =~= out@ + cstr_bytes(s@.skip(i + 1)).0);
                }
            } else {
                assert(cstr_bytes(rest) == (Seq::<u8>::empty(), false));
                assert(out@ + Seq::<u8>::empty() =~= out@);
                return (out, Err(Error::WriteFailed));
            }
            i = i + 1;
        }
        proof {
            let rest = s@.skip(i as int);
            assert(rest.len() == 0 || rest[0] == 0);
            assert(out@ + Seq::<u8>::empty() =~= out@);
        }
        (out, Ok(()))
    }
}

/// The placeholder UART of the aarch64 port, which drops what is written to it.
#[derive(Copy, Clone, Debug, PartialEq, Eq)]
pub struct Uart {}

impl Uart {
    pub fn new() -> (u: Self)
        ensures
            u == (Uart {}),
    {
        Uart {}
    }
}

} // verus!
