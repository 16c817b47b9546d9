//! The 16550 UART serial port on the PC's legacy I/O ports.
//!
//! Port I/O is done by the caller: this module says which bytes go to which port,
//! and decides on what the caller reads back.

use vstd::prelude::*;

verus! {

/// The standard I/O port bases of the PC's serial ports.
#[derive(Copy, Clone, Debug, PartialEq, Eq)]
pub enum ComPort {
    COM1,
    COM2,
    COM3,
    COM4,
    COM5,
    COM6,
    COM7,
    COM8,
}

impl ComPort {
    pub open spec fn spec_base(self) -> u16 {
        match self {
            ComPort::COM1 => 0x3F8,
            ComPort::COM2 => 0x2F8,
            ComPort::COM3 => 0x3E8,
            ComPort::COM4 => 0x2E8,
            ComPort::COM5 => 0x5F8,
            ComPort::COM6 => 0x4F8,
            ComPort::COM7 => 0x5E8,
            ComPort::COM8 => 0x4E8,
        }
    }

    /// The port's base I/O port.
    pub fn base(self) -> (b: u16)
        ensures
            b == self.spec_base(),
    {
        match self {
            ComPort::COM1 => 0x3F8,
            ComPort::COM2 => 0x2F8,
            ComPort::COM3 => 0x3E8,
            ComPort::COM4 => 0x2E8,
            ComPort::COM5 => 0x5F8,
            ComPort::COM6 => 0x4F8,
            ComPort::COM7 => 0x5E8,
            ComPort::COM8 => 0x4E8,
        }
    }
}

/// A byte written to an I/O port.
#[derive(Copy, Clone, Debug, PartialEq, Eq)]
pub struct PortWrite {
    pub port: u16,
    pub value: u8,
}

/// The byte the self test sends through the loopback and expects back.
pub const LOOPBACK_TEST_BYTE: u8 = 0xAE;

/// The writes that set up the UART at `base` and start its self test: interrupts
/// off, divisor 3 (38400 baud), 8 data bits without parity and one stop bit, FIFOs on
/// and cleared with a 14-byte threshold, IRQs with RTS/DSR, then loopback mode and the
/// test byte.
pub open spec fn init_writes(base: u16) -> Seq<PortWrite> {
    seq![
        PortWrite { port: (base + 1) as u16, value: 0x00 },
        PortWrite { port: (base + 3) as u16, value: 0x80 },
        PortWrite { port: base, value: 0x03 },
        PortWrite { port: (base + 1) as u16, value: 0x00 },
        PortWrite { port: (base + 3) as u16, value: 0x03 },
        PortWrite { port: (base + 2) as u16, value: 0xC7 },
        PortWrite { port: (base + 4) as u16, value: 0x0B },
        PortWrite { port: (base + 4) as u16, value: 0x1E },
        PortWrite { port: base, value: LOOPBACK_TEST_BYTE },
    ]
}

/// The bytes a character goes out as: a newline as carriage return and line feed,
/// another ASCII character as itself; a character outside ASCII cannot be sent.
pub open spec fn char_bytes(c: char) -> Option<Seq<u8>> {
    if (c as u32) < 0x80 {
        if c == '\n' {
            Some(seq![0x0Du8, 0x0Au8])
        } else {
            Some(seq![c as u32 as u8])
        }
    } else {
        None
    }
}

/// The bytes sent for the characters `s` in order, up to the first one that cannot
/// be sent, and whether every character went out.
pub open spec fn str_bytes(s: Seq<char>) -> (Seq<u8>, bool)
    decreases s.len(),
{
    if s.len() == 0 {
        (Seq::empty(), true)
    } else {
        let (prefix, ok) = str_bytes(s.drop_last());
        if !ok {
            (prefix, false)
        } else {
            match char_bytes(s.last()) {
                Some(b) => (prefix + b, true),
                None => (prefix, false),
            }
        }
    }
}

/// A serial port that passed its self test.
#[derive(Copy, Clone, Debug, PartialEq, Eq)]
pub struct SerialPort {
    io_port: u16,
}

impl SerialPort {
    /// The port is one of the standard serial ports.
    #[verifier::type_invariant]
    closed spec fn is_standard_port(self) -> bool {
        exists|c: ComPort| c.spec_base() == self.io_port
    }

    pub closed spec fn spec_io_port(&self) -> u16 {
        self.io_port
    }

    /// The base I/O port.
    pub fn io_port(&self) -> (p: u16)
        ensures
            p == self.spec_io_port(),
    {
        self.io_port
    }

    /// The writes that set up `com_port` and start its self test (see `init_writes`);
    /// the caller then reads the port's base and hands the byte to `try_new`.
    pub fn init_sequence(com_port: ComPort) -> (w: Vec<PortWrite>)
        ensures
            w@ == init_writes(com_port.spec_base()),
    {
        let base = com_port.base();
        let mut w: Vec<PortWrite> = Vec::new();
        w.push(PortWrite { port: base + 1, value: 0x00 });
        w.push(PortWrite { port: base + 3, value: 0x80 });
        w.push(PortWrite { port: base, value: 0x03 });
        w.push(PortWrite { port: base + 1, value: 0x00 });
        w.push(PortWrite { port: base + 3, value: 0x03 });
        w.push(PortWrite { port: base + 2, value: 0xC7 });
        w.push(PortWrite { port: base + 4, value: 0x0B });
        w.push(PortWrite { port: base + 4, value: 0x1E });
        w.push(PortWrite { port: base, value: LOOPBACK_TEST_BYTE });
        w
    }

    /// Decides on the self test of `com_port`, given the byte read back from its base
    /// after `init_sequence`: when it is the test byte, the port is usable and goes
    /// to normal operation (the returned write); otherwise there is no port.
    pub fn try_new(com_port: ComPort, echoed: u8) -> (r: (Option<SerialPort>, Vec<PortWrite>))
        ensures
            echoed == LOOPBACK_TEST_BYTE ==> {
                &&& r.0 matches Some(p) && p.spec_io_port() == com_port.spec_base()
                &&& r.1@ == seq![PortWrite { port: (com_port.spec_base() + 4) as u16, value: 0x0F }]
            },
            echoed != LOOPBACK_TEST_BYTE ==> r.0 is None && r.1@.len() == 0,
    {
        let base = com_port.base();
        let mut w: Vec<PortWrite> = Vec::new();
        if echoed == LOOPBACK_TEST_BYTE {
            w.push(PortWrite { port: base + 4, value: 0x0F });
            (Some(SerialPort { io_port: base }), w)
        } else {
            (None, w)
        }
    }

    /// The port the line status register is read from.
    pub fn line_status_port(&self) -> (p: u16)
        ensures
            p == self.spec_io_port() + 5,
    {
        proof {
            use_type_invariant(self);
            let c = choose|c: ComPort| c.spec_base() == self.io_port;
            assert(c.spec_base() <= 0x5F8);
        }
        self.io_port + 5
    }

    /// Whether the line status says the transmit buffer is empty.
    pub fn is_transmit_empty(line_status: u8) -> (r: bool)
        ensures
            r == (line_status & 0x20 != 0),
    {
        line_status & 0x20 != 0
    }

    /// Whether the line status says data was received.
    pub fn received(line_status: u8) -> (r: bool)
        ensures
            r == (line_status & 1 != 0),
    {
        line_status & 1 != 0
    }

    /// The bytes to send for `c` (see `char_bytes`).
    pub fn write_char(&self, c: char) -> (r: Option<Vec<u8>>)
        ensures
            match (r, char_bytes(c)) {
                (Some(v), Some(b)) => v@ == b,
                (None, None) => true,
                _ => false,
            },
    {
        if (c as u32) < 0x80 {
            let mut v: Vec<u8> = Vec::new();
            if c == '\n' {
                v.push(0x0D);
                v.push(0x0A);
            } else {
                v.push(c as u32 as u8);
            }
            Some(v)
        } else {
            None
        }
    }

    /// The bytes to send for `s`, character by character, up to the first one that
    /// cannot be sent; the flag says whether every character went out (see
    /// `str_bytes`).
    pub fn write_str(&self, s: &str) -> (r: (Vec<u8>, bool))
        ensures
            (r.0@, r.1) == str_bytes(s@),
    {
        let mut out: Vec<u8> = Vec::new();
        let n = s.unicode_len();
        let mut i: usize = 0;
        while i < n
            invariant
                n == s@.len(),
                i <= n,
                (out@, true) == str_bytes(s@.take(i as int)),
            decreases n - i,
        {
            let c = s.get_char(i);
            assert(s@.take(i + 1).drop_last() =~= s@.take(i as int));
            match self.write_char(c) {
                Some(bytes) => {
                    let mut k: usize = 0;
                    let ghost before = out@;
                    while k < bytes.len()
                        invariant
                            k <= bytes@.len(),
                            out@ == before + bytes@.take(k as int),
                        decreases bytes@.len() - k,
                    {
                        out.push(bytes[k]);
                        assert(bytes@.take(k + 1) =~= bytes@.take(k as int).push(bytes@[k as int]));
                        k = k + 1;
                    }
                    assert(bytes@.take(bytes@.len() as int) =~= bytes@);
                },
                None => {
                    proof {
                        lemma_str_bytes_stops(s@, i as int + 1);
                    }
                    return (out, false);
                },
            }
            i = i + 1;
        }
        assert(s@.take(n as int) =~= s@);
        (out, true)
    }
}

/// Once a character cannot be sent, nothing after it is.
proof fn lemma_str_bytes_stops(s: Seq<char>, k: int)
    requires
        0 < k <= s.len(),
        !str_bytes(s.take(k)).1,
    ensures
        str_bytes(s) == str_bytes(s.take(k)),
    decreases s.len() - k,
{
    if k < s.len() {
        assert(s.take(k + 1).drop_last() =~= s.take(k));
        lemma_str_bytes_stops(s, k + 1);
    } else {
        assert(s.take(k) =~= s);
    }
}

} // verus!
