//! Fixed ACPI Description Table (FADT) definition.

use vstd::prelude::*;
use crate::le_bytes::{read_u8, read_u16, read_u32, read_u64, read_array3, u16_at, u32_at, u64_at};
use crate::acpi::tables::{SDTHeader, get_table, table_readable};
use crate::acpi::sdt::sdt_found;

verus! {

/// Size of the FADT image that is read (C layout of the record, with padding).
pub const FADT_LEN: usize = 272;

/// "FACP", the FADT signature.
pub open spec fn fadt_signature() -> Seq<u8> {
    seq![0x46u8, 0x41, 0x43, 0x50]
}

/// Memory holds what `Fadt::new` reads at `addr`.
pub open spec fn fadt_readable(mem: Seq<u8>, addr: int) -> bool {
    &&& table_readable(mem, addr, fadt_signature())
    &&& sdt_found(mem, addr, fadt_signature()) ==> addr + FADT_LEN <= mem.len()
}

/// Address space types to make the meaning of the field more clear
#[derive(Copy, Clone, Debug, PartialEq, Eq)]
pub enum AddressSpace {
    SystemMemory,
    SystemIO,
    PciConfig,
    EmbeddedController,
    SMBus,
    SystemCMOS,
    PciBarTarget,
    IPMI,
    GeneralPurposeIO,
    GenericSerialBus,
    PlatformCommunicationChannel,
    FunctionalFixedHardware,
    SystemFirmware,
    MemoryMappedIO,
    PlatformResource,
    Invalid,
}

/// Access size types to make the meaning of the field more clear
#[derive(Copy, Clone, Debug, PartialEq, Eq)]
pub enum AccessSize {
    Undefined,
    Byte,
    Word,
    DWord,
    QWord,
}

/// The address space an address space id names; ids above 0xE are invalid.
pub open spec fn address_space_of(id: u8) -> AddressSpace {
    if id == 0 {
        AddressSpace::SystemMemory
    } else if id == 1 {
        AddressSpace::SystemIO
    } else if id == 2 {
        AddressSpace::PciConfig
    } else if id == 3 {
        AddressSpace::EmbeddedController
    } else if id == 4 {
        AddressSpace::SMBus
    } else if id == 5 {
        AddressSpace::SystemCMOS
    } else if id == 6 {
        AddressSpace::PciBarTarget
    } else if id == 7 {
        AddressSpace::IPMI
    } else if id == 8 {
        AddressSpace::GeneralPurposeIO
    } else if id == 9 {
        AddressSpace::GenericSerialBus
    } else if id == 0xA {
        AddressSpace::PlatformCommunicationChannel
    } else if id == 0xB {
        AddressSpace::FunctionalFixedHardware
    } else if id == 0xC {
        AddressSpace::SystemFirmware
    } else if id == 0xD {
        AddressSpace::MemoryMappedIO
    } else if id == 0xE {
        AddressSpace::PlatformResource
    } else {
        AddressSpace::Invalid
    }
}

/// The access size an access size code names; codes outside 1..=4 are undefined.
pub open spec fn access_size_of(code: u8) -> AccessSize {
    if code == 1 {
        AccessSize::Byte
    } else if code == 2 {
        AccessSize::Word
    } else if code == 3 {
        AccessSize::DWord
    } else if code == 4 {
        AccessSize::QWord
    } else {
        AccessSize::Undefined
    }
}

/// Generic address structure
/// Used to describe registers
#[derive(Copy, Clone, Debug)]
pub struct GenericAddress {
    address_space: u8,
    bit_width: u8,
    bit_offset: u8,
    access_size: u8,
    address: u64,
}

impl GenericAddress {
    pub closed spec fn spec_address_space(&self) -> u8 {
        self.address_space
    }

    pub closed spec fn spec_bit_width(&self) -> u8 {
        self.bit_width
    }

    pub closed spec fn spec_bit_offset(&self) -> u8 {
        self.bit_offset
    }

    pub closed spec fn spec_access_size(&self) -> u8 {
        self.access_size
    }

    pub closed spec fn spec_address(&self) -> u64 {
        self.address
    }

    /// The structure holds the 16-byte image at `a` (the address is 8-aligned).
    pub open spec fn parsed_from(&self, mem: Seq<u8>, a: int) -> bool {
        &&& self.spec_address_space() == mem[a]
        &&& self.spec_bit_width() == mem[a + 1]
        &&& self.spec_bit_offset() == mem[a + 2]
        &&& self.spec_access_size() == mem[a + 3]
        &&& self.spec_address() == u64_at(mem, a + 8)
    }

    pub fn read(mem: &[u8], a: usize) -> (g: GenericAddress)
        requires
            a + 16 <= mem@.len(),
        ensures
            g.parsed_from(mem@, a as int),
    {
        let _len = mem.len();
        GenericAddress {
            address_space: read_u8(mem, a),
            bit_width: read_u8(mem, a + 1),
            bit_offset: read_u8(mem, a + 2),
            access_size: read_u8(mem, a + 3),
            address: read_u64(mem, a + 8),
        }
    }

    pub fn address_space(&self) -> (r: AddressSpace)
        ensures
            r == address_space_of(self.spec_address_space()),
    {
        match self.address_space {
            0 => AddressSpace::SystemMemory,
            1 => AddressSpace::SystemIO,
            2 => AddressSpace::PciConfig,
            3 => AddressSpace::EmbeddedController,
            4 => AddressSpace::SMBus,
            5 => AddressSpace::SystemCMOS,
            6 => AddressSpace::PciBarTarget,
            7 => AddressSpace::IPMI,
            8 => AddressSpace::GeneralPurposeIO,
            9 => AddressSpace::GenericSerialBus,
            0xA => AddressSpace::PlatformCommunicationChannel,
            0xB => AddressSpace::FunctionalFixedHardware,
            0xC => AddressSpace::SystemFirmware,
            0xD => AddressSpace::MemoryMappedIO,
            0xE => AddressSpace::PlatformResource,
            _ => AddressSpace::Invalid,
        }
    }

    pub fn access_size(&self) -> (r: AccessSize)
        ensures
            r == access_size_of(self.spec_access_size()),
    {
        match self.access_size {
            1 => AccessSize::Byte,
            2 => AccessSize::Word,
            3 => AccessSize::DWord,
            4 => AccessSize::QWord,
            _ => AccessSize::Undefined,
        }
    }

    pub fn address(&self) -> (r: u64)
        ensures
            r == self.spec_address(),
    {
        self.address
    }

    pub fn bit_width(&self) -> (r: u8)
        ensures
            r == self.spec_bit_width(),
    {
        self.bit_width
    }

    pub fn bit_offset(&self) -> (r: u8)
        ensures
            r == self.spec_bit_offset(),
    {
        self.bit_offset
    }
}

/// Fixed ACPI Description Table (FADT)
/// The FADT is a table that provides an ACPI-compliant OS with the information it needs to
/// enact power management related actions. Every field can be read.
#[derive(Copy, Clone, Debug)]
pub struct Fadt {
    pub header: SDTHeader,
    pub firmware_ctrl: u32,
    pub dsdt: u32,
    pub reserved: u8,
    pub preferred_pm_profile: u8,
    pub sci_int: u16,
    pub smi_cmd: u32,
    pub acpi_enable: u8,
    pub acpi_disable: u8,
    pub s4bios_req: u8,
    pub pstate_cnt: u8,
    pub pm1a_evt_blk: u32,
    pub pm1b_evt_blk: u32,
    pub pm1a_cnt_blk: u32,
    pub pm1b_cnt_blk: u32,
    pub pm_timer_blk: u32,
    pub gpe0_blk: u32,
    pub gpe1_blk: u32,
    pub pm1_evt_len: u8,
    pub pm1_cnt_len: u8,
    pub pm_timer_len: u8,
    pub gpe0_blk_len: u8,
    pub gpe1_blk_len: u8,
    pub gpe1_base: u8,
    pub cst_cnt: u8,
    pub p_lvl2_lat: u16,
    pub p_lvl3_lat: u16,
    pub flush_size: u16,
    pub flush_stride: u16,
    pub duty_offset: u8,
    pub duty_width: u8,
    pub day_alarm: u8,
    pub month_alarm: u8,
    pub century: u8,
    pub boot_arch_flags: u16,
    pub reserved2: u8,
    pub flags: u32,
    pub reset_reg: GenericAddress,
    pub reset_value: u8,
    pub reserved3: [u8; 3],
    pub x_firmware_ctrl: u64,
    pub x_dsdt: u64,
    pub x_pm1a_evt_blk: GenericAddress,
    pub x_pm1b_evt_blk: GenericAddress,
    pub x_pm1a_cnt_blk: GenericAddress,
    pub x_pm1b_cnt_blk: GenericAddress,
    pub x_pm_timer_blk: GenericAddress,
    pub x_gpe0_blk: GenericAddress,
    pub x_gpe1_blk: GenericAddress,
}

impl Fadt {
    /// The table holds the fields of the image at `a`, laid out as a C struct.
    pub open spec fn parsed_from(&self, mem: Seq<u8>, a: int) -> bool {
        &&& self.header.parsed_from(mem, a)
        &&& self.firmware_ctrl == u32_at(mem, a + 36)
        &&& self.dsdt == u32_at(mem, a + 40)
        &&& self.reserved == mem[a + 44]
        &&& self.preferred_pm_profile == mem[a + 45]
        &&& self.sci_int == u16_at(mem, a + 46)
        &&& self.smi_cmd == u32_at(mem, a + 48)
        &&& self.acpi_enable == mem[a + 52]
        &&& self.acpi_disable == mem[a + 53]
        &&& self.s4bios_req == mem[a + 54]
        &&& self.pstate_cnt == mem[a + 55]
        &&& self.pm1a_evt_blk == u32_at(mem, a + 56)
        &&& self.pm1b_evt_blk == u32_at(mem, a + 60)
        &&& self.pm1a_cnt_blk == u32_at(mem, a + 64)
        &&& self.pm1b_cnt_blk == u32_at(mem, a + 68)
        &&& self.pm_timer_blk == u32_at(mem, a + 72)
        &&& self.gpe0_blk == u32_at(mem, a + 76)
        &&& self.gpe1_blk == u32_at(mem, a + 80)
        &&& self.pm1_evt_len == mem[a + 84]
        &&& self.pm1_cnt_len == mem[a + 85]
        &&& self.pm_timer_len == mem[a + 86]
        &&& self.gpe0_blk_len == mem[a + 87]
        &&& self.gpe1_blk_len == mem[a + 88]
        &&& self.gpe1_base == mem[a + 89]
        &&& self.cst_cnt == mem[a + 90]
        &&& self.p_lvl2_lat == u16_at(mem, a + 92)
        &&& self.p_lvl3_lat == u16_at(mem, a + 94)
        &&& self.flush_size == u16_at(mem, a + 96)
        &&& self.flush_stride == u16_at(mem, a + 98)
        &&& self.duty_offset == mem[a + 100]
        &&& self.duty_width == mem[a + 101]
        &&& self.day_alarm == mem[a + 102]
        &&& self.month_alarm == mem[a + 103]
        &&& self.century == mem[a + 104]
        &&& self.boot_arch_flags == u16_at(mem, a + 106)
        &&& self.reserved2 == mem[a + 108]
        &&& self.flags == u32_at(mem, a + 112)
        &&& self.reset_reg.parsed_from(mem, a + 120)
        &&& self.reset_value == mem[a + 136]
        &&& self.reserved3@ == mem.subrange(a + 137, a + 140)
        &&& self.x_firmware_ctrl == u64_at(mem, a + 144)
        &&& self.x_dsdt == u64_at(mem, a + 152)
        &&& self.x_pm1a_evt_blk.parsed_from(mem, a + 160)
        &&& self.x_pm1b_evt_blk.parsed_from(mem, a + 176)
        &&& self.x_pm1a_cnt_blk.parsed_from(mem, a + 192)
        &&& self.x_pm1b_cnt_blk.parsed_from(mem, a + 208)
        &&& self.x_pm_timer_blk.parsed_from(mem, a + 224)
        &&& self.x_gpe0_blk.parsed_from(mem, a + 240)
        &&& self.x_gpe1_blk.parsed_from(mem, a + 256)
    }

    /// Reads the FADT at `addr` when a valid one is there.
    pub fn new(mem: &[u8], addr: usize) -> (r: Option<Fadt>)
        requires
            fadt_readable(mem@, addr as int),
        ensures
            r is Some <==> sdt_found(mem@, addr as int, fadt_signature()),
            r matches Some(f) ==> f.parsed_from(mem@, addr as int),
    {
        let _len = mem.len();
        let sig: [u8; 4] = [0x46, 0x41, 0x43, 0x50];
        assert(sig@ =~= fadt_signature());
        let header = get_table(mem, addr, sig);
        if let Some(header) = header {
            Some(
                Fadt {
                    header,
                    firmware_ctrl: read_u32(mem, addr + 36),
                    dsdt: read_u32(mem, addr + 40),
                    reserved: read_u8(mem, addr + 44),
                    preferred_pm_profile: read_u8(mem, addr + 45),
                    sci_int: read_u16(mem, addr + 46),
                    smi_cmd: read_u32(mem, addr + 48),
                    acpi_enable: read_u8(mem, addr + 52),
                    acpi_disable: read_u8(mem, addr + 53),
                    s4bios_req: read_u8(mem, addr + 54),
                    pstate_cnt: read_u8(mem, addr + 55),
                    pm1a_evt_blk: read_u32(mem, addr + 56),
                    pm1b_evt_blk: read_u32(mem, addr + 60),
                    pm1a_cnt_blk: read_u32(mem, addr + 64),
                    pm1b_cnt_blk: read_u32(mem, addr + 68),
                    pm_timer_blk: read_u32(mem, addr + 72),
                    gpe0_blk: read_u32(mem, addr + 76),
                    gpe1_blk: read_u32(mem, addr + 80),
                    pm1_evt_len: read_u8(mem, addr + 84),
                    pm1_cnt_len: read_u8(mem, addr + 85),
                    pm_timer_len: read_u8(mem, addr + 86),
                    gpe0_blk_len: read_u8(mem, addr + 87),
                    gpe1_blk_len: read_u8(mem, addr + 88),
                    gpe1_base: read_u8(mem, addr + 89),
                    cst_cnt: read_u8(mem, addr + 90),
                    p_lvl2_lat: read_u16(mem, addr + 92),
                    p_lvl3_lat: read_u16(mem, addr + 94),
                    flush_size: read_u16(mem, addr + 96),
                    flush_stride: read_u16(mem, addr + 98),
                    duty_offset: read_u8(mem, addr + 100),
                    duty_width: read_u8(mem, addr + 101),
                    day_alarm: read_u8(mem, addr + 102),
                    month_alarm: read_u8(mem, addr + 103),
                    century: read_u8(mem, addr + 104),
                    boot_arch_flags: read_u16(mem, addr + 106),
                    reserved2: read_u8(mem, addr + 108),
                    flags: read_u32(mem, addr + 112),
                    reset_reg: GenericAddress::read(mem, addr + 120),
                    reset_value: read_u8(mem, addr + 136),
                    reserved3: read_array3(mem, addr + 137),
                    x_firmware_ctrl: read_u64(mem, addr + 144),
                    x_dsdt: read_u64(mem, addr + 152),
                    x_pm1a_evt_blk: GenericAddress::read(mem, addr + 160),
                    x_pm1b_evt_blk: GenericAddress::read(mem, addr + 176),
                    x_pm1a_cnt_blk: GenericAddress::read(mem, addr + 192),
                    x_pm1b_cnt_blk: GenericAddress::read(mem, addr + 208),
                    x_pm_timer_blk: GenericAddress::read(mem, addr + 224),
                    x_gpe0_blk: GenericAddress::read(mem, addr + 240),
                    x_gpe1_blk: GenericAddress::read(mem, addr + 256),
                },
            )
        } else {
            None
        }
    }
}

} // verus!
