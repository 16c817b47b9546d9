use charlotte_core::access_control::{CapabilityType, PhysicalMemoryCapability};
use charlotte_core::acpi::init_acpi;
use charlotte_core::acpi::madt::Madt;
use charlotte_core::arch::{isa_params, Api, HwTimerMode};
use charlotte_core::c_abi;
use charlotte_core::cpu::{
    clear_msr_bit, has_msr, huge_pages_supported, interrupts_enabled, msr_u64, paddr_sig_bits, set_msr_bit,
    tsc_frequency, vaddr_sig_bits, vaddr_width, MSRValue,
};
use charlotte_core::gdt::{SegmentSelectorTable, Tss};
use charlotte_core::interrupts::apic::{
    Apic, ApicRegWrite, TimerMode, APIC_DISABLE, APIC_NMI, DESTINATION_FORMAT, EOI_REGISTER, LOGICAL_DESTINATION,
    LVT_LINT0, LVT_LINT1, LVT_PERFORMANCE_MONITORING_COUNTERS, LVT_TIMER, SPURIOUS_INTERRUPT_VECTOR,
    TASK_PRIORITY_TPR, TIMER_DIVISOR, TIMER_INIT_COUNT,
};
use charlotte_core::interrupts::vectors::{IntIdx, IvHandlerTable};
use charlotte_core::keyboard::{
    handle_scancode, key_action, key_kind, DecodedKeyKind, KeyAction, Ps2Key, Ps2Keyboard, KEY_CODE_LSHIFT,
    KEY_CODE_RSHIFT,
};
use charlotte_core::ringbuffer::{is_aligned, RingBuffer};
use charlotte_core::serial::{ComPort, PortWrite, SerialPort};
use charlotte_core::uart::{self, IoPort, MmioRegister, SerialAddr};

fn put_u32(mem: &mut [u8], at: usize, v: u32) {
    mem[at..at + 4].copy_from_slice(&v.to_le_bytes());
}

fn fix_checksum(mem: &mut [u8], start: usize, len: usize, checksum_at: usize) {
    mem[checksum_at] = 0;
    let sum: u32 = mem[start..start + len].iter().map(|b| *b as u32).sum();
    mem[checksum_at] = ((256 - (sum % 256)) % 256) as u8;
}

fn put_header(mem: &mut [u8], at: usize, sig: &[u8; 4], len: u32) {
    mem[at..at + 4].copy_from_slice(sig);
    put_u32(mem, at + 4, len);
    mem[at + 8] = 1;
    mem[at + 10..at + 16].copy_from_slice(b"CHRLTE");
    mem[at + 16..at + 24].copy_from_slice(b"KERNELTB");
}

/// ACPI tables whose MADT gives the default local APIC base and nothing else.
fn tables_image() -> Vec<u8> {
    let mut mem = vec![0u8; 0x600];
    mem[0x10..0x18].copy_from_slice(b"RSD PTR ");
    mem[0x19..0x1F].copy_from_slice(b"CHRLTE");
    put_u32(&mut mem, 0x10 + 16, 0x100);
    fix_checksum(&mut mem, 0x10, 20, 0x18);
    put_header(&mut mem, 0x200, b"APIC", 44);
    put_u32(&mut mem, 0x200 + 36, 0xFEE0_0000);
    fix_checksum(&mut mem, 0x200, 44, 0x209);
    put_header(&mut mem, 0x300, b"FACP", 272);
    fix_checksum(&mut mem, 0x300, 272, 0x309);
    put_header(&mut mem, 0x500, b"BGRT", 56);
    fix_checksum(&mut mem, 0x500, 56, 0x509);
    put_header(&mut mem, 0x100, b"RSDT", 48);
    put_u32(&mut mem, 0x100 + 36, 0x200);
    put_u32(&mut mem, 0x100 + 40, 0x300);
    put_u32(&mut mem, 0x100 + 44, 0x500);
    fix_checksum(&mut mem, 0x100, 48, 0x109);
    mem
}

fn measured_apic(mem: &[u8], ticks_per_second: u64) -> Apic {
    let madt = Madt::new(mem, 0x200);
    let mut apic = Apic::new(&madt, mem);
    let _ = apic.init(0x0005_0014, 0x0100_0000, ticks_per_second);
    apic
}

#[test]
fn apic_init_writes_a_known_state() {
    let mem = tables_image();
    let madt = Madt::new(&mem, 0x200);
    let mut apic = Apic::new(&madt, &mem);
    assert_eq!(apic.get_addr(), 0xFEE0_0000);
    let writes = apic.init(0x0005_0014, 0x0300_00AB, 1_000_000);
    assert_eq!(apic.lvt_max, 6);
    assert_eq!(apic.tps(), 1_000_000);
    let expected = vec![
        ApicRegWrite { offset: DESTINATION_FORMAT, value: 0xFFFF_FFFF },
        ApicRegWrite { offset: LOGICAL_DESTINATION, value: 0xAB },
        ApicRegWrite { offset: SPURIOUS_INTERRUPT_VECTOR, value: 0x127 },
        ApicRegWrite { offset: LVT_TIMER, value: APIC_DISABLE },
        ApicRegWrite { offset: LVT_PERFORMANCE_MONITORING_COUNTERS, value: APIC_NMI },
        ApicRegWrite { offset: LVT_LINT0, value: APIC_DISABLE },
        ApicRegWrite { offset: LVT_LINT1, value: APIC_DISABLE },
        ApicRegWrite { offset: TASK_PRIORITY_TPR, value: 15 },
    ];
    assert_eq!(writes, expected);
}

#[test]
fn apic_register_writes() {
    let mem = tables_image();
    let apic = measured_apic(&mem, 1_000_000);
    assert_eq!(apic.set_timer_divisor(8), ApicRegWrite { offset: TIMER_DIVISOR, value: 8 });
    assert_eq!(apic.set_timer_counter(100, 1_000_000), ApicRegWrite { offset: TIMER_INIT_COUNT, value: 10_000 });
    assert_eq!(
        apic.set_lvt_timer_register(TimerMode::Periodic, false, 0x20),
        ApicRegWrite { offset: LVT_TIMER, value: 0x20 | 0x20000 | 0x10000 }
    );
    assert_eq!(apic.write_eoi(), ApicRegWrite { offset: EOI_REGISTER, value: 1 });
    assert_eq!(Apic::calculate_bus_speed(1000, 100), 10);
    let on = Apic::enable_apic(MSRValue { eax: 0, edx: 7 }, true);
    assert_eq!((on.eax, on.edx), (0x800, 7));
    assert!(Apic::is_apic_enabled(on));
    let off = Apic::enable_apic(on, false);
    assert!(!Apic::is_apic_enabled(off));
}

#[test]
fn isa_timer_uses_the_first_divisor_whose_count_fits() {
    let mem = tables_image();
    let mut api = Api::new(init_acpi(&mem, 0x10), measured_apic(&mem, 1_000_000_000));
    let writes = api.setup_isa_timer(100, HwTimerMode::Recurrent, 0);
    assert_eq!(
        writes,
        vec![
            ApicRegWrite { offset: TIMER_DIVISOR, value: 1 },
            ApicRegWrite { offset: LVT_TIMER, value: 32 | 0x20000 },
            ApicRegWrite { offset: TIMER_DIVISOR, value: 1 },
            ApicRegWrite { offset: TIMER_INIT_COUNT, value: 1000 },
        ]
    );
    let mut api = Api::new(init_acpi(&mem, 0x10), measured_apic(&mem, 1 << 40));
    let writes = api.setup_isa_timer(1, HwTimerMode::OneShot, 0);
    assert_eq!(writes[0], ApicRegWrite { offset: TIMER_DIVISOR, value: 32 });
    assert_eq!(writes[1], ApicRegWrite { offset: LVT_TIMER, value: 32 });
    assert_eq!(writes[3], ApicRegWrite { offset: TIMER_INIT_COUNT, value: 320 });
}

#[test]
fn address_validation() {
    assert!(Api::validate_paddr(0xFFFF_FFFF, 32));
    assert!(!Api::validate_paddr(0x1_0000_0000, 32));
    assert!(Api::validate_vaddr(0xFFFF_8000_0000_0000, 48));
    assert!(Api::validate_vaddr(0x0000_7FFF_FFFF_FFFF, 48));
    assert!(!Api::validate_vaddr(0x0000_8000_0000_0000, 48));
    assert!(Api::validate_vaddr(0x1234, 57));
    assert!(!Api::validate_vaddr(0x0100_0000_0000_0000, 57));
    assert!(!Api::validate_vaddr(0, 39));
    assert_eq!(isa_params().paging.page_size, 0x1000);
    assert_eq!(isa_params().paging.page_shift, 12);
    assert_eq!(HwTimerMode::Recurrent.apic_mode(), TimerMode::Periodic);
    assert_eq!(HwTimerMode::OneShot.apic_mode(), TimerMode::Oneshot);
}

#[test]
fn serial_port_setup_and_self_test() {
    let w = SerialPort::init_sequence(ComPort::COM1);
    assert_eq!(w.len(), 9);
    assert_eq!(w[0], PortWrite { port: 0x3F9, value: 0 });
    assert_eq!(w[2], PortWrite { port: 0x3F8, value: 3 });
    assert_eq!(w[8], PortWrite { port: 0x3F8, value: 0xAE });
    let (port, finish) = SerialPort::try_new(ComPort::COM2, 0xAE);
    let port = port.unwrap();
    assert_eq!(port.io_port(), 0x2F8);
    assert_eq!(finish, vec![PortWrite { port: 0x2FC, value: 0x0F }]);
    assert_eq!(port.line_status_port(), 0x2FD);
    let (none, nothing) = SerialPort::try_new(ComPort::COM1, 0x00);
    assert!(none.is_none());
    assert!(nothing.is_empty());
    assert!(SerialPort::is_transmit_empty(0x20));
    assert!(!SerialPort::is_transmit_empty(0x1F));
    assert!(SerialPort::received(0x01));
}

#[test]
fn serial_port_encodes_text() {
    let (port, _) = SerialPort::try_new(ComPort::COM1, 0xAE);
    let port = port.unwrap();
    assert_eq!(port.write_char('\n'), Some(vec![0x0D, 0x0A]));
    assert_eq!(port.write_char('k'), Some(vec![b'k']));
    assert_eq!(port.write_char('é'), None);
    assert_eq!(port.write_str("a\nb"), (vec![b'a', 0x0D, 0x0A, b'b'], true));
    assert_eq!(port.write_str("ab€c"), (vec![b'a', b'b'], false));
}

#[test]
fn uart_register_addresses_and_strings() {
    let base = uart::com_port_addr(ComPort::COM1);
    assert_eq!(base, SerialAddr::IoPort(IoPort::new(0x3F8)));
    assert_eq!(base.offset(4), SerialAddr::IoPort(IoPort::new(0x3FC)));
    assert_eq!(IoPort::new(0x60).number(), 0x60);
    let mmio = SerialAddr::Mmio(MmioRegister { vaddr: usize::MAX });
    assert_eq!(mmio.offset(2), SerialAddr::Mmio(MmioRegister { vaddr: 1 }));
    let w = uart::SerialPort::init_sequence(base);
    assert_eq!(w.len(), 9);
    assert_eq!(w[1], uart::RegisterWrite { addr: SerialAddr::IoPort(IoPort::new(0x3FB)), value: 0x80 });
    let (port, finish) = uart::SerialPort::try_new(base, 0xAE);
    let port = port.unwrap();
    assert_eq!(finish, vec![uart::RegisterWrite { addr: SerialAddr::IoPort(IoPort::new(0x3FC)), value: 0x0F }]);
    assert_eq!(uart::SerialPort::try_new(base, 1).0.err(), Some(uart::Error::SerialPortSelfTestFailed));
    assert_eq!(port.write_cstr(b"hi\n\0zz"), (vec![b'h', b'i', 0x0D, 0x0A], Ok(())));
    assert_eq!(port.write_cstr(b"a\x80b\0"), (vec![b'a'], Err(uart::Error::WriteFailed)));
    assert_eq!(uart::Uart::new(), uart::Uart {});
}

#[test]
fn cpu_register_decoding() {
    assert_eq!(msr_u64(MSRValue { eax: 1, edx: 2 }), 0x2_0000_0001);
    let v = set_msr_bit(MSRValue { eax: 9, edx: 0 }, 4);
    assert_eq!((v.eax, v.edx), (9, 0x10));
    let v = clear_msr_bit(MSRValue { eax: 9, edx: 0x11 }, 4);
    assert_eq!((v.eax, v.edx), (9, 0x1));
    let set = set_msr_bit(MSRValue { eax: 0, edx: 0xF0F0 }, 3);
    let cleared = clear_msr_bit(set, 3);
    assert_eq!(set.edx, 0xF0F8);
    assert_eq!(cleared.edx, 0xF0F0);
    assert_eq!(tsc_frequency(2, 100), 50);
    assert_eq!(paddr_sig_bits(0x3027), 0x27);
    assert_eq!(vaddr_sig_bits(0x3027), 0x30);
    assert_eq!(vaddr_width(1 << 16), 57);
    assert_eq!(vaddr_width(0), 48);
    assert!(huge_pages_supported(1 << 26));
    assert!(!huge_pages_supported(0));
    assert!(has_msr(0x20));
    assert!(interrupts_enabled(0x202));
    assert!(!interrupts_enabled(0x2));
}

#[test]
fn task_state_segment_and_selectors() {
    let tss = Tss::new(0xABCD_0000);
    assert_eq!(tss.rsp0(), 0xABCD_0000);
    assert_eq!(tss.iopb(), 104);
    let sst = SegmentSelectorTable::new();
    assert_eq!(sst.kernel_segments(), (0, 0));
    assert_eq!(sst.user_segments(), (0, 0));
}

#[test]
fn c_abi_result_unwraps_success() {
    assert_eq!(c_abi::Result::<u8, ()>::Success(5).unwrap(), 5);
    assert_eq!(c_abi::Result::<u8, ()>::Success(6).expect("no value"), 6);
    let o = c_abi::Option::Present(3u8);
    assert!(matches!(o, c_abi::Option::Present(3)));
}

#[test]
fn alignment_and_ring_buffer() {
    assert!(is_aligned(0x2000, 0x1000));
    assert!(!is_aligned(0x2001, 0x1000));
    assert!(!is_aligned(0x2000, 0));
    let rb = RingBuffer::new_in_static_memory(vec![0u8; 4], 0x3000, 4);
    assert_eq!(rb.capacity(), 4);
}

#[test]
fn interrupt_handler_table() {
    let mut t = IvHandlerTable::new(0u32);
    t.register_iv_handler(7, 40);
    assert_eq!(t.handler_for(40), 7);
    assert_eq!(t.handler_for(41), 0);
    assert_eq!(t.handler_for(255), 0);
    assert_eq!(IntIdx::Timer.vector(), 0x20);
}

#[test]
fn keyboard_actions() {
    assert_eq!(handle_scancode(Some(DecodedKeyKind::Unicode('a'))), Some(KeyAction::Print('a')));
    assert_eq!(handle_scancode(Some(DecodedKeyKind::ShiftKey)), Some(KeyAction::SetShiftPressed(true)));
    assert_eq!(handle_scancode(Some(DecodedKeyKind::OtherRawKey)), Some(KeyAction::SetShiftPressed(false)));
    assert_eq!(handle_scancode(None), None);
}

#[test]
fn capabilities() {
    let c = PhysicalMemoryCapability::new(1, 2, 3, 4);
    assert_eq!(c.get_id(), 1);
    assert_eq!(c.get_refcount(), 2);
    assert_ne!(CapabilityType::PhysicalMemory, CapabilityType::IOPort);
}

#[test]
fn shift_key_codes_are_pc_keyboards() {
    assert_eq!(pc_keyboard::KeyCode::LShift as u8, KEY_CODE_LSHIFT);
    assert_eq!(pc_keyboard::KeyCode::RShift as u8, KEY_CODE_RSHIFT);
    assert_eq!(key_kind(Ps2Key::RawKey(KEY_CODE_LSHIFT)), DecodedKeyKind::ShiftKey);
    assert_eq!(key_kind(Ps2Key::RawKey(KEY_CODE_RSHIFT)), DecodedKeyKind::ShiftKey);
    assert_eq!(key_kind(Ps2Key::RawKey(pc_keyboard::KeyCode::LControl as u8)), DecodedKeyKind::OtherRawKey);
    assert_eq!(key_action(Some(Ps2Key::Unicode('q'))), Some(KeyAction::Print('q')));
    assert_eq!(key_action(Some(Ps2Key::RawKey(KEY_CODE_RSHIFT))), Some(KeyAction::SetShiftPressed(true)));
    assert_eq!(key_action(None), None);
}

#[test]
fn ps2_keyboard_decodes_scancode_set_1() {
    let mut kb = Ps2Keyboard::new();
    // 'A' key pressed, then released.
    assert_eq!(kb.process_scancode(0x1E), (Some(Ps2Key::Unicode('a')), Some(KeyAction::Print('a'))));
    assert_eq!(kb.process_scancode(0x9E), (None, None));
    // Left shift pressed: a raw key that records shift as held.
    assert_eq!(
        kb.process_scancode(0x2A),
        (Some(Ps2Key::RawKey(KEY_CODE_LSHIFT)), Some(KeyAction::SetShiftPressed(true)))
    );
    // With shift held, 'A' is upper case.
    assert_eq!(kb.process_scancode(0x1E), (Some(Ps2Key::Unicode('A')), Some(KeyAction::Print('A'))));
    // Left control is a raw key other than shift.
    assert_eq!(
        kb.process_scancode(0x1D),
        (Some(Ps2Key::RawKey(pc_keyboard::KeyCode::LControl as u8)), Some(KeyAction::SetShiftPressed(false)))
    );
}

#[test]
fn apic_presence_bit() {
    assert!(Apic::is_present(1 << 9));
    assert!(Apic::is_present(0xFFFF_FFFF));
    assert!(!Apic::is_present(!(1u32 << 9)));
}
