use firework::ac97::{
    initial_descriptor, initial_master_volume, initial_pcm_volume, reset_global_control,
    Ac97Ports, AudioBusReg, BufferDescCtl, BufferDescriptor, GlobalControl, GlobalStatus,
    MasterOutputVolume, MixerReg, PcmChannels, PcmOutMode, Playback, PlaybackStep,
    RegBoxStatus, RegBoxTransfer, BYTES_PER_ENTRY,
};
use firework::bootmem::{MemoryDescriptor, MemoryManager, ACPI_RECLAIM, CONVENTIONAL, LOADER_CODE, LOADER_DATA};
use firework::fb::{fbinfo_from_gop, GopPixelFormat, PixelBitmask, PixelFormat};
use firework::memmap::{MemoryData, MemoryEntry};
use firework::pci::{
    config_address, data_port, enable_device, is_multifunction_header, scan_step, PCIAddress,
    PCICfgOffset, PCICommand, PCIDevice, PCIRequest,
};
use firework::ps2::{driver_config, event_for, input_full, output_full, Ps2Cfg, Ps2Event, PS2CtlCmd};

#[test]
fn ac97_volumes() {
    assert_eq!(initial_master_volume().into_bits(), 0x3F3F);
    assert_eq!(initial_pcm_volume().into_bits(), 0x1F1F);
    let v = MasterOutputVolume::new().with_left(5).with_mute(true);
    assert_eq!(v.into_bits(), 0x8500);
    assert_eq!(v.left(), 5);
    assert!(v.mute());
    assert_eq!(v.right(), 0);
}

#[test]
fn ac97_global_control() {
    assert_eq!(reset_global_control(GlobalControl::from_bits(0)).into_bits(), 0b11);
    assert_eq!(reset_global_control(GlobalControl::from_bits(0x0010_0004)).into_bits(), 0x0010_0007);
    let c = GlobalControl::new().with_channels(PcmChannels::Six).with_pcm_out_mode(PcmOutMode::TwentySamples);
    assert_eq!(c.into_bits(), 0x0060_0000);
    assert_eq!(c.channels(), PcmChannels::Six);
    assert_eq!(c.pcm_out_mode(), PcmOutMode::TwentySamples);
    let s = GlobalStatus::from_bits(0x0010_0000);
    assert_eq!(s.channel_caps(), PcmChannels::Four);
    assert_eq!(s.sample_caps(), PcmOutMode::SixteenSamples);
    assert_eq!(PcmChannels::from_bits(2), PcmChannels::Six);
    assert_eq!(PcmOutMode::TwentySamples.into_bits(), 1);
}

#[test]
fn ac97_transfer_registers() {
    let t = RegBoxTransfer::new().with_transfer_data(true).with_ioc_intr(true);
    assert_eq!(t.into_bits(), 0b1001);
    assert!(RegBoxTransfer::new().with_reset(true).reset());
    let s = RegBoxStatus::from_bits(0x1C);
    assert!(s.last_ent_fire_intr());
    assert!(s.ioc_intr());
    assert!(s.fifo_err_intr());
    assert!(!s.transfer_data());
    let d = initial_descriptor();
    assert_eq!(d.samples, 0xFFFE);
    assert_eq!(d.ctl.into_bits(), 0xC000);
    assert_eq!(d.addr, 0);
    assert_eq!(BufferDescriptor::default().samples, 0);
    assert_eq!(BufferDescCtl::new().with_last(true).into_bits(), 0x4000);
}

#[test]
fn ac97_ports() {
    let p = Ac97Ports::new(0xC001, 0xC101);
    assert_eq!(p.mixer, 0xC000);
    assert_eq!(p.audio_bus, 0xC100);
    assert_eq!(p.pcm_out_bdl_addr, 0xC110);
    assert_eq!(p.pcm_out_bdl_last_ent, 0xC115);
    assert_eq!(p.pcm_out_transf_status, 0xC116);
    assert_eq!(p.pcm_out_transf_ctl, 0xC11B);
    assert_eq!(MixerReg::PCMOutVolume.offset(), 0x18);
    assert_eq!(AudioBusReg::GlobalControl.offset(), 0x2C);
}

#[test]
fn playback_queue() {
    let mut p = Playback::new();
    assert!(!p.start_playback());
    assert!(p.play_audio(&[1, 2, 3]));
    assert!(p.playing);
    assert!(!p.play_audio(&[4]));
    assert_eq!(p.buf.iter().copied().collect::<Vec<u8>>(), vec![1, 2, 3, 4]);
    assert_eq!(p.on_entry_complete(), PlaybackStep::Continue);
    assert!(p.buf.is_empty());
    assert!(p.playing);
    assert_eq!(p.on_entry_complete(), PlaybackStep::Stop);
    assert!(!p.playing);
}

#[test]
fn playback_drops_one_entry_at_a_time() {
    let mut p = Playback::new();
    let data = vec![7u8; BYTES_PER_ENTRY + 10];
    assert!(p.play_audio(&data));
    assert_eq!(p.on_entry_complete(), PlaybackStep::Continue);
    assert_eq!(p.buf.len(), 10);
    assert_eq!(p.on_entry_complete(), PlaybackStep::Continue);
    assert_eq!(p.buf.len(), 0);
}

#[test]
fn pci_addresses() {
    let a = PCIAddress::new(0, 1, 2, 3);
    assert_eq!(config_address(a, 0x0E), Some(0x8001_130C));
    assert_eq!(config_address(PCIAddress::new(1, 0, 0, 0), 0), None);
    assert_eq!(data_port(0x0E), 0xCFE);
    assert_eq!(data_port(0x10), 0xCFC);
    assert_eq!(PCICfgOffset::HeaderType.offset(), 0x0E);
    assert_eq!(PCICfgOffset::VendorID.offset(), 0x00);
}

#[test]
fn pci_enumeration_order() {
    let a = PCIAddress::new(0, 0, 0, 0);
    assert_eq!(a.next_scan(true), Some(PCIAddress::new(0, 0, 0, 1)));
    assert_eq!(a.next_scan(false), Some(PCIAddress::new(0, 0, 1, 0)));
    assert_eq!(PCIAddress::new(0, 0, 0, 7).next_scan(true), Some(PCIAddress::new(0, 0, 1, 0)));
    assert_eq!(PCIAddress::new(0, 3, 31, 0).next_scan(false), Some(PCIAddress::new(0, 4, 0, 0)));
    assert_eq!(PCIAddress::new(0, 255, 31, 7).next_scan(true), None);
    assert!(is_multifunction_header(0x80));
    assert!(!is_multifunction_header(0x7F));
    let s = scan_step(0x80, 0xFFFF);
    assert!(!s.report && s.next_function);
    let s = scan_step(0x00, 0x8086);
    assert!(s.report && !s.next_function);
    assert!(!scan_step(0, 0).report);
}

#[test]
fn pci_replies() {
    let a = PCIAddress::new(0, 0, 3, 0);
    assert_eq!(PCIRequest::Read8(a, 0).reply(0x1234_5678), Some(vec![0x78]));
    assert_eq!(PCIRequest::Read16(a, 0).reply(0x1234_5678), Some(vec![0x78, 0x56]));
    assert_eq!(PCIRequest::Read32(a, 0).reply(0x1234_5678), Some(vec![0x78, 0x56, 0x34, 0x12]));
    assert_eq!(PCIRequest::Write16(a, 4, 7).reply(0), None);
    let d = PCIDevice::new(9, a);
    assert_eq!(d.header_type_request(), PCIRequest::Read8(a, 0x0E));
}

#[test]
fn pci_command_register() {
    let c = enable_device(PCICommand::from_bits(0x0400));
    assert_eq!(c.into_bits(), 0x0007);
    let c = enable_device(PCICommand::from_bits(0x0140));
    assert_eq!(c.into_bits(), 0x0147);
    assert!(c.pio() && c.mmio() && c.bus_master() && !c.disable_intrs());
}

#[test]
fn ps2_status_and_config() {
    assert!(output_full(0x01));
    assert!(!output_full(0x02));
    assert!(input_full(0x02));
    assert!(!input_full(0x01));
    assert_eq!(PS2CtlCmd::ReadControllerCfg.code(), 0x20);
    assert_eq!(PS2CtlCmd::WriteControllerCfg.code(), 0x60);
    assert_eq!(driver_config(Ps2Cfg::from_bits(0x02)).into_bits(), 0x41);
    assert_eq!(driver_config(Ps2Cfg::from_bits(0x74)).into_bits(), 0x75);
}

#[test]
fn ps2_scancodes() {
    assert_eq!(event_for(0x02), Ps2Event::Pressed('1'));
    assert_eq!(event_for(0x0B), Ps2Event::Pressed('0'));
    assert_eq!(event_for(0x10), Ps2Event::Pressed('q'));
    assert_eq!(event_for(0x19), Ps2Event::Pressed('p'));
    assert_eq!(event_for(0x1C), Ps2Event::Pressed('\n'));
    assert_eq!(event_for(0x1E), Ps2Event::Pressed('a'));
    assert_eq!(event_for(0x32), Ps2Event::Pressed('m'));
    assert_eq!(event_for(0x39), Ps2Event::Pressed(' '));
    assert_eq!(event_for(0x0E), Ps2Event::BackSpace);
    assert_eq!(event_for(0x29), Ps2Event::Pressed('0'));
    assert_eq!(event_for(0x81), Ps2Event::Other(0x81));
}

#[test]
fn frame_buffer_formats() {
    let rgb = fbinfo_from_gop(0xE000_0000, (1024, 768), GopPixelFormat::Rgb, None, 1024);
    assert_eq!(rgb.base, 0xFFFF_8000_E000_0000);
    assert_eq!((rgb.width, rgb.height, rgb.pitch), (1024, 768, 1024));
    assert_eq!(rgb.pixel_format, PixelFormat::RedGreenBlue);
    assert_eq!(rgb.pixel_bitmask, PixelBitmask { red: 0xFF00_0000, green: 0x00FF_0000, blue: 0x0000_FF00, alpha: 0xFF });
    let bgr = fbinfo_from_gop(0, (640, 480), GopPixelFormat::Bgr, None, 640);
    assert_eq!(bgr.pixel_format, PixelFormat::BlueGreenRed);
    assert_eq!(bgr.pixel_bitmask.blue, 0xFF00_0000);
    let mask = PixelBitmask { red: 0xF800, green: 0x07E0, blue: 0x001F, alpha: 0 };
    let m = fbinfo_from_gop(0, (320, 200), GopPixelFormat::Bitmask, Some(mask), 336);
    assert_eq!(m.pixel_format, PixelFormat::Bitmask);
    assert_eq!(m.pixel_bitmask, mask);
    assert_eq!(m.pitch, 336);
}

#[test]
fn boot_memory_descriptors() {
    let mut mm = MemoryManager::new();
    mm.allocate((0x10_0000, 0x5000));
    let desc = |ty: u32, start: u64, pages: u64| MemoryDescriptor { ty, phys_start: start, page_count: pages };
    assert_eq!(
        mm.mem_type_from_desc(&desc(CONVENTIONAL, 0x20_0000, 4)),
        Some(MemoryEntry::Usable(MemoryData { base: 0x20_0000, length: 0x4000 }))
    );
    assert_eq!(
        mm.mem_type_from_desc(&desc(ACPI_RECLAIM, 0x30_0000, 1)),
        Some(MemoryEntry::ACPIReclaimable(MemoryData { base: 0x30_0000, length: 0x1000 }))
    );
    assert_eq!(mm.mem_type_from_desc(&desc(0, 0, 1)), None);
    assert_eq!(
        mm.mem_type_from_desc(&desc(LOADER_DATA, 0x10_0000, 5)),
        Some(MemoryEntry::KernelOrModule(MemoryData { base: 0x10_0000, length: 0x5000 }))
    );
    assert_eq!(
        mm.mem_type_from_desc(&desc(LOADER_CODE, 0x10_0000, 8)),
        Some(MemoryEntry::BootLoaderReclaimable(MemoryData { base: 0x10_5000, length: 0x3000 }))
    );
    assert_eq!(
        mm.mem_type_from_desc(&desc(LOADER_CODE, 0x80_0000, 1)),
        Some(MemoryEntry::BootLoaderReclaimable(MemoryData { base: 0x80_0000, length: 0x1000 }))
    );
    let empty = MemoryManager::new();
    assert_eq!(
        empty.mem_type_from_desc(&desc(LOADER_DATA, 0x10_0000, 1)),
        Some(MemoryEntry::BootLoaderReclaimable(MemoryData { base: 0x10_0000, length: 0x1000 }))
    );
}

fn descriptor(ty: u32, start: u64, pages: u64) -> MemoryDescriptor {
    MemoryDescriptor { ty, phys_start: start, page_count: pages }
}

#[test]
fn descriptor_range_checks() {
    let mut mm = MemoryManager::new();
    mm.allocate((0x10_0000, 0x1000));
    assert!(mm.in_range(&descriptor(CONVENTIONAL, 0x20_0000, 4)));
    assert!(!mm.in_range(&descriptor(CONVENTIONAL, 0, u64::MAX / 0x1000 + 1)));
    assert!(mm.in_range(&descriptor(LOADER_DATA, 0x10_0000, 1)));
    assert!(!mm.in_range(&descriptor(LOADER_DATA, 0x10_0000, u64::MAX / 0x1000)));
    let mut wide = MemoryManager::new();
    wide.allocate((u64::MAX - 0x10, 0x100));
    assert!(!wide.in_range(&descriptor(LOADER_CODE, 0x1000, 1)));
    assert!(wide.in_range(&descriptor(ACPI_RECLAIM, 0x1000, 1)));
}
