use psx::gamepad::{Button, Gamepad, BUFFER_SIZE};
use psx::gpu::{
    command, pack, Color, DMAMode, Depth, DispEnv, VectorError, Vertex, VideoMode, GP0, GP1,
};
use psx::interrupt::{Interrupts, Mask, ALL_INTERRUPTS, IRQ};
use psx::register::{Access, SimRegister};
use std::cell::Cell;

fn gp1() -> GP1<SimRegister> {
    GP1::new(SimRegister::new(0))
}

fn gp0() -> GP0<SimRegister> {
    GP0::new(SimRegister::new(0))
}

#[test]
fn gp1_commands_have_their_number_in_the_top_byte() {
    let mut port = gp1();
    port.reset_gpu();
    port.reset_buffer();
    port.ack_irq();
    port.enable_display(true);
    port.enable_display(false);
    port.dma_mode(None);
    port.dma_mode(Some(DMAMode::GP0));
    port.dma_mode(Some(DMAMode::GPUREAD));
    assert_eq!(
        port.register().stores(),
        vec![
            0x0000_0000,
            0x0100_0000,
            0x0200_0000,
            0x0300_0000,
            0x0300_0001,
            0x0400_0000,
            0x0400_0002,
            0x0400_0003,
        ]
    );
    assert_eq!(port.register().accesses().len(), 8);
}

#[test]
fn display_start_packs_ten_and_nine_bits() {
    let mut port = gp1();
    assert_eq!(port.display_start((0, 0)), Ok(()));
    assert_eq!(port.display_start((320, 240)), Ok(()));
    assert_eq!(port.display_start((1023, 511)), Ok(()));
    assert_eq!(
        port.register().stores(),
        vec![0x0500_0000, 0x0500_0000 | 320 | (240 << 10), 0x0507_FFFF]
    );
}

#[test]
fn display_start_refuses_what_does_not_fit() {
    let mut port = gp1();
    assert_eq!(port.display_start((1024, 0)), Err(VectorError::InvalidX));
    assert_eq!(port.display_start((-1, 0)), Err(VectorError::InvalidX));
    assert_eq!(port.display_start((0, 512)), Err(VectorError::InvalidY));
    assert_eq!(port.display_start((0, -1)), Err(VectorError::InvalidY));
    assert_eq!(port.display_start((1024, 512)), Err(VectorError::InvalidX));
    assert!(port.register().accesses().is_empty());
}

#[test]
fn display_ranges_pack_their_fields() {
    let mut port = gp1();
    assert_eq!(port.horizontal_range((0x260, 0xC60)), Ok(()));
    assert_eq!(port.horizontal_range((4095, 4095)), Ok(()));
    assert_eq!(port.vertical_range((0x10, 0x100)), Ok(()));
    assert_eq!(port.vertical_range((1023, 1023)), Ok(()));
    assert_eq!(
        port.register().stores(),
        vec![0x06C6_0260, 0x06FF_FFFF, 0x0704_0010, 0x070F_FFFF]
    );
    assert_eq!(port.horizontal_range((4096, 0)), Err(VectorError::InvalidX));
    assert_eq!(port.horizontal_range((0, 4096)), Err(VectorError::InvalidY));
    assert_eq!(port.vertical_range((1024, 0)), Err(VectorError::InvalidX));
    assert_eq!(port.vertical_range((0, 1024)), Err(VectorError::InvalidY));
    assert_eq!(port.register().accesses().len(), 4);
}

#[test]
fn display_mode_encodes_every_resolution() {
    let mut port = gp1();
    for (x, bits) in [(256i16, 0u32), (320, 1), (512, 2), (640, 3), (368, 0x40)] {
        assert_eq!(port.display_mode((x, 240), VideoMode::NTSC, Depth::Bits15, false), Ok(()));
        assert_eq!(*port.register().stores().last().unwrap(), 0x0800_0000 | bits);
    }
    assert_eq!(port.display_mode((320, 480), VideoMode::NTSC, Depth::Bits15, false), Ok(()));
    assert_eq!(*port.register().stores().last().unwrap(), 0x0800_0005);
    assert_eq!(port.display_mode((256, 240), VideoMode::PAL, Depth::Bits15, false), Ok(()));
    assert_eq!(*port.register().stores().last().unwrap(), 0x0800_0008);
    assert_eq!(port.display_mode((256, 240), VideoMode::NTSC, Depth::Bits24, false), Ok(()));
    assert_eq!(*port.register().stores().last().unwrap(), 0x0800_0010);
    assert_eq!(port.display_mode((256, 240), VideoMode::NTSC, Depth::Bits15, true), Ok(()));
    assert_eq!(*port.register().stores().last().unwrap(), 0x0800_0020);
    assert_eq!(port.display_mode((640, 480), VideoMode::PAL, Depth::Bits24, true), Ok(()));
    assert_eq!(*port.register().stores().last().unwrap(), 0x0800_003F);
    assert_eq!(port.display_mode((368, 480), VideoMode::PAL, Depth::Bits24, true), Ok(()));
    assert_eq!(*port.register().stores().last().unwrap(), 0x0800_007C);
}

#[test]
fn display_mode_refuses_other_resolutions() {
    let mut port = gp1();
    assert_eq!(
        port.display_mode((300, 240), VideoMode::NTSC, Depth::Bits15, false),
        Err(VectorError::InvalidX)
    );
    assert_eq!(
        port.display_mode((320, 200), VideoMode::NTSC, Depth::Bits15, false),
        Err(VectorError::InvalidY)
    );
    assert_eq!(
        port.display_mode((0, 0), VideoMode::NTSC, Depth::Bits15, false),
        Err(VectorError::InvalidX)
    );
    assert!(port.register().accesses().is_empty());
}

#[test]
fn display_env_is_sent_start_first() {
    let env = DispEnv::new((320, 0), (0x260, 0xC60), (0x10, 0x100)).unwrap();
    let mut port = gp1();
    port.set_display_env(&env);
    assert_eq!(port.register().stores(), vec![0x0500_0140, 0x06C6_0260, 0x0704_0010]);
}

#[test]
fn display_env_reports_the_first_part_that_does_not_fit() {
    assert!(matches!(DispEnv::new((1024, 0), (4096, 0), (0, 1024)), Err(VectorError::InvalidX)));
    assert!(matches!(DispEnv::new((0, 512), (4096, 0), (0, 1024)), Err(VectorError::InvalidY)));
    assert!(matches!(DispEnv::new((0, 0), (0, 4096), (1024, 0)), Err(VectorError::InvalidY)));
    assert!(matches!(DispEnv::new((0, 0), (0, 0), (1024, 0)), Err(VectorError::InvalidX)));
    assert!(matches!(DispEnv::new((0, 0), (0, 0), (0, 1024)), Err(VectorError::InvalidY)));
}

#[test]
fn pack_puts_x_below_y() {
    assert_eq!(pack((3, 2), 0x400, 0x200), Ok(3 + 2 * 0x400));
    assert_eq!(pack((0, 1), 0x1000, 0x1000), Ok(0x1000));
    assert_eq!(pack((5, 0), 4, 4), Err(VectorError::InvalidX));
    assert_eq!(pack((3, 4), 4, 4), Err(VectorError::InvalidY));
}

#[test]
fn command_word_keeps_twenty_four_bits_of_parameter() {
    assert_eq!(command(0x01, None), 0x0100_0000);
    assert_eq!(command(0x02, Some(0x12_3456)), 0x0212_3456);
    assert_eq!(command(0xFF, Some(0xFFFF_FFFF)), 0xFFFF_FFFF);
    assert_eq!(command(0x00, Some(0xAB00_0001)), 0x0000_0001);
}

#[test]
fn colors_and_vertices_pack_low_part_first() {
    assert_eq!(Color { red: 0x11, green: 0x22, blue: 0x33 }.pack(), 0x0033_2211);
    assert_eq!(Color { red: 0xFF, green: 0xFF, blue: 0xFF }.pack(), 0x00FF_FFFF);
    assert_eq!(Vertex { x: 0x0140, y: 0x00F0 }.pack(), 0x00F0_0140);
    assert_eq!(Vertex { x: 0xFFFF, y: 0xFFFF }.pack(), 0xFFFF_FFFF);
}

#[test]
fn gp0_commands_send_their_words_in_order() {
    let mut port = gp0();
    port.clear_cache();
    port.fill_rectangle(
        Color { red: 1, green: 2, blue: 3 },
        Vertex { x: 16, y: 32 },
        Vertex { x: 64, y: 128 },
    );
    port.copy_rectangle(Vertex { x: 1, y: 2 }, Vertex { x: 3, y: 4 }, Vertex { x: 5, y: 6 });
    port.interrupt_request();
    assert_eq!(
        port.register().stores(),
        vec![
            0x0100_0000,
            0x0203_0201,
            0x0020_0010,
            0x0080_0040,
            0x8000_0000,
            0x0002_0001,
            0x0004_0003,
            0x0006_0005,
            0x1F00_0000,
        ]
    );
}

#[test]
fn gp0_draw_sends_every_word_of_the_primitive() {
    let mut port = gp0();
    port.draw(&[]);
    assert!(port.register().accesses().is_empty());
    port.draw(&[0x2000_00FF, 0x0001_0002, 0x0003_0004, 0x0005_0006]);
    port.write(7);
    assert_eq!(
        port.register().accesses(),
        &vec![
            Access::Store(0x2000_00FF),
            Access::Store(0x0001_0002),
            Access::Store(0x0003_0004),
            Access::Store(0x0005_0006),
            Access::Store(7),
        ]
    );
}

#[test]
fn mask_enables_and_disables_everything_with_one_store() {
    let mut mask = Mask::new(SimRegister::new(0x55));
    mask.enable(Interrupts::All);
    mask.disable(Interrupts::All);
    assert_eq!(mask.register().accesses(), &vec![Access::Store(0x7FF), Access::Store(0)]);
    assert_eq!(ALL_INTERRUPTS, 0x7FF);
}

#[test]
fn mask_updates_a_subset_in_what_the_register_shows() {
    let mut mask = Mask::new(SimRegister::new(0x400));
    mask.enable(Interrupts::Subset(&[IRQ::Vblank, IRQ::DMA, IRQ::Vblank]));
    assert_eq!(mask.register().accesses(), &vec![Access::Load(0x400), Access::Store(0x409)]);
    mask.disable(Interrupts::Subset(&[IRQ::Controller2, IRQ::Vblank, IRQ::SPU]));
    assert_eq!(mask.register().peek(), 0x008);
    mask.enable(Interrupts::Subset(&[]));
    assert_eq!(mask.register().stores(), vec![0x409, 0x008, 0x008]);
    assert_eq!(mask.register().accesses().len(), 6);
}

#[test]
fn every_interrupt_source_has_its_bit() {
    let sources = [
        IRQ::Vblank,
        IRQ::GPU,
        IRQ::CDROM,
        IRQ::DMA,
        IRQ::Timer0,
        IRQ::Timer1,
        IRQ::Timer2,
        IRQ::Controller,
        IRQ::SIO,
        IRQ::SPU,
        IRQ::Controller2,
    ];
    let mut all = 0;
    for (i, source) in sources.iter().enumerate() {
        assert_eq!(source.mask(), 1 << i);
        all |= source.mask();
    }
    assert_eq!(all, ALL_INTERRUPTS);
}

#[test]
fn free_runs_the_function_with_interrupts_held_back() {
    let mut mask = Mask::new(SimRegister::new(0x7FF));
    let calls = Cell::new(0);
    let r = mask.free(|| {
        calls.set(calls.get() + 1);
        17
    });
    assert_eq!(r, 17);
    assert_eq!(calls.get(), 1);
    assert_eq!(mask.register().accesses(), &vec![Access::Store(0), Access::Store(0x7FF)]);
}

#[test]
fn gamepad_reads_buttons_from_bytes_two_and_three() {
    let mut buf0 = [0u8; BUFFER_SIZE];
    buf0[2] = 0xFE;
    buf0[3] = 0xBF;
    let mut in_use = false;
    let pad = Gamepad::new(buf0, [0xFF; BUFFER_SIZE], &mut in_use).unwrap();
    assert!(in_use);
    assert!(pad.pressed(Button::Select));
    assert!(!pad.released(Button::Select));
    assert!(pad.pressed(Button::Cross));
    assert!(!pad.pressed(Button::Start));
    assert!(pad.released(Button::Square));
    assert!(pad.released(Button::L2));
}

#[test]
fn every_button_has_its_bit() {
    let buttons = [
        Button::Select,
        Button::L3,
        Button::R3,
        Button::Start,
        Button::Up,
        Button::Right,
        Button::Down,
        Button::Left,
        Button::L2,
        Button::R2,
        Button::L1,
        Button::R1,
        Button::Triangle,
        Button::Circle,
        Button::Cross,
        Button::Square,
    ];
    for (i, button) in buttons.iter().enumerate() {
        assert_eq!(button.mask(), 1 << i);
        let state: u16 = !(1 << i);
        let mut buf0 = [0xFFu8; BUFFER_SIZE];
        buf0[2] = state as u8;
        buf0[3] = (state >> 8) as u8;
        let mut in_use = false;
        let pad = Gamepad::new(buf0, [0; BUFFER_SIZE], &mut in_use).unwrap();
        for (j, other) in buttons.iter().enumerate() {
            assert_eq!(pad.pressed(*other), i == j);
        }
    }
}

#[test]
fn gamepad_is_set_up_once_until_it_is_released() {
    let mut in_use = false;
    let mut pad = Gamepad::new([0xFF; BUFFER_SIZE], [0xFF; BUFFER_SIZE], &mut in_use).unwrap();
    assert!(matches!(
        Gamepad::new([0; BUFFER_SIZE], [0; BUFFER_SIZE], &mut in_use),
        Err(psx::gamepad::Error::AlreadyInitialized)
    ));
    assert!(in_use);
    assert!(pad.released(Button::Up));
    let mut fresh = [0xFFu8; BUFFER_SIZE];
    fresh[2] = 0xEF;
    pad.update(fresh, [0xFF; BUFFER_SIZE]);
    assert!(pad.pressed(Button::Up));
    pad.release(&mut in_use);
    assert!(!in_use);
    assert!(Gamepad::new([0; BUFFER_SIZE], [0; BUFFER_SIZE], &mut in_use).is_ok());
}
