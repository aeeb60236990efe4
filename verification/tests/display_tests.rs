//! Tests for the panel protocol driver and its operation traces.

use epaper_display::display::BusOp;
use epaper_display::display::Color;
use epaper_display::display::DisplayError;
use epaper_display::display::Epd7in3e;
use epaper_display::display::BUFFER_SIZE;
use epaper_display::display::solid_buffer;
use epaper_display::display::test_pattern_buffer;

#[test]
fn display_rejects_wrong_buffer_size_without_touching_the_bus() {
    // A wrong-length buffer yields InvalidBufferSize and no bus
    // operations at all.
    let mut panel = Epd7in3e::new();
    let _ = panel.init();
    let short = vec![0u8; 100];
    match panel.display(&short) {
        Err(DisplayError::InvalidBufferSize { expected, actual }) => {
            assert_eq!(expected, BUFFER_SIZE);
            assert_eq!(actual, 100);
        },
        _ => panic!("expected InvalidBufferSize"),
    }
    assert!(panel.is_initialized());
}

#[test]
fn display_rejects_uninitialized_panel() {
    let mut panel = Epd7in3e::new();
    let buffer = vec![0u8; BUFFER_SIZE];
    assert!(matches!(panel.display(&buffer), Err(DisplayError::NotInitialized)));
}

#[test]
fn init_emits_the_vendor_sequence() {
    let mut panel = Epd7in3e::new();
    assert!(!panel.is_initialized());
    let ops = panel.init();
    assert!(panel.is_initialized());
    assert_eq!(ops.len(), 19);
    assert!(matches!(ops[0], BusOp::PowerOn));
    assert!(matches!(ops[1], BusOp::Reset));
    assert!(matches!(ops[2], BusOp::WaitBusy));
    assert!(matches!(ops[3], BusOp::DelayMs(30)));
    match &ops[4] {
        BusOp::CommandData(cmd, data) => {
            assert_eq!(*cmd, 0xAA);
            assert_eq!(data, &vec![0x49u8, 0x55, 0x20, 0x08, 0x09, 0x18]);
        },
        _ => panic!("expected the command header"),
    }
    match &ops[14] {
        BusOp::CommandData(cmd, data) => {
            assert_eq!(*cmd, 0x61);
            assert_eq!(data, &vec![0x03u8, 0x20, 0x01, 0xE0]);
        },
        _ => panic!("expected the resolution setting"),
    }
    assert!(matches!(ops[17], BusOp::Command(0x04)));
    assert!(matches!(ops[18], BusOp::WaitBusy));
}

#[test]
fn display_emits_data_then_refresh() {
    let mut panel = Epd7in3e::new();
    let _ = panel.init();
    let buffer = vec![0x11u8; BUFFER_SIZE];
    let ops = panel.display(&buffer).unwrap();
    assert_eq!(ops.len(), 8);
    assert!(matches!(ops[0], BusOp::Command(0x10)));
    match &ops[1] {
        BusOp::Data(d) => assert_eq!(d.len(), BUFFER_SIZE),
        _ => panic!("expected the frame data"),
    }
    assert!(matches!(ops[2], BusOp::Command(0x04)));
    assert!(matches!(ops[3], BusOp::WaitBusy));
    match &ops[4] {
        BusOp::CommandData(cmd, data) => {
            assert_eq!(*cmd, 0x12);
            assert_eq!(data, &vec![0x00u8]);
        },
        _ => panic!("expected the refresh command"),
    }
    assert!(matches!(ops[7], BusOp::WaitBusy));
}

#[test]
fn clear_auto_initializes() {
    let mut panel = Epd7in3e::new();
    let ops = panel.clear(Color::White);
    assert!(panel.is_initialized());
    // The init sequence comes first, then the frame transfer.
    assert_eq!(ops.len(), 19 + 8);
    assert!(matches!(ops[0], BusOp::PowerOn));
    assert!(matches!(ops[19], BusOp::Command(0x10)));
    match &ops[20] {
        BusOp::Data(d) => {
            assert_eq!(d.len(), BUFFER_SIZE);
            assert!(d.iter().all(|&b| b == 0x11));
        },
        _ => panic!("expected the frame data"),
    }
}

#[test]
fn clear_when_initialized_skips_init() {
    let mut panel = Epd7in3e::new();
    let _ = panel.init();
    let ops = panel.clear(Color::Red);
    assert_eq!(ops.len(), 8);
    match &ops[1] {
        BusOp::Data(d) => assert!(d.iter().all(|&b| b == 0x33)),
        _ => panic!("expected the frame data"),
    }
}

#[test]
fn solid_buffer_packs_both_nibbles() {
    let b = solid_buffer(Color::Green);
    assert_eq!(b.len(), BUFFER_SIZE);
    assert!(b.iter().all(|&v| v == 0x66));
}

#[test]
fn test_pattern_has_seven_stripes() {
    let b = test_pattern_buffer();
    assert_eq!(b.len(), BUFFER_SIZE);
    // Row 0: black stripe. Row 69: white stripe. Row 140: yellow.
    // Row 476 (last band): green.
    assert_eq!(b[0], 0x00);
    assert_eq!(b[69 * 400], 0x11);
    assert_eq!(b[140 * 400], 0x22);
    assert_eq!(b[476 * 400], 0x66);
    assert_eq!(b[BUFFER_SIZE - 1], 0x66);
}

#[test]
fn sleep_resets_state_and_cuts_power() {
    let mut panel = Epd7in3e::new();
    let _ = panel.init();
    let ops = panel.sleep();
    assert!(!panel.is_initialized());
    assert_eq!(ops.len(), 4);
    assert!(matches!(ops[0], BusOp::Command(0x02)));
    assert!(matches!(ops[1], BusOp::WaitBusy));
    match &ops[2] {
        BusOp::CommandData(cmd, data) => {
            assert_eq!(*cmd, 0x07);
            assert_eq!(data, &vec![0xA5u8]);
        },
        _ => panic!("expected the deep-sleep command"),
    }
    assert!(matches!(ops[3], BusOp::PowerOff));
}

#[test]
fn wake_reinitializes_only_when_needed() {
    let mut panel = Epd7in3e::new();
    let ops = panel.wake();
    assert_eq!(ops.len(), 19);
    assert!(panel.is_initialized());
    let ops2 = panel.wake();
    assert!(ops2.is_empty());
}

#[test]
fn mark_uninitialized_forces_reinit() {
    let mut panel = Epd7in3e::new();
    let _ = panel.init();
    panel.mark_uninitialized();
    assert!(!panel.is_initialized());
}
