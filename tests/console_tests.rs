use rustos::addressing::Virtual;
use rustos::console::{
    init_mono, poll_step, Color, ColorMixin, PollAction, Serial, VGAChar, BUFFER_SIZE, CGA, LPT,
    POLL_LIMIT,
};

fn blank() -> VGAChar {
    VGAChar { ascii: b' ', color: ColorMixin::default() }
}

fn screen() -> CGA {
    CGA::new(vec![blank(); BUFFER_SIZE], 0, 0x3D4).unwrap()
}

fn ch(c: u8) -> VGAChar {
    VGAChar { ascii: c, color: ColorMixin::new(Color::White, Color::Blue) }
}

#[test]
fn color_mixin_packs_colors() {
    assert_eq!(ColorMixin::new(Color::White, Color::Blue), ColorMixin(0x1F));
    assert_eq!(ColorMixin::default(), ColorMixin(0x07));
    assert_eq!(Color::Yellow.to_raw(), 14);
}

#[test]
fn putc_writes_and_advances() {
    let mut c = screen();
    c.putc(ch(b'A'));
    c.putc(ch(b'B'));
    assert_eq!(c.pos(), 2);
    assert_eq!(c.cell(0), ch(b'A'));
    assert_eq!(c.cell(1), ch(b'B'));
}

#[test]
fn control_characters() {
    let mut c = screen();
    c.putc(ch(b'x'));
    c.putc(ch(b'y'));
    c.putc(ch(8));
    assert_eq!(c.pos(), 1);
    assert_eq!(c.cell(1), VGAChar { ascii: b' ', color: ColorMixin(0x1F) });
    c.putc(ch(b'\n'));
    assert_eq!(c.pos(), 80);
    c.putc(ch(b'z'));
    c.putc(ch(b'\r'));
    assert_eq!(c.pos(), 80);
    c.putc(ch(b'\t'));
    assert_eq!(c.pos(), 85);
    assert_eq!(c.cell(84), ch(b'_'));
    let mut d = screen();
    d.putc(ch(8));
    assert_eq!(d.pos(), 0);
}

#[test]
fn scrolls_at_the_bottom() {
    let mut c = CGA::new(vec![blank(); BUFFER_SIZE], 1999, 0x3D4).unwrap();
    c.putc(ch(b'Q'));
    assert_eq!(c.pos(), 1920);
    assert_eq!(c.cell(1999 - 80), ch(b'Q'));
    assert_eq!(c.cell(1999), blank());
    let mut d = CGA::new(vec![blank(); BUFFER_SIZE], 1930, 0x3D4).unwrap();
    d.putc(ch(b'\n'));
    assert_eq!(d.pos(), 1920);
}

#[test]
fn cursor_registers() {
    let c = CGA::new(vec![blank(); BUFFER_SIZE], 0x123, 0x3D4).unwrap();
    assert_eq!(c.cursor_commands(), vec![(0x3D4, 14), (0x3D5, 0x01), (0x3D4, 15), (0x3D5, 0x23)]);
    assert!(CGA::new(vec![blank(); 10], 0, 0x3D4).is_none());
    assert!(CGA::new(vec![blank(); BUFFER_SIZE], 2000, 0x3D4).is_none());
}

#[test]
fn mono_buffer_location() {
    let k = Virtual::new(0x80_0400_0000).unwrap();
    assert_eq!(init_mono(&k), Ok((0x80_040B_0000, 0x3B4)));
    assert!(init_mono(&Virtual::new(u64::MAX).unwrap()).is_err());
}

#[test]
fn printer_and_serial_rules() {
    assert!(LPT::ready(0x80));
    assert!(!LPT::ready(0x7F));
    assert_eq!(LPT::status_port(), 0x379);
    assert_eq!(LPT::send_commands(b'k'), vec![(0x378, b'k'), (0x37A, 0x0F), (0x37A, 0x08)]);
    assert!(Serial::present(0x60));
    assert!(!Serial::present(0xFF));
    assert!(Serial::ready(0x20));
    assert!(!Serial::ready(0x1F));
    assert_eq!(Serial::status_port(), 0x3FD);
    assert_eq!(
        Serial::init_commands(),
        vec![(0x3FA, 0), (0x3FB, 0x80), (0x3F8, 12), (0x3F9, 0), (0x3FB, 3), (0x3FC, 0), (0x3F9, 1)]
    );
}

#[test]
fn polling_stops_when_ready_or_at_the_limit() {
    assert_eq!(poll_step(0, true), PollAction::Send);
    assert_eq!(poll_step(0, false), PollAction::Retry(1));
    assert_eq!(poll_step(POLL_LIMIT - 2, false), PollAction::Retry(POLL_LIMIT - 1));
    assert_eq!(poll_step(POLL_LIMIT - 1, false), PollAction::Send);
}
