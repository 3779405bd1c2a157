use vstd::prelude::*;
use crate::addressing::Virtual;

verus! {

/// Text rows on the screen.
pub const BUFFER_HEIGHT: usize = 25;

/// Characters in a row.
pub const BUFFER_WIDTH: usize = 80;

/// Characters on the screen.
pub const BUFFER_SIZE: usize = 2000;

/// Offset of the color text buffer from the kernel base.
pub const CGA_BUF: u64 = 0xB8000;

/// Index register port of the color adapter.
pub const CGA_BASE: u16 = 0x3D4;

/// Offset of the monochrome text buffer from the kernel base.
pub const MONO_BUF: u64 = 0xB0000;

/// Index register port of the monochrome adapter.
pub const MONO_BASE: u16 = 0x3B4;

/// The sixteen text-mode colors.
#[derive(Clone, Copy, PartialEq, Eq, Structural, Debug)]
pub enum Color {
    Black,
    Blue,
    Green,
    Cyan,
    Red,
    Magenta,
    Brown,
    LightGray,
    DarkGray,
    LightBlue,
    LightGreen,
    LightCyan,
    LightRed,
    Pink,
    Yellow,
    White,
}

impl Color {
    /// The color's 4-bit code.
    pub open spec fn code(self) -> u8 {
        match self {
            Color::Black => 0,
            Color::Blue => 1,
            Color::Green => 2,
            Color::Cyan => 3,
            Color::Red => 4,
            Color::Magenta => 5,
            Color::Brown => 6,
            Color::LightGray => 7,
            Color::DarkGray => 8,
            Color::LightBlue => 9,
            Color::LightGreen => 10,
            Color::LightCyan => 11,
            Color::LightRed => 12,
            Color::Pink => 13,
            Color::Yellow => 14,
            Color::White => 15,
        }
    }

    /// The color's 4-bit code.
    pub fn to_raw(self) -> (r: u8)
        ensures
            r == self.code(),
    {
        match self {
            Color::Black => 0,
            Color::Blue => 1,
            Color::Green => 2,
            Color::Cyan => 3,
            Color::Red => 4,
            Color::Magenta => 5,
            Color::Brown => 6,
            Color::LightGray => 7,
            Color::DarkGray => 8,
            Color::LightBlue => 9,
            Color::LightGreen => 10,
            Color::LightCyan => 11,
            Color::LightRed => 12,
            Color::Pink => 13,
            Color::Yellow => 14,
            Color::White => 15,
        }
    }
}

/// A foreground and a background color in one attribute byte.
#[derive(Clone, Copy, PartialEq, Eq, Structural, Debug)]
pub struct ColorMixin(pub u8);

impl ColorMixin {
    /// Background in the high four bits, foreground in the low four.
    pub fn new(fg: Color, bg: Color) -> (r: ColorMixin)
        ensures
            r.0 == bg.code() * 16 + fg.code(),
    {
        let b = bg.to_raw();
        let f = fg.to_raw();
        assert(b < 16 && f < 16);
        ColorMixin(b * 16 + f)
    }
}

impl Default for ColorMixin {
    /// Light gray on black.
    fn default() -> (r: ColorMixin)
        ensures
            r.0 == 0x07,
    {
        ColorMixin::new(Color::LightGray, Color::Black)
    }
}

/// A character cell: the character and its colors.
#[derive(Clone, Copy, PartialEq, Eq, Structural, Debug)]
pub struct VGAChar {
    pub ascii: u8,
    pub color: ColorMixin,
}

/// Where the monochrome text buffer lies, and its index register port.
/// Fails when the buffer's address does not fit in 64 bits.
pub fn init_mono(kbase: &Virtual) -> (r: Result<(u64, u16), ()>)
    ensures
        r is Ok <==> kbase@ + MONO_BUF <= u64::MAX,
        r matches Ok(p) ==> p == ((kbase@ + MONO_BUF) as u64, MONO_BASE),
{
    let base = kbase.to_u64();
    if base > u64::MAX - MONO_BUF {
        return Err(());
    }
    Ok((base + MONO_BUF, MONO_BASE))
}

/// An empty cell: a space, light gray on black.
pub open spec fn blank_cell() -> VGAChar {
    VGAChar { ascii: 0x20, color: ColorMixin(0x07) }
}

/// The screen moved up one row, with an empty last row.
pub open spec fn scrolled(cells: Seq<VGAChar>) -> Seq<VGAChar> {
    cells.subrange(80, 2000) + Seq::new(80, |i: int| blank_cell())
}

/// Scrolls when the cursor has run off the screen.
pub open spec fn settle(cells: Seq<VGAChar>, pos: int) -> (Seq<VGAChar>, int) {
    if pos >= 2000 {
        (scrolled(cells), pos - 80)
    } else {
        (cells, pos)
    }
}

/// Writes one character other than a tab: backspace blanks the cell before
/// the cursor, newline moves to the next row, carriage return to the start
/// of the row, anything else is stored at the cursor, which advances.
pub open spec fn put_plain(cells: Seq<VGAChar>, pos: int, vc: VGAChar) -> (Seq<VGAChar>, int) {
    if vc.ascii == 8 {
        if pos > 0 {
            settle(cells.update(pos - 1, VGAChar { ascii: 0x20, color: vc.color }), pos - 1)
        } else {
            settle(cells, pos)
        }
    } else if vc.ascii == 10 {
        settle(cells, pos + 80 - pos % 80)
    } else if vc.ascii == 13 {
        settle(cells, pos - pos % 80)
    } else {
        settle(cells.update(pos, vc), pos + 1)
    }
}

/// Writes one character; a tab becomes five underscores in its colors.
pub open spec fn put_char(cells: Seq<VGAChar>, pos: int, vc: VGAChar) -> (Seq<VGAChar>, int) {
    if vc.ascii == 9 {
        let u = VGAChar { ascii: 0x5F, color: vc.color };
        let s1 = put_plain(cells, pos, u);
        let s2 = put_plain(s1.0, s1.1, u);
        let s3 = put_plain(s2.0, s2.1, u);
        let s4 = put_plain(s3.0, s3.1, u);
        put_plain(s4.0, s4.1, u)
    } else {
        put_plain(cells, pos, vc)
    }
}

/// A text-mode screen: the cells, the cursor, and the adapter's index port.
pub struct CGA {
    buffer: Vec<VGAChar>,
    pos: usize,
    port: u16,
}

impl CGA {
    /// The cells, row by row.
    pub closed spec fn cells(&self) -> Seq<VGAChar> {
        self.buffer@
    }

    /// The cursor, as a cell index.
    pub closed spec fn cursor(&self) -> int {
        self.pos as int
    }

    /// The index register port.
    pub closed spec fn index_port(&self) -> u16 {
        self.port
    }

    /// A full screen, the cursor on it, and a port with a data port after it.
    pub open spec fn wf(&self) -> bool {
        &&& self.cells().len() == BUFFER_SIZE
        &&& 0 <= self.cursor() < BUFFER_SIZE
        &&& self.index_port() < u16::MAX
    }

    /// A screen holding `screen`, with the cursor at `pos`; `None` unless
    /// `screen` fills the screen, `pos` is on it, and `port + 1` is a port.
    pub fn new(screen: Vec<VGAChar>, pos: usize, port: u16) -> (r: Option<CGA>)
        ensures
            r is Some <==> screen@.len() == BUFFER_SIZE && pos < BUFFER_SIZE && port < u16::MAX,
            r matches Some(c) ==> c.wf() && c.cells() == screen@ && c.cursor() == pos
                && c.index_port() == port,
    {
        if screen.len() != BUFFER_SIZE || pos >= BUFFER_SIZE || port == u16::MAX {
            return None;
        }
        Some(CGA { buffer: screen, pos, port })
    }

    /// The cursor.
    pub fn pos(&self) -> (r: usize)
        ensures
            r == self.cursor(),
    {
        self.pos
    }

    /// The cell at `i`.
    pub fn cell(&self, i: usize) -> (r: VGAChar)
        requires
            self.wf(),
            i < BUFFER_SIZE,
        ensures
            r == self.cells()[i as int],
    {
        self.buffer[i]
    }

    fn scroll(&mut self)
        requires
            old(self).buffer@.len() == BUFFER_SIZE,
        ensures
            final(self).buffer@ == scrolled(old(self).buffer@),
            final(self).pos == old(self).pos,
            final(self).port == old(self).port,
    {
        let ghost s = self.buffer@;
        let mut i: usize = 0;
        while i < BUFFER_SIZE - BUFFER_WIDTH
            invariant
                i <= BUFFER_SIZE - BUFFER_WIDTH,
                self.buffer@.len() == BUFFER_SIZE,
                self.pos == old(self).pos,
                self.port == old(self).port,
                s == old(self).buffer@,
                forall|j: int| 0 <= j < i ==> self.buffer@[j] == s[j + 80],
                forall|j: int| i <= j < BUFFER_SIZE ==> self.buffer@[j] == s[j],
            decreases BUFFER_SIZE - BUFFER_WIDTH - i,
        {
            let c = self.buffer[i + BUFFER_WIDTH];
            self.buffer.set(i, c);
            i = i + 1;
        }
        while i < BUFFER_SIZE
            invariant
                BUFFER_SIZE - BUFFER_WIDTH <= i <= BUFFER_SIZE,
                self.buffer@.len() == BUFFER_SIZE,
                self.pos == old(self).pos,
                self.port == old(self).port,
                s == old(self).buffer@,
                forall|j: int| 0 <= j < 1920 ==> self.buffer@[j] == s[j + 80],
                forall|j: int| 1920 <= j < i ==> self.buffer@[j] == blank_cell(),
            decreases BUFFER_SIZE - i,
        {
            self.buffer.set(i, VGAChar { ascii: 0x20, color: ColorMixin::new(Color::LightGray, Color::Black) });
            i = i + 1;
        }
        assert(self.buffer@ =~= scrolled(s));
    }

    fn put_plain(&mut self, vc: VGAChar)
        requires
            old(self).wf(),
        ensures
            final(self).wf(),
            final(self).port == old(self).port,
            (final(self).buffer@, final(self).pos as int) == put_plain(old(self).buffer@, old(self).pos as int, vc),
    {
        if vc.ascii == 8 {
            if self.pos > 0 {
                self.pos = self.pos - 1;
                self.buffer.set(self.pos, VGAChar { color: vc.color, ascii: 0x20 });
            }
        } else if vc.ascii == 10 {
            self.pos = self.pos + (BUFFER_WIDTH - self.pos % BUFFER_WIDTH);
        } else if vc.ascii == 13 {
            self.pos = self.pos - self.pos % BUFFER_WIDTH;
        } else {
            self.buffer.set(self.pos, vc);
            self.pos = self.pos + 1;
        }
        if self.pos >= BUFFER_SIZE {
            self.scroll();
            self.pos = self.pos - BUFFER_WIDTH;
        }
    }

    /// Writes `vc` at the cursor as `put_char` describes, scrolling when the
    /// cursor runs off the screen.
    pub fn putc(&mut self, vc: VGAChar)
        requires
            old(self).wf(),
        ensures
            final(self).wf(),
            final(self).index_port() == old(self).index_port(),
            (final(self).cells(), final(self).cursor()) == put_char(old(self).cells(), old(self).cursor(), vc),
    {
        if vc.ascii == 9 {
            let u = VGAChar { color: vc.color, ascii: 0x5F };
            self.put_plain(u);
            self.put_plain(u);
            self.put_plain(u);
            self.put_plain(u);
            self.put_plain(u);
        } else {
            self.put_plain(vc);
        }
    }

    /// The register writes that move the hardware cursor to the cursor: the
    /// high byte through index 14, the low byte through index 15.
    pub fn cursor_commands(&self) -> (r: Vec<(u16, u8)>)
        requires
            self.wf(),
        ensures
            r@ == seq![
                (self.index_port(), 14u8),
                ((self.index_port() + 1) as u16, (self.cursor() / 256) as u8),
                (self.index_port(), 15u8),
                ((self.index_port() + 1) as u16, (self.cursor() % 256) as u8),
            ],
    {
        let mut r: Vec<(u16, u8)> = Vec::new();
        r.push((self.port, 14));
        r.push((self.port + 1, (self.pos / 256) as u8));
        r.push((self.port, 15));
        r.push((self.port + 1, (self.pos % 256) as u8));
        assert(r@ =~= seq![
            (self.index_port(), 14u8),
            ((self.index_port() + 1) as u16, (self.cursor() / 256) as u8),
            (self.index_port(), 15u8),
            ((self.index_port() + 1) as u16, (self.cursor() % 256) as u8),
        ]);
        r
    }
}

/// How many times a polled device's status is read before a byte is sent
/// regardless.
pub const POLL_LIMIT: u32 = 12800;

/// Port whose reads serve as a short delay between status polls.
pub const DELAY_PORT: u16 = 0x84;

/// The parallel port printer.
pub struct LPT;

impl LPT {
    /// Data port; status is at `BASE + 1`, control at `BASE + 2`.
    pub const BASE: u16 = 0x378;

    /// The status port that is polled before a byte is sent.
    pub fn status_port() -> (r: u16)
        ensures
            r == 0x379,
    {
        Self::BASE + 1
    }

    /// The printer takes a byte once the busy line (bit 7 of the status) is
    /// up.
    pub fn ready(status: u8) -> (r: bool)
        ensures
            r == (status & 0x80 != 0),
    {
        status & 0x80 != 0
    }

    /// The writes that hand `c` to the printer: the byte, then a strobe
    /// pulse on the control port.
    pub fn send_commands(c: u8) -> (r: Vec<(u16, u8)>)
        ensures
            r@ == seq![(0x378u16, c), (0x37Au16, 0x0Fu8), (0x37Au16, 0x08u8)],
    {
        let mut r: Vec<(u16, u8)> = Vec::new();
        r.push((Self::BASE, c));
        r.push((Self::BASE + 2, 0xf));
        r.push((Self::BASE + 2, 0x8));
        assert(r@ =~= seq![(0x378u16, c), (0x37Au16, 0x0Fu8), (0x37Au16, 0x08u8)]);
        r
    }
}

/// The first serial port (a 16550-style UART).
pub struct Serial;

impl Serial {
    /// Base port of the UART's registers.
    pub const BASE: u16 = 0x3F8;

    /// Line status register.
    pub const LSR: u16 = 5;

    /// Line status: the transmit buffer is free.
    pub const LSR_TXRDY: u8 = 0x20;

    /// The writes that set the UART up: FIFO off, 9600 baud, 8 data bits
    /// with one stop bit and no parity, no modem control, receive interrupts
    /// on.
    pub fn init_commands() -> (r: Vec<(u16, u8)>)
        ensures
            r@ == seq![
                (0x3FAu16, 0u8),
                (0x3FBu16, 0x80u8),
                (0x3F8u16, 12u8),
                (0x3F9u16, 0u8),
                (0x3FBu16, 0x03u8),
                (0x3FCu16, 0u8),
                (0x3F9u16, 0x01u8),
            ],
    {
        let mut r: Vec<(u16, u8)> = Vec::new();
        r.push((Self::BASE + 2, 0));
        r.push((Self::BASE + 3, 0x80));
        r.push((Self::BASE, (115200u32 / 9600) as u8));
        r.push((Self::BASE + 1, 0));
        r.push((Self::BASE + 3, 0x03 & !0x80u8));
        r.push((Self::BASE + 4, 0));
        r.push((Self::BASE + 1, 0x01));
        assert(0x03u8 & !0x80u8 == 0x03u8) by (bit_vector);
        assert(r@ =~= seq![
            (0x3FAu16, 0u8),
            (0x3FBu16, 0x80u8),
            (0x3F8u16, 12u8),
            (0x3F9u16, 0u8),
            (0x3FBu16, 0x03u8),
            (0x3FCu16, 0u8),
            (0x3F9u16, 0x01u8),
        ]);
        r
    }

    /// The line status register.
    pub fn status_port() -> (r: u16)
        ensures
            r == 0x3FD,
    {
        Self::BASE + Self::LSR
    }

    /// A UART is there unless its line status reads all ones.
    pub fn present(lsr: u8) -> (r: bool)
        ensures
            r == (lsr != 0xFF),
    {
        lsr != 0xFF
    }

    /// The UART takes a byte once its transmit buffer is free.
    pub fn ready(lsr: u8) -> (r: bool)
        ensures
            r == (lsr & 0x20 != 0),
    {
        lsr & Self::LSR_TXRDY != 0
    }
}

/// What a polling loop does after one read of a device's status.
#[derive(Clone, Copy, PartialEq, Eq, Structural, Debug)]
pub enum PollAction {
    /// Send the byte now.
    Send,
    /// Wait a moment, then read the status again; the number of reads so far.
    Retry(u32),
}

/// After the status read number `polls + 1`: send when the device is ready
/// or when `POLL_LIMIT` reads have been made, else wait and read again.
pub fn poll_step(polls: u32, ready: bool) -> (r: PollAction)
    requires
        polls < POLL_LIMIT,
    ensures
        r == (if ready || polls + 1 >= POLL_LIMIT {
            PollAction::Send
        } else {
            PollAction::Retry((polls + 1) as u32)
        }),
{
    if ready || polls + 1 >= POLL_LIMIT {
        PollAction::Send
    } else {
        PollAction::Retry(polls + 1)
    }
}

} // verus!
