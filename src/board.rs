//! Declarative descriptors of the supported board variants.
use vstd::prelude::*;

verus! {

/// The supported board variants.
#[derive(Clone, Copy, Debug, PartialEq, Eq, Structural)]
pub enum Board {
    Cw310,
    Cw340,
}

/// Where a logical name lands on the hardware.
#[derive(Clone, Copy, Debug, PartialEq, Eq, Structural)]
pub enum PhysicalAddress {
    /// A GPIO line of the board's controller, by index.
    Gpio(u8),
    /// An SPI bus of the board's controller, by index.
    Spi(u8),
    /// A UART role, by position: the console is position 0.
    Uart(u8),
}

/// One line of a pin table: a logical name and its address.
#[derive(Debug)]
pub struct PinEntry {
    pub name: String,
    pub addr: PhysicalAddress,
}

impl PinEntry {
    pub open spec fn view(&self) -> (Seq<char>, PhysicalAddress) {
        (self.name@, self.addr)
    }
}

/// The views of a list of pin entries.
pub open spec fn entry_views(v: Seq<PinEntry>) -> Seq<(Seq<char>, PhysicalAddress)> {
    v.map_values(|e: PinEntry| e@)
}

/// The UART roles that a board declares, console first.
pub open spec fn uart_roles(b: Board) -> Seq<Seq<char>> {
    seq!["console"@, "aux"@]
}

/// For each UART role, the position among the board's auto-discovered serial ports
/// at which that role is found.
pub open spec fn uart_port_order(b: Board) -> Seq<nat> {
    match b {
        Board::Cw310 => seq![1nat, 0nat],
        Board::Cw340 => seq![0nat, 1nat],
    }
}

/// The USB vendor and product identifiers that a board enumerates with.
pub open spec fn usb_ids(b: Board) -> (u16, u16) {
    match b {
        Board::Cw310 => (0x2b3eu16, 0xc310u16),
        Board::Cw340 => (0x2b3eu16, 0xc340u16),
    }
}

/// The board's pin table: GPIO and SPI names, then the UART roles.
pub open spec fn board_table(b: Board) -> Seq<(Seq<char>, PhysicalAddress)> {
    match b {
        Board::Cw310 => seq![
            ("RESET"@, PhysicalAddress::Gpio(0)),
            ("TAP_STRAP0"@, PhysicalAddress::Gpio(1)),
            ("TAP_STRAP1"@, PhysicalAddress::Gpio(2)),
            ("BOOTSTRAP"@, PhysicalAddress::Gpio(3)),
            ("SPI_FLASH"@, PhysicalAddress::Spi(0)),
            ("console"@, PhysicalAddress::Uart(0)),
            ("aux"@, PhysicalAddress::Uart(1)),
        ],
        Board::Cw340 => seq![
            ("RESET"@, PhysicalAddress::Gpio(0)),
            ("TAP_STRAP0"@, PhysicalAddress::Gpio(4)),
            ("TAP_STRAP1"@, PhysicalAddress::Gpio(5)),
            ("BOOTSTRAP"@, PhysicalAddress::Gpio(6)),
            ("SPI_FLASH"@, PhysicalAddress::Spi(1)),
            ("console"@, PhysicalAddress::Uart(0)),
            ("aux"@, PhysicalAddress::Uart(1)),
        ],
    }
}

/// The names of a table, in order.
pub open spec fn table_names(t: Seq<(Seq<char>, PhysicalAddress)>) -> Seq<Seq<char>> {
    t.map_values(|e: (Seq<char>, PhysicalAddress)| e.0)
}

fn entry(name: &str, addr: PhysicalAddress) -> (r: PinEntry)
    ensures
        r@ == (name@, addr),
{
    PinEntry { name: String::from_str(name), addr }
}

impl Board {
    /// The board's pin table.
    pub fn pins(self) -> (r: Vec<PinEntry>)
        ensures
            entry_views(r@) == board_table(self),
    {
        let (g1, g2, g3, s): (u8, u8, u8, u8) = match self {
            Board::Cw310 => (1, 2, 3, 0),
            Board::Cw340 => (4, 5, 6, 1),
        };
        let r = vec![
            entry("RESET", PhysicalAddress::Gpio(0)),
            entry("TAP_STRAP0", PhysicalAddress::Gpio(g1)),
            entry("TAP_STRAP1", PhysicalAddress::Gpio(g2)),
            entry("BOOTSTRAP", PhysicalAddress::Gpio(g3)),
            entry("SPI_FLASH", PhysicalAddress::Spi(s)),
            entry("console", PhysicalAddress::Uart(0)),
            entry("aux", PhysicalAddress::Uart(1)),
        ];
        assert(entry_views(r@) =~= board_table(self));
        r
    }

    /// The number of UART roles that the board declares.
    pub fn uart_role_count(self) -> (r: usize)
        ensures
            r == uart_roles(self).len(),
    {
        2
    }

    /// The position among the auto-discovered serial ports of UART role `role`.
    pub fn uart_port(self, role: usize) -> (r: usize)
        requires
            role < uart_roles(self).len(),
        ensures
            r == uart_port_order(self)[role as int],
    {
        match self {
            Board::Cw310 => 1 - role,
            Board::Cw340 => role,
        }
    }

    /// The USB vendor and product identifiers of the board.
    pub fn usb_ids(self) -> (r: (u16, u16))
        ensures
            r == usb_ids(self),
    {
        match self {
            Board::Cw310 => (0x2b3e, 0xc310),
            Board::Cw340 => (0x2b3e, 0xc340),
        }
    }
}

} // verus!
