use std::rc::Rc;

use chip_whisperer_backend::board::{Board, PhysicalAddress, PinEntry};
use chip_whisperer_backend::chip_whisperer::{plan_uarts, Transport};
use chip_whisperer_backend::discovery::{select_device, UsbDevice};
use chip_whisperer_backend::error::{Capability, TransportError};
use chip_whisperer_backend::io_mapper::IoMapper;
use chip_whisperer_backend::registry::DeviceRegistry;
use chip_whisperer_backend::uart_list::split_uart_list;
use chip_whisperer_backend::{create, BackendOpts, ChipWhispererOpts};

fn dev(vid: u16, pid: u16, serial: &str, path: &str) -> UsbDevice {
    UsbDevice { vid, pid, serial: serial.to_string(), path: path.to_string() }
}

fn strings(v: &[&str]) -> Vec<String> {
    v.iter().map(|s| s.to_string()).collect()
}

fn opts(vid: Option<u16>, pid: Option<u16>, serial: Option<&str>, uarts: Option<&str>) -> BackendOpts {
    BackendOpts {
        usb_vid: vid,
        usb_pid: pid,
        usb_serial: serial.map(|s| s.to_string()),
        opts: ChipWhispererOpts { uarts: uarts.map(|s| s.to_string()) },
    }
}

fn two_boards() -> Vec<UsbDevice> {
    vec![dev(0x2b3e, 0xc310, "A1", "usb:1"), dev(0x2b3e, 0xc310, "B2", "usb:2")]
}

fn build(
    args: &BackendOpts,
    board: Board,
    devices: &Vec<UsbDevice>,
    discovered: &[&str],
    registry: &mut DeviceRegistry,
) -> Result<Transport, TransportError> {
    create(args, Rc::new(IoMapper::new(board)), devices, &strings(discovered), registry)
}

#[test]
fn split_keeps_every_token() {
    assert_eq!(split_uart_list("console,aux"), strings(&["console", "aux"]));
    assert_eq!(split_uart_list("solo"), strings(&["solo"]));
    assert_eq!(split_uart_list("a,,b"), strings(&["a", "", "b"]));
    assert_eq!(split_uart_list(""), strings(&[""]));
    assert_eq!(split_uart_list("/dev/ttyACM0,"), strings(&["/dev/ttyACM0", ""]));
}

#[test]
fn resolve_declared_names() {
    let m = IoMapper::new(Board::Cw310);
    assert_eq!(m.resolve("RESET").unwrap(), PhysicalAddress::Gpio(0));
    assert_eq!(m.resolve("TAP_STRAP1").unwrap(), PhysicalAddress::Gpio(2));
    assert_eq!(m.resolve("SPI_FLASH").unwrap(), PhysicalAddress::Spi(0));
    assert_eq!(m.resolve("aux").unwrap(), PhysicalAddress::Uart(1));
    let m = IoMapper::new(Board::Cw340);
    assert_eq!(m.resolve("TAP_STRAP0").unwrap(), PhysicalAddress::Gpio(4));
    assert_eq!(m.resolve("SPI_FLASH").unwrap(), PhysicalAddress::Spi(1));
}

#[test]
fn resolve_unknown_name_fails() {
    let m = IoMapper::new(Board::Cw310);
    match m.resolve("NOPE") {
        Err(TransportError::UnknownPin(n)) => assert_eq!(n, "NOPE"),
        other => panic!("unexpected {:?}", other),
    }
    assert!(matches!(m.resolve("reset"), Err(TransportError::UnknownPin(_))));
}

#[test]
fn overrides_take_precedence_for_their_names_only() {
    let ov = vec![
        PinEntry { name: "RESET".to_string(), addr: PhysicalAddress::Gpio(9) },
        PinEntry { name: "EXTRA".to_string(), addr: PhysicalAddress::Spi(3) },
    ];
    let m = IoMapper::with_overrides(Board::Cw310, ov);
    assert_eq!(m.resolve("RESET").unwrap(), PhysicalAddress::Gpio(9));
    assert_eq!(m.resolve("EXTRA").unwrap(), PhysicalAddress::Spi(3));
    assert_eq!(m.resolve("BOOTSTRAP").unwrap(), PhysicalAddress::Gpio(3));
    assert_eq!(m.board(), Board::Cw310);
}

#[test]
fn board_descriptor_values() {
    assert_eq!(Board::Cw310.usb_ids(), (0x2b3e, 0xc310));
    assert_eq!(Board::Cw340.usb_ids(), (0x2b3e, 0xc340));
    assert_eq!(Board::Cw310.uart_role_count(), 2);
    assert_eq!(Board::Cw310.uart_port(0), 1);
    assert_eq!(Board::Cw340.uart_port(0), 0);
    assert_eq!(Board::Cw310.pins().len(), 7);
}

#[test]
fn select_one_device() {
    let devs = vec![dev(1, 2, "x", "usb:a"), dev(0x2b3e, 0xc310, "A1", "usb:b")];
    assert_eq!(select_device(&devs, Some(0x2b3e), Some(0xc310), &None).unwrap(), 1);
    assert_eq!(select_device(&devs, Some(1), None, &None).unwrap(), 0);
}

#[test]
fn select_no_device() {
    let devs = vec![dev(1, 2, "x", "usb:a")];
    assert!(matches!(select_device(&devs, Some(3), None, &None), Err(TransportError::DeviceNotFound)));
    assert!(matches!(select_device(&Vec::new(), None, None, &None), Err(TransportError::DeviceNotFound)));
}

#[test]
fn select_several_devices_is_ambiguous() {
    let devs = two_boards();
    match select_device(&devs, Some(0x2b3e), Some(0xc310), &None) {
        Err(TransportError::AmbiguousDevice(c)) => assert_eq!(c, vec![0, 1]),
        other => panic!("unexpected {:?}", other),
    }
    let serial = Some("B2".to_string());
    assert_eq!(select_device(&devs, Some(0x2b3e), Some(0xc310), &serial).unwrap(), 1);
}

#[test]
fn auto_discovered_ports_follow_board_order() {
    let disc = strings(&["/dev/ttyACM0", "/dev/ttyACM1"]);
    assert_eq!(plan_uarts(Board::Cw310, Vec::new(), &disc).unwrap(), strings(&["/dev/ttyACM1", "/dev/ttyACM0"]));
    assert_eq!(plan_uarts(Board::Cw340, Vec::new(), &disc).unwrap(), strings(&["/dev/ttyACM0", "/dev/ttyACM1"]));
    let short = strings(&["/dev/ttyACM0"]);
    assert!(matches!(plan_uarts(Board::Cw310, Vec::new(), &short), Err(TransportError::DeviceNotFound)));
    assert_eq!(plan_uarts(Board::Cw310, strings(&["x"]), &short).unwrap(), strings(&["x"]));
}

#[test]
fn registry_refuses_second_open() {
    let mut reg = DeviceRegistry::new();
    let p = "/dev/ttyUSB0".to_string();
    assert!(reg.open(&p).is_ok());
    match reg.open(&p) {
        Err(TransportError::DeviceBusy(q)) => assert_eq!(q, p),
        other => panic!("unexpected {:?}", other),
    }
    assert_eq!(reg.len(), 1);
    reg.close(&p);
    assert!(!reg.is_open(&p));
    assert!(reg.open(&p).is_ok());
}

#[test]
fn explicit_uarts_bind_by_position() {
    let devs = vec![dev(0x2b3e, 0xc310, "A1", "usb:1")];
    let mut reg = DeviceRegistry::new();
    let args = opts(Some(0x2b3e), Some(0xc310), None, Some("console,aux"));
    let t = build(&args, Board::Cw310, &devs, &["/dev/ttyACM0", "/dev/ttyACM1"], &mut reg).unwrap();
    assert_eq!(t.uart("console").unwrap(), "console");
    assert_eq!(t.uart("aux").unwrap(), "aux");
    assert_eq!(t.console_path(), "console");
    assert_eq!(t.device_path(), "usb:1");
    assert_eq!(t.handle_count(), 3);
    assert_eq!(reg.len(), 3);
}

#[test]
fn single_uart_is_the_console() {
    let devs = vec![dev(0x2b3e, 0xc310, "A1", "usb:1")];
    let mut reg = DeviceRegistry::new();
    let args = opts(None, None, None, Some("/dev/ttyUSB3"));
    let t = build(&args, Board::Cw340, &devs, &[], &mut reg).unwrap();
    assert_eq!(t.console_path(), "/dev/ttyUSB3");
    assert_eq!(t.uart("console").unwrap(), "/dev/ttyUSB3");
    assert!(matches!(t.uart("aux"), Err(TransportError::UnknownPin(_))));
}

#[test]
fn discovery_binds_board_ordered_ports() {
    let devs = vec![dev(0x2b3e, 0xc310, "A1", "usb:1")];
    let mut reg = DeviceRegistry::new();
    let args = opts(None, None, None, None);
    let t = build(&args, Board::Cw310, &devs, &["/dev/ttyACM0", "/dev/ttyACM1"], &mut reg).unwrap();
    assert_eq!(t.uart("console").unwrap(), "/dev/ttyACM1");
    assert_eq!(t.uart("aux").unwrap(), "/dev/ttyACM0");
}

#[test]
fn create_without_match_fails() {
    let devs = two_boards();
    let mut reg = DeviceRegistry::new();
    let args = opts(Some(0x1234), None, None, Some("a"));
    assert!(matches!(build(&args, Board::Cw310, &devs, &[], &mut reg), Err(TransportError::DeviceNotFound)));
    assert_eq!(reg.len(), 0);
}

#[test]
fn create_with_two_matches_is_ambiguous() {
    let devs = two_boards();
    let mut reg = DeviceRegistry::new();
    let args = opts(Some(0x2b3e), Some(0xc310), None, Some("a"));
    match build(&args, Board::Cw310, &devs, &[], &mut reg) {
        Err(TransportError::AmbiguousDevice(c)) => assert_eq!(c, vec![0, 1]),
        other => panic!("unexpected {:?}", other),
    }
    let args = opts(Some(0x2b3e), Some(0xc310), Some("A1"), Some("a"));
    let t = build(&args, Board::Cw310, &devs, &[], &mut reg).unwrap();
    assert_eq!(t.device_path(), "usb:1");
}

#[test]
fn duplicate_uart_path_is_busy_and_rolled_back() {
    let devs = vec![dev(0x2b3e, 0xc310, "A1", "usb:1")];
    let mut reg = DeviceRegistry::new();
    let args = opts(None, None, None, Some("/dev/ttyUSB0,/dev/ttyUSB0"));
    match build(&args, Board::Cw310, &devs, &[], &mut reg) {
        Err(TransportError::DeviceBusy(p)) => assert_eq!(p, "/dev/ttyUSB0"),
        other => panic!("unexpected {:?}", other),
    }
    assert_eq!(reg.len(), 0);
}

#[test]
fn second_transport_on_same_uart_is_busy() {
    let devs = vec![dev(0x2b3e, 0xc310, "A1", "usb:1"), dev(0x2b3e, 0xc340, "C3", "usb:3")];
    let mut reg = DeviceRegistry::new();
    let first = opts(None, Some(0xc310), None, Some("/dev/ttyUSB0,/dev/ttyUSB1"));
    let t = build(&first, Board::Cw310, &devs, &[], &mut reg).unwrap();
    let second = opts(None, Some(0xc340), None, Some("/dev/ttyUSB2,/dev/ttyUSB1"));
    match build(&second, Board::Cw340, &devs, &[], &mut reg) {
        Err(TransportError::DeviceBusy(p)) => assert_eq!(p, "/dev/ttyUSB1"),
        other => panic!("unexpected {:?}", other),
    }
    assert_eq!(reg.len(), 3);
    assert!(!reg.is_open(&"usb:3".to_string()));
    assert!(!reg.is_open(&"/dev/ttyUSB2".to_string()));
    t.release(&mut reg);
    assert_eq!(reg.len(), 0);
    assert!(build(&second, Board::Cw340, &devs, &[], &mut reg).is_ok());
}

#[test]
fn missing_discovered_port_fails_without_handles() {
    let devs = vec![dev(0x2b3e, 0xc310, "A1", "usb:1")];
    let mut reg = DeviceRegistry::new();
    let args = opts(None, None, None, None);
    assert!(matches!(build(&args, Board::Cw310, &devs, &["/dev/ttyACM0"], &mut reg), Err(TransportError::DeviceNotFound)));
    assert_eq!(reg.len(), 0);
}

#[test]
fn unsupported_capabilities_are_unavailable() {
    let devs = vec![dev(0x2b3e, 0xc310, "A1", "usb:1")];
    let mut reg = DeviceRegistry::new();
    let t = build(&opts(None, None, None, Some("c,a")), Board::Cw310, &devs, &[], &mut reg).unwrap();
    for k in [Capability::I2c, Capability::Jtag] {
        match t.capability(k) {
            Err(TransportError::CapabilityUnavailable(got)) => assert_eq!(got, k),
            other => panic!("unexpected {:?}", other),
        }
    }
    let h = t.capability(Capability::Gpio).unwrap();
    assert_eq!(h.kind, Capability::Gpio);
    assert_eq!(h.device, "usb:1");
    assert_eq!(t.capability(Capability::Uart).unwrap().device, "c");
    assert_eq!(t.capability(Capability::RawUsb).unwrap().device, "usb:1");
}

#[test]
fn gpio_names_resolve_through_the_mapper() {
    let devs = vec![dev(0x2b3e, 0xc340, "A1", "usb:1")];
    let mut reg = DeviceRegistry::new();
    let t = build(&opts(None, None, None, Some("c")), Board::Cw340, &devs, &[], &mut reg).unwrap();
    assert_eq!(t.gpio("BOOTSTRAP").unwrap(), 6);
    assert!(matches!(t.gpio("SPI_FLASH"), Err(TransportError::UnknownPin(_))));
    assert!(matches!(t.gpio("missing"), Err(TransportError::UnknownPin(_))));
}
