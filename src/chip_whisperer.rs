//! The ChipWhisperer backend: construction from selection options, and the
//! transport that owns the opened handles.
use vstd::prelude::*;
use std::rc::Rc;
use crate::board::{Board, PhysicalAddress, uart_port_order, uart_roles};
use crate::discovery::{UsbDevice, matching, opt_view, select_device};
use crate::error::{Capability, TransportError};
use crate::io_mapper::IoMapper;
use crate::opts::BackendOpts;
use crate::registry::DeviceRegistry;
use crate::uart_list::{lemma_first_token, lemma_split_commas_nonempty, split_commas, split_uart_list, views};

verus! {

/// The UART device paths by role, console first: the explicit list if one was given,
/// else the auto-discovered ports in the order that the board declares; `None` when
/// a port that the board needs was not discovered.
pub open spec fn planned_uarts(b: Board, explicit: Seq<Seq<char>>, disc: Seq<Seq<char>>) -> Option<
    Seq<Seq<char>>,
> {
    if explicit.len() > 0 {
        Some(explicit)
    } else if forall|i: int|
        0 <= i < uart_roles(b).len() ==> #[trigger] uart_port_order(b)[i] < disc.len() {
        Some(Seq::new(uart_roles(b).len(), |i: int| disc[uart_port_order(b)[i] as int]))
    } else {
        None
    }
}

/// The explicit UART list of the options: the tokens of `uarts`, or none when absent.
pub open spec fn explicit_uarts(args: BackendOpts) -> Seq<Seq<char>> {
    match args.opts.uarts {
        Some(s) => split_commas(s@),
        None => Seq::empty(),
    }
}

/// Whether opening `paths[j]` would fail: it is held in `reg`, or earlier in `paths`.
pub open spec fn busy_at(reg: Seq<Seq<char>>, paths: Seq<Seq<char>>, j: int) -> bool {
    reg.contains(paths[j]) || paths.take(j).contains(paths[j])
}

/// Whether every path of `paths` can be opened in turn.
pub open spec fn all_free(reg: Seq<Seq<char>>, paths: Seq<Seq<char>>) -> bool {
    forall|j: int| 0 <= j < paths.len() ==> !#[trigger] busy_at(reg, paths, j)
}

/// `p` is the first path of `paths` that cannot be opened.
pub open spec fn first_busy(reg: Seq<Seq<char>>, paths: Seq<Seq<char>>, p: Seq<char>) -> bool {
    exists|j: int|
        0 <= j < paths.len() && #[trigger] busy_at(reg, paths, j) && paths[j] == p && forall|k: int|
            0 <= k < j ==> !#[trigger] busy_at(reg, paths, k)
}

/// Whatever the board and the discovered ports, an explicit list is bound as given:
/// its first token, the text before the first comma, is the console, which follows
/// the USB control handle.
pub proof fn lemma_console_first(
    b: Board,
    s: Seq<char>,
    disc: Seq<Seq<char>>,
    device: Seq<char>,
    k: int,
)
    requires
        0 <= k <= s.len(),
        k == s.len() || s[k] == ',',
        forall|j: int| 0 <= j < k ==> s[j] != ',',
    ensures
        planned_uarts(b, split_commas(s), disc) == Some(split_commas(s)),
        (seq![device] + split_commas(s))[1] == s.take(k),
{
    lemma_split_commas_nonempty(s);
    lemma_first_token(s, k);
    assert((seq![device] + split_commas(s))[1] == split_commas(s)[0]);
}

/// The UART device paths by role, console first.
pub fn plan_uarts(board: Board, explicit: Vec<String>, discovered: &Vec<String>) -> (r: Result<
    Vec<String>,
    TransportError,
>)
    ensures
        match planned_uarts(board, views(explicit@), views(discovered@)) {
            Some(u) => r matches Ok(v) && views(v@) == u,
            None => r matches Err(TransportError::DeviceNotFound),
        },
{
    if explicit.len() > 0 {
        return Ok(explicit);
    }
    let roles = board.uart_role_count();
    let mut out: Vec<String> = Vec::new();
    let mut i: usize = 0;
    while i < roles
        invariant
            roles == uart_roles(board).len(),
            explicit@.len() == 0,
            i <= roles,
            forall|k: int| 0 <= k < i ==> #[trigger] uart_port_order(board)[k] < discovered@.len(),
            views(out@) == Seq::new(
                i as nat,
                |k: int| views(discovered@)[uart_port_order(board)[k] as int],
            ),
        decreases roles - i,
    {
        let port = board.uart_port(i);
        if port >= discovered.len() {
            assert(!(uart_port_order(board)[i as int] < views(discovered@).len()));
            return Err(TransportError::DeviceNotFound);
        }
        let ghost prev = out@;
        out.push(discovered[port].clone());
        assert(out@.drop_last() =~= prev);
        assert(views(out@) =~= views(prev).push(views(discovered@)[port as int]));
        assert(views(out@) =~= Seq::new(
            (i + 1) as nat,
            |k: int| views(discovered@)[uart_port_order(board)[k] as int],
        ));
        i = i + 1;
    }
    Ok(out)
}

/// The prefix of `paths` before `i`, added to `reg`.
proof fn lemma_take_push(reg: Seq<Seq<char>>, paths: Seq<Seq<char>>, i: int)
    requires
        0 <= i < paths.len(),
    ensures
        (reg + paths.take(i)).push(paths[i]) == reg + paths.take(i + 1),
        (reg + paths.take(i)).contains(paths[i]) == busy_at(reg, paths, i),
{
    assert((reg + paths.take(i)).push(paths[i]) =~= reg + paths.take(i + 1));
    let s = reg + paths.take(i);
    if s.contains(paths[i]) {
        let k = choose|k: int| 0 <= k < s.len() && s[k] == paths[i];
        if k < reg.len() {
            assert(reg[k] == paths[i]);
        } else {
            assert(paths.take(i)[k - reg.len()] == paths[i]);
        }
    }
    if reg.contains(paths[i]) {
        let k = choose|k: int| 0 <= k < reg.len() && reg[k] == paths[i];
        assert(s[k] == paths[i]);
    }
    if paths.take(i).contains(paths[i]) {
        let k = choose|k: int| 0 <= k < i && paths.take(i)[k] == paths[i];
        assert(s[reg.len() + k] == paths[i]);
    }
}

/// Opens `paths` in order; on the first that is held already, closes the ones it
/// opened, last first, and fails with `DeviceBusy`.
fn open_all(registry: &mut DeviceRegistry, paths: &Vec<String>) -> (r: Result<(), TransportError>)
    ensures
        all_free(old(registry)@, views(paths@)) ==> r is Ok && final(registry)@ == old(registry)@
            + views(paths@),
        !all_free(old(registry)@, views(paths@)) ==> final(registry)@ == old(registry)@ && (r matches Err(
            TransportError::DeviceBusy(p),
        ) && first_busy(old(registry)@, views(paths@), p@)),
{
    let ghost base = registry@;
    let ghost ps = views(paths@);
    let n = paths.len();
    let mut i: usize = 0;
    assert(ps.take(0) =~= Seq::<Seq<char>>::empty());
    assert(base + ps.take(0) =~= base);
    while i < n
        invariant
            n == ps.len(),
            ps == views(paths@),
            base == old(registry)@,
            i <= n,
            registry@ == base + ps.take(i as int),
            forall|k: int| 0 <= k < i ==> !#[trigger] busy_at(base, ps, k),
        decreases n - i,
    {
        proof {
            lemma_take_push(base, ps, i as int);
        }
        assert(ps[i as int] == paths@[i as int]@);
        match registry.open(&paths[i]) {
            Ok(()) => {},
            Err(e) => {
                assert(first_busy(base, ps, ps[i as int]));
                let mut k: usize = i;
                while k > 0
                    invariant
                        k <= i < n,
                        n == ps.len(),
                        ps == views(paths@),
                        base == old(registry)@,
                        registry@ == base + ps.take(k as int),
                        busy_at(base, ps, i as int),
                        forall|k2: int| 0 <= k2 < i ==> !#[trigger] busy_at(base, ps, k2),
                        e matches TransportError::DeviceBusy(p) && p@ == ps[i as int],
                    decreases k,
                {
                    k = k - 1;
                    let ghost before = registry@;
                    assert(before.last() == ps[k as int]);
                    assert(before.contains(ps[k as int]));
                    assert(ps[k as int] == paths@[k as int]@);
                    registry.close(&paths[k]);
                    proof {
                        let j = choose|j: int|
                            0 <= j < before.len() && before[j] == ps[k as int] && registry@
                                == before.remove(j);
                        assert(before.no_duplicates());
                        assert(j == before.len() - 1);
                        assert(before.remove(j) =~= base + ps.take(k as int));
                    }
                }
                assert(base + ps.take(0) =~= base);
                assert(!all_free(base, ps));
                assert(first_busy(base, ps, ps[i as int]));
                return Err(e);
            },
        }
        i = i + 1;
    }
    assert(ps.take(n as int) =~= ps);
    Ok(())
}

/// Whether the backend offers `kind`.
pub open spec fn supports(kind: Capability) -> bool {
    match kind {
        Capability::Gpio | Capability::Spi | Capability::Uart | Capability::RawUsb => true,
        Capability::I2c | Capability::Jtag => false,
    }
}

/// An obtained capability, bound to the device handle that serves it.
#[derive(Debug)]
pub struct CapabilityHandle {
    pub kind: Capability,
    /// The path of the opened device that serves the capability.
    pub device: String,
}

/// A ChipWhisperer board's connection: the USB control handle first, then the UART
/// handles by role, console first.
#[derive(Debug)]
pub struct ChipWhisperer {
    io_mapper: Rc<IoMapper>,
    handles: Vec<String>,
}

impl ChipWhisperer {
    #[verifier::type_invariant]
    spec fn inv(self) -> bool {
        self.handles@.len() >= 2
    }

    /// The paths of the handles that this backend owns, USB control handle first.
    pub closed spec fn handles_spec(&self) -> Seq<Seq<char>> {
        views(self.handles@)
    }

    /// The mapper that this backend consults.
    pub closed spec fn mapper_spec(&self) -> IoMapper {
        *self.io_mapper
    }
}

/// A transport: one of the supported backends.
#[derive(Debug)]
pub enum Transport {
    ChipWhisperer(ChipWhisperer),
}

impl Transport {
    /// The paths of the handles that the transport owns, USB control handle first,
    /// then the UARTs by role, console first.
    pub open spec fn handles_spec(&self) -> Seq<Seq<char>> {
        match self {
            Transport::ChipWhisperer(cw) => cw.handles_spec(),
        }
    }

    /// The mapper that the transport consults.
    pub open spec fn mapper_spec(&self) -> IoMapper {
        match self {
            Transport::ChipWhisperer(cw) => cw.mapper_spec(),
        }
    }

    /// The device path bound to UART role `role`, if the role is declared and bound.
    pub open spec fn uart_spec(&self, role: Seq<char>) -> Option<Seq<char>> {
        match self.mapper_spec().resolve_spec(role) {
            Some(PhysicalAddress::Uart(i)) => if i + 1 < self.handles_spec().len() {
                Some(self.handles_spec()[i + 1])
            } else {
                None
            },
            _ => None,
        }
    }

    /// Closes every handle that the transport owns, last opened first; paths that are
    /// no longer held are passed over.
    pub fn release(self, registry: &mut DeviceRegistry)
        ensures
            forall|q: Seq<char>| #[trigger]
                final(registry)@.contains(q) <==> old(registry)@.contains(q)
                    && !self.handles_spec().contains(q),
    {
        let ghost hs = self.handles_spec();
        let handles = match self {
            Transport::ChipWhisperer(cw) => cw.handles,
        };
        assert(views(handles@) == hs);
        let mut k: usize = handles.len();
        assert(hs.skip(k as int) =~= Seq::<Seq<char>>::empty());
        while k > 0
            invariant
                k <= hs.len(),
                hs == views(handles@),
                    forall|q: Seq<char>| #[trigger]
                    registry@.contains(q) <==> old(registry)@.contains(q) && !hs.skip(
                        k as int,
                    ).contains(q),
            decreases k,
        {
            k = k - 1;
            assert(hs[k as int] == handles@[k as int]@);
            let ghost before = registry@;
            registry.close(&handles[k]);
            let ghost cur = hs.skip(k as int);
            let ghost nxt = hs.skip(k + 1);
            assert forall|q: Seq<char>| cur.contains(q) <==> q == hs[k as int] || nxt.contains(q) by {
                if cur.contains(q) {
                    let a = choose|a: int| 0 <= a < cur.len() && cur[a] == q;
                    if a > 0 {
                        assert(nxt[a - 1] == q);
                    }
                }
                if q == hs[k as int] {
                    assert(cur[0] == q);
                }
                if nxt.contains(q) {
                    let a = choose|a: int| 0 <= a < nxt.len() && nxt[a] == q;
                    assert(cur[a + 1] == q);
                }
            }
        }
        assert(hs.skip(0) =~= hs);
    }

    /// The number of handles that the transport owns.
    pub fn handle_count(&self) -> (r: usize)
        ensures
            r == self.handles_spec().len(),
    {
        match self {
            Transport::ChipWhisperer(cw) => cw.handles.len(),
        }
    }

    /// The path of the USB device that the transport is bound to.
    pub fn device_path(&self) -> (r: String)
        ensures
            r@ == self.handles_spec()[0],
    {
        match self {
            Transport::ChipWhisperer(cw) => {
                proof {
                    use_type_invariant(cw);
                }
                cw.handles[0].clone()
            },
        }
    }

    /// The path of the console UART.
    pub fn console_path(&self) -> (r: String)
        ensures
            r@ == self.handles_spec()[1],
    {
        match self {
            Transport::ChipWhisperer(cw) => {
                proof {
                    use_type_invariant(cw);
                }
                cw.handles[1].clone()
            },
        }
    }

    /// The capability `kind`, bound to the UART console for `Uart` and to the USB
    /// control handle for the others; `CapabilityUnavailable` if the backend never
    /// offers it.
    pub fn capability(&self, kind: Capability) -> (r: Result<CapabilityHandle, TransportError>)
        ensures
            supports(kind) ==> (r matches Ok(h) && h.kind == kind && h.device@ == (if kind
                == Capability::Uart {
                self.handles_spec()[1]
            } else {
                self.handles_spec()[0]
            })),
            !supports(kind) ==> (r matches Err(TransportError::CapabilityUnavailable(k)) && k
                == kind),
    {
        match kind {
            Capability::I2c | Capability::Jtag => Err(TransportError::CapabilityUnavailable(kind)),
            Capability::Uart => Ok(CapabilityHandle { kind, device: self.console_path() }),
            _ => Ok(CapabilityHandle { kind, device: self.device_path() }),
        }
    }

    /// The device path bound to UART role `role`; `UnknownPin` with the role if the
    /// board does not declare it as a UART or no path is bound to it.
    pub fn uart(&self, role: &str) -> (r: Result<String, TransportError>)
        ensures
            match self.uart_spec(role@) {
                Some(p) => r matches Ok(s) && s@ == p,
                None => r matches Err(TransportError::UnknownPin(m)) && m@ == role@,
            },
    {
        match self {
            Transport::ChipWhisperer(cw) => {
                proof {
                    use_type_invariant(cw);
                }
                match cw.io_mapper.resolve(role) {
                    Ok(PhysicalAddress::Uart(i)) => {
                        if (i as usize) < cw.handles.len() - 1 {
                            Ok(cw.handles[i as usize + 1].clone())
                        } else {
                            Err(TransportError::UnknownPin(String::from_str(role)))
                        }
                    },
                    Ok(_) => Err(TransportError::UnknownPin(String::from_str(role))),
                    Err(e) => Err(e),
                }
            },
        }
    }

    /// The GPIO line of logical pin `name`; `UnknownPin` with the name if the board
    /// does not declare it as a GPIO.
    pub fn gpio(&self, name: &str) -> (r: Result<u8, TransportError>)
        ensures
            match self.mapper_spec().resolve_spec(name@) {
                Some(PhysicalAddress::Gpio(i)) => r == Ok::<u8, TransportError>(i),
                _ => r matches Err(TransportError::UnknownPin(m)) && m@ == name@,
            },
    {
        match self {
            Transport::ChipWhisperer(cw) => {
                match cw.io_mapper.resolve(name) {
                    Ok(PhysicalAddress::Gpio(i)) => Ok(i),
                    Ok(_) => Err(TransportError::UnknownPin(String::from_str(name))),
                    Err(e) => Err(e),
                }
            },
        }
    }
}

/// Builds the transport of the one attached device that passes the options'
/// filters, and opens its USB control handle and its UARTs, console first.
///
/// The UARTs are the options' list when given, else the ports among `discovered`
/// that the board declares. A failure releases every handle that was opened.
pub fn create(
    args: &BackendOpts,
    io_mapper: Rc<IoMapper>,
    devices: &Vec<UsbDevice>,
    discovered: &Vec<String>,
    registry: &mut DeviceRegistry,
) -> (r: Result<Transport, TransportError>)
    ensures
        r is Err ==> final(registry)@ == old(registry)@,
        ({
            let m = matching(devices@, args.usb_vid, args.usb_pid, opt_view(args.usb_serial));
            let plan = planned_uarts(
                io_mapper.board_spec(),
                explicit_uarts(*args),
                views(discovered@),
            );
            &&& m.len() == 0 ==> final(registry)@ == old(registry)@ && (r matches Err(
                TransportError::DeviceNotFound,
            ))
            &&& m.len() > 1 ==> final(registry)@ == old(registry)@ && (r matches Err(
                TransportError::AmbiguousDevice(c),
            ) && c@ == m)
            &&& m.len() == 1 && plan is None ==> final(registry)@ == old(registry)@ && (r matches Err(
                TransportError::DeviceNotFound,
            ))
            &&& m.len() == 1 && plan is Some ==> {
                let paths = seq![devices@[m[0] as int].path@] + plan->0;
                &&& all_free(old(registry)@, paths) ==> final(registry)@ == old(registry)@ + paths
                    && (r matches Ok(t) && t.handles_spec() == paths && t.mapper_spec()
                    == *io_mapper)
                &&& !all_free(old(registry)@, paths) ==> final(registry)@ == old(registry)@ && (r matches Err(
                    TransportError::DeviceBusy(p),
                ) && first_busy(old(registry)@, paths, p@))
            }
        }),
{
    let explicit = match &args.opts.uarts {
        Some(s) => split_uart_list(s.as_str()),
        None => Vec::new(),
    };
    assert(views(explicit@) == explicit_uarts(*args));
    let index = select_device(devices, args.usb_vid, args.usb_pid, &args.usb_serial)?;
    let uarts = plan_uarts(io_mapper.board(), explicit, discovered)?;
    let mut handles: Vec<String> = Vec::new();
    handles.push(devices[index].path.clone());
    let mut rest = uarts;
    handles.append(&mut rest);
    assert(views(handles@) =~= seq![devices@[index as int].path@] + views(uarts@));
    open_all(registry, &handles)?;
    assert(handles@.len() >= 2);
    Ok(Transport::ChipWhisperer(ChipWhisperer { io_mapper, handles }))
}

} // verus!
