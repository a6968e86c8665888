//! Input events as the kernel takes them, and the setup of the virtual
//! keyboard.

use vstd::prelude::*;
use vstd::string::*;
use vstd::utf8::*;

verus! {

pub const EV_SYN: u16 = 0x00;

pub const EV_KEY: u16 = 0x01;

pub const EV_ABS: u16 = 0x03;

pub const SYN_REPORT: u16 = 0x00;

pub const KEY_UP: u16 = 103;

pub const KEY_PAGEUP: u16 = 104;

pub const KEY_DOWN: u16 = 108;

pub const KEY_PAGEDOWN: u16 = 109;

/// The name of the virtual keyboard.
pub const DEV_NAME: &'static str = "kindle-button-mapper";

/// The size of the name in a device setup.
pub const UINPUT_MAX_NAME_SIZE: usize = 80;

/// The number of absolute axes in a device setup.
pub const ABS_CNT: usize = 64;

/// One input event. The kernel stamps the time itself.
#[derive(Debug, Clone, Copy, PartialEq, Eq, Structural)]
pub struct InputEvent {
    pub kind: u16,
    pub code: u16,
    pub value: i32,
}

/// The end of a report.
pub open spec fn syn() -> InputEvent {
    InputEvent { kind: EV_SYN, code: SYN_REPORT, value: 0 }
}

/// What is done with a device node, in order.
#[derive(Debug, Clone, Copy, PartialEq, Eq, Structural)]
pub enum Emit {
    /// Write an event.
    Event(InputEvent),
    /// Wait for some milliseconds.
    Pause(u64),
}

/// A change of a key, and the end of the report.
pub open spec fn key_report(code: u16, value: i32) -> Seq<Emit> {
    seq![Emit::Event(InputEvent { kind: EV_KEY, code, value }), Emit::Event(syn())]
}

/// A key pressed and let go, in a report each.
pub open spec fn tap_of(code: u16) -> Seq<Emit> {
    key_report(code, 1) + key_report(code, 0)
}

/// A key pressed and let go, in a report each.
pub fn tap(code: u16) -> (r: Vec<Emit>)
    ensures
        r@ == tap_of(code),
{
    let syn = InputEvent { kind: EV_SYN, code: SYN_REPORT, value: 0 };
    let r: Vec<Emit> = vec![
        Emit::Event(InputEvent { kind: EV_KEY, code, value: 1 }),
        Emit::Event(syn),
        Emit::Event(InputEvent { kind: EV_KEY, code, value: 0 }),
        Emit::Event(syn),
    ];
    assert(r@ =~= tap_of(code));
    r
}

/// A change of a key, in a report of its own. The value is evdev's: 1 press,
/// 0 release, 2 repeat.
pub fn report_key(code: u16, value: i32) -> (r: Vec<Emit>)
    ensures
        r@ == key_report(code, value),
{
    let r: Vec<Emit> = vec![
        Emit::Event(InputEvent { kind: EV_KEY, code, value }),
        Emit::Event(InputEvent { kind: EV_SYN, code: SYN_REPORT, value: 0 }),
    ];
    assert(r@ =~= key_report(code, value));
    r
}

/// The order of the bytes of a number in memory.
#[derive(Debug, Clone, Copy, PartialEq, Eq, Structural)]
pub enum ByteOrder {
    Little,
    Big,
}

/// The low bytes of a number, in an order.
pub open spec fn number_bytes(n: nat, size: nat, order: ByteOrder) -> Seq<u8>
    decreases size,
{
    if size == 0 {
        seq![]
    } else {
        let rest = number_bytes(n / 256, (size - 1) as nat, order);
        let low = (n % 256) as u8;
        match order {
            ByteOrder::Little => seq![low] + rest,
            ByteOrder::Big => rest.push(low),
        }
    }
}

/// Some zero bytes.
pub open spec fn zeros(n: nat) -> Seq<u8> {
    Seq::new(n, |i: int| 0u8)
}

/// The two's complement of a value, in 32 bits.
pub open spec fn two_complement(value: i32) -> nat {
    if value < 0 {
        (value + 0x1_0000_0000) as nat
    } else {
        value as nat
    }
}

/// The bytes of an event in memory: a time of two longs, left zero, then the
/// kind, the code and the value.
pub open spec fn event_bytes(ev: InputEvent, long: nat, order: ByteOrder) -> Seq<u8> {
    zeros(2 * long) + number_bytes(ev.kind as nat, 2, order) + number_bytes(
        ev.code as nat,
        2,
        order,
    ) + number_bytes(two_complement(ev.value), 4, order)
}

fn push_number(out: &mut Vec<u8>, n: u64, size: usize, order: ByteOrder)
    ensures
        final(out)@ == old(out)@ + number_bytes(n as nat, size as nat, order),
    decreases size,
{
    if size > 0 {
        let low: u8 = (n % 256) as u8;
        let ghost rest = number_bytes(n as nat / 256, (size - 1) as nat, order);
        match order {
            ByteOrder::Little => {
                out.push(low);
                push_number(out, n / 256, size - 1, order);
                assert(old(out)@.push(low) + rest =~= old(out)@ + (seq![low] + rest));
            },
            ByteOrder::Big => {
                push_number(out, n / 256, size - 1, order);
                out.push(low);
                assert((old(out)@ + rest).push(low) =~= old(out)@ + rest.push(low));
            },
        }
    } else {
        assert(old(out)@ + seq![] =~= old(out)@);
    }
}

fn push_zeros(out: &mut Vec<u8>, n: usize)
    ensures
        final(out)@ == old(out)@ + zeros(n as nat),
{
    let mut i: usize = 0;
    assert(old(out)@ + zeros(0) =~= old(out)@);
    while i < n
        invariant
            i <= n,
            out@ == old(out)@ + zeros(i as nat),
        decreases n - i,
    {
        out.push(0);
        i += 1;
        assert(out@ =~= old(out)@ + zeros(i as nat));
    }
}

impl InputEvent {
    /// The bytes of the event in the memory of a machine whose long has `long`
    /// bytes. The time is a pair of kernel longs, not of libc's `time_t`: musl
    /// widened that to 64 bits on 32-bit ARM, which would make the event 8
    /// bytes too long and every write fail.
    pub fn encode(&self, long: usize, order: ByteOrder) -> (r: Vec<u8>)
        requires
            2 * long + 8 <= usize::MAX,
        ensures
            r@ == event_bytes(*self, long as nat, order),
    {
        let mut out: Vec<u8> = Vec::new();
        push_zeros(&mut out, 2 * long);
        assert(Seq::<u8>::empty() + zeros((2 * long) as nat) =~= zeros((2 * long) as nat));
        push_number(&mut out, self.kind as u64, 2, order);
        push_number(&mut out, self.code as u64, 2, order);
        let value: u64 = if self.value < 0 {
            (self.value as i64 + 0x1_0000_0000) as u64
        } else {
            self.value as u64
        };
        push_number(&mut out, value, 4, order);
        out
    }
}

/// The number that bytes in an order stand for.
pub open spec fn bytes_number(s: Seq<u8>, order: ByteOrder) -> nat
    decreases s.len(),
{
    if s.len() == 0 {
        0
    } else {
        match order {
            ByteOrder::Little => s[0] as nat + 256 * bytes_number(s.skip(1), order),
            ByteOrder::Big => s.last() as nat + 256 * bytes_number(s.drop_last(), order),
        }
    }
}

pub open spec fn bytes_limit(size: nat) -> nat
    decreases size,
{
    if size == 0 {
        1
    } else {
        256 * bytes_limit((size - 1) as nat)
    }
}

proof fn lemma_number_bytes(n: nat, size: nat, order: ByteOrder)
    requires
        n < bytes_limit(size),
    ensures
        number_bytes(n, size, order).len() == size,
        bytes_number(number_bytes(n, size, order), order) == n,
    decreases size,
{
    if size > 0 {
        let rest = number_bytes(n / 256, (size - 1) as nat, order);
        let low = (n % 256) as u8;
        lemma_number_bytes(n / 256, (size - 1) as nat, order);
        match order {
            ByteOrder::Little => {
                assert((seq![low] + rest).skip(1) =~= rest);
            },
            ByteOrder::Big => {
                assert(rest.push(low).drop_last() =~= rest);
            },
        }
    }
}

/// An event takes two longs and eight bytes, and no two events have the same
/// bytes.
pub proof fn law_event_bytes_tell_events_apart(
    a: InputEvent,
    b: InputEvent,
    long: nat,
    order: ByteOrder,
)
    ensures
        event_bytes(a, long, order).len() == 2 * long + 8,
        event_bytes(a, long, order) == event_bytes(b, long, order) ==> a == b,
{
    reveal_with_fuel(bytes_limit, 5);
    lemma_number_bytes(a.kind as nat, 2, order);
    lemma_number_bytes(b.kind as nat, 2, order);
    lemma_number_bytes(a.code as nat, 2, order);
    lemma_number_bytes(b.code as nat, 2, order);
    lemma_number_bytes(two_complement(a.value), 4, order);
    lemma_number_bytes(two_complement(b.value), 4, order);
    let x = event_bytes(a, long, order);
    let y = event_bytes(b, long, order);
    let at = 2 * long as int;
    if x == y {
        assert(x.subrange(at, at + 2) =~= number_bytes(a.kind as nat, 2, order));
        assert(y.subrange(at, at + 2) =~= number_bytes(b.kind as nat, 2, order));
        assert(x.subrange(at + 2, at + 4) =~= number_bytes(a.code as nat, 2, order));
        assert(y.subrange(at + 2, at + 4) =~= number_bytes(b.code as nat, 2, order));
        assert(x.subrange(at + 4, at + 8) =~= number_bytes(two_complement(a.value), 4, order));
        assert(y.subrange(at + 4, at + 8) =~= number_bytes(two_complement(b.value), 4, order));
    }
}

/// All the key codes, and none of the button codes, in order.
pub open spec fn key_codes() -> Seq<u32> {
    Seq::new(
        (0xff + 0x160) as nat,
        |i: int|
            (if i < 0xff {
                i + 1
            } else {
                i - 0xff + 0x160
            }) as u32,
    )
}

/// All KEY_* codes. The BTN_* ranges (0x100-0x15f mouse/gamepad, 0x2c0+
/// trigger-happy) are skipped so the device enumerates as a plain keyboard.
pub fn supported_keys() -> (r: Vec<u32>)
    ensures
        r@ == key_codes(),
{
    let mut out: Vec<u32> = Vec::new();
    let mut code: u32 = 1;
    while code < 0x100
        invariant
            1 <= code <= 0x100,
            out@ == key_codes().take(code - 1),
        decreases 0x100 - code,
    {
        out.push(code);
        assert(out@ =~= key_codes().take(code as int));
        code += 1;
    }
    code = 0x160;
    while code < 0x2c0
        invariant
            0x160 <= code <= 0x2c0,
            out@ == key_codes().take(code - 0x160 + 0xff),
        decreases 0x2c0 - code,
    {
        out.push(code);
        assert(out@ =~= key_codes().take(code + 1 - 0x160 + 0xff));
        code += 1;
    }
    assert(key_codes().take(code - 0x160 + 0xff) =~= key_codes());
    out
}

/// The virtual keyboard has every key code and no button code, each once.
pub proof fn law_keyboard_has_keys_and_no_buttons(code: u32)
    ensures
        key_codes().contains(code) <==> (1 <= code < 0x100 || 0x160 <= code < 0x2c0),
        key_codes().no_duplicates(),
{
    if 1 <= code < 0x100 {
        assert(key_codes()[code - 1] == code);
    } else if 0x160 <= code < 0x2c0 {
        assert(key_codes()[code - 0x160 + 0xff] == code);
    }
}

/// The bytes of the setup of the virtual keyboard: its name, filled up with
/// zeros, its bus (USB), vendor, product and version, and zeros for the force
/// feedback effects and for the maximum, minimum, fuzz and flat of each axis.
pub open spec fn setup_bytes(order: ByteOrder) -> Seq<u8> {
    DEV_NAME.spec_bytes() + zeros((UINPUT_MAX_NAME_SIZE - DEV_NAME.spec_bytes().len()) as nat)
        + number_bytes(0x03, 2, order) + number_bytes(0x1234, 2, order) + number_bytes(
        0x5678,
        2,
        order,
    ) + number_bytes(0x111, 2, order) + number_bytes(0, 4, order) + zeros((16 * ABS_CNT) as nat)
}

proof fn lemma_name_fits()
    ensures
        DEV_NAME.spec_bytes().len() == 20,
{
    reveal_strlit("kindle-button-mapper");
    assert(is_ascii_chars(DEV_NAME@));
    is_ascii_chars_encode_utf8(DEV_NAME@);
}

/// Writes the setup of the virtual keyboard.
pub fn device_setup(order: ByteOrder) -> (r: Vec<u8>)
    ensures
        r@ == setup_bytes(order),
{
    proof {
        lemma_name_fits();
    }
    let name: &[u8] = DEV_NAME.as_bytes();
    let mut out: Vec<u8> = Vec::new();
    let mut i: usize = 0;
    while i < name.len()
        invariant
            i <= name@.len(),
            out@ == name@.take(i as int),
        decreases name@.len() - i,
    {
        out.push(name[i]);
        i += 1;
        assert(out@ =~= name@.take(i as int));
    }
    assert(name@.take(i as int) =~= name@);
    push_zeros(&mut out, UINPUT_MAX_NAME_SIZE - name.len());
    push_number(&mut out, 0x03, 2, order);
    push_number(&mut out, 0x1234, 2, order);
    push_number(&mut out, 0x5678, 2, order);
    push_number(&mut out, 0x111, 2, order);
    push_number(&mut out, 0, 4, order);
    push_zeros(&mut out, 16 * ABS_CNT);
    out
}

/// The setup fills the kernel's structure exactly.
pub proof fn law_setup_has_the_kernels_size(order: ByteOrder)
    ensures
        setup_bytes(order).len() == UINPUT_MAX_NAME_SIZE + 8 + 4 + 16 * ABS_CNT,
{
    lemma_name_fits();
    reveal_with_fuel(bytes_limit, 5);
    lemma_number_bytes(0x03, 2, order);
    lemma_number_bytes(0x1234, 2, order);
    lemma_number_bytes(0x5678, 2, order);
    lemma_number_bytes(0x111, 2, order);
    lemma_number_bytes(0, 4, order);
}

/// One step of creating the virtual keyboard.
#[derive(Debug, PartialEq)]
pub enum SetupStep {
    /// Enable a kind of event.
    EventKind(u16),
    /// Enable a key.
    KeyCode(u32),
    /// Write the setup. Not `UI_DEV_SETUP`: that ioctl only exists on Linux
    /// 4.5+, and Kindles through 10th gen run 3.0/4.1 kernels that answer it
    /// with EINVAL. The write path works on both.
    Write(Vec<u8>),
    /// Create the device.
    Create,
}

/// What the steps of creating the virtual keyboard are.
pub open spec fn creation_steps(steps: Seq<SetupStep>, order: ByteOrder) -> bool {
    let n = key_codes().len() as int;
    &&& steps.len() == n + 3
    &&& steps[0] == SetupStep::EventKind(EV_KEY)
    &&& forall|i: int|
        1 <= i <= n ==> #[trigger] steps[i] == SetupStep::KeyCode(key_codes()[i - 1])
    &&& steps[n + 1] matches SetupStep::Write(bytes) && bytes@ == setup_bytes(order)
    &&& steps[n + 2] == SetupStep::Create
}

/// The steps of creating the virtual keyboard, in order.
pub fn create_device(order: ByteOrder) -> (r: Vec<SetupStep>)
    ensures
        creation_steps(r@, order),
{
    let mut out: Vec<SetupStep> = Vec::new();
    out.push(SetupStep::EventKind(EV_KEY));
    let keys: Vec<u32> = supported_keys();
    let mut i: usize = 0;
    while i < keys.len()
        invariant
            i <= keys@.len(),
            keys@ == key_codes(),
            out@.len() == i + 1,
            out@[0] == SetupStep::EventKind(EV_KEY),
            forall|j: int|
                1 <= j <= i ==> #[trigger] out@[j] == SetupStep::KeyCode(key_codes()[j - 1]),
        decreases keys@.len() - i,
    {
        out.push(SetupStep::KeyCode(keys[i]));
        i += 1;
    }
    out.push(SetupStep::Write(device_setup(order)));
    out.push(SetupStep::Create);
    out
}

} // verus!
