//! Monome grids reached through serialosc: the OSC messages exchanged with
//! it, the roles of the two grids, the LED state assumed on each and the
//! decisions of the grid manager. The sockets stay with the caller, who
//! sends the messages that these functions prepare and hands back what
//! arrives.

use vstd::prelude::*;
use vstd::string::*;
use vstd::utf8::encode_utf8;
use crate::hardware::str_contains;
use crate::hardware::contains_seq;
use crate::text::{decimal, push_decimal, same_text};

verus! {

/// Grid button event.
#[derive(Debug, Clone)]
pub struct GridButtonEvent {
    pub grid_id: String,
    pub x: usize,
    pub y: usize,
    pub pressed: bool,
}

/// An argument of an OSC message.
#[derive(Debug, Clone)]
pub enum OscArg {
    /// A 32-bit integer (type tag 'i').
    Int(i32),
    /// A string (type tag 's').
    Str(String),
    /// Any other argument; sent, it is a nil (type tag 'N').
    Other,
}

/// An OSC message: an address pattern and its arguments.
#[derive(Debug, Clone)]
pub struct OscCommand {
    pub addr: String,
    pub args: Vec<OscArg>,
}

/// An argument as plain values: its kind (0 integer, 1 string, 2 other),
/// the integer and the string.
pub open spec fn arg_view(a: OscArg) -> (int, i32, Seq<char>) {
    match a {
        OscArg::Int(v) => (0, v, Seq::empty()),
        OscArg::Str(s) => (1, 0, s@),
        OscArg::Other => (2, 0, Seq::empty()),
    }
}

/// A message as plain values.
pub open spec fn command_view(c: OscCommand) -> (Seq<char>, Seq<(int, i32, Seq<char>)>) {
    (c.addr@, c.args@.map_values(|a: OscArg| arg_view(a)))
}

/// Bytes followed by one to four zero bytes, up to a multiple of four.
pub open spec fn osc_padded(bytes: Seq<u8>) -> Seq<u8> {
    bytes + Seq::new((4 - bytes.len() % 4) as nat, |i: int| 0u8)
}

/// The four big-endian bytes of a 32-bit integer (two's complement).
pub open spec fn be_i32(v: i32) -> Seq<u8> {
    let u = (v as u32) as int;
    seq![(u / 0x1000000) as u8, (u / 0x10000 % 0x100) as u8, (u / 0x100 % 0x100) as u8, (u % 0x100) as u8]
}

/// The type tag of an argument, by its kind.
pub open spec fn osc_tag(a: (int, i32, Seq<char>)) -> u8 {
    if a.0 == 0 {
        0x69u8
    } else if a.0 == 1 {
        0x73u8
    } else {
        0x4Eu8
    }
}

/// The type tags of the arguments, in order.
pub open spec fn osc_tags(args: Seq<(int, i32, Seq<char>)>) -> Seq<u8>
    decreases args.len(),
{
    if args.len() == 0 {
        Seq::empty()
    } else {
        osc_tags(args.drop_last()).push(osc_tag(args.last()))
    }
}

/// The data bytes of an argument.
pub open spec fn osc_arg_data(a: (int, i32, Seq<char>)) -> Seq<u8> {
    if a.0 == 0 {
        be_i32(a.1)
    } else if a.0 == 1 {
        osc_padded(encode_utf8(a.2))
    } else {
        Seq::empty()
    }
}

/// The data bytes of the arguments, in order.
pub open spec fn osc_data(args: Seq<(int, i32, Seq<char>)>) -> Seq<u8>
    decreases args.len(),
{
    if args.len() == 0 {
        Seq::empty()
    } else {
        osc_data(args.drop_last()) + osc_arg_data(args.last())
    }
}

/// The OSC 1.0 encoding of a message: the padded address, the padded type
/// tag string (a comma and one tag per argument), then the argument data.
pub open spec fn osc_bytes(m: (Seq<char>, Seq<(int, i32, Seq<char>)>)) -> Seq<u8> {
    osc_padded(encode_utf8(m.0)) + osc_padded(seq![0x2Cu8] + osc_tags(m.1)) + osc_data(m.1)
}

/// An integer argument, as plain values.
pub open spec fn int_arg(v: i32) -> (int, i32, Seq<char>) {
    (0, v, Seq::empty())
}

/// A string argument, as plain values.
pub open spec fn str_arg(s: Seq<char>) -> (int, i32, Seq<char>) {
    (1, 0, s)
}

/// `rosc::encoder::encode` on a message packet. Its source writes the
/// address and the type tag string each followed by one to four zero bytes
/// up to a multiple of four, then each argument's data (an integer as four
/// big-endian bytes, a string padded like the address, a nil as nothing),
/// and never returns an error when encoding into a `Vec`.
#[verifier::external_body]
fn encode_osc(cmd: &OscCommand) -> (bytes: Vec<u8>)
    ensures
        bytes@ == osc_bytes(command_view(*cmd)),
{
    let args: Vec<rosc::OscType> = cmd.args.iter().map(|a| match a {
        OscArg::Int(v) => rosc::OscType::Int(*v),
        OscArg::Str(s) => rosc::OscType::String(s.clone()),
        OscArg::Other => rosc::OscType::Nil,
    }).collect();
    let packet = rosc::OscPacket::Message(rosc::OscMessage { addr: cmd.addr.clone(), args });
    match rosc::encoder::encode(&packet) {
        Ok(bytes) => bytes,
        Err(_) => Vec::new(),
    }
}

/// The message that `rosc::decoder::decode_udp` reads from a datagram, as
/// plain values; `None` when decoding fails or yields a bundle.
pub uninterp spec fn osc_decoded(bytes: Seq<u8>) -> Option<(Seq<char>, Seq<(int, i32, Seq<char>)>)>;

/// `rosc::decoder::decode_udp`: the message in a datagram, its integer and
/// string arguments kept and the others marked as such. The decoding itself
/// is not written out; its result is named by `osc_decoded`.
#[verifier::external_body]
fn decode_osc(bytes: &[u8]) -> (r: Option<OscCommand>)
    ensures
        r matches Some(c) ==> osc_decoded(bytes@) == Some(command_view(c)),
        r is None ==> osc_decoded(bytes@) is None,
{
    match rosc::decoder::decode_udp(bytes) {
        Ok((_, rosc::OscPacket::Message(msg))) => Some(OscCommand {
            addr: msg.addr,
            args: msg.args.into_iter().map(|a| match a {
                rosc::OscType::Int(v) => OscArg::Int(v),
                rosc::OscType::String(s) => OscArg::Str(s),
                _ => OscArg::Other,
            }).collect(),
        }),
        _ => None,
    }
}

/// A message to send to a UDP port on the local host.
#[derive(Debug, Clone)]
pub struct OscOutgoing {
    pub port: u16,
    pub bytes: Vec<u8>,
}

/// The UDP port of the serialosc daemon.
pub const SERIALOSC_PORT: u16 = 12002;

/// Whether `a` comes before `b` in lexicographic order of their characters
/// (for UTF-8 strings the order of `String`'s `Ord`, which compares bytes).
pub open spec fn lex_lt(a: Seq<char>, b: Seq<char>) -> bool
    decreases a.len(),
{
    if a.len() == 0 {
        b.len() > 0
    } else if b.len() == 0 {
        false
    } else if a[0] != b[0] {
        (a[0] as int) < (b[0] as int)
    } else {
        lex_lt(a.drop_first(), b.drop_first())
    }
}

proof fn lemma_lex_irreflexive(a: Seq<char>)
    ensures
        !lex_lt(a, a),
    decreases a.len(),
{
    if a.len() > 0 {
        lemma_lex_irreflexive(a.drop_first());
    }
}

proof fn lemma_lex_total(a: Seq<char>, b: Seq<char>)
    ensures
        lex_lt(a, b) || lex_lt(b, a) || a == b,
        !(lex_lt(a, b) && lex_lt(b, a)),
    decreases a.len(),
{
    if a.len() > 0 && b.len() > 0 {
        lemma_lex_total(a.drop_first(), b.drop_first());
        if a[0] == b[0] && a.drop_first() == b.drop_first() {
            assert(a =~= seq![a[0]] + a.drop_first());
            assert(b =~= seq![b[0]] + b.drop_first());
        }
    } else if a.len() == 0 && b.len() == 0 {
        assert(a =~= b);
    }
}

proof fn lemma_lex_trans(a: Seq<char>, b: Seq<char>, c: Seq<char>)
    requires
        lex_lt(a, b),
        lex_lt(b, c),
    ensures
        lex_lt(a, c),
    decreases a.len(),
{
    if a.len() > 0 && b.len() > 0 && c.len() > 0 && a[0] == b[0] && b[0] == c[0] {
        lemma_lex_trans(a.drop_first(), b.drop_first(), c.drop_first());
    }
}

/// Whether `a` comes before `b` (see `lex_lt`).
pub fn str_less(a: &str, b: &str) -> (r: bool)
    ensures
        r == lex_lt(a@, b@),
{
    let n = a.unicode_len();
    let m = b.unicode_len();
    let mut i: usize = 0;
    assert(a@.skip(0) =~= a@);
    assert(b@.skip(0) =~= b@);
    while i < n && i < m
        invariant
            n == a@.len(),
            m == b@.len(),
            i <= n,
            i <= m,
            lex_lt(a@, b@) == lex_lt(a@.skip(i as int), b@.skip(i as int)),
        decreases n - i,
    {
        let ca = a.get_char(i);
        let cb = b.get_char(i);
        assert(a@.skip(i as int)[0] == ca);
        assert(b@.skip(i as int)[0] == cb);
        if ca != cb {
            return (ca as u32) < (cb as u32);
        }
        assert(a@.skip(i as int).drop_first() =~= a@.skip(i as int + 1));
        assert(b@.skip(i as int).drop_first() =~= b@.skip(i as int + 1));
        i = i + 1;
    }
    i < m && i == n
}

/// Information about a connected grid device.
#[derive(Debug, Clone)]
pub struct GridDevice {
    pub id: String,
    pub device_type: String,
    pub port: u16,
    pub cols: usize,
    pub rows: usize,
    pub prefix: String,
    pub is_varibright: bool,
}

/// The brightness assumed for one LED.
#[derive(Debug, Clone)]
pub struct LedState {
    pub grid_id: String,
    pub x: usize,
    pub y: usize,
    pub brightness: u8,
}

/// The brightness assumed for LED (x, y) of a grid: that of the first entry
/// for it, 0 when there is none.
pub open spec fn led_level(states: Seq<LedState>, id: Seq<char>, x: int, y: int) -> u8
    decreases states.len(),
{
    if states.len() == 0 {
        0
    } else if states[0].grid_id@ == id && states[0].x == x && states[0].y == y {
        states[0].brightness
    } else {
        led_level(states.drop_first(), id, x, y)
    }
}

/// The index of the first device with the given id.
pub open spec fn device_index(devices: Seq<GridDevice>, id: Seq<char>) -> Option<int>
    decreases devices.len(),
{
    if devices.len() == 0 {
        None
    } else if devices.last().id@ == id && device_index(devices.drop_last(), id) is None {
        Some(devices.len() - 1)
    } else {
        device_index(devices.drop_last(), id)
    }
}

/// No two devices share an id.
pub open spec fn ids_distinct(devices: Seq<GridDevice>) -> bool {
    forall|i: int, j: int|
        0 <= i < j < devices.len() ==> (#[trigger] devices[i]).id@ != (#[trigger] devices[j]).id@
}

/// Errors of the grid manager.
#[derive(Debug, Clone)]
pub enum GridError {
    /// No grid has this id.
    NotFound(String),
    /// Neither two connected grids nor a remembered pair name the grids.
    NoGridConfiguration,
    /// LED coordinates outside the grid, after the rotation of grid two.
    OutOfBounds { grid_id: String, x: usize, y: usize, tx: usize, ty: usize, cols: usize, rows: usize },
    /// An LED map whose width differs from the grid's.
    MapWidth { width: usize, cols: usize },
    /// An LED map column whose height differs from the grid's.
    MapHeight { column: usize, height: usize, rows: usize },
}

impl GridError {
    /// The text that reports the error.
    pub fn message(&self) -> (s: String)
        ensures
            self matches GridError::NotFound(id) ==> s@ == "Grid "@ + id@ + " not found"@,
            self is NoGridConfiguration ==> s@
                == "No grids connected and no previous configuration available"@,
            self matches GridError::OutOfBounds { grid_id, x, y, tx, ty, cols, rows } ==> s@
                == "LED coordinates ("@ + decimal(x as nat) + ", "@ + decimal(y as nat)
                + ") -> transformed ("@ + decimal(tx as nat) + ", "@ + decimal(ty as nat)
                + ") out of bounds for grid "@ + grid_id@ + " ("@ + decimal(cols as nat) + "x"@
                + decimal(rows as nat) + ")"@,
            self matches GridError::MapWidth { width, cols } ==> s@ == "LED map width "@
                + decimal(width as nat) + " doesn't match grid width "@ + decimal(cols as nat),
            self matches GridError::MapHeight { column, height, rows } ==> s@
                == "LED map column "@ + decimal(column as nat) + " height "@ + decimal(
                height as nat,
            ) + " doesn't match grid height "@ + decimal(rows as nat),
    {
        match self {
            GridError::NotFound(id) => {
                let mut s = String::from_str("Grid ");
                s.append(id.as_str());
                s.append(" not found");
                s
            },
            GridError::NoGridConfiguration => String::from_str(
                "No grids connected and no previous configuration available",
            ),
            GridError::OutOfBounds { grid_id, x, y, tx, ty, cols, rows } => {
                let mut s = String::from_str("LED coordinates (");
                push_decimal(&mut s, *x as u64);
                s.append(", ");
                push_decimal(&mut s, *y as u64);
                s.append(") -> transformed (");
                push_decimal(&mut s, *tx as u64);
                s.append(", ");
                push_decimal(&mut s, *ty as u64);
                s.append(") out of bounds for grid ");
                s.append(grid_id.as_str());
                s.append(" (");
                push_decimal(&mut s, *cols as u64);
                s.append("x");
                push_decimal(&mut s, *rows as u64);
                s.append(")");
                s
            },
            GridError::MapWidth { width, cols } => {
                let mut s = String::from_str("LED map width ");
                push_decimal(&mut s, *width as u64);
                s.append(" doesn't match grid width ");
                push_decimal(&mut s, *cols as u64);
                s
            },
            GridError::MapHeight { column, height, rows } => {
                let mut s = String::from_str("LED map column ");
                push_decimal(&mut s, *column as u64);
                s.append(" height ");
                push_decimal(&mut s, *height as u64);
                s.append(" doesn't match grid height ");
                push_decimal(&mut s, *rows as u64);
                s
            },
        }
    }
}

/// Whether a state entry is the one for LED (x, y) of grid `id`.
pub open spec fn led_key_is(e: LedState, id: Seq<char>, x: int, y: int) -> bool {
    e.grid_id@ == id && e.x == x && e.y == y
}

proof fn lemma_led_level_set(s: Seq<LedState>, i: int, e: LedState, id: Seq<char>, x: int, y: int)
    requires
        0 <= i < s.len(),
        led_key_is(s[i], e.grid_id@, e.x as int, e.y as int),
        forall|k: int| 0 <= k < i ==> !led_key_is(#[trigger] s[k], e.grid_id@, e.x as int, e.y as int),
    ensures
        led_level(s.update(i, e), id, x, y) == if led_key_is(e, id, x, y) {
            e.brightness
        } else {
            led_level(s, id, x, y)
        },
    decreases i,
{
    if i == 0 {
        assert(s.update(i, e).drop_first() =~= s.drop_first());
        assert(s.update(i, e)[0] == e);
    } else {
        assert(s.update(i, e)[0] == s[0]);
        assert(!led_key_is(s[0], e.grid_id@, e.x as int, e.y as int));
        assert(s.update(i, e).drop_first() =~= s.drop_first().update(i - 1, e));
        assert forall|k: int| 0 <= k < i - 1 implies !led_key_is(
            #[trigger] s.drop_first()[k],
            e.grid_id@,
            e.x as int,
            e.y as int,
        ) by {
            assert(s.drop_first()[k] == s[k + 1]);
        }
        lemma_led_level_set(s.drop_first(), i - 1, e, id, x, y);
    }
}

proof fn lemma_led_level_push(s: Seq<LedState>, e: LedState, id: Seq<char>, x: int, y: int)
    requires
        forall|k: int| 0 <= k < s.len() ==> !led_key_is(#[trigger] s[k], e.grid_id@, e.x as int, e.y as int),
    ensures
        led_level(s.push(e), id, x, y) == if led_key_is(e, id, x, y) {
            e.brightness
        } else {
            led_level(s, id, x, y)
        },
    decreases s.len(),
{
    if s.len() == 0 {
        assert(s.push(e).drop_first() =~= s);
        assert(s.push(e)[0] == e);
    } else {
        assert(s.push(e)[0] == s[0]);
        assert(!led_key_is(s[0], e.grid_id@, e.x as int, e.y as int));
        assert(s.push(e).drop_first() =~= s.drop_first().push(e));
        assert forall|k: int| 0 <= k < s.drop_first().len() implies !led_key_is(
            #[trigger] s.drop_first()[k],
            e.grid_id@,
            e.x as int,
            e.y as int,
        ) by {
            assert(s.drop_first()[k] == s[k + 1]);
        }
        lemma_led_level_push(s.drop_first(), e, id, x, y);
    }
}

/// Records the brightness assumed for LED (x, y) of a grid.
fn record_led(states: &mut Vec<LedState>, grid_id: &str, x: usize, y: usize, brightness: u8)
    ensures
        forall|id: Seq<char>, xx: int, yy: int|
            #[trigger] led_level(final(states)@, id, xx, yy) == if id == grid_id@ && xx == x && yy
                == y {
                brightness
            } else {
                led_level(old(states)@, id, xx, yy)
            },
{
    let entry = LedState { grid_id: String::from_str(grid_id), x, y, brightness };
    let mut i: usize = 0;
    while i < states.len()
        invariant
            states@ == old(states)@,
            i <= states@.len(),
            entry.grid_id@ == grid_id@,
            entry.x == x,
            entry.y == y,
            entry.brightness == brightness,
            forall|k: int| 0 <= k < i ==> !led_key_is(#[trigger] states@[k], grid_id@, x as int, y as int),
        decreases states@.len() - i,
    {
        if states[i].x == x && states[i].y == y && same_text(states[i].grid_id.as_str(), grid_id) {
            let ghost before = states@;
            states.set(i, entry);
            proof {
                assert forall|id: Seq<char>, xx: int, yy: int|
                    #[trigger] led_level(states@, id, xx, yy) == if id == grid_id@ && xx == x && yy
                        == y {
                        brightness
                    } else {
                        led_level(before, id, xx, yy)
                    } by {
                    lemma_led_level_set(before, i as int, entry, id, xx, yy);
                }
            }
            return;
        }
        i = i + 1;
    }
    let ghost before = states@;
    states.push(entry);
    proof {
        assert forall|id: Seq<char>, xx: int, yy: int|
            #[trigger] led_level(states@, id, xx, yy) == if id == grid_id@ && xx == x && yy == y {
                brightness
            } else {
                led_level(before, id, xx, yy)
            } by {
            lemma_led_level_push(before, entry, id, xx, yy);
        }
    }
}

/// Whether a grid type supports variable brightness: "128", "256" or "one"
/// in its name.
pub open spec fn varibright_type(device_type: Seq<char>) -> bool {
    contains_seq(device_type, "128"@) || contains_seq(device_type, "256"@) || contains_seq(
        device_type,
        "one"@,
    )
}

/// Whether a grid of the given type supports variable brightness.
pub fn is_varibright_type(device_type: &str) -> (b: bool)
    ensures
        b == varibright_type(device_type@),
{
    str_contains(device_type, "128") || str_contains(device_type, "256") || str_contains(
        device_type,
        "one",
    )
}

/// The level sent for a requested brightness: at most 15 on a varibright
/// grid, 0 or 1 on another.
pub open spec fn clamp_level(varibright: bool, brightness: u8) -> u8 {
    if varibright {
        if brightness > 15 {
            15
        } else {
            brightness
        }
    } else if brightness > 0 {
        1
    } else {
        0
    }
}

/// The message that sets one LED: the level command on a varibright grid,
/// the on/off command on another.
pub open spec fn led_message(prefix: Seq<char>, varibright: bool, tx: int, ty: int, level: u8) -> (
    Seq<char>,
    Seq<(int, i32, Seq<char>)>,
) {
    if varibright {
        (
            prefix + "/grid/led/level/set"@,
            seq![int_arg(tx as i32), int_arg(ty as i32), int_arg(level as i32)],
        )
    } else {
        (
            prefix + "/grid/led/set"@,
            seq![int_arg(tx as i32), int_arg(ty as i32), int_arg(if level > 0 { 1 } else { 0 })],
        )
    }
}

/// What an LED update came to.
#[derive(Debug, Clone)]
pub enum LedOutcome {
    /// The row (after the rotation of grid two) lies past row 7: ignored.
    RowOutside,
    /// No grid with this id is connected: ignored.
    NotConnected,
    /// The message to send to the grid.
    Send(OscOutgoing),
}

/// The LED that update (x, y) reaches: grid two is mounted rotated by 180
/// degrees, so its coordinates are mirrored within the 16 x 8 area.
pub open spec fn led_target(two: bool, x: int, y: int) -> (int, int) {
    if two {
        (15 - x, 7 - y)
    } else {
        (x, y)
    }
}

/// Everything but the LED states is as in `before`.
pub open spec fn same_but_leds(before: GridManager, after: GridManager) -> bool {
    &&& after.devices() == before.devices()
    &&& after.port() == before.port()
    &&& after.pending_virtual() == before.pending_virtual()
    &&& after.last_known() == before.last_known()
}

/// The LED states of `after` are those of `before` with LED (x, y) of grid
/// `id` set to `level`.
pub open spec fn led_recorded(before: GridManager, after: GridManager, id: Seq<char>, x: int, y: int, level: u8) -> bool {
    forall|g: Seq<char>, xx: int, yy: int|
        #[trigger] after.assumed_level(g, xx, yy) == if g == id && xx == x && yy == y {
            level
        } else {
            before.assumed_level(g, xx, yy)
        }
}

/// What `set_led` does with a connected device `d` of that id, once the
/// target (tx, ty) is known to lie within rows 0-7.
pub open spec fn led_on_device(
    before: GridManager,
    after: GridManager,
    d: GridDevice,
    grid_id: Seq<char>,
    x: usize,
    y: usize,
    tx: int,
    ty: int,
    brightness: u8,
    r: Result<LedOutcome, GridError>,
) -> bool {
    if tx >= d.cols || ty >= d.rows {
        &&& after == before
        &&& r matches Err(GridError::OutOfBounds { grid_id: g, x: ex, y: ey, tx: etx, ty: ety, cols: c, rows: rr })
        &&& g@ == grid_id && ex == x && ey == y && etx == tx && ety == ty && c == d.cols && rr == d.rows
    } else {
        let level = clamp_level(d.is_varibright, brightness);
        &&& same_but_leds(before, after)
        &&& led_recorded(before, after, grid_id, x as int, y as int, level)
        &&& r matches Ok(LedOutcome::Send(o))
        &&& o.port == d.port
        &&& o.bytes@ == osc_bytes(led_message(d.prefix@, d.is_varibright, tx, ty, level))
    }
}

/// The whole effect of `set_led`.
pub open spec fn set_led_post(
    before: GridManager,
    after: GridManager,
    grid_id: Seq<char>,
    x: usize,
    y: usize,
    brightness: u8,
    r: Result<LedOutcome, GridError>,
) -> bool {
    match before.grid_two_status(grid_id) {
        None => after == before && r matches Err(GridError::NoGridConfiguration),
        Some(two) => {
            let (tx, ty) = led_target(two, x as int, y as int);
            if ty > 7 {
                after == before && r matches Ok(LedOutcome::RowOutside)
            } else if !before.has_device(grid_id) {
                after == before && r matches Ok(LedOutcome::NotConnected)
            } else {
                forall|i: int|
                    0 <= i < before.devices().len() && (#[trigger] before.devices()[i]).id@
                        == grid_id ==> led_on_device(
                        before,
                        after,
                        before.devices()[i],
                        grid_id,
                        x,
                        y,
                        tx,
                        ty,
                        brightness,
                        r,
                    )
            }
        },
    }
}

/// The messages that darken every LED of a grid: the level command and the
/// on/off command on a varibright grid, the on/off command on another.
pub open spec fn clear_messages(prefix: Seq<char>, varibright: bool) -> Seq<
    (Seq<char>, Seq<(int, i32, Seq<char>)>),
> {
    if varibright {
        seq![
            (prefix + "/grid/led/level/all"@, seq![int_arg(0)]),
            (prefix + "/grid/led/all"@, seq![int_arg(0)]),
        ]
    } else {
        seq![(prefix + "/grid/led/all"@, seq![int_arg(0)])]
    }
}

/// The messages that flash a grid `count` times: on, then off, each time
/// (level 8 and 0 on a varibright grid, 1 and 0 on another).
pub open spec fn flash_messages_spec(prefix: Seq<char>, varibright: bool, count: nat) -> Seq<
    (Seq<char>, Seq<(int, i32, Seq<char>)>),
> {
    Seq::new(
        2 * count,
        |k: int|
            {
                let on = k % 2 == 0;
                if varibright {
                    (prefix + "/grid/led/level/all"@, seq![int_arg(if on { 8 } else { 0 })])
                } else {
                    (prefix + "/grid/led/all"@, seq![int_arg(if on { 1 } else { 0 })])
                }
            },
    )
}

/// The messages of `out` are `msgs`, each sent to `port`.
pub open spec fn sent_to(out: Seq<OscOutgoing>, port: u16, msgs: Seq<(Seq<char>, Seq<(int, i32, Seq<char>)>)>) -> bool {
    &&& out.len() == msgs.len()
    &&& forall|k: int| 0 <= k < out.len() ==> (#[trigger] out[k]).port == port && out[k].bytes@ == osc_bytes(msgs[k])
}

/// Sets the state of LEDs (x, y), x < cols and y < rows, of a grid to 0.
fn zero_region(states: &mut Vec<LedState>, grid_id: &str, cols: usize, rows: usize)
    ensures
        forall|g: Seq<char>, xx: int, yy: int|
            #[trigger] led_level(final(states)@, g, xx, yy) == if g == grid_id@ && 0 <= xx < cols && 0
                <= yy < rows {
                0
            } else {
                led_level(old(states)@, g, xx, yy)
            },
{
    let ghost start = states@;
    let mut x: usize = 0;
    while x < cols
        invariant
            x <= cols,
            forall|g: Seq<char>, xx: int, yy: int|
                #[trigger] led_level(states@, g, xx, yy) == if g == grid_id@ && 0 <= xx < x && 0 <= yy
                    < rows {
                    0
                } else {
                    led_level(start, g, xx, yy)
                },
        decreases cols - x,
    {
        let mut y: usize = 0;
        while y < rows
            invariant
                x < cols,
                y <= rows,
                forall|g: Seq<char>, xx: int, yy: int|
                    #[trigger] led_level(states@, g, xx, yy) == if g == grid_id@ && ((0 <= xx < x && 0
                        <= yy < rows) || (xx == x && 0 <= yy < y)) {
                        0
                    } else {
                        led_level(start, g, xx, yy)
                    },
            decreases rows - y,
        {
            record_led(states, grid_id, x, y, 0);
            y = y + 1;
        }
        x = x + 1;
    }
}

/// The message that sets one LED.
fn led_command(prefix: &str, varibright: bool, tx: usize, ty: usize, level: u8) -> (c: OscCommand)
    ensures
        command_view(c) == led_message(prefix@, varibright, tx as int, ty as int, level),
{
    let mut addr = String::from_str(prefix);
    if varibright {
        addr.append("/grid/led/level/set");
        let args = vec![OscArg::Int(tx as i32), OscArg::Int(ty as i32), OscArg::Int(level as i32)];
        let c = OscCommand { addr, args };
        assert(c.args@.map_values(|a: OscArg| arg_view(a)) =~= seq![int_arg(tx as i32), int_arg(ty as i32), int_arg(level as i32)]);
        c
    } else {
        addr.append("/grid/led/set");
        let on: i32 = if level > 0 {
            1
        } else {
            0
        };
        let args = vec![OscArg::Int(tx as i32), OscArg::Int(ty as i32), OscArg::Int(on)];
        let c = OscCommand { addr, args };
        assert(c.args@.map_values(|a: OscArg| arg_view(a)) =~= seq![int_arg(tx as i32), int_arg(ty as i32), int_arg(on)]);
        c
    }
}

/// A message with one integer argument.
fn int_command(prefix: &str, suffix: &str, value: i32) -> (c: OscCommand)
    ensures
        command_view(c) == (prefix@ + suffix@, seq![int_arg(value)]),
{
    let mut addr = String::from_str(prefix);
    addr.append(suffix);
    let c = OscCommand { addr, args: vec![OscArg::Int(value)] };
    assert(c.args@.map_values(|a: OscArg| arg_view(a)) =~= seq![int_arg(value)]);
    c
}

/// The local host's address, as serialosc is told to reply to it.
pub open spec fn localhost() -> Seq<char> {
    "127.0.0.1"@
}

/// The message asking serialosc (or a grid) to report to `local_port`.
pub open spec fn report_request(addr: Seq<char>, local_port: u16) -> (Seq<char>, Seq<(int, i32, Seq<char>)>) {
    (addr, seq![str_arg(localhost()), int_arg(local_port as i32)])
}

/// A message whose arguments are the local host and a port.
fn report_command(addr: &str, local_port: u16) -> (c: OscCommand)
    ensures
        command_view(c) == report_request(addr@, local_port),
{
    let args = vec![OscArg::Str(String::from_str("127.0.0.1")), OscArg::Int(local_port as i32)];
    let c = OscCommand { addr: String::from_str(addr), args };
    assert(c.args@.map_values(|a: OscArg| arg_view(a)) =~= seq![str_arg(localhost()), int_arg(local_port as i32)]);
    c
}

/// Size and prefix of a grid as its replies report them.
#[derive(Debug, Clone)]
pub struct DeviceInfo {
    pub cols: usize,
    pub rows: usize,
    pub prefix: String,
    pub received_size: bool,
    pub received_prefix: bool,
}

/// What a reply to an info request sets: "/sys/size" with two integers the
/// size, "/sys/prefix" with a string the prefix; other messages nothing.
pub open spec fn info_after(before: DeviceInfo, after: DeviceInfo, m: (Seq<char>, Seq<(int, i32, Seq<char>)>)) -> bool {
    if m.0 == "/sys/size"@ && m.1.len() >= 2 && m.1[0].0 == 0 && m.1[1].0 == 0 {
        &&& after.cols == m.1[0].1 as usize
        &&& after.rows == m.1[1].1 as usize
        &&& after.received_size
        &&& after.prefix@ == before.prefix@
        &&& after.received_prefix == before.received_prefix
    } else if m.0 == "/sys/prefix"@ && m.1.len() >= 1 && m.1[0].0 == 1 {
        &&& after.prefix@ == m.1[0].2
        &&& after.received_prefix
        &&& after.cols == before.cols
        &&& after.rows == before.rows
        &&& after.received_size == before.received_size
    } else {
        after == before
    }
}

impl DeviceInfo {
    /// What is assumed before any reply: 16 x 8 and the prefix "/monome".
    pub fn new() -> (i: DeviceInfo)
        ensures
            i.cols == 16,
            i.rows == 8,
            i.prefix@ == "/monome"@,
            !i.received_size,
            !i.received_prefix,
    {
        DeviceInfo {
            cols: 16,
            rows: 8,
            prefix: String::from_str("/monome"),
            received_size: false,
            received_prefix: false,
        }
    }

    /// Whether both the size and the prefix have been reported.
    pub fn is_complete(&self) -> (b: bool)
        ensures
            b == (self.received_size && self.received_prefix),
    {
        self.received_size && self.received_prefix
    }

    /// Takes in one reply to an info request.
    pub fn apply_reply(&mut self, msg: &OscCommand)
        ensures
            info_after(*old(self), *final(self), command_view(*msg)),
    {
        let ghost m = command_view(*msg);
        assert(m.1.len() == msg.args@.len());
        proof {
            reveal_strlit("/sys/size");
            reveal_strlit("/sys/prefix");
            assert("/sys/size"@[5] != "/sys/prefix"@[5]);
        }
        if same_text(msg.addr.as_str(), "/sys/size") && msg.args.len() >= 2 {
            assert(m.1[0] == arg_view(msg.args@[0]));
            assert(m.1[1] == arg_view(msg.args@[1]));
            match (&msg.args[0], &msg.args[1]) {
                (OscArg::Int(c), OscArg::Int(r)) => {
                    self.cols = *c as usize;
                    self.rows = *r as usize;
                    self.received_size = true;
                },
                _ => {},
            }
        } else if same_text(msg.addr.as_str(), "/sys/prefix") && msg.args.len() >= 1 {
            assert(m.1[0] == arg_view(msg.args@[0]));
            match &msg.args[0] {
                OscArg::Str(p) => {
                    self.prefix = p.clone();
                    self.received_prefix = true;
                },
                _ => {},
            }
        }
    }

    /// Takes in one datagram received while waiting for info replies; one
    /// that does not decode changes nothing.
    pub fn apply_datagram(&mut self, bytes: &[u8])
        ensures
            osc_decoded(bytes@) matches Some(m) ==> info_after(*old(self), *final(self), m),
            osc_decoded(bytes@) is None ==> *final(self) == *old(self),
    {
        match decode_osc(bytes) {
            Some(msg) => self.apply_reply(&msg),
            None => {},
        }
    }
}

/// The grid that a "/serialosc/device" message announces: its id, type and
/// port (the low 16 bits of the integer).
pub open spec fn announcement(m: (Seq<char>, Seq<(int, i32, Seq<char>)>)) -> Option<(Seq<char>, Seq<char>, u16)> {
    if m.0 == "/serialosc/device"@ && m.1.len() >= 3 && m.1[0].0 == 1 && m.1[1].0 == 1 && m.1[2].0
        == 0 {
        Some((m.1[0].2, m.1[1].2, m.1[2].1 as u16))
    } else {
        None
    }
}

/// The grid announced by a message from serialosc, if it is an announcement.
pub fn announced_device(msg: &OscCommand) -> (r: Option<(String, String, u16)>)
    ensures
        announcement(command_view(*msg)) matches Some((id, t, p)) ==> (r matches Some((a, b, c))
            && a@ == id && b@ == t && c == p),
        announcement(command_view(*msg)) is None ==> r is None,
{
    let ghost m = command_view(*msg);
    assert(m.1.len() == msg.args@.len());
    if same_text(msg.addr.as_str(), "/serialosc/device") && msg.args.len() >= 3 {
        assert(m.1[0] == arg_view(msg.args@[0]));
        assert(m.1[1] == arg_view(msg.args@[1]));
        assert(m.1[2] == arg_view(msg.args@[2]));
        match (&msg.args[0], &msg.args[1], &msg.args[2]) {
            (OscArg::Str(id), OscArg::Str(t), OscArg::Int(p)) => Some((id.clone(), t.clone(), *p as u16)),
            _ => None,
        }
    } else {
        None
    }
}

/// The grid announced by a datagram from serialosc.
pub fn announced_device_in(bytes: &[u8]) -> (r: Option<(String, String, u16)>)
    ensures
        r is Some ==> osc_decoded(bytes@) is Some,
        osc_decoded(bytes@) matches Some(m) ==> {
            &&& announcement(m) matches Some((id, t, p)) ==> (r matches Some((a, b, c)) && a@ == id
                && b@ == t && c == p)
            &&& announcement(m) is None ==> r is None
        },
{
    match decode_osc(bytes) {
        Some(msg) => announced_device(&msg),
        None => None,
    }
}

/// How a received datagram reads as a key press.
#[derive(Debug, Clone)]
pub enum KeyRead {
    /// A key event of a connected grid.
    Event(GridButtonEvent),
    /// Not a key event of a connected grid.
    Ignored,
    /// A key event of grid two whose coordinates lie outside its 16 x 8
    /// area, which cannot be mirrored.
    OutOfRange,
}

/// The sorted order of names: none comes after a later one.
pub open spec fn names_sorted(s: Seq<Seq<char>>) -> bool {
    forall|i: int, j: int| 0 <= i < j < s.len() ==> !lex_lt(#[trigger] s[j], #[trigger] s[i])
}

/// The ids of the devices, as plain values.
pub open spec fn device_ids(d: Seq<GridDevice>) -> Seq<Seq<char>> {
    d.map_values(|g: GridDevice| g.id@)
}

/// Strings as plain values.
pub open spec fn texts(v: Seq<String>) -> Seq<Seq<char>> {
    v.map_values(|s: String| s@)
}

/// How `read_key` reads message `m` from `source_port`: the first device
/// with that port must have sent "<prefix>/grid/key" with three integers
/// x, y and state; the key is (x, y) mirrored to (15 - x, 7 - y) on grid two
/// (a grid whose role cannot be told counts as grid one), pressed when the
/// state is not 0.
pub open spec fn key_read_post(mgr: GridManager, source_port: u16, m: (Seq<char>, Seq<(int, i32, Seq<char>)>), r: KeyRead) -> bool {
    let d = mgr.devices();
    if forall|k: int| 0 <= k < d.len() ==> (#[trigger] d[k]).port != source_port {
        r is Ignored
    } else {
        forall|i: int|
            0 <= i < d.len() && (#[trigger] d[i]).port == source_port && (forall|k: int| 0 <= k < i ==> (#[trigger] d[k]).port != source_port) ==> {
                let dev = d[i];
                if m.0 != dev.prefix@ + "/grid/key"@ || m.1.len() < 3 || m.1[0].0 != 0 || m.1[1].0 != 0
                    || m.1[2].0 != 0 {
                    r is Ignored
                } else {
                    let hx = m.1[0].1 as usize;
                    let hy = m.1[1].1 as usize;
                    let two = mgr.grid_two_status(dev.id@) == Some(true);
                    if two && (hx > 15 || hy > 7) {
                        r is OutOfRange
                    } else {
                        let (lx, ly) = led_target(two, hx as int, hy as int);
                        r matches KeyRead::Event(e) && e.grid_id@ == dev.id@ && e.x == lx && e.y == ly
                            && e.pressed == (m.1[2].1 != 0)
                    }
                }
            }
    }
}

proof fn lemma_sorted_unique(a: Seq<Seq<char>>, b: Seq<Seq<char>>)
    requires
        names_sorted(a),
        names_sorted(b),
        a.to_multiset() == b.to_multiset(),
    ensures
        a == b,
    decreases a.len(),
{
    broadcast use vstd::seq_lib::group_to_multiset_ensures;

    a.to_multiset_ensures();
    b.to_multiset_ensures();
    assert(a.len() == a.to_multiset().len());
    assert(b.len() == b.to_multiset().len());
    if a.len() > 0 {
        let x = a[0];
        let y = b[0];
        assert(b.contains(y));
        assert(b.to_multiset().count(y) > 0);
        assert(a.to_multiset().count(y) > 0);
        assert(a.contains(y));
        assert(a.contains(x));
        assert(a.to_multiset().count(x) > 0);
        assert(b.to_multiset().count(x) > 0);
        assert(b.contains(x));
        let iy = choose|i: int| 0 <= i < a.len() && a[i] == y;
        let ix = choose|i: int| 0 <= i < b.len() && b[i] == x;
        lemma_lex_total(x, y);
        if lex_lt(x, y) {
            if ix > 0 {
                assert(!lex_lt(b[ix], b[0]));
            }
        } else if lex_lt(y, x) {
            if iy > 0 {
                assert(!lex_lt(a[iy], a[0]));
            }
            lemma_lex_irreflexive(y);
        }
        assert(x == y);
        assert(a.drop_first().to_multiset() =~= a.to_multiset().remove(x)) by {
            assert(a.remove(0) =~= a.drop_first());
        }
        assert(b.drop_first().to_multiset() =~= b.to_multiset().remove(y)) by {
            assert(b.remove(0) =~= b.drop_first());
        }
        lemma_sorted_unique(a.drop_first(), b.drop_first());
        assert(a =~= seq![x] + a.drop_first());
        assert(b =~= seq![y] + b.drop_first());
    }
}

/// The effect of `inject_virtual_button`: the event (grid, x, y, pressed)
/// joins the end of the queue of injected events; nothing else changes.
pub open spec fn injected(before: GridManager, after: GridManager, grid_id: Seq<char>, x: usize, y: usize, pressed: bool) -> bool {
    &&& after.devices() == before.devices()
    &&& after.led_states() == before.led_states()
    &&& after.port() == before.port()
    &&& after.last_known() == before.last_known()
    &&& after.pending_virtual().len() == before.pending_virtual().len() + 1
    &&& forall|k: int| 0 <= k < before.pending_virtual().len() ==> #[trigger] after.pending_virtual()[k] == before.pending_virtual()[k]
    &&& event_is(after.pending_virtual().last(), grid_id, x, y, pressed)
}

/// `e` is the button event (grid, x, y, pressed).
pub open spec fn event_is(e: GridButtonEvent, grid_id: Seq<char>, x: usize, y: usize, pressed: bool) -> bool {
    e.grid_id@ == grid_id && e.x == x && e.y == y && e.pressed == pressed
}

/// The effect of `take_virtual_events`: the queued events are handed out,
/// oldest first, and the queue is emptied; nothing else changes.
pub open spec fn virtual_taken(before: GridManager, after: GridManager, events: Seq<GridButtonEvent>) -> bool {
    &&& events == before.pending_virtual()
    &&& after.pending_virtual().len() == 0
    &&& after.devices() == before.devices()
    &&& after.led_states() == before.led_states()
    &&& after.port() == before.port()
    &&& after.last_known() == before.last_known()
}

/// Injected button events are read back in the order they were injected,
/// after any that were already waiting; once read they are gone, so a
/// second read with no new injection gives none of them.
pub proof fn law_injected_buttons_read_in_order(
    ms: Seq<GridManager>,
    ids: Seq<Seq<char>>,
    xs: Seq<usize>,
    ys: Seq<usize>,
    presses: Seq<bool>,
    taken: GridManager,
    events: Seq<GridButtonEvent>,
    again: GridManager,
    events_again: Seq<GridButtonEvent>,
)
    requires
        ms.len() >= 1,
        ids.len() == ms.len() - 1,
        xs.len() == ms.len() - 1,
        ys.len() == ms.len() - 1,
        presses.len() == ms.len() - 1,
        forall|i: int| 0 <= i < ms.len() - 1 ==> injected(#[trigger] ms[i], ms[i + 1], ids[i], xs[i], ys[i], presses[i]),
        virtual_taken(ms.last(), taken, events),
        virtual_taken(taken, again, events_again),
    ensures
        events.len() == ms[0].pending_virtual().len() + (ms.len() - 1),
        forall|i: int| 0 <= i < ms[0].pending_virtual().len() ==> #[trigger] events[i] == ms[0].pending_virtual()[i],
        forall|i: int|
            0 <= i < ms.len() - 1 ==> event_is(
                #[trigger] events[ms[0].pending_virtual().len() + i],
                ids[i],
                xs[i],
                ys[i],
                presses[i],
            ),
        events_again.len() == 0,
{
    lemma_injections(ms, ids, xs, ys, presses, (ms.len() - 1) as nat);
}

/// After the first `j` injections the queue holds what was waiting, then
/// those `j` events in order.
proof fn lemma_injections(
    ms: Seq<GridManager>,
    ids: Seq<Seq<char>>,
    xs: Seq<usize>,
    ys: Seq<usize>,
    presses: Seq<bool>,
    j: nat,
)
    requires
        j < ms.len(),
        ids.len() == ms.len() - 1,
        xs.len() == ms.len() - 1,
        ys.len() == ms.len() - 1,
        presses.len() == ms.len() - 1,
        forall|i: int| 0 <= i < ms.len() - 1 ==> injected(#[trigger] ms[i], ms[i + 1], ids[i], xs[i], ys[i], presses[i]),
    ensures
        ms[j as int].pending_virtual().len() == ms[0].pending_virtual().len() + j,
        forall|i: int| 0 <= i < ms[0].pending_virtual().len() ==> #[trigger] ms[j as int].pending_virtual()[i] == ms[0].pending_virtual()[i],
        forall|i: int|
            0 <= i < j ==> event_is(
                #[trigger] ms[j as int].pending_virtual()[ms[0].pending_virtual().len() + i],
                ids[i],
                xs[i],
                ys[i],
                presses[i],
            ),
    decreases j,
{
    if j > 0 {
        let p = (j - 1) as int;
        lemma_injections(ms, ids, xs, ys, presses, (j - 1) as nat);
        assert(injected(ms[p], ms[p + 1], ids[p], xs[p], ys[p], presses[p]));
        let before = ms[p].pending_virtual();
        let after = ms[j as int].pending_virtual();
        let p0 = ms[0].pending_virtual().len();
        assert forall|i: int| 0 <= i < p0 implies #[trigger] after[i] == ms[0].pending_virtual()[i] by {
            assert(after[i] == before[i]);
        }
        assert forall|i: int| 0 <= i < j implies event_is(#[trigger] after[p0 + i], ids[i], xs[i], ys[i], presses[i]) by {
            if i < p {
                assert(after[p0 + i] == before[p0 + i]);
            } else {
                assert(after[p0 + i] == after.last());
            }
        }
    }
}

/// The device with id `grid_id` (when one is connected; ids are distinct).
pub open spec fn device_of(mgr: GridManager, grid_id: Seq<char>) -> GridDevice {
    let i = choose|i: int| 0 <= i < mgr.devices().len() && (#[trigger] mgr.devices()[i]).id@ == grid_id;
    mgr.devices()[i]
}

/// Whether `set_led` refuses LED (x, y) of `grid_id`: when the grids
/// cannot be named, or when the target lies within rows 0-7 of a connected
/// grid but outside its size. This depends on the grids alone.
pub open spec fn led_refused(mgr: GridManager, grid_id: Seq<char>, x: usize, y: usize) -> bool {
    match mgr.grid_two_status(grid_id) {
        None => true,
        Some(two) => {
            let (tx, ty) = led_target(two, x as int, y as int);
            let d = device_of(mgr, grid_id);
            ty <= 7 && mgr.has_device(grid_id) && (tx >= d.cols || ty >= d.rows)
        },
    }
}

/// The error `set_led` gives when it refuses LED (x, y).
pub open spec fn led_error(mgr: GridManager, grid_id: Seq<char>, x: usize, y: usize, e: GridError) -> bool {
    match mgr.grid_two_status(grid_id) {
        None => e is NoGridConfiguration,
        Some(two) => {
            let (tx, ty) = led_target(two, x as int, y as int);
            let d = device_of(mgr, grid_id);
            e matches GridError::OutOfBounds { grid_id: g, x: ex, y: ey, tx: etx, ty: ety, cols: c, rows: r }
                && g@ == grid_id && ex == x && ey == y && etx == tx && ety == ty && c == d.cols && r == d.rows
        },
    }
}

/// What `set_led` gives for an LED it does not refuse.
pub open spec fn led_outcome(mgr: GridManager, grid_id: Seq<char>, x: usize, y: usize, b: u8, o: LedOutcome) -> bool {
    let two = mgr.grid_two_status(grid_id) == Some(true);
    let (tx, ty) = led_target(two, x as int, y as int);
    let d = device_of(mgr, grid_id);
    if ty > 7 {
        o is RowOutside
    } else if !mgr.has_device(grid_id) {
        o is NotConnected
    } else {
        o matches LedOutcome::Send(out) && out.port == d.port && out.bytes@ == osc_bytes(
            led_message(d.prefix@, d.is_varibright, tx, ty, clamp_level(d.is_varibright, b)),
        )
    }
}

/// Whether cell `k` of `cells` was sent to the grid, as (x, y).
pub open spec fn sent_at(cells: Seq<(usize, usize, u8)>, outcomes: Seq<LedOutcome>, k: int, xx: int, yy: int) -> bool {
    0 <= k < outcomes.len() && cells[k].0 == xx && cells[k].1 == yy && outcomes[k] is Send
}

/// Whether cell `k` is the last of `cells` sent to LED (xx, yy).
pub open spec fn last_sent_at(cells: Seq<(usize, usize, u8)>, outcomes: Seq<LedOutcome>, k: int, xx: int, yy: int) -> bool {
    &&& sent_at(cells, outcomes, k, xx, yy)
    &&& forall|j: int| #[trigger] sent_at(cells, outcomes, j, xx, yy) ==> j <= k
}

/// One step of a grid test, in the order they are carried out.
#[derive(Debug)]
pub enum GridTestStep {
    /// An LED set as `set_led` sets it, then a pause of so many milliseconds.
    Led(LedOutcome, u64),
    /// Messages to send to the grid, then a pause of so many milliseconds.
    Send(Vec<OscOutgoing>, u64),
    /// A pause of so many milliseconds.
    Pause(u64),
}

/// The corners (0, 0), (cols - 1, 0), (0, rows - 1), (cols - 1, rows - 1)
/// of a grid, in this order, each with brightness `b`.
pub open spec fn corner_cells(cols: int, rows: int, b: u8) -> Seq<(usize, usize, u8)> {
    seq![
        (0usize, 0usize, b),
        ((cols - 1) as usize, 0usize, b),
        (0usize, (rows - 1) as usize, b),
        ((cols - 1) as usize, (rows - 1) as usize, b),
    ]
}

/// The message that lights a whole grid during its test: level 5 on a
/// varibright grid, on (1) on another.
pub open spec fn test_flash_message(prefix: Seq<char>, varibright: bool) -> (Seq<char>, Seq<(int, i32, Seq<char>)>) {
    if varibright {
        (prefix + "/grid/led/level/all"@, seq![int_arg(5)])
    } else {
        (prefix + "/grid/led/all"@, seq![int_arg(1)])
    }
}

/// LED outcomes as test steps, each followed by a pause of `pause` ms.
pub open spec fn led_steps(outcomes: Seq<LedOutcome>, pause: u64) -> Seq<GridTestStep> {
    outcomes.map_values(|o: LedOutcome| GridTestStep::Led(o, pause))
}

/// A run of the grid test on the device `grid_id` of `start`: its corners
/// lit (brightness 10, 150 ms apart; on a grid of more than 256 LEDs 8 and
/// 200 ms) as `set_led` lights them into `mid1`, a pause (500 ms; 800),
/// the corners set to 0 (100 ms apart) into `mid2`, on the smaller grids
/// the whole grid lit for 200 ms, and the grid cleared as `clear_all`
/// clears it; the first LED refused ends the test with its error.
pub open spec fn grid_test_run(
    start: GridManager,
    end: GridManager,
    grid_id: Seq<char>,
    steps: Seq<GridTestStep>,
    r: Result<(), GridError>,
    mid1: GridManager,
    o1: Seq<LedOutcome>,
    r1: Result<(), GridError>,
    mid2: GridManager,
    o2: Seq<LedOutcome>,
    r2: Result<(), GridError>,
) -> bool {
    let d = device_of(start, grid_id);
    let large = d.cols * d.rows > 256;
    let n1 = o1.len() as int;
    let n2 = o2.len() as int;
    let m = n1 + 1 + n2;
    &&& leds_applied(start, mid1, grid_id, corner_cells(d.cols as int, d.rows as int, if large { 8 } else { 10 }), o1, r1)
    &&& n1 <= steps.len()
    &&& steps.subrange(0, n1) == led_steps(o1, if large { 200 } else { 150 })
    &&& r1 is Err ==> steps.len() == n1 && r == r1 && end == mid1
    &&& r1 is Ok ==> {
        &&& m <= steps.len()
        &&& steps[n1] == GridTestStep::Pause(if large { 800 } else { 500 })
        &&& leds_applied(mid1, mid2, grid_id, corner_cells(d.cols as int, d.rows as int, 0), o2, r2)
        &&& steps.subrange(n1 + 1, m) == led_steps(o2, 100)
        &&& r2 is Err ==> steps.len() == m && r == r2 && end == mid2
        &&& r2 is Ok ==> {
            &&& r is Ok
            &&& same_but_leds(mid2, end)
            &&& forall|g: Seq<char>, xx: int, yy: int|
                #[trigger] end.assumed_level(g, xx, yy) == if g == grid_id && 0 <= xx < d.cols && 0 <= yy < d.rows {
                    0
                } else {
                    mid2.assumed_level(g, xx, yy)
                }
            &&& large ==> steps.len() == m + 1 && (steps[m] matches GridTestStep::Send(out, p) && p == 0 && sent_to(
                out@,
                d.port,
                clear_messages(d.prefix@, d.is_varibright),
            ))
            &&& !large ==> {
                &&& steps.len() == m + 2
                &&& steps[m] matches GridTestStep::Send(out, p) && p == 200 && sent_to(out@, d.port, seq![test_flash_message(d.prefix@, d.is_varibright)])
                &&& steps[m + 1] matches GridTestStep::Send(out, p) && p == 0 && sent_to(out@, d.port, clear_messages(d.prefix@, d.is_varibright))
            }
        }
    }
}

/// Appends LED outcomes as test steps, each followed by `pause` ms.
fn push_led_steps(steps: &mut Vec<GridTestStep>, outcomes: Vec<LedOutcome>, pause: u64)
    ensures
        final(steps)@ == old(steps)@ + led_steps(outcomes@, pause),
{
    let ghost all = outcomes@;
    let ghost before = steps@;
    let n = outcomes.len();
    let mut rest = outcomes;
    let mut k: usize = 0;
    while rest.len() > 0
        invariant
            n == all.len(),
            k <= all.len(),
            rest@ == all.subrange(k as int, all.len() as int),
            steps@ == before + led_steps(all.subrange(0, k as int), pause),
        decreases rest@.len(),
    {
        let o = rest.remove(0);
        steps.push(GridTestStep::Led(o, pause));
        assert(led_steps(all.subrange(0, k as int + 1), pause) =~= led_steps(all.subrange(0, k as int), pause).push(
            GridTestStep::Led(all[k as int], pause),
        ));
        k = k + 1;
    }
    assert(all.subrange(0, k as int) =~= all);
}

/// Of the cells sent to an LED, one is the last.
proof fn lemma_last_sent_exists(cells: Seq<(usize, usize, u8)>, outcomes: Seq<LedOutcome>, xx: int, yy: int, j: int)
    requires
        sent_at(cells, outcomes, j, xx, yy),
    ensures
        exists|k: int| last_sent_at(cells, outcomes, k, xx, yy),
    decreases outcomes.len() - j,
{
    if exists|i: int| #[trigger] sent_at(cells, outcomes, i, xx, yy) && i > j {
        let i = choose|i: int| #[trigger] sent_at(cells, outcomes, i, xx, yy) && i > j;
        lemma_last_sent_exists(cells, outcomes, xx, yy, i);
    } else {
        assert(last_sent_at(cells, outcomes, j, xx, yy));
    }
}

/// The effect of setting `cells` one after the other, stopping at the
/// first refusal: one outcome per cell set, each as `set_led` gives it; the
/// error of the first refused cell, if any; each LED sent takes the level of
/// the last cell sent to it.
pub open spec fn leds_applied(
    before: GridManager,
    after: GridManager,
    grid_id: Seq<char>,
    cells: Seq<(usize, usize, u8)>,
    outcomes: Seq<LedOutcome>,
    r: Result<(), GridError>,
) -> bool {
    let n = outcomes.len() as int;
    &&& n <= cells.len()
    &&& forall|k: int| 0 <= k < n ==> !led_refused(before, grid_id, (#[trigger] cells[k]).0, cells[k].1)
    &&& forall|k: int| 0 <= k < n ==> led_outcome(before, grid_id, (#[trigger] cells[k]).0, cells[k].1, cells[k].2, outcomes[k])
    &&& (r is Ok) == (n == cells.len())
    &&& r matches Err(e) ==> led_refused(before, grid_id, cells[n].0, cells[n].1) && led_error(before, grid_id, cells[n].0, cells[n].1, e)
    &&& same_but_leds(before, after)
    &&& forall|g: Seq<char>, xx: int, yy: int|
        #[trigger] after.assumed_level(g, xx, yy) == if g == grid_id && exists|k: int| sent_at(cells, outcomes, k, xx, yy) {
            let k = choose|k: int| last_sent_at(cells, outcomes, k, xx, yy);
            clamp_level(device_of(before, grid_id).is_varibright, cells[k].2)
        } else {
            before.assumed_level(g, xx, yy)
        }
}

/// The LEDs of the sequence rows 0-6 of a grid with `cols` columns, row by
/// row, each to be set to 0.
pub open spec fn sequence_row_cells(cols: nat) -> Seq<(usize, usize, u8)> {
    Seq::new(7 * cols, |k: int| ((k % (cols as int)) as usize, (k / (cols as int)) as usize, 0u8))
}

/// The LEDs of an LED map, column by column, each with its brightness.
pub open spec fn map_cells(map: Seq<Vec<u8>>, rows: nat) -> Seq<(usize, usize, u8)> {
    Seq::new(map.len() * rows, |k: int| ((k / (rows as int)) as usize, (k % (rows as int)) as usize, map[k / (rows as int)]@[k % (rows as int)]))
}

/// Whether the columns of `map` before `good` all have `rows` LEDs, and
/// column `good`, if there is one, does not.
pub open spec fn full_up_to(map: Seq<Vec<u8>>, rows: nat, good: int) -> bool {
    &&& 0 <= good <= map.len()
    &&& forall|i: int| 0 <= i < good ==> (#[trigger] map[i])@.len() == rows
    &&& good < map.len() ==> map[good]@.len() != rows
}

/// The number of leading columns of `map` that have `rows` LEDs.
pub open spec fn full_columns(map: Seq<Vec<u8>>, rows: nat) -> int {
    choose|good: int| full_up_to(map, rows, good)
}

proof fn lemma_full_columns(map: Seq<Vec<u8>>, rows: nat, good: int)
    requires
        full_up_to(map, rows, good),
    ensures
        full_columns(map, rows) == good,
{
    let g = full_columns(map, rows);
    assert(full_up_to(map, rows, g));
    if g < good {
        assert(map[g]@.len() == rows);
    } else if good < g {
        assert(map[good]@.len() == rows);
    }
}

proof fn lemma_map_cell(map: Seq<Vec<u8>>, rows: int, x: int, y: int)
    requires
        0 <= x < map.len(),
        0 <= y < rows,
        forall|i: int| 0 <= i < map.len() ==> (#[trigger] map[i])@.len() == rows,
    ensures
        map_cells(map, rows as nat).len() == map.len() * rows,
        x * rows + y < map.len() * rows,
        map_cells(map, rows as nat)[x * rows + y] == (x as usize, y as usize, map[x]@[y]),
{
    assert(x * rows + y < map.len() * rows) by (nonlinear_arith)
        requires
            0 <= x < map.len(),
            0 <= y < rows,
    ;
    vstd::arithmetic::div_mod::lemma_fundamental_div_mod_converse(x * rows + y, rows, x, y);
}

proof fn lemma_map_cell_bounds(k: int, n: int, rows: int)
    requires
        0 <= k < n * rows,
        0 <= n,
    ensures
        rows > 0,
        0 <= k / rows < n,
        0 <= k % rows < rows,
{
    assert(rows > 0) by (nonlinear_arith)
        requires
            0 <= k < n * rows,
            0 <= n,
    ;
    vstd::arithmetic::div_mod::lemma_fundamental_div_mod(k, rows);
    vstd::arithmetic::div_mod::lemma_mod_pos_bound(k, rows);
    let q = k / rows;
    let r = k % rows;
    assert(0 <= q < n) by (nonlinear_arith)
        requires
            k == rows * q + r,
            0 <= r < rows,
            0 <= k < n * rows,
            rows > 0,
    ;
}

/// One `set_led` seen from the grids at the start: its refusal, error and
/// outcome depend on the grids alone, which it leaves as they are.
proof fn lemma_set_led_step(
    start: GridManager,
    prev: GridManager,
    cur: GridManager,
    grid_id: Seq<char>,
    x: usize,
    y: usize,
    b: u8,
    r: Result<LedOutcome, GridError>,
)
    requires
        start.wf(),
        prev.devices() == start.devices(),
        prev.last_known() == start.last_known(),
        set_led_post(prev, cur, grid_id, x, y, b, r),
    ensures
        r is Ok <==> !led_refused(start, grid_id, x, y),
        r matches Err(e) ==> led_error(start, grid_id, x, y, e) && cur == prev,
        r matches Ok(o) ==> led_outcome(start, grid_id, x, y, b, o),
        r matches Ok(o) ==> same_but_leds(prev, cur),
        r matches Ok(o) && !(o is Send) ==> cur == prev,
        r matches Ok(o) && o is Send ==> led_recorded(prev, cur, grid_id, x as int, y as int, clamp_level(device_of(start, grid_id).is_varibright, b)),
{
    if start.has_device(grid_id) {
        let i = choose|i: int| 0 <= i < start.devices().len() && (#[trigger] start.devices()[i]).id@ == grid_id;
        let j = choose|j: int| 0 <= j < start.devices().len() && (#[trigger] start.devices()[j]).id@ == grid_id;
        assert(i == j);
        assert(device_of(start, grid_id) == start.devices()[i]);
        assert(prev.devices()[i] == start.devices()[i]);
    }
}

/// What a read gives back of a write: once `set_led` has sent LED (x, y)
/// of a grid, `get_led` there gives the brightness sent, as the grid shows
/// it (clamped to on/off or to 0-15), and every other LED keeps its level.
pub proof fn law_led_read_back(
    before: GridManager,
    after: GridManager,
    grid_id: Seq<char>,
    x: usize,
    y: usize,
    b: u8,
    r: Result<LedOutcome, GridError>,
    g: Seq<char>,
    xx: int,
    yy: int,
)
    requires
        before.wf(),
        set_led_post(before, after, grid_id, x, y, b, r),
        r matches Ok(LedOutcome::Send(_)),
    ensures
        after.assumed_level(grid_id, x as int, y as int) == clamp_level(device_of(before, grid_id).is_varibright, b),
        !(g == grid_id && xx == x && yy == y) ==> after.assumed_level(g, xx, yy) == before.assumed_level(g, xx, yy),
{
    lemma_set_led_step(before, before, after, grid_id, x, y, b, r);
    assert(after.assumed_level(grid_id, x as int, y as int) == clamp_level(device_of(before, grid_id).is_varibright, b));
    assert(after.assumed_level(g, xx, yy) == if g == grid_id && xx == x && yy == y {
        clamp_level(device_of(before, grid_id).is_varibright, b)
    } else {
        before.assumed_level(g, xx, yy)
    });
}

proof fn lemma_row_cell(y: int, x: int, cols: int)
    requires
        0 <= y <= 6,
        0 <= x < cols,
    ensures
        sequence_row_cells(cols as nat).len() == 7 * cols,
        y * cols + x < 7 * cols,
        sequence_row_cells(cols as nat)[y * cols + x] == (x as usize, y as usize, 0u8),
{
    assert(y * cols + x < 7 * cols) by (nonlinear_arith)
        requires
            0 <= y <= 6,
            0 <= x < cols,
    ;
    vstd::arithmetic::div_mod::lemma_fundamental_div_mod_converse(y * cols + x, cols, y, x);
}

proof fn lemma_row_cell_bounds(k: int, cols: int)
    requires
        0 <= k < 7 * cols,
        cols <= usize::MAX,
    ensures
        sequence_row_cells(cols as nat)[k].0 < cols,
        sequence_row_cells(cols as nat)[k].1 <= 6,
{
    assert(cols > 0) by (nonlinear_arith)
        requires
            0 <= k < 7 * cols,
    ;
    vstd::arithmetic::div_mod::lemma_fundamental_div_mod(k, cols);
    vstd::arithmetic::div_mod::lemma_mod_pos_bound(k, cols);
    let q = k / cols;
    let r = k % cols;
    assert(0 <= q < 7) by (nonlinear_arith)
        requires
            k == cols * q + r,
            0 <= r < cols,
            0 <= k < 7 * cols,
    ;
}

/// The grids known to the manager and what it assumes of their LEDs.
pub struct GridManager {
    devices: Vec<GridDevice>,
    assumed_led_states: Vec<LedState>,
    local_port: u16,
    virtual_events: Vec<GridButtonEvent>,
    last_known_grid_ids: Option<(String, String)>,
}

/// The pair of ids as plain values.
pub open spec fn pair_view(p: Option<(String, String)>) -> Option<(Seq<char>, Seq<char>)> {
    match p {
        Some((a, b)) => Some((a@, b@)),
        None => None,
    }
}

/// The ids, in device order, of the grids whose id holds "mock".
pub open spec fn mock_grid_ids(d: Seq<GridDevice>) -> Seq<Seq<char>>
    decreases d.len(),
{
    if d.len() == 0 {
        Seq::empty()
    } else {
        let rest = mock_grid_ids(d.drop_last());
        if contains_seq(d.last().id@, "mock"@) {
            rest.push(d.last().id@)
        } else {
            rest
        }
    }
}

/// What the soft check for two real grids found.
#[derive(Debug, Clone)]
pub struct TwoGridCheck {
    /// How many grids are connected.
    pub count: usize,
    /// Whether that is not two.
    pub count_wrong: bool,
    /// Whether a remembered pair of grid ids is there to fall back on.
    pub has_last_known: bool,
    /// The ids of the grids whose id holds "mock", in device order.
    pub mock_grids: Vec<String>,
}

impl GridManager {
    /// The connected devices.
    pub closed spec fn devices(&self) -> Seq<GridDevice> {
        self.devices@
    }

    /// The LED state entries.
    pub closed spec fn led_states(&self) -> Seq<LedState> {
        self.assumed_led_states@
    }

    /// The UDP port on which replies and key events arrive.
    pub closed spec fn port(&self) -> u16 {
        self.local_port
    }

    /// The button events injected and not yet read.
    pub closed spec fn pending_virtual(&self) -> Seq<GridButtonEvent> {
        self.virtual_events@
    }

    /// The ids of the last two grids seen together (grid one, grid two).
    pub closed spec fn last_known(&self) -> Option<(Seq<char>, Seq<char>)> {
        pair_view(self.last_known_grid_ids)
    }

    /// No two devices share an id.
    pub open spec fn wf(&self) -> bool {
        ids_distinct(self.devices())
    }

    /// The brightness assumed for LED (x, y) of grid `id`.
    pub open spec fn assumed_level(&self, id: Seq<char>, x: int, y: int) -> u8 {
        led_level(self.led_states(), id, x, y)
    }

    /// Whether a device with this id is connected.
    pub open spec fn has_device(&self, id: Seq<char>) -> bool {
        exists|i: int| 0 <= i < self.devices().len() && (#[trigger] self.devices()[i]).id@ == id
    }

    /// The ids of grid one and grid two: with exactly two grids connected,
    /// theirs in sorted order; otherwise the last pair remembered.
    pub open spec fn ordered_pair(&self) -> Option<(Seq<char>, Seq<char>)> {
        let d = self.devices();
        if d.len() == 2 {
            if lex_lt(d[1].id@, d[0].id@) {
                Some((d[1].id@, d[0].id@))
            } else {
                Some((d[0].id@, d[1].id@))
            }
        } else {
            self.last_known()
        }
    }

    /// Whether `id` is grid two (rotated by 180 degrees): never while no
    /// grid is connected, unknown (`None`) when the grids cannot be named.
    pub open spec fn grid_two_status(&self, id: Seq<char>) -> Option<bool> {
        if self.devices().len() == 0 {
            Some(false)
        } else {
            match self.ordered_pair() {
                Some((_, two)) => Some(id == two),
                None => None,
            }
        }
    }

    /// A manager listening on `local_port`, with no grid connected yet and
    /// the pair of grid ids remembered from an earlier run, if any.
    pub fn new(local_port: u16, last_known_grid_ids: Option<(String, String)>) -> (m: GridManager)
        ensures
            m.wf(),
            m.devices().len() == 0,
            m.led_states().len() == 0,
            m.port() == local_port,
            m.pending_virtual().len() == 0,
            m.last_known() == pair_view(last_known_grid_ids),
    {
        GridManager {
            devices: Vec::new(),
            assumed_led_states: Vec::new(),
            local_port,
            virtual_events: Vec::new(),
            last_known_grid_ids,
        }
    }

    /// The index of the device with this id.
    fn find_device(&self, id: &str) -> (r: Option<usize>)
        ensures
            r matches Some(i) ==> i < self.devices().len() && self.devices()[i as int].id@ == id@,
            r is None ==> !self.has_device(id@),
    {
        let mut i: usize = 0;
        while i < self.devices.len()
            invariant
                i <= self.devices@.len(),
                forall|k: int| 0 <= k < i ==> (#[trigger] self.devices@[k]).id@ != id@,
            decreases self.devices@.len() - i,
        {
            if same_text(self.devices[i].id.as_str(), id) {
                return Some(i);
            }
            i = i + 1;
        }
        None
    }

    /// Both grid ids in order (grid one, grid two).
    pub fn get_grid_ids_ordered(&self) -> (r: Result<(String, String), GridError>)
        ensures
            self.ordered_pair() matches Some((a, b)) ==> (r matches Ok((x, y)) && x@ == a && y@ == b),
            self.ordered_pair() is None ==> r matches Err(GridError::NoGridConfiguration),
    {
        if self.devices.len() == 2 {
            let a = self.devices[0].id.clone();
            let b = self.devices[1].id.clone();
            if str_less(b.as_str(), a.as_str()) {
                return Ok((b, a));
            } else {
                return Ok((a, b));
            }
        }
        match &self.last_known_grid_ids {
            Some((a, b)) => Ok((a.clone(), b.clone())),
            None => Err(GridError::NoGridConfiguration),
        }
    }

    /// The id of grid one.
    pub fn get_grid_one_id(&self) -> (r: Result<String, GridError>)
        ensures
            self.ordered_pair() matches Some((a, b)) ==> (r matches Ok(x) && x@ == a),
            self.ordered_pair() is None ==> r matches Err(GridError::NoGridConfiguration),
    {
        match self.get_grid_ids_ordered() {
            Ok((a, _)) => Ok(a),
            Err(e) => Err(e),
        }
    }

    /// The id of grid two.
    pub fn get_grid_two_id(&self) -> (r: Result<String, GridError>)
        ensures
            self.ordered_pair() matches Some((a, b)) ==> (r matches Ok(x) && x@ == b),
            self.ordered_pair() is None ==> r matches Err(GridError::NoGridConfiguration),
    {
        match self.get_grid_ids_ordered() {
            Ok((_, b)) => Ok(b),
            Err(e) => Err(e),
        }
    }

    /// Whether `grid_id` is grid two.
    pub fn is_grid_two(&self, grid_id: &str) -> (r: Result<bool, GridError>)
        ensures
            self.grid_two_status(grid_id@) matches Some(b) ==> r == Ok::<bool, GridError>(b),
            self.grid_two_status(grid_id@) is None ==> r matches Err(GridError::NoGridConfiguration),
    {
        if self.devices.len() == 0 {
            return Ok(false);
        }
        match self.get_grid_two_id() {
            Ok(two) => Ok(same_text(grid_id, two.as_str())),
            Err(e) => Err(e),
        }
    }

    /// The brightness assumed for LED (x, y) of a grid (0 if never set).
    pub fn get_led(&self, grid_id: &str, x: usize, y: usize) -> (b: u8)
        ensures
            b == self.assumed_level(grid_id@, x as int, y as int),
    {
        let mut i: usize = 0;
        let ghost s = self.assumed_led_states@;
        assert(s.skip(0) =~= s);
        while i < self.assumed_led_states.len()
            invariant
                s == self.assumed_led_states@,
                i <= s.len(),
                led_level(s, grid_id@, x as int, y as int) == led_level(s.skip(i as int), grid_id@, x as int, y as int),
            decreases s.len() - i,
        {
            let e = &self.assumed_led_states[i];
            assert(s.skip(i as int)[0] == s[i as int]);
            if e.x == x && e.y == y && same_text(e.grid_id.as_str(), grid_id) {
                return e.brightness;
            }
            assert(s.skip(i as int).drop_first() =~= s.skip(i as int + 1));
            i = i + 1;
        }
        0
    }

    /// Sets one LED, as far as the grids allow: on grid two the coordinates
    /// are mirrored first; a target row past 7 and a grid that is not
    /// connected are ignored; a target outside the grid is refused. The
    /// level is clamped to what the grid shows, recorded for the LED as
    /// addressed, and the message to send is returned.
    pub fn set_led(&mut self, grid_id: &str, x: usize, y: usize, brightness: u8, caller: &str) -> (r: Result<LedOutcome, GridError>)
        requires
            old(self).wf(),
            old(self).grid_two_status(grid_id@) == Some(true) ==> x <= 15 && y <= 7,
        ensures
            final(self).wf(),
            set_led_post(*old(self), *final(self), grid_id@, x, y, brightness, r),
    {
        let two = match self.is_grid_two(grid_id) {
            Ok(t) => t,
            Err(e) => {
                return Err(e);
            },
        };
        let (tx, ty) = if two {
            (15 - x, 7 - y)
        } else {
            (x, y)
        };
        if ty > 7 {
            return Ok(LedOutcome::RowOutside);
        }
        let idx = match self.find_device(grid_id) {
            Some(i) => i,
            None => {
                return Ok(LedOutcome::NotConnected);
            },
        };
        let cols = self.devices[idx].cols;
        let rows = self.devices[idx].rows;
        if tx >= cols || ty >= rows {
            return Err(
                GridError::OutOfBounds { grid_id: String::from_str(grid_id), x, y, tx, ty, cols, rows },
            );
        }
        let varibright = self.devices[idx].is_varibright;
        let level: u8 = if varibright {
            if brightness > 15 {
                15
            } else {
                brightness
            }
        } else if brightness > 0 {
            1
        } else {
            0
        };
        let ghost before = *self;
        record_led(&mut self.assumed_led_states, grid_id, x, y, level);
        let cmd = led_command(self.devices[idx].prefix.as_str(), varibright, tx, ty, level);
        let bytes = encode_osc(&cmd);
        let r = Ok(LedOutcome::Send(OscOutgoing { port: self.devices[idx].port, bytes }));
        assert(led_recorded(before, *self, grid_id@, x as int, y as int, level));
        r
    }

    /// Darkens every LED of a grid: the states of its cells become 0 and the
    /// clear messages are returned. An unknown grid is refused.
    pub fn clear_all(&mut self, grid_id: &str) -> (r: Result<Vec<OscOutgoing>, GridError>)
        requires
            old(self).wf(),
        ensures
            final(self).wf(),
            !old(self).has_device(grid_id@) ==> *final(self) == *old(self) && (r matches Err(
                GridError::NotFound(g),
            ) && g@ == grid_id@),
            forall|i: int|
                0 <= i < old(self).devices().len() && (#[trigger] old(self).devices()[i]).id@
                    == grid_id@ ==> {
                    let d = old(self).devices()[i];
                    &&& same_but_leds(*old(self), *final(self))
                    &&& forall|g: Seq<char>, xx: int, yy: int|
                        #[trigger] final(self).assumed_level(g, xx, yy) == if g == grid_id@ && 0
                            <= xx < d.cols && 0 <= yy < d.rows {
                            0
                        } else {
                            old(self).assumed_level(g, xx, yy)
                        }
                    &&& r matches Ok(out)
                    &&& sent_to(out@, d.port, clear_messages(d.prefix@, d.is_varibright))
                },
    {
        let idx = match self.find_device(grid_id) {
            Some(i) => i,
            None => {
                return Err(GridError::NotFound(String::from_str(grid_id)));
            },
        };
        let cols = self.devices[idx].cols;
        let rows = self.devices[idx].rows;
        let ghost start = *self;
        zero_region(&mut self.assumed_led_states, grid_id, cols, rows);
        assert forall|g: Seq<char>, xx: int, yy: int|
            #[trigger] self.assumed_level(g, xx, yy) == if g == grid_id@ && 0 <= xx < cols && 0 <= yy
                < rows {
                0
            } else {
                start.assumed_level(g, xx, yy)
            } by {
            assert(self.assumed_level(g, xx, yy) == led_level(self.assumed_led_states@, g, xx, yy));
        }
        let port = self.devices[idx].port;
        let prefix = self.devices[idx].prefix.as_str();
        let mut out: Vec<OscOutgoing> = Vec::new();
        if self.devices[idx].is_varibright {
            let c1 = int_command(prefix, "/grid/led/level/all", 0);
            out.push(OscOutgoing { port, bytes: encode_osc(&c1) });
        }
        let c2 = int_command(prefix, "/grid/led/all", 0);
        out.push(OscOutgoing { port, bytes: encode_osc(&c2) });
        Ok(out)
    }

    /// The messages that flash a grid `flash_count` times (on, then off,
    /// each time); the caller waits between them. An unknown grid is
    /// refused.
    pub fn flash_grid(&self, grid_id: &str, flash_count: usize) -> (r: Result<Vec<OscOutgoing>, GridError>)
        requires
            self.wf(),
        ensures
            !self.has_device(grid_id@) ==> (r matches Err(GridError::NotFound(g)) && g@ == grid_id@),
            forall|i: int|
                0 <= i < self.devices().len() && (#[trigger] self.devices()[i]).id@ == grid_id@
                    ==> {
                    let d = self.devices()[i];
                    r matches Ok(out) && sent_to(
                        out@,
                        d.port,
                        flash_messages_spec(d.prefix@, d.is_varibright, flash_count as nat),
                    )
                },
    {
        let idx = match self.find_device(grid_id) {
            Some(i) => i,
            None => {
                return Err(GridError::NotFound(String::from_str(grid_id)));
            },
        };
        let port = self.devices[idx].port;
        let prefix = self.devices[idx].prefix.as_str();
        let varibright = self.devices[idx].is_varibright;
        let ghost msgs = flash_messages_spec(prefix@, varibright, flash_count as nat);
        let mut out: Vec<OscOutgoing> = Vec::new();
        let mut k: usize = 0;
        while k < flash_count
            invariant
                k <= flash_count,
                msgs == flash_messages_spec(prefix@, varibright, flash_count as nat),
                out@.len() == 2 * k,
                forall|j: int| 0 <= j < out@.len() ==> (#[trigger] out@[j]).port == port && out@[j].bytes@ == osc_bytes(msgs[j]),
            decreases flash_count - k,
        {
            let (on_level, off_level): (i32, i32) = if varibright {
                (8, 0)
            } else {
                (1, 0)
            };
            let suffix = if varibright {
                "/grid/led/level/all"
            } else {
                "/grid/led/all"
            };
            let c_on = int_command(prefix, suffix, on_level);
            let c_off = int_command(prefix, suffix, off_level);
            proof {
                reveal_strlit("/grid/led/level/all");
                reveal_strlit("/grid/led/all");
                assert((2 * k) % 2 == 0);
                assert((2 * k + 1) % 2 == 1);
            }
            out.push(OscOutgoing { port, bytes: encode_osc(&c_on) });
            out.push(OscOutgoing { port, bytes: encode_osc(&c_off) });
            k = k + 1;
        }
        Ok(out)
    }

    /// Forgets nothing and sends nothing: messages go out as they are made.
    pub fn refresh(&mut self) -> (r: Result<(), GridError>)
        ensures
            r is Ok,
            *final(self) == *old(self),
    {
        Ok(())
    }

    /// The message that asks serialosc for its grids, and where it goes.
    pub fn discovery_request(&self) -> (o: OscOutgoing)
        ensures
            o.port == SERIALOSC_PORT,
            o.bytes@ == osc_bytes(report_request("/serialosc/list"@, self.port())),
    {
        let c = report_command("/serialosc/list", self.local_port);
        OscOutgoing { port: SERIALOSC_PORT, bytes: encode_osc(&c) }
    }

    /// The messages that ask a grid for its size and prefix and for its key
    /// events to be sent here.
    pub fn device_requests(&self, device_port: u16) -> (out: Vec<OscOutgoing>)
        ensures
            sent_to(
                out@,
                device_port,
                seq![
                    report_request("/sys/info"@, self.port()),
                    ("/sys/port"@, seq![int_arg(self.port() as i32)]),
                ],
            ),
    {
        let info = report_command("/sys/info", self.local_port);
        let key = int_command("/sys/port", "", self.local_port as i32);
        proof {
            reveal_strlit("");
            assert("/sys/port"@ + ""@ =~= "/sys/port"@);
        }
        let mut out: Vec<OscOutgoing> = Vec::new();
        out.push(OscOutgoing { port: device_port, bytes: encode_osc(&info) });
        out.push(OscOutgoing { port: device_port, bytes: encode_osc(&key) });
        out
    }

    /// Records a connected grid: a grid with this id is replaced, another
    /// added; the states of all its LEDs become 0. Whether it is varibright
    /// follows from its type.
    pub fn register_device(&mut self, id: &str, device_type: &str, port: u16, info: &DeviceInfo)
        requires
            old(self).wf(),
        ensures
            final(self).wf(),
            final(self).port() == old(self).port(),
            final(self).pending_virtual() == old(self).pending_virtual(),
            final(self).last_known() == old(self).last_known(),
            final(self).has_device(id@),
            forall|i: int|
                0 <= i < final(self).devices().len() ==> {
                    let d = #[trigger] final(self).devices()[i];
                    d.id@ == id@ ==> {
                        &&& d.device_type@ == device_type@
                        &&& d.port == port
                        &&& d.cols == info.cols
                        &&& d.rows == info.rows
                        &&& d.prefix@ == info.prefix@
                        &&& d.is_varibright == varibright_type(device_type@)
                    }
                },
            forall|g: Seq<char>|
                g != id@ ==> (#[trigger] final(self).has_device(g) == old(self).has_device(g)),
            forall|i: int, j: int|
                0 <= i < old(self).devices().len() && 0 <= j < final(self).devices().len() && (
                #[trigger] old(self).devices()[i]).id@ == (#[trigger] final(self).devices()[j]).id@
                    && old(self).devices()[i].id@ != id@ ==> final(self).devices()[j] == old(
                    self,
                ).devices()[i],
            forall|g: Seq<char>, xx: int, yy: int|
                #[trigger] final(self).assumed_level(g, xx, yy) == if g == id@ && 0 <= xx < info.cols
                    && 0 <= yy < info.rows {
                    0
                } else {
                    old(self).assumed_level(g, xx, yy)
                },
    {
        let device = GridDevice {
            id: String::from_str(id),
            device_type: String::from_str(device_type),
            port,
            cols: info.cols,
            rows: info.rows,
            prefix: info.prefix.clone(),
            is_varibright: is_varibright_type(device_type),
        };
        let ghost before = *self;
        match self.find_device(id) {
            Some(i) => {
                self.devices.set(i, device);
                assert(self.devices@[i as int].id@ == id@);
            },
            None => {
                self.devices.push(device);
                assert(self.devices@[self.devices@.len() - 1].id@ == id@);
            },
        }
        let ghost mid = *self;
        zero_region(&mut self.assumed_led_states, id, info.cols, info.rows);
        assert forall|g: Seq<char>, xx: int, yy: int|
            #[trigger] self.assumed_level(g, xx, yy) == if g == id@ && 0 <= xx < info.cols && 0 <= yy
                < info.rows {
                0
            } else {
                before.assumed_level(g, xx, yy)
            } by {
            assert(self.assumed_level(g, xx, yy) == led_level(self.assumed_led_states@, g, xx, yy));
            assert(before.assumed_level(g, xx, yy) == led_level(before.assumed_led_states@, g, xx, yy));
        }
        assert(self.devices() == mid.devices());
        assert forall|g: Seq<char>| g != id@ implies #[trigger] self.has_device(g) == before.has_device(g) by {
            if before.has_device(g) {
                let i = choose|i: int| 0 <= i < before.devices().len() && (#[trigger] before.devices()[i]).id@ == g;
                assert(self.devices()[i].id@ == g);
            }
            if self.has_device(g) {
                let j = choose|j: int| 0 <= j < self.devices().len() && (#[trigger] self.devices()[j]).id@ == g;
                assert(before.devices()[j].id@ == g);
            }
        }
        assert(self.has_device(id@)) by {
            let k = choose|k: int| 0 <= k < mid.devices().len() && mid.devices()[k].id@ == id@;
            assert(self.devices()[k].id@ == id@);
        }
    }

    /// Reads a received message as a key press of the connected grid whose
    /// port sent it; grid two's key coordinates are mirrored back.
    pub fn read_key(&self, source_port: u16, msg: &OscCommand) -> (r: KeyRead)
        requires
            self.wf(),
        ensures
            key_read_post(*self, source_port, command_view(*msg), r),
    {
        let ghost m = command_view(*msg);
        assert(m.1.len() == msg.args@.len());
        let mut i: usize = 0;
        while i < self.devices.len() && self.devices[i].port != source_port
            invariant
                i <= self.devices@.len(),
                forall|k: int| 0 <= k < i ==> (#[trigger] self.devices@[k]).port != source_port,
            decreases self.devices@.len() - i,
        {
            i = i + 1;
        }
        if i == self.devices.len() {
            return KeyRead::Ignored;
        }
        proof {
            let d = self.devices();
            assert forall|i2: int|
                0 <= i2 < d.len() && (#[trigger] d[i2]).port == source_port && (forall|k: int|
                    0 <= k < i2 ==> (#[trigger] d[k]).port != source_port) implies i2 == i by {
                if i2 > i {
                    assert(d[i as int].port == source_port);
                }
            }
        }
        let device = &self.devices[i];
        let mut key_addr = device.prefix.clone();
        key_addr.append("/grid/key");
        if !(msg.addr == key_addr) || msg.args.len() < 3 {
            return KeyRead::Ignored;
        }
        assert(m.1[0] == arg_view(msg.args@[0]));
        assert(m.1[1] == arg_view(msg.args@[1]));
        assert(m.1[2] == arg_view(msg.args@[2]));
        match (&msg.args[0], &msg.args[1], &msg.args[2]) {
            (OscArg::Int(x), OscArg::Int(y), OscArg::Int(state)) => {
                let two = match self.is_grid_two(device.id.as_str()) {
                    Ok(t) => t,
                    Err(_) => false,
                };
                let hx = *x as usize;
                let hy = *y as usize;
                if two {
                    if hx > 15 || hy > 7 {
                        return KeyRead::OutOfRange;
                    }
                    KeyRead::Event(
                        GridButtonEvent {
                            grid_id: device.id.clone(),
                            x: 15 - hx,
                            y: 7 - hy,
                            pressed: *state != 0,
                        },
                    )
                } else {
                    KeyRead::Event(
                        GridButtonEvent { grid_id: device.id.clone(), x: hx, y: hy, pressed: *state != 0 },
                    )
                }
            },
            _ => KeyRead::Ignored,
        }
    }

    /// Reads a received datagram as a key press (see `read_key`).
    pub fn read_key_datagram(&self, source_port: u16, bytes: &[u8]) -> (r: KeyRead)
        requires
            self.wf(),
        ensures
            osc_decoded(bytes@) matches Some(m) ==> key_read_post(*self, source_port, m, r),
            osc_decoded(bytes@) is None ==> r is Ignored,
    {
        match decode_osc(bytes) {
            Some(msg) => self.read_key(source_port, &msg),
            None => KeyRead::Ignored,
        }
    }

    /// Queues a button event that did not come from a grid.
    pub fn inject_virtual_button(&mut self, grid_id: &str, x: usize, y: usize, pressed: bool)
        ensures
            injected(*old(self), *final(self), grid_id@, x, y, pressed),
    {
        self.virtual_events.push(GridButtonEvent { grid_id: String::from_str(grid_id), x, y, pressed });
    }

    /// Hands out the queued button events, oldest first, and forgets them.
    pub fn take_virtual_events(&mut self) -> (events: Vec<GridButtonEvent>)
        ensures
            virtual_taken(*old(self), *final(self), events@),
    {
        let mut events: Vec<GridButtonEvent> = Vec::new();
        std::mem::swap(&mut events, &mut self.virtual_events);
        events
    }

    /// The size of a connected grid.
    pub fn get_dimensions(&self, grid_id: &str) -> (r: Option<(usize, usize)>)
        requires
            self.wf(),
        ensures
            !self.has_device(grid_id@) ==> r is None,
            forall|i: int|
                0 <= i < self.devices().len() && (#[trigger] self.devices()[i]).id@ == grid_id@
                    ==> r == Some((self.devices()[i].cols, self.devices()[i].rows)),
    {
        match self.find_device(grid_id) {
            Some(i) => Some((self.devices[i].cols, self.devices[i].rows)),
            None => None,
        }
    }

    /// The type name of a connected grid.
    pub fn get_name(&self, grid_id: &str) -> (r: Option<String>)
        requires
            self.wf(),
        ensures
            !self.has_device(grid_id@) ==> r is None,
            forall|i: int|
                0 <= i < self.devices().len() && (#[trigger] self.devices()[i]).id@ == grid_id@
                    ==> (r matches Some(n) && n@ == self.devices()[i].device_type@),
    {
        match self.find_device(grid_id) {
            Some(i) => Some(self.devices[i].device_type.clone()),
            None => None,
        }
    }

    /// Whether a connected grid shows levels of brightness (`false` for an
    /// unknown grid).
    pub fn is_varibright(&self, grid_id: &str) -> (b: bool)
        requires
            self.wf(),
        ensures
            !self.has_device(grid_id@) ==> !b,
            forall|i: int|
                0 <= i < self.devices().len() && (#[trigger] self.devices()[i]).id@ == grid_id@
                    ==> b == self.devices()[i].is_varibright,
    {
        match self.find_device(grid_id) {
            Some(i) => self.devices[i].is_varibright,
            None => false,
        }
    }

    /// The ids of the connected grids in sorted order.
    pub fn get_connected_grids(&self) -> (ids: Vec<String>)
        ensures
            names_sorted(texts(ids@)),
            texts(ids@).to_multiset() == device_ids(self.devices()).to_multiset(),
    {
        broadcast use vstd::seq_lib::group_to_multiset_ensures;

        let mut rest: Vec<String> = Vec::new();
        let mut i: usize = 0;
        while i < self.devices.len()
            invariant
                i <= self.devices@.len(),
                texts(rest@) == device_ids(self.devices@.subrange(0, i as int)),
            decreases self.devices@.len() - i,
        {
            let id = self.devices[i].id.clone();
            let ghost old_rest = rest@;
            rest.push(id);
            assert(texts(rest@) =~= texts(old_rest).push(self.devices@[i as int].id@));
            assert(device_ids(self.devices@.subrange(0, i as int + 1)) =~= device_ids(self.devices@.subrange(0, i as int)).push(self.devices@[i as int].id@));
            i = i + 1;
        }
        assert(self.devices@.subrange(0, self.devices@.len() as int) =~= self.devices@);
        let ghost all = texts(rest@);
        let mut out: Vec<String> = Vec::new();
        assert(texts(out@) =~= Seq::<Seq<char>>::empty());
        assert(texts(out@).to_multiset().add(texts(rest@).to_multiset()) =~= all.to_multiset());
        while rest.len() > 0
            invariant
                texts(out@).to_multiset().add(texts(rest@).to_multiset()) == all.to_multiset(),
                all == device_ids(self.devices@),
                names_sorted(texts(out@)),
                forall|a: int, b: int|
                    0 <= a < out@.len() && 0 <= b < rest@.len() ==> !lex_lt(
                        #[trigger] texts(rest@)[b],
                        #[trigger] texts(out@)[a],
                    ),
            decreases rest@.len(),
        {
            let mut m: usize = 0;
            let mut j: usize = 1;
            proof {
                lemma_lex_irreflexive(texts(rest@)[0]);
            }
            while j < rest.len()
                invariant
                    m < j <= rest@.len(),
                    forall|k: int| 0 <= k < j ==> !lex_lt(#[trigger] texts(rest@)[k], texts(rest@)[m as int]),
                decreases rest@.len() - j,
            {
                if str_less(rest[j].as_str(), rest[m].as_str()) {
                    proof {
                        assert forall|k: int| 0 <= k < j + 1 implies !lex_lt(#[trigger] texts(rest@)[k], texts(rest@)[j as int]) by {
                            if k < j && lex_lt(texts(rest@)[k], texts(rest@)[j as int]) {
                                lemma_lex_trans(texts(rest@)[k], texts(rest@)[j as int], texts(rest@)[m as int]);
                            }
                            if k == j {
                                lemma_lex_irreflexive(texts(rest@)[k]);
                            }
                        }
                    }
                    m = j;
                }
                j = j + 1;
            }
            let ghost before_rest = rest@;
            let ghost before_out = out@;
            let smallest = rest.remove(m);
            assert(texts(rest@) =~= texts(before_rest).remove(m as int));
            out.push(smallest);
            assert(texts(out@) =~= texts(before_out).push(smallest@));
            proof {
                texts(before_rest).to_multiset_ensures();
                texts(before_out).to_multiset_ensures();
                assert(texts(before_rest).remove(m as int).to_multiset() =~= texts(before_rest).to_multiset().remove(texts(before_rest)[m as int]));
                assert(texts(out@).to_multiset().add(texts(rest@).to_multiset()) =~= all.to_multiset());
                assert forall|a: int, b: int| 0 <= a < b < texts(out@).len() implies !lex_lt(#[trigger] texts(out@)[b], #[trigger] texts(out@)[a]) by {
                    if b == texts(out@).len() - 1 {
                        assert(texts(out@)[b] == texts(before_rest)[m as int]);
                        assert(texts(out@)[a] == texts(before_out)[a]);
                    } else {
                        assert(texts(out@)[b] == texts(before_out)[b]);
                        assert(texts(out@)[a] == texts(before_out)[a]);
                    }
                }
                assert forall|a: int, b: int| 0 <= a < out@.len() && 0 <= b < rest@.len() implies !lex_lt(
                    #[trigger] texts(rest@)[b],
                    #[trigger] texts(out@)[a],
                ) by {
                    let ob = if b < m { b } else { b + 1 };
                    assert(texts(rest@)[b] == texts(before_rest)[ob]);
                    if a == out@.len() - 1 {
                        assert(texts(out@)[a] == texts(before_rest)[m as int]);
                    } else {
                        assert(texts(out@)[a] == texts(before_out)[a]);
                    }
                }
            }
        }
        assert(texts(rest@) =~= Seq::<Seq<char>>::empty());
        assert(texts(out@).to_multiset() =~= all.to_multiset());
        out
    }

    /// The soft check that exactly two real grids are connected: the
    /// count, whether a remembered pair can stand in, and the mock grids.
    pub fn verify_two_grids_requirement(&self) -> (c: TwoGridCheck)
        ensures
            c.count == self.devices().len(),
            c.count_wrong == (self.devices().len() != 2),
            c.has_last_known == (self.last_known() is Some),
            texts(c.mock_grids@) == mock_grid_ids(self.devices()),
    {
        let mut mocks: Vec<String> = Vec::new();
        let mut i: usize = 0;
        while i < self.devices.len()
            invariant
                i <= self.devices@.len(),
                texts(mocks@) == mock_grid_ids(self.devices@.take(i as int)),
            decreases self.devices@.len() - i,
        {
            let ghost before = mocks@;
            assert(self.devices@.take(i as int + 1).drop_last() =~= self.devices@.take(i as int));
            if str_contains(self.devices[i].id.as_str(), "mock") {
                mocks.push(self.devices[i].id.clone());
                assert(texts(mocks@) =~= texts(before).push(self.devices@[i as int].id@));
            }
            i = i + 1;
        }
        assert(self.devices@.take(self.devices@.len() as int) =~= self.devices@);
        let n = self.devices.len();
        TwoGridCheck {
            count: n,
            count_wrong: n != 2,
            has_last_known: self.last_known_grid_ids.is_some(),
            mock_grids: mocks,
        }
    }

    /// Grid one and grid two as the application names them: the lowest and
    /// the second lowest connected id, where there are that many grids.
    pub fn get_sorted_grid_ids(&self) -> (r: (Option<String>, Option<String>))
        ensures
            ({
                let ids = self.sorted_ids_spec();
                &&& ids.len() == self.devices().len()
                &&& (ids.len() >= 1 <==> r.0 is Some)
                &&& (r.0 matches Some(a) ==> a@ == ids[0])
                &&& (ids.len() >= 2 <==> r.1 is Some)
                &&& (r.1 matches Some(b) ==> b@ == ids[1])
            }),
    {
        broadcast use vstd::seq_lib::group_to_multiset_ensures;

        let ids = self.get_connected_grids();
        proof {
            self.lemma_sorted_ids_unique(texts(ids@));
            texts(ids@).to_multiset_ensures();
            device_ids(self.devices()).to_multiset_ensures();
        }
        let one = if ids.len() >= 1 { Some(ids[0].clone()) } else { None };
        let two = if ids.len() >= 2 { Some(ids[1].clone()) } else { None };
        (one, two)
    }

    /// Which grids `flash_all_grids` flashes and how often: with two or more
    /// connected, the first of the sorted ids once and the second twice;
    /// otherwise each twice.
    pub fn flash_plan(&self) -> (plan: Vec<(String, usize)>)
        ensures
            ({
                let ids = self.sorted_ids_spec();
                if ids.len() >= 2 {
                    plan@.len() == 2 && plan@[0].0@ == ids[0] && plan@[0].1 == 1 && plan@[1].0@ == ids[1]
                        && plan@[1].1 == 2
                } else {
                    plan@.len() == ids.len() && forall|k: int| 0 <= k < ids.len() ==> (#[trigger] plan@[k]).0@ == ids[k] && plan@[k].1 == 2
                }
            }),
    {
        let ids = self.get_connected_grids();
        proof {
            self.lemma_sorted_ids_unique(texts(ids@));
        }
        let mut plan: Vec<(String, usize)> = Vec::new();
        if ids.len() >= 2 {
            plan.push((ids[0].clone(), 1));
            plan.push((ids[1].clone(), 2));
        } else {
            let mut k: usize = 0;
            while k < ids.len()
                invariant
                    k <= ids@.len(),
                    ids@.len() < 2,
                    plan@.len() == k,
                    forall|j: int| 0 <= j < k ==> (#[trigger] plan@[j]).0@ == ids@[j]@ && plan@[j].1 == 2,
                decreases ids@.len() - k,
            {
                plan.push((ids[k].clone(), 2));
                k = k + 1;
            }
        }
        plan
    }

    /// The connected ids in sorted order.
    pub closed spec fn sorted_ids_spec(&self) -> Seq<Seq<char>> {
        choose|s: Seq<Seq<char>>| names_sorted(s) && s.to_multiset() == device_ids(self.devices()).to_multiset()
    }

    proof fn lemma_sorted_ids_unique(&self, s: Seq<Seq<char>>)
        requires
            names_sorted(s),
            s.to_multiset() == device_ids(self.devices()).to_multiset(),
        ensures
            s == self.sorted_ids_spec(),
    {
        lemma_sorted_unique(s, self.sorted_ids_spec());
    }

    /// With exactly two grids connected, remembers them as the pair of grid
    /// one and grid two and returns the pair (to be saved); otherwise
    /// changes nothing.
    pub fn remember_grid_pair(&mut self) -> (r: Option<(String, String)>)
        ensures
            final(self).devices() == old(self).devices(),
            final(self).led_states() == old(self).led_states(),
            final(self).port() == old(self).port(),
            final(self).pending_virtual() == old(self).pending_virtual(),
            old(self).devices().len() == 2 ==> {
                &&& pair_view(r) == old(self).ordered_pair()
                &&& final(self).last_known() == old(self).ordered_pair()
            },
            old(self).devices().len() != 2 ==> r is None && *final(self) == *old(self),
    {
        if self.devices.len() == 2 {
            match self.get_grid_ids_ordered() {
                Ok((a, b)) => {
                    self.last_known_grid_ids = Some((a.clone(), b.clone()));
                    Some((a, b))
                },
                Err(_) => None,
            }
        } else {
            None
        }
    }

    /// Sets `cells` one after the other (see `leds_applied`), stopping at
    /// the first LED refused; the outcomes are returned in order, to be sent.
    fn apply_leds(&mut self, grid_id: &str, cells: &Vec<(usize, usize, u8)>) -> (res: (Vec<LedOutcome>, Result<(), GridError>))
        requires
            old(self).wf(),
            old(self).grid_two_status(grid_id@) == Some(true) ==> forall|k: int| 0 <= k < cells@.len() ==> (#[trigger] cells@[k]).0 <= 15 && cells@[k].1 <= 7,
        ensures
            final(self).wf(),
            leds_applied(*old(self), *final(self), grid_id@, cells@, res.0@, res.1),
    {
        let ghost start = *self;
        let mut outcomes: Vec<LedOutcome> = Vec::new();
        let mut k: usize = 0;
        while k < cells.len()
            invariant
                start == *old(self),
                start.wf(),
                self.wf(),
                start.grid_two_status(grid_id@) == Some(true) ==> forall|j: int| 0 <= j < cells@.len() ==> (#[trigger] cells@[j]).0 <= 15 && cells@[j].1 <= 7,
                k <= cells@.len(),
                outcomes@.len() == k,
                same_but_leds(start, *self),
                forall|j: int| 0 <= j < k ==> !led_refused(start, grid_id@, (#[trigger] cells@[j]).0, cells@[j].1),
                forall|j: int| 0 <= j < k ==> led_outcome(start, grid_id@, (#[trigger] cells@[j]).0, cells@[j].1, cells@[j].2, outcomes@[j]),
                forall|g: Seq<char>, xx: int, yy: int|
                    #[trigger] self.assumed_level(g, xx, yy) == if g == grid_id@ && exists|j: int| sent_at(cells@, outcomes@, j, xx, yy) {
                        let j = choose|j: int| last_sent_at(cells@, outcomes@, j, xx, yy);
                        clamp_level(device_of(start, grid_id@).is_varibright, cells@[j].2)
                    } else {
                        start.assumed_level(g, xx, yy)
                    },
            decreases cells@.len() - k,
        {
            let (x, y, b) = cells[k];
            let ghost prev = *self;
            let ghost prev_out = outcomes@;
            let r = self.set_led(grid_id, x, y, b, "");
            proof {
                lemma_set_led_step(start, prev, *self, grid_id@, x, y, b, r);
            }
            match r {
                Ok(o) => {
                    let ghost is_send = o is Send;
                    outcomes.push(o);
                    proof {
                        assert forall|g: Seq<char>, xx: int, yy: int|
                            #[trigger] self.assumed_level(g, xx, yy) == if g == grid_id@ && exists|j: int| sent_at(cells@, outcomes@, j, xx, yy) {
                                let j = choose|j: int| last_sent_at(cells@, outcomes@, j, xx, yy);
                                clamp_level(device_of(start, grid_id@).is_varibright, cells@[j].2)
                            } else {
                                start.assumed_level(g, xx, yy)
                            } by {
                            if g == grid_id@ {
                                if xx == x && yy == y && is_send {
                                    assert(sent_at(cells@, outcomes@, k as int, xx, yy));
                                    assert(last_sent_at(cells@, outcomes@, k as int, xx, yy));
                                    let c = choose|j: int| last_sent_at(cells@, outcomes@, j, xx, yy);
                                    assert(sent_at(cells@, outcomes@, c, xx, yy));
                                    assert(c == k);
                                } else {
                                    assert forall|j: int| sent_at(cells@, outcomes@, j, xx, yy) implies sent_at(cells@, prev_out, j, xx, yy) by {
                                        if j == k {
                                            assert(is_send);
                                        }
                                    }
                                    assert forall|j: int| sent_at(cells@, prev_out, j, xx, yy) implies sent_at(cells@, outcomes@, j, xx, yy) by {
                                        assert(outcomes@[j] == prev_out[j]);
                                    }
                                    if exists|j: int| sent_at(cells@, outcomes@, j, xx, yy) {
                                        let w = choose|j: int| sent_at(cells@, outcomes@, j, xx, yy);
                                        lemma_last_sent_exists(cells@, outcomes@, xx, yy, w);
                                        let c1 = choose|j: int| last_sent_at(cells@, outcomes@, j, xx, yy);
                                        assert(sent_at(cells@, prev_out, c1, xx, yy));
                                        lemma_last_sent_exists(cells@, prev_out, xx, yy, c1);
                                        let c2 = choose|j: int| last_sent_at(cells@, prev_out, j, xx, yy);
                                        assert(sent_at(cells@, outcomes@, c2, xx, yy));
                                        assert(c1 <= c2);
                                        assert(c2 <= c1);
                                    }
                                }
                            }
                        }
                    }
                },
                Err(e) => {
                    proof {
                        assert(cells@[k as int] == (x, y, b));
                        assert(outcomes@.len() == k);
                    }
                    return (outcomes, Err(e));
                },
            }
            k = k + 1;
        }
        (outcomes, Ok(()))
    }

    /// Tests a grid (see `grid_test_run`): the steps are returned in order,
    /// for their messages to be sent and their pauses kept. An unknown grid
    /// is refused.
    pub fn test_grid(&mut self, grid_id: &str) -> (res: (Vec<GridTestStep>, Result<(), GridError>))
        requires
            old(self).wf(),
            old(self).has_device(grid_id@) ==> {
                let d = device_of(*old(self), grid_id@);
                &&& d.cols >= 1
                &&& d.rows >= 1
                &&& d.cols * d.rows <= usize::MAX
                &&& old(self).grid_two_status(grid_id@) == Some(true) ==> d.cols <= 16 && d.rows <= 8
            },
        ensures
            final(self).wf(),
            !old(self).has_device(grid_id@) ==> *final(self) == *old(self) && res.0@.len() == 0 && (res.1 matches Err(GridError::NotFound(g)) && g@ == grid_id@),
            old(self).has_device(grid_id@) ==> exists|
                mid1: GridManager,
                o1: Seq<LedOutcome>,
                r1: Result<(), GridError>,
                mid2: GridManager,
                o2: Seq<LedOutcome>,
                r2: Result<(), GridError>,
            | #![trigger grid_test_run(*old(self), *final(self), grid_id@, res.0@, res.1, mid1, o1, r1, mid2, o2, r2)]
                grid_test_run(*old(self), *final(self), grid_id@, res.0@, res.1, mid1, o1, r1, mid2, o2, r2),
    {
        let idx = match self.find_device(grid_id) {
            Some(i) => i,
            None => {
                return (Vec::new(), Err(GridError::NotFound(String::from_str(grid_id))));
            },
        };
        let ghost start = *self;
        let cols = self.devices[idx].cols;
        let rows = self.devices[idx].rows;
        let port = self.devices[idx].port;
        let varibright = self.devices[idx].is_varibright;
        let prefix = self.devices[idx].prefix.clone();
        proof {
            assert(device_of(start, grid_id@) == start.devices()[idx as int]) by {
                let i = choose|i: int| 0 <= i < start.devices().len() && (#[trigger] start.devices()[i]).id@ == grid_id@;
                if i != idx as int {
                    assert(start.devices()[i].id@ != start.devices()[idx as int].id@);
                }
            }
        }
        let large = cols * rows > 256;
        let (b_on, p_on, p_hold): (u8, u64, u64) = if large {
            (8, 200, 800)
        } else {
            (10, 150, 500)
        };
        let corners_on = vec![(0, 0, b_on), (cols - 1, 0, b_on), (0, rows - 1, b_on), (cols - 1, rows - 1, b_on)];
        assert(corners_on@ =~= corner_cells(cols as int, rows as int, b_on));
        let (o1, r1) = self.apply_leds(grid_id, &corners_on);
        let ghost mid1 = *self;
        let ghost go1 = o1@;
        let mut steps: Vec<GridTestStep> = Vec::new();
        push_led_steps(&mut steps, o1, p_on);
        assert(steps@.subrange(0, go1.len() as int) =~= led_steps(go1, p_on));
        if r1.is_err() {
            let res = (steps, r1);
            assert(grid_test_run(start, *self, grid_id@, res.0@, res.1, mid1, go1, res.1, mid1, Seq::empty(), Ok(())));
            return res;
        }
        steps.push(GridTestStep::Pause(p_hold));
        let corners_off = vec![(0, 0, 0), (cols - 1, 0, 0), (0, rows - 1, 0), (cols - 1, rows - 1, 0)];
        assert(corners_off@ =~= corner_cells(cols as int, rows as int, 0));
        let (o2, r2) = self.apply_leds(grid_id, &corners_off);
        let ghost mid2 = *self;
        let ghost go2 = o2@;
        let ghost n1 = go1.len() as int;
        let ghost before2 = steps@;
        push_led_steps(&mut steps, o2, 100);
        assert(steps@.subrange(0, n1) =~= before2.subrange(0, n1));
        assert(steps@.subrange(n1 + 1, n1 + 1 + go2.len()) =~= led_steps(go2, 100));
        if r2.is_err() {
            let res = (steps, r2);
            assert(grid_test_run(start, *self, grid_id@, res.0@, res.1, mid1, go1, r1, mid2, go2, res.1));
            return res;
        }
        let ghost m = n1 + 1 + go2.len();
        if !large {
            let suffix = if varibright {
                "/grid/led/level/all"
            } else {
                "/grid/led/all"
            };
            let level: i32 = if varibright {
                5
            } else {
                1
            };
            proof {
                reveal_strlit("/grid/led/level/all");
                reveal_strlit("/grid/led/all");
            }
            let c = int_command(prefix.as_str(), suffix, level);
            let flash = vec![OscOutgoing { port, bytes: encode_osc(&c) }];
            steps.push(GridTestStep::Send(flash, 200));
        }
        let ghost before_clear = steps@;
        match self.clear_all(grid_id) {
            Ok(out) => {
                steps.push(GridTestStep::Send(out, 0));
            },
            Err(e) => {
                assert(false);
                return (steps, Err(e));
            },
        }
        proof {
            let d = device_of(start, grid_id@);
            assert(d == start.devices()[idx as int]);
            assert(steps@.subrange(0, n1) =~= before2.subrange(0, n1));
            assert(steps@.subrange(n1 + 1, m) =~= before_clear.subrange(n1 + 1, m));
            assert(steps@[n1] == before2[n1]);
            assert(mid2.devices() == start.devices());
            assert(same_but_leds(mid2, *self));
            assert(forall|g: Seq<char>, xx: int, yy: int|
                #[trigger] self.assumed_level(g, xx, yy) == if g == grid_id@ && 0 <= xx < d.cols && 0 <= yy < d.rows {
                    0
                } else {
                    mid2.assumed_level(g, xx, yy)
                });
            if large {
                assert(steps@.len() == m + 1);
            } else {
                assert(steps@.len() == m + 2);
            }
            let large_spec = d.cols * d.rows > 256;
            assert(large == large_spec);
            assert(leds_applied(start, mid1, grid_id@, corner_cells(d.cols as int, d.rows as int, if large_spec { 8 } else { 10 }), go1, r1));
            assert(steps@.subrange(0, n1) == led_steps(go1, if large_spec { 200 } else { 150 }));
            assert(steps@[n1] == GridTestStep::Pause(if large_spec { 800 } else { 500 }));
            assert(leds_applied(mid1, mid2, grid_id@, corner_cells(d.cols as int, d.rows as int, 0), go2, r2));
            assert(steps@.subrange(n1 + 1, m) == led_steps(go2, 100));
        }
        let res = (steps, Ok(()));
        assert(grid_test_run(start, *self, grid_id@, res.0@, res.1, mid1, go1, r1, mid2, go2, r2));
        res
    }

    /// Sets the LEDs of a grid from a map of columns, each a column of
    /// brightness levels: an unknown grid is refused, and so is a map whose
    /// width is not the grid's; otherwise the columns are set one after the
    /// other, LED by LED as `set_led` does it (see `leds_applied`), up to the
    /// first column whose height is not the grid's, which is then refused.
    pub fn set_led_map(&mut self, grid_id: &str, led_map: &[Vec<u8>]) -> (res: (Vec<LedOutcome>, Result<(), GridError>))
        requires
            old(self).wf(),
            old(self).grid_two_status(grid_id@) == Some(true) && old(self).has_device(grid_id@) ==> {
                &&& device_of(*old(self), grid_id@).cols <= 16
                &&& device_of(*old(self), grid_id@).rows <= 8
            },
        ensures
            final(self).wf(),
            !old(self).has_device(grid_id@) ==> *final(self) == *old(self) && res.0@.len() == 0 && (res.1 matches Err(GridError::NotFound(g)) && g@ == grid_id@),
            old(self).has_device(grid_id@) ==> {
                let d = device_of(*old(self), grid_id@);
                let good = full_columns(led_map@, d.rows as nat);
                let cells = map_cells(led_map@.take(good), d.rows as nat);
                &&& led_map@.len() != d.cols ==> {
                    &&& *final(self) == *old(self)
                    &&& res.0@.len() == 0
                    &&& res.1 matches Err(GridError::MapWidth { width, cols }) && width == led_map@.len() && cols == d.cols
                }
                &&& led_map@.len() == d.cols && (good == d.cols || res.0@.len() < cells.len()) ==> leds_applied(
                    *old(self),
                    *final(self),
                    grid_id@,
                    cells,
                    res.0@,
                    res.1,
                )
                &&& led_map@.len() == d.cols && good < d.cols && res.0@.len() == cells.len() ==> {
                    &&& leds_applied(*old(self), *final(self), grid_id@, cells, res.0@, Ok(()))
                    &&& res.1 matches Err(GridError::MapHeight { column, height, rows })
                    &&& column == good && height == led_map@[good]@.len() && rows == d.rows
                }
            },
    {
        let idx = match self.find_device(grid_id) {
            Some(i) => i,
            None => {
                return (Vec::new(), Err(GridError::NotFound(String::from_str(grid_id))));
            },
        };
        let cols = self.devices[idx].cols;
        let rows = self.devices[idx].rows;
        let ghost start = *self;
        proof {
            assert(device_of(start, grid_id@) == start.devices()[idx as int]) by {
                let i = choose|i: int| 0 <= i < start.devices().len() && (#[trigger] start.devices()[i]).id@ == grid_id@;
                if i != idx as int {
                    assert(start.devices()[i].id@ != start.devices()[idx as int].id@);
                }
            }
        }
        if led_map.len() != cols {
            return (Vec::new(), Err(GridError::MapWidth { width: led_map.len(), cols }));
        }
        let mut good: usize = 0;
        while good < cols && led_map[good].len() == rows
            invariant
                good <= cols,
                cols == led_map@.len(),
                forall|i: int| 0 <= i < good ==> (#[trigger] led_map@[i])@.len() == rows,
            decreases cols - good,
        {
            good = good + 1;
        }
        let ghost full = led_map@.take(good as int);
        proof {
            lemma_full_columns(led_map@, rows as nat, good as int);
        }
        let mut cells: Vec<(usize, usize, u8)> = Vec::new();
        let mut x: usize = 0;
        while x < good
            invariant
                x <= good,
                good <= led_map@.len(),
                full == led_map@.take(good as int),
                forall|i: int| 0 <= i < full.len() ==> (#[trigger] full[i])@.len() == rows,
                cells@.len() == x * rows,
                forall|k: int| 0 <= k < cells@.len() ==> #[trigger] cells@[k] == map_cells(full, rows as nat)[k],
            decreases good - x,
        {
            let column = &led_map[x];
            assert(full[x as int] == led_map@[x as int]);
            let mut y: usize = 0;
            while y < rows
                invariant
                    x < good,
                    good <= led_map@.len(),
                    full == led_map@.take(good as int),
                    *column == led_map@[x as int],
                    column@.len() == rows,
                    forall|i: int| 0 <= i < full.len() ==> (#[trigger] full[i])@.len() == rows,
                    y <= rows,
                    cells@.len() == x * rows + y,
                    forall|k: int| 0 <= k < cells@.len() ==> #[trigger] cells@[k] == map_cells(full, rows as nat)[k],
                decreases rows - y,
            {
                proof {
                    lemma_map_cell(full, rows as int, x as int, y as int);
                }
                cells.push((x, y, column[y]));
                y = y + 1;
            }
            proof {
                assert((x + 1) * rows == x * rows + rows) by (nonlinear_arith);
            }
            x = x + 1;
        }
        proof {
            assert(cells@ =~= map_cells(full, rows as nat));
            assert forall|k: int| 0 <= k < cells@.len() implies (#[trigger] cells@[k]).0 < cols && cells@[k].1 < rows by {
                lemma_map_cell_bounds(k, full.len() as int, rows as int);
            }
        }
        let (outcomes, r) = self.apply_leds(grid_id, &cells);
        if r.is_ok() && good < cols {
            let height = led_map[good].len();
            return (outcomes, Err(GridError::MapHeight { column: good, height, rows }));
        }
        (outcomes, r)
    }

    /// Darkens the sequence rows 0-6 of a grid and leaves its control row
    /// as it is: an unknown grid is refused; otherwise the LEDs of those
    /// rows are set to 0 row by row, as `set_led` does it (see
    /// `leds_applied`, over `sequence_row_cells`).
    pub fn clear_all_sequence_rows(&mut self, grid_id: &str) -> (res: (Vec<LedOutcome>, Result<(), GridError>))
        requires
            old(self).wf(),
            old(self).grid_two_status(grid_id@) == Some(true) && old(self).has_device(grid_id@) ==> device_of(*old(self), grid_id@).cols <= 16,
        ensures
            final(self).wf(),
            !old(self).has_device(grid_id@) ==> *final(self) == *old(self) && res.0@.len() == 0 && (res.1 matches Err(GridError::NotFound(g)) && g@ == grid_id@),
            old(self).has_device(grid_id@) ==> {
                let d = device_of(*old(self), grid_id@);
                exists|mid: GridManager| {
                    &&& same_but_leds(*old(self), mid)
                    &&& (forall|g: Seq<char>, xx: int, yy: int|
                        #[trigger] mid.assumed_level(g, xx, yy) == if g == grid_id@ && 0 <= xx < d.cols && 0 <= yy <= 6 {
                            0
                        } else {
                            old(self).assumed_level(g, xx, yy)
                        })
                    &&& leds_applied(mid, *final(self), grid_id@, sequence_row_cells(d.cols as nat), res.0@, res.1)
                }
            },
    {
        let idx = match self.find_device(grid_id) {
            Some(i) => i,
            None => {
                return (Vec::new(), Err(GridError::NotFound(String::from_str(grid_id))));
            },
        };
        let cols = self.devices[idx].cols;
        let ghost start = *self;
        proof {
            assert(device_of(start, grid_id@).id@ == grid_id@);
            assert(device_of(start, grid_id@) == start.devices()[idx as int]) by {
                let i = choose|i: int| 0 <= i < start.devices().len() && (#[trigger] start.devices()[i]).id@ == grid_id@;
                if i != idx as int {
                    assert(start.devices()[i].id@ != start.devices()[idx as int].id@);
                }
            }
        }
        zero_region(&mut self.assumed_led_states, grid_id, cols, 7);
        let ghost mid = *self;
        assert forall|g: Seq<char>, xx: int, yy: int|
            #[trigger] mid.assumed_level(g, xx, yy) == if g == grid_id@ && 0 <= xx < cols && 0 <= yy <= 6 {
                0
            } else {
                start.assumed_level(g, xx, yy)
            } by {
            assert(mid.assumed_level(g, xx, yy) == led_level(mid.assumed_led_states@, g, xx, yy));
            assert(start.assumed_level(g, xx, yy) == led_level(start.assumed_led_states@, g, xx, yy));
        }
        let mut cells: Vec<(usize, usize, u8)> = Vec::new();
        let mut y: usize = 0;
        while y <= 6
            invariant
                y <= 7,
                cells@.len() == y * cols,
                forall|k: int| 0 <= k < cells@.len() ==> #[trigger] cells@[k] == sequence_row_cells(cols as nat)[k],
            decreases 7 - y,
        {
            let mut x: usize = 0;
            while x < cols
                invariant
                    y <= 6,
                    x <= cols,
                    cells@.len() == y * cols + x,
                    forall|k: int| 0 <= k < cells@.len() ==> #[trigger] cells@[k] == sequence_row_cells(cols as nat)[k],
                decreases cols - x,
            {
                proof {
                    lemma_row_cell(y as int, x as int, cols as int);
                }
                cells.push((x, y, 0));
                x = x + 1;
            }
            proof {
                assert((y + 1) * cols == y * cols + cols) by (nonlinear_arith);
            }
            y = y + 1;
        }
        proof {
            assert(cells@ =~= sequence_row_cells(cols as nat));
            assert forall|k: int| 0 <= k < cells@.len() implies (#[trigger] cells@[k]).0 < cols && cells@[k].1 <= 6 by {
                lemma_row_cell_bounds(k, cols as int);
            }
        }
        let res = self.apply_leds(grid_id, &cells);
        proof {
            assert(same_but_leds(start, mid));
            assert(leds_applied(mid, *self, grid_id@, sequence_row_cells(cols as nat), res.0@, res.1));
        }
        res
    }
}

} // verus!
