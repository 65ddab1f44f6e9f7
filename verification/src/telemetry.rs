//! Telemetry events and their wire encoding.
//!
//! A telemetry event records either a relay level read back after a command or
//! an environmental sensor sample. The sink wraps each event with the device
//! identifier and encodes it as one JSON text frame for the transport:
//! `{"device_id":"<id>","telemetry":{"Relay":{"id":<uint>,"state":<bool>}}}` or
//! `{"device_id":"<id>","telemetry":{"Sensor":[<int>,<uint>]}}`.

use vstd::prelude::*;

verus! {

/// One observed state change: a relay level read back after a command, or a
/// sensor sample (temperature, relative humidity).
#[derive(Copy, Clone, Debug, PartialEq, Eq, Structural)]
pub enum TelemetryEvent {
    Relay { id: usize, state: bool },
    Sensor { temperature: i8, humidity: u8 },
}

/// The decimal digits of `n`, most significant first, with no sign and no
/// leading zero (a single `0` for zero).
pub open spec fn spec_decimal(n: nat) -> Seq<u8>
    decreases n,
{
    if n < 10 {
        seq![(48 + n) as u8]
    } else {
        spec_decimal(n / 10) + seq![(48 + n % 10) as u8]
    }
}

/// The decimal digits of a signed value: a leading `-` when it is negative.
pub open spec fn spec_decimal_signed(n: int) -> Seq<u8> {
    if n < 0 {
        seq![45u8] + spec_decimal((-n) as nat)
    } else {
        spec_decimal(n as nat)
    }
}

/// `true` / `false` as JSON keyword bytes.
pub open spec fn spec_bool(b: bool) -> Seq<u8> {
    if b {
        seq![116u8, 114u8, 117u8, 101u8]
    } else {
        seq![102u8, 97u8, 108u8, 115u8, 101u8]
    }
}

/// The upper-case hexadecimal digit for a value below sixteen.
pub open spec fn spec_hex_digit(n: u8) -> u8 {
    if n < 10 {
        (48 + n) as u8
    } else {
        (55 + n) as u8
    }
}

/// How one byte of the device identifier appears inside a JSON string:
/// quote and backslash are escaped, control bytes become `\u00XX`, every
/// other byte stands as it is.
pub open spec fn spec_escape_byte(b: u8) -> Seq<u8> {
    if b == 34 || b == 92 {
        seq![92u8, b]
    } else if b < 32 {
        seq![92u8, 117u8, 48u8, 48u8, spec_hex_digit(b / 16), spec_hex_digit(b % 16)]
    } else {
        seq![b]
    }
}

/// The device identifier escaped for use inside a JSON string literal.
pub open spec fn spec_escape(s: Seq<u8>) -> Seq<u8>
    decreases s.len(),
{
    if s.len() == 0 {
        Seq::empty()
    } else {
        spec_escape(s.drop_last()) + spec_escape_byte(s.last())
    }
}

/// The JSON encoding of the event alone, without the device wrapper.
pub open spec fn spec_encode_event(ev: TelemetryEvent) -> Seq<u8> {
    match ev {
        TelemetryEvent::Relay { id, state } => seq![
            123u8, 34u8, 82u8, 101u8, 108u8, 97u8, 121u8, 34u8, 58u8, 123u8, 34u8, 105u8,
            100u8, 34u8, 58u8,
        ] + spec_decimal(id as nat) + seq![44u8, 34u8, 115u8, 116u8, 97u8, 116u8, 101u8, 34u8, 58u8]
            + spec_bool(state) + seq![125u8, 125u8],
        TelemetryEvent::Sensor { temperature, humidity } => seq![
            123u8, 34u8, 83u8, 101u8, 110u8, 115u8, 111u8, 114u8, 34u8, 58u8, 91u8,
        ] + spec_decimal_signed(temperature as int) + seq![44u8]
            + spec_decimal(humidity as nat) + seq![93u8, 125u8],
    }
}

/// The full telemetry frame: the escaped device identifier and the encoded
/// event wrapped in one JSON object.
pub open spec fn spec_encode_message(device_id: Seq<u8>, ev: TelemetryEvent) -> Seq<u8> {
    seq![
        123u8, 34u8, 100u8, 101u8, 118u8, 105u8, 99u8, 101u8, 95u8, 105u8, 100u8, 34u8,
        58u8, 34u8,
    ] + spec_escape(device_id) + seq![
        34u8, 44u8, 34u8, 116u8, 101u8, 108u8, 101u8, 109u8, 101u8, 116u8, 114u8, 121u8,
        34u8, 58u8,
    ] + spec_encode_event(ev) + seq![125u8]
}

/// Appends every byte of `lit` to `out`.
fn push_lit(out: &mut Vec<u8>, lit: &[u8])
    ensures
        final(out)@ == old(out)@ + lit@,
{
    let n = lit.len();
    let mut i: usize = 0;
    while i < n
        invariant
            n == lit@.len(),
            i <= n,
            out@ == old(out)@ + lit@.take(i as int),
        decreases n - i,
    {
        out.push(lit[i]);
        assert(lit@.take(i + 1) =~= lit@.take(i as int) + seq![lit@[i as int]]);
        i = i + 1;
    }
    assert(lit@.take(n as int) =~= lit@);
}

/// Appends the decimal digits of `n`, most significant first.
fn push_decimal(out: &mut Vec<u8>, n: u64)
    ensures
        final(out)@ == old(out)@ + spec_decimal(n as nat),
    decreases n,
{
    if n >= 10 {
        push_decimal(out, n / 10);
    }
    out.push(48 + (n % 10) as u8);
    assert(out@ =~= old(out)@ + spec_decimal(n as nat));
}

/// Appends the decimal digits of a signed eight-bit value.
fn push_decimal_i8(out: &mut Vec<u8>, n: i8)
    ensures
        final(out)@ == old(out)@ + spec_decimal_signed(n as int),
{
    if n < 0 {
        out.push(45);
        let m: u64 = (-(n as i64)) as u64;
        push_decimal(out, m);
        assert(out@ =~= old(out)@ + spec_decimal_signed(n as int));
    } else {
        push_decimal(out, n as u64);
    }
}

/// Appends `true` or `false`.
fn push_bool(out: &mut Vec<u8>, b: bool)
    ensures
        final(out)@ == old(out)@ + spec_bool(b),
{
    if b {
        // "true"
        push_lit(out, &[116, 114, 117, 101]);
        assert(out@ =~= old(out)@ + spec_bool(b));
    } else {
        // "false"
        push_lit(out, &[102, 97, 108, 115, 101]);
        assert(out@ =~= old(out)@ + spec_bool(b));
    }
}

/// The upper-case hexadecimal digit for a value below sixteen.
fn hex_digit(n: u8) -> (d: u8)
    requires
        n < 16,
    ensures
        d == spec_hex_digit(n),
{
    if n < 10 {
        48 + n
    } else {
        55 + n
    }
}

/// Appends the device identifier with JSON string escaping.
fn push_escaped(out: &mut Vec<u8>, s: &[u8])
    ensures
        final(out)@ == old(out)@ + spec_escape(s@),
{
    let n = s.len();
    let mut i: usize = 0;
    while i < n
        invariant
            n == s@.len(),
            i <= n,
            out@ == old(out)@ + spec_escape(s@.take(i as int)),
        decreases n - i,
    {
        let b = s[i];
        if b == 34 || b == 92 {
            out.push(92);
            out.push(b);
        } else if b < 32 {
            out.push(92);
            out.push(117);
            out.push(48);
            out.push(48);
            let hi = hex_digit(b / 16);
            let lo = hex_digit(b % 16);
            out.push(hi);
            out.push(lo);
        } else {
            out.push(b);
        }
        proof {
            assert(s@.take(i + 1).drop_last() =~= s@.take(i as int));
            assert(s@.take(i + 1).last() == s@[i as int]);
            assert(out@ =~= old(out)@ + spec_escape(s@.take(i + 1)));
        }
        i = i + 1;
    }
    assert(s@.take(n as int) =~= s@);
}

/// Appends the JSON encoding of one telemetry event.
pub fn encode_event(out: &mut Vec<u8>, ev: &TelemetryEvent)
    ensures
        final(out)@ == old(out)@ + spec_encode_event(*ev),
{
    match ev {
        TelemetryEvent::Relay { id, state } => {
            // {"Relay":{"id":
            push_lit(out, &[123, 34, 82, 101, 108, 97, 121, 34, 58, 123, 34, 105, 100, 34, 58]);
            push_decimal(out, *id as u64);
            // ,"state":
            push_lit(out, &[44, 34, 115, 116, 97, 116, 101, 34, 58]);
            push_bool(out, *state);
            // }}
            push_lit(out, &[125, 125]);
            assert(out@ =~= old(out)@ + spec_encode_event(*ev));
        },
        TelemetryEvent::Sensor { temperature, humidity } => {
            // {"Sensor":[
            push_lit(out, &[123, 34, 83, 101, 110, 115, 111, 114, 34, 58, 91]);
            push_decimal_i8(out, *temperature);
            // ,
            push_lit(out, &[44]);
            push_decimal(out, *humidity as u64);
            // ]}
            push_lit(out, &[93, 125]);
            assert(out@ =~= old(out)@ + spec_encode_event(*ev));
        },
    }
}

/// Encodes one telemetry frame: the event wrapped with the device identifier,
/// as the transport expects it on the wire.
pub fn encode_message(device_id: &[u8], ev: &TelemetryEvent) -> (frame: Vec<u8>)
    ensures
        frame@ == spec_encode_message(device_id@, *ev),
{
    let mut out: Vec<u8> = Vec::new();
    // {"device_id":"
    push_lit(&mut out, &[123, 34, 100, 101, 118, 105, 99, 101, 95, 105, 100, 34, 58, 34]);
    push_escaped(&mut out, device_id);
    // ","telemetry":
    push_lit(&mut out, &[34, 44, 34, 116, 101, 108, 101, 109, 101, 116, 114, 121, 34, 58]);
    encode_event(&mut out, ev);
    // }
    push_lit(&mut out, &[125]);
    assert(out@ =~= spec_encode_message(device_id@, *ev));
    out
}

} // verus!
