//! The human reports of the edge verbs: `cs probe`, `cs deploy`, and the
//! `cs get edges/<n>/{scan,system}` renderers. Each function builds one
//! printed line from the fields the server reported; the caller reads
//! the JSON and prints.
use vstd::prelude::*;
use crate::text::{
    chars_of, decimal_chars, decimal_text, extend_chars, extend_padded, extend_str, hex_text,
    pad_left, pad_left_chars, pad_right, radix_chars, string_of,
};

verus! {

/// A number the server may omit: its decimal text, or `?`.
pub open spec fn count_or_unknown(n: Option<u64>) -> Seq<char> {
    match n {
        Some(v) => decimal_text(v as nat),
        None => "?"@,
    }
}

/// A reachable edge: `✓ <name> reachable · v<version> · <scans> scans ·
/// up <uptime>s` (`?` for what the probe did not report).
pub fn probe_report(name: &str, version: &str, scans: Option<u64>, uptime_secs: Option<u64>) -> (r: String)
    ensures
        r@ == "✓ "@ + name@ + " reachable · v"@ + version@ + " · "@ + count_or_unknown(scans)
            + " scans · up "@ + (match uptime_secs {
            Some(u) => decimal_text(u as nat) + "s"@,
            None => "?"@,
        }),
{
    let mut m = chars_of("✓ ");
    extend_str(&mut m, name);
    extend_str(&mut m, " reachable · v");
    extend_str(&mut m, version);
    extend_str(&mut m, " · ");
    match scans {
        Some(n) => extend_chars(&mut m, &decimal_chars(n as u128)),
        None => extend_str(&mut m, "?"),
    }
    extend_str(&mut m, " scans · up ");
    match uptime_secs {
        Some(u) => {
            extend_chars(&mut m, &decimal_chars(u as u128));
            extend_str(&mut m, "s");
        },
        None => extend_str(&mut m, "?"),
    }
    string_of(&m)
}

/// An unreachable edge: `✗ <name>: <error>`.
pub fn probe_failure(name: &str, error: &str) -> (r: String)
    ensures
        r@ == "✗ "@ + name@ + ": "@ + error@,
{
    let mut m = chars_of("✗ ");
    extend_str(&mut m, name);
    extend_str(&mut m, ": ");
    extend_str(&mut m, error);
    string_of(&m)
}

/// Exit code of `cs probe` / `cs deploy`: 0 when the edge answered (or the
/// deploy succeeded), 1 for a remote failure.
pub fn remote_exit_code(ok: bool) -> (r: i32)
    ensures
        r == (if ok { 0i32 } else { 1i32 }),
{
    if ok {
        0
    } else {
        1
    }
}

/// The verdict line of `cs deploy`.
pub fn deploy_report(name: &str, version: &str, ok: bool) -> (r: String)
    ensures
        ok ==> r@ == "✓ deployed to '"@ + name@ + "' as version "@ + version@,
        !ok ==> r@ == "✗ deploy to '"@ + name@ + "' FAILED — read the log above"@,
{
    if ok {
        let mut m = chars_of("✓ deployed to '");
        extend_str(&mut m, name);
        extend_str(&mut m, "' as version ");
        extend_str(&mut m, version);
        string_of(&m)
    } else {
        let mut m = chars_of("✗ deploy to '");
        extend_str(&mut m, name);
        extend_str(&mut m, "' FAILED — read the log above");
        string_of(&m)
    }
}

/// A device of an edge scan that is not connected: `✗ <name> (<proto>) — <error>`.
pub fn device_down_line(name: &str, protocol: &str, error: &str) -> (r: String)
    ensures
        r@ == "✗ "@ + name@ + " ("@ + protocol@ + ") — "@ + error@,
{
    let mut m = chars_of("✗ ");
    extend_str(&mut m, name);
    extend_str(&mut m, " (");
    extend_str(&mut m, protocol);
    extend_str(&mut m, ") — ");
    extend_str(&mut m, error);
    string_of(&m)
}

/// A connected device: `✓ <name> (<proto>) connected · <n> slave(s)`.
pub fn device_up_line(name: &str, protocol: &str, slaves: u64) -> (r: String)
    ensures
        r@ == "✓ "@ + name@ + " ("@ + protocol@ + ") connected · "@ + decimal_text(slaves as nat)
            + " slave(s)"@,
{
    let mut m = chars_of("✓ ");
    extend_str(&mut m, name);
    extend_str(&mut m, " (");
    extend_str(&mut m, protocol);
    extend_str(&mut m, ") connected · ");
    extend_chars(&mut m, &decimal_chars(slaves as u128));
    extend_str(&mut m, " slave(s)");
    string_of(&m)
}

/// Lower-case hex of `n`, zero-padded to 8 digits (`{:08x}`).
pub open spec fn hex8(n: u64) -> Seq<char> {
    pad_left(hex_text(n as nat), 8, '0')
}

fn hex8_chars(n: u64) -> (r: Vec<char>)
    ensures
        r@ == hex8(n),
{
    pad_left_chars(&radix_chars(n as u128, 16), 8, '0')
}

/// One slave of a connected device:
/// `    [<idx>] <name>  vendor=0x<vid> product=0x<pid>  in=<n>B out=<n>B`.
pub fn slave_line(index: u64, name: &str, vendor_id: u64, product_id: u64, input_bytes: u64, output_bytes: u64) -> (r: String)
    ensures
        r@ == "    ["@ + decimal_text(index as nat) + "] "@ + name@ + "  vendor=0x"@ + hex8(vendor_id)
            + " product=0x"@ + hex8(product_id) + "  in="@ + decimal_text(input_bytes as nat)
            + "B out="@ + decimal_text(output_bytes as nat) + "B"@,
{
    let mut m = chars_of("    [");
    extend_chars(&mut m, &decimal_chars(index as u128));
    extend_str(&mut m, "] ");
    extend_str(&mut m, name);
    extend_str(&mut m, "  vendor=0x");
    extend_chars(&mut m, &hex8_chars(vendor_id));
    extend_str(&mut m, " product=0x");
    extend_chars(&mut m, &hex8_chars(product_id));
    extend_str(&mut m, "  in=");
    extend_chars(&mut m, &decimal_chars(input_bytes as u128));
    extend_str(&mut m, "B out=");
    extend_chars(&mut m, &decimal_chars(output_bytes as u128));
    extend_str(&mut m, "B");
    string_of(&m)
}

/// The platform line of an edge's system report: `<os>/<arch>`.
pub fn platform_line(os: &str, arch: &str) -> (r: String)
    ensures
        r@ == os@ + "/"@ + arch@,
{
    let mut m = chars_of(os);
    extend_str(&mut m, "/");
    extend_str(&mut m, arch);
    string_of(&m)
}

/// One network interface: name, state and link columns padded to 16, 8
/// and 11 characters, then the MAC.
pub fn nic_line(name: &str, operstate: &str, carrier: bool, mac: &str) -> (r: String)
    ensures
        r@ == "  "@ + pad_right(name@, 16) + " "@ + pad_right(operstate@, 8) + " "@ + pad_right(
            if carrier { "carrier"@ } else { "no-carrier"@ },
            11,
        ) + " "@ + mac@,
{
    let mut m = chars_of("  ");
    extend_padded(&mut m, name, 16);
    extend_str(&mut m, " ");
    extend_padded(&mut m, operstate, 8);
    extend_str(&mut m, " ");
    let link = if carrier { "carrier" } else { "no-carrier" };
    extend_padded(&mut m, link, 11);
    extend_str(&mut m, " ");
    extend_str(&mut m, mac);
    string_of(&m)
}

} // verus!
