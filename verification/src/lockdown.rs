//! Lockdown sessions with a device: what a handshake and a service start
//! decide, and the requests sent over a service's connection.

use vstd::prelude::*;
use vstd::string::StringSliceAdditionalSpecFns;
use crate::text::{decimal, is_decimal_of, is_nul_free, lemma_decimal_reads_back, nul_free, push_decimal};

verus! {

/// An established lockdown session with the device `udid` (the handles that
/// carry it are held by the caller).
pub struct DeviceSessionV4 {
    pub udid: String,
}

/// Whether a connection attempt to `udid` established a lockdown session: the
/// identifier can be handed to C, and the device lookup and the handshake both
/// report status 0.
pub open spec fn lockdown_ok(udid: Seq<char>, device_status: i32, handshake_status: i32) -> bool {
    nul_free(udid) && device_status == 0 && handshake_status == 0
}

/// Whether a connection attempt to `udid` established a lockdown session.
pub fn lockdown_established(udid: &str, device_status: i32, handshake_status: i32) -> (out: bool)
    ensures
        out == lockdown_ok(udid@, device_status, handshake_status),
{
    is_nul_free(udid) && device_status == 0 && handshake_status == 0
}

/// Whether the third-generation install pipeline succeeded: both service
/// channels opened, the package was uploaded and the install was triggered.
pub fn install_v3_result(afc: Option<u16>, install: Option<u16>, uploaded: bool, triggered: bool) -> (out: bool)
    ensures
        out == (afc is Some && install is Some && uploaded && triggered),
{
    afc.is_some() && install.is_some() && uploaded && triggered
}

/// The port a started service listens on: the start must have succeeded
/// (status 0); a session of the first generations accepts any port.
pub open spec fn service_port_of(status: i32, port: u16) -> Option<u16> {
    if status == 0 {
        Some(port)
    } else {
        None
    }
}

/// The port of a service tunnel: the start must have succeeded and named a
/// non-zero port.
pub open spec fn tunnel_port_of(status: i32, port: u16) -> Option<u16> {
    if status != 0 || port == 0 {
        None
    } else {
        Some(port)
    }
}

/// The port that a successful service start reports (status 0), any port
/// accepted.
pub fn service_port(status: i32, port: u16) -> (out: Option<u16>)
    ensures
        out == service_port_of(status, port),
{
    if status != 0 {
        None
    } else {
        Some(port)
    }
}

/// The address of the local tunnel to a service on `port`.
pub open spec fn tunnel_address_text(port: u16) -> Seq<char> {
    "127.0.0.1:"@ + decimal(port as nat)
}

/// The ASCII bytes of `AFC_WRITE_SIM\n`, the header of a file write.
pub open spec fn afc_write_header() -> Seq<u8> {
    seq![65u8, 70, 67, 95, 87, 82, 73, 84, 69, 95, 83, 73, 77, 10]
}

/// The four little-endian bytes of `x` (meaningful for `x < 2^32`).
pub open spec fn le_u32_bytes(x: nat) -> Seq<u8> {
    seq![
        (x % 256) as u8,
        ((x / 256) % 256) as u8,
        ((x / 65536) % 256) as u8,
        ((x / 16777216) % 256) as u8,
    ]
}

/// A file write request: the header, the UTF-8 path, a line feed, the data's
/// length as 32 bits little endian (cut to 32 bits) and the data.
pub open spec fn afc_write_packet(path: Seq<u8>, data: Seq<u8>) -> Seq<u8> {
    afc_write_header() + path + seq![10u8] + le_u32_bytes(data.len() % 4294967296) + data
}

/// The installation request up to the package path.
pub const INSTALL_HEAD: &'static str = "\n<?xml version=\"1.0\" encoding=\"UTF-8\"?>\n<plist version=\"1.0\">\n<dict>\n    <key>Command</key>\n    <string>InstallApplication</string>\n\n    <key>PackagePath</key>\n    <string>";

/// The installation request after the package path.
pub const INSTALL_TAIL: &'static str = "</string>\n\n    <key>ClientOptions</key>\n    <dict>\n        <key>PackageType</key>\n        <string>Developer</string>\n    </dict>\n</dict>\n</plist>\n";

/// The `InstallApplication` request for the package at `path`, as a developer
/// package.
pub open spec fn install_plist_text(path: Seq<char>) -> Seq<char> {
    INSTALL_HEAD@ + path + INSTALL_TAIL@
}

fn push_bytes(out: &mut Vec<u8>, src: &[u8])
    ensures
        final(out)@ == old(out)@ + src@,
{
    let n = src.len();
    let mut i: usize = 0;
    while i < n
        invariant
            n == src@.len(),
            i <= n,
            out@ == old(out)@ + src@.take(i as int),
        decreases n - i,
    {
        out.push(src[i]);
        assert(src@.take(i + 1) =~= src@.take(i as int).push(src@[i as int]));
        i = i + 1;
    }
    assert(src@.take(n as int) =~= src@);
}

impl DeviceSessionV4 {
    /// The session a connection attempt to `udid` yields: the identifier must be
    /// usable as a C string, and both the device lookup and the lockdown
    /// handshake must report status 0.
    pub fn from_lockdown(udid: &str, device_status: i32, handshake_status: i32) -> (out: Option<
        Self,
    >)
        ensures
            out is Some <==> lockdown_ok(udid@, device_status, handshake_status),
            out matches Some(s) ==> s.udid@ == udid@,
    {
        if !lockdown_established(udid, device_status, handshake_status) {
            None
        } else {
            Some(DeviceSessionV4 { udid: String::from_str(udid) })
        }
    }

    /// The port of the tunnel a service start opened, if it succeeded with a
    /// non-zero port.
    pub fn tunnel_port(status: i32, port: u16) -> (out: Option<u16>)
        ensures
            out == tunnel_port_of(status, port),
    {
        if status != 0 || port == 0 {
            None
        } else {
            Some(port)
        }
    }

    /// `127.0.0.1:port`, where the device's service tunnel listens.
    pub fn tunnel_address(port: u16) -> (out: String)
        ensures
            out@ == tunnel_address_text(port),
    {
        let mut out = String::from_str("127.0.0.1:");
        push_decimal(&mut out, port as u64);
        out
    }

    /// The installation request for the package at `path`.
    pub fn build_install_plist(&self, path: &str) -> (out: String)
        ensures
            out@ == install_plist_text(path@),
    {
        let mut out = String::from_str(INSTALL_HEAD);
        out.append(path);
        out.append(INSTALL_TAIL);
        out
    }

    /// The file write request that stores `data` at `path`.
    pub fn build_afc_write_packet(&self, path: &str, data: &[u8]) -> (out: Vec<u8>)
        ensures
            out@ == afc_write_packet(path.spec_bytes(), data@),
    {
        let mut packet: Vec<u8> = vec![65u8, 70, 67, 95, 87, 82, 73, 84, 69, 95, 83, 73, 77, 10];
        assert(packet@ =~= afc_write_header());
        push_bytes(&mut packet, path.as_bytes());
        packet.push(10u8);
        let len = (data.len() as u64) % 4294967296;
        packet.push((len % 256) as u8);
        packet.push(((len / 256) % 256) as u8);
        packet.push(((len / 65536) % 256) as u8);
        packet.push(((len / 16777216) % 256) as u8);
        push_bytes(&mut packet, data);
        assert(packet@ =~= afc_write_packet(path.spec_bytes(), data@));
        packet
    }
}

/// The value of four bytes read little endian.
pub open spec fn read_le_u32(b0: u8, b1: u8, b2: u8, b3: u8) -> int {
    b0 + 256 * b1 + 65536 * b2 + 16777216 * b3
}

/// A write request is laid out as the device reads it: the ASCII header
/// `AFC_WRITE_SIM` and a line feed, the path's bytes, a line feed, a length
/// field that reads (little endian) as the data's length cut to 32 bits, so as
/// the length itself for any data under 4 GiB, then the data.
pub proof fn lemma_packet_layout(path: Seq<u8>, data: Seq<u8>)
    ensures
        ({
            let p = afc_write_packet(path, data);
            let o = (15 + path.len()) as int;
            &&& p.len() == 19 + path.len() + data.len()
            &&& p.subrange(0, 14) == seq![65u8, 70, 67, 95, 87, 82, 73, 84, 69, 95, 83, 73, 77, 10]
            &&& p.subrange(14, o - 1) == path
            &&& p[o - 1] == 10
            &&& read_le_u32(p[o], p[o + 1], p[o + 2], p[o + 3]) == data.len() % 4294967296
            &&& data.len() < 4294967296 ==> read_le_u32(p[o], p[o + 1], p[o + 2], p[o + 3])
                == data.len()
            &&& p.subrange(o + 4, p.len() as int) == data
        }),
{
    let p = afc_write_packet(path, data);
    let o = (15 + path.len()) as int;
    let x = data.len() % 4294967296;
    assert(p.subrange(0, 14) =~= afc_write_header());
    assert(p.subrange(14, o - 1) =~= path);
    assert(p.subrange(o + 4, p.len() as int) =~= data);
    assert(p[o] == (x % 256) as u8);
    assert(p[o + 1] == ((x / 256) % 256) as u8);
    assert(p[o + 2] == ((x / 65536) % 256) as u8);
    assert(p[o + 3] == ((x / 16777216) % 256) as u8);
    assert(0 <= x < 4294967296);
    assert((x % 256) + 256 * ((x / 256) % 256) + 65536 * ((x / 65536) % 256) + 16777216 * ((x
        / 16777216) % 256) == x) by (nonlinear_arith)
        requires
            0 <= x < 4294967296,
    ;
}

/// The tunnel address is the loopback host and the port in decimal.
pub proof fn lemma_tunnel_address_names_port(port: u16)
    ensures
        exists|d: Seq<char>|
            #[trigger] is_decimal_of(d, port as nat) && tunnel_address_text(port) == "127.0.0.1:"@
                + d,
{
    lemma_decimal_reads_back(port as nat);
    assert(is_decimal_of(decimal(port as nat), port as nat));
}

/// A write request ends with the data it carries, right after its 4-byte length.
pub proof fn lemma_packet_carries_data(path: Seq<u8>, data: Seq<u8>)
    ensures
        afc_write_packet(path, data).len() == 19 + path.len() + data.len(),
        afc_write_packet(path, data).subrange(
            19 + path.len() as int,
            afc_write_packet(path, data).len() as int,
        ) == data,
{
    let p = afc_write_packet(path, data);
    assert(p.subrange(19 + path.len() as int, p.len() as int) =~= data);
}

} // verus!
