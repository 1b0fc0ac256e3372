//! The options region of a DHCP message: the magic cookie, then options of
//! a code, a length and that many bytes, with single zero bytes as padding
//! and the code 255 as the end.

use crate::dhcp_msg::from_be32;
use vstd::prelude::*;

verus! {

/// Code of a padding byte.
pub const OPTION_PAD: u8 = 0;

/// Code that ends the options.
pub const OPTION_END: u8 = 255;

pub const OPTION_REQUESTED_ADDRESS: u8 = 50;

pub const OPTION_LEASE_TIME: u8 = 51;

pub const OPTION_MESSAGE_TYPE: u8 = 53;

pub const OPTION_SERVER_ID: u8 = 54;

pub const OPTION_RENEWAL_TIME: u8 = 58;

pub const OPTION_REBINDING_TIME: u8 = 59;

pub const DHCPDISCOVER: u8 = 1;

pub const DHCPOFFER: u8 = 2;

pub const DHCPREQUEST: u8 = 3;

pub const DHCPACK: u8 = 5;

pub const DHCPRELEASE: u8 = 7;

/// The four bytes that open the options region.
pub open spec fn magic_cookie() -> Seq<u8> {
    seq![99u8, 130u8, 83u8, 99u8]
}

/// The first option with the code `code` among the options that start at
/// `pos`; none where the end or a cut-off option comes first.
pub open spec fn option_from(region: Seq<u8>, pos: int, code: u8) -> Option<Seq<u8>>
    decreases region.len() - pos,
{
    if pos < 0 || pos >= region.len() {
        None
    } else if region[pos] == 0 {
        option_from(region, pos + 1, code)
    } else if region[pos] == 255 {
        None
    } else if pos + 1 >= region.len() {
        None
    } else if pos + 2 + region[pos + 1] > region.len() {
        None
    } else if region[pos] == code {
        Some(region.subrange(pos + 2, pos + 2 + region[pos + 1]))
    } else {
        option_from(region, pos + 2 + region[pos + 1], code)
    }
}

/// The value of the first option with the code `code` in an options
/// region; none where the region does not open with the magic cookie.
pub open spec fn find_option_spec(region: Seq<u8>, code: u8) -> Option<Seq<u8>> {
    if region.len() >= 4 && region.subrange(0, 4) == magic_cookie() {
        option_from(region, 4, code)
    } else {
        None
    }
}

/// The one byte of an option of length one.
pub open spec fn option_u8(region: Seq<u8>, code: u8) -> Option<u8> {
    match find_option_spec(region, code) {
        Some(v) => if v.len() == 1 {
            Some(v[0])
        } else {
            None
        },
        None => None,
    }
}

/// The four bytes of an option of length four.
pub open spec fn option_bytes4(region: Seq<u8>, code: u8) -> Option<Seq<u8>> {
    match find_option_spec(region, code) {
        Some(v) => if v.len() == 4 {
            Some(v)
        } else {
            None
        },
        None => None,
    }
}

/// The options of a message of the type `kind` that carries no other
/// option.
pub open spec fn plain_options(kind: u8) -> Seq<u8> {
    magic_cookie() + seq![53u8, 1u8, kind, 255u8]
}

/// The options of the request that takes up an offer: the address asked
/// for and the server that offered it.
pub open spec fn request_options_spec(address: Seq<u8>, server: Seq<u8>) -> Seq<u8> {
    magic_cookie() + seq![53u8, 1u8, 3u8] + seq![50u8, 4u8] + address + seq![54u8, 4u8] + server
        + seq![255u8]
}

/// The options of the message that gives a lease back to `server`.
pub open spec fn release_options_spec(server: Seq<u8>) -> Seq<u8> {
    magic_cookie() + seq![53u8, 1u8, 7u8] + seq![54u8, 4u8] + server + seq![255u8]
}

/// The value of the first option with the code `code`, copied out.
pub fn find_option(region: &[u8], code: u8) -> (r: Option<Vec<u8>>)
    ensures
        r is Some <==> find_option_spec(region@, code) is Some,
        r matches Some(v) ==> v@ == find_option_spec(region@, code).unwrap(),
{
    if region.len() < 4 || region[0] != 99 || region[1] != 130 || region[2] != 83 || region[3]
        != 99 {
        proof {
            if region@.len() >= 4 {
                let head = region@.subrange(0, 4);
                assert(head[0] == region@[0] && head[1] == region@[1] && head[2] == region@[2]
                    && head[3] == region@[3]);
            }
        }
        return None;
    }
    assert(region@.subrange(0, 4) =~= magic_cookie());
    let mut pos: usize = 4;
    while pos < region.len()
        invariant
            4 <= pos,
            region@.len() >= 4,
            region@.subrange(0, 4) == magic_cookie(),
            option_from(region@, pos as int, code) == option_from(region@, 4, code),
        decreases region.len() - pos,
    {
        let c = region[pos];
        if c == OPTION_PAD {
            pos = pos + 1;
        } else if c == OPTION_END {
            return None;
        } else if region.len() - pos < 2 {
            return None;
        } else {
            let len: usize = region[pos + 1] as usize;
            if region.len() - pos - 2 < len {
                return None;
            }
            if c == code {
                let mut value: Vec<u8> = Vec::new();
                let mut i: usize = 0;
                while i < len
                    invariant
                        i <= len,
                        pos + 2 + len <= region.len(),
                        value@ == region@.subrange(pos + 2, pos + 2 + i),
                    decreases len - i,
                {
                    value.push(region[pos + 2 + i]);
                    i = i + 1;
                    assert(value@ =~= region@.subrange(pos + 2, pos + 2 + i));
                }
                return Some(value);
            }
            pos = pos + 2 + len;
        }
    }
    None
}

/// The byte of the first option with the code `code`, where that option
/// is one byte long.
pub fn find_option_u8(region: &[u8], code: u8) -> (r: Option<u8>)
    ensures
        r == option_u8(region@, code),
{
    match find_option(region, code) {
        Some(v) => if v.len() == 1 {
            Some(v[0])
        } else {
            None
        },
        None => None,
    }
}

/// The bytes of the first option with the code `code`, where that option
/// is four bytes long.
pub fn find_option_bytes4(region: &[u8], code: u8) -> (r: Option<[u8; 4]>)
    ensures
        r is Some <==> option_bytes4(region@, code) is Some,
        r matches Some(a) ==> a@ == option_bytes4(region@, code).unwrap(),
{
    match find_option(region, code) {
        Some(v) => if v.len() == 4 {
            let a: [u8; 4] = [v[0], v[1], v[2], v[3]];
            assert(a@ =~= v@);
            Some(a)
        } else {
            None
        },
        None => None,
    }
}

/// The number that four bytes write, the highest first.
pub fn u32_from_be(a: &[u8; 4]) -> (x: u32)
    ensures
        x == from_be32(a@),
{
    (a[0] as u32) * 0x100_0000 + (a[1] as u32) * 0x1_0000 + (a[2] as u32) * 0x100 + (a[3] as u32)
}

/// The options of a message of the type `kind` that carries no other
/// option.
pub fn plain_options_of(kind: u8) -> (o: Vec<u8>)
    ensures
        o@ == plain_options(kind),
{
    let mut o: Vec<u8> = Vec::new();
    o.push(99);
    o.push(130);
    o.push(83);
    o.push(99);
    o.push(OPTION_MESSAGE_TYPE);
    o.push(1);
    o.push(kind);
    o.push(OPTION_END);
    assert(o@ =~= plain_options(kind));
    o
}

/// The options of the request that takes up an offer.
pub fn request_options(address: &[u8; 4], server: &[u8; 4]) -> (o: Vec<u8>)
    ensures
        o@ == request_options_spec(address@, server@),
{
    let mut o: Vec<u8> = Vec::new();
    o.push(99);
    o.push(130);
    o.push(83);
    o.push(99);
    o.push(OPTION_MESSAGE_TYPE);
    o.push(1);
    o.push(DHCPREQUEST);
    o.push(OPTION_REQUESTED_ADDRESS);
    o.push(4);
    o.push(address[0]);
    o.push(address[1]);
    o.push(address[2]);
    o.push(address[3]);
    o.push(OPTION_SERVER_ID);
    o.push(4);
    o.push(server[0]);
    o.push(server[1]);
    o.push(server[2]);
    o.push(server[3]);
    o.push(OPTION_END);
    assert(o@ =~= request_options_spec(address@, server@));
    o
}

/// The options of the message that gives a lease back.
pub fn release_options(server: &[u8; 4]) -> (o: Vec<u8>)
    ensures
        o@ == release_options_spec(server@),
{
    let mut o: Vec<u8> = Vec::new();
    o.push(99);
    o.push(130);
    o.push(83);
    o.push(99);
    o.push(OPTION_MESSAGE_TYPE);
    o.push(1);
    o.push(DHCPRELEASE);
    o.push(OPTION_SERVER_ID);
    o.push(4);
    o.push(server[0]);
    o.push(server[1]);
    o.push(server[2]);
    o.push(server[3]);
    o.push(OPTION_END);
    assert(o@ =~= release_options_spec(server@));
    o
}

/// Options built here are read back as they were written.
pub proof fn law_written_options_are_found(kind: u8, address: Seq<u8>, server: Seq<u8>)
    requires
        address.len() == 4,
        server.len() == 4,
    ensures
        option_u8(plain_options(kind), 53) == Some(kind),
        option_u8(request_options_spec(address, server), 53) == Some(3u8),
        option_bytes4(request_options_spec(address, server), 50) == Some(address),
        option_bytes4(request_options_spec(address, server), 54) == Some(server),
        option_u8(release_options_spec(server), 53) == Some(7u8),
        option_bytes4(release_options_spec(server), 54) == Some(server),
{
    reveal_with_fuel(option_from, 4);
    let p = plain_options(kind);
    assert(p.subrange(0, 4) =~= magic_cookie());
    assert(p.subrange(6, 7) =~= seq![kind]);
    let q = request_options_spec(address, server);
    assert(q.subrange(0, 4) =~= magic_cookie());
    assert(q.subrange(6, 7) =~= seq![3u8]);
    assert(q.subrange(9, 13) =~= address);
    assert(q.subrange(15, 19) =~= server);
    let r = release_options_spec(server);
    assert(r.subrange(0, 4) =~= magic_cookie());
    assert(r.subrange(6, 7) =~= seq![7u8]);
    assert(r.subrange(9, 13) =~= server);
}

} // verus!
