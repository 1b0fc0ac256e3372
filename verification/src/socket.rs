//! What the link-layer transport needs worked out before and after it
//! talks to the kernel: the interface to use, its hardware address, the
//! address to bind to, the request for promiscuous mode, and what the
//! kernel's answers mean. The calls themselves are made by the caller.

use crate::dhcp_msg::be16;
use crate::dhcp_msg::zeros;
use crate::error::DhcpError;
use crate::error::ErrorKind;
use vstd::prelude::*;
use vstd::string::StringExecFns;
use vstd::utf8::encode_utf8;

verus! {

/// Packet type of a frame addressed to the local host.
pub const PACKET_HOST: u8 = 0;

/// Size of the buffer that one frame is received into.
pub const RECV_BUFFER_LENGTH: usize = 1500;

/// `libc::ETH_ALEN`, the number of octets of an Ethernet address: 6 on Linux.
#[verifier::external_body]
fn eth_alen() -> (n: usize)
    ensures
        n == 6,
{
    libc::ETH_ALEN as usize
}

/// `libc::AF_PACKET`, the address family of link-layer sockets: 17 on Linux.
#[verifier::external_body]
fn af_packet() -> (v: u16)
    ensures
        v == 17,
{
    libc::AF_PACKET as u16
}

/// `libc::ARPHRD_ETHER`, the hardware type of Ethernet: 1 on Linux.
#[verifier::external_body]
fn arphrd_ether() -> (v: u16)
    ensures
        v == 1,
{
    libc::ARPHRD_ETHER
}

/// `libc::ETH_P_ALL`, the protocol number that stands for every protocol:
/// 3 on Linux.
#[verifier::external_body]
fn eth_p_all() -> (v: u16)
    ensures
        v == 3,
{
    libc::ETH_P_ALL as u16
}

/// `libc::PACKET_MR_PROMISC`, the membership type that asks for
/// promiscuous mode: 1 on Linux.
#[verifier::external_body]
fn packet_mr_promisc() -> (v: u16)
    ensures
        v == 1,
{
    libc::PACKET_MR_PROMISC as u16
}

/// The value of a hexadecimal digit, of either case.
pub open spec fn hex_digit(c: u8) -> Option<u8> {
    if 48 <= c <= 57 {
        Some((c - 48) as u8)
    } else if 97 <= c <= 102 {
        Some((c - 87) as u8)
    } else if 65 <= c <= 70 {
        Some((c - 55) as u8)
    } else {
        None
    }
}

/// The number that the hexadecimal digits `s` write; none where `s` is
/// empty or holds anything but hexadecimal digits.
pub open spec fn hex_value(s: Seq<u8>) -> Option<nat>
    decreases s.len(),
{
    if s.len() == 0 {
        None
    } else {
        match hex_digit(s.last()) {
            None => None,
            Some(d) => if s.len() == 1 {
                Some(d as nat)
            } else {
                match hex_value(s.drop_last()) {
                    None => None,
                    Some(v) => Some(v * 16 + d as nat),
                }
            },
        }
    }
}

/// The octet that the hexadecimal digits `s` write, where it is one.
pub open spec fn octet_of(s: Seq<u8>) -> Option<u8> {
    match hex_value(s) {
        Some(v) => if v <= 255 {
            Some(v as u8)
        } else {
            None
        },
        None => None,
    }
}

/// The pieces of `s` between its colons, in order. A colon closes a piece
/// and opens the next; every other byte lengthens the last piece.
pub open spec fn colon_pieces(s: Seq<u8>) -> Seq<Seq<u8>>
    decreases s.len(),
{
    if s.len() == 0 {
        seq![Seq::<u8>::empty()]
    } else {
        let before = colon_pieces(s.drop_last());
        if s.last() == 58 {
            before.push(Seq::<u8>::empty())
        } else {
            before.drop_last().push(before.last().push(s.last()))
        }
    }
}

/// The six octets of a hardware address written as six pieces of
/// hexadecimal digits with colons between them; none for any other text.
pub open spec fn parse_mac(s: Seq<u8>) -> Option<Seq<u8>> {
    let pieces = colon_pieces(s);
    if pieces.len() == 6 && (forall|j: int| 0 <= j < 6 ==> octet_of(#[trigger] pieces[j]) is Some) {
        Some(Seq::new(6, |j: int| octet_of(pieces[j]).unwrap()))
    } else {
        None
    }
}

/// The two lowercase hexadecimal digits of an octet.
pub open spec fn octet_text(x: u8) -> Seq<u8> {
    seq![hex_char(x / 16), hex_char(x % 16)]
}

/// The lowercase hexadecimal digit of a number below 16.
pub open spec fn hex_char(d: u8) -> u8 {
    if d < 10 {
        (48 + d) as u8
    } else {
        (87 + d) as u8
    }
}

/// A hardware address as it is usually written: two hexadecimal digits
/// for each octet, with colons between them.
pub open spec fn mac_text(mac: Seq<u8>) -> Seq<u8> {
    octet_text(mac[0]) + seq![58u8] + octet_text(mac[1]) + seq![58u8] + octet_text(mac[2])
        + seq![58u8] + octet_text(mac[3]) + seq![58u8] + octet_text(mac[4]) + seq![58u8]
        + octet_text(mac[5])
}

/// The two digits of an octet write that octet.
pub proof fn law_octet_text_is_read_back(x: u8)
    ensures
        octet_of(octet_text(x)) == Some(x),
{
    let t = octet_text(x);
    assert(t.drop_last() =~= seq![hex_char(x / 16)]);
    assert(t.last() == hex_char(x % 16));
    assert(hex_digit(hex_char(x % 16)) == Some(x % 16));
    assert(hex_digit(hex_char(x / 16)) == Some(x / 16));
    reveal_with_fuel(hex_value, 3);
}

/// Appending a colon and a piece without colons appends that piece to the
/// pieces.
pub proof fn lemma_colon_then_piece(s: Seq<u8>, piece: Seq<u8>)
    requires
        forall|i: int| 0 <= i < piece.len() ==> piece[i] != 58,
    ensures
        colon_pieces(s + seq![58u8] + piece) == colon_pieces(s).push(piece),
    decreases piece.len(),
{
    let whole = s + seq![58u8] + piece;
    if piece.len() == 0 {
        assert(whole.drop_last() =~= s);
        assert(piece =~= Seq::<u8>::empty());
    } else {
        let shorter = piece.drop_last();
        lemma_colon_then_piece(s, shorter);
        assert(whole.drop_last() =~= s + seq![58u8] + shorter);
        assert(whole.last() == piece.last());
        assert(colon_pieces(s).push(shorter).drop_last() =~= colon_pieces(s));
        assert(shorter.push(piece.last()) =~= piece);
    }
}

/// A piece without colons is the one piece of itself.
pub proof fn lemma_single_piece(piece: Seq<u8>)
    requires
        forall|i: int| 0 <= i < piece.len() ==> piece[i] != 58,
    ensures
        colon_pieces(piece) == seq![piece],
    decreases piece.len(),
{
    if piece.len() == 0 {
        assert(piece =~= Seq::<u8>::empty());
    } else {
        lemma_single_piece(piece.drop_last());
        assert(seq![piece.drop_last()].drop_last().push(piece.drop_last().push(piece.last()))
            =~= seq![piece]) by {
            assert(piece.drop_last().push(piece.last()) =~= piece);
        }
    }
}

/// A hardware address written in the usual way is read back as it was.
pub proof fn law_mac_text_is_read_back(mac: Seq<u8>)
    requires
        mac.len() == 6,
    ensures
        parse_mac(mac_text(mac)) == Some(mac),
{
    let t0 = octet_text(mac[0]);
    let t1 = octet_text(mac[1]);
    let t2 = octet_text(mac[2]);
    let t3 = octet_text(mac[3]);
    let t4 = octet_text(mac[4]);
    let t5 = octet_text(mac[5]);
    lemma_single_piece(t0);
    lemma_colon_then_piece(t0, t1);
    lemma_colon_then_piece(t0 + seq![58u8] + t1, t2);
    lemma_colon_then_piece(t0 + seq![58u8] + t1 + seq![58u8] + t2, t3);
    lemma_colon_then_piece(t0 + seq![58u8] + t1 + seq![58u8] + t2 + seq![58u8] + t3, t4);
    lemma_colon_then_piece(
        t0 + seq![58u8] + t1 + seq![58u8] + t2 + seq![58u8] + t3 + seq![58u8] + t4,
        t5,
    );
    let pieces = colon_pieces(mac_text(mac));
    assert(pieces =~= seq![t0, t1, t2, t3, t4, t5]);
    law_octet_text_is_read_back(mac[0]);
    law_octet_text_is_read_back(mac[1]);
    law_octet_text_is_read_back(mac[2]);
    law_octet_text_is_read_back(mac[3]);
    law_octet_text_is_read_back(mac[4]);
    law_octet_text_is_read_back(mac[5]);
    assert(parse_mac(mac_text(mac)).unwrap() =~= mac);
}

/// The value of one hexadecimal digit in executable code.
fn hex_digit_of(c: u8) -> (d: Option<u8>)
    ensures
        d == hex_digit(c),
{
    if 48 <= c && c <= 57 {
        Some(c - 48)
    } else if 97 <= c && c <= 102 {
        Some(c - 87)
    } else if 65 <= c && c <= 70 {
        Some(c - 55)
    } else {
        None
    }
}

/// The hardware address that `mac_addr` writes: six pieces of hexadecimal
/// digits, each an octet, with colons between them. Any other text is
/// refused as a whole.
pub fn mac_address_str_to_u8(mac_addr: &str) -> (r: Result<[u8; 6], DhcpError>)
    ensures
        r is Ok <==> parse_mac(encode_utf8(mac_addr@)) is Some,
        r matches Ok(a) ==> a@ == parse_mac(encode_utf8(mac_addr@)).unwrap(),
        r matches Err(e) ==> e.kind == ErrorKind::InvalidArgument,
{
    let text = mac_addr.as_bytes();
    let ghost s = text@;
    let mut data: [u8; 6] = [0u8; 6];
    let mut closed: usize = 0;
    let mut all_octets: bool = true;
    let mut piece_valid: bool = false;
    let mut piece_value: u16 = 0;
    let mut i: usize = 0;
    while i < text.len()
        invariant
            i <= text.len(),
            s == text@,
            closed <= i,
            colon_pieces(s.subrange(0, i as int)).len() == closed + 1,
            all_octets <==> (forall|j: int|
                0 <= j < closed ==> octet_of(
                    #[trigger] colon_pieces(s.subrange(0, i as int))[j],
                ) is Some),
            forall|j: int|
                0 <= j < closed && j < 6 && octet_of(
                    #[trigger] colon_pieces(s.subrange(0, i as int))[j],
                ) is Some ==> data@[j] == octet_of(
                    colon_pieces(s.subrange(0, i as int))[j],
                ).unwrap(),
            piece_valid <==> hex_value(colon_pieces(s.subrange(0, i as int)).last()) is Some,
            piece_value <= 256,
            piece_valid ==> piece_value == (if hex_value(
                colon_pieces(s.subrange(0, i as int)).last(),
            ).unwrap() < 256 {
                hex_value(colon_pieces(s.subrange(0, i as int)).last()).unwrap()
            } else {
                256
            }),
        decreases text.len() - i,
    {
        let c = text[i];
        let ghost before = colon_pieces(s.subrange(0, i as int));
        let ghost after = colon_pieces(s.subrange(0, i + 1));
        proof {
            assert(s.subrange(0, i + 1).drop_last() =~= s.subrange(0, i as int));
            assert(s.subrange(0, i + 1).last() == c);
        }
        if c == 58 {
            let octet_ok = piece_valid && piece_value <= 255;
            if octet_ok && closed < 6 {
                data[closed] = piece_value as u8;
            }
            all_octets = all_octets && octet_ok;
            closed = closed + 1;
            piece_valid = false;
            piece_value = 0;
            proof {
                assert(after == before.push(Seq::<u8>::empty()));
                assert(forall|j: int| 0 <= j < before.len() ==> after[j] == before[j]);
                assert(after.last().len() == 0);
            }
        } else {
            let ghost grown = before.last().push(c);
            proof {
                assert(after == before.drop_last().push(grown));
                assert(forall|j: int| 0 <= j < before.len() - 1 ==> after[j] == before[j]);
                assert(after.last() == grown);
                assert(grown.drop_last() =~= before.last());
                assert(grown.last() == c);
            }
            match hex_digit_of(c) {
                None => {
                    piece_valid = false;
                    piece_value = 0;
                },
                Some(d) => {
                    if piece_valid {
                        piece_value = if piece_value >= 16 {
                            256
                        } else {
                            piece_value * 16 + d as u16
                        };
                    } else if i == 0 || text[i - 1] == 58 {
                        proof {
                            if i > 0 {
                                assert(s.subrange(0, i as int).drop_last() =~= s.subrange(
                                    0,
                                    i - 1,
                                ));
                                assert(s.subrange(0, i as int).last() == 58);
                            }
                            assert(before.last().len() == 0);
                            assert(grown.len() == 1);
                        }
                        piece_valid = true;
                        piece_value = d as u16;
                    } else {
                        proof {
                            assert(s.subrange(0, i as int).drop_last() =~= s.subrange(0, i - 1));
                            assert(s.subrange(0, i as int).last() != 58);
                            assert(before.last().len() > 0);
                            assert(grown.len() > 1);
                        }
                    }
                },
            }
        }
        i = i + 1;
    }
    proof {
        assert(s.subrange(0, text.len() as int) =~= s);
    }
    let last_ok = piece_valid && piece_value <= 255;
    if last_ok && closed < 6 {
        data[closed] = piece_value as u8;
    }
    if closed == 5 && all_octets && last_ok {
        proof {
            let pieces = colon_pieces(s);
            assert(forall|j: int| 0 <= j < 6 ==> octet_of(#[trigger] pieces[j]) is Some);
            assert(data@ =~= parse_mac(s).unwrap());
        }
        Ok(data)
    } else {
        proof {
            let pieces = colon_pieces(s);
            if pieces.len() == 6 {
                if !last_ok {
                    assert(octet_of(pieces[5]) is None);
                }
            }
        }
        Err(
            DhcpError::invalid_argument(
                String::from_str("Invalid MAC address ").concat(mac_addr),
            ),
        )
    }
}

/// What the lookup of interfaces tells of one interface.
#[derive(Debug, Clone, PartialEq, Eq)]
pub struct LinkInterface {
    pub name: String,
    pub index: u32,
    pub mac_address: String,
}

/// The address that the raw socket is bound to, field by field. The
/// protocol is held as its two bytes in network order.
#[derive(Debug, Clone, Copy, PartialEq, Eq)]
pub struct LinkAddress {
    pub family: u16,
    pub protocol: [u8; 2],
    pub ifindex: i32,
    pub hatype: u16,
    pub pkttype: u8,
    pub halen: u8,
    pub addr: [u8; 8],
}

/// The request that puts an interface into promiscuous mode, field by
/// field.
#[derive(Debug, Clone, Copy, PartialEq, Eq)]
pub struct PromiscuousRequest {
    pub ifindex: i32,
    pub mr_type: u16,
    pub alen: u16,
    pub address: [u8; 8],
}

/// All that opening the transport on one interface needs: the protocol of
/// the socket, the address to bind it to, the request for promiscuous mode,
/// and the hardware address as DHCP messages carry it.
#[derive(Debug, Clone, Copy, PartialEq, Eq)]
pub struct RawSocketPlan {
    pub protocol: u16,
    pub address: LinkAddress,
    pub promiscuous: PromiscuousRequest,
    pub hw_addr: [u8; 16],
}

/// The handle of an open raw socket; a negative descriptor is no socket.
#[derive(Debug, PartialEq, Eq)]
pub struct DhcpSocket {
    pub fd: i32,
}

/// `k` is the place of the first of `ifaces` that is called `name`.
pub open spec fn is_first_named(ifaces: Seq<LinkInterface>, name: Seq<char>, k: int) -> bool {
    &&& 0 <= k < ifaces.len()
    &&& ifaces[k].name@ == name
    &&& forall|j: int| 0 <= j < k ==> (#[trigger] ifaces[j]).name@ != name
}

/// One of `ifaces` is called `name`.
pub open spec fn has_named(ifaces: Seq<LinkInterface>, name: Seq<char>) -> bool {
    exists|k: int| 0 <= k < ifaces.len() && (#[trigger] ifaces[k]).name@ == name
}

impl LinkAddress {
    /// The address of the Ethernet interface `ifindex` with the hardware
    /// address `mac`, for frames of `protocol` addressed to this host.
    pub open spec fn is_for(self, protocol: u16, ifindex: i32, mac: Seq<u8>) -> bool {
        &&& self.family == 17
        &&& self.protocol@ == be16(protocol)
        &&& self.ifindex == ifindex
        &&& self.hatype == 1
        &&& self.pkttype == 0
        &&& self.halen == 6
        &&& self.addr@ == mac + zeros(2)
    }
}

impl PromiscuousRequest {
    /// The request for promiscuous mode on the interface `ifindex`: no
    /// address goes with it.
    pub open spec fn is_for(self, ifindex: i32) -> bool {
        &&& self.ifindex == ifindex
        &&& self.mr_type == 1
        &&& self.alen == 0
        &&& self.address@ == zeros(8)
    }
}

impl RawSocketPlan {
    /// The plan for the interface `iface`, whose hardware address is `mac`.
    pub open spec fn is_for(self, iface: LinkInterface, mac: Seq<u8>) -> bool {
        &&& self.protocol == 3
        &&& self.address.is_for(3, iface.index as i32, mac)
        &&& self.promiscuous.is_for(iface.index as i32)
        &&& self.hw_addr@ == mac + zeros(10)
    }
}

/// The first of `ifaces` that is called `iface_name`, copied out.
pub fn find_iface(ifaces: &Vec<LinkInterface>, iface_name: &str) -> (r: Result<
    LinkInterface,
    DhcpError,
>)
    ensures
        r is Ok <==> has_named(ifaces@, iface_name@),
        r matches Ok(f) ==> exists|k: int|
            is_first_named(ifaces@, iface_name@, k) && f == #[trigger] ifaces@[k],
        r matches Err(e) ==> e.kind == ErrorKind::NotFound,
{
    let wanted = String::from_str(iface_name);
    let mut i: usize = 0;
    while i < ifaces.len()
        invariant
            i <= ifaces.len(),
            wanted@ == iface_name@,
            forall|j: int| 0 <= j < i ==> (#[trigger] ifaces@[j]).name@ != iface_name@,
        decreases ifaces.len() - i,
    {
        if ifaces[i].name == wanted {
            let found = LinkInterface {
                name: ifaces[i].name.clone(),
                index: ifaces[i].index,
                mac_address: ifaces[i].mac_address.clone(),
            };
            assert(is_first_named(ifaces@, iface_name@, i as int));
            assert(found == ifaces@[i as int]);
            return Ok(found);
        }
        i = i + 1;
    }
    Err(
        DhcpError::not_found(
            String::from_str("Interface ").concat(iface_name).concat(" not found"),
        ),
    )
}

/// The address to bind the raw socket to: the Ethernet interface
/// `iface_index`, its hardware address as `mac_address` writes it, and the
/// protocol in network byte order.
pub fn link_address(eth_protocol: u16, iface_index: i32, mac_address: &str) -> (r: Result<
    LinkAddress,
    DhcpError,
>)
    ensures
        r is Ok <==> parse_mac(encode_utf8(mac_address@)) is Some,
        r matches Ok(a) ==> a.is_for(
            eth_protocol,
            iface_index,
            parse_mac(encode_utf8(mac_address@)).unwrap(),
        ),
        r matches Err(e) ==> e.kind == ErrorKind::InvalidArgument,
{
    let mac = match mac_address_str_to_u8(mac_address) {
        Ok(mac) => mac,
        Err(e) => {
            return Err(e);
        },
    };
    let a = LinkAddress {
        family: af_packet(),
        protocol: [(eth_protocol / 256) as u8, (eth_protocol % 256) as u8],
        ifindex: iface_index,
        hatype: arphrd_ether(),
        pkttype: PACKET_HOST,
        halen: eth_alen() as u8,
        addr: [mac[0], mac[1], mac[2], mac[3], mac[4], mac[5], 0, 0],
    };
    assert(a.protocol@ =~= be16(eth_protocol));
    assert(a.addr@ =~= mac@ + zeros(2));
    Ok(a)
}

/// The request that puts the interface `iface_index` into promiscuous
/// mode.
pub fn promiscuous_request(iface_index: i32) -> (r: PromiscuousRequest)
    ensures
        r.is_for(iface_index),
{
    let r = PromiscuousRequest {
        ifindex: iface_index,
        mr_type: packet_mr_promisc(),
        alen: 0,
        address: [0u8; 8],
    };
    assert(r.address@ =~= zeros(8));
    r
}

/// Works out what opening the transport on `iface_name` needs, before any
/// socket exists. An interface that is not among `ifaces` is not found; a
/// hardware address that cannot be read is an invalid argument; an index
/// that the kernel's signed field cannot hold is a fault of the lookup.
pub fn raw_socket_plan(ifaces: &Vec<LinkInterface>, iface_name: &str) -> (r: Result<
    RawSocketPlan,
    DhcpError,
>)
    ensures
        !has_named(ifaces@, iface_name@) ==> (r matches Err(e) && e.kind == ErrorKind::NotFound),
        forall|k: int| #[trigger]
            is_first_named(ifaces@, iface_name@, k) ==> {
                let iface = ifaces@[k];
                let mac = parse_mac(encode_utf8(iface.mac_address@));
                if mac is None {
                    r matches Err(e) && e.kind == ErrorKind::InvalidArgument
                } else if iface.index > i32::MAX {
                    r matches Err(e) && e.kind == ErrorKind::Bug
                } else {
                    r matches Ok(plan) && plan.is_for(iface, mac.unwrap())
                }
            },
{
    let iface = match find_iface(ifaces, iface_name) {
        Ok(iface) => iface,
        Err(e) => {
            return Err(e);
        },
    };
    proof {
        let k0 = choose|k: int|
            is_first_named(ifaces@, iface_name@, k) && iface == #[trigger] ifaces@[k];
        assert forall|k: int| #[trigger]
            is_first_named(ifaces@, iface_name@, k) implies k == k0 by {
            if k < k0 {
                assert(ifaces@[k].name@ != iface_name@);
            } else if k0 < k {
                assert(ifaces@[k0].name@ != iface_name@);
            }
        }
    }
    let mac = match mac_address_str_to_u8(iface.mac_address.as_str()) {
        Ok(mac) => mac,
        Err(e) => {
            return Err(e);
        },
    };
    if iface.index > 0x7fff_ffff {
        return Err(DhcpError::bug(String::from_str("interface index out of range")));
    }
    let index: i32 = iface.index as i32;
    let protocol = eth_p_all();
    let address = match link_address(protocol, index, iface.mac_address.as_str()) {
        Ok(address) => address,
        Err(e) => {
            return Err(e);
        },
    };
    let plan = RawSocketPlan {
        protocol,
        address,
        promiscuous: promiscuous_request(index),
        hw_addr: [
            mac[0],
            mac[1],
            mac[2],
            mac[3],
            mac[4],
            mac[5],
            0,
            0,
            0,
            0,
            0,
            0,
            0,
            0,
            0,
            0,
        ],
    };
    assert(plan.hw_addr@ =~= mac@ + zeros(10));
    Ok(plan)
}

/// What the kernel's answer to creating the socket means: -1 is a failure,
/// anything else the descriptor of the new socket.
pub fn socket_from_result(fd: i32) -> (r: Result<DhcpSocket, DhcpError>)
    ensures
        r is Err <==> fd == -1,
        r matches Err(e) ==> e.kind == ErrorKind::Bug,
        r matches Ok(s) ==> s.fd == fd,
{
    if fd == -1 {
        Err(DhcpError::bug(String::from_str("libc::socket() failed with -1")))
    } else {
        Ok(DhcpSocket { fd })
    }
}

/// What the kernel's answer to binding or to a socket option means: zero
/// is success, anything else a failure of the call named `what`.
pub fn check_call(rc: i32, what: &str) -> (r: Result<(), DhcpError>)
    ensures
        r is Ok <==> rc == 0,
        r matches Err(e) ==> e.kind == ErrorKind::Bug,
{
    if rc == 0 {
        Ok(())
    } else {
        Err(DhcpError::bug(String::from_str("Failed to ").concat(what)))
    }
}

impl DhcpSocket {
    pub fn new(fd: i32) -> (s: Self)
        ensures
            s.fd == fd,
    {
        Self { fd }
    }

    /// The handle stands for a socket.
    pub open spec fn is_open(&self) -> bool {
        self.fd >= 0
    }

    /// Gives up the socket: hands back the descriptor that the caller has
    /// to release, once, and leaves a handle that stands for no socket. On
    /// such a handle nothing happens.
    pub fn close(&mut self) -> (released: Option<i32>)
        ensures
            old(self).is_open() ==> released == Some(old(self).fd) && final(self).fd == -1,
            !old(self).is_open() ==> released is None && final(self).fd == old(self).fd,
            !final(self).is_open(),
    {
        if self.fd >= 0 {
            let fd = self.fd;
            self.fd = -1;
            Some(fd)
        } else {
            None
        }
    }

    /// What one attempt to receive means. `count` is what the kernel
    /// answered after filling `buffer`, and `would_block` says whether a
    /// failure was only that nothing had arrived. A frame is the bytes
    /// received, nothing arrived is no frame, any other failure is an
    /// error.
    pub fn try_recv(&self, buffer: &[u8], count: isize, would_block: bool) -> (r: Result<
        Option<Vec<u8>>,
        DhcpError,
    >)
        ensures
            r is Err <==> count < 0 && !would_block,
            r matches Err(e) ==> e.kind == ErrorKind::Bug,
            count < 0 && would_block ==> r == Ok::<Option<Vec<u8>>, DhcpError>(None),
            count >= 0 ==> (r matches Ok(Some(frame)) && frame@ == buffer@.subrange(
                0,
                if count <= buffer@.len() {
                    count as int
                } else {
                    buffer@.len() as int
                },
            )),
    {
        if count < 0 {
            if would_block {
                Ok(None)
            } else {
                Err(DhcpError::bug(String::from_str("Failed to receive from the socket")))
            }
        } else {
            let taken: usize = if count as usize <= buffer.len() {
                count as usize
            } else {
                buffer.len()
            };
            let mut frame: Vec<u8> = Vec::new();
            let mut i: usize = 0;
            while i < taken
                invariant
                    i <= taken <= buffer.len(),
                    frame@ == buffer@.subrange(0, i as int),
                decreases taken - i,
            {
                frame.push(buffer[i]);
                i = i + 1;
                assert(frame@ =~= buffer@.subrange(0, i as int));
            }
            Ok(Some(frame))
        }
    }
}

} // verus!
