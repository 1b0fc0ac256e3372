//! The DHCP message: its fields, its bytes on the wire, and the message
//! that opens an exchange.

use crate::error::DhcpError;
use crate::error::ErrorKind;
use rand::Rng;
use vstd::prelude::*;
use vstd::string::StringExecFns;
use vstd::utf8::encode_utf8;

verus! {

/// Length of the fixed part of a message.
pub const FIXED_HEADER_LENGTH: usize = 236;

/// The least length of the options region on the wire.
pub const MINIMUM_OPTION_LENGTH: usize = 312;

pub const BOOTREQUEST: u8 = 1;

pub const BOOTREPLY: u8 = 2;

pub const CHADDR_LEN: usize = 16;

pub const SNAME_LEN: usize = 64;

pub const FILE_LEN: usize = 128;

/// Hardware type of Ethernet.
pub const HW_TYPE_ETHERNET: u8 = 1;

pub const ETHERNET_HW_ADDR_LEN: u8 = 6;

/// One DHCP message. Addresses are held as their four octets.
#[derive(Debug, PartialEq, Clone)]
pub struct DhcpMessage {
    pub op: u8,
    pub htype: u8,
    pub hlen: u8,
    pub hops: u8,
    pub xid: u32,
    pub secs: u16,
    pub flags: u16,
    pub ciaddr: [u8; 4],
    pub yiaddr: [u8; 4],
    pub siaddr: [u8; 4],
    pub giaddr: [u8; 4],
    pub chaddr: [u8; 16],
    pub sname: [u8; 64],
    pub file: [u8; 128],
    pub options: Vec<u8>,
}

/// A message as mathematics: each byte field as a sequence.
#[verifier::ext_equal]
pub struct DhcpMessageView {
    pub op: u8,
    pub htype: u8,
    pub hlen: u8,
    pub hops: u8,
    pub xid: u32,
    pub secs: u16,
    pub flags: u16,
    pub ciaddr: Seq<u8>,
    pub yiaddr: Seq<u8>,
    pub siaddr: Seq<u8>,
    pub giaddr: Seq<u8>,
    pub chaddr: Seq<u8>,
    pub sname: Seq<u8>,
    pub file: Seq<u8>,
    pub options: Seq<u8>,
}

impl View for DhcpMessage {
    type V = DhcpMessageView;

    open spec fn view(&self) -> DhcpMessageView {
        DhcpMessageView {
            op: self.op,
            htype: self.htype,
            hlen: self.hlen,
            hops: self.hops,
            xid: self.xid,
            secs: self.secs,
            flags: self.flags,
            ciaddr: self.ciaddr@,
            yiaddr: self.yiaddr@,
            siaddr: self.siaddr@,
            giaddr: self.giaddr@,
            chaddr: self.chaddr@,
            sname: self.sname@,
            file: self.file@,
            options: self.options@,
        }
    }
}

/// `n` zero bytes.
pub open spec fn zeros(n: int) -> Seq<u8> {
    Seq::new(n as nat, |i: int| 0u8)
}

/// The two bytes of `x`, the high one first.
pub open spec fn be16(x: u16) -> Seq<u8> {
    seq![(x / 256) as u8, (x % 256) as u8]
}

/// The four bytes of `x`, the highest first.
pub open spec fn be32(x: u32) -> Seq<u8> {
    seq![
        (x / 0x100_0000) as u8,
        (x / 0x1_0000 % 256) as u8,
        (x / 0x100 % 256) as u8,
        (x % 256) as u8,
    ]
}

/// The number whose two bytes, the high one first, are `s`.
pub open spec fn from_be16(s: Seq<u8>) -> u16 {
    (s[0] * 256 + s[1]) as u16
}

/// The number whose four bytes, the highest first, are `s`.
pub open spec fn from_be32(s: Seq<u8>) -> u32 {
    (s[0] * 0x100_0000 + s[1] * 0x1_0000 + s[2] * 0x100 + s[3]) as u32
}

/// The options region as it goes on the wire: filled with zero bytes up to
/// the least length, and unchanged from there on.
pub open spec fn padded_options(options: Seq<u8>) -> Seq<u8> {
    if options.len() < 312 {
        options + zeros(312 - options.len())
    } else {
        options
    }
}

impl DhcpMessageView {
    /// Each byte field has the width that the format gives it.
    pub open spec fn well_formed(self) -> bool {
        &&& self.ciaddr.len() == 4
        &&& self.yiaddr.len() == 4
        &&& self.siaddr.len() == 4
        &&& self.giaddr.len() == 4
        &&& self.chaddr.len() == 16
        &&& self.sname.len() == 64
        &&& self.file.len() == 128
    }

    /// The 236 bytes of the fixed part.
    pub open spec fn header(self) -> Seq<u8> {
        seq![self.op, self.htype, self.hlen, self.hops] + be32(self.xid) + be16(self.secs) + be16(
            self.flags,
        ) + self.ciaddr + self.yiaddr + self.siaddr + self.giaddr + self.chaddr + self.sname
            + self.file
    }

    /// The message on the wire.
    pub open spec fn wire(self) -> Seq<u8> {
        self.header() + padded_options(self.options)
    }

    /// The message that `data` holds; `data` has at least the fixed part.
    pub open spec fn from_wire(data: Seq<u8>) -> DhcpMessageView {
        DhcpMessageView {
            op: data[0],
            htype: data[1],
            hlen: data[2],
            hops: data[3],
            xid: from_be32(data.subrange(4, 8)),
            secs: from_be16(data.subrange(8, 10)),
            flags: from_be16(data.subrange(10, 12)),
            ciaddr: data.subrange(12, 16),
            yiaddr: data.subrange(16, 20),
            siaddr: data.subrange(20, 24),
            giaddr: data.subrange(24, 28),
            chaddr: data.subrange(28, 44),
            sname: data.subrange(44, 108),
            file: data.subrange(108, 236),
            options: data.subrange(236, data.len() as int),
        }
    }

    /// The message that opens an exchange: a request from the Ethernet
    /// address `hw_addr`, with the host name at the start of the server-name
    /// field, no address, and no option.
    pub open spec fn discover(hw_addr: Seq<u8>, host_name: Seq<u8>, xid: u32) -> DhcpMessageView {
        DhcpMessageView {
            op: 1,
            htype: 1,
            hlen: 6,
            hops: 0,
            xid,
            secs: 0,
            flags: 0,
            ciaddr: zeros(4),
            yiaddr: zeros(4),
            siaddr: zeros(4),
            giaddr: zeros(4),
            chaddr: hw_addr,
            sname: host_name + zeros(64 - host_name.len()),
            file: zeros(128),
            options: Seq::empty(),
        }
    }
}

/// Decoding an encoded message gives the fixed fields back, and as options
/// the encoded ones, which are the message's own from 312 bytes on and the
/// message's own followed by zero bytes up to 312 below that.
pub proof fn law_decode_of_encode(m: DhcpMessageView)
    requires
        m.well_formed(),
    ensures
        m.wire().len() >= 236 + 312,
        m.wire().len() == 236 + padded_options(m.options).len(),
        DhcpMessageView::from_wire(m.wire()) == (DhcpMessageView {
            options: padded_options(m.options),
            ..m
        }),
        m.options.len() >= 312 ==> DhcpMessageView::from_wire(m.wire()) == m,
        m.options.len() < 312 ==> {
            let back = DhcpMessageView::from_wire(m.wire()).options;
            &&& back.len() == 312
            &&& back.subrange(0, m.options.len() as int) == m.options
            &&& forall|i: int| m.options.len() <= i < 312 ==> back[i] == 0
        },
{
    let w = m.wire();
    let h = m.header();
    assert(h.len() == 236);
    let back = DhcpMessageView::from_wire(w);
    assert(w.subrange(4, 8) =~= be32(m.xid));
    assert(w.subrange(8, 10) =~= be16(m.secs));
    assert(w.subrange(10, 12) =~= be16(m.flags));
    assert(back.ciaddr =~= m.ciaddr);
    assert(back.yiaddr =~= m.yiaddr);
    assert(back.siaddr =~= m.siaddr);
    assert(back.giaddr =~= m.giaddr);
    assert(back.chaddr =~= m.chaddr);
    assert(back.sname =~= m.sname);
    assert(back.file =~= m.file);
    assert(back.options =~= padded_options(m.options));
    assert(back.xid == m.xid);
    assert(back.secs == m.secs);
    assert(back.flags == m.flags);
    if m.options.len() < 312 {
        assert(back.options.subrange(0, m.options.len() as int) =~= m.options);
    }
}

/// A fresh transaction id: `rand::thread_rng()` and `Rng::gen` on it, a
/// uniform draw from the generator of the calling thread. Nothing is
/// claimed of the number drawn.
#[verifier::external_body]
pub(crate) fn random_xid() -> (xid: u32) {
    rand::thread_rng().gen()
}

/// Appends the bytes of `src` to `data`.
fn append_bytes(data: &mut Vec<u8>, src: &[u8])
    ensures
        final(data)@ == old(data)@ + src@,
{
    let mut i: usize = 0;
    while i < src.len()
        invariant
            i <= src.len(),
            data@ == old(data)@ + src@.subrange(0, i as int),
        decreases src.len() - i,
    {
        data.push(src[i]);
        i = i + 1;
    }
    assert(src@.subrange(0, src.len() as int) =~= src@);
}

/// Appends `count` zero bytes to `data`.
fn append_zeros(data: &mut Vec<u8>, count: usize)
    ensures
        final(data)@ == old(data)@ + zeros(count as int),
{
    let mut i: usize = 0;
    while i < count
        invariant
            i <= count,
            data@ == old(data)@ + zeros(i as int),
        decreases count - i,
    {
        data.push(0);
        i = i + 1;
    }
}

/// Appends the two bytes of `x`, the high one first.
fn append_be16(data: &mut Vec<u8>, x: u16)
    ensures
        final(data)@ == old(data)@ + be16(x),
{
    data.push((x / 256) as u8);
    data.push((x % 256) as u8);
}

/// Appends the four bytes of `x`, the highest first.
fn append_be32(data: &mut Vec<u8>, x: u32)
    ensures
        final(data)@ == old(data)@ + be32(x),
{
    data.push((x / 0x100_0000) as u8);
    data.push((x / 0x1_0000 % 256) as u8);
    data.push((x / 0x100 % 256) as u8);
    data.push((x % 256) as u8);
}

/// The four bytes of `data` from `at` on.
fn bytes4(data: &[u8], at: usize) -> (a: [u8; 4])
    requires
        at + 4 <= data.len(),
    ensures
        a@ == data@.subrange(at as int, at + 4),
{
    let a: [u8; 4] = [data[at], data[at + 1], data[at + 2], data[at + 3]];
    assert(a@ =~= data@.subrange(at as int, at + 4));
    a
}

/// The sixteen bytes of `data` from `at` on.
fn bytes16(data: &[u8], at: usize) -> (a: [u8; 16])
    requires
        at + 16 <= data.len(),
    ensures
        a@ == data@.subrange(at as int, at + 16),
{
    let mut a: [u8; 16] = [0u8; 16];
    let mut i: usize = 0;
    while i < 16
        invariant
            i <= 16,
            at + 16 <= data.len(),
            forall|j: int| 0 <= j < i ==> a@[j] == data@[at + j],
        decreases 16 - i,
    {
        a[i] = data[at + i];
        i = i + 1;
    }
    assert(a@ =~= data@.subrange(at as int, at + 16));
    a
}

/// The sixty-four bytes of `data` from `at` on.
fn bytes64(data: &[u8], at: usize) -> (a: [u8; 64])
    requires
        at + 64 <= data.len(),
    ensures
        a@ == data@.subrange(at as int, at + 64),
{
    let mut a: [u8; 64] = [0u8; 64];
    let mut i: usize = 0;
    while i < 64
        invariant
            i <= 64,
            at + 64 <= data.len(),
            forall|j: int| 0 <= j < i ==> a@[j] == data@[at + j],
        decreases 64 - i,
    {
        a[i] = data[at + i];
        i = i + 1;
    }
    assert(a@ =~= data@.subrange(at as int, at + 64));
    a
}

/// The hundred and twenty-eight bytes of `data` from `at` on.
fn bytes128(data: &[u8], at: usize) -> (a: [u8; 128])
    requires
        at + 128 <= data.len(),
    ensures
        a@ == data@.subrange(at as int, at + 128),
{
    let mut a: [u8; 128] = [0u8; 128];
    let mut i: usize = 0;
    while i < 128
        invariant
            i <= 128,
            at + 128 <= data.len(),
            forall|j: int| 0 <= j < i ==> a@[j] == data@[at + j],
        decreases 128 - i,
    {
        a[i] = data[at + i];
        i = i + 1;
    }
    assert(a@ =~= data@.subrange(at as int, at + 128));
    a
}

impl DhcpMessage {
    /// The message on the wire: the fixed part, then the options, filled
    /// with zero bytes where they are shorter than 312 bytes.
    pub fn to_u8_vec(&self) -> (data: Vec<u8>)
        ensures
            data@ == self@.wire(),
            data@.len() >= 236 + 312,
    {
        let mut data: Vec<u8> = Vec::new();
        data.push(self.op);
        data.push(self.htype);
        data.push(self.hlen);
        data.push(self.hops);
        assert(data@ =~= seq![self.op, self.htype, self.hlen, self.hops]);
        append_be32(&mut data, self.xid);
        append_be16(&mut data, self.secs);
        append_be16(&mut data, self.flags);
        append_bytes(&mut data, self.ciaddr.as_slice());
        append_bytes(&mut data, self.yiaddr.as_slice());
        append_bytes(&mut data, self.siaddr.as_slice());
        append_bytes(&mut data, self.giaddr.as_slice());
        append_bytes(&mut data, self.chaddr.as_slice());
        append_bytes(&mut data, self.sname.as_slice());
        append_bytes(&mut data, self.file.as_slice());
        assert(data@ == self@.header());
        append_bytes(&mut data, self.options.as_slice());
        if self.options.len() < MINIMUM_OPTION_LENGTH {
            append_zeros(&mut data, MINIMUM_OPTION_LENGTH - self.options.len());
        }
        assert(data@ =~= self@.wire());
        data
    }

    /// The message that `data` holds. Fewer bytes than the fixed part are
    /// refused; what follows the fixed part is kept as the options, byte
    /// for byte.
    pub fn decode(data: &[u8]) -> (r: Result<DhcpMessage, DhcpError>)
        ensures
            r is Err <==> data@.len() < 236,
            r matches Err(e) ==> e.kind == ErrorKind::Malformed,
            r matches Ok(m) ==> m@ == DhcpMessageView::from_wire(data@),
    {
        if data.len() < FIXED_HEADER_LENGTH {
            return Err(
                DhcpError::malformed(
                    String::from_str("a DHCP message is at least 236 bytes long"),
                ),
            );
        }
        let xid: u32 = (data[4] as u32) * 0x100_0000 + (data[5] as u32) * 0x1_0000 + (
        data[6] as u32) * 0x100 + (data[7] as u32);
        let secs: u16 = (data[8] as u16) * 256 + (data[9] as u16);
        let flags: u16 = (data[10] as u16) * 256 + (data[11] as u16);
        let mut options: Vec<u8> = Vec::new();
        append_bytes(&mut options, vstd::slice::slice_subrange(data, 236, data.len()));
        let m = DhcpMessage {
            op: data[0],
            htype: data[1],
            hlen: data[2],
            hops: data[3],
            xid,
            secs,
            flags,
            ciaddr: bytes4(data, 12),
            yiaddr: bytes4(data, 16),
            siaddr: bytes4(data, 20),
            giaddr: bytes4(data, 24),
            chaddr: bytes16(data, 28),
            sname: bytes64(data, 44),
            file: bytes128(data, 108),
            options,
        };
        assert(m@ =~= DhcpMessageView::from_wire(data@));
        Ok(m)
    }

    /// The message that opens an exchange, with the transaction id `xid`.
    /// A host name of 64 bytes or more does not fit the server-name field
    /// and is refused.
    pub fn discover(hw_addr: &[u8; 16], host_name: &str, xid: u32) -> (r: Result<
        DhcpMessage,
        DhcpError,
    >)
        ensures
            r is Err <==> encode_utf8(host_name@).len() >= 64,
            r matches Err(e) ==> e.kind == ErrorKind::InvalidArgument,
            r matches Ok(m) ==> m@ == DhcpMessageView::discover(
                hw_addr@,
                encode_utf8(host_name@),
                xid,
            ),
    {
        let name = host_name.as_bytes();
        if name.len() >= SNAME_LEN {
            return Err(
                DhcpError::invalid_argument(
                    String::from_str("Specified host_name '").concat(host_name).concat(
                        "' exceeded the maximum length 63",
                    ),
                ),
            );
        }
        let mut sname: [u8; 64] = [0u8; 64];
        let mut i: usize = 0;
        while i < name.len()
            invariant
                i <= name.len() < 64,
                forall|j: int| 0 <= j < i ==> sname@[j] == name@[j],
                forall|j: int| i <= j < 64 ==> sname@[j] == 0,
            decreases name.len() - i,
        {
            sname[i] = name[i];
            i = i + 1;
        }
        let m = DhcpMessage {
            op: BOOTREQUEST,
            htype: HW_TYPE_ETHERNET,
            hlen: ETHERNET_HW_ADDR_LEN,
            hops: 0,
            xid,
            secs: 0,
            flags: 0,
            ciaddr: [0u8; 4],
            yiaddr: [0u8; 4],
            siaddr: [0u8; 4],
            giaddr: [0u8; 4],
            chaddr: *hw_addr,
            sname,
            file: [0u8; 128],
            options: Vec::new(),
        };
        assert(m@ =~= DhcpMessageView::discover(hw_addr@, encode_utf8(host_name@), xid));
        Ok(m)
    }

    /// The message that opens an exchange, with a transaction id drawn at
    /// random. It is `discover` with the id that the result holds.
    pub fn new_discover_message(hw_addr: &[u8; 16], host_name: String) -> (r: Result<
        DhcpMessage,
        DhcpError,
    >)
        ensures
            r is Err <==> encode_utf8(host_name@).len() >= 64,
            r matches Err(e) ==> e.kind == ErrorKind::InvalidArgument,
            r matches Ok(m) ==> m@ == DhcpMessageView::discover(
                hw_addr@,
                encode_utf8(host_name@),
                m.xid,
            ),
    {
        let xid = random_xid();
        Self::discover(hw_addr, host_name.as_str(), xid)
    }
}

} // verus!
