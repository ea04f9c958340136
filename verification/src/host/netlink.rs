//! Parsing the rtnetlink dumps that tell which addresses are dynamic and which
//! interface carries the default route.

use vstd::prelude::*;

use crate::host::ipv4::Ipv4Addr;

verus! {

pub const NLMSG_HEADER_LEN: usize = 16;

pub const NLMSG_ERROR_LEN: usize = 20;

pub const IFADDR_MSG_LEN: usize = 8;

pub const IFA_CACHE_INFO_LEN: usize = 16;

pub const RT_MSG_LEN: usize = 12;

pub const RT_ATTR_LEN: usize = 4;

pub const IFA_F_PERMANENT_BITS: u32 = 0x80;

pub const INFINITE_LIFETIME: u32 = 0xffff_ffff;

pub const AF_INET_BITS: u8 = 2;

pub const RTN_UNSPEC_BITS: u8 = 0;

pub const RTN_UNICAST_BITS: u8 = 1;

pub const IFF_UP_BITS: u32 = 0x1;

pub const IFF_RUNNING_BITS: u32 = 0x40;

pub const RT_TABLE_MAIN_BITS: u32 = 254;

pub const NLMSG_ERROR_BITS: u16 = 2;

pub const NLMSG_DONE_BITS: u16 = 3;

pub const RTA_TABLE_BITS: u16 = 15;

pub const RTM_NEWADDR_BITS: u16 = 20;

pub const RTM_NEWROUTE_BITS: u16 = 24;

pub const IFA_ADDRESS_BITS: u16 = 1;

pub const IFA_LOCAL_BITS: u16 = 2;

pub const IFA_CACHEINFO_BITS: u16 = 6;

pub const IFA_FLAGS_BITS: u16 = 8;

pub const RTA_OIF_BITS: u16 = 4;

/// Byte order of the integers in a netlink dump: the host's own order.
#[derive(Debug, Clone, Copy, PartialEq, Eq, Structural)]
pub enum ByteOrder {
    Little,
    Big,
}

/// Why a netlink dump could not be read.
#[derive(Debug, Clone, Copy, PartialEq, Eq, Structural)]
pub enum NetlinkError {
    /// A structure was cut short; the code names which one.
    Short(ShortKind),
    /// A message header claims fewer bytes than the header itself.
    InvalidMessageLength,
    /// A message runs past the end of the buffer.
    TruncatedMessage,
    /// An error message is too short to hold the error code.
    ShortErrorPayload,
    /// A route attribute's length is smaller than its header or past the payload.
    InvalidAttributeLength,
    /// The kernel reported this errno.
    Os(i32),
}

/// Which structure a [`NetlinkError::Short`] refers to.
#[derive(Debug, Clone, Copy, PartialEq, Eq, Structural)]
pub enum ShortKind {
    Header,
    Error,
    IfAddrMsg,
    CacheInfo,
    RtMsg,
    RtAttr,
}

pub open spec fn u16_at(b: Seq<u8>, i: int, order: ByteOrder) -> u16 {
    match order {
        ByteOrder::Little => (b[i] as int + 256 * b[i + 1] as int) as u16,
        ByteOrder::Big => (b[i + 1] as int + 256 * b[i] as int) as u16,
    }
}

pub open spec fn u32_at(b: Seq<u8>, i: int, order: ByteOrder) -> u32 {
    match order {
        ByteOrder::Little => (b[i] as int + 256 * b[i + 1] as int + 65536 * b[i + 2] as int + 16777216
            * b[i + 3] as int) as u32,
        ByteOrder::Big => (b[i + 3] as int + 256 * b[i + 2] as int + 65536 * b[i + 1] as int + 16777216
            * b[i] as int) as u32,
    }
}

/// Two's-complement reading of four bytes.
pub open spec fn i32_at(b: Seq<u8>, i: int, order: ByteOrder) -> i32 {
    let u = u32_at(b, i, order) as int;
    (if u >= 0x8000_0000 { u - 0x1_0000_0000 } else { u }) as i32
}

/// Appends `v` in the given byte order.
fn push_u16(out: &mut Vec<u8>, v: u16, order: ByteOrder)
    ensures
        final(out)@.len() == old(out)@.len() + 2,
        final(out)@.subrange(0, old(out)@.len() as int) == old(out)@,
        u16_at(final(out)@, old(out)@.len() as int, order) == v,
{
    let lo = (v % 256) as u8;
    let hi = (v / 256) as u8;
    assert(lo as int + 256 * hi as int == v);
    match order {
        ByteOrder::Little => {
            out.push(lo);
            out.push(hi);
        },
        ByteOrder::Big => {
            out.push(hi);
            out.push(lo);
        },
    }
    assert(final(out)@.subrange(0, old(out)@.len() as int) =~= old(out)@) by {
        assert(out@.subrange(0, old(out)@.len() as int) =~= old(out)@);
    }
}

/// Appends `v` in the given byte order.
fn push_u32(out: &mut Vec<u8>, v: u32, order: ByteOrder)
    ensures
        final(out)@.len() == old(out)@.len() + 4,
        final(out)@.subrange(0, old(out)@.len() as int) == old(out)@,
        u32_at(final(out)@, old(out)@.len() as int, order) == v,
{
    let b0 = (v % 256) as u8;
    let b1 = ((v / 256) % 256) as u8;
    let b2 = ((v / 65536) % 256) as u8;
    let b3 = (v / 16777216) as u8;
    assert(b0 as int + 256 * b1 as int + 65536 * b2 as int + 16777216 * b3 as int == v);
    match order {
        ByteOrder::Little => {
            out.push(b0);
            out.push(b1);
            out.push(b2);
            out.push(b3);
        },
        ByteOrder::Big => {
            out.push(b3);
            out.push(b2);
            out.push(b1);
            out.push(b0);
        },
    }
    assert(out@.subrange(0, old(out)@.len() as int) =~= old(out)@);
}

/// `NLM_F_REQUEST | NLM_F_DUMP`.
pub const NLM_F_REQUEST_DUMP: u16 = 0x301;

/// A dump request: the 16-byte header (total length, message kind, the
/// request and dump flags, sequence number, port 0) in the given byte order,
/// then the body. Each header field reads back as written.
pub fn dump_request(kind: u16, seq: u32, body: &[u8], order: ByteOrder) -> (r: Vec<u8>)
    requires
        body@.len() + 16 <= u32::MAX,
    ensures
        r@.len() == 16 + body@.len(),
        u32_at(r@, 0, order) == 16 + body@.len(),
        u16_at(r@, 4, order) == kind,
        u16_at(r@, 6, order) == NLM_F_REQUEST_DUMP,
        u32_at(r@, 8, order) == seq,
        u32_at(r@, 12, order) == 0,
        r@.subrange(16, r@.len() as int) == body@,
{
    let len: u32 = (16 + body.len()) as u32;
    let mut out: Vec<u8> = Vec::new();
    push_u32(&mut out, len, order);
    let ghost o1 = out@;
    push_u16(&mut out, kind, order);
    let ghost o2 = out@;
    push_u16(&mut out, NLM_F_REQUEST_DUMP, order);
    let ghost o3 = out@;
    push_u32(&mut out, seq, order);
    let ghost o4 = out@;
    push_u32(&mut out, 0, order);
    let ghost o5 = out@;
    let mut i: usize = 0;
    while i < body.len()
        invariant
            i <= body@.len(),
            out@.len() == 16 + i,
            out@.subrange(0, 16) == o5,
            out@.subrange(16, 16 + i as int) == body@.subrange(0, i as int),
        decreases body@.len() - i,
    {
        let ghost before = out@;
        out.push(body[i]);
        assert(out@.subrange(0, 16) =~= before.subrange(0, 16));
        assert(out@.subrange(16, 16 + i + 1) =~= body@.subrange(0, i + 1)) by {
            assert(out@.subrange(16, 16 + i as int) =~= before.subrange(16, 16 + i as int));
        }
        i = i + 1;
    }
    proof {
        let h = out@.subrange(0, 16);
        assert(h =~= o5);
        assert(o5.subrange(0, 12) =~= o4);
        assert(o4.subrange(0, 8) =~= o3);
        assert(o3.subrange(0, 6) =~= o2);
        assert(o2.subrange(0, 4) =~= o1);
        assert(forall|k: int| 0 <= k < 16 ==> out@[k] == o5[k]);
        assert(forall|k: int| 0 <= k < 12 ==> o5[k] == o4[k]);
        assert(forall|k: int| 0 <= k < 8 ==> o4[k] == o3[k]);
        assert(forall|k: int| 0 <= k < 6 ==> o3[k] == o2[k]);
        assert(forall|k: int| 0 <= k < 4 ==> o2[k] == o1[k]);
        assert(out@.subrange(16, out@.len() as int) =~= body@.subrange(0, body@.len() as int));
        assert(body@.subrange(0, body@.len() as int) =~= body@);
    }
    out
}

fn read_u16_at(b: &[u8], i: usize, order: ByteOrder) -> (r: u16)
    requires
        i + 2 <= b@.len(),
    ensures
        r == u16_at(b@, i as int, order),
{
    let b0 = b[i] as u16;
    let b1 = b[i + 1] as u16;
    match order {
        ByteOrder::Little => b0 + 256 * b1,
        ByteOrder::Big => b1 + 256 * b0,
    }
}

fn read_u32_at(b: &[u8], i: usize, order: ByteOrder) -> (r: u32)
    requires
        i + 4 <= b@.len(),
    ensures
        r == u32_at(b@, i as int, order),
{
    let b0 = b[i] as u32;
    let b1 = b[i + 1] as u32;
    let b2 = b[i + 2] as u32;
    let b3 = b[i + 3] as u32;
    match order {
        ByteOrder::Little => b0 + 256 * b1 + 65536 * b2 + 16777216 * b3,
        ByteOrder::Big => b3 + 256 * b2 + 65536 * b1 + 16777216 * b0,
    }
}

fn read_i32_at(b: &[u8], i: usize, order: ByteOrder) -> (r: i32)
    requires
        i + 4 <= b@.len(),
    ensures
        r == i32_at(b@, i as int, order),
{
    let u = read_u32_at(b, i, order);
    if u >= 0x8000_0000 {
        (u - 0x8000_0000) as i32 - 0x7fff_ffff - 1
    } else {
        u as i32
    }
}

/// The first four bytes of `data` as an integer, if there are four.
pub fn read_u32(data: &[u8], order: ByteOrder) -> (r: Option<u32>)
    ensures
        r == (if data@.len() >= 4 {
            Some(u32_at(data@, 0, order))
        } else {
            None::<u32>
        }),
{
    if data.len() < 4 {
        return None;
    }
    Some(read_u32_at(data, 0, order))
}

/// Rounds a netlink length up to the 4-byte alignment.
pub open spec fn align4(len: int) -> int {
    ((len + 3) / 4) * 4
}

pub fn nlmsg_align(len: usize) -> (r: usize)
    requires
        len + 3 <= usize::MAX,
    ensures
        r == align4(len as int),
{
    let sum = len + 3;
    let r = sum & !3usize;
    assert(r == (sum / 4) * 4) by (bit_vector)
        requires
            r == sum & !3usize,
    ;
    r
}

/// Padding that takes `len` to the next multiple of four.
fn align_pad(len: usize) -> (r: usize)
    ensures
        len + r == align4(len as int),
        r <= 3,
{
    (4 - len % 4) % 4
}

pub fn rta_align(len: usize) -> (r: usize)
    requires
        len + 3 <= usize::MAX,
    ensures
        r == align4(len as int),
{
    nlmsg_align(len)
}

/// `struct nlmsghdr`.
#[derive(Debug, Clone, Copy, PartialEq, Eq, Structural)]
pub struct NlMsgHdr {
    pub nlmsg_len: u32,
    pub nlmsg_type: u16,
    pub nlmsg_flags: u16,
    pub nlmsg_seq: u32,
    pub nlmsg_pid: u32,
}

pub open spec fn header_at(b: Seq<u8>, i: int, order: ByteOrder) -> NlMsgHdr {
    NlMsgHdr {
        nlmsg_len: u32_at(b, i, order),
        nlmsg_type: u16_at(b, i + 4, order),
        nlmsg_flags: u16_at(b, i + 6, order),
        nlmsg_seq: u32_at(b, i + 8, order),
        nlmsg_pid: u32_at(b, i + 12, order),
    }
}

/// `struct nlmsgerr`: the errno and the header of the failed request.
#[derive(Debug, Clone, Copy, PartialEq, Eq, Structural)]
pub struct NlMsgErr {
    pub error: i32,
    pub msg: NlMsgHdr,
}

/// `struct ifaddrmsg`.
#[derive(Debug, Clone, Copy, PartialEq, Eq, Structural)]
pub struct IfAddrMsg {
    pub ifa_family: u8,
    pub ifa_prefixlen: u8,
    pub ifa_flags: u8,
    pub ifa_scope: u8,
    pub ifa_index: u32,
}

/// `struct ifa_cacheinfo`.
#[derive(Debug, Clone, Copy, PartialEq, Eq, Structural)]
pub struct IfaCacheInfo {
    pub ifa_prefered: u32,
    pub ifa_valid: u32,
    pub cstamp: u32,
    pub tstamp: u32,
}

/// `struct rtmsg`.
#[derive(Debug, Clone, Copy, PartialEq, Eq, Structural)]
pub struct RtMsg {
    pub rtm_family: u8,
    pub rtm_dst_len: u8,
    pub rtm_src_len: u8,
    pub rtm_tos: u8,
    pub rtm_table: u8,
    pub rtm_protocol: u8,
    pub rtm_scope: u8,
    pub rtm_type: u8,
    pub rtm_flags: u32,
}

/// `struct rtattr`.
#[derive(Debug, Clone, Copy, PartialEq, Eq, Structural)]
pub struct RtAttr {
    pub rta_len: u16,
    pub rta_type: u16,
}

pub fn read_nlmsg_header(data: &[u8], order: ByteOrder) -> (r: Result<NlMsgHdr, NetlinkError>)
    ensures
        r == (if data@.len() >= NLMSG_HEADER_LEN {
            Ok(header_at(data@, 0, order))
        } else {
            Err(NetlinkError::Short(ShortKind::Header))
        }),
{
    if data.len() < NLMSG_HEADER_LEN {
        return Err(NetlinkError::Short(ShortKind::Header));
    }
    Ok(header_at_exec(data, 0, order))
}

fn header_at_exec(data: &[u8], i: usize, order: ByteOrder) -> (r: NlMsgHdr)
    requires
        i + NLMSG_HEADER_LEN <= data@.len(),
    ensures
        r == header_at(data@, i as int, order),
{
    let _n = data.len();
    NlMsgHdr {
        nlmsg_len: read_u32_at(data, i, order),
        nlmsg_type: read_u16_at(data, i + 4, order),
        nlmsg_flags: read_u16_at(data, i + 6, order),
        nlmsg_seq: read_u32_at(data, i + 8, order),
        nlmsg_pid: read_u32_at(data, i + 12, order),
    }
}

pub fn read_nlmsg_error(data: &[u8], order: ByteOrder) -> (r: Result<NlMsgErr, NetlinkError>)
    ensures
        r == (if data@.len() >= NLMSG_ERROR_LEN {
            Ok(NlMsgErr { error: i32_at(data@, 0, order), msg: header_at(data@, 4, order) })
        } else {
            Err(NetlinkError::Short(ShortKind::Error))
        }),
{
    if data.len() < NLMSG_ERROR_LEN {
        return Err(NetlinkError::Short(ShortKind::Error));
    }
    Ok(NlMsgErr { error: read_i32_at(data, 0, order), msg: header_at_exec(data, 4, order) })
}

pub fn read_ifaddr_msg(data: &[u8], order: ByteOrder) -> (r: Result<IfAddrMsg, NetlinkError>)
    ensures
        r == (if data@.len() >= IFADDR_MSG_LEN {
            Ok(
                IfAddrMsg {
                    ifa_family: data@[0],
                    ifa_prefixlen: data@[1],
                    ifa_flags: data@[2],
                    ifa_scope: data@[3],
                    ifa_index: u32_at(data@, 4, order),
                },
            )
        } else {
            Err(NetlinkError::Short(ShortKind::IfAddrMsg))
        }),
{
    if data.len() < IFADDR_MSG_LEN {
        return Err(NetlinkError::Short(ShortKind::IfAddrMsg));
    }
    Ok(
        IfAddrMsg {
            ifa_family: data[0],
            ifa_prefixlen: data[1],
            ifa_flags: data[2],
            ifa_scope: data[3],
            ifa_index: read_u32_at(data, 4, order),
        },
    )
}

pub fn read_ifa_cache_info(data: &[u8], order: ByteOrder) -> (r: Result<IfaCacheInfo, NetlinkError>)
    ensures
        r == (if data@.len() >= IFA_CACHE_INFO_LEN {
            Ok(
                IfaCacheInfo {
                    ifa_prefered: u32_at(data@, 0, order),
                    ifa_valid: u32_at(data@, 4, order),
                    cstamp: u32_at(data@, 8, order),
                    tstamp: u32_at(data@, 12, order),
                },
            )
        } else {
            Err(NetlinkError::Short(ShortKind::CacheInfo))
        }),
{
    if data.len() < IFA_CACHE_INFO_LEN {
        return Err(NetlinkError::Short(ShortKind::CacheInfo));
    }
    Ok(
        IfaCacheInfo {
            ifa_prefered: read_u32_at(data, 0, order),
            ifa_valid: read_u32_at(data, 4, order),
            cstamp: read_u32_at(data, 8, order),
            tstamp: read_u32_at(data, 12, order),
        },
    )
}

pub fn read_rt_msg(data: &[u8], order: ByteOrder) -> (r: Result<RtMsg, NetlinkError>)
    ensures
        r == (if data@.len() >= RT_MSG_LEN {
            Ok(
                RtMsg {
                    rtm_family: data@[0],
                    rtm_dst_len: data@[1],
                    rtm_src_len: data@[2],
                    rtm_tos: data@[3],
                    rtm_table: data@[4],
                    rtm_protocol: data@[5],
                    rtm_scope: data@[6],
                    rtm_type: data@[7],
                    rtm_flags: u32_at(data@, 8, order),
                },
            )
        } else {
            Err(NetlinkError::Short(ShortKind::RtMsg))
        }),
{
    if data.len() < RT_MSG_LEN {
        return Err(NetlinkError::Short(ShortKind::RtMsg));
    }
    Ok(
        RtMsg {
            rtm_family: data[0],
            rtm_dst_len: data[1],
            rtm_src_len: data[2],
            rtm_tos: data[3],
            rtm_table: data[4],
            rtm_protocol: data[5],
            rtm_scope: data[6],
            rtm_type: data[7],
            rtm_flags: read_u32_at(data, 8, order),
        },
    )
}

pub fn read_rt_attr(data: &[u8], order: ByteOrder) -> (r: Result<RtAttr, NetlinkError>)
    ensures
        r == (if data@.len() >= RT_ATTR_LEN {
            Ok(RtAttr { rta_len: u16_at(data@, 0, order), rta_type: u16_at(data@, 2, order) })
        } else {
            Err(NetlinkError::Short(ShortKind::RtAttr))
        }),
{
    if data.len() < RT_ATTR_LEN {
        return Err(NetlinkError::Short(ShortKind::RtAttr));
    }
    Ok(RtAttr { rta_len: read_u16_at(data, 0, order), rta_type: read_u16_at(data, 2, order) })
}

/// One netlink message: its type and the bytes after its header.
#[derive(Debug)]
pub struct NetlinkMessage {
    pub kind: u16,
    pub payload: Vec<u8>,
}

impl View for NetlinkMessage {
    type V = (u16, Seq<u8>);

    open spec fn view(&self) -> (u16, Seq<u8>) {
        (self.kind, self.payload@)
    }
}

/// The messages of a dump up to its end, and the error that stopped reading, if any.
#[derive(Debug)]
pub struct ParsedDump {
    pub messages: Vec<NetlinkMessage>,
    pub error: Option<NetlinkError>,
}

pub open spec fn message_views(s: Seq<NetlinkMessage>) -> Seq<(u16, Seq<u8>)> {
    s.map_values(|m: NetlinkMessage| m@)
}

/// `-error`, wrapping like the kernel-facing conversion in release builds.
pub open spec fn errno_of(error: i32) -> i32 {
    if error == i32::MIN {
        i32::MIN
    } else {
        (-error) as i32
    }
}

/// Reading a dump from byte `off`: messages in order until `NLMSG_DONE`, a
/// zero `NLMSG_ERROR`, or the end; a bad length or a non-zero error stops it.
pub open spec fn dump_from(buf: Seq<u8>, order: ByteOrder, off: int) -> (Seq<(u16, Seq<u8>)>, Option<NetlinkError>)
    decreases buf.len() + 3 - off,
{
    if off < 0 || off + NLMSG_HEADER_LEN > buf.len() {
        (seq![], None)
    } else {
        let h = header_at(buf, off, order);
        if h.nlmsg_len < NLMSG_HEADER_LEN {
            (seq![], Some(NetlinkError::InvalidMessageLength))
        } else if off + h.nlmsg_len > buf.len() {
            (seq![], Some(NetlinkError::TruncatedMessage))
        } else {
            let payload = buf.subrange(off + NLMSG_HEADER_LEN, off + h.nlmsg_len);
            if h.nlmsg_type == NLMSG_DONE_BITS {
                (seq![], None)
            } else if h.nlmsg_type == NLMSG_ERROR_BITS {
                if payload.len() < NLMSG_ERROR_LEN {
                    (seq![], Some(NetlinkError::ShortErrorPayload))
                } else if i32_at(payload, 0, order) == 0 {
                    (seq![], None)
                } else {
                    (seq![], Some(NetlinkError::Os(errno_of(i32_at(payload, 0, order)))))
                }
            } else {
                let rest = dump_from(buf, order, off + align4(h.nlmsg_len as int));
                (seq![(h.nlmsg_type, payload)] + rest.0, rest.1)
            }
        }
    }
}

fn copy_range(b: &[u8], start: usize, end: usize) -> (r: Vec<u8>)
    requires
        start <= end <= b@.len(),
    ensures
        r@ == b@.subrange(start as int, end as int),
{
    let mut r = Vec::new();
    let mut i = start;
    while i < end
        invariant
            start <= i <= end <= b@.len(),
            r@ == b@.subrange(start as int, i as int),
        decreases end - i,
    {
        r.push(b[i]);
        assert(b@.subrange(start as int, i + 1) =~= b@.subrange(start as int, i as int).push(b@[i as int]));
        i = i + 1;
    }
    r
}

/// Splits a netlink dump into its messages.
pub fn parse_netlink_messages(buffer: &[u8], order: ByteOrder) -> (r: ParsedDump)
    ensures
        (message_views(r.messages@), r.error) == dump_from(buffer@, order, 0),
{
    let n = buffer.len();
    let mut messages: Vec<NetlinkMessage> = Vec::new();
    let mut offset: usize = 0;
    let ghost whole = dump_from(buffer@, order, 0);
    while offset <= n && n - offset >= NLMSG_HEADER_LEN
        invariant
            n == buffer@.len(),
            offset <= n + 3,
            whole == dump_from(buffer@, order, 0),
            whole.1 == dump_from(buffer@, order, offset as int).1,
            whole.0 == message_views(messages@) + dump_from(buffer@, order, offset as int).0,
        decreases n + 3 - offset,
    {
        let header = header_at_exec(buffer, offset, order);
        if header.nlmsg_len < NLMSG_HEADER_LEN as u32 {
            return ParsedDump { messages, error: Some(NetlinkError::InvalidMessageLength) };
        }
        let len = header.nlmsg_len as usize;
        if len > n - offset {
            return ParsedDump { messages, error: Some(NetlinkError::TruncatedMessage) };
        }
        let end = offset + len;
        if header.nlmsg_type == NLMSG_DONE_BITS {
            return ParsedDump { messages, error: None };
        }
        let payload = copy_range(buffer, offset + NLMSG_HEADER_LEN, end);
        if header.nlmsg_type == NLMSG_ERROR_BITS {
            if payload.len() < NLMSG_ERROR_LEN {
                return ParsedDump { messages, error: Some(NetlinkError::ShortErrorPayload) };
            }
            let error = read_i32_at(payload.as_slice(), 0, order);
            if error == 0 {
                return ParsedDump { messages, error: None };
            }
            let errno = if error == i32::MIN { i32::MIN } else { -error };
            return ParsedDump { messages, error: Some(NetlinkError::Os(errno)) };
        }
        let ghost before = messages@;
        let m = NetlinkMessage { kind: header.nlmsg_type, payload };
        messages.push(m);
        assert(message_views(messages@) =~= message_views(before).push((header.nlmsg_type, payload@)));
        let pad = align_pad(len);
        if pad > n - end {
            assert(dump_from(buffer@, order, end + pad as int).0 == Seq::<(u16, Seq<u8>)>::empty());
            assert(whole.0 =~= message_views(messages@) + dump_from(buffer@, order, end + pad as int).0);
            return ParsedDump { messages, error: None };
        }
        let next = end + pad;
        assert(whole.0 =~= message_views(messages@) + dump_from(buffer@, order, next as int).0);
        offset = next;
    }
    ParsedDump { messages, error: None }
}

/// Whether a received chunk already holds the `NLMSG_DONE` marker.
pub open spec fn done_from(buf: Seq<u8>, order: ByteOrder, off: int) -> Result<bool, NetlinkError>
    decreases buf.len() + 3 - off,
{
    if off < 0 || off + NLMSG_HEADER_LEN > buf.len() {
        Ok(false)
    } else {
        let h = header_at(buf, off, order);
        if h.nlmsg_len < NLMSG_HEADER_LEN {
            Err(NetlinkError::InvalidMessageLength)
        } else if h.nlmsg_type == NLMSG_DONE_BITS {
            Ok(true)
        } else if off + align4(h.nlmsg_len as int) > buf.len() {
            Ok(false)
        } else {
            done_from(buf, order, off + align4(h.nlmsg_len as int))
        }
    }
}

pub fn netlink_buffer_is_done(buffer: &[u8], order: ByteOrder) -> (r: Result<bool, NetlinkError>)
    ensures
        r == done_from(buffer@, order, 0),
{
    let n = buffer.len();
    let mut offset: usize = 0;
    while offset <= n && n - offset >= NLMSG_HEADER_LEN
        invariant
            n == buffer@.len(),
            offset <= n,
            done_from(buffer@, order, 0) == done_from(buffer@, order, offset as int),
        decreases n - offset,
    {
        let header = header_at_exec(buffer, offset, order);
        if header.nlmsg_len < NLMSG_HEADER_LEN as u32 {
            return Err(NetlinkError::InvalidMessageLength);
        }
        if header.nlmsg_type == NLMSG_DONE_BITS {
            return Ok(true);
        }
        let len = header.nlmsg_len as usize;
        let pad = align_pad(len);
        if len > n - offset || pad > n - offset - len {
            return Ok(false);
        }
        offset = offset + len + pad;
    }
    Ok(false)
}

/// One route attribute: its type and data.
#[derive(Debug)]
pub struct RtAttribute {
    pub kind: u16,
    pub data: Vec<u8>,
}

impl View for RtAttribute {
    type V = (u16, Seq<u8>);

    open spec fn view(&self) -> (u16, Seq<u8>) {
        (self.kind, self.data@)
    }
}

pub open spec fn attribute_views(s: Seq<RtAttribute>) -> Seq<(u16, Seq<u8>)> {
    s.map_values(|a: RtAttribute| a@)
}

/// Reading the attributes of a message body from byte `off`.
pub open spec fn attrs_from(p: Seq<u8>, order: ByteOrder, off: int) -> Result<Seq<(u16, Seq<u8>)>, NetlinkError>
    decreases p.len() + 3 - off,
{
    if off < 0 || off + RT_ATTR_LEN > p.len() {
        Ok(seq![])
    } else {
        let len = u16_at(p, off, order) as int;
        let kind = u16_at(p, off + 2, order);
        if len < RT_ATTR_LEN || off + len > p.len() {
            Err(NetlinkError::InvalidAttributeLength)
        } else {
            match attrs_from(p, order, off + align4(len)) {
                Ok(rest) => Ok(seq![(kind, p.subrange(off + RT_ATTR_LEN, off + len))] + rest),
                Err(e) => Err(e),
            }
        }
    }
}

/// Splits a message body into its route attributes.
pub fn parse_rtattrs(payload: &[u8], order: ByteOrder) -> (r: Result<Vec<RtAttribute>, NetlinkError>)
    ensures
        match r {
            Ok(v) => attrs_from(payload@, order, 0) == Ok::<Seq<(u16, Seq<u8>)>, NetlinkError>(attribute_views(v@)),
            Err(e) => attrs_from(payload@, order, 0) == Err::<Seq<(u16, Seq<u8>)>, NetlinkError>(e),
        },
{
    let n = payload.len();
    let mut attrs: Vec<RtAttribute> = Vec::new();
    let mut offset: usize = 0;
    while offset <= n && n - offset >= RT_ATTR_LEN
        invariant
            n == payload@.len(),
            offset <= n + 3,
            match attrs_from(payload@, order, 0) {
                Ok(all) => attrs_from(payload@, order, offset as int) matches Ok(rest) && all == attribute_views(attrs@) + rest,
                Err(e) => attrs_from(payload@, order, offset as int) == Err::<Seq<(u16, Seq<u8>)>, NetlinkError>(e),
            },
        decreases n + 3 - offset,
    {
        let len = read_u16_at(payload, offset, order) as usize;
        let kind = read_u16_at(payload, offset + 2, order);
        if len < RT_ATTR_LEN || len > n - offset {
            return Err(NetlinkError::InvalidAttributeLength);
        }
        let data = copy_range(payload, offset + RT_ATTR_LEN, offset + len);
        let ghost before = attrs@;
        attrs.push(RtAttribute { kind, data });
        assert(attribute_views(attrs@) =~= attribute_views(before).push((kind, data@)));
        let end = offset + len;
        let pad = align_pad(len);
        if pad > n - end {
            assert(attrs_from(payload@, order, end + pad as int) == Ok::<Seq<(u16, Seq<u8>)>, NetlinkError>(seq![]));
            proof {
                let a = attribute_views(before);
                let item = seq![(kind, data@)];
                assert(a + (item + seq![]) =~= a.push((kind, data@)) + seq![]);
            }
            return Ok(attrs);
        }
        let next = end + pad;
        proof {
            let a = attribute_views(before);
            let item = seq![(kind, data@)];
            match attrs_from(payload@, order, next as int) {
                Ok(rest) => {
                    assert(a + (item + rest) =~= a.push((kind, data@)) + rest);
                },
                Err(_) => {},
            }
        }
        offset = next;
    }
    assert(attribute_views(attrs@) + seq![] =~= attribute_views(attrs@));
    Ok(attrs)
}

/// An address is dynamic unless it is permanent with no finite lifetime.
pub open spec fn dynamic_spec(flags: u32, preferred: Option<u32>, valid: Option<u32>) -> bool {
    ||| flags & IFA_F_PERMANENT_BITS == 0
    ||| (preferred matches Some(l) && l != INFINITE_LIFETIME)
    ||| (valid matches Some(l) && l != INFINITE_LIFETIME)
}

pub fn address_is_dynamic(flags: u32, preferred_lifetime: Option<u32>, valid_lifetime: Option<u32>) -> (r: bool)
    ensures
        r == dynamic_spec(flags, preferred_lifetime, valid_lifetime),
{
    (flags & IFA_F_PERMANENT_BITS) == 0 || (match preferred_lifetime {
        Some(l) => l != INFINITE_LIFETIME,
        None => false,
    }) || (match valid_lifetime {
        Some(l) => l != INFINITE_LIFETIME,
        None => false,
    })
}

/// An IPv4 route with an empty destination prefix of unicast (or unspecified) type.
pub open spec fn default_ipv4_spec(family: u8, dst_len: u8, route_type: u8) -> bool {
    family == AF_INET_BITS && dst_len == 0 && (route_type == RTN_UNSPEC_BITS || route_type == RTN_UNICAST_BITS)
}

pub fn route_is_default_ipv4(family: u8, dst_len: u8, route_type: u8) -> (r: bool)
    ensures
        r == default_ipv4_spec(family, dst_len, route_type),
{
    family == AF_INET_BITS && dst_len == 0 && (route_type == RTN_UNSPEC_BITS || route_type
        == RTN_UNICAST_BITS)
}

/// Carrier is present when the interface is running.
pub fn interface_is_lower_up(flags: u32) -> (r: bool)
    ensures
        r == (flags & IFF_RUNNING_BITS != 0),
{
    flags & IFF_RUNNING_BITS != 0
}

/// A default IPv4 route in the main table; the `RTA_TABLE` attribute, when
/// present, overrides the 8-bit table field.
pub open spec fn main_default_spec(family: u8, dst_len: u8, route_type: u8, rtm_table: u8, rta_table: Option<u32>) -> bool {
    default_ipv4_spec(family, dst_len, route_type) && match rta_table {
        Some(t) => t == RT_TABLE_MAIN_BITS,
        None => rtm_table as u32 == RT_TABLE_MAIN_BITS,
    }
}

pub fn route_is_main_default_ipv4(
    family: u8,
    dst_len: u8,
    route_type: u8,
    rtm_table: u8,
    rta_table: Option<u32>,
) -> (r: bool)
    ensures
        r == main_default_spec(family, dst_len, route_type, rtm_table, rta_table),
{
    let table = match rta_table {
        Some(t) => t,
        None => rtm_table as u32,
    };
    route_is_default_ipv4(family, dst_len, route_type) && table == RT_TABLE_MAIN_BITS
}

/// The IPv4 address carried by an attribute, when it has four bytes.
pub open spec fn ipv4_of(data: Seq<u8>) -> Option<Ipv4Addr> {
    if data.len() >= 4 {
        Some(Ipv4Addr(data[0], data[1], data[2], data[3]))
    } else {
        None
    }
}

fn bytes_to_ipv4(data: &Vec<u8>) -> (r: Option<Ipv4Addr>)
    ensures
        r == ipv4_of(data@),
{
    if data.len() < 4 {
        return None;
    }
    Some(Ipv4Addr(data[0], data[1], data[2], data[3]))
}

/// What the attributes of an address message say so far.
#[derive(Debug, Clone, Copy, PartialEq, Eq, Structural)]
pub struct AddressAttrs {
    pub address: Option<Ipv4Addr>,
    pub flags: Option<u32>,
    pub preferred_lifetime: Option<u32>,
    pub valid_lifetime: Option<u32>,
}

pub open spec fn u32_opt(data: Seq<u8>, order: ByteOrder) -> Option<u32> {
    if data.len() >= 4 {
        Some(u32_at(data, 0, order))
    } else {
        None
    }
}

/// One attribute's effect: the first local/peer address wins, the last
/// flags attribute wins, and a full cache-info attribute sets both lifetimes.
pub open spec fn address_attr_step(acc: AddressAttrs, attr: (u16, Seq<u8>), order: ByteOrder) -> AddressAttrs {
    let (kind, data) = attr;
    if kind == IFA_LOCAL_BITS || kind == IFA_ADDRESS_BITS {
        if acc.address is None {
            AddressAttrs { address: ipv4_of(data), ..acc }
        } else {
            acc
        }
    } else if kind == IFA_FLAGS_BITS {
        AddressAttrs { flags: u32_opt(data, order), ..acc }
    } else if kind == IFA_CACHEINFO_BITS && data.len() >= IFA_CACHE_INFO_LEN {
        AddressAttrs {
            preferred_lifetime: Some(u32_at(data, 0, order)),
            valid_lifetime: Some(u32_at(data, 4, order)),
            ..acc
        }
    } else {
        acc
    }
}

pub open spec fn address_attrs_fold(attrs: Seq<(u16, Seq<u8>)>, order: ByteOrder) -> AddressAttrs
    decreases attrs.len(),
{
    if attrs.len() == 0 {
        AddressAttrs { address: None, flags: None, preferred_lifetime: None, valid_lifetime: None }
    } else {
        address_attr_step(address_attrs_fold(attrs.drop_last(), order), attrs.last(), order)
    }
}

/// An IPv4 address reported by the kernel, by interface index.
#[derive(Debug, Clone, Copy, PartialEq, Eq, Structural)]
pub struct AddressRecord {
    pub index: u32,
    pub address: Ipv4Addr,
    pub is_dynamic: bool,
}

/// What an `RTM_NEWADDR` message says about an IPv4 address.
pub open spec fn address_message_spec(kind: u16, payload: Seq<u8>, order: ByteOrder) -> Result<Option<AddressRecord>, NetlinkError> {
    if kind != RTM_NEWADDR_BITS {
        Ok(None)
    } else if payload.len() < IFADDR_MSG_LEN {
        Err(NetlinkError::Short(ShortKind::IfAddrMsg))
    } else if payload[0] != AF_INET_BITS {
        Ok(None)
    } else {
        match attrs_from(payload.subrange(IFADDR_MSG_LEN as int, payload.len() as int), order, 0) {
            Err(e) => Err(e),
            Ok(attrs) => {
                let acc = address_attrs_fold(attrs, order);
                match acc.address {
                    None => Ok(None),
                    Some(address) => {
                        let flags = match acc.flags {
                            Some(f) => f,
                            None => payload[2] as u32,
                        };
                        Ok(
                            Some(
                                AddressRecord {
                                    index: u32_at(payload, 4, order),
                                    address,
                                    is_dynamic: dynamic_spec(flags, acc.preferred_lifetime, acc.valid_lifetime),
                                },
                            ),
                        )
                    },
                }
            },
        }
    }
}

fn address_attrs_of(attrs: &Vec<RtAttribute>, order: ByteOrder) -> (r: AddressAttrs)
    ensures
        r == address_attrs_fold(attribute_views(attrs@), order),
{
    let ghost all = attribute_views(attrs@);
    let mut acc = AddressAttrs { address: None, flags: None, preferred_lifetime: None, valid_lifetime: None };
    let mut i: usize = 0;
    while i < attrs.len()
        invariant
            all == attribute_views(attrs@),
            i <= attrs@.len(),
            acc == address_attrs_fold(all.take(i as int), order),
        decreases attrs@.len() - i,
    {
        let a = &attrs[i];
        assert(all.take(i + 1).drop_last() =~= all.take(i as int));
        assert(all.take(i + 1).last() == a@);
        if a.kind == IFA_LOCAL_BITS || a.kind == IFA_ADDRESS_BITS {
            if acc.address.is_none() {
                acc.address = bytes_to_ipv4(&a.data);
            }
        } else if a.kind == IFA_FLAGS_BITS {
            acc.flags = read_u32(a.data.as_slice(), order);
        } else if a.kind == IFA_CACHEINFO_BITS {
            if a.data.len() >= IFA_CACHE_INFO_LEN {
                let cache = read_ifa_cache_info(a.data.as_slice(), order);
                if let Ok(cache) = cache {
                    acc.preferred_lifetime = Some(cache.ifa_prefered);
                    acc.valid_lifetime = Some(cache.ifa_valid);
                }
            }
        }
        i = i + 1;
    }
    assert(all.take(attrs@.len() as int) =~= all);
    acc
}

/// Reads an address message of a `RTM_GETADDR` dump.
pub fn parse_address_message(kind: u16, payload: &[u8], order: ByteOrder) -> (r: Result<Option<AddressRecord>, NetlinkError>)
    ensures
        r == address_message_spec(kind, payload@, order),
{
    if kind != RTM_NEWADDR_BITS {
        return Ok(None);
    }
    let message = read_ifaddr_msg(payload, order)?;
    if message.ifa_family != AF_INET_BITS {
        return Ok(None);
    }
    let body = copy_range(payload, IFADDR_MSG_LEN, payload.len());
    let attrs = parse_rtattrs(body.as_slice(), order)?;
    let acc = address_attrs_of(&attrs, order);
    match acc.address {
        None => Ok(None),
        Some(address) => {
            let flags = match acc.flags {
                Some(f) => f,
                None => message.ifa_flags as u32,
            };
            Ok(
                Some(
                    AddressRecord {
                        index: message.ifa_index,
                        address,
                        is_dynamic: address_is_dynamic(flags, acc.preferred_lifetime, acc.valid_lifetime),
                    },
                ),
            )
        },
    }
}

/// The output interface and table attributes of a route message: the last of each wins.
pub open spec fn route_attrs_fold(attrs: Seq<(u16, Seq<u8>)>, order: ByteOrder) -> (Option<u32>, Option<u32>)
    decreases attrs.len(),
{
    if attrs.len() == 0 {
        (None, None)
    } else {
        let acc = route_attrs_fold(attrs.drop_last(), order);
        let (kind, data) = attrs.last();
        if kind == RTA_OIF_BITS {
            (u32_opt(data, order), acc.1)
        } else if kind == RTA_TABLE_BITS {
            (acc.0, u32_opt(data, order))
        } else {
            acc
        }
    }
}

/// What an `RTM_NEWROUTE` message says: the interface index of a main-table
/// IPv4 default route.
pub open spec fn route_message_spec(kind: u16, payload: Seq<u8>, order: ByteOrder) -> Result<Option<u32>, NetlinkError> {
    if kind != RTM_NEWROUTE_BITS {
        Ok(None)
    } else if payload.len() < RT_MSG_LEN {
        Err(NetlinkError::Short(ShortKind::RtMsg))
    } else {
        match attrs_from(payload.subrange(RT_MSG_LEN as int, payload.len() as int), order, 0) {
            Err(e) => Err(e),
            Ok(attrs) => {
                let (oif, table) = route_attrs_fold(attrs, order);
                if !main_default_spec(payload[0], payload[1], payload[7], payload[4], table) {
                    Ok(None)
                } else {
                    Ok(oif)
                }
            },
        }
    }
}

/// Reads a route message of a `RTM_GETROUTE` dump.
pub fn parse_route_message(kind: u16, payload: &[u8], order: ByteOrder) -> (r: Result<Option<u32>, NetlinkError>)
    ensures
        r == route_message_spec(kind, payload@, order),
{
    if kind != RTM_NEWROUTE_BITS {
        return Ok(None);
    }
    let message = read_rt_msg(payload, order)?;
    let body = copy_range(payload, RT_MSG_LEN, payload.len());
    let attrs = parse_rtattrs(body.as_slice(), order)?;
    let ghost all = attribute_views(attrs@);
    let mut interface_index: Option<u32> = None;
    let mut route_table: Option<u32> = None;
    let mut i: usize = 0;
    while i < attrs.len()
        invariant
            all == attribute_views(attrs@),
            i <= attrs@.len(),
            (interface_index, route_table) == route_attrs_fold(all.take(i as int), order),
        decreases attrs@.len() - i,
    {
        let a = &attrs[i];
        assert(all.take(i + 1).drop_last() =~= all.take(i as int));
        assert(all.take(i + 1).last() == a@);
        if a.kind == RTA_OIF_BITS {
            interface_index = read_u32(a.data.as_slice(), order);
        } else if a.kind == RTA_TABLE_BITS {
            route_table = read_u32(a.data.as_slice(), order);
        }
        i = i + 1;
    }
    assert(all.take(attrs@.len() as int) =~= all);
    if !route_is_main_default_ipv4(
        message.rtm_family,
        message.rtm_dst_len,
        message.rtm_type,
        message.rtm_table,
        route_table,
    ) {
        return Ok(None);
    }
    Ok(interface_index)
}

} // verus!
