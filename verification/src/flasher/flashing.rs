//! Writing images into the screen's flash page by page, with retries and
//! progress reports, and writing pixels straight into an LCD window.

use vstd::prelude::*;

use crate::flasher::assets::{
    asset_error_text, end_page_defined, size_ok, validate_asset, AssetError, FlashAsset, PAGE_BYTES,
};
use crate::flasher::device::PortIo;
use crate::flasher::errors::{AppError, AppResult, ErrorView};
use crate::flasher::protocol::{
    contains_sequence, erase_command, erase_flash_pages_packet, page_write_command, expected_write_reply, lcd_data_footer, load_lcd_address_packet, photo_command,
    set_size_packet, set_xy_packet, show_photo_packet, size_command, write_flash_page_packet, write_lcd_data_packet,
    xy_command,
};
use crate::flasher::screen_status::{ScreenStatus, StatusScreens};
use crate::frame::{contains_seq, data_frame};
use crate::seqs::index_of;
use crate::hex::{hex_list, push_hex_list};
use crate::host::decimal::{dec_u64, u64_to_string};
use crate::text::{push_str, string_of};

verus! {

#[derive(Debug, Clone, Copy, PartialEq, Eq, Structural)]
pub enum FlashPhase {
    Erase,
    Write,
    Preview,
    Done,
}

/// One progress report of a flash job.
#[derive(Debug, Clone, PartialEq, Eq)]
pub struct FlashProgress {
    pub phase: FlashPhase,
    pub current_page: u32,
    pub total_pages: u32,
    pub percent: u8,
    pub display_message: String,
}

/// How often a command is sent before giving up.
#[derive(Debug, Clone, Copy)]
pub struct RetryPolicy {
    pub attempts: usize,
}

impl Default for RetryPolicy {
    fn default() -> (r: Self)
        ensures
            r.attempts == 3,
    {
        RetryPolicy { attempts: 3 }
    }
}

/// The pages shown one after another to preview a fresh layout; page 0, the
/// offline screen, comes last so that it stays on.
pub const PREVIEW_PAGES: [u16; 4] = [0, 300, 500, 0];

/// Sum of the page counts of a list of assets.
pub open spec fn total_pages_spec(images: Seq<FlashAsset>) -> nat
    decreases images.len(),
{
    if images.len() == 0 {
        0
    } else {
        total_pages_spec(images.drop_last()) + images.last().page_count as nat
    }
}

/// The first asset of wrong size, as an asset error.
pub open spec fn first_size_error(images: Seq<FlashAsset>) -> Option<AssetError>
    decreases images.len(),
{
    if images.len() == 0 {
        None
    } else if !size_ok(images[0]) {
        Some(
            AssetError::WrongSize {
                label: images[0].label,
                actual: images[0].bytes@.len() as usize,
                expected: (images[0].page_count * PAGE_BYTES) as usize,
            },
        )
    } else {
        first_size_error(images.drop_first())
    }
}

/// The progress of a flash job while it writes pages.
pub open spec fn write_progress_text(percent: nat) -> Seq<char> {
    "写入中 "@ + dec_u64(percent) + "%"@
}

fn write_progress(completed: u32, total: u32) -> (r: FlashProgress)
    requires
        1 <= completed <= total,
        total * 100 <= u32::MAX,
    ensures
        r.phase == FlashPhase::Write,
        r.current_page == completed,
        r.total_pages == total,
        r.percent == (completed * 100) / (total as int),
        r.display_message@ == write_progress_text(((completed * 100) / (total as int)) as nat),
{
    assert(completed * 100 <= total * 100) by (nonlinear_arith)
        requires
            completed <= total,
    ;
    let percent = (completed * 100) / total;
    assert(percent <= 100) by (nonlinear_arith)
        requires
            completed <= total,
            1 <= total,
            percent == (completed * 100) / (total as int),
    ;
    let mut message = string_of("写入中 ");
    push_str(&mut message, u64_to_string(percent as u64).as_str());
    push_str(&mut message, "%");
    FlashProgress {
        phase: FlashPhase::Write,
        current_page: completed,
        total_pages: total,
        percent: percent as u8,
        display_message: message,
    }
}

fn done_progress(total: u32) -> (r: FlashProgress)
    ensures
        r.phase == FlashPhase::Done,
        r.current_page == total,
        r.total_pages == total,
        r.percent == 100,
        r.display_message@ == "写入完成"@,
{
    FlashProgress {
        phase: FlashPhase::Done,
        current_page: total,
        total_pages: total,
        percent: 100,
        display_message: string_of("写入完成"),
    }
}

fn total_pages(images: &[FlashAsset<'_>]) -> (r: u32)
    requires
        total_pages_spec(images@) <= u32::MAX,
    ensures
        r == total_pages_spec(images@),
{
    let mut sum: u32 = 0;
    let mut i: usize = 0;
    while i < images.len()
        invariant
            i <= images@.len(),
            sum == total_pages_spec(images@.subrange(0, i as int)),
            total_pages_spec(images@) <= u32::MAX,
        decreases images@.len() - i,
    {
        assert(images@.subrange(0, i + 1).drop_last() =~= images@.subrange(0, i as int));
        proof {
            lemma_total_prefix_bounded(images@, i + 1);
        }
        sum = sum + images[i].page_count as u32;
        i = i + 1;
    }
    assert(images@.subrange(0, images@.len() as int) =~= images@);
    sum
}

proof fn lemma_total_prefix_bounded(images: Seq<FlashAsset>, n: int)
    requires
        0 <= n <= images.len(),
    ensures
        total_pages_spec(images.subrange(0, n)) <= total_pages_spec(images),
    decreases images.len() - n,
{
    if n < images.len() {
        lemma_total_prefix_bounded(images, n + 1);
        assert(images.subrange(0, n + 1).drop_last() =~= images.subrange(0, n));
    } else {
        assert(images.subrange(0, n) =~= images);
    }
}

/// The 256 bytes of page `index` of an asset.
fn page_bytes(bytes: &[u8], index: u16) -> (r: [u8; 256])
    requires
        (index + 1) * PAGE_BYTES <= bytes@.len(),
    ensures
        r@ == bytes@.subrange(index * PAGE_BYTES, (index + 1) * PAGE_BYTES),
{
    let offset = (index as usize) * PAGE_BYTES;
    let mut chunk = [0u8; 256];
    let mut k: usize = 0;
    while k < 256
        invariant
            offset == index * PAGE_BYTES,
            offset + 256 <= bytes@.len(),
            k <= 256,
            chunk@.len() == 256,
            forall|j: int| 0 <= j < k ==> chunk@[j] == bytes@[offset + j],
        decreases 256 - k,
    {
        chunk[k] = bytes[offset + k];
        k = k + 1;
    }
    assert(chunk@ =~= bytes@.subrange(index * PAGE_BYTES, (index + 1) * PAGE_BYTES));
    chunk
}

/// `erase pages a..b expected [..], got [..]`: the erased range, the command
/// and the reply, in hex.
pub open spec fn erase_failure_text(start_page: u16, page_count: u16, packet: Seq<u8>, reply: Seq<u8>) -> Seq<char> {
    "erase pages "@ + dec_u64(start_page as nat) + ".."@ + dec_u64((start_page + page_count - 1) as nat)
        + " expected "@ + hex_list(packet) + ", got "@ + hex_list(reply)
}

fn erase_failure_message(start_page: u16, page_count: u16, packet: &[u8], reply: &[u8]) -> (r: AppError)
    requires
        1 <= start_page + page_count <= u16::MAX,
    ensures
        r@ == ErrorView::Protocol(erase_failure_text(start_page, page_count, packet@, reply@)),
{
    let mut m = string_of("erase pages ");
    push_str(&mut m, u64_to_string(start_page as u64).as_str());
    push_str(&mut m, "..");
    push_str(&mut m, u64_to_string((start_page + page_count - 1) as u64).as_str());
    push_str(&mut m, " expected ");
    push_hex_list(&mut m, packet);
    push_str(&mut m, ", got ");
    push_hex_list(&mut m, reply);
    AppError::Protocol(m)
}

/// How a command that the screen has to confirm ended.
#[derive(Debug)]
pub enum Confirmation {
    /// A reply held the expected bytes.
    Confirmed,
    /// Every allowed attempt was answered without them; the last reply.
    Refused(Vec<u8>),
    /// A port call failed.
    Failed(AppError),
    /// No attempt was allowed.
    NotTried,
}

/// Sends `packet` until a reply holds `expect`, at most `retry.attempts`
/// times: each attempt writes the packet, then reads for `total_ms` (40 ms
/// idle). The attempts are chained over the port's states `s` (before each
/// attempt) and `m` (between its write and its read); every reply but the
/// last lacks `expect`.
pub fn send_confirmed<P: PortIo>(
    port: &mut P,
    packet: &[u8],
    expect: &[u8],
    total_ms: u64,
    retry: RetryPolicy,
) -> (r: Confirmation)
    ensures
        retry.attempts == 0 ==> r is NotTried && *final(port) == *old(port),
        retry.attempts >= 1 ==> exists|s: Seq<P>, m: Seq<P>, replies: Seq<Seq<u8>>|
            #![trigger s.len(), m.len(), replies.len()]
            {
                &&& s.len() == replies.len() + 1
                &&& m.len() == replies.len()
                &&& s[0] == *old(port)
                &&& replies.len() <= retry.attempts
                &&& forall|k: int|
                    #![trigger index_of(replies, k)]
                    index_of(replies, k) ==> exists|q: &mut P, b: &[u8], o: AppResult<()>|
                        #[trigger] call_ensures(P::write_all, (q, b), o) && *q == s[k] && *final(q) == m[k] && b@
                            == packet@ && o is Ok && exists|q2: &mut P, v: AppResult<Vec<u8>>|
                            #[trigger] call_ensures(P::read_idle, (q2, total_ms, 40u64), v) && *q2 == m[k] && *final(q2)
                                == s[k + 1] && (v matches Ok(rep) && rep@ == replies[k])
                &&& forall|k: int| 0 <= k < replies.len() - 1 ==> !contains_seq(#[trigger] replies[k], expect@)
                &&& match r {
                    Confirmation::Confirmed => replies.len() >= 1 && contains_seq(replies.last(), expect@)
                        && *final(port) == s.last(),
                    Confirmation::Refused(reply) => replies.len() == retry.attempts && !contains_seq(
                        replies.last(),
                        expect@,
                    ) && reply@ == replies.last() && *final(port) == s.last(),
                    Confirmation::Failed(e) => replies.len() < retry.attempts && (replies.len() == 0 || !contains_seq(
                        replies.last(),
                        expect@,
                    )) && exists|q: &mut P, b: &[u8], o: AppResult<()>|
                        #[trigger] call_ensures(P::write_all, (q, b), o) && *q == s.last() && b@ == packet@ && match o {
                            Err(e2) => e2 == e && *final(q) == *final(port),
                            Ok(_) => exists|q2: &mut P|
                                #[trigger] call_ensures(P::read_idle, (q2, total_ms, 40u64), Err::<Vec<u8>, AppError>(e))
                                    && *q2 == *final(q) && *final(q2) == *final(port),
                        },
                    Confirmation::NotTried => false,
                }
            },
{
    let ghost mut s: Seq<P> = seq![*port];
    let ghost mut m: Seq<P> = seq![];
    let ghost mut replies: Seq<Seq<u8>> = seq![];
    let mut attempt: usize = 1;
    while attempt <= retry.attempts
        invariant
            1 <= attempt,
            attempt <= retry.attempts + 1,
            retry.attempts >= 1 ==> attempt <= retry.attempts,
            replies.len() == attempt - 1,
            s.len() == replies.len() + 1,
            m.len() == replies.len(),
            s[0] == *old(port),
            s.last() == *port,
            forall|k: int|
                #![trigger index_of(replies, k)]
                index_of(replies, k) ==> exists|q: &mut P, b: &[u8], o: AppResult<()>|
                    #[trigger] call_ensures(P::write_all, (q, b), o) && *q == s[k] && *final(q) == m[k] && b@
                        == packet@ && o is Ok && exists|q2: &mut P, v: AppResult<Vec<u8>>|
                        #[trigger] call_ensures(P::read_idle, (q2, total_ms, 40u64), v) && *q2 == m[k] && *final(q2)
                            == s[k + 1] && (v matches Ok(rep) && rep@ == replies[k]),
            forall|k: int| 0 <= k < replies.len() ==> !contains_seq(#[trigger] replies[k], expect@),
        decreases retry.attempts + 1 - attempt,
    {
        let ghost before = *port;
        let w = port.write_all(packet);
        let ghost mid = *port;
        assert(exists|q: &mut P, b: &[u8], o: AppResult<()>|
            #[trigger] call_ensures(P::write_all, (q, b), o) && *q == before && *final(q) == mid && b@ == packet@ && o == w);
        if let Err(e) = w {
            assert(replies.len() == 0 || !contains_seq(replies.last(), expect@));
            assert(exists|q: &mut P, b: &[u8], o: AppResult<()>|
                #[trigger] call_ensures(P::write_all, (q, b), o) && *q == s.last() && b@ == packet@ && match o {
                    Err(e2) => e2 == e && *final(q) == *final(port),
                    Ok(_) => exists|q2: &mut P|
                        #[trigger] call_ensures(P::read_idle, (q2, total_ms, 40u64), Err::<Vec<u8>, AppError>(e))
                            && *q2 == *final(q) && *final(q2) == *final(port),
                });
            return Confirmation::Failed(e);
        }
        let v = port.read_idle(total_ms, 40);
        assert(exists|q2: &mut P, v2: AppResult<Vec<u8>>|
            #[trigger] call_ensures(P::read_idle, (q2, total_ms, 40u64), v2) && *q2 == mid && *final(q2) == *port && v2 == v);
        let reply = match v {
            Err(e) => {
                assert(replies.len() == 0 || !contains_seq(replies.last(), expect@));
                assert(exists|q2: &mut P|
                    #[trigger] call_ensures(P::read_idle, (q2, total_ms, 40u64), Err::<Vec<u8>, AppError>(e))
                        && *q2 == mid && *final(q2) == *port);
                return Confirmation::Failed(e);
            },
            Ok(reply) => reply,
        };
        proof {
            let s0 = s;
            let m0 = m;
            let r0 = replies;
            s = s.push(*port);
            m = m.push(mid);
            replies = replies.push(reply@);
            assert forall|k: int|
                #![trigger index_of(replies, k)]
                index_of(replies, k) implies exists|q: &mut P, b: &[u8], o: AppResult<()>|
                    #[trigger] call_ensures(P::write_all, (q, b), o) && *q == s[k] && *final(q) == m[k] && b@
                        == packet@ && o is Ok && exists|q2: &mut P, v: AppResult<Vec<u8>>|
                        #[trigger] call_ensures(P::read_idle, (q2, total_ms, 40u64), v) && *q2 == m[k] && *final(q2)
                            == s[k + 1] && (v matches Ok(rep) && rep@ == replies[k]) by {
                if k < r0.len() {
                    assert(index_of(r0, k));
                    assert(r0[k] == replies[k] && s0[k] == s[k] && s0[k + 1] == s[k + 1] && m0[k] == m[k]);
                } else {
                    assert(s[k] == before && m[k] == mid && s[k + 1] == *port && replies[k] == reply@);
                }
            }
        }
        if contains_sequence(reply.as_slice(), expect) {
            assert(s.len() == replies.len() + 1);
            assert(m.len() == replies.len());
            assert(s[0] == *old(port));
            assert(replies.len() <= retry.attempts);
            assert(forall|k: int| 0 <= k < replies.len() - 1 ==> !contains_seq(#[trigger] replies[k], expect@));
            assert(replies.len() >= 1 && contains_seq(replies.last(), expect@));
            assert(*port == s.last());
            return Confirmation::Confirmed;
        }
        if attempt == retry.attempts {
            assert(s.len() == replies.len() + 1);
            assert(m.len() == replies.len());
            assert(s[0] == *old(port));
            assert(replies.len() == retry.attempts);
            assert(forall|k: int| 0 <= k < replies.len() - 1 ==> !contains_seq(#[trigger] replies[k], expect@));
            assert(!contains_seq(replies.last(), expect@) && reply@ == replies.last());
            assert(*port == s.last());
            return Confirmation::Refused(reply);
        }
        attempt = attempt + 1;
    }
    Confirmation::NotTried
}

/// `write page n expected [..], got [..]`: the page, the confirmation
/// expected and the reply, in hex.
pub open spec fn write_failure_text(page: u32, reply: Seq<u8>) -> Seq<char> {
    "write page "@ + dec_u64(page as nat) + " expected "@ + hex_list(page_write_command(page)) + ", got "@
        + hex_list(reply)
}

/// The bytes an LCD window of `width` x `height` pixels takes.
pub open spec fn lcd_region_len(width: u16, height: u16) -> int {
    width * height * 2
}

/// The message for a region whose byte count does not fit its size.
pub open spec fn lcd_region_size_text(x: u16, y: u16, width: u16, height: u16, len: nat) -> Seq<char> {
    "lcd region "@ + dec_u64(width as nat) + "x"@ + dec_u64(height as nat) + " at "@ + dec_u64(x as nat) + ","@
        + dec_u64(y as nat) + " has "@ + dec_u64(len) + " bytes, expected "@ + dec_u64(
        lcd_region_len(width, height) as nat,
    )
}

/// The command that starts an LCD write; the screen echoes it when ready.
pub open spec fn lcd_address_command() -> Seq<u8> {
    seq![0x02u8, 0x03, 0x07, 0x00, 0x00, 0x00]
}

/// The 256 bytes of the chunk of `bytes` at `start`, padded with `0xff`.
pub open spec fn padded_chunk(bytes: Seq<u8>, start: int) -> Seq<u8> {
    Seq::new(256, |i: int| if start + i < bytes.len() && i < 256 { bytes[start + i] } else { 0xffu8 })
}

/// The length of the chunk of `bytes` at `start`: 256, or what is left.
pub open spec fn chunk_len(bytes: Seq<u8>, start: int) -> int {
    if bytes.len() - start < 256 {
        bytes.len() - start
    } else {
        256
    }
}

/// The data frame that carries the chunk of `bytes` at `start` to the LCD.
pub open spec fn lcd_frame_at(bytes: Seq<u8>, start: int) -> Seq<u8> {
    data_frame(padded_chunk(bytes, start), lcd_data_footer(chunk_len(bytes, start) as u16))
}

/// The number of 256-byte frames that carry `len` bytes.
pub open spec fn lcd_frame_count(len: nat) -> nat {
    (len + 255) / 256
}

/// The message for an LCD write the screen did not echo.
pub open spec fn lcd_address_failure_text(x: u16, y: u16, width: u16, height: u16, reply: Seq<u8>) -> Seq<char> {
    "lcd address "@ + dec_u64(x as nat) + ","@ + dec_u64(y as nat) + " "@ + dec_u64(width as nat) + "x"@ + dec_u64(
        height as nat,
    ) + " expected "@ + hex_list(lcd_address_command()) + ", got "@ + hex_list(reply)
}

/// Writes pixels into the window at `(x, y)`, as one chain of port calls:
/// the position packet, the size packet, the LCD write command until the
/// screen echoes it (see [`send_confirmed`]; 300 ms reads), then the bytes in
/// 256-byte frames, in order. The first failing call ends it with its error,
/// and a command the screen never echoes ends it with the last reply. An
/// empty window, or bytes that do not fill it exactly, are refused before
/// anything is sent.
pub fn write_lcd_region<P: PortIo>(
    port: &mut P,
    x: u16,
    y: u16,
    width: u16,
    height: u16,
    bytes: &[u8],
    retry: RetryPolicy,
) -> (r: AppResult<()>)
    ensures
        (width == 0 || height == 0 || bytes@.len() != lcd_region_len(width, height)) ==> (r matches Err(e)
            && e@ == ErrorView::Protocol(lcd_region_size_text(x, y, width, height, bytes@.len())))
            && *final(port) == *old(port),
        !(width == 0 || height == 0 || bytes@.len() != lcd_region_len(width, height)) ==> exists|
            q1: &mut P,
            b1: &[u8],
            o1: AppResult<()>,
        |
            #[trigger] call_ensures(P::write_all, (q1, b1), o1) && *q1 == *old(port) && b1@ == xy_command(x, y)
                && match o1 {
                Err(e) => r == Err::<(), AppError>(e) && *final(port) == *final(q1),
                Ok(_) => exists|q2: &mut P, b2: &[u8], o2: AppResult<()>|
                    #[trigger] call_ensures(P::write_all, (q2, b2), o2) && *q2 == *final(q1) && b2@ == size_command(
                        width,
                        height,
                    ) && match o2 {
                        Err(e) => r == Err::<(), AppError>(e) && *final(port) == *final(q2),
                        Ok(_) => exists|q3: &mut P, pk: &[u8], ex: &[u8], c: Confirmation|
                            #[trigger] call_ensures(send_confirmed::<P>, (q3, pk, ex, 300u64, retry), c) && *q3
                                == *final(q2) && pk@ == lcd_address_command() && ex@ == lcd_address_command()
                                && match c {
                                Confirmation::Refused(reply) => (r matches Err(e) && e@ == ErrorView::Protocol(
                                    lcd_address_failure_text(x, y, width, height, reply@),
                                )) && *final(port) == *final(q3),
                                Confirmation::Failed(e) => r == Err::<(), AppError>(e) && *final(port) == *final(q3),
                                _ => exists|f: Seq<P>|
                            #![trigger f.len()]
                            {
                                &&& f.len() >= 1
                                &&& f[0] == *final(q3)
                                &&& f.len() <= lcd_frame_count(bytes@.len()) + 1
                                &&& forall|k: int|
                                    #![trigger index_of(f, k)]
                                    index_of(f, k) && k + 1 < f.len() ==> exists|q: &mut P, b: &[u8], o: AppResult<()>|
                                        #[trigger] call_ensures(P::write_all, (q, b), o) && *q == f[k] && *final(q)
                                            == f[k + 1] && b@ == lcd_frame_at(bytes@, 256 * k) && o is Ok
                                &&& r is Ok ==> f.len() == lcd_frame_count(bytes@.len()) + 1 && *final(port) == f.last()
                                &&& r matches Err(e) ==> f.len() <= lcd_frame_count(bytes@.len()) && exists|
                                    q: &mut P,
                                    b: &[u8],
                                |
                                    #[trigger] call_ensures(P::write_all, (q, b), Err::<(), AppError>(e)) && *q == f.last()
                                        && b@ == lcd_frame_at(bytes@, 256 * (f.len() - 1)) && *final(q) == *final(port)
                            },
                            },
                    },
            },
{
    assert((width as u64) * (height as u64) * 2 <= 65535 * 65535 * 2) by (nonlinear_arith)
        requires
            width <= 65535,
            height <= 65535,
    ;
    let expected_len: u64 = (width as u64) * (height as u64) * 2;
    assert(expected_len == lcd_region_len(width, height));
    if width == 0 || height == 0 || bytes.len() as u64 != expected_len {
        let mut m = string_of("lcd region ");
        push_str(&mut m, u64_to_string(width as u64).as_str());
        push_str(&mut m, "x");
        push_str(&mut m, u64_to_string(height as u64).as_str());
        push_str(&mut m, " at ");
        push_str(&mut m, u64_to_string(x as u64).as_str());
        push_str(&mut m, ",");
        push_str(&mut m, u64_to_string(y as u64).as_str());
        push_str(&mut m, " has ");
        push_str(&mut m, u64_to_string(bytes.len() as u64).as_str());
        push_str(&mut m, " bytes, expected ");
        push_str(&mut m, u64_to_string(expected_len).as_str());
        return Err(AppError::Protocol(m));
    }
    assert(bytes@.len() == lcd_region_len(width, height));
    let xy = set_xy_packet(x, y);
    let size = set_size_packet(width, height);
    let xys: &[u8] = &xy;
    let sizes: &[u8] = &size;
    assert(xys@ == xy_command(x, y) && sizes@ == size_command(width, height));
    let ghost p0 = *port;
    let w1 = port.write_all(xys);
    let ghost p1 = *port;
    assert(exists|q1: &mut P, b1: &[u8], o1: AppResult<()>|
        #[trigger] call_ensures(P::write_all, (q1, b1), o1) && *q1 == p0 && *final(q1) == p1 && b1@ == xy_command(x, y)
            && o1 == w1);
    if let Err(e) = w1 {
        return Err(e);
    }
    let w2 = port.write_all(sizes);
    let ghost p2 = *port;
    assert(exists|q2: &mut P, b2: &[u8], o2: AppResult<()>|
        #[trigger] call_ensures(P::write_all, (q2, b2), o2) && *q2 == p1 && *final(q2) == p2 && b2@ == size_command(
            width,
            height,
        ) && o2 == w2);
    if let Err(e) = w2 {
        return Err(e);
    }
    let address_packet = load_lcd_address_packet();
    let ads: &[u8] = &address_packet;
    assert(ads@ == lcd_address_command());
    let echoed = send_confirmed(port, ads, ads, 300, retry);
    let ghost p3 = *port;
    let ghost cv = echoed;
    assert(exists|q3: &mut P, pk: &[u8], ex: &[u8], c: Confirmation|
        #[trigger] call_ensures(send_confirmed::<P>, (q3, pk, ex, 300u64, retry), c) && *q3 == p2 && *final(q3) == p3
            && pk@ == lcd_address_command() && ex@ == lcd_address_command() && c == cv);
    match echoed {
        Confirmation::Refused(reply) => {
            let mut m = string_of("lcd address ");
            push_str(&mut m, u64_to_string(x as u64).as_str());
            push_str(&mut m, ",");
            push_str(&mut m, u64_to_string(y as u64).as_str());
            push_str(&mut m, " ");
            push_str(&mut m, u64_to_string(width as u64).as_str());
            push_str(&mut m, "x");
            push_str(&mut m, u64_to_string(height as u64).as_str());
            push_str(&mut m, " expected ");
            push_hex_list(&mut m, ads);
            push_str(&mut m, ", got ");
            push_hex_list(&mut m, reply.as_slice());
            assert(m@ == lcd_address_failure_text(x, y, width, height, reply@));
            return Err(AppError::Protocol(m));
        },
        Confirmation::Failed(e) => {
            return Err(e);
        },
        _ => {},
    }
    let n = bytes.len();
    let mut start: usize = 0;
    let ghost mut k: int = 0;
    let ghost mut f: Seq<P> = seq![p3];
    while start < n
        invariant
            n == bytes@.len(),
            start <= n,
            k == f.len() - 1,
            f.len() >= 1,
            f[0] == p3,
            f.last() == *port,
            start == (if 256 * k <= n { 256 * k } else { n as int }),
            k == 0 || 256 * (k - 1) < n,
            width != 0 && height != 0 && bytes@.len() == lcd_region_len(width, height),
            p0 == *old(port),
            !(cv is Refused) && !(cv is Failed),
            w1 is Ok && w2 is Ok,
            exists|q1: &mut P, b1: &[u8], o1: AppResult<()>|
                #[trigger] call_ensures(P::write_all, (q1, b1), o1) && *q1 == p0 && *final(q1) == p1 && b1@ == xy_command(x, y)
                    && o1 == w1,
            exists|q2: &mut P, b2: &[u8], o2: AppResult<()>|
                #[trigger] call_ensures(P::write_all, (q2, b2), o2) && *q2 == p1 && *final(q2) == p2 && b2@ == size_command(
                    width,
                    height,
                ) && o2 == w2,
            exists|q3: &mut P, pk: &[u8], ex: &[u8], c: Confirmation|
                #[trigger] call_ensures(send_confirmed::<P>, (q3, pk, ex, 300u64, retry), c) && *q3 == p2 && *final(q3) == p3
                    && pk@ == lcd_address_command() && ex@ == lcd_address_command() && c == cv,
                forall|kk: int|
                    #![trigger index_of(f, kk)]
                    index_of(f, kk) && kk + 1 < f.len() ==> exists|q: &mut P, b: &[u8], o: AppResult<()>|
                        #[trigger] call_ensures(P::write_all, (q, b), o) && *q == f[kk] && *final(q) == f[kk + 1]
                            && b@ == lcd_frame_at(bytes@, 256 * kk) && o is Ok,
        decreases n - start,
    {
        assert(start == 256 * k);
        let len: usize = if n - start < 256 {
            n - start
        } else {
            256
        };
        let mut page = [0xffu8; 256];
        let mut j: usize = 0;
        while j < 256
            invariant
                n == bytes@.len(),
                len == chunk_len(bytes@, start as int),
                start + len <= n,
                j <= 256,
                page@.len() == 256,
                forall|i: int| 0 <= i < j ==> #[trigger] page@[i] == padded_chunk(bytes@, start as int)[i],
            decreases 256 - j,
        {
            if j < len {
                page[j] = bytes[start + j];
            } else {
                page[j] = 0xff;
            }
            j = j + 1;
        }
        assert(page@ =~= padded_chunk(bytes@, start as int));
        let frame = write_lcd_data_packet(len as u16, &page);
        let fs: &[u8] = &frame;
        assert(fs@ == lcd_frame_at(bytes@, 256 * k));
        let ghost before = *port;
        let w = port.write_all(fs);
        let ghost after = *port;
        assert(exists|q: &mut P, b: &[u8], o: AppResult<()>|
            #[trigger] call_ensures(P::write_all, (q, b), o) && *q == before && *final(q) == after && b@
                == lcd_frame_at(bytes@, 256 * k) && o == w);
        if let Err(e) = w {
            assert(k <= lcd_frame_count(n as nat));
            return Err(e);
        }
        proof {
            let f0 = f;
            f = f.push(after);
            assert forall|kk: int|
                #![trigger index_of(f, kk)]
                index_of(f, kk) && kk + 1 < f.len() implies exists|q: &mut P, b: &[u8], o: AppResult<()>|
                    #[trigger] call_ensures(P::write_all, (q, b), o) && *q == f[kk] && *final(q) == f[kk + 1]
                        && b@ == lcd_frame_at(bytes@, 256 * kk) && o is Ok by {
                if kk + 1 < f0.len() {
                    assert(index_of(f0, kk));
                    assert(f0[kk] == f[kk] && f0[kk + 1] == f[kk + 1]);
                } else {
                    assert(kk == k && f[kk] == before && f[kk + 1] == after);
                }
            }
            k = k + 1;
        }
        start = start + len;
    }
    assert(k == lcd_frame_count(n as nat));
    Ok(())
}

/// Shows one flash page full-screen: sets the window to the whole screen
/// and shows the page, reading the screen's answer after each command; the
/// first failing port call ends it with its error.
pub fn preview_page<P: PortIo>(port: &mut P, page: u16) -> (r: AppResult<()>)
    ensures
        exists|p1: &mut P, b1: &[u8], w1: AppResult<()>|
            #[trigger] call_ensures(P::write_all, (p1, b1), w1) && *p1 == *old(port) && b1@ == xy_command(0, 0)
                && match w1 {
                Err(e) => r == Err::<(), AppError>(e) && *final(port) == *final(p1),
                Ok(_) => exists|p2: &mut P, v2: AppResult<Vec<u8>>|
                    #[trigger] call_ensures(P::read_idle, (p2, 80u64, 20u64), v2) && *p2 == *final(p1) && match v2 {
                        Err(e) => r == Err::<(), AppError>(e) && *final(port) == *final(p2),
                        Ok(_) => exists|p3: &mut P, b3: &[u8], w3: AppResult<()>|
                            #[trigger] call_ensures(P::write_all, (p3, b3), w3) && *p3 == *final(p2) && b3@
                                == size_command(160, 80) && match w3 {
                                Err(e) => r == Err::<(), AppError>(e) && *final(port) == *final(p3),
                                Ok(_) => exists|p4: &mut P, v4: AppResult<Vec<u8>>|
                                    #[trigger] call_ensures(P::read_idle, (p4, 80u64, 20u64), v4) && *p4 == *final(p3)
                                        && match v4 {
                                        Err(e) => r == Err::<(), AppError>(e) && *final(port) == *final(p4),
                                        Ok(_) => exists|p5: &mut P, b5: &[u8], w5: AppResult<()>|
                                            #[trigger] call_ensures(P::write_all, (p5, b5), w5) && *p5 == *final(p4)
                                                && b5@ == photo_command(page) && match w5 {
                                                Err(e) => r == Err::<(), AppError>(e) && *final(port) == *final(p5),
                                                Ok(_) => exists|p6: &mut P, v6: AppResult<Vec<u8>>|
                                                    #[trigger] call_ensures(P::read_idle, (p6, 120u64, 20u64), v6)
                                                        && *p6 == *final(p5) && *final(port) == *final(p6) && match v6 {
                                                        Err(e) => r == Err::<(), AppError>(e),
                                                        Ok(_) => r is Ok,
                                                    },
                                            },
                                    },
                            },
                    },
            },
{
    let xy = set_xy_packet(0, 0);
    let size = set_size_packet(160, 80);
    let photo = show_photo_packet(page);
    assert(xy@ == xy_command(0, 0) && size@ == size_command(160, 80) && photo@ == photo_command(page));
    port.write_all(&xy)?;
    port.read_idle(80, 20)?;
    port.write_all(&size)?;
    port.read_idle(80, 20)?;
    port.write_all(&photo)?;
    port.read_idle(120, 20)?;
    Ok(())
}

/// What a flash job over `images` needs of its inputs: every asset's last
/// page is a `u16`, and the page count (times 100, for the percentage) is a `u32`.
pub open spec fn flash_inputs_ok(images: Seq<FlashAsset>) -> bool {
    &&& forall|i: int| 0 <= i < images.len() ==> end_page_defined(#[trigger] images[i])
    &&& total_pages_spec(images) * 100 <= u32::MAX
}

fn check_sizes(images: &[FlashAsset<'_>]) -> (r: AppResult<()>)
    ensures
        match first_size_error(images@) {
            None => r is Ok,
            Some(e) => r matches Err(err) && err@ == ErrorView::Asset(asset_error_text(e)),
        },
        r is Ok ==> forall|i: int| 0 <= i < images@.len() ==> size_ok(#[trigger] images@[i]),
{
    let mut i: usize = 0;
    assert(images@.subrange(0, images@.len() as int) =~= images@);
    while i < images.len()
        invariant
            i <= images@.len(),
            first_size_error(images@) == first_size_error(images@.subrange(i as int, images@.len() as int)),
            forall|j: int| 0 <= j < i ==> size_ok(#[trigger] images@[j]),
        decreases images@.len() - i,
    {
        assert(images@.subrange(i as int, images@.len() as int)[0] == images@[i as int]);
        assert(images@.subrange(i as int, images@.len() as int).drop_first() =~= images@.subrange(
            i + 1,
            images@.len() as int,
        ));
        match validate_asset(&images[i]) {
            Ok(()) => {},
            Err(err) => {
                return Err(AppError::Asset(err.to_string()));
            },
        }
        i = i + 1;
    }
    Ok(())
}

/// The bytes of page `k` of an asset.
pub open spec fn asset_page(img: FlashAsset, k: int) -> Seq<u8> {
    img.bytes@.subrange(k * PAGE_BYTES, (k + 1) * PAGE_BYTES)
}

/// One command of a flash job: erasing `count` pages from `start`, or writing
/// page `page` with its data, after which `done` pages of the job are written.
pub ghost enum FlashStep {
    Erase(u16, u16),
    Page(u32, Seq<u8>, nat),
}

/// The packet a step sends.
pub open spec fn step_packet(st: FlashStep) -> Seq<u8> {
    match st {
        FlashStep::Erase(start, count) => erase_command(start, count),
        FlashStep::Page(page, data, _) => data_frame(data, page_write_command(page)),
    }
}

/// The reply bytes that confirm a step: the erase command's echo, or the page's footer.
pub open spec fn step_expect(st: FlashStep) -> Seq<u8> {
    match st {
        FlashStep::Erase(start, count) => erase_command(start, count),
        FlashStep::Page(page, _, _) => page_write_command(page),
    }
}

/// How long a step's reply is read for.
pub open spec fn step_ms(st: FlashStep) -> u64 {
    match st {
        FlashStep::Erase(_, _) => 1200,
        FlashStep::Page(_, _, _) => 700,
    }
}

/// The error a job ends with when a step ends as `c`: the refusal message
/// with the last reply, or the port's own error.
pub open spec fn step_error(c: Confirmation, st: FlashStep, e: AppError) -> bool {
    match c {
        Confirmation::Refused(reply) => e@ == ErrorView::Protocol(
            match st {
                FlashStep::Erase(start, count) => erase_failure_text(start, count, erase_command(start, count), reply@),
                FlashStep::Page(page, _, _) => write_failure_text(page, reply@),
            },
        ),
        Confirmation::Failed(e2) => e == e2,
        _ => false,
    }
}

/// The steps of one asset, after `done_before` pages of the job: its erase,
/// then its pages in order.
pub open spec fn image_steps(img: FlashAsset, done_before: nat) -> Seq<FlashStep> {
    seq![FlashStep::Erase(img.start_page, img.page_count)] + Seq::new(
        img.page_count as nat,
        |k: int| FlashStep::Page((img.start_page + k) as u32, asset_page(img, k), (done_before + k + 1) as nat),
    )
}

/// The steps of a flash job: the assets' steps in plan order.
pub open spec fn flash_steps(images: Seq<FlashAsset>) -> Seq<FlashStep>
    decreases images.len(),
{
    if images.len() == 0 {
        seq![]
    } else {
        flash_steps(images.drop_last()) + image_steps(images.last(), total_pages_spec(images.drop_last()))
    }
}

/// The percentage shown after `done` of `total` pages.
pub open spec fn progress_percent(done: nat, total: nat) -> u8 {
    ((done * 100) / total) as u8
}

proof fn lemma_steps_prefix(images: Seq<FlashAsset>, j: int)
    requires
        0 <= j <= images.len(),
    ensures
        flash_steps(images.take(j)).len() <= flash_steps(images).len(),
        forall|k: int|
            0 <= k < flash_steps(images.take(j)).len() ==> #[trigger] flash_steps(images)[k] == flash_steps(
                images.take(j),
            )[k],
    decreases images.len() - j,
{
    if j < images.len() {
        lemma_steps_prefix(images, j + 1);
        let t = images.take(j + 1);
        assert(t.drop_last() =~= images.take(j));
        assert(flash_steps(t) == flash_steps(images.take(j)) + image_steps(t.last(), total_pages_spec(t.drop_last())));
    } else {
        assert(images.take(j) =~= images);
    }
}

/// The report after `k` of `total` pages were written.
pub open spec fn is_write_progress(p: FlashProgress, k: u32, total: u32) -> bool {
    &&& p.phase == FlashPhase::Write
    &&& p.current_page == k
    &&& p.total_pages == total
    &&& p.percent == (k * 100) / (total as int)
    &&& p.display_message@ == write_progress_text(((k * 100) / (total as int)) as nat)
}

/// The report that ends a job of `total` pages.
pub open spec fn is_done_progress(p: FlashProgress, total: u32) -> bool {
    &&& p.phase == FlashPhase::Done
    &&& p.current_page == total
    &&& p.total_pages == total
    &&& p.percent == 100
    &&& p.display_message@ == "写入完成"@
}

/// `emit` was handed the report after `k` of `total` pages.
pub open spec fn reported<F: FnMut(FlashProgress)>(emit: F, k: u32, total: u32) -> bool {
    exists|p: FlashProgress| #[trigger] call_ensures(emit, (p,), ()) && is_write_progress(p, k, total)
}

/// `emit` was handed the final report of a job of `total` pages.
pub open spec fn reported_done<F: FnMut(FlashProgress)>(emit: F, total: u32) -> bool {
    exists|p: FlashProgress| #[trigger] call_ensures(emit, (p,), ()) && is_done_progress(p, total)
}

/// Every page's report, then the final one, was handed to `emit`.
pub open spec fn all_reported<F: FnMut(FlashProgress)>(images: Seq<FlashAsset>, emit: F) -> bool {
    &&& forall|k: u32| 1 <= k <= total_pages_spec(images) ==> #[trigger] reported(emit, k, total_pages_spec(images) as u32)
    &&& reported_done(emit, total_pages_spec(images) as u32)
}

/// Runs the steps of a flash job on the port, one confirmed command after
/// another, reporting progress after each page (and drawing it on the
/// screen when `draw_progress`); the first step that is not confirmed ends
/// the job with its error. All sizes are checked before anything is sent.
fn flash_images_internal<P: PortIo, F: FnMut(FlashProgress)>(
    port: &mut P,
    images: &[FlashAsset<'_>],
    screen: &mut ScreenStatus,
    screens: &StatusScreens,
    emit: &mut F,
    draw_progress: bool,
) -> (r: AppResult<()>)
    requires
        flash_inputs_ok(images@),
        old(screen).wf(),
        old(screen).enabled_spec() ==> screens.wf(),
        forall|p: FlashProgress| call_requires(*old(emit), (p,)),
    ensures
        final(screen).wf(),
        first_size_error(images@) matches Some(e) ==> (r matches Err(err) && err@ == ErrorView::Asset(
            asset_error_text(e),
        )) && *final(port) == *old(port) && *final(screen) == *old(screen),
        r is Ok ==> all_reported(images@, *old(emit)),
        images@.len() == 0 ==> r is Ok,
        first_size_error(images@) is None ==> exists|a: Seq<P>, b: Seq<P>|
            #![trigger a.len(), b.len()]
            {
                let steps = flash_steps(images@);
                &&& a.len() == b.len() + 1
                &&& a[0] == *old(port)
                &&& b.len() <= steps.len()
                &&& forall|i: int|
                    #![trigger index_of(b, i)]
                    index_of(b, i) ==> exists|q: &mut P, pk: &[u8], ex: &[u8], rp: RetryPolicy, c: Confirmation|
                    #[trigger] call_ensures(send_confirmed::<P>, (q, pk, ex, step_ms(steps[i]), rp), c) && *q == a[i]
                        && *final(q) == b[i] && pk@ == step_packet(steps[i]) && ex@ == step_expect(steps[i])
                        && rp.attempts == 3 && c is Confirmed
                &&& forall|i: int| #![trigger index_of(b, i)] index_of(b, i) ==> if draw_progress { match steps[i] {
                        FlashStep::Page(_, _, done) => exists|st: &mut ScreenStatus, q2: &mut P|
                            #[trigger] call_ensures(
                                ScreenStatus::update::<P>,
                                (st, q2, progress_percent(done, total_pages_spec(images@)), screens),
                                (),
                            ) && *q2 == b[i] && *final(q2) == a[i + 1],
                        FlashStep::Erase(_, _) => a[i + 1] == b[i],
                    } } else { a[i + 1] == b[i] }
                &&& r is Ok ==> b.len() == steps.len() && *final(port) == a.last()
                &&& r matches Err(e) ==> b.len() < steps.len() && exists|
                    q: &mut P,
                    pk: &[u8],
                    ex: &[u8],
                    rp: RetryPolicy,
                    c: Confirmation,
                |
                    #[trigger] call_ensures(send_confirmed::<P>, (q, pk, ex, step_ms(steps[b.len() as int]), rp), c)
                        && *q == a.last() && *final(q) == *final(port) && pk@ == step_packet(steps[b.len() as int])
                        && ex@ == step_expect(steps[b.len() as int]) && rp.attempts == 3 && step_error(
                        c,
                        steps[b.len() as int],
                        e,
                    )
            },
{
    let ghost e0 = *emit;
    check_sizes(images)?;
    proof {
        lemma_total_prefix_bounded(images@, 0);
    }
    let ghost steps = flash_steps(images@);
    let total = total_pages(images);
    let ghost mut a: Seq<P> = seq![*port];
    let ghost mut b: Seq<P> = seq![];
    let mut completed: u32 = 0;
    let mut i: usize = 0;
    while i < images.len()
        invariant
            i <= images@.len(),
            flash_inputs_ok(images@),
            forall|j: int| 0 <= j < images@.len() ==> size_ok(#[trigger] images@[j]),
            total == total_pages_spec(images@),
            completed == total_pages_spec(images@.subrange(0, i as int)),
            first_size_error(images@) is None,
            screen.wf(),
            screen.enabled_spec() ==> screens.wf(),
            forall|p: FlashProgress| call_requires(*emit, (p,)),
            *emit == e0,
            e0 == *old(emit),
            forall|k: u32| 1 <= k <= completed ==> #[trigger] reported(e0, k, total),
            steps == flash_steps(images@),
            b.len() == flash_steps(images@.take(i as int)).len(),
            b.len() <= steps.len(),
            a.len() == b.len() + 1,
            a[0] == *old(port),
            a.last() == *port,
            forall|j: int|
                #![trigger index_of(b, j)]
                index_of(b, j) ==> exists|q: &mut P, pk: &[u8], ex: &[u8], rp: RetryPolicy, c: Confirmation|
                    #[trigger] call_ensures(send_confirmed::<P>, (q, pk, ex, step_ms(steps[j]), rp), c) && *q == a[j]
                        && *final(q) == b[j] && pk@ == step_packet(steps[j]) && ex@ == step_expect(steps[j])
                        && rp.attempts == 3 && c is Confirmed,
            forall|j: int| #![trigger index_of(b, j)] index_of(b, j) ==> if draw_progress { match steps[j] {
                        FlashStep::Page(_, _, done) => exists|st: &mut ScreenStatus, q2: &mut P|
                            #[trigger] call_ensures(
                                ScreenStatus::update::<P>,
                                (st, q2, progress_percent(done, total_pages_spec(images@)), screens),
                                (),
                            ) && *q2 == b[j] && *final(q2) == a[j + 1],
                        FlashStep::Erase(_, _) => a[j + 1] == b[j],
                    } } else { a[j + 1] == b[j] },
        decreases images@.len() - i,
    {
        let image = &images[i];
        assert(end_page_defined(images@[i as int]));
        let ghost base = b.len();
        proof {
            lemma_steps_prefix(images@, i + 1);
            let t = images@.take(i + 1);
            assert(t.drop_last() =~= images@.take(i as int));
            assert(t.last() == images@[i as int]);
            assert(images@.take(i as int) =~= images@.subrange(0, i as int));
            assert(flash_steps(t) == flash_steps(images@.take(i as int)) + image_steps(images@[i as int], completed as nat));
            assert forall|k: int| base <= k <= base + image.page_count implies #[trigger] steps[k] == image_steps(
                images@[i as int],
                completed as nat,
            )[k - base] by {
                assert(flash_steps(t)[k] == image_steps(images@[i as int], completed as nat)[k - base]);
            }
        }
        let erase_packet = erase_flash_pages_packet(image.start_page, image.page_count);
        let rp = RetryPolicy::default();
        let pk: &[u8] = &erase_packet;
        assert(pk@ == erase_command(image.start_page, image.page_count));
        let ghost before = *port;
        let confirmed = send_confirmed(port, pk, pk, 1200, rp);
        let ghost after = *port;
        let ghost cv = confirmed;
        assert(steps[base as int] == FlashStep::Erase(image.start_page, image.page_count));
        assert(step_ms(steps[base as int]) == 1200);
        assert(exists|q: &mut P, pk2: &[u8], ex2: &[u8], rp2: RetryPolicy, c: Confirmation|
                #[trigger] call_ensures(send_confirmed::<P>, (q, pk2, ex2, 1200u64, rp2), c) && *q == before
                    && *final(q) == after && pk2@ == step_packet(steps[base as int]) && ex2@ == step_expect(steps[base as int])
                    && rp2.attempts == 3 && c == cv);
        match confirmed {
            Confirmation::Confirmed => {},
            Confirmation::Refused(reply) => {
                let err = erase_failure_message(image.start_page, image.page_count, pk, reply.as_slice());
                assert(step_error(cv, steps[base as int], err));
                return Err(err);
            },
            Confirmation::Failed(e) => {
                assert(step_error(cv, steps[base as int], e));
                return Err(e);
            },
            Confirmation::NotTried => {
                return Err(AppError::Protocol(string_of("unreachable erase retry state")));
            },
        }
        assert(index_of(steps, base as int));
            proof {
                let a0 = a;
                let b0 = b;
                b = b.push(after);
                a = a.push(after);
                assert forall|j: int|
                    #![trigger index_of(b, j)]
                    index_of(b, j) implies exists|q: &mut P, pk: &[u8], ex: &[u8], rp: RetryPolicy, c: Confirmation|
                    #[trigger] call_ensures(send_confirmed::<P>, (q, pk, ex, step_ms(steps[j]), rp), c) && *q == a[j]
                        && *final(q) == b[j] && pk@ == step_packet(steps[j]) && ex@ == step_expect(steps[j])
                        && rp.attempts == 3 && c is Confirmed by {
                    if j < b0.len() {
                        assert(index_of(b0, j));
                        assert(a0[j] == a[j] && b0[j] == b[j]);
                    } else {
                        assert(a[j] == before && b[j] == after);
                    }
                }
                assert forall|j: int| #![trigger index_of(b, j)] index_of(b, j) implies if draw_progress { match steps[j] {
                        FlashStep::Page(_, _, done) => exists|st: &mut ScreenStatus, q2: &mut P|
                            #[trigger] call_ensures(
                                ScreenStatus::update::<P>,
                                (st, q2, progress_percent(done, total_pages_spec(images@)), screens),
                                (),
                            ) && *q2 == b[j] && *final(q2) == a[j + 1],
                        FlashStep::Erase(_, _) => a[j + 1] == b[j],
                    } } else { a[j + 1] == b[j] } by {
                    if j < b0.len() {
                        assert(index_of(b0, j));
                        assert(a0[j] == a[j] && b0[j] == b[j] && a0[j + 1] == a[j + 1]);
                    } else {
                        assert(a[j] == before && b[j] == after && a[j + 1] == after);
                    }
                }
            }
        proof {
            lemma_total_prefix_bounded(images@, i + 1);
            assert(images@.subrange(0, i + 1).drop_last() =~= images@.subrange(0, i as int));
            assert(total_pages_spec(images@.subrange(0, i + 1)) == completed + image.page_count);
        }
        let ghost done_before = completed;
        let mut page_index: u16 = 0;
        while page_index < image.page_count
            invariant
                page_index <= image.page_count,
                image.bytes@.len() == image.page_count * PAGE_BYTES,
                *image == images@[i as int],
                total == total_pages_spec(images@),
                total * 100 <= u32::MAX,
                done_before + image.page_count <= total,
                completed == done_before + page_index,
                first_size_error(images@) is None,
                screen.wf(),
                screen.enabled_spec() ==> screens.wf(),
                forall|p: FlashProgress| call_requires(*emit, (p,)),
                *emit == e0,
                e0 == *old(emit),
                forall|k: u32| 1 <= k <= completed ==> #[trigger] reported(e0, k, total),
                steps == flash_steps(images@),
                b.len() == base + 1 + page_index,
                base + 1 + image.page_count <= steps.len(),
                forall|k: int| base <= k <= base + image.page_count ==> #[trigger] steps[k] == image_steps(
                    images@[i as int],
                    done_before as nat,
                )[k - base],
                a.len() == b.len() + 1,
                a[0] == *old(port),
                a.last() == *port,
            forall|j: int|
                #![trigger index_of(b, j)]
                index_of(b, j) ==> exists|q: &mut P, pk: &[u8], ex: &[u8], rp: RetryPolicy, c: Confirmation|
                    #[trigger] call_ensures(send_confirmed::<P>, (q, pk, ex, step_ms(steps[j]), rp), c) && *q == a[j]
                        && *final(q) == b[j] && pk@ == step_packet(steps[j]) && ex@ == step_expect(steps[j])
                        && rp.attempts == 3 && c is Confirmed,
            forall|j: int| #![trigger index_of(b, j)] index_of(b, j) ==> if draw_progress { match steps[j] {
                        FlashStep::Page(_, _, done) => exists|st: &mut ScreenStatus, q2: &mut P|
                            #[trigger] call_ensures(
                                ScreenStatus::update::<P>,
                                (st, q2, progress_percent(done, total_pages_spec(images@)), screens),
                                (),
                            ) && *q2 == b[j] && *final(q2) == a[j + 1],
                        FlashStep::Erase(_, _) => a[j + 1] == b[j],
                    } } else { a[j + 1] == b[j] },
            decreases image.page_count - page_index,
        {
            assert((page_index + 1) * PAGE_BYTES <= image.page_count * PAGE_BYTES) by (nonlinear_arith)
                requires
                    page_index < image.page_count,
            ;
            let chunk = page_bytes(image.bytes, page_index);
            let page = image.start_page as u32 + page_index as u32;
            let ghost idx = base + 1 + page_index;
            assert(steps[idx] == image_steps(images@[i as int], done_before as nat)[idx - base]);
            assert(steps[idx] == FlashStep::Page(page, asset_page(*image, page_index as int), (done_before + page_index + 1) as nat));
            let packet = write_flash_page_packet(page, &chunk);
            let expected = expected_write_reply(page);
            assert(chunk@ == asset_page(*image, page_index as int));
            let rp = RetryPolicy::default();
            let pk: &[u8] = &packet;
            let ex: &[u8] = &expected;
            assert(pk@ == step_packet(steps[idx]) && ex@ == step_expect(steps[idx]));
            let ghost before = *port;
            let confirmed = send_confirmed(port, pk, ex, 700, rp);
            let ghost after = *port;
            let ghost cv = confirmed;
            assert(step_ms(steps[idx]) == 700);
            assert(exists|q: &mut P, pk2: &[u8], ex2: &[u8], rp2: RetryPolicy, c: Confirmation|
                #[trigger] call_ensures(send_confirmed::<P>, (q, pk2, ex2, 700u64, rp2), c) && *q == before
                    && *final(q) == after && pk2@ == step_packet(steps[idx]) && ex2@ == step_expect(steps[idx])
                    && rp2.attempts == 3 && c == cv);
            match confirmed {
                Confirmation::Confirmed => {},
                Confirmation::Refused(reply) => {
                    let mut m = string_of("write page ");
                    push_str(&mut m, u64_to_string(page as u64).as_str());
                    push_str(&mut m, " expected ");
                    push_hex_list(&mut m, &expected);
                    push_str(&mut m, ", got ");
                    push_hex_list(&mut m, reply.as_slice());
                    let err = AppError::Protocol(m);
                    assert(step_error(cv, steps[idx], err));
                    return Err(err);
                },
                Confirmation::Failed(e) => {
                    assert(step_error(cv, steps[idx], e));
                    return Err(e);
                },
                Confirmation::NotTried => {
                    return Err(AppError::Protocol(string_of("unreachable write retry state")));
                },
            }
            completed = completed + 1;
            let progress = write_progress(completed, total);
            let ghost mut next = after;
            if draw_progress {
                let ghost pct = progress.percent;
                assert(pct == progress_percent(completed as nat, total_pages_spec(images@)));
                screen.update(port, progress.percent, screens);
                let ghost after2 = *port;
                assert(exists|st: &mut ScreenStatus, q2: &mut P|
                    #[trigger] call_ensures(
                        ScreenStatus::update::<P>,
                        (st, q2, progress_percent(completed as nat, total_pages_spec(images@)), screens),
                        (),
                    ) && *q2 == after && *final(q2) == after2);
                proof {
                    next = after2;
                }
            }
            assert(index_of(steps, idx));
            proof {
                let a0 = a;
                let b0 = b;
                b = b.push(after);
                a = a.push(next);
                assert forall|j: int|
                    #![trigger index_of(b, j)]
                    index_of(b, j) implies exists|q: &mut P, pk: &[u8], ex: &[u8], rp: RetryPolicy, c: Confirmation|
                    #[trigger] call_ensures(send_confirmed::<P>, (q, pk, ex, step_ms(steps[j]), rp), c) && *q == a[j]
                        && *final(q) == b[j] && pk@ == step_packet(steps[j]) && ex@ == step_expect(steps[j])
                        && rp.attempts == 3 && c is Confirmed by {
                    if j < b0.len() {
                        assert(index_of(b0, j));
                        assert(a0[j] == a[j] && b0[j] == b[j]);
                    } else {
                        assert(a[j] == before && b[j] == after);
                    }
                }
                assert forall|j: int| #![trigger index_of(b, j)] index_of(b, j) implies if draw_progress { match steps[j] {
                        FlashStep::Page(_, _, done) => exists|st: &mut ScreenStatus, q2: &mut P|
                            #[trigger] call_ensures(
                                ScreenStatus::update::<P>,
                                (st, q2, progress_percent(done, total_pages_spec(images@)), screens),
                                (),
                            ) && *q2 == b[j] && *final(q2) == a[j + 1],
                        FlashStep::Erase(_, _) => a[j + 1] == b[j],
                    } } else { a[j + 1] == b[j] } by {
                    if j < b0.len() {
                        assert(index_of(b0, j));
                        assert(a0[j] == a[j] && b0[j] == b[j] && a0[j + 1] == a[j + 1]);
                    } else {
                        assert(a[j] == before && b[j] == after && a[j + 1] == next);
                    }
                }
            }
            let ghost reported_now = progress;
            emit(progress);
            assert(call_ensures(e0, (reported_now,), ()) && is_write_progress(reported_now, completed, total));
            assert(reported(e0, completed, total));
            page_index = page_index + 1;
        }
        assert(completed == total_pages_spec(images@.subrange(0, i + 1)));
        proof {
            let t = images@.take(i + 1);
            assert(t.drop_last() =~= images@.take(i as int));
            assert(flash_steps(t).len() == b.len());
        }
        i = i + 1;
    }
    assert(images@.subrange(0, images@.len() as int) =~= images@);
    assert(images@.take(images@.len() as int) =~= images@);
    let done = done_progress(total);
    let ghost reported_end = done;
    emit(done);
    assert(call_ensures(e0, (reported_end,), ()) && is_done_progress(reported_end, total));
    assert(reported_done(e0, total));
    Ok(())
}

/// Erases and writes every asset in order, reporting progress after each
/// page and once more when done. All sizes are checked before anything is
/// sent; then the job's steps (each asset's erase, then its pages) are sent
/// one after another, each confirmed by the screen before the next, and the
/// first step that is not confirmed ends the job with its error.
pub fn flash_images<P: PortIo, F: FnMut(FlashProgress)>(port: &mut P, images: &[FlashAsset<'_>], emit: F) -> (r:
    AppResult<()>)
    requires
        flash_inputs_ok(images@),
        forall|p: FlashProgress| call_requires(emit, (p,)),
    ensures
        first_size_error(images@) matches Some(e) ==> (r matches Err(err) && err@ == ErrorView::Asset(
            asset_error_text(e),
        )) && *final(port) == *old(port),
        r is Ok ==> all_reported(images@, emit),
        images@.len() == 0 ==> r is Ok,
        first_size_error(images@) is None ==> exists|a: Seq<P>, b: Seq<P>|
            #![trigger a.len(), b.len()]
            {
                let steps = flash_steps(images@);
                &&& a.len() == b.len() + 1
                &&& a[0] == *old(port)
                &&& b.len() <= steps.len()
                &&& forall|i: int|
                    #![trigger index_of(b, i)]
                    index_of(b, i) ==> exists|q: &mut P, pk: &[u8], ex: &[u8], rp: RetryPolicy, c: Confirmation|
                    #[trigger] call_ensures(send_confirmed::<P>, (q, pk, ex, step_ms(steps[i]), rp), c) && *q == a[i]
                        && *final(q) == b[i] && pk@ == step_packet(steps[i]) && ex@ == step_expect(steps[i])
                        && rp.attempts == 3 && c is Confirmed
                &&& forall|i: int| #![trigger index_of(b, i)] index_of(b, i) ==> a[i + 1] == b[i]
                &&& r is Ok ==> b.len() == steps.len() && *final(port) == a.last()
                &&& r matches Err(e) ==> b.len() < steps.len() && exists|
                    q: &mut P,
                    pk: &[u8],
                    ex: &[u8],
                    rp: RetryPolicy,
                    c: Confirmation,
                |
                    #[trigger] call_ensures(send_confirmed::<P>, (q, pk, ex, step_ms(steps[b.len() as int]), rp), c)
                        && *q == a.last() && *final(q) == *final(port) && pk@ == step_packet(steps[b.len() as int])
                        && ex@ == step_expect(steps[b.len() as int]) && rp.attempts == 3 && step_error(
                        c,
                        steps[b.len() as int],
                        e,
                    )
            },
{
    let mut emit = emit;
    let mut screen = ScreenStatus::disabled();
    let none: [u8; 0] = [];
    let screens = StatusScreens { initial: &none, done: &none, percent_strip: &none, waiting: &none };
    flash_images_internal(port, images, &mut screen, &screens, &mut emit, false)
}

/// Like [`flash_images`], and also draws the progress on the screen when the
/// screen takes it: the screen is probed and the status screen drawn first,
/// the percentage and bar after each page, and the "done" screen at the end
/// of a successful job. A screen that refuses the drawing does not fail the
/// job: the result is that of the job's steps alone.
pub fn flash_images_with_screen_status<P: PortIo, F: FnMut(FlashProgress)>(
    port: &mut P,
    images: &[FlashAsset<'_>],
    emit: F,
    screens: &StatusScreens,
) -> (r: AppResult<()>)
    requires
        flash_inputs_ok(images@),
        screens.wf(),
        forall|p: FlashProgress| call_requires(emit, (p,)),
    ensures
        first_size_error(images@) matches Some(e) ==> (r matches Err(err) && err@ == ErrorView::Asset(
            asset_error_text(e),
        )),
        r is Ok ==> all_reported(images@, emit),
        images@.len() == 0 ==> r is Ok,
        exists|q0: &mut P, probed: ScreenStatus|
            #[trigger] call_ensures(ScreenStatus::probe::<P>, (q0,), probed) && *q0 == *old(port) && exists|
                st: &mut ScreenStatus,
                q1: &mut P,
            |
                #[trigger] call_ensures(ScreenStatus::start::<P>, (st, q1, screens), ()) && *q1 == *final(q0)
                    && (first_size_error(images@) is None ==> exists|a: Seq<P>, b: Seq<P>|
            #![trigger a.len(), b.len()]
            {
                let steps = flash_steps(images@);
                &&& a.len() == b.len() + 1
                &&& a[0] == *final(q1)
                &&& b.len() <= steps.len()
                &&& forall|i: int|
                    #![trigger index_of(b, i)]
                    index_of(b, i) ==> exists|q: &mut P, pk: &[u8], ex: &[u8], rp: RetryPolicy, c: Confirmation|
                    #[trigger] call_ensures(send_confirmed::<P>, (q, pk, ex, step_ms(steps[i]), rp), c) && *q == a[i]
                        && *final(q) == b[i] && pk@ == step_packet(steps[i]) && ex@ == step_expect(steps[i])
                        && rp.attempts == 3 && c is Confirmed
                &&& forall|i: int| #![trigger index_of(b, i)] index_of(b, i) ==> match steps[i] {
                        FlashStep::Page(_, _, done) => exists|st: &mut ScreenStatus, q2: &mut P|
                            #[trigger] call_ensures(
                                ScreenStatus::update::<P>,
                                (st, q2, progress_percent(done, total_pages_spec(images@)), screens),
                                (),
                            ) && *q2 == b[i] && *final(q2) == a[i + 1],
                        FlashStep::Erase(_, _) => a[i + 1] == b[i],
                    }
                &&& r is Ok ==> b.len() == steps.len() && exists|sf: &mut ScreenStatus, q3: &mut P| #[trigger] call_ensures(ScreenStatus::finish::<P>, (sf, q3, screens), ()) && *q3 == a.last() && *final(q3) == *final(port)
                &&& r matches Err(e) ==> b.len() < steps.len() && exists|
                    q: &mut P,
                    pk: &[u8],
                    ex: &[u8],
                    rp: RetryPolicy,
                    c: Confirmation,
                |
                    #[trigger] call_ensures(send_confirmed::<P>, (q, pk, ex, step_ms(steps[b.len() as int]), rp), c)
                        && *q == a.last() && *final(q) == *final(port) && pk@ == step_packet(steps[b.len() as int])
                        && ex@ == step_expect(steps[b.len() as int]) && rp.attempts == 3 && step_error(
                        c,
                        steps[b.len() as int],
                        e,
                    )
            }),
{
    let mut emit = emit;
    let ghost p0 = *port;
    let mut screen = ScreenStatus::probe(port);
    let ghost p1 = *port;
    assert(exists|q0: &mut P, probed: ScreenStatus|
        #[trigger] call_ensures(ScreenStatus::probe::<P>, (q0,), probed) && *q0 == p0 && *final(q0) == p1);
    screen.start(port, screens);
    let ghost p2 = *port;
    assert(exists|st: &mut ScreenStatus, q1: &mut P|
        #[trigger] call_ensures(ScreenStatus::start::<P>, (st, q1, screens), ()) && *q1 == p1 && *final(q1) == p2);
    let result = flash_images_internal(port, images, &mut screen, screens, &mut emit, true);
    if result.is_ok() {
        let ghost p3 = *port;
        screen.finish(port, screens);
        assert(exists|sf: &mut ScreenStatus, q3: &mut P|
            #[trigger] call_ensures(ScreenStatus::finish::<P>, (sf, q3, screens), ()) && *q3 == p3 && *final(q3) == *port);
    }
    result
}

} // verus!
