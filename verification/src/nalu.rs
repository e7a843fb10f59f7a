//! H.264 Annex-B framing: finds the NAL units in the encoder's byte stream
//! and wraps each in a video header for the client.
use vstd::prelude::*;
use crate::protocol::{
    decode_video_header, lemma_video_header_roundtrip, ProtocolError, VideoHeader, VIDEO_HEADER_SIZE,
};

verus! {

/// The stream buffer is compacted once this many bytes have been consumed.
pub const COMPACT_THRESHOLD: usize = 131072;

/// A start code begins at `j`: two zero bytes, then either a one, or a zero
/// and a one (the four-byte form).
pub open spec fn start_code_at(b: Seq<u8>, j: int) -> bool {
    &&& b[j] == 0
    &&& b[j + 1] == 0
    &&& (b[j + 2] == 1 || (b[j + 2] == 0 && b[j + 3] == 1))
}

/// `j` is the first position from `from` on, and before `b.len() - 3`,
/// where a start code begins. (The search never looks at the last three
/// positions, so a three-byte start code that ends the buffer is not found.)
pub open spec fn is_first_start_code(b: Seq<u8>, from: int, j: int) -> bool {
    &&& from <= j < b.len() - 3
    &&& start_code_at(b, j)
    &&& forall|k: int| from <= k < j ==> !#[trigger] start_code_at(b, k)
}

/// The position of the first start code from `from` on, if there is one.
pub open spec fn first_start_code(b: Seq<u8>, from: int) -> Option<int> {
    if exists|j: int| is_first_start_code(b, from, j) {
        Some(choose|j: int| is_first_start_code(b, from, j))
    } else {
        None
    }
}

/// Two first start codes from the same place are the same.
proof fn lemma_first_start_code_unique(b: Seq<u8>, from: int, j: int)
    requires
        is_first_start_code(b, from, j),
    ensures
        first_start_code(b, from) == Some(j),
{
    let c = choose|c: int| is_first_start_code(b, from, c);
    if c < j {
        assert(!start_code_at(b, c));
    } else if j < c {
        assert(!start_code_at(b, j));
    }
}

/// The position after the start code that begins at `f`: four bytes on for
/// the four-byte form, three otherwise.
pub open spec fn after_start_code(b: Seq<u8>, f: int) -> int {
    if b[f] == 0 && b[f + 1] == 0 && b[f + 2] == 0 && b[f + 3] == 1 {
        f + 4
    } else {
        f + 3
    }
}

/// The NAL unit found from `offset` on: from the first start code up to the
/// next one. There is none when fewer than eight bytes remain, when there
/// is no start code, or when no second start code follows the first.
pub open spec fn nalu_range_at(b: Seq<u8>, offset: int) -> Option<(int, int)> {
    if offset + 8 > b.len() {
        None
    } else {
        match first_start_code(b, offset) {
            None => None,
            Some(f) => {
                let n = after_start_code(b, f);
                if n >= b.len() {
                    None
                } else {
                    match first_start_code(b, n) {
                        None => None,
                        Some(s) => Some((f, s)),
                    }
                }
            },
        }
    }
}

/// Finds the first start code in `buf` from `offset` on.
pub fn find_start_code(buf: &[u8], offset: usize) -> (r: Option<usize>)
    requires
        offset + 3 <= usize::MAX,
    ensures
        r == (match first_start_code(buf@, offset as int) {
            Some(j) => Some(j as usize),
            None => None::<usize>,
        }),
        r is None ==> forall|k: int| offset <= k < buf@.len() - 3 ==> !#[trigger] start_code_at(buf@, k),
{
    if offset + 3 > buf.len() {
        assert(!exists|j: int| is_first_start_code(buf@, offset as int, j));
        return None;
    }
    let len = buf.len() - offset;
    let end: usize = if len >= 3 {
        len - 3
    } else {
        0
    };
    let mut i: usize = 0;
    while i < end
        invariant
            offset + 3 <= buf@.len(),
            buf@.len() == buf.len(),
            len == buf@.len() - offset,
            end == len - 3,
            i <= end,
            forall|k: int| offset <= k < offset + i ==> !#[trigger] start_code_at(buf@, k),
        decreases end - i,
    {
        let j = offset + i;
        if buf[j] == 0 && buf[j + 1] == 0 {
            if buf[j + 2] == 1 {
                assert(is_first_start_code(buf@, offset as int, j as int));
                proof {
                    lemma_first_start_code_unique(buf@, offset as int, j as int);
                }
                return Some(j);
            } else if i + 3 < len && buf[j + 2] == 0 && buf[j + 3] == 1 {
                assert(is_first_start_code(buf@, offset as int, j as int));
                proof {
                    lemma_first_start_code_unique(buf@, offset as int, j as int);
                }
                return Some(j);
            }
        }
        i = i + 1;
    }
    assert(!exists|j: int| is_first_start_code(buf@, offset as int, j));
    None
}

/// Finds the NAL unit that begins at the first start code from `offset` on
/// and ends where the next start code begins.
pub fn find_nalu_range_at(buf: &[u8], offset: usize) -> (r: Option<(usize, usize)>)
    requires
        offset + 8 <= usize::MAX,
        buf@.len() <= isize::MAX,
    ensures
        r == (match nalu_range_at(buf@, offset as int) {
            Some((s, e)) => Some((s as usize, e as usize)),
            None => None::<(usize, usize)>,
        }),
        r matches Some((s, e)) ==> offset <= s && s + 3 <= e && e + 3 < buf@.len()
            && start_code_at(buf@, s as int) && start_code_at(buf@, e as int),
{
    if offset + 8 > buf.len() {
        return None;
    }
    let first_start = match find_start_code(buf, offset) {
        Some(f) => f,
        None => {
            return None;
        },
    };
    proof {
        let c = choose|c: int| is_first_start_code(buf@, offset as int, c);
        assert(is_first_start_code(buf@, offset as int, first_start as int));
    }
    let next_start_search = if buf[first_start] == 0 && buf[first_start + 1] == 0 && buf[first_start
        + 2] == 0 && buf[first_start + 3] == 1 {
        first_start + 4
    } else {
        first_start + 3
    };
    if next_start_search >= buf.len() {
        return None;
    }
    match find_start_code(buf, next_start_search) {
        Some(second_start) => {
            proof {
                let c = choose|c: int| is_first_start_code(buf@, next_start_search as int, c);
                assert(is_first_start_code(buf@, next_start_search as int, second_start as int));
            }
            Some((first_start, second_start))
        },
        None => None,
    }
}

/// Finds the first NAL unit of `buf`.
pub fn find_nalu_range(buf: &[u8]) -> (r: Option<(usize, usize)>)
    requires
        buf@.len() <= isize::MAX,
    ensures
        r == (match nalu_range_at(buf@, 0) {
            Some((s, e)) => Some((s as usize, e as usize)),
            None => None::<(usize, usize)>,
        }),
{
    find_nalu_range_at(buf, 0)
}

/// The NAL units found one after the other from `cursor` on, each search
/// starting where the last unit ended, as (start, end) positions in `b`.
pub open spec fn nalu_ranges(b: Seq<u8>, cursor: int) -> Seq<(int, int)>
    decreases b.len() - cursor,
{
    match nalu_range_at(b, cursor) {
        Some((s, e)) => if cursor < e <= b.len() {
            seq![(s, e)] + nalu_ranges(b, e)
        } else {
            Seq::empty()
        },
        None => Seq::empty(),
    }
}

/// Where the search stands once every NAL unit from `cursor` on has been
/// taken: the end of the last one, or `cursor` if there was none.
pub open spec fn scan_end(b: Seq<u8>, cursor: int) -> int
    decreases b.len() - cursor,
{
    match nalu_range_at(b, cursor) {
        Some((s, e)) => if cursor < e <= b.len() {
            scan_end(b, e)
        } else {
            cursor
        },
        None => cursor,
    }
}

/// What a found NAL unit looks like: it lies after the search position,
/// begins with a start code, and ends where the next start code begins,
/// at least three bytes on and more than three bytes before the end.
proof fn lemma_nalu_range_at_shape(b: Seq<u8>, c: int)
    requires
        nalu_range_at(b, c) is Some,
    ensures
        ({
            let (s, e) = nalu_range_at(b, c)->0;
            &&& c <= s
            &&& s + 3 <= e
            &&& e + 3 < b.len()
            &&& start_code_at(b, s)
            &&& start_code_at(b, e)
        }),
{
    let f = choose|j: int| is_first_start_code(b, c, j);
    let n = after_start_code(b, f);
    let s2 = choose|j: int| is_first_start_code(b, n, j);
}

/// Law: the NAL units taken one after the other are contiguous: each begins
/// with a start code, ends where the next start code begins, and the next
/// unit begins exactly there; the first begins at or after the cursor.
pub proof fn lemma_nalu_ranges_contiguous(b: Seq<u8>, c: int)
    ensures
        ({
            let r = nalu_ranges(b, c);
            &&& r.len() > 0 ==> c <= r[0].0
            &&& forall|k: int|
                0 <= k < r.len() ==> start_code_at(b, #[trigger] r[k].0) && start_code_at(b, r[k].1)
                    && r[k].0 + 3 <= r[k].1 && r[k].1 + 3 < b.len()
            &&& forall|k: int| 0 < k < r.len() ==> #[trigger] r[k].0 == r[k - 1].1
        }),
    decreases b.len() - c,
{
    match nalu_range_at(b, c) {
        Some((s, e)) => {
            if c < e <= b.len() {
                lemma_nalu_range_at_shape(b, c);
                lemma_nalu_ranges_contiguous(b, e);
                let r = nalu_ranges(b, c);
                let rest = nalu_ranges(b, e);
                assert(r == seq![(s, e)] + rest);
                if rest.len() > 0 {
                    lemma_nalu_range_at_shape(b, e);
                    assert(is_first_start_code(b, e, e));
                    lemma_first_start_code_unique(b, e, e);
                    assert(rest[0].0 == e);
                }
                assert forall|k: int| 0 < k < r.len() implies #[trigger] r[k].0 == r[k - 1].1 by {
                    assert(r[k] == rest[k - 1]);
                    if k > 1 {
                        assert(r[k - 1] == rest[k - 2]);
                        assert(rest[k - 1].0 == rest[k - 2].1);
                    }
                }
                assert forall|k: int| 0 <= k < r.len() implies start_code_at(b, #[trigger] r[k].0)
                    && start_code_at(b, r[k].1) && r[k].0 + 3 <= r[k].1 && r[k].1 + 3 < b.len() by {
                    if k > 0 {
                        assert(r[k] == rest[k - 1]);
                    }
                }
            }
        },
        None => {},
    }
}

/// Law: a framed packet begins with a well-formed video header that gives
/// the unit's length (modulo 2^32) and the time stamp, followed by the unit.
pub proof fn lemma_framed_packet_decodes(nalu: Seq<u8>, pts: u64)
    ensures
        ({
            let p = framed_packet(nalu, pts);
            &&& p.len() == VIDEO_HEADER_SIZE + nalu.len()
            &&& decode_video_header(p.subrange(0, VIDEO_HEADER_SIZE as int)) == Ok::<
                VideoHeader,
                ProtocolError,
            >(VideoHeader::new_spec(nalu.len() as u32, pts))
            &&& p.subrange(VIDEO_HEADER_SIZE as int, p.len() as int) == nalu
        }),
{
    let h = VideoHeader::new_spec(nalu.len() as u32, pts);
    let p = framed_packet(nalu, pts);
    assert(p.subrange(0, VIDEO_HEADER_SIZE as int) =~= h.spec_bytes());
    assert(p.subrange(VIDEO_HEADER_SIZE as int, p.len() as int) =~= nalu);
    lemma_video_header_roundtrip(h);
}

/// The NAL units found one after the other from `cursor` on, as byte
/// strings.
pub open spec fn nalu_payloads(b: Seq<u8>, cursor: int) -> Seq<Seq<u8>>
    decreases b.len() - cursor,
{
    match nalu_range_at(b, cursor) {
        Some((s, e)) => if cursor < e <= b.len() {
            seq![b.subrange(s, e)] + nalu_payloads(b, e)
        } else {
            Seq::empty()
        },
        None => Seq::empty(),
    }
}

/// The units as byte strings are the units as positions, read off `b`.
proof fn lemma_payloads_match_ranges(b: Seq<u8>, c: int)
    ensures
        nalu_payloads(b, c).len() == nalu_ranges(b, c).len(),
        forall|k: int|
            0 <= k < nalu_ranges(b, c).len() ==> #[trigger] nalu_payloads(b, c)[k] == b.subrange(
                nalu_ranges(b, c)[k].0,
                nalu_ranges(b, c)[k].1,
            ),
    decreases b.len() - c,
{
    match nalu_range_at(b, c) {
        Some((s, e)) => {
            if c < e <= b.len() {
                lemma_payloads_match_ranges(b, e);
                let p = nalu_payloads(b, c);
                let r = nalu_ranges(b, c);
                assert forall|k: int| 0 <= k < r.len() implies #[trigger] p[k] == b.subrange(
                    r[k].0,
                    r[k].1,
                ) by {
                    if k > 0 {
                        assert(p[k] == nalu_payloads(b, e)[k - 1]);
                        assert(r[k] == nalu_ranges(b, e)[k - 1]);
                    }
                }
            }
        },
        None => {},
    }
}

/// A start code at `c` with more than three bytes after it is the first one
/// from `c` on.
proof fn lemma_start_code_found_at_cursor(b: Seq<u8>, c: int)
    requires
        0 <= c,
        c + 3 < b.len(),
        start_code_at(b, c),
    ensures
        first_start_code(b, c) == Some(c),
{
    assert(is_first_start_code(b, c, c));
    lemma_first_start_code_unique(b, c, c);
}

/// The units taken from `c` on, put back together, are the bytes from the
/// first one's start to where the search ends; with none, the search ends
/// at `c`.
proof fn lemma_payloads_cover(b: Seq<u8>, c: int)
    requires
        0 <= c <= b.len(),
    ensures
        nalu_payloads(b, c).len() == 0 ==> scan_end(b, c) == c,
        nalu_payloads(b, c).len() > 0 ==> {
            let s0 = (nalu_range_at(b, c)->0).0;
            &&& is_first_start_code(b, c, s0)
            &&& c <= s0 < scan_end(b, c) <= b.len()
            &&& nalu_payloads(b, c).flatten() == b.subrange(s0, scan_end(b, c))
            &&& start_code_at(b, scan_end(b, c))
            &&& scan_end(b, c) + 3 < b.len()
        },
    decreases b.len() - c,
{
    match nalu_range_at(b, c) {
        Some((s, e)) => {
            if c < e <= b.len() {
                lemma_nalu_range_at_shape(b, c);
                let f = choose|j: int| is_first_start_code(b, c, j);
                let n = after_start_code(b, f);
                let s2 = choose|j: int| is_first_start_code(b, n, j);
                assert(is_first_start_code(b, c, s));
                lemma_payloads_cover(b, e);
                let rest = nalu_payloads(b, e);
                let p = nalu_payloads(b, c);
                assert(p == seq![b.subrange(s, e)] + rest);
                vstd::seq_lib::lemma_flatten_concat(seq![b.subrange(s, e)], rest);
                seq![b.subrange(s, e)].lemma_flatten_one_element();
                if rest.len() > 0 {
                    lemma_start_code_found_at_cursor(b, e);
                    lemma_nalu_range_at_shape(b, e);
                    assert((nalu_range_at(b, e)->0).0 == e);
                    assert(p.flatten() =~= b.subrange(s, scan_end(b, c)));
                } else {
                    assert(p.flatten() =~= b.subrange(s, e));
                }
            }
        },
        None => {},
    }
}

/// One read of the encoder's output: the stream buffer `buf` with the
/// search at `cursor` takes `data`; gives the buffer and cursor after it and
/// the units sent, in order. Once the search has passed
/// `COMPACT_THRESHOLD`, the consumed bytes are dropped from the buffer.
pub open spec fn feed_step(buf: Seq<u8>, cursor: int, data: Seq<u8>) -> (Seq<u8>, int, Seq<Seq<u8>>) {
    let b = buf + data;
    let end = scan_end(b, cursor);
    let sent = nalu_payloads(b, cursor);
    if end > COMPACT_THRESHOLD {
        (b.subrange(end, b.len() as int), 0, sent)
    } else {
        (b, end, sent)
    }
}

/// The framer after reading `chunks` from a fresh start: its buffer, its
/// cursor, how many bytes of the stream it has dropped from the front, and
/// every unit it has sent, in order.
pub open spec fn framer_run(chunks: Seq<Seq<u8>>) -> (Seq<u8>, int, int, Seq<Seq<u8>>)
    decreases chunks.len(),
{
    if chunks.len() == 0 {
        (Seq::empty(), 0, 0, Seq::empty())
    } else {
        let (buf, cursor, dropped, sent) = framer_run(chunks.drop_last());
        let (buf2, cursor2, sent2) = feed_step(buf, cursor, chunks.last());
        let end = scan_end(buf + chunks.last(), cursor);
        (buf2, cursor2, if end > COMPACT_THRESHOLD {
            dropped + end
        } else {
            dropped
        }, sent + sent2)
    }
}

/// What the framer's state says of the stream read so far: the buffer is
/// the stream without its first `dropped` bytes; nothing sent means
/// nothing dropped or searched; otherwise the units sent are the stream from
/// its first start code up to the search position, where the unit held
/// back begins with a start code.
pub open spec fn framer_state_matches(
    stream: Seq<u8>,
    buf: Seq<u8>,
    cursor: int,
    dropped: int,
    sent: Seq<Seq<u8>>,
) -> bool {
    &&& 0 <= dropped <= stream.len()
    &&& buf == stream.subrange(dropped, stream.len() as int)
    &&& 0 <= cursor <= buf.len()
    &&& sent.len() == 0 ==> dropped == 0 && cursor == 0
    &&& sent.len() > 0 ==> {
        &&& first_start_code(stream, 0) is Some
        &&& sent.flatten() == stream.subrange(first_start_code(stream, 0)->0, dropped + cursor)
        &&& start_code_at(stream, dropped + cursor)
        &&& dropped + cursor + 3 < stream.len()
    }
}

/// A first start code stays first when bytes are appended.
proof fn lemma_first_start_code_extends(s: Seq<u8>, d: Seq<u8>)
    requires
        first_start_code(s, 0) is Some,
    ensures
        first_start_code(s + d, 0) == first_start_code(s, 0),
{
    let k = choose|j: int| is_first_start_code(s, 0, j);
    let t = s + d;
    assert forall|j: int| 0 <= j < k implies !#[trigger] start_code_at(t, j) by {
        assert(!start_code_at(s, j));
    }
    assert(start_code_at(t, k));
    assert(is_first_start_code(t, 0, k));
    lemma_first_start_code_unique(t, 0, k);
}

/// The units of one read, before compaction, continue the units sent.
#[verifier::rlimit(40)]
proof fn lemma_framer_step_sent(
    s_prev: Seq<u8>,
    d: Seq<u8>,
    buf: Seq<u8>,
    cursor: int,
    dropped: int,
    sent: Seq<Seq<u8>>,
)
    requires
        framer_state_matches(s_prev, buf, cursor, dropped, sent),
    ensures
        ({
            let stream = s_prev + d;
            let b = buf + d;
            let end = scan_end(b, cursor);
            &&& b == stream.subrange(dropped, stream.len() as int)
            &&& cursor <= end <= b.len()
            &&& framer_state_matches(stream, b, end, dropped, sent + nalu_payloads(b, cursor))
        }),
{
    let stream = s_prev + d;
    let b = buf + d;
    assert(b =~= stream.subrange(dropped, stream.len() as int));
    let end = scan_end(b, cursor);
    let sent2 = nalu_payloads(b, cursor);
    lemma_payloads_cover(b, cursor);
    vstd::seq_lib::lemma_flatten_concat(sent, sent2);
    if sent.len() > 0 {
        lemma_first_start_code_extends(s_prev, d);
        let k = first_start_code(s_prev, 0)->0;
        assert(start_code_at(b, cursor));
        assert(s_prev.subrange(k, dropped + cursor) =~= stream.subrange(k, dropped + cursor));
        assert(sent.flatten() == stream.subrange(k, dropped + cursor));
        if sent2.len() > 0 {
            let s0 = (nalu_range_at(b, cursor)->0).0;
            assert(is_first_start_code(b, cursor, cursor));
            assert(s0 == cursor) by {
                if s0 > cursor {
                    assert(!start_code_at(b, cursor));
                }
            }
            assert(sent2.flatten() == b.subrange(cursor, end));
            assert(b.subrange(cursor, end) =~= stream.subrange(dropped + cursor, dropped + end));
            assert((sent + sent2).flatten() == sent.flatten() + sent2.flatten());
            assert((sent + sent2).flatten() =~= stream.subrange(k, dropped + end));
        } else {
            assert(sent + sent2 =~= sent);
            assert(end == cursor);
        }
    } else {
        assert(b =~= stream);
        if sent2.len() > 0 {
            let s0 = (nalu_range_at(b, cursor)->0).0;
            lemma_first_start_code_unique(stream, 0, s0);
            assert((sent + sent2).flatten() =~= stream.subrange(s0, dropped + end));
        } else {
            assert(sent + sent2 =~= sent);
        }
    }
}

/// Compacting the buffer keeps the framer's state matching the stream.
proof fn lemma_framer_compact(
    stream: Seq<u8>,
    b: Seq<u8>,
    end: int,
    dropped: int,
    sent: Seq<Seq<u8>>,
)
    requires
        framer_state_matches(stream, b, end, dropped, sent),
        end > COMPACT_THRESHOLD,
    ensures
        framer_state_matches(stream, b.subrange(end, b.len() as int), 0, dropped + end, sent),
{
    assert(b.subrange(end, b.len() as int) =~= stream.subrange(dropped + end, stream.len() as int));
}

/// Law: over any sequence of reads, the framer keeps the unread part of the
/// stream, and the units it sends are the stream itself from its first
/// start code on, each byte once and in order, up to the start code where
/// the unit it still holds back begins.
pub proof fn lemma_framer_stream(chunks: Seq<Seq<u8>>)
    ensures
        ({
            let (buf, cursor, dropped, sent) = framer_run(chunks);
            framer_state_matches(chunks.flatten(), buf, cursor, dropped, sent)
        }),
    decreases chunks.len(),
{
    if chunks.len() == 0 {
        assert(chunks.flatten() =~= Seq::<u8>::empty());
        assert(Seq::<u8>::empty().subrange(0, 0) =~= Seq::<u8>::empty());
    } else {
        let prev = chunks.drop_last();
        let d = chunks.last();
        lemma_framer_stream(prev);
        let (buf, cursor, dropped, sent) = framer_run(prev);
        assert(chunks == prev.push(d));
        prev.lemma_flatten_push(d);
        let stream = chunks.flatten();
        assert(stream == prev.flatten() + d);
        lemma_framer_step_sent(prev.flatten(), d, buf, cursor, dropped, sent);
        let b = buf + d;
        let end = scan_end(b, cursor);
        if end > COMPACT_THRESHOLD {
            lemma_framer_compact(stream, b, end, dropped, sent + nalu_payloads(b, cursor));
        }
    }
}

/// The packet that carries `nalu` to the client: a well-formed video header
/// with the unit's length and the time stamp `pts`, then the unit.
pub open spec fn framed_packet(nalu: Seq<u8>, pts: u64) -> Seq<u8> {
    VideoHeader::new_spec(nalu.len() as u32, pts).spec_bytes() + nalu
}

/// `p` is the packet for `nalu` with some time stamp.
pub open spec fn frames_nalu(p: Seq<u8>, nalu: Seq<u8>) -> bool {
    exists|pts: u64| p == framed_packet(nalu, pts)
}

/// Wraps one NAL unit in a video header stamped `pts`.
pub fn frame_packet(nalu: &[u8], pts: u64) -> (p: Vec<u8>)
    ensures
        p@ == framed_packet(nalu@, pts),
{
    let header = VideoHeader::new(nalu.len() as u32, pts);
    let mut header_buf = [0u8; VIDEO_HEADER_SIZE];
    header.encode(&mut header_buf);
    let mut packet: Vec<u8> = Vec::with_capacity(VIDEO_HEADER_SIZE);
    packet.extend_from_slice(&header_buf);
    packet.extend_from_slice(nalu);
    assert(packet@ =~= framed_packet(nalu@, pts));
    packet
}

/// The encoder's byte stream as far as it has been read, and where the
/// search for the next NAL unit resumes.
pub struct NaluFramer {
    stream_buf: Vec<u8>,
    cursor: usize,
}

impl NaluFramer {
    /// The bytes held.
    pub closed spec fn spec_buffer(&self) -> Seq<u8> {
        self.stream_buf@
    }

    /// Where the next search starts.
    pub closed spec fn spec_cursor(&self) -> int {
        self.cursor as int
    }

    /// The cursor lies within the buffer.
    pub open spec fn wf(&self) -> bool {
        &&& 0 <= self.spec_cursor() <= self.spec_buffer().len()
        &&& self.spec_buffer().len() <= isize::MAX
    }

    /// An empty stream.
    pub fn new() -> (f: Self)
        ensures
            f.wf(),
            f.spec_buffer() == Seq::<u8>::empty(),
            f.spec_cursor() == 0,
    {
        NaluFramer { stream_buf: Vec::new(), cursor: 0 }
    }

    /// The number of bytes held.
    pub fn buffered_len(&self) -> (n: usize)
        ensures
            n == self.spec_buffer().len(),
    {
        self.stream_buf.len()
    }

    /// Appends `data` to the stream and takes out every complete NAL unit,
    /// each wrapped in a video header stamped with the time it was framed;
    /// once more than `COMPACT_THRESHOLD` bytes are consumed they are
    /// dropped from the buffer. What the clock reads is not stated.
    pub fn feed(&mut self, data: &[u8]) -> (packets: Vec<Vec<u8>>)
        requires
            old(self).wf(),
            old(self).spec_buffer().len() + data@.len() <= isize::MAX,
        ensures
            final(self).wf(),
            ({
                let (buf, cursor, sent) = feed_step(
                    old(self).spec_buffer(),
                    old(self).spec_cursor(),
                    data@,
                );
                &&& final(self).spec_buffer() == buf
                &&& final(self).spec_cursor() == cursor
                &&& packets@.len() == sent.len()
                &&& forall|k: int|
                    0 <= k < sent.len() ==> frames_nalu(#[trigger] packets@[k]@, sent[k])
            }),
    {
        self.stream_buf.extend_from_slice(data);
        let ghost b = self.stream_buf@;
        let ghost c0 = self.cursor as int;
        assert(b =~= old(self).spec_buffer() + data@);
        let mut packets: Vec<Vec<u8>> = Vec::new();
        let ghost mut done: Seq<(int, int)> = Seq::empty();
        let mut next = find_nalu_range_at(self.stream_buf.as_slice(), self.cursor);
        while next.is_some()
            invariant
                self.stream_buf@ == b,
                b.len() <= isize::MAX,
                c0 <= self.cursor <= b.len(),
                next == (match nalu_range_at(b, self.cursor as int) {
                    Some((s, e)) => Some((s as usize, e as usize)),
                    None => None::<(usize, usize)>,
                }),
                next matches Some((s, e)) ==> self.cursor <= s && s + 3 <= e && e + 3 < b.len(),
                nalu_ranges(b, c0) == done + nalu_ranges(b, self.cursor as int),
                scan_end(b, c0) == scan_end(b, self.cursor as int),
                packets@.len() == done.len(),
                forall|k: int|
                    0 <= k < done.len() ==> frames_nalu(
                        #[trigger] packets@[k]@,
                        b.subrange(done[k].0, done[k].1),
                    ),
            decreases b.len() - self.cursor,
        {
            let (s, e) = next.unwrap();
            let nalu = vstd::slice::slice_subrange(self.stream_buf.as_slice(), s, e);
            let pts = crate::clock::now_micros();
            let packet = frame_packet(nalu, pts);
            assert(frames_nalu(packet@, b.subrange(s as int, e as int)));
            proof {
                assert(nalu_ranges(b, self.cursor as int) == seq![(s as int, e as int)]
                    + nalu_ranges(b, e as int));
                assert(done + nalu_ranges(b, self.cursor as int) =~= done.push((s as int, e as int))
                    + nalu_ranges(b, e as int));
                done = done.push((s as int, e as int));
            }
            packets.push(packet);
            self.cursor = e;
            next = find_nalu_range_at(self.stream_buf.as_slice(), self.cursor);
        }
        assert(done =~= nalu_ranges(b, c0));
        proof {
            lemma_payloads_match_ranges(b, c0);
        }
        if self.cursor > COMPACT_THRESHOLD {
            let rest = self.stream_buf.split_off(self.cursor);
            self.stream_buf = rest;
            self.cursor = 0;
        }
        packets
    }
}

} // verus!
