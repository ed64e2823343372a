use vstd::prelude::*;
use vstd::utf8::{
    decode_utf8, decode_utf8_encode_utf8, encode_utf8, encode_utf8_decode_utf8, encode_utf8_valid_utf8,
    valid_utf8,
};

use crate::event::{strings_view, Event, EventView};

verus! {

/// The eight little-endian bytes of `n`.
pub open spec fn enc_u64(n: u64) -> Seq<u8> {
    seq![
        (n & 0xff) as u8,
        ((n >> 8u64) & 0xff) as u8,
        ((n >> 16u64) & 0xff) as u8,
        ((n >> 24u64) & 0xff) as u8,
        ((n >> 32u64) & 0xff) as u8,
        ((n >> 40u64) & 0xff) as u8,
        ((n >> 48u64) & 0xff) as u8,
        ((n >> 56u64) & 0xff) as u8,
    ]
}

/// One chunk on the wire: its length as eight bytes, then its bytes.
pub open spec fn enc_chunk(c: Seq<u8>) -> Seq<u8> {
    enc_u64(c.len() as u64) + c
}

/// A list of chunks on the wire, one after another.
pub open spec fn enc_chunks(cs: Seq<Seq<u8>>) -> Seq<u8>
    decreases cs.len(),
{
    if cs.len() == 0 {
        Seq::empty()
    } else {
        enc_chunk(cs[0]) + enc_chunks(cs.drop_first())
    }
}

/// Every chunk of the list is short enough for its length to fit in eight bytes.
pub open spec fn chunks_fit(cs: Seq<Seq<u8>>) -> bool {
    forall|i: int| 0 <= i < cs.len() ==> #[trigger] cs[i].len() <= u64::MAX
}

/// Appending a chunk appends its encoding.
pub proof fn lemma_enc_chunks_push(cs: Seq<Seq<u8>>, c: Seq<u8>)
    ensures
        enc_chunks(cs.push(c)) == enc_chunks(cs) + enc_chunk(c),
    decreases cs.len(),
{
    if cs.len() == 0 {
        assert(cs.push(c).drop_first() =~= Seq::<Seq<u8>>::empty());
        assert(cs.push(c)[0] == c);
        assert(enc_chunks(cs.push(c).drop_first()) == Seq::<u8>::empty());
        assert(enc_chunks(cs.push(c)) =~= enc_chunk(c));
    } else {
        assert(cs.push(c).drop_first() =~= cs.drop_first().push(c));
        assert(cs.push(c)[0] == cs[0]);
        lemma_enc_chunks_push(cs.drop_first(), c);
        assert(enc_chunks(cs.push(c)) == enc_chunk(cs[0]) + enc_chunks(cs.drop_first().push(c)));
        assert(enc_chunks(cs) == enc_chunk(cs[0]) + enc_chunks(cs.drop_first()));
        assert(enc_chunks(cs.push(c)) =~= enc_chunks(cs) + enc_chunk(c));
    }
}

/// Appends the eight bytes of `n`.
pub fn push_u64(out: &mut Vec<u8>, n: u64)
    ensures
        final(out)@ == old(out)@ + enc_u64(n),
{
    out.push((n & 0xff) as u8);
    out.push(((n >> 8u64) & 0xff) as u8);
    out.push(((n >> 16u64) & 0xff) as u8);
    out.push(((n >> 24u64) & 0xff) as u8);
    out.push(((n >> 32u64) & 0xff) as u8);
    out.push(((n >> 40u64) & 0xff) as u8);
    out.push(((n >> 48u64) & 0xff) as u8);
    out.push(((n >> 56u64) & 0xff) as u8);
    assert(final(out)@ =~= old(out)@ + enc_u64(n));
}

/// Reads back the number whose eight bytes stand at `pos`.
pub(crate) fn read_u64(b: &Vec<u8>, pos: usize, Ghost(n): Ghost<u64>) -> (r: u64)
    requires
        pos + 8 <= b@.len(),
        b@.subrange(pos as int, pos + 8) == enc_u64(n),
    ensures
        r == n,
{
    let blen = b.len();
    assert(pos + 8 <= blen);
    let b0 = b[pos];
    let b1 = b[pos + 1];
    let b2 = b[pos + 2];
    let b3 = b[pos + 3];
    let b4 = b[pos + 4];
    let b5 = b[pos + 5];
    let b6 = b[pos + 6];
    let b7 = b[pos + 7];
    assert(b0 == (n & 0xff) as u8 && b1 == ((n >> 8u64) & 0xff) as u8 && b2 == ((n >> 16u64)
        & 0xff) as u8 && b3 == ((n >> 24u64) & 0xff) as u8 && b4 == ((n >> 32u64) & 0xff) as u8
        && b5 == ((n >> 40u64) & 0xff) as u8 && b6 == ((n >> 48u64) & 0xff) as u8 && b7 == ((n
        >> 56u64) & 0xff) as u8) by {
        assert(b@.subrange(pos as int, pos + 8)[0] == b0);
        assert(b@.subrange(pos as int, pos + 8)[1] == b1);
        assert(b@.subrange(pos as int, pos + 8)[2] == b2);
        assert(b@.subrange(pos as int, pos + 8)[3] == b3);
        assert(b@.subrange(pos as int, pos + 8)[4] == b4);
        assert(b@.subrange(pos as int, pos + 8)[5] == b5);
        assert(b@.subrange(pos as int, pos + 8)[6] == b6);
        assert(b@.subrange(pos as int, pos + 8)[7] == b7);
    }
    let r: u64 = (b0 as u64) | ((b1 as u64) << 8u64) | ((b2 as u64) << 16u64) | ((b3 as u64)
        << 24u64) | ((b4 as u64) << 32u64) | ((b5 as u64) << 40u64) | ((b6 as u64) << 48u64) | ((
    b7 as u64) << 56u64);
    assert(r == n) by (bit_vector)
        requires
            r == (b0 as u64) | ((b1 as u64) << 8u64) | ((b2 as u64) << 16u64) | ((b3 as u64)
                << 24u64) | ((b4 as u64) << 32u64) | ((b5 as u64) << 40u64) | ((b6 as u64)
                << 48u64) | ((b7 as u64) << 56u64),
            b0 == (n & 0xff) as u8,
            b1 == ((n >> 8u64) & 0xff) as u8,
            b2 == ((n >> 16u64) & 0xff) as u8,
            b3 == ((n >> 24u64) & 0xff) as u8,
            b4 == ((n >> 32u64) & 0xff) as u8,
            b5 == ((n >> 40u64) & 0xff) as u8,
            b6 == ((n >> 48u64) & 0xff) as u8,
            b7 == ((n >> 56u64) & 0xff) as u8,
    ;
    r
}

/// Appends one chunk: its length, then its bytes.
pub fn push_chunk(out: &mut Vec<u8>, c: &[u8])
    ensures
        final(out)@ == old(out)@ + enc_chunk(c@),
        c@.len() <= u64::MAX,
{
    push_u64(out, c.len() as u64);
    let ghost mid = out@;
    let mut i: usize = 0;
    while i < c.len()
        invariant
            i <= c@.len(),
            out@ == mid + c@.subrange(0, i as int),
        decreases c@.len() - i,
    {
        out.push(c[i]);
        i = i + 1;
        assert(out@ =~= mid + c@.subrange(0, i as int));
    }
    assert(c@.subrange(0, c@.len() as int) =~= c@);
    assert(out@ =~= old(out)@ + enc_chunk(c@));
}

/// Splits bytes that encode a list of chunks back into those chunks.
pub(crate) fn read_chunks(b: &Vec<u8>, Ghost(cs): Ghost<Seq<Seq<u8>>>) -> (r: Vec<Vec<u8>>)
    requires
        b@ == enc_chunks(cs),
        chunks_fit(cs),
    ensures
        r@.len() == cs.len(),
        forall|i: int| 0 <= i < cs.len() ==> #[trigger] r@[i]@ == cs[i],
{
    let mut r: Vec<Vec<u8>> = Vec::new();
    let mut pos: usize = 0;
    let ghost mut i: int = 0;
    assert(cs.skip(0) =~= cs);
    while pos < b.len()
        invariant
            0 <= i <= cs.len(),
            pos <= b@.len(),
            b@.subrange(pos as int, b@.len() as int) == enc_chunks(cs.skip(i)),
            r@.len() == i,
            forall|j: int| 0 <= j < i ==> #[trigger] r@[j]@ == cs[j],
            chunks_fit(cs),
        decreases b@.len() - pos,
    {
        let ghost rest = cs.skip(i);
        assert(rest.len() > 0) by {
            if rest.len() == 0 {
                assert(enc_chunks(rest).len() == 0);
            }
        }
        let ghost c = rest[0];
        assert(rest.drop_first() =~= cs.skip(i + 1));
        let ghost tail = b@.subrange(pos as int, b@.len() as int);
        assert(enc_chunks(rest) == enc_chunk(rest[0]) + enc_chunks(rest.drop_first()));
        assert(tail == enc_u64(c.len() as u64) + c + enc_chunks(cs.skip(i + 1)));
        assert(tail.len() >= 8);
        assert(b@.subrange(pos as int, pos + 8) =~= tail.subrange(0, 8));
        assert(tail.subrange(0, 8) =~= enc_u64(c.len() as u64));
        assert(c.len() <= u64::MAX) by {
            assert(c == cs[i]);
        }
        let len = read_u64(b, pos, Ghost(c.len() as u64));
        let blen = b.len();
        let start = pos + 8;
        assert(b@.subrange(start as int, start + c.len()) =~= tail.subrange(8, 8 + c.len() as int));
        assert(tail.subrange(8, 8 + c.len() as int) =~= c);
        let mut chunk: Vec<u8> = Vec::new();
        let mut k: usize = 0;
        while k < len as usize
            invariant
                k <= c.len(),
                len == c.len(),
                start == pos + 8,
                start + c.len() <= blen,
                blen == b@.len(),
                b@.subrange(start as int, start + c.len()) == c,
                chunk@ == c.subrange(0, k as int),
            decreases c.len() - k,
        {
            assert(b@[start + k] == c[k as int]) by {
                assert(b@.subrange(start as int, start + c.len())[k as int] == b@[start + k]);
            }
            chunk.push(b[start + k]);
            k = k + 1;
            assert(chunk@ =~= c.subrange(0, k as int));
        }
        assert(chunk@ =~= c);
        r.push(chunk);
        pos = start + len as usize;
        proof {
            assert(b@.subrange(pos as int, b@.len() as int) =~= tail.subrange(
                8 + c.len() as int,
                tail.len() as int,
            ));
            assert(tail.subrange(8 + c.len() as int, tail.len() as int) =~= enc_chunks(cs.skip(i + 1)));
            i = i + 1;
        }
    }
    assert(i == cs.len()) by {
        if i < cs.len() {
            let rest = cs.skip(i);
            assert(rest.len() > 0);
            assert(enc_chunks(rest).len() >= 8);
        }
    }
    r
}

/// Relies on std's String::from_utf8: it succeeds exactly on valid UTF-8, and
/// then holds the characters those bytes encode.
#[verifier::external_body]
fn string_from_utf8(b: Vec<u8>) -> (r: Option<String>)
    ensures
        r is Some <==> valid_utf8(b@),
        r is Some ==> r->0@ == decode_utf8(b@),
{
    String::from_utf8(b).ok()
}

/// The optional update time as a chunk: empty when absent, else its eight bytes.
pub open spec fn enc_opt(t: Option<u64>) -> Seq<u8> {
    match t {
        Some(v) => enc_u64(v),
        None => Seq::empty(),
    }
}

/// The chunks that a record is stored as: id, the five strings in UTF-8,
/// creation time, update time, then one chunk per attendee.
pub open spec fn fields(ev: EventView) -> Seq<Seq<u8>> {
    seq![
        enc_u64(ev.id),
        encode_utf8(ev.event_description),
        encode_utf8(ev.owner),
        encode_utf8(ev.event_title),
        encode_utf8(ev.event_location),
        encode_utf8(ev.event_card_imgurl),
        enc_u64(ev.created_at),
        enc_opt(ev.updated_at),
    ] + ev.attendees.map_values(|a: Seq<char>| encode_utf8(a))
}

/// The bytes that a record is stored as.
pub open spec fn enc_event(ev: EventView) -> Seq<u8> {
    enc_chunks(fields(ev))
}

/// The record's chunks are short enough to be framed.
pub open spec fn event_fits(ev: EventView) -> bool {
    chunks_fit(fields(ev))
}

/// The text that UTF-8 bytes encode.
fn text_of(c: Vec<u8>, Ghost(s): Ghost<Seq<char>>) -> (r: String)
    requires
        c@ == encode_utf8(s),
    ensures
        r@ == s,
{
    proof {
        encode_utf8_valid_utf8(s);
        encode_utf8_decode_utf8(s);
    }
    match string_from_utf8(c) {
        Some(t) => t,
        None => String::new(),
    }
}

/// Appends a string as one chunk of its UTF-8 bytes.
fn push_text(out: &mut Vec<u8>, s: &String)
    ensures
        final(out)@ == old(out)@ + enc_chunk(encode_utf8(s@)),
        encode_utf8(s@).len() <= u64::MAX,
{
    push_chunk(out, s.as_str().as_bytes());
}

/// Appends a number as one chunk of its eight bytes.
fn push_number(out: &mut Vec<u8>, n: u64)
    ensures
        final(out)@ == old(out)@ + enc_chunk(enc_u64(n)),
{
    let mut t: Vec<u8> = Vec::new();
    push_u64(&mut t, n);
    assert(t@ =~= enc_u64(n));
    push_chunk(out, t.as_slice());
}

/// The bytes that `e` is stored as.
pub fn encode_event(e: &Event) -> (r: Vec<u8>)
    ensures
        r@ == enc_event(e@),
        event_fits(e@),
{
    let ghost ev = e@;
    let ghost fs = fields(ev);
    let mut out: Vec<u8> = Vec::new();
    push_number(&mut out, e.id);
    proof { lemma_enc_chunks_push(Seq::empty(), fs[0]); assert(fs.take(1) =~= Seq::<Seq<u8>>::empty().push(fs[0])); }
    push_text(&mut out, &e.event_description);
    proof { lemma_enc_chunks_push(fs.take(1), fs[1]); assert(fs.take(2) =~= fs.take(1).push(fs[1])); }
    push_text(&mut out, &e.owner);
    proof { lemma_enc_chunks_push(fs.take(2), fs[2]); assert(fs.take(3) =~= fs.take(2).push(fs[2])); }
    push_text(&mut out, &e.event_title);
    proof { lemma_enc_chunks_push(fs.take(3), fs[3]); assert(fs.take(4) =~= fs.take(3).push(fs[3])); }
    push_text(&mut out, &e.event_location);
    proof { lemma_enc_chunks_push(fs.take(4), fs[4]); assert(fs.take(5) =~= fs.take(4).push(fs[4])); }
    push_text(&mut out, &e.event_card_imgurl);
    proof { lemma_enc_chunks_push(fs.take(5), fs[5]); assert(fs.take(6) =~= fs.take(5).push(fs[5])); }
    push_number(&mut out, e.created_at);
    proof { lemma_enc_chunks_push(fs.take(6), fs[6]); assert(fs.take(7) =~= fs.take(6).push(fs[6])); }
    match e.updated_at {
        Some(t) => push_number(&mut out, t),
        None => push_chunk(&mut out, &[]),
    }
    proof {
        assert(enc_chunk(Seq::<u8>::empty()) =~= enc_u64(0) + Seq::<u8>::empty());
        lemma_enc_chunks_push(fs.take(7), fs[7]);
        assert(fs.take(8) =~= fs.take(7).push(fs[7]));
        assert(out@ == enc_chunks(fs.take(8)));
    }
    let mut i: usize = 0;
    while i < e.attendees.len()
        invariant
            i <= e.attendees@.len(),
            fs == fields(ev),
            ev == e@,
            fs.len() == 8 + e.attendees@.len(),
            out@ == enc_chunks(fs.take(8 + i)),
            forall|j: int| 0 <= j < 8 + i ==> #[trigger] fs[j].len() <= u64::MAX,
        decreases e.attendees@.len() - i,
    {
        push_text(&mut out, &e.attendees[i]);
        proof {
            assert(fs[8 + i] == encode_utf8(e.attendees@[i as int]@));
            lemma_enc_chunks_push(fs.take(8 + i), fs[8 + i]);
            assert(fs.take(8 + i + 1) =~= fs.take(8 + i).push(fs[8 + i]));
        }
        i = i + 1;
    }
    assert(fs.take(8 + i) =~= fs);
    out
}

/// The record that bytes written by `encode_event` stand for.
pub(crate) fn decode_event(b: &Vec<u8>, Ghost(ev): Ghost<EventView>) -> (r: Event)
    requires
        b@ == enc_event(ev),
        event_fits(ev),
    ensures
        r@ == ev,
{
    let ghost fs = fields(ev);
    let mut cs = read_chunks(b, Ghost(fs));
    assert(fs.len() == 8 + ev.attendees.len());
    let c = cs.remove(0);
    assert(c@ =~= enc_u64(ev.id));
    assert(c@.subrange(0, 8) =~= c@);
    let id = read_u64(&c, 0, Ghost(ev.id));
    let event_description = text_of(cs.remove(0), Ghost(ev.event_description));
    let owner = text_of(cs.remove(0), Ghost(ev.owner));
    let event_title = text_of(cs.remove(0), Ghost(ev.event_title));
    let event_location = text_of(cs.remove(0), Ghost(ev.event_location));
    let event_card_imgurl = text_of(cs.remove(0), Ghost(ev.event_card_imgurl));
    let c = cs.remove(0);
    assert(c@ =~= enc_u64(ev.created_at));
    assert(c@.subrange(0, 8) =~= c@);
    let created_at = read_u64(&c, 0, Ghost(ev.created_at));
    let c = cs.remove(0);
    let updated_at = if c.len() == 0 {
        None
    } else {
        assert(c@ =~= enc_u64(ev.updated_at->0));
        assert(c@.subrange(0, 8) =~= c@);
        Some(read_u64(&c, 0, Ghost(ev.updated_at->0)))
    };
    let mut attendees: Vec<String> = Vec::new();
    while cs.len() > 0
        invariant
            fs == fields(ev),
            attendees@.len() + cs@.len() == ev.attendees.len(),
            forall|j: int| 0 <= j < attendees@.len() ==> #[trigger] attendees@[j]@ == ev.attendees[j],
            forall|j: int| 0 <= j < cs@.len() ==> #[trigger] cs@[j]@ == encode_utf8(ev.attendees[attendees@.len() + j]),
        decreases cs@.len(),
    {
        let ghost k = attendees@.len();
        let c = cs.remove(0);
        attendees.push(text_of(c, Ghost(ev.attendees[k as int])));
    }
    let r = Event {
        id,
        event_description,
        owner,
        event_title,
        event_location,
        event_card_imgurl,
        attendees,
        created_at,
        updated_at,
    };
    assert(r@.attendees =~= ev.attendees);
    r
}

/// The byte strings that a list of vectors holds.
pub open spec fn chunk_views(v: Seq<Vec<u8>>) -> Seq<Seq<u8>> {
    v.map_values(|c: Vec<u8>| c@)
}

/// Reads the number whose eight bytes stand at `pos`, whatever they are.
fn read_u64_any(b: &Vec<u8>, pos: usize) -> (r: u64)
    requires
        pos + 8 <= b@.len(),
    ensures
        enc_u64(r) == b@.subrange(pos as int, pos + 8),
{
    let blen = b.len();
    let b0 = b[pos];
    let b1 = b[pos + 1];
    let b2 = b[pos + 2];
    let b3 = b[pos + 3];
    let b4 = b[pos + 4];
    let b5 = b[pos + 5];
    let b6 = b[pos + 6];
    let b7 = b[pos + 7];
    let r: u64 = (b0 as u64) | ((b1 as u64) << 8u64) | ((b2 as u64) << 16u64) | ((b3 as u64)
        << 24u64) | ((b4 as u64) << 32u64) | ((b5 as u64) << 40u64) | ((b6 as u64) << 48u64) | ((
    b7 as u64) << 56u64);
    assert(b0 == (r & 0xff) as u8 && b1 == ((r >> 8u64) & 0xff) as u8 && b2 == ((r >> 16u64)
        & 0xff) as u8 && b3 == ((r >> 24u64) & 0xff) as u8 && b4 == ((r >> 32u64) & 0xff) as u8
        && b5 == ((r >> 40u64) & 0xff) as u8 && b6 == ((r >> 48u64) & 0xff) as u8 && b7 == ((r
        >> 56u64) & 0xff) as u8) by (bit_vector)
        requires
            r == (b0 as u64) | ((b1 as u64) << 8u64) | ((b2 as u64) << 16u64) | ((b3 as u64)
                << 24u64) | ((b4 as u64) << 32u64) | ((b5 as u64) << 40u64) | ((b6 as u64)
                << 48u64) | ((b7 as u64) << 56u64),
    ;
    assert(enc_u64(r) =~= b@.subrange(pos as int, pos + 8));
    r
}

/// Splits bytes into the chunks they frame; `None` when they do not frame a
/// list of chunks.
fn parse_chunks(b: &Vec<u8>) -> (r: Option<Vec<Vec<u8>>>)
    ensures
        r is Some ==> b@ == enc_chunks(chunk_views(r->0@)) && chunks_fit(chunk_views(r->0@)),
{
    let blen = b.len();
    let mut r: Vec<Vec<u8>> = Vec::new();
    let mut pos: usize = 0;
    assert(b@.subrange(0, 0) =~= enc_chunks(chunk_views(r@)));
    while pos < blen
        invariant
            blen == b@.len(),
            pos <= blen,
            b@.subrange(0, pos as int) == enc_chunks(chunk_views(r@)),
            chunks_fit(chunk_views(r@)),
        decreases blen - pos,
    {
        if blen - pos < 8 {
            return None;
        }
        let len = read_u64_any(b, pos);
        let start = pos + 8;
        if len > (blen - start) as u64 {
            return None;
        }
        let end = start + len as usize;
        let mut chunk: Vec<u8> = Vec::new();
        let mut k: usize = start;
        while k < end
            invariant
                start <= k <= end,
                end <= blen,
                blen == b@.len(),
                chunk@ == b@.subrange(start as int, k as int),
            decreases end - k,
        {
            chunk.push(b[k]);
            k = k + 1;
            assert(chunk@ =~= b@.subrange(start as int, k as int));
        }
        let ghost before = chunk_views(r@);
        proof {
            lemma_enc_chunks_push(before, chunk@);
            assert(b@.subrange(0, end as int) =~= b@.subrange(0, pos as int) + b@.subrange(
                pos as int,
                start as int,
            ) + chunk@);
        }
        r.push(chunk);
        assert(chunk_views(r@) =~= before.push(chunk@));
        pos = end;
    }
    assert(b@.subrange(0, blen as int) =~= b@);
    Some(r)
}

/// The text that bytes encode, if they are UTF-8.
fn text_any(c: Vec<u8>) -> (r: Option<String>)
    ensures
        r is Some ==> encode_utf8(r->0@) == c@,
{
    let ghost bytes = c@;
    let r = string_from_utf8(c);
    proof {
        if r is Some {
            decode_utf8_encode_utf8(bytes);
        }
    }
    r
}

/// The record that bytes stand for; `None` when they are no record's encoding.
pub fn parse_event(b: &Vec<u8>) -> (r: Option<Event>)
    ensures
        r is Some ==> b@ == enc_event(r->0@) && event_fits(r->0@),
{
    let mut cs = match parse_chunks(b) {
        Some(cs) => cs,
        None => {
            return None;
        },
    };
    let ghost vs = chunk_views(cs@);
    if cs.len() < 8 {
        return None;
    }
    let c = cs.remove(0);
    if c.len() != 8 {
        return None;
    }
    let id = read_u64_any(&c, 0);
    assert(c@.subrange(0, 8) =~= c@);
    let event_description = match text_any(cs.remove(0)) { Some(t) => t, None => { return None; } };
    let owner = match text_any(cs.remove(0)) { Some(t) => t, None => { return None; } };
    let event_title = match text_any(cs.remove(0)) { Some(t) => t, None => { return None; } };
    let event_location = match text_any(cs.remove(0)) { Some(t) => t, None => { return None; } };
    let event_card_imgurl = match text_any(cs.remove(0)) { Some(t) => t, None => { return None; } };
    let c6 = cs.remove(0);
    if c6.len() != 8 {
        return None;
    }
    let created_at = read_u64_any(&c6, 0);
    assert(c6@.subrange(0, 8) =~= c6@);
    let c7 = cs.remove(0);
    let updated_at = if c7.len() == 0 {
        assert(c7@ =~= Seq::<u8>::empty());
        None
    } else if c7.len() == 8 {
        assert(c7@.subrange(0, 8) =~= c7@);
        Some(read_u64_any(&c7, 0))
    } else {
        return None;
    };
    assert(chunk_views(cs@) =~= vs.skip(8));
    let mut attendees: Vec<String> = Vec::new();
    while cs.len() > 0
        invariant
            vs.len() >= 8,
            chunk_views(cs@) == vs.skip(8 + attendees@.len() as int),
            8 + attendees@.len() <= vs.len(),
            forall|j: int| 0 <= j < attendees@.len() ==> #[trigger] encode_utf8(attendees@[j]@) == vs[8 + j],
        decreases cs@.len(),
    {
        let ghost n: int = attendees@.len() as int;
        let ghost rest = chunk_views(cs@);
        let ghost old_cs = cs@;
        assert(rest.len() == cs@.len());
        assert(rest[0] == vs[8 + n]);
        let c = cs.remove(0);
        assert forall|j: int| 0 <= j < cs@.len() implies #[trigger] chunk_views(cs@)[j] == vs.skip(8 + n + 1)[j] by {
            assert(cs@[j] == old_cs[j + 1]);
            assert(rest[j + 1] == old_cs[j + 1]@);
        }
        assert(chunk_views(cs@) =~= vs.skip(8 + n + 1));
        match text_any(c) {
            Some(t) => attendees.push(t),
            None => {
                return None;
            },
        }
    }
    let r = Event {
        id,
        event_description,
        owner,
        event_title,
        event_location,
        event_card_imgurl,
        attendees,
        created_at,
        updated_at,
    };
    assert(fields(r@) =~= vs);
    Some(r)
}

} // verus!
