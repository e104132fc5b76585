//! The tile graphics protocol: `ESC _G <control> ; <payload> ESC \` frames, with
//! payloads longer than one chunk split over several frames.
use vstd::prelude::*;
use vstd::string::*;
use vstd::utf8::is_ascii_chars;
use crate::codec::{base64_encode, base64_of};
use crate::text::{decimal_of, push_decimal};

verus! {

/// The most payload bytes that one frame carries.
pub const CHUNK_SIZE: usize = 4096;

/// One frame: start marker, control data, `;`, payload, end marker.
pub open spec fn tile_frame(control: Seq<char>, payload: Seq<char>) -> Seq<char> {
    "\x1b_G"@ + control + ";"@ + payload + "\x1b\\"@
}

/// Number of chunks a payload of `len` symbols is cut into.
pub open spec fn chunk_count(len: nat) -> nat {
    ((len + CHUNK_SIZE - 1) / CHUNK_SIZE as int) as nat
}

/// Chunk `i`: symbols `i * CHUNK_SIZE` up to the next boundary or the end.
pub open spec fn chunk_of(payload: Seq<char>, i: int) -> Seq<char> {
    let start = i * CHUNK_SIZE;
    let end = if start + CHUNK_SIZE <= payload.len() { start + CHUNK_SIZE } else { payload.len() as int };
    payload.subrange(start, end)
}

/// The continuation flag of chunk `i` out of `n`: `0` on the last, `1` before it.
pub open spec fn continuation_flag(i: int, n: int) -> Seq<char> {
    if i + 1 == n { "0"@ } else { "1"@ }
}

/// Control data of chunk `i` out of `n`: the full control data on the first
/// chunk, only the continuation flag on the others.
pub open spec fn chunk_control(control: Seq<char>, i: int, n: int) -> Seq<char> {
    if i == 0 {
        control + ",m="@ + continuation_flag(i, n)
    } else {
        "m="@ + continuation_flag(i, n)
    }
}

/// The frames that carry `payload` with the given control data, in order.
pub open spec fn tile_frames(control: Seq<char>, payload: Seq<char>) -> Seq<Seq<char>> {
    if payload.len() <= CHUNK_SIZE {
        seq![tile_frame(control, payload)]
    } else {
        let n = chunk_count(payload.len()) as int;
        Seq::new(n as nat, |i: int| tile_frame(chunk_control(control, i, n), chunk_of(payload, i)))
    }
}

/// The texts of a sequence, joined in order.
pub open spec fn join(parts: Seq<Seq<char>>) -> Seq<char>
    decreases parts.len(),
{
    if parts.len() == 0 {
        Seq::empty()
    } else {
        join(parts.drop_last()) + parts.last()
    }
}

/// The chunks of a payload, in order.
pub open spec fn chunks(payload: Seq<char>) -> Seq<Seq<char>> {
    Seq::new(chunk_count(payload.len()), |i: int| chunk_of(payload, i))
}

proof fn lemma_chunk_bounds(len: nat, i: int)
    requires
        0 <= i,
    ensures
        i < chunk_count(len) <==> i * CHUNK_SIZE < len,
        i + 1 == chunk_count(len) <==> (i * CHUNK_SIZE < len && len <= i * CHUNK_SIZE + CHUNK_SIZE),
{
    assert(i < chunk_count(len) <==> i * 4096 < len) by (nonlinear_arith)
        requires
            chunk_count(len) == (len + 4095) / 4096,
            0 <= i,
    ;
    assert(i + 1 == chunk_count(len) <==> (i * 4096 < len && len <= i * 4096 + 4096)) by (nonlinear_arith)
        requires
            chunk_count(len) == (len + 4095) / 4096,
            0 <= i,
    ;
}

proof fn lemma_join_chunks(payload: Seq<char>, k: int)
    requires
        0 <= k <= chunk_count(payload.len()),
    ensures
        join(chunks(payload).take(k)) =~= payload.take(
            if k * CHUNK_SIZE <= payload.len() { k * CHUNK_SIZE } else { payload.len() as int },
        ),
    decreases k,
{
    let parts = chunks(payload).take(k);
    if k > 0 {
        lemma_chunk_bounds(payload.len(), k - 1);
        lemma_join_chunks(payload, k - 1);
        assert(parts.drop_last() =~= chunks(payload).take(k - 1));
        assert((k - 1) * CHUNK_SIZE + CHUNK_SIZE == k * CHUNK_SIZE) by (nonlinear_arith);
    }
}

/// Cutting a payload into chunks loses and reorders nothing: the chunks,
/// joined in order, are the payload.
pub proof fn lemma_chunks_rebuild_payload(payload: Seq<char>)
    ensures
        join(chunks(payload)) == payload,
{
    let n = chunk_count(payload.len()) as int;
    lemma_join_chunks(payload, n);
    assert(chunks(payload).take(n) =~= chunks(payload));
    if n > 0 {
        lemma_chunk_bounds(payload.len(), n - 1);
    } else {
        assert(payload.len() == 0);
    }
    assert(n * CHUNK_SIZE >= payload.len()) by (nonlinear_arith)
        requires
            n == (payload.len() + 4095) / 4096,
    ;
    assert(payload.take(payload.len() as int) =~= payload);
}

/// A payload longer than one chunk travels in frames that each hold the next
/// chunk, so that their payloads joined in order give back the payload that a
/// single frame would carry; exactly one frame, the last, has continuation flag
/// `0`, and every earlier one has `1`.
pub proof fn lemma_chunked_frames(control: Seq<char>, payload: Seq<char>)
    requires
        payload.len() > CHUNK_SIZE,
    ensures
        tile_frames(control, payload).len() == chunks(payload).len(),
        tile_frames(control, payload).len() >= 2,
        join(chunks(payload)) == payload,
        forall|i: int| 0 <= i < chunks(payload).len() ==> chunks(payload)[i].len() <= CHUNK_SIZE,
        forall|i: int| #![trigger tile_frames(control, payload)[i]]
            0 <= i < tile_frames(control, payload).len() ==> tile_frames(control, payload)[i]
                == tile_frame(chunk_control(control, i, tile_frames(control, payload).len() as int), chunks(payload)[i]),
        forall|i: int| 0 <= i < tile_frames(control, payload).len() ==>
            (continuation_flag(i, tile_frames(control, payload).len() as int) == "0"@
                <==> i == tile_frames(control, payload).len() - 1),
{
    lemma_chunks_rebuild_payload(payload);
    let n = chunk_count(payload.len()) as int;
    lemma_chunk_bounds(payload.len(), 1);
    assert forall|i: int| 0 <= i < n implies (continuation_flag(i, n) == "0"@ <==> i == n - 1) by {
        reveal_strlit("0");
        reveal_strlit("1");
        assert("0"@[0] != "1"@[0]);
    }
}

/// Appends one frame of chunk `i` out of `n`.
fn push_chunk_frame(out: &mut String, control: &str, chunk: &str, i: usize, n: usize)
    requires
        i < n,
    ensures
        final(out)@ == old(out)@ + tile_frame(chunk_control(control@, i as int, n as int), chunk@),
{
    let ghost start = out@;
    out.append("\x1b_G");
    if i == 0 {
        out.append(control);
        out.append(",m=");
    } else {
        out.append("m=");
    }
    if i + 1 == n {
        out.append("0");
    } else {
        out.append("1");
    }
    out.append(";");
    out.append(chunk);
    out.append("\x1b\\");
    assert(out@ =~= start + tile_frame(chunk_control(control@, i as int, n as int), chunk@));
}

/// The escape sequence that carries `payload` under the given control data: a
/// single frame when the payload fits in one chunk, otherwise one frame per
/// chunk with continuation flags.
pub fn tile_sequence(control: &str, payload: &str) -> (r: String)
    requires
        is_ascii_chars(payload@),
    ensures
        r@ == join(tile_frames(control@, payload@)),
{
    let len = payload.unicode_len();
    let mut out = String::new();
    if len <= CHUNK_SIZE {
        out.append("\x1b_G");
        out.append(control);
        out.append(";");
        out.append(payload);
        out.append("\x1b\\");
        let ghost frames = tile_frames(control@, payload@);
        assert(frames.drop_last() =~= Seq::<Seq<char>>::empty());
        assert(join(frames.drop_last()) =~= Seq::<char>::empty());
        assert(out@ =~= join(frames));
        return out;
    }
    let n: usize = len / CHUNK_SIZE + if len % CHUNK_SIZE == 0 { 0 } else { 1 };
    assert(n == chunk_count(len as nat)) by (nonlinear_arith)
        requires
            n == len / 4096 + if len % 4096 == 0 { 0int } else { 1int },
    ;
    let ghost frames = tile_frames(control@, payload@);
    let mut i: usize = 0;
    let mut start: usize = 0;
    while start < len
        invariant
            len == payload@.len(),
            len > CHUNK_SIZE,
            n == chunk_count(len as nat),
            frames == tile_frames(control@, payload@),
            frames.len() == n,
            start < len ==> start == i * CHUNK_SIZE,
            i <= n,
            i < n <==> start < len,
            is_ascii_chars(payload@),
            out@ == join(frames.take(i as int)),
        decreases len - start,
    {
        proof {
            lemma_chunk_bounds(len as nat, i as int);
        }
        assert(start == i * CHUNK_SIZE);
        let end = if len - start > CHUNK_SIZE { start + CHUNK_SIZE } else { len };
        let chunk = payload.substring_ascii(start, end);
        push_chunk_frame(&mut out, control, chunk, i, n);
        proof {
            assert(chunk@ == chunk_of(payload@, i as int));
            assert(frames.take(i + 1).drop_last() =~= frames.take(i as int));
            lemma_chunk_bounds(len as nat, i + 1);
            assert((i + 1) * 4096 == i * 4096 + 4096) by (nonlinear_arith);
        }
        i = i + 1;
        start = end;
        if start < len {
            assert(start == i * CHUNK_SIZE);
        }
    }
    proof {
        assert(frames.take(i as int) =~= frames);
    }
    out
}

/// Transmits and displays encoded image data over `width` columns and
/// `height` rows; the cursor position places it.
pub fn render(x: u16, y: u16, width: u16, height: u16, image_data: &[u8]) -> (r: String)
    ensures
        r@ == join(tile_frames(
            "f=100,a=T,t=d,c="@ + decimal_of(width as nat) + ",r="@ + decimal_of(height as nat),
            base64_of(image_data@),
        )),
{
    let encoded = base64_encode(image_data);
    let mut control = String::new();
    control.append("f=100,a=T,t=d,c=");
    push_decimal(&mut control, width as u64);
    control.append(",r=");
    push_decimal(&mut control, height as u64);
    assert(control@ =~= "f=100,a=T,t=d,c="@ + decimal_of(width as nat) + ",r="@ + decimal_of(height as nat));
    tile_sequence(control.as_str(), encoded.as_str())
}

/// The sequence that deletes every displayed image.
pub fn clear(x: u16, y: u16) -> (r: String)
    ensures
        r@ == "\x1b_Ga=d,d=a\x1b\\"@,
{
    String::from_str("\x1b_Ga=d,d=a\x1b\\")
}

} // verus!
