//! The PNG container: the fixed 8-byte file signature followed by an ordered
//! sequence of chunks, with lookup, append and removal by type code.

use crate::chunk::chunk_parse_err;
use crate::chunk::chunk_parse_model;
use crate::chunk::chunk_parse_ok;
use crate::chunk::chunk_ser;
use crate::chunk::chunk_wf;
use crate::chunk::lemma_chunk_parse_inverse;
use crate::chunk::Chunk;
use crate::chunk::ChunkModel;
use crate::chunk_type::type_text;
use crate::codec::be_u32;
use crate::codec::read_u32_be;
use crate::error::PngError;
use vstd::prelude::*;
use vstd::slice::slice_subrange;

verus! {

/// The fixed 8-byte PNG file signature.
pub open spec fn png_sig() -> Seq<u8> {
    seq![137u8, 80u8, 78u8, 71u8, 13u8, 10u8, 26u8, 10u8]
}

/// The chunks held by a byte sequence, parsed one after the other until the
/// bytes are exhausted; nothing when any chunk fails to parse or bytes are
/// left over that no whole chunk fills.
pub open spec fn chunks_parse(b: Seq<u8>) -> Option<Seq<ChunkModel>>
    decreases b.len(),
{
    if b.len() == 0 {
        Some(Seq::empty())
    } else if b.len() < 12 {
        None
    } else {
        let size = 12 + be_u32(b.subrange(0, 4));
        if size > b.len() {
            None
        } else if !chunk_parse_ok(b.subrange(0, size as int)) {
            None
        } else {
            match chunks_parse(b.subrange(size as int, b.len() as int)) {
                Some(rest) => Some(seq![chunk_parse_model(b.subrange(0, size as int))] + rest),
                None => None,
            }
        }
    }
}

/// The error of the first chunk that fails to parse.
pub open spec fn chunks_parse_err(b: Seq<u8>) -> PngError
    recommends
        b.len() != 0,
        chunks_parse(b) is None,
    decreases b.len(),
{
    if b.len() < 12 {
        PngError::Truncated
    } else {
        let size = 12 + be_u32(b.subrange(0, 4));
        if size > b.len() {
            PngError::Truncated
        } else if !chunk_parse_ok(b.subrange(0, size as int)) {
            chunk_parse_err(b.subrange(0, size as int))
        } else {
            chunks_parse_err(b.subrange(size as int, b.len() as int))
        }
    }
}

/// The bytes parse as a container: the signature first, then chunks that
/// exactly fill the rest.
pub open spec fn png_parse_ok(b: Seq<u8>) -> bool {
    b.len() >= 8 && b.subrange(0, 8) == png_sig() && chunks_parse(
        b.subrange(8, b.len() as int),
    ) is Some
}

/// The chunk sequence held by bytes that parse as a container.
pub open spec fn png_parse_model(b: Seq<u8>) -> Seq<ChunkModel> {
    chunks_parse(b.subrange(8, b.len() as int))->Some_0
}

/// The error reported for bytes that do not parse as a container: a bad or
/// missing signature first, then the first failing chunk's error.
pub open spec fn png_parse_err(b: Seq<u8>) -> PngError {
    if !(b.len() >= 8 && b.subrange(0, 8) == png_sig()) {
        PngError::BadSignature
    } else {
        chunks_parse_err(b.subrange(8, b.len() as int))
    }
}

/// The wire forms of the chunks, one after the other.
pub open spec fn concat_chunks(cs: Seq<ChunkModel>) -> Seq<u8>
    decreases cs.len(),
{
    if cs.len() == 0 {
        Seq::empty()
    } else {
        chunk_ser(cs[0]) + concat_chunks(cs.drop_first())
    }
}

/// The wire form of a whole container: the signature, then every chunk.
pub open spec fn png_ser(cs: Seq<ChunkModel>) -> Seq<u8> {
    png_sig() + concat_chunks(cs)
}

/// Every chunk of the sequence is well formed.
pub open spec fn container_wf(cs: Seq<ChunkModel>) -> bool {
    forall|i: int| 0 <= i < cs.len() ==> chunk_wf(#[trigger] cs[i])
}

/// The index of the first chunk whose type code's text form is `text`, or
/// a negative value when no chunk matches.
pub open spec fn find_chunk(cs: Seq<ChunkModel>, text: Seq<char>) -> int
    decreases cs.len(),
{
    if cs.len() == 0 {
        -1
    } else if type_text(cs[0].ty) == text {
        0
    } else if find_chunk(cs.drop_first(), text) < 0 {
        -1
    } else {
        1 + find_chunk(cs.drop_first(), text)
    }
}

/// What lookup means: a non-negative result is the index of the first chunk
/// whose type text matches, and a negative result means none matches.
pub proof fn lemma_find_chunk_spec(cs: Seq<ChunkModel>, text: Seq<char>)
    ensures
        find_chunk(cs, text) >= 0 ==> find_chunk(cs, text) < cs.len() && type_text(
            cs[find_chunk(cs, text)].ty,
        ) == text && forall|j: int|
            0 <= j < find_chunk(cs, text) ==> type_text(#[trigger] cs[j].ty) != text,
        find_chunk(cs, text) < 0 ==> forall|j: int|
            0 <= j < cs.len() ==> type_text(#[trigger] cs[j].ty) != text,
    decreases cs.len(),
{
    if cs.len() == 0 {
    } else if type_text(cs[0].ty) == text {
    } else {
        let rest = cs.drop_first();
        let fr = find_chunk(rest, text);
        lemma_find_chunk_spec(rest, text);
        assert(forall|j: int| 0 <= j < rest.len() ==> rest[j] == cs[j + 1]);
        if fr < 0 {
            assert forall|j: int| 0 <= j < cs.len() implies type_text(
                #[trigger] cs[j].ty,
            ) != text by {
                if j > 0 {
                    assert(type_text(rest[j - 1].ty) != text);
                }
            }
        } else {
            assert(find_chunk(cs, text) == 1 + fr);
            assert(cs[1 + fr] == rest[fr]);
            assert forall|j: int| 0 <= j < 1 + fr implies type_text(
                #[trigger] cs[j].ty,
            ) != text by {
                if j > 0 {
                    assert(type_text(rest[j - 1].ty) != text);
                }
            }
        }
    }
}

/// The first match is where scanning finds it: no match before `i`, a match
/// at `i`, so lookup lands on `i`.
proof fn lemma_find_chunk_at(cs: Seq<ChunkModel>, text: Seq<char>, i: int)
    requires
        0 <= i < cs.len(),
        type_text(cs[i].ty) == text,
        forall|j: int| 0 <= j < i ==> type_text(#[trigger] cs[j].ty) != text,
    ensures
        find_chunk(cs, text) == i,
    decreases i,
{
    if i == 0 {
    } else {
        assert(forall|j: int|
            0 <= j < cs.drop_first().len() ==> cs.drop_first()[j] == cs[j + 1]);
        lemma_find_chunk_at(cs.drop_first(), text, i - 1);
    }
}

/// When no chunk matches, lookup reports so.
proof fn lemma_find_chunk_none(cs: Seq<ChunkModel>, text: Seq<char>)
    requires
        forall|j: int| 0 <= j < cs.len() ==> type_text(#[trigger] cs[j].ty) != text,
    ensures
        find_chunk(cs, text) == -1,
    decreases cs.len(),
{
    if cs.len() == 0 {
    } else {
        assert(forall|j: int|
            0 <= j < cs.drop_first().len() ==> cs.drop_first()[j] == cs[j + 1]);
        lemma_find_chunk_none(cs.drop_first(), text);
    }
}

/// The chunk views of a chunk sequence.
spec fn chunk_views(s: Seq<Chunk>) -> Seq<ChunkModel> {
    s.map_values(|c: Chunk| c@)
}

/// Appending one chunk's wire form extends the concatenation.
proof fn lemma_concat_chunks_push(cs: Seq<ChunkModel>, c: ChunkModel)
    ensures
        concat_chunks(cs.push(c)) == concat_chunks(cs) + chunk_ser(c),
    decreases cs.len(),
{
    if cs.len() == 0 {
        assert(cs.push(c)[0] == c);
        assert(cs.push(c).drop_first() =~= Seq::<ChunkModel>::empty());
        assert(concat_chunks(Seq::<ChunkModel>::empty()) == Seq::<u8>::empty());
        assert(concat_chunks(cs.push(c)) =~= concat_chunks(cs) + chunk_ser(c));
    } else {
        assert(cs.push(c).drop_first() =~= cs.drop_first().push(c));
        lemma_concat_chunks_push(cs.drop_first(), c);
        assert(concat_chunks(cs.push(c)) =~= concat_chunks(cs) + chunk_ser(c));
    }
}

/// Splitting a sequence at an index and putting the parts back together
/// gives the sequence.
proof fn lemma_seq_split(b: Seq<u8>, k: int)
    requires
        0 <= k <= b.len(),
    ensures
        b.subrange(0, k) + b.subrange(k, b.len() as int) == b,
{
    assert(b.subrange(0, k) + b.subrange(k, b.len() as int) =~= b);
}

/// What one successful parsing step of a non-empty byte sequence yields.
#[verifier::spinoff_prover]
proof fn lemma_chunks_parse_unfold(b: Seq<u8>)
    requires
        b.len() != 0,
        chunks_parse(b) is Some,
    ensures
        b.len() >= 12,
        12 + be_u32(b.subrange(0, 4)) <= b.len(),
        chunk_parse_ok(b.subrange(0, 12 + be_u32(b.subrange(0, 4)))),
        chunks_parse(
            b.subrange(12 + be_u32(b.subrange(0, 4)), b.len() as int),
        ) is Some,
        chunks_parse(b)->Some_0 == seq![
            chunk_parse_model(b.subrange(0, 12 + be_u32(b.subrange(0, 4)))),
        ] + chunks_parse(b.subrange(12 + be_u32(b.subrange(0, 4)), b.len() as int))->Some_0,
{
}

/// Concatenating the wire forms of the chunks that a byte sequence parses
/// into gives back that byte sequence.
#[verifier::spinoff_prover]
proof fn lemma_chunks_parse_inverse(b: Seq<u8>)
    requires
        chunks_parse(b) is Some,
    ensures
        concat_chunks(chunks_parse(b)->Some_0) == b,
    decreases b.len(),
{
    if b.len() == 0 {
        assert(concat_chunks(chunks_parse(b)->Some_0) =~= b);
    } else {
        lemma_chunks_parse_unfold(b);
        let size = 12 + be_u32(b.subrange(0, 4));
        let head = b.subrange(0, size as int);
        let tail = b.subrange(size as int, b.len() as int);
        lemma_chunk_parse_inverse(head);
        lemma_chunks_parse_inverse(tail);
        let cs = chunks_parse(b)->Some_0;
        assert(cs[0] == chunk_parse_model(head));
        assert(cs.drop_first() =~= chunks_parse(tail)->Some_0);
        assert(concat_chunks(cs) == chunk_ser(cs[0]) + concat_chunks(cs.drop_first()));
        lemma_seq_split(b, size as int);
    }
}

/// Container round-trip law: the wire form of the chunks parsed from a
/// well-formed container byte sequence is that byte sequence, byte for byte.
#[verifier::rlimit(100)]
#[verifier::spinoff_prover]
pub proof fn lemma_container_round_trip(b: Seq<u8>)
    requires
        png_parse_ok(b),
    ensures
        png_ser(png_parse_model(b)) == b,
{
    let t = b.subrange(8, b.len() as int);
    lemma_chunks_parse_inverse(t);
    assert(concat_chunks(png_parse_model(b)) == t);
    assert(png_ser(png_parse_model(b)) == png_sig() + t);
    assert((png_sig() + t).len() == b.len());
    assert forall|i: int| 0 <= i < b.len() implies (png_sig() + t)[i] == b[i] by {
        if i < 8 {
            assert(b.subrange(0, 8)[i] == b[i]);
            assert((png_sig() + t)[i] == png_sig()[i]);
        } else {
            assert((png_sig() + t)[i] == t[i - 8]);
            assert(t[i - 8] == b[i]);
        }
    }
    assert(png_sig() + t =~= b);
}

/// A parsed PNG byte stream: the signature is implicit and fixed, the chunks
/// are held in order.
#[derive(Debug)]
pub struct PngContainer {
    pub(crate) chunks: Vec<Chunk>,
}

impl View for PngContainer {
    type V = Seq<ChunkModel>;

    closed spec fn view(&self) -> Seq<ChunkModel> {
        chunk_views(self.chunks@)
    }
}

impl PngContainer {
    /// An empty container: the signature and no chunks.
    pub fn new() -> (r: PngContainer)
        ensures
            r@ == Seq::<ChunkModel>::empty(),
    {
        let r = PngContainer { chunks: Vec::new() };
        proof {
            assert(r@ =~= Seq::<ChunkModel>::empty());
        }
        r
    }

    /// Parses a whole byte stream: the fixed signature, then chunks until
    /// the bytes are exhausted. Fails with `BadSignature` when the first 8
    /// bytes are not the PNG magic, and otherwise propagates the first
    /// failing chunk's error; there is no partial parse.
    pub fn parse(bytes: &[u8]) -> (r: Result<PngContainer, PngError>)
        ensures
            r is Ok <==> png_parse_ok(bytes@),
            r matches Ok(p) ==> p@ == png_parse_model(bytes@) && container_wf(p@),
            r matches Err(e) ==> e == png_parse_err(bytes@),
    {
        let n = bytes.len();
        if n < 8 {
            return Err(PngError::BadSignature);
        }
        let sig_ok = bytes[0] == 137 && bytes[1] == 80 && bytes[2] == 78 && bytes[3] == 71
            && bytes[4] == 13 && bytes[5] == 10 && bytes[6] == 26 && bytes[7] == 10;
        proof {
            assert(forall|k: int| 0 <= k < 8 ==> #[trigger] bytes@.subrange(0, 8)[k] == bytes@[k]);
        }
        if !sig_ok {
            proof {
                if bytes@.subrange(0, 8) == png_sig() {
                    assert(bytes@[0] == 137 && bytes@[1] == 80 && bytes@[2] == 78 && bytes@[3]
                        == 71 && bytes@[4] == 13 && bytes@[5] == 10 && bytes@[6] == 26 && bytes@[7]
                        == 10);
                }
            }
            return Err(PngError::BadSignature);
        }
        proof {
            assert(bytes@.subrange(0, 8) =~= png_sig());
        }
        let mut chunks: Vec<Chunk> = Vec::new();
        let mut i: usize = 8;
        while i < n
            invariant
                8 <= i <= n,
                n == bytes@.len(),
                bytes@.subrange(0, 8) == png_sig(),
                ({
                    let t = bytes@.subrange(8, n as int);
                    let cur = bytes@.subrange(i as int, n as int);
                    &&& (chunks_parse(t) is Some <==> chunks_parse(cur) is Some)
                    &&& (chunks_parse(t) is Some ==> chunks_parse(t)->Some_0 == chunk_views(
                        chunks@,
                    ) + chunks_parse(cur)->Some_0)
                    &&& (chunks_parse(t) is None ==> chunks_parse_err(t) == chunks_parse_err(cur))
                }),
                container_wf(chunk_views(chunks@)),
            decreases n - i,
        {
            let ghost t = bytes@.subrange(8, n as int);
            let ghost cur = bytes@.subrange(i as int, n as int);
            let remaining = n - i;
            if remaining < 12 {
                return Err(PngError::Truncated);
            }
            let declared = read_u32_be(bytes[i], bytes[i + 1], bytes[i + 2], bytes[i + 3]);
            proof {
                assert(seq![bytes@[i as int], bytes@[i as int + 1], bytes@[i as int + 2], bytes@[i as int + 3]]
                    =~= cur.subrange(0, 4));
            }
            if (remaining as u64) - 12 < (declared as u64) {
                return Err(PngError::Truncated);
            }
            let size = declared as usize + 12;
            let cb = slice_subrange(bytes, i, i + size);
            proof {
                assert(cb@ =~= cur.subrange(0, size as int));
            }
            match Chunk::parse(cb) {
                Err(e) => {
                    return Err(e);
                },
                Ok(c) => {
                    let ghost prev = chunks@;
                    chunks.push(c);
                    proof {
                        assert(cur.subrange(size as int, cur.len() as int) =~= bytes@.subrange(
                            i as int + size as int,
                            n as int,
                        ));
                        assert(chunk_views(chunks@) =~= chunk_views(prev).push(c@));
                        if chunks_parse(cur) is Some {
                            assert(chunk_views(prev) + chunks_parse(cur)->Some_0 =~= chunk_views(
                                chunks@,
                            ) + chunks_parse(
                                bytes@.subrange(i as int + size as int, n as int),
                            )->Some_0);
                        }
                    }
                    i = i + size;
                },
            }
        }
        let ghost t = bytes@.subrange(8, n as int);
        proof {
            let cur = bytes@.subrange(n as int, n as int);
            assert(cur.len() == 0);
            assert(chunks_parse(t) is Some);
            assert(chunks_parse(t)->Some_0 =~= chunk_views(chunks@));
        }
        let p = PngContainer { chunks };
        Ok(p)
    }

    /// The wire form: the signature, then every chunk's bytes in order.
    pub fn as_bytes(&self) -> (r: Vec<u8>)
        ensures
            r@ == png_ser(self@),
    {
        let mut out: Vec<u8> = Vec::new();
        out.push(137);
        out.push(80);
        out.push(78);
        out.push(71);
        out.push(13);
        out.push(10);
        out.push(26);
        out.push(10);
        proof {
            assert(out@ =~= png_sig());
            assert(self@.subrange(0, 0) =~= Seq::<ChunkModel>::empty());
        }
        let m = self.chunks.len();
        let mut k: usize = 0;
        while k < m
            invariant
                0 <= k <= m,
                m == self.chunks@.len(),
                self@.len() == m,
                out@ == png_sig() + concat_chunks(self@.subrange(0, k as int)),
            decreases m - k,
        {
            let cb = self.chunks[k].as_bytes();
            out.extend_from_slice(cb.as_slice());
            proof {
                assert(self.chunks@[k as int]@ == self@[k as int]);
                lemma_concat_chunks_push(self@.subrange(0, k as int), self@[k as int]);
                assert(self@.subrange(0, k as int + 1) =~= self@.subrange(0, k as int).push(
                    self@[k as int],
                ));
                assert(out@ =~= png_sig() + concat_chunks(self@.subrange(0, k as int + 1)));
            }
            k = k + 1;
        }
        proof {
            assert(self@.subrange(0, m as int) =~= self@);
        }
        out
    }

    /// Appends a chunk at the end of the list: no deduplication, no ordering
    /// constraint, no error path.
    pub fn append_chunk(&mut self, chunk: Chunk)
        ensures
            final(self)@ == old(self)@.push(chunk@),
    {
        let ghost prev = self.chunks@;
        self.chunks.push(chunk);
        proof {
            assert(chunk_views(self.chunks@) =~= chunk_views(prev).push(self.chunks@.last()@));
        }
    }

    /// The first chunk whose type code's text form is `text`, if any; a
    /// lookup, not an error, when nothing matches.
    pub fn chunk_by_type(&self, text: &str) -> (r: Option<&Chunk>)
        ensures
            r is Some <==> find_chunk(self@, text@) >= 0,
            r matches Some(c) ==> c@ == self@[find_chunk(self@, text@)],
    {
        let m = self.chunks.len();
        let mut k: usize = 0;
        while k < m
            invariant
                0 <= k <= m,
                m == self.chunks@.len(),
                self@.len() == m,
                self@ == chunk_views(self.chunks@),
                forall|j: int| 0 <= j < k ==> type_text(#[trigger] self@[j].ty) != text@,
            decreases m - k,
        {
            let c = &self.chunks[k];
            if c.chunk_type().matches_text(text) {
                proof {
                    lemma_find_chunk_at(self@, text@, k as int);
                }
                return Some(c);
            }
            k = k + 1;
        }
        proof {
            lemma_find_chunk_none(self@, text@);
        }
        None
    }

    /// Removes the first chunk whose type code's text form is `text`; fails
    /// with `ChunkNotFound`, leaving the container unchanged, when no chunk
    /// matches.
    pub fn remove_chunk(&mut self, text: &str) -> (r: Result<(), PngError>)
        ensures
            find_chunk(old(self)@, text@) < 0 ==> r == Err::<(), PngError>(PngError::ChunkNotFound)
                && final(self)@ == old(self)@,
            find_chunk(old(self)@, text@) >= 0 ==> r == Ok::<(), PngError>(()) && final(self)@
                == old(self)@.remove(find_chunk(old(self)@, text@)),
    {
        let m = self.chunks.len();
        let mut k: usize = 0;
        while k < m
            invariant
                0 <= k <= m,
                m == self.chunks@.len(),
                self@.len() == m,
                self@ == chunk_views(self.chunks@),
                self@ == old(self)@,
                forall|j: int| 0 <= j < k ==> type_text(#[trigger] self@[j].ty) != text@,
            decreases m - k,
        {
            let hit = self.chunks[k].chunk_type().matches_text(text);
            if hit {
                proof {
                    lemma_find_chunk_at(self@, text@, k as int);
                }
                let ghost prev = self.chunks@;
                self.chunks.remove(k);
                proof {
                    assert(chunk_views(self.chunks@) =~= chunk_views(prev).remove(k as int));
                }
                return Ok(());
            }
            k = k + 1;
        }
        proof {
            lemma_find_chunk_none(self@, text@);
        }
        Err(PngError::ChunkNotFound)
    }

    /// The text forms of every chunk's type code, in order, for human
    /// inspection of the container.
    pub fn chunk_type_list(&self) -> (r: Vec<String>)
        ensures
            r@.len() == self@.len(),
            forall|i: int| 0 <= i < self@.len() ==> #[trigger] r@[i]@ == type_text(self@[i].ty),
    {
        let m = self.chunks.len();
        let mut out: Vec<String> = Vec::new();
        let mut k: usize = 0;
        while k < m
            invariant
                0 <= k <= m,
                m == self.chunks@.len(),
                self@.len() == m,
                self@ == chunk_views(self.chunks@),
                out@.len() == k,
                forall|i: int| 0 <= i < k ==> #[trigger] out@[i]@ == type_text(self@[i].ty),
            decreases m - k,
        {
            out.push(self.chunks[k].render_as_text());
            k = k + 1;
        }
        out
    }
}

} // verus!
