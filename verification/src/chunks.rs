//! Cutting a stream of samples into chunks of one length.
//!
//! Samples arrive in pieces of any length. The noise filter and the voice
//! detector each take pieces of one fixed length only.
use vstd::prelude::*;

verus! {

/// The chunks of `n` samples that a stream holds, from its beginning.
pub open spec fn whole_chunks(samples: Seq<i16>, n: int) -> Seq<Seq<i16>> {
    Seq::new((samples.len() as int / n) as nat, |i: int| samples.subrange(i * n, (i + 1) * n))
}

/// What is left of a stream behind its last whole chunk.
pub open spec fn remainder(samples: Seq<i16>, n: int) -> Seq<i16> {
    samples.skip(samples.len() as int / n * n)
}

/// What a list of chunks holds.
pub open spec fn contents(chunks: Seq<Vec<i16>>) -> Seq<Seq<i16>> {
    chunks.map_values(|chunk: Vec<i16>| chunk@)
}

/// Collects samples until they make up a chunk.
pub struct ChunkAssembler {
    chunk: Vec<i16>,
    filled: usize,
}

impl ChunkAssembler {
    /// The number of samples in a chunk.
    pub closed spec fn capacity(&self) -> int {
        self.chunk@.len() as int
    }

    /// The samples that wait for the rest of their chunk.
    pub closed spec fn pending(&self) -> Seq<i16> {
        self.chunk@.take(self.filled as int)
    }

    /// What waits is less than a chunk.
    pub closed spec fn wf(&self) -> bool {
        self.filled < self.chunk@.len()
    }

    /// No samples yet, and chunks of `capacity` samples.
    pub fn new(capacity: usize) -> (assembler: Self)
        requires
            0 < capacity,
        ensures
            assembler.wf(),
            assembler.capacity() == capacity,
            assembler.pending() == Seq::<i16>::empty(),
    {
        let chunk: Vec<i16> = vec![0i16; capacity];
        ChunkAssembler { chunk, filled: 0 }
    }

    /// Takes samples in, and hands out the chunks that they complete.
    pub fn push(&mut self, input: &[i16]) -> (chunks: Vec<Vec<i16>>)
        requires
            old(self).wf(),
        ensures
            final(self).wf(),
            final(self).capacity() == old(self).capacity(),
            contents(chunks@) == whole_chunks(old(self).pending() + input@, old(self).capacity()),
            final(self).pending() == remainder(
                old(self).pending() + input@,
                old(self).capacity(),
            ),
            forall|i: int|
                0 <= i < chunks@.len() ==> (#[trigger] chunks@[i])@.len() == old(self).capacity(),
            chunks@.map_values(|chunk: Vec<i16>| chunk@).flatten() + final(self).pending()
                == old(self).pending() + input@,
            final(self).pending().len() < final(self).capacity(),
    {
        let mut chunks: Vec<Vec<i16>> = Vec::new();
        let mut offset: usize = 0;
        let ghost n = self.capacity();
        let ghost before = self.pending();
        proof {
            assert(before + input@.take(0) =~= before);
            lemma_less_than_a_chunk(before, n);
            assert(contents(chunks@) =~= whole_chunks(before, n));
        }
        while offset < input.len()
            invariant
                offset <= input@.len(),
                self.wf(),
                self.capacity() == n,
                n > 0,
                contents(chunks@) == whole_chunks(before + input@.take(offset as int), n),
                self.pending() == remainder(before + input@.take(offset as int), n),
            decreases input.len() - offset,
        {
            let left: usize = input.len() - offset;
            let room: usize = self.chunk.len() - self.filled;
            let count: usize = if left < room {
                left
            } else {
                room
            };
            let ghost taken = before + input@.take(offset as int);
            let ghost piece = input@.subrange(offset as int, offset + count);
            self.fill(input, offset, count);
            proof {
                assert(before + input@.take(offset + count) =~= taken + piece);
                lemma_piece_extends(taken, piece, n);
            }
            offset += count;
            if self.filled == self.chunk.len() {
                proof {
                    assert(self.chunk@ =~= self.pending());
                }
                let ghost done = chunks@;
                chunks.push(self.chunk.clone());
                self.filled = 0;
                proof {
                    assert(chunks@.last()@ =~= self.chunk@);
                    assert(contents(chunks@) =~= contents(done).push(self.chunk@));
                    assert(self.pending() =~= Seq::<i16>::empty());
                }
            }
        }
        proof {
            assert(input@.take(input@.len() as int) =~= input@);
            let all = before + input@;
            chunks_are_full(all, n);
            nothing_is_lost(all, n);
            contents_are_the_samples(chunks@);
            assert(chunks@.map_values(|chunk: Vec<i16>| chunk@) =~= contents(chunks@));
            assert forall|i: int| 0 <= i < chunks@.len() implies (#[trigger] chunks@[i])@.len()
                == n by {
                assert(contents(chunks@)[i] == whole_chunks(all, n)[i]);
            }
        }
        chunks
    }

    /// Copies `count` samples behind those that wait.
    fn fill(&mut self, input: &[i16], offset: usize, count: usize)
        requires
            offset + count <= input.len(),
            old(self).filled + count <= old(self).chunk.len(),
        ensures
            final(self).chunk@.len() == old(self).chunk@.len(),
            final(self).filled == old(self).filled + count,
            final(self).pending() == old(self).pending() + input@.subrange(
                offset as int,
                offset + count,
            ),
    {
        let ghost start = *self;
        for index in 0..count
            invariant
                offset + count <= input.len(),
                self.filled == start.filled,
                self.chunk@.len() == start.chunk@.len(),
                start.filled + count <= self.chunk.len(),
                self.chunk@.take(start.filled + index) =~= start.pending() + input@.subrange(
                    offset as int,
                    offset + index,
                ),
        {
            let ghost last = self.chunk@;
            self.chunk[self.filled + index] = input[offset + index];
            proof {
                assert(self.chunk@.take(start.filled + index + 1) =~= last.take(
                    start.filled + index,
                ).push(input@[offset + index]));
                assert(input@.subrange(offset as int, offset + index + 1) =~= input@.subrange(
                    offset as int,
                    offset + index,
                ).push(input@[offset + index]));
            }
        }
        self.filled += count;
    }
}

/// A stream shorter than a chunk is its own remainder.
proof fn lemma_less_than_a_chunk(samples: Seq<i16>, n: int)
    requires
        samples.len() < n,
    ensures
        whole_chunks(samples, n) == Seq::<Seq<i16>>::empty(),
        remainder(samples, n) == samples,
{
    assert(samples.len() as int / n == 0) by (nonlinear_arith)
        requires
            0 <= samples.len() < n,
    ;
    assert(whole_chunks(samples, n) =~= Seq::<Seq<i16>>::empty());
    assert(remainder(samples, n) =~= samples);
}

/// The chunks of a stream lie within it.
proof fn lemma_chunk_bounds(len: int, n: int, i: int)
    requires
        0 < n,
        0 <= i < len / n,
    ensures
        0 <= i * n,
        (i + 1) * n == i * n + n,
        (i + 1) * n <= len,
{
    assert(0 <= i * n && (i + 1) * n == i * n + n && (i + 1) * n <= len) by (nonlinear_arith)
        requires
            0 < n,
            0 <= i < len / n,
    ;
}

/// A piece that fits behind the remainder either lengthens it, or makes up the
/// next chunk with it.
proof fn lemma_piece_extends(samples: Seq<i16>, piece: Seq<i16>, n: int)
    requires
        0 < n,
        remainder(samples, n).len() + piece.len() <= n,
    ensures
        remainder(samples, n).len() + piece.len() < n ==> {
            &&& whole_chunks(samples + piece, n) == whole_chunks(samples, n)
            &&& remainder(samples + piece, n) == remainder(samples, n) + piece
        },
        remainder(samples, n).len() + piece.len() == n ==> {
            &&& whole_chunks(samples + piece, n) == whole_chunks(samples, n).push(
                remainder(samples, n) + piece,
            )
            &&& remainder(samples + piece, n) == Seq::<i16>::empty()
        },
{
    let len = samples.len() as int;
    let q = len / n;
    let longer = samples + piece;
    assert(0 <= q && q * n <= len < q * n + n) by (nonlinear_arith)
        requires
            0 < n,
            0 <= len,
            q == len / n,
    ;
    assert forall|i: int| 0 <= i < q implies #[trigger] longer.subrange(i * n, i * n + n)
        == samples.subrange(i * n, i * n + n) by {
        lemma_chunk_bounds(len, n, i);
        assert(longer.subrange(i * n, i * n + n) =~= samples.subrange(i * n, i * n + n));
    }
    assert forall|i: int| #[trigger] ((i + 1) * n) == i * n + n by {
        assert((i + 1) * n == i * n + n) by (nonlinear_arith);
    }
    let k = len - q * n + piece.len();
    if k < n {
        assert((q * n + k) / n == q) by (nonlinear_arith)
            requires
                0 <= k < n,
        ;
        assert(whole_chunks(longer, n) =~= whole_chunks(samples, n));
        assert(remainder(longer, n) =~= remainder(samples, n) + piece);
    } else {
        assert((q * n + n) / n == q + 1) by (nonlinear_arith)
            requires
                0 < n,
        ;
        let next = remainder(samples, n) + piece;
        assert(longer.subrange(q * n, q * n + n) =~= next);
        assert(whole_chunks(longer, n) =~= whole_chunks(samples, n).push(next));
        assert(remainder(longer, n) =~= Seq::<i16>::empty());
    }
}

/// What a list of chunks holds is what each of them holds, in their order.
pub proof fn contents_are_the_samples(chunks: Seq<Vec<i16>>)
    ensures
        contents(chunks).len() == chunks.len(),
        forall|i: int| 0 <= i < chunks.len() ==> #[trigger] contents(chunks)[i] == chunks[i]@,
{
}

/// Every chunk has the full length, and what waits is shorter than a chunk.
pub proof fn chunks_are_full(samples: Seq<i16>, n: int)
    requires
        0 < n,
    ensures
        forall|i: int|
            0 <= i < whole_chunks(samples, n).len() ==> (#[trigger] whole_chunks(samples, n)[i]).len()
                == n,
        remainder(samples, n).len() < n,
{
    let len = samples.len() as int;
    assert(0 <= len / n * n <= len < len / n * n + n) by (nonlinear_arith)
        requires
            0 < n,
            0 <= len,
    ;
    assert forall|i: int| 0 <= i < whole_chunks(samples, n).len() implies (
    #[trigger] whole_chunks(samples, n)[i]).len() == n by {
        lemma_chunk_bounds(len, n, i);
    }
}

/// The first `count` chunks are the beginning of the stream.
proof fn lemma_first_chunks(samples: Seq<i16>, n: int, count: int)
    requires
        0 < n,
        0 <= count <= samples.len() as int / n,
    ensures
        0 <= count * n <= samples.len(),
        whole_chunks(samples, n).take(count).flatten_alt() == samples.take(count * n),
    decreases count,
{
    let first = whole_chunks(samples, n).take(count);
    if count == 0 {
        assert(samples.take(0) =~= Seq::<i16>::empty());
    } else {
        lemma_first_chunks(samples, n, count - 1);
        lemma_chunk_bounds(samples.len() as int, n, count - 1);
        assert(first.drop_last() =~= whole_chunks(samples, n).take(count - 1));
        assert(samples.take(count * n) =~= samples.take((count - 1) * n) + first.last());
    }
}

/// The chunks and what waits behind them make up the stream: no sample is
/// lost, repeated or moved.
pub proof fn nothing_is_lost(samples: Seq<i16>, n: int)
    requires
        0 < n,
    ensures
        whole_chunks(samples, n).flatten() + remainder(samples, n) == samples,
{
    let chunks = whole_chunks(samples, n);
    let len = samples.len() as int;
    assert(0 <= len / n) by (nonlinear_arith)
        requires
            0 < n,
            0 <= len,
    ;
    lemma_first_chunks(samples, n, len / n);
    assert(chunks.take(len / n) =~= chunks);
    chunks.lemma_flatten_and_flatten_alt_are_equivalent();
    assert(samples.take(len / n * n) + remainder(samples, n) =~= samples);
}

/// How a stream is cut into pieces on its way in makes no difference: taking
/// in `first` and then `second` completes the chunks that taking them in
/// together completes, and leaves the same samples waiting.
pub proof fn pieces_make_no_difference(first: Seq<i16>, second: Seq<i16>, n: int)
    requires
        0 < n,
    ensures
        whole_chunks(first + second, n) == whole_chunks(first, n) + whole_chunks(
            remainder(first, n) + second,
            n,
        ),
        remainder(first + second, n) == remainder(remainder(first, n) + second, n),
{
    let q = first.len() as int / n;
    let rest = remainder(first, n) + second;
    let all = first + second;
    let m = rest.len() as int / n;
    assert(0 <= q && q * n <= first.len()) by (nonlinear_arith)
        requires
            0 < n,
            0 <= first.len(),
            q == first.len() as int / n,
    ;
    assert(all.skip(q * n) =~= rest);
    assert(all.len() as int / n == q + m && 0 <= m) by (nonlinear_arith)
        requires
            0 < n,
            0 <= rest.len(),
            all.len() == q * n + rest.len(),
            m == rest.len() as int / n,
    ;
    assert(m * n <= rest.len()) by (nonlinear_arith)
        requires
            0 < n,
            m == rest.len() as int / n,
    ;
    assert((q + m) * n == q * n + m * n) by (nonlinear_arith);
    assert(remainder(all, n) =~= remainder(rest, n));
    let both = whole_chunks(first, n) + whole_chunks(rest, n);
    assert forall|i: int| 0 <= i < q + m implies #[trigger] whole_chunks(all, n)[i] == both[i] by {
        if i < q {
            lemma_chunk_bounds(first.len() as int, n, i);
            assert(all.subrange(i * n, (i + 1) * n) =~= first.subrange(i * n, (i + 1) * n));
        } else {
            let j = i - q;
            lemma_chunk_bounds(rest.len() as int, n, j);
            assert(i * n == q * n + j * n && (i + 1) * n == q * n + (j + 1) * n)
                by (nonlinear_arith)
                requires
                    i == q + j,
            ;
            assert(all.subrange(i * n, (i + 1) * n) =~= rest.subrange(j * n, (j + 1) * n));
        }
    }
    assert(whole_chunks(all, n) =~= both);
}

} // verus!
