//! Reconstruction of newline-delimited records from a byte stream that
//! arrives in chunks of arbitrary size.

use vstd::prelude::*;

verus! {

/// The byte that ends a record.
pub const NEWLINE: u8 = 0x0A;

/// The records that are complete in `bytes`, each without its newline.
pub open spec fn complete_lines(bytes: Seq<u8>) -> Seq<Seq<u8>>
    decreases bytes.len(),
{
    if bytes.len() == 0 {
        Seq::empty()
    } else if bytes.last() == NEWLINE {
        complete_lines(bytes.drop_last()).push(pending_bytes(bytes.drop_last()))
    } else {
        complete_lines(bytes.drop_last())
    }
}

/// The bytes of `bytes` that follow its last newline: the record that is
/// still being received.
pub open spec fn pending_bytes(bytes: Seq<u8>) -> Seq<u8>
    decreases bytes.len(),
{
    if bytes.len() == 0 {
        Seq::empty()
    } else if bytes.last() == NEWLINE {
        Seq::empty()
    } else {
        pending_bytes(bytes.drop_last()).push(bytes.last())
    }
}

/// The contents of each of `lines`.
pub open spec fn line_views(lines: Seq<Vec<u8>>) -> Seq<Seq<u8>> {
    lines.map_values(|line: Vec<u8>| line@)
}

/// The records of `lines` written out again, each followed by a newline.
pub open spec fn join_lines(lines: Seq<Seq<u8>>) -> Seq<u8>
    decreases lines.len(),
{
    if lines.len() == 0 {
        Seq::empty()
    } else {
        join_lines(lines.drop_last()) + lines.last().push(NEWLINE)
    }
}

/// The bytes of all of `chunks`, in order.
pub open spec fn concat_chunks(chunks: Seq<Seq<u8>>) -> Seq<u8>
    decreases chunks.len(),
{
    if chunks.len() == 0 {
        Seq::empty()
    } else {
        concat_chunks(chunks.drop_last()) + chunks.last()
    }
}

/// The records that a reconstructor holding `pending` hands out while it is
/// fed `chunks` one after the other.
pub open spec fn lines_fed(pending: Seq<u8>, chunks: Seq<Seq<u8>>) -> Seq<Seq<u8>>
    decreases chunks.len(),
{
    if chunks.len() == 0 {
        Seq::empty()
    } else {
        lines_fed(pending, chunks.drop_last()) + complete_lines(
            pending_fed(pending, chunks.drop_last()) + chunks.last(),
        )
    }
}

/// The bytes that a reconstructor holding `pending` holds after it was fed
/// `chunks` one after the other.
pub open spec fn pending_fed(pending: Seq<u8>, chunks: Seq<Seq<u8>>) -> Seq<u8>
    decreases chunks.len(),
{
    if chunks.len() == 0 {
        pending
    } else {
        pending_bytes(pending_fed(pending, chunks.drop_last()) + chunks.last())
    }
}

/// Neither the pending bytes nor any complete record holds a newline.
pub proof fn lemma_lines_hold_no_newline(bytes: Seq<u8>)
    ensures
        !pending_bytes(bytes).contains(NEWLINE),
        forall|i: int|
            0 <= i < complete_lines(bytes).len() ==> !(#[trigger] complete_lines(
                bytes,
            )[i]).contains(NEWLINE),
    decreases bytes.len(),
{
    if bytes.len() > 0 {
        let front = bytes.drop_last();
        lemma_lines_hold_no_newline(front);
        assert forall|i: int| 0 <= i < complete_lines(bytes).len() implies !(
        #[trigger] complete_lines(bytes)[i]).contains(NEWLINE) by {
            if i < complete_lines(front).len() {
                assert(complete_lines(bytes)[i] == complete_lines(front)[i]);
            } else {
                assert(complete_lines(bytes)[i] == pending_bytes(front));
            }
        }
    }
}

/// No byte is lost or invented: the complete records, each with its newline,
/// followed by the pending bytes, are the input.
pub proof fn lemma_lines_rebuild_input(bytes: Seq<u8>)
    ensures
        join_lines(complete_lines(bytes)) + pending_bytes(bytes) == bytes,
    decreases bytes.len(),
{
    if bytes.len() > 0 {
        let front = bytes.drop_last();
        lemma_lines_rebuild_input(front);
        if bytes.last() == NEWLINE {
            assert(complete_lines(bytes).drop_last() == complete_lines(front));
            assert(join_lines(complete_lines(bytes)) + pending_bytes(bytes) =~= (join_lines(
                complete_lines(front),
            ) + pending_bytes(front)).push(NEWLINE));
        } else {
            assert(join_lines(complete_lines(bytes)) + pending_bytes(bytes) =~= (join_lines(
                complete_lines(front),
            ) + pending_bytes(front)).push(bytes.last()));
        }
        assert(front.push(bytes.last()) =~= bytes);
    }
}

/// Bytes without a newline hold no complete record and are all pending.
pub proof fn lemma_no_newline_all_pending(bytes: Seq<u8>)
    requires
        !bytes.contains(NEWLINE),
    ensures
        complete_lines(bytes) == Seq::<Seq<u8>>::empty(),
        pending_bytes(bytes) == bytes,
    decreases bytes.len(),
{
    if bytes.len() > 0 {
        let front = bytes.drop_last();
        assert(bytes[bytes.len() - 1] != NEWLINE);
        assert forall|i: int| 0 <= i < front.len() implies front[i] != NEWLINE by {
            assert(front[i] == bytes[i]);
        }
        lemma_no_newline_all_pending(front);
        assert(front.push(bytes.last()) =~= bytes);
    }
}

/// Splitting the input in two changes nothing: the records of `head + tail`
/// are those of `head`, then those of what `head` left pending followed by
/// `tail`.
pub proof fn lemma_lines_of_concat(head: Seq<u8>, tail: Seq<u8>)
    ensures
        complete_lines(head + tail) == complete_lines(head) + complete_lines(
            pending_bytes(head) + tail,
        ),
        pending_bytes(head + tail) == pending_bytes(pending_bytes(head) + tail),
    decreases tail.len(),
{
    if tail.len() == 0 {
        assert(head + tail =~= head);
        assert(pending_bytes(head) + tail =~= pending_bytes(head));
        lemma_lines_hold_no_newline(head);
        lemma_no_newline_all_pending(pending_bytes(head));
        assert(complete_lines(head) + Seq::<Seq<u8>>::empty() =~= complete_lines(head));
    } else {
        let front = tail.drop_last();
        lemma_lines_of_concat(head, front);
        assert((head + tail).drop_last() =~= head + front);
        assert((pending_bytes(head) + tail).drop_last() =~= pending_bytes(head) + front);
        assert((head + tail).last() == tail.last());
        assert((pending_bytes(head) + tail).last() == tail.last());
        if tail.last() == NEWLINE {
            assert(complete_lines(head + tail) =~= complete_lines(head) + complete_lines(
                pending_bytes(head) + tail,
            ));
        }
    }
}

/// The bytes of `chunks` are those of its first `n` chunks followed by those
/// of the others.
pub proof fn lemma_concat_chunks_split(chunks: Seq<Seq<u8>>, n: int)
    requires
        0 <= n <= chunks.len(),
    ensures
        concat_chunks(chunks) == concat_chunks(chunks.take(n)) + concat_chunks(chunks.skip(n)),
    decreases chunks.len(),
{
    if n == chunks.len() {
        assert(chunks.take(n) =~= chunks);
        assert(chunks.skip(n) =~= Seq::<Seq<u8>>::empty());
        assert(concat_chunks(chunks) + Seq::<u8>::empty() =~= concat_chunks(chunks));
    } else {
        lemma_concat_chunks_split(chunks.drop_last(), n);
        assert(chunks.drop_last().take(n) =~= chunks.take(n));
        assert(chunks.skip(n).drop_last() =~= chunks.drop_last().skip(n));
        assert(chunks.skip(n).last() == chunks.last());
        assert(concat_chunks(chunks) =~= concat_chunks(chunks.take(n)) + concat_chunks(
            chunks.skip(n),
        ));
    }
}

/// Chunk boundaries do not matter: a reconstructor that holds `pending` and
/// is fed `chunks` one after the other hands out the records of `pending`
/// followed by all the bytes of `chunks`, and is left with what those bytes
/// leave pending.
pub proof fn lemma_chunking_does_not_matter(pending: Seq<u8>, chunks: Seq<Seq<u8>>)
    requires
        !pending.contains(NEWLINE),
    ensures
        lines_fed(pending, chunks) == complete_lines(pending + concat_chunks(chunks)),
        pending_fed(pending, chunks) == pending_bytes(pending + concat_chunks(chunks)),
    decreases chunks.len(),
{
    if chunks.len() == 0 {
        assert(pending + concat_chunks(chunks) =~= pending);
        lemma_no_newline_all_pending(pending);
    } else {
        let front = chunks.drop_last();
        lemma_chunking_does_not_matter(pending, front);
        lemma_lines_of_concat(pending + concat_chunks(front), chunks.last());
        assert((pending + concat_chunks(front)) + chunks.last() =~= pending + concat_chunks(
            chunks,
        ));
    }
}

/// Two ways of cutting the same bytes into chunks give the same records in
/// the same order, and leave the same bytes pending.
pub proof fn lemma_same_bytes_same_lines(first: Seq<Seq<u8>>, second: Seq<Seq<u8>>)
    requires
        concat_chunks(first) == concat_chunks(second),
    ensures
        lines_fed(Seq::empty(), first) == lines_fed(Seq::empty(), second),
        pending_fed(Seq::empty(), first) == pending_fed(Seq::empty(), second),
{
    lemma_chunking_does_not_matter(Seq::empty(), first);
    lemma_chunking_does_not_matter(Seq::empty(), second);
}

/// A stream ended inside a record: `leftover` holds the bytes that no newline
/// followed.
#[derive(Debug)]
pub struct FramingError {
    pub leftover: Vec<u8>,
}

/// Accumulates the chunks of a stream and hands out each record once its
/// newline has arrived.
pub struct LineReconstructor {
    buffer: Vec<u8>,
}

impl View for LineReconstructor {
    type V = Seq<u8>;

    /// The bytes received since the last newline.
    closed spec fn view(&self) -> Seq<u8> {
        self.buffer@
    }
}

impl LineReconstructor {
    #[verifier::type_invariant]
    spec fn holds_no_newline(self) -> bool {
        !self.buffer@.contains(NEWLINE)
    }

    /// A reconstructor that has received nothing.
    pub fn new() -> (r: LineReconstructor)
        ensures
            r@ == Seq::<u8>::empty(),
    {
        LineReconstructor { buffer: Vec::new() }
    }

    /// Takes the next chunk and returns the records that it completes, in
    /// order and without their newlines.
    pub fn feed(&mut self, chunk: &[u8]) -> (lines: Vec<Vec<u8>>)
        ensures
            line_views(lines@) == complete_lines(old(self)@ + chunk@),
            final(self)@ == pending_bytes(old(self)@ + chunk@),
    {
        proof {
            use_type_invariant(&*self);
            lemma_no_newline_all_pending(self@);
            lemma_lines_hold_no_newline(self@ + chunk@);
            assert(self@ + chunk@.take(0) =~= self@);
        }
        let ghost start = self@;
        let mut pending: Vec<u8> = Vec::new();
        std::mem::swap(&mut pending, &mut self.buffer);
        let mut lines: Vec<Vec<u8>> = Vec::new();
        let mut i: usize = 0;
        while i < chunk.len()
            invariant
                i <= chunk.len(),
                line_views(lines@) == complete_lines(start + chunk@.take(i as int)),
                pending@ == pending_bytes(start + chunk@.take(i as int)),
            decreases chunk.len() - i,
        {
            let byte = chunk[i];
            let ghost seen = start + chunk@.take(i as int);
            proof {
                assert((start + chunk@.take(i + 1)).drop_last() =~= seen);
                assert((start + chunk@.take(i + 1)).last() == byte);
            }
            if byte == NEWLINE {
                let mut line: Vec<u8> = Vec::new();
                std::mem::swap(&mut line, &mut pending);
                let ghost before = line_views(lines@);
                lines.push(line);
                assert(line_views(lines@) =~= before.push(pending_bytes(seen)));
            } else {
                pending.push(byte);
            }
            i += 1;
        }
        assert(chunk@.take(chunk.len() as int) =~= chunk@);
        self.buffer = pending;
        lines
    }

    /// The number of bytes received since the last newline.
    pub fn pending_len(&self) -> (n: usize)
        ensures
            n == self@.len(),
    {
        self.buffer.len()
    }

    /// Ends the stream: succeeds if it ended on a record boundary, and
    /// otherwise hands back the bytes of the record that was cut short.
    pub fn finish(self) -> (r: Result<(), FramingError>)
        ensures
            r is Ok <==> self@.len() == 0,
            r matches Err(e) ==> e.leftover@ == self@,
    {
        if self.buffer.len() == 0 {
            Ok(())
        } else {
            Err(FramingError { leftover: self.buffer })
        }
    }
}

} // verus!
