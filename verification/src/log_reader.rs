//! Cutting the content of a log file into chunks.

use crate::chunk_strategy::{lemma_boundary_bounds, ChunkConfig, ChunkStrategy};
use vstd::prelude::*;
use vstd::slice::{slice_subrange, slice_to_vec};

verus! {

/// The chunks of `rest`, in order.
///
/// No content gives no chunk. Content of at most `chunk_size` bytes is one
/// chunk. Longer content gives up the chunk that the boundary policy cuts from
/// its front, and what follows the cut is chunked in the same way. (A cut
/// outside the content, which no valid configuration produces, would end the
/// sequence with the content as it stands.)
pub open spec fn chunks_of(config: ChunkConfig, chunk_size: nat, rest: Seq<u8>) -> Seq<Seq<u8>>
    decreases rest.len(),
{
    if rest.len() == 0 {
        Seq::empty()
    } else if rest.len() <= chunk_size {
        seq![rest]
    } else {
        let cut = config.boundary(rest) as int;
        if 0 < cut <= rest.len() {
            seq![rest.subrange(0, cut)] + chunks_of(
                config,
                chunk_size,
                rest.subrange(cut, rest.len() as int),
            )
        } else {
            seq![rest]
        }
    }
}

/// The chunks put end to end are the content: nothing is left out, repeated
/// or reordered.
pub proof fn lemma_chunks_cover(config: ChunkConfig, chunk_size: nat, content: Seq<u8>)
    requires
        config.valid(),
    ensures
        chunks_of(config, chunk_size, content).flatten() == content,
    decreases content.len(),
{
    let chunks = chunks_of(config, chunk_size, content);
    if content.len() == 0 {
        assert(chunks.flatten() =~= content);
    } else if content.len() <= chunk_size {
        assert(chunks.drop_first() =~= Seq::<Seq<u8>>::empty());
        assert(chunks.drop_first().flatten() =~= Seq::<u8>::empty());
        assert(chunks.flatten() =~= content);
    } else {
        lemma_boundary_bounds(config, content);
        let cut = config.boundary(content) as int;
        let tail = content.subrange(cut, content.len() as int);
        lemma_chunks_cover(config, chunk_size, tail);
        assert(chunks.first() == content.subrange(0, cut));
        assert(chunks.drop_first() =~= chunks_of(config, chunk_size, tail));
        assert(chunks.flatten() =~= content);
    }
}

/// No chunk is empty, and there is a chunk exactly where there is content.
pub proof fn lemma_chunks_nonempty(config: ChunkConfig, chunk_size: nat, content: Seq<u8>)
    requires
        config.valid(),
    ensures
        chunks_of(config, chunk_size, content).len() == 0 <==> content.len() == 0,
        forall|i: int|
            0 <= i < chunks_of(config, chunk_size, content).len() ==> (#[trigger] chunks_of(
                config,
                chunk_size,
                content,
            )[i]).len() > 0,
    decreases content.len(),
{
    if content.len() > chunk_size && content.len() > 0 {
        lemma_boundary_bounds(config, content);
        let cut = config.boundary(content) as int;
        lemma_chunks_nonempty(config, chunk_size, content.subrange(cut, content.len() as int));
    }
}

/// Content that is not empty and fits the chunk size is a single chunk, the
/// content itself.
pub proof fn lemma_short_content_is_one_chunk(
    config: ChunkConfig,
    chunk_size: nat,
    content: Seq<u8>,
)
    requires
        0 < content.len() <= chunk_size,
    ensures
        chunks_of(config, chunk_size, content) == seq![content],
{
}

/// Every chunk but the last is a cut of the boundary policy and so at most one
/// context window long; the last chunk is at most as long as the larger of
/// the chunk size and the context window.
pub proof fn lemma_chunk_lengths(config: ChunkConfig, chunk_size: nat, content: Seq<u8>)
    requires
        config.valid(),
    ensures
        forall|i: int|
            0 <= i < chunks_of(config, chunk_size, content).len() - 1 ==> (#[trigger] chunks_of(
                config,
                chunk_size,
                content,
            )[i]).len() <= config.context_window,
        content.len() > 0 ==> chunks_of(config, chunk_size, content).last().len() <= chunk_size
            || chunks_of(config, chunk_size, content).last().len() <= config.context_window,
    decreases content.len(),
{
    if content.len() > chunk_size && content.len() > 0 {
        lemma_boundary_bounds(config, content);
        let cut = config.boundary(content) as int;
        let tail = content.subrange(cut, content.len() as int);
        lemma_chunk_lengths(config, chunk_size, tail);
        lemma_chunks_nonempty(config, chunk_size, tail);
        let chunks = chunks_of(config, chunk_size, content);
        let rest = chunks_of(config, chunk_size, tail);
        assert(chunks =~= seq![content.subrange(0, cut)] + rest);
        assert forall|i: int| 0 <= i < chunks.len() - 1 implies (#[trigger] chunks[i]).len()
            <= config.context_window by {
            if i > 0 {
                assert(chunks[i] == rest[i - 1]);
            }
        }
        if tail.len() > 0 {
            assert(chunks.last() == rest.last());
        }
    }
}

/// The chunks depend on the configuration, the chunk size and the content
/// alone: chunking the same content again under the same settings gives the
/// same chunks, cut at the same offsets.
pub proof fn lemma_chunking_repeats(
    first: LogReaderView,
    second: LogReaderView,
    content: Seq<u8>,
    again: Seq<u8>,
)
    requires
        first.config == second.config,
        first.chunk_size == second.chunk_size,
        content == again,
    ensures
        first.chunks(content) == second.chunks(again),
{
}

/// The byte sequences that the vectors of `chunks` hold.
pub open spec fn contents(chunks: Seq<Vec<u8>>) -> Seq<Seq<u8>> {
    Seq::new(chunks.len(), |i: int| chunks[i]@)
}

/// What a [`LogReader`] stands for.
pub struct LogReaderView {
    /// Path of the file that the reader was made for.
    pub file_path: Seq<char>,
    /// Configuration of the reader's strategy.
    pub config: ChunkConfig,
    /// Chunk size that the reader works with.
    pub chunk_size: nat,
}

impl LogReaderView {
    /// The chunks that the reader cuts `content` into.
    pub open spec fn chunks(&self, content: Seq<u8>) -> Seq<Seq<u8>> {
        chunks_of(self.config, self.chunk_size, content)
    }
}

/// Cuts the content of one log file into chunks.
pub struct LogReader {
    file_path: String,
    strategy: ChunkStrategy,
    optimal_chunk_size: usize,
}

impl View for LogReader {
    type V = LogReaderView;

    closed spec fn view(&self) -> LogReaderView {
        LogReaderView {
            file_path: self.file_path@,
            config: self.strategy@,
            chunk_size: self.optimal_chunk_size as nat,
        }
    }
}

impl LogReader {
    /// A reader with the standard strategy for the file at `file_path`, which
    /// is `file_size` bytes long.
    pub fn new(file_path: &str, file_size: usize) -> (reader: Self)
        ensures
            reader@.file_path == file_path@,
            reader@.config == ChunkConfig::standard(),
            reader@.chunk_size == ChunkConfig::standard().effective_chunk_size(file_size as nat),
    {
        LogReader::with_strategy(file_path, file_size, ChunkStrategy::new())
    }

    /// A reader with the given strategy for the file at `file_path`, which is
    /// `file_size` bytes long.
    pub fn with_strategy(file_path: &str, file_size: usize, strategy: ChunkStrategy) -> (reader:
        Self)
        ensures
            reader@.file_path == file_path@,
            reader@.config == strategy@,
            reader@.chunk_size == strategy@.effective_chunk_size(file_size as nat),
    {
        let optimal_chunk_size = strategy.effective_chunk_size(file_size);
        LogReader { file_path: file_path.to_owned(), strategy, optimal_chunk_size }
    }

    /// Path of the file that the reader was made for.
    pub fn file_path(&self) -> (path: &str)
        ensures
            path@ == self@.file_path,
    {
        self.file_path.as_str()
    }

    /// Chunk size that the reader works with.
    pub fn optimal_chunk_size(&self) -> (size: usize)
        ensures
            size == self@.chunk_size,
    {
        self.optimal_chunk_size
    }

    /// The chunks of `content`, in order.
    pub fn read_chunks(&self, content: &[u8]) -> (chunks: Vec<Vec<u8>>)
        ensures
            contents(chunks@) == self@.chunks(content@),
            contents(chunks@).flatten() == content@,
            chunks@.len() == 0 <==> content@.len() == 0,
            forall|i: int| 0 <= i < chunks@.len() ==> (#[trigger] chunks@[i])@.len() > 0,
    {
        let config = self.strategy.config();
        let len = content.len();
        let ghost size = self.optimal_chunk_size as nat;
        let mut chunks: Vec<Vec<u8>> = Vec::new();
        let mut start: usize = 0;
        assert(contents(chunks@) =~= Seq::<Seq<u8>>::empty());
        assert(content@.subrange(0, len as int) =~= content@);
        while start < len
            invariant
                config == self.strategy@,
                config.valid(),
                size == self.optimal_chunk_size,
                len == content@.len(),
                start <= len,
                contents(chunks@) + chunks_of(config, size, content@.subrange(start as int, len as int))
                    == chunks_of(config, size, content@),
            decreases len - start,
        {
            let rest = slice_subrange(content, start, len);
            let ghost before = contents(chunks@);
            let ghost tail_chunks = chunks_of(config, size, rest@);
            if len - start <= self.optimal_chunk_size {
                chunks.push(slice_to_vec(rest));
                assert(contents(chunks@) =~= before.push(rest@));
                assert(content@.subrange(len as int, len as int) =~= Seq::<u8>::empty());
                assert(before.push(rest@) + Seq::<Seq<u8>>::empty() =~= before + tail_chunks);
                start = len;
            } else {
                let cut = self.strategy.find_boundary_in(rest);
                let head = slice_subrange(rest, 0, cut);
                chunks.push(slice_to_vec(head));
                assert(contents(chunks@) =~= before.push(head@));
                assert(rest@.subrange(cut as int, rest@.len() as int) =~= content@.subrange(
                    start + cut,
                    len as int,
                ));
                assert(before.push(head@) + chunks_of(
                    config,
                    size,
                    rest@.subrange(cut as int, rest@.len() as int),
                ) =~= before + tail_chunks);
                start += cut;
            }
        }
        proof {
            assert(content@.subrange(len as int, len as int) =~= Seq::<u8>::empty());
            assert(contents(chunks@) =~= chunks_of(config, size, content@));
            lemma_chunks_cover(config, size, content@);
            lemma_chunks_nonempty(config, size, content@);
            assert forall|i: int| 0 <= i < chunks@.len() implies (#[trigger] chunks@[i])@.len()
                > 0 by {
                assert(contents(chunks@)[i] == chunks@[i]@);
            }
        }
        chunks
    }
}

} // verus!
