//! Sizing policy: how large a chunk should be for a file of a given size, and
//! where inside a window of text a chunk should end.

use crate::byte_search::{last_occurrence, lemma_last_occurrence, rfind};
use vstd::arithmetic::div_mod::{lemma_div_is_ordered, lemma_fundamental_div_mod, lemma_remainder_lower};
use vstd::arithmetic::mul::lemma_mul_inequality;
use vstd::prelude::*;
use vstd::slice::slice_subrange;
use vstd::string::*;

verus! {

/// Number of estimated lines of a file that amortise into one line of a chunk.
pub const LINES_DIVISOR: usize = 10;

/// Length in bytes of the shortest marker.
pub const SHORTEST_MARKER: usize = 7;

/// Marker of a record that opens with a date: a line break and the date
/// template, taken letter by letter. The bracketed groups are not character
/// classes; only a line that starts with this very text is a hit.
pub open spec fn date_marker() -> Seq<u8> {
    "\n[0-9]{4}-[0-9]{2}-[0-9]{2}".spec_bytes()
}

/// Marker of a line that starts with `ERROR:`.
pub open spec fn error_marker() -> Seq<u8> {
    "\nERROR:".spec_bytes()
}

/// Marker of a line that starts with `WARNING:`.
pub open spec fn warning_marker() -> Seq<u8> {
    "\nWARNING:".spec_bytes()
}

/// Marker of a record that opens with a ten-digit timestamp: a line break and
/// the timestamp template, taken letter by letter like [`date_marker`].
pub open spec fn stamp_marker() -> Seq<u8> {
    "\n[0-9]{10}".spec_bytes()
}

/// Offset of the marker that decides the cut in `window`: the right-most
/// occurrence of the first marker, in the order date, error, warning,
/// timestamp, that occurs at all.
pub open spec fn marker_hit(window: Seq<u8>) -> Option<int> {
    if last_occurrence(window, date_marker()) is Some {
        last_occurrence(window, date_marker())
    } else if last_occurrence(window, error_marker()) is Some {
        last_occurrence(window, error_marker())
    } else if last_occurrence(window, warning_marker()) is Some {
        last_occurrence(window, warning_marker())
    } else {
        last_occurrence(window, stamp_marker())
    }
}

/// The markers are plain ASCII, a line break and then the text, of these
/// lengths.
pub proof fn lemma_marker_lengths()
    ensures
        date_marker().len() == 27,
        error_marker().len() == 7,
        warning_marker().len() == 9,
        stamp_marker().len() == 10,
        date_marker()[0] == 10u8,
        error_marker()[0] == 10u8,
        warning_marker()[0] == 10u8,
        stamp_marker()[0] == 10u8,
{
    reveal_strlit("\n[0-9]{4}-[0-9]{2}-[0-9]{2}");
    reveal_strlit("\nERROR:");
    reveal_strlit("\nWARNING:");
    reveal_strlit("\n[0-9]{10}");
    is_ascii_spec_bytes("\n[0-9]{4}-[0-9]{2}-[0-9]{2}");
    is_ascii_spec_bytes("\nERROR:");
    is_ascii_spec_bytes("\nWARNING:");
    is_ascii_spec_bytes("\n[0-9]{10}");
}

/// The knobs of the sizing policy.
#[derive(Clone, Copy, Debug, PartialEq, Eq, Structural)]
pub struct ChunkConfig {
    /// Token budget of one request to the analysis service.
    pub max_tokens_per_chunk: usize,
    /// Distance, in bytes, from the start of a marker to the cut placed after it.
    pub overlap_lines: usize,
    /// Number of leading bytes that are searched for a marker.
    pub context_window: usize,
    /// Assumed average length of one log line, in bytes.
    pub estimated_line_size: usize,
    /// Upper bound on the number of estimated lines in one chunk.
    pub max_lines_per_chunk: usize,
    /// Files shorter than this are never split.
    pub min_chunk_size: usize,
}

impl ChunkConfig {
    /// The configuration of [`ChunkStrategy::new`].
    pub open spec fn standard() -> ChunkConfig {
        ChunkConfig {
            max_tokens_per_chunk: 2500,
            overlap_lines: 5,
            context_window: 1000,
            estimated_line_size: 100,
            max_lines_per_chunk: 200,
            min_chunk_size: 10_000,
        }
    }

    /// The configurations that a [`ChunkStrategy`] can be built from.
    ///
    /// The sizes are positive, and the cut after a marker lands inside the
    /// marker: past its first byte and not past the end of the shortest one.
    pub open spec fn valid(&self) -> bool {
        &&& self.min_chunk_size > 0
        &&& self.max_lines_per_chunk > 0
        &&& self.estimated_line_size > 0
        &&& self.context_window > 0
        &&& 0 < self.overlap_lines <= SHORTEST_MARKER
    }

    /// Largest chunk size, in bytes, that the policy computes for a file that
    /// is split.
    pub open spec fn cap(&self) -> nat {
        (self.max_lines_per_chunk * self.estimated_line_size) as nat
    }

    /// Chunk size for a file of `file_size` bytes.
    ///
    /// A file below the minimum is one chunk. Above it, a tenth of the
    /// estimated number of lines, at most `max_lines_per_chunk`, is turned back
    /// into bytes.
    pub open spec fn optimal_chunk_size(&self, file_size: nat) -> nat {
        if file_size < self.min_chunk_size {
            file_size
        } else {
            let total_lines = file_size / (self.estimated_line_size as nat);
            let tenth = total_lines / (LINES_DIVISOR as nat);
            let optimal_lines = if tenth <= self.max_lines_per_chunk {
                tenth
            } else {
                self.max_lines_per_chunk as nat
            };
            (optimal_lines * self.estimated_line_size) as nat
        }
    }

    /// Chunk size that a reader works with: the optimal size, or the minimum
    /// where a file that is split has an optimal size of zero.
    pub open spec fn effective_chunk_size(&self, file_size: nat) -> nat {
        if file_size >= self.min_chunk_size && self.optimal_chunk_size(file_size) == 0 {
            self.min_chunk_size as nat
        } else {
            self.optimal_chunk_size(file_size)
        }
    }

    /// Number of leading bytes of `content` that are searched.
    pub open spec fn window_len(&self, content: Seq<u8>) -> nat {
        if content.len() <= self.context_window {
            content.len()
        } else {
            self.context_window as nat
        }
    }

    /// Length of the chunk that is cut from the front of `content`.
    ///
    /// Where a marker decides, the cut lies `overlap_lines` bytes after the
    /// start of that marker; where the window holds no marker, the cut is the
    /// end of the window.
    pub open spec fn boundary(&self, content: Seq<u8>) -> nat {
        let window = content.subrange(0, self.window_len(content) as int);
        match marker_hit(window) {
            Some(pos) => (pos + self.overlap_lines) as nat,
            None => window.len(),
        }
    }

    /// Whether the configuration is one that a [`ChunkStrategy`] accepts.
    pub fn is_valid(&self) -> (ok: bool)
        ensures
            ok == self.valid(),
    {
        self.min_chunk_size > 0 && self.max_lines_per_chunk > 0 && self.estimated_line_size > 0
            && self.context_window > 0 && 0 < self.overlap_lines && self.overlap_lines
            <= SHORTEST_MARKER
    }
}

/// A file below the minimum size is a single chunk of its own size.
pub proof fn lemma_small_file_is_one_chunk(config: ChunkConfig, file_size: nat)
    requires
        config.valid(),
        file_size < config.min_chunk_size,
    ensures
        config.optimal_chunk_size(file_size) == file_size,
{
}

/// A file at or above the minimum size gets a chunk size that is at most the
/// cap and at most the file's own size. The size is zero exactly where the
/// file has fewer than ten estimated lines, and positive otherwise.
pub proof fn lemma_split_size_bounds(config: ChunkConfig, file_size: nat)
    requires
        config.valid(),
        file_size >= config.min_chunk_size,
    ensures
        config.optimal_chunk_size(file_size) <= config.cap(),
        config.optimal_chunk_size(file_size) <= file_size,
        config.optimal_chunk_size(file_size) == 0 <==> file_size < LINES_DIVISOR
            * config.estimated_line_size,
        file_size >= LINES_DIVISOR * config.estimated_line_size ==> 0
            < config.optimal_chunk_size(file_size),
{
    let e = config.estimated_line_size as int;
    let m = config.max_lines_per_chunk as int;
    let total = (file_size as int) / e;
    let tenth = total / 10;
    let lines = if tenth <= m { tenth } else { m };
    lemma_fundamental_div_mod(file_size as int, e);
    lemma_remainder_lower(file_size as int, e);
    assert(0 <= tenth <= total) by {
        lemma_fundamental_div_mod(total, 10);
    }
    lemma_mul_inequality(lines, m, e);
    lemma_mul_inequality(lines, total, e);
    assert(lines * e <= file_size);
    if file_size >= 10 * e {
        assert(total >= 10) by {
            lemma_div_is_ordered(10 * e, file_size as int, e);
            assert((10 * e) / e == 10) by (nonlinear_arith)
                requires
                    e > 0,
            ;
        }
        assert(tenth >= 1) by {
            lemma_div_is_ordered(10, total, 10);
        }
        assert(lines >= 1);
        lemma_mul_inequality(1, lines, e);
    } else {
        assert(total < 10) by {
            if total >= 10 {
                lemma_mul_inequality(10, total, e);
                assert(e * total == total * e) by (nonlinear_arith);
            }
        }
        assert(tenth == 0);
        assert(lines * e == 0) by (nonlinear_arith)
            requires
                lines == 0,
        ;
    }
}

/// Among files that are not split, and among files that are, a larger file
/// never gets a smaller chunk size; and once the size has reached the cap it
/// stays there. (Across the minimum the size may drop: a file just below it is
/// one chunk of nearly the minimum size.)
pub proof fn lemma_chunk_size_monotonic(config: ChunkConfig, smaller: nat, larger: nat)
    requires
        config.valid(),
        smaller <= larger,
        larger < config.min_chunk_size || config.min_chunk_size <= smaller || smaller
            <= config.optimal_chunk_size(larger),
    ensures
        config.optimal_chunk_size(smaller) <= config.optimal_chunk_size(larger),
        config.min_chunk_size <= smaller && config.optimal_chunk_size(smaller) == config.cap()
            ==> config.optimal_chunk_size(larger) == config.cap(),
{
    if config.min_chunk_size <= smaller {
        let e = config.estimated_line_size as int;
        let m = config.max_lines_per_chunk as int;
        let total_s = (smaller as int) / e;
        let total_l = (larger as int) / e;
        lemma_div_is_ordered(smaller as int, larger as int, e);
        lemma_div_is_ordered(total_s, total_l, 10);
        let lines_s = if total_s / 10 <= m { total_s / 10 } else { m };
        let lines_l = if total_l / 10 <= m { total_l / 10 } else { m };
        lemma_mul_inequality(lines_s, lines_l, e);
        lemma_split_size_bounds(config, larger);
    }
}

/// The sizing policy with its configuration, which is valid by construction.
pub struct ChunkStrategy {
    config: ChunkConfig,
}

impl View for ChunkStrategy {
    type V = ChunkConfig;

    closed spec fn view(&self) -> ChunkConfig {
        self.config
    }
}

impl ChunkStrategy {
    #[verifier::type_invariant]
    spec fn well_formed(self) -> bool {
        self.config.valid()
    }

    /// The strategy with the standard configuration.
    pub fn new() -> (strategy: Self)
        ensures
            strategy@ == ChunkConfig::standard(),
    {
        ChunkStrategy {
            config: ChunkConfig {
                max_tokens_per_chunk: 2500,
                overlap_lines: 5,
                context_window: 1000,
                estimated_line_size: 100,
                max_lines_per_chunk: 200,
                min_chunk_size: 10_000,
            },
        }
    }

    /// The strategy with the given configuration, if that is valid.
    pub fn with_config(config: ChunkConfig) -> (strategy: Option<Self>)
        ensures
            strategy is Some <==> config.valid(),
            strategy matches Some(s) ==> s@ == config,
    {
        if config.is_valid() {
            Some(ChunkStrategy { config })
        } else {
            None
        }
    }

    /// The configuration of this strategy.
    pub fn config(&self) -> (config: ChunkConfig)
        ensures
            config == self@,
            config.valid(),
    {
        proof {
            use_type_invariant(self);
        }
        self.config
    }

    /// Chunk size, in bytes, for a file of `file_size` bytes.
    pub fn calculate_optimal_chunk_size(&self, file_size: usize) -> (size: usize)
        ensures
            size == self@.optimal_chunk_size(file_size as nat),
    {
        proof {
            use_type_invariant(self);
        }
        if file_size < self.config.min_chunk_size {
            return file_size;
        }
        let total_lines = file_size / self.config.estimated_line_size;
        let tenth = total_lines / LINES_DIVISOR;
        let optimal_lines = if tenth <= self.config.max_lines_per_chunk {
            tenth
        } else {
            self.config.max_lines_per_chunk
        };
        proof {
            lemma_split_size_bounds(self.config, file_size as nat);
        }
        optimal_lines * self.config.estimated_line_size
    }

    /// Chunk size that a reader of a file of `file_size` bytes works with:
    /// the optimal size, or the minimum chunk size where the optimal size of a
    /// file that is split comes out as zero.
    pub fn effective_chunk_size(&self, file_size: usize) -> (size: usize)
        ensures
            size == self@.effective_chunk_size(file_size as nat),
            file_size > 0 ==> size > 0,
    {
        proof {
            use_type_invariant(self);
        }
        let optimal = self.calculate_optimal_chunk_size(file_size);
        if file_size >= self.config.min_chunk_size && optimal == 0 {
            self.config.min_chunk_size
        } else {
            optimal
        }
    }

    /// Length of the chunk to cut from the front of `content`.
    pub fn find_boundary_in(&self, content: &[u8]) -> (cut: usize)
        ensures
            cut == self@.boundary(content@),
            cut <= self@.window_len(content@),
            content@.len() > 0 ==> 0 < cut,
    {
        proof {
            use_type_invariant(self);
            lemma_marker_lengths();
        }
        let window_end = if content.len() <= self.config.context_window {
            content.len()
        } else {
            self.config.context_window
        };
        let window = slice_subrange(content, 0, window_end);
        let overlap = self.config.overlap_lines;
        if let Some(pos) = rfind(window, "\n[0-9]{4}-[0-9]{2}-[0-9]{2}".as_bytes()) {
            return pos + overlap;
        }
        if let Some(pos) = rfind(window, "\nERROR:".as_bytes()) {
            return pos + overlap;
        }
        if let Some(pos) = rfind(window, "\nWARNING:".as_bytes()) {
            return pos + overlap;
        }
        if let Some(pos) = rfind(window, "\n[0-9]{10}".as_bytes()) {
            return pos + overlap;
        }
        window_end
    }

    /// Length, in bytes, of the chunk to cut from the front of `content`.
    pub fn find_chunk_boundary(&self, content: &str) -> (cut: usize)
        ensures
            cut == self@.boundary(content.spec_bytes()),
            cut <= self@.window_len(content.spec_bytes()),
            content.spec_bytes().len() > 0 ==> 0 < cut,
    {
        self.find_boundary_in(content.as_bytes())
    }
}

/// On content that is not empty the cut advances and stays inside the window:
/// it is positive and at most the smaller of the content's length and the
/// context window.
pub proof fn lemma_boundary_bounds(config: ChunkConfig, content: Seq<u8>)
    requires
        config.valid(),
        content.len() > 0,
    ensures
        0 < config.boundary(content) <= config.window_len(content),
        config.window_len(content) <= content.len(),
        config.window_len(content) <= config.context_window,
{
    lemma_marker_lengths();
    let window = content.subrange(0, config.window_len(content) as int);
    lemma_last_occurrence(window, date_marker());
    lemma_last_occurrence(window, error_marker());
    lemma_last_occurrence(window, warning_marker());
    lemma_last_occurrence(window, stamp_marker());
}

} // verus!
