//! The report of a run: a header and one section for each chunk that is done,
//! in chunk order.

use crate::analysis::{AnalysisResult, ServiceCallError};
use crate::error_types::{parse_error_types, spec_parse_error_types, ErrorType};
use crate::summary::{spec_key_points, spec_overview, summary_parts};
use crate::text::{append_decimal, append_joined, decimal, join, texts};
use vstd::prelude::*;
use vstd::string::*;

verus! {

/// The codes of `types`, in order.
pub open spec fn codes_of(types: Seq<ErrorType>) -> Seq<Seq<char>> {
    Seq::new(types.len(), |i: int| types[i].spec_code())
}

/// How a failed request shows in the report.
pub open spec fn spec_failure(error: ServiceCallError) -> Seq<char> {
    "SERVICE_CALL_ERROR ("@ + error.spec_describe() + ")"@
}

/// What follows `ERROR_CODES:`: the codes that the answer names, separated by
/// a comma and a blank, or the failure.
pub open spec fn spec_codes_line(classification: Result<String, ServiceCallError>) -> Seq<char> {
    match classification {
        Ok(answer) => join(codes_of(spec_parse_error_types(answer@)), ", "@),
        Err(error) => spec_failure(error),
    }
}

/// What follows `SUMMARY:`: the overview lines of the answer, separated by a
/// blank, or the failure.
pub open spec fn spec_summary_line(summary: Result<String, ServiceCallError>) -> Seq<char> {
    match summary {
        Ok(answer) => join(spec_overview(answer@), " "@),
        Err(error) => spec_failure(error),
    }
}

/// One line for each key point: a hyphen, a blank, the point, a line feed.
pub open spec fn spec_point_lines(points: Seq<Seq<char>>) -> Seq<char>
    decreases points.len(),
{
    if points.len() == 0 {
        Seq::empty()
    } else {
        "- "@ + points.first() + "\n"@ + spec_point_lines(points.drop_first())
    }
}

/// What follows `METRICS:`: the key points of the answer, one to a line, and
/// nothing where the request failed.
pub open spec fn spec_metrics_block(summary: Result<String, ServiceCallError>) -> Seq<char> {
    match summary {
        Ok(answer) => spec_point_lines(spec_key_points(answer@)),
        Err(_) => Seq::empty(),
    }
}

/// The section of one chunk.
pub open spec fn spec_section(result: AnalysisResult) -> Seq<char> {
    "\n[chunk "@ + decimal(result.chunk_index as nat) + "]\nERROR_CODES: "@ + spec_codes_line(
        result.classification,
    ) + "\nSUMMARY: "@ + spec_summary_line(result.summary) + "\nMETRICS:\n"@ + spec_metrics_block(
        result.summary,
    )
}

/// The sections of `results`, in order.
pub open spec fn spec_sections(results: Seq<AnalysisResult>) -> Seq<char>
    decreases results.len(),
{
    if results.len() == 0 {
        Seq::empty()
    } else {
        spec_section(results.first()) + spec_sections(results.drop_first())
    }
}

/// The header: what was inspected, how large it is, how long the run took and
/// how many of the chunks are done.
pub open spec fn spec_header(
    file_path: Seq<char>,
    file_size: nat,
    elapsed_ms: nat,
    processed: nat,
    total_chunks: nat,
) -> Seq<char> {
    "Log inspection report\nFile: "@ + file_path + "\nSize: "@ + decimal(file_size)
        + " bytes\nElapsed: "@ + decimal(elapsed_ms) + " ms\nChunks processed: "@ + decimal(
        processed,
    ) + " of "@ + decimal(total_chunks) + "\n"@
}

/// The report: the header, then the sections of the results in their order.
pub open spec fn spec_report(
    file_path: Seq<char>,
    file_size: nat,
    elapsed_ms: nat,
    total_chunks: nat,
    results: Seq<AnalysisResult>,
) -> Seq<char> {
    spec_header(file_path, file_size, elapsed_ms, results.len(), total_chunks) + spec_sections(
        results,
    )
}

/// A run without results reports its header and nothing else.
pub proof fn lemma_empty_report(
    file_path: Seq<char>,
    file_size: nat,
    elapsed_ms: nat,
    total_chunks: nat,
)
    ensures
        spec_report(file_path, file_size, elapsed_ms, total_chunks, Seq::empty()) == spec_header(
            file_path,
            file_size,
            elapsed_ms,
            0,
            total_chunks,
        ),
{
    assert(spec_header(file_path, file_size, elapsed_ms, 0, total_chunks) + Seq::<char>::empty()
        =~= spec_header(file_path, file_size, elapsed_ms, 0, total_chunks));
}

/// The report of a run that has gone on is the report so far with the header
/// brought up to date and the new sections at its end: the sections that were
/// there stay, in their order, whatever the later chunks gave.
pub proof fn lemma_sections_extend(earlier: Seq<AnalysisResult>, later: Seq<AnalysisResult>)
    ensures
        spec_sections(earlier + later) == spec_sections(earlier) + spec_sections(later),
    decreases earlier.len(),
{
    if earlier.len() == 0 {
        assert(earlier + later =~= later);
        assert(spec_sections(earlier) + spec_sections(later) =~= spec_sections(later));
    } else {
        assert((earlier + later).first() == earlier.first());
        assert((earlier + later).drop_first() =~= earlier.drop_first() + later);
        lemma_sections_extend(earlier.drop_first(), later);
        assert(spec_sections(earlier + later) =~= spec_sections(earlier) + spec_sections(later));
    }
}

fn append_failure(out: &mut String, error: &ServiceCallError)
    ensures
        final(out)@ == old(out)@ + spec_failure(*error),
{
    out.append("SERVICE_CALL_ERROR (");
    let words = error.describe();
    out.append(words.as_str());
    out.append(")");
    assert(out@ =~= old(out)@ + spec_failure(*error));
}

fn append_codes_line(out: &mut String, classification: &Result<String, ServiceCallError>)
    ensures
        final(out)@ == old(out)@ + spec_codes_line(*classification),
{
    match classification {
        Ok(answer) => {
            let types = parse_error_types(answer.as_str());
            let mut codes: Vec<String> = Vec::new();
            let mut k: usize = 0;
            while k < types.len()
                invariant
                    k <= types@.len(),
                    codes@.len() == k,
                    forall|j: int| 0 <= j < k ==> (#[trigger] codes@[j])@ == types@[j].spec_code(),
                decreases types@.len() - k,
            {
                codes.push(types[k].code().to_owned());
                k += 1;
            }
            assert(texts(codes@) =~= codes_of(types@));
            append_joined(out, &codes, ", ");
        },
        Err(error) => {
            append_failure(out, error);
        },
    }
}

fn append_point_lines(out: &mut String, points: &Vec<String>)
    ensures
        final(out)@ == old(out)@ + spec_point_lines(texts(points@)),
{
    let ghost items = texts(points@);
    let mut k: usize = 0;
    assert(items.skip(0) =~= items);
    assert(out@ + spec_point_lines(items) =~= old(out)@ + spec_point_lines(items));
    while k < points.len()
        invariant
            items == texts(points@),
            k <= points@.len(),
            out@ + spec_point_lines(items.skip(k as int)) == old(out)@ + spec_point_lines(items),
        decreases points@.len() - k,
    {
        let ghost before = out@;
        let ghost rest = items.skip(k as int);
        assert(rest.first() == points@[k as int]@);
        assert(rest.drop_first() =~= items.skip(k + 1));
        out.append("- ");
        out.append(points[k].as_str());
        out.append("\n");
        assert(out@ + spec_point_lines(items.skip(k + 1)) =~= before + spec_point_lines(rest));
        k += 1;
    }
    assert(spec_point_lines(items.skip(k as int)) =~= Seq::<char>::empty());
    assert(out@ =~= old(out)@ + spec_point_lines(items));
}

fn append_summary(out: &mut String, summary: &Result<String, ServiceCallError>)
    ensures
        final(out)@ == old(out)@ + "\nSUMMARY: "@ + spec_summary_line(*summary) + "\nMETRICS:\n"@
            + spec_metrics_block(*summary),
{
    out.append("\nSUMMARY: ");
    match summary {
        Ok(answer) => {
            let parts = summary_parts(answer.as_str());
            append_joined(out, &parts.overview, " ");
            out.append("\nMETRICS:\n");
            append_point_lines(out, &parts.key_points);
        },
        Err(error) => {
            append_failure(out, error);
            out.append("\nMETRICS:\n");
        },
    }
    assert(out@ =~= old(out)@ + "\nSUMMARY: "@ + spec_summary_line(*summary) + "\nMETRICS:\n"@
        + spec_metrics_block(*summary));
}

/// Appends the section of one chunk to `out`.
pub fn append_section(out: &mut String, result: &AnalysisResult)
    ensures
        final(out)@ == old(out)@ + spec_section(*result),
{
    out.append("\n[chunk ");
    append_decimal(out, result.chunk_index as u64);
    out.append("]\nERROR_CODES: ");
    append_codes_line(out, &result.classification);
    append_summary(out, &result.summary);
    assert(out@ =~= old(out)@ + spec_section(*result));
}

/// The report of a run over the file at `file_path`, which is `file_size`
/// bytes long and was cut into `total_chunks` chunks; the run took
/// `elapsed_ms` milliseconds and gave `results`.
pub fn render_report(
    file_path: &str,
    file_size: usize,
    elapsed_ms: u64,
    total_chunks: usize,
    results: &Vec<AnalysisResult>,
) -> (report: String)
    ensures
        report@ == spec_report(
            file_path@,
            file_size as nat,
            elapsed_ms as nat,
            total_chunks as nat,
            results@,
        ),
{
    let mut report = String::new();
    report.append("Log inspection report\nFile: ");
    report.append(file_path);
    report.append("\nSize: ");
    append_decimal(&mut report, file_size as u64);
    report.append(" bytes\nElapsed: ");
    append_decimal(&mut report, elapsed_ms);
    report.append(" ms\nChunks processed: ");
    append_decimal(&mut report, results.len() as u64);
    report.append(" of ");
    append_decimal(&mut report, total_chunks as u64);
    report.append("\n");
    let ghost header = spec_header(
        file_path@,
        file_size as nat,
        elapsed_ms as nat,
        results@.len(),
        total_chunks as nat,
    );
    assert(report@ =~= header);
    let mut k: usize = 0;
    assert(results@.skip(0) =~= results@);
    while k < results.len()
        invariant
            k <= results@.len(),
            report@ + spec_sections(results@.skip(k as int)) == header + spec_sections(results@),
        decreases results@.len() - k,
    {
        let ghost before = report@;
        let ghost rest = results@.skip(k as int);
        assert(rest.first() == results@[k as int]);
        assert(rest.drop_first() =~= results@.skip(k + 1));
        append_section(&mut report, &results[k]);
        assert(report@ + spec_sections(results@.skip(k + 1)) =~= before + spec_sections(rest));
        k += 1;
    }
    assert(spec_sections(results@.skip(k as int)) =~= Seq::<char>::empty());
    assert(report@ =~= header + spec_sections(results@));
    report
}

} // verus!
