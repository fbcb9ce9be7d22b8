//! The closed set of outcomes that a log can be classified as, and the reading
//! of the analysis service's answer into it.

use crate::summary::{spec_key_points, summary_parts};
use crate::text::{
    chars_of, lemma_plain_word, pieces, spells, split, split_bounds, texts, trim, trim_bounds,
    upper, upper_range,
};
use vstd::prelude::*;

verus! {

/// What went wrong in a run, or that nothing did.
#[derive(Debug, Hash, PartialEq, Eq, Clone, Copy, Structural)]
pub enum ErrorType {
    Success,
    UserCodeError,
    ScalingError,
    SparkError,
    SparkOomError,
    NetworkError,
    PermissionError,
    UnknownError,
}

impl ErrorType {
    /// The code that names this outcome in requests, answers and reports.
    pub open spec fn spec_code(self) -> Seq<char> {
        match self {
            ErrorType::Success => "SUCCESS"@,
            ErrorType::UserCodeError => "USER_CODE_ERROR"@,
            ErrorType::ScalingError => "SCALING_ERROR"@,
            ErrorType::SparkError => "SPARK_ERROR"@,
            ErrorType::SparkOomError => "SPARK_OOM_ERROR"@,
            ErrorType::NetworkError => "NETWORK_ERROR"@,
            ErrorType::PermissionError => "PERMISSION_ERROR"@,
            ErrorType::UnknownError => "UNKNOWN_ERROR"@,
        }
    }

    /// The outcome that `token` names: the token is trimmed and capitalised
    /// and then has to be one of the codes. Anything else is an unknown error.
    pub open spec fn spec_from_code(token: Seq<char>) -> ErrorType {
        let word = upper(trim(token));
        if word == "SUCCESS"@ {
            ErrorType::Success
        } else if word == "USER_CODE_ERROR"@ {
            ErrorType::UserCodeError
        } else if word == "SCALING_ERROR"@ {
            ErrorType::ScalingError
        } else if word == "SPARK_ERROR"@ {
            ErrorType::SparkError
        } else if word == "SPARK_OOM_ERROR"@ {
            ErrorType::SparkOomError
        } else if word == "NETWORK_ERROR"@ {
            ErrorType::NetworkError
        } else if word == "PERMISSION_ERROR"@ {
            ErrorType::PermissionError
        } else {
            ErrorType::UnknownError
        }
    }

    /// The code that names this outcome.
    pub fn code(&self) -> (code: &'static str)
        ensures
            code@ == self.spec_code(),
    {
        match self {
            ErrorType::Success => "SUCCESS",
            ErrorType::UserCodeError => "USER_CODE_ERROR",
            ErrorType::ScalingError => "SCALING_ERROR",
            ErrorType::SparkError => "SPARK_ERROR",
            ErrorType::SparkOomError => "SPARK_OOM_ERROR",
            ErrorType::NetworkError => "NETWORK_ERROR",
            ErrorType::PermissionError => "PERMISSION_ERROR",
            ErrorType::UnknownError => "UNKNOWN_ERROR",
        }
    }

    /// The outcome that the range `from..to` of `chars` names.
    pub fn from_range(chars: &Vec<char>, from: usize, to: usize) -> (found: ErrorType)
        requires
            from <= to <= chars@.len(),
        ensures
            found == ErrorType::spec_from_code(chars@.subrange(from as int, to as int)),
    {
        let (start, end) = trim_bounds(chars, from, to);
        let word = upper_range(chars, start, end);
        if spells(&word, "SUCCESS") {
            ErrorType::Success
        } else if spells(&word, "USER_CODE_ERROR") {
            ErrorType::UserCodeError
        } else if spells(&word, "SCALING_ERROR") {
            ErrorType::ScalingError
        } else if spells(&word, "SPARK_ERROR") {
            ErrorType::SparkError
        } else if spells(&word, "SPARK_OOM_ERROR") {
            ErrorType::SparkOomError
        } else if spells(&word, "NETWORK_ERROR") {
            ErrorType::NetworkError
        } else if spells(&word, "PERMISSION_ERROR") {
            ErrorType::PermissionError
        } else {
            ErrorType::UnknownError
        }
    }

    /// The outcome that `token` names, whatever its case and the white space
    /// around it; an unknown error for a token that is no code.
    pub fn from_code(token: &str) -> (found: ErrorType)
        ensures
            found == ErrorType::spec_from_code(token@),
    {
        let chars = chars_of(token);
        assert(chars@.subrange(0, chars@.len() as int) =~= chars@);
        ErrorType::from_range(&chars, 0, chars.len())
    }
}

/// Every code reads back as the outcome that it names, so no outcome is lost
/// on its way through an answer.
pub proof fn lemma_code_reads_back(error_type: ErrorType)
    ensures
        ErrorType::spec_from_code(error_type.spec_code()) == error_type,
{
    reveal_strlit("SUCCESS");
    reveal_strlit("USER_CODE_ERROR");
    reveal_strlit("SCALING_ERROR");
    reveal_strlit("SPARK_ERROR");
    reveal_strlit("SPARK_OOM_ERROR");
    reveal_strlit("NETWORK_ERROR");
    reveal_strlit("PERMISSION_ERROR");
    reveal_strlit("UNKNOWN_ERROR");
    let word = error_type.spec_code();
    lemma_plain_word(word);
    assert("SUCCESS"@[0] == 'S');
    assert("USER_CODE_ERROR"@[0] == 'U');
    assert("SCALING_ERROR"@[0] == 'S');
    assert("SPARK_ERROR"@[0] == 'S');
    assert("SPARK_OOM_ERROR"@[0] == 'S');
    assert("NETWORK_ERROR"@[0] == 'N');
    assert("PERMISSION_ERROR"@[0] == 'P');
    assert("UNKNOWN_ERROR"@[0] == 'U');
    assert("SCALING_ERROR"@[1] == 'C');
    assert("UNKNOWN_ERROR"@[1] == 'N');
    assert("USER_CODE_ERROR"@[1] == 'S');
}

/// The outcomes that a comma-separated answer names, one for each piece of
/// the answer, in the order of the pieces.
pub open spec fn spec_parse_error_types(response: Seq<char>) -> Seq<ErrorType> {
    Seq::new(
        split(response, ',').len(),
        |k: int| ErrorType::spec_from_code(split(response, ',')[k]),
    )
}

/// Reads a comma-separated answer of the analysis service.
///
/// Every piece between commas gives one outcome, in order; a piece that is no
/// code, an empty one included, gives an unknown error. So the result is
/// never empty and no piece is dropped.
pub fn parse_error_types(response: &str) -> (types: Vec<ErrorType>)
    ensures
        types@ == spec_parse_error_types(response@),
        types@.len() > 0,
{
    let chars = chars_of(response);
    let bounds = split_bounds(&chars, ',');
    let mut types: Vec<ErrorType> = Vec::new();
    let mut k: usize = 0;
    while k < bounds.len()
        invariant
            chars@ == response@,
            k <= bounds@.len(),
            bounds@.len() == split(chars@, ',').len(),
            forall|j: int|
                0 <= j < bounds@.len() ==> (#[trigger] bounds@[j]).0 <= bounds@[j].1
                    <= chars@.len(),
            pieces(chars@, bounds@) == split(chars@, ','),
            types@.len() == k,
            forall|j: int|
                0 <= j < k ==> #[trigger] types@[j] == ErrorType::spec_from_code(
                    split(chars@, ',')[j],
                ),
        decreases bounds@.len() - k,
    {
        let (from, to) = bounds[k];
        assert(pieces(chars@, bounds@)[k as int] == chars@.subrange(from as int, to as int));
        types.push(ErrorType::from_range(&chars, from, to));
        k += 1;
    }
    assert(types@ =~= spec_parse_error_types(response@));
    types
}

/// The outcome that an answer names first, which the service holds to be the
/// most likely.
pub fn primary_error_type(response: &str) -> (primary: ErrorType)
    ensures
        primary == spec_parse_error_types(response@)[0],
{
    let types = parse_error_types(response);
    types[0]
}

/// The classification of one chunk: the outcome and the messages that go with
/// it.
#[derive(Debug, Clone, PartialEq, Eq)]
pub struct ErrorClassification {
    pub error_type: ErrorType,
    pub messages: Vec<String>,
}

impl ErrorClassification {
    /// The classification that the service's two answers for a chunk amount
    /// to: the outcome that the classification names first, with the key points
    /// of the summary as messages.
    pub fn from_answers(classification: &str, summary: &str) -> (found: ErrorClassification)
        ensures
            found.error_type == spec_parse_error_types(classification@)[0],
            texts(found.messages@) == spec_key_points(summary@),
    {
        let error_type = primary_error_type(classification);
        let parts = summary_parts(summary);
        ErrorClassification { error_type, messages: parts.key_points }
    }
}

} // verus!
