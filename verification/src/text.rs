//! Small operations on text as sequences of characters: trimming, case,
//! splitting at a separator, decimal numbers.

use vstd::prelude::*;
use vstd::string::*;

verus! {

/// Blank, tab, line feed or carriage return.
pub open spec fn is_space(c: char) -> bool {
    c == ' ' || c == '\t' || c == '\n' || c == '\r'
}

/// `text` without the white space at its start.
pub open spec fn trim_start(text: Seq<char>) -> Seq<char>
    decreases text.len(),
{
    if text.len() > 0 && is_space(text.first()) {
        trim_start(text.drop_first())
    } else {
        text
    }
}

/// `text` without the white space at its end.
pub open spec fn trim_end(text: Seq<char>) -> Seq<char>
    decreases text.len(),
{
    if text.len() > 0 && is_space(text.last()) {
        trim_end(text.drop_last())
    } else {
        text
    }
}

/// `text` without the white space at either end.
pub open spec fn trim(text: Seq<char>) -> Seq<char> {
    trim_end(trim_start(text))
}

/// The capital of an ASCII small letter; any other character unchanged.
pub open spec fn to_upper(c: char) -> char {
    if 'a' <= c && c <= 'z' {
        ((c as u8) - 32) as char
    } else {
        c
    }
}

/// `text` with its ASCII small letters capitalised.
pub open spec fn upper(text: Seq<char>) -> Seq<char> {
    Seq::new(text.len(), |i: int| to_upper(text[i]))
}

/// Offset of the first `sep` in `text`, or the length of `text` if it holds
/// none.
pub open spec fn first_index_of(text: Seq<char>, sep: char) -> int
    decreases text.len(),
{
    if text.len() == 0 || text.first() == sep {
        0
    } else {
        1 + first_index_of(text.drop_first(), sep)
    }
}

/// The pieces of `text` between occurrences of `sep`, in order. Text with `n`
/// separators has `n + 1` pieces, some of which may be empty.
pub open spec fn split(text: Seq<char>, sep: char) -> Seq<Seq<char>>
    decreases text.len(),
{
    let at = first_index_of(text, sep);
    if 0 <= at < text.len() {
        seq![text.subrange(0, at)] + split(text.subrange(at + 1, text.len() as int), sep)
    } else {
        seq![text]
    }
}

/// The texts that `strings` hold.
pub open spec fn texts(strings: Seq<String>) -> Seq<Seq<char>> {
    Seq::new(strings.len(), |i: int| strings[i]@)
}

/// Every part with `sep` in front of it, end to end.
pub open spec fn join_more(parts: Seq<Seq<char>>, sep: Seq<char>) -> Seq<char>
    decreases parts.len(),
{
    if parts.len() == 0 {
        Seq::empty()
    } else {
        sep + parts.first() + join_more(parts.drop_first(), sep)
    }
}

/// The parts end to end, with `sep` between neighbours.
pub open spec fn join(parts: Seq<Seq<char>>, sep: Seq<char>) -> Seq<char> {
    if parts.len() == 0 {
        Seq::empty()
    } else {
        parts.first() + join_more(parts.drop_first(), sep)
    }
}

/// The decimal digit of a number below ten.
pub open spec fn digit(d: nat) -> char {
    if d == 0 {
        '0'
    } else if d == 1 {
        '1'
    } else if d == 2 {
        '2'
    } else if d == 3 {
        '3'
    } else if d == 4 {
        '4'
    } else if d == 5 {
        '5'
    } else if d == 6 {
        '6'
    } else if d == 7 {
        '7'
    } else if d == 8 {
        '8'
    } else {
        '9'
    }
}

/// `n` in decimal digits, without leading zeros.
pub open spec fn decimal(n: nat) -> Seq<char>
    decreases n,
{
    if n < 10 {
        seq![digit(n)]
    } else {
        decimal(n / 10).push(digit(n % 10))
    }
}

/// Text that starts and ends with something other than white space and holds
/// no ASCII small letter is left as it is by trimming and by capitalising.
pub proof fn lemma_plain_word(word: Seq<char>)
    requires
        word.len() > 0,
        !is_space(word.first()),
        !is_space(word.last()),
        forall|i: int| 0 <= i < word.len() ==> !('a' <= #[trigger] word[i] && word[i] <= 'z'),
    ensures
        trim(word) == word,
        upper(word) == word,
{
    assert(upper(word) =~= word);
}

/// The first separator of a range lies where it is first seen.
pub proof fn lemma_first_index_of(text: Seq<char>, sep: char, at: int)
    requires
        0 <= at <= text.len(),
        forall|k: int| 0 <= k < at ==> text[k] != sep,
        at < text.len() ==> text[at] == sep,
    ensures
        first_index_of(text, sep) == at,
    decreases at,
{
    if at > 0 {
        let rest = text.drop_first();
        assert forall|k: int| 0 <= k < at - 1 implies rest[k] != sep by {
            assert(rest[k] == text[k + 1]);
        }
        lemma_first_index_of(rest, sep, at - 1);
    }
}

/// Trimming the range `from..to` of `text` gives the range `start..end`, where
/// `start` is the first offset in the range that holds no white space, and
/// `end` follows the last such offset.
pub proof fn lemma_trim_range(text: Seq<char>, from: int, to: int, start: int, end: int)
    requires
        0 <= from <= start <= end <= to <= text.len(),
        forall|k: int| from <= k < start ==> is_space(text[k]),
        forall|k: int| end <= k < to ==> is_space(text[k]),
        start < end ==> !is_space(text[start]) && !is_space(text[end - 1]),
        start == end ==> end == to,
    ensures
        trim(text.subrange(from, to)) == text.subrange(start, end),
{
    lemma_trim_start_range(text, from, to, start);
    lemma_trim_end_range(text, start, to, end);
}

proof fn lemma_trim_start_range(text: Seq<char>, from: int, to: int, start: int)
    requires
        0 <= from <= start <= to <= text.len(),
        forall|k: int| from <= k < start ==> is_space(text[k]),
        start < to ==> !is_space(text[start]),
    ensures
        trim_start(text.subrange(from, to)) == text.subrange(start, to),
    decreases start - from,
{
    let range = text.subrange(from, to);
    if from < start {
        assert(range.first() == text[from]);
        assert(range.drop_first() =~= text.subrange(from + 1, to));
        lemma_trim_start_range(text, from + 1, to, start);
    } else if start < to {
        assert(range.first() == text[start]);
    }
}

proof fn lemma_trim_end_range(text: Seq<char>, from: int, to: int, end: int)
    requires
        0 <= from <= end <= to <= text.len(),
        forall|k: int| end <= k < to ==> is_space(text[k]),
        from < end ==> !is_space(text[end - 1]),
    ensures
        trim_end(text.subrange(from, to)) == text.subrange(from, end),
    decreases to - end,
{
    let range = text.subrange(from, to);
    if end < to {
        assert(range.last() == text[to - 1]);
        assert(range.drop_last() =~= text.subrange(from, to - 1));
        lemma_trim_end_range(text, from, to - 1, end);
    } else if from < end {
        assert(range.last() == text[end - 1]);
    }
}

/// Whether `c` is white space.
pub fn char_is_space(c: char) -> (space: bool)
    ensures
        space == is_space(c),
{
    c == ' ' || c == '\t' || c == '\n' || c == '\r'
}

/// The capital of an ASCII small letter; any other character unchanged.
pub fn char_to_upper(c: char) -> (capital: char)
    ensures
        capital == to_upper(c),
{
    if 'a' <= c && c <= 'z' {
        let code: u8 = c as u8;
        (code - 32) as char
    } else {
        c
    }
}

/// The characters of `text`.
pub fn chars_of(text: &str) -> (chars: Vec<char>)
    ensures
        chars@ == text@,
{
    let mut chars: Vec<char> = Vec::new();
    for c in it: text.chars()
        invariant
            it.seq() == text@,
            chars@ == it.seq().subrange(0, it.index() as int),
    {
        chars.push(c);
    }
    assert(chars@ =~= text@);
    chars
}

/// The bounds of the range `from..to` of `chars` once the white space at its
/// ends is cut off.
pub fn trim_bounds(chars: &Vec<char>, from: usize, to: usize) -> (bounds: (usize, usize))
    requires
        from <= to <= chars@.len(),
    ensures
        from <= bounds.0 <= bounds.1 <= to,
        chars@.subrange(bounds.0 as int, bounds.1 as int) == trim(
            chars@.subrange(from as int, to as int),
        ),
        forall|k: int| from <= k < bounds.0 ==> is_space(chars@[k]),
        forall|k: int| bounds.1 <= k < to ==> is_space(chars@[k]),
        bounds.0 < bounds.1 ==> !is_space(chars@[bounds.0 as int]) && !is_space(
            chars@[bounds.1 - 1],
        ),
        bounds.0 == bounds.1 ==> bounds.1 == to,
{
    let mut start = from;
    while start < to && char_is_space(chars[start])
        invariant
            from <= start <= to <= chars@.len(),
            forall|k: int| from <= k < start ==> is_space(chars@[k]),
        decreases to - start,
    {
        start += 1;
    }
    let mut end = to;
    while end > start && char_is_space(chars[end - 1])
        invariant
            start <= end <= to <= chars@.len(),
            forall|k: int| end <= k < to ==> is_space(chars@[k]),
        decreases end,
    {
        end -= 1;
    }
    proof {
        lemma_trim_range(chars@, from as int, to as int, start as int, end as int);
    }
    (start, end)
}

/// The range `from..to` of `chars`, capitalised.
pub fn upper_range(chars: &Vec<char>, from: usize, to: usize) -> (capitals: Vec<char>)
    requires
        from <= to <= chars@.len(),
    ensures
        capitals@ == upper(chars@.subrange(from as int, to as int)),
{
    let mut capitals: Vec<char> = Vec::new();
    let mut i = from;
    while i < to
        invariant
            from <= i <= to <= chars@.len(),
            capitals@ == upper(chars@.subrange(from as int, i as int)),
        decreases to - i,
    {
        capitals.push(char_to_upper(chars[i]));
        i += 1;
        assert(capitals@ =~= upper(chars@.subrange(from as int, i as int)));
    }
    capitals
}

/// The pieces that the ranges `bounds` cut out of `text`.
pub open spec fn pieces(text: Seq<char>, bounds: Seq<(usize, usize)>) -> Seq<Seq<char>> {
    Seq::new(bounds.len(), |k: int| text.subrange(bounds[k].0 as int, bounds[k].1 as int))
}

/// The bounds of the pieces of `chars` between occurrences of `sep`, in order.
pub fn split_bounds(chars: &Vec<char>, sep: char) -> (bounds: Vec<(usize, usize)>)
    ensures
        bounds@.len() == split(chars@, sep).len(),
        bounds@.len() > 0,
        forall|k: int|
            0 <= k < bounds@.len() ==> (#[trigger] bounds@[k]).0 <= bounds@[k].1 <= chars@.len(),
        pieces(chars@, bounds@) == split(chars@, sep),
        bounds@.first().0 == 0,
        bounds@.last().1 == chars@.len(),
        forall|k: int|
            0 <= k < bounds@.len() - 1 ==> (#[trigger] bounds@[k]).1 + 1 == bounds@[k + 1].0,
{
    let n = chars.len();
    let mut bounds: Vec<(usize, usize)> = Vec::new();
    let mut from: usize = 0;
    let mut i: usize = 0;
    assert(chars@.subrange(0, n as int) =~= chars@);
    assert(pieces(chars@, bounds@) =~= Seq::<Seq<char>>::empty());
    while i < n
        invariant
            n == chars@.len(),
            from <= i <= n,
            forall|k: int| from <= k < i ==> chars@[k] != sep,
            forall|k: int|
                0 <= k < bounds@.len() ==> (#[trigger] bounds@[k]).0 <= bounds@[k].1 <= n,
            bounds@.len() == 0 ==> from == 0,
            bounds@.len() > 0 ==> bounds@.first().0 == 0 && bounds@.last().1 + 1 == from,
            forall|k: int|
                0 <= k < bounds@.len() - 1 ==> (#[trigger] bounds@[k]).1 + 1 == bounds@[k + 1].0,
            pieces(chars@, bounds@) + split(chars@.subrange(from as int, n as int), sep) == split(
                chars@,
                sep,
            ),
        decreases n - i,
    {
        if chars[i] == sep {
            let ghost done = pieces(chars@, bounds@);
            let ghost rest = chars@.subrange(from as int, n as int);
            proof {
                assert forall|k: int| 0 <= k < i - from implies rest[k] != sep by {
                    assert(rest[k] == chars@[from + k]);
                }
                lemma_first_index_of(rest, sep, i - from);
                assert(rest.subrange(0, i - from) =~= chars@.subrange(from as int, i as int));
                assert(rest.subrange(i - from + 1, rest.len() as int) =~= chars@.subrange(
                    i + 1,
                    n as int,
                ));
            }
            bounds.push((from, i));
            assert(pieces(chars@, bounds@) =~= done.push(chars@.subrange(from as int, i as int)));
            assert(done.push(chars@.subrange(from as int, i as int)) + split(
                chars@.subrange(i + 1, n as int),
                sep,
            ) =~= done + split(rest, sep));
            from = i + 1;
        }
        i += 1;
    }
    let ghost done = pieces(chars@, bounds@);
    let ghost rest = chars@.subrange(from as int, n as int);
    proof {
        assert forall|k: int| 0 <= k < rest.len() implies rest[k] != sep by {
            assert(rest[k] == chars@[from + k]);
        }
        lemma_first_index_of(rest, sep, rest.len() as int);
    }
    bounds.push((from, n));
    assert(pieces(chars@, bounds@) =~= done.push(rest));
    assert(done.push(rest) =~= done + split(rest, sep));
    bounds
}

/// Whether `chars` spells `word`.
pub fn spells(chars: &Vec<char>, word: &str) -> (same: bool)
    ensures
        same == (chars@ == word@),
{
    let letters = chars_of(word);
    if letters.len() != chars.len() {
        return false;
    }
    let mut i: usize = 0;
    while i < chars.len()
        invariant
            letters@ == word@,
            letters@.len() == chars@.len(),
            i <= chars@.len(),
            forall|k: int| 0 <= k < i ==> chars@[k] == letters@[k],
        decreases chars@.len() - i,
    {
        if chars[i] != letters[i] {
            return false;
        }
        i += 1;
    }
    assert(chars@ =~= letters@);
    true
}

/// The decimal digit of `d`, as text.
pub fn digit_str(d: u64) -> (text: &'static str)
    requires
        d < 10,
    ensures
        text@ == seq![digit(d as nat)],
{
    proof {
        reveal_strlit("0");
        reveal_strlit("1");
        reveal_strlit("2");
        reveal_strlit("3");
        reveal_strlit("4");
        reveal_strlit("5");
        reveal_strlit("6");
        reveal_strlit("7");
        reveal_strlit("8");
        reveal_strlit("9");
    }
    let text = if d == 0 {
        "0"
    } else if d == 1 {
        "1"
    } else if d == 2 {
        "2"
    } else if d == 3 {
        "3"
    } else if d == 4 {
        "4"
    } else if d == 5 {
        "5"
    } else if d == 6 {
        "6"
    } else if d == 7 {
        "7"
    } else if d == 8 {
        "8"
    } else {
        "9"
    };
    assert(text@ =~= seq![digit(d as nat)]);
    text
}

/// Appends `n` in decimal digits to `out`.
pub fn append_decimal(out: &mut String, n: u64)
    ensures
        final(out)@ == old(out)@ + decimal(n as nat),
    decreases n,
{
    if n >= 10 {
        append_decimal(out, n / 10);
    }
    out.append(digit_str(n % 10));
    assert(out@ =~= old(out)@ + decimal(n as nat));
}

/// Appends the texts of `parts` to `out`, with `sep` between neighbours.
pub fn append_joined(out: &mut String, parts: &Vec<String>, sep: &str)
    ensures
        final(out)@ == old(out)@ + join(texts(parts@), sep@),
{
    let ghost items = texts(parts@);
    if parts.len() == 0 {
        assert(out@ =~= old(out)@ + join(items, sep@));
        return ;
    }
    out.append(parts[0].as_str());
    let mut k: usize = 1;
    assert(items.skip(1) =~= items.drop_first());
    while k < parts.len()
        invariant
            items == texts(parts@),
            1 <= k <= parts@.len(),
            out@ + join_more(items.skip(k as int), sep@) == old(out)@ + join(items, sep@),
        decreases parts@.len() - k,
    {
        let ghost before = out@;
        let ghost rest = items.skip(k as int);
        assert(rest.first() == parts@[k as int]@);
        assert(rest.drop_first() =~= items.skip(k + 1));
        out.append(sep);
        out.append(parts[k].as_str());
        assert(out@ + join_more(items.skip(k + 1), sep@) =~= before + join_more(rest, sep@));
        k += 1;
    }
    assert(join_more(items.skip(k as int), sep@) =~= Seq::<char>::empty());
    assert(out@ =~= old(out)@ + join(items, sep@));
}

} // verus!
