//! The battery: reading its charge and drawing its gauge.

use vstd::prelude::*;
use vstd::string::StrSliceExecFns;

verus! {

/// A character that counts as white space around a number.
pub open spec fn is_space(c: char) -> bool {
    ||| '\u{9}' <= c && c <= '\u{d}'
    ||| c == ' '
    ||| c == '\u{85}'
    ||| c == '\u{a0}'
    ||| c == '\u{1680}'
    ||| '\u{2000}' <= c && c <= '\u{200a}'
    ||| c == '\u{2028}'
    ||| c == '\u{2029}'
    ||| c == '\u{202f}'
    ||| c == '\u{205f}'
    ||| c == '\u{3000}'
}

/// Text without the white space at its start.
pub open spec fn trim_start(text: Seq<char>) -> Seq<char>
    decreases text.len(),
{
    if text.len() > 0 && is_space(text.first()) {
        trim_start(text.drop_first())
    } else {
        text
    }
}

/// Text without the white space at its end.
pub open spec fn trim_end(text: Seq<char>) -> Seq<char>
    decreases text.len(),
{
    if text.len() > 0 && is_space(text.last()) {
        trim_end(text.drop_last())
    } else {
        text
    }
}

/// Text without the white space around it.
pub open spec fn trim(text: Seq<char>) -> Seq<char> {
    trim_end(trim_start(text))
}

/// The number that a text stands for: an optional plus sign and digits, where
/// the number fits into a `usize`.
pub open spec fn number_in(text: Seq<char>) -> Option<usize> {
    let digits = if text.len() > 0 && text[0] == '+' {
        text.drop_first()
    } else {
        text
    };
    if digits.len() > 0 && crate::number::all_digits(digits) && crate::number::digits_value(digits)
        <= usize::MAX {
        Some(crate::number::digits_value(digits) as usize)
    } else {
        None
    }
}

fn space(c: char) -> (yes: bool)
    ensures
        yes == is_space(c),
{
    ('\u{9}' <= c && c <= '\u{d}') || c == ' ' || c == '\u{85}' || c == '\u{a0}' || c
        == '\u{1680}' || ('\u{2000}' <= c && c <= '\u{200a}') || c == '\u{2028}' || c
        == '\u{2029}' || c == '\u{202f}' || c == '\u{205f}' || c == '\u{3000}'
}

/// The characters of a text.
fn characters(text: &str) -> (chars: Vec<char>)
    ensures
        chars@ == text@,
{
    let mut chars: Vec<char> = Vec::new();
    let length: usize = text.unicode_len();
    for i in 0..length
        invariant
            length == text@.len(),
            chars@ == text@.take(i as int),
    {
        chars.push(text.get_char(i));
        assert(text@.take(i + 1) =~= chars@);
    }
    assert(text@.take(length as int) =~= text@);
    chars
}

/// The range of a text that is left when the white space around it goes.
fn trimmed_range(chars: &Vec<char>) -> (range: (usize, usize))
    ensures
        range.0 <= range.1 <= chars.len(),
        chars@.subrange(range.0 as int, range.1 as int) == trim(chars@),
{
    let mut start: usize = 0;
    let mut end: usize = chars.len();
    assert(chars@.subrange(0, end as int) =~= chars@);
    while start < end && space(chars[start])
        invariant
            start <= end,
            end == chars.len(),
            trim_start(chars@.subrange(start as int, end as int)) == trim_start(chars@),
        ensures
            start <= end,
            end == chars.len(),
            chars@.subrange(start as int, end as int) == trim_start(chars@),
        decreases end - start,
    {
        assert(chars@.subrange(start as int, end as int).drop_first() =~= chars@.subrange(
            start + 1,
            end as int,
        ));
        start = start + 1;
    }
    while start < end && space(chars[end - 1])
        invariant
            start <= end <= chars.len(),
            trim_end(chars@.subrange(start as int, end as int)) == trim(chars@),
        ensures
            start <= end <= chars.len(),
            chars@.subrange(start as int, end as int) == trim(chars@),
        decreases end,
    {
        assert(chars@.subrange(start as int, end as int).drop_last() =~= chars@.subrange(
            start as int,
            end - 1,
        ));
        end = end - 1;
    }
    (start, end)
}

/// Reads a row of digits, if it is one and its number fits.
fn read_digits(chars: &Vec<char>, start: usize, end: usize) -> (number: Option<usize>)
    requires
        start <= end <= chars.len(),
    ensures
        ({
            let digits = chars@.subrange(start as int, end as int);
            number == if digits.len() > 0 && crate::number::all_digits(digits)
                && crate::number::digits_value(digits) <= usize::MAX {
                Some(crate::number::digits_value(digits) as usize)
            } else {
                None
            }
        }),
{
    let ghost digits = chars@.subrange(start as int, end as int);
    if start == end {
        return None;
    }
    let mut value: usize = 0;
    for i in start..end
        invariant
            start <= i <= end <= chars.len(),
            digits == chars@.subrange(start as int, end as int),
            crate::number::all_digits(digits.take(i - start)),
            value == crate::number::digits_value(digits.take(i - start)),
    {
        let c = chars[i];
        let ghost done = digits.take(i - start);
        let ghost next = digits.take(i - start + 1);
        proof {
            assert(next.drop_last() =~= done);
            assert(next.last() == c && digits[i - start] == c);
            crate::number::lemma_prefix_is_not_larger(digits, i - start + 1);
        }
        if !('0' <= c && c <= '9') {
            return None;
        }
        let digit: usize = (c as u32 - '0' as u32) as usize;
        let grown: usize = match value.checked_mul(10) {
            Some(tens) => match tens.checked_add(digit) {
                Some(grown) => grown,
                None => {
                    return None;
                },
            },
            None => {
                return None;
            },
        };
        value = grown;
        assert(crate::number::all_digits(next));
    }
    assert(digits.take(end - start) =~= digits);
    Some(value)
}

/// Reads a charge as the battery's driver writes it: a number in decimal
/// digits that may have white space around it and a plus sign in front.
pub fn parse_charge(text: &str) -> (charge: Option<usize>)
    ensures
        charge == number_in(trim(text@)),
{
    let chars = characters(text);
    let (start, end) = trimmed_range(&chars);
    let ghost trimmed = trim(text@);
    if start < end && chars[start] == '+' {
        assert(trimmed.drop_first() =~= chars@.subrange(start + 1, end as int));
        read_digits(&chars, start + 1, end)
    } else {
        read_digits(&chars, start, end)
    }
}

/// The points on the rim of the gauge.
pub const GAUGE_POINTS: u32 = 100;

/// The triangles that fill a gauge up to `used` points: each spans from the
/// center, which is vertex zero, to a vertex and the one after it.
pub open spec fn gauge(used: u32) -> Seq<(u32, u32, u32)> {
    Seq::new((used - 1) as nat, |i: int| (i as u32, 0u32, (i + 1) as u32))
}

/// Plans the triangles of the gauge.
pub fn gauge_triangles(used: u32) -> (triangles: Vec<(u32, u32, u32)>)
    requires
        used >= 1,
    ensures
        triangles@ == gauge(used),
{
    let mut triangles: Vec<(u32, u32, u32)> = Vec::new();
    for i in 0..used - 1
        invariant
            used >= 1,
            triangles@ == gauge((i + 1) as u32),
    {
        triangles.push((i, 0, i + 1));
        assert(triangles@ =~= gauge((i + 2) as u32));
    }
    triangles
}

/// A charge is read back as it was written, whatever white space stands around
/// it and with a plus sign or without.
pub proof fn written_charge_reads_back(charge: usize, before: Seq<char>, after: Seq<char>)
    requires
        forall|i: int| 0 <= i < before.len() ==> is_space(#[trigger] before[i]),
        forall|i: int| 0 <= i < after.len() ==> is_space(#[trigger] after[i]),
    ensures
        ({
            let digits = crate::number::decimal(charge as nat);
            &&& number_in(trim(before + digits + after)) == Some(charge)
            &&& number_in(trim(before + (seq!['+'] + digits) + after)) == Some(charge)
        }),
{
    let digits = crate::number::decimal(charge as nat);
    let signed = seq!['+'] + digits;
    crate::number::decimal_reads_back(charge as nat);
    assert(crate::number::is_digit(digits[0]) && crate::number::is_digit(digits.last()));
    lemma_trim_around(before, digits, after);
    assert(signed[0] == '+' && signed.last() == digits.last());
    lemma_trim_around(before, signed, after);
    assert(signed.drop_first() =~= digits);
}

/// Trimming takes all the white space around a text that has none at its ends.
proof fn lemma_trim_around(before: Seq<char>, text: Seq<char>, after: Seq<char>)
    requires
        text.len() > 0,
        !is_space(text.first()),
        !is_space(text.last()),
        forall|i: int| 0 <= i < before.len() ==> is_space(#[trigger] before[i]),
        forall|i: int| 0 <= i < after.len() ==> is_space(#[trigger] after[i]),
    ensures
        trim(before + text + after) == text,
    decreases before.len() + after.len(),
{
    let all = before + text + after;
    if before.len() > 0 {
        assert(all.first() == before[0]);
        assert(all.drop_first() =~= before.drop_first() + text + after);
        lemma_trim_around(before.drop_first(), text, after);
    } else if after.len() > 0 {
        assert(all.first() == text.first());
        let shorter = before + text + after.drop_last();
        assert(shorter.first() == text.first());
        assert(all.last() == after.last());
        assert(all.drop_last() =~= shorter);
        lemma_trim_around(before, text, after.drop_last());
    } else {
        assert(all =~= text);
    }
}

/// A gauge that is at most full refers only to vertices that there are: the
/// center and the points on the rim.
pub proof fn gauge_stays_on_its_points(used: u32, i: int)
    requires
        1 <= used <= GAUGE_POINTS + 1,
        0 <= i < gauge(used).len(),
    ensures
        gauge(used)[i].0 <= GAUGE_POINTS,
        gauge(used)[i].1 == 0,
        gauge(used)[i].2 <= GAUGE_POINTS,
{
}

/// Neighboring triangles share an edge, so the gauge has no gaps.
pub proof fn gauge_has_no_gaps(used: u32, i: int)
    requires
        1 <= used,
        0 <= i,
        i + 1 < gauge(used).len(),
    ensures
        gauge(used)[i].2 == gauge(used)[i + 1].0,
        gauge(used)[i].1 == gauge(used)[i + 1].1,
{
}

/// Trimming takes the white space at both ends and nothing else: what is left
/// is a piece of the text, all around it is white space, and it neither begins
/// nor ends with any.
pub proof fn trimming_takes_only_white_space(text: Seq<char>)
    ensures
        exists|start: int, end: int|
            {
                &&& 0 <= start <= end <= text.len()
                &&& #[trigger] text.subrange(start, end) == trim(text)
                &&& forall|i: int|
                    0 <= i < start || end <= i < text.len() ==> is_space(#[trigger] text[i])
                &&& start < end ==> !is_space(text[start]) && !is_space(text[end - 1])
            },
{
    let start = lemma_trim_start(text);
    let rest = text.skip(start);
    let length = lemma_trim_end(rest);
    let end = start + length;
    assert(text.subrange(start, end) =~= rest.take(length));
    assert forall|i: int| 0 <= i < start || end <= i < text.len() implies is_space(
        #[trigger] text[i],
    ) by {
        if i >= end {
            assert(text[i] == rest[i - start]);
        }
    }
    if start < end {
        assert(text[start] == rest[0]);
        assert(text[end - 1] == rest[length - 1]);
    }
}

proof fn lemma_trim_start(text: Seq<char>) -> (start: int)
    ensures
        0 <= start <= text.len(),
        trim_start(text) == text.skip(start),
        forall|i: int| 0 <= i < start ==> is_space(#[trigger] text[i]),
        start < text.len() ==> !is_space(text[start]),
    decreases text.len(),
{
    if text.len() > 0 && is_space(text.first()) {
        let rest = text.drop_first();
        let start = lemma_trim_start(rest);
        assert(rest.skip(start) =~= text.skip(start + 1));
        assert forall|i: int| 0 <= i < start + 1 implies is_space(#[trigger] text[i]) by {
            if i > 0 {
                assert(text[i] == rest[i - 1]);
            }
        }
        start + 1
    } else {
        assert(text.skip(0) =~= text);
        0
    }
}

proof fn lemma_trim_end(text: Seq<char>) -> (end: int)
    ensures
        0 <= end <= text.len(),
        trim_end(text) == text.take(end),
        forall|i: int| end <= i < text.len() ==> is_space(#[trigger] text[i]),
        0 < end ==> !is_space(text[end - 1]),
    decreases text.len(),
{
    if text.len() > 0 && is_space(text.last()) {
        let rest = text.drop_last();
        let end = lemma_trim_end(rest);
        assert(rest.take(end) =~= text.take(end));
        assert forall|i: int| end <= i < text.len() implies is_space(#[trigger] text[i]) by {
            if i < rest.len() {
                assert(text[i] == rest[i]);
            }
        }
        end
    } else {
        assert(text.take(text.len() as int) =~= text);
        text.len() as int
    }
}

/// No digit, sign or letter is white space, nor is anything behind U+3000.
pub proof fn white_space_is_blank(c: char)
    requires
        is_space(c),
    ensures
        c <= ' ' || '\u{85}' <= c,
        c <= '\u{3000}',
        !crate::number::is_digit(c),
        c != '+' && c != '-',
{
}

/// A text is read exactly if it is digits, with a plus sign in front or
/// without, and the number fits. There must be a digit.
pub proof fn only_numbers_are_read(text: Seq<char>)
    ensures
        ({
            let from: int = if text.len() > 0 && text[0] == '+' {
                1
            } else {
                0
            };
            let digits = text.skip(from);
            &&& number_in(text) is Some <==> from < text.len() && (forall|i: int|
                from <= i < text.len() ==> '0' <= #[trigger] text[i] && text[i] <= '9')
                && crate::number::digits_value(digits) <= usize::MAX
            &&& number_in(text) matches Some(number) ==> number == crate::number::digits_value(
                digits,
            )
        }),
{
    let from: int = if text.len() > 0 && text[0] == '+' {
        1
    } else {
        0
    };
    let digits = text.skip(from);
    if from == 1 {
        assert(digits =~= text.drop_first());
    } else {
        assert(digits =~= text);
    }
    if crate::number::all_digits(digits) {
        assert forall|i: int| from <= i < text.len() implies '0' <= #[trigger] text[i] && text[i]
            <= '9' by {
            assert(crate::number::is_digit(digits[i - from]));
        }
    }
    if forall|i: int| from <= i < text.len() ==> '0' <= #[trigger] text[i] && text[i] <= '9' {
        assert forall|i: int| 0 <= i < digits.len() implies crate::number::is_digit(
            #[trigger] digits[i],
        ) by {
            assert(digits[i] == text[i + from]);
        }
    }
}

/// White space around a text makes no difference to what is read.
pub proof fn white_space_makes_no_difference(before: Seq<char>, charge: usize, after: Seq<char>)
    requires
        forall|i: int| 0 <= i < before.len() ==> is_space(#[trigger] before[i]),
        forall|i: int| 0 <= i < after.len() ==> is_space(#[trigger] after[i]),
    ensures
        number_in(trim(before + crate::number::decimal(charge as nat) + after)) == number_in(
            trim(crate::number::decimal(charge as nat)),
        ),
{
    let digits = crate::number::decimal(charge as nat);
    written_charge_reads_back(charge, before, after);
    written_charge_reads_back(charge, Seq::empty(), Seq::empty());
    assert(Seq::<char>::empty() + digits + Seq::<char>::empty() =~= digits);
}

/// A gauge of one point is empty, and each further point adds one triangle, at
/// the end, from the last point to the next around the center.
pub proof fn gauges_grow_by_triangles(used: u32)
    requires
        1 <= used < u32::MAX,
    ensures
        gauge(1).len() == 0,
        gauge((used + 1) as u32) == gauge(used).push(((used - 1) as u32, 0u32, used)),
{
    assert(gauge((used + 1) as u32) =~= gauge(used).push(((used - 1) as u32, 0u32, used)));
}

} // verus!
