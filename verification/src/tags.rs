//! Tags: sets of workspaces, one bit for each.

use crate::number::decimal_text;
use vstd::prelude::*;
use vstd::string::StringExecFns;

verus! {

/// The tags that a bar has buttons for.
pub const TAG_COUNT: u32 = 31;

/// Whether a set of tags holds a tag.
pub open spec fn has_tag(tags: u32, tag: u32) -> bool {
    tags & (1u32 << tag) != 0
}

/// All tags that some view has.
pub open spec fn union_of(views: Seq<u32>) -> u32
    decreases views.len(),
{
    if views.len() == 0 {
        0
    } else {
        union_of(views.drop_last()) | views.last()
    }
}

/// The order of the bytes in a number.
pub enum ByteOrder {
    /// The lowest byte first.
    Little,
    /// The highest byte first.
    Big,
}

/// The number that four bytes stand for.
pub open spec fn word(a: u8, b: u8, c: u8, d: u8, order: ByteOrder) -> u32 {
    match order {
        ByteOrder::Little => (a + 0x100 * b + 0x1_0000 * c + 0x100_0000 * d) as u32,
        ByteOrder::Big => (d + 0x100 * c + 0x1_0000 * b + 0x100_0000 * a) as u32,
    }
}

/// The numbers that a row of bytes stands for.
pub open spec fn words(bytes: Seq<u8>, order: ByteOrder) -> Seq<u32> {
    Seq::new(
        bytes.len() / 4,
        |i: int| word(bytes[4 * i], bytes[4 * i + 1], bytes[4 * i + 2], bytes[4 * i + 3], order),
    )
}

/// The byte order of the machine, which is the same for everything that it
/// reads.
pub open spec fn native_order() -> ByteOrder {
    match vstd::endian::endianness() {
        vstd::endian::Endian::Little => ByteOrder::Little,
        vstd::endian::Endian::Big => ByteOrder::Big,
    }
}

/// The tags of the first `count` tags that a set holds, in order.
pub open spec fn tags_in(tags: u32, count: nat) -> Seq<u32> {
    Seq::new(count, |i: int| i as u32).filter(|tag: u32| has_tag(tags, tag))
}

/// The bytes that list the tags of all views could not be read as numbers.
#[derive(Clone, Copy, Debug, PartialEq, Eq, Structural)]
pub struct UnreadableTags;

/// The error of a cast by bytemuck.
#[verifier::external_type_specification]
#[verifier::external_body]
pub struct ExPodCastError(bytemuck::PodCastError);

/// Reads bytes as numbers by `bytemuck::try_cast_slice`.
///
/// The numbers are those that the bytes stand for in the machine's own byte
/// order, which is the same for every cast. The cast fails if the bytes are not a whole
/// number of words, or if they do not lie in memory where a word may. Whether
/// they do depends on their address and is not stated.
#[verifier::external_body]
fn cast_words(bytes: &[u8]) -> (cast: Result<&[u32], bytemuck::PodCastError>)
    ensures
        cast matches Ok(found) ==> found@ == words(bytes@, native_order()),
        bytes@.len() % 4 != 0 ==> cast is Err,
{
    bytemuck::try_cast_slice(bytes)
}

/// A cast of these bytes can fail where they lie in memory.
pub closed spec fn cast_fails(bytes: &[u8]) -> bool {
    exists|error: bytemuck::PodCastError|
        call_ensures(cast_words, (bytes,), Err::<&[u32], bytemuck::PodCastError>(error))
}

/// Only what a cast of these very bytes came to can be called its failure.
proof fn failures_are_those_of_the_cast(bytes: &[u8])
    ensures
        cast_fails(bytes) ==> exists|error: bytemuck::PodCastError|
            call_ensures(cast_words, (bytes,), Err::<&[u32], bytemuck::PodCastError>(error)),
{
}

/// All tags that some view has.
pub fn views_union(views: &[u32]) -> (tags: u32)
    ensures
        tags == union_of(views@),
{
    let mut tags: u32 = 0;
    for i in 0..views.len()
        invariant
            tags == union_of(views@.take(i as int)),
    {
        assert(views@.take(i + 1).drop_last() =~= views@.take(i as int));
        tags = tags | views[i];
    }
    assert(views@.take(views.len() as int) =~= views@);
    tags
}

/// All tags that some view has, where the views' tags come as the bytes of
/// numbers in the machine's byte order. Bytes that cannot be read as numbers
/// where they lie in memory are an error, and nothing else is. No bytes are no
/// tags.
pub fn tags_in_use(bytes: &[u8]) -> (tags: Result<u32, UnreadableTags>)
    ensures
        bytes@.len() == 0 ==> tags == Ok::<u32, UnreadableTags>(0),
        bytes@.len() % 4 != 0 ==> tags is Err,
        tags matches Ok(used) ==> used == union_of(words(bytes@, native_order())),
        tags is Err ==> cast_fails(bytes),
{
    if bytes.len() == 0 {
        proof {
            assert(words(bytes@, native_order()).len() == 0);
        }
        return Ok(0);
    }
    match cast_words(bytes) {
        Ok(views) => {
            let used: u32 = views_union(views);
            Ok(used)
        },
        Err(error) => {
            assert(call_ensures(
                cast_words,
                (bytes,),
                Err::<&[u32], bytemuck::PodCastError>(error),
            ));
            Err(UnreadableTags)
        },
    }
}

/// The tags that get a button: those in use, in order.
pub fn shown_tags(used: u32) -> (tags: Vec<u32>)
    ensures
        tags@ == tags_in(used, TAG_COUNT as nat),
        forall|tag: u32| #[trigger] tags@.contains(tag) <==> tag < 31 && used & (1u32 << tag) != 0,
        forall|i: int, j: int| 0 <= i < j < tags@.len() ==> tags@[i] < tags@[j],
{
    let mut tags: Vec<u32> = Vec::new();
    proof {
        reveal(Seq::filter);
        assert(tags@ =~= tags_in(used, 0));
    }
    for tag in 0..TAG_COUNT
        invariant
            tags@ == tags_in(used, tag as nat),
    {
        proof {
            lemma_next_tag(used, tag);
        }
        if used & (1u32 << tag) != 0 {
            tags.push(tag);
        }
    }
    proof {
        buttons_are_the_tags_in_use(used, TAG_COUNT as nat);
        assert(forall|tag: u32|
            #![trigger tags@.contains(tag)]
            has_tag(used, tag) == (used & (1u32 << tag) != 0));
    }
    tags
}

proof fn lemma_next_tag(used: u32, tag: u32)
    requires
        tag < TAG_COUNT,
    ensures
        tags_in(used, (tag + 1) as nat) == if has_tag(used, tag) {
            tags_in(used, tag as nat).push(tag)
        } else {
            tags_in(used, tag as nat)
        },
{
    reveal(Seq::filter);
    let all = Seq::new((tag + 1) as nat, |i: int| i as u32);
    assert(all.drop_last() =~= Seq::new(tag as nat, |i: int| i as u32));
    assert(all.last() == tag);
}

/// What the button of a tag is labelled with: tags are counted from one.
pub fn tag_label(tag: u32) -> (label: String)
    requires
        tag < TAG_COUNT,
    ensures
        label@ == crate::number::decimal((tag + 1) as nat),
        crate::number::digits_value(label@) == tag + 1,
{
    proof {
        crate::number::decimal_reads_back((tag + 1) as nat);
    }
    decimal_text(tag + 1)
}

/// The arguments of the command that shows one tag and no other.
pub fn focus_tag_arguments(tag: u32) -> (arguments: Vec<String>)
    requires
        tag < TAG_COUNT,
    ensures
        arguments@.len() == 2,
        arguments[0]@ == "set-focused-tags"@,
        arguments[1]@ == crate::number::decimal((1u32 << tag) as nat),
{
    let mut arguments: Vec<String> = Vec::new();
    arguments.push(String::from_str("set-focused-tags"));
    arguments.push(decimal_text(1u32 << tag));
    arguments
}

/// A tag is in use exactly if some view has it.
pub proof fn tag_is_used_by_a_view(views: Seq<u32>, tag: u32)
    requires
        tag < 32,
    ensures
        has_tag(union_of(views), tag) <==> exists|i: int|
            0 <= i < views.len() && has_tag(#[trigger] views[i], tag),
    decreases views.len(),
{
    if views.len() == 0 {
        assert(0u32 & (1u32 << tag) == 0) by (bit_vector);
    } else {
        let rest = views.drop_last();
        let (a, b) = (union_of(rest), views.last());
        tag_is_used_by_a_view(rest, tag);
        assert((a | b) & (1u32 << tag) != 0 <==> a & (1u32 << tag) != 0 || b & (1u32 << tag) != 0)
            by (bit_vector);
        if has_tag(a, tag) {
            let i = choose|i: int| 0 <= i < rest.len() && has_tag(#[trigger] rest[i], tag);
            assert(has_tag(views[i], tag));
        }
        if has_tag(b, tag) {
            assert(has_tag(views[views.len() - 1], tag));
        }
        if exists|i: int| 0 <= i < views.len() && has_tag(#[trigger] views[i], tag) {
            let i = choose|i: int| 0 <= i < views.len() && has_tag(#[trigger] views[i], tag);
            if i < rest.len() {
                assert(has_tag(rest[i], tag));
            }
        }
    }
}

/// A tag gets a button exactly if it is one of those that have buttons and is
/// in use. Buttons come in ascending order, each once.
pub proof fn buttons_are_the_tags_in_use(used: u32, count: nat)
    requires
        count <= TAG_COUNT,
    ensures
        ({
            let shown = tags_in(used, count);
            &&& forall|tag: u32| #[trigger] shown.contains(tag) <==> tag < count && has_tag(used, tag)
            &&& forall|i: int, j: int| 0 <= i < j < shown.len() ==> shown[i] < shown[j]
        }),
    decreases count,
{
    let shown = tags_in(used, count);
    reveal(Seq::filter);
    if count > 0 {
        let last = (count - 1) as u32;
        let rest = tags_in(used, last as nat);
        buttons_are_the_tags_in_use(used, last as nat);
        lemma_next_tag(used, last);
        assert forall|tag: u32| #[trigger]
            shown.contains(tag) <==> tag < count && has_tag(used, tag) by {
            if rest.contains(tag) {
                let i = choose|i: int| 0 <= i < rest.len() && rest[i] == tag;
                assert(shown[i] == tag);
            }
            if tag == last && has_tag(used, last) {
                assert(shown[shown.len() - 1] == last);
            }
            if shown.contains(tag) && tag != last {
                let i = choose|i: int| 0 <= i < shown.len() && shown[i] == tag;
                assert(rest[i] == tag);
            }
        }
        assert forall|i: int, j: int| 0 <= i < j < shown.len() implies shown[i] < shown[j] by {
            if j == shown.len() - 1 && has_tag(used, last) {
                assert(rest[i] == shown[i]);
                assert(rest.contains(rest[i]));
            } else {
                assert(rest[i] == shown[i] && rest[j] == shown[j]);
            }
        }
    } else {
        assert(shown.len() == 0);
    }
}

/// The command of a button shows its own tag and no other.
pub proof fn button_focuses_its_own_tag(tag: u32, other: u32)
    requires
        tag < TAG_COUNT,
        other < 32,
    ensures
        has_tag(1u32 << tag, other) <==> other == tag,
        crate::number::digits_value(crate::number::decimal((1u32 << tag) as nat)) == 1u32 << tag,
{
    assert(tag < 31 && other < 32 ==> ((1u32 << tag) & (1u32 << other) != 0 <==> other == tag))
        by (bit_vector);
    crate::number::decimal_reads_back((1u32 << tag) as nat);
}

/// A tag is in a set exactly if the binary digit in its place is one.
pub proof fn tags_are_binary_digits(tags: u32, tag: u32)
    requires
        tag < 32,
    ensures
        has_tag(tags, tag) <==> (tags as nat / vstd::arithmetic::power2::pow2(tag as nat)) % 2 == 1,
{
    vstd::bits::lemma_u32_shr_is_div(tags, tag);
    assert(tag < 32 ==> (tags & (1u32 << tag) != 0 <==> (tags >> tag) % 2 == 1)) by (bit_vector);
}

proof fn lemma_word_bits(a: u8, b: u8, c: u8, d: u8, tag: u32)
    requires
        tag < 32,
    ensures
        has_tag(word(a, b, c, d, ByteOrder::Little), tag) <==> if tag < 8 {
            a & (1u8 << tag) != 0
        } else if tag < 16 {
            b & (1u8 << (tag - 8) as u32) != 0
        } else if tag < 24 {
            c & (1u8 << (tag - 16) as u32) != 0
        } else {
            d & (1u8 << (tag - 24) as u32) != 0
        },
{
    let w = word(a, b, c, d, ByteOrder::Little);
    assert(w == (a as u32) | (b as u32) << 8u32 | (c as u32) << 16u32 | (d as u32) << 24u32)
        by (bit_vector)
        requires
            w == (a + 0x100 * b + 0x1_0000 * c + 0x100_0000 * d) as u32,
    ;
    assert(w & (1u32 << tag) != 0 <==> if tag < 8 {
        a & (1u8 << tag) != 0
    } else if tag < 16 {
        b & (1u8 << ((tag - 8) as u32)) != 0
    } else if tag < 24 {
        c & (1u8 << ((tag - 16) as u32)) != 0
    } else {
        d & (1u8 << ((tag - 24) as u32)) != 0
    }) by (bit_vector)
        requires
            tag < 32,
            w == (a as u32) | (b as u32) << 8u32 | (c as u32) << 16u32 | (d as u32) << 24u32,
    ;
}

/// A tag is in use exactly if its bit is set in some byte that holds it: eight
/// tags to a byte, from the first byte of every four where the lowest comes
/// first, and from the last of every four otherwise.
pub proof fn bytes_tell_the_tags_in_use(bytes: Seq<u8>, order: ByteOrder, tag: u32)
    requires
        bytes.len() % 4 == 0,
        tag < 32,
    ensures
        order is Little ==> (has_tag(union_of(words(bytes, order)), tag) <==> exists|j: int|
            0 <= j < bytes.len() && j % 4 == tag as int / 8 && #[trigger] bytes[j] & (1u8 << (tag
                % 8)) != 0),
        order is Big ==> (has_tag(union_of(words(bytes, order)), tag) <==> exists|j: int|
            0 <= j < bytes.len() && j % 4 == 3 - tag as int / 8 && #[trigger] bytes[j] & (1u8 << (
            tag % 8)) != 0),
{
    let row = words(bytes, order);
    let at: int = match order {
        ByteOrder::Little => tag as int / 8,
        ByteOrder::Big => 3 - tag as int / 8,
    };
    tag_is_used_by_a_view(row, tag);
    assert forall|i: int| 0 <= i < row.len() implies has_tag(#[trigger] row[i], tag) == (bytes[4 * i
        + at] & (1u8 << (tag % 8)) != 0) by {
        let (a, b, c, d) = (bytes[4 * i], bytes[4 * i + 1], bytes[4 * i + 2], bytes[4 * i + 3]);
        match order {
            ByteOrder::Little => lemma_word_bits(a, b, c, d, tag),
            ByteOrder::Big => lemma_word_bits(d, c, b, a, tag),
        }
    }
    if exists|j: int|
        0 <= j < bytes.len() && j % 4 == at && #[trigger] bytes[j] & (1u8 << (tag % 8)) != 0 {
        let j = choose|j: int|
            0 <= j < bytes.len() && j % 4 == at && #[trigger] bytes[j] & (1u8 << (tag % 8)) != 0;
        assert(j == 4 * (j / 4) + at);
        assert(has_tag(row[j / 4], tag));
    }
    if has_tag(union_of(row), tag) {
        let i = choose|i: int| 0 <= i < row.len() && has_tag(#[trigger] row[i], tag);
        assert(bytes[4 * i + at] & (1u8 << (tag % 8)) != 0);
    }
}

/// The views of two rows of bytes, one behind the other, use the tags that the
/// views of either use: the machine reads all rows alike.
pub proof fn rows_of_views_add_up(first: Seq<u8>, second: Seq<u8>, order: ByteOrder)
    requires
        first.len() % 4 == 0,
    ensures
        words(first + second, order) == words(first, order) + words(second, order),
        union_of(words(first + second, order)) == union_of(words(first, order)) | union_of(
            words(second, order),
        ),
{
    let both = words(first + second, order);
    let parts = words(first, order) + words(second, order);
    assert((first + second).len() / 4 == first.len() / 4 + second.len() / 4);
    assert forall|i: int| 0 <= i < both.len() implies #[trigger] both[i] == parts[i] by {
        let n = first.len() as int / 4;
        if i >= n {
            let j = i - n;
            assert(4 * i == first.len() + 4 * j);
            assert((first + second)[4 * i] == second[4 * j]);
            assert((first + second)[4 * i + 1] == second[4 * j + 1]);
            assert((first + second)[4 * i + 2] == second[4 * j + 2]);
            assert((first + second)[4 * i + 3] == second[4 * j + 3]);
        }
    }
    assert(both =~= parts);
    lemma_union_of_rows(words(first, order), words(second, order));
}

proof fn lemma_union_of_rows(first: Seq<u32>, second: Seq<u32>)
    ensures
        union_of(first + second) == union_of(first) | union_of(second),
    decreases second.len(),
{
    let (a, b) = (union_of(first), union_of(second.drop_last()));
    if second.len() == 0 {
        assert(first + second =~= first);
        assert(a | 0u32 == a) by (bit_vector);
    } else {
        let c = second.last();
        assert((first + second).drop_last() =~= first + second.drop_last());
        lemma_union_of_rows(first, second.drop_last());
        assert((a | b) | c == a | (b | c)) by (bit_vector);
    }
}

/// The button of a tag is labelled with the tag's number, counted from one, and
/// no two tags have the same label.
pub proof fn labels_count_from_one(tag: u32, other: u32)
    ensures
        crate::number::digits_value(crate::number::decimal((tag + 1) as nat)) == tag + 1,
        crate::number::decimal((tag + 1) as nat) == crate::number::decimal((other + 1) as nat)
            ==> tag == other,
{
    crate::number::decimal_reads_back((tag + 1) as nat);
    crate::number::decimal_reads_back((other + 1) as nat);
}

} // verus!
