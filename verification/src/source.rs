//! The source text of a batch of statements, and where the next one begins.

use vstd::prelude::*;
use vstd::string::*;
use vstd::utf8::*;

verus! {

/// The characters that count as white space between two statements: those
/// with the Unicode property `White_Space`.
pub open spec fn is_white_space(c: char) -> bool {
    let p = c as u32;
    (0x09 <= p && p <= 0x0D) || p == 0x20 || p == 0x85 || p == 0xA0 || p == 0x1680 || (0x2000 <= p
        && p <= 0x200A) || p == 0x2028 || p == 0x2029 || p == 0x202F || p == 0x205F || p == 0x3000
}

/// How many white-space characters a text begins with.
pub open spec fn leading_white_space(text: Seq<char>) -> nat
    decreases text.len(),
{
    if text.len() > 0 && is_white_space(text[0]) {
        1 + leading_white_space(text.drop_first())
    } else {
        0
    }
}

/// A text without the white space it begins with.
pub open spec fn without_leading_white_space(text: Seq<char>) -> Seq<char> {
    text.skip(leading_white_space(text) as int)
}

/// The text that follows the first `tail` bytes of a source text.
pub open spec fn text_after(source: Seq<char>, tail: int) -> Seq<char> {
    let bytes = encode_utf8(source);
    decode_utf8(bytes.subrange(tail, bytes.len() as int))
}

/// Whether the engine's tail offset can be applied to a source text: it lies
/// within the text and between two characters.
pub open spec fn valid_tail(source: Seq<char>, tail: int) -> bool {
    0 <= tail <= encode_utf8(source).len() && is_char_boundary(encode_utf8(source), tail)
}

/// What is left of a source text once the statement that ends at byte `tail`
/// has been compiled: the text behind it, without leading white space.
pub open spec fn spec_remainder(source: Seq<char>, tail: int) -> Seq<char> {
    without_leading_white_space(text_after(source, tail))
}

/// A text begins with no more white space than it has characters.
pub proof fn lemma_leading_white_space_bounded(text: Seq<char>)
    ensures
        leading_white_space(text) <= text.len(),
    decreases text.len(),
{
    if text.len() > 0 && is_white_space(text[0]) {
        lemma_leading_white_space_bounded(text.drop_first());
    }
}

/// A text without some of its first characters is no longer in bytes.
pub proof fn lemma_skip_encodes_shorter(text: Seq<char>, skipped: int)
    requires
        0 <= skipped <= text.len(),
    ensures
        encode_utf8(text.skip(skipped)).len() <= encode_utf8(text).len(),
    decreases skipped,
{
    if skipped == 0 {
        assert(text.skip(0) =~= text);
    } else {
        lemma_skip_encodes_shorter(text.drop_first(), skipped - 1);
        assert(text.drop_first().skip(skipped - 1) =~= text.skip(skipped));
    }
}

/// The byte offset in `source` at which the remainder begins.
pub open spec fn remainder_offset(source: Seq<char>, tail: int) -> int {
    encode_utf8(source).len() - encode_utf8(spec_remainder(source, tail)).len()
}

/// The cursor only moves forward: the remainder begins at or behind the tail,
/// and within the source. So over successive compiles of one batch, each of
/// them of a statement of at least one byte, the offsets strictly increase.
pub proof fn lemma_remainder_advances(source: Seq<char>, tail: int)
    requires
        valid_tail(source, tail),
    ensures
        tail <= remainder_offset(source, tail) <= encode_utf8(source).len(),
{
    let bytes = encode_utf8(source);
    encode_utf8_valid_utf8(source);
    valid_utf8_split(bytes, tail);
    let behind = bytes.subrange(tail, bytes.len() as int);
    decode_utf8_encode_utf8(behind);
    let text = text_after(source, tail);
    lemma_leading_white_space_bounded(text);
    lemma_skip_encodes_shorter(text, leading_white_space(text) as int);
}

/// A statement that ends where the source ends leaves nothing to compile.
pub proof fn lemma_tail_at_end_leaves_nothing(source: Seq<char>)
    ensures
        valid_tail(source, encode_utf8(source).len() as int),
        spec_remainder(source, encode_utf8(source).len() as int) == Seq::<char>::empty(),
        remainder_offset(source, encode_utf8(source).len() as int) == encode_utf8(source).len(),
{
    let bytes = encode_utf8(source);
    encode_utf8_valid_utf8(source);
    is_char_boundary_start_end_of_seq(bytes);
    let behind = bytes.subrange(bytes.len() as int, bytes.len() as int);
    assert(behind =~= Seq::<u8>::empty());
    let text = text_after(source, bytes.len() as int);
    assert(text =~= Seq::<char>::empty());
    assert(spec_remainder(source, bytes.len() as int) =~= Seq::<char>::empty());
}

/// Over two successive compiles of one batch, the second on the remainder
/// that the first left, the statements end at increasing offsets into the
/// batch, and within it. The increase is strict wherever the second statement
/// takes at least one byte; a reported tail of zero is the one case in which
/// both end at the same place.
pub proof fn lemma_offsets_strictly_increase(source: Seq<char>, first_tail: int, second_tail: int)
    requires
        valid_tail(source, first_tail),
        valid_tail(spec_remainder(source, first_tail), second_tail),
    ensures
        ({
            let rest = spec_remainder(source, first_tail);
            let first_offset = remainder_offset(source, first_tail);
            let second_end = first_offset + second_tail;
            let second_offset = first_offset + remainder_offset(rest, second_tail);
            &&& first_tail <= first_offset
            &&& first_tail <= second_end <= second_offset <= encode_utf8(source).len()
            &&& second_tail > 0 ==> first_tail < second_end
            &&& second_tail > 0 ==> first_offset < second_offset
            &&& second_offset == encode_utf8(source).len() - encode_utf8(
                spec_remainder(rest, second_tail),
            ).len()
        }),
{
    lemma_remainder_advances(source, first_tail);
    lemma_remainder_advances(spec_remainder(source, first_tail), second_tail);
}

/// Calls `str::trim_start`. Trusted: the result is the text without the
/// `White_Space` characters it begins with, and keeps all that follows.
#[verifier::external_body]
fn trim_start<'a>(text: &'a str) -> (rest: &'a str)
    ensures
        rest@ == without_leading_white_space(text@),
{
    text.trim_start()
}

/// Whether the engine's tail offset can be applied to `source`.
pub fn tail_is_valid(source: &str, tail: usize) -> (ok: bool)
    ensures
        ok == valid_tail(source@, tail as int),
{
    let length: usize = source.as_bytes().len();
    tail <= length && source.is_char_boundary(tail)
}

/// Moves on in a batch of statements: `tail` is the engine's byte offset of the
/// first byte behind the statement it has just compiled from `source`. The
/// result is the text from which the next statement is compiled.
pub fn remainder<'a>(source: &'a str, tail: usize) -> (rest: &'a str)
    requires
        valid_tail(source@, tail as int),
    ensures
        rest@ == spec_remainder(source@, tail as int),
        source.spec_bytes().len() - rest.spec_bytes().len() == remainder_offset(
            source@,
            tail as int,
        ),
        tail <= source.spec_bytes().len() - rest.spec_bytes().len(),
{
    proof {
        lemma_remainder_advances(source@, tail as int);
    }
    let parts = source.split_at(tail);
    let after: &str = parts.1;
    proof {
        encode_utf8_decode_utf8(after@);
        assert(after.spec_bytes() == source.spec_bytes().subrange(
            tail as int,
            source.spec_bytes().len() as int,
        ));
    }
    trim_start(after)
}

/// A batch of statements in one source text, and how far it has been
/// compiled: the caller's cursor over the text.
#[derive(Debug, Clone, Copy)]
pub struct Batch<'a> {
    rest: &'a str,
    offset: usize,
}

impl<'a> Batch<'a> {
    /// The text that has not been compiled yet.
    pub closed spec fn rest(&self) -> Seq<char> {
        self.rest@
    }

    /// The byte offset into the whole text at which `rest` begins.
    pub closed spec fn offset(&self) -> nat {
        self.offset as nat
    }

    /// The length of the whole text in bytes.
    pub open spec fn total(&self) -> nat {
        self.offset() + encode_utf8(self.rest()).len()
    }

    /// The whole text has a length that the machine can hold.
    pub closed spec fn well_formed(&self) -> bool {
        self.offset + encode_utf8(self.rest@).len() <= usize::MAX
    }

    /// A batch of which nothing has been compiled. The text is taken as it
    /// is, with the white space that it may begin with.
    pub fn new(text: &'a str) -> (batch: Batch<'a>)
        ensures
            batch.well_formed(),
            batch.rest() == text@,
            batch.offset() == 0,
    {
        let length: usize = text.as_bytes().len();
        Batch { rest: text, offset: 0 }
    }

    /// The text that has not been compiled yet.
    pub fn text(&self) -> (text: &'a str)
        ensures
            text@ == self.rest(),
    {
        self.rest
    }

    /// The byte offset into the whole text at which the rest begins.
    pub fn position(&self) -> (offset: usize)
        ensures
            offset == self.offset(),
    {
        self.offset
    }

    /// Whether the engine's tail offset for a compile of the rest can be applied.
    pub fn tail_is_valid(&self, tail: usize) -> (ok: bool)
        ensures
            ok == valid_tail(self.rest(), tail as int),
    {
        tail_is_valid(self.rest, tail)
    }

    /// Moves the cursor behind the statement that the engine has compiled
    /// from the rest, and behind the white space that follows it. `tail` is
    /// the engine's offset into the rest; the result is where the statement
    /// ends as an offset into the whole text.
    pub fn advance(&mut self, tail: usize) -> (end: usize)
        requires
            old(self).well_formed(),
            valid_tail(old(self).rest(), tail as int),
        ensures
            final(self).well_formed(),
            end == old(self).offset() + tail,
            final(self).rest() == spec_remainder(old(self).rest(), tail as int),
            final(self).offset() == old(self).offset() + remainder_offset(
                old(self).rest(),
                tail as int,
            ),
            final(self).total() == old(self).total(),
            end <= final(self).offset() <= old(self).total(),
    {
        let before: usize = self.rest.as_bytes().len();
        let rest: &'a str = remainder(self.rest, tail);
        let after: usize = rest.as_bytes().len();
        let end: usize = self.offset + tail;
        self.offset = self.offset + (before - after);
        self.rest = rest;
        end
    }
}

} // verus!
