//! Borrowed pieces of text, and a parser that reports what it could not
//! read.

use vstd::prelude::*;
use vstd::string::StringExecFns;
use vstd::string::StringSliceAdditionalSpecFns;
use vstd::utf8::{
    encode_scalar, encode_utf8, encode_utf8_decode_utf8, encode_utf8_valid_utf8, is_char_boundary,
};

verus! {

/// A part of a longer text, borrowed from it.
pub struct ImportantExcerpt<'a> {
    pub part: &'a str,
}

impl<'a> ImportantExcerpt<'a> {
    /// The level of importance, which is 3 for every excerpt.
    pub fn level(&self) -> (level: i32)
        ensures
            level == 3,
    {
        3
    }

    /// The line that calls for attention to `announcement`, and the part
    /// that the excerpt holds.
    pub fn announce_and_return_part(&self, announcement: &str) -> (both: (String, &str))
        ensures
            both.0@ == "注意! "@ + announcement@,
            both.1@ == self.part@,
    {
        let mut line = "注意! ".to_owned();
        line.append(announcement);
        (line, self.part)
    }
}

/// A text that hands out a view of itself.
pub struct TextProcessor {
    pub text: String,
}

impl TextProcessor {
    /// The text, borrowed.
    pub fn process(&self) -> (text: &str)
        ensures
            text@ == self.text@,
    {
        self.text.as_str()
    }
}

/// The text that a parser works on.
pub struct Context<'a>(pub &'a str);

/// A parser over a context.
pub struct Parser<'a, 'c: 'a> {
    pub context: &'a Context<'c>,
}

/// `chars` begins with a character that UTF-8 encodes in one byte.
pub open spec fn begins_with_one_byte(chars: Seq<char>) -> bool {
    chars.len() > 0 && chars[0] as u32 <= 0x7F
}

/// In the encoding of a text that begins with a character of one byte, the
/// second byte begins a character or is the end, and what follows the first
/// byte encodes what follows the first character.
proof fn lemma_second_byte_is_a_boundary(chars: Seq<char>)
    requires
        begins_with_one_byte(chars),
    ensures
        is_char_boundary(encode_utf8(chars), 1),
        encode_utf8(chars).skip(1) == encode_utf8(chars.drop_first()),
{
    let v = chars[0] as u32;
    let bytes = encode_utf8(chars);
    assert((v & 0x7F) as u8 <= 0x7Fu8) by (bit_vector);
    assert(encode_scalar(v) =~= seq![(v & 0x7F) as u8]);
    assert(bytes =~= encode_scalar(v) + encode_utf8(chars.drop_first()));
    encode_utf8_valid_utf8(chars);
    reveal_with_fuel(is_char_boundary, 2);
    assert(bytes.skip(1) =~= encode_utf8(chars.drop_first()));
}

impl<'a, 'c: 'a> Parser<'a, 'c> {
    /// Parsing always fails, and reports the context without its first
    /// character, which must be one that is encoded in one byte.
    pub fn parse(&self) -> (result: Result<(), &'c str>)
        requires
            begins_with_one_byte(self.context.0@),
        ensures
            result matches Err(rest) && rest@ == self.context.0@.drop_first(),
    {
        proof {
            lemma_second_byte_is_a_boundary(self.context.0@);
        }
        let (_, rest) = self.context.0.split_at(1);
        proof {
            encode_utf8_decode_utf8(rest@);
            encode_utf8_decode_utf8(self.context.0@.drop_first());
        }
        Err(rest)
    }
}

/// Parses `context`, which always fails with the context without its first
/// character, which must be one that is encoded in one byte.
pub fn parse_context<'c>(context: Context<'c>) -> (result: Result<(), &'c str>)
    requires
        begins_with_one_byte(context.0@),
    ensures
        result matches Err(rest) && rest@ == context.0@.drop_first(),
{
    Parser { context: &context }.parse()
}

} // verus!
