//! Words of a text. A text is cut at its first space. The functions work on
//! the bytes of the text, where the byte 32 stands for the space and is part
//! of no other character; their contracts speak of the characters.

use vstd::prelude::*;
use vstd::string::StringExecFns;
use vstd::string::StringSliceAdditionalSpecFns;
use vstd::utf8::{
    encode_scalar, encode_utf8, encode_utf8_decode_utf8, encode_utf8_valid_utf8,
    has_width_1_encoding, is_char_boundary, is_char_boundary_iff_not_is_continuation_byte,
    valid_utf8_split,
};

verus! {

/// The byte that encodes a space.
pub const SPACE: u8 = 32;

/// The number of characters before the first space of `chars`, or the
/// number of all its characters where it holds no space.
pub open spec fn first_space(chars: Seq<char>) -> int
    decreases chars.len(),
{
    if chars.len() == 0 || chars[0] == ' ' {
        0
    } else {
        1 + first_space(chars.drop_first())
    }
}

/// What stands before the first space of `chars`; all of `chars` where it
/// holds no space.
pub open spec fn before_first_space(chars: Seq<char>) -> Seq<char> {
    chars.take(first_space(chars))
}

/// What follows the first space of `chars`; nothing where it holds no
/// space.
pub open spec fn after_first_space(chars: Seq<char>) -> Seq<char> {
    if first_space(chars) < chars.len() {
        chars.skip(first_space(chars) + 1)
    } else {
        Seq::empty()
    }
}

/// `first_space` is the least position of a space, or the length.
pub proof fn lemma_first_space(chars: Seq<char>)
    ensures
        0 <= first_space(chars) <= chars.len(),
        forall|i: int| 0 <= i < first_space(chars) ==> chars[i] != ' ',
        first_space(chars) < chars.len() ==> chars[first_space(chars)] == ' ',
    decreases chars.len(),
{
    if chars.len() != 0 && chars[0] != ' ' {
        let rest = chars.drop_first();
        lemma_first_space(rest);
        assert forall|i: int| 0 <= i < first_space(chars) implies chars[i] != ' ' by {
            if i > 0 {
                assert(chars[i] == rest[i - 1]);
            }
        }
    }
}

/// A text with a space is what stands before its first space, the space,
/// and what follows it; a text without a space is what stands before its
/// first space, and nothing follows.
pub proof fn lemma_parts_make_the_whole(chars: Seq<char>)
    ensures
        !before_first_space(chars).contains(' '),
        chars.contains(' ') ==> chars == before_first_space(chars).push(' ') + after_first_space(
            chars,
        ),
        !chars.contains(' ') ==> chars == before_first_space(chars) && after_first_space(
            chars,
        ).len() == 0,
{
    lemma_first_space(chars);
    let n = first_space(chars);
    if n < chars.len() {
        assert(chars =~= chars.take(n).push(' ') + chars.skip(n + 1));
        assert(chars.contains(' '));
    } else {
        assert(chars =~= chars.take(n));
    }
}

/// The number of bytes before the first space byte of `bytes`, or the
/// number of all its bytes where it holds none.
spec fn first_space_byte(bytes: Seq<u8>) -> int
    decreases bytes.len(),
{
    if bytes.len() == 0 || bytes[0] == SPACE {
        0
    } else {
        1 + first_space_byte(bytes.drop_first())
    }
}

/// `first_space_byte` is the least position of a space byte, or the length.
proof fn lemma_first_space_byte(bytes: Seq<u8>)
    ensures
        0 <= first_space_byte(bytes) <= bytes.len(),
        forall|i: int| 0 <= i < first_space_byte(bytes) ==> bytes[i] != SPACE,
        first_space_byte(bytes) < bytes.len() ==> bytes[first_space_byte(bytes)] == SPACE,
    decreases bytes.len(),
{
    if bytes.len() != 0 && bytes[0] != SPACE {
        let rest = bytes.drop_first();
        lemma_first_space_byte(rest);
        assert forall|i: int| 0 <= i < first_space_byte(bytes) implies bytes[i] != SPACE by {
            if i > 0 {
                assert(bytes[i] == rest[i - 1]);
            }
        }
    }
}

/// A position that holds the first space byte, or the length where none
/// occurs, is `first_space_byte`.
proof fn lemma_first_space_byte_is(bytes: Seq<u8>, n: int)
    requires
        0 <= n <= bytes.len(),
        forall|i: int| 0 <= i < n ==> bytes[i] != SPACE,
        n < bytes.len() ==> bytes[n] == SPACE,
    ensures
        first_space_byte(bytes) == n,
{
    lemma_first_space_byte(bytes);
    let m = first_space_byte(bytes);
    if m < n {
        assert(bytes[m] == SPACE);
    }
    if n < m {
        assert(bytes[n] != SPACE);
    }
}

/// The space is encoded as the space byte, and no byte that encodes
/// another character is the space byte.
proof fn lemma_space_byte_encodes_space(c: char)
    ensures
        c == ' ' ==> encode_scalar(c as u32) == seq![SPACE],
        c != ' ' ==> forall|i: int|
            0 <= i < encode_scalar(c as u32).len() ==> #[trigger] encode_scalar(c as u32)[i]
                != SPACE,
{
    let v = c as u32;
    assert(v == 32 <==> c == ' ');
    if has_width_1_encoding(v) {
        assert((v & 0x7F) as u8 == 32u8 <==> v == 32) by (bit_vector)
            requires
                v <= 0x7F,
        ;
        assert(encode_scalar(v) =~= seq![(v & 0x7F) as u8]);
    } else {
        assert(forall|b: u8|
            (0xC0u8 | b) != 32u8 && (0xE0u8 | b) != 32u8 && (0xF0u8 | b) != 32u8 && (0x80u8 | b)
                != 32u8) by (bit_vector);
    }
}

/// The encoding of a text is the encodings of its parts, one after the
/// other.
proof fn lemma_encoding_of_parts(first: Seq<char>, second: Seq<char>)
    ensures
        encode_utf8(first + second) == encode_utf8(first) + encode_utf8(second),
    decreases first.len(),
{
    if first.len() == 0 {
        assert(first + second =~= second);
        assert(encode_utf8(first) + encode_utf8(second) =~= encode_utf8(second));
    } else {
        let whole = first + second;
        assert(whole.drop_first() =~= first.drop_first() + second);
        assert(whole[0] == first[0]);
        lemma_encoding_of_parts(first.drop_first(), second);
        assert(encode_utf8(whole) =~= encode_utf8(first) + encode_utf8(second));
    }
}

/// The encoding of a text without a space holds no space byte.
proof fn lemma_encoding_without_space(chars: Seq<char>)
    requires
        forall|i: int| 0 <= i < chars.len() ==> chars[i] != ' ',
    ensures
        forall|j: int| 0 <= j < encode_utf8(chars).len() ==> encode_utf8(chars)[j] != SPACE,
    decreases chars.len(),
{
    if chars.len() > 0 {
        let first = encode_scalar(chars[0] as u32);
        let rest = chars.drop_first();
        lemma_space_byte_encodes_space(chars[0]);
        assert forall|i: int| 0 <= i < rest.len() implies rest[i] != ' ' by {
            assert(rest[i] == chars[i + 1]);
        }
        lemma_encoding_without_space(rest);
        assert forall|j: int| 0 <= j < encode_utf8(chars).len() implies encode_utf8(chars)[j]
            != SPACE by {
            if j < first.len() {
                assert(encode_utf8(chars)[j] == first[j]);
            } else {
                assert(encode_utf8(chars)[j] == encode_utf8(rest)[j - first.len()]);
            }
        }
    }
}

/// The first space byte of a text's encoding stands where the encoding of
/// what is before the first space ends, and what follows it encodes what
/// follows the first space.
proof fn lemma_first_space_in_bytes(chars: Seq<char>)
    ensures
        first_space_byte(encode_utf8(chars)) == encode_utf8(before_first_space(chars)).len(),
        encode_utf8(chars).take(first_space_byte(encode_utf8(chars))) == encode_utf8(
            before_first_space(chars),
        ),
        first_space(chars) < chars.len() <==> first_space_byte(encode_utf8(chars)) < encode_utf8(
            chars,
        ).len(),
        first_space(chars) < chars.len() ==> encode_utf8(chars).skip(
            first_space_byte(encode_utf8(chars)) + 1,
        ) == encode_utf8(after_first_space(chars)),
{
    lemma_first_space(chars);
    let k = first_space(chars);
    let before = chars.take(k);
    let from_space = chars.skip(k);
    let bytes = encode_utf8(chars);
    assert(chars =~= before + from_space);
    lemma_encoding_of_parts(before, from_space);
    lemma_encoding_without_space(before);
    let n = encode_utf8(before).len() as int;
    if k < chars.len() {
        let after = chars.skip(k + 1);
        assert(from_space =~= seq![' '] + after);
        lemma_encoding_of_parts(seq![' '], after);
        lemma_space_byte_encodes_space(' ');
        assert(encode_utf8(seq![' ']) =~= seq![SPACE]) by {
            assert(seq![' '].drop_first() =~= Seq::<char>::empty());
            assert(encode_utf8(seq![' ']) == encode_scalar(' ' as u32) + encode_utf8(
                seq![' '].drop_first(),
            ));
        }
        assert(bytes[n] == SPACE);
        lemma_first_space_byte_is(bytes, n);
        assert(bytes.skip(n + 1) =~= encode_utf8(after));
    } else {
        assert(from_space =~= Seq::<char>::empty());
        lemma_first_space_byte_is(bytes, n);
    }
    assert(bytes.take(n) =~= encode_utf8(before));
}

/// Two texts with the same encoding are the same text.
proof fn lemma_same_encoding_same_text(first: Seq<char>, second: Seq<char>)
    requires
        encode_utf8(first) == encode_utf8(second),
    ensures
        first == second,
{
    encode_utf8_decode_utf8(first);
    encode_utf8_decode_utf8(second);
}

/// The position of the first space of `s`, counted in bytes.
fn find_space(s: &str) -> (found: Option<usize>)
    ensures
        match found {
            Some(at) => at == first_space_byte(s.spec_bytes()) && at < s.spec_bytes().len()
                && is_char_boundary(s.spec_bytes(), at as int),
            None => first_space_byte(s.spec_bytes()) == s.spec_bytes().len(),
        },
{
    let bytes = s.as_bytes();
    let mut at: usize = 0;
    while at < bytes.len()
        invariant
            at <= bytes@.len(),
            bytes@ == s.spec_bytes(),
            forall|i: int| 0 <= i < at ==> bytes@[i] != SPACE,
        decreases bytes@.len() - at,
    {
        if bytes[at] == SPACE {
            proof {
                lemma_first_space_byte_is(bytes@, at as int);
                encode_utf8_valid_utf8(s@);
                is_char_boundary_iff_not_is_continuation_byte(bytes@, at as int);
            }
            return Some(at);
        }
        at += 1;
    }
    proof {
        lemma_first_space_byte_is(bytes@, at as int);
    }
    None
}

/// The first word of `s`: what stands before its first space, or all of
/// `s` where it holds no space.
pub fn first_word(s: &str) -> (word: &str)
    ensures
        word@ == before_first_space(s@),
{
    proof {
        lemma_first_space_in_bytes(s@);
    }
    match find_space(s) {
        Some(at) => {
            let (word, _) = s.split_at(at);
            proof {
                lemma_same_encoding_same_text(word@, before_first_space(s@));
            }
            word
        },
        None => {
            proof {
                lemma_first_space(s@);
                assert(s@.take(s@.len() as int) == s@);
            }
            s
        },
    }
}

/// Cuts `s` at its first space: the first word, and what follows the
/// space. Without a space the first part is `s` and the second is empty.
pub fn split_at_space(s: &str) -> (parts: (&str, &str))
    ensures
        parts.0@ == before_first_space(s@),
        parts.1@ == after_first_space(s@),
{
    proof {
        lemma_first_space_in_bytes(s@);
    }
    match find_space(s) {
        Some(at) => {
            let (word, rest) = s.split_at(at);
            proof {
                encode_utf8_valid_utf8(s@);
                valid_utf8_split(s.spec_bytes(), at as int);
                lemma_first_space_byte(s.spec_bytes());
                assert(rest.spec_bytes()[0] == s.spec_bytes()[at as int]);
                reveal_with_fuel(is_char_boundary, 2);
            }
            let (_, tail) = rest.split_at(1);
            proof {
                assert(tail.spec_bytes() == s.spec_bytes().skip(at + 1));
                lemma_same_encoding_same_text(word@, before_first_space(s@));
                lemma_same_encoding_same_text(tail@, after_first_space(s@));
            }
            (word, tail)
        },
        None => {
            proof {
                lemma_first_space(s@);
                assert(s@.take(s@.len() as int) == s@);
                reveal_strlit("");
                assert(""@ == Seq::<char>::empty());
            }
            (s, "")
        },
    }
}

/// The text `hello`, handed to the caller.
pub fn gives_ownership() -> (text: String)
    ensures
        text@ == "hello"@,
{
    let some_string = "hello".to_owned();
    some_string
}

/// The text it was given, handed back.
pub fn takes_and_gives_back(a_string: String) -> (text: String)
    ensures
        text == a_string,
{
    a_string
}

/// The text `hello`, owned by the caller.
pub fn no_dangle() -> (text: String)
    ensures
        text@ == "hello"@,
{
    let s = "hello".to_owned();
    s
}

/// The number of bytes that encode `chars`.
pub open spec fn byte_len(chars: Seq<char>) -> nat {
    encode_utf8(chars).len()
}

/// `s`, handed back, together with its length in bytes.
pub fn calculate_length(s: String) -> (both: (String, usize))
    ensures
        both.0 == s,
        both.1 == byte_len(s@),
{
    let length = s.as_str().as_bytes().len();
    (s, length)
}

/// The length of `s` in bytes.
pub fn calculate_length_with_ref(s: &String) -> (length: usize)
    ensures
        length == byte_len(s@),
{
    s.as_str().as_bytes().len()
}

/// Appends `, world` to `some_string`.
pub fn change(some_string: &mut String)
    ensures
        final(some_string)@ == old(some_string)@ + ", world"@,
{
    some_string.append(", world");
}

/// A row of `count` asterisks.
pub open spec fn asterisks(count: nat) -> Seq<char> {
    Seq::new(count, |i: int| '*')
}

/// A row of `count` asterisks.
fn asterisk_row(count: usize) -> (row: String)
    ensures
        row@ == asterisks(count as nat),
{
    proof {
        reveal_strlit("*");
    }
    let mut row = String::new();
    let mut written: usize = 0;
    while written < count
        invariant
            written <= count,
            row@ == asterisks(written as nat),
            "*"@ == seq!['*'],
        decreases count - written,
    {
        row.append("*");
        written += 1;
        assert(row@ =~= asterisks(written as nat));
    }
    row
}

/// `shown` in a frame of asterisks, as three lines: a row of asterisks
/// that is four longer than `shown` has bytes, `shown` between an asterisk
/// and a space on either side, and the row again.
pub fn outline_print(shown: &str) -> (lines: Vec<String>)
    ensures
        lines@.len() == 3,
        lines@[0]@ == asterisks(byte_len(shown@) + 4),
        lines@[1]@ == "* "@ + shown@ + " *"@,
        lines@[2]@ == asterisks(byte_len(shown@) + 4),
{
    proof {
        reveal_strlit("****");
    }
    let mut row = asterisk_row(shown.as_bytes().len());
    row.append("****");
    assert(row@ =~= asterisks(byte_len(shown@) + 4));
    let mut middle = "* ".to_owned();
    middle.append(shown);
    middle.append(" *");
    let mut lines: Vec<String> = Vec::new();
    lines.push(row.clone());
    lines.push(middle);
    lines.push(row);
    lines
}

} // verus!
