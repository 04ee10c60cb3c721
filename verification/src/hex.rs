//! The textual form of a payload: bytes written in hexadecimal and separated
//! by whitespace.
//!
//! A command line such as `1A 2b FF` is cut into words at whitespace, and each
//! word is read as one unsigned byte in base 16. The module states that grammar
//! over sequences of characters and proves the reader against it.

use crate::error::PlcError;
use vstd::prelude::*;

verus! {

/// Whether `c` separates words: the characters with the Unicode property
/// `White_Space`.
pub open spec fn is_whitespace(c: char) -> bool {
    let u: u32 = c as u32;
    ||| 0x09 <= u <= 0x0D
    ||| u == 0x20
    ||| u == 0x85
    ||| u == 0xA0
    ||| u == 0x1680
    ||| 0x2000 <= u <= 0x200A
    ||| u == 0x2028
    ||| u == 0x2029
    ||| u == 0x202F
    ||| u == 0x205F
    ||| u == 0x3000
}

/// The value of a hexadecimal digit, in either case.
pub open spec fn hex_digit_value(c: char) -> Option<u8> {
    if '0' <= c <= '9' {
        Some((c as u8 - '0' as u8) as u8)
    } else if 'a' <= c <= 'f' {
        Some((c as u8 - 'a' as u8 + 10) as u8)
    } else if 'A' <= c <= 'F' {
        Some((c as u8 - 'A' as u8 + 10) as u8)
    } else {
        None
    }
}

/// Whether every character of `digits` is a hexadecimal digit.
pub open spec fn all_hex_digits(digits: Seq<char>) -> bool {
    forall|i: int| 0 <= i < digits.len() ==> hex_digit_value(#[trigger] digits[i]) is Some
}

/// The number that `digits` writes in base 16, most significant digit first.
pub open spec fn hex_number(digits: Seq<char>) -> nat
    decreases digits.len(),
{
    if digits.len() == 0 {
        0
    } else {
        16 * hex_number(digits.drop_last()) + hex_digit_value(digits.last()).unwrap() as nat
    }
}

/// A word without the single `+` that may precede its digits.
pub open spec fn unsigned_digits(word: Seq<char>) -> Seq<char> {
    if word.len() > 0 && word[0] == '+' {
        word.skip(1)
    } else {
        word
    }
}

/// The byte that a word stands for: an optional `+`, then one or more
/// hexadecimal digits whose number is at most 255. Any other word stands for
/// nothing.
pub open spec fn word_byte(word: Seq<char>) -> Option<u8> {
    let digits = unsigned_digits(word);
    if digits.len() > 0 && all_hex_digits(digits) && hex_number(digits) <= 255 {
        Some(hex_number(digits) as u8)
    } else {
        None
    }
}

/// The words of a line: its maximal runs of characters that are not
/// whitespace, in order. The definition reads the line from its end: a
/// whitespace character adds nothing, any other character lengthens the word
/// that the one before it belongs to, or starts a new word.
pub open spec fn words(line: Seq<char>) -> Seq<Seq<char>>
    decreases line.len(),
{
    if line.len() == 0 {
        Seq::empty()
    } else {
        let before = line.drop_last();
        let c = line.last();
        if is_whitespace(c) {
            words(before)
        } else if before.len() > 0 && !is_whitespace(before.last()) {
            words(before).drop_last().push(words(before).last().push(c))
        } else {
            words(before).push(seq![c])
        }
    }
}

/// The bytes that a list of words stands for, one for each word and in the
/// order of the words, or nothing if some word stands for no byte.
pub open spec fn words_bytes(list: Seq<Seq<char>>) -> Option<Seq<u8>> {
    if forall|i: int| 0 <= i < list.len() ==> word_byte(#[trigger] list[i]) is Some {
        Some(Seq::new(list.len(), |i: int| word_byte(list[i]).unwrap()))
    } else {
        None
    }
}

/// The bytes that a line stands for: those of its words.
pub open spec fn hex_decode(line: Seq<char>) -> Option<Seq<u8>> {
    words_bytes(words(line))
}

/// Tells whether `c` separates words.
pub fn separates(c: char) -> (r: bool)
    ensures
        r == is_whitespace(c),
{
    let u: u32 = c as u32;
    (0x09 <= u && u <= 0x0D) || u == 0x20 || u == 0x85 || u == 0xA0 || u == 0x1680 || (0x2000 <= u
        && u <= 0x200A) || u == 0x2028 || u == 0x2029 || u == 0x202F || u == 0x205F || u == 0x3000
}

/// Reads one hexadecimal digit.
pub fn hex_digit(c: char) -> (r: Option<u8>)
    ensures
        r == hex_digit_value(c),
{
    if '0' <= c && c <= '9' {
        Some(c as u8 - '0' as u8)
    } else if 'a' <= c && c <= 'f' {
        Some(c as u8 - 'a' as u8 + 10)
    } else if 'A' <= c && c <= 'F' {
        Some(c as u8 - 'A' as u8 + 10)
    } else {
        None
    }
}

/// A number in base 16 is at least the number that any of its leading digits
/// write.
pub proof fn lemma_hex_number_grows(digits: Seq<char>, k: int)
    requires
        0 <= k <= digits.len(),
    ensures
        hex_number(digits.take(k)) <= hex_number(digits),
    decreases digits.len(),
{
    if k == digits.len() {
        assert(digits.take(k) =~= digits);
    } else {
        lemma_hex_number_grows(digits.drop_last(), k);
        assert(digits.drop_last().take(k) =~= digits.take(k));
    }
}

/// Reads a word as one byte.
pub fn parse_word(word: &[char]) -> (r: Option<u8>)
    ensures
        r == word_byte(word@),
{
    let n: usize = word.len();
    let start: usize = if n > 0 && word[0] == '+' {
        1
    } else {
        0
    };
    if start == n {
        return None;
    }
    let ghost digits = unsigned_digits(word@);
    assert(digits =~= word@.skip(start as int));
    let mut value: u16 = 0;
    let mut i: usize = start;
    while i < n
        invariant
            start <= i <= n,
            n == word@.len(),
            digits == word@.skip(start as int),
            digits == unsigned_digits(word@),
            value <= 255,
            all_hex_digits(digits.take(i - start)),
            value == hex_number(digits.take(i - start)),
        decreases n - i,
    {
        let ghost seen = digits.take(i - start);
        let ghost next = digits.take(i - start + 1);
        assert(next.drop_last() =~= seen);
        assert(next.last() == word@[i as int]);
        match hex_digit(word[i]) {
            None => {
                assert(hex_digit_value(digits[i - start]) is None);
                return None;
            },
            Some(d) => {
                let bigger: u16 = value * 16 + d as u16;
                assert(bigger == hex_number(next));
                if bigger > 255 {
                    proof {
                        lemma_hex_number_grows(digits, i - start + 1);
                    }
                    return None;
                }
                value = bigger;
            },
        }
        i = i + 1;
    }
    assert(digits.take(n - start) =~= digits);
    Some(value as u8)
}

/// One more word adds its byte to those of the words before it, and fails
/// the list if it stands for no byte.
pub proof fn lemma_words_bytes_push(list: Seq<Seq<char>>, word: Seq<char>)
    ensures
        words_bytes(list.push(word)) == match (words_bytes(list), word_byte(word)) {
            (Some(bytes), Some(b)) => Some(bytes.push(b)),
            _ => None,
        },
{
    let longer = list.push(word);
    assert(longer[list.len() as int] == word);
    assert forall|i: int| 0 <= i < list.len() implies longer[i] == list[i] by {}
    match (words_bytes(list), word_byte(word)) {
        (Some(bytes), Some(b)) => {
            assert forall|i: int| 0 <= i < longer.len() implies word_byte(
                #[trigger] longer[i],
            ) is Some by {
                if i < list.len() {
                    assert(word_byte(list[i]) is Some);
                }
            }
            assert(words_bytes(longer).unwrap() =~= bytes.push(b));
        },
        (None, _) => {
            let j = choose|j: int|
                0 <= j < list.len() && !(word_byte(#[trigger] list[j]) is Some);
            assert(!(word_byte(longer[j]) is Some));
        },
        (Some(_), None) => {
            assert(!(word_byte(longer[list.len() as int]) is Some));
        },
    }
}

/// The words of a line that is one character longer, where `done` holds the
/// words that are complete and `word` the one that the line ends in, if any.
proof fn lemma_words_push(line: Seq<char>, word: Seq<char>, done: Seq<Seq<char>>, c: char)
    requires
        word.len() > 0 <==> line.len() > 0 && !is_whitespace(line.last()),
        words(line) == if word.len() > 0 {
            done.push(word)
        } else {
            done
        },
    ensures
        words(line.push(c)) == if is_whitespace(c) {
            words(line)
        } else {
            done.push(word.push(c))
        },
{
    let longer = line.push(c);
    assert(longer.drop_last() =~= line);
    assert(longer.last() == c);
    if !is_whitespace(c) {
        if word.len() > 0 {
            assert(done.push(word).drop_last() =~= done);
            assert(done.push(word).last() == word);
        } else {
            assert(word.push(c) =~= seq![c]);
        }
    }
}

/// Closes the word that the reader has gathered: its byte joins `bytes`, or
/// the line is marked as failed.
fn close_word(
    word: &Vec<char>,
    bytes: &mut Vec<u8>,
    ok: &mut bool,
    Ghost(done): Ghost<Seq<Seq<char>>>,
)
    requires
        *old(ok) ==> words_bytes(done) == Some(old(bytes)@),
        !*old(ok) ==> words_bytes(done) is None,
    ensures
        *final(ok) ==> words_bytes(done.push(word@)) == Some(final(bytes)@),
        !*final(ok) ==> words_bytes(done.push(word@)) is None,
{
    proof {
        lemma_words_bytes_push(done, word@);
    }
    match parse_word(word.as_slice()) {
        Some(b) => {
            if *ok {
                bytes.push(b);
            }
        },
        None => {
            *ok = false;
        },
    }
}

/// Reads a command written in hexadecimal: cuts it into words at whitespace
/// and reads each word as one byte. The bytes come in the order of the words.
/// A single word that is no byte fails the whole command.
pub fn str_to_hex(data: &str) -> (r: Result<Vec<u8>, PlcError>)
    ensures
        match r {
            Ok(bytes) => hex_decode(data@) == Some(bytes@),
            Err(e) => hex_decode(data@) is None && e == PlcError::CommandParse,
        },
{
    let mut bytes: Vec<u8> = Vec::new();
    let mut word: Vec<char> = Vec::new();
    let mut ok: bool = true;
    let ghost mut done: Seq<Seq<char>> = Seq::empty();
    assert(words_bytes(done).unwrap() =~= bytes@);
    for c in it: data.chars()
        invariant
            it.seq() == data@,
            word@.len() > 0 <==> it.index() > 0 && !is_whitespace(data@[it.index() - 1]),
            words(data@.take(it.index() as int)) == if word@.len() > 0 {
                done.push(word@)
            } else {
                done
            },
            ok ==> words_bytes(done) == Some(bytes@),
            !ok ==> words_bytes(done) is None,
    {
        let ghost at = it.index() as int;
        proof {
            assert(data@.take(at + 1) =~= data@.take(at).push(c));
            lemma_words_push(data@.take(at), word@, done, c);
        }
        if separates(c) {
            if word.len() > 0 {
                close_word(&word, &mut bytes, &mut ok, Ghost(done));
                proof {
                    done = done.push(word@);
                }
                word = Vec::new();
            }
        } else {
            word.push(c);
        }
    }
    assert(data@.take(data@.len() as int) =~= data@);
    if word.len() > 0 {
        close_word(&word, &mut bytes, &mut ok, Ghost(done));
    }
    if ok {
        Ok(bytes)
    } else {
        Err(PlcError::CommandParse)
    }
}

/// The upper-case hexadecimal digit for a value below 16.
pub open spec fn hex_digit_char(value: u8) -> char
    recommends
        value < 16,
{
    if value < 10 {
        ('0' as u8 + value) as char
    } else {
        ('A' as u8 + value - 10) as char
    }
}

/// The two upper-case hexadecimal digits of a byte.
pub open spec fn hex_pair(byte: u8) -> Seq<char> {
    seq![hex_digit_char(byte / 16), hex_digit_char(byte % 16)]
}

/// Bytes written as text: the two digits of each byte, with one space between
/// neighbours.
pub open spec fn hex_text(bytes: Seq<u8>) -> Seq<char>
    decreases bytes.len(),
{
    if bytes.len() == 0 {
        Seq::empty()
    } else if bytes.len() == 1 {
        hex_pair(bytes[0])
    } else {
        hex_text(bytes.drop_last()) + seq![' '] + hex_pair(bytes.last())
    }
}

/// Whether the line is made of words of exactly two hexadecimal digits.
pub open spec fn is_hex_pairs(line: Seq<char>) -> bool {
    forall|i: int|
        0 <= i < words(line).len() ==> (#[trigger] words(line)[i]).len() == 2 && all_hex_digits(
            words(line)[i],
        )
}

/// Writes the upper-case hexadecimal digit for a value below 16.
fn hex_digit_of(value: u8) -> (c: char)
    requires
        value < 16,
    ensures
        c == hex_digit_char(value),
{
    if value < 10 {
        ('0' as u8 + value) as char
    } else {
        ('A' as u8 + value - 10) as char
    }
}

/// Writes bytes as text that [`str_to_hex`] reads back: two upper-case digits
/// for each byte, and one space between neighbours.
pub fn to_hex_text(bytes: &[u8]) -> (line: String)
    ensures
        line@ == hex_text(bytes@),
{
    let mut line = String::new();
    let n: usize = bytes.len();
    let mut i: usize = 0;
    while i < n
        invariant
            i <= n,
            n == bytes@.len(),
            line@ == hex_text(bytes@.take(i as int)),
        decreases n - i,
    {
        let ghost before = line@;
        let b: u8 = bytes[i];
        if i > 0 {
            line.push(' ');
        }
        line.push(hex_digit_of(b / 16));
        line.push(hex_digit_of(b % 16));
        proof {
            let next = bytes@.take(i + 1);
            assert(next.drop_last() =~= bytes@.take(i as int));
            assert(next.last() == b);
            if i > 0 {
                assert(line@ =~= before + seq![' '] + hex_pair(b));
            } else {
                assert(line@ =~= hex_pair(b));
            }
        }
        i = i + 1;
    }
    assert(bytes@.take(n as int) =~= bytes@);
    line
}

/// A digit that [`hex_digit_char`] writes reads back as the value it was
/// written for. It is no whitespace and no sign.
pub proof fn lemma_hex_digit_char(value: u8)
    requires
        value < 16,
    ensures
        hex_digit_value(hex_digit_char(value)) == Some(value),
        !is_whitespace(hex_digit_char(value)),
        hex_digit_char(value) != '+',
{
}

/// A word of two hexadecimal digits stands for the byte with those digits.
pub proof fn lemma_two_digits(high: char, low: char)
    requires
        hex_digit_value(high) is Some,
        hex_digit_value(low) is Some,
    ensures
        word_byte(seq![high, low]) == Some(
            (16 * hex_digit_value(high).unwrap() + hex_digit_value(low).unwrap()) as u8,
        ),
{
    let word = seq![high, low];
    assert(unsigned_digits(word) == word);
    assert(word.drop_last() =~= seq![high]);
    assert(seq![high].drop_last() =~= Seq::<char>::empty());
    assert(hex_number(seq![high]) == hex_digit_value(high).unwrap()) by {
        reveal_with_fuel(hex_number, 2);
    }
    assert(hex_number(word) == 16 * hex_digit_value(high).unwrap() + hex_digit_value(
        low,
    ).unwrap());
}

/// The two digits written for a byte stand for that byte.
pub proof fn lemma_hex_pair(byte: u8)
    ensures
        word_byte(hex_pair(byte)) == Some(byte),
        hex_pair(byte).len() == 2,
        forall|i: int| 0 <= i < 2 ==> !is_whitespace(#[trigger] hex_pair(byte)[i]),
{
    lemma_hex_digit_char(byte / 16);
    lemma_hex_digit_char(byte % 16);
    lemma_two_digits(hex_digit_char(byte / 16), hex_digit_char(byte % 16));
}

/// No word is empty, and no word holds whitespace. A line that does not end
/// in whitespace ends in its last word.
pub proof fn lemma_words_are_runs(line: Seq<char>)
    ensures
        forall|i: int| 0 <= i < words(line).len() ==> (#[trigger] words(line)[i]).len() > 0,
        forall|i: int, j: int|
            0 <= i < words(line).len() && 0 <= j < words(line)[i].len() ==> !is_whitespace(
                #[trigger] words(line)[i][j],
            ),
        line.len() > 0 && !is_whitespace(line.last()) ==> words(line).len() > 0 && words(
            line,
        ).last().last() == line.last(),
    decreases line.len(),
{
    if line.len() > 0 {
        let before = line.drop_last();
        let c = line.last();
        let earlier = words(before);
        lemma_words_are_runs(before);
        if is_whitespace(c) {
        } else if before.len() > 0 && !is_whitespace(before.last()) {
            let grown = earlier.last().push(c);
            let list = earlier.drop_last().push(grown);
            assert(words(line) == list);
            assert forall|i: int| 0 <= i < list.len() implies (#[trigger] list[i]).len() > 0 by {
                if i < list.len() - 1 {
                    assert(list[i] == earlier[i]);
                }
            }
            assert forall|i: int, j: int|
                0 <= i < list.len() && 0 <= j < list[i].len() implies !is_whitespace(
                #[trigger] list[i][j],
            ) by {
                if i < list.len() - 1 {
                    assert(list[i] == earlier[i]);
                } else if j < grown.len() - 1 {
                    assert(grown[j] == earlier[earlier.len() - 1][j]);
                }
            }
        } else {
            let list = earlier.push(seq![c]);
            assert(words(line) == list);
            assert forall|i: int| 0 <= i < list.len() implies (#[trigger] list[i]).len() > 0 by {
                if i < list.len() - 1 {
                    assert(list[i] == earlier[i]);
                }
            }
            assert forall|i: int, j: int|
                0 <= i < list.len() && 0 <= j < list[i].len() implies !is_whitespace(
                #[trigger] list[i][j],
            ) by {
                if i < list.len() - 1 {
                    assert(list[i] == earlier[i]);
                }
            }
        }
    }
}

/// The characters of a line that are no whitespace, in their order.
pub open spec fn without_whitespace(line: Seq<char>) -> Seq<char> {
    line.filter(|c: char| !is_whitespace(c))
}

/// Cutting a line into words loses nothing but its whitespace: the words,
/// put together again, are the other characters of the line in their order.
pub proof fn lemma_words_keep_the_rest(line: Seq<char>)
    ensures
        words(line).flatten() == without_whitespace(line),
    decreases line.len(),
{
    reveal(Seq::filter);
    let kept = |c: char| !is_whitespace(c);
    if line.len() == 0 {
        assert(words(line).flatten() =~= line.filter(kept));
    } else {
        let before = line.drop_last();
        let c = line.last();
        let earlier = words(before);
        lemma_words_keep_the_rest(before);
        if is_whitespace(c) {
        } else if before.len() > 0 && !is_whitespace(before.last()) {
            let rest = earlier.drop_last();
            let last = earlier.last();
            assert(earlier =~= rest.push(last));
            rest.lemma_flatten_push(last);
            rest.lemma_flatten_push(last.push(c));
            assert(words(line).flatten() =~= earlier.flatten().push(c));
        } else {
            earlier.lemma_flatten_push(seq![c]);
            assert(words(line).flatten() =~= earlier.flatten().push(c));
        }
    }
}

/// A run of characters without whitespace is one word.
pub proof fn lemma_words_single(word: Seq<char>)
    requires
        word.len() > 0,
        forall|i: int| 0 <= i < word.len() ==> !is_whitespace(#[trigger] word[i]),
    ensures
        words(word) == seq![word],
    decreases word.len(),
{
    let before = word.drop_last();
    if before.len() == 0 {
        assert(word =~= seq![word.last()]);
        assert(words(before) =~= Seq::<Seq<char>>::empty());
        assert(words(word) =~= seq![word]);
    } else {
        assert forall|i: int| 0 <= i < before.len() implies !is_whitespace(
            #[trigger] before[i],
        ) by {
            assert(before[i] == word[i]);
        }
        lemma_words_single(before);
        assert(before.push(word.last()) =~= word);
        assert(words(word) =~= seq![word]);
    }
}

/// After whitespace the words start afresh: the words of two pieces of a
/// line, the first of them empty or ending in whitespace, are those of the
/// first piece and then those of the second.
pub proof fn lemma_words_concat(head: Seq<char>, rest: Seq<char>)
    requires
        head.len() == 0 || is_whitespace(head.last()),
    ensures
        words(head + rest) == words(head) + words(rest),
    decreases rest.len(),
{
    if rest.len() == 0 {
        assert(head + rest =~= head);
        assert(words(head) + words(rest) =~= words(head));
    } else {
        let before = rest.drop_last();
        let c = rest.last();
        lemma_words_concat(head, before);
        assert((head + rest).drop_last() =~= head + before);
        assert((head + rest).last() == c);
        if is_whitespace(c) {
        } else if before.len() > 0 && !is_whitespace(before.last()) {
            assert((head + before).last() == before.last());
            assert(words(before).len() > 0);
            assert((words(head) + words(before)).drop_last() =~= words(head) + words(
                before,
            ).drop_last());
            assert((words(head) + words(before)).last() == words(before).last());
            assert(words(head + rest) =~= words(head) + words(rest));
        } else {
            if before.len() == 0 {
                assert(head + before =~= head);
            } else {
                assert((head + before).last() == before.last());
            }
            assert(words(head + rest) =~= words(head) + words(rest));
        }
    }
}

/// The words of bytes written as text are the pairs of digits of the bytes.
pub proof fn lemma_words_of_hex_text(bytes: Seq<u8>)
    ensures
        words(hex_text(bytes)) == Seq::new(bytes.len(), |i: int| hex_pair(bytes[i])),
    decreases bytes.len(),
{
    let pairs = Seq::new(bytes.len(), |i: int| hex_pair(bytes[i]));
    if bytes.len() == 0 {
        assert(words(hex_text(bytes)) =~= pairs);
    } else {
        let pair = hex_pair(bytes.last());
        lemma_hex_pair(bytes.last());
        lemma_words_single(pair);
        if bytes.len() == 1 {
            assert(words(hex_text(bytes)) =~= pairs);
        } else {
            let before = bytes.drop_last();
            let head = hex_text(before) + seq![' '];
            lemma_words_of_hex_text(before);
            assert(head.drop_last() =~= hex_text(before));
            assert(is_whitespace(head.last()));
            assert(words(head) == words(hex_text(before)));
            lemma_words_concat(head, pair);
            assert(words(hex_text(bytes)) =~= pairs);
        }
    }
}

/// Writing bytes as text and reading the text gives the bytes again.
pub proof fn lemma_text_round_trip(bytes: Seq<u8>)
    ensures
        hex_decode(hex_text(bytes)) == Some(bytes),
{
    lemma_words_of_hex_text(bytes);
    let list = words(hex_text(bytes));
    assert forall|i: int| 0 <= i < list.len() implies word_byte(#[trigger] list[i]) == Some(
        bytes[i],
    ) by {
        lemma_hex_pair(bytes[i]);
    }
    assert(words_bytes(list).unwrap() =~= bytes);
}

/// A line of words of two hexadecimal digits each is read without failure,
/// into one byte for each word; and when those bytes are written as text, the
/// text is read into the same bytes.
pub proof fn lemma_hex_pairs_round_trip(line: Seq<char>)
    requires
        is_hex_pairs(line),
    ensures
        hex_decode(line) is Some,
        hex_decode(line).unwrap().len() == words(line).len(),
        hex_decode(hex_text(hex_decode(line).unwrap())) == hex_decode(line),
{
    let list = words(line);
    assert forall|i: int| 0 <= i < list.len() implies word_byte(#[trigger] list[i]) is Some by {
        let word = list[i];
        assert(word =~= seq![word[0], word[1]]);
        lemma_two_digits(word[0], word[1]);
    }
    lemma_text_round_trip(hex_decode(line).unwrap());
}

} // verus!
