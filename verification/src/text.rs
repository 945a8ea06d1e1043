//! Text as sequences of characters: decimal numbers, white space and words.
//!
//! A candidate line is a row of words separated by white space. This module
//! says what the words of a text are, what text a row of words makes, and how
//! numbers are written and read in decimal.

use vstd::prelude::*;
use vstd::string::*;
use vstd::utf8::encode_utf8;

verus! {

/// `String::push`: the character is appended and nothing else changes.
#[verifier::external_body]
pub(crate) fn push_char(s: &mut String, c: char)
    ensures
        final(s)@ == old(s)@.push(c),
{
    s.push(c)
}

/// The characters of a string, in order.
pub fn chars_of(s: &str) -> (v: Vec<char>)
    ensures
        v@ == s@,
{
    let mut v: Vec<char> = Vec::new();
    for c in it: s.chars()
        invariant
            it.seq() == s@,
            v@ == it.seq().take(it.index() as int),
    {
        v.push(c);
    }
    v
}

/// The string that holds the given characters, in order.
pub fn string_of(v: &Vec<char>) -> (s: String)
    ensures
        s@ == v@,
{
    let mut s = String::new();
    let mut i: usize = 0;
    while i < v.len()
        invariant
            i <= v.len(),
            s@ == v@.take(i as int),
        decreases v.len() - i,
    {
        push_char(&mut s, v[i]);
        i = i + 1;
    }
    s
}

/// Appends the UTF-8 bytes of a string to a buffer.
pub fn append_utf8(buf: &mut Vec<u8>, s: &str)
    ensures
        final(buf)@ == old(buf)@ + encode_utf8(s@),
{
    let bytes = s.as_bytes();
    let ghost start = buf@;
    let mut i: usize = 0;
    while i < bytes.len()
        invariant
            i <= bytes.len(),
            bytes@ == encode_utf8(s@),
            buf@ == start + bytes@.take(i as int),
        decreases bytes.len() - i,
    {
        buf.push(bytes[i]);
        assert(bytes@.take(i + 1) =~= bytes@.take(i as int).push(bytes@[i as int]));
        i = i + 1;
    }
    assert(bytes@.take(i as int) =~= bytes@);
}

// ---------------------------------------------------------------------------
// White space
// ---------------------------------------------------------------------------

/// The characters that separate words: those with the Unicode property
/// White_Space.
pub open spec fn is_whitespace(c: char) -> bool {
    let n = c as u32;
    ||| 0x09 <= n <= 0x0D
    ||| n == 0x20
    ||| n == 0x85
    ||| n == 0xA0
    ||| n == 0x1680
    ||| 0x2000 <= n <= 0x200A
    ||| n == 0x2028
    ||| n == 0x2029
    ||| n == 0x202F
    ||| n == 0x205F
    ||| n == 0x3000
}

/// Tells whether a character separates words.
pub fn char_is_whitespace(c: char) -> (b: bool)
    ensures
        b == is_whitespace(c),
{
    let n: u32 = c as u32;
    (0x09 <= n && n <= 0x0D) || n == 0x20 || n == 0x85 || n == 0xA0 || n == 0x1680 || (0x2000 <= n
        && n <= 0x200A) || n == 0x2028 || n == 0x2029 || n == 0x202F || n == 0x205F || n == 0x3000
}

/// A word: at least one character, none of them white space.
pub open spec fn is_word(w: Seq<char>) -> bool {
    w.len() > 0 && forall|i: int| 0 <= i < w.len() ==> !is_whitespace(#[trigger] w[i])
}

// ---------------------------------------------------------------------------
// Rows of words
// ---------------------------------------------------------------------------

/// The text that a row of words makes: the words in order, one space between
/// neighbours.
pub open spec fn join_words(words: Seq<Seq<char>>) -> Seq<char>
    decreases words.len(),
{
    if words.len() == 0 {
        Seq::empty()
    } else if words.len() == 1 {
        words[0]
    } else {
        words[0] + seq![' '] + join_words(words.drop_first())
    }
}

/// Adding a word to a row adds a space and the word to its text.
pub proof fn lemma_join_push(words: Seq<Seq<char>>, w: Seq<char>)
    requires
        words.len() > 0,
    ensures
        join_words(words.push(w)) == join_words(words) + seq![' '] + w,
    decreases words.len(),
{
    let grown = words.push(w);
    assert(grown.drop_first() =~= words.drop_first().push(w));
    if words.len() == 1 {
        assert(join_words(grown.drop_first()) == w);
        assert(join_words(grown) =~= join_words(words) + seq![' '] + w);
    } else {
        lemma_join_push(words.drop_first(), w);
        assert(join_words(grown) =~= join_words(words) + seq![' '] + w);
    }
}

/// A text without the white space that it begins with.
pub open spec fn skip_whitespace(s: Seq<char>) -> Seq<char>
    decreases s.len(),
{
    if s.len() > 0 && is_whitespace(s[0]) {
        skip_whitespace(s.drop_first())
    } else {
        s
    }
}

/// The length of the word that a text begins with: the number of characters
/// before the first white space.
pub open spec fn word_length(s: Seq<char>) -> nat
    decreases s.len(),
{
    if s.len() > 0 && !is_whitespace(s[0]) {
        1 + word_length(s.drop_first())
    } else {
        0
    }
}

/// What is left after leading white space is no longer than the text, and
/// does not begin with white space.
pub proof fn lemma_skip_whitespace(s: Seq<char>)
    ensures
        skip_whitespace(s).len() <= s.len(),
        skip_whitespace(s).len() > 0 ==> !is_whitespace(skip_whitespace(s)[0]),
    decreases s.len(),
{
    if s.len() > 0 && is_whitespace(s[0]) {
        lemma_skip_whitespace(s.drop_first());
    }
}

/// The word that a text begins with lies within the text, and is not empty
/// where the text begins with something other than white space.
pub proof fn lemma_word_length(s: Seq<char>)
    ensures
        word_length(s) <= s.len(),
        s.len() > 0 && !is_whitespace(s[0]) ==> word_length(s) >= 1,
    decreases s.len(),
{
    if s.len() > 0 && !is_whitespace(s[0]) {
        lemma_word_length(s.drop_first());
    }
}

/// The words of a text: the runs of characters between white space, in
/// order.
pub open spec fn tokens(s: Seq<char>) -> Seq<Seq<char>>
    decreases s.len(),
    via tokens_terminates
{
    let rest = skip_whitespace(s);
    if rest.len() == 0 {
        Seq::empty()
    } else {
        seq![rest.take(word_length(rest) as int)] + tokens(rest.skip(word_length(rest) as int))
    }
}

#[via_fn]
proof fn tokens_terminates(s: Seq<char>) {
    lemma_skip_whitespace(s);
    lemma_word_length(skip_whitespace(s));
}

/// The characters of the word that a text begins with are no white space.
pub proof fn lemma_word_has_no_whitespace(s: Seq<char>, i: int)
    requires
        0 <= i < word_length(s),
    ensures
        i < s.len(),
        !is_whitespace(s[i]),
    decreases s.len(),
{
    if i > 0 {
        lemma_word_has_no_whitespace(s.drop_first(), i - 1);
    }
}

/// Every one of the words of a text is a word: not empty, and without white
/// space.
pub proof fn lemma_tokens_are_words(s: Seq<char>)
    ensures
        forall|k: int| 0 <= k < tokens(s).len() ==> is_word(#[trigger] tokens(s)[k]),
    decreases s.len(),
{
    let rest = skip_whitespace(s);
    lemma_skip_whitespace(s);
    if rest.len() > 0 {
        lemma_word_length(rest);
        let n = word_length(rest) as int;
        let word = rest.take(n);
        assert forall|i: int| 0 <= i < word.len() implies !is_whitespace(#[trigger] word[i]) by {
            lemma_word_has_no_whitespace(rest, i);
        }
        assert(is_word(word));
        lemma_tokens_are_words(rest.skip(n));
        assert forall|k: int| 0 <= k < tokens(s).len() implies is_word(#[trigger] tokens(s)[k]) by {
            if k > 0 {
                assert(tokens(s)[k] == tokens(rest.skip(n))[k - 1]);
            }
        }
    }
}

/// Two words written one after the other make a word.
pub proof fn lemma_words_concat(a: Seq<char>, b: Seq<char>)
    requires
        is_word(a),
        is_word(b),
    ensures
        is_word(a + b),
{
    assert forall|i: int| 0 <= i < (a + b).len() implies !is_whitespace(#[trigger] (a + b)[i]) by {
        if i < a.len() {
            assert((a + b)[i] == a[i]);
        } else {
            assert((a + b)[i] == b[i - a.len()]);
        }
    }
}

/// A number written in hexadecimal is a word.
pub proof fn lemma_hexadecimal_is_word(n: nat)
    ensures
        is_word(hexadecimal(n)),
    decreases n,
{
    if n >= 16 {
        lemma_hexadecimal_is_word(n / 16);
        let s = hexadecimal(n);
        assert forall|i: int| 0 <= i < s.len() implies !is_whitespace(#[trigger] s[i]) by {
            if i < s.len() - 1 {
                assert(s[i] == hexadecimal(n / 16)[i]);
            }
        }
    }
}

/// The words as rows of characters.
pub open spec fn words_view(words: Seq<Vec<char>>) -> Seq<Seq<char>> {
    words.map_values(|w: Vec<char>| w@)
}

/// Splits a text into its words.
pub fn split_words(v: &Vec<char>) -> (words: Vec<Vec<char>>)
    ensures
        words_view(words@) == tokens(v@),
{
    let mut words: Vec<Vec<char>> = Vec::new();
    let mut i: usize = 0;
    assert(v@.skip(0) =~= v@);
    assert(words_view(words@) + tokens(v@) =~= tokens(v@));
    while i < v.len()
        invariant
            i <= v.len(),
            tokens(v@) == words_view(words@) + tokens(v@.skip(i as int)),
        decreases v.len() - i,
    {
        let mut a: usize = i;
        while a < v.len() && char_is_whitespace(v[a])
            invariant
                i <= a <= v.len(),
                skip_whitespace(v@.skip(i as int)) == skip_whitespace(v@.skip(a as int)),
            decreases v.len() - a,
        {
            assert(v@.skip(a as int).drop_first() =~= v@.skip(a + 1));
            a = a + 1;
        }
        let ghost rest = v@.skip(a as int);
        assert(skip_whitespace(rest) == rest);
        if a == v.len() {
            assert(tokens(v@.skip(i as int)) =~= Seq::<Seq<char>>::empty());
            assert(tokens(rest) =~= Seq::<Seq<char>>::empty());
            i = a;
        } else {
            let mut b: usize = a;
            let mut word: Vec<char> = Vec::new();
            while b < v.len() && !char_is_whitespace(v[b])
                invariant
                    a <= b <= v.len(),
                    word@ == v@.subrange(a as int, b as int),
                    word_length(v@.skip(a as int)) == (b - a) + word_length(v@.skip(b as int)),
                decreases v.len() - b,
            {
                word.push(v[b]);
                assert(v@.skip(b as int).drop_first() =~= v@.skip(b + 1));
                assert(v@.subrange(a as int, b + 1) =~= v@.subrange(a as int, b as int).push(
                    v@[b as int],
                ));
                b = b + 1;
            }
            proof {
                assert(word_length(rest) == b - a);
                assert(rest.take(b - a) =~= v@.subrange(a as int, b as int));
                assert(rest.skip(b - a) =~= v@.skip(b as int));
                assert(tokens(v@.skip(i as int)) == seq![word@] + tokens(v@.skip(b as int)));
                assert(words_view(words@.push(word)) =~= words_view(words@).push(word@));
                assert(words_view(words@) + (seq![word@] + tokens(v@.skip(b as int)))
                    =~= words_view(words@).push(word@) + tokens(v@.skip(b as int)));
            }
            words.push(word);
            i = b;
        }
    }
    proof {
        assert(v@.skip(i as int) =~= Seq::<char>::empty());
        assert(tokens(Seq::<char>::empty()) =~= Seq::<Seq<char>>::empty());
        assert(words_view(words@) + Seq::<Seq<char>>::empty() =~= words_view(words@));
    }
    words
}

/// A word followed by nothing, or by white space, is the word that the text
/// begins with.
proof fn lemma_word_length_of_prefix(w: Seq<char>, x: Seq<char>)
    requires
        forall|i: int| 0 <= i < w.len() ==> !is_whitespace(#[trigger] w[i]),
        x.len() == 0 || is_whitespace(x[0]),
    ensures
        word_length(w + x) == w.len(),
    decreases w.len(),
{
    if w.len() == 0 {
        assert(w + x =~= x);
    } else {
        assert((w + x)[0] == w[0]);
        assert((w + x).drop_first() =~= w.drop_first() + x);
        assert forall|i: int| 0 <= i < w.drop_first().len() implies !is_whitespace(
            #[trigger] w.drop_first()[i],
        ) by {
            assert(w.drop_first()[i] == w[i + 1]);
        }
        lemma_word_length_of_prefix(w.drop_first(), x);
    }
}

/// The words of the text that a row of words makes are those words.
pub proof fn lemma_tokens_of_join(words: Seq<Seq<char>>)
    requires
        forall|i: int| 0 <= i < words.len() ==> is_word(#[trigger] words[i]),
    ensures
        tokens(join_words(words)) == words,
    decreases words.len(),
{
    if words.len() == 0 {
        assert(tokens(Seq::<char>::empty()) =~= Seq::<Seq<char>>::empty());
        assert(words =~= Seq::<Seq<char>>::empty());
    } else {
        let w = words[0];
        let rest = words.drop_first();
        let x: Seq<char> = if words.len() == 1 {
            Seq::empty()
        } else {
            seq![' '] + join_words(rest)
        };
        let s = join_words(words);
        assert(is_word(w));
        assert(s =~= w + x);
        assert(s[0] == w[0]);
        assert(skip_whitespace(s) == s);
        lemma_word_length_of_prefix(w, x);
        assert(s.take(w.len() as int) =~= w);
        assert(s.skip(w.len() as int) =~= x);
        assert(tokens(s) == seq![w] + tokens(x));
        assert forall|i: int| 0 <= i < rest.len() implies is_word(#[trigger] rest[i]) by {
            assert(rest[i] == words[i + 1]);
        }
        if words.len() == 1 {
            assert(tokens(x) =~= Seq::<Seq<char>>::empty());
            assert(seq![w] + tokens(x) =~= words);
        } else {
            lemma_tokens_of_join(rest);
            assert(x.drop_first() =~= join_words(rest));
            assert(skip_whitespace(x) == skip_whitespace(join_words(rest)));
            assert(tokens(x) == tokens(join_words(rest)));
            assert(seq![w] + rest =~= words);
        }
    }
}

// ---------------------------------------------------------------------------
// Decimal numbers
// ---------------------------------------------------------------------------

/// True for the ten decimal digits.
pub open spec fn is_digit(c: char) -> bool {
    48 <= c as u32 <= 57
}

/// The character that writes a digit `d < 10`.
pub open spec fn digit_char(d: nat) -> char {
    ((48 + d) as u8) as char
}

/// The character that writes a digit `d < 16` of a hexadecimal number: the
/// decimal digits, then the small letters `a` to `f`.
pub open spec fn hex_digit_char(d: nat) -> char {
    if d < 10 {
        ((48 + d) as u8) as char
    } else {
        ((87 + d) as u8) as char
    }
}

/// A number in hexadecimal, with small letters and without leading zeros.
pub open spec fn hexadecimal(n: nat) -> Seq<char>
    decreases n,
{
    if n < 16 {
        seq![hex_digit_char(n)]
    } else {
        hexadecimal(n / 16).push(hex_digit_char(n % 16))
    }
}

/// The digit that a digit character writes.
pub open spec fn digit_value(c: char) -> nat {
    (c as u32 - 48) as nat
}

/// A number in decimal, without sign and without leading zeros.
pub open spec fn decimal(n: nat) -> Seq<char>
    decreases n,
{
    if n < 10 {
        seq![digit_char(n)]
    } else {
        decimal(n / 10).push(digit_char(n % 10))
    }
}

/// The number that a row of digits writes, leading zeros allowed.
pub open spec fn digits_value(s: Seq<char>) -> nat
    decreases s.len(),
{
    if s.len() == 0 {
        0
    } else {
        digits_value(s.drop_last()) * 10 + digit_value(s.last())
    }
}

/// True when every character is a decimal digit.
pub open spec fn all_digits(s: Seq<char>) -> bool {
    forall|i: int| 0 <= i < s.len() ==> is_digit(#[trigger] s[i])
}

/// The digits of a number text: the text itself, less one leading `+`.
pub open spec fn unsigned_body(s: Seq<char>) -> Seq<char> {
    if s.len() > 0 && s[0] == '+' {
        s.drop_first()
    } else {
        s
    }
}

/// Reads a number of at most `max`: an optional `+`, then one or more digits.
/// Anything else, and any number above `max`, reads as `None`.
pub open spec fn read_number(s: Seq<char>, max: nat) -> Option<nat> {
    let body = unsigned_body(s);
    if body.len() > 0 && all_digits(body) && digits_value(body) <= max {
        Some(digits_value(body))
    } else {
        None
    }
}

/// The digits written so far, least significant first, as they will stand in
/// the text: most significant first.
spec fn low_digits_text(digits: Seq<u8>, k: int) -> Seq<char> {
    Seq::new(k as nat, |j: int| digit_char(digits[k - 1 - j] as nat))
}

/// Writes a number in decimal.
pub fn render_decimal(n: u64) -> (s: String)
    ensures
        s@ == decimal(n as nat),
{
    let mut digits: Vec<u8> = Vec::new();
    let mut rest: u64 = n;
    while rest >= 10
        invariant
            decimal(n as nat) == decimal(rest as nat) + low_digits_text(
                digits@,
                digits@.len() as int,
            ),
            forall|j: int| 0 <= j < digits@.len() ==> digits@[j] < 10,
        decreases rest,
    {
        let d: u8 = (rest % 10) as u8;
        let ghost before = digits@;
        digits.push(d);
        proof {
            let k = before.len() as int;
            assert(low_digits_text(digits@, k + 1) =~= seq![digit_char(d as nat)]
                + low_digits_text(before, k));
            assert(decimal(rest as nat) == decimal((rest / 10) as nat).push(
                digit_char((rest % 10) as nat),
            ));
            assert(decimal(rest as nat) + low_digits_text(before, k) =~= decimal(
                (rest / 10) as nat,
            ) + low_digits_text(digits@, k + 1));
        }
        rest = rest / 10;
    }
    let mut s = String::new();
    push_char(&mut s, (48u8 + (rest as u8)) as char);
    let mut i: usize = digits.len();
    assert(s@ =~= decimal(rest as nat));
    while i > 0
        invariant
            i <= digits.len(),
            forall|j: int| 0 <= j < digits@.len() ==> digits@[j] < 10,
            s@ + low_digits_text(digits@, i as int) == decimal(n as nat),
        decreases i,
    {
        let ghost before = s@;
        i = i - 1;
        push_char(&mut s, (48u8 + digits[i]) as char);
        proof {
            assert(low_digits_text(digits@, i + 1) =~= seq![digit_char(digits@[i as int] as nat)]
                + low_digits_text(digits@, i as int));
            assert(s@ + low_digits_text(digits@, i as int) =~= before + low_digits_text(
                digits@,
                i + 1,
            ));
        }
    }
    assert(low_digits_text(digits@, 0) =~= Seq::<char>::empty());
    assert(s@ + Seq::<char>::empty() =~= s@);
    s
}

fn hex_digit(d: u8) -> (c: char)
    requires
        d < 16,
    ensures
        c == hex_digit_char(d as nat),
{
    if d < 10 {
        (48u8 + d) as char
    } else {
        (87u8 + d) as char
    }
}

/// Writes a 16-bit number in hexadecimal.
pub fn render_hex(n: u16) -> (s: String)
    ensures
        s@ == hexadecimal(n as nat),
{
    let mut s = String::new();
    let d3: u8 = (n / 4096) as u8;
    let d2: u8 = ((n / 256) % 16) as u8;
    let d1: u8 = ((n / 16) % 16) as u8;
    let d0: u8 = (n % 16) as u8;
    proof {
        reveal_with_fuel(hexadecimal, 4);
    }
    if n >= 4096 {
        push_char(&mut s, hex_digit(d3));
    }
    if n >= 256 {
        push_char(&mut s, hex_digit(d2));
    }
    if n >= 16 {
        push_char(&mut s, hex_digit(d1));
    }
    push_char(&mut s, hex_digit(d0));
    assert(s@ =~= hexadecimal(n as nat));
    s
}

/// A row of digits is worth at least any row it begins with.
proof fn lemma_digits_value_grows(s: Seq<char>, k: int)
    requires
        0 <= k <= s.len(),
    ensures
        digits_value(s.take(k)) <= digits_value(s),
    decreases s.len(),
{
    if k == s.len() {
        assert(s.take(k) =~= s);
    } else {
        lemma_digits_value_grows(s.drop_last(), k);
        assert(s.drop_last().take(k) =~= s.take(k));
    }
}

/// Reads the number that the characters write, if it is at most `max`.
pub fn parse_decimal(v: &Vec<char>, max: u64) -> (r: Option<u64>)
    ensures
        r == match read_number(v@, max as nat) {
            Some(n) => Some(n as u64),
            None => None,
        },
{
    let start: usize = if v.len() > 0 && v[0] == '+' {
        1
    } else {
        0
    };
    let ghost body = unsigned_body(v@);
    assert(body =~= v@.skip(start as int));
    if start >= v.len() {
        return None;
    }
    let mut acc: u128 = 0;
    let mut i: usize = start;
    while i < v.len()
        invariant
            start <= i <= v.len(),
            body == v@.skip(start as int),
            body == unsigned_body(v@),
            all_digits(body.take(i - start)),
            acc == digits_value(body.take(i - start)),
            acc <= max,
        decreases v.len() - i,
    {
        let c: u32 = v[i] as u32;
        if c < 48 || c > 57 {
            assert(body[i - start] == v@[i as int]);
            assert(!is_digit(body[i - start]));
            return None;
        }
        let d: u128 = (c - 48) as u128;
        let ghost next = body.take(i - start + 1);
        proof {
            assert(next.drop_last() =~= body.take(i - start));
            assert(next.last() == v@[i as int]);
            assert(digits_value(next) == acc * 10 + d);
            assert forall|j: int| 0 <= j < next.len() implies is_digit(#[trigger] next[j]) by {
                if j < i - start {
                    assert(body.take(i - start)[j] == next[j]);
                }
            }
        }
        let grown: u128 = acc * 10 + d;
        if grown > max as u128 {
            proof {
                lemma_digits_value_grows(body, i - start + 1);
            }
            return None;
        }
        acc = grown;
        i = i + 1;
    }
    assert(body.take(i - start) =~= body);
    Some(acc as u64)
}

/// A digit character is worth its digit.
proof fn lemma_digit_char(d: nat)
    requires
        d < 10,
    ensures
        is_digit(digit_char(d)),
        digit_value(digit_char(d)) == d,
        !is_whitespace(digit_char(d)),
        digit_char(d) != '+',
{
}

/// What holds of a number written in decimal: it is a word of digits that
/// reads back as the number.
pub proof fn lemma_decimal_reads_back(n: nat)
    ensures
        decimal(n).len() > 0,
        all_digits(decimal(n)),
        digits_value(decimal(n)) == n,
        is_word(decimal(n)),
        decimal(n)[0] != '+',
    decreases n,
{
    if n < 10 {
        lemma_digit_char(n);
        let s = decimal(n);
        assert(s.drop_last() =~= Seq::<char>::empty());
        assert(digits_value(s.drop_last()) == 0);
    } else {
        lemma_decimal_reads_back(n / 10);
        lemma_digit_char(n % 10);
        let s = decimal(n);
        assert(s.drop_last() =~= decimal(n / 10));
        assert(s[0] == decimal(n / 10)[0]);
        assert forall|i: int| 0 <= i < s.len() implies is_digit(#[trigger] s[i]) by {
            if i < s.len() - 1 {
                assert(s[i] == decimal(n / 10)[i]);
            }
        }
        assert forall|i: int| 0 <= i < s.len() implies !is_whitespace(#[trigger] s[i]) by {
            if i < s.len() - 1 {
                assert(s[i] == decimal(n / 10)[i]);
            }
        }
    }
}

/// Reading what was written gives the number back, whenever the bound admits it.
pub proof fn lemma_read_number_of_decimal(n: nat, max: nat)
    ensures
        read_number(decimal(n), max) == if n <= max {
            Some(n)
        } else {
            None
        },
{
    lemma_decimal_reads_back(n);
}

} // verus!
