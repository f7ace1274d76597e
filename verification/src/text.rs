//! Characters, tokens, lines and decimal numerals.
//!
//! Everything that the wire protocol and the firmware files say in text is
//! built from the notions of this module: the characters of a string, its
//! tokens (the maximal runs of characters that are not whitespace), its
//! lines, unsigned decimal numerals, and the order of texts.

use vstd::prelude::*;

verus! {

/// `String::push` appends one character to the end of the string.
pub assume_specification[ String::push ](s: &mut String, ch: char)
    ensures
        final(s)@ == old(s)@.push(ch),
;

/// The characters of `s`, in order.
pub fn chars_of(s: &str) -> (v: Vec<char>)
    ensures
        v@ == s@,
{
    let mut v: Vec<char> = Vec::new();
    for c in it: s.chars()
        invariant
            v@ == it.seq().take(it.index() as int),
    {
        v.push(c);
    }
    v
}

/// The string made of the characters of `v`, in order.
pub fn string_of(v: &Vec<char>) -> (s: String)
    ensures
        s@ == v@,
{
    let mut s = String::new();
    let mut i: usize = 0;
    while i < v.len()
        invariant
            0 <= i <= v.len(),
            s@ == v@.take(i as int),
        decreases v.len() - i,
    {
        s.push(v[i]);
        i += 1;
    }
    s
}

/// Appends the characters of `s` to `out`.
pub fn push_str(out: &mut Vec<char>, s: &str)
    ensures
        final(out)@ == old(out)@ + s@,
{
    let ghost before = out@;
    for c in it: s.chars()
        invariant
            out@ == before + it.seq().take(it.index() as int),
    {
        out.push(c);
    }
}

/// Appends the characters of `tail` to `out`.
pub fn push_chars(out: &mut Vec<char>, tail: &Vec<char>)
    ensures
        final(out)@ == old(out)@ + tail@,
{
    let ghost before = out@;
    let mut i: usize = 0;
    while i < tail.len()
        invariant
            0 <= i <= tail.len(),
            out@ == before + tail@.take(i as int),
        decreases tail.len() - i,
    {
        out.push(tail[i]);
        i += 1;
    }
}

/// Whether two character sequences are the same text.
pub fn same_chars(a: &Vec<char>, b: &Vec<char>) -> (same: bool)
    ensures
        same == (a@ == b@),
{
    if a.len() != b.len() {
        return false;
    }
    let mut i: usize = 0;
    while i < a.len()
        invariant
            0 <= i <= a.len(),
            a.len() == b.len(),
            a@.take(i as int) == b@.take(i as int),
        decreases a.len() - i,
    {
        if a[i] != b[i] {
            return false;
        }
        assert(a@.take(i + 1) == a@.take(i as int).push(a@[i as int]));
        assert(b@.take(i + 1) == b@.take(i as int).push(b@[i as int]));
        i += 1;
    }
    assert(a@ == a@.take(a.len() as int));
    assert(b@ == b@.take(b.len() as int));
    true
}

/// Whether two strings hold the same text.
pub fn same_text(a: &str, b: &str) -> (same: bool)
    ensures
        same == (a@ == b@),
{
    let x = chars_of(a);
    let y = chars_of(b);
    same_chars(&x, &y)
}

/// The characters with the Unicode property `White_Space`.
pub open spec fn is_whitespace(c: char) -> bool {
    let u = c as u32;
    ||| 0x09 <= u <= 0x0D
    ||| u == 0x20
    ||| u == 0x85
    ||| u == 0xA0
    ||| u == 0x1680
    ||| 0x2000 <= u <= 0x200A
    ||| u == 0x2028
    ||| u == 0x2029
    ||| u == 0x202F
    ||| u == 0x205F
    ||| u == 0x3000
}

/// Tells whether `c` is whitespace.
pub fn whitespace(c: char) -> (yes: bool)
    ensures
        yes == is_whitespace(c),
{
    let u: u32 = c as u32;
    (0x09 <= u && u <= 0x0D) || u == 0x20 || u == 0x85 || u == 0xA0 || u == 0x1680 || (0x2000 <= u
        && u <= 0x200A) || u == 0x2028 || u == 0x2029 || u == 0x202F || u == 0x205F || u == 0x3000
}

/// The tokens of a text: its maximal runs of characters that are not
/// whitespace, from left to right.
///
/// The definition walks the text from its end: a whitespace character adds
/// nothing, a character that follows another token character extends the last
/// token, and any other character starts a new token.
pub open spec fn tokens(s: Seq<char>) -> Seq<Seq<char>>
    decreases s.len(),
{
    if s.len() == 0 {
        Seq::empty()
    } else {
        let head = s.drop_last();
        let c = s.last();
        if is_whitespace(c) {
            tokens(head)
        } else if head.len() > 0 && !is_whitespace(head.last()) {
            let before = tokens(head);
            before.drop_last().push(before.last().push(c))
        } else {
            tokens(head).push(seq![c])
        }
    }
}

/// The texts held by a vector of character vectors.
pub open spec fn words_of(v: Seq<Vec<char>>) -> Seq<Seq<char>> {
    Seq::new(v.len(), |i: int| v[i]@)
}

/// Splits a text into its tokens.
pub fn split_whitespace(s: &str) -> (out: Vec<Vec<char>>)
    ensures
        words_of(out@) == tokens(s@),
{
    let chars = chars_of(s);
    let mut out: Vec<Vec<char>> = Vec::new();
    let mut cur: Vec<char> = Vec::new();
    let mut i: usize = 0;
    while i < chars.len()
        invariant
            0 <= i <= chars.len(),
            cur@.len() > 0 <==> (i > 0 && !is_whitespace(chars@[i - 1])),
            tokens(chars@.take(i as int)) == if cur@.len() > 0 {
                words_of(out@).push(cur@)
            } else {
                words_of(out@)
            },
        decreases chars.len() - i,
    {
        let c = chars[i];
        let ghost next = chars@.take(i + 1);
        proof {
            assert(next.drop_last() == chars@.take(i as int));
            assert(next.last() == c);
            assert(next.len() > 0);
        }
        if whitespace(c) {
            assert(tokens(next) == tokens(chars@.take(i as int)));
            if cur.len() > 0 {
                let ghost before = words_of(out@);
                let ghost word = cur@;
                out.push(cur);
                cur = Vec::new();
                assert(words_of(out@) == before.push(word));
            }
        } else {
            proof {
                if cur@.len() > 0 {
                    let before = words_of(out@).push(cur@);
                    assert(before.drop_last() == words_of(out@));
                    assert(before.last() == cur@);
                    assert(tokens(next) == words_of(out@).push(cur@.push(c)));
                } else {
                    assert(tokens(next) == words_of(out@).push(seq![c]));
                    assert(cur@.push(c) == seq![c]);
                }
            }
            cur.push(c);
        }
        i += 1;
        assert(chars@.take(i as int) == next);
    }
    assert(chars@.take(chars.len() as int) == chars@);
    if cur.len() > 0 {
        let ghost before = words_of(out@);
        let ghost word = cur@;
        out.push(cur);
        assert(words_of(out@) == before.push(word));
    }
    out
}

/// The words joined by single spaces.
pub open spec fn join_spaced(words: Seq<Seq<char>>) -> Seq<char>
    decreases words.len(),
{
    if words.len() == 0 {
        Seq::empty()
    } else if words.len() == 1 {
        words[0]
    } else {
        join_spaced(words.drop_last()).push(' ') + words.last()
    }
}

/// A word that `tokens` gives back as it is: not empty, no whitespace in it.
pub open spec fn is_word(w: Seq<char>) -> bool {
    w.len() > 0 && forall|i: int| 0 <= i < w.len() ==> !is_whitespace(#[trigger] w[i])
}

/// Appending a space and then a word to a text adds that word to its tokens.
pub proof fn lemma_tokens_append_word(s: Seq<char>, w: Seq<char>)
    requires
        is_word(w),
    ensures
        tokens(s.push(' ') + w) == tokens(s).push(w),
    decreases w.len(),
{
    let t = s.push(' ') + w;
    assert(t.last() == w.last());
    assert(tokens(s.push(' ')) == tokens(s)) by {
        assert(s.push(' ').drop_last() == s);
        assert(is_whitespace(' '));
    }
    if w.len() == 1 {
        assert(t.drop_last() == s.push(' '));
        assert(w == seq![w.last()]);
        assert(!is_whitespace(w[0]));
    } else {
        let v = w.drop_last();
        assert(t.drop_last() == s.push(' ') + v);
        assert(is_word(v)) by {
            assert forall|i: int| 0 <= i < v.len() implies !is_whitespace(#[trigger] v[i]) by {
                assert(v[i] == w[i]);
            }
        }
        lemma_tokens_append_word(s, v);
        assert(t.drop_last().last() == v.last());
        assert(v.last() == w[w.len() - 2]);
        let before = tokens(s).push(v);
        assert(before.drop_last() == tokens(s));
        assert(v.push(w.last()) == w);
    }
}

/// A single word is its own only token.
pub proof fn lemma_tokens_of_word(w: Seq<char>)
    requires
        is_word(w),
    ensures
        tokens(w) == seq![w],
    decreases w.len(),
{
    if w.len() == 1 {
        assert(w.drop_last() == Seq::<char>::empty());
        assert(w == seq![w.last()]);
        assert(tokens(w.drop_last()) == Seq::<Seq<char>>::empty());
        assert(Seq::<Seq<char>>::empty().push(seq![w.last()]) == seq![w]);
    } else {
        let v = w.drop_last();
        assert(is_word(v)) by {
            assert forall|i: int| 0 <= i < v.len() implies !is_whitespace(#[trigger] v[i]) by {
                assert(v[i] == w[i]);
            }
        }
        lemma_tokens_of_word(v);
        assert(v.last() == w[w.len() - 2]);
        assert(v.push(w.last()) == w);
        assert(seq![v].drop_last().push(seq![v].last().push(w.last())) == seq![w]);
    }
}

/// Joining words with spaces and splitting the text again gives the words.
pub proof fn lemma_tokens_of_joined(words: Seq<Seq<char>>)
    requires
        forall|i: int| 0 <= i < words.len() ==> is_word(#[trigger] words[i]),
    ensures
        tokens(join_spaced(words)) == words,
    decreases words.len(),
{
    if words.len() == 0 {
    } else if words.len() == 1 {
        lemma_tokens_of_word(words[0]);
        assert(seq![words[0]] == words);
    } else {
        let head = words.drop_last();
        assert forall|i: int| 0 <= i < head.len() implies is_word(#[trigger] head[i]) by {
            assert(head[i] == words[i]);
        }
        lemma_tokens_of_joined(head);
        lemma_tokens_append_word(join_spaced(head), words.last());
        assert(head.push(words.last()) == words);
    }
}

/// Whether `c` is one of the ten decimal digits.
pub open spec fn is_digit(c: char) -> bool {
    '0' <= c <= '9'
}

/// The number that the decimal digit `c` stands for.
pub open spec fn digit_value(c: char) -> nat {
    (c as u32 - '0' as u32) as nat
}

/// The decimal digit that stands for `d`, a number below ten.
pub open spec fn digit_char(d: nat) -> char {
    (d + '0' as u32) as char
}

/// The decimal numeral of `n`, without sign or leading zeros.
pub open spec fn decimal(n: nat) -> Seq<char>
    decreases n,
{
    if n < 10 {
        seq![digit_char(n)]
    } else {
        decimal(n / 10).push(digit_char(n % 10))
    }
}

/// The number that a sequence of decimal digits denotes.
pub open spec fn digits_value(s: Seq<char>) -> nat
    decreases s.len(),
{
    if s.len() == 0 {
        0
    } else {
        digits_value(s.drop_last()) * 10 + digit_value(s.last())
    }
}

/// Whether every character of `s` is a decimal digit.
pub open spec fn all_digits(s: Seq<char>) -> bool {
    forall|i: int| 0 <= i < s.len() ==> is_digit(#[trigger] s[i])
}

/// The digits of a numeral, after its optional leading `+`.
pub open spec fn unsigned_part(s: Seq<char>) -> Seq<char> {
    if s.len() > 0 && s[0] == '+' {
        s.subrange(1, s.len() as int)
    } else {
        s
    }
}

/// The number that the text `s` denotes, where it denotes one that is at most
/// `max`: an optional `+`, then one or more decimal digits and nothing else.
pub open spec fn parse_decimal(s: Seq<char>, max: nat) -> Option<nat> {
    let digits = unsigned_part(s);
    if digits.len() > 0 && all_digits(digits) && digits_value(digits) <= max {
        Some(digits_value(digits))
    } else {
        None
    }
}

/// A longer run of digits denotes no smaller number than its beginning.
pub proof fn lemma_digits_value_grows(s: Seq<char>, k: int)
    requires
        0 <= k <= s.len(),
    ensures
        digits_value(s.take(k)) <= digits_value(s),
    decreases s.len(),
{
    if k == s.len() {
        assert(s.take(k) == s);
    } else {
        let head = s.drop_last();
        lemma_digits_value_grows(head, k);
        assert(head.take(k) == s.take(k));
        assert(digits_value(head) <= digits_value(head) * 10 + digit_value(s.last()));
    }
}

/// The decimal numeral of a number is made of digits only, does not start
/// with `+`, and denotes that number.
pub proof fn lemma_decimal_denotes(n: nat)
    ensures
        decimal(n).len() > 0,
        all_digits(decimal(n)),
        is_word(decimal(n)),
        digits_value(decimal(n)) == n,
        unsigned_part(decimal(n)) == decimal(n),
    decreases n,
{
    let s = decimal(n);
    if n < 10 {
        assert(s.drop_last() == Seq::<char>::empty());
        assert(s[0] == digit_char(n));
        assert(digits_value(s.drop_last()) == 0);
    } else {
        lemma_decimal_denotes(n / 10);
        let head = decimal(n / 10);
        assert(s.drop_last() == head);
        assert(s.last() == digit_char(n % 10));
        assert(s[0] == head[0]);
        assert forall|i: int| 0 <= i < s.len() implies is_digit(#[trigger] s[i]) by {
            if i < head.len() {
                assert(s[i] == head[i]);
            }
        }
        assert forall|i: int| 0 <= i < s.len() implies !is_whitespace(#[trigger] s[i]) by {
            assert(is_digit(s[i]));
        }
    }
}

/// Reading the decimal numeral of a number gives the number back.
pub proof fn lemma_parse_decimal_of_decimal(n: nat, max: nat)
    requires
        n <= max,
    ensures
        parse_decimal(decimal(n), max) == Some(n),
{
    lemma_decimal_denotes(n);
}

/// The decimal numeral of `n`.
pub fn decimal_chars(n: u128) -> (digits: Vec<char>)
    ensures
        digits@ == decimal(n as nat),
{
    let mut digits: Vec<char> = Vec::new();
    let mut m: u128 = n;
    while m >= 10
        invariant
            decimal(m as nat) + digits@ == decimal(n as nat),
        decreases m,
    {
        let d: u8 = (m % 10) as u8;
        let c: char = (d + 48u8) as char;
        assert(c == digit_char((m % 10) as nat));
        assert(decimal(m as nat) == decimal((m / 10) as nat).push(c));
        assert(decimal((m / 10) as nat).push(c) + digits@ == decimal((m / 10) as nat) + digits@.insert(
            0,
            c,
        ));
        digits.insert(0, c);
        m = m / 10;
    }
    let c: char = ((m as u8) + 48u8) as char;
    assert(c == digit_char(m as nat));
    assert(seq![c] + digits@ == digits@.insert(0, c));
    digits.insert(0, c);
    digits
}

/// Appends the decimal numeral of `n` to `out`.
pub fn push_decimal(out: &mut Vec<char>, n: u64)
    ensures
        final(out)@ == old(out)@ + decimal(n as nat),
{
    let digits = decimal_chars(n as u128);
    push_chars(out, &digits);
}

/// The decimal numeral of `n` as a string.
pub fn decimal_string(n: u128) -> (s: String)
    ensures
        s@ == decimal(n as nat),
{
    let digits = decimal_chars(n);
    string_of(&digits)
}

/// Reads an unsigned decimal number that is at most `max`.
pub fn parse_number(token: &Vec<char>, max: u64) -> (number: Option<u64>)
    ensures
        number == match parse_decimal(token@, max as nat) {
            Some(n) => Some(n as u64),
            None => None,
        },
{
    let start: usize = if token.len() > 0 && token[0] == '+' {
        1
    } else {
        0
    };
    let ghost digits = unsigned_part(token@);
    assert(digits == token@.subrange(start as int, token.len() as int));
    if start == token.len() {
        return None;
    }
    let mut acc: u64 = 0;
    let mut i: usize = start;
    while i < token.len()
        invariant
            start <= i <= token.len(),
            digits == token@.subrange(start as int, token.len() as int),
            digits == unsigned_part(token@),
            all_digits(digits.take(i - start)),
            acc == digits_value(digits.take(i - start)),
            acc <= max,
        decreases token.len() - i,
    {
        let c = token[i];
        let ghost k = i - start;
        assert(digits[k] == c);
        assert(digits.take(k + 1).drop_last() == digits.take(k));
        assert(digits.take(k + 1).last() == c);
        if !('0' <= c && c <= '9') {
            assert(!is_digit(digits[k]));
            assert(parse_decimal(token@, max as nat) is None);
            return None;
        }
        let d: u64 = (c as u32 - '0' as u32) as u64;
        assert(d == digit_value(c));
        let wide: u128 = acc as u128 * 10 + d as u128;
        if wide > max as u128 {
            proof {
                assert(digits_value(digits.take(k + 1)) == acc * 10 + d);
                lemma_digits_value_grows(digits, k + 1);
            }
            assert(digits_value(digits) > max);
            return None;
        }
        assert(all_digits(digits.take(k + 1))) by {
            assert forall|j: int| 0 <= j < k + 1 implies is_digit(#[trigger] digits.take(k + 1)[j]) by {
                if j < k {
                    assert(digits.take(k + 1)[j] == digits.take(k)[j]);
                }
            }
        }
        acc = acc * 10 + d;
        i += 1;
    }
    assert(digits.take(i - start) == digits);
    Some(acc)
}


/// The characters of `chars` from position `from` up to, not including,
/// position `to`.
pub fn copy_range(chars: &Vec<char>, from: usize, to: usize) -> (part: Vec<char>)
    requires
        from <= to <= chars.len(),
    ensures
        part@ == chars@.subrange(from as int, to as int),
{
    let mut part: Vec<char> = Vec::new();
    let mut i: usize = from;
    while i < to
        invariant
            from <= i <= to <= chars.len(),
            part@ == chars@.subrange(from as int, i as int),
        decreases to - i,
    {
        part.push(chars[i]);
        i += 1;
    }
    part
}

/// A copy of the bytes.
pub fn copy_bytes(bytes: &Vec<u8>) -> (copy: Vec<u8>)
    ensures
        copy@ == bytes@,
{
    let mut copy: Vec<u8> = Vec::new();
    let mut i: usize = 0;
    while i < bytes.len()
        invariant
            0 <= i <= bytes.len(),
            copy@ == bytes@.take(i as int),
        decreases bytes.len() - i,
    {
        copy.push(bytes[i]);
        i += 1;
    }
    copy
}


/// The position of the first `c` in `s`, or the length of `s` where it holds
/// none.
pub open spec fn first_at(s: Seq<char>, c: char) -> nat
    decreases s.len(),
{
    if s.len() == 0 || s[0] == c {
        0
    } else {
        1 + first_at(s.drop_first(), c)
    }
}

/// Where no `c` stands before position `k`, and one stands at `k` or the text
/// ends there, `k` is the position of the first `c`.
pub proof fn lemma_first_at(s: Seq<char>, c: char, k: int)
    requires
        0 <= k <= s.len(),
        forall|j: int| 0 <= j < k ==> s[j] != c,
        k == s.len() || s[k] == c,
    ensures
        first_at(s, c) == k,
    decreases k,
{
    if k > 0 {
        let t = s.drop_first();
        assert forall|j: int| 0 <= j < k - 1 implies t[j] != c by {
            assert(t[j] == s[j + 1]);
        }
        lemma_first_at(t, c, k - 1);
    }
}

/// The position of the first `c` at or after position `from`, or the length
/// of the text where none follows.
pub fn find_char(chars: &Vec<char>, from: usize, c: char) -> (at: usize)
    requires
        from <= chars.len(),
    ensures
        at == from + first_at(chars@.skip(from as int), c),
        from <= at <= chars.len(),
{
    let mut at: usize = from;
    while at < chars.len() && chars[at] != c
        invariant
            from <= at <= chars.len(),
            forall|j: int| from <= j < at ==> chars@[j] != c,
        decreases chars.len() - at,
    {
        at += 1;
    }
    proof {
        let rest = chars@.skip(from as int);
        assert forall|j: int| 0 <= j < at - from implies rest[j] != c by {
            assert(rest[j] == chars@[from + j]);
        }
        lemma_first_at(rest, c, at - from);
    }
    at
}

/// Whether `s` ends with `suffix`.
pub open spec fn ends_with(s: Seq<char>, suffix: Seq<char>) -> bool {
    s.len() >= suffix.len() && s.skip(s.len() - suffix.len()) == suffix
}

/// Tells whether `s` ends with `suffix`.
pub fn has_suffix(s: &str, suffix: &str) -> (yes: bool)
    ensures
        yes == ends_with(s@, suffix@),
{
    let text = chars_of(s);
    let end = chars_of(suffix);
    if text.len() < end.len() {
        return false;
    }
    let tail = copy_range(&text, text.len() - end.len(), text.len());
    assert(tail@ == text@.skip(text.len() - end.len()));
    same_chars(&tail, &end)
}

/// Whether `part` stands at position `i` of `s`.
pub open spec fn part_at(s: Seq<char>, part: Seq<char>, i: int) -> bool {
    0 <= i && i + part.len() <= s.len() && s.subrange(i, i + part.len()) == part
}

/// Whether `part` stands anywhere in `s`.
pub open spec fn has_part(s: Seq<char>, part: Seq<char>) -> bool {
    exists|i: int| part_at(s, part, i)
}

/// Tells whether `part` stands anywhere in `s`.
pub fn contains_text(s: &str, part: &str) -> (yes: bool)
    ensures
        yes == has_part(s@, part@),
{
    let text = chars_of(s);
    let wanted = chars_of(part);
    if text.len() < wanted.len() {
        assert forall|i: int| !part_at(text@, wanted@, i) by {}
        return false;
    }
    let last: usize = text.len() - wanted.len();
    let mut i: usize = 0;
    loop
        invariant
            0 <= i <= last,
            last == text.len() - wanted.len(),
            text@ == s@,
            wanted@ == part@,
            forall|j: int| 0 <= j < i ==> !part_at(text@, wanted@, j),
        decreases last - i,
    {
        let piece = copy_range(&text, i, i + wanted.len());
        if same_chars(&piece, &wanted) {
            assert(part_at(text@, wanted@, i as int));
            return true;
        }
        if i == last {
            assert forall|j: int| !part_at(text@, wanted@, j) by {}
            return false;
        }
        i += 1;
    }
}

/// Whether `a` stands before `b`, or is `b`, in the order of dictionaries:
/// the texts are compared character by character, and a text stands before
/// every text that it begins.
pub open spec fn text_le(a: Seq<char>, b: Seq<char>) -> bool
    decreases a.len(),
{
    if a.len() == 0 {
        true
    } else if b.len() == 0 {
        false
    } else if a[0] != b[0] {
        a[0] < b[0]
    } else {
        text_le(a.drop_first(), b.drop_first())
    }
}

/// A text is itself.
pub proof fn lemma_text_le_reflexive(a: Seq<char>)
    ensures
        text_le(a, a),
    decreases a.len(),
{
    if a.len() > 0 {
        lemma_text_le_reflexive(a.drop_first());
    }
}

/// Of two texts, one stands before the other or is the other.
pub proof fn lemma_text_le_total(a: Seq<char>, b: Seq<char>)
    ensures
        text_le(a, b) || text_le(b, a),
    decreases a.len(),
{
    if a.len() > 0 && b.len() > 0 && a[0] == b[0] {
        lemma_text_le_total(a.drop_first(), b.drop_first());
    }
}

/// The order of texts is transitive.
pub proof fn lemma_text_le_transitive(a: Seq<char>, b: Seq<char>, c: Seq<char>)
    requires
        text_le(a, b),
        text_le(b, c),
    ensures
        text_le(a, c),
    decreases a.len(),
{
    if a.len() > 0 && b.len() > 0 && c.len() > 0 {
        if a[0] == b[0] && b[0] == c[0] {
            lemma_text_le_transitive(a.drop_first(), b.drop_first(), c.drop_first());
        }
    }
}

/// Tells whether `a` stands before `b`, or is `b`, in the order of
/// dictionaries.
pub fn text_before_or_same(a: &Vec<char>, b: &Vec<char>) -> (yes: bool)
    ensures
        yes == text_le(a@, b@),
{
    let mut i: usize = 0;
    assert(a@.skip(0) == a@);
    assert(b@.skip(0) == b@);
    loop
        invariant
            0 <= i <= a.len(),
            i <= b.len(),
            text_le(a@, b@) == text_le(a@.skip(i as int), b@.skip(i as int)),
        decreases a.len() - i,
    {
        if i == a.len() {
            return true;
        }
        if i == b.len() {
            return false;
        }
        if a[i] != b[i] {
            return a[i] < b[i];
        }
        assert(a@.skip(i as int).drop_first() == a@.skip(i + 1));
        assert(b@.skip(i as int).drop_first() == b@.skip(i + 1));
        i += 1;
    }
}


/// The characters of a text that are not `c`, in order.
pub open spec fn without_char(s: Seq<char>, c: char) -> Seq<char>
    decreases s.len(),
{
    if s.len() == 0 {
        s
    } else if s.last() != c {
        without_char(s.drop_last(), c).push(s.last())
    } else {
        without_char(s.drop_last(), c)
    }
}

/// The characters of `chars` from position `from` on that are not `c`.
pub fn remove_char(chars: &Vec<char>, from: usize, c: char) -> (kept: Vec<char>)
    requires
        from <= chars.len(),
    ensures
        kept@ == without_char(chars@.skip(from as int), c),
{
    let ghost rest = chars@.skip(from as int);
    let mut kept: Vec<char> = Vec::new();
    let mut i: usize = from;
    assert(rest.take(0) == Seq::<char>::empty());
    while i < chars.len()
        invariant
            from <= i <= chars.len(),
            rest == chars@.skip(from as int),
            kept@ == without_char(rest.take(i - from), c),
        decreases chars.len() - i,
    {
        assert(rest.take(i - from + 1).drop_last() == rest.take(i - from));
        assert(rest.take(i - from + 1).last() == chars@[i as int]);
        if chars[i] != c {
            kept.push(chars[i]);
        }
        i += 1;
    }
    assert(rest.take(chars.len() - from) == rest);
    kept
}


/// A line without the carriage return at its end, if it has one.
pub open spec fn without_cr(line: Seq<char>) -> Seq<char> {
    if line.len() > 0 && line.last() == '\r' {
        line.drop_last()
    } else {
        line
    }
}

/// The lines of a text. A line ends at a line feed or at the end of the
/// text; a carriage return just before that end is not part of the line.
/// Nothing follows the last line feed as a line of its own.
pub open spec fn lines(s: Seq<char>) -> Seq<Seq<char>>
    decreases s.len(),
{
    if s.len() == 0 {
        Seq::empty()
    } else {
        let n = first_at(s, '\n') as int;
        if n < s.len() {
            seq![without_cr(s.take(n))] + lines(s.skip(n + 1))
        } else {
            seq![without_cr(s)]
        }
    }
}

/// The number of characters in the lines together.
pub open spec fn total_len(ls: Seq<Seq<char>>) -> nat
    decreases ls.len(),
{
    if ls.len() == 0 {
        0
    } else {
        total_len(ls.drop_last()) + ls.last().len()
    }
}

/// The first lines hold no more characters than all the lines.
pub proof fn lemma_total_len_grows(ls: Seq<Seq<char>>, k: int)
    requires
        0 <= k <= ls.len(),
    ensures
        total_len(ls.take(k)) <= total_len(ls),
    decreases ls.len(),
{
    if k == ls.len() {
        assert(ls.take(k) == ls);
    } else {
        lemma_total_len_grows(ls.drop_last(), k);
        assert(ls.drop_last().take(k) == ls.take(k));
    }
}

/// Splits a text into its lines.
pub fn split_lines(text: &str) -> (out: Vec<Vec<char>>)
    ensures
        words_of(out@) == lines(text@),
        total_len(lines(text@)) <= usize::MAX,
{
    let chars = chars_of(text);
    let mut out: Vec<Vec<char>> = Vec::new();
    let mut start: usize = 0;
    assert(chars@.subrange(0, chars.len() as int) == chars@);
    while start < chars.len()
        invariant
            0 <= start <= chars.len(),
            lines(chars@) == words_of(out@) + lines(
                chars@.subrange(start as int, chars.len() as int),
            ),
            total_len(words_of(out@)) <= start,
        decreases chars.len() - start,
    {
        let ghost rest = chars@.subrange(start as int, chars.len() as int);
        let mut end: usize = start;
        while end < chars.len() && chars[end] != '\n'
            invariant
                start <= end <= chars.len(),
                forall|j: int| start <= j < end ==> chars@[j] != '\n',
            decreases chars.len() - end,
        {
            end += 1;
        }
        proof {
            assert forall|j: int| 0 <= j < end - start implies rest[j] != '\n' by {
                assert(rest[j] == chars@[start + j]);
            }
            lemma_first_at(rest, '\n', end - start);
            assert(rest.take(end - start) == chars@.subrange(start as int, end as int));
        }
        let stop: usize = if end > start && chars[end - 1] == '\r' {
            end - 1
        } else {
            end
        };
        let line = copy_range(&chars, start, stop);
        assert(line@ == without_cr(chars@.subrange(start as int, end as int)));
        let ghost before = words_of(out@);
        out.push(line);
        assert(words_of(out@) == before.push(line@));
        let next: usize = if end < chars.len() {
            end + 1
        } else {
            end
        };
        proof {
            let tail = chars@.subrange(next as int, chars.len() as int);
            if end < chars.len() {
                assert(rest.skip(end - start + 1) == tail);
            } else {
                assert(rest.take(end - start) == rest);
                assert(lines(tail) == Seq::<Seq<char>>::empty());
                assert(seq![line@] + lines(tail) == seq![line@]);
            }
            assert(lines(rest) == seq![line@] + lines(tail));
            assert(before.push(line@) + lines(tail) == before + (seq![line@] + lines(tail)));
            assert(total_len(before.push(line@)) == total_len(before) + line@.len()) by {
                assert(before.push(line@).drop_last() == before);
            }
        }
        start = next;
    }
    assert(lines(chars@.subrange(start as int, chars.len() as int)) == Seq::<Seq<char>>::empty());
    assert(words_of(out@) + Seq::<Seq<char>>::empty() == words_of(out@));
    out
}

} // verus!
