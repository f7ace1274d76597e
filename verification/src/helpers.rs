//! Vectors of numbers and colours as the device writes them: decimal
//! numerals separated by whitespace.

use crate::color::{lemma_parse_all_index, naturals, parse_all, parse_words, RGB, RGBW};
use crate::error::ProtocolError;
use crate::text::{
    decimal, is_word, join_spaced, lemma_decimal_denotes, lemma_tokens_of_joined, parse_decimal,
    push_decimal, split_whitespace, string_of, tokens,
};
use vstd::prelude::*;

verus! {

/// An unsigned integer type that the device sends and takes as a decimal
/// numeral.
pub trait Numerical: Sized + Copy {
    /// The largest number of the type.
    spec fn limit() -> nat;

    /// The number that `self` is.
    spec fn value(self) -> nat;

    /// The value of the type that is the number `n`.
    spec fn of(n: nat) -> Self;

    /// Every value is a number up to the limit, and is found again from it.
    proof fn lemma_value(x: Self)
        ensures
            x.value() <= Self::limit(),
            Self::limit() <= u64::MAX,
            Self::of(x.value()) == x,
    ;

    /// Every number up to the limit is a value of the type.
    proof fn lemma_of(n: nat)
        requires
            n <= Self::limit(),
        ensures
            Self::of(n).value() == n,
    ;

    /// The largest number of the type.
    fn ceiling() -> (m: u64)
        ensures
            m == Self::limit(),
    ;

    /// The number as a `u64`.
    fn widen(self) -> (n: u64)
        ensures
            n == self.value(),
    ;

    /// The value of the type for a number within its range.
    fn narrow(n: u64) -> (x: Self)
        requires
            n <= Self::limit(),
        ensures
            x == Self::of(n as nat),
    ;
}

impl Numerical for u8 {
    open spec fn limit() -> nat {
        0xff
    }

    open spec fn value(self) -> nat {
        self as nat
    }

    open spec fn of(n: nat) -> Self {
        n as u8
    }

    proof fn lemma_value(x: Self) {
    }

    proof fn lemma_of(n: nat) {
    }

    fn ceiling() -> (m: u64) {
        0xff
    }

    fn widen(self) -> (n: u64) {
        self as u64
    }

    fn narrow(n: u64) -> (x: Self) {
        n as u8
    }
}

impl Numerical for u16 {
    open spec fn limit() -> nat {
        0xffff
    }

    open spec fn value(self) -> nat {
        self as nat
    }

    open spec fn of(n: nat) -> Self {
        n as u16
    }

    proof fn lemma_value(x: Self) {
    }

    proof fn lemma_of(n: nat) {
    }

    fn ceiling() -> (m: u64) {
        0xffff
    }

    fn widen(self) -> (n: u64) {
        self as u64
    }

    fn narrow(n: u64) -> (x: Self) {
        n as u16
    }
}

impl Numerical for u32 {
    open spec fn limit() -> nat {
        0xffff_ffff
    }

    open spec fn value(self) -> nat {
        self as nat
    }

    open spec fn of(n: nat) -> Self {
        n as u32
    }

    proof fn lemma_value(x: Self) {
    }

    proof fn lemma_of(n: nat) {
    }

    fn ceiling() -> (m: u64) {
        0xffff_ffff
    }

    fn widen(self) -> (n: u64) {
        self as u64
    }

    fn narrow(n: u64) -> (x: Self) {
        n as u32
    }
}

impl Numerical for u64 {
    open spec fn limit() -> nat {
        0xffff_ffff_ffff_ffff
    }

    open spec fn value(self) -> nat {
        self as nat
    }

    open spec fn of(n: nat) -> Self {
        n as u64
    }

    proof fn lemma_value(x: Self) {
    }

    proof fn lemma_of(n: nat) {
    }

    fn ceiling() -> (m: u64) {
        0xffff_ffff_ffff_ffff
    }

    fn widen(self) -> (n: u64) {
        self
    }

    fn narrow(n: u64) -> (x: Self) {
        n
    }
}

/// The decimal numerals of the numbers.
pub open spec fn numerals_of(ns: Seq<nat>) -> Seq<Seq<char>> {
    Seq::new(ns.len(), |i: int| decimal(ns[i]))
}

/// The text that lists the numbers: their decimal numerals with one space
/// between neighbours.
pub open spec fn numbers_text(ns: Seq<nat>) -> Seq<char> {
    join_spaced(numerals_of(ns))
}

/// The numbers that the values of a vector are.
pub open spec fn values_of<T: Numerical>(data: Seq<T>) -> Seq<nat> {
    Seq::new(data.len(), |i: int| data[i].value())
}

/// The vector of numbers that a text denotes: each of its tokens is a
/// decimal numeral within the range of `T`.
pub open spec fn numerical_vector<T: Numerical>(s: Seq<char>) -> Result<Seq<T>, ProtocolError> {
    match parse_all(tokens(s), T::limit()) {
        Some(ns) => Ok(Seq::new(ns.len(), |i: int| T::of(ns[i]))),
        None => Err(ProtocolError::BadResponse),
    }
}

/// The components of the colours, in order: red, green and blue of each.
pub open spec fn rgb_components(data: Seq<RGB>) -> Seq<nat> {
    Seq::new(
        3 * data.len(),
        |i: int|
            {
                let c = data[i / 3];
                if i % 3 == 0 {
                    c.r as nat
                } else if i % 3 == 1 {
                    c.g as nat
                } else {
                    c.b as nat
                }
            },
    )
}

/// The components of the colours, in order: red, green, blue and white of
/// each.
pub open spec fn rgbw_components(data: Seq<RGBW>) -> Seq<nat> {
    Seq::new(
        4 * data.len(),
        |i: int|
            {
                let c = data[i / 4];
                if i % 4 == 0 {
                    c.r as nat
                } else if i % 4 == 1 {
                    c.g as nat
                } else if i % 4 == 2 {
                    c.b as nat
                } else {
                    c.w as nat
                }
            },
    )
}

/// The colours that a list of components denotes, three by three.
pub open spec fn rgb_groups(ns: Seq<nat>) -> Seq<RGB> {
    Seq::new(
        ns.len() / 3,
        |i: int| RGB { r: ns[3 * i] as u8, g: ns[3 * i + 1] as u8, b: ns[3 * i + 2] as u8 },
    )
}

/// The colours that a list of components denotes, four by four.
pub open spec fn rgbw_groups(ns: Seq<nat>) -> Seq<RGBW> {
    Seq::new(
        ns.len() / 4,
        |i: int|
            RGBW {
                r: ns[4 * i] as u8,
                g: ns[4 * i + 1] as u8,
                b: ns[4 * i + 2] as u8,
                w: ns[4 * i + 3] as u8,
            },
    )
}

/// The colours that a text denotes. A number of tokens that is no multiple
/// of three is a malformed vector; after that, a token that is no number of
/// at most 255 is a bad response.
pub open spec fn rgb_vector(s: Seq<char>) -> Result<Seq<RGB>, ProtocolError> {
    let words = tokens(s);
    if words.len() % 3 != 0 {
        Err(ProtocolError::MalformedVector)
    } else {
        match parse_all(words, 255) {
            None => Err(ProtocolError::BadResponse),
            Some(ns) => Ok(rgb_groups(ns)),
        }
    }
}

/// The colours that a text denotes. A number of tokens that is no multiple
/// of four is a malformed vector; after that, a token that is no number of
/// at most 255 is a bad response.
pub open spec fn rgbw_vector(s: Seq<char>) -> Result<Seq<RGBW>, ProtocolError> {
    let words = tokens(s);
    if words.len() % 4 != 0 {
        Err(ProtocolError::MalformedVector)
    } else {
        match parse_all(words, 255) {
            None => Err(ProtocolError::BadResponse),
            Some(ns) => Ok(rgbw_groups(ns)),
        }
    }
}

/// Writes the numbers as decimal numerals with one space between
/// neighbours.
pub fn numbers_to_string(ns: &Vec<u64>) -> (s: String)
    ensures
        s@ == numbers_text(naturals(ns@)),
{
    let mut out: Vec<char> = Vec::new();
    let mut i: usize = 0;
    let ghost all = naturals(ns@);
    while i < ns.len()
        invariant
            0 <= i <= ns.len(),
            all == naturals(ns@),
            out@ == numbers_text(all.take(i as int)),
        decreases ns.len() - i,
    {
        let ghost before = numerals_of(all.take(i as int));
        let ghost after = numerals_of(all.take(i + 1));
        proof {
            assert(after.drop_last() == before);
            assert(after.last() == decimal(ns@[i as int] as nat));
        }
        if i > 0 {
            out.push(' ');
        }
        push_decimal(&mut out, ns[i]);
        proof {
            if i == 0 {
                assert(out@ == after[0]);
            }
        }
        i += 1;
    }
    assert(all.take(ns.len() as int) == all);
    string_of(&out)
}

/// Reads a whitespace-separated list of decimal numbers.
///
/// Every token must be a decimal numeral within the range of `T`, with an
/// optional `+` in front; otherwise the text is a bad response.
pub fn string_to_numerical_vec<T: Numerical>(str: &str) -> (data: Result<Vec<T>, ProtocolError>)
    ensures
        match numerical_vector::<T>(str@) {
            Ok(seq) => data is Ok && data.unwrap()@ == seq,
            Err(e) => data == Err::<Vec<T>, ProtocolError>(e),
        },
{
    let words = split_whitespace(str);
    match parse_words(&words, T::ceiling()) {
        None => Err(ProtocolError::BadResponse),
        Some(numbers) => {
            let ghost ns = naturals(numbers@);
            let mut out: Vec<T> = Vec::new();
            let mut i: usize = 0;
            while i < numbers.len()
                invariant
                    0 <= i <= numbers.len(),
                    ns == naturals(numbers@),
                    parse_all(tokens(str@), T::limit()) == Some(ns),
                    tokens(str@).len() == numbers.len(),
                    out.len() == i,
                    forall|j: int| 0 <= j < i ==> out@[j] == T::of(#[trigger] ns[j]),
                decreases numbers.len() - i,
            {
                assert(ns[i as int] == numbers@[i as int]);
                proof {
                    lemma_parse_all_index(tokens(str@), T::limit(), i as int);
                }
                out.push(T::narrow(numbers[i]));
                i += 1;
            }
            assert(out@ == numerical_vector::<T>(str@).unwrap());
            Ok(out)
        },
    }
}

/// Writes a list of numbers as decimal numerals with one space between
/// neighbours.
pub fn numerical_vec_to_string<T: Numerical>(data: &[T]) -> (s: String)
    ensures
        s@ == numbers_text(values_of(data@)),
{
    let mut numbers: Vec<u64> = Vec::new();
    let mut i: usize = 0;
    while i < data.len()
        invariant
            0 <= i <= data.len(),
            numbers.len() == i,
            forall|j: int| 0 <= j < i ==> #[trigger] numbers@[j] == data@[j].value(),
        decreases data.len() - i,
    {
        numbers.push(data[i].widen());
        i += 1;
    }
    assert(naturals(numbers@) == values_of(data@));
    numbers_to_string(&numbers)
}

/// Reads a list of colours from whitespace-separated decimal numbers, three
/// for each colour.
pub fn string_to_rgb_vec(str: &str) -> (data: Result<Vec<RGB>, ProtocolError>)
    ensures
        match rgb_vector(str@) {
            Ok(seq) => data is Ok && data.unwrap()@ == seq,
            Err(e) => data == Err::<Vec<RGB>, ProtocolError>(e),
        },
        tokens(str@).len() % 3 != 0 ==> data == Err::<Vec<RGB>, ProtocolError>(
            ProtocolError::MalformedVector,
        ),
{
    let words = split_whitespace(str);
    if words.len() % 3 != 0 {
        return Err(ProtocolError::MalformedVector);
    }
    match parse_words(&words, 255) {
        None => Err(ProtocolError::BadResponse),
        Some(numbers) => {
            let ghost ns = naturals(numbers@);
            let count: usize = numbers.len() / 3;
            let mut out: Vec<RGB> = Vec::new();
            let mut i: usize = 0;
            while i < count
                invariant
                    0 <= i <= count,
                    count == numbers.len() / 3,
                    ns == naturals(numbers@),
                    parse_all(tokens(str@), 255) == Some(ns),
                    tokens(str@).len() == numbers.len(),
                    out.len() == i,
                    forall|j: int| 0 <= j < i ==> #[trigger] out@[j] == rgb_groups(ns)[j],
                decreases count - i,
            {
                let r = numbers[3 * i];
                let g = numbers[3 * i + 1];
                let b = numbers[3 * i + 2];
                proof {
                    assert(ns[3 * i] == r);
                    assert(ns[3 * i + 1] == g);
                    assert(ns[3 * i + 2] == b);
                    lemma_parse_all_index(tokens(str@), 255, 3 * i);
                    lemma_parse_all_index(tokens(str@), 255, 3 * i + 1);
                    lemma_parse_all_index(tokens(str@), 255, 3 * i + 2);
                }
                out.push(RGB { r: r as u8, g: g as u8, b: b as u8 });
                i += 1;
            }
            assert(out@ == rgb_groups(ns));
            Ok(out)
        },
    }
}

/// Writes a list of colours as decimal numbers, three for each colour, with
/// one space between neighbours.
pub fn rgb_vec_to_string(data: &[RGB]) -> (s: String)
    ensures
        s@ == numbers_text(rgb_components(data@)),
{
    let mut numbers: Vec<u64> = Vec::new();
    let mut i: usize = 0;
    while i < data.len()
        invariant
            0 <= i <= data.len(),
            numbers.len() == 3 * i,
            forall|j: int| 0 <= j < 3 * i ==> #[trigger] numbers@[j] == rgb_components(data@)[j],
        decreases data.len() - i,
    {
        let c = data[i];
        numbers.push(c.r as u64);
        numbers.push(c.g as u64);
        numbers.push(c.b as u64);
        i += 1;
    }
    assert(naturals(numbers@) == rgb_components(data@));
    numbers_to_string(&numbers)
}

/// Reads a list of colours from whitespace-separated decimal numbers, four
/// for each colour.
pub fn string_to_rgbw_vec(str: &str) -> (data: Result<Vec<RGBW>, ProtocolError>)
    ensures
        match rgbw_vector(str@) {
            Ok(seq) => data is Ok && data.unwrap()@ == seq,
            Err(e) => data == Err::<Vec<RGBW>, ProtocolError>(e),
        },
        tokens(str@).len() % 4 != 0 ==> data == Err::<Vec<RGBW>, ProtocolError>(
            ProtocolError::MalformedVector,
        ),
{
    let words = split_whitespace(str);
    if words.len() % 4 != 0 {
        return Err(ProtocolError::MalformedVector);
    }
    match parse_words(&words, 255) {
        None => Err(ProtocolError::BadResponse),
        Some(numbers) => {
            let ghost ns = naturals(numbers@);
            let count: usize = numbers.len() / 4;
            let mut out: Vec<RGBW> = Vec::new();
            let mut i: usize = 0;
            while i < count
                invariant
                    0 <= i <= count,
                    count == numbers.len() / 4,
                    ns == naturals(numbers@),
                    parse_all(tokens(str@), 255) == Some(ns),
                    tokens(str@).len() == numbers.len(),
                    out.len() == i,
                    forall|j: int| 0 <= j < i ==> #[trigger] out@[j] == rgbw_groups(ns)[j],
                decreases count - i,
            {
                let r = numbers[4 * i];
                let g = numbers[4 * i + 1];
                let b = numbers[4 * i + 2];
                let w = numbers[4 * i + 3];
                proof {
                    assert(ns[4 * i] == r);
                    assert(ns[4 * i + 1] == g);
                    assert(ns[4 * i + 2] == b);
                    assert(ns[4 * i + 3] == w);
                    lemma_parse_all_index(tokens(str@), 255, 4 * i);
                    lemma_parse_all_index(tokens(str@), 255, 4 * i + 1);
                    lemma_parse_all_index(tokens(str@), 255, 4 * i + 2);
                    lemma_parse_all_index(tokens(str@), 255, 4 * i + 3);
                }
                out.push(RGBW { r: r as u8, g: g as u8, b: b as u8, w: w as u8 });
                i += 1;
            }
            assert(out@ == rgbw_groups(ns));
            Ok(out)
        },
    }
}

/// Writes a list of colours as decimal numbers, four for each colour, with
/// one space between neighbours.
pub fn rgbw_vec_to_string(data: &[RGBW]) -> (s: String)
    ensures
        s@ == numbers_text(rgbw_components(data@)),
{
    let mut numbers: Vec<u64> = Vec::new();
    let mut i: usize = 0;
    while i < data.len()
        invariant
            0 <= i <= data.len(),
            numbers.len() == 4 * i,
            forall|j: int| 0 <= j < 4 * i ==> #[trigger] numbers@[j] == rgbw_components(data@)[j],
        decreases data.len() - i,
    {
        let c = data[i];
        numbers.push(c.r as u64);
        numbers.push(c.g as u64);
        numbers.push(c.b as u64);
        numbers.push(c.w as u64);
        i += 1;
    }
    assert(naturals(numbers@) == rgbw_components(data@));
    numbers_to_string(&numbers)
}

/// A list of numbers that is written and read again is the same list,
/// where each number is within the range that the reader accepts.
pub proof fn lemma_numbers_round_trip(ns: Seq<nat>, max: nat)
    requires
        forall|i: int| 0 <= i < ns.len() ==> #[trigger] ns[i] <= max,
    ensures
        parse_all(tokens(numbers_text(ns)), max) == Some(ns),
{
    let words = numerals_of(ns);
    assert forall|i: int| 0 <= i < words.len() implies is_word(#[trigger] words[i]) by {
        lemma_decimal_denotes(ns[i]);
    }
    lemma_tokens_of_joined(words);
    assert forall|i: int| 0 <= i < words.len() implies (#[trigger] parse_decimal(words[i], max))
        == Some(ns[i]) by {
        lemma_decimal_denotes(ns[i]);
    }
    assert(Seq::new(words.len(), |i: int| parse_decimal(words[i], max).unwrap()) == ns);
}

/// A vector of numbers that `numerical_vec_to_string` writes and
/// `string_to_numerical_vec` reads again is the same vector.
pub proof fn lemma_numerical_vec_round_trip<T: Numerical>(data: Seq<T>)
    ensures
        numerical_vector::<T>(numbers_text(values_of(data))) == Ok::<Seq<T>, ProtocolError>(data),
{
    let ns = values_of(data);
    assert forall|i: int| 0 <= i < ns.len() implies #[trigger] ns[i] <= T::limit() by {
        T::lemma_value(data[i]);
    }
    lemma_numbers_round_trip(ns, T::limit());
    let back = Seq::new(ns.len(), |i: int| T::of(ns[i]));
    assert forall|i: int| 0 <= i < data.len() implies back[i] == data[i] by {
        T::lemma_value(data[i]);
    }
    assert(back == data);
}

/// A list of colours that `rgb_vec_to_string` writes and
/// `string_to_rgb_vec` reads again is the same list.
pub proof fn lemma_rgb_vec_round_trip(data: Seq<RGB>)
    ensures
        rgb_vector(numbers_text(rgb_components(data))) == Ok::<Seq<RGB>, ProtocolError>(data),
{
    let ns = rgb_components(data);
    lemma_numbers_round_trip(ns, 255);
    assert(rgb_groups(ns) == data);
}

/// A list of colours that `rgbw_vec_to_string` writes and
/// `string_to_rgbw_vec` reads again is the same list.
pub proof fn lemma_rgbw_vec_round_trip(data: Seq<RGBW>)
    ensures
        rgbw_vector(numbers_text(rgbw_components(data))) == Ok::<Seq<RGBW>, ProtocolError>(data),
{
    let ns = rgbw_components(data);
    lemma_numbers_round_trip(ns, 255);
    assert(rgbw_groups(ns) == data);
}

} // verus!
