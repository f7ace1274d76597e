//! LED colours.

use crate::error::ProtocolError;
use crate::text::{parse_decimal, parse_number, split_whitespace, tokens, words_of};
use vstd::prelude::*;

verus! {

/// The LED RGB color.
#[derive(Debug, Copy, Clone, PartialEq, Eq, Structural)]
pub struct RGB {
    /// Red component of the color.
    pub r: u8,
    /// Green component of the color.
    pub g: u8,
    /// Blue component of the color.
    pub b: u8,
}

/// The LED RGBW color.
#[derive(Debug, Copy, Clone, PartialEq, Eq, Structural)]
pub struct RGBW {
    /// Red component of the color.
    pub r: u8,
    /// Green component of the color.
    pub g: u8,
    /// Blue component of the color.
    pub b: u8,
    /// White component of the color.
    pub w: u8,
}

/// The numbers that the words denote, where each of them denotes one that is
/// at most `max`.
pub open spec fn parse_all(words: Seq<Seq<char>>, max: nat) -> Option<Seq<nat>> {
    if forall|i: int| 0 <= i < words.len() ==> (#[trigger] parse_decimal(words[i], max)) is Some {
        Some(Seq::new(words.len(), |i: int| parse_decimal(words[i], max).unwrap()))
    } else {
        None
    }
}

/// Where all the words are numbers, each number is what its word denotes.
pub proof fn lemma_parse_all_index(words: Seq<Seq<char>>, max: nat, i: int)
    requires
        parse_all(words, max) is Some,
        0 <= i < words.len(),
    ensures
        parse_all(words, max).unwrap().len() == words.len(),
        parse_decimal(words[i], max) == Some(parse_all(words, max).unwrap()[i]),
        parse_all(words, max).unwrap()[i] <= max,
{
    assert(parse_decimal(words[i], max) is Some);
}

/// The numbers held by a vector, as natural numbers.
pub open spec fn naturals(v: Seq<u64>) -> Seq<nat> {
    Seq::new(v.len(), |i: int| v[i] as nat)
}

/// Reads every word as a number that is at most `max`.
pub fn parse_words(words: &Vec<Vec<char>>, max: u64) -> (numbers: Option<Vec<u64>>)
    ensures
        match parse_all(words_of(words@), max as nat) {
            Some(ns) => numbers is Some && naturals(numbers.unwrap()@) == ns,
            None => numbers is None,
        },
{
    let mut out: Vec<u64> = Vec::new();
    let mut i: usize = 0;
    while i < words.len()
        invariant
            0 <= i <= words.len(),
            out.len() == i,
            forall|j: int|
                0 <= j < i ==> (#[trigger] parse_decimal(words_of(words@)[j], max as nat)) == Some(
                    out@[j] as nat,
                ),
        decreases words.len() - i,
    {
        assert(words_of(words@)[i as int] == words@[i as int]@);
        match parse_number(&words[i], max) {
            Some(n) => {
                out.push(n);
            },
            None => {
                return None;
            },
        }
        i += 1;
    }
    assert(naturals(out@) == parse_all(words_of(words@), max as nat).unwrap());
    Some(out)
}

/// The colour that the text denotes: three numbers of at most 255 each,
/// separated by whitespace.
pub open spec fn rgb_of_text(s: Seq<char>) -> Result<RGB, ProtocolError> {
    match parse_all(tokens(s), 255) {
        None => Err(ProtocolError::BadResponse),
        Some(ns) => if ns.len() == 3 {
            Ok(RGB { r: ns[0] as u8, g: ns[1] as u8, b: ns[2] as u8 })
        } else {
            Err(ProtocolError::MalformedVector)
        },
    }
}

/// The colour that the text denotes: four numbers of at most 255 each,
/// separated by whitespace.
pub open spec fn rgbw_of_text(s: Seq<char>) -> Result<RGBW, ProtocolError> {
    match parse_all(tokens(s), 255) {
        None => Err(ProtocolError::BadResponse),
        Some(ns) => if ns.len() == 4 {
            Ok(RGBW { r: ns[0] as u8, g: ns[1] as u8, b: ns[2] as u8, w: ns[3] as u8 })
        } else {
            Err(ProtocolError::MalformedVector)
        },
    }
}

impl RGB {
    /// Reads a colour from three whitespace-separated numbers. A word that is
    /// no number of at most 255 gives `BadResponse`; any other count of
    /// numbers than three gives `MalformedVector`.
    pub fn from_str(s: &str) -> (color: Result<RGB, ProtocolError>)
        ensures
            color == rgb_of_text(s@),
    {
        let words = split_whitespace(s);
        match parse_words(&words, 255) {
            None => Err(ProtocolError::BadResponse),
            Some(parts) => {
                if parts.len() == 3 {
                    assert(naturals(parts@)[0] == parts[0]);
                    assert(naturals(parts@)[1] == parts[1]);
                    assert(naturals(parts@)[2] == parts[2]);
                    Ok(RGB { r: parts[0] as u8, g: parts[1] as u8, b: parts[2] as u8 })
                } else {
                    Err(ProtocolError::MalformedVector)
                }
            },
        }
    }
}

impl RGBW {
    /// Reads a colour from four whitespace-separated numbers. A word that is
    /// no number of at most 255 gives `BadResponse`; any other count of
    /// numbers than four gives `MalformedVector`.
    pub fn from_str(s: &str) -> (color: Result<RGBW, ProtocolError>)
        ensures
            color == rgbw_of_text(s@),
    {
        let words = split_whitespace(s);
        match parse_words(&words, 255) {
            None => Err(ProtocolError::BadResponse),
            Some(parts) => {
                if parts.len() == 4 {
                    assert(naturals(parts@)[0] == parts[0]);
                    assert(naturals(parts@)[1] == parts[1]);
                    assert(naturals(parts@)[2] == parts[2]);
                    assert(naturals(parts@)[3] == parts[3]);
                    Ok(
                        RGBW {
                            r: parts[0] as u8,
                            g: parts[1] as u8,
                            b: parts[2] as u8,
                            w: parts[3] as u8,
                        },
                    )
                } else {
                    Err(ProtocolError::MalformedVector)
                }
            },
        }
    }
}

} // verus!
