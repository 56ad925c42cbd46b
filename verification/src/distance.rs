//! Edit distances and phonetic codes.

use vstd::prelude::*;
use crate::score::Score;
use crate::text::{byte_len, byte_length, is_ascii_char, same_text};

verus! {

/// The longest canonical text, in bytes, that the edit distance accepts.
pub const MAX_TEXT_BYTES: usize = 0x7fff_ffff;

/// The least of three numbers.
pub open spec fn min3(a: nat, b: nat, c: nat) -> nat {
    if a <= b && a <= c {
        a
    } else if b <= c {
        b
    } else {
        c
    }
}

/// The Levenshtein distance of two byte strings: the least number of
/// insertions, deletions and substitutions of single bytes that turns one
/// into the other.
pub open spec fn edit_distance(a: Seq<u8>, b: Seq<u8>) -> nat
    decreases a.len() + b.len(),
{
    if a.len() == 0 {
        b.len()
    } else if b.len() == 0 {
        a.len()
    } else {
        let substituted = edit_distance(a.drop_last(), b.drop_last()) + if a.last() == b.last() {
            0nat
        } else {
            1nat
        };
        let deleted = edit_distance(a.drop_last(), b) + 1;
        let inserted = edit_distance(a, b.drop_last()) + 1;
        min3(substituted, deleted, inserted)
    }
}

/// A string is at distance zero from itself.
pub proof fn lemma_edit_distance_identity(a: Seq<u8>)
    ensures
        edit_distance(a, a) == 0,
    decreases a.len(),
{
    if a.len() > 0 {
        lemma_edit_distance_identity(a.drop_last());
    }
}

/// The distance does not depend on the order of the two strings.
pub proof fn lemma_edit_distance_symmetric(a: Seq<u8>, b: Seq<u8>)
    ensures
        edit_distance(a, b) == edit_distance(b, a),
    decreases a.len() + b.len(),
{
    if a.len() > 0 && b.len() > 0 {
        lemma_edit_distance_symmetric(a.drop_last(), b.drop_last());
        lemma_edit_distance_symmetric(a.drop_last(), b);
        lemma_edit_distance_symmetric(a, b.drop_last());
    }
}

/// The distance is at most the length of the longer string.
pub proof fn lemma_edit_distance_bound(a: Seq<u8>, b: Seq<u8>)
    ensures
        edit_distance(a, b) <= a.len() || edit_distance(a, b) <= b.len(),
    decreases a.len() + b.len(),
{
    if a.len() > 0 && b.len() > 0 {
        lemma_edit_distance_bound(a.drop_last(), b.drop_last());
    }
}

/// `triple_accel::levenshtein::levenshtein` returns the Levenshtein distance
/// of two byte slices. Its length arithmetic is done in 32 bits, so neither
/// slice may be longer than `MAX_TEXT_BYTES`.
#[verifier::external_body]
fn byte_edit_distance(a: &[u8], b: &[u8]) -> (distance: u32)
    requires
        a@.len() <= MAX_TEXT_BYTES,
        b@.len() <= MAX_TEXT_BYTES,
    ensures
        distance == edit_distance(a@, b@),
{
    triple_accel::levenshtein::levenshtein(a, b)
}

/// The longer of two lengths.
pub open spec fn longer(a: nat, b: nat) -> nat {
    if a >= b {
        a
    } else {
        b
    }
}

/// One minus the distance over the greater length; one where both lengths
/// are zero. A distance beyond the greater length counts as that length.
pub open spec fn distance_score(distance: nat, len_a: nat, len_b: nat) -> Score {
    let longest = longer(len_a, len_b);
    if longest == 0 {
        Score::spec_one()
    } else if distance >= longest {
        Score::spec_ratio(0, longest)
    } else {
        Score::spec_ratio((longest - distance) as nat, longest)
    }
}

/// Turns a distance into a score.
pub fn score_distance(distance: usize, len_a: usize, len_b: usize) -> (score: Score)
    ensures
        score == distance_score(distance as nat, len_a as nat, len_b as nat),
        score.wf(),
{
    let longest: usize = if len_a >= len_b {
        len_a
    } else {
        len_b
    };
    if longest == 0 {
        Score::one()
    } else if distance >= longest {
        Score::ratio(0, longest)
    } else {
        Score::ratio(longest - distance, longest)
    }
}

/// The Levenshtein score of two texts, taken over their bytes.
pub open spec fn levenshtein_similarity(a: Seq<char>, b: Seq<char>) -> Score {
    let x = vstd::utf8::encode_utf8(a);
    let y = vstd::utf8::encode_utf8(b);
    distance_score(edit_distance(x, y), x.len(), y.len())
}

/// Scores two texts by the Levenshtein distance of their bytes.
pub fn levenshtein_score(a: &str, b: &str) -> (score: Score)
    requires
        byte_len(a@) <= MAX_TEXT_BYTES,
        byte_len(b@) <= MAX_TEXT_BYTES,
    ensures
        score == levenshtein_similarity(a@, b@),
        score.wf(),
{
    let distance: u32 = byte_edit_distance(a.as_bytes(), b.as_bytes());
    score_distance(distance as usize, byte_length(a), byte_length(b))
}

/// The Damerau-Levenshtein distance of two texts, which counts the exchange
/// of two adjacent characters as one edit, as `strsim` computes it.
pub uninterp spec fn transposition_distance(a: Seq<char>, b: Seq<char>) -> nat;

/// `strsim::damerau_levenshtein` returns the Damerau-Levenshtein distance of
/// two strings, counted in characters. The distance depends on the two
/// strings alone.
#[verifier::external_body]
fn char_transposition_distance(a: &str, b: &str) -> (distance: usize)
    ensures
        distance == transposition_distance(a@, b@),
{
    strsim::damerau_levenshtein(a, b)
}

/// The Damerau-Levenshtein score of two texts: one for equal texts, else
/// one minus the distance in characters over the greater length in bytes.
pub open spec fn damerau_similarity(a: Seq<char>, b: Seq<char>) -> Score {
    if a == b {
        Score::spec_one()
    } else {
        distance_score(transposition_distance(a, b), byte_len(a), byte_len(b))
    }
}

/// Scores two texts by their Damerau-Levenshtein distance.
pub fn damerau_score(a: &str, b: &str) -> (score: Score)
    ensures
        score == damerau_similarity(a@, b@),
        score.wf(),
{
    if same_text(a, b) {
        return Score::one();
    }
    let distance: usize = char_transposition_distance(a, b);
    score_distance(distance, byte_length(a), byte_length(b))
}

/// The ASCII transliteration of a text, as `deunicode` gives it.
pub uninterp spec fn ascii_fold(text: Seq<char>) -> Seq<char>;

/// `deunicode::deunicode` transliterates a text to ASCII; its documentation
/// guarantees that every character of the result is an ASCII character. The
/// result depends on the text alone.
#[verifier::external_body]
fn fold_to_ascii(text: &str) -> (folded: String)
    ensures
        folded@ == ascii_fold(text@),
        forall|k: int| 0 <= k < folded@.len() ==> is_ascii_char(#[trigger] folded@[k]),
{
    deunicode::deunicode(text)
}

/// The Soundex code of an ASCII text, as `rphonetic` computes it with the
/// default mapping.
pub uninterp spec fn soundex_code(text: Seq<char>) -> Seq<char>;

/// `rphonetic::Soundex::encode` with the default US English mapping keeps the
/// letters of a text, maps them to a code of up to four characters and
/// returns it. It looks every letter up in a table of the 26 ASCII letters,
/// so the text must be ASCII.
#[verifier::external_body]
fn encode_soundex(text: &str) -> (code: String)
    requires
        forall|k: int| 0 <= k < text@.len() ==> is_ascii_char(#[trigger] text@[k]),
    ensures
        code@ == soundex_code(text@),
{
    rphonetic::Encoder::encode(&rphonetic::Soundex::default(), text)
}

/// The phonetic code of a text: the Soundex code of its transliteration.
pub open spec fn phonetic_code(text: Seq<char>) -> Seq<char> {
    soundex_code(ascii_fold(text))
}

/// Computes the phonetic code of a text.
pub fn phonetic_key(text: &str) -> (code: String)
    ensures
        code@ == phonetic_code(text@),
{
    let folded = fold_to_ascii(text);
    encode_soundex(folded.as_str())
}

/// One where two texts have the same phonetic code, zero otherwise.
pub open spec fn soundex_similarity(a: Seq<char>, b: Seq<char>) -> Score {
    if phonetic_code(a) == phonetic_code(b) {
        Score::spec_one()
    } else {
        Score::spec_zero()
    }
}

/// Scores two texts by their phonetic codes.
pub fn soundex_score(a: &str, b: &str) -> (score: Score)
    ensures
        score == soundex_similarity(a@, b@),
        score.wf(),
{
    let left = phonetic_key(a);
    let right = phonetic_key(b);
    Score::indicator(left == right)
}

} // verus!
