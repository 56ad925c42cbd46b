//! The normaliser: brings a text into its canonical form, step by step, as
//! the strategy asks.

use vstd::prelude::*;
use crate::config::DynamicConfig;
use crate::language::{choose_language, stem_of, stem_word, working_language, Language};
use crate::strategy::DedupStrategySettings;
use crate::text::{
    alphanumeric,
    char_is_ascii,
    char_is_ascii_punctuation,
    chars_of,
    is_ascii_char,
    is_ascii_punctuation,
    join_with_spaces,
    join_words,
    lemma_filter_keeps_property,
    lemma_filter_of_passing,
    lemma_filter_passes,
    lemma_words_are_words,
    lemma_words_of_joined,
    lowercase,
    split_words,
    string_of,
    views,
    words,
};

verus! {

/// The canonical decomposition (NFD) of a text, as `unicode-normalization`
/// computes it.
pub uninterp spec fn canonical_decomposition(text: Seq<char>) -> Seq<char>;

/// `UnicodeNormalization::nfd` yields the characters of the canonical
/// decomposition of a text; they are collected into a string. The result
/// depends on the text alone.
#[verifier::external_body]
fn decompose(text: &str) -> (decomposed: String)
    ensures
        decomposed@ == canonical_decomposition(text@),
{
    unicode_normalization::UnicodeNormalization::nfd(text).collect()
}

/// A text with single spaces between its words and none around them.
pub open spec fn collapsed(text: Seq<char>) -> Seq<char> {
    join_words(words(text))
}

/// A text without its ASCII punctuation.
pub open spec fn without_punctuation(text: Seq<char>) -> Seq<char> {
    text.filter(|c: char| !is_ascii_punctuation(c))
}

/// The characters of a text that are ASCII or alphanumeric.
pub open spec fn encodable(text: Seq<char>) -> Seq<char> {
    text.filter(|c: char| is_ascii_char(c) || alphanumeric(c))
}

/// The words of a list whose lowercase form is no stop word.
pub open spec fn content_words(list: Seq<Seq<char>>, stop_words: Seq<Seq<char>>) -> Seq<
    Seq<char>,
> {
    list.filter(|word: Seq<char>| !stop_words.contains(lowercase(word)))
}

/// A text without its stop words.
pub open spec fn without_stop_words(text: Seq<char>, stop_words: Seq<Seq<char>>) -> Seq<char> {
    join_words(content_words(words(text), stop_words))
}

/// The stems of the words of a list.
pub open spec fn stems(list: Seq<Seq<char>>, language: Language) -> Seq<Seq<char>> {
    list.map_values(|word: Seq<char>| stem_of(language, word))
}

/// A text with every word replaced by its stem.
pub open spec fn stemmed(text: Seq<char>, language: Language) -> Seq<char> {
    join_words(stems(words(text), language))
}

/// The first step: lowercase, unless the strategy is case sensitive.
pub open spec fn after_case(settings: DedupStrategySettings, text: Seq<char>) -> Seq<char> {
    if settings.case_sensitive {
        text
    } else {
        lowercase(text)
    }
}

/// The second step: whitespace collapsed.
pub open spec fn after_whitespace(settings: DedupStrategySettings, text: Seq<char>) -> Seq<char> {
    if settings.ignore_whitespace {
        collapsed(text)
    } else {
        text
    }
}

/// The third step: ASCII punctuation dropped.
pub open spec fn after_punctuation(settings: DedupStrategySettings, text: Seq<char>) -> Seq<char> {
    if settings.ignore_punctuation {
        without_punctuation(text)
    } else {
        text
    }
}

/// The fourth step: canonical decomposition.
pub open spec fn after_unicode(settings: DedupStrategySettings, text: Seq<char>) -> Seq<char> {
    if settings.normalize_unicode {
        canonical_decomposition(text)
    } else {
        text
    }
}

/// The fifth step: stop words dropped.
pub open spec fn after_stop_words(
    settings: DedupStrategySettings,
    stop_words: Seq<Seq<char>>,
    text: Seq<char>,
) -> Seq<char> {
    if settings.ignore_stopwords {
        without_stop_words(text, stop_words)
    } else {
        text
    }
}

/// The sixth step: words replaced by their stems.
pub open spec fn after_stemming(
    settings: DedupStrategySettings,
    language: Language,
    text: Seq<char>,
) -> Seq<char> {
    if settings.stemming {
        stemmed(text, language)
    } else {
        text
    }
}

/// The seventh step: only ASCII and alphanumeric characters kept.
pub open spec fn after_encoding(settings: DedupStrategySettings, text: Seq<char>) -> Seq<char> {
    if settings.encoding_normalization {
        encodable(text)
    } else {
        text
    }
}

/// The seven steps in their order: case folding, whitespace collapsing,
/// punctuation stripping, Unicode decomposition, stop-word removal, stemming
/// and encoding normalisation, each applied only where the strategy asks for
/// it.
pub open spec fn normalized(
    settings: DedupStrategySettings,
    stop_words: Seq<Seq<char>>,
    language: Language,
    text: Seq<char>,
) -> Seq<char> {
    after_encoding(
        settings,
        after_stemming(
            settings,
            language,
            after_stop_words(
                settings,
                stop_words,
                after_unicode(
                    settings,
                    after_punctuation(
                        settings,
                        after_whitespace(settings, after_case(settings, text)),
                    ),
                ),
            ),
        ),
    )
}

/// The canonical form of a text under a strategy and a configuration. The
/// language that selects stop words and stemmer is the one detected in the
/// text as it came in, or English.
pub open spec fn canonical_form(
    settings: DedupStrategySettings,
    config: DynamicConfig,
    text: Seq<char>,
) -> Seq<char> {
    let language = working_language(text, settings.language_detection);
    normalized(settings, config.merged_stop_words(language), language, text)
}

/// Collapsing whitespace twice is the same as collapsing it once.
pub proof fn lemma_collapsed_idempotent(text: Seq<char>)
    ensures
        collapsed(collapsed(text)) == collapsed(text),
{
    lemma_words_are_words(text);
    lemma_words_of_joined(words(text));
}

/// Stripping punctuation twice is the same as stripping it once.
pub proof fn lemma_without_punctuation_idempotent(text: Seq<char>)
    ensures
        without_punctuation(without_punctuation(text)) == without_punctuation(text),
{
    let keep = |c: char| !is_ascii_punctuation(c);
    lemma_filter_passes(text, keep);
    lemma_filter_of_passing(text.filter(keep), keep);
}

/// Encoding normalisation twice is the same as once.
pub proof fn lemma_encodable_idempotent(text: Seq<char>)
    ensures
        encodable(encodable(text)) == encodable(text),
{
    let keep = |c: char| is_ascii_char(c) || alphanumeric(c);
    lemma_filter_passes(text, keep);
    lemma_filter_of_passing(text.filter(keep), keep);
}

/// The strategies under which normalising is idempotent on every text: the
/// steps that rest on Unicode tables, stop words or a stemmer are off, and
/// whitespace collapsing is not combined with a step that removes characters,
/// which could bring two spaces together or leave one at an end.
pub open spec fn steps_compose(settings: DedupStrategySettings) -> bool {
    &&& settings.case_sensitive
    &&& !settings.normalize_unicode
    &&& !settings.ignore_stopwords
    &&& !settings.stemming
    &&& !(settings.ignore_whitespace && (settings.ignore_punctuation
        || settings.encoding_normalization))
}

/// Normalising a canonical form gives it back unchanged, under a strategy
/// whose steps compose.
pub proof fn lemma_normalize_idempotent(
    settings: DedupStrategySettings,
    config: DynamicConfig,
    text: Seq<char>,
)
    requires
        steps_compose(settings),
    ensures
        canonical_form(settings, config, canonical_form(settings, config, text))
            == canonical_form(settings, config, text),
{
    let once = canonical_form(settings, config, text);
    if settings.ignore_whitespace {
        lemma_collapsed_idempotent(text);
    } else {
        let plain = |c: char| !is_ascii_punctuation(c);
        let fits = |c: char| is_ascii_char(c) || alphanumeric(c);
        let stripped = after_punctuation(settings, text);
        lemma_without_punctuation_idempotent(text);
        lemma_encodable_idempotent(stripped);
        if settings.ignore_punctuation && settings.encoding_normalization {
            lemma_filter_passes(text, plain);
            lemma_filter_keeps_property(text.filter(plain), fits, plain);
            lemma_filter_of_passing(once, plain);
        }
    }
}

/// A canonical form that none of the enabled steps changes is its own
/// canonical form.
pub proof fn lemma_normalize_fixed_point(
    settings: DedupStrategySettings,
    config: DynamicConfig,
    text: Seq<char>,
)
    requires
        ({
            let once = canonical_form(settings, config, text);
            let language = working_language(once, settings.language_detection);
            &&& after_case(settings, once) == once
            &&& after_whitespace(settings, once) == once
            &&& after_punctuation(settings, once) == once
            &&& after_unicode(settings, once) == once
            &&& after_stop_words(settings, config.merged_stop_words(language), once) == once
            &&& after_stemming(settings, language, once) == once
            &&& after_encoding(settings, once) == once
        }),
    ensures
        canonical_form(settings, config, canonical_form(settings, config, text))
            == canonical_form(settings, config, text),
{
}

/// Collapses every run of ASCII whitespace into one space and drops the
/// whitespace at both ends.
pub fn collapse_whitespace(text: &Vec<char>) -> (out: Vec<char>)
    ensures
        out@ == collapsed(text@),
{
    let list = split_words(text);
    join_with_spaces(&list)
}

/// Drops the ASCII punctuation of a text.
pub fn strip_punctuation(text: &Vec<char>) -> (out: Vec<char>)
    ensures
        out@ == without_punctuation(text@),
{
    let mut out: Vec<char> = Vec::new();
    let mut i: usize = 0;
    assert(text@.take(0) =~= Seq::<char>::empty());
    while i < text.len()
        invariant
            i <= text.len(),
            out@ == without_punctuation(text@.take(i as int)),
        decreases text.len() - i,
    {
        proof {
            assert(text@.take(i + 1).drop_last() =~= text@.take(i as int));
            reveal(Seq::filter);
        }
        if !char_is_ascii_punctuation(text[i]) {
            out.push(text[i]);
        }
        i += 1;
    }
    assert(text@.take(text.len() as int) =~= text@);
    out
}

/// Keeps the characters that are ASCII or alphanumeric.
pub fn keep_encodable(text: &Vec<char>) -> (out: Vec<char>)
    ensures
        out@ == encodable(text@),
{
    let mut out: Vec<char> = Vec::new();
    let mut i: usize = 0;
    assert(text@.take(0) =~= Seq::<char>::empty());
    while i < text.len()
        invariant
            i <= text.len(),
            out@ == encodable(text@.take(i as int)),
        decreases text.len() - i,
    {
        proof {
            assert(text@.take(i + 1).drop_last() =~= text@.take(i as int));
            reveal(Seq::filter);
        }
        let c = text[i];
        if char_is_ascii(c) || c.is_alphanumeric() {
            out.push(c);
        }
        i += 1;
    }
    assert(text@.take(text.len() as int) =~= text@);
    out
}

/// Drops the words whose lowercase form is a stop word of the language.
pub fn remove_stop_words(text: &Vec<char>, config: &DynamicConfig, language: Language) -> (out:
    Vec<char>)
    ensures
        out@ == without_stop_words(text@, config.merged_stop_words(language)),
{
    let list = split_words(text);
    let ghost stop_words = config.merged_stop_words(language);
    let ghost source = views(list@);
    let mut kept: Vec<Vec<char>> = Vec::new();
    let mut i: usize = 0;
    assert(source.take(0) =~= Seq::<Seq<char>>::empty());
    assert(views(kept@) =~= content_words(source.take(0), stop_words));
    while i < list.len()
        invariant
            i <= list.len(),
            source == views(list@),
            stop_words == config.merged_stop_words(language),
            views(kept@) == content_words(source.take(i as int), stop_words),
        decreases list.len() - i,
    {
        proof {
            assert(source.take(i + 1).drop_last() =~= source.take(i as int));
            assert(source.take(i + 1).last() == list@[i as int]@);
            reveal(Seq::filter);
        }
        let word = string_of(&list[i]);
        let lowered = word.as_str().to_lowercase();
        if !config.is_stop_word(language, lowered.as_str()) {
            let copy = list[i].clone();
            proof {
                assert(copy@ =~= list@[i as int]@);
                assert(views(kept@.push(copy)) =~= views(kept@).push(copy@));
            }
            kept.push(copy);
        }
        i += 1;
    }
    assert(source.take(list.len() as int) =~= source);
    join_with_spaces(&kept)
}

/// Replaces every word by its stem.
pub fn stem_words(text: &Vec<char>, language: Language) -> (out: Vec<char>)
    ensures
        out@ == stemmed(text@, language),
{
    let list = split_words(text);
    let ghost source = views(list@);
    let mut mapped: Vec<Vec<char>> = Vec::new();
    let mut i: usize = 0;
    while i < list.len()
        invariant
            i <= list.len(),
            source == views(list@),
            mapped.len() == i,
            forall|k: int| 0 <= k < i ==> (#[trigger] mapped@[k])@ == stem_of(language, source[k]),
        decreases list.len() - i,
    {
        let word = string_of(&list[i]);
        let stem = stem_word(language, word.as_str());
        mapped.push(chars_of(stem.as_str()));
        i += 1;
    }
    assert(views(mapped@) =~= stems(source, language));
    join_with_spaces(&mapped)
}

/// Brings a text into canonical form.
pub fn normalize(settings: &DedupStrategySettings, config: &DynamicConfig, text: &str) -> (out:
    String)
    ensures
        out@ == canonical_form(*settings, *config, text@),
{
    let language = choose_language(text, settings.language_detection);
    let cased: String = if settings.case_sensitive {
        text.to_owned()
    } else {
        text.to_lowercase()
    };
    let mut current: Vec<char> = chars_of(cased.as_str());
    if settings.ignore_whitespace {
        current = collapse_whitespace(&current);
    }
    if settings.ignore_punctuation {
        current = strip_punctuation(&current);
    }
    if settings.normalize_unicode {
        let composed = string_of(&current);
        let decomposed = decompose(composed.as_str());
        current = chars_of(decomposed.as_str());
    }
    if settings.ignore_stopwords {
        current = remove_stop_words(&current, config, language);
    }
    if settings.stemming {
        current = stem_words(&current, language);
    }
    if settings.encoding_normalization {
        current = keep_encodable(&current);
    }
    string_of(&current)
}

} // verus!
