//! Named strategies for common kinds of deduplication. Presets are data: a
//! caller picks one and hands its settings to the engine.

use vstd::prelude::*;
use crate::state::DedupStrategyPreset;
use crate::strategy::{ComparisonScope, DedupStrategySettings, SimilarityMethod, SplitStrategy};

verus! {

/// The number of presets.
pub const PRESET_COUNT: usize = 6;

/// The name of the preset at a position.
pub open spec fn preset_name(at: int) -> Seq<char> {
    if at == 0 {
        "Exact Match"@
    } else if at == 1 {
        "Near Match"@
    } else if at == 2 {
        "Fuzzy Match"@
    } else if at == 3 {
        "Similar Ideas"@
    } else if at == 4 {
        "Strict Large Blocks"@
    } else {
        "Loose Paragraph Matching"@
    }
}

/// What the preset at a position is meant for.
pub open spec fn preset_description(at: int) -> Seq<char> {
    if at == 0 {
        "Find identical text, including spacing and punctuation"@
    } else if at == 1 {
        "Find text with minor formatting differences"@
    } else if at == 2 {
        "Find text with typos and small variations"@
    } else if at == 3 {
        "Find text expressing similar concepts"@
    } else if at == 4 {
        "Looks for large duplicated character sequences (useful for code or logs)"@
    } else {
        "Groups paragraphs that share a high-level similarity or partial overlap"@
    }
}

/// The settings of the preset at a position.
pub open spec fn preset_settings(at: int) -> DedupStrategySettings {
    if at == 0 {
        DedupStrategySettings {
            case_sensitive: false,
            ignore_whitespace: true,
            ignore_punctuation: false,
            normalize_unicode: false,
            ignore_stopwords: false,
            stemming: false,
            encoding_normalization: true,
            language_detection: false,
            split_strategy: SplitStrategy::Words,
            comparison_scope: ComparisonScope::Global,
            min_length: 10,
            ngram_size: 3,
            similarity_method: SimilarityMethod::Exact,
            similarity_threshold: 950_000,
            adaptive_thresholding: false,
            use_parallel: true,
        }
    } else if at == 1 {
        DedupStrategySettings {
            case_sensitive: false,
            ignore_whitespace: true,
            ignore_punctuation: true,
            normalize_unicode: true,
            ignore_stopwords: true,
            stemming: false,
            encoding_normalization: true,
            language_detection: false,
            split_strategy: SplitStrategy::Words,
            comparison_scope: ComparisonScope::Global,
            min_length: 10,
            ngram_size: 3,
            similarity_method: SimilarityMethod::Levenshtein,
            similarity_threshold: 800_000,
            adaptive_thresholding: true,
            use_parallel: true,
        }
    } else if at == 2 {
        DedupStrategySettings {
            case_sensitive: false,
            ignore_whitespace: true,
            ignore_punctuation: true,
            normalize_unicode: true,
            ignore_stopwords: true,
            stemming: true,
            encoding_normalization: true,
            language_detection: true,
            split_strategy: SplitStrategy::Sentences,
            comparison_scope: ComparisonScope::Global,
            min_length: 5,
            ngram_size: 2,
            similarity_method: SimilarityMethod::Levenshtein,
            similarity_threshold: 700_000,
            adaptive_thresholding: true,
            use_parallel: true,
        }
    } else if at == 3 {
        DedupStrategySettings {
            case_sensitive: false,
            ignore_whitespace: true,
            ignore_punctuation: true,
            normalize_unicode: true,
            ignore_stopwords: true,
            stemming: true,
            encoding_normalization: true,
            language_detection: true,
            split_strategy: SplitStrategy::Paragraphs,
            comparison_scope: ComparisonScope::Global,
            min_length: 20,
            ngram_size: 3,
            similarity_method: SimilarityMethod::Semantic,
            similarity_threshold: 600_000,
            adaptive_thresholding: true,
            use_parallel: true,
        }
    } else if at == 4 {
        DedupStrategySettings {
            case_sensitive: true,
            ignore_whitespace: false,
            ignore_punctuation: false,
            normalize_unicode: false,
            ignore_stopwords: false,
            stemming: false,
            encoding_normalization: false,
            language_detection: false,
            split_strategy: SplitStrategy::Characters,
            comparison_scope: ComparisonScope::Global,
            min_length: 50,
            ngram_size: 5,
            similarity_method: SimilarityMethod::Exact,
            similarity_threshold: 900_000,
            adaptive_thresholding: false,
            use_parallel: true,
        }
    } else {
        DedupStrategySettings {
            case_sensitive: false,
            ignore_whitespace: true,
            ignore_punctuation: true,
            normalize_unicode: true,
            ignore_stopwords: true,
            stemming: true,
            encoding_normalization: true,
            language_detection: true,
            split_strategy: SplitStrategy::Paragraphs,
            comparison_scope: ComparisonScope::Global,
            min_length: 20,
            ngram_size: 2,
            similarity_method: SimilarityMethod::Semantic,
            similarity_threshold: 650_000,
            adaptive_thresholding: true,
            use_parallel: true,
        }
    }
}

fn preset(
    name: &str,
    description: &str,
    flags: (bool, bool, bool, bool, bool, bool, bool, bool, bool),
    split_strategy: SplitStrategy,
    sizes: (usize, usize),
    similarity_method: SimilarityMethod,
    similarity_threshold: u32,
) -> (made: DedupStrategyPreset)
    ensures
        made.name@ == name@,
        made.description@ == description@,
        made.settings == (DedupStrategySettings {
            case_sensitive: flags.0,
            ignore_whitespace: flags.1,
            ignore_punctuation: flags.2,
            normalize_unicode: flags.3,
            ignore_stopwords: flags.4,
            stemming: flags.5,
            encoding_normalization: flags.6,
            language_detection: flags.7,
            split_strategy,
            comparison_scope: ComparisonScope::Global,
            min_length: sizes.0,
            ngram_size: sizes.1,
            similarity_method,
            similarity_threshold,
            adaptive_thresholding: flags.8,
            use_parallel: true,
        }),
{
    DedupStrategyPreset {
        name: name.to_owned(),
        description: description.to_owned(),
        settings: DedupStrategySettings {
            case_sensitive: flags.0,
            ignore_whitespace: flags.1,
            ignore_punctuation: flags.2,
            normalize_unicode: flags.3,
            ignore_stopwords: flags.4,
            stemming: flags.5,
            encoding_normalization: flags.6,
            language_detection: flags.7,
            split_strategy,
            comparison_scope: ComparisonScope::Global,
            min_length: sizes.0,
            ngram_size: sizes.1,
            similarity_method,
            similarity_threshold,
            adaptive_thresholding: flags.8,
            use_parallel: true,
        },
    }
}

/// The presets, in a fixed order.
pub fn presets() -> (list: Vec<DedupStrategyPreset>)
    ensures
        list@.len() == PRESET_COUNT,
        forall|at: int|
            0 <= at < PRESET_COUNT ==> {
                &&& (#[trigger] list@[at]).name@ == preset_name(at)
                &&& list@[at].description@ == preset_description(at)
                &&& list@[at].settings == preset_settings(at)
                &&& list@[at].settings.wf()
            },
{
    let mut list: Vec<DedupStrategyPreset> = Vec::new();
    list.push(
        preset(
            "Exact Match",
            "Find identical text, including spacing and punctuation",
            (false, true, false, false, false, false, true, false, false),
            SplitStrategy::Words,
            (10, 3),
            SimilarityMethod::Exact,
            950_000,
        ),
    );
    list.push(
        preset(
            "Near Match",
            "Find text with minor formatting differences",
            (false, true, true, true, true, false, true, false, true),
            SplitStrategy::Words,
            (10, 3),
            SimilarityMethod::Levenshtein,
            800_000,
        ),
    );
    list.push(
        preset(
            "Fuzzy Match",
            "Find text with typos and small variations",
            (false, true, true, true, true, true, true, true, true),
            SplitStrategy::Sentences,
            (5, 2),
            SimilarityMethod::Levenshtein,
            700_000,
        ),
    );
    list.push(
        preset(
            "Similar Ideas",
            "Find text expressing similar concepts",
            (false, true, true, true, true, true, true, true, true),
            SplitStrategy::Paragraphs,
            (20, 3),
            SimilarityMethod::Semantic,
            600_000,
        ),
    );
    list.push(
        preset(
            "Strict Large Blocks",
            "Looks for large duplicated character sequences (useful for code or logs)",
            (true, false, false, false, false, false, false, false, false),
            SplitStrategy::Characters,
            (50, 5),
            SimilarityMethod::Exact,
            900_000,
        ),
    );
    list.push(
        preset(
            "Loose Paragraph Matching",
            "Groups paragraphs that share a high-level similarity or partial overlap",
            (false, true, true, true, true, true, true, true, true),
            SplitStrategy::Paragraphs,
            (20, 2),
            SimilarityMethod::Semantic,
            650_000,
        ),
    );
    list
}

} // verus!
