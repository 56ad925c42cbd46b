use jdeduplix::classifier::TextClassifier;
use jdeduplix::distance::{
    damerau_score, levenshtein_score, phonetic_key, score_distance, soundex_score,
};
use jdeduplix::error::ErrorCode;
use jdeduplix::ngram::ngram_score;
use jdeduplix::score::{adapt_threshold, Score};
use jdeduplix::strategy::{DedupStrategySettings, FuzzyAlgorithm, SimilarityMethod};

fn chars(text: &str) -> Vec<char> {
    text.chars().collect()
}

fn classifier(method: SimilarityMethod) -> TextClassifier {
    let mut settings = DedupStrategySettings::default();
    settings.similarity_method = method;
    settings.min_length = 1;
    TextClassifier::new(settings)
}

fn in_library_methods() -> Vec<SimilarityMethod> {
    vec![
        SimilarityMethod::Exact,
        SimilarityMethod::Levenshtein,
        SimilarityMethod::Fuzzy(FuzzyAlgorithm::DamerauLevenshtein),
        SimilarityMethod::Fuzzy(FuzzyAlgorithm::Soundex),
        SimilarityMethod::Fuzzy(FuzzyAlgorithm::NGram),
    ]
}

#[test]
fn levenshtein_counts_single_edits() {
    assert_eq!(levenshtein_score("color", "colour"), Score { num: 5, den: 6 });
    assert_eq!(levenshtein_score("kitten", "sitting"), Score { num: 4, den: 7 });
    assert_eq!(levenshtein_score("abc", "abc"), Score { num: 3, den: 3 });
    assert_eq!(levenshtein_score("abc", "xyz"), Score { num: 0, den: 3 });
    assert_eq!(levenshtein_score("", "abc"), Score { num: 0, den: 3 });
}

#[test]
fn levenshtein_of_two_empty_texts_is_one() {
    assert_eq!(levenshtein_score("", ""), Score { num: 1, den: 1 });
    assert_eq!(damerau_score("", ""), Score { num: 1, den: 1 });
}

#[test]
fn levenshtein_works_on_bytes() {
    // "é" takes two bytes, so replacing it by "e" costs two edits of three bytes.
    assert_eq!(levenshtein_score("é", "e"), Score { num: 0, den: 2 });
    assert_eq!(levenshtein_score("né", "ne"), Score { num: 1, den: 3 });
}

#[test]
fn damerau_counts_a_transposition_once() {
    assert_eq!(damerau_score("ab", "ba"), Score { num: 1, den: 2 });
    assert_eq!(levenshtein_score("ab", "ba"), Score { num: 0, den: 2 });
    assert_eq!(damerau_score("martha", "marhta"), Score { num: 5, den: 6 });
    assert_eq!(damerau_score("ab", "bca"), Score { num: 1, den: 3 });
}

#[test]
fn distance_beyond_the_length_counts_as_the_length() {
    assert_eq!(score_distance(9, 2, 3), Score { num: 0, den: 3 });
    assert_eq!(score_distance(3, 2, 3), Score { num: 0, den: 3 });
    assert_eq!(score_distance(1, 2, 3), Score { num: 2, den: 3 });
    assert_eq!(score_distance(0, 0, 0), Score { num: 1, den: 1 });
}

#[test]
fn soundex_matches_names_that_sound_alike() {
    assert_eq!(phonetic_key("jumped"), "J513");
    assert_eq!(phonetic_key("Robert"), "R163");
    assert_eq!(soundex_score("Robert", "Rupert"), Score { num: 1, den: 1 });
    assert_eq!(soundex_score("Robert", "Rubin"), Score { num: 0, den: 1 });
}

#[test]
fn soundex_folds_diacritics_first() {
    assert_eq!(phonetic_key("Müller"), phonetic_key("Muller"));
    assert_eq!(soundex_score("José", "Jose"), Score { num: 1, den: 1 });
    assert_eq!(phonetic_key("Æsop"), phonetic_key("AEsop"));
}

#[test]
fn ngram_score_is_the_jaccard_index() {
    let a = chars("the quick brown fox");
    let b = chars("the quick brown dog");
    assert_eq!(ngram_score(&a, &b, 3), Score { num: 14, den: 20 });
    assert_eq!(ngram_score(&chars("abab"), &chars("baba"), 2), Score { num: 2, den: 2 });
    assert_eq!(ngram_score(&chars("aaaa"), &chars("aa"), 2), Score { num: 1, den: 1 });
    assert_eq!(ngram_score(&chars("abcd"), &chars("wxyz"), 2), Score { num: 0, den: 6 });
    assert_eq!(ngram_score(&chars("abc"), &chars("bcd"), 1), Score { num: 2, den: 4 });
}

#[test]
fn ngram_falls_back_to_equality_for_short_texts() {
    assert_eq!(ngram_score(&chars("ab"), &chars("ab"), 3), Score { num: 1, den: 1 });
    assert_eq!(ngram_score(&chars("ab"), &chars("abc"), 3), Score { num: 0, den: 1 });
    assert_eq!(ngram_score(&chars(""), &chars(""), 1), Score { num: 1, den: 1 });
    assert_eq!(ngram_score(&chars("abcdef"), &chars("ab"), 3), Score { num: 0, den: 1 });
}

#[test]
fn adaptive_threshold_moves_by_a_tenth() {
    assert_eq!(adapt_threshold(450_000, true, 2, 2), 550_000);
    assert_eq!(adapt_threshold(950_000, true, 2, 2), 1_000_000);
    assert_eq!(adapt_threshold(450_000, true, 300, 300), 350_000);
    assert_eq!(adapt_threshold(50_000, true, 300, 300), 0);
    assert_eq!(adapt_threshold(450_000, true, 100, 100), 450_000);
    assert_eq!(adapt_threshold(450_000, false, 2, 2), 450_000);
    // A mean of exactly 50 or exactly 200 leaves the threshold alone.
    assert_eq!(adapt_threshold(450_000, true, 50, 50), 450_000);
    assert_eq!(adapt_threshold(450_000, true, 49, 50), 550_000);
    assert_eq!(adapt_threshold(450_000, true, 200, 200), 450_000);
    assert_eq!(adapt_threshold(450_000, true, 200, 201), 350_000);
}

#[test]
fn score_meets_threshold_exactly() {
    let half = Score { num: 1, den: 2 };
    assert!(half.meets(500_000));
    assert!(!half.meets(500_001));
    assert!(Score { num: 5, den: 6 }.meets(800_000));
    assert!(!Score { num: 5, den: 6 }.meets(833_334));
    assert!(Score { num: 5, den: 6 }.meets(833_333));
    assert!(Score::zero().meets(0));
    assert!(Score::one().meets(1_000_000));
    assert!(Score { num: 2, den: 3 }.exceeds(&Score { num: 1, den: 2 }));
    assert!(!Score { num: 1, den: 2 }.exceeds(&Score { num: 2, den: 4 }));
}

#[test]
fn score_from_millionths_clamps() {
    assert_eq!(Score::from_millionths(250_000), Score { num: 250_000, den: 1_000_000 });
    assert_eq!(Score::from_millionths(2_000_000), Score { num: 1_000_000, den: 1_000_000 });
    assert_eq!(Score::indicator(true), Score::one());
    assert_eq!(Score::indicator(false), Score::zero());
    assert_eq!(Score::ratio(3, 4).numerator(), 3);
    assert_eq!(Score::ratio(3, 4).denominator(), 4);
    assert!(Score::ratio(4, 4).is_one());
}

#[test]
fn similarity_short_circuits_below_the_length_floor() {
    let mut settings = DedupStrategySettings::default();
    settings.min_length = 5;
    let classifier = TextClassifier::new(settings);
    assert_eq!(classifier.calculate_similarity("hi", "hi", None).unwrap(), Score::zero());
    assert_eq!(
        classifier.calculate_similarity("hello", "hi", None).unwrap(),
        Score::zero()
    );
    assert_eq!(
        classifier.calculate_similarity("hello", "hello", None).unwrap(),
        Score::one()
    );
    // The floor counts bytes of the text as given: "héé" has five.
    assert_eq!(
        classifier.calculate_similarity("héé", "héé", None).unwrap(),
        Score::one()
    );
}

#[test]
fn similarity_is_bounded() {
    let texts = ["", "a", "ab", "ba", "hello world", "Hello, World!", "héllo wörld", "help"];
    for method in in_library_methods() {
        let classifier = classifier(method);
        for a in texts {
            for b in texts {
                let score = classifier.calculate_similarity(a, b, None).unwrap();
                assert!(score.den > 0);
                assert!(score.num <= score.den);
            }
        }
    }
}

#[test]
fn similarity_is_symmetric() {
    let texts = ["", "a", "ab", "ba", "hello world", "Hello, World!", "héllo wörld", "help"];
    for method in in_library_methods() {
        let classifier = classifier(method);
        for a in texts {
            for b in texts {
                assert_eq!(
                    classifier.calculate_similarity(a, b, None).unwrap(),
                    classifier.calculate_similarity(b, a, None).unwrap()
                );
            }
        }
    }
}

#[test]
fn similarity_to_itself_is_greatest() {
    let texts = ["a", "ab", "ba", "hello world", "Hello, World!", "héllo wörld", "help"];
    for method in in_library_methods() {
        let classifier = classifier(method);
        for a in texts {
            let own = classifier.calculate_similarity(a, a, None).unwrap();
            assert_eq!(own.num, own.den);
            for b in texts {
                let cross = classifier.calculate_similarity(a, b, None).unwrap();
                assert!(
                    (own.num as u128) * (cross.den as u128)
                        >= (cross.num as u128) * (own.den as u128)
                );
            }
        }
    }
}

#[test]
fn similarity_compares_canonical_forms() {
    let exact = classifier(SimilarityMethod::Exact);
    assert_eq!(
        exact.calculate_similarity("Hello,   World!", "hello world", None).unwrap(),
        Score::one()
    );
    let levenshtein = classifier(SimilarityMethod::Levenshtein);
    assert_eq!(
        levenshtein.calculate_similarity("COLOR!", "colour", None).unwrap(),
        Score { num: 5, den: 6 }
    );
}

#[test]
fn semantic_language_gate_scores_zero() {
    let mut settings = DedupStrategySettings::default();
    settings.similarity_method = SimilarityMethod::Semantic;
    settings.language_detection = true;
    settings.min_length = 1;
    let classifier = TextClassifier::new(settings);
    let english = "The weather is lovely today and we are going for a long walk in the park.";
    let french = "Le temps est magnifique aujourd'hui et nous allons faire une longue promenade.";
    let outside = Some(Score::from_millionths(900_000));
    assert_eq!(
        classifier.calculate_similarity(english, french, outside).unwrap(),
        Score::zero()
    );
    assert_eq!(
        classifier.calculate_similarity(english, english, outside).unwrap(),
        Score { num: 900_000, den: 1_000_000 }
    );
    let mut ungated = settings;
    ungated.language_detection = false;
    let classifier = TextClassifier::new(ungated);
    assert_eq!(
        classifier.calculate_similarity(english, french, outside).unwrap(),
        Score { num: 900_000, den: 1_000_000 }
    );
}

#[test]
fn jaro_winkler_needs_an_outside_score() {
    let classifier = classifier(SimilarityMethod::Fuzzy(FuzzyAlgorithm::JaroWinkler));
    let error = classifier.calculate_similarity("martha", "marhta", None).unwrap_err();
    assert_eq!(error.code, ErrorCode::InternalError);
    let score = classifier
        .calculate_similarity("martha", "marhta", Some(Score::from_millionths(961_111)))
        .unwrap();
    assert_eq!(score, Score { num: 961_111, den: 1_000_000 });
}
