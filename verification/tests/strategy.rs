use jdeduplix::error::{AppError, ErrorCode};
use jdeduplix::presets::{presets, PRESET_COUNT};
use jdeduplix::state::DedupManager;
use jdeduplix::strategy::{
    canonicalise, repair, ComparisonScope, DedupStrategySettings, FuzzyAlgorithm,
    SimilarityMethod, SplitStrategy, StrategyDocument,
};

#[test]
fn default_strategy_has_the_documented_values() {
    let settings = DedupStrategySettings::default();
    assert!(!settings.case_sensitive);
    assert!(settings.ignore_whitespace);
    assert!(settings.ignore_punctuation);
    assert!(settings.normalize_unicode);
    assert!(!settings.ignore_stopwords);
    assert!(!settings.stemming);
    assert!(settings.encoding_normalization);
    assert!(!settings.language_detection);
    assert_eq!(settings.split_strategy, SplitStrategy::Words);
    assert_eq!(settings.comparison_scope, ComparisonScope::Global);
    assert_eq!(settings.min_length, 10);
    assert_eq!(settings.ngram_size, 3);
    assert_eq!(settings.similarity_method, SimilarityMethod::Exact);
    assert_eq!(settings.similarity_threshold, 800_000);
    assert!(!settings.adaptive_thresholding);
    assert!(settings.use_parallel);
    assert_eq!(SimilarityMethod::default(), SimilarityMethod::Exact);
    assert_eq!(FuzzyAlgorithm::default(), FuzzyAlgorithm::DamerauLevenshtein);
}

#[test]
fn empty_document_gives_the_defaults() {
    let update = canonicalise(&StrategyDocument::empty()).unwrap();
    assert_eq!(update.settings, DedupStrategySettings::default());
    assert!(!update.threshold_clamped);
}

#[test]
fn document_fields_override_defaults() {
    let mut document = StrategyDocument::empty();
    document.case_sensitive = Some(true);
    document.split_strategy = Some("Sentences".to_string());
    document.comparison_scope = Some("Local".to_string());
    document.similarity_method = Some("Fuzzy".to_string());
    document.fuzzy_algorithm = Some("JaroWinkler".to_string());
    document.min_length = Some(42);
    document.ngram_size = Some(5);
    document.similarity_threshold = Some(650_000);
    document.adaptive_thresholding = Some(true);
    let update = canonicalise(&document).unwrap();
    let mut expected = DedupStrategySettings::default();
    expected.case_sensitive = true;
    expected.split_strategy = SplitStrategy::Sentences;
    expected.comparison_scope = ComparisonScope::Local;
    expected.similarity_method = SimilarityMethod::Fuzzy(FuzzyAlgorithm::JaroWinkler);
    expected.min_length = 42;
    expected.ngram_size = 5;
    expected.similarity_threshold = 650_000;
    expected.adaptive_thresholding = true;
    assert_eq!(update.settings, expected);
    assert!(!update.threshold_clamped);
}

#[test]
fn negative_counts_are_coerced() {
    let mut document = StrategyDocument::empty();
    document.min_length = Some(-7);
    document.ngram_size = Some(-2);
    let update = canonicalise(&document).unwrap();
    assert_eq!(update.settings.min_length, 0);
    assert_eq!(update.settings.ngram_size, 1);
    document.ngram_size = Some(0);
    assert_eq!(canonicalise(&document).unwrap().settings.ngram_size, 1);
    document.ngram_size = Some(1);
    assert_eq!(canonicalise(&document).unwrap().settings.ngram_size, 1);
}

#[test]
fn thresholds_are_clamped_with_a_warning() {
    let mut document = StrategyDocument::empty();
    document.similarity_threshold = Some(1_500_000);
    let update = canonicalise(&document).unwrap();
    assert_eq!(update.settings.similarity_threshold, 1_000_000);
    assert!(update.threshold_clamped);
    document.similarity_threshold = Some(-1);
    let update = canonicalise(&document).unwrap();
    assert_eq!(update.settings.similarity_threshold, 0);
    assert!(update.threshold_clamped);
    document.similarity_threshold = Some(1_000_000);
    let update = canonicalise(&document).unwrap();
    assert_eq!(update.settings.similarity_threshold, 1_000_000);
    assert!(!update.threshold_clamped);
    document.similarity_threshold = Some(0);
    let update = canonicalise(&document).unwrap();
    assert_eq!(update.settings.similarity_threshold, 0);
    assert!(!update.threshold_clamped);
}

#[test]
fn unknown_names_are_rejected() {
    let mut document = StrategyDocument::empty();
    document.similarity_method = Some("Cosine".to_string());
    assert_eq!(canonicalise(&document).unwrap_err().code, ErrorCode::StrategyUpdateError);

    let mut document = StrategyDocument::empty();
    document.split_strategy = Some("words".to_string());
    assert_eq!(canonicalise(&document).unwrap_err().code, ErrorCode::StrategyUpdateError);

    let mut document = StrategyDocument::empty();
    document.comparison_scope = Some("Everywhere".to_string());
    assert_eq!(canonicalise(&document).unwrap_err().code, ErrorCode::StrategyUpdateError);

    let mut document = StrategyDocument::empty();
    document.similarity_method = Some("Fuzzy".to_string());
    assert_eq!(canonicalise(&document).unwrap_err().code, ErrorCode::StrategyUpdateError);
    document.fuzzy_algorithm = Some("Metaphone".to_string());
    assert_eq!(canonicalise(&document).unwrap_err().code, ErrorCode::StrategyUpdateError);
    document.fuzzy_algorithm = Some("Soundex".to_string());
    assert_eq!(
        canonicalise(&document).unwrap().settings.similarity_method,
        SimilarityMethod::Fuzzy(FuzzyAlgorithm::Soundex)
    );
}

#[test]
fn every_name_is_read_back() {
    for split in [
        SplitStrategy::Characters,
        SplitStrategy::Words,
        SplitStrategy::Sentences,
        SplitStrategy::Paragraphs,
        SplitStrategy::WholeText,
    ] {
        let mut document = StrategyDocument::empty();
        document.split_strategy = Some(split.name().to_string());
        assert_eq!(canonicalise(&document).unwrap().settings.split_strategy, split);
    }
    for scope in [ComparisonScope::Local, ComparisonScope::Global] {
        let mut document = StrategyDocument::empty();
        document.comparison_scope = Some(scope.name().to_string());
        assert_eq!(canonicalise(&document).unwrap().settings.comparison_scope, scope);
    }
    for algorithm in [
        FuzzyAlgorithm::DamerauLevenshtein,
        FuzzyAlgorithm::JaroWinkler,
        FuzzyAlgorithm::Soundex,
        FuzzyAlgorithm::NGram,
    ] {
        assert_eq!(FuzzyAlgorithm::parse(algorithm.name()), Some(algorithm));
    }
    assert_eq!(FuzzyAlgorithm::parse("soundex"), None);
    for method in [
        SimilarityMethod::Exact,
        SimilarityMethod::Semantic,
        SimilarityMethod::Levenshtein,
        SimilarityMethod::Fuzzy(FuzzyAlgorithm::NGram),
    ] {
        let mut document = StrategyDocument::empty();
        document.similarity_method = Some(method.name().to_string());
        document.fuzzy_algorithm = method.algorithm_name().map(|name| name.to_string());
        assert_eq!(canonicalise(&document).unwrap().settings.similarity_method, method);
    }
}

#[test]
fn description_round_trips() {
    let mut settings = DedupStrategySettings::default();
    settings.similarity_method = SimilarityMethod::Fuzzy(FuzzyAlgorithm::NGram);
    settings.split_strategy = SplitStrategy::Paragraphs;
    settings.comparison_scope = ComparisonScope::Local;
    settings.similarity_threshold = 123_456;
    settings.min_length = 0;
    settings.ngram_size = 7;
    settings.stemming = true;
    let document = settings.describe();
    assert_eq!(document.similarity_method.as_deref(), Some("Fuzzy"));
    assert_eq!(document.fuzzy_algorithm.as_deref(), Some("NGram"));
    assert_eq!(document.split_strategy.as_deref(), Some("Paragraphs"));
    assert_eq!(document.similarity_threshold, Some(123_456));
    let update = canonicalise(&document).unwrap();
    assert_eq!(update.settings, settings);
    assert!(!update.threshold_clamped);
    assert_eq!(DedupStrategySettings::default().describe().fuzzy_algorithm, None);
}

#[test]
fn repair_brings_fields_into_range() {
    let mut settings = DedupStrategySettings::default();
    settings.ngram_size = 0;
    settings.similarity_threshold = 2_000_000;
    let fixed = repair(settings);
    assert_eq!(fixed.ngram_size, 1);
    assert_eq!(fixed.similarity_threshold, 1_000_000);
    assert_eq!(repair(DedupStrategySettings::default()), DedupStrategySettings::default());
    let manager = DedupManager::new(settings, SimilarityMethod::default());
    assert_eq!(manager.get_strategy(), fixed);
}

#[test]
fn strategy_read_back_is_the_canonical_form() {
    let mut manager =
        DedupManager::new(DedupStrategySettings::default(), SimilarityMethod::default());
    manager.add_text("kept across updates".to_string());
    let mut document = StrategyDocument::empty();
    document.similarity_method = Some("Levenshtein".to_string());
    document.similarity_threshold = Some(7_000_000);
    document.ngram_size = Some(-3);
    let update = manager.update_strategy(&document).unwrap();
    assert_eq!(manager.get_strategy(), canonicalise(&document).unwrap().settings);
    assert_eq!(manager.get_strategy(), update.settings);
    assert!(update.threshold_clamped);
    assert_eq!(manager.get_strategy().similarity_threshold, 1_000_000);
    assert_eq!(manager.get_strategy().ngram_size, 1);
    assert_eq!(manager.get_text(0), Some("kept across updates".to_string()));
}

#[test]
fn rejected_strategy_leaves_the_old_one_in_force() {
    let mut manager =
        DedupManager::new(DedupStrategySettings::default(), SimilarityMethod::default());
    let mut good = StrategyDocument::empty();
    good.similarity_method = Some("Levenshtein".to_string());
    manager.update_strategy(&good).unwrap();
    let before = manager.get_strategy();
    let mut bad = StrategyDocument::empty();
    bad.similarity_method = Some("Nonsense".to_string());
    bad.case_sensitive = Some(true);
    let error = manager.update_strategy(&bad).unwrap_err();
    assert_eq!(error.code, ErrorCode::StrategyUpdateError);
    assert_eq!(manager.get_strategy(), before);
}

#[test]
fn method_knows_where_it_is_scored() {
    assert!(SimilarityMethod::Semantic.needs_outside_scores());
    assert!(SimilarityMethod::Fuzzy(FuzzyAlgorithm::JaroWinkler).needs_outside_scores());
    assert!(!SimilarityMethod::Exact.needs_outside_scores());
    assert!(!SimilarityMethod::Levenshtein.needs_outside_scores());
    assert!(!SimilarityMethod::Fuzzy(FuzzyAlgorithm::NGram).needs_outside_scores());
}

#[test]
fn presets_are_listed_in_order() {
    let list = presets();
    assert_eq!(list.len(), PRESET_COUNT);
    let names: Vec<&str> = list.iter().map(|preset| preset.name.as_str()).collect();
    assert_eq!(
        names,
        vec![
            "Exact Match",
            "Near Match",
            "Fuzzy Match",
            "Similar Ideas",
            "Strict Large Blocks",
            "Loose Paragraph Matching"
        ]
    );
    assert_eq!(list[0].settings.similarity_threshold, 950_000);
    assert_eq!(list[1].settings.similarity_method, SimilarityMethod::Levenshtein);
    assert!(list[1].settings.adaptive_thresholding);
    assert_eq!(list[2].settings.split_strategy, SplitStrategy::Sentences);
    assert_eq!(list[3].settings.similarity_method, SimilarityMethod::Semantic);
    assert_eq!(list[4].settings.min_length, 50);
    assert!(list[4].settings.case_sensitive);
    assert_eq!(list[5].settings.similarity_threshold, 650_000);
    for preset in &list {
        assert!(preset.settings.ngram_size >= 1);
        assert!(preset.settings.similarity_threshold <= 1_000_000);
        assert!(!preset.description.is_empty());
    }
}

#[test]
fn error_codes_have_labels() {
    assert_eq!(ErrorCode::SerializationError.label(), "E001");
    assert_eq!(ErrorCode::DeserializationError.label(), "E002");
    assert_eq!(ErrorCode::StrategyUpdateError.label(), "E003");
    assert_eq!(ErrorCode::InvalidInput.label(), "E004");
    assert_eq!(ErrorCode::InternalError.label(), "E005");
    assert_eq!(ErrorCode::NotFound.label(), "E006");
    let error = AppError::new(ErrorCode::NotFound, "Text not found".to_string());
    assert_eq!(error.code, ErrorCode::NotFound);
    assert_eq!(error.message, "Text not found");
}

#[test]
fn fuzzy_algorithm_is_read_from_loose_names() {
    assert_eq!("DamerauLevenshtein".parse(), Ok(FuzzyAlgorithm::DamerauLevenshtein));
    assert_eq!("damerau_levenshtein".parse(), Ok(FuzzyAlgorithm::DamerauLevenshtein));
    assert_eq!("JAROWINKLER".parse(), Ok(FuzzyAlgorithm::JaroWinkler));
    assert_eq!("Soundex".parse(), Ok(FuzzyAlgorithm::Soundex));
    assert_eq!("nGram".parse(), Ok(FuzzyAlgorithm::NGram));
    assert_eq!(
        "metaphone".parse::<FuzzyAlgorithm>(),
        Err("Unknown fuzzy algorithm: metaphone".to_string())
    );
    assert_eq!(
        FuzzyAlgorithm::from_loose_name("jaro_winkler"),
        Err("Unknown fuzzy algorithm: jaro_winkler".to_string())
    );
}
