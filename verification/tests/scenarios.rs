use jdeduplix::score::Score;
use jdeduplix::state::{DedupManager, DedupResults};
use jdeduplix::strategy::{DedupStrategySettings, FuzzyAlgorithm, SimilarityMethod};

fn engine_with(settings: DedupStrategySettings, texts: &[&str]) -> DedupManager {
    let mut manager = DedupManager::new(settings, SimilarityMethod::default());
    for text in texts {
        manager.add_text(text.to_string());
    }
    manager
}

fn run(settings: DedupStrategySettings, texts: &[&str]) -> DedupResults {
    let mut manager = engine_with(settings, texts);
    manager.deduplicate_texts(None).unwrap()
}

#[test]
fn exact_match_folds_case() {
    let mut settings = DedupStrategySettings::default();
    settings.similarity_method = SimilarityMethod::Exact;
    settings.case_sensitive = false;
    settings.ignore_punctuation = false;
    settings.min_length = 1;
    let results = run(settings, &["Hello World", "hello world", "goodbye"]);
    assert_eq!(results.duplicate_groups.len(), 1);
    let group = &results.duplicate_groups[0];
    assert_eq!(group.indices, vec![0, 1]);
    assert_eq!(group.original, "Hello World");
    assert_eq!(group.duplicates, vec!["hello world".to_string()]);
    assert_eq!(group.similarity, Score { num: 1, den: 1 });
    assert_eq!(results.stats.total_items, 3);
    assert_eq!(results.stats.unique_items, 2);
    assert_eq!(results.stats.duplicate_groups, 1);
}

#[test]
fn levenshtein_groups_near_match() {
    let mut settings = DedupStrategySettings::default();
    settings.similarity_method = SimilarityMethod::Levenshtein;
    settings.similarity_threshold = 800_000;
    settings.min_length = 1;
    let results = run(settings, &["color", "colour", "flavor"]);
    assert_eq!(results.duplicate_groups.len(), 1);
    let group = &results.duplicate_groups[0];
    assert_eq!(group.indices, vec![0, 1]);
    assert_eq!(group.similarity, Score { num: 5, den: 6 });
    assert_eq!(group.duplicates, vec!["colour".to_string()]);
    assert_eq!(results.stats.unique_items, 2);
}

#[test]
fn ngram_jaccard_groups_shared_prefix() {
    let mut settings = DedupStrategySettings::default();
    settings.similarity_method = SimilarityMethod::Fuzzy(FuzzyAlgorithm::NGram);
    settings.ngram_size = 3;
    settings.similarity_threshold = 500_000;
    settings.min_length = 1;
    let results = run(
        settings,
        &["the quick brown fox", "the quick brown dog", "lorem ipsum"],
    );
    assert_eq!(results.duplicate_groups.len(), 1);
    let group = &results.duplicate_groups[0];
    assert_eq!(group.indices, vec![0, 1]);
    assert_eq!(group.similarity, Score { num: 14, den: 20 });
    assert_eq!(results.stats.total_items, 3);
    assert_eq!(results.stats.unique_items, 2);
    assert_eq!(results.stats.duplicate_groups, 1);
}

#[test]
fn min_length_keeps_short_items_apart() {
    let mut settings = DedupStrategySettings::default();
    settings.similarity_method = SimilarityMethod::Exact;
    settings.min_length = 5;
    let results = run(settings, &["hi", "hi", "hello world"]);
    assert_eq!(results.duplicate_groups.len(), 0);
    assert_eq!(results.stats.total_items, 3);
    assert_eq!(results.stats.unique_items, 3);
    assert_eq!(results.stats.duplicate_groups, 0);
}

#[test]
fn adaptive_threshold_is_stricter_for_short_texts() {
    let mut settings = DedupStrategySettings::default();
    settings.similarity_method = SimilarityMethod::Levenshtein;
    settings.similarity_threshold = 450_000;
    settings.adaptive_thresholding = true;
    settings.min_length = 1;
    let results = run(settings, &["ab", "ac"]);
    assert_eq!(results.duplicate_groups.len(), 0);
    assert_eq!(results.stats.unique_items, 2);

    settings.adaptive_thresholding = false;
    let results = run(settings, &["ab", "ac"]);
    assert_eq!(results.duplicate_groups.len(), 1);
    assert_eq!(results.duplicate_groups[0].similarity, Score { num: 1, den: 2 });
}

#[test]
fn clear_resets_indices() {
    let mut manager = DedupManager::new(
        DedupStrategySettings::default(),
        SimilarityMethod::default(),
    );
    assert_eq!(manager.add_text("a".to_string()), 0);
    assert_eq!(manager.add_text("b".to_string()), 1);
    manager.clear().unwrap();
    assert_eq!(manager.add_text("c".to_string()), 0);
    assert_eq!(manager.get_text(1), None);
    assert_eq!(manager.get_text(0), Some("c".to_string()));
}
