use jdeduplix::classifier::{PairScores, TextClassifier};
use jdeduplix::error::ErrorCode;
use jdeduplix::score::Score;
use jdeduplix::state::DedupManager;
use jdeduplix::strategy::{
    DedupStrategySettings, FuzzyAlgorithm, SimilarityMethod, StrategyDocument,
};
use jdeduplix::DeduplicationCore;

fn setup() -> DedupManager {
    DedupManager::new(DedupStrategySettings::default(), SimilarityMethod::default())
}

#[test]
fn test_find_duplicates() {
    let mut manager = setup();
    manager.add_text("Hello world".to_string());
    manager.add_text("Different text".to_string());
    manager.add_text("Hello world".to_string());

    let groups = manager.deduplicate_texts(None).unwrap();
    assert!(!groups.duplicate_groups.is_empty());
    let has_duplicates = groups
        .duplicate_groups
        .iter()
        .any(|group| group.duplicates.len() > 0);
    assert!(has_duplicates);
}

#[test]
fn test_clear_texts() {
    let mut manager = setup();
    manager.add_text("Text 1".to_string());
    manager.add_text("Text 2".to_string());
    let results = manager.deduplicate_texts(None).unwrap();
    assert_eq!(results.stats.total_items, 2, "Expected 2 texts to be added");

    manager.clear().unwrap();

    let results = manager.deduplicate_texts(None).unwrap();
    assert_eq!(results.stats.total_items, 0, "Expected all texts to be cleared");
}

#[test]
fn test_update_strategy() {
    let mut manager = setup();
    let document = StrategyDocument::empty();
    manager.update_strategy(&document).unwrap();
    let strategy = manager.get_strategy();
    assert_eq!(
        strategy.similarity_method,
        SimilarityMethod::Exact,
        "Strategy should be updated to Exact"
    );
}

#[test]
fn core_can_be_created() {
    let _core = DeduplicationCore::new();
}

#[test]
fn added_texts_keep_their_indices() {
    let mut manager = setup();
    let first = manager.add_text("first text".to_string());
    let second = manager.add_text("second text".to_string());
    assert_eq!(first, 0);
    assert_eq!(second, 1);
    assert_eq!(manager.get_text(first), Some("first text".to_string()));
    let mut document = StrategyDocument::empty();
    document.similarity_method = Some("Levenshtein".to_string());
    manager.update_strategy(&document).unwrap();
    manager.add_text("third text".to_string());
    assert_eq!(manager.get_text(first), Some("first text".to_string()));
    assert_eq!(manager.get_text(second), Some("second text".to_string()));
    assert_eq!(manager.get_text(3), None);
    assert_eq!(
        manager.get_all_texts(),
        vec![
            "first text".to_string(),
            "second text".to_string(),
            "third text".to_string()
        ]
    );
}

#[test]
fn groups_are_disjoint_and_counts_add_up() {
    let mut settings = DedupStrategySettings::default();
    settings.min_length = 1;
    let mut manager = DedupManager::new(settings, SimilarityMethod::default());
    for text in ["apple", "pear", "Apple", "plum", "PEAR", "apple", "fig"] {
        manager.add_text(text.to_string());
    }
    let results = manager.deduplicate_texts(None).unwrap();
    assert_eq!(results.duplicate_groups.len(), 2);
    assert_eq!(results.duplicate_groups[0].indices, vec![0, 2, 5]);
    assert_eq!(results.duplicate_groups[1].indices, vec![1, 4]);
    let mut seen = vec![false; 7];
    let mut extra: usize = 0;
    for group in &results.duplicate_groups {
        assert!(group.indices.len() >= 2);
        assert_eq!(group.duplicates.len(), group.indices.len() - 1);
        extra += group.indices.len() - 1;
        for &index in &group.indices {
            assert!(!seen[index]);
            seen[index] = true;
        }
    }
    assert_eq!(results.stats.total_items, 7);
    assert_eq!(results.stats.unique_items, 7 - extra);
    assert_eq!(results.stats.unique_items, 4);
    assert_eq!(results.stats.duplicate_groups, results.duplicate_groups.len());
}

#[test]
fn grouping_twice_gives_the_same_result() {
    let mut settings = DedupStrategySettings::default();
    settings.similarity_method = SimilarityMethod::Levenshtein;
    settings.similarity_threshold = 600_000;
    settings.min_length = 1;
    let mut manager = DedupManager::new(settings, SimilarityMethod::default());
    for text in ["kitten", "sitting", "mitten", "bitten", "flower"] {
        manager.add_text(text.to_string());
    }
    let first = manager.deduplicate_texts(None).unwrap();
    let second = manager.deduplicate_texts(None).unwrap();
    assert_eq!(first.stats, second.stats);
    assert_eq!(first.duplicate_groups.len(), second.duplicate_groups.len());
    for (a, b) in first.duplicate_groups.iter().zip(second.duplicate_groups.iter()) {
        assert_eq!(a.indices, b.indices);
        assert_eq!(a.original, b.original);
        assert_eq!(a.duplicates, b.duplicates);
        assert_eq!(a.similarity, b.similarity);
    }
    assert_eq!(first.duplicate_groups[0].indices, vec![0, 2, 3]);
    assert_eq!(first.duplicate_groups[0].similarity, Score { num: 5, den: 6 });
}

#[test]
fn raising_the_threshold_only_shrinks_groups() {
    let texts = ["kitten", "mitten", "kitchen", "garden"];
    let mut settings = DedupStrategySettings::default();
    settings.similarity_method = SimilarityMethod::Levenshtein;
    settings.min_length = 1;

    settings.similarity_threshold = 700_000;
    let mut loose = DedupManager::new(settings, SimilarityMethod::default());
    settings.similarity_threshold = 800_000;
    let mut strict = DedupManager::new(settings, SimilarityMethod::default());
    for text in texts {
        loose.add_text(text.to_string());
        strict.add_text(text.to_string());
    }
    let low = loose.deduplicate_texts(None).unwrap();
    let high = strict.deduplicate_texts(None).unwrap();
    assert_eq!(low.duplicate_groups.len(), 1);
    assert_eq!(low.duplicate_groups[0].indices, vec![0, 1, 2]);
    assert_eq!(high.duplicate_groups.len(), 1);
    assert_eq!(high.duplicate_groups[0].indices, vec![0, 1]);
    for group in &high.duplicate_groups {
        assert!(low
            .duplicate_groups
            .iter()
            .any(|wide| group.indices.iter().all(|index| wide.indices.contains(index))));
    }
}

#[test]
fn group_reports_the_best_score_first_seen() {
    let mut settings = DedupStrategySettings::default();
    settings.similarity_method = SimilarityMethod::Levenshtein;
    settings.similarity_threshold = 500_000;
    settings.min_length = 1;
    let mut manager = DedupManager::new(settings, SimilarityMethod::default());
    for text in ["abcdef", "abcxyz", "abcdeg", "abcdeh"] {
        manager.add_text(text.to_string());
    }
    let results = manager.deduplicate_texts(None).unwrap();
    assert_eq!(results.duplicate_groups.len(), 1);
    assert_eq!(results.duplicate_groups[0].indices, vec![0, 1, 2, 3]);
    assert_eq!(results.duplicate_groups[0].similarity, Score { num: 5, den: 6 });
}

#[test]
fn outside_scores_drive_jaro_winkler_grouping() {
    let mut settings = DedupStrategySettings::default();
    settings.similarity_method = SimilarityMethod::Fuzzy(FuzzyAlgorithm::JaroWinkler);
    settings.similarity_threshold = 900_000;
    settings.min_length = 1;
    let mut manager = DedupManager::new(settings, SimilarityMethod::default());
    for text in ["martha", "marhta", "dwayne"] {
        manager.add_text(text.to_string());
    }
    let table = PairScores {
        rows: vec![
            vec![Score::from_millionths(961_111), Score::from_millionths(444_444)],
            vec![Score::from_millionths(444_444)],
            vec![],
        ],
    };
    let results = manager.deduplicate_texts(Some(&table)).unwrap();
    assert_eq!(results.duplicate_groups.len(), 1);
    assert_eq!(results.duplicate_groups[0].indices, vec![0, 1]);
    assert_eq!(
        results.duplicate_groups[0].similarity,
        Score { num: 961_111, den: 1_000_000 }
    );
    assert_eq!(results.stats.unique_items, 2);
}

#[test]
fn outside_method_without_scores_is_an_internal_error() {
    let mut settings = DedupStrategySettings::default();
    settings.similarity_method = SimilarityMethod::Semantic;
    let mut manager = DedupManager::new(settings, SimilarityMethod::default());
    manager.add_text("some text long enough".to_string());
    manager.add_text("another text long enough".to_string());
    let error = manager.deduplicate_texts(None).unwrap_err();
    assert_eq!(error.code, ErrorCode::InternalError);

    let short = PairScores { rows: vec![vec![]] };
    let error = manager.deduplicate_texts(Some(&short)).unwrap_err();
    assert_eq!(error.code, ErrorCode::InternalError);

    manager.clear().unwrap();
    let results = manager.deduplicate_texts(None).unwrap();
    assert_eq!(results.stats.total_items, 0);
}

#[test]
fn outside_scores_are_clamped() {
    let mut settings = DedupStrategySettings::default();
    settings.similarity_method = SimilarityMethod::Semantic;
    settings.min_length = 1;
    let classifier = TextClassifier::new(settings);
    let above = classifier
        .calculate_similarity("one", "two", Some(Score { num: 7, den: 5 }))
        .unwrap();
    assert_eq!(above, Score { num: 5, den: 5 });
    let broken = classifier
        .calculate_similarity("one", "two", Some(Score { num: 7, den: 0 }))
        .unwrap();
    assert_eq!(broken, Score { num: 0, den: 1 });
    let missing = classifier.calculate_similarity("one", "two", None).unwrap_err();
    assert_eq!(missing.code, ErrorCode::InternalError);
}

#[test]
fn threshold_zero_links_every_pair() {
    let mut settings = DedupStrategySettings::default();
    settings.similarity_threshold = 0;
    settings.min_length = 100;
    let mut manager = DedupManager::new(settings, SimilarityMethod::default());
    for text in ["a", "b", "c"] {
        manager.add_text(text.to_string());
    }
    let results = manager.deduplicate_texts(None).unwrap();
    assert_eq!(results.duplicate_groups.len(), 1);
    assert_eq!(results.duplicate_groups[0].indices, vec![0, 1, 2]);
    assert_eq!(results.duplicate_groups[0].similarity, Score { num: 0, den: 1 });
    assert_eq!(results.stats.unique_items, 1);
}

#[test]
fn local_scope_groups_like_global_scope() {
    let mut settings = DedupStrategySettings::default();
    settings.min_length = 1;
    settings.comparison_scope = jdeduplix::strategy::ComparisonScope::Local;
    let mut manager = DedupManager::new(settings, SimilarityMethod::default());
    for text in ["same", "other", "same"] {
        manager.add_text(text.to_string());
    }
    let results = manager.deduplicate_texts(None).unwrap();
    assert_eq!(results.duplicate_groups.len(), 1);
    assert_eq!(results.duplicate_groups[0].indices, vec![0, 2]);
}

fn member_lists(groups: &[jdeduplix::grouping::IndexGroup]) -> Vec<Vec<usize>> {
    groups.iter().map(|group| group.members.clone()).collect()
}

#[test]
fn units_of_a_document_are_grouped_globally() {
    let mut settings = DedupStrategySettings::default();
    settings.min_length = 1;
    settings.split_strategy = jdeduplix::strategy::SplitStrategy::Words;
    settings.comparison_scope = jdeduplix::strategy::ComparisonScope::Global;
    let classifier = TextClassifier::new(settings);
    let groups = classifier.find_duplicate_units("a b a. b b", None).unwrap();
    assert_eq!(member_lists(&groups), vec![vec![0, 2], vec![1, 3, 4]]);
    assert_eq!(groups[0].representative, 0);
    assert_eq!(groups[1].representative, 1);
    assert_eq!(groups[0].similarity, Score { num: 1, den: 1 });
}

#[test]
fn units_of_a_document_are_grouped_within_their_scope() {
    let mut settings = DedupStrategySettings::default();
    settings.min_length = 1;
    settings.split_strategy = jdeduplix::strategy::SplitStrategy::Words;
    settings.comparison_scope = jdeduplix::strategy::ComparisonScope::Local;
    let classifier = TextClassifier::new(settings);
    let groups = classifier.find_duplicate_units("a b a. b b", None).unwrap();
    assert_eq!(member_lists(&groups), vec![vec![0, 2], vec![3, 4]]);

    let groups = classifier
        .find_duplicate_units("the cat sat. the dog sat. the cat ran", None)
        .unwrap();
    assert_eq!(member_lists(&groups), Vec::<Vec<usize>>::new());

    let groups = classifier.find_duplicate_units("", None).unwrap();
    assert_eq!(member_lists(&groups), Vec::<Vec<usize>>::new());
}

#[test]
fn sentences_are_grouped_within_their_paragraph() {
    let mut settings = DedupStrategySettings::default();
    settings.min_length = 1;
    settings.split_strategy = jdeduplix::strategy::SplitStrategy::Sentences;
    settings.comparison_scope = jdeduplix::strategy::ComparisonScope::Local;
    let classifier = TextClassifier::new(settings);
    let document = "Same words. Other words. Same words!\n\nSame words. New words.";
    let local = classifier.find_duplicate_units(document, None).unwrap();
    assert_eq!(member_lists(&local), vec![vec![0, 2]]);

    let mut global = settings;
    global.comparison_scope = jdeduplix::strategy::ComparisonScope::Global;
    let classifier = TextClassifier::new(global);
    let all = classifier.find_duplicate_units(document, None).unwrap();
    assert_eq!(member_lists(&all), vec![vec![0, 2, 3]]);
}

#[test]
fn unit_grouping_needs_outside_scores_for_outside_methods() {
    let mut settings = DedupStrategySettings::default();
    settings.min_length = 1;
    settings.similarity_method = SimilarityMethod::Semantic;
    let classifier = TextClassifier::new(settings);
    let error = classifier.find_duplicate_units("one two", None).unwrap_err();
    assert_eq!(error.code, ErrorCode::InternalError);
    let table = PairScores { rows: vec![vec![Score::from_millionths(990_000)], vec![]] };
    let groups = classifier.find_duplicate_units("one two", Some(&table)).unwrap();
    assert_eq!(member_lists(&groups), vec![vec![0, 1]]);
}

#[test]
fn classifier_groups_its_corpus() {
    let mut settings = DedupStrategySettings::default();
    settings.min_length = 1;
    let mut classifier = TextClassifier::new(settings);
    assert_eq!(classifier.add_text("x".to_string()), 0);
    assert_eq!(classifier.add_text("y".to_string()), 1);
    assert_eq!(classifier.add_text("X".to_string()), 2);
    assert_eq!(classifier.len(), 3);
    assert_eq!(classifier.get_text(2), Some("X".to_string()));
    assert_eq!(classifier.get_all_texts(), vec!["x", "y", "X"]);
    let groups = classifier.find_duplicates(None).unwrap();
    assert_eq!(member_lists(&groups), vec![vec![0, 2]]);
    assert_eq!(*classifier.get_strategy(), settings);
    classifier.clear();
    assert_eq!(classifier.len(), 0);
    assert_eq!(classifier.get_text(0), None);
    settings.case_sensitive = true;
    classifier.update_strategy(settings);
    assert!(classifier.get_strategy().case_sensitive);
    let mut config = jdeduplix::config::DynamicConfig::default();
    config.user_sentence_delimiters.push(';');
    classifier.update_config(config);
    assert_eq!(
        classifier.split_text("a b"),
        vec!["a".to_string(), "b".to_string()]
    );
}

#[test]
fn default_classifier_uses_the_default_strategy() {
    let classifier = TextClassifier::default();
    assert_eq!(*classifier.get_strategy(), DedupStrategySettings::default());
    assert_eq!(classifier.len(), 0);
}
