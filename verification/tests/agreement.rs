use std::collections::HashSet;

use jdeduplix::classifier::{PairScores, TextClassifier};
use jdeduplix::distance::{damerau_score, levenshtein_score};
use jdeduplix::ngram::ngram_score;
use jdeduplix::normalize::{collapse_whitespace, keep_encodable, strip_punctuation};
use jdeduplix::score::Score;
use jdeduplix::split::split_at_delimiter;
use jdeduplix::strategy::{DedupStrategySettings, FuzzyAlgorithm, SimilarityMethod};
use jdeduplix::text::{split_pieces, split_words, string_of, trim_chars};

fn chars(text: &str) -> Vec<char> {
    text.chars().collect()
}

fn strings(list: Vec<Vec<char>>) -> Vec<String> {
    list.into_iter().map(|unit| unit.into_iter().collect()).collect()
}

fn samples() -> Vec<&'static str> {
    vec![
        "",
        " ",
        "a",
        "  leading and trailing  ",
        "tabs\tand\nnewlines\r\nand\x0cform feeds",
        "punctuation, everywhere! (really?) [yes] {no} <maybe> #1 @home 50% a_b a-b a/b \\ | ~ ` ^ & * + = ; : ' \"",
        "Ünïcödé — text with “quotes” and… dots",
        "日本語のテキスト。二つ目の文！",
        "mixed\u{a0}no-break\u{2003}spaces\u{3000}here",
        "one\n\ntwo\n\n\nthree\n\n\n\nfour",
        "a.b.c..d...",
        "x\u{b}y vertical tab",
        "aaa aaa aaa",
        "e\u{301}\u{301} combining",
    ]
}

#[test]
fn words_agree_with_std() {
    for text in samples() {
        let expected: Vec<String> =
            text.split_ascii_whitespace().map(|word| word.to_string()).collect();
        assert_eq!(strings(split_words(&chars(text))), expected, "{:?}", text);
        assert_eq!(
            string_of(&collapse_whitespace(&chars(text))),
            expected.join(" "),
            "{:?}",
            text
        );
    }
}

#[test]
fn pieces_agree_with_std() {
    for text in samples() {
        for delimiters in [".", ".!?", " ", "a", "。！"] {
            let set: Vec<char> = delimiters.chars().collect();
            let expected: Vec<String> =
                text.split(|c| set.contains(&c)).map(|piece| piece.to_string()).collect();
            assert_eq!(strings(split_pieces(&chars(text), &set)), expected, "{:?}", text);
        }
    }
}

#[test]
fn delimiter_split_agrees_with_std() {
    for text in samples() {
        for delimiter in ["\n\n", "a", "aa", ". ", "...", "日本"] {
            let expected: Vec<String> =
                text.split(delimiter).map(|piece| piece.to_string()).collect();
            assert_eq!(
                strings(split_at_delimiter(&chars(text), &chars(delimiter))),
                expected,
                "{:?} at {:?}",
                text,
                delimiter
            );
        }
    }
}

#[test]
fn trimming_agrees_with_std() {
    for text in samples() {
        assert_eq!(string_of(&trim_chars(&chars(text))), text.trim(), "{:?}", text);
    }
    assert_eq!(string_of(&trim_chars(&chars("\u{2003} x \u{a0}"))), "x");
}

#[test]
fn filters_agree_with_std() {
    for text in samples() {
        let stripped: String = text.chars().filter(|c| !c.is_ascii_punctuation()).collect();
        assert_eq!(string_of(&strip_punctuation(&chars(text))), stripped, "{:?}", text);
        let kept: String =
            text.chars().filter(|c| c.is_ascii() || c.is_alphanumeric()).collect();
        assert_eq!(string_of(&keep_encodable(&chars(text))), kept, "{:?}", text);
    }
    for code in 0u8..128 {
        let c = char::from(code);
        let text = c.to_string();
        let expected = if c.is_ascii_punctuation() { String::new() } else { text.clone() };
        assert_eq!(string_of(&strip_punctuation(&chars(&text))), expected, "{:?}", c);
    }
}

fn reference_levenshtein(a: &[u8], b: &[u8]) -> usize {
    let mut previous: Vec<usize> = (0..=b.len()).collect();
    for (i, x) in a.iter().enumerate() {
        let mut current = vec![i + 1];
        for (j, y) in b.iter().enumerate() {
            let substituted = previous[j] + usize::from(x != y);
            let deleted = previous[j + 1] + 1;
            let inserted = current[j] + 1;
            current.push(substituted.min(deleted).min(inserted));
        }
        previous = current;
    }
    previous[b.len()]
}

#[test]
fn levenshtein_agrees_with_the_definition() {
    let texts = samples();
    for a in &texts {
        for b in &texts {
            let distance = reference_levenshtein(a.as_bytes(), b.as_bytes());
            let longest = a.len().max(b.len());
            let expected = if longest == 0 {
                Score { num: 1, den: 1 }
            } else {
                Score { num: (longest - distance) as u64, den: longest as u64 }
            };
            assert_eq!(levenshtein_score(a, b), expected, "{:?} {:?}", a, b);
        }
    }
}

#[test]
fn damerau_is_never_below_zero_or_above_one() {
    let texts = samples();
    for a in &texts {
        for b in &texts {
            let score = damerau_score(a, b);
            assert!(score.den > 0 && score.num <= score.den);
            if a == b {
                assert_eq!(score.num, score.den);
            }
            let other = levenshtein_score(a, b);
            if a.is_ascii() && b.is_ascii() {
                // A transposition never costs more than two single edits.
                assert!(score.num * other.den >= other.num * score.den);
            }
        }
    }
}

#[test]
fn ngram_agrees_with_hash_sets() {
    let texts = samples();
    for n in 1usize..5 {
        for a in &texts {
            for b in &texts {
                let x = chars(a);
                let y = chars(b);
                let expected = if x.len() < n || y.len() < n {
                    Score::indicator(x == y)
                } else {
                    let left: HashSet<&[char]> = x.windows(n).collect();
                    let right: HashSet<&[char]> = y.windows(n).collect();
                    Score {
                        num: left.intersection(&right).count() as u64,
                        den: left.union(&right).count() as u64,
                    }
                };
                assert_eq!(ngram_score(&x, &y, n), expected, "{:?} {:?} {}", a, b, n);
            }
        }
    }
}

fn reference_groups(n: usize, linked: &dyn Fn(usize, usize) -> bool) -> Vec<Vec<usize>> {
    let mut processed = vec![false; n];
    let mut groups = Vec::new();
    for i in 0..n {
        if processed[i] {
            continue;
        }
        processed[i] = true;
        let mut group = vec![i];
        for j in (i + 1)..n {
            if !processed[j] && linked(i, j) {
                group.push(j);
                processed[j] = true;
            }
        }
        if group.len() > 1 {
            groups.push(group);
        }
    }
    groups
}

#[test]
fn grouping_agrees_with_the_sequential_pass() {
    // A fixed table of pseudo-random scores drives the grouping.
    let n = 12usize;
    let mut state: u64 = 0x9e37_79b9_7f4a_7c15;
    let mut next = move || {
        state ^= state << 13;
        state ^= state >> 7;
        state ^= state << 17;
        (state % 1_000_001) as u32
    };
    let mut rows: Vec<Vec<Score>> = Vec::new();
    for i in 0..n {
        rows.push((i + 1..n).map(|_| Score::from_millionths(next())).collect());
    }
    let plain: Vec<Vec<u64>> =
        rows.iter().map(|row| row.iter().map(|score| score.num).collect()).collect();
    let table = PairScores { rows };
    for threshold in [0u32, 250_000, 500_000, 750_000, 900_000, 1_000_000] {
        let mut settings = DedupStrategySettings::default();
        settings.similarity_method = SimilarityMethod::Fuzzy(FuzzyAlgorithm::JaroWinkler);
        settings.similarity_threshold = threshold;
        settings.min_length = 1;
        let mut classifier = TextClassifier::new(settings);
        for i in 0..n {
            classifier.add_text(format!("item {}", i));
        }
        let groups = classifier.find_duplicates(Some(&table)).unwrap();
        let members: Vec<Vec<usize>> = groups.iter().map(|g| g.members.clone()).collect();
        let expected = reference_groups(n, &|i, j| plain[i][j - i - 1] >= u64::from(threshold));
        assert_eq!(members, expected, "threshold {}", threshold);
        for group in &groups {
            assert_eq!(group.representative, group.members[0]);
            let best = group.members[1..]
                .iter()
                .map(|&j| plain[group.representative][j - group.representative - 1])
                .max()
                .unwrap();
            assert_eq!(group.similarity, Score { num: best, den: 1_000_000 });
        }
    }
}

#[test]
fn raising_the_threshold_may_regroup_a_chain() {
    // "aabb" is close to both neighbours, which are far from each other: the
    // links are not transitive, and the stricter run pairs it differently.
    let texts = ["aaaa", "aabb", "abbb"];
    let mut settings = DedupStrategySettings::default();
    settings.similarity_method = SimilarityMethod::Levenshtein;
    settings.min_length = 1;
    let run = |threshold: u32| {
        let mut settings = settings;
        settings.similarity_threshold = threshold;
        let mut classifier = TextClassifier::new(settings);
        for text in texts {
            classifier.add_text(text.to_string());
        }
        let groups = classifier.find_duplicates(None).unwrap();
        groups.iter().map(|g| g.members.clone()).collect::<Vec<_>>()
    };
    assert_eq!(run(500_000), vec![vec![0, 1]]);
    assert_eq!(run(750_000), vec![vec![1, 2]]);
}
