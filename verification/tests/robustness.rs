use jdeduplix::distance::{damerau_score, levenshtein_score, phonetic_key};
use jdeduplix::language::{detect_language, stem_word, Language};
use jdeduplix::score::Score;

fn xorshift(state: &mut u64) -> u64 {
    *state ^= *state << 13;
    *state ^= *state >> 7;
    *state ^= *state << 17;
    *state
}

fn random_text(state: &mut u64, alphabet: &[char], max_len: usize) -> String {
    let len = (xorshift(state) as usize) % (max_len + 1);
    (0..len).map(|_| alphabet[(xorshift(state) as usize) % alphabet.len()]).collect()
}

fn reference_levenshtein(a: &[u8], b: &[u8]) -> usize {
    let mut previous: Vec<usize> = (0..=b.len()).collect();
    for (i, x) in a.iter().enumerate() {
        let mut current = vec![i + 1];
        for (j, y) in b.iter().enumerate() {
            let substituted = previous[j] + usize::from(x != y);
            let deleted = previous[j + 1] + 1;
            let inserted = current[j] + 1;
            current.push(substituted.min(deleted).min(inserted));
        }
        previous = current;
    }
    previous[b.len()]
}

#[test]
fn stemmers_accept_any_word() {
    let alphabet: Vec<char> = "abcdefghijklmnopqrstuvwxyzABCXYZ'-éèêëàâäîïôöùûüçñßæøåıİğşıćžšđ ёйцукенгшщзхъфывапролджэячсмитьбюабвгдءآأؤإئابةتثجحخدذرزسشصضطظعغفقكلمنهوىيあいう日本語中文한국어😀\u{301}\u{200d}0123456789"
        .chars()
        .collect();
    let mut state = 0x1234_5678_9abc_def0u64;
    let mut count = 0usize;
    for language in Language::all() {
        for _ in 0..1500 {
            let word = random_text(&mut state, &alphabet, 14);
            let stem = stem_word(language, &word);
            count += stem.len();
        }
    }
    assert!(count > 0);
}

#[test]
fn detection_and_phonetic_codes_accept_any_text() {
    let alphabet: Vec<char> = "abcdefghijklmnopqrstuvwxyz éèàç ñß ёйцукен ءآأ あいう日本語 한국어 😀\u{301}.,!?0123456789\n\t"
        .chars()
        .collect();
    let mut state = 0x0fed_cba9_8765_4321u64;
    let mut detected = 0usize;
    for _ in 0..3000 {
        let text = random_text(&mut state, &alphabet, 120);
        if detect_language(&text).is_some() {
            detected += 1;
        }
        let key = phonetic_key(&text);
        assert!(key.chars().count() <= 4, "{:?}", key);
        assert!(key.is_ascii());
    }
    assert!(detected > 0);
}

#[test]
fn edit_distances_hold_on_random_texts() {
    let alphabet: Vec<char> = "abcé日 ".chars().collect();
    let mut state = 0xdead_beef_cafe_f00du64;
    for max_len in [0usize, 1, 2, 5, 17, 33, 70, 130, 260, 300] {
        for _ in 0..25 {
            let a = random_text(&mut state, &alphabet, max_len);
            let b = random_text(&mut state, &alphabet, max_len);
            let distance = reference_levenshtein(a.as_bytes(), b.as_bytes());
            let longest = a.len().max(b.len());
            let expected = if longest == 0 {
                Score { num: 1, den: 1 }
            } else {
                Score { num: (longest - distance) as u64, den: longest as u64 }
            };
            assert_eq!(levenshtein_score(&a, &b), expected);
            let d = damerau_score(&a, &b);
            let e = damerau_score(&b, &a);
            assert_eq!(d, e);
            assert!(d.num <= d.den);
        }
    }
    let base: String = (0..1500).map(|i| char::from(b'a' + (i % 23) as u8)).collect();
    let mut other = base.clone();
    other.insert(700, 'Z');
    other.push('q');
    assert_eq!(levenshtein_score(&base, &other), Score { num: 1500, den: 1502 });
    let far: String = (0..900).map(|i| char::from(b'A' + (i % 7) as u8)).collect();
    let near: String = (0..700).map(|i| char::from(b'a' + (i % 5) as u8)).collect();
    let distance = reference_levenshtein(far.as_bytes(), near.as_bytes());
    assert_eq!(
        levenshtein_score(&far, &near),
        Score { num: (900 - distance) as u64, den: 900 }
    );
}
