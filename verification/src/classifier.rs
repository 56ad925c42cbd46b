//! The classifier: owns the corpus, the strategy and the configuration,
//! scores pairs of texts and groups the corpus.

use vstd::prelude::*;
use crate::config::DynamicConfig;
use crate::distance::{
    damerau_score,
    damerau_similarity,
    lemma_edit_distance_identity,
    lemma_edit_distance_symmetric,
    levenshtein_score,
    levenshtein_similarity,
    phonetic_code,
    phonetic_key,
    soundex_similarity,
    MAX_TEXT_BYTES,
};
use crate::error::{AppError, ErrorCode};
use crate::grouping::{
    duplicates_total,
    greedy_groups,
    group_greedily,
    groups_view,
    lemma_fewer_links_keep_groups_together,
    links_of,
    links_transitive,
    IndexGroup,
    Links,
    PairOracle,
};
use crate::language::{detect_code, detected_code, working_language};
use crate::ngram::{
    lemma_ngram_similarity_bounded,
    lemma_ngram_similarity_identity,
    lemma_ngram_similarity_symmetric,
    ngram_score,
    ngram_similarity,
};
use crate::normalize::{
    after_case,
    after_encoding,
    after_punctuation,
    after_stemming,
    after_stop_words,
    after_unicode,
    after_whitespace,
    canonical_form,
    normalize,
};
use crate::score::{
    adapt_threshold,
    effective_threshold,
    Score,
    THRESHOLD_ONE,
    THRESHOLD_STEP,
};
use crate::split::{local_scope, local_scope_units, split_text_by_strategy, units};
use crate::strategy::{
    repair,
    repaired,
    ComparisonScope,
    DedupStrategySettings,
    FuzzyAlgorithm,
    SimilarityMethod,
};
use crate::text::{
    byte_len,
    byte_length,
    chars_of,
    lemma_chars_at_most_bytes,
    string_views,
};

verus! {

/// Marker for the detection of content types.
pub struct SmartClassifier;

/// Scores that a scorer outside this library computed for the pairs of a
/// corpus: for every item the scores against each later item, in order.
#[derive(Debug)]
pub struct PairScores {
    pub rows: Vec<Vec<Score>>,
}

impl PairScores {
    /// The table has a score for every pair among `n` items.
    pub open spec fn covers(&self, n: nat) -> bool {
        &&& self.rows@.len() == n
        &&& forall|i: int| 0 <= i < n ==> (#[trigger] self.rows@[i])@.len() == n - 1 - i
    }

    /// The score of the pair `i < j`.
    pub open spec fn entry(&self, i: int, j: int) -> Score {
        self.rows@[i]@[j - i - 1]
    }

    /// Checks that the table has a score for every pair among `n` items.
    pub fn check_covers(&self, n: usize) -> (ok: bool)
        ensures
            ok == self.covers(n as nat),
    {
        if self.rows.len() != n {
            return false;
        }
        let mut i: usize = 0;
        while i < n
            invariant
                i <= n,
                self.rows@.len() == n,
                forall|k: int| 0 <= k < i ==> (#[trigger] self.rows@[k])@.len() == n - 1 - k,
            decreases n - i,
        {
            if self.rows[i].len() != n - 1 - i {
                return false;
            }
            i += 1;
        }
        true
    }
}

/// A score from outside, brought into the unit interval: a fraction without
/// denominator counts as zero, one above one as one.
pub open spec fn clamped(score: Score) -> Score {
    if score.den == 0 {
        Score::spec_zero()
    } else if score.num > score.den {
        Score { num: score.den, den: score.den }
    } else {
        score
    }
}

/// Brings a score from outside into the unit interval.
pub fn clamp_score(score: Score) -> (out: Score)
    ensures
        out == clamped(score),
        out.wf(),
{
    if score.den == 0 {
        Score::zero()
    } else if score.num > score.den {
        Score { num: score.den, den: score.den }
    } else {
        score
    }
}

/// Whether the detector finds a language in both texts and the two differ.
pub open spec fn languages_differ(a: Seq<char>, b: Seq<char>) -> bool {
    detected_code(a) is Some && detected_code(b) is Some && detected_code(a) != detected_code(b)
}

/// Whether the language gate closes for a pair: the method is the semantic
/// one, language detection is on and the languages of the two texts differ.
pub open spec fn gate_closed(settings: DedupStrategySettings, a: Seq<char>, b: Seq<char>) -> bool {
    settings.similarity_method == SimilarityMethod::Semantic && settings.language_detection
        && languages_differ(a, b)
}

/// The score of two canonical forms under a method. A method that is scored
/// outside this library takes the outside score, brought into the unit
/// interval, and has no score without one.
pub open spec fn method_similarity(
    settings: DedupStrategySettings,
    a: Seq<char>,
    b: Seq<char>,
    outside: Option<Score>,
) -> Option<Score> {
    match settings.similarity_method {
        SimilarityMethod::Exact => Some(
            if a == b {
                Score::spec_one()
            } else {
                Score::spec_zero()
            },
        ),
        SimilarityMethod::Levenshtein => Some(levenshtein_similarity(a, b)),
        SimilarityMethod::Fuzzy(FuzzyAlgorithm::DamerauLevenshtein) => Some(
            damerau_similarity(a, b),
        ),
        SimilarityMethod::Fuzzy(FuzzyAlgorithm::Soundex) => Some(soundex_similarity(a, b)),
        SimilarityMethod::Fuzzy(FuzzyAlgorithm::NGram) => Some(
            ngram_similarity(a, b, settings.ngram_size as nat),
        ),
        _ => match outside {
            Some(score) => Some(clamped(score)),
            None => None,
        },
    }
}

/// Whether one of two texts is shorter, in bytes, than the strategy lets a
/// text be.
pub open spec fn below_floor(settings: DedupStrategySettings, a: Seq<char>, b: Seq<char>) -> bool {
    byte_len(a) < settings.min_length || byte_len(b) < settings.min_length
}

/// Whether the canonical form of a text is longer than the engine accepts.
pub open spec fn oversized(
    settings: DedupStrategySettings,
    config: DynamicConfig,
    text: Seq<char>,
) -> bool {
    byte_len(canonical_form(settings, config, text)) > MAX_TEXT_BYTES
}

/// The similarity of two texts. A pair with a text below the length floor
/// scores zero, and so does a pair for which the language gate closes; any
/// other pair gets the score of its canonical forms under the method.
/// A canonical form beyond the size limit is invalid input, and a method that
/// is scored outside fails without an outside score.
pub open spec fn similarity_outcome(
    settings: DedupStrategySettings,
    config: DynamicConfig,
    a: Seq<char>,
    b: Seq<char>,
    outside: Option<Score>,
) -> Result<Score, ErrorCode> {
    if below_floor(settings, a, b) {
        Ok(Score::spec_zero())
    } else if oversized(settings, config, a) || oversized(settings, config, b) {
        Err(ErrorCode::InvalidInput)
    } else if gate_closed(settings, a, b) {
        Ok(Score::spec_zero())
    } else {
        match method_similarity(
            settings,
            canonical_form(settings, config, a),
            canonical_form(settings, config, b),
            outside,
        ) {
            Some(score) => Ok(score),
            None => Err(ErrorCode::InternalError),
        }
    }
}

/// Every similarity lies between zero and one.
pub proof fn lemma_similarity_bounded(
    settings: DedupStrategySettings,
    config: DynamicConfig,
    a: Seq<char>,
    b: Seq<char>,
    outside: Option<Score>,
)
    requires
        settings.wf(),
    ensures
        similarity_outcome(settings, config, a, b, outside) matches Ok(score) ==> score.wf(),
{
    let x = canonical_form(settings, config, a);
    let y = canonical_form(settings, config, b);
    if similarity_outcome(settings, config, a, b, outside) is Ok && !below_floor(settings, a, b)
        && !gate_closed(settings, a, b) {
        assert(byte_len(x) <= MAX_TEXT_BYTES && byte_len(y) <= MAX_TEXT_BYTES);
        if settings.similarity_method == SimilarityMethod::Fuzzy(FuzzyAlgorithm::NGram) {
            lemma_chars_at_most_bytes(x);
            lemma_chars_at_most_bytes(y);
            lemma_ngram_similarity_bounded(x, y, settings.ngram_size as nat);
        }
    }
}

/// The similarity does not depend on the order of the two texts, under a
/// method that is even-handed.
pub proof fn lemma_similarity_symmetric(
    settings: DedupStrategySettings,
    config: DynamicConfig,
    a: Seq<char>,
    b: Seq<char>,
    outside: Option<Score>,
    other: Option<Score>,
)
    requires
        settings.similarity_method.is_even_handed(),
    ensures
        similarity_outcome(settings, config, a, b, outside) == similarity_outcome(
            settings,
            config,
            b,
            a,
            other,
        ),
{
    let x = canonical_form(settings, config, a);
    let y = canonical_form(settings, config, b);
    lemma_edit_distance_symmetric(vstd::utf8::encode_utf8(x), vstd::utf8::encode_utf8(y));
    lemma_ngram_similarity_symmetric(x, y, settings.ngram_size as nat);
}

/// No text is more similar to another text than to itself, under a method
/// that this library scores.
pub proof fn lemma_similarity_reflexive(
    settings: DedupStrategySettings,
    config: DynamicConfig,
    x: Seq<char>,
    y: Seq<char>,
    outside: Option<Score>,
    other: Option<Score>,
)
    requires
        settings.wf(),
        !settings.similarity_method.is_outside(),
    ensures
        similarity_outcome(settings, config, x, x, outside) matches Ok(own) ==> (
        similarity_outcome(settings, config, x, y, other) matches Ok(cross) ==> own.ge(cross)),
{
    let own_outcome = similarity_outcome(settings, config, x, x, outside);
    let cross_outcome = similarity_outcome(settings, config, x, y, other);
    if own_outcome is Ok && cross_outcome is Ok {
        let own = own_outcome->Ok_0;
        let cross = cross_outcome->Ok_0;
        lemma_similarity_bounded(settings, config, x, y, other);
        if !below_floor(settings, x, x) {
            let form = canonical_form(settings, config, x);
            lemma_edit_distance_identity(vstd::utf8::encode_utf8(form));
            lemma_chars_at_most_bytes(form);
            lemma_ngram_similarity_identity(form, settings.ngram_size as nat);
            lemma_ngram_similarity_bounded(form, form, settings.ngram_size as nat);
            assert(own.num == own.den);
            assert(own.num * cross.den >= cross.num * own.den) by (nonlinear_arith)
                requires
                    own.num == own.den,
                    cross.num <= cross.den,
            ;
        }
    }
}

/// A pair that reaches a threshold reaches every lower one.
pub proof fn lemma_reaches_lower(score: Score, lower: u32, higher: u32)
    requires
        lower <= higher,
        score.reaches(higher),
    ensures
        score.reaches(lower),
{
    assert(lower * score.den <= higher * score.den) by (nonlinear_arith)
        requires
            lower <= higher,
            0 <= score.den,
    ;
}

/// Two strategies that differ at most in their thresholds.
pub open spec fn same_but_threshold(
    lower: DedupStrategySettings,
    higher: DedupStrategySettings,
) -> bool {
    higher == (DedupStrategySettings { similarity_threshold: higher.similarity_threshold, ..lower })
}

/// Raising the threshold takes links away and adds none: a pair that is
/// linked under the higher threshold is linked under the lower one, with the
/// same score.
pub proof fn lemma_raising_threshold_unlinks(
    lower: DedupStrategySettings,
    higher: DedupStrategySettings,
    config: DynamicConfig,
    corpus: Seq<Seq<char>>,
    outside: Option<PairScores>,
    i: int,
    j: int,
)
    requires
        same_but_threshold(lower, higher),
        lower.similarity_threshold <= higher.similarity_threshold,
        corpus_link(higher, config, corpus, outside, i, j) is Some,
    ensures
        corpus_link(lower, config, corpus, outside, i, j) == corpus_link(
            higher,
            config,
            corpus,
            outside,
            i,
            j,
        ),
{
    let given: Option<Score> = match outside {
        Some(table) => Some(table.entry(i, j)),
        None => None,
    };
    let a = corpus[i];
    let b = corpus[j];
    lemma_outcome_ignores_threshold(lower, higher, config, a, b, given);
    let score = similarity_outcome(higher, config, a, b, given)->Ok_0;
    let low = effective_threshold(
        lower.similarity_threshold,
        lower.adaptive_thresholding,
        byte_len(a),
        byte_len(b),
    );
    let high = effective_threshold(
        higher.similarity_threshold,
        higher.adaptive_thresholding,
        byte_len(a),
        byte_len(b),
    );
    lemma_reaches_lower(score, low, high);
}

/// The canonical form of a text does not depend on the threshold.
pub proof fn lemma_canonical_form_ignores_threshold(
    lower: DedupStrategySettings,
    higher: DedupStrategySettings,
    config: DynamicConfig,
    text: Seq<char>,
)
    requires
        same_but_threshold(lower, higher),
    ensures
        canonical_form(lower, config, text) == canonical_form(higher, config, text),
{
    let language = working_language(text, lower.language_detection);
    let stop_words = config.merged_stop_words(language);
    let cased = after_case(lower, text);
    assert(cased == after_case(higher, text));
    let spaced = after_whitespace(lower, cased);
    assert(spaced == after_whitespace(higher, cased));
    let stripped = after_punctuation(lower, spaced);
    assert(stripped == after_punctuation(higher, spaced));
    let decomposed = after_unicode(lower, stripped);
    assert(decomposed == after_unicode(higher, stripped));
    let filtered = after_stop_words(lower, stop_words, decomposed);
    assert(filtered == after_stop_words(higher, stop_words, decomposed));
    let stemmed = after_stemming(lower, language, filtered);
    assert(stemmed == after_stemming(higher, language, filtered));
    assert(after_encoding(lower, stemmed) == after_encoding(higher, stemmed));
}

/// The similarity of two texts does not depend on the threshold.
pub proof fn lemma_outcome_ignores_threshold(
    lower: DedupStrategySettings,
    higher: DedupStrategySettings,
    config: DynamicConfig,
    a: Seq<char>,
    b: Seq<char>,
    outside: Option<Score>,
)
    requires
        same_but_threshold(lower, higher),
    ensures
        similarity_outcome(lower, config, a, b, outside) == similarity_outcome(
            higher,
            config,
            a,
            b,
            outside,
        ),
{
    lemma_canonical_form_ignores_threshold(lower, higher, config, a);
    lemma_canonical_form_ignores_threshold(lower, higher, config, b);
    let x = canonical_form(lower, config, a);
    let y = canonical_form(lower, config, b);
    assert(below_floor(lower, a, b) == below_floor(higher, a, b));
    assert(oversized(lower, config, a) == oversized(higher, config, a));
    assert(oversized(lower, config, b) == oversized(higher, config, b));
    assert(gate_closed(lower, a, b) == gate_closed(higher, a, b));
    assert(method_similarity(lower, x, y, outside) == method_similarity(higher, x, y, outside));
}

/// Under exact matching with a threshold above a tenth, the links among the
/// items of a corpus are transitive: two items are linked where both are long
/// enough and have the same canonical form.
pub proof fn lemma_exact_links_transitive(
    settings: DedupStrategySettings,
    config: DynamicConfig,
    corpus: Seq<Seq<char>>,
    outside: Option<PairScores>,
)
    requires
        settings.wf(),
        settings.similarity_method == SimilarityMethod::Exact,
        settings.similarity_threshold > THRESHOLD_STEP,
    ensures
        links_transitive(corpus_links(settings, config, corpus, outside), corpus.len() as int),
{
    let links = corpus_links(settings, config, corpus, outside);
    let n = corpus.len() as int;
    assert forall|i: int, j: int| 0 <= i < j < n implies (#[trigger] links(i, j) is Some <==> (
    !below_floor(settings, corpus[i], corpus[j]) && !oversized(settings, config, corpus[i])
        && !oversized(settings, config, corpus[j]) && canonical_form(settings, config, corpus[i])
        == canonical_form(settings, config, corpus[j]))) by {
        let limit = effective_threshold(
            settings.similarity_threshold,
            settings.adaptive_thresholding,
            byte_len(corpus[i]),
            byte_len(corpus[j]),
        );
        assert(0 < limit <= THRESHOLD_ONE);
        assert(Score::spec_one().reaches(limit));
        assert(!Score::spec_zero().reaches(limit));
    }
    assert forall|a: int, b: int, c: int|
        0 <= a < b < c < n && #[trigger] links(a, b) is Some && #[trigger] links(
            b,
            c,
        ) is Some implies links(a, c) is Some by {
        assert(links(a, c) is Some <==> (!below_floor(settings, corpus[a], corpus[c])
            && !oversized(settings, config, corpus[a]) && !oversized(settings, config, corpus[c])
            && canonical_form(settings, config, corpus[a]) == canonical_form(
            settings,
            config,
            corpus[c],
        )));
    }
    assert forall|a: int, b: int, c: int|
        0 <= a < b < c < n && #[trigger] links(a, c) is Some && #[trigger] links(
            b,
            c,
        ) is Some implies links(a, b) is Some by {
        assert(links(a, b) is Some <==> (!below_floor(settings, corpus[a], corpus[b])
            && !oversized(settings, config, corpus[a]) && !oversized(settings, config, corpus[b])
            && canonical_form(settings, config, corpus[a]) == canonical_form(
            settings,
            config,
            corpus[b],
        )));
    }
}

/// Raising the threshold keeps groups together: where the links under the
/// lower threshold are transitive, every group under the higher threshold
/// lies within one group under the lower threshold, whose position is
/// returned.
pub proof fn lemma_raising_threshold_keeps_groups_together(
    lower: DedupStrategySettings,
    higher: DedupStrategySettings,
    config: DynamicConfig,
    corpus: Seq<Seq<char>>,
    outside: Option<PairScores>,
    p: int,
) -> (q: int)
    requires
        corpus.len() <= usize::MAX,
        same_but_threshold(lower, higher),
        lower.similarity_threshold <= higher.similarity_threshold,
        links_transitive(
            corpus_links(lower, config, corpus, outside),
            corpus.len() as int,
        ),
        0 <= p < greedy_groups(
            corpus_links(higher, config, corpus, outside),
            corpus.len() as int,
        ).len(),
    ensures
        0 <= q < greedy_groups(
            corpus_links(lower, config, corpus, outside),
            corpus.len() as int,
        ).len(),
        forall|a: int|
            0 <= a < greedy_groups(
                corpus_links(higher, config, corpus, outside),
                corpus.len() as int,
            )[p].members.len() ==> greedy_groups(
                corpus_links(lower, config, corpus, outside),
                corpus.len() as int,
            )[q].members.contains(
                #[trigger] greedy_groups(
                    corpus_links(higher, config, corpus, outside),
                    corpus.len() as int,
                )[p].members[a],
            ),
{
    let fewer = corpus_links(higher, config, corpus, outside);
    let more = corpus_links(lower, config, corpus, outside);
    let n = corpus.len() as int;
    assert forall|i: int, j: int| 0 <= i < j < n && #[trigger] fewer(i, j) is Some implies more(
        i,
        j,
    ) is Some by {
        lemma_raising_threshold_unlinks(lower, higher, config, corpus, outside, i, j);
    }
    lemma_fewer_links_keep_groups_together(fewer, more, n, p)
}

/// What the engine keeps of a text while it compares. The characters, the
/// phonetic code and the language code are kept only under the methods that
/// read them.
struct Prepared {
    given_len: usize,
    canonical: String,
    chars: Vec<char>,
    phonetic: String,
    code: Option<String>,
}

impl Prepared {
    /// The record describes `text` under a strategy and a configuration.
    spec fn describes(
        &self,
        settings: DedupStrategySettings,
        config: DynamicConfig,
        text: Seq<char>,
    ) -> bool {
        &&& self.given_len == byte_len(text)
        &&& self.canonical@ == canonical_form(settings, config, text)
        &&& settings.similarity_method == SimilarityMethod::Fuzzy(FuzzyAlgorithm::NGram)
            ==> self.chars@ == self.canonical@
        &&& settings.similarity_method == SimilarityMethod::Fuzzy(FuzzyAlgorithm::Soundex)
            ==> self.phonetic@ == phonetic_code(self.canonical@)
        &&& (settings.similarity_method == SimilarityMethod::Semantic
            && settings.language_detection) ==> {
            &&& self.code is Some == detected_code(text) is Some
            &&& self.code is Some ==> detected_code(text) == Some(self.code->0@)
        }
    }

    spec fn within_limit(&self) -> bool {
        byte_len(self.canonical@) <= MAX_TEXT_BYTES
    }
}

fn prepare(settings: &DedupStrategySettings, config: &DynamicConfig, text: &str) -> (record:
    Prepared)
    ensures
        record.describes(*settings, *config, text@),
{
    let canonical = normalize(settings, config, text);
    let chars = match settings.similarity_method {
        SimilarityMethod::Fuzzy(FuzzyAlgorithm::NGram) => chars_of(canonical.as_str()),
        _ => Vec::new(),
    };
    let phonetic = match settings.similarity_method {
        SimilarityMethod::Fuzzy(FuzzyAlgorithm::Soundex) => phonetic_key(canonical.as_str()),
        _ => String::new(),
    };
    let code = match settings.similarity_method {
        SimilarityMethod::Semantic => if settings.language_detection {
            detect_code(text)
        } else {
            None
        },
        _ => None,
    };
    Prepared { given_len: byte_length(text), canonical, chars, phonetic, code }
}

/// Scores two prepared texts.
fn score_prepared(
    settings: &DedupStrategySettings,
    a: &Prepared,
    b: &Prepared,
    outside: Option<Score>,
    Ghost(config): Ghost<DynamicConfig>,
    Ghost(text_a): Ghost<Seq<char>>,
    Ghost(text_b): Ghost<Seq<char>>,
) -> (outcome: Option<Score>)
    requires
        settings.wf(),
        a.describes(*settings, config, text_a),
        b.describes(*settings, config, text_b),
        a.within_limit(),
        b.within_limit(),
    ensures
        match similarity_outcome(*settings, config, text_a, text_b, outside) {
            Ok(score) => outcome == Some(score),
            Err(_) => outcome is None,
        },
        outcome matches Some(score) ==> score.wf(),
{
    if a.given_len < settings.min_length || b.given_len < settings.min_length {
        return Some(Score::zero());
    }
    match settings.similarity_method {
        SimilarityMethod::Exact => Some(Score::indicator(a.canonical == b.canonical)),
        SimilarityMethod::Levenshtein => Some(
            levenshtein_score(a.canonical.as_str(), b.canonical.as_str()),
        ),
        SimilarityMethod::Fuzzy(FuzzyAlgorithm::DamerauLevenshtein) => Some(
            damerau_score(a.canonical.as_str(), b.canonical.as_str()),
        ),
        SimilarityMethod::Fuzzy(FuzzyAlgorithm::Soundex) => Some(
            Score::indicator(a.phonetic == b.phonetic),
        ),
        SimilarityMethod::Fuzzy(FuzzyAlgorithm::NGram) => {
            proof {
                lemma_chars_at_most_bytes(a.canonical@);
                lemma_chars_at_most_bytes(b.canonical@);
            }
            Some(ngram_score(&a.chars, &b.chars, settings.ngram_size))
        },
        SimilarityMethod::Fuzzy(FuzzyAlgorithm::JaroWinkler) => match outside {
            Some(score) => Some(clamp_score(score)),
            None => None,
        },
        SimilarityMethod::Semantic => {
            let differ = settings.language_detection && match (&a.code, &b.code) {
                (Some(left), Some(right)) => !(*left == *right),
                _ => false,
            };
            if differ {
                Some(Score::zero())
            } else {
                match outside {
                    Some(score) => Some(clamp_score(score)),
                    None => None,
                }
            }
        },
    }
}

/// The score under which item `j` may join the group of item `i`: the
/// similarity of the two, where it reaches the threshold that the pair is
/// held to.
pub open spec fn corpus_link(
    settings: DedupStrategySettings,
    config: DynamicConfig,
    corpus: Seq<Seq<char>>,
    outside: Option<PairScores>,
    i: int,
    j: int,
) -> Option<Score> {
    if 0 <= i < j < corpus.len() {
        match similarity_outcome(
            settings,
            config,
            corpus[i],
            corpus[j],
            match outside {
                Some(table) => Some(table.entry(i, j)),
                None => None,
            },
        ) {
            Ok(score) => if score.reaches(
                effective_threshold(
                    settings.similarity_threshold,
                    settings.adaptive_thresholding,
                    byte_len(corpus[i]),
                    byte_len(corpus[j]),
                ),
            ) {
                Some(score)
            } else {
                None
            },
            Err(_) => None,
        }
    } else {
        None
    }
}

/// The links among the items of a corpus.
pub open spec fn corpus_links(
    settings: DedupStrategySettings,
    config: DynamicConfig,
    corpus: Seq<Seq<char>>,
    outside: Option<PairScores>,
) -> Links {
    |i: int, j: int| corpus_link(settings, config, corpus, outside, i, j)
}

/// The views of a list of index lists.
pub open spec fn index_views(lists: Seq<Vec<usize>>) -> Seq<Seq<usize>> {
    lists.map_values(|list: Vec<usize>| list@)
}

/// Whether item `j` is a candidate for the group of item `i`: always where
/// no scopes are given, else where the scope of `i` holds `j`.
pub open spec fn within_scope(scopes: Option<Seq<Seq<usize>>>, i: int, j: int) -> bool {
    match scopes {
        Some(lists) => 0 <= i < lists.len() && 0 <= j <= usize::MAX && lists[i].contains(
            j as usize,
        ),
        None => true,
    }
}

/// The links among the items of a corpus that lie within the scopes.
pub open spec fn scoped_links(
    settings: DedupStrategySettings,
    config: DynamicConfig,
    corpus: Seq<Seq<char>>,
    outside: Option<PairScores>,
    scopes: Option<Seq<Seq<usize>>>,
) -> Links {
    |i: int, j: int|
        if within_scope(scopes, i, j) {
            corpus_link(settings, config, corpus, outside, i, j)
        } else {
            None
        }
}

/// The units of a document under the strategy and the configuration.
pub open spec fn document_units(
    settings: DedupStrategySettings,
    config: DynamicConfig,
    document: Seq<char>,
) -> Seq<Seq<char>> {
    units(
        document,
        settings.split_strategy,
        config.merged_sentence_delimiters(),
        config.paragraph_delimiter(),
    )
}

/// The scope of every unit of a document under local comparison; no scopes
/// under global comparison.
pub open spec fn document_scopes(
    settings: DedupStrategySettings,
    config: DynamicConfig,
    document: Seq<char>,
) -> Option<Seq<Seq<usize>>> {
    if settings.comparison_scope == ComparisonScope::Local {
        Some(
            Seq::new(
                document_units(settings, config, document).len(),
                |i: int|
                    local_scope(
                        document,
                        i as nat,
                        settings.split_strategy,
                        config.merged_sentence_delimiters(),
                        config.paragraph_delimiter(),
                    ),
            ),
        )
    } else {
        None
    }
}

/// The links among the units of a document: under local comparison a unit
/// may only join a unit whose containing scope it shares.
pub open spec fn unit_links(
    settings: DedupStrategySettings,
    config: DynamicConfig,
    document: Seq<char>,
    outside: Option<PairScores>,
) -> Links {
    scoped_links(
        settings,
        config,
        document_units(settings, config, document),
        outside,
        document_scopes(settings, config, document),
    )
}

/// Which error, if any, keeps a corpus from being grouped: a canonical form
/// beyond the size limit is invalid input; a method that is scored outside
/// fails on a corpus that is not empty unless a table with a score for every
/// pair comes with it.
pub open spec fn grouping_error(
    settings: DedupStrategySettings,
    config: DynamicConfig,
    corpus: Seq<Seq<char>>,
    outside: Option<PairScores>,
) -> Option<ErrorCode> {
    if exists|i: int| 0 <= i < corpus.len() && oversized(settings, config, #[trigger] corpus[i]) {
        Some(ErrorCode::InvalidInput)
    } else if corpus.len() > 0 && settings.similarity_method.is_outside() && !(outside matches Some(
        table,
    ) && table.covers(corpus.len())) {
        Some(ErrorCode::InternalError)
    } else {
        None
    }
}

/// The pairs of a prepared corpus as the grouping pass sees them.
struct CorpusOracle<'a> {
    settings: DedupStrategySettings,
    records: &'a Vec<Prepared>,
    outside: Option<&'a PairScores>,
    scopes: Option<&'a Vec<Vec<usize>>>,
    config: Ghost<DynamicConfig>,
    corpus: Ghost<Seq<Seq<char>>>,
}

impl<'a> CorpusOracle<'a> {
    spec fn table(&self) -> Option<PairScores> {
        match self.outside {
            Some(table) => Some(*table),
            None => None,
        }
    }

    spec fn scope_lists(&self) -> Option<Seq<Seq<usize>>> {
        match self.scopes {
            Some(lists) => Some(index_views(lists@)),
            None => None,
        }
    }
}

/// Whether an index occurs in a list.
fn contains_index(list: &Vec<usize>, index: usize) -> (found: bool)
    ensures
        found == list@.contains(index),
{
    let mut k: usize = 0;
    while k < list.len()
        invariant
            k <= list.len(),
            forall|t: int| 0 <= t < k ==> list@[t] != index,
        decreases list.len() - k,
    {
        if list[k] == index {
            return true;
        }
        k += 1;
    }
    false
}

impl<'a> PairOracle for CorpusOracle<'a> {
    closed spec fn ready(&self) -> bool {
        &&& self.settings.wf()
        &&& self.records@.len() == self.corpus@.len()
        &&& forall|i: int|
            0 <= i < self.records@.len() ==> {
                &&& (#[trigger] self.records@[i]).describes(
                    self.settings,
                    self.config@,
                    self.corpus@[i],
                )
                &&& self.records@[i].within_limit()
            }
        &&& grouping_error(self.settings, self.config@, self.corpus@, self.table()) is None
        &&& self.scopes matches Some(lists) ==> lists@.len() == self.records@.len()
    }

    closed spec fn size(&self) -> nat {
        self.records@.len()
    }

    closed spec fn link(&self, i: int, j: int) -> Option<Score> {
        scoped_links(self.settings, self.config@, self.corpus@, self.table(), self.scope_lists())(
            i,
            j,
        )
    }

    fn count(&self) -> (n: usize) {
        self.records.len()
    }

    fn probe(&self, i: usize, j: usize) -> (answer: Option<Score>) {
        let candidate = match self.scopes {
            Some(lists) => contains_index(&lists[i], j),
            None => true,
        };
        if !candidate {
            return None;
        }
        let a = &self.records[i];
        let b = &self.records[j];
        let outside: Option<Score> = match self.outside {
            Some(table) => {
                if self.settings.similarity_method.needs_outside_scores() {
                    Some(table.rows[i][j - i - 1])
                } else {
                    None
                }
            },
            None => None,
        };
        proof {
            let given: Option<Score> = match self.table() {
                Some(table) => Some(table.entry(i as int, j as int)),
                None => None,
            };
            assert(method_similarity(
                self.settings,
                a.canonical@,
                b.canonical@,
                outside,
            ) == method_similarity(self.settings, a.canonical@, b.canonical@, given));
        }
        let outcome = score_prepared(
            &self.settings,
            a,
            b,
            outside,
            Ghost(self.config@),
            Ghost(self.corpus@[i as int]),
            Ghost(self.corpus@[j as int]),
        );
        match outcome {
            Some(score) => {
                let threshold = adapt_threshold(
                    self.settings.similarity_threshold,
                    self.settings.adaptive_thresholding,
                    a.given_len,
                    b.given_len,
                );
                if score.meets(threshold) {
                    Some(score)
                } else {
                    None
                }
            },
            None => None,
        }
    }
}

/// The text classifier: a corpus with the strategy and the configuration
/// under which it is compared.
pub struct TextClassifier {
    texts: Vec<String>,
    strategy: DedupStrategySettings,
    config: DynamicConfig,
}

impl Default for TextClassifier {
    fn default() -> (classifier: Self)
        ensures
            classifier.wf(),
            classifier.corpus() == Seq::<Seq<char>>::empty(),
            classifier.settings() == DedupStrategySettings::spec_default(),
            classifier.resources().base.is_standard(),
            classifier.resources().user_stop_words@.len() == 0,
            classifier.resources().user_sentence_delimiters@.len() == 0,
            classifier.resources().user_paragraph_delimiters is None,
    {
        TextClassifier::new(DedupStrategySettings::default())
    }
}

impl TextClassifier {
    /// The texts of the corpus in the order in which they were added.
    pub closed spec fn corpus(&self) -> Seq<Seq<char>> {
        string_views(self.texts@)
    }

    /// The strategy in force.
    pub closed spec fn settings(&self) -> DedupStrategySettings {
        self.strategy
    }

    /// The configuration in force.
    pub closed spec fn resources(&self) -> DynamicConfig {
        self.config
    }

    /// The strategy in force is within its ranges.
    pub open spec fn wf(&self) -> bool {
        self.settings().wf()
    }

    /// Creates a classifier with an empty corpus, the given strategy, brought
    /// into its ranges, and the standard configuration.
    pub fn new(strategy: DedupStrategySettings) -> (classifier: Self)
        ensures
            classifier.wf(),
            classifier.corpus() == Seq::<Seq<char>>::empty(),
            classifier.settings() == repaired(strategy),
            classifier.resources().base.is_standard(),
            classifier.resources().user_stop_words@.len() == 0,
            classifier.resources().user_sentence_delimiters@.len() == 0,
            classifier.resources().user_paragraph_delimiters is None,
    {
        let classifier = TextClassifier {
            texts: Vec::new(),
            strategy: repair(strategy),
            config: DynamicConfig::default(),
        };
        assert(classifier.corpus() =~= Seq::<Seq<char>>::empty());
        classifier
    }

    /// Appends a text to the corpus and returns its index.
    pub fn add_text(&mut self, text: String) -> (index: usize)
        ensures
            index == old(self).corpus().len(),
            final(self).corpus() == old(self).corpus().push(text@),
            final(self).settings() == old(self).settings(),
            final(self).resources() == old(self).resources(),
    {
        let index = self.texts.len();
        proof {
            assert(string_views(self.texts@.push(text)) =~= string_views(self.texts@).push(text@));
        }
        self.texts.push(text);
        index
    }

    /// The text at an index, if the corpus has one there.
    pub fn get_text(&self, idx: usize) -> (text: Option<String>)
        ensures
            idx < self.corpus().len() ==> (text matches Some(found) && found@
                == self.corpus()[idx as int]),
            idx >= self.corpus().len() ==> text is None,
    {
        if idx < self.texts.len() {
            Some(self.texts[idx].clone())
        } else {
            None
        }
    }

    /// The number of texts in the corpus.
    pub fn len(&self) -> (n: usize)
        ensures
            n == self.corpus().len(),
    {
        self.texts.len()
    }

    /// All texts of the corpus, in order.
    pub fn get_all_texts(&self) -> (all: Vec<String>)
        ensures
            string_views(all@) == self.corpus(),
    {
        let mut all: Vec<String> = Vec::new();
        let mut i: usize = 0;
        while i < self.texts.len()
            invariant
                i <= self.texts.len(),
                all.len() == i,
                forall|k: int| 0 <= k < i ==> (#[trigger] all@[k])@ == self.texts@[k]@,
            decreases self.texts.len() - i,
        {
            all.push(self.texts[i].clone());
            i += 1;
        }
        assert(string_views(all@) =~= string_views(self.texts@));
        all
    }

    /// Empties the corpus. Strategy and configuration stay.
    pub fn clear(&mut self)
        ensures
            final(self).corpus() == Seq::<Seq<char>>::empty(),
            final(self).settings() == old(self).settings(),
            final(self).resources() == old(self).resources(),
    {
        self.texts.clear();
        assert(self.corpus() =~= Seq::<Seq<char>>::empty());
    }

    /// Replaces the strategy, brought into its ranges. The corpus stays.
    pub fn update_strategy(&mut self, strategy: DedupStrategySettings)
        ensures
            final(self).wf(),
            final(self).settings() == repaired(strategy),
            final(self).corpus() == old(self).corpus(),
            final(self).resources() == old(self).resources(),
    {
        self.strategy = repair(strategy);
    }

    /// The strategy in force.
    pub fn get_strategy(&self) -> (strategy: &DedupStrategySettings)
        ensures
            *strategy == self.settings(),
    {
        &self.strategy
    }

    /// Replaces the configuration. Corpus and strategy stay.
    pub fn update_config(&mut self, config: DynamicConfig)
        ensures
            final(self).resources() == config,
            final(self).corpus() == old(self).corpus(),
            final(self).settings() == old(self).settings(),
    {
        self.config = config;
    }

    /// The canonical form of a text under the strategy in force.
    pub fn normalize_text(&self, text: &str) -> (out: String)
        ensures
            out@ == canonical_form(self.settings(), self.resources(), text@),
    {
        normalize(&self.strategy, &self.config, text)
    }

    /// The units of a text under the split strategy in force.
    pub fn split_text(&self, text: &str) -> (out: Vec<String>)
        ensures
            string_views(out@) == units(
                text@,
                self.settings().split_strategy,
                self.resources().merged_sentence_delimiters(),
                self.resources().paragraph_delimiter(),
            ),
    {
        split_text_by_strategy(text, self.strategy.split_strategy, &self.config)
    }

    /// The positions of the units of a text that share the containing scope
    /// of the unit at `current_idx`.
    pub fn get_local_scope_units(&self, text: &str, current_idx: usize) -> (scope: Vec<usize>)
        ensures
            scope@ == local_scope(
                text@,
                current_idx as nat,
                self.settings().split_strategy,
                self.resources().merged_sentence_delimiters(),
                self.resources().paragraph_delimiter(),
            ),
    {
        let chars = chars_of(text);
        let sentence_delimiters = self.config.merge_sentence_delimiters();
        let paragraph_delimiter = chars_of(self.config.get_paragraph_delimiters());
        local_scope_units(
            &chars,
            current_idx,
            self.strategy.split_strategy,
            &sentence_delimiters,
            &paragraph_delimiter,
        )
    }

    /// Scores two texts under the strategy in force. `outside` is the score
    /// of the two canonical forms from a scorer outside this library; only
    /// the methods that are scored outside read it.
    pub fn calculate_similarity(
        &self,
        text1: &str,
        text2: &str,
        outside: Option<Score>,
    ) -> (outcome: Result<Score, AppError>)
        requires
            self.wf(),
        ensures
            match similarity_outcome(self.settings(), self.resources(), text1@, text2@, outside) {
                Ok(score) => outcome == Ok::<Score, AppError>(score),
                Err(code) => outcome matches Err(error) && error.code == code,
            },
            outcome matches Ok(score) ==> score.wf(),
    {
        if byte_length(text1) < self.strategy.min_length || byte_length(text2)
            < self.strategy.min_length {
            return Ok(Score::zero());
        }
        let a = prepare(&self.strategy, &self.config, text1);
        let b = prepare(&self.strategy, &self.config, text2);
        if byte_length(a.canonical.as_str()) > MAX_TEXT_BYTES || byte_length(b.canonical.as_str())
            > MAX_TEXT_BYTES {
            return Err(
                AppError::new(ErrorCode::InvalidInput, "canonical text is too long".to_owned()),
            );
        }
        match score_prepared(
            &self.strategy,
            &a,
            &b,
            outside,
            Ghost(self.config),
            Ghost(text1@),
            Ghost(text2@),
        ) {
            Some(score) => Ok(score),
            None => Err(
                AppError::new(
                    ErrorCode::InternalError,
                    "no score from the outside scorer".to_owned(),
                ),
            ),
        }
    }

    /// Groups the corpus. `outside` holds the scores of the pairs where the
    /// method is one that is scored outside this library; other methods do
    /// not read it. Every item of a corpus is a text of its own, so every
    /// later item is a candidate under either comparison scope.
    pub fn find_duplicates(&self, outside: Option<&PairScores>) -> (outcome: Result<
        Vec<IndexGroup>,
        AppError,
    >)
        requires
            self.wf(),
        ensures
            match grouping_error(
                self.settings(),
                self.resources(),
                self.corpus(),
                match outside {
                    Some(table) => Some(*table),
                    None => None,
                },
            ) {
                Some(code) => outcome matches Err(error) && error.code == code,
                None => outcome matches Ok(groups) && {
                    &&& groups_view(groups@) == greedy_groups(
                        corpus_links(
                            self.settings(),
                            self.resources(),
                            self.corpus(),
                            match outside {
                                Some(table) => Some(*table),
                                None => None,
                            },
                        ),
                        self.corpus().len() as int,
                    )
                    &&& 0 <= duplicates_total(groups_view(groups@)) <= self.corpus().len()
                    &&& forall|p: int|
                        0 <= p < groups@.len() ==> (#[trigger] groups@[p]).similarity.wf()
                },
            },
    {
        proof {
            let table: Option<PairScores> = match outside {
                Some(table) => Some(*table),
                None => None,
            };
            assert(scoped_links(self.strategy, self.config, self.corpus(), table, None)
                =~= corpus_links(self.strategy, self.config, self.corpus(), table));
        }
        group_texts(&self.strategy, &self.config, &self.texts, outside, None)
    }

    /// Splits a document into units and groups the units. Under local
    /// comparison a unit is compared only with the units that share its
    /// containing scope; under global comparison with every later unit.
    pub fn find_duplicate_units(&self, document: &str, outside: Option<&PairScores>) -> (outcome:
        Result<Vec<IndexGroup>, AppError>)
        requires
            self.wf(),
        ensures
            match grouping_error(
                self.settings(),
                self.resources(),
                document_units(self.settings(), self.resources(), document@),
                match outside {
                    Some(table) => Some(*table),
                    None => None,
                },
            ) {
                Some(code) => outcome matches Err(error) && error.code == code,
                None => outcome matches Ok(groups) && {
                    &&& groups_view(groups@) == greedy_groups(
                        unit_links(
                            self.settings(),
                            self.resources(),
                            document@,
                            match outside {
                                Some(table) => Some(*table),
                                None => None,
                            },
                        ),
                        document_units(self.settings(), self.resources(), document@).len() as int,
                    )
                    &&& forall|p: int|
                        0 <= p < groups@.len() ==> (#[trigger] groups@[p]).similarity.wf()
                },
            },
    {
        let list = split_text_by_strategy(document, self.strategy.split_strategy, &self.config);
        match self.strategy.comparison_scope {
            ComparisonScope::Global => group_texts(
                &self.strategy,
                &self.config,
                &list,
                outside,
                None,
            ),
            ComparisonScope::Local => {
                let chars = chars_of(document);
                let sentence_delimiters = self.config.merge_sentence_delimiters();
                let paragraph_delimiter = chars_of(self.config.get_paragraph_delimiters());
                let mut scopes: Vec<Vec<usize>> = Vec::new();
                let mut i: usize = 0;
                while i < list.len()
                    invariant
                        i <= list.len(),
                        chars@ == document@,
                        sentence_delimiters@ == self.config.merged_sentence_delimiters(),
                        paragraph_delimiter@ == self.config.paragraph_delimiter(),
                        scopes@.len() == i,
                        forall|k: int|
                            0 <= k < i ==> (#[trigger] scopes@[k])@ == local_scope(
                                document@,
                                k as nat,
                                self.strategy.split_strategy,
                                self.config.merged_sentence_delimiters(),
                                self.config.paragraph_delimiter(),
                            ),
                    decreases list.len() - i,
                {
                    scopes.push(
                        local_scope_units(
                            &chars,
                            i,
                            self.strategy.split_strategy,
                            &sentence_delimiters,
                            &paragraph_delimiter,
                        ),
                    );
                    i += 1;
                }
                proof {
                    assert(Some(index_views(scopes@)) =~= document_scopes(
                        self.strategy,
                        self.config,
                        document@,
                    ));
                }
                group_texts(&self.strategy, &self.config, &list, outside, Some(&scopes))
            },
        }
    }
}

/// Groups a list of texts, within scopes where scopes are given.
fn group_texts(
    settings: &DedupStrategySettings,
    config: &DynamicConfig,
    texts: &Vec<String>,
    outside: Option<&PairScores>,
    scopes: Option<&Vec<Vec<usize>>>,
) -> (outcome: Result<Vec<IndexGroup>, AppError>)
    requires
        settings.wf(),
        scopes matches Some(lists) ==> lists@.len() == texts@.len(),
    ensures
        match grouping_error(
            *settings,
            *config,
            string_views(texts@),
            match outside {
                Some(table) => Some(*table),
                None => None,
            },
        ) {
            Some(code) => outcome matches Err(error) && error.code == code,
            None => outcome matches Ok(groups) && {
                &&& groups_view(groups@) == greedy_groups(
                    scoped_links(
                        *settings,
                        *config,
                        string_views(texts@),
                        match outside {
                            Some(table) => Some(*table),
                            None => None,
                        },
                        match scopes {
                            Some(lists) => Some(index_views(lists@)),
                            None => None,
                        },
                    ),
                    texts@.len() as int,
                )
                &&& 0 <= duplicates_total(groups_view(groups@)) <= texts@.len()
                &&& forall|p: int| 0 <= p < groups@.len() ==> (#[trigger] groups@[p]).similarity.wf()
            },
        },
{
    let ghost corpus = string_views(texts@);
    let ghost table: Option<PairScores> = match outside {
        Some(table) => Some(*table),
        None => None,
    };
    let ghost lists: Option<Seq<Seq<usize>>> = match scopes {
        Some(lists) => Some(index_views(lists@)),
        None => None,
    };
    let n: usize = texts.len();
    let mut records: Vec<Prepared> = Vec::new();
    let mut i: usize = 0;
    while i < n
        invariant
            i <= n,
            n == texts@.len(),
            corpus == string_views(texts@),
            records@.len() == i,
            forall|k: int|
                0 <= k < i ==> {
                    &&& (#[trigger] records@[k]).describes(*settings, *config, corpus[k])
                    &&& records@[k].within_limit()
                },
        decreases n - i,
    {
        let record = prepare(settings, config, texts[i].as_str());
        if byte_length(record.canonical.as_str()) > MAX_TEXT_BYTES {
            proof {
                assert(oversized(*settings, *config, corpus[i as int]));
            }
            return Err(
                AppError::new(ErrorCode::InvalidInput, "canonical text is too long".to_owned()),
            );
        }
        records.push(record);
        i += 1;
    }
    proof {
        assert forall|k: int| 0 <= k < corpus.len() implies !oversized(
            *settings,
            *config,
            #[trigger] corpus[k],
        ) by {
            assert(records@[k].within_limit());
        }
    }
    if n > 0 && settings.similarity_method.needs_outside_scores() {
        let covered = match outside {
            Some(table) => table.check_covers(n),
            None => false,
        };
        if !covered {
            return Err(
                AppError::new(
                    ErrorCode::InternalError,
                    "no scores from the outside scorer".to_owned(),
                ),
            );
        }
    }
    let oracle = CorpusOracle {
        settings: *settings,
        records: &records,
        outside,
        scopes,
        config: Ghost(*config),
        corpus: Ghost(corpus),
    };
    proof {
        assert(oracle.table() == table);
        assert(oracle.scope_lists() == lists);
        assert(links_of(&oracle) =~= scoped_links(*settings, *config, corpus, table, lists));
    }
    Ok(group_greedily(&oracle))
}

} // verus!
