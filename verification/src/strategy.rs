//! The strategy record that parameterises the engine, and the checks that
//! turn a loosely filled document into it.

use vstd::prelude::*;
use crate::error::{AppError, ErrorCode};
use vstd::string::StringExecFns;
use crate::text::{lowercase, same_text};
use crate::score::THRESHOLD_ONE;

verus! {

/// The fuzzy matching algorithms.
#[derive(Debug, Clone, Copy, PartialEq, Eq, Structural)]
pub enum FuzzyAlgorithm {
    /// Edit distance in which exchanging two neighbours is one edit.
    DamerauLevenshtein,
    /// Jaro-Winkler similarity, which favours a common prefix.
    JaroWinkler,
    /// Equality of phonetic codes.
    Soundex,
    /// Jaccard similarity of character n-grams.
    NGram,
}

/// How two texts are compared.
#[derive(Debug, Clone, Copy, PartialEq, Eq, Structural)]
pub enum SimilarityMethod {
    Exact,
    Semantic,
    Levenshtein,
    Fuzzy(FuzzyAlgorithm),
}

/// The units that a text is split into.
#[derive(Debug, Clone, Copy, PartialEq, Eq, Structural)]
pub enum SplitStrategy {
    Words,
    Sentences,
    Paragraphs,
    Characters,
    WholeText,
}

/// Which items an item is compared with.
#[derive(Debug, Clone, Copy, PartialEq, Eq, Structural)]
pub enum ComparisonScope {
    Local,
    Global,
}

/// Ways of rescaling a similarity.
#[derive(Debug, Clone, Copy, PartialEq, Eq, Structural)]
pub enum WeightingStrategy {
    Linear,
    Quadratic,
    Exponential,
    Logarithmic,
    WeightedMean,
}

impl Default for SimilarityMethod {
    fn default() -> (method: Self)
        ensures
            method == SimilarityMethod::Exact,
    {
        SimilarityMethod::Exact
    }
}

impl Default for FuzzyAlgorithm {
    fn default() -> (algorithm: Self)
        ensures
            algorithm == FuzzyAlgorithm::DamerauLevenshtein,
    {
        FuzzyAlgorithm::DamerauLevenshtein
    }
}

impl SimilarityMethod {
    /// Whether the score of a pair comes from a scorer outside this library:
    /// Jaro-Winkler and the semantic encoder work in floating point.
    pub open spec fn is_outside(&self) -> bool {
        self == SimilarityMethod::Semantic || self == SimilarityMethod::Fuzzy(
            FuzzyAlgorithm::JaroWinkler,
        )
    }

    /// The methods whose score this library computes from a definition that
    /// treats both texts alike: exact match, Levenshtein, phonetic code and
    /// n-gram overlap. The Damerau-Levenshtein distance and the outside
    /// scores are taken as they come.
    pub open spec fn is_even_handed(&self) -> bool {
        self == SimilarityMethod::Exact || self == SimilarityMethod::Levenshtein || self
            == SimilarityMethod::Fuzzy(FuzzyAlgorithm::Soundex) || self == SimilarityMethod::Fuzzy(
            FuzzyAlgorithm::NGram,
        )
    }

    /// Whether the score of a pair comes from a scorer outside this library.
    pub fn needs_outside_scores(&self) -> (b: bool)
        ensures
            b == self.is_outside(),
    {
        match self {
            SimilarityMethod::Semantic => true,
            SimilarityMethod::Fuzzy(FuzzyAlgorithm::JaroWinkler) => true,
            _ => false,
        }
    }
}

impl SplitStrategy {
    /// The scope that contains a unit: one level above the unit itself.
    pub open spec fn spec_containing(&self) -> SplitStrategy {
        match self {
            SplitStrategy::Characters => SplitStrategy::Words,
            SplitStrategy::Words => SplitStrategy::Sentences,
            SplitStrategy::Sentences => SplitStrategy::Paragraphs,
            SplitStrategy::Paragraphs => SplitStrategy::WholeText,
            SplitStrategy::WholeText => SplitStrategy::WholeText,
        }
    }

    /// The scope that contains a unit.
    pub fn containing(&self) -> (scope: SplitStrategy)
        ensures
            scope == self.spec_containing(),
    {
        match self {
            SplitStrategy::Characters => SplitStrategy::Words,
            SplitStrategy::Words => SplitStrategy::Sentences,
            SplitStrategy::Sentences => SplitStrategy::Paragraphs,
            SplitStrategy::Paragraphs => SplitStrategy::WholeText,
            SplitStrategy::WholeText => SplitStrategy::WholeText,
        }
    }
}

/// The strategy: every setting that decides how texts are canonicalised,
/// compared and grouped.
#[derive(Debug, Clone, Copy, PartialEq, Eq, Structural)]
pub struct DedupStrategySettings {
    /// Keep the case of letters; otherwise texts are compared in lowercase.
    pub case_sensitive: bool,
    /// Collapse runs of whitespace into single spaces.
    pub ignore_whitespace: bool,
    /// Drop ASCII punctuation.
    pub ignore_punctuation: bool,
    /// Decompose characters canonically.
    pub normalize_unicode: bool,
    /// Drop the stop words of the language.
    pub ignore_stopwords: bool,
    /// Replace words by their stems.
    pub stemming: bool,
    /// Keep only ASCII and alphanumeric characters.
    pub encoding_normalization: bool,
    /// Detect the language of every text; otherwise English is assumed.
    pub language_detection: bool,
    /// The units that a document is split into.
    pub split_strategy: SplitStrategy,
    /// Whether a unit of a document is compared with every later unit or
    /// only with those of its containing scope. The items of a corpus are
    /// texts of their own and are always compared with every later item.
    pub comparison_scope: ComparisonScope,
    /// The least length of a text that is compared at all, in bytes of the
    /// text as it was given, before any normalisation.
    pub min_length: usize,
    /// The length of the character n-grams, at least one.
    pub ngram_size: usize,
    /// How two canonical forms are scored.
    pub similarity_method: SimilarityMethod,
    /// The score that a pair must reach to be grouped, in millionths.
    pub similarity_threshold: u32,
    /// Hold short pairs to a stricter and long pairs to a looser threshold.
    pub adaptive_thresholding: bool,
    /// Allows a scorer outside this library to work on several pairs at
    /// once. The grouping pass itself visits the items in order.
    pub use_parallel: bool,
}

impl DedupStrategySettings {
    /// The n-gram size is at least one and the threshold at most one.
    pub open spec fn wf(&self) -> bool {
        self.ngram_size >= 1 && self.similarity_threshold <= THRESHOLD_ONE
    }

    /// The strategy that is in force until another one is set.
    pub open spec fn spec_default() -> DedupStrategySettings {
        DedupStrategySettings {
            case_sensitive: false,
            ignore_whitespace: true,
            ignore_punctuation: true,
            normalize_unicode: true,
            ignore_stopwords: false,
            stemming: false,
            encoding_normalization: true,
            language_detection: false,
            split_strategy: SplitStrategy::Words,
            comparison_scope: ComparisonScope::Global,
            min_length: 10,
            ngram_size: 3,
            similarity_method: SimilarityMethod::Exact,
            similarity_threshold: 800_000,
            adaptive_thresholding: false,
            use_parallel: true,
        }
    }
}

impl Default for DedupStrategySettings {
    fn default() -> (settings: Self)
        ensures
            settings == DedupStrategySettings::spec_default(),
            settings.wf(),
    {
        DedupStrategySettings {
            case_sensitive: false,
            ignore_whitespace: true,
            ignore_punctuation: true,
            normalize_unicode: true,
            ignore_stopwords: false,
            stemming: false,
            encoding_normalization: true,
            language_detection: false,
            split_strategy: SplitStrategy::Words,
            comparison_scope: ComparisonScope::Global,
            min_length: 10,
            ngram_size: 3,
            similarity_method: SimilarityMethod::Exact,
            similarity_threshold: 800_000,
            adaptive_thresholding: false,
            use_parallel: true,
        }
    }
}

/// A strategy as it arrives from outside: every field may be missing, enum
/// values are names, numbers are signed and the threshold, in millionths, may
/// lie outside the unit interval.
#[derive(Debug)]
pub struct StrategyDocument {
    pub case_sensitive: Option<bool>,
    pub ignore_whitespace: Option<bool>,
    pub ignore_punctuation: Option<bool>,
    pub normalize_unicode: Option<bool>,
    pub ignore_stopwords: Option<bool>,
    pub stemming: Option<bool>,
    pub encoding_normalization: Option<bool>,
    pub language_detection: Option<bool>,
    pub split_strategy: Option<String>,
    pub comparison_scope: Option<String>,
    pub min_length: Option<i64>,
    pub ngram_size: Option<i64>,
    pub similarity_method: Option<String>,
    /// The algorithm named under the method `Fuzzy`.
    pub fuzzy_algorithm: Option<String>,
    pub similarity_threshold: Option<i64>,
    pub adaptive_thresholding: Option<bool>,
    pub use_parallel: Option<bool>,
}

/// A strategy in canonical form, and whether its threshold had to be moved
/// into the unit interval.
#[derive(Debug, Clone, Copy, PartialEq, Eq, Structural)]
pub struct StrategyUpdate {
    pub settings: DedupStrategySettings,
    pub threshold_clamped: bool,
}

/// The split strategy that a name stands for.
pub open spec fn parse_split(name: Seq<char>) -> Option<SplitStrategy> {
    if name == "Characters"@ {
        Some(SplitStrategy::Characters)
    } else if name == "Words"@ {
        Some(SplitStrategy::Words)
    } else if name == "Sentences"@ {
        Some(SplitStrategy::Sentences)
    } else if name == "Paragraphs"@ {
        Some(SplitStrategy::Paragraphs)
    } else if name == "WholeText"@ {
        Some(SplitStrategy::WholeText)
    } else {
        None
    }
}

/// The comparison scope that a name stands for.
pub open spec fn parse_scope(name: Seq<char>) -> Option<ComparisonScope> {
    if name == "Local"@ {
        Some(ComparisonScope::Local)
    } else if name == "Global"@ {
        Some(ComparisonScope::Global)
    } else {
        None
    }
}

/// The fuzzy algorithm that a name stands for.
pub open spec fn parse_fuzzy(name: Seq<char>) -> Option<FuzzyAlgorithm> {
    if name == "DamerauLevenshtein"@ {
        Some(FuzzyAlgorithm::DamerauLevenshtein)
    } else if name == "JaroWinkler"@ {
        Some(FuzzyAlgorithm::JaroWinkler)
    } else if name == "Soundex"@ {
        Some(FuzzyAlgorithm::Soundex)
    } else if name == "NGram"@ {
        Some(FuzzyAlgorithm::NGram)
    } else {
        None
    }
}

/// The method that a name stands for. `Fuzzy` needs the name of its
/// algorithm beside it.
pub open spec fn parse_method(name: Seq<char>, algorithm: Option<Seq<char>>) -> Option<
    SimilarityMethod,
> {
    if name == "Exact"@ {
        Some(SimilarityMethod::Exact)
    } else if name == "Semantic"@ {
        Some(SimilarityMethod::Semantic)
    } else if name == "Levenshtein"@ {
        Some(SimilarityMethod::Levenshtein)
    } else if name == "Fuzzy"@ {
        match algorithm {
            Some(inner) => match parse_fuzzy(inner) {
                Some(fuzzy) => Some(SimilarityMethod::Fuzzy(fuzzy)),
                None => None,
            },
            None => None,
        }
    } else {
        None
    }
}

/// A signed count as an unsigned one: negative numbers count as zero and
/// numbers beyond the machine's range as the greatest the machine has.
pub open spec fn coerce_count(value: i64) -> usize {
    if value < 0 {
        0
    } else if value > usize::MAX {
        usize::MAX
    } else {
        value as usize
    }
}

/// An n-gram size is at least one.
pub open spec fn coerce_ngram_size(value: i64) -> usize {
    if value < 1 {
        1
    } else {
        coerce_count(value)
    }
}

/// A threshold in millionths, moved into the unit interval.
pub open spec fn clamp_threshold(value: i64) -> u32 {
    if value < 0 {
        0
    } else if value > THRESHOLD_ONE {
        THRESHOLD_ONE
    } else {
        value as u32
    }
}

/// A flag, or its default where it is missing.
pub open spec fn flag_or(value: Option<bool>, default: bool) -> bool {
    match value {
        Some(flag) => flag,
        None => default,
    }
}

impl StrategyDocument {
    /// The split strategy that the document asks for, if it names a known one.
    pub open spec fn wanted_split(&self) -> Option<SplitStrategy> {
        match self.split_strategy {
            Some(name) => parse_split(name@),
            None => Some(SplitStrategy::Words),
        }
    }

    /// The comparison scope that the document asks for, if it names a known one.
    pub open spec fn wanted_scope(&self) -> Option<ComparisonScope> {
        match self.comparison_scope {
            Some(name) => parse_scope(name@),
            None => Some(ComparisonScope::Global),
        }
    }

    /// The method that the document asks for, if it names a known one.
    pub open spec fn wanted_method(&self) -> Option<SimilarityMethod> {
        match self.similarity_method {
            Some(name) => parse_method(
                name@,
                match self.fuzzy_algorithm {
                    Some(inner) => Some(inner@),
                    None => None,
                },
            ),
            None => Some(SimilarityMethod::Exact),
        }
    }

    /// Every enum value that the document names is a known one.
    pub open spec fn is_valid(&self) -> bool {
        self.wanted_split() is Some && self.wanted_scope() is Some && self.wanted_method() is Some
    }

    /// Whether the threshold of the document lies outside the unit interval.
    pub open spec fn threshold_out_of_range(&self) -> bool {
        match self.similarity_threshold {
            Some(value) => value < 0 || value > THRESHOLD_ONE,
            None => false,
        }
    }

    /// The strategy that a valid document stands for: missing fields take
    /// their defaults, negative counts become zero, an n-gram size below one
    /// becomes one and the threshold is moved into the unit interval.
    pub open spec fn canonical(&self) -> DedupStrategySettings {
        DedupStrategySettings {
            case_sensitive: flag_or(self.case_sensitive, false),
            ignore_whitespace: flag_or(self.ignore_whitespace, true),
            ignore_punctuation: flag_or(self.ignore_punctuation, true),
            normalize_unicode: flag_or(self.normalize_unicode, true),
            ignore_stopwords: flag_or(self.ignore_stopwords, false),
            stemming: flag_or(self.stemming, false),
            encoding_normalization: flag_or(self.encoding_normalization, true),
            language_detection: flag_or(self.language_detection, false),
            split_strategy: self.wanted_split()->0,
            comparison_scope: self.wanted_scope()->0,
            min_length: match self.min_length {
                Some(value) => coerce_count(value),
                None => 10,
            },
            ngram_size: match self.ngram_size {
                Some(value) => coerce_ngram_size(value),
                None => 3,
            },
            similarity_method: self.wanted_method()->0,
            similarity_threshold: match self.similarity_threshold {
                Some(value) => clamp_threshold(value),
                None => 800_000,
            },
            adaptive_thresholding: flag_or(self.adaptive_thresholding, false),
            use_parallel: flag_or(self.use_parallel, true),
        }
    }

    /// A document without any field.
    pub fn empty() -> (document: Self)
        ensures
            document.is_valid(),
            document.canonical() == DedupStrategySettings::spec_default(),
            !document.threshold_out_of_range(),
    {
        StrategyDocument {
            case_sensitive: None,
            ignore_whitespace: None,
            ignore_punctuation: None,
            normalize_unicode: None,
            ignore_stopwords: None,
            stemming: None,
            encoding_normalization: None,
            language_detection: None,
            split_strategy: None,
            comparison_scope: None,
            min_length: None,
            ngram_size: None,
            similarity_method: None,
            fuzzy_algorithm: None,
            similarity_threshold: None,
            adaptive_thresholding: None,
            use_parallel: None,
        }
    }
}

fn read_split(name: &str) -> (split: Option<SplitStrategy>)
    ensures
        split == parse_split(name@),
{
    if same_text(name, "Characters") {
        Some(SplitStrategy::Characters)
    } else if same_text(name, "Words") {
        Some(SplitStrategy::Words)
    } else if same_text(name, "Sentences") {
        Some(SplitStrategy::Sentences)
    } else if same_text(name, "Paragraphs") {
        Some(SplitStrategy::Paragraphs)
    } else if same_text(name, "WholeText") {
        Some(SplitStrategy::WholeText)
    } else {
        None
    }
}

fn read_scope(name: &str) -> (scope: Option<ComparisonScope>)
    ensures
        scope == parse_scope(name@),
{
    if same_text(name, "Local") {
        Some(ComparisonScope::Local)
    } else if same_text(name, "Global") {
        Some(ComparisonScope::Global)
    } else {
        None
    }
}

/// The algorithm that a loosely written name stands for: the name is read
/// without regard to case, and the first algorithm may be written with an
/// underscore between its two words.
pub open spec fn parse_fuzzy_loosely(name: Seq<char>) -> Option<FuzzyAlgorithm> {
    let lowered = lowercase(name);
    if lowered == "dameraulevenshtein"@ || lowered == "damerau_levenshtein"@ {
        Some(FuzzyAlgorithm::DamerauLevenshtein)
    } else if lowered == "jarowinkler"@ {
        Some(FuzzyAlgorithm::JaroWinkler)
    } else if lowered == "soundex"@ {
        Some(FuzzyAlgorithm::Soundex)
    } else if lowered == "ngram"@ {
        Some(FuzzyAlgorithm::NGram)
    } else {
        None
    }
}

impl core::str::FromStr for FuzzyAlgorithm {
    type Err = String;

    /// Reads a loosely written name of an algorithm, as `from_loose_name`
    /// does.
    fn from_str(s: &str) -> (outcome: Result<Self, String>)
        ensures
            match parse_fuzzy_loosely(s@) {
                Some(algorithm) => outcome == Ok::<FuzzyAlgorithm, String>(algorithm),
                None => outcome matches Err(message) && message@ == "Unknown fuzzy algorithm: "@
                    + s@,
            },
    {
        FuzzyAlgorithm::from_loose_name(s)
    }
}

impl FuzzyAlgorithm {
    /// Reads a loosely written name of an algorithm. The error names the
    /// text that was not understood.
    pub fn from_loose_name(name: &str) -> (outcome: Result<FuzzyAlgorithm, String>)
        ensures
            match parse_fuzzy_loosely(name@) {
                Some(algorithm) => outcome == Ok::<FuzzyAlgorithm, String>(algorithm),
                None => outcome matches Err(message) && message@ == "Unknown fuzzy algorithm: "@
                    + name@,
            },
    {
        let lowered = name.to_lowercase();
        let text = lowered.as_str();
        if same_text(text, "dameraulevenshtein") || same_text(text, "damerau_levenshtein") {
            Ok(FuzzyAlgorithm::DamerauLevenshtein)
        } else if same_text(text, "jarowinkler") {
            Ok(FuzzyAlgorithm::JaroWinkler)
        } else if same_text(text, "soundex") {
            Ok(FuzzyAlgorithm::Soundex)
        } else if same_text(text, "ngram") {
            Ok(FuzzyAlgorithm::NGram)
        } else {
            Err("Unknown fuzzy algorithm: ".to_owned().concat(name))
        }
    }

    /// Reads the name of an algorithm as documents spell it.
    pub fn parse(name: &str) -> (algorithm: Option<FuzzyAlgorithm>)
        ensures
            algorithm == parse_fuzzy(name@),
    {
        if same_text(name, "DamerauLevenshtein") {
            Some(FuzzyAlgorithm::DamerauLevenshtein)
        } else if same_text(name, "JaroWinkler") {
            Some(FuzzyAlgorithm::JaroWinkler)
        } else if same_text(name, "Soundex") {
            Some(FuzzyAlgorithm::Soundex)
        } else if same_text(name, "NGram") {
            Some(FuzzyAlgorithm::NGram)
        } else {
            None
        }
    }
}

fn read_method(name: &str, algorithm: &Option<String>) -> (method: Option<SimilarityMethod>)
    ensures
        method == parse_method(
            name@,
            match algorithm {
                Some(inner) => Some(inner@),
                None => None,
            },
        ),
{
    if same_text(name, "Exact") {
        Some(SimilarityMethod::Exact)
    } else if same_text(name, "Semantic") {
        Some(SimilarityMethod::Semantic)
    } else if same_text(name, "Levenshtein") {
        Some(SimilarityMethod::Levenshtein)
    } else if same_text(name, "Fuzzy") {
        match algorithm {
            Some(inner) => match FuzzyAlgorithm::parse(inner.as_str()) {
                Some(fuzzy) => Some(SimilarityMethod::Fuzzy(fuzzy)),
                None => None,
            },
            None => None,
        }
    } else {
        None
    }
}

fn count_from(value: i64) -> (count: usize)
    ensures
        count == coerce_count(value),
{
    if value < 0 {
        0
    } else if value as u64 > usize::MAX as u64 {
        usize::MAX
    } else {
        value as usize
    }
}

fn flag_from(value: Option<bool>, default: bool) -> (flag: bool)
    ensures
        flag == flag_or(value, default),
{
    match value {
        Some(flag) => flag,
        None => default,
    }
}

/// Checks a document and brings it into canonical form. A document that
/// names an unknown method, split strategy or scope is rejected; everything
/// else is accepted.
pub fn canonicalise(document: &StrategyDocument) -> (outcome: Result<StrategyUpdate, AppError>)
    ensures
        outcome is Ok <==> document.is_valid(),
        outcome matches Ok(update) ==> {
            &&& update.settings == document.canonical()
            &&& update.settings.wf()
            &&& update.threshold_clamped == document.threshold_out_of_range()
        },
        outcome matches Err(error) ==> error.code == ErrorCode::StrategyUpdateError,
{
    let split = match &document.split_strategy {
        Some(name) => read_split(name.as_str()),
        None => Some(SplitStrategy::Words),
    };
    let scope = match &document.comparison_scope {
        Some(name) => read_scope(name.as_str()),
        None => Some(ComparisonScope::Global),
    };
    let method = match &document.similarity_method {
        Some(name) => read_method(name.as_str(), &document.fuzzy_algorithm),
        None => Some(SimilarityMethod::Exact),
    };
    let split_strategy = match split {
        Some(value) => value,
        None => {
            return Err(
                AppError::new(ErrorCode::StrategyUpdateError, "unknown split strategy".to_owned()),
            );
        },
    };
    let comparison_scope = match scope {
        Some(value) => value,
        None => {
            return Err(
                AppError::new(
                    ErrorCode::StrategyUpdateError,
                    "unknown comparison scope".to_owned(),
                ),
            );
        },
    };
    let similarity_method = match method {
        Some(value) => value,
        None => {
            return Err(
                AppError::new(
                    ErrorCode::StrategyUpdateError,
                    "unknown similarity method".to_owned(),
                ),
            );
        },
    };
    let min_length: usize = match document.min_length {
        Some(value) => count_from(value),
        None => 10,
    };
    let ngram_size: usize = match document.ngram_size {
        Some(value) => if value < 1 {
            1
        } else {
            count_from(value)
        },
        None => 3,
    };
    let mut threshold_clamped = false;
    let similarity_threshold: u32 = match document.similarity_threshold {
        Some(value) => if value < 0 {
            threshold_clamped = true;
            0
        } else if value > 1_000_000 {
            threshold_clamped = true;
            THRESHOLD_ONE
        } else {
            value as u32
        },
        None => 800_000,
    };
    Ok(
        StrategyUpdate {
            settings: DedupStrategySettings {
                case_sensitive: flag_from(document.case_sensitive, false),
                ignore_whitespace: flag_from(document.ignore_whitespace, true),
                ignore_punctuation: flag_from(document.ignore_punctuation, true),
                normalize_unicode: flag_from(document.normalize_unicode, true),
                ignore_stopwords: flag_from(document.ignore_stopwords, false),
                stemming: flag_from(document.stemming, false),
                encoding_normalization: flag_from(document.encoding_normalization, true),
                language_detection: flag_from(document.language_detection, false),
                split_strategy,
                comparison_scope,
                min_length,
                ngram_size,
                similarity_method,
                similarity_threshold,
                adaptive_thresholding: flag_from(document.adaptive_thresholding, false),
                use_parallel: flag_from(document.use_parallel, true),
            },
            threshold_clamped,
        },
    )
}

impl SplitStrategy {
    /// The name of the split strategy in documents.
    pub open spec fn spec_name(&self) -> Seq<char> {
        match self {
            SplitStrategy::Characters => "Characters"@,
            SplitStrategy::Words => "Words"@,
            SplitStrategy::Sentences => "Sentences"@,
            SplitStrategy::Paragraphs => "Paragraphs"@,
            SplitStrategy::WholeText => "WholeText"@,
        }
    }

    /// The name in documents.
    pub fn name(&self) -> (name: &'static str)
        ensures
            name@ == self.spec_name(),
    {
        match self {
            SplitStrategy::Characters => "Characters",
            SplitStrategy::Words => "Words",
            SplitStrategy::Sentences => "Sentences",
            SplitStrategy::Paragraphs => "Paragraphs",
            SplitStrategy::WholeText => "WholeText",
        }
    }
}

impl ComparisonScope {
    /// The name of the scope in documents.
    pub open spec fn spec_name(&self) -> Seq<char> {
        match self {
            ComparisonScope::Local => "Local"@,
            ComparisonScope::Global => "Global"@,
        }
    }

    /// The name in documents.
    pub fn name(&self) -> (name: &'static str)
        ensures
            name@ == self.spec_name(),
    {
        match self {
            ComparisonScope::Local => "Local",
            ComparisonScope::Global => "Global",
        }
    }
}

impl FuzzyAlgorithm {
    /// The name of the algorithm in documents.
    pub open spec fn spec_name(&self) -> Seq<char> {
        match self {
            FuzzyAlgorithm::DamerauLevenshtein => "DamerauLevenshtein"@,
            FuzzyAlgorithm::JaroWinkler => "JaroWinkler"@,
            FuzzyAlgorithm::Soundex => "Soundex"@,
            FuzzyAlgorithm::NGram => "NGram"@,
        }
    }

    /// The name in documents.
    pub fn name(&self) -> (name: &'static str)
        ensures
            name@ == self.spec_name(),
    {
        match self {
            FuzzyAlgorithm::DamerauLevenshtein => "DamerauLevenshtein",
            FuzzyAlgorithm::JaroWinkler => "JaroWinkler",
            FuzzyAlgorithm::Soundex => "Soundex",
            FuzzyAlgorithm::NGram => "NGram",
        }
    }
}

impl SimilarityMethod {
    /// The name of the method in documents; every fuzzy method is named
    /// `Fuzzy` and tells its algorithm apart.
    pub open spec fn spec_name(&self) -> Seq<char> {
        match self {
            SimilarityMethod::Exact => "Exact"@,
            SimilarityMethod::Semantic => "Semantic"@,
            SimilarityMethod::Levenshtein => "Levenshtein"@,
            SimilarityMethod::Fuzzy(_) => "Fuzzy"@,
        }
    }

    /// The name of the algorithm of a fuzzy method.
    pub open spec fn spec_algorithm_name(&self) -> Option<Seq<char>> {
        match self {
            SimilarityMethod::Fuzzy(algorithm) => Some(algorithm.spec_name()),
            _ => None,
        }
    }

    /// The name in documents.
    pub fn name(&self) -> (name: &'static str)
        ensures
            name@ == self.spec_name(),
    {
        match self {
            SimilarityMethod::Exact => "Exact",
            SimilarityMethod::Semantic => "Semantic",
            SimilarityMethod::Levenshtein => "Levenshtein",
            SimilarityMethod::Fuzzy(_) => "Fuzzy",
        }
    }

    /// The name of the algorithm of a fuzzy method.
    pub fn algorithm_name(&self) -> (name: Option<&'static str>)
        ensures
            name is Some == self.spec_algorithm_name() is Some,
            name matches Some(text) ==> self.spec_algorithm_name() == Some(text@),
    {
        match self {
            SimilarityMethod::Fuzzy(algorithm) => Some(algorithm.name()),
            _ => None,
        }
    }
}

/// The names of the split strategies are read back as the strategies.
pub proof fn lemma_split_names_round_trip(split: SplitStrategy)
    ensures
        parse_split(split.spec_name()) == Some(split),
{
    reveal_strlit("Characters");
    reveal_strlit("Words");
    reveal_strlit("Sentences");
    reveal_strlit("Paragraphs");
    reveal_strlit("WholeText");
    assert("Characters"@.len() == 10 && "Characters"@[0] == 'C');
    assert("Words"@.len() == 5);
    assert("Sentences"@.len() == 9 && "Sentences"@[0] == 'S');
    assert("Paragraphs"@.len() == 10 && "Paragraphs"@[0] == 'P');
    assert("WholeText"@.len() == 9 && "WholeText"@[0] == 'W');
}

/// The names of the scopes are read back as the scopes.
pub proof fn lemma_scope_names_round_trip(scope: ComparisonScope)
    ensures
        parse_scope(scope.spec_name()) == Some(scope),
{
    reveal_strlit("Local");
    reveal_strlit("Global");
    assert("Local"@.len() == 5);
    assert("Global"@.len() == 6);
}

/// The names of the methods are read back as the methods.
pub proof fn lemma_method_names_round_trip(method: SimilarityMethod)
    ensures
        parse_method(method.spec_name(), method.spec_algorithm_name()) == Some(method),
{
    reveal_strlit("Exact");
    reveal_strlit("Semantic");
    reveal_strlit("Levenshtein");
    reveal_strlit("Fuzzy");
    reveal_strlit("DamerauLevenshtein");
    reveal_strlit("JaroWinkler");
    reveal_strlit("Soundex");
    reveal_strlit("NGram");
    assert("Exact"@.len() == 5 && "Exact"@[0] == 'E');
    assert("Semantic"@.len() == 8);
    assert("Levenshtein"@.len() == 11);
    assert("Fuzzy"@.len() == 5 && "Fuzzy"@[0] == 'F');
    assert("DamerauLevenshtein"@.len() == 18);
    assert("JaroWinkler"@.len() == 11);
    assert("Soundex"@.len() == 7);
    assert("NGram"@.len() == 5);
}

/// A count as a signed number; counts beyond the signed range become the
/// greatest signed number.
pub open spec fn signed_count(count: usize) -> i64 {
    if count > i64::MAX {
        i64::MAX
    } else {
        count as i64
    }
}

fn signed_from(count: usize) -> (value: i64)
    ensures
        value == signed_count(count),
{
    if count as u64 > i64::MAX as u64 {
        i64::MAX
    } else {
        count as i64
    }
}

impl DedupStrategySettings {
    /// The document that spells a strategy out: every field is present and
    /// every enum value is given by its name.
    pub open spec fn described_by(&self, document: StrategyDocument) -> bool {
        &&& document.case_sensitive == Some(self.case_sensitive)
        &&& document.ignore_whitespace == Some(self.ignore_whitespace)
        &&& document.ignore_punctuation == Some(self.ignore_punctuation)
        &&& document.normalize_unicode == Some(self.normalize_unicode)
        &&& document.ignore_stopwords == Some(self.ignore_stopwords)
        &&& document.stemming == Some(self.stemming)
        &&& document.encoding_normalization == Some(self.encoding_normalization)
        &&& document.language_detection == Some(self.language_detection)
        &&& document.split_strategy matches Some(name) && name@ == self.split_strategy.spec_name()
        &&& document.comparison_scope matches Some(name) && name@
            == self.comparison_scope.spec_name()
        &&& document.min_length == Some(signed_count(self.min_length))
        &&& document.ngram_size == Some(signed_count(self.ngram_size))
        &&& document.similarity_method matches Some(name) && name@
            == self.similarity_method.spec_name()
        &&& document.fuzzy_algorithm is Some == self.similarity_method.spec_algorithm_name() is Some
        &&& document.fuzzy_algorithm matches Some(name)
            ==> self.similarity_method.spec_algorithm_name() == Some(name@)
        &&& document.similarity_threshold == Some(self.similarity_threshold as i64)
        &&& document.adaptive_thresholding == Some(self.adaptive_thresholding)
        &&& document.use_parallel == Some(self.use_parallel)
    }

    /// Spells the strategy out as a document.
    pub fn describe(&self) -> (document: StrategyDocument)
        ensures
            self.described_by(document),
    {
        StrategyDocument {
            case_sensitive: Some(self.case_sensitive),
            ignore_whitespace: Some(self.ignore_whitespace),
            ignore_punctuation: Some(self.ignore_punctuation),
            normalize_unicode: Some(self.normalize_unicode),
            ignore_stopwords: Some(self.ignore_stopwords),
            stemming: Some(self.stemming),
            encoding_normalization: Some(self.encoding_normalization),
            language_detection: Some(self.language_detection),
            split_strategy: Some(self.split_strategy.name().to_owned()),
            comparison_scope: Some(self.comparison_scope.name().to_owned()),
            min_length: Some(signed_from(self.min_length)),
            ngram_size: Some(signed_from(self.ngram_size)),
            similarity_method: Some(self.similarity_method.name().to_owned()),
            fuzzy_algorithm: match self.similarity_method.algorithm_name() {
                Some(name) => Some(name.to_owned()),
                None => None,
            },
            similarity_threshold: Some(self.similarity_threshold as i64),
            adaptive_thresholding: Some(self.adaptive_thresholding),
            use_parallel: Some(self.use_parallel),
        }
    }
}

/// A strategy that is within its ranges is the canonical form of the
/// document that spells it out, provided its counts fit a signed number.
pub proof fn lemma_description_round_trip(
    settings: DedupStrategySettings,
    document: StrategyDocument,
)
    requires
        settings.wf(),
        settings.min_length <= i64::MAX,
        settings.ngram_size <= i64::MAX,
        settings.described_by(document),
    ensures
        document.is_valid(),
        document.canonical() == settings,
        !document.threshold_out_of_range(),
{
    lemma_split_names_round_trip(settings.split_strategy);
    lemma_scope_names_round_trip(settings.comparison_scope);
    lemma_method_names_round_trip(settings.similarity_method);
}

/// A strategy brought into canonical form by itself: the n-gram size raised
/// to one and the threshold lowered to one where they were out of range.
pub open spec fn repaired(settings: DedupStrategySettings) -> DedupStrategySettings {
    DedupStrategySettings {
        ngram_size: if settings.ngram_size < 1 {
            1
        } else {
            settings.ngram_size
        },
        similarity_threshold: if settings.similarity_threshold > THRESHOLD_ONE {
            THRESHOLD_ONE
        } else {
            settings.similarity_threshold
        },
        ..settings
    }
}

/// Repairs the two fields of a strategy that have a range.
pub fn repair(settings: DedupStrategySettings) -> (fixed: DedupStrategySettings)
    ensures
        fixed == repaired(settings),
        fixed.wf(),
        settings.wf() ==> fixed == settings,
{
    let mut fixed = settings;
    if fixed.ngram_size < 1 {
        fixed.ngram_size = 1;
    }
    if fixed.similarity_threshold > THRESHOLD_ONE {
        fixed.similarity_threshold = THRESHOLD_ONE;
    }
    fixed
}

} // verus!
