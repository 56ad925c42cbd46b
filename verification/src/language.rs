//! The languages that the engine has resources for, language detection,
//! stop-word tables and stemming.

use vstd::prelude::*;
use crate::text::{same_text, string_views};

verus! {

/// A language with a stop-word table.
#[derive(Debug, Clone, Copy, PartialEq, Eq, Structural)]
pub enum Language {
    English,
    French,
    Spanish,
    German,
    Italian,
    Portuguese,
    Russian,
    Japanese,
    Chinese,
    Arabic,
    Hindi,
    Korean,
    Dutch,
    Swedish,
    Turkish,
}

impl Language {
    /// The two-letter code of the language.
    pub open spec fn spec_code(&self) -> Seq<char> {
        match self {
            Language::English => "en"@,
            Language::French => "fr"@,
            Language::Spanish => "es"@,
            Language::German => "de"@,
            Language::Italian => "it"@,
            Language::Portuguese => "pt"@,
            Language::Russian => "ru"@,
            Language::Japanese => "ja"@,
            Language::Chinese => "zh"@,
            Language::Arabic => "ar"@,
            Language::Hindi => "hi"@,
            Language::Korean => "ko"@,
            Language::Dutch => "nl"@,
            Language::Swedish => "sv"@,
            Language::Turkish => "tr"@,
        }
    }

    /// The two-letter code of the language.
    pub fn code(&self) -> (code: &'static str)
        ensures
            code@ == self.spec_code(),
    {
        match self {
            Language::English => "en",
            Language::French => "fr",
            Language::Spanish => "es",
            Language::German => "de",
            Language::Italian => "it",
            Language::Portuguese => "pt",
            Language::Russian => "ru",
            Language::Japanese => "ja",
            Language::Chinese => "zh",
            Language::Arabic => "ar",
            Language::Hindi => "hi",
            Language::Korean => "ko",
            Language::Dutch => "nl",
            Language::Swedish => "sv",
            Language::Turkish => "tr",
        }
    }

    /// The position of the language in the list of supported languages.
    pub open spec fn spec_index(&self) -> int {
        match self {
            Language::English => 0,
            Language::French => 1,
            Language::Spanish => 2,
            Language::German => 3,
            Language::Italian => 4,
            Language::Portuguese => 5,
            Language::Russian => 6,
            Language::Japanese => 7,
            Language::Chinese => 8,
            Language::Arabic => 9,
            Language::Hindi => 10,
            Language::Korean => 11,
            Language::Dutch => 12,
            Language::Swedish => 13,
            Language::Turkish => 14,
        }
    }

    /// The position of the language in the list of supported languages.
    pub fn index(&self) -> (at: usize)
        ensures
            at == self.spec_index(),
            at < 15,
    {
        match self {
            Language::English => 0,
            Language::French => 1,
            Language::Spanish => 2,
            Language::German => 3,
            Language::Italian => 4,
            Language::Portuguese => 5,
            Language::Russian => 6,
            Language::Japanese => 7,
            Language::Chinese => 8,
            Language::Arabic => 9,
            Language::Hindi => 10,
            Language::Korean => 11,
            Language::Dutch => 12,
            Language::Swedish => 13,
            Language::Turkish => 14,
        }
    }

    /// The supported languages in the order of their positions.
    pub open spec fn spec_all() -> Seq<Language> {
        seq![
            Language::English,
            Language::French,
            Language::Spanish,
            Language::German,
            Language::Italian,
            Language::Portuguese,
            Language::Russian,
            Language::Japanese,
            Language::Chinese,
            Language::Arabic,
            Language::Hindi,
            Language::Korean,
            Language::Dutch,
            Language::Swedish,
            Language::Turkish,
        ]
    }

    /// Lists the supported languages.
    pub fn all() -> (list: Vec<Language>)
        ensures
            list@ == Language::spec_all(),
            list@.len() == 15,
            forall|k: int| 0 <= k < 15 ==> (#[trigger] list@[k]).spec_index() == k,
    {
        let mut list: Vec<Language> = Vec::new();
        list.push(Language::English);
        list.push(Language::French);
        list.push(Language::Spanish);
        list.push(Language::German);
        list.push(Language::Italian);
        list.push(Language::Portuguese);
        list.push(Language::Russian);
        list.push(Language::Japanese);
        list.push(Language::Chinese);
        list.push(Language::Arabic);
        list.push(Language::Hindi);
        list.push(Language::Korean);
        list.push(Language::Dutch);
        list.push(Language::Swedish);
        list.push(Language::Turkish);
        assert(list@ =~= Language::spec_all());
        list
    }

    /// The language that a three-letter code of the detector stands for, if
    /// it is a supported one.
    pub open spec fn spec_from_detector_code(code: Seq<char>) -> Option<Language> {
        if code == "eng"@ {
            Some(Language::English)
        } else if code == "fra"@ {
            Some(Language::French)
        } else if code == "spa"@ {
            Some(Language::Spanish)
        } else if code == "deu"@ {
            Some(Language::German)
        } else if code == "ita"@ {
            Some(Language::Italian)
        } else if code == "por"@ {
            Some(Language::Portuguese)
        } else if code == "rus"@ {
            Some(Language::Russian)
        } else if code == "jpn"@ {
            Some(Language::Japanese)
        } else if code == "cmn"@ {
            Some(Language::Chinese)
        } else if code == "ara"@ {
            Some(Language::Arabic)
        } else if code == "hin"@ {
            Some(Language::Hindi)
        } else if code == "kor"@ {
            Some(Language::Korean)
        } else if code == "nld"@ {
            Some(Language::Dutch)
        } else if code == "swe"@ {
            Some(Language::Swedish)
        } else if code == "tur"@ {
            Some(Language::Turkish)
        } else {
            None
        }
    }

    /// Reads a three-letter code of the detector.
    pub fn from_detector_code(code: &str) -> (language: Option<Language>)
        ensures
            language == Language::spec_from_detector_code(code@),
    {
        if same_text(code, "eng") {
            Some(Language::English)
        } else if same_text(code, "fra") {
            Some(Language::French)
        } else if same_text(code, "spa") {
            Some(Language::Spanish)
        } else if same_text(code, "deu") {
            Some(Language::German)
        } else if same_text(code, "ita") {
            Some(Language::Italian)
        } else if same_text(code, "por") {
            Some(Language::Portuguese)
        } else if same_text(code, "rus") {
            Some(Language::Russian)
        } else if same_text(code, "jpn") {
            Some(Language::Japanese)
        } else if same_text(code, "cmn") {
            Some(Language::Chinese)
        } else if same_text(code, "ara") {
            Some(Language::Arabic)
        } else if same_text(code, "hin") {
            Some(Language::Hindi)
        } else if same_text(code, "kor") {
            Some(Language::Korean)
        } else if same_text(code, "nld") {
            Some(Language::Dutch)
        } else if same_text(code, "swe") {
            Some(Language::Swedish)
        } else if same_text(code, "tur") {
            Some(Language::Turkish)
        } else {
            None
        }
    }

    /// Whether a Snowball stemmer exists for the language.
    pub open spec fn has_stemmer(&self) -> bool {
        !(self == Language::Japanese || self == Language::Chinese || self == Language::Hindi
            || self == Language::Korean)
    }

    /// Whether a Snowball stemmer exists for the language.
    pub fn stemmer_available(&self) -> (b: bool)
        ensures
            b == self.has_stemmer(),
    {
        match self {
            Language::Japanese | Language::Chinese | Language::Hindi | Language::Korean => false,
            _ => true,
        }
    }
}

/// The three-letter code of the language that the detector finds in a text,
/// if it finds one.
pub uninterp spec fn detected_code(text: Seq<char>) -> Option<Seq<char>>;

/// `whatlang::detect_lang` names the language of a text, or nothing where it
/// cannot tell; `Lang::code` gives the ISO 639-3 code of that language. The
/// answer depends on the text alone.
#[verifier::external_body]
pub(crate) fn detect_code(text: &str) -> (code: Option<String>)
    ensures
        code is Some == detected_code(text@) is Some,
        code is Some ==> detected_code(text@) == Some(code->0@),
{
    match whatlang::detect_lang(text) {
        Some(lang) => Some(lang.code().to_string()),
        None => None,
    }
}

/// The supported language that the detector finds in a text.
pub open spec fn detected_language(text: Seq<char>) -> Option<Language> {
    match detected_code(text) {
        Some(code) => Language::spec_from_detector_code(code),
        None => None,
    }
}

/// Detects the language of a text. The answer is `None` where the detector
/// cannot tell or finds a language that is not supported.
pub fn detect_language(text: &str) -> (language: Option<Language>)
    ensures
        language == detected_language(text@),
{
    match detect_code(text) {
        Some(code) => Language::from_detector_code(code.as_str()),
        None => None,
    }
}

/// The language whose resources are used for a text: the detected one where
/// detection is on and succeeds, English otherwise.
pub open spec fn working_language(text: Seq<char>, detection: bool) -> Language {
    if detection {
        match detected_language(text) {
            Some(language) => language,
            None => Language::English,
        }
    } else {
        Language::English
    }
}

/// Picks the language whose resources are used for a text.
pub fn choose_language(text: &str, detection: bool) -> (language: Language)
    ensures
        language == working_language(text@, detection),
{
    if detection {
        match detect_language(text) {
            Some(language) => language,
            None => Language::English,
        }
    } else {
        Language::English
    }
}

/// The stop words that the table of the `stop-words` crate lists under a
/// language code, if it knows the code.
pub uninterp spec fn stop_word_table(code: Seq<char>) -> Option<Seq<Seq<char>>>;

/// `stop_words::lookup` returns the stop words listed under a language code,
/// or nothing for a code it does not know. The list is a constant of the
/// crate, so the answer depends on the code alone.
#[verifier::external_body]
fn lookup_stop_words(code: &str) -> (list: Option<Vec<String>>)
    ensures
        list is Some == stop_word_table(code@) is Some,
        list is Some ==> stop_word_table(code@) == Some(string_views(list->0@)),
{
    match stop_words::lookup(code) {
        Some(words) => Some(words.iter().map(|word| word.to_string()).collect()),
        None => None,
    }
}

/// The base stop words of a language; none where the table has no entry.
pub open spec fn base_stop_words(language: Language) -> Seq<Seq<char>> {
    match stop_word_table(language.spec_code()) {
        Some(list) => list,
        None => Seq::empty(),
    }
}

/// Loads the base stop words of a language.
pub fn load_stop_words(language: Language) -> (list: Vec<String>)
    ensures
        string_views(list@) == base_stop_words(language),
{
    match lookup_stop_words(language.code()) {
        Some(list) => list,
        None => {
            let list: Vec<String> = Vec::new();
            assert(string_views(list@) =~= Seq::<Seq<char>>::empty());
            list
        },
    }
}

/// The stem that the Snowball stemmer of the language with the given
/// two-letter code gives a word.
pub uninterp spec fn snowball_stem(code: Seq<char>, word: Seq<char>) -> Seq<char>;

/// `rust_stemmers::Stemmer::create` selects the Snowball algorithm of a
/// language and `Stemmer::stem` applies it to one word. The stem depends on
/// the algorithm and the word alone.
#[verifier::external_body]
fn stem_with(language: Language, word: &str) -> (stem: String)
    requires
        language.has_stemmer(),
    ensures
        stem@ == snowball_stem(language.spec_code(), word@),
{
    rust_stemmers::Stemmer::create(match language {
        Language::French => rust_stemmers::Algorithm::French,
        Language::Spanish => rust_stemmers::Algorithm::Spanish,
        Language::German => rust_stemmers::Algorithm::German,
        Language::Italian => rust_stemmers::Algorithm::Italian,
        Language::Portuguese => rust_stemmers::Algorithm::Portuguese,
        Language::Russian => rust_stemmers::Algorithm::Russian,
        Language::Arabic => rust_stemmers::Algorithm::Arabic,
        Language::Dutch => rust_stemmers::Algorithm::Dutch,
        Language::Swedish => rust_stemmers::Algorithm::Swedish,
        Language::Turkish => rust_stemmers::Algorithm::Turkish,
        _ => rust_stemmers::Algorithm::English,
    }).stem(word).into_owned()
}

/// The stem of a word in a language; the word itself where the language has
/// no stemmer.
pub open spec fn stem_of(language: Language, word: Seq<char>) -> Seq<char> {
    if language.has_stemmer() {
        snowball_stem(language.spec_code(), word)
    } else {
        word
    }
}

/// Stems one word.
pub fn stem_word(language: Language, word: &str) -> (stem: String)
    ensures
        stem@ == stem_of(language, word@),
{
    if language.stemmer_available() {
        stem_with(language, word)
    } else {
        word.to_owned()
    }
}

} // verus!
