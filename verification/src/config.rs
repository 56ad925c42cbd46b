//! Language resources: stop words, sentence and paragraph delimiters, and the
//! defaults of the engine. What a user adds is merged with the base tables
//! and never takes anything away from them.

use vstd::prelude::*;
use crate::language::{
    base_stop_words,
    choose_language,
    load_stop_words,
    working_language,
    Language,
};
use crate::text::{contains_char, string_views};

verus! {

/// The stop words listed for one language.
#[derive(Debug)]
pub struct StopWordList {
    pub language: Language,
    pub words: Vec<String>,
}

/// The words that a table lists for a language, entry after entry.
pub open spec fn listed_words(table: Seq<StopWordList>, language: Language) -> Seq<Seq<char>>
    decreases table.len(),
{
    if table.len() == 0 {
        Seq::empty()
    } else {
        let earlier = listed_words(table.drop_last(), language);
        if table.last().language == language {
            earlier + string_views(table.last().words@)
        } else {
            earlier
        }
    }
}

/// The delimiters that end a sentence by default.
pub open spec fn standard_sentence_delimiters() -> Seq<char> {
    seq!['.', '!', '?', '\u{3002}', '\u{ff01}', '\u{ff1f}', '\u{964}', '\u{6d4}']
}

/// The base resources of the engine.
#[derive(Debug)]
pub struct DeduplicationConfig {
    pub stop_words: Vec<StopWordList>,
    pub sentence_delimiters: Vec<char>,
    pub paragraph_delimiters: String,
    pub default_ngram_size: u32,
    pub default_min_length: u32,
    /// In millionths.
    pub default_similarity_threshold: u32,
    pub supported_languages: Vec<Language>,
}

impl DeduplicationConfig {
    /// The configuration holds the standard resources: the base stop words of
    /// every supported language, the standard delimiters and defaults.
    pub open spec fn is_standard(&self) -> bool {
        &&& self.stop_words@.len() == 15
        &&& forall|k: int|
            0 <= k < 15 ==> {
                &&& (#[trigger] self.stop_words@[k]).language == Language::spec_all()[k]
                &&& string_views(self.stop_words@[k].words@) == base_stop_words(
                    Language::spec_all()[k],
                )
            }
        &&& self.sentence_delimiters@ == standard_sentence_delimiters()
        &&& self.paragraph_delimiters@ == "\n\n"@
        &&& self.default_ngram_size == 3
        &&& self.default_min_length == 10
        &&& self.default_similarity_threshold == 800_000
        &&& self.supported_languages@ == Language::spec_all()
    }
}

impl Default for DeduplicationConfig {
    fn default() -> (config: Self)
        ensures
            config.is_standard(),
    {
        let languages = Language::all();
        let mut stop_words: Vec<StopWordList> = Vec::new();
        let mut k: usize = 0;
        while k < 15
            invariant
                k <= 15,
                languages@ == Language::spec_all(),
                stop_words@.len() == k,
                forall|t: int|
                    0 <= t < k ==> {
                        &&& (#[trigger] stop_words@[t]).language == Language::spec_all()[t]
                        &&& string_views(stop_words@[t].words@) == base_stop_words(
                            Language::spec_all()[t],
                        )
                    },
            decreases 15 - k,
        {
            let language = languages[k];
            let words = load_stop_words(language);
            stop_words.push(StopWordList { language, words });
            k += 1;
        }
        let mut sentence_delimiters: Vec<char> = Vec::new();
        sentence_delimiters.push('.');
        sentence_delimiters.push('!');
        sentence_delimiters.push('?');
        sentence_delimiters.push('\u{3002}');
        sentence_delimiters.push('\u{ff01}');
        sentence_delimiters.push('\u{ff1f}');
        sentence_delimiters.push('\u{964}');
        sentence_delimiters.push('\u{6d4}');
        assert(sentence_delimiters@ =~= standard_sentence_delimiters());
        DeduplicationConfig {
            stop_words,
            sentence_delimiters,
            paragraph_delimiters: "\n\n".to_owned(),
            default_ngram_size: 3,
            default_min_length: 10,
            default_similarity_threshold: 800_000,
            supported_languages: languages,
        }
    }
}

/// The base resources together with what a user added at run time.
#[derive(Debug)]
pub struct DynamicConfig {
    pub base: DeduplicationConfig,
    pub user_stop_words: Vec<StopWordList>,
    pub user_sentence_delimiters: Vec<char>,
    pub user_paragraph_delimiters: Option<String>,
}

impl Default for DynamicConfig {
    fn default() -> (config: Self)
        ensures
            config.base.is_standard(),
            config.user_stop_words@.len() == 0,
            config.user_sentence_delimiters@.len() == 0,
            config.user_paragraph_delimiters is None,
    {
        DynamicConfig {
            base: DeduplicationConfig::default(),
            user_stop_words: Vec::new(),
            user_sentence_delimiters: Vec::new(),
            user_paragraph_delimiters: None,
        }
    }
}

/// Appends to `out` the words that a table lists for a language.
fn collect_words(table: &Vec<StopWordList>, language: Language, out: &mut Vec<String>)
    ensures
        string_views(final(out)@) == string_views(old(out)@) + listed_words(table@, language),
{
    let ghost start = string_views(out@);
    let mut e: usize = 0;
    assert(table@.take(0) =~= Seq::<StopWordList>::empty());
    assert(string_views(out@) =~= start + listed_words(table@.take(0), language));
    while e < table.len()
        invariant
            e <= table.len(),
            string_views(out@) == start + listed_words(table@.take(e as int), language),
        decreases table.len() - e,
    {
        let ghost before = string_views(out@);
        proof {
            assert(table@.take(e + 1).drop_last() =~= table@.take(e as int));
            assert(table@.take(e + 1).last() == table@[e as int]);
        }
        if table[e].language == language {
            let words = &table[e].words;
            let mut w: usize = 0;
            while w < words.len()
                invariant
                    w <= words.len(),
                    string_views(out@) == before + string_views(words@).take(w as int),
                decreases words.len() - w,
            {
                let word = words[w].clone();
                proof {
                    assert(string_views(out@.push(word)) =~= string_views(out@).push(word@));
                    assert(string_views(words@).take(w + 1) =~= string_views(words@).take(
                        w as int,
                    ).push(words@[w as int]@));
                }
                out.push(word);
                w += 1;
            }
            proof {
                assert(string_views(words@).take(words.len() as int) =~= string_views(words@));
                assert(start + (listed_words(table@.take(e as int), language) + string_views(
                    words@,
                )) =~= before + string_views(words@));
            }
        }
        e += 1;
    }
    assert(table@.take(table.len() as int) =~= table@);
}

/// Whether a table lists a word for a language.
fn table_lists(table: &Vec<StopWordList>, language: Language, word: &String) -> (found: bool)
    ensures
        found == listed_words(table@, language).contains(word@),
{
    let mut e: usize = 0;
    assert(table@.take(0) =~= Seq::<StopWordList>::empty());
    while e < table.len()
        invariant
            e <= table.len(),
            !listed_words(table@.take(e as int), language).contains(word@),
        decreases table.len() - e,
    {
        proof {
            assert(table@.take(e + 1).drop_last() =~= table@.take(e as int));
            assert(table@.take(e + 1).last() == table@[e as int]);
        }
        if table[e].language == language {
            let words = &table[e].words;
            let ghost views = string_views(words@);
            let mut w: usize = 0;
            while w < words.len()
                invariant
                    w <= words.len(),
                    e < table.len(),
                    listed_words(table@.take(e + 1), language) == listed_words(
                        table@.take(e as int),
                        language,
                    ) + views,
                    views == string_views(words@),
                    forall|t: int| 0 <= t < w ==> views[t] != word@,
                decreases words.len() - w,
            {
                if words[w] == *word {
                    proof {
                        let upto = listed_words(table@.take(e + 1), language);
                        let earlier = listed_words(table@.take(e as int), language);
                        assert(upto == earlier + views);
                        assert(upto[earlier.len() + w] == word@);
                        lemma_listed_words_grow(table@, e + 1, language, word@);
                    }
                    return true;
                }
                w += 1;
            }
            proof {
                let upto = listed_words(table@.take(e + 1), language);
                let earlier = listed_words(table@.take(e as int), language);
                assert(upto == earlier + views);
                if upto.contains(word@) {
                    let at = choose|at: int| 0 <= at < upto.len() && upto[at] == word@;
                    if at < earlier.len() {
                        assert(earlier[at] == word@);
                    } else {
                        assert(views[at - earlier.len()] == word@);
                    }
                }
            }
        }
        e += 1;
    }
    assert(table@.take(table.len() as int) =~= table@);
    false
}

/// A word listed by the first entries of a table is listed by the table.
proof fn lemma_listed_words_grow(
    table: Seq<StopWordList>,
    upto: int,
    language: Language,
    word: Seq<char>,
)
    requires
        0 <= upto <= table.len(),
        listed_words(table.take(upto), language).contains(word),
    ensures
        listed_words(table, language).contains(word),
    decreases table.len() - upto,
{
    if upto < table.len() {
        let shorter = listed_words(table.take(upto), language);
        let longer = listed_words(table.take(upto + 1), language);
        assert(table.take(upto + 1).drop_last() =~= table.take(upto));
        let at = choose|at: int| 0 <= at < shorter.len() && shorter[at] == word;
        assert(longer[at] == word);
        lemma_listed_words_grow(table, upto + 1, language, word);
    } else {
        assert(table.take(upto) =~= table);
    }
}

impl DynamicConfig {
    /// The stop words of a language: the base words, then the user's.
    pub open spec fn merged_stop_words(&self, language: Language) -> Seq<Seq<char>> {
        listed_words(self.base.stop_words@, language) + listed_words(
            self.user_stop_words@,
            language,
        )
    }

    /// The sentence delimiters: the base ones, then the user's.
    pub open spec fn merged_sentence_delimiters(&self) -> Seq<char> {
        self.base.sentence_delimiters@ + self.user_sentence_delimiters@
    }

    /// The paragraph delimiter: the user's where one is set, else the base
    /// one.
    pub open spec fn paragraph_delimiter(&self) -> Seq<char> {
        match self.user_paragraph_delimiters {
            Some(delimiter) => delimiter@,
            None => self.base.paragraph_delimiters@,
        }
    }

    /// Merges the base and the user-defined stop words of a language.
    pub fn merge_stop_words(&self, language: Language) -> (words: Vec<String>)
        ensures
            string_views(words@) == self.merged_stop_words(language),
    {
        let mut words: Vec<String> = Vec::new();
        assert(string_views(words@) =~= Seq::<Seq<char>>::empty());
        collect_words(&self.base.stop_words, language, &mut words);
        collect_words(&self.user_stop_words, language, &mut words);
        assert(Seq::<Seq<char>>::empty() + listed_words(self.base.stop_words@, language)
            + listed_words(self.user_stop_words@, language) =~= self.merged_stop_words(language));
        words
    }

    /// Whether a word is a stop word of a language.
    pub fn is_stop_word(&self, language: Language, word: &str) -> (found: bool)
        ensures
            found == self.merged_stop_words(language).contains(word@),
    {
        let owned = word.to_owned();
        let in_base = table_lists(&self.base.stop_words, language, &owned);
        let in_user = !in_base && table_lists(&self.user_stop_words, language, &owned);
        proof {
            let base = listed_words(self.base.stop_words@, language);
            let user = listed_words(self.user_stop_words@, language);
            let merged = self.merged_stop_words(language);
            if base.contains(word@) {
                let at = choose|at: int| 0 <= at < base.len() && base[at] == word@;
                assert(merged[at] == word@);
            }
            if user.contains(word@) {
                let at = choose|at: int| 0 <= at < user.len() && user[at] == word@;
                assert(merged[base.len() + at] == word@);
            }
            if merged.contains(word@) {
                let at = choose|at: int| 0 <= at < merged.len() && merged[at] == word@;
                if at < base.len() {
                    assert(base[at] == word@);
                } else {
                    assert(user[at - base.len()] == word@);
                }
            }
        }
        in_base || in_user
    }

    /// The merged stop words of the language of a text: the detected
    /// language where detection is on and succeeds, English otherwise.
    pub fn get_stop_words_for_text(&self, text: &str, detection: bool) -> (words: Vec<String>)
        ensures
            string_views(words@) == self.merged_stop_words(working_language(text@, detection)),
    {
        let language = choose_language(text, detection);
        self.merge_stop_words(language)
    }

    /// Merges the base and the user-defined sentence delimiters.
    pub fn merge_sentence_delimiters(&self) -> (delimiters: Vec<char>)
        ensures
            delimiters@ == self.merged_sentence_delimiters(),
    {
        let mut delimiters: Vec<char> = Vec::new();
        let mut i: usize = 0;
        while i < self.base.sentence_delimiters.len()
            invariant
                i <= self.base.sentence_delimiters.len(),
                delimiters@ == self.base.sentence_delimiters@.take(i as int),
            decreases self.base.sentence_delimiters.len() - i,
        {
            delimiters.push(self.base.sentence_delimiters[i]);
            let ghost base = self.base.sentence_delimiters@;
            assert(base.take(i + 1) =~= base.take(i as int).push(base[i as int]));
            i += 1;
        }
        assert(self.base.sentence_delimiters@.take(i as int) =~= self.base.sentence_delimiters@);
        let mut k: usize = 0;
        while k < self.user_sentence_delimiters.len()
            invariant
                k <= self.user_sentence_delimiters.len(),
                delimiters@ == self.base.sentence_delimiters@
                    + self.user_sentence_delimiters@.take(k as int),
            decreases self.user_sentence_delimiters.len() - k,
        {
            delimiters.push(self.user_sentence_delimiters[k]);
            let ghost user = self.user_sentence_delimiters@;
            assert(user.take(k + 1) =~= user.take(k as int).push(user[k as int]));
            k += 1;
        }
        assert(self.user_sentence_delimiters@.take(k as int) =~= self.user_sentence_delimiters@);
        delimiters
    }

    /// Whether a character ends a sentence.
    pub fn is_sentence_delimiter(&self, c: char) -> (found: bool)
        ensures
            found == self.merged_sentence_delimiters().contains(c),
    {
        let in_base = contains_char(&self.base.sentence_delimiters, c);
        let in_user = contains_char(&self.user_sentence_delimiters, c);
        proof {
            let base = self.base.sentence_delimiters@;
            let user = self.user_sentence_delimiters@;
            let merged = self.merged_sentence_delimiters();
            if base.contains(c) {
                let at = choose|at: int| 0 <= at < base.len() && base[at] == c;
                assert(merged[at] == c);
            }
            if user.contains(c) {
                let at = choose|at: int| 0 <= at < user.len() && user[at] == c;
                assert(merged[base.len() + at] == c);
            }
            if merged.contains(c) {
                let at = choose|at: int| 0 <= at < merged.len() && merged[at] == c;
                if at < base.len() {
                    assert(base[at] == c);
                } else {
                    assert(user[at - base.len()] == c);
                }
            }
        }
        in_base || in_user
    }

    /// The paragraph delimiter in force.
    pub fn get_paragraph_delimiters(&self) -> (delimiter: &str)
        ensures
            delimiter@ == self.paragraph_delimiter(),
    {
        match &self.user_paragraph_delimiters {
            Some(delimiter) => delimiter.as_str(),
            None => self.base.paragraph_delimiters.as_str(),
        }
    }
}

} // verus!
