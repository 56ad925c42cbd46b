//! The engine as its callers see it: a corpus that grows by appending, a
//! strategy that can be replaced, and the grouping of the corpus into
//! classes of near-duplicates.

use vstd::prelude::*;
use crate::classifier::{corpus_links, grouping_error, PairScores, TextClassifier};
use crate::config::DynamicConfig;
use crate::error::{AppError, ErrorCode};
use crate::grouping::{
    duplicates_total,
    greedy_groups,
    groups_view,
    lemma_duplicates_bounded,
    lemma_groups_count,
    lemma_groups_disjoint,
    GroupView,
    IndexGroup,
    Links,
};
use crate::score::Score;
use crate::strategy::{
    canonicalise,
    repaired,
    DedupStrategySettings,
    SimilarityMethod,
    StrategyDocument,
    StrategyUpdate,
};
use crate::text::string_views;

verus! {

/// A named strategy to start from.
#[derive(Debug)]
pub struct DedupStrategyPreset {
    pub name: String,
    pub description: String,
    pub settings: DedupStrategySettings,
}

/// Counts over one grouping of the corpus.
#[derive(Debug, Clone, Copy, PartialEq, Eq, Structural)]
pub struct DedupStats {
    pub total_items: usize,
    pub unique_items: usize,
    pub duplicate_groups: usize,
}

/// A group of near-duplicates: the indices of its members in ascending
/// order, the text of its representative, the texts of the other members and
/// the greatest similarity of a member to the representative.
#[derive(Debug)]
pub struct DuplicateGroup {
    pub indices: Vec<usize>,
    pub original: String,
    pub duplicates: Vec<String>,
    pub similarity: Score,
}

/// A group as a mathematical value.
pub struct DuplicateGroupView {
    pub indices: Seq<usize>,
    pub original: Seq<char>,
    pub duplicates: Seq<Seq<char>>,
    pub similarity: Score,
}

impl View for DuplicateGroup {
    type V = DuplicateGroupView;

    open spec fn view(&self) -> DuplicateGroupView {
        DuplicateGroupView {
            indices: self.indices@,
            original: self.original@,
            duplicates: string_views(self.duplicates@),
            similarity: self.similarity,
        }
    }
}

/// The outcome of grouping the corpus.
#[derive(Debug)]
pub struct DedupResults {
    pub duplicate_groups: Vec<DuplicateGroup>,
    pub stats: DedupStats,
}

/// The outcome of grouping as a mathematical value.
pub struct DedupResultsView {
    pub duplicate_groups: Seq<DuplicateGroupView>,
    pub stats: DedupStats,
}

impl View for DedupResults {
    type V = DedupResultsView;

    open spec fn view(&self) -> DedupResultsView {
        DedupResultsView {
            duplicate_groups: self.duplicate_groups@.map_values(|g: DuplicateGroup| g@),
            stats: self.stats,
        }
    }
}

/// A group of indices with the texts that the indices stand for.
pub open spec fn shown_group(group: GroupView, corpus: Seq<Seq<char>>) -> DuplicateGroupView {
    DuplicateGroupView {
        indices: group.members,
        original: corpus[group.members[0] as int],
        duplicates: Seq::new(
            (group.members.len() - 1) as nat,
            |k: int| corpus[group.members[k + 1] as int],
        ),
        similarity: group.similarity,
    }
}

/// The result that reports a list of groups over a corpus: the groups with
/// their texts, the size of the corpus, the number of items left when every
/// group is reduced to its representative, and the number of groups.
pub open spec fn shown_results(groups: Seq<GroupView>, corpus: Seq<Seq<char>>) -> DedupResultsView {
    DedupResultsView {
        duplicate_groups: groups.map_values(|group: GroupView| shown_group(group, corpus)),
        stats: DedupStats {
            total_items: corpus.len() as usize,
            unique_items: (corpus.len() - duplicates_total(groups)) as usize,
            duplicate_groups: groups.len() as usize,
        },
    }
}

/// The number of items that a list of groups reports as duplicates: every
/// member of a group but its representative.
pub open spec fn reported_duplicates(groups: Seq<DuplicateGroupView>) -> int
    decreases groups.len(),
{
    if groups.len() == 0 {
        0
    } else {
        reported_duplicates(groups.drop_last()) + groups.last().indices.len() - 1
    }
}

/// The counts of a result add up: the total is the size of the corpus, the
/// unique items are the total less the reported duplicates, and the number of
/// groups is the length of the list.
pub open spec fn conserves(results: DedupResultsView, corpus_size: nat) -> bool {
    &&& results.stats.total_items == corpus_size
    &&& results.stats.unique_items + reported_duplicates(results.duplicate_groups) == corpus_size
    &&& results.stats.duplicate_groups == results.duplicate_groups.len()
    &&& 0 <= reported_duplicates(results.duplicate_groups) <= corpus_size
}

/// Showing the groups with their texts does not change the number of
/// duplicates.
proof fn lemma_reported_duplicates(groups: Seq<GroupView>, corpus: Seq<Seq<char>>)
    ensures
        reported_duplicates(shown_results(groups, corpus).duplicate_groups) == duplicates_total(
            groups,
        ),
    decreases groups.len(),
{
    let shown = shown_results(groups, corpus).duplicate_groups;
    if groups.len() > 0 {
        lemma_reported_duplicates(groups.drop_last(), corpus);
        assert(shown.drop_last() =~= shown_results(groups.drop_last(), corpus).duplicate_groups);
    }
}

/// The state of the engine as a mathematical value.
pub struct EngineModel {
    pub corpus: Seq<Seq<char>>,
    pub settings: DedupStrategySettings,
}

impl EngineModel {
    /// The index that the next text gets.
    pub open spec fn next_index(self) -> nat {
        self.corpus.len()
    }

    /// The state after a text was appended.
    pub open spec fn add(self, text: Seq<char>) -> EngineModel {
        EngineModel { corpus: self.corpus.push(text), ..self }
    }

    /// The text at an index, if there is one.
    pub open spec fn get(self, index: nat) -> Option<Seq<char>> {
        if index < self.corpus.len() {
            Some(self.corpus[index as int])
        } else {
            None
        }
    }

    /// The state after the corpus was emptied.
    pub open spec fn clear(self) -> EngineModel {
        EngineModel { corpus: Seq::empty(), ..self }
    }

    /// The state after a strategy document arrived: a valid document
    /// replaces the strategy by its canonical form, an invalid one changes
    /// nothing.
    pub open spec fn set_strategy(self, document: StrategyDocument) -> EngineModel {
        if document.is_valid() {
            EngineModel { settings: document.canonical(), ..self }
        } else {
            self
        }
    }

    /// The strategy in force.
    pub open spec fn get_strategy(self) -> DedupStrategySettings {
        self.settings
    }
}

/// A text that was added under an index is found under that index, and stays
/// there while texts are added and strategies replaced.
pub proof fn lemma_index_stable(
    state: EngineModel,
    text: Seq<char>,
    later: Seq<char>,
    document: StrategyDocument,
)
    ensures
        state.add(text).get(state.next_index()) == Some(text),
        forall|index: nat|
            state.get(index) is Some ==> {
                &&& #[trigger] state.add(later).get(index) == state.get(index)
                &&& state.set_strategy(document).get(index) == state.get(index)
            },
{
}

/// After the corpus was emptied no index holds a text, and the next text
/// gets index zero.
pub proof fn lemma_clear_resets(state: EngineModel, index: nat)
    ensures
        state.clear().get(index) is None,
        state.clear().next_index() == 0,
{
}

/// The strategy read back after a valid document was set is the canonical
/// form of the document; after an invalid one it is the strategy as it was.
pub proof fn lemma_strategy_round_trip(state: EngineModel, document: StrategyDocument)
    ensures
        document.is_valid() ==> state.set_strategy(document).get_strategy()
            == document.canonical(),
        !document.is_valid() ==> state.set_strategy(document).get_strategy()
            == state.get_strategy(),
{
}

/// The groups of one result share no item, and each has at least two: its
/// representative and at least one duplicate.
pub proof fn lemma_results_disjoint(results: DedupResultsView, links: Links, corpus: Seq<Seq<char>>)
    requires
        corpus.len() <= usize::MAX,
        results == shown_results(greedy_groups(links, corpus.len() as int), corpus),
    ensures
        forall|p: int|
            0 <= p < results.duplicate_groups.len() ==> {
                &&& (#[trigger] results.duplicate_groups[p]).indices.len() >= 2
                &&& results.duplicate_groups[p].duplicates.len() >= 1
            },
        forall|p: int, q: int, k: usize|
            0 <= p < results.duplicate_groups.len() && 0 <= q < results.duplicate_groups.len() && p
                != q ==> !(results.duplicate_groups[p].indices.contains(k)
                && results.duplicate_groups[q].indices.contains(k)),
{
    lemma_groups_disjoint(links, corpus.len() as int);
}

/// The counts of a result add up.
pub proof fn lemma_results_conserve(results: DedupResultsView, links: Links, corpus: Seq<Seq<char>>)
    requires
        corpus.len() <= usize::MAX,
        results == shown_results(greedy_groups(links, corpus.len() as int), corpus),
    ensures
        conserves(results, corpus.len()),
{
    let groups = greedy_groups(links, corpus.len() as int);
    lemma_reported_duplicates(groups, corpus);
    lemma_duplicates_bounded(links, corpus.len() as int);
    lemma_groups_count(links, corpus.len() as int, corpus.len() as int);
}

/// Two results that report the same groups over the same corpus are equal.
pub proof fn lemma_results_determined(
    first: DedupResultsView,
    second: DedupResultsView,
    links: Links,
    corpus: Seq<Seq<char>>,
)
    requires
        first == shown_results(greedy_groups(links, corpus.len() as int), corpus),
        second == shown_results(greedy_groups(links, corpus.len() as int), corpus),
    ensures
        first == second,
{
}

/// Builds the reported form of one group.
fn show_group(group: &IndexGroup, texts: &Vec<String>) -> (shown: DuplicateGroup)
    requires
        group.members@.len() >= 1,
        forall|k: int| 0 <= k < group.members@.len() ==> group.members@[k] < texts@.len(),
    ensures
        shown@ == shown_group(group@, string_views(texts@)),
{
    let ghost corpus = string_views(texts@);
    let mut indices: Vec<usize> = Vec::new();
    let mut duplicates: Vec<String> = Vec::new();
    let original = texts[group.members[0]].clone();
    indices.push(group.members[0]);
    let mut k: usize = 1;
    while k < group.members.len()
        invariant
            1 <= k <= group.members@.len(),
            corpus == string_views(texts@),
            forall|t: int| 0 <= t < group.members@.len() ==> group.members@[t] < texts@.len(),
            indices@ == group.members@.take(k as int),
            duplicates@.len() == k - 1,
            forall|t: int|
                0 <= t < k - 1 ==> (#[trigger] duplicates@[t])@ == corpus[group.members@[t
                    + 1] as int],
        decreases group.members@.len() - k,
    {
        let at: usize = group.members[k];
        indices.push(at);
        duplicates.push(texts[at].clone());
        assert(group.members@.take(k + 1) =~= group.members@.take(k as int).push(at));
        k += 1;
    }
    assert(group.members@.take(k as int) =~= group.members@);
    let shown = DuplicateGroup { indices, original, duplicates, similarity: group.similarity };
    assert(shown@.duplicates =~= shown_group(group@, corpus).duplicates);
    shown
}

/// The engine.
pub struct DedupManager {
    classifier: TextClassifier,
}

impl DedupManager {
    /// The texts of the corpus in the order in which they were added.
    pub closed spec fn corpus(&self) -> Seq<Seq<char>> {
        self.classifier.corpus()
    }

    /// The strategy in force.
    pub closed spec fn settings(&self) -> DedupStrategySettings {
        self.classifier.settings()
    }

    /// The configuration in force.
    pub closed spec fn resources(&self) -> DynamicConfig {
        self.classifier.resources()
    }

    /// Corpus and strategy together.
    pub open spec fn model(&self) -> EngineModel {
        EngineModel { corpus: self.corpus(), settings: self.settings() }
    }

    /// The strategy in force is within its ranges.
    pub open spec fn wf(&self) -> bool {
        self.settings().wf()
    }

    /// Creates an engine with an empty corpus and the given strategy,
    /// brought into its ranges. The strategy names the method; the second
    /// argument is not read.
    pub fn new(strategy: DedupStrategySettings, _similarity_method: SimilarityMethod) -> (manager:
        Self)
        ensures
            manager.wf(),
            manager.model() == (EngineModel {
                corpus: Seq::empty(),
                settings: repaired(strategy),
            }),
            manager.resources().base.is_standard(),
            manager.resources().user_stop_words@.len() == 0,
            manager.resources().user_sentence_delimiters@.len() == 0,
            manager.resources().user_paragraph_delimiters is None,
    {
        DedupManager { classifier: TextClassifier::new(strategy) }
    }

    /// Empties the corpus.
    pub fn clear(&mut self) -> (outcome: Result<(), AppError>)
        ensures
            outcome is Ok,
            final(self).model() == old(self).model().clear(),
            final(self).resources() == old(self).resources(),
    {
        self.classifier.clear();
        Ok(())
    }

    /// Appends a text to the corpus and returns its index.
    pub fn add_text(&mut self, text: String) -> (index: usize)
        ensures
            index == old(self).model().next_index(),
            final(self).model() == old(self).model().add(text@),
            final(self).resources() == old(self).resources(),
    {
        self.classifier.add_text(text)
    }

    /// Checks a strategy document and, where it is valid, puts its canonical
    /// form in force and hands it back. An invalid document is rejected and
    /// changes nothing.
    pub fn update_strategy(&mut self, document: &StrategyDocument) -> (outcome: Result<
        StrategyUpdate,
        AppError,
    >)
        ensures
            outcome is Ok <==> document.is_valid(),
            final(self).model() == old(self).model().set_strategy(*document),
            final(self).resources() == old(self).resources(),
            outcome matches Ok(update) ==> {
                &&& update.settings == document.canonical()
                &&& update.threshold_clamped == document.threshold_out_of_range()
                &&& final(self).wf()
            },
            outcome matches Err(error) ==> error.code == ErrorCode::StrategyUpdateError,
            old(self).wf() ==> final(self).wf(),
    {
        match canonicalise(document) {
            Ok(update) => {
                self.classifier.update_strategy(update.settings);
                Ok(update)
            },
            Err(error) => Err(error),
        }
    }

    /// The strategy in force.
    pub fn get_strategy(&self) -> (strategy: DedupStrategySettings)
        ensures
            strategy == self.model().get_strategy(),
    {
        *self.classifier.get_strategy()
    }

    /// Replaces the configuration.
    pub fn update_config(&mut self, config: DynamicConfig)
        ensures
            final(self).resources() == config,
            final(self).model() == old(self).model(),
    {
        self.classifier.update_config(config);
    }

    /// The text at an index, if the corpus has one there.
    pub fn get_text(&self, id: usize) -> (text: Option<String>)
        ensures
            match self.model().get(id as nat) {
                Some(found) => text matches Some(given) && given@ == found,
                None => text is None,
            },
    {
        self.classifier.get_text(id)
    }

    /// All texts of the corpus, in order.
    pub fn get_all_texts(&self) -> (all: Vec<String>)
        ensures
            string_views(all@) == self.model().corpus,
    {
        self.classifier.get_all_texts()
    }

    /// The canonical form of a text under the strategy in force.
    pub fn normalize_text(&self, text: &str) -> (out: String)
        ensures
            out@ == crate::normalize::canonical_form(self.settings(), self.resources(), text@),
    {
        self.classifier.normalize_text(text)
    }

    /// Groups the corpus and reports the groups with their texts and the
    /// counts. `outside` holds the scores of the pairs where the method is
    /// one that is scored outside this library.
    pub fn deduplicate_texts(&mut self, outside: Option<&PairScores>) -> (outcome: Result<
        DedupResults,
        AppError,
    >)
        requires
            old(self).wf(),
        ensures
            final(self).model() == old(self).model(),
            final(self).resources() == old(self).resources(),
            match grouping_error(
                old(self).settings(),
                old(self).resources(),
                old(self).corpus(),
                match outside {
                    Some(table) => Some(*table),
                    None => None,
                },
            ) {
                Some(code) => outcome matches Err(error) && error.code == code,
                None => outcome matches Ok(results) && results@ == shown_results(
                    greedy_groups(
                        corpus_links(
                            old(self).settings(),
                            old(self).resources(),
                            old(self).corpus(),
                            match outside {
                                Some(table) => Some(*table),
                                None => None,
                            },
                        ),
                        old(self).corpus().len() as int,
                    ),
                    old(self).corpus(),
                ),
            },
            outcome matches Ok(results) ==> {
                &&& conserves(results@, old(self).corpus().len())
                &&& forall|p: int|
                    0 <= p < results.duplicate_groups@.len()
                        ==> (#[trigger] results.duplicate_groups@[p]).similarity.wf()
            },
    {
        let ghost table: Option<PairScores> = match outside {
            Some(table) => Some(*table),
            None => None,
        };
        let ghost links = corpus_links(self.settings(), self.resources(), self.corpus(), table);
        let groups = match self.classifier.find_duplicates(outside) {
            Ok(groups) => groups,
            Err(error) => {
                return Err(error);
            },
        };
        let texts = self.classifier.get_all_texts();
        let total: usize = texts.len();
        let ghost corpus = self.corpus();
        let ghost expected = greedy_groups(links, total as int);
        proof {
            lemma_groups_disjoint(links, total as int);
        }
        let mut shown: Vec<DuplicateGroup> = Vec::new();
        let mut p: usize = 0;
        while p < groups.len()
            invariant
                p <= groups.len(),
                corpus == string_views(texts@),
                total == texts@.len(),
                groups_view(groups@) == expected,
                forall|q: int|
                    0 <= q < expected.len() ==> {
                        let g = #[trigger] expected[q];
                        &&& g.members.len() >= 2
                        &&& forall|a: int| 0 <= a < g.members.len() ==> g.members[a] < total
                    },
                shown@.len() == p,
                forall|q: int| 0 <= q < p ==> (#[trigger] shown@[q])@ == shown_group(
                    expected[q],
                    corpus,
                ),
                forall|q: int| 0 <= q < groups@.len() ==> (#[trigger] groups@[q]).similarity.wf(),
                forall|q: int| 0 <= q < p ==> (#[trigger] shown@[q]).similarity.wf(),
            decreases groups.len() - p,
        {
            proof {
                assert(groups@[p as int]@ == expected[p as int]);
            }
            let group = show_group(&groups[p], &texts);
            shown.push(group);
            p += 1;
        }
        proof {
            assert forall|q: int| 0 <= q < groups@.len() implies (
            #[trigger] groups@[q]).members@.len() >= 1 by {
                assert(groups@[q]@ == expected[q]);
            }
        }
        let duplicates: usize = count_duplicates(&groups, Ghost(total));
        let results = DedupResults {
            duplicate_groups: shown,
            stats: DedupStats {
                total_items: total,
                unique_items: total - duplicates,
                duplicate_groups: groups.len(),
            },
        };
        proof {
            assert(results@.duplicate_groups =~= shown_results(expected, corpus).duplicate_groups);
            lemma_reported_duplicates(expected, corpus);
        }
        Ok(results)
    }
}

/// Counts the members of the groups that do not represent their group.
fn count_duplicates(groups: &Vec<IndexGroup>, Ghost(total): Ghost<usize>) -> (count: usize)
    requires
        0 <= duplicates_total(groups_view(groups@)) <= total,
        forall|q: int| 0 <= q < groups@.len() ==> (#[trigger] groups@[q]).members@.len() >= 1,
    ensures
        count == duplicates_total(groups_view(groups@)),
{
    let ghost all = groups_view(groups@);
    let mut count: usize = 0;
    let mut p: usize = 0;
    assert(all.take(0) =~= Seq::<GroupView>::empty());
    while p < groups.len()
        invariant
            p <= groups.len(),
            all == groups_view(groups@),
            forall|q: int| 0 <= q < groups@.len() ==> (#[trigger] groups@[q]).members@.len() >= 1,
            count == duplicates_total(all.take(p as int)),
            duplicates_total(all) <= total,
        decreases groups.len() - p,
    {
        proof {
            assert(all.take(p + 1).drop_last() =~= all.take(p as int));
            assert(all.take(p + 1).last() == groups@[p as int]@);
            lemma_duplicates_monotone(all, p + 1);
        }
        count = count + (groups[p].members.len() - 1);
        p += 1;
    }
    assert(all.take(groups.len() as int) =~= all);
    count
}

/// The count over the first groups of a list is at most the count over the
/// list, where every group has a member.
proof fn lemma_duplicates_monotone(groups: Seq<GroupView>, upto: int)
    requires
        0 <= upto <= groups.len(),
        forall|q: int| 0 <= q < groups.len() ==> (#[trigger] groups[q]).members.len() >= 1,
    ensures
        0 <= duplicates_total(groups.take(upto)) <= duplicates_total(groups),
    decreases groups.len() - upto,
{
    if upto < groups.len() {
        assert(groups.take(upto + 1).drop_last() =~= groups.take(upto));
        lemma_duplicates_monotone(groups, upto + 1);
        lemma_duplicates_nonnegative(groups.take(upto));
    } else {
        assert(groups.take(upto) =~= groups);
        lemma_duplicates_nonnegative(groups);
    }
}

proof fn lemma_duplicates_nonnegative(groups: Seq<GroupView>)
    requires
        forall|q: int| 0 <= q < groups.len() ==> (#[trigger] groups[q]).members.len() >= 1,
    ensures
        0 <= duplicates_total(groups),
    decreases groups.len(),
{
    if groups.len() > 0 {
        lemma_duplicates_nonnegative(groups.drop_last());
    }
}

} // verus!
