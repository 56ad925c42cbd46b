//! The splitter: cuts a canonical text into units, and finds the units that
//! share the containing scope of a given unit.

use vstd::prelude::*;
use crate::config::DynamicConfig;
use crate::strategy::SplitStrategy;
use crate::text::{
    chars_of,
    drop_empty,
    nonempty,
    pieces,
    split_pieces,
    split_words,
    string_of,
    string_views,
    trim,
    trim_chars,
    views,
    words,
};

verus! {

/// The stretches of a text between the occurrences of a delimiter, found from
/// left to right. An empty delimiter occurs nowhere.
pub open spec fn split_by(s: Seq<char>, delimiter: Seq<char>) -> Seq<Seq<char>>
    decreases s.len(),
{
    if delimiter.len() == 0 || s.len() < delimiter.len() {
        seq![s]
    } else if s.take(delimiter.len() as int) == delimiter {
        seq![Seq::<char>::empty()] + split_by(s.skip(delimiter.len() as int), delimiter)
    } else {
        let rest = split_by(s.skip(1), delimiter);
        seq![seq![s[0]] + rest[0]] + rest.drop_first()
    }
}

/// A text always splits into at least one stretch.
pub proof fn lemma_split_by_nonempty(s: Seq<char>, delimiter: Seq<char>)
    ensures
        split_by(s, delimiter).len() >= 1,
    decreases s.len(),
{
    if delimiter.len() == 0 || s.len() < delimiter.len() {
    } else if s.take(delimiter.len() as int) == delimiter {
        lemma_split_by_nonempty(s.skip(delimiter.len() as int), delimiter);
    } else {
        lemma_split_by_nonempty(s.skip(1), delimiter);
    }
}

/// The pieces found so far, the piece that is being read, and the pieces of
/// the rest of the text, put together.
spec fn glued(done: Seq<Seq<char>>, current: Seq<char>, rest: Seq<Seq<char>>) -> Seq<Seq<char>> {
    done + seq![current + rest[0]] + rest.drop_first()
}

/// Whether the delimiter stands in the text at a position.
fn delimiter_at(text: &Vec<char>, at: usize, delimiter: &Vec<char>) -> (found: bool)
    requires
        at + delimiter.len() <= text.len(),
    ensures
        found == (text@.skip(at as int).take(delimiter.len() as int) == delimiter@),
{
    let ghost window = text@.skip(at as int).take(delimiter.len() as int);
    let mut k: usize = 0;
    while k < delimiter.len()
        invariant
            k <= delimiter.len(),
            at + delimiter.len() <= text.len(),
            window == text@.skip(at as int).take(delimiter.len() as int),
            forall|t: int| 0 <= t < k ==> #[trigger] window[t] == delimiter@[t],
        decreases delimiter.len() - k,
    {
        if text[at + k] != delimiter[k] {
            assert(window[k as int] != delimiter@[k as int]);
            return false;
        }
        k += 1;
    }
    assert(window =~= delimiter@);
    true
}

/// Splits a text at every occurrence of a delimiter.
pub fn split_at_delimiter(text: &Vec<char>, delimiter: &Vec<char>) -> (parts: Vec<Vec<char>>)
    ensures
        views(parts@) == split_by(text@, delimiter@),
{
    let mut done: Vec<Vec<char>> = Vec::new();
    let mut current: Vec<char> = Vec::new();
    let mut i: usize = 0;
    let width: usize = delimiter.len();
    proof {
        lemma_split_by_nonempty(text@, delimiter@);
        assert(text@.skip(0) =~= text@);
        let rest = split_by(text@, delimiter@);
        assert(Seq::<char>::empty() + rest[0] =~= rest[0]);
        assert(glued(views(done@), current@, rest) =~= rest);
    }
    while width > 0 && i < text.len() && text.len() - i >= width
        invariant
            i <= text.len(),
            width == delimiter.len(),
            glued(views(done@), current@, split_by(text@.skip(i as int), delimiter@)) == split_by(
                text@,
                delimiter@,
            ),
        decreases text.len() - i,
    {
        let ghost remaining = text@.skip(i as int);
        let ghost rest = split_by(remaining, delimiter@);
        if delimiter_at(text, i, delimiter) {
            proof {
                let after = split_by(text@.skip(i + width), delimiter@);
                lemma_split_by_nonempty(text@.skip(i + width), delimiter@);
                assert(remaining.skip(width as int) =~= text@.skip(i + width));
                assert(rest == seq![Seq::<char>::empty()] + after);
                assert(views(done@.push(current)) =~= views(done@).push(current@));
                assert(current@ + rest[0] =~= current@);
                assert(rest.drop_first() =~= after);
                assert(Seq::<char>::empty() + after[0] =~= after[0]);
                assert(glued(views(done@).push(current@), Seq::<char>::empty(), after) =~= glued(
                    views(done@),
                    current@,
                    rest,
                ));
            }
            done.push(current);
            current = Vec::new();
            i += width;
        } else {
            proof {
                let after = split_by(text@.skip(i + 1), delimiter@);
                lemma_split_by_nonempty(text@.skip(i + 1), delimiter@);
                assert(remaining.skip(1) =~= text@.skip(i + 1));
                assert(remaining[0] == text@[i as int]);
                assert(rest == seq![seq![remaining[0]] + after[0]] + after.drop_first());
                assert(current@ + rest[0] =~= current@.push(text@[i as int]) + after[0]);
                assert(rest.drop_first() =~= after.drop_first());
            }
            current.push(text[i]);
            i += 1;
        }
    }
    let ghost before = current@;
    let ghost start = i;
    while i < text.len()
        invariant
            start <= i <= text.len(),
            current@ == before + text@.subrange(start as int, i as int),
        decreases text.len() - i,
    {
        current.push(text[i]);
        assert(text@.subrange(start as int, i + 1) =~= text@.subrange(start as int, i as int).push(
            text@[i as int],
        ));
        i += 1;
    }
    proof {
        let remaining = text@.skip(start as int);
        assert(text@.subrange(start as int, text.len() as int) =~= remaining);
        assert(split_by(remaining, delimiter@) == seq![remaining]);
        assert(seq![before + remaining].drop_first() =~= Seq::<Seq<char>>::empty());
        assert(views(done@.push(current)) =~= views(done@).push(current@));
        assert(glued(views(done@), before, seq![remaining]) =~= views(done@).push(
            before + remaining,
        ));
    }
    done.push(current);
    done
}

/// The members of a list, each without the whitespace at its ends.
pub open spec fn trimmed(list: Seq<Seq<char>>) -> Seq<Seq<char>> {
    list.map_values(|piece: Seq<char>| trim(piece))
}

/// Trims every member of a list.
pub fn trim_each(list: &Vec<Vec<char>>) -> (out: Vec<Vec<char>>)
    ensures
        views(out@) == trimmed(views(list@)),
{
    let mut out: Vec<Vec<char>> = Vec::new();
    let mut i: usize = 0;
    while i < list.len()
        invariant
            i <= list.len(),
            out.len() == i,
            forall|k: int| 0 <= k < i ==> (#[trigger] out@[k])@ == trim(list@[k]@),
        decreases list.len() - i,
    {
        out.push(trim_chars(&list[i]));
        i += 1;
    }
    assert(views(out@) =~= trimmed(views(list@)));
    out
}

/// Every character of a text as a unit of its own.
pub open spec fn single_characters(text: Seq<char>) -> Seq<Seq<char>> {
    Seq::new(text.len(), |i: int| seq![text[i]])
}

/// The sentences of a text: what lies between sentence delimiters, trimmed,
/// where anything is left.
pub open spec fn sentences(text: Seq<char>, delimiters: Seq<char>) -> Seq<Seq<char>> {
    nonempty(trimmed(pieces(text, delimiters)))
}

/// The paragraphs of a text: what lies between paragraph delimiters, trimmed,
/// where anything is left.
pub open spec fn paragraphs(text: Seq<char>, delimiter: Seq<char>) -> Seq<Seq<char>> {
    nonempty(trimmed(split_by(text, delimiter)))
}

/// The units of a text under a split strategy.
pub open spec fn units(
    text: Seq<char>,
    strategy: SplitStrategy,
    sentence_delimiters: Seq<char>,
    paragraph_delimiter: Seq<char>,
) -> Seq<Seq<char>> {
    match strategy {
        SplitStrategy::Characters => single_characters(text),
        SplitStrategy::Words => words(text),
        SplitStrategy::Sentences => sentences(text, sentence_delimiters),
        SplitStrategy::Paragraphs => paragraphs(text, paragraph_delimiter),
        SplitStrategy::WholeText => seq![text],
    }
}

fn split_characters(text: &Vec<char>) -> (out: Vec<Vec<char>>)
    ensures
        views(out@) == single_characters(text@),
{
    let mut out: Vec<Vec<char>> = Vec::new();
    let mut i: usize = 0;
    while i < text.len()
        invariant
            i <= text.len(),
            out.len() == i,
            forall|k: int| 0 <= k < i ==> (#[trigger] out@[k])@ == seq![text@[k]],
        decreases text.len() - i,
    {
        let mut unit: Vec<char> = Vec::new();
        unit.push(text[i]);
        assert(unit@ =~= seq![text@[i as int]]);
        out.push(unit);
        i += 1;
    }
    assert(views(out@) =~= single_characters(text@));
    out
}

fn split_sentences(text: &Vec<char>, delimiters: &Vec<char>) -> (out: Vec<Vec<char>>)
    ensures
        views(out@) == sentences(text@, delimiters@),
{
    let parts = split_pieces(text, delimiters);
    drop_empty(trim_each(&parts))
}

fn split_paragraphs(text: &Vec<char>, delimiter: &Vec<char>) -> (out: Vec<Vec<char>>)
    ensures
        views(out@) == paragraphs(text@, delimiter@),
{
    let parts = split_at_delimiter(text, delimiter);
    drop_empty(trim_each(&parts))
}

/// Splits a text into units.
pub fn split_units(
    text: &Vec<char>,
    strategy: SplitStrategy,
    sentence_delimiters: &Vec<char>,
    paragraph_delimiter: &Vec<char>,
) -> (out: Vec<Vec<char>>)
    ensures
        views(out@) == units(text@, strategy, sentence_delimiters@, paragraph_delimiter@),
{
    match strategy {
        SplitStrategy::Characters => split_characters(text),
        SplitStrategy::Words => split_words(text),
        SplitStrategy::Sentences => split_sentences(text, sentence_delimiters),
        SplitStrategy::Paragraphs => split_paragraphs(text, paragraph_delimiter),
        SplitStrategy::WholeText => {
            let mut out: Vec<Vec<char>> = Vec::new();
            let copy = text.clone();
            assert(copy@ =~= text@);
            out.push(copy);
            assert(views(out@) =~= seq![text@]);
            out
        },
    }
}

/// The members of a list that hold more than whitespace.
pub open spec fn nonblank(list: Seq<Seq<char>>) -> Seq<Seq<char>> {
    list.filter(|piece: Seq<char>| trim(piece).len() > 0)
}

/// Drops the members of a list that hold only whitespace.
pub fn drop_blank(list: Vec<Vec<char>>) -> (kept: Vec<Vec<char>>)
    ensures
        views(kept@) == nonblank(views(list@)),
{
    let mut kept: Vec<Vec<char>> = Vec::new();
    let mut i: usize = 0;
    let ghost source = views(list@);
    assert(source.take(0) =~= Seq::<Seq<char>>::empty());
    assert(views(kept@) =~= nonblank(source.take(0)));
    while i < list.len()
        invariant
            i <= list.len(),
            source == views(list@),
            views(kept@) == nonblank(source.take(i as int)),
        decreases list.len() - i,
    {
        proof {
            assert(source.take(i + 1).drop_last() =~= source.take(i as int));
            assert(source.take(i + 1).last() == list@[i as int]@);
            reveal(Seq::filter);
        }
        if trim_chars(&list[i]).len() > 0 {
            let piece = list[i].clone();
            proof {
                assert(piece@ =~= list@[i as int]@);
                assert(views(kept@.push(piece)) =~= views(kept@).push(piece@));
            }
            kept.push(piece);
        }
        i += 1;
    }
    assert(source.take(list.len() as int) =~= source);
    kept
}

/// The number of units in each containing scope of a text, scope after
/// scope: the characters of each word, the words of each sentence, or the
/// sentences of each paragraph. Paragraphs and whole texts have one scope,
/// the text itself, and so no list.
pub open spec fn scope_sizes(
    text: Seq<char>,
    strategy: SplitStrategy,
    sentence_delimiters: Seq<char>,
    paragraph_delimiter: Seq<char>,
) -> Seq<nat> {
    match strategy {
        SplitStrategy::Characters => words(text).map_values(|word: Seq<char>| word.len()),
        SplitStrategy::Words => nonblank(pieces(text, sentence_delimiters)).map_values(
            |sentence: Seq<char>| words(sentence).len(),
        ),
        SplitStrategy::Sentences => nonblank(split_by(text, paragraph_delimiter)).map_values(
            |paragraph: Seq<char>| nonblank(pieces(paragraph, sentence_delimiters)).len(),
        ),
        _ => Seq::empty(),
    }
}

/// The number of unit positions that lie between two scopes: the space
/// between two words is a character of its own.
pub open spec fn scope_gap(strategy: SplitStrategy) -> nat {
    if strategy == SplitStrategy::Characters {
        1
    } else {
        0
    }
}

/// The start and the size of the scope that holds position `idx`, looked for
/// from scope `k` on, which starts at position `pos`.
pub open spec fn locate(sizes: Seq<nat>, gap: nat, idx: nat, k: nat, pos: nat) -> Option<
    (nat, nat),
>
    decreases sizes.len() - k,
{
    if k >= sizes.len() {
        None
    } else if pos <= idx < pos + sizes[k as int] {
        Some((pos, sizes[k as int]))
    } else {
        locate(sizes, gap, idx, k + 1, pos + sizes[k as int] + gap)
    }
}

proof fn lemma_locate_passed(sizes: Seq<nat>, gap: nat, idx: nat, k: nat, pos: nat)
    requires
        pos > idx,
    ensures
        locate(sizes, gap, idx, k, pos) is None,
    decreases sizes.len() - k,
{
    if k < sizes.len() {
        lemma_locate_passed(sizes, gap, idx, k + 1, pos + sizes[k as int] + gap);
    }
}

/// The positions from `start` up to, not including, `end`.
pub open spec fn index_range(start: nat, end: nat) -> Seq<usize> {
    Seq::new((end - start) as nat, |t: int| (start + t) as usize)
}

fn range_of(start: usize, end: usize) -> (out: Vec<usize>)
    requires
        start <= end,
    ensures
        out@ == index_range(start as nat, end as nat),
{
    let mut out: Vec<usize> = Vec::new();
    let mut at: usize = start;
    while at < end
        invariant
            start <= at <= end,
            out@ == index_range(start as nat, at as nat),
        decreases end - at,
    {
        out.push(at);
        assert(index_range(start as nat, (at + 1) as nat) =~= index_range(
            start as nat,
            at as nat,
        ).push(at));
        at += 1;
    }
    out
}

/// The positions of the units that share the containing scope of the unit at
/// position `idx`: the characters of its word, the words of its sentence, the
/// sentences of its paragraph, or every unit where the units are paragraphs
/// or the whole text. A unit that lies in no scope is alone in its own; a
/// position beyond the last unit has no scope.
pub open spec fn local_scope(
    text: Seq<char>,
    idx: nat,
    strategy: SplitStrategy,
    sentence_delimiters: Seq<char>,
    paragraph_delimiter: Seq<char>,
) -> Seq<usize> {
    let total = units(text, strategy, sentence_delimiters, paragraph_delimiter).len();
    if idx >= total {
        Seq::empty()
    } else if strategy == SplitStrategy::Paragraphs || strategy == SplitStrategy::WholeText {
        index_range(0, total)
    } else {
        match locate(
            scope_sizes(text, strategy, sentence_delimiters, paragraph_delimiter),
            scope_gap(strategy),
            idx,
            0,
            0,
        ) {
            Some((start, size)) => index_range(
                start,
                if start + size > total {
                    total
                } else {
                    start + size
                },
            ),
            None => seq![idx as usize],
        }
    }
}

/// Measures the containing scopes of a text.
fn measure_scopes(
    text: &Vec<char>,
    strategy: SplitStrategy,
    sentence_delimiters: &Vec<char>,
    paragraph_delimiter: &Vec<char>,
) -> (sizes: Vec<usize>)
    ensures
        sizes@.len() == scope_sizes(
            text@,
            strategy,
            sentence_delimiters@,
            paragraph_delimiter@,
        ).len(),
        forall|k: int|
            0 <= k < sizes@.len() ==> #[trigger] sizes@[k] == scope_sizes(
                text@,
                strategy,
                sentence_delimiters@,
                paragraph_delimiter@,
            )[k],
{
    let mut sizes: Vec<usize> = Vec::new();
    match strategy {
        SplitStrategy::Characters => {
            let list = split_words(text);
            let mut k: usize = 0;
            while k < list.len()
                invariant
                    k <= list.len(),
                    sizes.len() == k,
                    forall|t: int| 0 <= t < k ==> #[trigger] sizes@[t] == list@[t]@.len(),
                decreases list.len() - k,
            {
                sizes.push(list[k].len());
                k += 1;
            }
        },
        SplitStrategy::Words => {
            let list = drop_blank(split_pieces(text, sentence_delimiters));
            let mut k: usize = 0;
            while k < list.len()
                invariant
                    k <= list.len(),
                    sizes.len() == k,
                    forall|t: int| 0 <= t < k ==> #[trigger] sizes@[t] == words(list@[t]@).len(),
                decreases list.len() - k,
            {
                let inner = split_words(&list[k]);
                sizes.push(inner.len());
                k += 1;
            }
        },
        SplitStrategy::Sentences => {
            let list = drop_blank(split_at_delimiter(text, paragraph_delimiter));
            let mut k: usize = 0;
            while k < list.len()
                invariant
                    k <= list.len(),
                    sizes.len() == k,
                    forall|t: int|
                        0 <= t < k ==> #[trigger] sizes@[t] == nonblank(
                            pieces(list@[t]@, sentence_delimiters@),
                        ).len(),
                decreases list.len() - k,
            {
                let inner = drop_blank(split_pieces(&list[k], sentence_delimiters));
                sizes.push(inner.len());
                k += 1;
            }
        },
        _ => {},
    }
    sizes
}

/// Finds the positions of the units that share the containing scope of the
/// unit at position `idx`.
pub fn local_scope_units(
    text: &Vec<char>,
    idx: usize,
    strategy: SplitStrategy,
    sentence_delimiters: &Vec<char>,
    paragraph_delimiter: &Vec<char>,
) -> (scope: Vec<usize>)
    ensures
        scope@ == local_scope(
            text@,
            idx as nat,
            strategy,
            sentence_delimiters@,
            paragraph_delimiter@,
        ),
{
    let all = split_units(text, strategy, sentence_delimiters, paragraph_delimiter);
    let total: usize = all.len();
    if idx >= total {
        return Vec::new();
    }
    match strategy {
        SplitStrategy::Paragraphs | SplitStrategy::WholeText => {
            return range_of(0, total);
        },
        _ => {},
    }
    let sizes = measure_scopes(text, strategy, sentence_delimiters, paragraph_delimiter);
    let gap: usize = match strategy {
        SplitStrategy::Characters => 1,
        _ => 0,
    };
    let ghost spans = scope_sizes(text@, strategy, sentence_delimiters@, paragraph_delimiter@);
    let mut k: usize = 0;
    let mut pos: usize = 0;
    while k < sizes.len()
        invariant
            k <= sizes.len(),
            pos <= idx < total,
            total == units(text@, strategy, sentence_delimiters@, paragraph_delimiter@).len(),
            spans == scope_sizes(text@, strategy, sentence_delimiters@, paragraph_delimiter@),
            strategy != SplitStrategy::Paragraphs,
            strategy != SplitStrategy::WholeText,
            gap == scope_gap(strategy),
            sizes@.len() == spans.len(),
            forall|t: int| 0 <= t < sizes@.len() ==> #[trigger] sizes@[t] == spans[t],
            locate(spans, gap as nat, idx as nat, 0, 0) == locate(
                spans,
                gap as nat,
                idx as nat,
                k as nat,
                pos as nat,
            ),
        decreases sizes.len() - k,
    {
        let size: usize = sizes[k];
        if idx - pos < size {
            let end: usize = if size > total - pos {
                total
            } else {
                pos + size
            };
            return range_of(pos, end);
        }
        let next: usize = pos + size + gap;
        if next > idx {
            proof {
                lemma_locate_passed(spans, gap as nat, idx as nat, (k + 1) as nat, next as nat);
            }
            let mut alone: Vec<usize> = Vec::new();
            alone.push(idx);
            assert(alone@ =~= seq![idx]);
            return alone;
        }
        pos = next;
        k += 1;
    }
    let mut alone: Vec<usize> = Vec::new();
    alone.push(idx);
    assert(alone@ =~= seq![idx]);
    alone
}

/// Splits a text into units under the delimiters of a configuration.
pub fn split_text_by_strategy(text: &str, strategy: SplitStrategy, config: &DynamicConfig) -> (out:
    Vec<String>)
    ensures
        string_views(out@) == units(
            text@,
            strategy,
            config.merged_sentence_delimiters(),
            config.paragraph_delimiter(),
        ),
{
    let chars = chars_of(text);
    let sentence_delimiters = config.merge_sentence_delimiters();
    let paragraph_delimiter = chars_of(config.get_paragraph_delimiters());
    let list = split_units(&chars, strategy, &sentence_delimiters, &paragraph_delimiter);
    let mut out: Vec<String> = Vec::new();
    let mut i: usize = 0;
    while i < list.len()
        invariant
            i <= list.len(),
            out.len() == i,
            forall|k: int| 0 <= k < i ==> (#[trigger] out@[k])@ == list@[k]@,
        decreases list.len() - i,
    {
        out.push(string_of(&list[i]));
        i += 1;
    }
    assert(string_views(out@) =~= views(list@));
    out
}

} // verus!
