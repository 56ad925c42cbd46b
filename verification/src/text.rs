//! Character-level helpers shared by the normaliser and the splitter.

use vstd::prelude::*;

verus! {

/// The lowercase form of a string, as `str::to_lowercase` computes it.
pub uninterp spec fn lowercase(s: Seq<char>) -> Seq<char>;

/// `str::to_lowercase` returns the lowercase equivalent of the string slice as
/// a new `String`; the result depends on the characters alone.
pub assume_specification[ str::to_lowercase ](s: &str) -> (lowered: String)
    ensures
        lowered@ == lowercase(s@),
;

/// `String::push` appends the given character to the end of the string.
pub assume_specification[ String::push ](s: &mut String, c: char)
    ensures
        final(s)@ == old(s)@.push(c),
;

/// Whether a character is alphabetic or numeric in the sense of
/// `char::is_alphanumeric`.
pub uninterp spec fn alphanumeric(c: char) -> bool;

/// `char::is_alphanumeric` decides by the Unicode tables of the standard
/// library; the answer depends on the character alone.
pub assume_specification[ char::is_alphanumeric ](c: char) -> (b: bool)
    ensures
        b == alphanumeric(c),
;

/// Whether a character has the Unicode property `White_Space`, as
/// `char::is_whitespace` reports it.
pub uninterp spec fn unicode_whitespace(c: char) -> bool;

/// `char::is_whitespace` returns true if the character has the `White_Space`
/// property; the answer depends on the character alone.
pub assume_specification[ char::is_whitespace ](c: char) -> (b: bool)
    ensures
        b == unicode_whitespace(c),
;

/// Whether a character is an ASCII character.
pub open spec fn is_ascii_char(c: char) -> bool {
    c as u32 <= 0x7f
}

/// The ASCII characters that are neither letters, digits, blanks nor control
/// characters.
pub open spec fn is_ascii_punctuation(c: char) -> bool {
    let code = c as u32;
    (0x21 <= code <= 0x2f) || (0x3a <= code <= 0x40) || (0x5b <= code <= 0x60) || (0x7b <= code
        <= 0x7e)
}

/// Whether a character is an ASCII character.
pub fn char_is_ascii(c: char) -> (b: bool)
    ensures
        b == is_ascii_char(c),
{
    c <= '\u{7f}'
}

/// Whether a character is ASCII punctuation.
pub fn char_is_ascii_punctuation(c: char) -> (b: bool)
    ensures
        b == is_ascii_punctuation(c),
{
    ('\u{21}' <= c && c <= '\u{2f}') || ('\u{3a}' <= c && c <= '\u{40}') || ('\u{5b}' <= c && c
        <= '\u{60}') || ('\u{7b}' <= c && c <= '\u{7e}')
}

/// The characters that separate words: the ASCII whitespace, which is space,
/// tab, line feed, form feed and carriage return.
pub open spec fn word_separators() -> Seq<char> {
    seq![' ', '\t', '\n', '\x0C', '\r']
}

/// Lists the characters that separate words.
pub fn word_separator_list() -> (list: Vec<char>)
    ensures
        list@ == word_separators(),
{
    let mut list: Vec<char> = Vec::new();
    list.push(' ');
    list.push('\t');
    list.push('\n');
    list.push('\x0C');
    list.push('\r');
    assert(list@ =~= word_separators());
    list
}

/// The number of bytes that a text takes in UTF-8.
pub open spec fn byte_len(s: Seq<char>) -> nat {
    vstd::utf8::encode_utf8(s).len()
}

/// The number of bytes of a string slice.
pub fn byte_length(s: &str) -> (n: usize)
    ensures
        n == byte_len(s@),
{
    s.as_bytes().len()
}

/// A text has at most as many characters as bytes.
pub proof fn lemma_chars_at_most_bytes(s: Seq<char>)
    ensures
        s.len() <= byte_len(s),
    decreases s.len(),
{
    if s.len() > 0 {
        lemma_chars_at_most_bytes(s.drop_first());
        assert(vstd::utf8::encode_scalar(s[0] as u32).len() >= 1);
    }
}

/// The views of a vector of character vectors.
pub open spec fn views(lines: Seq<Vec<char>>) -> Seq<Seq<char>> {
    lines.map_values(|line: Vec<char>| line@)
}

/// The views of a vector of strings.
pub open spec fn string_views(lines: Seq<String>) -> Seq<Seq<char>> {
    lines.map_values(|line: String| line@)
}

/// Collects the characters of a string slice.
pub fn chars_of(s: &str) -> (v: Vec<char>)
    ensures
        v@ == s@,
{
    let mut v: Vec<char> = Vec::new();
    for c in it: s.chars()
        invariant
            v@ == it.seq().take(it.index() as int),
    {
        v.push(c);
    }
    v
}

/// Builds a string from characters.
pub fn string_of(v: &Vec<char>) -> (s: String)
    ensures
        s@ == v@,
{
    let mut s = String::new();
    let mut i: usize = 0;
    while i < v.len()
        invariant
            i <= v.len(),
            s@ == v@.take(i as int),
        decreases v.len() - i,
    {
        s.push(v[i]);
        i += 1;
    }
    s
}

/// Whether a character occurs in a list.
pub fn contains_char(list: &Vec<char>, c: char) -> (found: bool)
    ensures
        found == list@.contains(c),
{
    let mut i: usize = 0;
    while i < list.len()
        invariant
            i <= list.len(),
            forall|k: int| 0 <= k < i ==> list@[k] != c,
        decreases list.len() - i,
    {
        if list[i] == c {
            return true;
        }
        i += 1;
    }
    false
}

/// Whether two string slices hold the same characters.
pub fn same_text(a: &str, b: &str) -> (same: bool)
    ensures
        same == (a@ == b@),
{
    let left = a.to_owned();
    let right = b.to_owned();
    left == right
}

/// Whether two character vectors hold the same characters.
pub fn same_chars(a: &Vec<char>, b: &Vec<char>) -> (same: bool)
    ensures
        same == (a@ == b@),
{
    if a.len() != b.len() {
        return false;
    }
    let mut i: usize = 0;
    while i < a.len()
        invariant
            i <= a.len(),
            a.len() == b.len(),
            forall|k: int| 0 <= k < i ==> a@[k] == b@[k],
        decreases a.len() - i,
    {
        if a[i] != b[i] {
            return false;
        }
        i += 1;
    }
    assert(a@ =~= b@);
    true
}

/// The stretches of `s` between the characters of `separators`. A string with
/// `k` separating characters has `k + 1` pieces, some of which may be empty.
pub open spec fn pieces(s: Seq<char>, separators: Seq<char>) -> Seq<Seq<char>>
    decreases s.len(),
{
    if s.len() == 0 {
        seq![Seq::<char>::empty()]
    } else {
        let earlier = pieces(s.drop_last(), separators);
        if separators.contains(s.last()) {
            earlier.push(Seq::empty())
        } else {
            earlier.drop_last().push(earlier.last().push(s.last()))
        }
    }
}

/// A text always has at least one piece.
pub proof fn lemma_pieces_nonempty(s: Seq<char>, separators: Seq<char>)
    ensures
        pieces(s, separators).len() >= 1,
    decreases s.len(),
{
    if s.len() > 0 {
        lemma_pieces_nonempty(s.drop_last(), separators);
    }
}

/// Splits a text at every character of `separators`.
pub fn split_pieces(text: &Vec<char>, separators: &Vec<char>) -> (parts: Vec<Vec<char>>)
    ensures
        views(parts@) == pieces(text@, separators@),
{
    let mut done: Vec<Vec<char>> = Vec::new();
    let mut current: Vec<char> = Vec::new();
    let mut i: usize = 0;
    assert(text@.take(0) =~= Seq::<char>::empty());
    assert(views(done@).push(current@) =~= pieces(text@.take(0), separators@));
    while i < text.len()
        invariant
            i <= text.len(),
            views(done@).push(current@) == pieces(text@.take(i as int), separators@),
        decreases text.len() - i,
    {
        let c = text[i];
        let ghost prefix = text@.take(i + 1);
        proof {
            assert(prefix.drop_last() =~= text@.take(i as int));
            assert(prefix.last() == c);
        }
        if contains_char(separators, c) {
            proof {
                assert(views(done@.push(current)) =~= views(done@).push(current@));
            }
            done.push(current);
            current = Vec::new();
        } else {
            proof {
                assert(views(done@).push(current@).drop_last() =~= views(done@));
            }
            current.push(c);
        }
        i += 1;
    }
    proof {
        assert(text@.take(text.len() as int) =~= text@);
        assert(views(done@.push(current)) =~= views(done@).push(current@));
    }
    done.push(current);
    done
}

/// The members of a list that are not empty, in their order.
pub open spec fn nonempty(list: Seq<Seq<char>>) -> Seq<Seq<char>> {
    list.filter(|piece: Seq<char>| piece.len() > 0)
}

/// Drops the empty members of a list.
pub fn drop_empty(list: Vec<Vec<char>>) -> (kept: Vec<Vec<char>>)
    ensures
        views(kept@) == nonempty(views(list@)),
{
    let mut kept: Vec<Vec<char>> = Vec::new();
    let mut i: usize = 0;
    let ghost source = views(list@);
    assert(source.take(0) =~= Seq::<Seq<char>>::empty());
    assert(views(kept@) =~= nonempty(source.take(0)));
    while i < list.len()
        invariant
            i <= list.len(),
            source == views(list@),
            views(kept@) == nonempty(source.take(i as int)),
        decreases list.len() - i,
    {
        proof {
            assert(source.take(i + 1).drop_last() =~= source.take(i as int));
            assert(source.take(i + 1).last() == list@[i as int]@);
            reveal(Seq::filter);
        }
        if list[i].len() > 0 {
            let piece = list[i].clone();
            proof {
                assert(piece@ =~= list@[i as int]@);
                assert(views(kept@.push(piece)) =~= views(kept@).push(piece@));
            }
            kept.push(piece);
        }
        i += 1;
    }
    assert(source.take(list.len() as int) =~= source);
    kept
}

/// The words of a text: its maximal stretches free of ASCII whitespace.
pub open spec fn words(s: Seq<char>) -> Seq<Seq<char>> {
    nonempty(pieces(s, word_separators()))
}

/// Splits a text into its words.
pub fn split_words(text: &Vec<char>) -> (list: Vec<Vec<char>>)
    ensures
        views(list@) == words(text@),
{
    let separators = word_separator_list();
    drop_empty(split_pieces(text, &separators))
}

/// The members of a list, each two separated by one space.
pub open spec fn join_words(list: Seq<Seq<char>>) -> Seq<char>
    decreases list.len(),
{
    if list.len() == 0 {
        Seq::empty()
    } else if list.len() == 1 {
        list[0]
    } else {
        join_words(list.drop_last()).push(' ') + list.last()
    }
}

/// Joins the members of a list with single spaces.
pub fn join_with_spaces(list: &Vec<Vec<char>>) -> (joined: Vec<char>)
    ensures
        joined@ == join_words(views(list@)),
{
    let mut joined: Vec<char> = Vec::new();
    let mut i: usize = 0;
    let ghost source = views(list@);
    assert(source.take(0) =~= Seq::<Seq<char>>::empty());
    while i < list.len()
        invariant
            i <= list.len(),
            source == views(list@),
            joined@ == join_words(source.take(i as int)),
        decreases list.len() - i,
    {
        let ghost before = joined@;
        if i > 0 {
            joined.push(' ');
        }
        let word = &list[i];
        let mut k: usize = 0;
        let ghost base = joined@;
        while k < word.len()
            invariant
                k <= word.len(),
                joined@ == base + word@.take(k as int),
            decreases word.len() - k,
        {
            joined.push(word[k]);
            assert(word@.take(k + 1) =~= word@.take(k as int).push(word@[k as int]));
            k += 1;
        }
        proof {
            assert(word@.take(word.len() as int) =~= word@);
            assert(source.take(i + 1).drop_last() =~= source.take(i as int));
            assert(source.take(i + 1).last() == word@);
            if i == 0 {
                assert(joined@ =~= word@);
                assert(source.take(1)[0] == word@);
            }
        }
        i += 1;
    }
    assert(source.take(list.len() as int) =~= source);
    joined
}

/// A sequence whose members all satisfy a predicate.
pub open spec fn all_pass<A>(s: Seq<A>, keep: spec_fn(A) -> bool) -> bool {
    forall|i: int| 0 <= i < s.len() ==> keep(#[trigger] s[i])
}

/// What a filter keeps satisfies the filter's predicate.
pub proof fn lemma_filter_passes<A>(s: Seq<A>, keep: spec_fn(A) -> bool)
    ensures
        all_pass(s.filter(keep), keep),
    decreases s.len(),
{
    reveal(Seq::filter);
    if s.len() > 0 {
        lemma_filter_passes(s.drop_last(), keep);
    }
}

/// A filter keeps a property that all members of its input have.
pub proof fn lemma_filter_keeps_property<A>(
    s: Seq<A>,
    keep: spec_fn(A) -> bool,
    property: spec_fn(A) -> bool,
)
    requires
        all_pass(s, property),
    ensures
        all_pass(s.filter(keep), property),
    decreases s.len(),
{
    reveal(Seq::filter);
    if s.len() > 0 {
        assert forall|i: int| 0 <= i < s.drop_last().len() implies property(
            #[trigger] s.drop_last()[i],
        ) by {
            assert(s.drop_last()[i] == s[i]);
        }
        lemma_filter_keeps_property(s.drop_last(), keep, property);
        assert(property(s[s.len() - 1]));
    }
}

/// A filter leaves a sequence alone whose members all satisfy its predicate.
pub proof fn lemma_filter_of_passing<A>(s: Seq<A>, keep: spec_fn(A) -> bool)
    requires
        all_pass(s, keep),
    ensures
        s.filter(keep) == s,
    decreases s.len(),
{
    reveal(Seq::filter);
    if s.len() > 0 {
        assert forall|i: int| 0 <= i < s.drop_last().len() implies keep(
            #[trigger] s.drop_last()[i],
        ) by {
            assert(s.drop_last()[i] == s[i]);
        }
        lemma_filter_of_passing(s.drop_last(), keep);
        assert(keep(s[s.len() - 1]));
        assert(s.drop_last().push(s.last()) =~= s);
    }
}

/// A word: a text that is not empty and holds no separator.
pub open spec fn is_word(w: Seq<char>, separators: Seq<char>) -> bool {
    w.len() > 0 && forall|i: int| 0 <= i < w.len() ==> !separators.contains(#[trigger] w[i])
}

/// Appending a stretch without separators extends the last piece.
pub proof fn lemma_pieces_extend(p: Seq<char>, y: Seq<char>, separators: Seq<char>)
    requires
        forall|i: int| 0 <= i < y.len() ==> !separators.contains(#[trigger] y[i]),
    ensures
        pieces(p + y, separators) == pieces(p, separators).drop_last().push(
            pieces(p, separators).last() + y,
        ),
    decreases y.len(),
{
    lemma_pieces_nonempty(p, separators);
    let base = pieces(p, separators);
    if y.len() == 0 {
        assert(p + y =~= p);
        assert(base.last() + y =~= base.last());
        assert(base.drop_last().push(base.last()) =~= base);
    } else {
        let shorter = y.drop_last();
        assert forall|i: int| 0 <= i < shorter.len() implies !separators.contains(
            #[trigger] shorter[i],
        ) by {
            assert(shorter[i] == y[i]);
        }
        lemma_pieces_extend(p, shorter, separators);
        assert((p + y).drop_last() =~= p + shorter);
        assert((p + y).last() == y[y.len() - 1]);
        let earlier = pieces(p + shorter, separators);
        assert(earlier.drop_last() =~= base.drop_last());
        assert((base.last() + shorter).push(y.last()) =~= base.last() + y);
    }
}

/// No piece of a text holds a separator.
pub proof fn lemma_pieces_hold_no_separator(s: Seq<char>, separators: Seq<char>)
    ensures
        forall|k: int, i: int|
            0 <= k < pieces(s, separators).len() && 0 <= i < pieces(s, separators)[k].len()
                ==> !separators.contains(#[trigger] pieces(s, separators)[k][i]),
    decreases s.len(),
{
    if s.len() > 0 {
        lemma_pieces_hold_no_separator(s.drop_last(), separators);
        lemma_pieces_nonempty(s.drop_last(), separators);
    }
}

/// The words of a text are words.
pub proof fn lemma_words_are_words(s: Seq<char>)
    ensures
        forall|k: int|
            0 <= k < words(s).len() ==> is_word(#[trigger] words(s)[k], word_separators()),
{
    let parts = pieces(s, word_separators());
    let keep = |piece: Seq<char>| piece.len() > 0;
    lemma_pieces_hold_no_separator(s, word_separators());
    lemma_filter_passes(parts, keep);
    let clean = |piece: Seq<char>|
        forall|i: int| 0 <= i < piece.len() ==> !word_separators().contains(#[trigger] piece[i]);
    assert(all_pass(parts, clean));
    lemma_filter_keeps_property(parts, keep, clean);
    assert forall|k: int| 0 <= k < words(s).len() implies is_word(
        #[trigger] words(s)[k],
        word_separators(),
    ) by {
        assert(keep(words(s)[k]));
        assert(clean(words(s)[k]));
    }
}

/// Splitting what joining made gives the joined words back.
pub proof fn lemma_words_of_joined(list: Seq<Seq<char>>)
    requires
        forall|k: int| 0 <= k < list.len() ==> is_word(#[trigger] list[k], word_separators()),
    ensures
        words(join_words(list)) == list,
    decreases list.len(),
{
    reveal(Seq::filter);
    let separators = word_separators();
    let keep = |piece: Seq<char>| piece.len() > 0;
    let none = Seq::<char>::empty();
    if list.len() == 0 {
        assert(pieces(none, separators) =~= seq![none]);
        assert(seq![none].drop_last() =~= Seq::<Seq<char>>::empty());
        assert(Seq::<Seq<char>>::empty().filter(keep) =~= Seq::<Seq<char>>::empty());
        assert(!keep(seq![none].last()));
        assert(seq![none].filter(keep) =~= Seq::<Seq<char>>::empty());
        assert(words(join_words(list)) =~= list);
    } else if list.len() == 1 {
        let y = list[0];
        assert(is_word(y, separators));
        lemma_pieces_extend(none, y, separators);
        assert(none + y =~= y);
        assert(pieces(none, separators) =~= seq![none]);
        assert(pieces(y, separators) =~= seq![y]);
        assert(seq![y].drop_last() =~= Seq::<Seq<char>>::empty());
        assert(Seq::<Seq<char>>::empty().filter(keep) =~= Seq::<Seq<char>>::empty());
        assert(seq![y].filter(keep) =~= seq![y]);
        assert(words(join_words(list)) =~= list);
    } else {
        let shorter = list.drop_last();
        let y = list.last();
        assert(is_word(y, separators));
        assert forall|k: int| 0 <= k < shorter.len() implies is_word(
            #[trigger] shorter[k],
            separators,
        ) by {
            assert(shorter[k] == list[k]);
        }
        lemma_words_of_joined(shorter);
        let head = join_words(shorter);
        let spaced = head.push(' ');
        assert(spaced.drop_last() =~= head);
        assert(separators[0] == ' ');
        assert(separators.contains(' '));
        assert(pieces(spaced, separators) == pieces(head, separators).push(none));
        lemma_pieces_extend(spaced, y, separators);
        assert(pieces(head, separators).push(none).drop_last() =~= pieces(head, separators));
        assert(none + y =~= y);
        let all = pieces(spaced + y, separators);
        assert(all == pieces(head, separators).push(y));
        assert(all.drop_last() =~= pieces(head, separators));
        assert(all.filter(keep) == pieces(head, separators).filter(keep).push(y));
        assert(shorter.push(y) =~= list);
    }
}

/// A text without the whitespace at its start.
pub open spec fn trim_start(s: Seq<char>) -> Seq<char>
    decreases s.len(),
{
    if s.len() > 0 && unicode_whitespace(s[0]) {
        trim_start(s.drop_first())
    } else {
        s
    }
}

/// A text without the whitespace at its end.
pub open spec fn trim_end(s: Seq<char>) -> Seq<char>
    decreases s.len(),
{
    if s.len() > 0 && unicode_whitespace(s.last()) {
        trim_end(s.drop_last())
    } else {
        s
    }
}

/// A text without the whitespace at its start and at its end.
pub open spec fn trim(s: Seq<char>) -> Seq<char> {
    trim_end(trim_start(s))
}

/// Removes the whitespace at both ends of a text.
pub fn trim_chars(text: &Vec<char>) -> (trimmed: Vec<char>)
    ensures
        trimmed@ == trim(text@),
{
    let mut low: usize = 0;
    assert(text@.skip(0) =~= text@);
    while low < text.len() && text[low].is_whitespace()
        invariant
            low <= text.len(),
            trim_start(text@) == trim_start(text@.skip(low as int)),
        decreases text.len() - low,
    {
        assert(text@.skip(low as int).drop_first() =~= text@.skip(low + 1));
        low += 1;
    }
    let mut high: usize = text.len();
    assert(text@.subrange(low as int, high as int) =~= text@.skip(low as int));
    while high > low && text[high - 1].is_whitespace()
        invariant
            low <= high <= text.len(),
            trim_start(text@) == text@.skip(low as int),
            trim(text@) == trim_end(text@.subrange(low as int, high as int)),
        decreases high,
    {
        assert(text@.subrange(low as int, high as int).drop_last() =~= text@.subrange(
            low as int,
            high - 1,
        ));
        high -= 1;
    }
    let mut trimmed: Vec<char> = Vec::new();
    let mut i: usize = low;
    while i < high
        invariant
            low <= i <= high <= text.len(),
            trimmed@ == text@.subrange(low as int, i as int),
        decreases high - i,
    {
        trimmed.push(text[i]);
        assert(text@.subrange(low as int, i + 1) =~= text@.subrange(low as int, i as int).push(
            text@[i as int],
        ));
        i += 1;
    }
    trimmed
}

} // verus!
