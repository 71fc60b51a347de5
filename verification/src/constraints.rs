//! The three kinds of constraint and the filter that applies them.
//!
//! A word passes when every set position holds the required letter, none of
//! the excluded letters occurs in it, and every included letter occurs in it
//! at least as often as it was asked for. Letters are compared without regard
//! to case. Filtering only removes words: what is left keeps its order.

use vstd::prelude::*;
use crate::letters::{is_same_letter, same_letter};

verus! {

/// How often the letter `letter` occurs in `text`, in either case.
pub open spec fn occurrences(text: Seq<char>, letter: char) -> nat
    decreases text.len(),
{
    if text.len() == 0 {
        0
    } else {
        occurrences(text.drop_last(), letter) + if same_letter(text.last(), letter) {
            1nat
        } else {
            0nat
        }
    }
}

/// Whether the letter `letter` occurs in `text`, in either case.
pub open spec fn has_letter(text: Seq<char>, letter: char) -> bool {
    exists|i: int| 0 <= i < text.len() && same_letter(#[trigger] text[i], letter)
}

/// `word` is long enough to be looked at in every set slot of `position`.
pub open spec fn slots_fit(position: Seq<Option<char>>, word: Seq<char>) -> bool {
    forall|i: int| 0 <= i < position.len() && (#[trigger] position[i]) is Some ==> i < word.len()
}

/// Every set slot of `position` finds its letter at its position in `word`.
pub open spec fn slots_match(position: Seq<Option<char>>, word: Seq<char>) -> bool {
    forall|i: int|
        0 <= i < position.len() && (#[trigger] position[i]) is Some ==> i < word.len()
            && same_letter(word[i], position[i]->0)
}

/// No letter of `excluding` occurs in `word`.
pub open spec fn free_of(excluding: Seq<char>, word: Seq<char>) -> bool {
    forall|j: int| 0 <= j < excluding.len() ==> !has_letter(word, #[trigger] excluding[j])
}

/// Every letter occurs in `word` at least as often as in `including`.
pub open spec fn holds_all(including: Seq<char>, word: Seq<char>) -> bool {
    forall|letter: char|
        occurrences(including, letter) <= #[trigger] occurrences(word, letter)
}

/// The constraints as mathematical values.
pub struct Constraints {
    /// One slot per position of a word: empty, or the letter required there.
    pub position: Seq<Option<char>>,
    /// Letters that a word must hold, each as often as it stands here.
    pub including: Seq<char>,
    /// Letters that a word must not hold.
    pub excluding: Seq<char>,
    /// Whether only the common words are candidates.
    pub common_only: bool,
}

impl Constraints {
    /// `word_length` empty slots, no letters, every word a candidate.
    pub open spec fn empty(word_length: nat) -> Constraints {
        Constraints {
            position: Seq::new(word_length, |i: int| None),
            including: Seq::empty(),
            excluding: Seq::empty(),
            common_only: false,
        }
    }

    /// No slot is set and no letter is asked for or ruled out.
    pub open spec fn unconstrained(self) -> bool {
        &&& forall|i: int| 0 <= i < self.position.len() ==> self.position[i] is None
        &&& self.including.len() == 0
        &&& self.excluding.len() == 0
    }

    /// `word` is long enough to be looked at in every set slot.
    pub open spec fn fits(self, word: Seq<char>) -> bool {
        slots_fit(self.position, word)
    }

    /// `word` meets all three kinds of constraint.
    pub open spec fn allows(self, word: Seq<char>) -> bool {
        &&& slots_match(self.position, word)
        &&& free_of(self.excluding, word)
        &&& holds_all(self.including, word)
    }
}

/// The words of `base` that `constraints` allows, in the order of `base`.
pub open spec fn filtered(base: Seq<Seq<char>>, constraints: Constraints) -> Seq<Seq<char>> {
    base.filter(|word: Seq<char>| constraints.allows(word))
}

/// The constraints as the program holds them.
#[derive(Debug, Clone, PartialEq, Eq)]
pub struct FilterState {
    /// One slot per position of a word.
    pub position: Vec<Option<char>>,
    /// The letters to include, as typed.
    pub including: String,
    /// The letters to exclude, as typed.
    pub excluding: String,
    /// Whether only the common words are shown.
    pub only_show_common: bool,
}

impl View for FilterState {
    type V = Constraints;

    open spec fn view(&self) -> Constraints {
        Constraints {
            position: self.position@,
            including: self.including@,
            excluding: self.excluding@,
            common_only: self.only_show_common,
        }
    }
}

/// Letters that differ only in case occur equally often.
pub proof fn lemma_occurrences_same_letter(text: Seq<char>, a: char, b: char)
    requires
        same_letter(a, b),
    ensures
        occurrences(text, a) == occurrences(text, b),
    decreases text.len(),
{
    if text.len() > 0 {
        lemma_occurrences_same_letter(text.drop_last(), a, b);
    }
}

/// A letter occurs at least once exactly when some position holds it.
pub proof fn lemma_occurrences_positive(text: Seq<char>, letter: char)
    ensures
        occurrences(text, letter) > 0 <==> has_letter(text, letter),
    decreases text.len(),
{
    if text.len() > 0 {
        let front = text.drop_last();
        lemma_occurrences_positive(front, letter);
        if has_letter(front, letter) {
            let i = choose|i: int| 0 <= i < front.len() && same_letter(#[trigger] front[i], letter);
            assert(same_letter(text[i], letter));
        }
        if same_letter(text.last(), letter) {
            assert(same_letter(text[text.len() - 1], letter));
        }
        if has_letter(text, letter) && !same_letter(text.last(), letter) {
            let i = choose|i: int| 0 <= i < text.len() && same_letter(#[trigger] text[i], letter);
            assert(same_letter(front[i], letter));
        }
    }
}

/// The letters that `including` asks for, each with the least number of times
/// a word must hold it. Letters are listed in lower case.
pub open spec fn required(including: Seq<char>) -> Map<char, nat> {
    Map::new(
        |letter: char| crate::letters::lower(letter) == letter && occurrences(including, letter) > 0,
        |letter: char| occurrences(including, letter),
    )
}

/// `picks` names, in rising order, the places of `base` from which the words
/// of `kept` were taken.
pub open spec fn selects(picks: Seq<int>, base: Seq<Seq<char>>, kept: Seq<Seq<char>>) -> bool {
    &&& picks.len() == kept.len()
    &&& forall|k: int|
        0 <= k < picks.len() ==> 0 <= #[trigger] picks[k] < base.len() && kept[k] == base[picks[k]]
    &&& forall|j: int, k: int| 0 <= j < k < picks.len() ==> picks[j] < picks[k]
}

/// Every word that the filter keeps comes from `base` and meets the
/// constraints.
pub proof fn lemma_kept_words_allowed(base: Seq<Seq<char>>, constraints: Constraints, k: int)
    requires
        0 <= k < filtered(base, constraints).len(),
    ensures
        constraints.allows(filtered(base, constraints)[k]),
        base.contains(filtered(base, constraints)[k]),
{
    let pred = |word: Seq<char>| constraints.allows(word);
    base.lemma_filter_pred(pred, k);
    let word = base.filter(pred)[k];
    assert(base.filter(pred).contains(word));
    base.lemma_filter_contains_rev(pred, word);
}

/// Every word of `base` that meets the constraints is kept.
pub proof fn lemma_allowed_words_kept(base: Seq<Seq<char>>, constraints: Constraints, i: int)
    requires
        0 <= i < base.len(),
        constraints.allows(base[i]),
    ensures
        filtered(base, constraints).contains(base[i]),
{
    let pred = |word: Seq<char>| constraints.allows(word);
    base.lemma_filter_contains(pred, i);
}

/// A kept word holds, at every set position, the letter required there.
pub proof fn lemma_kept_words_match_positions(
    base: Seq<Seq<char>>,
    constraints: Constraints,
    k: int,
    i: int,
)
    requires
        0 <= k < filtered(base, constraints).len(),
        0 <= i < constraints.position.len(),
        constraints.position[i] is Some,
    ensures
        i < filtered(base, constraints)[k].len(),
        same_letter(filtered(base, constraints)[k][i], constraints.position[i]->0),
{
    lemma_kept_words_allowed(base, constraints, k);
}

/// No character of a kept word is an excluded letter.
pub proof fn lemma_kept_words_lack_excluded(
    base: Seq<Seq<char>>,
    constraints: Constraints,
    k: int,
    i: int,
    j: int,
)
    requires
        0 <= k < filtered(base, constraints).len(),
        0 <= i < filtered(base, constraints)[k].len(),
        0 <= j < constraints.excluding.len(),
    ensures
        !same_letter(filtered(base, constraints)[k][i], constraints.excluding[j]),
{
    lemma_kept_words_allowed(base, constraints, k);
    let word = filtered(base, constraints)[k];
    assert(!has_letter(word, constraints.excluding[j]));
}

/// A kept word holds every required letter at least as often as required.
pub proof fn lemma_kept_words_hold_required(
    base: Seq<Seq<char>>,
    constraints: Constraints,
    k: int,
    letter: char,
)
    requires
        0 <= k < filtered(base, constraints).len(),
        required(constraints.including).dom().contains(letter),
    ensures
        occurrences(filtered(base, constraints)[k], letter) >= required(
            constraints.including,
        )[letter],
{
    lemma_kept_words_allowed(base, constraints, k);
    let word = filtered(base, constraints)[k];
    assert(occurrences(constraints.including, letter) <= occurrences(word, letter));
}

/// Words that all meet the constraints pass the filter unchanged.
pub proof fn lemma_filter_keeps_allowed(words: Seq<Seq<char>>, constraints: Constraints)
    requires
        forall|k: int| 0 <= k < words.len() ==> constraints.allows(#[trigger] words[k]),
    ensures
        filtered(words, constraints) == words,
    decreases words.len(),
{
    reveal(Seq::filter);
    if words.len() > 0 {
        let front = words.drop_last();
        assert forall|k: int| 0 <= k < front.len() implies constraints.allows(
            #[trigger] front[k],
        ) by {
            assert(front[k] == words[k]);
        }
        lemma_filter_keeps_allowed(front, constraints);
        assert(constraints.allows(words[words.len() - 1]));
        assert(front.push(words.last()) == words);
    }
}

/// Filtering what the filter has kept changes nothing.
pub proof fn lemma_filter_twice(base: Seq<Seq<char>>, constraints: Constraints)
    ensures
        filtered(filtered(base, constraints), constraints) == filtered(base, constraints),
{
    let kept = filtered(base, constraints);
    assert forall|k: int| 0 <= k < kept.len() implies constraints.allows(#[trigger] kept[k]) by {
        lemma_kept_words_allowed(base, constraints, k);
    }
    lemma_filter_keeps_allowed(kept, constraints);
}

/// With no constraint set, the filter keeps every word.
pub proof fn lemma_unconstrained_keeps_all(base: Seq<Seq<char>>, constraints: Constraints)
    requires
        constraints.unconstrained(),
    ensures
        filtered(base, constraints) == base,
{
    assert forall|k: int| 0 <= k < base.len() implies constraints.allows(#[trigger] base[k]) by {
        assert(constraints.including == Seq::<char>::empty());
    }
    lemma_filter_keeps_allowed(base, constraints);
}

/// The kept words stand in the order in which `base` holds them: the result
/// names the place in `base` of each kept word, and these places rise.
pub proof fn lemma_order_kept(base: Seq<Seq<char>>, constraints: Constraints) -> (picks: Seq<int>)
    ensures
        selects(picks, base, filtered(base, constraints)),
    decreases base.len(),
{
    reveal(Seq::filter);
    if base.len() == 0 {
        Seq::empty()
    } else {
        let front = base.drop_last();
        let earlier = lemma_order_kept(front, constraints);
        if constraints.allows(base.last()) {
            let picks = earlier.push(base.len() - 1);
            assert(filtered(base, constraints) == filtered(front, constraints).push(base.last()));
            assert forall|k: int| 0 <= k < picks.len() implies 0 <= #[trigger] picks[k]
                < base.len() && filtered(base, constraints)[k] == base[picks[k]] by {
                if k < earlier.len() {
                    assert(picks[k] == earlier[k]);
                }
            }
            assert forall|j: int, k: int| 0 <= j < k < picks.len() implies picks[j]
                < picks[k] by {
                assert(picks[j] == earlier[j]);
                if k < earlier.len() {
                    assert(picks[k] == earlier[k]);
                }
            }
            picks
        } else {
            assert(filtered(base, constraints) == filtered(front, constraints));
            assert forall|k: int| 0 <= k < earlier.len() implies 0 <= #[trigger] earlier[k]
                < base.len() && filtered(base, constraints)[k] == base[earlier[k]] by {
            }
            earlier
        }
    }
}

/// The filter never keeps more words than it was given.
pub proof fn lemma_filter_only_removes(base: Seq<Seq<char>>, constraints: Constraints)
    ensures
        filtered(base, constraints).len() <= base.len(),
{
    base.lemma_filter_len(|word: Seq<char>| constraints.allows(word));
}

/// The characters of `text`, one by one.
pub fn letters_of(text: &str) -> (letters: Vec<char>)
    ensures
        letters@ == text@,
{
    let mut letters: Vec<char> = Vec::new();
    for c in it: text.chars()
        invariant
            it.seq() == text@,
            letters@ == text@.take(it.index() as int),
    {
        letters.push(c);
    }
    letters
}

/// Counts how often `letter` occurs in `text`, in either case.
pub fn count_letter(text: &Vec<char>, letter: char) -> (count: usize)
    ensures
        count == occurrences(text@, letter),
{
    let mut count: usize = 0;
    for i in 0..text.len()
        invariant
            count == occurrences(text@.take(i as int), letter),
            count <= i,
    {
        assert(text@.take(i + 1).drop_last() == text@.take(i as int));
        if is_same_letter(text[i], letter) {
            count = count + 1;
        }
    }
    assert(text@.take(text.len() as int) == text@);
    count
}

/// Tells whether `letter` occurs in `text`, in either case.
pub fn contains_letter(text: &Vec<char>, letter: char) -> (found: bool)
    ensures
        found == has_letter(text@, letter),
{
    for i in 0..text.len()
        invariant
            forall|k: int| 0 <= k < i ==> !same_letter(#[trigger] text@[k], letter),
    {
        if is_same_letter(text[i], letter) {
            return true;
        }
    }
    false
}

/// Tells whether every set slot of `position` finds its letter in `word`.
fn position_allows(position: &Vec<Option<char>>, word: &Vec<char>) -> (ok: bool)
    requires
        slots_fit(position@, word@),
    ensures
        ok == slots_match(position@, word@),
{
    for i in 0..position.len()
        invariant
            slots_fit(position@, word@),
            forall|k: int|
                0 <= k < i && (#[trigger] position[k]) is Some ==> same_letter(
                    word[k],
                    position[k]->0,
                ),
    {
        match position[i] {
            Some(letter) => {
                if !is_same_letter(word[i], letter) {
                    return false;
                }
            },
            None => {},
        }
    }
    true
}

/// Tells whether `word` is free of every letter of `excluding`.
fn exclusion_allows(excluding: &Vec<char>, word: &Vec<char>) -> (ok: bool)
    ensures
        ok == free_of(excluding@, word@),
{
    for j in 0..excluding.len()
        invariant
            forall|k: int| 0 <= k < j ==> !has_letter(word@, #[trigger] excluding[k]),
    {
        if contains_letter(word, excluding[j]) {
            return false;
        }
    }
    true
}

/// Tells whether `word` holds every letter of `including` as often as
/// `including` does.
fn inclusion_allows(including: &Vec<char>, word: &Vec<char>) -> (ok: bool)
    ensures
        ok == holds_all(including@, word@),
{
    for j in 0..including.len()
        invariant
            forall|k: int|
                0 <= k < j ==> occurrences(including@, #[trigger] including[k]) <= occurrences(
                    word@,
                    including[k],
                ),
    {
        let asked = count_letter(including, including[j]);
        let found = count_letter(word, including[j]);
        if found < asked {
            return false;
        }
    }
    assert forall|letter: char|
        occurrences(including@, letter) <= #[trigger] occurrences(word@, letter) by {
        lemma_occurrences_positive(including@, letter);
        if has_letter(including@, letter) {
            let k = choose|k: int|
                0 <= k < including.len() && same_letter(#[trigger] including@[k], letter);
            lemma_occurrences_same_letter(including@, including[k], letter);
            lemma_occurrences_same_letter(word@, including[k], letter);
        }
    }
    true
}

/// Tells whether `word` meets the constraints whose letters are `position`,
/// `including` and `excluding`.
fn allows_letters(
    position: &Vec<Option<char>>,
    including: &Vec<char>,
    excluding: &Vec<char>,
    word: &Vec<char>,
) -> (ok: bool)
    requires
        slots_fit(position@, word@),
    ensures
        ok == (Constraints {
            position: position@,
            including: including@,
            excluding: excluding@,
            common_only: false,
        }).allows(word@),
{
    position_allows(position, word) && exclusion_allows(excluding, word) && inclusion_allows(
        including,
        word,
    )
}

/// What a word must meet does not depend on which list the candidates come
/// from.
pub proof fn lemma_allows_ignores_base(a: Constraints, b: Constraints, word: Seq<char>)
    requires
        a.position == b.position,
        a.including == b.including,
        a.excluding == b.excluding,
    ensures
        a.allows(word) == b.allows(word),
        a.fits(word) == b.fits(word),
{
}

impl FilterState {
    /// The state with `word_length` empty slots and no letters.
    pub fn new(word_length: usize) -> (state: FilterState)
        ensures
            state@ == Constraints::empty(word_length as nat),
    {
        let mut position: Vec<Option<char>> = Vec::new();
        for i in 0..word_length
            invariant
                position.len() == i,
                forall|k: int| 0 <= k < i ==> position[k] is None,
        {
            position.push(None);
        }
        assert(position@ == Seq::new(word_length as nat, |i: int| None::<char>));
        FilterState {
            position,
            including: String::new(),
            excluding: String::new(),
            only_show_common: false,
        }
    }

    /// Tells whether `word` meets all three kinds of constraint.
    pub fn allows(&self, word: &str) -> (ok: bool)
        requires
            self@.fits(word@),
        ensures
            ok == self@.allows(word@),
    {
        let including = letters_of(self.including.as_str());
        let excluding = letters_of(self.excluding.as_str());
        let letters = letters_of(word);
        let ok = allows_letters(&self.position, &including, &excluding, &letters);
        proof {
            lemma_allows_ignores_base(
                self@,
                Constraints {
                    position: self.position@,
                    including: including@,
                    excluding: excluding@,
                    common_only: false,
                },
                word@,
            );
        }
        ok
    }
}

/// Keeps the words of `base` that `state` allows, in their order.
pub fn filter_words(base: &Vec<String>, state: &FilterState) -> (kept: Vec<String>)
    requires
        forall|k: int| 0 <= k < base.len() ==> state@.fits(#[trigger] base[k]@),
    ensures
        kept.deep_view() == filtered(base.deep_view(), state@),
{
    let including = letters_of(state.including.as_str());
    let excluding = letters_of(state.excluding.as_str());
    let ghost all = base.deep_view();
    let ghost pred = |word: Seq<char>| state@.allows(word);
    let mut kept: Vec<String> = Vec::new();
    proof {
        reveal(Seq::filter);
        assert(all.take(0).filter(pred) == Seq::<Seq<char>>::empty());
    }
    for k in 0..base.len()
        invariant
            all == base.deep_view(),
            pred == (|word: Seq<char>| state@.allows(word)),
            including@ == state@.including,
            excluding@ == state@.excluding,
            forall|j: int| 0 <= j < base.len() ==> state@.fits(#[trigger] base[j]@),
            kept.deep_view() == all.take(k as int).filter(pred),
    {
        let letters = letters_of(base[k].as_str());
        assert(state@.fits(base[k as int]@));
        let ok = allows_letters(&state.position, &including, &excluding, &letters);
        proof {
            lemma_allows_ignores_base(
                state@,
                Constraints {
                    position: state.position@,
                    including: including@,
                    excluding: excluding@,
                    common_only: false,
                },
                base[k as int]@,
            );
            reveal(Seq::filter);
            assert(all.take(k + 1).drop_last() == all.take(k as int));
            assert(all.take(k + 1).last() == base[k as int]@);
        }
        if ok {
            let ghost before = kept.deep_view();
            kept.push(base[k].clone());
            assert(kept.deep_view() == before.push(base[k as int]@));
        }
    }
    assert(all.take(base.len() as int) == all);
    kept
}

} // verus!
