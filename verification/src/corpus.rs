//! The word lists: every word, and the words marked as common.
//!
//! Both lists are read from text with one word per line. A list is accepted
//! only if each of its lines has exactly the expected number of characters;
//! once loaded, a corpus never changes.

use vstd::prelude::*;
use vstd::hash_set::StringHashSet;
use vstd::string::StrSliceExecFns;
use crate::constraints::{filter_words, filtered, FilterState};
use crate::lines::{lines_of, split_lines};

verus! {

/// The number of letters of a word, unless a corpus is loaded with another.
pub const WORD_LENGTH: usize = 5;

/// Names one of the two word lists.
#[derive(Debug, Clone, Copy, PartialEq, Eq)]
pub enum WordList {
    /// The list of every word.
    All,
    /// The list of the common words.
    Common,
}

/// A line of a word list that does not have the expected number of
/// characters.
#[derive(Debug, Clone, PartialEq, Eq)]
pub struct MalformedWordList {
    /// The list that holds the line.
    pub list: WordList,
    /// The number of the line, counted from 1.
    pub line: usize,
    /// The line as it was read.
    pub word: String,
}

/// Every line has exactly `word_length` characters.
pub open spec fn well_formed(lines: Seq<Seq<char>>, word_length: nat) -> bool {
    forall|k: int| 0 <= k < lines.len() ==> (#[trigger] lines[k]).len() == word_length
}

/// Line `k`, counted from 0, is the first that does not have `word_length`
/// characters.
pub open spec fn first_malformed(lines: Seq<Seq<char>>, word_length: nat, k: int) -> bool {
    &&& 0 <= k < lines.len()
    &&& lines[k].len() != word_length
    &&& forall|j: int| 0 <= j < k ==> (#[trigger] lines[j]).len() == word_length
}

/// `error` names the first offending line: of the list of every word if that
/// list has one, else of the list of common words.
pub open spec fn reports(
    error: MalformedWordList,
    all: Seq<Seq<char>>,
    common: Seq<Seq<char>>,
    word_length: nat,
) -> bool {
    match error.list {
        WordList::All => {
            &&& first_malformed(all, word_length, error.line - 1)
            &&& error.word@ == all[error.line - 1]
        },
        WordList::Common => {
            &&& well_formed(all, word_length)
            &&& first_malformed(common, word_length, error.line - 1)
            &&& error.word@ == common[error.line - 1]
        },
    }
}

/// Looks for the first line that does not have `word_length` characters.
pub fn find_malformed(lines: &Vec<String>, word_length: usize) -> (found: Option<usize>)
    ensures
        match found {
            Some(k) => first_malformed(lines.deep_view(), word_length as nat, k as int),
            None => well_formed(lines.deep_view(), word_length as nat),
        },
{
    for k in 0..lines.len()
        invariant
            forall|j: int| 0 <= j < k ==> (#[trigger] lines.deep_view()[j]).len() == word_length,
    {
        if lines[k].as_str().unicode_len() != word_length {
            assert(lines.deep_view()[k as int] == lines[k as int]@);
            return Some(k);
        }
        assert(lines.deep_view()[k as int] == lines[k as int]@);
    }
    None
}

/// The word lists, as loaded.
pub struct Corpus {
    word_length: usize,
    words: Vec<String>,
    sorted_common_words: Vec<String>,
    common_words: StringHashSet,
}

impl Corpus {
    /// The number of letters of every word.
    pub closed spec fn length(&self) -> nat {
        self.word_length as nat
    }

    /// Every word, in the order of its list.
    pub closed spec fn all_words(&self) -> Seq<Seq<char>> {
        self.words.deep_view()
    }

    /// The common words, in the order of their list.
    pub closed spec fn common_list(&self) -> Seq<Seq<char>> {
        self.sorted_common_words.deep_view()
    }

    /// The list that the filter starts from: the common words if only they
    /// are wanted, else every word.
    pub open spec fn candidates(&self, common_only: bool) -> Seq<Seq<char>> {
        if common_only {
            self.common_list()
        } else {
            self.all_words()
        }
    }

    /// Both lists hold words of the right length only, and the set used to
    /// look up common words holds the words of the common list.
    pub closed spec fn wf(&self) -> bool {
        &&& well_formed(self.words.deep_view(), self.word_length as nat)
        &&& well_formed(self.sorted_common_words.deep_view(), self.word_length as nat)
        &&& forall|word: Seq<char>|
            self.common_words@.contains(word) <==> self.sorted_common_words.deep_view().contains(
                word,
            )
    }

    /// In a corpus that is well formed, every word of either list has the
    /// corpus's word length.
    pub proof fn lemma_word_lengths(&self)
        requires
            self.wf(),
        ensures
            well_formed(self.all_words(), self.length()),
            well_formed(self.common_list(), self.length()),
    {
    }

    /// Loads both lists with words of `WORD_LENGTH` letters.
    pub fn load(all_words_source: &str, common_words_source: &str) -> (loaded: Result<
        Corpus,
        MalformedWordList,
    >)
        ensures
            match loaded {
                Ok(corpus) => {
                    &&& corpus.wf()
                    &&& corpus.length() == WORD_LENGTH
                    &&& corpus.all_words() == lines_of(all_words_source@)
                    &&& corpus.common_list() == lines_of(common_words_source@)
                    &&& well_formed(lines_of(all_words_source@), WORD_LENGTH as nat)
                    &&& well_formed(lines_of(common_words_source@), WORD_LENGTH as nat)
                },
                Err(error) => reports(
                    error,
                    lines_of(all_words_source@),
                    lines_of(common_words_source@),
                    WORD_LENGTH as nat,
                ),
            },
    {
        Corpus::load_with_length(all_words_source, common_words_source, WORD_LENGTH)
    }

    /// Loads both lists, each with one word per line. The lists are accepted
    /// if every line has `word_length` characters; otherwise the first line
    /// that has not is reported, from the list of every word before the list
    /// of common words.
    pub fn load_with_length(
        all_words_source: &str,
        common_words_source: &str,
        word_length: usize,
    ) -> (loaded: Result<Corpus, MalformedWordList>)
        ensures
            match loaded {
                Ok(corpus) => {
                    &&& corpus.wf()
                    &&& corpus.length() == word_length
                    &&& corpus.all_words() == lines_of(all_words_source@)
                    &&& corpus.common_list() == lines_of(common_words_source@)
                    &&& well_formed(lines_of(all_words_source@), word_length as nat)
                    &&& well_formed(lines_of(common_words_source@), word_length as nat)
                },
                Err(error) => reports(
                    error,
                    lines_of(all_words_source@),
                    lines_of(common_words_source@),
                    word_length as nat,
                ),
            },
    {
        let words = split_lines(all_words_source);
        match find_malformed(&words, word_length) {
            Some(k) => {
                assert(words.deep_view().len() == words.len());
                assert(words.deep_view()[k as int] == words[k as int]@);
                return Err(
                    MalformedWordList { list: WordList::All, line: k + 1, word: words[k].clone() },
                );
            },
            None => {},
        }
        let sorted_common_words = split_lines(common_words_source);
        match find_malformed(&sorted_common_words, word_length) {
            Some(k) => {
                assert(sorted_common_words.deep_view().len() == sorted_common_words.len());
                assert(sorted_common_words.deep_view()[k as int] == sorted_common_words[k as int]@);
                return Err(
                    MalformedWordList {
                        list: WordList::Common,
                        line: k + 1,
                        word: sorted_common_words[k].clone(),
                    },
                );
            },
            None => {},
        }
        let mut common_words = StringHashSet::new();
        let ghost common = sorted_common_words.deep_view();
        for k in 0..sorted_common_words.len()
            invariant
                common == sorted_common_words.deep_view(),
                forall|word: Seq<char>|
                    common_words@.contains(word) <==> common.take(k as int).contains(word),
        {
            let ghost before = common_words@;
            common_words.insert(sorted_common_words[k].clone());
            proof {
                let added = sorted_common_words[k as int]@;
                let earlier = common.take(k as int);
                let later = common.take(k + 1);
                assert(common[k as int] == added);
                assert(later == earlier.push(added));
                assert forall|word: Seq<char>|
                    common_words@.contains(word) <==> later.contains(word) by {
                    if earlier.contains(word) {
                        let j = choose|j: int| 0 <= j < earlier.len() && earlier[j] == word;
                        assert(later[j] == word);
                    }
                    if word == added {
                        assert(later[k as int] == word);
                    }
                    if later.contains(word) && word != added {
                        let j = choose|j: int| 0 <= j < later.len() && later[j] == word;
                        assert(earlier[j] == word);
                    }
                }
            }
        }
        assert(common.take(sorted_common_words.len() as int) == common);
        Ok(Corpus { word_length, words, sorted_common_words, common_words })
    }

    /// The number of letters of every word.
    pub fn word_length(&self) -> (length: usize)
        ensures
            length == self.length(),
    {
        self.word_length
    }

    /// Every word, in the order of its list.
    pub fn words(&self) -> (words: &Vec<String>)
        ensures
            words.deep_view() == self.all_words(),
    {
        &self.words
    }

    /// The common words, in the order of their list.
    pub fn sorted_common_words(&self) -> (words: &Vec<String>)
        ensures
            words.deep_view() == self.common_list(),
    {
        &self.sorted_common_words
    }

    /// Filters the candidates under `state`: the words of the chosen list that
    /// meet every constraint, in the order of that list.
    pub fn filter(&self, state: &FilterState) -> (kept: Vec<String>)
        requires
            self.wf(),
            state@.position.len() <= self.length(),
        ensures
            kept.deep_view() == filtered(self.candidates(state@.common_only), state@),
    {
        let base = if state.only_show_common {
            &self.sorted_common_words
        } else {
            &self.words
        };
        assert forall|k: int| 0 <= k < base.len() implies state@.fits(#[trigger] base[k]@) by {
            assert(base.deep_view()[k] == base[k]@);
        }
        filter_words(base, state)
    }

    /// Tells whether `word` is one of the common words, letter for letter.
    pub fn is_common(&self, word: &str) -> (common: bool)
        requires
            self.wf(),
        ensures
            common == self.common_list().contains(word@),
    {
        self.common_words.contains(word)
    }
}

} // verus!
