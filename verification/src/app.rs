//! The state of the word finder and the events that change it.
//!
//! The texts of the constraints are edited in text editors that live outside
//! this library. For every message the library decides what the editor is to
//! do; once the editor has done it, the new text is handed back and the list
//! of words is filtered anew.

use vstd::prelude::*;
use vstd::string::StrSliceExecFns;
use crate::constraints::{
    contains_letter, filtered, has_letter, lemma_unconstrained_keeps_all, letters_of,
    Constraints, FilterState,
};
use crate::corpus::{reports, well_formed, Corpus, MalformedWordList, WORD_LENGTH};
use crate::letters::{alphabetic, same_letter, to_upper, upper};
use crate::lines::lines_of;

verus! {

/// A change that an editor is asked to make to its text.
#[derive(Debug, Clone, Copy, PartialEq, Eq)]
pub enum Edit {
    /// Insert the character.
    Insert(char),
    /// Delete the character before the cursor.
    Backspace,
    /// Delete the character after the cursor.
    Delete,
    /// Any other change: pasted text, a line break, indentation.
    Other,
}

/// Something that the user did in an editor.
#[derive(Debug, Clone, Copy, PartialEq, Eq)]
pub enum Action {
    /// A change to the text.
    Edit(Edit),
    /// Anything that leaves the text as it is: moving the cursor, selecting,
    /// clicking, scrolling.
    Other,
}

/// An event that the word finder reacts to.
#[derive(Debug, Clone, Copy, PartialEq, Eq)]
pub enum Message {
    /// The user acted in the editor of the position slot with this index.
    PositionEditAction(usize, Action),
    /// The user acted in the editor of the included letters.
    IncludingEditAction(Action),
    /// The user acted in the editor of the excluded letters.
    ExcludingEditAction(Action),
    /// The user switched between every word and the common words.
    ToggleCommonWords,
}

/// One of the texts that make up the constraints.
#[derive(Debug, Clone, Copy, PartialEq, Eq)]
pub enum Field {
    /// The position slot with this index.
    Position(usize),
    /// The included letters.
    Including,
    /// The excluded letters.
    Excluding,
}

/// An action, judged: letters are told from other characters and put in
/// upper case.
#[derive(Debug, Clone, Copy, PartialEq, Eq)]
pub enum Input {
    /// A letter was typed; it is held in upper case.
    Letter(char),
    /// A character was typed that is not a letter.
    Rejected,
    /// Backspace or delete.
    Erase,
    /// Another change to the text.
    OtherEdit,
    /// An action that does not change the text.
    NoEdit,
}

/// What the editor of a field is to do in answer to a message.
#[derive(Debug, Clone, Copy, PartialEq, Eq)]
pub enum Command {
    /// Leave the editor as it is.
    Nothing,
    /// Replace the editor's text by the empty text.
    Clear,
    /// Replace the editor's text by this one letter.
    Replace(char),
    /// Insert this letter at the cursor.
    Insert(char),
    /// Carry out the action as it came.
    Forward,
}

/// The field that `message` is about, if it is about one.
pub open spec fn field_of(message: Message) -> Option<Field> {
    match message {
        Message::PositionEditAction(index, _) => Some(Field::Position(index)),
        Message::IncludingEditAction(_) => Some(Field::Including),
        Message::ExcludingEditAction(_) => Some(Field::Excluding),
        Message::ToggleCommonWords => None,
    }
}

/// The action that `message` carries, if it carries one.
pub open spec fn action_of(message: Message) -> Option<Action> {
    match message {
        Message::PositionEditAction(_, action) => Some(action),
        Message::IncludingEditAction(action) => Some(action),
        Message::ExcludingEditAction(action) => Some(action),
        Message::ToggleCommonWords => None,
    }
}

/// `action` inserts a character that is a letter.
pub open spec fn inserts_letter(action: Action) -> bool {
    action matches Action::Edit(Edit::Insert(c)) && alphabetic(c)
}

/// `action` judged, where `is_letter` says whether the character that it
/// inserts, if it inserts one, is a letter.
pub open spec fn input_of(action: Action, is_letter: bool) -> Input {
    match action {
        Action::Edit(Edit::Insert(c)) => if is_letter {
            Input::Letter(upper(c))
        } else {
            Input::Rejected
        },
        Action::Edit(Edit::Backspace) => Input::Erase,
        Action::Edit(Edit::Delete) => Input::Erase,
        Action::Edit(Edit::Other) => Input::OtherEdit,
        Action::Other => Input::NoEdit,
    }
}

/// The first character of `text`, if it has one.
pub open spec fn first_of(text: Seq<char>) -> Option<char> {
    if text.len() > 0 {
        Some(text[0])
    } else {
        None
    }
}

/// What the editor of `field` is to do on `input`.
///
/// A position slot takes a letter in place of what it held and is emptied by
/// backspace and delete; other changes to its text are dropped. The included
/// letters take a letter while they are fewer than a word has positions. The
/// excluded letters take a letter that they do not hold yet. A character that
/// is no letter is dropped everywhere; in the two letter lists every other
/// action goes to the editor as it came.
pub open spec fn command_for(constraints: Constraints, field: Field, input: Input) -> Command {
    match field {
        Field::Position(index) => if index >= constraints.position.len() {
            Command::Nothing
        } else {
            match input {
                Input::Letter(letter) => Command::Replace(letter),
                Input::Erase => Command::Clear,
                Input::NoEdit => Command::Forward,
                Input::Rejected => Command::Nothing,
                Input::OtherEdit => Command::Nothing,
            }
        },
        Field::Including => match input {
            Input::Letter(letter) => if constraints.including.len()
                < constraints.position.len() {
                Command::Insert(letter)
            } else {
                Command::Nothing
            },
            Input::Rejected => Command::Nothing,
            _ => Command::Forward,
        },
        Field::Excluding => match input {
            Input::Letter(letter) => if has_letter(constraints.excluding, letter) {
                Command::Nothing
            } else {
                Command::Insert(letter)
            },
            Input::Rejected => Command::Nothing,
            _ => Command::Forward,
        },
    }
}

/// `constraints` after the editor of `field` has come to hold `text`. A
/// position slot holds the first character of its editor's text.
pub open spec fn with_text(constraints: Constraints, field: Field, text: Seq<char>) -> Constraints {
    match field {
        Field::Position(index) => if index < constraints.position.len() {
            Constraints {
                position: constraints.position.update(index as int, first_of(text)),
                ..constraints
            }
        } else {
            constraints
        },
        Field::Including => Constraints { including: text, ..constraints },
        Field::Excluding => Constraints { excluding: text, ..constraints },
    }
}

/// `constraints` with the choice between every word and the common words
/// reversed.
pub open spec fn toggled(constraints: Constraints) -> Constraints {
    Constraints { common_only: !constraints.common_only, ..constraints }
}

/// The word finder as mathematical values.
pub struct AppView {
    /// The number of letters of a word.
    pub word_length: nat,
    /// Every word, in the order of its list.
    pub all_words: Seq<Seq<char>>,
    /// The common words, in the order of their list.
    pub common_words: Seq<Seq<char>>,
    /// The constraints in force.
    pub constraints: Constraints,
    /// The words on show.
    pub filtered_words: Seq<Seq<char>>,
}

impl AppView {
    /// The list that the filter starts from under `constraints`.
    pub open spec fn candidates(self, constraints: Constraints) -> Seq<Seq<char>> {
        if constraints.common_only {
            self.common_words
        } else {
            self.all_words
        }
    }

    /// This state, under other constraints and with the words on show
    /// filtered anew.
    pub open spec fn under(self, constraints: Constraints) -> AppView {
        AppView {
            constraints,
            filtered_words: filtered(self.candidates(constraints), constraints),
            ..self
        }
    }

    /// Words have the right length, there is one slot per position, and the
    /// words on show are the candidates that the constraints allow.
    pub open spec fn wf(self) -> bool {
        &&& well_formed(self.all_words, self.word_length)
        &&& well_formed(self.common_words, self.word_length)
        &&& self.constraints.position.len() == self.word_length
        &&& self.filtered_words == filtered(
            self.candidates(self.constraints),
            self.constraints,
        )
    }

    /// The state after `message`. Only the toggle changes the state by
    /// itself; the texts change when their editors report them.
    pub open spec fn after(self, message: Message) -> AppView {
        match message {
            Message::ToggleCommonWords => self.under(toggled(self.constraints)),
            _ => self,
        }
    }
}

/// Switching to the common words and back, or the other way round, leaves
/// the state as it was: the same constraints and the same words on show in
/// the same order.
pub proof fn lemma_toggle_twice(state: AppView)
    requires
        state.wf(),
    ensures
        state.after(Message::ToggleCommonWords).after(Message::ToggleCommonWords) == state,
{
    let once = toggled(state.constraints);
    assert(toggled(once) == state.constraints);
}

/// The words on show depend on the word lists and the constraints alone:
/// putting the same constraints in force once more changes nothing.
pub proof fn lemma_same_constraints_same_words(state: AppView, constraints: Constraints)
    ensures
        state.under(constraints).under(constraints) == state.under(constraints),
        state.wf() ==> state.under(state.constraints) == state,
{
}

/// With no constraint set and every word a candidate, the words on show are
/// the whole list in its own order.
pub proof fn lemma_unconstrained_shows_all(state: AppView)
    requires
        state.wf(),
        state.constraints.unconstrained(),
    ensures
        !state.constraints.common_only ==> state.filtered_words == state.all_words,
        state.constraints.common_only ==> state.filtered_words == state.common_words,
{
    lemma_unconstrained_keeps_all(state.candidates(state.constraints), state.constraints);
}

/// Every transition keeps a well-formed state well formed.
pub proof fn lemma_transitions_keep_wf(state: AppView, message: Message, field: Field, text: Seq<char>)
    requires
        state.wf(),
    ensures
        state.after(message).wf(),
        state.under(with_text(state.constraints, field, text)).wf(),
{
}

/// No letter stands twice in `text`, in whatever case.
pub open spec fn distinct_letters(text: Seq<char>) -> bool {
    forall|i: int, j: int|
        0 <= i < j < text.len() ==> !same_letter(#[trigger] text[i], #[trigger] text[j])
}

/// The excluded letters stay distinct under typing: where they hold no letter
/// twice and the editor inserts the letter it was told to insert, at whatever
/// place, they still hold no letter twice.
pub proof fn lemma_excluding_stays_distinct(constraints: Constraints, letter: char, at: int)
    requires
        distinct_letters(constraints.excluding),
        command_for(constraints, Field::Excluding, Input::Letter(letter)) == Command::Insert(
            letter,
        ),
        0 <= at <= constraints.excluding.len(),
    ensures
        distinct_letters(constraints.excluding.insert(at, letter)),
{
    let before = constraints.excluding;
    let after = before.insert(at, letter);
    assert forall|i: int, j: int| 0 <= i < j < after.len() implies !same_letter(
        #[trigger] after[i],
        #[trigger] after[j],
    ) by {
        let from_i = if i < at { i } else { i - 1 };
        let from_j = if j < at { j } else { j - 1 };
        if i == at {
            assert(after[j] == before[from_j]);
            assert(!same_letter(before[from_j], letter));
        } else if j == at {
            assert(after[i] == before[from_i]);
            assert(!same_letter(before[from_i], letter));
        } else {
            assert(after[i] == before[from_i]);
            assert(after[j] == before[from_j]);
        }
    }
}

/// A letter that the excluded letters hold is not inserted again, in either
/// case: once a letter has been inserted at whatever place, typing it once
/// more leaves the editor as it is.
pub proof fn lemma_excluding_refuses_repeat(
    constraints: Constraints,
    letter: char,
    again: char,
    at: int,
)
    requires
        same_letter(letter, again),
        0 <= at <= constraints.excluding.len(),
    ensures
        command_for(
            with_text(constraints, Field::Excluding, constraints.excluding.insert(at, letter)),
            Field::Excluding,
            Input::Letter(again),
        ) == Command::Nothing,
{
    let after = constraints.excluding.insert(at, letter);
    assert(same_letter(after[at], again));
}

/// The included letters never outgrow a word under typing: where they are no
/// more than a word has positions and the editor inserts the letter it was
/// told to insert, they are still no more.
pub proof fn lemma_including_stays_short(constraints: Constraints, letter: char, at: int)
    requires
        constraints.including.len() <= constraints.position.len(),
        command_for(constraints, Field::Including, Input::Letter(letter)) == Command::Insert(
            letter,
        ),
        0 <= at <= constraints.including.len(),
    ensures
        constraints.including.insert(at, letter).len() <= constraints.position.len(),
{
}

/// A position slot holds at most one letter: what the editor of a slot is
/// told never adds to its text, it replaces or empties it.
pub proof fn lemma_position_never_inserts(constraints: Constraints, index: usize, input: Input)
    ensures
        !(command_for(constraints, Field::Position(index), input) is Insert),
        input is Letter && index < constraints.position.len() ==> command_for(
            constraints,
            Field::Position(index),
            input,
        ) == Command::Replace(input->Letter_0),
        input is Erase && index < constraints.position.len() ==> command_for(
            constraints,
            Field::Position(index),
            input,
        ) == Command::Clear,
{
}

/// Judges `action`, given whether the character that it inserts is a letter.
pub fn judge(action: Action, is_letter: bool) -> (input: Input)
    ensures
        input == input_of(action, is_letter),
{
    match action {
        Action::Edit(Edit::Insert(c)) => {
            if is_letter {
                Input::Letter(to_upper(c))
            } else {
                Input::Rejected
            }
        },
        Action::Edit(Edit::Backspace) => Input::Erase,
        Action::Edit(Edit::Delete) => Input::Erase,
        Action::Edit(Edit::Other) => Input::OtherEdit,
        Action::Other => Input::NoEdit,
    }
}

/// Judges `action`: a typed character counts as a letter if it is
/// alphabetic.
pub fn classify(action: Action) -> (input: Input)
    ensures
        input == input_of(action, inserts_letter(action)),
{
    let is_letter = match action {
        Action::Edit(Edit::Insert(c)) => c.is_alphabetic(),
        _ => false,
    };
    judge(action, is_letter)
}

/// The word finder: the word lists, the constraints and the words on show.
pub struct App {
    corpus: Corpus,
    state: FilterState,
    filtered_words: Vec<String>,
}

impl View for App {
    type V = AppView;

    closed spec fn view(&self) -> AppView {
        AppView {
            word_length: self.corpus.length(),
            all_words: self.corpus.all_words(),
            common_words: self.corpus.common_list(),
            constraints: self.state@,
            filtered_words: self.filtered_words.deep_view(),
        }
    }
}

impl App {
    /// The word lists are sound and the state is well formed.
    pub closed spec fn wf(&self) -> bool {
        &&& self.corpus.wf()
        &&& self@.wf()
    }

    /// What holds of the values of a well-formed word finder.
    pub proof fn lemma_wf(&self)
        requires
            self.wf(),
        ensures
            self@.wf(),
    {
    }

    /// Loads the two word lists, each with one word of `WORD_LENGTH` letters
    /// per line, and starts with no constraint and every word on show.
    pub fn new(all_words_source: &str, common_words_source: &str) -> (made: Result<
        App,
        MalformedWordList,
    >)
        ensures
            match made {
                Ok(app) => {
                    &&& app.wf()
                    &&& app@.word_length == WORD_LENGTH
                    &&& app@.all_words == lines_of(all_words_source@)
                    &&& app@.common_words == lines_of(common_words_source@)
                    &&& app@.constraints == Constraints::empty(WORD_LENGTH as nat)
                    &&& app@.filtered_words == lines_of(all_words_source@)
                    &&& well_formed(lines_of(all_words_source@), WORD_LENGTH as nat)
                    &&& well_formed(lines_of(common_words_source@), WORD_LENGTH as nat)
                },
                Err(error) => reports(
                    error,
                    lines_of(all_words_source@),
                    lines_of(common_words_source@),
                    WORD_LENGTH as nat,
                ),
            },
    {
        match Corpus::load(all_words_source, common_words_source) {
            Ok(corpus) => Ok(App::with_corpus(corpus)),
            Err(error) => Err(error),
        }
    }

    /// Starts on a loaded corpus with no constraint and every word on show.
    pub fn with_corpus(corpus: Corpus) -> (app: App)
        requires
            corpus.wf(),
        ensures
            app.wf(),
            app@.word_length == corpus.length(),
            app@.all_words == corpus.all_words(),
            app@.common_words == corpus.common_list(),
            app@.constraints == Constraints::empty(corpus.length()),
            app@.filtered_words == corpus.all_words(),
    {
        let state = FilterState::new(corpus.word_length());
        let mut app = App { corpus, state, filtered_words: Vec::new() };
        app.update_filtered_words();
        proof {
            lemma_unconstrained_keeps_all(app@.all_words, app@.constraints);
        }
        app
    }

    /// Filters the candidates anew under the constraints in force.
    fn update_filtered_words(&mut self)
        requires
            old(self).corpus.wf(),
            old(self).state@.position.len() == old(self).corpus.length(),
        ensures
            final(self).wf(),
            final(self).corpus == old(self).corpus,
            final(self).state == old(self).state,
            final(self)@ == old(self)@.under(old(self)@.constraints),
    {
        proof {
            self.corpus.lemma_word_lengths();
        }
        self.filtered_words = self.corpus.filter(&self.state);
    }

    /// Decides what the editor of `field` is to do on `input`.
    pub fn command(&self, field: Field, input: Input) -> (command: Command)
        ensures
            command == command_for(self@.constraints, field, input),
    {
        match field {
            Field::Position(index) => {
                if index >= self.state.position.len() {
                    Command::Nothing
                } else {
                    match input {
                        Input::Letter(letter) => Command::Replace(letter),
                        Input::Erase => Command::Clear,
                        Input::NoEdit => Command::Forward,
                        Input::Rejected => Command::Nothing,
                        Input::OtherEdit => Command::Nothing,
                    }
                }
            },
            Field::Including => match input {
                Input::Letter(letter) => {
                    if self.state.including.as_str().unicode_len() < self.state.position.len() {
                        Command::Insert(letter)
                    } else {
                        Command::Nothing
                    }
                },
                Input::Rejected => Command::Nothing,
                _ => Command::Forward,
            },
            Field::Excluding => match input {
                Input::Letter(letter) => {
                    let excluding = letters_of(self.state.excluding.as_str());
                    if contains_letter(&excluding, letter) {
                        Command::Nothing
                    } else {
                        Command::Insert(letter)
                    }
                },
                Input::Rejected => Command::Nothing,
                _ => Command::Forward,
            },
        }
    }

    /// Reacts to `message`. A toggle takes effect at once. For an action in an
    /// editor the result says what that editor is to do; the state changes
    /// when the editor's new text is reported with `text_changed`.
    pub fn update(&mut self, message: Message) -> (command: Command)
        requires
            old(self).wf(),
        ensures
            final(self).wf(),
            final(self)@ == old(self)@.after(message),
            command == match message {
                Message::ToggleCommonWords => Command::Nothing,
                _ => command_for(
                    old(self)@.constraints,
                    field_of(message)->0,
                    input_of(action_of(message)->0, inserts_letter(action_of(message)->0)),
                ),
            },
    {
        match message {
            Message::PositionEditAction(index, action) => self.command(
                Field::Position(index),
                classify(action),
            ),
            Message::IncludingEditAction(action) => self.command(
                Field::Including,
                classify(action),
            ),
            Message::ExcludingEditAction(action) => self.command(
                Field::Excluding,
                classify(action),
            ),
            Message::ToggleCommonWords => {
                self.state.only_show_common = !self.state.only_show_common;
                self.update_filtered_words();
                Command::Nothing
            },
        }
    }

    /// Takes over the text that the editor of `field` holds now and filters
    /// the words anew. A position slot takes the first character of the text;
    /// a slot that does not exist is passed over.
    pub fn text_changed(&mut self, field: Field, text: &str)
        requires
            old(self).wf(),
        ensures
            final(self).wf(),
            final(self)@ == old(self)@.under(with_text(old(self)@.constraints, field, text@)),
    {
        match field {
            Field::Position(index) => {
                if index < self.state.position.len() {
                    let letter = if text.unicode_len() > 0 {
                        Some(text.get_char(0))
                    } else {
                        None
                    };
                    self.state.position.set(index, letter);
                }
            },
            Field::Including => {
                self.state.including = text.to_owned();
            },
            Field::Excluding => {
                self.state.excluding = text.to_owned();
            },
        }
        self.update_filtered_words();
    }

    /// The words on show, in order.
    pub fn filtered_words(&self) -> (words: &Vec<String>)
        ensures
            words.deep_view() == self@.filtered_words,
    {
        &self.filtered_words
    }

    /// The constraints in force.
    pub fn state(&self) -> (state: &FilterState)
        ensures
            state@ == self@.constraints,
    {
        &self.state
    }

    /// The word lists.
    pub fn corpus(&self) -> (corpus: &Corpus)
        ensures
            corpus.length() == self@.word_length,
            corpus.all_words() == self@.all_words,
            corpus.common_list() == self@.common_words,
            self.wf() ==> corpus.wf(),
    {
        &self.corpus
    }

    /// Tells whether `word` is one of the common words, letter for letter.
    pub fn is_common(&self, word: &str) -> (common: bool)
        requires
            self.wf(),
        ensures
            common == self@.common_words.contains(word@),
    {
        self.corpus.is_common(word)
    }
}

} // verus!
