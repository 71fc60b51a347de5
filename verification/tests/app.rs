use word_filter::app::{classify, judge, Action, App, Command, Edit, Field, Input, Message};
use word_filter::corpus::{Corpus, MalformedWordList, WordList};

const ALL: &str = "apple\napply\nangle\nmango\n";
const COMMON: &str = "apple\nmango\n";

fn words(list: &[&str]) -> Vec<String> {
    list.iter().map(|word| word.to_string()).collect()
}

fn puzzle() -> App {
    App::new(ALL, COMMON).unwrap()
}

fn insert(c: char) -> Action {
    Action::Edit(Edit::Insert(c))
}

/// An editor whose cursor stands at the end of its text.
fn obey(text: &mut String, command: Command, action: Action) {
    match command {
        Command::Nothing => {},
        Command::Clear => text.clear(),
        Command::Replace(letter) => {
            text.clear();
            text.push(letter);
        },
        Command::Insert(letter) => text.push(letter),
        Command::Forward => match action {
            Action::Edit(Edit::Backspace) => {
                text.pop();
            },
            Action::Edit(Edit::Other) => text.push('\n'),
            Action::Edit(Edit::Insert(c)) => text.push(c),
            _ => {},
        },
    }
}

fn act(app: &mut App, field: Field, text: &mut String, action: Action) -> Command {
    let message = match field {
        Field::Position(index) => Message::PositionEditAction(index, action),
        Field::Including => Message::IncludingEditAction(action),
        Field::Excluding => Message::ExcludingEditAction(action),
    };
    let command = app.update(message);
    obey(text, command, action);
    app.text_changed(field, text);
    command
}

#[test]
fn starts_with_every_word_on_show() {
    let app = puzzle();
    assert_eq!(app.filtered_words(), &words(&["apple", "apply", "angle", "mango"]));
    assert_eq!(app.state().position, vec![None; 5]);
    assert_eq!(app.state().including, "");
    assert_eq!(app.state().excluding, "");
    assert!(!app.state().only_show_common);
    assert_eq!(app.corpus().word_length(), 5);
}

#[test]
fn new_reports_a_malformed_list() {
    let error = App::new("apple\npear", COMMON).err().unwrap();
    assert_eq!(error, MalformedWordList { list: WordList::All, line: 2, word: "pear".to_string() });
    let error = App::new(ALL, "apple\n\n").err().unwrap();
    assert_eq!(error, MalformedWordList { list: WordList::Common, line: 2, word: String::new() });
}

#[test]
fn position_letter_then_excluded_letter() {
    let mut app = puzzle();
    let mut slot = String::new();
    let command = act(&mut app, Field::Position(0), &mut slot, insert('a'));
    assert_eq!(command, Command::Replace('A'));
    assert_eq!(app.filtered_words(), &words(&["apple", "apply", "angle"]));
    let mut excluding = String::new();
    let command = act(&mut app, Field::Excluding, &mut excluding, insert('l'));
    assert_eq!(command, Command::Insert('L'));
    assert_eq!(app.filtered_words(), &Vec::<String>::new());
}

#[test]
fn including_a_letter_twice_asks_for_two() {
    let mut app = puzzle();
    let mut including = String::new();
    act(&mut app, Field::Including, &mut including, insert('p'));
    assert_eq!(app.filtered_words(), &words(&["apple", "apply"]));
    act(&mut app, Field::Including, &mut including, insert('p'));
    assert_eq!(including, "PP");
    assert_eq!(app.state().including, "PP");
    assert_eq!(app.filtered_words(), &words(&["apple", "apply"]));
    act(&mut app, Field::Including, &mut including, insert('p'));
    assert_eq!(app.filtered_words(), &Vec::<String>::new());
}

#[test]
fn common_only_starts_from_the_common_words() {
    let mut app = puzzle();
    assert_eq!(app.update(Message::ToggleCommonWords), Command::Nothing);
    assert!(app.state().only_show_common);
    assert_eq!(app.filtered_words(), &words(&["apple", "mango"]));
    let mut slot = String::new();
    act(&mut app, Field::Position(0), &mut slot, insert('m'));
    assert_eq!(app.filtered_words(), &words(&["mango"]));
}

#[test]
fn excluding_a_letter_twice_stores_it_once() {
    let mut app = puzzle();
    let mut excluding = String::new();
    let first = act(&mut app, Field::Excluding, &mut excluding, insert('p'));
    assert_eq!(first, Command::Insert('P'));
    let second = act(&mut app, Field::Excluding, &mut excluding, insert('p'));
    assert_eq!(second, Command::Nothing);
    let third = act(&mut app, Field::Excluding, &mut excluding, insert('P'));
    assert_eq!(third, Command::Nothing);
    assert_eq!(excluding, "P");
    assert_eq!(app.state().excluding, "P");
    assert_eq!(app.filtered_words(), &words(&["angle", "mango"]));
}

#[test]
fn an_excluded_letter_in_lower_case_is_not_stored_again() {
    let mut app = puzzle();
    app.text_changed(Field::Excluding, "p");
    assert_eq!(app.update(Message::ExcludingEditAction(insert('p'))), Command::Nothing);
    assert_eq!(app.update(Message::ExcludingEditAction(insert('P'))), Command::Nothing);
    assert_eq!(app.update(Message::ExcludingEditAction(insert('q'))), Command::Insert('Q'));
}

#[test]
fn toggling_twice_shows_every_word_in_order() {
    let mut app = puzzle();
    let before = app.filtered_words().clone();
    app.update(Message::ToggleCommonWords);
    assert_eq!(app.filtered_words(), &words(&["apple", "mango"]));
    app.update(Message::ToggleCommonWords);
    assert!(!app.state().only_show_common);
    assert_eq!(app.filtered_words(), &before);
    assert_eq!(app.filtered_words(), &words(&["apple", "apply", "angle", "mango"]));
}

#[test]
fn toggling_twice_keeps_the_other_constraints() {
    let mut app = puzzle();
    app.text_changed(Field::Position(0), "A");
    app.text_changed(Field::Excluding, "Y");
    let before = app.filtered_words().clone();
    assert_eq!(before, words(&["apple", "angle"]));
    app.update(Message::ToggleCommonWords);
    assert_eq!(app.filtered_words(), &words(&["apple"]));
    app.update(Message::ToggleCommonWords);
    assert_eq!(app.filtered_words(), &before);
    assert_eq!(app.state().position, vec![Some('A'), None, None, None, None]);
    assert_eq!(app.state().excluding, "Y");
}

#[test]
fn typing_into_a_set_slot_replaces_its_letter() {
    let mut app = puzzle();
    let mut slot = String::new();
    assert_eq!(act(&mut app, Field::Position(0), &mut slot, insert('a')), Command::Replace('A'));
    assert_eq!(act(&mut app, Field::Position(0), &mut slot, insert('m')), Command::Replace('M'));
    assert_eq!(slot, "M");
    assert_eq!(app.state().position, vec![Some('M'), None, None, None, None]);
    assert_eq!(app.filtered_words(), &words(&["mango"]));
}

#[test]
fn backspace_and_delete_empty_a_slot() {
    let mut app = puzzle();
    let mut slot = String::new();
    act(&mut app, Field::Position(4), &mut slot, insert('o'));
    assert_eq!(app.filtered_words(), &words(&["mango"]));
    let command = act(&mut app, Field::Position(4), &mut slot, Action::Edit(Edit::Backspace));
    assert_eq!(command, Command::Clear);
    assert_eq!(slot, "");
    assert_eq!(app.state().position, vec![None; 5]);
    assert_eq!(app.filtered_words(), &words(&["apple", "apply", "angle", "mango"]));
    act(&mut app, Field::Position(4), &mut slot, insert('e'));
    let command = act(&mut app, Field::Position(4), &mut slot, Action::Edit(Edit::Delete));
    assert_eq!(command, Command::Clear);
    assert_eq!(app.state().position, vec![None; 5]);
}

#[test]
fn a_slot_drops_what_is_no_letter() {
    let mut app = puzzle();
    assert_eq!(app.update(Message::PositionEditAction(1, insert('3'))), Command::Nothing);
    assert_eq!(app.update(Message::PositionEditAction(1, insert(' '))), Command::Nothing);
    assert_eq!(app.update(Message::PositionEditAction(1, Action::Edit(Edit::Other))), Command::Nothing);
    assert_eq!(app.update(Message::PositionEditAction(1, Action::Other)), Command::Forward);
    assert_eq!(app.state().position, vec![None; 5]);
    assert_eq!(app.filtered_words(), &words(&["apple", "apply", "angle", "mango"]));
}

#[test]
fn a_slot_that_does_not_exist_is_passed_over() {
    let mut app = puzzle();
    assert_eq!(app.update(Message::PositionEditAction(5, insert('a'))), Command::Nothing);
    assert_eq!(app.update(Message::PositionEditAction(5, Action::Other)), Command::Nothing);
    assert_eq!(
        app.update(Message::PositionEditAction(usize::MAX, Action::Edit(Edit::Delete))),
        Command::Nothing
    );
    app.text_changed(Field::Position(5), "A");
    assert_eq!(app.state().position, vec![None; 5]);
    assert_eq!(app.filtered_words(), &words(&["apple", "apply", "angle", "mango"]));
}

#[test]
fn the_included_letters_take_no_more_than_a_word_has() {
    let mut app = puzzle();
    let mut including = String::new();
    for c in ['a', 'b', 'c', 'd', 'e'] {
        let command = act(&mut app, Field::Including, &mut including, insert(c));
        assert_eq!(command, Command::Insert(c.to_ascii_uppercase()));
    }
    assert_eq!(act(&mut app, Field::Including, &mut including, insert('f')), Command::Nothing);
    assert_eq!(including, "ABCDE");
    assert_eq!(app.state().including, "ABCDE");
    let command = act(&mut app, Field::Including, &mut including, Action::Edit(Edit::Backspace));
    assert_eq!(command, Command::Forward);
    assert_eq!(app.state().including, "ABCD");
    assert_eq!(act(&mut app, Field::Including, &mut including, insert('f')), Command::Insert('F'));
}

#[test]
fn the_letter_lists_drop_what_is_no_letter() {
    let mut app = puzzle();
    assert_eq!(app.update(Message::IncludingEditAction(insert('1'))), Command::Nothing);
    assert_eq!(app.update(Message::IncludingEditAction(insert('-'))), Command::Nothing);
    assert_eq!(app.update(Message::ExcludingEditAction(insert('?'))), Command::Nothing);
    assert_eq!(app.update(Message::ExcludingEditAction(insert(' '))), Command::Nothing);
    assert_eq!(app.state().including, "");
    assert_eq!(app.state().excluding, "");
}

#[test]
fn the_letter_lists_forward_every_other_action() {
    let mut app = puzzle();
    for action in [
        Action::Edit(Edit::Backspace),
        Action::Edit(Edit::Delete),
        Action::Edit(Edit::Other),
        Action::Other,
    ] {
        assert_eq!(app.update(Message::IncludingEditAction(action)), Command::Forward);
        assert_eq!(app.update(Message::ExcludingEditAction(action)), Command::Forward);
    }
}

#[test]
fn letters_are_stored_in_upper_case_whatever_was_typed() {
    let mut app = puzzle();
    assert_eq!(app.update(Message::PositionEditAction(0, insert('a'))), Command::Replace('A'));
    assert_eq!(app.update(Message::PositionEditAction(0, insert('A'))), Command::Replace('A'));
    assert_eq!(app.update(Message::IncludingEditAction(insert('z'))), Command::Insert('Z'));
    assert_eq!(app.update(Message::ExcludingEditAction(insert('Z'))), Command::Insert('Z'));
    assert_eq!(app.update(Message::IncludingEditAction(insert('é'))), Command::Insert('é'));
}

#[test]
fn update_alone_leaves_the_texts_as_they_are() {
    let mut app = puzzle();
    app.update(Message::PositionEditAction(0, insert('m')));
    app.update(Message::IncludingEditAction(insert('p')));
    app.update(Message::ExcludingEditAction(insert('a')));
    assert_eq!(app.state().position, vec![None; 5]);
    assert_eq!(app.state().including, "");
    assert_eq!(app.state().excluding, "");
    assert_eq!(app.filtered_words(), &words(&["apple", "apply", "angle", "mango"]));
}

#[test]
fn text_changed_takes_over_any_text() {
    let mut app = puzzle();
    app.text_changed(Field::Including, "pl");
    assert_eq!(app.filtered_words(), &words(&["apple", "apply"]));
    app.text_changed(Field::Excluding, "ye\n");
    assert_eq!(app.filtered_words(), &Vec::<String>::new());
    app.text_changed(Field::Excluding, "y");
    assert_eq!(app.filtered_words(), &words(&["apple"]));
    app.text_changed(Field::Including, "");
    app.text_changed(Field::Excluding, "");
    app.text_changed(Field::Position(2), "gx");
    assert_eq!(app.state().position, vec![None, None, Some('g'), None, None]);
    assert_eq!(app.filtered_words(), &words(&["angle"]));
    app.text_changed(Field::Position(2), "");
    assert_eq!(app.filtered_words(), &words(&["apple", "apply", "angle", "mango"]));
}

#[test]
fn conflicting_constraints_show_nothing() {
    let mut app = puzzle();
    app.text_changed(Field::Position(0), "A");
    app.text_changed(Field::Excluding, "A");
    assert_eq!(app.filtered_words(), &Vec::<String>::new());
}

#[test]
fn is_common_marks_the_common_words() {
    let app = puzzle();
    assert!(app.is_common("apple"));
    assert!(app.is_common("mango"));
    assert!(!app.is_common("apply"));
    assert!(!app.is_common("angle"));
}

#[test]
fn common_words_outside_the_full_list_do_no_harm() {
    let mut app = App::new("apple\nangle\n", "mango\napple\nlemon\n").unwrap();
    assert_eq!(app.filtered_words(), &words(&["apple", "angle"]));
    assert!(app.is_common("lemon"));
    app.update(Message::ToggleCommonWords);
    assert_eq!(app.filtered_words(), &words(&["mango", "apple", "lemon"]));
    app.text_changed(Field::Including, "M");
    assert_eq!(app.filtered_words(), &words(&["mango", "lemon"]));
    app.update(Message::ToggleCommonWords);
    assert_eq!(app.filtered_words(), &Vec::<String>::new());
}

#[test]
fn with_corpus_works_for_other_word_lengths() {
    let corpus = Corpus::load_with_length("cat\ncot\ndog", "dog", 3).unwrap();
    let mut app = App::with_corpus(corpus);
    assert_eq!(app.state().position, vec![None; 3]);
    assert_eq!(app.filtered_words(), &words(&["cat", "cot", "dog"]));
    assert_eq!(app.update(Message::PositionEditAction(3, insert('a'))), Command::Nothing);
    assert_eq!(app.update(Message::PositionEditAction(2, insert('t'))), Command::Replace('T'));
    app.text_changed(Field::Position(2), "T");
    assert_eq!(app.filtered_words(), &words(&["cat", "cot"]));
    let mut including = String::new();
    for c in ['c', 'o', 't'] {
        act(&mut app, Field::Including, &mut including, insert(c));
    }
    assert_eq!(app.update(Message::IncludingEditAction(insert('a'))), Command::Nothing);
    assert_eq!(app.filtered_words(), &words(&["cot"]));
}

#[test]
fn classify_tells_letters_from_other_characters() {
    assert_eq!(classify(insert('p')), Input::Letter('P'));
    assert_eq!(classify(insert('P')), Input::Letter('P'));
    assert_eq!(classify(insert('京')), Input::Letter('京'));
    assert_eq!(classify(insert('ß')), Input::Letter('ß'));
    assert_eq!(classify(insert('1')), Input::Rejected);
    assert_eq!(classify(insert(' ')), Input::Rejected);
    assert_eq!(classify(insert('\n')), Input::Rejected);
    assert_eq!(classify(insert('💝')), Input::Rejected);
    assert_eq!(classify(Action::Edit(Edit::Backspace)), Input::Erase);
    assert_eq!(classify(Action::Edit(Edit::Delete)), Input::Erase);
    assert_eq!(classify(Action::Edit(Edit::Other)), Input::OtherEdit);
    assert_eq!(classify(Action::Other), Input::NoEdit);
}

#[test]
fn judge_follows_the_answer_it_is_given() {
    assert_eq!(judge(insert('p'), true), Input::Letter('P'));
    assert_eq!(judge(insert('p'), false), Input::Rejected);
    assert_eq!(judge(insert('1'), true), Input::Letter('1'));
    assert_eq!(judge(Action::Edit(Edit::Backspace), true), Input::Erase);
    assert_eq!(judge(Action::Edit(Edit::Other), true), Input::OtherEdit);
    assert_eq!(judge(Action::Other, true), Input::NoEdit);
}

#[test]
fn command_answers_a_judged_input() {
    let mut app = puzzle();
    assert_eq!(app.command(Field::Position(0), Input::Letter('A')), Command::Replace('A'));
    assert_eq!(app.command(Field::Position(0), Input::Erase), Command::Clear);
    assert_eq!(app.command(Field::Position(0), Input::Rejected), Command::Nothing);
    assert_eq!(app.command(Field::Position(0), Input::OtherEdit), Command::Nothing);
    assert_eq!(app.command(Field::Position(0), Input::NoEdit), Command::Forward);
    assert_eq!(app.command(Field::Position(7), Input::Letter('A')), Command::Nothing);
    assert_eq!(app.command(Field::Including, Input::Letter('A')), Command::Insert('A'));
    assert_eq!(app.command(Field::Excluding, Input::Letter('A')), Command::Insert('A'));
    app.text_changed(Field::Including, "ABCDE");
    app.text_changed(Field::Excluding, "xyz");
    assert_eq!(app.command(Field::Including, Input::Letter('A')), Command::Nothing);
    assert_eq!(app.command(Field::Excluding, Input::Letter('X')), Command::Nothing);
    assert_eq!(app.command(Field::Excluding, Input::Letter('W')), Command::Insert('W'));
    assert_eq!(app.command(Field::Including, Input::Erase), Command::Forward);
    assert_eq!(app.command(Field::Excluding, Input::OtherEdit), Command::Forward);
}

#[test]
fn the_cap_counts_characters() {
    let mut app = puzzle();
    app.text_changed(Field::Including, "éééé");
    assert_eq!(app.update(Message::IncludingEditAction(insert('a'))), Command::Insert('A'));
    app.text_changed(Field::Including, "éééééé");
    assert_eq!(app.update(Message::IncludingEditAction(insert('a'))), Command::Nothing);
}
