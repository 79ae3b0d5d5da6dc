use recol_interactive::keys::{command_for, Command, Key};
use recol_interactive::state::Mode;

fn normal(c: char) -> Command {
    command_for(Mode::Normal, Key::Char(c), false)
}

#[test]
fn navigation_keys() {
    assert_eq!(command_for(Mode::Normal, Key::Up, false), Command::Up);
    assert_eq!(normal('k'), Command::Up);
    assert_eq!(normal('-'), Command::Up);
    assert_eq!(command_for(Mode::Normal, Key::Down, false), Command::Down);
    assert_eq!(normal('j'), Command::Down);
    assert_eq!(normal('+'), Command::Down);
    assert_eq!(normal('g'), Command::First);
    assert_eq!(normal('G'), Command::Last);
    assert_eq!(command_for(Mode::Normal, Key::Char('u'), true), Command::HalfUp);
    assert_eq!(command_for(Mode::Normal, Key::Char('d'), true), Command::HalfDown);
    assert_eq!(normal('u'), Command::Nothing);
}

#[test]
fn input_and_filter_keys() {
    assert_eq!(normal('/'), Command::StartInput);
    assert_eq!(normal(':'), Command::StartInput);
    assert_eq!(normal('i'), Command::StartInput);
    assert_eq!(normal('a'), Command::StartAdjust);
    assert_eq!(normal('f'), Command::Family);
    assert_eq!(command_for(Mode::Input, Key::Esc, false), Command::BackToList);
    assert_eq!(command_for(Mode::Input, Key::Enter, false), Command::BackToList);
    assert_eq!(command_for(Mode::AdjustInput, Key::Esc, false), Command::BackToList);
    assert_eq!(command_for(Mode::AdjustInput, Key::Enter, false), Command::BackToList);
}

#[test]
fn list_action_keys() {
    assert_eq!(normal('s'), Command::Shuffle);
    assert_eq!(normal('S'), Command::Sort);
    assert_eq!(normal('r'), Command::Reverse);
    assert_eq!(normal('d'), Command::Only(false));
    assert_eq!(normal('l'), Command::Only(true));
    assert_eq!(normal('h'), Command::ListHistory);
    assert_eq!(normal('F'), Command::ListFavourites);
    assert_eq!(normal(' '), Command::ListAll);
}

#[test]
fn general_keys() {
    assert_eq!(command_for(Mode::Normal, Key::Enter, false), Command::Choose);
    assert_eq!(normal('m'), Command::ToggleFavourite);
    assert_eq!(normal('?'), Command::ShowHelp);
    assert_eq!(normal('q'), Command::Quit);
    assert_eq!(normal('x'), Command::Nothing);
    assert_eq!(command_for(Mode::Normal, Key::Esc, false), Command::Nothing);
    assert_eq!(command_for(Mode::Normal, Key::Backspace, false), Command::Nothing);
    assert_eq!(command_for(Mode::Normal, Key::Other, false), Command::Nothing);
}

#[test]
fn control_c_quits_everywhere() {
    for mode in [Mode::Normal, Mode::Input, Mode::AdjustInput, Mode::Help] {
        assert_eq!(command_for(mode, Key::Char('c'), true), Command::Quit);
    }
    assert_eq!(command_for(Mode::Input, Key::Char('c'), false), Command::TypeInput('c'));
}

#[test]
fn typed_characters_are_text() {
    assert_eq!(command_for(Mode::Input, Key::Char('q'), false), Command::TypeInput('q'));
    assert_eq!(command_for(Mode::Input, Key::Char('d'), true), Command::TypeInput('d'));
    assert_eq!(command_for(Mode::Input, Key::Backspace, false), Command::EraseInput);
    assert_eq!(command_for(Mode::Input, Key::Up, false), Command::Nothing);
    assert_eq!(command_for(Mode::AdjustInput, Key::Char('q'), false), Command::TypeAdjust('q'));
    assert_eq!(command_for(Mode::AdjustInput, Key::Backspace, false), Command::EraseAdjust);
}

#[test]
fn keys_in_the_help() {
    assert_eq!(command_for(Mode::Help, Key::Char('q'), false), Command::Quit);
    assert_eq!(command_for(Mode::Help, Key::Char('x'), false), Command::BackToList);
    assert_eq!(command_for(Mode::Help, Key::Esc, false), Command::BackToList);
    assert_eq!(command_for(Mode::Help, Key::Enter, false), Command::BackToList);
    assert_eq!(command_for(Mode::Help, Key::Backspace, false), Command::BackToList);
    assert_eq!(command_for(Mode::Help, Key::Up, false), Command::BackToList);
    assert_eq!(command_for(Mode::Help, Key::Down, false), Command::BackToList);
    assert_eq!(command_for(Mode::Help, Key::Other, false), Command::BackToList);
    assert_eq!(command_for(Mode::Help, Key::Char('q'), true), Command::Quit);
    assert_eq!(command_for(Mode::Help, Key::Char('c'), true), Command::Quit);
    assert_eq!(command_for(Mode::Help, Key::Char('c'), false), Command::BackToList);
}
