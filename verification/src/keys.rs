//! Which key stands for which command.
use vstd::prelude::*;

use crate::state::Mode;

verus! {

/// A key, as far as the picker tells keys apart.
#[derive(Debug, Clone, Copy, PartialEq, Eq, Structural)]
pub enum Key {
    Enter,
    Esc,
    Backspace,
    Up,
    Down,
    Char(char),
    Other,
}

/// What a key asks the picker to do.
#[derive(Debug, Clone, Copy, PartialEq, Eq, Structural)]
pub enum Command {
    /// Nothing at all.
    Nothing,
    /// Leave the picker.
    Quit,
    /// Apply the selected theme.
    Choose,
    /// Select the entry above.
    Up,
    /// Select the entry below.
    Down,
    /// Select the first entry.
    First,
    /// Select the last entry.
    Last,
    /// Half a page up.
    HalfUp,
    /// Half a page down.
    HalfDown,
    /// Start to type a query.
    StartInput,
    /// Start to type adjustments.
    StartAdjust,
    /// Show the help.
    ShowHelp,
    /// Keep only the light themes, or only the dark ones.
    Only(bool),
    /// Put the list in a random order.
    Shuffle,
    /// Sort the list.
    Sort,
    /// Put the list in the opposite order.
    Reverse,
    /// Filter by the first word of the selected name.
    Family,
    /// Make the selected theme a favourite, or no longer one.
    ToggleFavourite,
    /// List the favourites.
    ListFavourites,
    /// List the themes applied recently.
    ListHistory,
    /// List all themes.
    ListAll,
    /// Return to the list.
    BackToList,
    /// Add a character to the query.
    TypeInput(char),
    /// Take the last character off the query.
    EraseInput,
    /// Add a character to the adjustments.
    TypeAdjust(char),
    /// Take the last character off the adjustments.
    EraseAdjust,
}

/// The commands of the characters while the list has the keyboard.
pub open spec fn list_binding(c: char, ctrl: bool) -> Command {
    match c {
        'q' => Command::Quit,
        '/' | ':' | 'i' => Command::StartInput,
        'a' => Command::StartAdjust,
        '?' => Command::ShowHelp,
        'j' | '+' => Command::Down,
        'k' | '-' => Command::Up,
        'g' => Command::First,
        'G' => Command::Last,
        'd' => if ctrl { Command::HalfDown } else { Command::Only(false) },
        'u' => if ctrl { Command::HalfUp } else { Command::Nothing },
        'l' => Command::Only(true),
        's' => Command::Shuffle,
        'S' => Command::Sort,
        'r' => Command::Reverse,
        'f' => Command::Family,
        'm' => Command::ToggleFavourite,
        'F' => Command::ListFavourites,
        'h' => Command::ListHistory,
        ' ' => Command::ListAll,
        _ => Command::Nothing,
    }
}

/// The command of a key.
pub open spec fn binding(mode: Mode, key: Key, ctrl: bool) -> Command {
    if ctrl && key == Key::Char('c') {
        Command::Quit
    } else {
        match (mode, key) {
            (Mode::Normal, Key::Enter) => Command::Choose,
            (Mode::Normal, Key::Up) => Command::Up,
            (Mode::Normal, Key::Down) => Command::Down,
            (Mode::Normal, Key::Char(c)) => list_binding(c, ctrl),
            (Mode::Input | Mode::AdjustInput, Key::Enter | Key::Esc) => Command::BackToList,
            (Mode::Input, Key::Backspace) => Command::EraseInput,
            (Mode::Input, Key::Char(c)) => Command::TypeInput(c),
            (Mode::AdjustInput, Key::Backspace) => Command::EraseAdjust,
            (Mode::AdjustInput, Key::Char(c)) => Command::TypeAdjust(c),
            (Mode::Help, Key::Char('q')) => Command::Quit,
            (Mode::Help, _) => Command::BackToList,
            _ => Command::Nothing,
        }
    }
}

/// The command of a character while the list has the keyboard.
fn list_command(c: char, ctrl: bool) -> (command: Command)
    ensures
        command == list_binding(c, ctrl),
{
    match c {
        'q' => Command::Quit,
        '/' | ':' | 'i' => Command::StartInput,
        'a' => Command::StartAdjust,
        '?' => Command::ShowHelp,
        'j' | '+' => Command::Down,
        'k' | '-' => Command::Up,
        'g' => Command::First,
        'G' => Command::Last,
        'd' => if ctrl { Command::HalfDown } else { Command::Only(false) },
        'u' => if ctrl { Command::HalfUp } else { Command::Nothing },
        'l' => Command::Only(true),
        's' => Command::Shuffle,
        'S' => Command::Sort,
        'r' => Command::Reverse,
        'f' => Command::Family,
        'm' => Command::ToggleFavourite,
        'F' => Command::ListFavourites,
        'h' => Command::ListHistory,
        ' ' => Command::ListAll,
        _ => Command::Nothing,
    }
}

/// The command that a key stands for, with or without the control key held down.
pub fn command_for(mode: Mode, key: Key, ctrl: bool) -> (command: Command)
    ensures
        command == binding(mode, key, ctrl),
{
    match key {
        Key::Char(c) => if ctrl && c == 'c' {
            Command::Quit
        } else {
            match mode {
                Mode::Normal => list_command(c, ctrl),
                Mode::Input => Command::TypeInput(c),
                Mode::AdjustInput => Command::TypeAdjust(c),
                Mode::Help => if c == 'q' { Command::Quit } else { Command::BackToList },
            }
        },
        Key::Enter => match mode {
            Mode::Normal => Command::Choose,
            _ => Command::BackToList,
        },
        Key::Esc => match mode {
            Mode::Normal => Command::Nothing,
            _ => Command::BackToList,
        },
        Key::Backspace => match mode {
            Mode::Normal => Command::Nothing,
            Mode::Input => Command::EraseInput,
            Mode::AdjustInput => Command::EraseAdjust,
            Mode::Help => Command::BackToList,
        },
        Key::Up => match mode {
            Mode::Normal => Command::Up,
            Mode::Help => Command::BackToList,
            _ => Command::Nothing,
        },
        Key::Down => match mode {
            Mode::Normal => Command::Down,
            Mode::Help => Command::BackToList,
            _ => Command::Nothing,
        },
        Key::Other => match mode {
            Mode::Help => Command::BackToList,
            _ => Command::Nothing,
        },
    }
}

/// Ctrl+c leaves the picker from anywhere; nothing but Ctrl+c and, outside the input
/// lines, `q` leaves it.
pub proof fn law_quit_keys(mode: Mode, key: Key, ctrl: bool)
    ensures
        binding(mode, key, ctrl) == Command::Quit <==> {
            ||| key == Key::Char('c') && ctrl
            ||| key == Key::Char('q') && (mode == Mode::Normal || mode == Mode::Help)
        },
{
}

/// While a text is typed, every character but Ctrl+c goes into it, backspace takes one
/// off, and enter and escape alike return to the list.
pub proof fn law_typing_keys(c: char, ctrl: bool)
    ensures
        !(ctrl && c == 'c') ==> {
            &&& binding(Mode::Input, Key::Char(c), ctrl) == Command::TypeInput(c)
            &&& binding(Mode::AdjustInput, Key::Char(c), ctrl) == Command::TypeAdjust(c)
        },
        binding(Mode::Input, Key::Backspace, ctrl) == Command::EraseInput,
        binding(Mode::AdjustInput, Key::Backspace, ctrl) == Command::EraseAdjust,
        binding(Mode::Input, Key::Enter, ctrl) == Command::BackToList,
        binding(Mode::Input, Key::Esc, ctrl) == Command::BackToList,
        binding(Mode::AdjustInput, Key::Enter, ctrl) == Command::BackToList,
        binding(Mode::AdjustInput, Key::Esc, ctrl) == Command::BackToList,
{
}

/// From the help `q` and Ctrl+c quit, and any other key returns to the list.
pub proof fn law_help_keys(key: Key, ctrl: bool)
    ensures
        binding(Mode::Help, key, ctrl) == if key == Key::Char('q') || (key == Key::Char('c')
            && ctrl) {
            Command::Quit
        } else {
            Command::BackToList
        },
{
}

} // verus!
