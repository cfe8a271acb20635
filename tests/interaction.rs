use rano::{blink, centered_rect, command_for, confirms_save, Area, Command, Direction, Key, Prompt};

fn chars(s: &str) -> Vec<char> {
    s.chars().collect()
}

#[test]
fn control_keys_map_to_commands() {
    assert_eq!(command_for(Key::Char('x'), true), Command::Quit);
    assert_eq!(command_for(Key::Char('o'), true), Command::SaveAs);
    assert_eq!(command_for(Key::Char('w'), true), Command::Search);
    assert_eq!(command_for(Key::Char('a'), true), Command::Insert('a'));
}

#[test]
fn plain_keys_map_to_edits_and_moves() {
    assert_eq!(command_for(Key::Char('x'), false), Command::Insert('x'));
    assert_eq!(command_for(Key::Enter, false), Command::Newline);
    assert_eq!(command_for(Key::Backspace, true), Command::DeleteBack);
    assert_eq!(command_for(Key::Up, false), Command::Move(Direction::Up));
    assert_eq!(command_for(Key::Down, false), Command::Move(Direction::Down));
    assert_eq!(command_for(Key::Left, false), Command::Move(Direction::Left));
    assert_eq!(command_for(Key::Right, false), Command::Move(Direction::Right));
    assert_eq!(command_for(Key::Esc, false), Command::Nothing);
    assert_eq!(command_for(Key::Other, false), Command::Nothing);
}

#[test]
fn prompt_collects_and_confirms() {
    let mut p = Prompt::new();
    assert_eq!(p.feed(Key::Char('a')), None);
    assert_eq!(p.feed(Key::Char('b')), None);
    assert_eq!(p.feed(Key::Backspace), None);
    assert_eq!(p.feed(Key::Char('c')), None);
    assert_eq!(p.feed(Key::Up), None);
    assert_eq!(p.feed(Key::Enter), Some(chars("ac")));
}

#[test]
fn prompt_escape_gives_empty_answer() {
    let mut p = Prompt::new();
    p.feed(Key::Char('q'));
    assert_eq!(p.feed(Key::Esc), Some(Vec::new()));
}

#[test]
fn prompt_backspace_on_empty_line() {
    let mut p = Prompt::new();
    assert_eq!(p.feed(Key::Backspace), None);
    assert!(p.input.is_empty());
}

#[test]
fn yes_answers() {
    assert!(confirms_save(&chars("y")));
    assert!(confirms_save(&chars("Y")));
    assert!(confirms_save(&chars("  y\t")));
}

#[test]
fn other_answers() {
    assert!(!confirms_save(&chars("")));
    assert!(!confirms_save(&chars("n")));
    assert!(!confirms_save(&chars("yes")));
    assert!(!confirms_save(&chars("y y")));
    assert!(!confirms_save(&chars("   ")));
}

#[test]
fn cursor_blinks_every_half_second() {
    assert_eq!(blink(true, 499), (true, false));
    assert_eq!(blink(true, 500), (false, true));
    assert_eq!(blink(false, 720), (true, true));
}

#[test]
fn popup_is_centred() {
    let area = Area { x: 0, y: 0, width: 100, height: 50 };
    assert_eq!(centered_rect(60, 20, area), Area { x: 20, y: 20, width: 60, height: 10 });
    let area = Area { x: 10, y: 5, width: 20, height: 10 };
    assert_eq!(centered_rect(100, 100, area), area);
}
