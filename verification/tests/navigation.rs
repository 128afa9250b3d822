use file_browser::app::{App, Row};
use file_browser::content::{Probe, ReadFault};
use file_browser::keymap::{Command, Input, Key, Phase};
use file_browser::style::{Color, Style};

fn paths(names: &[&str]) -> Vec<String> {
    names.iter().map(|name| name.to_string()).collect()
}

fn text(content: &str) -> Probe {
    Probe::Text(content.to_string())
}

/// A directory with the files `a.txt` and `b.txt` and the directory `sub`.
fn look(path: &str) -> Probe {
    match path {
        "./a.txt" => text("hello"),
        "./b.txt" => text("world"),
        "./sub" => Probe::NotAFile,
        _ => Probe::Unreadable(ReadFault::NotFound),
    }
}

/// Does what the loop does about one event, and tells the phase that follows.
fn press(app: &mut App, phase: Phase, input: Input) -> Phase {
    let command = Command::for_input(input);
    if let Some(position) = app.target(command) {
        let probe = look(&app.items()[position]);
        app.apply(command, probe);
    }
    phase.after(command)
}

fn key(c: char) -> Input {
    Input::Key(Key::Char(c))
}

#[test]
fn new_sorts_the_listing() {
    let app = App::new(paths(&["./sub", "./b.txt", "./a.txt"]));
    assert_eq!(app.items(), &paths(&["./a.txt", "./b.txt", "./sub"]));
}

#[test]
fn new_selects_the_first_entry_and_shows_the_placeholder() {
    let app = App::new(paths(&["./b.txt", "./a.txt"]));
    assert_eq!(app.selected_item(), 0);
    assert_eq!(app.content().as_str(), "This is the content of the selected item.");
}

#[test]
fn new_takes_an_empty_listing() {
    let app = App::new(Vec::new());
    assert!(app.items().is_empty());
    assert_eq!(app.selected_item(), 0);
    assert_eq!(app.content().as_str(), "This is the content of the selected item.");
    assert!(app.rows().is_empty());
}

#[test]
fn next_moves_on_and_shows_the_text() {
    let mut app = App::new(paths(&["./a.txt", "./b.txt", "./sub"]));
    app.next(text("world"));
    assert_eq!(app.selected_item(), 1);
    assert_eq!(app.content().as_str(), "world");
}

#[test]
fn next_wraps_from_the_last_entry_to_the_first() {
    let mut app = App::new(paths(&["./a.txt", "./b.txt", "./sub"]));
    app.next(text("world"));
    app.next(Probe::NotAFile);
    assert_eq!(app.selected_item(), 2);
    app.next(text("hello"));
    assert_eq!(app.selected_item(), 0);
    assert_eq!(app.content().as_str(), "hello");
}

#[test]
fn previous_wraps_from_the_first_entry_to_the_last() {
    let mut app = App::new(paths(&["./a.txt", "./b.txt", "./sub"]));
    app.previous(Probe::NotAFile);
    assert_eq!(app.selected_item(), 2);
    assert_eq!(app.content().as_str(), "Selected item is not a file");
}

#[test]
fn previous_moves_back_by_one() {
    let mut app = App::new(paths(&["./a.txt", "./b.txt", "./sub"]));
    app.next(text("world"));
    app.next(Probe::NotAFile);
    app.previous(text("world"));
    assert_eq!(app.selected_item(), 1);
    assert_eq!(app.content().as_str(), "world");
}

#[test]
fn a_single_entry_stays_selected() {
    let mut app = App::new(paths(&["./only"]));
    app.next(text("one"));
    assert_eq!(app.selected_item(), 0);
    assert_eq!(app.content().as_str(), "one");
    app.previous(text("two"));
    assert_eq!(app.selected_item(), 0);
    assert_eq!(app.content().as_str(), "two");
}

#[test]
fn selection_stays_in_range_over_many_moves() {
    let mut app = App::new(paths(&["./a", "./b", "./c", "./d", "./e"]));
    let moves = [true, true, false, true, true, true, true, false, false, false, false, false, false, true];
    let mut expected: usize = 0;
    for onward in moves {
        if onward {
            app.next(Probe::NotAFile);
            expected = (expected + 1) % 5;
        } else {
            app.previous(Probe::NotAFile);
            expected = (expected + 4) % 5;
        }
        assert!(app.selected_item() < app.items().len());
        assert_eq!(app.selected_item(), expected);
    }
}

#[test]
fn moves_on_and_as_many_back_restore_the_selection() {
    for start in 0..3usize {
        for n in 0..8usize {
            let mut app = App::new(paths(&["./a", "./b", "./c"]));
            for _ in 0..start {
                app.next(Probe::NotAFile);
            }
            assert_eq!(app.selected_item(), start);
            for _ in 0..n {
                app.next(text("on"));
            }
            assert_eq!(app.selected_item(), (start + n) % 3);
            for _ in 0..n {
                app.previous(text("back"));
            }
            assert_eq!(app.selected_item(), start);
        }
    }
}

#[test]
fn empty_listing_ignores_moves() {
    let mut app = App::new(Vec::new());
    app.next(text("never shown"));
    assert_eq!(app.selected_item(), 0);
    assert_eq!(app.content().as_str(), "This is the content of the selected item.");
    app.previous(Probe::NotAFile);
    assert_eq!(app.selected_item(), 0);
    assert_eq!(app.content().as_str(), "This is the content of the selected item.");
    assert_eq!(app.target(Command::Next), None);
    assert_eq!(app.target(Command::Previous), None);
    app.apply(Command::Next, text("never shown"));
    assert_eq!(app.content().as_str(), "This is the content of the selected item.");
    assert!(app.items().is_empty());
}

#[test]
fn file_text_is_shown_to_the_letter() {
    let mut app = App::new(paths(&["./a.txt", "./b.txt"]));
    let content = "line one\n  line two\t\u{e9}\u{4e16}\u{754c}\n\n";
    app.next(text(content));
    assert_eq!(app.content().as_str(), content);
    app.next(text(""));
    assert_eq!(app.content().as_str(), "");
}

#[test]
fn a_directory_shows_the_fixed_message() {
    let mut app = App::new(paths(&["./a.txt", "./sub"]));
    app.next(Probe::NotAFile);
    assert_eq!(app.content().as_str(), "Selected item is not a file");
}

#[test]
fn every_fault_shows_the_same_message() {
    let faults = [
        ReadFault::NotFound,
        ReadFault::PermissionDenied,
        ReadFault::InvalidEncoding,
        ReadFault::Other,
    ];
    for fault in faults {
        let mut app = App::new(paths(&["./a.txt", "./b.txt"]));
        app.next(Probe::Unreadable(fault));
        assert_eq!(app.content().as_str(), "Could not read file");
        app.previous(Probe::Unreadable(fault));
        assert_eq!(app.content().as_str(), "Could not read file");
        app.update_content(Probe::Unreadable(fault));
        assert_eq!(app.content().as_str(), "Could not read file");
        assert_eq!(Probe::Unreadable(fault).into_text(), "Could not read file");
    }
}

#[test]
fn into_text_gives_the_text_for_each_probe() {
    assert_eq!(Probe::NotAFile.into_text(), "Selected item is not a file");
    assert_eq!(text("hello").into_text(), "hello");
    assert_eq!(text("").into_text(), "");
}

#[test]
fn update_content_keeps_the_selection() {
    let mut app = App::new(paths(&["./a.txt", "./b.txt"]));
    app.update_content(text("hello"));
    assert_eq!(app.selected_item(), 0);
    assert_eq!(app.content().as_str(), "hello");
    app.next(text("world"));
    app.update_content(Probe::NotAFile);
    assert_eq!(app.selected_item(), 1);
    assert_eq!(app.content().as_str(), "Selected item is not a file");
}

#[test]
fn target_names_the_entry_that_a_move_selects() {
    let mut app = App::new(paths(&["./a.txt", "./b.txt", "./sub"]));
    assert_eq!(app.target(Command::Next), Some(1));
    assert_eq!(app.target(Command::Previous), Some(2));
    assert_eq!(app.target(Command::Quit), None);
    assert_eq!(app.target(Command::Stay), None);
    app.previous(Probe::NotAFile);
    assert_eq!(app.target(Command::Next), Some(0));
    assert_eq!(app.target(Command::Previous), Some(1));
}

#[test]
fn apply_carries_out_moves_only() {
    let mut app = App::new(paths(&["./a.txt", "./b.txt", "./sub"]));
    app.apply(Command::Next, text("world"));
    assert_eq!(app.selected_item(), 1);
    assert_eq!(app.content().as_str(), "world");
    app.apply(Command::Stay, text("ignored"));
    assert_eq!(app.selected_item(), 1);
    assert_eq!(app.content().as_str(), "world");
    app.apply(Command::Quit, text("ignored"));
    assert_eq!(app.selected_item(), 1);
    assert_eq!(app.content().as_str(), "world");
    app.apply(Command::Previous, text("hello"));
    assert_eq!(app.selected_item(), 0);
    assert_eq!(app.content().as_str(), "hello");
}

#[test]
fn rows_name_each_entry_and_set_the_selected_one_apart() {
    let plain = Style { foreground: None, bold: false };
    let highlighted = Style { foreground: Some(Color::Yellow), bold: true };
    let mut app = App::new(paths(&["./b.txt", "./sub", "./a.txt"]));
    let expected = vec![
        Row { name: "a.txt".to_string(), style: highlighted },
        Row { name: "b.txt".to_string(), style: plain },
        Row { name: "sub".to_string(), style: plain },
    ];
    assert_eq!(app.rows(), expected);
    app.next(text("world"));
    let expected = vec![
        Row { name: "a.txt".to_string(), style: plain },
        Row { name: "b.txt".to_string(), style: highlighted },
        Row { name: "sub".to_string(), style: plain },
    ];
    assert_eq!(app.rows(), expected);
}

#[test]
fn the_selected_row_is_bold_and_yellow() {
    assert_eq!(Style::for_row(true), Style { foreground: Some(Color::Yellow), bold: true });
    assert_eq!(Style::for_row(false), Style { foreground: None, bold: false });
}

#[test]
fn keys_are_bound_to_commands() {
    assert_eq!(Command::for_input(key('q')), Command::Quit);
    assert_eq!(Command::for_input(key('j')), Command::Next);
    assert_eq!(Command::for_input(key('k')), Command::Previous);
}

#[test]
fn other_input_is_bound_to_nothing() {
    for c in ['Q', 'J', 'K', 'a', 'h', 'l', ' ', '\n', '0', '\u{e9}'] {
        assert_eq!(Command::for_input(key(c)), Command::Stay);
    }
    assert_eq!(Command::for_input(Input::Key(Key::Other)), Command::Stay);
    assert_eq!(Command::for_input(Input::Other), Command::Stay);
}

#[test]
fn unbound_input_leaves_the_state_as_it_was() {
    let mut app = App::new(paths(&["./a.txt", "./b.txt", "./sub"]));
    let mut phase = Phase::Running;
    phase = press(&mut app, phase, key('j'));
    let inputs = [key('x'), key('Q'), key('\t'), Input::Key(Key::Other), Input::Other];
    for input in inputs {
        phase = press(&mut app, phase, input);
        assert_eq!(phase, Phase::Running);
        assert_eq!(app.selected_item(), 1);
        assert_eq!(app.content().as_str(), "world");
        assert_eq!(app.items(), &paths(&["./a.txt", "./b.txt", "./sub"]));
    }
}

#[test]
fn the_loop_ends_on_quit_and_stays_ended() {
    assert_eq!(Phase::Running.after(Command::Quit), Phase::Terminated);
    assert_eq!(Phase::Running.after(Command::Next), Phase::Running);
    assert_eq!(Phase::Running.after(Command::Previous), Phase::Running);
    assert_eq!(Phase::Running.after(Command::Stay), Phase::Running);
    for command in [Command::Quit, Command::Next, Command::Previous, Command::Stay] {
        assert_eq!(Phase::Terminated.after(command), Phase::Terminated);
    }
}

#[test]
fn a_session_from_start_to_quit() {
    let mut app = App::new(paths(&["./sub", "./a.txt", "./b.txt"]));
    let mut phase = Phase::Running;
    assert_eq!(app.items(), &paths(&["./a.txt", "./b.txt", "./sub"]));
    assert_eq!(app.selected_item(), 0);

    phase = press(&mut app, phase, key('j'));
    assert_eq!(phase, Phase::Running);
    assert_eq!(app.selected_item(), 1);
    assert_eq!(app.content().as_str(), "world");

    phase = press(&mut app, phase, key('j'));
    assert_eq!(phase, Phase::Running);
    assert_eq!(app.selected_item(), 2);
    assert_eq!(app.content().as_str(), "Selected item is not a file");

    phase = press(&mut app, phase, key('j'));
    assert_eq!(phase, Phase::Running);
    assert_eq!(app.selected_item(), 0);
    assert_eq!(app.content().as_str(), "hello");

    phase = press(&mut app, phase, key('q'));
    assert_eq!(phase, Phase::Terminated);
    assert_eq!(app.selected_item(), 0);
    assert_eq!(app.content().as_str(), "hello");
}
