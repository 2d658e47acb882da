use keyboard_types::KeyboardEvent;
use tooey::layout::caption_layout;
use tooey::objects::{colour_prompt, screen_cleaner, vertical_split};
use tooey::types::{Colour, ColourChar, LifecycleEvent, ObjectKind, Terminal, TerminalObject, TerminalUpdate, MAX_LAYERS};

fn snapshot<const W: usize, const H: usize>(t: &Terminal<W, H>) -> Vec<ColourChar> {
    let mut cells = Vec::new();
    for y in 0..H {
        for x in 0..W {
            cells.push(t.cell(x, y));
        }
    }
    cells
}

#[test]
fn prompt() {
    let mut terminal: Terminal<128, 128> = Terminal::new();
    let prompt = TerminalObject::prompt("Wassuhhh dude, how you doinggggggg???");
    terminal.insert_object(prompt, 1).ok();
    terminal.frame();
}

#[test]
fn new_terminal_is_blank() {
    let mut terminal: Terminal<5, 3> = Terminal::new();
    assert!(snapshot(&terminal).iter().all(|c| *c == ColourChar::Monochrome(' ')));
    terminal.frame();
    assert!(snapshot(&terminal).iter().all(|c| *c == ColourChar::Monochrome(' ')));
}

#[test]
fn layout_of_short_caption() {
    let b = caption_layout(64, 32, 7);
    assert_eq!((b.left, b.top, b.right, b.bottom, b.overflow), (28, 15, 36, 17, false));
}

#[test]
fn layout_of_long_caption() {
    let b = caption_layout(4, 2, 20);
    assert_eq!((b.left, b.top, b.right, b.bottom, b.overflow), (0, 0, 4, 2, true));
    let c = caption_layout(10, 10, 10);
    assert_eq!((c.left, c.top, c.right, c.bottom, c.overflow), (0, 4, 10, 7, false));
}

#[test]
fn layout_stays_in_grid() {
    for w in 1..9usize {
        for h in 1..9usize {
            for len in 0..200usize {
                let b = caption_layout(w, h, len);
                assert!(b.left < b.right && b.right <= w);
                assert!(b.top < b.bottom && b.bottom <= h);
            }
        }
    }
}

#[test]
fn fitting_caption_is_drawn_whole() {
    let mut terminal: Terminal<64, 32> = Terminal::new();
    terminal.insert_object(TerminalObject::prompt("Kachow!"), 1).ok();
    terminal.frame();
    let text: Vec<char> = "Kachow!".chars().collect();
    for y in 0..32 {
        for x in 0..64 {
            let expected = if y == 15 && (28..35).contains(&x) {
                ColourChar::Monochrome(text[x - 28])
            } else {
                ColourChar::Monochrome(' ')
            };
            assert_eq!(terminal.cell(x, y), expected, "cell {x},{y}");
        }
    }
}

#[test]
fn overflowing_caption_is_marked() {
    let mut terminal: Terminal<4, 2> = Terminal::new();
    terminal.insert_object(TerminalObject::prompt("abcdefghijklmnopqrst"), 0).ok();
    terminal.frame();
    let row0: Vec<ColourChar> = (0..4).map(|x| terminal.cell(x, 0)).collect();
    assert_eq!(row0, "abcd".chars().map(ColourChar::Monochrome).collect::<Vec<_>>());
    assert_eq!(terminal.cell(0, 1), ColourChar::Monochrome('e'));
    for x in 1..4 {
        assert_eq!(terminal.cell(x, 1), ColourChar::Monochrome('.'));
    }
}

#[test]
fn overflow_on_single_cell_grid() {
    let mut terminal: Terminal<1, 1> = Terminal::new();
    terminal.insert_object(TerminalObject::prompt("abc"), 0).ok();
    terminal.frame();
    assert_eq!(terminal.cell(0, 0), ColourChar::Monochrome('.'));
}

#[test]
fn insert_out_of_range_is_refused() {
    let mut terminal: Terminal<16, 8> = Terminal::new();
    terminal.insert_object(TerminalObject::prompt("hello"), 3).ok();
    terminal.frame();
    let before = snapshot(&terminal);
    let obj = screen_cleaner(&Colour::U8(7));
    assert_eq!(terminal.insert_object(obj.clone(), MAX_LAYERS), Err(obj.clone()));
    assert_eq!(terminal.insert_object(obj.clone(), 256), Err(obj));
    terminal.frame();
    assert_eq!(snapshot(&terminal), before);
    assert_eq!(terminal.insert_object(TerminalObject::empty(), MAX_LAYERS - 1), Ok(()));
}

#[test]
fn background_and_prompt() {
    let mut terminal: Terminal<64, 32> = Terminal::new();
    let bg = Colour::U8(128);
    terminal.insert_object(screen_cleaner(&bg), 0).ok();
    terminal.insert_object(TerminalObject::prompt("Kachow!"), 1).ok();
    terminal.frame();
    let text: Vec<char> = "Kachow!".chars().collect();
    for y in 0..32 {
        for x in 0..64 {
            let expected = if y == 15 && (28..35).contains(&x) {
                ColourChar::Monochrome(text[x - 28])
            } else {
                ColourChar::Colour(Colour::U8(0), bg, ' ')
            };
            assert_eq!(terminal.cell(x, y), expected);
        }
    }
}

#[test]
fn click_dismisses_prompt() {
    let mut terminal: Terminal<64, 32> = Terminal::new();
    let bg = Colour::Rgb(1, 2, 3);
    terminal.insert_object(screen_cleaner(&bg), 0).ok();
    terminal.insert_object(TerminalObject::prompt("Kachow!"), 1).ok();
    terminal.frame();
    assert_eq!(terminal.cell(28, 15), ColourChar::Monochrome('K'));
    terminal.update(TerminalUpdate::MouseClick(0, 0));
    terminal.frame();
    let cleared = snapshot(&terminal);
    assert!(cleared.iter().all(|c| *c == ColourChar::Colour(Colour::U8(0), bg, ' ')));
    terminal.update(TerminalUpdate::MouseClick(3, 4));
    terminal.frame();
    assert_eq!(snapshot(&terminal), cleared);
}

#[test]
fn key_press_dismisses_prompt() {
    let prompt = TerminalObject::prompt("x");
    assert_eq!(prompt.on_update(&TerminalUpdate::KeyboardEvent(KeyboardEvent::default())), LifecycleEvent::Death);
    assert_eq!(prompt.on_update(&TerminalUpdate::MouseClick(1, 1)), LifecycleEvent::Death);
    assert_eq!(prompt.on_update(&TerminalUpdate::Ping), LifecycleEvent::NoEvent);
    assert_eq!(prompt.on_update(&TerminalUpdate::ForceUpdate), LifecycleEvent::NoEvent);
    assert_eq!(prompt.on_update(&TerminalUpdate::Arbitrary("kill screen cleaner")), LifecycleEvent::NoEvent);
}

#[test]
fn screen_cleaner_dies_on_its_event_only() {
    let cleaner = screen_cleaner(&Colour::Default);
    assert_eq!(cleaner.on_update(&TerminalUpdate::Arbitrary("kill screen cleaner")), LifecycleEvent::Death);
    assert_eq!(cleaner.on_update(&TerminalUpdate::Arbitrary("kill screen")), LifecycleEvent::NoEvent);
    assert_eq!(cleaner.on_update(&TerminalUpdate::MouseClick(0, 0)), LifecycleEvent::NoEvent);
    assert_eq!(cleaner.on_update(&TerminalUpdate::KeyboardEvent(KeyboardEvent::default())), LifecycleEvent::NoEvent);
    let mut terminal: Terminal<3, 3> = Terminal::new();
    terminal.insert_object(cleaner, 0).ok();
    terminal.update(TerminalUpdate::Arbitrary("kill screen cleaner"));
    terminal.frame();
    assert!(snapshot(&terminal).iter().all(|c| *c == ColourChar::Monochrome(' ')));
}

#[test]
fn frame_twice_is_the_same() {
    let mut terminal: Terminal<20, 6> = Terminal::new();
    terminal.insert_object(screen_cleaner(&Colour::U8(4)), 0).ok();
    terminal.insert_object(TerminalObject::prompt("a caption that is long enough to wrap"), 5).ok();
    terminal.insert_object(colour_prompt(&(Colour::U8(1), Colour::U8(2), "top")), 9).ok();
    terminal.frame();
    let first = snapshot(&terminal);
    terminal.frame();
    assert_eq!(snapshot(&terminal), first);
}

#[test]
fn colour_prompt_overwrites_lower_layers() {
    let mut terminal: Terminal<8, 1> = Terminal::new();
    let fg = Colour::Rgb(255, 255, 255);
    let bg = Colour::Rgb(0, 128, 0);
    terminal.insert_object(TerminalObject::prompt("zz"), 1).ok();
    terminal.insert_object(colour_prompt(&(fg, bg, "ab")), 2).ok();
    terminal.frame();
    // width 8, length 2: columns 2..6 of row 0
    assert_eq!(terminal.cell(2, 0), ColourChar::Colour(fg, bg, 'a'));
    assert_eq!(terminal.cell(3, 0), ColourChar::Colour(fg, bg, 'b'));
    assert_eq!(terminal.cell(4, 0), ColourChar::Monochrome(' '));
}

#[test]
fn colour_prompt_marker_is_coloured() {
    let mut terminal: Terminal<3, 1> = Terminal::new();
    let fg = Colour::U8(9);
    let bg = Colour::Default;
    terminal.insert_object(colour_prompt(&(fg, bg, "abcdef")), 0).ok();
    terminal.frame();
    for x in 0..3 {
        assert_eq!(terminal.cell(x, 0), ColourChar::Colour(fg, bg, '.'));
    }
}

#[test]
fn constructors_hold_their_data() {
    assert_eq!(TerminalObject::empty().kind, ObjectKind::Empty);
    assert_eq!(TerminalObject::prompt("hé").kind, ObjectKind::Prompt(vec!['h', 'é']));
    assert_eq!(screen_cleaner(&Colour::U8(3)).kind, ObjectKind::ScreenCleaner(Colour::U8(3)));
    let mut terminal: Terminal<4, 4> = Terminal::new();
    assert_eq!(vertical_split::<4, 4, 2>(&mut terminal), TerminalObject::empty());
}

#[test]
fn char_conversions() {
    assert_eq!(char::from(ColourChar::Empty), ' ');
    assert_eq!(char::from(ColourChar::Monochrome('q')), 'q');
    assert_eq!(char::from(ColourChar::Colour(Colour::Default, Colour::U8(1), 'r')), 'r');
    assert_eq!(ColourChar::from('x'), ColourChar::Monochrome('x'));
    assert_eq!(Colour::default(), Colour::Default);
    assert_eq!(ColourChar::default(), ColourChar::Empty);
}

#[test]
fn escape_sequences() {
    assert_eq!(Colour::U8(128).foreground_escape(), "\x1b[38;5;128m");
    assert_eq!(Colour::U8(7).background_escape(), "\x1b[48;5;7m");
    assert_eq!(Colour::Rgb(255, 0, 12).background_escape(), "\x1b[48;2;255;0;12m");
    assert_eq!(Colour::Rgb(10, 99, 100).foreground_escape(), "\x1b[38;2;10;99;100m");
    assert_eq!(Colour::Default.foreground_escape(), "\x1b[49m");
    assert_eq!(Colour::Default.background_escape(), "\x1b[49m");
    assert_eq!(
        ColourChar::Colour(Colour::U8(1), Colour::U8(2), 'k').to_ansi_string(),
        "\x1b[48;5;2m\x1b[38;5;1mk\x1b[49m"
    );
    assert_eq!(ColourChar::Monochrome('a').to_ansi_string(), "a\x1b[49m");
    assert_eq!(ColourChar::Empty.to_ansi_string(), " ");
}
