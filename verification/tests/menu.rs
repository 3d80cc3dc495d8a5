use std::sync::{Arc, RwLock};
use wireframe::color::Color;
use wireframe::figure::Figure;
use wireframe::fixed::{Fixed, SCALE};
use wireframe::menu::{
    handle_key, key_effect, read_lock, write_lock, Key, Menu, LAST_OPTION, MENU_MODE,
};
use wireframe::scene::{draw_figures, option_marker, write_options};
use wireframe::vector::Vector;
use wireframe::window::{WinElem, Window, Writemodes, PRINT_CHAR};

fn fx(v: f64) -> Fixed {
    Fixed::from_raw((v * SCALE as f64).round() as i64)
}

fn vec3(x: f64, y: f64, z: f64) -> Vector {
    Vector::new(fx(x), fx(y), fx(z))
}

fn snapshot(win: &Window) -> Vec<WinElem> {
    let mut all = Vec::new();
    for row in 0..win.get_height() {
        for col in 0..win.get_width() {
            all.push(win.get(row, col).unwrap());
        }
    }
    all
}

#[test]
fn menu_starts_on_the_first_option() {
    let m = Menu::new();
    assert_eq!(m, Menu { mode: 0, selected: 0 });
    assert_eq!(MENU_MODE, 0);
    assert_eq!(LAST_OPTION, 4);
    assert!(m.running());
}

#[test]
fn down_and_up_move_the_selection_and_stop_at_the_ends() {
    let mut m = Menu::new();
    m = m.on_key(Key::Up);
    assert_eq!(m.selected, 0);
    for want in [1, 2, 3, 4, 4, 4] {
        m = m.on_key(Key::Down);
        assert_eq!(m, Menu { mode: 0, selected: want });
    }
    for want in [3, 2, 1, 0, 0] {
        m = m.on_key(Key::Up);
        assert_eq!(m, Menu { mode: 0, selected: want });
    }
}

#[test]
fn enter_opens_the_selected_entry_and_enter_leads_back() {
    for selected in 0..=4 {
        let m = Menu { mode: 0, selected };
        let opened = m.on_key(Key::Enter);
        assert_eq!(opened, Menu { mode: selected + 1, selected });
        assert_eq!(opened.running(), selected < 4);
        assert_eq!(m.quits(Key::Enter), selected == 4);
        if selected < 4 {
            assert_eq!(opened.on_key(Key::Up), opened);
            assert_eq!(opened.on_key(Key::Down), opened);
            assert_eq!(opened.on_key(Key::Other), opened);
            assert!(!opened.quits(Key::Enter));
            assert_eq!(opened.on_key(Key::Enter), m);
        }
    }
}

#[test]
fn other_keys_do_nothing() {
    let m = Menu { mode: 0, selected: 2 };
    assert_eq!(m.on_key(Key::Other), m);
    assert!(!m.quits(Key::Other));
    let last = Menu { mode: 0, selected: 4 };
    assert!(!last.quits(Key::Up));
    assert!(!last.quits(Key::Down));
    assert!(!last.quits(Key::Other));
}

#[test]
fn locks_hold_what_was_written() {
    let lock = Arc::new(RwLock::new(0usize));
    assert_eq!(read_lock(&lock), 0);
    write_lock(&lock, 3);
    assert_eq!(read_lock(&lock), 3);
    let other = Arc::clone(&lock);
    write_lock(&other, 5);
    assert_eq!(read_lock(&lock), 5);
}

#[test]
fn handle_key_moves_the_shared_state() {
    let mode = Arc::new(RwLock::new(0usize));
    let selected = Arc::new(RwLock::new(0usize));
    assert!(!handle_key(&mode, &selected, Key::Down));
    assert!(!handle_key(&mode, &selected, Key::Down));
    assert_eq!((read_lock(&mode), read_lock(&selected)), (0, 2));
    assert!(!handle_key(&mode, &selected, Key::Enter));
    assert_eq!((read_lock(&mode), read_lock(&selected)), (3, 2));
    assert!(!handle_key(&mode, &selected, Key::Down));
    assert_eq!((read_lock(&mode), read_lock(&selected)), (3, 2));
    assert!(!handle_key(&mode, &selected, Key::Enter));
    assert_eq!((read_lock(&mode), read_lock(&selected)), (0, 2));
    assert!(!handle_key(&mode, &selected, Key::Down));
    assert!(!handle_key(&mode, &selected, Key::Down));
    assert!(!handle_key(&mode, &selected, Key::Other));
    assert!(handle_key(&mode, &selected, Key::Enter));
    assert_eq!((read_lock(&mode), read_lock(&selected)), (5, 4));
}

#[test]
fn handle_key_leaves_an_impossible_state_alone() {
    let mode = Arc::new(RwLock::new(0usize));
    let selected = Arc::new(RwLock::new(usize::MAX));
    assert!(!handle_key(&mode, &selected, Key::Enter));
    assert!(!handle_key(&mode, &selected, Key::Down));
    assert_eq!((read_lock(&mode), read_lock(&selected)), (0, usize::MAX));
    let mode = Arc::new(RwLock::new(17usize));
    let selected = Arc::new(RwLock::new(1usize));
    assert!(!handle_key(&mode, &selected, Key::Enter));
    assert_eq!((read_lock(&mode), read_lock(&selected)), (17, 1));
}

#[test]
fn key_effect_is_the_step_and_whether_it_ends() {
    let m = Menu { mode: 0, selected: 3 };
    assert_eq!(key_effect(m, Key::Down), (Menu { mode: 0, selected: 4 }, false));
    assert_eq!(key_effect(m, Key::Up), (Menu { mode: 0, selected: 2 }, false));
    assert_eq!(key_effect(m, Key::Enter), (Menu { mode: 4, selected: 3 }, false));
    assert_eq!(key_effect(m, Key::Other), (m, false));
    let last = Menu { mode: 0, selected: 4 };
    assert_eq!(key_effect(last, Key::Enter), (Menu { mode: 5, selected: 4 }, true));
    assert_eq!(key_effect(last, Key::Down), (last, false));
    let shown = Menu { mode: 2, selected: 1 };
    assert_eq!(key_effect(shown, Key::Enter), (Menu { mode: 0, selected: 1 }, false));
    assert_eq!(key_effect(shown, Key::Down), (shown, false));
}

#[test]
fn key_effect_leaves_an_impossible_state_alone() {
    for key in [Key::Enter, Key::Up, Key::Down, Key::Other] {
        let odd = Menu { mode: 0, selected: 5 };
        assert_eq!(key_effect(odd, key), (odd, false));
        let far = Menu { mode: 6, selected: 0 };
        assert_eq!(key_effect(far, key), (far, false));
        let top = Menu { mode: usize::MAX, selected: usize::MAX };
        assert_eq!(key_effect(top, key), (top, false));
    }
}

#[test]
fn draw_figures_draws_each_in_turn() {
    let figs = vec![
        Figure::cube(fx(6.0), vec3(0.0, 0.0, 60.0), Color::Red),
        Figure::cube(fx(6.0), vec3(3.0, 0.0, 60.0), Color::Blue),
        Figure::pyramid(fx(4.0), vec3(-6.0, 2.0, 60.0), Color::Green),
    ];
    let mut together = Window::get_new(21, 31);
    draw_figures(&mut together, &figs);
    let mut one_by_one = Window::get_new(21, 31);
    for fig in figs.iter() {
        one_by_one.draw(fig);
    }
    assert_eq!(snapshot(&together), snapshot(&one_by_one));
    // centre cell (10, 15): the first cube spans columns 12 to 18, the second 15 to 21,
    // both rows 7 to 13; where their outlines cross, the later one shows
    assert_eq!(together.get(10, 12), Some(WinElem { data: PRINT_CHAR, color: Color::Red }));
    assert_eq!(together.get(10, 18), Some(WinElem { data: PRINT_CHAR, color: Color::Red }));
    assert_eq!(together.get(10, 15), Some(WinElem { data: PRINT_CHAR, color: Color::Blue }));
    assert_eq!(together.get(10, 21), Some(WinElem { data: PRINT_CHAR, color: Color::Blue }));
    assert_eq!(together.get(7, 14), Some(WinElem { data: PRINT_CHAR, color: Color::Red }));
    assert_eq!(together.get(7, 18), Some(WinElem { data: PRINT_CHAR, color: Color::Blue }));
    assert_eq!(together.get(13, 16), Some(WinElem { data: PRINT_CHAR, color: Color::Blue }));
    assert!(snapshot(&together).iter().any(|c| c.color == Color::Green));
}

#[test]
fn draw_figures_of_nothing_changes_nothing() {
    let mut win = Window::get_new(4, 4);
    win.fill('.');
    let before = snapshot(&win);
    draw_figures(&mut win, &[]);
    assert_eq!(snapshot(&win), before);
}

#[test]
fn write_options_puts_one_option_every_tenth_of_the_height() {
    let options = ["Things", "Cube", "Pyramid", "Ruby", "Exit"];
    let mut win = Window::get_new(40, 80);
    write_options(&mut win, &options);
    let mut by_hand = Window::get_new(40, 80);
    for (i, text) in options.iter().enumerate() {
        let ph = Fixed::from_raw(125_000_000_000 + 250_000_000_000 * i as i64);
        by_hand.write(text, ph, fx(0.5), Writemodes::Centered, Color::Rgb(255, 255, 255));
    }
    assert_eq!(snapshot(&win), snapshot(&by_hand));
    // rows 2, 6, 10, 14, 18; centre 40
    let white = Color::Rgb(255, 255, 255);
    assert_eq!(win.get(2, 38), Some(WinElem { data: 'T', color: white }));
    assert_eq!(win.get(2, 43), Some(WinElem { data: 's', color: white }));
    assert_eq!(win.get(6, 39), Some(WinElem { data: 'C', color: white }));
    assert_eq!(win.get(10, 38), Some(WinElem { data: 'P', color: white }));
    assert_eq!(win.get(14, 39), Some(WinElem { data: 'R', color: white }));
    assert_eq!(win.get(18, 39), Some(WinElem { data: 'E', color: white }));
    assert_eq!(win.get(18, 42), Some(WinElem { data: 't', color: white }));
    let written = snapshot(&win).iter().filter(|c| c.data != ' ').count();
    assert_eq!(written, 6 + 4 + 7 + 4 + 4);
}

#[test]
fn write_options_of_nothing_changes_nothing() {
    let mut win = Window::get_new(4, 4);
    win.fill('.');
    let before = snapshot(&win);
    write_options(&mut win, &[]);
    assert_eq!(snapshot(&win), before);
}

#[test]
fn option_marker_frames_the_selected_option() {
    let marker = option_marker(40, 2);
    assert_eq!(marker.lines().len(), 4);
    assert_eq!(marker.color(), Color::White);
    // 40 · (0.05 + 2 · 0.1) − 40 / 2 = −10
    assert_eq!(marker.position(), vec3(0.0, -10.0, 0.0));
    assert_eq!(marker.lines()[0].begin, vec3(10.0, 1.5, 0.0));
    assert_eq!(marker.lines()[2].begin, vec3(-10.0, -1.5, 0.0));

    let options = ["Things", "Cube", "Pyramid", "Ruby", "Exit"];
    let mut win = Window::get_new(40, 80);
    win.draw(&marker);
    write_options(&mut win, &options);
    // the option stands on row 10 of 40; the frame reaches 1.5 rows to either
    // side of it, from −11.5 to −8.5 about the centre row 20: rows 8 and 11
    assert_eq!(win.get(10, 38).unwrap().data, 'P');
    for col in 30..=50 {
        assert_eq!(win.get(8, col).unwrap().data, PRINT_CHAR);
        assert_eq!(win.get(11, col).unwrap().data, PRINT_CHAR);
    }
    for row in 8..=11 {
        assert_eq!(win.get(row, 30).unwrap().data, PRINT_CHAR);
        assert_eq!(win.get(row, 50).unwrap().data, PRINT_CHAR);
    }
    assert_eq!(win.get(10, 31).unwrap().data, ' ');
    assert_eq!(win.get(9, 35).unwrap().data, ' ');
    assert_eq!(win.get(7, 35).unwrap().data, ' ');
    assert_eq!(win.get(12, 35).unwrap().data, ' ');
}

#[test]
fn option_marker_follows_the_selection() {
    assert_eq!(option_marker(40, 0).position(), vec3(0.0, -18.0, 0.0));
    assert_eq!(option_marker(40, 4).position(), vec3(0.0, -2.0, 0.0));
    // 23 · 0.15 − 11.5 = −8.05
    assert_eq!(option_marker(23, 1).position(), vec3(0.0, -8.05, 0.0));
}
