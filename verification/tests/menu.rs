use wiki::interactive::{menu_text, KeyPress, Menu, MenuStep, MAX_VISIBLE};
use wiki::text::push_decimal;

fn press(m: &mut Menu, key: KeyPress) -> MenuStep {
    m.step(key)
}

#[test]
fn new_menu_starts_at_top() {
    let m = Menu::new(3);
    assert_eq!((m.selected(), m.offset(), m.visible(), m.count()), (0, 0, 3, 3));
    assert_eq!(m.shown_lines(), 4);
    let big = Menu::new(25);
    assert_eq!(big.visible(), MAX_VISIBLE);
    assert_eq!(big.shown_lines(), 11);
}

#[test]
fn moving_and_scrolling() {
    let mut m = Menu::new(12);
    assert!(matches!(press(&mut m, KeyPress::Up), MenuStep::Redraw));
    assert_eq!((m.selected(), m.offset()), (0, 0));
    for _ in 0..9 {
        press(&mut m, KeyPress::Down);
    }
    assert_eq!((m.selected(), m.offset()), (9, 0));
    press(&mut m, KeyPress::Char { ch: 'j', control: false });
    assert_eq!((m.selected(), m.offset()), (10, 1));
    press(&mut m, KeyPress::Down);
    press(&mut m, KeyPress::Down);
    assert_eq!((m.selected(), m.offset()), (11, 2));
    for _ in 0..11 {
        press(&mut m, KeyPress::Char { ch: 'k', control: false });
    }
    assert_eq!((m.selected(), m.offset()), (0, 0));
}

#[test]
fn down_then_up_returns() {
    let mut m = Menu::new(5);
    press(&mut m, KeyPress::Down);
    press(&mut m, KeyPress::Down);
    let before = m.selected();
    press(&mut m, KeyPress::Down);
    press(&mut m, KeyPress::Up);
    assert_eq!(m.selected(), before);
}

#[test]
fn choosing_and_quitting() {
    let mut m = Menu::new(4);
    press(&mut m, KeyPress::Down);
    assert!(matches!(press(&mut m, KeyPress::Enter), MenuStep::Choose(1)));
    assert!(matches!(press(&mut m, KeyPress::Esc), MenuStep::Quit));
    assert!(matches!(press(&mut m, KeyPress::Char { ch: 'q', control: false }), MenuStep::Quit));
    assert!(matches!(press(&mut m, KeyPress::Char { ch: 'c', control: true }), MenuStep::Quit));
    assert!(matches!(press(&mut m, KeyPress::Char { ch: 'c', control: false }), MenuStep::Ignore));
    assert!(matches!(press(&mut m, KeyPress::Other), MenuStep::Ignore));
    assert_eq!(m.selected(), 1);
}

#[test]
fn window_text_short_list() {
    let items = vec!["Mercury (planet)".to_string(), "Mercury (element)".to_string()];
    let mut m = Menu::new(2);
    press(&mut m, KeyPress::Down);
    let text = menu_text(&items, &m, "<b>", "<d>", "<r>");
    assert_eq!(
        text,
        "\r    <d>Mercury (planet)<r>\r\n\r  <b>▸<r> Mercury (element)\r\n\r<d>↑/↓ select · Enter open · Esc quit<r>\r"
    );
}

#[test]
fn window_text_long_list_has_counter() {
    let items: Vec<String> = (0..12).map(|i| format!("item{i}")).collect();
    let mut m = Menu::new(12);
    for _ in 0..11 {
        press(&mut m, KeyPress::Down);
    }
    let text = menu_text(&items, &m, "", "", "");
    assert!(text.starts_with("\r    item2\r\n"));
    assert!(text.contains("\r  ▸ item11\r\n"));
    assert!(!text.contains("item1\r"));
    assert!(text.ends_with("↑/↓ select · Enter open · Esc quit [12/12]\r"));
}

#[test]
fn decimal_digits() {
    let mut s = String::from("n=");
    push_decimal(&mut s, 0);
    push_decimal(&mut s, 7);
    push_decimal(&mut s, 1209);
    assert_eq!(s, "n=071209");
}
