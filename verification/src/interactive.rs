//! The choice of one entry from a list on the terminal: a cursor that the
//! arrow keys move through a window of at most ten rows, and the text that
//! shows the window.
use vstd::prelude::*;

use crate::text::{decimal, push_decimal};

verus! {

/// Most rows that are shown at once.
pub const MAX_VISIBLE: usize = 10;

/// A key that was pressed.
pub enum KeyPress {
    Up,
    Down,
    Enter,
    Esc,
    /// A character key, with whether Control was held.
    Char { ch: char, control: bool },
    /// Any other key.
    Other,
}

/// What the list does after a key.
pub enum MenuStep {
    /// The cursor may have moved: show the window again.
    Redraw,
    /// Nothing to do; wait for the next key.
    Ignore,
    /// The entry with this index was chosen.
    Choose(usize),
    /// The choice was abandoned.
    Quit,
}

/// The cursor over a list of `count` entries, and the window of rows shown.
pub struct Menu {
    count: usize,
    visible: usize,
    selected: usize,
    offset: usize,
}

/// The state of a list as numbers: its length, the height of its window, the
/// entry under the cursor and the first entry shown.
pub struct MenuView {
    pub count: nat,
    pub visible: nat,
    pub selected: nat,
    pub offset: nat,
}

impl View for Menu {
    type V = MenuView;

    closed spec fn view(&self) -> MenuView {
        MenuView {
            count: self.count as nat,
            visible: self.visible as nat,
            selected: self.selected as nat,
            offset: self.offset as nat,
        }
    }
}

/// A list is well formed when it is not empty, its window is as high as the
/// list up to ten rows, and the cursor lies inside the window, which lies
/// inside the list.
pub open spec fn menu_wf(m: MenuView) -> bool {
    &&& m.count > 0
    &&& m.visible == if m.count < 10 {
        m.count
    } else {
        10
    }
    &&& m.offset <= m.selected < m.offset + m.visible
    &&& m.offset + m.visible <= m.count
}

/// Whether the key moves the cursor up (`Up` or `k`).
pub open spec fn moves_up(key: KeyPress) -> bool {
    key is Up || (key matches KeyPress::Char { ch, .. } && ch == 'k')
}

/// Whether the key moves the cursor down (`Down` or `j`).
pub open spec fn moves_down(key: KeyPress) -> bool {
    key is Down || (key matches KeyPress::Char { ch, .. } && ch == 'j')
}

/// Whether the key abandons the choice (`Esc`, `q` or Control-C).
pub open spec fn quits(key: KeyPress) -> bool {
    key is Esc || (key matches KeyPress::Char { ch, control } && (ch == 'q' || (ch == 'c'
        && control)))
}

/// The list after a key: up moves the cursor one entry up unless it is on the
/// first, scrolling the window to keep the cursor in view; down likewise
/// towards the last entry; every other key leaves the list as it is.
pub open spec fn menu_after(m: MenuView, key: KeyPress) -> MenuView {
    if moves_up(key) {
        if m.selected > 0 {
            let sel = (m.selected - 1) as nat;
            MenuView {
                selected: sel,
                offset: if sel < m.offset {
                    sel
                } else {
                    m.offset
                },
                ..m
            }
        } else {
            m
        }
    } else if moves_down(key) {
        if m.selected + 1 < m.count {
            let sel = m.selected + 1;
            MenuView {
                selected: sel,
                offset: if sel >= m.offset + m.visible {
                    (sel + 1 - m.visible) as nat
                } else {
                    m.offset
                },
                ..m
            }
        } else {
            m
        }
    } else {
        m
    }
}

/// What follows a key: a redraw after up or down, the entry under the cursor
/// for `Enter`, the end for a quitting key, nothing otherwise.
pub open spec fn step_of(m: MenuView, key: KeyPress) -> MenuStep {
    if moves_up(key) || moves_down(key) {
        MenuStep::Redraw
    } else if key is Enter {
        MenuStep::Choose(m.selected as usize)
    } else if quits(key) {
        MenuStep::Quit
    } else {
        MenuStep::Ignore
    }
}

/// Every key keeps a well-formed list well formed: the cursor stays inside
/// the window and the window inside the list.
pub proof fn law_keys_keep_menu_wf(m: MenuView, key: KeyPress)
    requires
        menu_wf(m),
    ensures
        menu_wf(menu_after(m, key)),
        menu_after(m, key).count == m.count,
        menu_after(m, key).visible == m.visible,
{
}

/// Down followed by up returns the cursor to where it was, unless the cursor
/// was on the last entry; up followed by down likewise, unless it was on the
/// first.
pub proof fn law_down_then_up_returns(m: MenuView)
    requires
        menu_wf(m),
    ensures
        m.selected + 1 < m.count ==> menu_after(menu_after(m, KeyPress::Down), KeyPress::Up).selected
            == m.selected,
        m.selected > 0 ==> menu_after(menu_after(m, KeyPress::Up), KeyPress::Down).selected
            == m.selected,
{
}

/// A key that neither moves, chooses nor quits changes nothing.
pub proof fn law_other_keys_change_nothing(m: MenuView)
    ensures
        menu_after(m, KeyPress::Other) == m,
        step_of(m, KeyPress::Other) is Ignore,
{
}

impl Menu {
    /// Every list is well formed.
    #[verifier::type_invariant]
    spec fn well_formed(self) -> bool {
        menu_wf(self@)
    }

    /// A list of `count` entries with the cursor on the first.
    pub fn new(count: usize) -> (m: Menu)
        requires
            count > 0,
        ensures
            menu_wf(m@),
            m@.count == count,
            m@.selected == 0,
            m@.offset == 0,
    {
        let visible = if count < MAX_VISIBLE {
            count
        } else {
            MAX_VISIBLE
        };
        Menu { count, visible, selected: 0, offset: 0 }
    }

    /// Index of the entry under the cursor.
    pub fn selected(&self) -> (i: usize)
        ensures
            i == self@.selected,
            menu_wf(self@),
    {
        proof {
            use_type_invariant(self);
        }
        self.selected
    }

    /// Index of the first entry shown.
    pub fn offset(&self) -> (i: usize)
        ensures
            i == self@.offset,
            menu_wf(self@),
    {
        proof {
            use_type_invariant(self);
        }
        self.offset
    }

    /// Height of the window.
    pub fn visible(&self) -> (n: usize)
        ensures
            n == self@.visible,
            menu_wf(self@),
    {
        proof {
            use_type_invariant(self);
        }
        self.visible
    }

    /// Number of entries.
    pub fn count(&self) -> (n: usize)
        ensures
            n == self@.count,
            menu_wf(self@),
    {
        proof {
            use_type_invariant(self);
        }
        self.count
    }

    /// Lines that the shown window takes, its footer line included.
    pub fn shown_lines(&self) -> (n: u16)
        ensures
            menu_wf(self@),
            n == self@.visible + 1,
    {
        proof {
            use_type_invariant(self);
        }
        (self.visible + 1) as u16
    }

    /// Applies a key to the list.
    pub fn step(&mut self, key: KeyPress) -> (s: MenuStep)
        ensures
            menu_wf(old(self)@),
            menu_wf(final(self)@),
            final(self)@ == menu_after(old(self)@, key),
            s == step_of(old(self)@, key),
    {
        proof {
            use_type_invariant(&*self);
        }
        let up = match key {
            KeyPress::Up => true,
            KeyPress::Char { ch, control: _ } => ch == 'k',
            _ => false,
        };
        let down = match key {
            KeyPress::Down => true,
            KeyPress::Char { ch, control: _ } => ch == 'j',
            _ => false,
        };
        let quit = match key {
            KeyPress::Esc => true,
            KeyPress::Char { ch, control } => ch == 'q' || (ch == 'c' && control),
            _ => false,
        };
        if up {
            if self.selected > 0 {
                let selected = self.selected - 1;
                let offset = if selected < self.offset {
                    selected
                } else {
                    self.offset
                };
                *self = Menu { count: self.count, visible: self.visible, selected, offset };
            }
            MenuStep::Redraw
        } else if down {
            if self.selected + 1 < self.count {
                let selected = self.selected + 1;
                let offset = if selected >= self.offset + self.visible {
                    selected + 1 - self.visible
                } else {
                    self.offset
                };
                *self = Menu { count: self.count, visible: self.visible, selected, offset };
            }
            MenuStep::Redraw
        } else if matches!(key, KeyPress::Enter) {
            MenuStep::Choose(self.selected)
        } else if quit {
            MenuStep::Quit
        } else {
            MenuStep::Ignore
        }
    }
}

/// One row of the window: the entry under the cursor with a marker, the
/// others dimmed.
pub open spec fn menu_row(
    item: Seq<char>,
    chosen: bool,
    bullet: Seq<char>,
    dim: Seq<char>,
    reset: Seq<char>,
) -> Seq<char> {
    if chosen {
        "\r  "@ + bullet + "▸"@ + reset + " "@ + item + "\r\n"@
    } else {
        "\r    "@ + dim + item + reset + "\r\n"@
    }
}

/// The rows of the entries `from` up to (not including) `to`.
pub open spec fn menu_rows(
    items: Seq<Seq<char>>,
    selected: nat,
    from: int,
    to: int,
    bullet: Seq<char>,
    dim: Seq<char>,
    reset: Seq<char>,
) -> Seq<char>
    decreases to - from,
{
    if to <= from {
        seq![]
    } else {
        menu_rows(items, selected, from, to - 1, bullet, dim, reset) + menu_row(
            items[to - 1],
            to - 1 == selected,
            bullet,
            dim,
            reset,
        )
    }
}

/// The window as shown: the rows of the visible entries, then a line with the
/// keys and, for lists longer than the window can ever be, the position
/// `[n/count]` of the cursor.
pub open spec fn menu_layout(
    items: Seq<Seq<char>>,
    m: MenuView,
    bullet: Seq<char>,
    dim: Seq<char>,
    reset: Seq<char>,
) -> Seq<char> {
    let end: int = if m.offset + m.visible < items.len() {
        (m.offset + m.visible) as int
    } else {
        items.len() as int
    };
    let counter = if items.len() > 10 {
        " ["@ + decimal(m.selected + 1) + "/"@ + decimal(items.len()) + "]"@
    } else {
        seq![]
    };
    menu_rows(items, m.selected, m.offset as int, end, bullet, dim, reset) + "\r"@ + dim
        + "↑/↓ select · Enter open · Esc quit"@ + counter + reset + "\r"@
}

/// The text that shows the window of the list over `items`.
pub fn menu_text(items: &Vec<String>, m: &Menu, bullet: &str, dim: &str, reset: &str) -> (text:
    String)
    requires
        m@.count == items@.len(),
    ensures
        text@ == menu_layout(items@.map_values(|s: String| s@), m@, bullet@, dim@, reset@),
{
    proof {
        use_type_invariant(m);
    }
    let ghost iv = items@.map_values(|s: String| s@);
    let offset = m.offset();
    let end = if offset + m.visible() < items.len() {
        offset + m.visible()
    } else {
        items.len()
    };
    let selected = m.selected();
    let mut text = String::new();
    let mut i = offset;
    while i < end
        invariant
            offset <= i <= end <= items@.len(),
            iv == items@.map_values(|s: String| s@),
            text@ == menu_rows(iv, selected as nat, offset as int, i as int, bullet@, dim@, reset@),
        decreases end - i,
    {
        assert(items[i as int]@ == iv[i as int]);
        if i == selected {
            text.append("\r  ");
            text.append(bullet);
            text.append("▸");
            text.append(reset);
            text.append(" ");
            text.append(items[i].as_str());
            text.append("\r\n");
        } else {
            text.append("\r    ");
            text.append(dim);
            text.append(items[i].as_str());
            text.append(reset);
            text.append("\r\n");
        }
        i = i + 1;
    }
    text.append("\r");
    text.append(dim);
    text.append("↑/↓ select · Enter open · Esc quit");
    if items.len() > MAX_VISIBLE {
        text.append(" [");
        push_decimal(&mut text, (selected + 1) as u128);
        text.append("/");
        push_decimal(&mut text, items.len() as u128);
        text.append("]");
    }
    text.append(reset);
    text.append("\r");
    text
}

} // verus!
