//! Selection, scrolling and pane visibility of the file browser.
use vstd::prelude::*;
use crate::fs::{lower_of, lowercase};
use crate::icons::{extension_of, get_extension};
use crate::text::same_text;

verus! {

/// The browser's view state.
pub struct Ui {
    /// Index of the selected entry.
    pub selected_index: usize,
    /// Index of the first entry shown.
    pub scroll_offset: usize,
    /// Whether the context menu is open.
    pub show_context_menu: bool,
    /// Column and row where the context menu opens.
    pub context_menu_pos: (u16, u16),
    /// Highlighted context menu item.
    pub context_menu_selected: usize,
    /// Whether the bookmarks pane is shown.
    pub show_sidebar: bool,
    /// Whether the preview pane is shown.
    pub show_preview: bool,
}

/// The emoji shown beside a file with the lower-cased extension `e`.
pub open spec fn icon_for_extension(e: Seq<char>) -> Seq<char> {
    if e == "rs"@ {
        "🦀"@
    } else if e == "py"@ {
        "🐍"@
    } else if e == "js"@ || e == "ts"@ {
        "📜"@
    } else if e == "tsx"@ || e == "jsx"@ {
        "⚛️"@
    } else if e == "md"@ {
        "📝"@
    } else if e == "toml"@ || e == "yaml"@ || e == "yml"@ || e == "json"@ {
        "⚙️"@
    } else if e == "png"@ || e == "jpg"@ || e == "jpeg"@ || e == "gif"@ || e == "svg"@ || e == "webp"@ {
        "🖼️"@
    } else if e == "mp4"@ || e == "mov"@ || e == "avi"@ || e == "mkv"@ {
        "🎬"@
    } else if e == "mp3"@ || e == "wav"@ || e == "flac"@ || e == "ogg"@ {
        "🎵"@
    } else if e == "zip"@ || e == "tar"@ || e == "gz"@ || e == "rar"@ || e == "7z"@ {
        "📦"@
    } else if e == "pdf"@ {
        "📕"@
    } else if e == "doc"@ || e == "docx"@ {
        "📘"@
    } else if e == "xls"@ || e == "xlsx"@ {
        "📗"@
    } else if e == "ppt"@ || e == "pptx"@ {
        "📙"@
    } else if e == "html"@ || e == "css"@ {
        "🌐"@
    } else if e == "sh"@ || e == "bash"@ || e == "zsh"@ {
        "🖥️"@
    } else if e == "lock"@ {
        "🔒"@
    } else if e == "gitignore"@ || e == "git"@ {
        "📋"@
    } else if e == "dockerfile"@ || e == "docker"@ {
        "🐳"@
    } else if e == "log"@ {
        "📃"@
    } else {
        "📄"@
    }
}

/// A key press, as far as the browser tells keys apart.
#[derive(Debug, Clone, Copy, PartialEq, Eq, Structural)]
pub enum Key {
    Up,
    Down,
    Enter,
    Esc,
    Backspace,
    Home,
    End,
    Char(char),
    F(u8),
    Other,
}

/// A mouse event, as far as the browser tells them apart.
#[derive(Debug, Clone, Copy, PartialEq, Eq, Structural)]
pub enum Mouse {
    LeftDown { column: u16, row: u16 },
    RightDown { column: u16, row: u16 },
    ScrollUp,
    ScrollDown,
    Other,
}

/// What the caller does after a key press.
#[derive(Debug, Clone, Copy, PartialEq, Eq, Structural)]
pub enum Action {
    Stay,
    Quit,
    /// Enter the directory that was selected before the key.
    EnterSelected,
    GoUp,
}

/// The last item of the context menu.
pub const LAST_MENU_ITEM: usize = 5;

/// Selection after moving by `delta` within `total` entries.
pub open spec fn moved(index: usize, delta: int, total: usize) -> usize {
    if 0 <= index + delta < total { (index + delta) as usize } else { index }
}

/// The state after a key press, and the action to take: in an open context
/// menu, arrows move its highlight and Esc or Enter close it; otherwise q or Esc
/// quit, arrows (or k, j) move the selection, F1 and F2 toggle the panes, Enter
/// on a directory opens it, Backspace goes up, Home and End jump to the ends.
pub open spec fn after_key(u: Ui, key: Key, total: usize, selected_is_dir: bool) -> (Ui, Action) {
    if u.show_context_menu {
        match key {
            Key::Esc | Key::Enter => (Ui { show_context_menu: false, ..u }, Action::Stay),
            Key::Up => (Ui { context_menu_selected: if u.context_menu_selected > 0 { (u.context_menu_selected - 1) as usize } else { 0 }, ..u }, Action::Stay),
            Key::Down => (Ui { context_menu_selected: if u.context_menu_selected < LAST_MENU_ITEM { (u.context_menu_selected + 1) as usize } else { u.context_menu_selected }, ..u }, Action::Stay),
            _ => (u, Action::Stay),
        }
    } else {
        match key {
            Key::Char('q') | Key::Esc => (u, Action::Quit),
            Key::Up | Key::Char('k') => (Ui { selected_index: moved(u.selected_index, -1, total), ..u }, Action::Stay),
            Key::Down | Key::Char('j') => (Ui { selected_index: moved(u.selected_index, 1, total), ..u }, Action::Stay),
            Key::F(1) => (Ui { show_sidebar: !u.show_sidebar, ..u }, Action::Stay),
            Key::F(2) => (Ui { show_preview: !u.show_preview, ..u }, Action::Stay),
            Key::Enter => if selected_is_dir { (Ui { selected_index: 0, ..u }, Action::EnterSelected) } else { (u, Action::Stay) },
            Key::Backspace => (Ui { selected_index: 0, ..u }, Action::GoUp),
            Key::Home => (Ui { selected_index: 0, ..u }, Action::Stay),
            Key::End => (Ui { selected_index: if total > 0 { (total - 1) as usize } else { 0 }, ..u }, Action::Stay),
            _ => (u, Action::Stay),
        }
    }
}

/// The state after a mouse event: a left click selects the entry under it, a
/// right click opens the context menu there, the wheel scrolls by three.
pub open spec fn after_mouse(u: Ui, m: Mouse) -> Ui {
    match m {
        Mouse::LeftDown { column, row } =>
            if row >= FIRST_ITEM_ROW && row - FIRST_ITEM_ROW + u.scroll_offset <= usize::MAX {
                Ui { selected_index: (row - FIRST_ITEM_ROW + u.scroll_offset) as usize, ..u }
            } else {
                u
            },
        Mouse::RightDown { column, row } => Ui { show_context_menu: true, context_menu_pos: (column, row), ..u },
        Mouse::ScrollUp => Ui { scroll_offset: if u.scroll_offset >= 3 { (u.scroll_offset - 3) as usize } else { u.scroll_offset }, ..u },
        Mouse::ScrollDown => Ui { scroll_offset: if u.scroll_offset + 3 <= usize::MAX { (u.scroll_offset + 3) as usize } else { u.scroll_offset }, ..u },
        Mouse::Other => u,
    }
}

/// Screen row of the first listed entry: below a three-row header and the
/// list's top border.
pub const FIRST_ITEM_ROW: u16 = 4;

impl Ui {
    /// Nothing selected or scrolled, menu closed, both side panes shown.
    pub fn new() -> (r: Self)
        ensures
            r.selected_index == 0,
            r.scroll_offset == 0,
            !r.show_context_menu,
            r.context_menu_pos == (0u16, 0u16),
            r.context_menu_selected == 0,
            r.show_sidebar,
            r.show_preview,
    {
        Ui {
            selected_index: 0,
            scroll_offset: 0,
            show_context_menu: false,
            context_menu_pos: (0, 0),
            context_menu_selected: 0,
            show_sidebar: true,
            show_preview: true,
        }
    }

    /// The emoji shown beside a file name, by its lower-cased extension.
    pub fn get_file_icon(filename: &str) -> (r: &'static str)
        ensures
            r@ == icon_for_extension(lower_of(extension_of(filename@))),
    {
        let lowered = lowercase(get_extension(filename));
        let e = lowered.as_str();
        if same_text(e, "rs") {
            "🦀"
        } else if same_text(e, "py") {
            "🐍"
        } else if same_text(e, "js") || same_text(e, "ts") {
            "📜"
        } else if same_text(e, "tsx") || same_text(e, "jsx") {
            "⚛️"
        } else if same_text(e, "md") {
            "📝"
        } else if same_text(e, "toml") || same_text(e, "yaml") || same_text(e, "yml") || same_text(e, "json") {
            "⚙️"
        } else if same_text(e, "png") || same_text(e, "jpg") || same_text(e, "jpeg") || same_text(e, "gif") || same_text(e, "svg") || same_text(e, "webp") {
            "🖼️"
        } else if same_text(e, "mp4") || same_text(e, "mov") || same_text(e, "avi") || same_text(e, "mkv") {
            "🎬"
        } else if same_text(e, "mp3") || same_text(e, "wav") || same_text(e, "flac") || same_text(e, "ogg") {
            "🎵"
        } else if same_text(e, "zip") || same_text(e, "tar") || same_text(e, "gz") || same_text(e, "rar") || same_text(e, "7z") {
            "📦"
        } else if same_text(e, "pdf") {
            "📕"
        } else if same_text(e, "doc") || same_text(e, "docx") {
            "📘"
        } else if same_text(e, "xls") || same_text(e, "xlsx") {
            "📗"
        } else if same_text(e, "ppt") || same_text(e, "pptx") {
            "📙"
        } else if same_text(e, "html") || same_text(e, "css") {
            "🌐"
        } else if same_text(e, "sh") || same_text(e, "bash") || same_text(e, "zsh") {
            "🖥️"
        } else if same_text(e, "lock") {
            "🔒"
        } else if same_text(e, "gitignore") || same_text(e, "git") {
            "📋"
        } else if same_text(e, "dockerfile") || same_text(e, "docker") {
            "🐳"
        } else if same_text(e, "log") {
            "📃"
        } else {
            "📄"
        }
    }

    /// Applies a key press (see `after_key`); `selected_is_dir` tells whether
    /// the selected entry is a directory.
    pub fn handle_key(&mut self, key: Key, total: usize, selected_is_dir: bool) -> (r: Action)
        ensures
            (*final(self), r) == after_key(*old(self), key, total, selected_is_dir),
    {
        if self.show_context_menu {
            match key {
                Key::Esc | Key::Enter => self.show_context_menu = false,
                Key::Up => {
                    if self.context_menu_selected > 0 {
                        self.context_menu_selected = self.context_menu_selected - 1;
                    }
                },
                Key::Down => {
                    if self.context_menu_selected < LAST_MENU_ITEM {
                        self.context_menu_selected = self.context_menu_selected + 1;
                    }
                },
                _ => {},
            }
            return Action::Stay;
        }
        match key {
            Key::Char('q') | Key::Esc => Action::Quit,
            Key::Up | Key::Char('k') => {
                self.move_selection(-1, total);
                Action::Stay
            },
            Key::Down | Key::Char('j') => {
                self.move_selection(1, total);
                Action::Stay
            },
            Key::F(1) => {
                self.toggle_sidebar();
                Action::Stay
            },
            Key::F(2) => {
                self.toggle_preview();
                Action::Stay
            },
            Key::Enter => {
                if selected_is_dir {
                    self.selected_index = 0;
                    Action::EnterSelected
                } else {
                    Action::Stay
                }
            },
            Key::Backspace => {
                self.selected_index = 0;
                Action::GoUp
            },
            Key::Home => {
                self.selected_index = 0;
                Action::Stay
            },
            Key::End => {
                self.selected_index = if total > 0 { total - 1 } else { 0 };
                Action::Stay
            },
            _ => Action::Stay,
        }
    }

    /// Applies a mouse event (see `after_mouse`).
    pub fn handle_mouse(&mut self, event: Mouse)
        ensures
            *final(self) == after_mouse(*old(self), event),
    {
        match event {
            Mouse::LeftDown { column, row } => {
                if let Some(index) = self.get_item_at_position(row, column) {
                    self.selected_index = index;
                }
            },
            Mouse::RightDown { column, row } => {
                self.show_context_menu = true;
                self.context_menu_pos = (column, row);
            },
            Mouse::ScrollUp => self.scroll(-3),
            Mouse::ScrollDown => self.scroll(3),
            Mouse::Other => {},
        }
    }

    /// Moves the selection by `delta` entries when that stays within the
    /// `total_items` entries; otherwise keeps it.
    pub fn move_selection(&mut self, delta: i32, total_items: usize)
        ensures
            *final(self) == (Ui { selected_index: moved(old(self).selected_index, delta as int, total_items), ..*old(self) }),
    {
        let target: i128 = self.selected_index as i128 + delta as i128;
        if 0 <= target && target < total_items as i128 {
            self.selected_index = target as usize;
        }
    }

    /// Scrolls by `delta` entries unless that would go before the first entry
    /// (or past the largest offset).
    pub fn scroll(&mut self, delta: i32)
        ensures
            ({
                let target = old(self).scroll_offset + delta;
                *final(self) == Ui {
                    scroll_offset: if 0 <= target <= usize::MAX { target as usize } else { old(self).scroll_offset },
                    ..*old(self)
                }
            }),
    {
        let target: i128 = self.scroll_offset as i128 + delta as i128;
        if 0 <= target && target <= usize::MAX as i128 {
            self.scroll_offset = target as usize;
        }
    }

    /// Shows or hides the bookmarks pane.
    pub fn toggle_sidebar(&mut self)
        ensures
            *final(self) == (Ui { show_sidebar: !old(self).show_sidebar, ..*old(self) }),
    {
        self.show_sidebar = !self.show_sidebar;
    }

    /// Shows or hides the preview pane.
    pub fn toggle_preview(&mut self)
        ensures
            *final(self) == (Ui { show_preview: !old(self).show_preview, ..*old(self) }),
    {
        self.show_preview = !self.show_preview;
    }

    /// Index of the entry listed on screen row `row`, counting the scrolled-off
    /// entries; none above the list, or where the index would not fit.
    pub fn get_item_at_position(&self, row: u16, column: u16) -> (r: Option<usize>)
        ensures
            row < FIRST_ITEM_ROW ==> r is None,
            row >= FIRST_ITEM_ROW ==> match r {
                Some(i) => i == row - FIRST_ITEM_ROW + self.scroll_offset,
                None => row - FIRST_ITEM_ROW + self.scroll_offset > usize::MAX,
            },
    {
        if row >= FIRST_ITEM_ROW {
            let offset = (row - FIRST_ITEM_ROW) as usize;
            if offset <= usize::MAX - self.scroll_offset {
                Some(offset + self.scroll_offset)
            } else {
                None
            }
        } else {
            None
        }
    }
}

} // verus!
