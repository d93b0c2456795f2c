//! The line buffer and the cursor over it.
//!
//! The editor owns the rows of the text, the cursor and the viewport. What
//! each of its operations does is said over its state as a value, in
//! [`view`].

pub mod key;
pub mod message;
pub mod row;
pub mod screen;
pub mod view;

use crate::editor::row::{
    backspace_index, backspace_keys, display_width, insert_key, lemma_concat,
    lemma_raw_index_covers, lemma_raw_index_from, lemma_render_start_monotonic, raw_index_at,
    render_keys, render_start,
};
use crate::editor::view::{
    file_text, first_match, first_matching_row, lemma_add_cx, lemma_backspace,
    lemma_clamp_cursor_x, lemma_first_match_from, lemma_first_matching_row, lemma_insert,
    lemma_row_ends, lemma_row_ends_are_boundaries, lemma_search, lemma_sub_cx,
    lemma_width_with, lemma_width_without, lines_of, offset_ending_at, offset_showing,
};
use crate::error::{EditorError, ErrorView};
use crate::utils::find_subsequence;
use vstd::prelude::*;

pub use key::{ControlKey, Direction, Key};
pub use message::Message;
pub use row::Row;
pub use view::{EditorView, FindView, SaveView};

verus! {

/// How many rows of the terminal the status bar and the message bar take.
pub const BAR_ROWS: usize = 2;

/// What shows that a search is going on behind the prompt.
pub const SEARCH_PROMPT: &'static str = "Search: ";

/// The number of columns of the search prompt.
pub const SEARCH_PROMPT_LEN: usize = 8;

/// The search prompt has as many columns as `SEARCH_PROMPT_LEN` says.
pub proof fn lemma_search_prompt_len()
    ensures
        SEARCH_PROMPT@.len() == SEARCH_PROMPT_LEN,
{
    reveal_strlit("Search: ");
}

/// How an attempt to save the text went.
#[derive(Debug)]
pub enum SaveOutcome {
    /// The session has no file to write to.
    NoFileName,
    /// The text of [`Editor::contents`] was written.
    Written,
    /// Writing failed, for this cause.
    Failed(String),
}

impl View for SaveOutcome {
    type V = SaveView;

    open spec fn view(&self) -> SaveView {
        match *self {
            SaveOutcome::NoFileName => SaveView::NoFileName,
            SaveOutcome::Written => SaveView::Written,
            SaveOutcome::Failed(cause) => SaveView::Failed(cause@),
        }
    }
}

/// What is left to do after a key was handled.
#[derive(Debug, Clone, Copy, PartialEq, Eq, Structural)]
pub enum Command {
    /// Nothing: the key was handled.
    Done,
    /// Tell that the function key of this number was pressed.
    FunctionKey(u8),
    /// Tell that the escape key was pressed.
    Escape,
    /// Run a search.
    Find,
    /// Save the text.
    Save,
}

/// A search that is going on.
pub struct FindSession {
    saved_cx: usize,
    saved_cy: usize,
    saved_row_offset: usize,
    saved_col_offset: usize,
    query: Row,
    cursor: usize,
}

impl View for FindSession {
    type V = FindView;

    closed spec fn view(&self) -> FindView {
        FindView {
            saved_cx: self.saved_cx as nat,
            saved_cy: self.saved_cy as nat,
            saved_row_offset: self.saved_row_offset as nat,
            saved_col_offset: self.saved_col_offset as nat,
            query: self.query@,
            cursor: self.cursor as nat,
        }
    }
}

impl FindSession {
    /// The invariant of a session: that of the row that holds its query.
    pub closed spec fn wf(&self) -> bool {
        self.query.wf()
    }

    /// The keys searched for.
    pub fn query(&self) -> (keys: &[Key])
        ensures
            keys@ == self@.query,
    {
        self.query.keys()
    }

    /// The column of the cursor in the prompt line.
    pub fn cursor(&self) -> (cursor: usize)
        ensures
            cursor == self@.cursor,
    {
        self.cursor
    }
}

/// What one turn of the editor's loop comes to.
#[derive(Debug)]
pub enum RunStep {
    /// The session is over: the quit key was pressed.
    Quit,
    /// The session is over: the input has ended.
    EndOfInput,
    /// A key was handled; this is left to do before the screen is drawn
    /// again.
    Handled(Command),
    /// A key could not be read; the loop goes on.
    Failed(EditorError),
}

/// The rows of text, the cursor and the viewport of an editing session.
pub struct Editor {
    cx: usize,
    cy: usize,
    row_offset: usize,
    col_offset: usize,
    max_col: usize,
    max_row: usize,
    rows: Vec<Row>,
    message: Option<Message>,
    is_dirty: bool,
}

impl View for Editor {
    type V = EditorView;

    closed spec fn view(&self) -> EditorView {
        EditorView {
            cx: self.cx as nat,
            cy: self.cy as nat,
            row_offset: self.row_offset as nat,
            col_offset: self.col_offset as nat,
            max_col: self.max_col as nat,
            max_row: self.max_row as nat,
            rows: Seq::new(self.rows@.len(), |i: int| self.rows@[i]@),
            message: match self.message {
                Some(m) => Some(m@),
                None => None,
            },
            is_dirty: self.is_dirty,
        }
    }
}

impl Editor {
    /// Whether every row holds the text that its keys render to.
    pub closed spec fn rows_wf(&self) -> bool {
        forall|i: int| 0 <= i < self.rows@.len() ==> (#[trigger] self.rows@[i]).wf()
    }

    /// The invariant of an editor: that of its rows and that of its cursor.
    pub open spec fn wf(&self) -> bool {
        self.rows_wf() && self@.wf()
    }

    /// An editor without rows, with a viewport of `max_col` columns and
    /// `max_row` rows and the cursor at its origin.
    pub fn new(max_col: usize, max_row: usize) -> (e: Self)
        ensures
            e.wf(),
            e@ == (EditorView {
                cx: 0,
                cy: 0,
                row_offset: 0,
                col_offset: 0,
                max_col: max_col as nat,
                max_row: max_row as nat,
                rows: Seq::empty(),
                message: None,
                is_dirty: false,
            }),
    {
        let e = Editor {
            cx: 0,
            cy: 0,
            row_offset: 0,
            col_offset: 0,
            max_col,
            max_row,
            rows: Vec::new(),
            message: None,
            is_dirty: false,
        };
        assert(e@.rows =~= Seq::empty());
        e
    }

    /// The width of the row of the cursor; zero behind the last row.
    fn row_len(&self) -> (n: usize)
        requires
            self.rows_wf(),
        ensures
            n == self@.row_len(),
    {
        if self.cy < self.rows.len() {
            self.rows[self.cy].display_len()
        } else {
            0
        }
    }

    /// The offset that brings `pos` to the last place of a viewport of
    /// `size` places.
    fn offset_ending_at(pos: usize, size: usize) -> (offset: usize)
        ensures
            offset == offset_ending_at(pos as nat, size as nat),
    {
        if size == 0 {
            pos
        } else if pos >= size - 1 {
            pos - (size - 1)
        } else {
            0
        }
    }

    /// The offset nearest to `offset` that shows `pos` in a viewport of
    /// `size` places.
    fn offset_showing(offset: usize, pos: usize, size: usize) -> (shown: usize)
        ensures
            shown == offset_showing(offset as nat, pos as nat, size as nat),
    {
        if pos < offset {
            pos
        } else if pos - offset >= size {
            Self::offset_ending_at(pos, size)
        } else {
            offset
        }
    }

    /// Brings the cursor column back into its row.
    fn clamp_cursor_x(&mut self)
        requires
            old(self).rows_wf(),
            old(self)@.cy <= old(self)@.rows.len(),
            old(self)@.row_offset <= old(self)@.cy,
        ensures
            final(self).wf(),
            final(self)@ == old(self)@.clamp_cursor_x(),
    {
        let row_len = if self.cy < self.rows.len() {
            self.rows[self.cy].display_len()
        } else {
            0
        };
        proof {
            lemma_clamp_cursor_x(old(self)@);
        }
        if row_len <= self.max_col {
            self.col_offset = 0;
        }
        if row_len == 0 {
            self.cx = 0;
            return ;
        }
        if self.cx > row_len {
            self.cx = row_len;
        }
        if self.cx < row_len {
            let row = &self.rows[self.cy];
            let raw_index = row.get_raw_index(self.cx);
            let (start, _) = row.get_render_index(raw_index);
            self.cx = start;
        }
    }

    /// Moves the cursor one row down.
    fn add_cy(&mut self)
        requires
            old(self).rows_wf(),
            old(self)@.cy <= old(self)@.rows.len(),
            old(self)@.row_offset <= old(self)@.cy,
            old(self)@.rows.len() == 0 ==> old(self)@.cx == 0,
        ensures
            final(self).wf(),
            final(self)@ == old(self)@.add_cy(),
    {
        if self.rows.len() == 0 {
            self.cy = 0;
            return ;
        }
        if self.cy < self.rows.len() {
            self.cy += 1;
            if self.cy - self.row_offset == self.max_row {
                self.row_offset += 1;
            }
        }
        self.clamp_cursor_x();
    }

    /// Moves the cursor one row up.
    fn sub_cy(&mut self)
        requires
            old(self).rows_wf(),
            old(self)@.cy <= old(self)@.rows.len(),
            old(self)@.row_offset <= old(self)@.cy,
        ensures
            final(self).wf(),
            final(self)@ == old(self)@.sub_cy(),
    {
        if self.cy != 0 {
            self.cy -= 1;
            if self.cy + 1 - self.row_offset == 0 {
                if self.row_offset != 0 {
                    self.row_offset -= 1;
                }
            }
        }
        self.clamp_cursor_x();
    }

    /// Moves the cursor to the end of its row.
    fn endx(&mut self)
        requires
            old(self).rows_wf(),
            old(self)@.in_range(),
        ensures
            final(self).wf(),
            final(self)@ == old(self)@.endx(),
    {
        proof {
            lemma_row_ends_are_boundaries(old(self)@.endx());
        }
        let row_len = self.row_len();
        if row_len == 0 {
            self.cx = 0;
            return ;
        }
        if row_len > self.max_col {
            self.col_offset = Self::offset_ending_at(row_len, self.max_col);
        }
        self.cx = row_len;
    }

    /// Moves the cursor to the start of its row.
    fn startx(&mut self)
        requires
            old(self).rows_wf(),
            old(self)@.in_range(),
        ensures
            final(self).wf(),
            final(self)@ == old(self)@.startx(),
    {
        proof {
            lemma_row_ends_are_boundaries(old(self)@.startx());
        }
        self.cx = 0;
        self.col_offset = 0;
    }

    /// Moves the cursor one key to the right.
    fn add_cx(&mut self)
        requires
            old(self).rows_wf(),
            old(self)@.in_range(),
        ensures
            final(self).wf(),
            final(self)@ == old(self)@.add_cx(),
    {
        proof {
            lemma_add_cx(old(self)@);
        }
        let row_len = self.row_len();
        if row_len == 0 {
            self.cx = 0;
            return ;
        }
        if self.cx < row_len {
            let row = &self.rows[self.cy];
            let raw_index = row.get_raw_index(self.cx);
            let (_, end) = row.get_render_index(raw_index);
            proof {
                lemma_raw_index_covers(row@, self.cx as int);
                lemma_render_start_monotonic(row@, raw_index as int, raw_index as int);
                lemma_render_start_monotonic(row@, raw_index as int, raw_index + 1);
            }
            self.cx = end;
            if self.cx >= self.max_col {
                self.col_offset = Self::offset_ending_at(self.cx, self.max_col);
            }
        } else {
            let pre_cy = self.cy;
            self.add_cy();
            if pre_cy != self.cy {
                self.cx = 0;
                self.col_offset = 0;
            }
        }
    }

    /// Moves the cursor one key to the left.
    fn sub_cx(&mut self)
        requires
            old(self).rows_wf(),
            old(self)@.in_range(),
        ensures
            final(self).wf(),
            final(self)@ == old(self)@.sub_cx(),
    {
        proof {
            lemma_sub_cx(old(self)@);
        }
        if self.cx != 0 {
            let row = &self.rows[self.cy];
            let raw_index = row.get_raw_index(self.cx - 1);
            let (start, _) = row.get_render_index(raw_index);
            proof {
                lemma_raw_index_covers(row@, self.cx - 1);
            }
            let distance = self.cx - start;
            self.cx = start;
            if self.cx < self.col_offset {
                if self.col_offset >= distance {
                    self.col_offset -= distance;
                } else {
                    self.col_offset = 0;
                }
            }
        } else {
            let pre_cy = self.cy;
            self.sub_cy();
            if pre_cy != self.cy {
                self.endx();
            }
        }
    }

    /// Moves the cursor by an arrow, Home or End key; any other key moves
    /// nothing.
    pub fn move_cursor(&mut self, key: &Key)
        requires
            old(self).wf(),
        ensures
            final(self).wf(),
            final(self)@ == old(self)@.move_cursor(*key),
    {
        match *key {
            Key::ArrowKey(Direction::Left) => self.sub_cx(),
            Key::ArrowKey(Direction::Right) => self.add_cx(),
            Key::ArrowKey(Direction::Up) => self.sub_cy(),
            Key::ArrowKey(Direction::Down) => self.add_cy(),
            Key::ControlKey(ControlKey::Home) => self.startx(),
            Key::ControlKey(ControlKey::End) => self.endx(),
            _ => {},
        }
    }

    /// Moves the cursor `nums` rows up or down, one row at a time.
    pub fn scroll_screen(&mut self, nums: usize, direction: Direction)
        requires
            old(self).wf(),
        ensures
            final(self).wf(),
            final(self)@ == old(self)@.scroll_screen(nums as nat, direction),
    {
        match direction {
            Direction::Up => {
                let mut i: usize = 0;
                while i < nums
                    invariant
                        i <= nums,
                        self.wf(),
                        self@ == old(self)@.scroll_screen(i as nat, Direction::Up),
                    decreases nums - i,
                {
                    self.move_cursor(&Key::ArrowKey(Direction::Up));
                    i += 1;
                }
            },
            Direction::Down => {
                let mut i: usize = 0;
                while i < nums
                    invariant
                        i <= nums,
                        self.wf(),
                        self@ == old(self)@.scroll_screen(i as nat, Direction::Down),
                    decreases nums - i,
                {
                    self.move_cursor(&Key::ArrowKey(Direction::Down));
                    i += 1;
                }
            },
            Direction::Left => {},
            Direction::Right => {},
        }
    }

    /// Removes the key before the cursor; see [`EditorView::backspace`].
    pub fn backspace(&mut self)
        requires
            old(self).wf(),
        ensures
            final(self).wf(),
            final(self)@ == old(self)@.backspace(),
    {
        proof {
            lemma_backspace(old(self)@);
        }
        if self.cx != 0 && self.cy < self.rows.len() {
            let cy = self.cy;
            let ghost row = self.rows@[cy as int]@;
            let width = self.rows[cy].backspace(self.cx);
            proof {
                if self.cx < display_width(row) {
                    lemma_raw_index_covers(row, self.cx - 1);
                }
                lemma_width_without(row, backspace_index(row, self.cx as int).unwrap());
            }
            self.cx = if width <= self.cx {
                self.cx - width
            } else {
                0
            };
            if self.cx < self.col_offset {
                self.col_offset = self.cx;
            }
            self.is_dirty = true;
            assert(self@.rows =~= old(self)@.rows.update(
                cy as int,
                backspace_keys(row, old(self).cx as int),
            ));
        } else if self.cy >= self.rows.len() {
            self.sub_cx();
        } else {
            if self.cy == 0 {
                return ;
            }
            let current_cy = self.cy;
            let ghost above = self.rows@[current_cy - 1]@;
            let ghost below = self.rows@[current_cy as int]@;
            self.sub_cx();
            let current_row = self.rows.remove(current_cy);
            self.rows[current_cy - 1].append(&current_row);
            self.is_dirty = true;
            proof {
                lemma_concat(above, below);
                assert(self@.rows =~= old(self)@.rows.remove(current_cy as int).update(
                    current_cy - 1,
                    above + below,
                ));
            }
        }
    }

    /// Removes the key under the cursor: a step to the right, then a
    /// backspace.
    pub fn delete(&mut self)
        requires
            old(self).wf(),
        ensures
            final(self).wf(),
            final(self)@ == old(self)@.delete(),
    {
        self.add_cx();
        self.backspace();
    }

    /// Types `key` at the cursor; see [`EditorView::insert`].
    pub fn insert(&mut self, key: Key)
        requires
            old(self).wf(),
        ensures
            final(self).wf(),
            final(self)@ == old(self)@.insert(key),
    {
        proof {
            lemma_insert(old(self)@, key);
        }
        let is_last_row = self.cy == self.rows.len();
        if is_last_row {
            self.rows.push(Row::new(Vec::new()));
        }
        let cy = self.cy;
        let ghost rows = self@.rows;
        let ghost row = rows[cy as int];
        assert(rows =~= if is_last_row {
            old(self)@.rows.push(Seq::empty())
        } else {
            old(self)@.rows
        });
        if key == Key::ControlKey(ControlKey::CR) {
            self.message = Some(Message::new(String::new()));
            let new_row = self.rows[cy].split(self.cx);
            assert(cy < self.rows.len());
            self.rows.insert(cy + 1, new_row);
            if is_last_row {
                let _ = self.rows.pop();
            }
            proof {
                let index = raw_index_at(row, self.cx as int);
                let split = rows.update(cy as int, row.take(index)).insert(cy + 1, row.skip(index));
                assert(self@.rows =~= if is_last_row {
                    split.drop_last()
                } else {
                    split
                });
            }
            self.add_cy();
            self.cx = 0;
            self.col_offset = 0;
            self.is_dirty = true;
            return ;
        }
        if self.rows[cy].insert(self.cx, key) {
            self.is_dirty = true;
            proof {
                lemma_raw_index_from(row, self.cx as int, 0);
                lemma_width_with(row, raw_index_at(row, self.cx as int), key);
                assert(self@.rows =~= rows.update(cy as int, insert_key(row, self.cx as int, key)));
            }
            self.add_cx();
        } else {
            if is_last_row {
                let _ = self.rows.pop();
            }
            assert(self@.rows =~= old(self)@.rows);
        }
    }

    /// Moves the cursor to the first place where the keys of `query` stand
    /// in a row, and says whether there is one; see [`EditorView::search`].
    pub fn search(&mut self, query: &[Key]) -> (found: bool)
        requires
            old(self).wf(),
        ensures
            final(self).wf(),
            final(self)@ == old(self)@.search(query@),
            found == (first_matching_row(old(self)@.rows, query@, 0) is Some),
            found && old(self)@.max_row > 0 ==> final(self)@.row_offset <= final(self)@.cy
                < final(self)@.row_offset + final(self)@.max_row,
            found && old(self)@.max_col > 0 ==> final(self)@.col_offset <= final(self)@.cx
                < final(self)@.col_offset + final(self)@.max_col,
    {
        let mut i: usize = 0;
        while i < self.rows.len()
            invariant
                i <= self.rows@.len(),
                *self == *old(self),
                self.wf(),
                forall|j: int| 0 <= j < i ==> first_match(self@.rows[j], query@) is None,
            decreases self.rows@.len() - i,
        {
            let ghost keys = self.rows@[i as int]@;
            proof {
                lemma_first_match_from(keys, query@, 0);
                lemma_first_matching_row(self@.rows, query@, 0);
            }
            match find_subsequence(self.rows[i].keys(), query) {
                Some(pos) => {
                    let (col, _) = self.rows[i].get_render_index(pos);
                    proof {
                        assert(first_match(keys, query@) == Some(pos as int));
                        assert(self@.rows[i as int] == keys);
                        assert(first_match(self@.rows[i as int], query@) is Some);
                        assert(first_matching_row(self@.rows, query@, 0) == Some(i as int));
                        assert(keys.take(keys.len() as int) =~= keys);
                        lemma_render_start_monotonic(keys, pos as int, pos as int);
                        lemma_search(old(self)@, query@);
                    }
                    self.cy = i;
                    self.cx = col;
                    self.row_offset = Self::offset_showing(self.row_offset, self.cy, self.max_row);
                    self.col_offset = Self::offset_showing(self.col_offset, self.cx, self.max_col);
                    return true;
                },
                None => {},
            }
            i += 1;
        }
        proof {
            lemma_first_matching_row(self@.rows, query@, 0);
        }
        false
    }

    /// Takes in the keys of a file, one row for each line, behind the rows
    /// that are there:
    /// a line feed ends a line, a carriage return is dropped, and keys behind
    /// the last line feed make no row.
    pub fn open_file(&mut self, keys: &[Key])
        requires
            old(self).wf(),
        ensures
            final(self).wf(),
            final(self)@ == old(self)@.open_file(keys@),
    {
        let mut key_line: Vec<Key> = Vec::new();
        let mut i: usize = 0;
        assert(keys@.take(0) =~= Seq::<Key>::empty());
        assert(self@.rows + Seq::<Seq<Key>>::empty() =~= self@.rows);
        while i < keys.len()
            invariant
                i <= keys@.len(),
                self.wf(),
                self@ == old(self)@.with_rows(old(self)@.rows + lines_of(keys@.take(i as int)).0),
                key_line@ == lines_of(keys@.take(i as int)).1,
            decreases keys@.len() - i,
        {
            assert(keys@.take(i + 1).drop_last() =~= keys@.take(i as int));
            let ghost lines = lines_of(keys@.take(i as int)).0;
            let ghost before = self@.rows;
            let key = keys[i];
            if key == Key::ControlKey(ControlKey::CR) {
            } else if key == Key::ControlKey(ControlKey::LF) {
                let row = Row::new(key_line);
                self.rows.push(row);
                key_line = Vec::new();
                assert(self@.rows =~= before.push(row@));
                assert((old(self)@.rows + lines).push(row@) =~= old(self)@.rows + lines.push(row@));
                proof {
                    if self.cy == before.len() {
                        lemma_row_ends(row@);
                        assert(render_start(self@.rows[self.cy as int], 0) == self@.cx);
                    } else if self.cy < before.len() {
                        assert(self@.rows[self.cy as int] == before[self.cy as int]);
                    }
                }
            } else {
                key_line.push(key);
            }
            i += 1;
        }
        assert(keys@.take(keys@.len() as int) =~= keys@);
    }

    /// The text of the file: each row, tabs as tabs, with a line feed behind
    /// it.
    pub fn contents(&self) -> (text: String)
        ensures
            text@ == file_text(self@.rows),
    {
        let mut text = String::new();
        let mut i: usize = 0;
        assert(self@.rows.take(0) =~= Seq::<Seq<Key>>::empty());
        while i < self.rows.len()
            invariant
                i <= self.rows@.len(),
                text@ == file_text(self@.rows.take(i as int)),
            decreases self.rows@.len() - i,
        {
            assert(self@.rows.take(i + 1).drop_last() =~= self@.rows.take(i as int));
            let raw = self.rows[i].raw();
            text.append(raw.as_str());
            text.push('\n');
            i += 1;
            assert(text@ =~= file_text(self@.rows.take(i as int)));
        }
        assert(self@.rows.take(self@.rows.len() as int) =~= self@.rows);
        text
    }

    /// Shows `text` as the status message.
    pub fn set_message(&mut self, text: String)
        requires
            old(self).wf(),
        ensures
            final(self).wf(),
            final(self)@ == old(self)@.with_message(Some(text@)),
    {
        self.message = Some(Message::new(text));
    }

    /// Takes the status message away.
    pub fn clear_message(&mut self)
        requires
            old(self).wf(),
        ensures
            final(self).wf(),
            final(self)@ == old(self)@.with_message(None),
    {
        self.message = None;
    }

    /// Notes how an attempt to save the text went; see
    /// [`EditorView::save`].
    pub fn save(&mut self, outcome: SaveOutcome)
        requires
            old(self).wf(),
        ensures
            final(self).wf(),
            final(self)@ == old(self)@.save(outcome@),
    {
        match outcome {
            SaveOutcome::NoFileName => {
                self.message = Some(Message::new(String::from_str("No file name")));
            },
            SaveOutcome::Written => {
                self.message = Some(Message::new(String::from_str("File saved")));
                self.is_dirty = false;
            },
            SaveOutcome::Failed(cause) => {
                let mut text = String::from_str("Error saving file: ");
                text.append(cause.as_str());
                self.message = Some(Message::new(text));
            },
        }
    }

    /// Sets the viewport for a terminal of `cols` columns and `rows` rows,
    /// of which `BAR_ROWS` are kept for the status and the message bar.
    pub fn resize(&mut self, cols: usize, rows: usize)
        requires
            old(self).wf(),
        ensures
            final(self).wf(),
            final(self)@ == (EditorView {
                max_col: cols as nat,
                max_row: if rows >= BAR_ROWS {
                    (rows - BAR_ROWS) as nat
                } else {
                    0
                },
                ..old(self)@
            }),
    {
        self.max_col = cols;
        self.max_row = if rows >= BAR_ROWS {
            rows - BAR_ROWS
        } else {
            0
        };
    }

    /// The column of the cursor.
    pub fn cx(&self) -> (cx: usize)
        ensures
            cx == self@.cx,
    {
        self.cx
    }

    /// The row of the cursor.
    pub fn cy(&self) -> (cy: usize)
        ensures
            cy == self@.cy,
    {
        self.cy
    }

    /// The first row that the viewport shows.
    pub fn row_offset(&self) -> (row_offset: usize)
        ensures
            row_offset == self@.row_offset,
    {
        self.row_offset
    }

    /// The first column that the viewport shows.
    pub fn col_offset(&self) -> (col_offset: usize)
        ensures
            col_offset == self@.col_offset,
    {
        self.col_offset
    }

    /// The number of columns of the viewport.
    pub fn max_col(&self) -> (max_col: usize)
        ensures
            max_col == self@.max_col,
    {
        self.max_col
    }

    /// The number of rows of the viewport.
    pub fn max_row(&self) -> (max_row: usize)
        ensures
            max_row == self@.max_row,
    {
        self.max_row
    }

    /// Whether the text was changed since it was loaded or saved.
    pub fn is_dirty(&self) -> (is_dirty: bool)
        ensures
            is_dirty == self@.is_dirty,
    {
        self.is_dirty
    }

    /// The rows of the text.
    pub fn rows(&self) -> (rows: &[Row])
        ensures
            rows@.len() == self@.rows.len(),
            forall|i: int| 0 <= i < rows@.len() ==> (#[trigger] rows@[i])@ == self@.rows[i],
            self.wf() ==> forall|i: int| 0 <= i < rows@.len() ==> (#[trigger] rows@[i]).wf(),
    {
        self.rows.as_slice()
    }

    /// The status message, if there is one.
    pub fn message(&self) -> (message: Option<&Message>)
        ensures
            match message {
                Some(m) => self@.message == Some(m@),
                None => self@.message is None,
            },
    {
        match &self.message {
            Some(m) => Some(m),
            None => None,
        }
    }

    /// Puts the cursor and the viewport back where `session` has kept them.
    fn restore(&mut self, session: &FindSession)
        requires
            old(self).rows_wf(),
            session@.fits(old(self)@),
        ensures
            final(self).wf(),
            final(self)@ == old(self)@.restore(session@),
    {
        self.cx = session.saved_cx;
        self.cy = session.saved_cy;
        self.row_offset = session.saved_row_offset;
        self.col_offset = session.saved_col_offset;
    }

    /// Shows `lead` and the query of `session` behind it as the message.
    fn show_query(&mut self, lead: &str, session: &FindSession)
        requires
            old(self).wf(),
            session.wf(),
        ensures
            final(self).wf(),
            final(self)@ == old(self)@.with_message(Some(lead@ + render_keys(session@.query))),
    {
        let mut text = String::from_str(lead);
        text.append(session.query.rendered());
        self.message = Some(Message::new(text));
    }

    /// Starts a search; see [`EditorView::find_start`].
    pub fn find_start(&mut self) -> (session: FindSession)
        requires
            old(self).wf(),
        ensures
            final(self).wf(),
            session.wf(),
            session@.fits(final(self)@),
            (final(self)@, session@) == old(self)@.find_start(),
    {
        self.message = Some(Message::new(String::from_str(SEARCH_PROMPT)));
        FindSession {
            saved_cx: self.cx,
            saved_cy: self.cy,
            saved_row_offset: self.row_offset,
            saved_col_offset: self.col_offset,
            query: Row::new(Vec::new()),
            cursor: SEARCH_PROMPT_LEN,
        }
    }

    /// Takes one key of a search, or the error of a key that could not be
    /// read, and says whether the search is over; see
    /// [`EditorView::find_key`] and [`EditorView::find_failed`].
    pub fn find_key(&mut self, session: &mut FindSession, event: Result<Key, EditorError>) -> (done:
        bool)
        requires
            old(self).wf(),
            old(session).wf(),
            old(session)@.fits(old(self)@),
        ensures
            final(self).wf(),
            final(session).wf(),
            final(session)@.fits(final(self)@),
            match event {
                Ok(key) => (final(self)@, final(session)@, done) == old(self)@.find_key(
                    old(session)@,
                    key,
                ),
                Err(e) => done && final(session)@ == old(session)@ && exists|text: Seq<char>|
                    #[trigger] e@.has_message(text) && final(self)@ == old(self)@.find_failed(
                        old(session)@,
                        text,
                    ),
            },
    {
        let key = match event {
            Ok(key) => key,
            Err(e) => {
                let text = e.message();
                let mut message = String::from_str("Error reading Key: ");
                message.append(text.as_str());
                self.restore(session);
                self.message = Some(Message::new(message));
                assert(e@.has_message(text@) && self@ == old(self)@.find_failed(
                    old(session)@,
                    text@,
                ));
                return true;
            },
        };
        match key {
            Key::ControlKey(ControlKey::Escape) => {
                self.message = None;
                self.restore(session);
                return true;
            },
            Key::ControlKey(ControlKey::CR) => {
                self.message = None;
                return true;
            },
            Key::ControlKey(ControlKey::Backspace) => {
                if session.query.keys().len() > 0 {
                    let _ = session.query.backspace(session.cursor);
                    if session.cursor > SEARCH_PROMPT_LEN {
                        session.cursor -= 1;
                    }
                    self.show_query(SEARCH_PROMPT, session);
                }
            },
            Key::ArrowKey(Direction::Left) => {
                if session.cursor > SEARCH_PROMPT_LEN {
                    session.cursor -= 1;
                }
                self.show_query(SEARCH_PROMPT, session);
            },
            Key::ArrowKey(Direction::Right) => {
                if session.cursor < session.query.display_len() {
                    session.cursor += 1;
                }
                self.show_query(SEARCH_PROMPT, session);
            },
            _ => {
                session.query.push(key);
                if self.max_col > 0 && session.cursor < self.max_col - 1 {
                    session.cursor += 1;
                }
                self.show_query(SEARCH_PROMPT, session);
            },
        }
        assert(session@ == old(session)@.typed(key, self@.max_col));
        if !self.search(session.query.keys()) {
            self.restore(session);
            self.show_query("Not Found: ", session);
        }
        false
    }

    /// The key of a read inside a search: the end of the input is an error
    /// there, since an escape or a carriage return is still due.
    pub fn get_key(next: Result<Option<Key>, EditorError>) -> (r: Result<Key, EditorError>)
        ensures
            match next {
                Ok(Some(key)) => r == Ok::<Key, EditorError>(key),
                Ok(None) => r matches Err(e) && e@ == (ErrorView::UnexpectedEof {
                    expected: "ESC OR CR"@,
                    actual: 0,
                }),
                Err(e) => r == Err::<Key, EditorError>(e),
            },
    {
        match next {
            Ok(Some(key)) => Ok(key),
            Ok(None) => Err(EditorError::unexpected_eof(String::from_str("ESC OR CR"), 0)),
            Err(e) => Err(e),
        }
    }

    /// Handles a key outside a search, and says what is left to do; see
    /// [`EditorView::handle_command`].
    pub fn handle_command(&mut self, key: &Key) -> (command: Command)
        requires
            old(self).wf(),
        ensures
            final(self).wf(),
            (final(self)@, command) == old(self)@.handle_command(*key),
    {
        match *key {
            Key::ArrowKey(_) | Key::ControlKey(ControlKey::Home) | Key::ControlKey(
                ControlKey::End,
            ) => {
                self.move_cursor(key);
                Command::Done
            },
            Key::FunctionKey(n) => Command::FunctionKey(n),
            Key::ControlKey(ControlKey::Escape) => Command::Escape,
            Key::ControlKey(ControlKey::PageUp) => {
                let nums = if self.row_offset <= usize::MAX - self.cy {
                    self.cy + self.row_offset
                } else {
                    usize::MAX
                };
                self.scroll_screen(nums, Direction::Up);
                Command::Done
            },
            Key::ControlKey(ControlKey::PageDown) => {
                let nums = self.rows.len() - self.cy;
                self.scroll_screen(nums, Direction::Down);
                Command::Done
            },
            Key::ControlKey(ControlKey::Backspace) => {
                self.backspace();
                Command::Done
            },
            Key::ControlKey(ControlKey::Delete) => {
                self.delete();
                Command::Done
            },
            Key::ControlKey(ControlKey::Ctrl('f')) => Command::Find,
            Key::ControlKey(ControlKey::Ctrl('s')) => Command::Save,
            _ => {
                self.insert(*key);
                Command::Done
            },
        }
    }

    /// One turn of the editor's loop, for what the key stream gave: Ctrl-q
    /// and the end of the input end the session, any other key is handled,
    /// and an error is handed back to be told.
    pub fn run_step(&mut self, next: Result<Option<Key>, EditorError>) -> (step: RunStep)
        requires
            old(self).wf(),
        ensures
            final(self).wf(),
            match next {
                Ok(Some(key)) => if key == Key::ControlKey(ControlKey::Ctrl('q')) {
                    step is Quit && final(self)@ == old(self)@
                } else {
                    step matches RunStep::Handled(command) && (final(self)@, command) == old(
                        self,
                    )@.handle_command(key)
                },
                Ok(None) => step is EndOfInput && final(self)@ == old(self)@,
                Err(e) => step == RunStep::Failed(e) && final(self)@ == old(self)@,
            },
    {
        match next {
            Ok(Some(key)) => {
                if key == Key::ControlKey(ControlKey::Ctrl('q')) {
                    RunStep::Quit
                } else {
                    RunStep::Handled(self.handle_command(&key))
                }
            },
            Ok(None) => RunStep::EndOfInput,
            Err(e) => RunStep::Failed(e),
        }
    }
}

} // verus!
