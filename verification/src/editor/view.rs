//! The state of an editor as a value, and what each operation makes of it.
//!
//! The cursor `(cx, cy)` is a column of rendered text and a row; it may rest
//! one column behind the end of a row and one row behind the last. The
//! viewport shows `max_row` rows from `row_offset` on and `max_col` columns
//! from `col_offset` on.

use crate::editor::key::{ControlKey, Direction, Key};
use crate::editor::row::{
    backspace_keys, backspace_width, display_width, insert_key, lemma_concat,
    lemma_raw_index_covers, lemma_raw_index_from, lemma_render_start_monotonic, raw_index_at,
    raw_text, render_keys, render_span, render_start,
};
use crate::editor::{Command, SEARCH_PROMPT, SEARCH_PROMPT_LEN};
use crate::reader::key_stream::{literal_key, literal_keys};
use crate::utils::matches_at;
use vstd::prelude::*;

verus! {

/// The state of an editor.
pub struct EditorView {
    /// The column of the cursor.
    pub cx: nat,
    /// The row of the cursor.
    pub cy: nat,
    /// The first row that the viewport shows.
    pub row_offset: nat,
    /// The first column that the viewport shows.
    pub col_offset: nat,
    /// The number of columns of the viewport.
    pub max_col: nat,
    /// The number of rows of the viewport.
    pub max_row: nat,
    /// The keys of each row.
    pub rows: Seq<Seq<Key>>,
    /// The text of the status message, if there is one.
    pub message: Option<Seq<char>>,
    /// Whether the text was changed since it was loaded or saved.
    pub is_dirty: bool,
}

/// The offset that brings position `pos` to the last place of a viewport of
/// `size` places; with no place at all, the position itself.
pub open spec fn offset_ending_at(pos: nat, size: nat) -> nat {
    if size == 0 {
        pos
    } else if pos + 1 >= size {
        (pos + 1 - size) as nat
    } else {
        0
    }
}

/// The offset nearest to `offset` that shows position `pos` in a viewport of
/// `size` places: `pos` itself where it lies before the viewport, the offset
/// that makes it the last place shown where it lies behind, else `offset`.
pub open spec fn offset_showing(offset: nat, pos: nat, size: nat) -> nat {
    if pos < offset {
        pos
    } else if pos - offset >= size {
        offset_ending_at(pos, size)
    } else {
        offset
    }
}

impl EditorView {
    /// The width of the row of the cursor; zero behind the last row.
    pub open spec fn row_len(self) -> nat {
        if self.cy < self.rows.len() {
            display_width(self.rows[self.cy as int])
        } else {
            0
        }
    }

    /// Whether the cursor lies on a row or one behind the last, not before
    /// the first row shown, and not behind the end of its row.
    pub open spec fn in_range(self) -> bool {
        &&& self.cy <= self.rows.len()
        &&& self.row_offset <= self.cy
        &&& self.cx <= self.row_len()
    }

    /// The invariant of the cursor: it lies in range and on a key boundary.
    pub open spec fn wf(self) -> bool {
        self.in_range() && self.on_key_boundary()
    }

    /// Whether the cursor stands where a key starts or at the end of its
    /// row, and not inside the columns of a key.
    pub open spec fn on_key_boundary(self) -> bool {
        self.cy < self.rows.len() ==> exists|index: int|
            0 <= index <= self.rows[self.cy as int].len() && #[trigger] render_start(
                self.rows[self.cy as int],
                index,
            ) == self.cx
    }

    /// The state with the cursor column `cx`.
    pub open spec fn with_cx(self, cx: nat) -> EditorView {
        EditorView { cx, ..self }
    }

    /// The state with the rows `rows`.
    pub open spec fn with_rows(self, rows: Seq<Seq<Key>>) -> EditorView {
        EditorView { rows, ..self }
    }

    /// The state with the message `message`.
    pub open spec fn with_message(self, message: Option<Seq<char>>) -> EditorView {
        EditorView { message, ..self }
    }

    /// The state with the text marked as changed.
    pub open spec fn dirty(self) -> EditorView {
        EditorView { is_dirty: true, ..self }
    }

    /// The cursor column brought back into its row after the row changed:
    /// the first column is shown where the row fits the viewport, and the
    /// cursor is capped to the end of the row and, inside the row, set to
    /// the start of the key that covers it.
    pub open spec fn clamp_cursor_x(self) -> EditorView {
        let capped = if self.cx > self.row_len() {
            self.row_len()
        } else {
            self.cx
        };
        EditorView {
            col_offset: if self.row_len() <= self.max_col {
                0
            } else {
                self.col_offset
            },
            cx: if capped < self.row_len() {
                render_span(
                    self.rows[self.cy as int],
                    raw_index_at(self.rows[self.cy as int], capped as int),
                ).0
            } else {
                capped
            },
            ..self
        }
    }

    /// The cursor one row down. Behind the last row it stays; the viewport
    /// scrolls one row where the cursor would leave it below.
    pub open spec fn add_cy(self) -> EditorView {
        if self.rows.len() == 0 {
            EditorView { cy: 0, ..self }
        } else if self.cy < self.rows.len() {
            EditorView {
                cy: self.cy + 1,
                row_offset: if self.cy + 1 - self.row_offset == self.max_row {
                    self.row_offset + 1
                } else {
                    self.row_offset
                },
                ..self
            }.clamp_cursor_x()
        } else {
            self.clamp_cursor_x()
        }
    }

    /// The cursor one row up. On the first row it stays; the viewport
    /// scrolls one row where the cursor would leave it above.
    pub open spec fn sub_cy(self) -> EditorView {
        if self.cy != 0 {
            EditorView {
                cy: (self.cy - 1) as nat,
                row_offset: if self.cy == self.row_offset {
                    (self.row_offset - 1) as nat
                } else {
                    self.row_offset
                },
                ..self
            }.clamp_cursor_x()
        } else {
            self.clamp_cursor_x()
        }
    }

    /// The cursor at the end of its row, which the viewport shows as its
    /// last column where the row is wider than the viewport.
    pub open spec fn endx(self) -> EditorView {
        EditorView {
            cx: self.row_len(),
            col_offset: if self.row_len() > self.max_col {
                offset_ending_at(self.row_len(), self.max_col)
            } else {
                self.col_offset
            },
            ..self
        }
    }

    /// The cursor at the start of its row, and the first column shown.
    pub open spec fn startx(self) -> EditorView {
        EditorView { cx: 0, col_offset: 0, ..self }
    }

    /// The cursor one key to the right: at the end of the key that covers
    /// its column, which the viewport then shows. At the end of a row it
    /// goes to the start of the next row, if the cursor can go down. In an
    /// empty row it stays at column 0.
    pub open spec fn add_cx(self) -> EditorView {
        if self.row_len() == 0 {
            self.with_cx(0)
        } else if self.cx < self.row_len() {
            let row = self.rows[self.cy as int];
            let end = render_span(row, raw_index_at(row, self.cx as int)).1;
            EditorView {
                cx: end,
                col_offset: if end >= self.max_col {
                    offset_ending_at(end, self.max_col)
                } else {
                    self.col_offset
                },
                ..self
            }
        } else {
            let down = self.add_cy();
            if down.cy != self.cy {
                down.startx()
            } else {
                down
            }
        }
    }

    /// The cursor one key to the left: at the start of the key that covers
    /// the column before it, and the viewport moved left by as much where
    /// the cursor would leave it. At the start of a row it goes to the end
    /// of the row above, if there is one.
    pub open spec fn sub_cx(self) -> EditorView {
        if self.cx != 0 && self.cy < self.rows.len() {
            let row = self.rows[self.cy as int];
            let start = render_span(row, raw_index_at(row, self.cx - 1)).0;
            let distance = self.cx - start;
            EditorView {
                cx: start,
                col_offset: if start < self.col_offset {
                    if self.col_offset >= distance {
                        (self.col_offset - distance) as nat
                    } else {
                        0
                    }
                } else {
                    self.col_offset
                },
                ..self
            }
        } else if self.cx != 0 {
            self
        } else {
            let up = self.sub_cy();
            if up.cy != self.cy {
                up.endx()
            } else {
                up
            }
        }
    }

    /// The cursor moved by an arrow, Home or End key; any other key moves
    /// nothing.
    pub open spec fn move_cursor(self, key: Key) -> EditorView {
        match key {
            Key::ArrowKey(Direction::Left) => self.sub_cx(),
            Key::ArrowKey(Direction::Right) => self.add_cx(),
            Key::ArrowKey(Direction::Up) => self.sub_cy(),
            Key::ArrowKey(Direction::Down) => self.add_cy(),
            Key::ControlKey(ControlKey::Home) => self.startx(),
            Key::ControlKey(ControlKey::End) => self.endx(),
            _ => self,
        }
    }

    /// The cursor moved `nums` rows up or down, one row at a time; the other
    /// directions scroll nothing.
    pub open spec fn scroll_screen(self, nums: nat, direction: Direction) -> EditorView
        decreases nums,
    {
        if nums == 0 {
            self
        } else {
            match direction {
                Direction::Up => self.scroll_screen((nums - 1) as nat, direction).sub_cy(),
                Direction::Down => self.scroll_screen((nums - 1) as nat, direction).add_cy(),
                _ => self,
            }
        }
    }

    /// The key before the cursor removed. Inside a row the key leaves its
    /// row and the cursor steps left by its width, the viewport with it
    /// where the cursor would leave it. At the start of a row the row joins
    /// the one above, and the cursor stands where they meet. Behind the last
    /// row the cursor only steps left, and at the start of the first row
    /// nothing changes.
    pub open spec fn backspace(self) -> EditorView {
        if self.cx != 0 && self.cy < self.rows.len() {
            let row = self.rows[self.cy as int];
            let width = backspace_width(row, self.cx as int);
            let cx = if width <= self.cx {
                (self.cx - width) as nat
            } else {
                0
            };
            EditorView {
                cx,
                col_offset: if cx < self.col_offset {
                    cx
                } else {
                    self.col_offset
                },
                rows: self.rows.update(self.cy as int, backspace_keys(row, self.cx as int)),
                is_dirty: true,
                ..self
            }
        } else if self.cy >= self.rows.len() {
            self.sub_cx()
        } else if self.cy == 0 {
            self
        } else {
            EditorView {
                rows: self.rows.remove(self.cy as int).update(
                    self.cy - 1,
                    self.rows[self.cy - 1] + self.rows[self.cy as int],
                ),
                is_dirty: true,
                ..self.sub_cx()
            }
        }
    }

    /// The key under the cursor removed: a step to the right, then a
    /// backspace.
    pub open spec fn delete(self) -> EditorView {
        self.add_cx().backspace()
    }

    /// `key` typed at the cursor. Behind the last row a new row is opened
    /// for it. A carriage return splits the row before the key that covers
    /// the cursor, and the cursor goes to the start of the new row. Any
    /// other key that renders to something goes into the row, and the
    /// cursor behind it. A key that renders to nothing changes nothing.
    pub open spec fn insert(self, key: Key) -> EditorView {
        let is_last_row = self.cy == self.rows.len();
        let rows = if is_last_row {
            self.rows.push(Seq::empty())
        } else {
            self.rows
        };
        let row = rows[self.cy as int];
        if key == Key::ControlKey(ControlKey::CR) {
            let index = raw_index_at(row, self.cx as int);
            let split = rows.update(self.cy as int, row.take(index)).insert(
                self.cy as int + 1,
                row.skip(index),
            );
            self.with_message(Some(Seq::empty())).with_rows(
                if is_last_row {
                    split.drop_last()
                } else {
                    split
                },
            ).add_cy().startx().dirty()
        } else if key.width() > 0 {
            self.with_rows(
                rows.update(self.cy as int, insert_key(row, self.cx as int, key)),
            ).dirty().add_cx()
        } else {
            self
        }
    }

    /// The cursor at column `col` of row `row`, and the viewport moved the
    /// least that shows it.
    pub open spec fn jump_to(self, row: nat, col: nat) -> EditorView {
        EditorView {
            cy: row,
            cx: col,
            row_offset: offset_showing(self.row_offset, row, self.max_row),
            col_offset: offset_showing(self.col_offset, col, self.max_col),
            ..self
        }
    }

    /// The cursor at the first place where the keys of `query` stand in a
    /// row: in the first row that holds them, at the column where the first
    /// of them starts. Nothing changes where no row holds them.
    pub open spec fn search(self, query: Seq<Key>) -> EditorView {
        match first_matching_row(self.rows, query, 0) {
            Some(row) => self.jump_to(
                row as nat,
                render_start(self.rows[row], first_match(self.rows[row], query).unwrap()),
            ),
            None => self,
        }
    }

    /// The rows of `keys` added behind the rows that are there.
    pub open spec fn open_file(self, keys: Seq<Key>) -> EditorView {
        self.with_rows(self.rows + lines_of(keys).0)
    }

    /// The state after an attempt to save the text: the message tells how
    /// it went, and the text counts as unchanged once it was written.
    pub open spec fn save(self, outcome: SaveView) -> EditorView {
        match outcome {
            SaveView::NoFileName => self.with_message(Some("No file name"@)),
            SaveView::Written => EditorView {
                message: Some("File saved"@),
                is_dirty: false,
                ..self
            },
            SaveView::Failed(cause) => self.with_message(Some("Error saving file: "@ + cause)),
        }
    }

    /// The state with the cursor and the viewport that `session` has kept.
    pub open spec fn restore(self, session: FindView) -> EditorView {
        EditorView {
            cx: session.saved_cx,
            cy: session.saved_cy,
            row_offset: session.saved_row_offset,
            col_offset: session.saved_col_offset,
            ..self
        }
    }

    /// The start of a search: the prompt is shown, and the session keeps
    /// the cursor and the viewport and holds an empty query.
    pub open spec fn find_start(self) -> (EditorView, FindView) {
        (
            self.with_message(Some(SEARCH_PROMPT@)),
            FindView {
                saved_cx: self.cx,
                saved_cy: self.cy,
                saved_row_offset: self.row_offset,
                saved_col_offset: self.col_offset,
                query: Seq::empty(),
                cursor: SEARCH_PROMPT_LEN as nat,
            },
        )
    }

    /// One key of a search, and whether it ends the search. An escape gives
    /// the cursor and the viewport back and ends the search; a carriage
    /// return ends it where the cursor stands. Any other key edits the
    /// query, which the message then shows behind the prompt, and the
    /// query is searched for: the cursor goes to the first place where it
    /// stands, or else back to where the session has kept it, and the
    /// message says that nothing was found.
    pub open spec fn find_key(self, session: FindView, key: Key) -> (EditorView, FindView, bool) {
        if key == Key::ControlKey(ControlKey::Escape) {
            (self.with_message(None).restore(session), session, true)
        } else if key == Key::ControlKey(ControlKey::CR) {
            (self.with_message(None), session, true)
        } else {
            let typed = session.typed(key, self.max_col);
            let shown = if session.shows_query_after(key) {
                self.with_message(Some(SEARCH_PROMPT@ + render_keys(typed.query)))
            } else {
                self
            };
            (
                if first_matching_row(self.rows, typed.query, 0) is Some {
                    shown.search(typed.query)
                } else {
                    shown.restore(typed).with_message(
                        Some("Not Found: "@ + render_keys(typed.query)),
                    )
                },
                typed,
                false,
            )
        }
    }

    /// The end of a search at a key that could not be read: the cursor and
    /// the viewport are given back, and the message holds the text of the
    /// error.
    pub open spec fn find_failed(self, session: FindView, text: Seq<char>) -> EditorView {
        self.restore(session).with_message(Some("Error reading Key: "@ + text))
    }

    /// How many rows a page up moves: the row of the cursor and the first
    /// row shown together, as far as a machine number holds them.
    pub open spec fn page_up_rows(self) -> nat {
        if self.cy + self.row_offset <= usize::MAX {
            self.cy + self.row_offset
        } else {
            usize::MAX as nat
        }
    }

    /// What a key does outside a search, and what is left to do for the one
    /// who holds the terminal and the file. Arrows, Home and End move the
    /// cursor, PageUp and PageDown move it by rows, Backspace and Delete
    /// remove a key, Ctrl-f asks for a search and Ctrl-s for a save, a
    /// function key and an escape are only told; every other key is typed.
    pub open spec fn handle_command(self, key: Key) -> (EditorView, Command) {
        match key {
            Key::ArrowKey(_) => (self.move_cursor(key), Command::Done),
            Key::ControlKey(ControlKey::Home) => (self.move_cursor(key), Command::Done),
            Key::ControlKey(ControlKey::End) => (self.move_cursor(key), Command::Done),
            Key::FunctionKey(n) => (self, Command::FunctionKey(n)),
            Key::ControlKey(ControlKey::Escape) => (self, Command::Escape),
            Key::ControlKey(ControlKey::PageUp) => (
                self.scroll_screen(self.page_up_rows(), Direction::Up),
                Command::Done,
            ),
            Key::ControlKey(ControlKey::PageDown) => (
                self.scroll_screen((self.rows.len() - self.cy) as nat, Direction::Down),
                Command::Done,
            ),
            Key::ControlKey(ControlKey::Backspace) => (self.backspace(), Command::Done),
            Key::ControlKey(ControlKey::Delete) => (self.delete(), Command::Done),
            Key::ControlKey(ControlKey::Ctrl(c)) => if c == 'f' {
                (self, Command::Find)
            } else if c == 's' {
                (self, Command::Save)
            } else {
                (self.insert(key), Command::Done)
            },
            _ => (self.insert(key), Command::Done),
        }
    }
}

/// The content of a [`SaveOutcome`].
pub enum SaveView {
    NoFileName,
    Written,
    Failed(Seq<char>),
}

/// The state of a search: the cursor and the viewport to go back to, the
/// keys searched for, and the column of the cursor in the prompt line.
pub struct FindView {
    pub saved_cx: nat,
    pub saved_cy: nat,
    pub saved_row_offset: nat,
    pub saved_col_offset: nat,
    pub query: Seq<Key>,
    pub cursor: nat,
}

impl FindView {
    /// Whether the session belongs to the editor state `editor`: the cursor
    /// that it has kept is one of that state.
    pub open spec fn fits(self, editor: EditorView) -> bool {
        editor.restore(self).wf()
    }

    /// The session after `key` was typed into the prompt of a viewport of
    /// `max_col` columns. A backspace removes a key of the query and steps
    /// left; the arrows left and right step within the prompt line; any
    /// other key joins the query, if it renders to something, and steps
    /// right while the viewport has room.
    pub open spec fn typed(self, key: Key, max_col: nat) -> FindView {
        match key {
            Key::ControlKey(ControlKey::Backspace) => if self.query.len() > 0 {
                FindView {
                    query: backspace_keys(self.query, self.cursor as int),
                    cursor: self.stepped_left(),
                    ..self
                }
            } else {
                self
            },
            Key::ArrowKey(Direction::Left) => FindView { cursor: self.stepped_left(), ..self },
            Key::ArrowKey(Direction::Right) => FindView {
                cursor: if self.cursor < display_width(self.query) {
                    self.cursor + 1
                } else {
                    self.cursor
                },
                ..self
            },
            _ => FindView {
                query: if key.width() > 0 {
                    self.query.push(key)
                } else {
                    self.query
                },
                cursor: if self.cursor + 1 < max_col {
                    self.cursor + 1
                } else {
                    self.cursor
                },
                ..self
            },
        }
    }

    /// The prompt cursor one column to the left, but not into the prompt.
    pub open spec fn stepped_left(self) -> nat {
        if self.cursor > SEARCH_PROMPT_LEN {
            (self.cursor - 1) as nat
        } else {
            self.cursor
        }
    }

    /// Whether the message shows the query after `key`: always, but after a
    /// backspace in an empty query.
    pub open spec fn shows_query_after(self, key: Key) -> bool {
        !(key == Key::ControlKey(ControlKey::Backspace) && self.query.len() == 0)
    }
}

/// The first index from `from` on at which `query` stands in `keys`.
pub open spec fn first_match_from(keys: Seq<Key>, query: Seq<Key>, from: int) -> Option<int>
    decreases keys.len() - from,
{
    if from < 0 || from + query.len() > keys.len() {
        None
    } else if matches_at(keys, query, from) {
        Some(from)
    } else {
        first_match_from(keys, query, from + 1)
    }
}

/// The first index at which `query` stands in `keys`.
pub open spec fn first_match(keys: Seq<Key>, query: Seq<Key>) -> Option<int> {
    first_match_from(keys, query, 0)
}

/// The first row from `from` on in which `query` stands.
pub open spec fn first_matching_row(rows: Seq<Seq<Key>>, query: Seq<Key>, from: int) -> Option<int>
    decreases rows.len() - from,
{
    if from < 0 || from >= rows.len() {
        None
    } else if first_match(rows[from], query) is Some {
        Some(from)
    } else {
        first_matching_row(rows, query, from + 1)
    }
}

/// The lines of `keys`, and the keys behind the last line: a line feed ends
/// a line, a carriage return is dropped, every other key belongs to its
/// line.
pub open spec fn lines_of(keys: Seq<Key>) -> (Seq<Seq<Key>>, Seq<Key>)
    decreases keys.len(),
{
    if keys.len() == 0 {
        (Seq::empty(), Seq::empty())
    } else {
        let (lines, open) = lines_of(keys.drop_last());
        if keys.last() == Key::ControlKey(ControlKey::CR) {
            (lines, open)
        } else if keys.last() == Key::ControlKey(ControlKey::LF) {
            (lines.push(open), Seq::empty())
        } else {
            (lines, open.push(keys.last()))
        }
    }
}

/// The text of a file that holds `rows`: the text of each row, tabs as
/// tabs, and a line feed behind each.
pub open spec fn file_text(rows: Seq<Seq<Key>>) -> Seq<char>
    decreases rows.len(),
{
    if rows.len() == 0 {
        Seq::empty()
    } else {
        file_text(rows.drop_last()) + raw_text(rows.last()) + seq!['\n']
    }
}

/// A position that the viewport was moved to show is shown, where the
/// viewport has any place at all, and the offset does not pass it.
pub proof fn lemma_offset_showing(offset: nat, pos: nat, size: nat)
    ensures
        offset_showing(offset, pos, size) <= pos,
        size > 0 ==> pos < offset_showing(offset, pos, size) + size,
{
}

/// What the first match from `from` on is: the keys stand at it and at no
/// index between; without one they stand nowhere from `from` on.
pub proof fn lemma_first_match_from(keys: Seq<Key>, query: Seq<Key>, from: int)
    requires
        0 <= from,
    ensures
        match first_match_from(keys, query, from) {
            Some(at) => from <= at && matches_at(keys, query, at) && forall|j: int|
                from <= j < at ==> !matches_at(keys, query, j),
            None => forall|j: int| from <= j ==> !matches_at(keys, query, j),
        },
    decreases keys.len() - from,
{
    if from + query.len() <= keys.len() && !matches_at(keys, query, from) {
        lemma_first_match_from(keys, query, from + 1);
    }
}

/// What the first matching row from `from` on is: `query` stands in it and
/// in no row between; without one it stands in no row from `from` on.
pub proof fn lemma_first_matching_row(rows: Seq<Seq<Key>>, query: Seq<Key>, from: int)
    requires
        0 <= from,
    ensures
        match first_matching_row(rows, query, from) {
            Some(row) => from <= row < rows.len() && first_match(rows[row], query) is Some
                && forall|i: int| from <= i < row ==> first_match(rows[i], query) is None,
            None => forall|i: int| from <= i < rows.len() ==> first_match(rows[i], query) is None,
        },
    decreases rows.len() - from,
{
    if from < rows.len() && first_match(rows[from], query) is None {
        lemma_first_matching_row(rows, query, from + 1);
    }
}

/// The width of a row without one of its keys.
pub proof fn lemma_width_without(keys: Seq<Key>, index: int)
    requires
        0 <= index < keys.len(),
    ensures
        display_width(keys.remove(index)) + keys[index].width() == display_width(keys),
{
    assert(keys.remove(index) =~= keys.take(index) + keys.skip(index + 1));
    lemma_concat(keys.take(index), keys.skip(index + 1));
    assert(keys =~= keys.take(index) + seq![keys[index]] + keys.skip(index + 1));
    lemma_concat(keys.take(index) + seq![keys[index]], keys.skip(index + 1));
    lemma_concat(keys.take(index), seq![keys[index]]);
    assert(seq![keys[index]].drop_last() =~= Seq::<Key>::empty());
    assert(display_width(seq![keys[index]].drop_last()) == 0);
    assert(seq![keys[index]].last() == keys[index]);
    assert(display_width(seq![keys[index]]) == keys[index].width());
}

/// The width of a row with one more key.
pub proof fn lemma_width_with(keys: Seq<Key>, index: int, key: Key)
    requires
        0 <= index <= keys.len(),
    ensures
        display_width(keys.insert(index, key)) == display_width(keys) + key.width(),
{
    assert(keys.insert(index, key).remove(index) =~= keys);
    lemma_width_without(keys.insert(index, key), index);
}

/// Whether `text` can stand in a file as it is: each character is a line
/// feed, a tab or no control character.
pub open spec fn is_file_text(text: Seq<char>) -> bool {
    forall|i: int|
        0 <= i < text.len() ==> text[i] == '\n' || text[i] == '\t' || (text[i] as u32 >= 0x20
            && text[i] != '\u{7F}')
}

/// The text of a file is the text of the lines of its keys and of what
/// follows the last line feed.
pub proof fn lemma_lines_hold_the_text(text: Seq<char>)
    requires
        is_file_text(text),
    ensures
        file_text(lines_of(literal_keys(text)).0) + raw_text(lines_of(literal_keys(text)).1)
            == text,
    decreases text.len(),
{
    let keys = literal_keys(text);
    if text.len() == 0 {
        assert(keys =~= Seq::<Key>::empty());
        assert(file_text(lines_of(keys).0) + raw_text(lines_of(keys).1) =~= text);
    } else {
        let (lines, open) = lines_of(keys.drop_last());
        let last = text.last();
        assert(keys.drop_last() =~= literal_keys(text.drop_last()));
        assert(keys.last() == literal_key(last));
        lemma_lines_hold_the_text(text.drop_last());
        assert(file_text(lines) + raw_text(open) == text.drop_last());
        assert(text =~= text.drop_last().push(last));
        if last == '\n' {
            assert(keys.last() == Key::ControlKey(ControlKey::LF));
            assert(lines_of(keys) == (lines.push(open), Seq::<Key>::empty()));
            assert(lines.push(open).drop_last() =~= lines);
            assert(lines.push(open).last() == open);
            assert(file_text(lines.push(open)) == file_text(lines) + raw_text(open) + seq!['\n']);
            assert(raw_text(Seq::<Key>::empty()) =~= Seq::<char>::empty());
            assert(file_text(lines_of(keys).0) + raw_text(lines_of(keys).1) =~= text.drop_last().push(
                last,
            ));
        } else {
            assert(keys.last().literal() == Some(last));
            assert(lines_of(keys) == (lines, open.push(keys.last())));
            assert(open.push(keys.last()).drop_last() =~= open);
            assert(open.push(keys.last()).last() == keys.last());
            assert(raw_text(open.push(keys.last())) == raw_text(open).push(last));
            assert(file_text(lines_of(keys).0) + raw_text(lines_of(keys).1) =~= text.drop_last().push(
                last,
            ));
        }
    }
}

/// A file comes back as it was read: the rows made of the keys of a text
/// whose lines each end in a line feed give that text again when they are
/// written, tabs as tabs.
pub proof fn lemma_file_round_trip(text: Seq<char>)
    requires
        is_file_text(text),
        text.len() > 0 ==> text.last() == '\n',
    ensures
        file_text(lines_of(literal_keys(text)).0) == text,
{
    lemma_lines_hold_the_text(text);
    let keys = literal_keys(text);
    if text.len() == 0 {
        assert(keys =~= Seq::<Key>::empty());
    } else {
        assert(keys.last() == literal_key(text.last()));
    }
    assert(lines_of(keys).1 =~= Seq::<Key>::empty());
    assert(raw_text(lines_of(keys).1) =~= Seq::<char>::empty());
    assert(file_text(lines_of(keys).0) + Seq::<char>::empty() =~= file_text(lines_of(keys).0));
}

/// The first key of a row starts at column 0, and the end of the row is the
/// start behind its last key.
pub proof fn lemma_row_ends(keys: Seq<Key>)
    ensures
        render_start(keys, 0) == 0,
        render_start(keys, keys.len() as int) == display_width(keys),
{
    assert(keys.take(0) =~= Seq::<Key>::empty());
    assert(keys.take(keys.len() as int) =~= keys);
}

/// A cursor at the start or at the end of its row stands on a key boundary.
pub proof fn lemma_row_ends_are_boundaries(v: EditorView)
    requires
        v.cy <= v.rows.len(),
        v.row_offset <= v.cy,
        v.cx == 0 || v.cx == v.row_len(),
    ensures
        v.wf(),
{
    if v.cy < v.rows.len() {
        lemma_row_ends(v.rows[v.cy as int]);
    }
}

/// A cursor brought back into its row stands in range and on a key
/// boundary.
pub proof fn lemma_clamp_cursor_x(v: EditorView)
    requires
        v.cy <= v.rows.len(),
        v.row_offset <= v.cy,
    ensures
        v.clamp_cursor_x().wf(),
{
    let after = v.clamp_cursor_x();
    let capped = if v.cx > v.row_len() {
        v.row_len()
    } else {
        v.cx
    };
    if capped < v.row_len() {
        let row = v.rows[v.cy as int];
        let index = raw_index_at(row, capped as int);
        lemma_raw_index_covers(row, capped as int);
        lemma_render_start_monotonic(row, index, row.len() as int);
        lemma_row_ends(row);
        assert(render_start(row, index) == after.cx);
    } else {
        lemma_row_ends_are_boundaries(after);
    }
}

/// A step down keeps the invariant of the cursor.
pub proof fn lemma_add_cy(v: EditorView)
    requires
        v.cy <= v.rows.len(),
        v.row_offset <= v.cy,
        v.rows.len() == 0 ==> v.cx == 0,
    ensures
        v.add_cy().wf(),
{
    if v.rows.len() == 0 {
    } else if v.cy < v.rows.len() {
        lemma_clamp_cursor_x(
            EditorView {
                cy: v.cy + 1,
                row_offset: if v.cy + 1 - v.row_offset == v.max_row {
                    v.row_offset + 1
                } else {
                    v.row_offset
                },
                ..v
            },
        );
    } else {
        lemma_clamp_cursor_x(v);
    }
}

/// A step up keeps the invariant of the cursor.
pub proof fn lemma_sub_cy(v: EditorView)
    requires
        v.cy <= v.rows.len(),
        v.row_offset <= v.cy,
    ensures
        v.sub_cy().wf(),
{
    if v.cy != 0 {
        lemma_clamp_cursor_x(
            EditorView {
                cy: (v.cy - 1) as nat,
                row_offset: if v.cy == v.row_offset {
                    (v.row_offset - 1) as nat
                } else {
                    v.row_offset
                },
                ..v
            },
        );
    } else {
        lemma_clamp_cursor_x(v);
    }
}

/// A step to the right keeps the invariant of the cursor.
pub proof fn lemma_add_cx(v: EditorView)
    requires
        v.in_range(),
    ensures
        v.add_cx().wf(),
{
    let after = v.add_cx();
    if v.row_len() == 0 {
        lemma_row_ends_are_boundaries(after);
    } else if v.cx < v.row_len() {
        let row = v.rows[v.cy as int];
        let index = raw_index_at(row, v.cx as int);
        lemma_raw_index_covers(row, v.cx as int);
        lemma_render_start_monotonic(row, index, index);
        lemma_render_start_monotonic(row, index + 1, row.len() as int);
        lemma_row_ends(row);
        assert(render_start(row, index + 1) == after.cx);
    } else {
        lemma_add_cy(v);
        if v.add_cy().cy != v.cy {
            lemma_row_ends_are_boundaries(after);
        }
    }
}

/// A step to the left keeps the invariant of the cursor.
pub proof fn lemma_sub_cx(v: EditorView)
    requires
        v.in_range(),
    ensures
        v.sub_cx().wf(),
{
    let after = v.sub_cx();
    if v.cx != 0 {
        let row = v.rows[v.cy as int];
        let index = raw_index_at(row, v.cx - 1);
        lemma_raw_index_covers(row, v.cx - 1);
        lemma_render_start_monotonic(row, index, row.len() as int);
        lemma_row_ends(row);
        assert(render_start(row, index) == after.cx);
    } else {
        lemma_sub_cy(v);
        if v.sub_cy().cy != v.cy {
            lemma_row_ends_are_boundaries(after);
        }
    }
}

/// A move of the cursor keeps its invariant.
pub proof fn lemma_move_cursor(v: EditorView, key: Key)
    requires
        v.wf(),
    ensures
        v.move_cursor(key).wf(),
{
    match key {
        Key::ArrowKey(Direction::Left) => lemma_sub_cx(v),
        Key::ArrowKey(Direction::Right) => lemma_add_cx(v),
        Key::ArrowKey(Direction::Up) => lemma_sub_cy(v),
        Key::ArrowKey(Direction::Down) => lemma_add_cy(v),
        Key::ControlKey(ControlKey::Home) => lemma_row_ends_are_boundaries(v.startx()),
        Key::ControlKey(ControlKey::End) => lemma_row_ends_are_boundaries(v.endx()),
        _ => {},
    }
}

/// Moving by rows keeps the invariant of the cursor.
pub proof fn lemma_scroll_screen(v: EditorView, nums: nat, direction: Direction)
    requires
        v.wf(),
    ensures
        v.scroll_screen(nums, direction).wf(),
    decreases nums,
{
    if nums > 0 {
        lemma_scroll_screen(v, (nums - 1) as nat, direction);
        let before = v.scroll_screen((nums - 1) as nat, direction);
        match direction {
            Direction::Up => lemma_sub_cy(before),
            Direction::Down => lemma_add_cy(before),
            _ => {},
        }
    }
}

/// A backspace keeps the invariant of the cursor.
pub proof fn lemma_backspace(v: EditorView)
    requires
        v.wf(),
    ensures
        v.backspace().wf(),
{
    let after = v.backspace();
    if v.cx != 0 && v.cy < v.rows.len() {
        let row = v.rows[v.cy as int];
        let shorter = backspace_keys(row, v.cx as int);
        let here = choose|index: int|
            0 <= index <= row.len() && #[trigger] render_start(row, index) == v.cx;
        lemma_row_ends(row);
        if v.cx >= display_width(row) {
            let last = row.len() - 1;
            assert(shorter =~= row.take(last));
            lemma_width_without(row, last);
            lemma_row_ends(shorter);
            assert(after.rows[after.cy as int] == shorter);
            assert(render_start(shorter, shorter.len() as int) == after.cx);
        } else {
            let index = raw_index_at(row, v.cx - 1);
            lemma_raw_index_covers(row, v.cx - 1);
            lemma_render_start_monotonic(row, index, index);
            if here <= index {
                lemma_render_start_monotonic(row, here, index);
            } else {
                lemma_render_start_monotonic(row, index + 1, here);
            }
            lemma_width_without(row, index);
            lemma_render_start_monotonic(shorter, index, shorter.len() as int);
            lemma_row_ends(shorter);
            assert(shorter.take(index) =~= row.take(index));
            assert(after.rows[after.cy as int] == shorter);
            assert(render_start(shorter, index) == after.cx);
        }
    } else if v.cy >= v.rows.len() {
        lemma_sub_cx(v);
    } else if v.cy == 0 {
    } else {
        let above = v.rows[v.cy - 1];
        let below = v.rows[v.cy as int];
        lemma_sub_cx(v);
        lemma_row_ends(above);
        lemma_concat(above, below);
        assert((above + below).take(above.len() as int) =~= above);
        assert(after.cy == v.cy - 1);
        assert(after.rows[after.cy as int] == above + below);
        assert(render_start(above + below, above.len() as int) == after.cx);
    }
}

/// Typing a key keeps the invariant of the cursor.
pub proof fn lemma_insert(v: EditorView, key: Key)
    requires
        v.wf(),
    ensures
        v.insert(key).wf(),
{
    let after = v.insert(key);
    let is_last_row = v.cy == v.rows.len();
    let rows = if is_last_row {
        v.rows.push(Seq::empty())
    } else {
        v.rows
    };
    let row = rows[v.cy as int];
    if key == Key::ControlKey(ControlKey::CR) {
        let index = raw_index_at(row, v.cx as int);
        let split = rows.update(v.cy as int, row.take(index)).insert(
            v.cy as int + 1,
            row.skip(index),
        );
        let kept = if is_last_row {
            split.drop_last()
        } else {
            split
        };
        let moved = v.with_message(Some(Seq::empty())).with_rows(kept).add_cy();
        lemma_add_cy(v.with_message(Some(Seq::empty())).with_rows(kept));
        lemma_row_ends_are_boundaries(moved.startx());
    } else if key.width() > 0 {
        lemma_raw_index_from(row, v.cx as int, 0);
        lemma_width_with(row, raw_index_at(row, v.cx as int), key);
        lemma_add_cx(
            v.with_rows(rows.update(v.cy as int, insert_key(row, v.cx as int, key))).dirty(),
        );
    }
}

/// A search keeps the invariant of the cursor, and where it finds its keys
/// the viewport shows the cursor, if the viewport has any place at all.
pub proof fn lemma_search(v: EditorView, query: Seq<Key>)
    requires
        v.wf(),
    ensures
        v.search(query).wf(),
        first_matching_row(v.rows, query, 0) is Some && v.max_row > 0 ==> v.search(
            query,
        ).row_offset <= v.search(query).cy < v.search(query).row_offset + v.max_row,
        first_matching_row(v.rows, query, 0) is Some && v.max_col > 0 ==> v.search(
            query,
        ).col_offset <= v.search(query).cx < v.search(query).col_offset + v.max_col,
{
    if first_matching_row(v.rows, query, 0) is Some {
        lemma_first_matching_row(v.rows, query, 0);
        let row = first_matching_row(v.rows, query, 0).unwrap();
        let keys = v.rows[row];
        lemma_first_match_from(keys, query, 0);
        let at = first_match(keys, query).unwrap();
        lemma_render_start_monotonic(keys, at, keys.len() as int);
        lemma_row_ends(keys);
        lemma_offset_showing(v.row_offset, row as nat, v.max_row);
        lemma_offset_showing(v.col_offset, render_start(keys, at), v.max_col);
        assert(render_start(keys, at) == v.search(query).cx);
    }
}

/// The cursor always stands on a row or one behind the last, in its row,
/// and where a key starts or at the end of the row, never inside the columns
/// of a tab: every key that the editor handles keeps this.
pub proof fn lemma_cursor_invariant(v: EditorView, key: Key)
    requires
        v.wf(),
    ensures
        v.handle_command(key).0.wf(),
{
    match key {
        Key::ArrowKey(_) => lemma_move_cursor(v, key),
        Key::ControlKey(ControlKey::Home) => lemma_move_cursor(v, key),
        Key::ControlKey(ControlKey::End) => lemma_move_cursor(v, key),
        Key::FunctionKey(_) => {},
        Key::ControlKey(ControlKey::Escape) => {},
        Key::ControlKey(ControlKey::PageUp) => {
            lemma_scroll_screen(v, v.page_up_rows(), Direction::Up);
        },
        Key::ControlKey(ControlKey::PageDown) => {
            lemma_scroll_screen(v, (v.rows.len() - v.cy) as nat, Direction::Down);
        },
        Key::ControlKey(ControlKey::Backspace) => {
            lemma_backspace(v);
        },
        Key::ControlKey(ControlKey::Delete) => {
            lemma_add_cx(v);
            lemma_backspace(v.add_cx());
        },
        Key::ControlKey(ControlKey::Ctrl(c)) => {
            if c != 'f' && c != 's' {
                lemma_insert(v, key);
            }
        },
        _ => {
            lemma_insert(v, key);
        },
    }
}

} // verus!
