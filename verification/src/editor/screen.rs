//! What the terminal shows of an editor: the text of each line of the
//! viewport, of the status bar and of the message bar, and the place of the
//! cursor on the screen.

use crate::editor::row::render_keys;
use crate::editor::view::EditorView;
use crate::editor::Editor;
use crate::text::{decimal_text, push_decimal};
use crate::utils::color::{BG_BLUE, BG_RED, RESET};
use vstd::prelude::*;

verus! {

/// What the welcome line starts with, before the version.
pub const WELCOME_LEAD: &'static str = "fim -- version: ";

/// What stands for the name of a file that has none.
pub const NO_NAME: &'static str = "[No Name]";

/// `count` spaces.
pub open spec fn spaces(count: nat) -> Seq<char> {
    Seq::new(count, |i: int| ' ')
}

/// `content` in exactly `width` columns: cut where it is longer, filled
/// with spaces where it is shorter.
pub open spec fn fit_text(content: Seq<char>, width: nat) -> Seq<char> {
    if content.len() > width {
        content.take(width as int)
    } else {
        content + spaces((width - content.len()) as nat)
    }
}

/// The content of the status bar: the name of the file, a mark where the
/// text was changed, the row of the cursor among the rows, and its column,
/// both counted from one.
pub open spec fn status_content(editor: EditorView, file_name: Seq<char>) -> Seq<char> {
    file_name + (if editor.is_dirty {
        "(modified)"@
    } else {
        Seq::empty()
    }) + " Ln "@ + decimal_text(editor.cy + 1) + "/"@ + decimal_text(editor.rows.len()) + ", Col "@
        + decimal_text(editor.cx + 1)
}

/// What the line `line` of the viewport shows of the text: the part of its
/// row that lies in the columns of the viewport, or nothing behind the last
/// row.
pub open spec fn visible_line(editor: EditorView, line: nat) -> Option<Seq<char>> {
    if line + editor.row_offset < editor.rows.len() {
        let text = render_keys(editor.rows[line as int + editor.row_offset]);
        if editor.col_offset >= text.len() {
            Some(Seq::empty())
        } else if editor.col_offset + editor.max_col >= text.len() {
            Some(text.skip(editor.col_offset as int))
        } else {
            Some(text.subrange(editor.col_offset as int, editor.col_offset as int + editor.max_col))
        }
    } else {
        None
    }
}

/// The welcome line for a viewport of `max_col` columns: the lead and the
/// version, cut to the viewport.
pub open spec fn welcome_text(version: Seq<char>, max_col: nat) -> Seq<char> {
    if (WELCOME_LEAD@ + version).len() > max_col {
        (WELCOME_LEAD@ + version).take(max_col as int)
    } else {
        WELCOME_LEAD@ + version
    }
}

/// `content` in exactly `width` columns.
pub fn fit(content: &str, width: usize) -> (fitted: String)
    ensures
        fitted@ == fit_text(content@, width as nat),
{
    let len = content.unicode_len();
    if len > width {
        let fitted = String::from_str(content.substring_char(0, width));
        assert(content@.subrange(0, width as int) =~= content@.take(width as int));
        fitted
    } else {
        let mut fitted = String::from_str(content);
        let mut i: usize = len;
        assert(fitted@ =~= content@ + spaces(0));
        while i < width
            invariant
                len <= i <= width,
                len == content@.len(),
                fitted@ == content@ + spaces((i - len) as nat),
            decreases width - i,
        {
            fitted.push(' ');
            i += 1;
            assert(fitted@ =~= content@ + spaces((i - len) as nat));
        }
        fitted
    }
}

/// The welcome line for a viewport of `max_col` columns, and the column at
/// which it starts so that it stands in the middle.
pub fn welcome(version: &str, max_col: usize) -> (r: (usize, String))
    ensures
        r.1@ == welcome_text(version@, max_col as nat),
        r.0 == (max_col - r.1@.len()) / 2,
{
    let mut text = String::from_str(WELCOME_LEAD);
    text.append(version);
    let len = text.as_str().unicode_len();
    if len > max_col {
        let cut = String::from_str(text.as_str().substring_char(0, max_col));
        assert(text@.subrange(0, max_col as int) =~= text@.take(max_col as int));
        (0, cut)
    } else {
        ((max_col - len) / 2, text)
    }
}

impl Editor {
    /// What the line `line` of the viewport shows of the text, or `None`
    /// behind the last row.
    pub fn visible_text(&self, line: usize) -> (text: Option<String>)
        requires
            self.wf(),
        ensures
            match text {
                Some(s) => visible_line(self@, line as nat) == Some(s@),
                None => visible_line(self@, line as nat) is None,
            },
    {
        let rows = self.rows();
        let row_offset = self.row_offset();
        if line >= rows.len() || row_offset >= rows.len() - line {
            return None;
        }
        let row = &rows[line + row_offset];
        let rendered = row.rendered();
        let len = row.display_len();
        proof {
            crate::editor::row::lemma_render_len(row@);
        }
        let from = self.col_offset();
        let max_col = self.max_col();
        if from >= len {
            Some(String::new())
        } else if max_col >= len - from {
            assert(rendered@.subrange(from as int, len as int) =~= rendered@.skip(from as int));
            Some(String::from_str(rendered.substring_char(from, len)))
        } else {
            Some(String::from_str(rendered.substring_char(from, from + max_col)))
        }
    }

    /// Whether the line `line` of the viewport shows the welcome: a third
    /// down the viewport of an editor without rows.
    pub fn shows_welcome(&self, line: usize) -> (shown: bool)
        ensures
            shown == (self@.rows.len() == 0 && line + self@.row_offset + 1 == self@.max_row / 3),
    {
        let row_offset = self.row_offset();
        let third = self.max_row() / 3;
        self.rows().len() == 0 && third >= 1 && line <= third - 1 && row_offset == third - 1 - line
    }

    /// The text of the status bar in its colors, for the file `file_name`.
    pub fn status_bar(&self, file_name: &str) -> (bar: String)
        ensures
            bar@ == BG_RED@ + fit_text(status_content(self@, file_name@), self@.max_col) + RESET@,
    {
        let mut content = String::from_str(file_name);
        if self.is_dirty() {
            content.append("(modified)");
        } else {
            assert(content@ + Seq::<char>::empty() =~= content@);
        }
        content.append(" Ln ");
        push_decimal(&mut content, self.cy() as u128 + 1);
        content.append("/");
        push_decimal(&mut content, self.rows().len() as u128);
        content.append(", Col ");
        push_decimal(&mut content, self.cx() as u128 + 1);
        let fitted = fit(content.as_str(), self.max_col());
        let mut bar = String::from_str(BG_RED);
        bar.append(fitted.as_str());
        bar.append(RESET);
        bar
    }

    /// The text of the message bar in its colors, while the message is
    /// shown by the clock; without a message there is no bar.
    pub fn message_bar(&self) -> (bar: Option<String>)
        ensures
            self@.message is None ==> bar is None,
            bar matches Some(s) ==> self@.message matches Some(m) && s@ == BG_BLUE@ + fit_text(
                m,
                self@.max_col,
            ) + RESET@,
    {
        let shown = match self.message() {
            Some(message) => message.is_shown(),
            None => false,
        };
        self.message_bar_when(shown)
    }

    /// The text of the message bar in its colors, given whether the message
    /// is still `shown`: the message in the columns of the viewport where
    /// there is one and it is shown, else no bar.
    pub fn message_bar_when(&self, shown: bool) -> (bar: Option<String>)
        ensures
            bar is Some <==> shown && self@.message is Some,
            bar matches Some(s) ==> self@.message matches Some(m) && s@ == BG_BLUE@ + fit_text(
                m,
                self@.max_col,
            ) + RESET@,
    {
        match self.message() {
            Some(message) => {
                if shown {
                    let fitted = fit(message.text(), self.max_col());
                    let mut bar = String::from_str(BG_BLUE);
                    bar.append(fitted.as_str());
                    bar.append(RESET);
                    Some(bar)
                } else {
                    None
                }
            },
            None => None,
        }
    }

    /// The column and the line of the cursor on the screen; the origin
    /// where the viewport has left the cursor behind.
    pub fn screen_cursor(&self) -> (at: (usize, usize))
        ensures
            at.0 == if self@.cx >= self@.col_offset {
                self@.cx - self@.col_offset
            } else {
                0
            },
            at.1 == if self@.cy >= self@.row_offset {
                self@.cy - self@.row_offset
            } else {
                0
            },
    {
        let x = if self.cx() >= self.col_offset() {
            self.cx() - self.col_offset()
        } else {
            0
        };
        let y = if self.cy() >= self.row_offset() {
            self.cy() - self.row_offset()
        } else {
            0
        };
        (x, y)
    }
}

} // verus!
