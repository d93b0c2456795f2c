//! One line of text: the keys that were typed, and what they look like.
//!
//! A row owns its keys in typed order and the text they render to. The text
//! is a function of the keys, so a row is known by its keys alone, and a
//! position in the text can be mapped to the key that covers it and back.

use crate::editor::key::{ControlKey, Key, TAB_STOP};
use crate::reader::key_stream::{literal_key, literal_keys};
use vstd::prelude::*;

verus! {

/// The text that `keys` render to: the renderings of the keys in order.
pub open spec fn render_keys(keys: Seq<Key>) -> Seq<char>
    decreases keys.len(),
{
    if keys.len() == 0 {
        Seq::empty()
    } else {
        render_keys(keys.drop_last()) + keys.last().rendering()
    }
}

/// The number of columns that `keys` occupy: the sum of their widths.
pub open spec fn display_width(keys: Seq<Key>) -> nat
    decreases keys.len(),
{
    if keys.len() == 0 {
        0
    } else {
        display_width(keys.drop_last()) + keys.last().width()
    }
}

/// The text that `keys` stand for: the literal characters in order, a tab
/// key as a tab character, every other key left out.
pub open spec fn raw_text(keys: Seq<Key>) -> Seq<char>
    decreases keys.len(),
{
    if keys.len() == 0 {
        Seq::empty()
    } else {
        match keys.last().literal() {
            Some(c) => raw_text(keys.drop_last()).push(c),
            None => raw_text(keys.drop_last()),
        }
    }
}

/// The column at which the key at `index` starts: the width of the keys
/// before it.
pub open spec fn render_start(keys: Seq<Key>, index: int) -> nat {
    display_width(keys.take(index))
}

/// The span of columns `(start, end)` that the key at `index` covers; past
/// the last key, the empty span at the end of the line.
pub open spec fn render_span(keys: Seq<Key>, index: int) -> (nat, nat) {
    if 0 <= index < keys.len() {
        (render_start(keys, index), render_start(keys, index) + keys[index].width())
    } else {
        (display_width(keys), display_width(keys))
    }
}

/// The first index from `from` on whose key ends behind column `pos`, or the
/// number of keys where there is none.
pub open spec fn raw_index_from(keys: Seq<Key>, pos: int, from: int) -> int
    decreases keys.len() - from,
{
    if from < 0 || from >= keys.len() {
        keys.len() as int
    } else if render_start(keys, from + 1) > pos {
        from
    } else {
        raw_index_from(keys, pos, from + 1)
    }
}

/// The index of the key that covers column `pos`: the first key whose end
/// lies behind `pos`, or the number of keys where the line ends at or before
/// `pos`.
pub open spec fn raw_index_at(keys: Seq<Key>, pos: int) -> int {
    raw_index_from(keys, pos, 0)
}

/// `keys` after `key` was typed at column `at`: it goes before the key that
/// covers `at`, or to the end; a key that renders to nothing is not taken.
pub open spec fn insert_key(keys: Seq<Key>, at: int, key: Key) -> Seq<Key> {
    if key.width() == 0 {
        keys
    } else {
        keys.insert(raw_index_at(keys, at), key)
    }
}

/// The index of the key that a backspace at column `at` removes: the last
/// key where `at` is at or behind the end of the line, else the key that
/// covers the column before `at`; none in an empty line or at column 0.
pub open spec fn backspace_index(keys: Seq<Key>, at: int) -> Option<int> {
    if at >= display_width(keys) {
        if keys.len() > 0 {
            Some(keys.len() - 1)
        } else {
            None
        }
    } else if at <= 0 {
        None
    } else {
        Some(raw_index_at(keys, at - 1))
    }
}

/// `keys` after a backspace at column `at`.
pub open spec fn backspace_keys(keys: Seq<Key>, at: int) -> Seq<Key> {
    match backspace_index(keys, at) {
        Some(index) => keys.remove(index),
        None => keys,
    }
}

/// The width that a backspace at column `at` removes.
pub open spec fn backspace_width(keys: Seq<Key>, at: int) -> nat {
    match backspace_index(keys, at) {
        Some(index) => keys[index].width(),
        None => 0,
    }
}

/// The text of a line is as long as the line is wide.
pub proof fn lemma_render_len(keys: Seq<Key>)
    ensures
        render_keys(keys).len() == display_width(keys),
    decreases keys.len(),
{
    if keys.len() > 0 {
        lemma_render_len(keys.drop_last());
        keys.last().lemma_width_is_rendering_len();
    }
}

/// Rendering, width and text go through concatenation.
pub proof fn lemma_concat(a: Seq<Key>, b: Seq<Key>)
    ensures
        render_keys(a + b) == render_keys(a) + render_keys(b),
        display_width(a + b) == display_width(a) + display_width(b),
        raw_text(a + b) == raw_text(a) + raw_text(b),
    decreases b.len(),
{
    if b.len() == 0 {
        assert(a + b =~= a);
        assert(render_keys(a) + render_keys(b) =~= render_keys(a));
        assert(raw_text(a) + raw_text(b) =~= raw_text(a));
    } else {
        assert((a + b).drop_last() =~= a + b.drop_last());
        assert((a + b).last() == b.last());
        lemma_concat(a, b.drop_last());
        assert(render_keys(a + b) =~= render_keys(a) + render_keys(b));
        assert(raw_text(a + b) =~= raw_text(a) + raw_text(b));
    }
}

/// The start columns of the keys do not decrease along the line, and none
/// lies behind its end.
pub proof fn lemma_render_start_monotonic(keys: Seq<Key>, i: int, j: int)
    requires
        0 <= i <= j <= keys.len(),
    ensures
        render_start(keys, i) <= render_start(keys, j) <= display_width(keys),
        j < keys.len() ==> render_start(keys, j + 1) == render_start(keys, j) + keys[j].width(),
{
    assert(keys.take(j) =~= keys.take(i) + keys.subrange(i, j));
    lemma_concat(keys.take(i), keys.subrange(i, j));
    assert(keys =~= keys.take(j) + keys.skip(j));
    lemma_concat(keys.take(j), keys.skip(j));
    if j < keys.len() {
        assert(keys.take(j + 1).drop_last() =~= keys.take(j));
    }
}

/// What the key index of a column is: no key before it ends behind the
/// column, and the key at it does, if there is one.
pub proof fn lemma_raw_index_from(keys: Seq<Key>, pos: int, from: int)
    requires
        0 <= from <= keys.len(),
    ensures
        from <= raw_index_from(keys, pos, from) <= keys.len(),
        forall|j: int|
            from <= j < raw_index_from(keys, pos, from) ==> #[trigger] render_start(keys, j + 1)
                <= pos,
        raw_index_from(keys, pos, from) < keys.len() ==> render_start(
            keys,
            raw_index_from(keys, pos, from) + 1,
        ) > pos,
    decreases keys.len() - from,
{
    if from < keys.len() && render_start(keys, from + 1) <= pos {
        lemma_raw_index_from(keys, pos, from + 1);
    }
}

/// The index with the properties of the key index of a column is that index.
pub proof fn lemma_raw_index_unique(keys: Seq<Key>, pos: int, index: int)
    requires
        0 <= index <= keys.len(),
        forall|j: int| 0 <= j < index ==> #[trigger] render_start(keys, j + 1) <= pos,
        index < keys.len() ==> render_start(keys, index + 1) > pos,
    ensures
        raw_index_at(keys, pos) == index,
{
    lemma_raw_index_from(keys, pos, 0);
    let found = raw_index_at(keys, pos);
    if found < index {
        assert(render_start(keys, found + 1) <= pos);
    } else if index < found {
        assert(render_start(keys, index + 1) <= pos);
    }
}

/// A column inside the line is covered by the key that its key index names.
pub proof fn lemma_raw_index_covers(keys: Seq<Key>, pos: int)
    requires
        0 <= pos < display_width(keys),
    ensures
        0 <= raw_index_at(keys, pos) < keys.len(),
        render_span(keys, raw_index_at(keys, pos)).0 <= pos < render_span(
            keys,
            raw_index_at(keys, pos),
        ).1,
{
    lemma_raw_index_from(keys, pos, 0);
    let index = raw_index_at(keys, pos);
    assert(keys.take(keys.len() as int) =~= keys);
    if index == keys.len() {
        assert(render_start(keys, (keys.len() - 1) + 1) <= pos);
    }
    lemma_render_start_monotonic(keys, index, index);
    if index > 0 {
        assert(render_start(keys, (index - 1) + 1) <= pos);
    } else {
        assert(keys.take(0) =~= Seq::<Key>::empty());
    }
}

/// A column at or behind the end of the line has the number of keys as its
/// key index.
pub proof fn lemma_raw_index_at_end(keys: Seq<Key>, pos: int)
    requires
        pos >= display_width(keys),
    ensures
        raw_index_at(keys, pos) == keys.len(),
{
    lemma_raw_index_from(keys, pos, 0);
    let index = raw_index_at(keys, pos);
    if index < keys.len() {
        lemma_render_start_monotonic(keys, index + 1, keys.len() as int);
    }
}

/// Every column of a row maps to a key and back: the key index of a column
/// inside the row names a key whose span holds the column, and the key index
/// of the column at the end of the row is the number of keys, whose span is
/// the empty one at the end.
pub proof fn lemma_position_round_trip(row: Row, pos: nat)
    requires
        row.wf(),
        pos <= display_width(row@),
    ensures
        pos < display_width(row@) ==> raw_index_at(row@, pos as int) < row@.len() && render_span(
            row@,
            raw_index_at(row@, pos as int),
        ).0 <= pos < render_span(row@, raw_index_at(row@, pos as int)).1,
        pos == display_width(row@) ==> raw_index_at(row@, pos as int) == row@.len() && render_span(
            row@,
            raw_index_at(row@, pos as int),
        ) == (pos, pos),
{
    if pos < display_width(row@) {
        lemma_raw_index_covers(row@, pos as int);
    } else {
        lemma_raw_index_at_end(row@, pos as int);
    }
}

/// Whether `text` can stand in a line as it is: each character is a tab or
/// no control character.
pub open spec fn is_line_text(text: Seq<char>) -> bool {
    forall|i: int|
        0 <= i < text.len() ==> text[i] == '\t' || (text[i] as u32 >= 0x20 && text[i] != '\u{7F}')
}

/// The text of a line comes back from its keys as it was typed: the keys
/// that the characters of a line text stand for, taken as the keys of a row,
/// stand for that text again, tabs as tabs.
pub proof fn lemma_raw_text_round_trip(text: Seq<char>)
    requires
        is_line_text(text),
    ensures
        raw_text(literal_keys(text)) == text,
    decreases text.len(),
{
    if text.len() == 0 {
        assert(literal_keys(text) =~= Seq::<Key>::empty());
        assert(raw_text(literal_keys(text)) =~= text);
    } else {
        let keys = literal_keys(text);
        assert(keys.drop_last() =~= literal_keys(text.drop_last()));
        assert(keys.last() == literal_key(text.last()));
        assert(keys.last().literal() == Some(text.last()));
        lemma_raw_text_round_trip(text.drop_last());
        assert(raw_text(keys) =~= text);
    }
}

/// A backspace undoes an insertion: after `key` was typed at column `at`, a
/// backspace at the column behind the typed key gives the keys of before and
/// removes the width of `key`. A backspace at `at` itself does so where `at`
/// is not before the end of the longer row.
pub proof fn lemma_insert_then_backspace(keys: Seq<Key>, at: nat, key: Key)
    requires
        key.width() > 0,
    ensures
        backspace_keys(
            insert_key(keys, at as int, key),
            render_span(insert_key(keys, at as int, key), raw_index_at(keys, at as int)).1 as int,
        ) == keys,
        backspace_width(
            insert_key(keys, at as int, key),
            render_span(insert_key(keys, at as int, key), raw_index_at(keys, at as int)).1 as int,
        ) == key.width(),
        at >= display_width(keys) + key.width() ==> backspace_keys(
            insert_key(keys, at as int, key),
            at as int,
        ) == keys && backspace_width(insert_key(keys, at as int, key), at as int) == key.width(),
{
    let index = raw_index_at(keys, at as int);
    let longer = insert_key(keys, at as int, key);
    lemma_raw_index_from(keys, at as int, 0);
    assert(longer.remove(index) =~= keys);
    assert(longer.take(index) =~= keys.take(index));
    assert(longer.take(index + 1).drop_last() =~= keys.take(index));
    let start = render_start(longer, index);
    let cursor = start + key.width();
    assert(render_span(longer, index) == (start, cursor));
    assert(render_start(longer, index + 1) == cursor);
    lemma_render_start_monotonic(longer, index + 1, longer.len() as int);
    assert(longer.take(longer.len() as int) =~= longer);
    if cursor >= display_width(longer) {
        if index < keys.len() {
            // The key that covered `at` has a width of its own behind the typed key.
            assert(longer.take(index + 2).drop_last() =~= longer.take(index + 1));
            assert(longer[index + 1] == keys[index]);
            lemma_render_start_monotonic(keys, index, index);
            lemma_render_start_monotonic(longer, index + 2, longer.len() as int);
            if index > 0 {
                assert(render_start(keys, (index - 1) + 1) <= at);
            } else {
                assert(keys.take(0) =~= Seq::<Key>::empty());
            }
            assert(false);
        }
    } else {
        assert forall|j: int| 0 <= j < index implies #[trigger] render_start(longer, j + 1)
            <= cursor - 1 by {
            lemma_render_start_monotonic(longer, j + 1, index);
        }
        lemma_raw_index_unique(longer, cursor - 1, index);
    }
    if at >= display_width(keys) + key.width() {
        lemma_raw_index_at_end(keys, at as int);
        assert(longer =~= keys + seq![key]);
        lemma_concat(keys, seq![key]);
        assert(seq![key].drop_last() =~= Seq::<Key>::empty());
    }
}

/// The text of `keys` before the key at `index` is the text up to the
/// column where that key starts, and the text from it on is the rest.
pub proof fn lemma_render_split(keys: Seq<Key>, index: int)
    requires
        0 <= index <= keys.len(),
    ensures
        render_start(keys, index) <= render_keys(keys).len(),
        render_keys(keys).take(render_start(keys, index) as int) == render_keys(keys.take(index)),
        render_keys(keys).skip(render_start(keys, index) as int) == render_keys(keys.skip(index)),
{
    assert(keys =~= keys.take(index) + keys.skip(index));
    lemma_concat(keys.take(index), keys.skip(index));
    lemma_render_len(keys.take(index));
    lemma_render_len(keys);
    let head = render_keys(keys.take(index));
    let tail = render_keys(keys.skip(index));
    assert((head + tail).take(head.len() as int) =~= head);
    assert((head + tail).skip(head.len() as int) =~= tail);
}

/// A line of text.
pub struct Row {
    raw: Vec<Key>,
    rendered: String,
}

impl View for Row {
    type V = Seq<Key>;

    /// The keys of the row, in typed order.
    closed spec fn view(&self) -> Seq<Key> {
        self.raw@
    }
}

impl Row {
    /// The text that the row holds for display.
    pub closed spec fn rendered_text(&self) -> Seq<char> {
        self.rendered@
    }

    /// The invariant of a row: its text is what its keys render to.
    pub open spec fn wf(&self) -> bool {
        self.rendered_text() == render_keys(self@)
    }

    /// A row of the keys `raw`.
    pub fn new(raw: Vec<Key>) -> (row: Row)
        ensures
            row.wf(),
            row@ == raw@,
    {
        let rendered = String::new();
        let mut row = Row { raw, rendered };
        row.render();
        row
    }

    /// The number of columns of the row: the length of its text.
    pub fn display_len(&self) -> (n: usize)
        requires
            self.wf(),
        ensures
            n == self.rendered_text().len(),
            n == display_width(self@),
    {
        proof {
            lemma_render_len(self@);
        }
        self.rendered.as_str().unicode_len()
    }

    /// Appends the keys and the text of `other`.
    pub fn append(&mut self, other: &Row)
        requires
            old(self).wf(),
            other.wf(),
        ensures
            final(self).wf(),
            final(self)@ == old(self)@ + other@,
    {
        let mut i: usize = 0;
        while i < other.raw.len()
            invariant
                i <= other.raw@.len(),
                self.raw@ == old(self).raw@ + other.raw@.take(i as int),
                self.rendered == old(self).rendered,
            decreases other.raw@.len() - i,
        {
            self.raw.push(other.raw[i]);
            i += 1;
            assert(self.raw@ =~= old(self).raw@ + other.raw@.take(i as int));
        }
        assert(other.raw@.take(other.raw@.len() as int) =~= other.raw@);
        self.rendered.append(other.rendered.as_str());
        proof {
            lemma_concat(old(self)@, other@);
        }
    }

    /// The characters of the rendered text.
    pub fn chars(&self) -> (v: Vec<char>)
        ensures
            v@ == render_keys(self@),
    {
        let mut v: Vec<char> = Vec::new();
        let mut i: usize = 0;
        while i < self.raw.len()
            invariant
                i <= self.raw@.len(),
                v@ == render_keys(self.raw@.take(i as int)),
            decreases self.raw@.len() - i,
        {
            assert(self.raw@.take(i + 1).drop_last() =~= self.raw@.take(i as int));
            match self.raw[i] {
                Key::Char(c) => {
                    v.push(c);
                    assert(v@ =~= render_keys(self.raw@.take(i + 1)));
                },
                Key::ControlKey(ControlKey::Tab) => {
                    let ghost before = v@;
                    let mut j: usize = 0;
                    while j < TAB_STOP
                        invariant
                            j <= TAB_STOP,
                            v@ == before + Seq::new(j as nat, |k: int| ' '),
                        decreases TAB_STOP - j,
                    {
                        v.push(' ');
                        j += 1;
                        assert(v@ =~= before + Seq::new(j as nat, |k: int| ' '));
                    }
                },
                _ => {
                    assert(v@ =~= render_keys(self.raw@.take(i + 1)));
                },
            }
            i += 1;
        }
        assert(self.raw@.take(self.raw@.len() as int) =~= self.raw@);
        v
    }

    /// The rendered text.
    pub fn rendered(&self) -> (s: &str)
        ensures
            s@ == self.rendered_text(),
    {
        self.rendered.as_str()
    }

    /// The keys of the row.
    pub fn keys(&self) -> (keys: &[Key])
        ensures
            keys@ == self@,
    {
        self.raw.as_slice()
    }

    /// The text that the row stands for, tabs as tabs.
    pub fn raw(&self) -> (s: String)
        ensures
            s@ == raw_text(self@),
    {
        Self::raw_str(self.raw.as_slice())
    }

    /// The text that `keys` stand for, tabs as tabs.
    pub fn raw_str(keys: &[Key]) -> (s: String)
        ensures
            s@ == raw_text(keys@),
    {
        let mut raw = String::new();
        let mut i: usize = 0;
        while i < keys.len()
            invariant
                i <= keys@.len(),
                raw@ == raw_text(keys@.take(i as int)),
            decreases keys@.len() - i,
        {
            assert(keys@.take(i + 1).drop_last() =~= keys@.take(i as int));
            match keys[i] {
                Key::ControlKey(ControlKey::Tab) => {
                    raw.push('\t');
                },
                Key::Char(c) => {
                    raw.push(c);
                },
                _ => {},
            }
            i += 1;
        }
        assert(keys@.take(keys@.len() as int) =~= keys@);
        raw
    }

    /// Rebuilds the text from the keys.
    pub fn render(&mut self)
        ensures
            final(self).wf(),
            final(self)@ == old(self)@,
    {
        let mut rendered = String::new();
        let mut i: usize = 0;
        while i < self.raw.len()
            invariant
                i <= self.raw@.len(),
                self.raw@ == old(self).raw@,
                rendered@ == render_keys(self.raw@.take(i as int)),
            decreases self.raw@.len() - i,
        {
            assert(self.raw@.take(i + 1).drop_last() =~= self.raw@.take(i as int));
            let s = self.raw[i].render();
            rendered.append(s.as_str());
            i += 1;
        }
        assert(self.raw@.take(self.raw@.len() as int) =~= self.raw@);
        self.rendered = rendered;
    }

    /// The span of columns `(start, end)` that the key at `raw_index` covers;
    /// past the last key, the empty span at the end of the row.
    pub fn get_render_index(&self, raw_index: usize) -> (span: (usize, usize))
        requires
            self.wf(),
        ensures
            span.0 == render_span(self@, raw_index as int).0,
            span.1 == render_span(self@, raw_index as int).1,
    {
        let total = self.display_len();
        if raw_index >= self.raw.len() {
            return (total, total);
        }
        let mut render_index: usize = 0;
        let mut i: usize = 0;
        while i < raw_index
            invariant
                i <= raw_index < self.raw@.len(),
                render_index == render_start(self.raw@, i as int),
                total == display_width(self.raw@),
            decreases raw_index - i,
        {
            proof {
                lemma_render_start_monotonic(self.raw@, i as int, i as int);
                lemma_render_start_monotonic(self.raw@, i as int, i + 1);
            }
            render_index += self.raw[i].get_display_width();
            i += 1;
        }
        proof {
            lemma_render_start_monotonic(self.raw@, raw_index as int, raw_index as int);
            lemma_render_start_monotonic(self.raw@, raw_index as int, raw_index + 1);
        }
        (render_index, render_index + self.raw[raw_index].get_display_width())
    }

    /// Appends `key`; a key that renders to nothing is not taken.
    pub fn push(&mut self, key: Key)
        requires
            old(self).wf(),
        ensures
            final(self).wf(),
            final(self)@ == if key.width() > 0 {
                old(self)@.push(key)
            } else {
                old(self)@
            },
    {
        let rendered = key.render();
        proof {
            key.lemma_width_is_rendering_len();
        }
        if rendered.as_str().unicode_len() > 0 {
            self.raw.push(key);
            self.rendered.append(rendered.as_str());
            assert(self.raw@.drop_last() =~= old(self).raw@);
        }
    }

    /// The index of the key that covers column `render_index`: the first
    /// key whose end lies behind it, or the number of keys where the row
    /// ends at or before it.
    pub fn get_raw_index(&self, render_index: usize) -> (index: usize)
        requires
            self.wf(),
        ensures
            index == raw_index_at(self@, render_index as int),
            index <= self@.len(),
    {
        let total = self.display_len();
        let mut current_render_index: usize = 0;
        let mut i: usize = 0;
        while i < self.raw.len()
            invariant
                i <= self.raw@.len(),
                current_render_index == render_start(self.raw@, i as int),
                total == display_width(self.raw@),
                forall|j: int| 0 <= j < i ==> #[trigger] render_start(self.raw@, j + 1) <= render_index,
            decreases self.raw@.len() - i,
        {
            proof {
                lemma_render_start_monotonic(self.raw@, i as int, i as int);
                lemma_render_start_monotonic(self.raw@, i as int, i + 1);
            }
            let key_width = self.raw[i].get_display_width();
            if current_render_index + key_width > render_index {
                proof {
                    lemma_raw_index_unique(self.raw@, render_index as int, i as int);
                }
                return i;
            }
            current_render_index += key_width;
            i += 1;
        }
        proof {
            lemma_raw_index_unique(self.raw@, render_index as int, i as int);
        }
        self.raw.len()
    }

    /// Splits the row before the key that covers column `at`: the keys from
    /// there on leave the row and make the new row that is returned, which
    /// is empty where `at` is at or behind the end.
    pub fn split(&mut self, at: usize) -> (rest: Row)
        requires
            old(self).wf(),
        ensures
            final(self).wf(),
            rest.wf(),
            final(self)@ == old(self)@.take(raw_index_at(old(self)@, at as int)),
            rest@ == old(self)@.skip(raw_index_at(old(self)@, at as int)),
    {
        let len = self.display_len();
        let raw_index = self.get_raw_index(at);
        if at >= len {
            proof {
                lemma_raw_index_at_end(self@, at as int);
                assert(self@.take(self@.len() as int) =~= self@);
                assert(self@.skip(self@.len() as int) =~= Seq::<Key>::empty());
            }
            return Row::new(Vec::new());
        }
        let (start, _) = self.get_render_index(raw_index);
        proof {
            lemma_raw_index_covers(self@, at as int);
            lemma_render_split(self@, raw_index as int);
        }
        let new_raw = self.raw.split_off(raw_index);
        let new_row = Row::new(new_raw);
        let kept = String::from_str(self.rendered.as_str().substring_char(0, start));
        self.rendered = kept;
        new_row
    }

    /// Types `key` at column `at`: it goes before the key that covers `at`,
    /// or to the end of the row. A key that renders to nothing is not taken,
    /// and the answer is `false`.
    pub fn insert(&mut self, at: usize, key: Key) -> (inserted: bool)
        requires
            old(self).wf(),
        ensures
            final(self).wf(),
            inserted == (key.width() > 0),
            final(self)@ == insert_key(old(self)@, at as int, key),
    {
        let text = key.render();
        proof {
            key.lemma_width_is_rendering_len();
        }
        if text.as_str().unicode_len() == 0 {
            return false;
        }
        let len = self.display_len();
        let raw_index = self.get_raw_index(at);
        let (start, _) = self.get_render_index(raw_index);
        proof {
            lemma_render_split(self@, raw_index as int);
            lemma_render_len(self@);
            let keys = old(self)@;
            assert(keys.insert(raw_index as int, key) =~= keys.take(raw_index as int).push(key)
                + keys.skip(raw_index as int));
            assert(keys.take(raw_index as int).push(key).drop_last() =~= keys.take(raw_index as int));
            lemma_concat(keys.take(raw_index as int).push(key), keys.skip(raw_index as int));
        }
        let mut spliced = String::from_str(self.rendered.as_str().substring_char(0, start));
        spliced.append(text.as_str());
        spliced.append(self.rendered.as_str().substring_char(start, len));
        assert(self.rendered@.subrange(start as int, len as int) =~= self.rendered@.skip(start as int));
        self.raw.insert(raw_index, key);
        self.rendered = spliced;
        true
    }

    /// Removes the key before column `at`: the last key where `at` is at or
    /// behind the end of the row, else the key that covers the column before
    /// `at`. The answer is the width that left the row, zero where there is
    /// no such key.
    pub fn backspace(&mut self, at: usize) -> (width: usize)
        requires
            old(self).wf(),
        ensures
            final(self).wf(),
            final(self)@ == backspace_keys(old(self)@, at as int),
            width == backspace_width(old(self)@, at as int),
    {
        let len = self.display_len();
        let raw_index = if at >= len {
            if self.raw.len() == 0 {
                return 0;
            }
            self.raw.len() - 1
        } else {
            if at == 0 {
                return 0;
            }
            self.get_raw_index(at - 1)
        };
        proof {
            if at < len {
                lemma_raw_index_covers(self@, at - 1);
            }
        }
        let (start, end) = self.get_render_index(raw_index);
        proof {
            let keys = old(self)@;
            lemma_render_split(keys, raw_index as int);
            lemma_render_split(keys, raw_index + 1);
            lemma_render_start_monotonic(keys, raw_index as int, raw_index as int);
            lemma_render_start_monotonic(keys, raw_index as int, raw_index + 1);
            lemma_render_len(keys);
            assert(keys.remove(raw_index as int) =~= keys.take(raw_index as int) + keys.skip(
                raw_index + 1,
            ));
            lemma_concat(keys.take(raw_index as int), keys.skip(raw_index + 1));
        }
        let mut spliced = String::from_str(self.rendered.as_str().substring_char(0, start));
        spliced.append(self.rendered.as_str().substring_char(end, len));
        assert(self.rendered@.subrange(end as int, len as int) =~= self.rendered@.skip(end as int));
        let _ = self.raw.remove(raw_index);
        self.rendered = spliced;
        end - start
    }
}

} // verus!
