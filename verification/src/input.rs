//! The multi-line input box: a UTF-8 text with a cursor kept at a byte
//! position that always lies on a character boundary.

use vstd::prelude::*;
use vstd::string::StrSliceExecFns;
use vstd::utf8::*;
use crate::utf8::{
    byte_len, char_len_utf8, lemma_byte_len_take_next, lemma_decode_encode, lemma_encode_char_len,
    lemma_encode_concat, lemma_encode_split, lemma_prefix_is_boundary, string_clear, string_insert,
    string_remove,
};
use crate::text::{chars_between, find_char, find_char_in, lemma_find_char, string_from_chars, to_chars};

verus! {

/// The mathematical value of an input box: its characters and the number of
/// characters before the cursor.
pub struct InputView {
    pub text: Seq<char>,
    pub cursor: nat,
}

/// The empty input box.
pub open spec fn empty_input() -> InputView {
    InputView { text: Seq::empty(), cursor: 0 }
}

/// Typing `c` inserts it at the cursor, and the cursor moves past it.
pub open spec fn input_enter_char(v: InputView, c: char) -> InputView {
    InputView { text: v.text.insert(v.cursor as int, c), cursor: v.cursor + 1 }
}

/// Backspace removes the character before the cursor, if there is one.
pub open spec fn input_delete_char(v: InputView) -> InputView {
    if v.cursor > 0 {
        InputView { text: v.text.remove(v.cursor - 1), cursor: (v.cursor - 1) as nat }
    } else {
        v
    }
}

/// The cursor moves one character to the left, unless it is at the start.
pub open spec fn input_move_left(v: InputView) -> InputView {
    if v.cursor > 0 {
        InputView { text: v.text, cursor: (v.cursor - 1) as nat }
    } else {
        v
    }
}

/// The cursor moves one character to the right, unless it is at the end.
pub open spec fn input_move_right(v: InputView) -> InputView {
    if v.cursor < v.text.len() {
        InputView { text: v.text, cursor: v.cursor + 1 }
    } else {
        v
    }
}

/// The number of line breaks in `s`.
pub open spec fn count_newlines(s: Seq<char>) -> nat
    decreases s.len(),
{
    if s.len() == 0 {
        0
    } else {
        count_newlines(s.drop_last()) + if s.last() == '\n' {
            1nat
        } else {
            0nat
        }
    }
}

/// The number of characters after the last line break of `s` (all of them if
/// there is none).
pub open spec fn column_after_last_newline(s: Seq<char>) -> nat
    decreases s.len(),
{
    if s.len() == 0 {
        0
    } else if s.last() == '\n' {
        0
    } else {
        column_after_last_newline(s.drop_last()) + 1
    }
}

/// The cursor as (column, line), both counted in characters from zero and
/// truncated to 16 bits.
pub open spec fn input_cursor_position(v: InputView) -> (u16, u16) {
    let before = v.text.take(v.cursor as int);
    (column_after_last_newline(before) as u16, count_newlines(before) as u16)
}

/// The pieces of `s` between the copies of `c`, as `str::split(c)` gives
/// them: one more piece than there are copies, empty pieces included.
pub open spec fn split_char(s: Seq<char>, c: char) -> Seq<Seq<char>>
    decreases s.len(),
{
    let p = find_char(s, c);
    if p < 0 || p >= s.len() {
        seq![s]
    } else {
        seq![s.take(p)] + split_char(s.skip(p + 1), c)
    }
}

/// One line of the input box as drawn with a visible cursor.
#[derive(Debug, PartialEq, Eq)]
pub enum InputLine {
    /// A line without the cursor.
    Plain(String),
    /// The cursor's line, with the cursor on the character `at`.
    Highlight { before: String, at: char, after: String },
    /// The cursor's line, with the cursor after its last character.
    EndCursor(String),
}

/// The mathematical value of a drawn line.
pub enum InputLineView {
    Plain(Seq<char>),
    Highlight(Seq<char>, char, Seq<char>),
    EndCursor(Seq<char>),
}

impl View for InputLine {
    type V = InputLineView;

    open spec fn view(&self) -> InputLineView {
        match self {
            InputLine::Plain(s) => InputLineView::Plain(s@),
            InputLine::Highlight { before, at, after } => InputLineView::Highlight(
                before@,
                *at,
                after@,
            ),
            InputLine::EndCursor(s) => InputLineView::EndCursor(s@),
        }
    }
}

/// How the `i`-th line is drawn when the cursor is on line `cl`, column `col`.
pub open spec fn style_line(line: Seq<char>, i: int, cl: int, col: int) -> InputLineView {
    if i == cl {
        if col < line.len() {
            InputLineView::Highlight(line.take(col), line[col], line.skip(col + 1))
        } else {
            InputLineView::EndCursor(line)
        }
    } else {
        InputLineView::Plain(line)
    }
}

/// The input box drawn with a visible cursor: each line of the text (the
/// pieces between line breaks, so a text ending in a line break has an empty
/// last line), with the cursor's line marked. An empty text is one empty
/// line with the cursor at its end.
pub open spec fn input_styled_lines(v: InputView) -> Seq<InputLineView> {
    let before = v.text.take(v.cursor as int);
    let cl = count_newlines(before) as int;
    let col = column_after_last_newline(before) as int;
    let pieces = split_char(v.text, '\n');
    Seq::new(pieces.len(), |i: int| style_line(pieces[i], i, cl, col))
}

/// The views of a sequence of drawn lines.
pub open spec fn input_lines_view(s: Seq<InputLine>) -> Seq<InputLineView> {
    s.map_values(|l: InputLine| l@)
}

/// The text being typed and the cursor in it, as a byte position.
pub struct Input {
    text: String,
    cursor: usize,
    cursor_chars: Ghost<nat>,
}

impl View for Input {
    type V = InputView;

    closed spec fn view(&self) -> InputView {
        InputView { text: self.text@, cursor: self.cursor_chars@ }
    }
}

impl Input {
    /// The cursor lies on a character boundary: its byte position is the
    /// byte length of the characters before it.
    pub closed spec fn wf(&self) -> bool {
        &&& self.cursor_chars@ <= self.text@.len()
        &&& self.cursor as nat == byte_len(self.text@.take(self.cursor_chars@ as int))
        &&& byte_len(self.text@) <= isize::MAX
    }

    /// The cursor's byte position in the UTF-8 text.
    pub closed spec fn cursor_byte(&self) -> nat {
        self.cursor as nat
    }

    proof fn lemma_wf_facts(&self)
        requires
            self.wf(),
        ensures
            is_char_boundary(encode_utf8(self.text@), self.cursor as int),
            (self.cursor == 0) <==> (self.cursor_chars@ == 0),
            self.cursor as nat <= byte_len(self.text@),
    {
        let t = self.text@;
        let k = self.cursor_chars@ as int;
        lemma_prefix_is_boundary(t, k);
        lemma_encode_split(t, k);
        if k > 0 {
            lemma_byte_len_take_next(t, k - 1);
            lemma_encode_char_len(t[k - 1]);
        } else {
            assert(t.take(0) =~= Seq::<char>::empty());
            assert(encode_utf8(Seq::<char>::empty()) =~= Seq::<u8>::empty());
        }
    }

    /// The characters before the cursor, as a slice of the text.
    fn before_cursor(&self) -> (s: &str)
        requires
            self.wf(),
        ensures
            s@ == self@.text.take(self@.cursor as int),
    {
        proof {
            self.lemma_wf_facts();
            lemma_encode_split(self.text@, self.cursor_chars@ as int);
            lemma_decode_encode(self.text@.take(self.cursor_chars@ as int));
        }
        let (before, _after) = self.text.as_str().split_at(self.cursor);
        proof {
            lemma_decode_encode(before@);
        }
        before
    }

    /// The characters from the cursor on, as a slice of the text.
    fn after_cursor(&self) -> (s: &str)
        requires
            self.wf(),
        ensures
            s@ == self@.text.skip(self@.cursor as int),
    {
        proof {
            self.lemma_wf_facts();
            lemma_encode_split(self.text@, self.cursor_chars@ as int);
            lemma_decode_encode(self.text@.skip(self.cursor_chars@ as int));
            assert(encode_utf8(self.text@).subrange(
                self.cursor as int,
                encode_utf8(self.text@).len() as int,
            ) =~= encode_utf8(self.text@).skip(self.cursor as int));
        }
        let (_before, after) = self.text.as_str().split_at(self.cursor);
        proof {
            lemma_decode_encode(after@);
        }
        after
    }

    /// An empty input box.
    pub fn new() -> (r: Input)
        ensures
            r.wf(),
            r@ == empty_input(),
    {
        let r = Input { text: String::new(), cursor: 0, cursor_chars: Ghost(0) };
        proof {
            assert(r.text@.take(0) =~= Seq::<char>::empty());
            assert(encode_utf8(Seq::<char>::empty()) =~= Seq::<u8>::empty());
        }
        r
    }

    /// The text typed so far.
    pub fn text(&self) -> (s: &str)
        ensures
            s@ == self@.text,
    {
        self.text.as_str()
    }

    /// True when nothing is typed.
    pub fn is_empty(&self) -> (b: bool)
        ensures
            b == (self@.text.len() == 0),
    {
        self.text.as_str().is_empty()
    }

    /// Empties the box and puts the cursor at the start.
    pub fn clear(&mut self)
        ensures
            final(self).wf(),
            final(self)@ == empty_input(),
    {
        string_clear(&mut self.text);
        self.cursor = 0;
        self.cursor_chars = Ghost(0);
        proof {
            assert(self.text@.take(0) =~= Seq::<char>::empty());
            assert(encode_utf8(Seq::<char>::empty()) =~= Seq::<u8>::empty());
        }
    }

    /// Moves the cursor one character to the left.
    pub fn move_cursor_left(&mut self)
        requires
            old(self).wf(),
        ensures
            final(self).wf(),
            final(self)@ == input_move_left(old(self)@),
    {
        proof {
            self.lemma_wf_facts();
        }
        if self.cursor > 0 {
            let ghost t = self.text@;
            let ghost k = self.cursor_chars@ as int;
            let before = self.before_cursor();
            let n = before.unicode_len();
            let c = before.get_char(n - 1);
            let w = char_len_utf8(c);
            proof {
                lemma_byte_len_take_next(t, k - 1);
            }
            self.cursor = self.cursor - w;
            self.cursor_chars = Ghost((k - 1) as nat);
        }
    }

    /// Moves the cursor one character to the right.
    pub fn move_cursor_right(&mut self)
        requires
            old(self).wf(),
        ensures
            final(self).wf(),
            final(self)@ == input_move_right(old(self)@),
    {
        let ghost t = self.text@;
        let ghost k = self.cursor_chars@ as int;
        let after = self.after_cursor();
        if !after.is_empty() {
            let c = after.get_char(0);
            let w = char_len_utf8(c);
            proof {
                lemma_byte_len_take_next(t, k);
                lemma_encode_split(t, k + 1);
            }
            self.cursor = self.cursor + w;
            self.cursor_chars = Ghost((k + 1) as nat);
        }
    }

    /// Removes the character before the cursor.
    pub fn delete_char(&mut self)
        requires
            old(self).wf(),
        ensures
            final(self).wf(),
            final(self)@ == input_delete_char(old(self)@),
    {
        proof {
            self.lemma_wf_facts();
        }
        if self.cursor > 0 {
            let ghost t = self.text@;
            let ghost k = self.cursor_chars@ as int;
            let before = self.before_cursor();
            let n = before.unicode_len();
            let c = before.get_char(n - 1);
            let w = char_len_utf8(c);
            proof {
                lemma_byte_len_take_next(t, k - 1);
                lemma_prefix_is_boundary(t, k - 1);
                lemma_encode_split(t, k - 1);
                lemma_encode_split(t, k);
                lemma_decode_encode(t.take(k - 1));
                lemma_decode_encode(t.skip(k - 1));
                lemma_encode_char_len(c);
            }
            let idx = self.cursor - w;
            let _removed = string_remove(&mut self.text, idx);
            proof {
                assert(t.skip(k - 1).drop_first() =~= t.skip(k));
                assert(self.text@ =~= t.remove(k - 1));
                assert(self.text@.take(k - 1) =~= t.take(k - 1));
                assert(self.text@ =~= t.take(k - 1) + t.skip(k));
                lemma_encode_concat(t.take(k - 1), t.skip(k));
                lemma_encode_split(t, k);
            }
            self.cursor = idx;
            self.cursor_chars = Ghost((k - 1) as nat);
        }
    }

    /// Inserts `c` at the cursor and moves the cursor past it.
    pub fn enter_char(&mut self, c: char)
        requires
            old(self).wf(),
        ensures
            final(self).wf(),
            final(self)@ == input_enter_char(old(self)@, c),
    {
        let ghost t = self.text@;
        let ghost k = self.cursor_chars@ as int;
        proof {
            self.lemma_wf_facts();
            lemma_encode_split(t, k);
            lemma_decode_encode(t.take(k));
            lemma_decode_encode(t.skip(k));
        }
        string_insert(&mut self.text, self.cursor, c);
        let w = char_len_utf8(c);
        proof {
            let t2 = self.text@;
            assert(t2 =~= t.insert(k, c));
            assert(t2.take(k) =~= t.take(k));
            lemma_byte_len_take_next(t2, k);
            lemma_encode_split(t2, k + 1);
        }
        self.cursor = self.cursor + w;
        self.cursor_chars = Ghost((k + 1) as nat);
    }

    /// Inserts a line break at the cursor and moves the cursor past it.
    pub fn enter_new_line(&mut self)
        requires
            old(self).wf(),
        ensures
            final(self).wf(),
            final(self)@ == input_enter_char(old(self)@, '\n'),
    {
        self.enter_char('\n');
    }

    /// The cursor's line and column, counted in characters.
    fn cursor_line_col(&self) -> (r: (usize, usize))
        requires
            self.wf(),
        ensures
            r.0 as nat == count_newlines(self@.text.take(self@.cursor as int)),
            r.1 as nat == column_after_last_newline(self@.text.take(self@.cursor as int)),
    {
        let before = self.before_cursor();
        let chars = to_chars(before);
        let mut line: usize = 0;
        let mut col: usize = 0;
        let mut i: usize = 0;
        while i < chars.len()
            invariant
                i <= chars.len(),
                line as nat == count_newlines(chars@.take(i as int)),
                col as nat == column_after_last_newline(chars@.take(i as int)),
                line <= i,
                col <= i,
            decreases chars.len() - i,
        {
            proof {
                assert(chars@.take(i + 1).drop_last() =~= chars@.take(i as int));
            }
            if chars[i] == '\n' {
                line = line + 1;
                col = 0;
            } else {
                col = col + 1;
            }
            i = i + 1;
        }
        proof {
            assert(chars@.take(i as int) =~= chars@);
        }
        (line, col)
    }

    /// The cursor as (column, line) inside the text, counted in characters
    /// (line breaks start new lines; wrapping is not considered).
    pub fn cursor_position(&self) -> (r: (u16, u16))
        requires
            self.wf(),
        ensures
            r == input_cursor_position(self@),
    {
        let (line, col) = self.cursor_line_col();
        (col as u16, line as u16)
    }

    /// How one line is drawn.
    fn style_line(piece: &[char], i: usize, cl: usize, col: usize) -> (l: InputLine)
        ensures
            l@ == style_line(piece@, i as int, cl as int, col as int),
    {
        if i == cl {
            if col < piece.len() {
                let before = string_from_chars(piece, 0, col);
                let after = string_from_chars(piece, col + 1, piece.len());
                proof {
                    assert(piece@.subrange(0, col as int) =~= piece@.take(col as int));
                    assert(piece@.subrange(col + 1, piece@.len() as int) =~= piece@.skip(col + 1));
                }
                InputLine::Highlight { before, at: piece[col], after }
            } else {
                proof {
                    assert(piece@.subrange(0, piece@.len() as int) =~= piece@);
                }
                InputLine::EndCursor(string_from_chars(piece, 0, piece.len()))
            }
        } else {
            proof {
                assert(piece@.subrange(0, piece@.len() as int) =~= piece@);
            }
            InputLine::Plain(string_from_chars(piece, 0, piece.len()))
        }
    }

    /// The input box drawn with a visible cursor, top to bottom.
    pub fn styled_lines(&self) -> (lines: Vec<InputLine>)
        requires
            self.wf(),
        ensures
            input_lines_view(lines@) == input_styled_lines(self@),
    {
        let (cl, col) = self.cursor_line_col();
        let v = to_chars(self.text.as_str());
        let n = v.len();
        let ghost pieces = split_char(v@, '\n');
        let ghost mut done: Seq<Seq<char>> = Seq::empty();
        let mut lines: Vec<InputLine> = Vec::new();
        let mut pos: usize = 0;
        let mut i: usize = 0;
        proof {
            assert(v@.skip(0) =~= v@);
            assert(pieces =~= done + split_char(v@.skip(0), '\n'));
        }
        loop
            invariant_except_break
                i == done.len(),
                i <= pos,
                pieces == done + split_char(v@.skip(pos as int), '\n'),
                input_lines_view(lines@) == Seq::new(
                    i as nat,
                    |j: int| style_line(done[j], j, cl as int, col as int),
                ),
            invariant
                pos <= n,
                n == v@.len(),
                pieces == split_char(v@, '\n'),
            ensures
                input_lines_view(lines@) == Seq::new(
                    pieces.len(),
                    |j: int| style_line(pieces[j], j, cl as int, col as int),
                ),
            decreases n - pos,
        {
            let ghost s = v@.skip(pos as int);
            proof {
                lemma_find_char(s, '\n');
                assert(v@.subrange(pos as int, n as int) =~= s);
            }
            match find_char_in(v.as_slice(), pos, n, '\n') {
                None => {
                    let piece = chars_between(v.as_slice(), pos, n);
                    let l = Self::style_line(piece.as_slice(), i, cl, col);
                    let ghost prev = input_lines_view(lines@);
                    let ghost lv = l@;
                    lines.push(l);
                    proof {
                        assert(input_lines_view(lines@) =~= prev.push(lv));
                    }
                    proof {
                        assert(split_char(s, '\n') == seq![s]);
                        assert(piece@ =~= s);
                        let done2 = done.push(s);
                        assert(pieces =~= done2);
                        assert forall|j: int| 0 <= j < i implies done2[j] == done[j] by {}
                        assert(input_lines_view(lines@) =~= Seq::new(
                            (i + 1) as nat,
                            |j: int| style_line(done2[j], j, cl as int, col as int),
                        ));
                        assert(input_lines_view(lines@) =~= Seq::new(
                            pieces.len(),
                            |j: int| style_line(pieces[j], j, cl as int, col as int),
                        ));
                    }
                    break;
                },
                Some(p) => {
                    let piece = chars_between(v.as_slice(), pos, p);
                    let l = Self::style_line(piece.as_slice(), i, cl, col);
                    let ghost prev = input_lines_view(lines@);
                    let ghost lv = l@;
                    lines.push(l);
                    proof {
                        assert(input_lines_view(lines@) =~= prev.push(lv));
                    }
                    proof {
                        assert(piece@ =~= s.take(p - pos));
                        assert(s.skip(p - pos + 1) =~= v@.skip(p + 1));
                        assert(split_char(s, '\n') == seq![s.take(p - pos)] + split_char(
                            v@.skip(p + 1),
                            '\n',
                        ));
                        let done2 = done.push(piece@);
                        assert(pieces =~= done2 + split_char(v@.skip(p + 1), '\n'));
                        assert forall|j: int| 0 <= j < i implies done2[j] == done[j] by {}
                        assert(input_lines_view(lines@) =~= Seq::new(
                            (i + 1) as nat,
                            |j: int| style_line(done2[j], j, cl as int, col as int),
                        ));
                        done = done2;
                    }
                    pos = p + 1;
                    i = i + 1;
                },
            }
        }
        lines
    }
}

/// Backspace right after typing a character takes it out again: the text
/// and the cursor are as before.
pub proof fn law_delete_undoes_enter(v: InputView, c: char)
    requires
        v.cursor <= v.text.len(),
    ensures
        input_delete_char(input_enter_char(v, c)) == v,
{
    let w = input_enter_char(v, c);
    assert(w.text.remove(v.cursor as int) =~= v.text);
}

/// Moving right after moving left returns the cursor where it was, when it
/// was not at the start.
pub proof fn law_right_undoes_left(v: InputView)
    requires
        0 < v.cursor <= v.text.len(),
    ensures
        input_move_right(input_move_left(v)) == v,
{
}

/// Moving left after moving right returns the cursor where it was, when it
/// was not at the end.
pub proof fn law_left_undoes_right(v: InputView)
    requires
        v.cursor < v.text.len(),
    ensures
        input_move_left(input_move_right(v)) == v,
{
}

/// Every edit keeps the cursor inside the text, and cursor moves leave the
/// text as it was.
pub proof fn law_edits_keep_cursor_in_text(v: InputView, c: char)
    requires
        v.cursor <= v.text.len(),
    ensures
        input_enter_char(v, c).cursor <= input_enter_char(v, c).text.len(),
        input_delete_char(v).cursor <= input_delete_char(v).text.len(),
        input_move_left(v).cursor <= input_move_left(v).text.len(),
        input_move_right(v).cursor <= input_move_right(v).text.len(),
        input_move_left(v).text == v.text,
        input_move_right(v).text == v.text,
{
}

/// Typing a character other than a line break moves the cursor one column
/// to the right on the same line; typing a line break moves it to the start
/// of the next line.
pub proof fn law_typing_moves_cursor(v: InputView, c: char)
    requires
        v.cursor <= v.text.len(),
    ensures
        ({
            let before = v.text.take(v.cursor as int);
            let w = input_enter_char(v, c);
            let after = w.text.take(w.cursor as int);
            if c == '\n' {
                &&& count_newlines(after) == count_newlines(before) + 1
                &&& column_after_last_newline(after) == 0
            } else {
                &&& count_newlines(after) == count_newlines(before)
                &&& column_after_last_newline(after) == column_after_last_newline(before) + 1
            }
        }),
{
    let w = input_enter_char(v, c);
    let before = v.text.take(v.cursor as int);
    assert(w.text.take(w.cursor as int) =~= before.push(c));
    assert(before.push(c).drop_last() =~= before);
}

/// Line breaks add up over a concatenation.
proof fn lemma_count_newlines_concat(a: Seq<char>, b: Seq<char>)
    ensures
        count_newlines(a + b) == count_newlines(a) + count_newlines(b),
    decreases b.len(),
{
    if b.len() == 0 {
        assert(a + b =~= a);
    } else {
        assert((a + b).drop_last() =~= a + b.drop_last());
        assert((a + b).last() == b.last());
        lemma_count_newlines_concat(a, b.drop_last());
    }
}

/// A text without line breaks counts none.
proof fn lemma_count_newlines_none(s: Seq<char>)
    requires
        forall|j: int| 0 <= j < s.len() ==> s[j] != '\n',
    ensures
        count_newlines(s) == 0,
    decreases s.len(),
{
    if s.len() > 0 {
        lemma_count_newlines_none(s.drop_last());
    }
}

/// A text has one more piece between line breaks than it has line breaks.
proof fn lemma_split_len(s: Seq<char>)
    ensures
        split_char(s, '\n').len() == count_newlines(s) + 1,
    decreases s.len(),
{
    lemma_find_char(s, '\n');
    let p = find_char(s, '\n');
    if p < 0 {
        lemma_count_newlines_none(s);
    } else {
        let rest = s.skip(p + 1);
        lemma_split_len(rest);
        lemma_count_newlines_none(s.take(p));
        assert(s =~= s.take(p).push('\n') + rest);
        lemma_count_newlines_concat(s.take(p).push('\n'), rest);
        assert(s.take(p).push('\n').drop_last() =~= s.take(p));
    }
}

/// Exactly one line is drawn with the cursor: the cursor's line, which is
/// always one of the text's lines; every other line is drawn plain.
pub proof fn law_one_cursor_drawn(v: InputView)
    requires
        v.cursor <= v.text.len(),
    ensures
        ({
            let lines = input_styled_lines(v);
            let cl = count_newlines(v.text.take(v.cursor as int)) as int;
            &&& 0 <= cl < lines.len()
            &&& !(lines[cl] is Plain)
            &&& forall|i: int| 0 <= i < lines.len() && i != cl ==> lines[i] is Plain
        }),
{
    let k = v.cursor as int;
    lemma_split_len(v.text);
    assert(v.text =~= v.text.take(k) + v.text.skip(k));
    lemma_count_newlines_concat(v.text.take(k), v.text.skip(k));
}

/// A valid input box's cursor lies within its text, and its byte position
/// is the byte length of the characters before it.
pub proof fn lemma_input_cursor_in_text(i: &Input)
    requires
        i.wf(),
    ensures
        i@.cursor <= i@.text.len(),
        i.cursor_byte() == byte_len(i@.text.take(i@.cursor as int)),
        byte_len(i@.text) <= isize::MAX,
{
}

/// What each edit does to the characters and the cursor: typing puts the
/// character at the cursor, keeping what was before and after it, and moves
/// the cursor past it; Backspace takes out the character just before the
/// cursor, keeping the rest in order; the arrows move the cursor by one
/// within the text and change no character; clearing leaves nothing.
pub proof fn law_edit_effects(v: InputView, c: char)
    requires
        v.cursor <= v.text.len(),
    ensures
        ({
            let k = v.cursor as int;
            let w = input_enter_char(v, c);
            &&& w.text.len() == v.text.len() + 1
            &&& w.text.take(k) == v.text.take(k)
            &&& w.text[k] == c
            &&& w.text.skip(k + 1) == v.text.skip(k)
            &&& w.cursor == v.cursor + 1
        }),
        v.cursor > 0 ==> input_delete_char(v).text == v.text.take(v.cursor - 1) + v.text.skip(
            v.cursor as int,
        ) && input_delete_char(v).cursor == v.cursor - 1,
        v.cursor == 0 ==> input_delete_char(v) == v,
        input_move_left(v).text == v.text && input_move_left(v).cursor as int == if v.cursor > 0 {
            v.cursor - 1
        } else {
            0int
        },
        input_move_right(v).text == v.text && input_move_right(v).cursor as int == if v.cursor
            < v.text.len() {
            (v.cursor + 1) as int
        } else {
            v.cursor as int
        },
        empty_input().text.len() == 0 && empty_input().cursor == 0,
{
    let k = v.cursor as int;
    let w = input_enter_char(v, c);
    assert(w.text.take(k) =~= v.text.take(k));
    assert(w.text.skip(k + 1) =~= v.text.skip(k));
    if v.cursor > 0 {
        assert(input_delete_char(v).text =~= v.text.take(v.cursor - 1) + v.text.skip(
            v.cursor as int,
        ));
    }
}

/// Line breaks are counted one by one: none in an empty text, one for a
/// line break and none for any other character, and the counts of two texts
/// add up when they are joined.
pub proof fn law_count_newlines(a: Seq<char>, b: Seq<char>, c: char)
    ensures
        count_newlines(Seq::empty()) == 0,
        count_newlines(seq![c]) == if c == '\n' {
            1nat
        } else {
            0nat
        },
        count_newlines(a + b) == count_newlines(a) + count_newlines(b),
{
    assert(seq![c].drop_last() =~= Seq::<char>::empty());
    lemma_count_newlines_concat(a, b);
}

/// The column is the number of characters after the last line break: all
/// of them when there is none.
pub proof fn law_column(a: Seq<char>, b: Seq<char>)
    requires
        forall|j: int| 0 <= j < b.len() ==> b[j] != '\n',
    ensures
        column_after_last_newline(b) == b.len(),
        column_after_last_newline(a.push('\n') + b) == b.len(),
    decreases b.len(),
{
    if b.len() > 0 {
        law_column(a, b.drop_last());
        assert((a.push('\n') + b).drop_last() =~= a.push('\n') + b.drop_last());
    } else {
        assert(a.push('\n') + b =~= a.push('\n'));
    }
}

/// The lines the text is split into hold no line break, and joining them
/// back with line breaks gives the text.
pub proof fn law_split_lines(s: Seq<char>)
    ensures
        forall|i: int, j: int|
            0 <= i < split_char(s, '\n').len() && 0 <= j < split_char(s, '\n')[i].len()
                ==> split_char(s, '\n')[i][j] != '\n',
        join_lines(split_char(s, '\n')) == s,
    decreases s.len(),
{
    lemma_find_char(s, '\n');
    let p = find_char(s, '\n');
    if p >= 0 {
        let rest = s.skip(p + 1);
        law_split_lines(rest);
        let pieces = split_char(s, '\n');
        assert(pieces == seq![s.take(p)] + split_char(rest, '\n'));
        assert forall|i: int, j: int|
            0 <= i < pieces.len() && 0 <= j < pieces[i].len() implies pieces[i][j] != '\n' by {
            if i > 0 {
                assert(pieces[i] == split_char(rest, '\n')[i - 1]);
            }
        }
        lemma_join_lines_cons(s.take(p), split_char(rest, '\n'));
        assert(s =~= s.take(p).push('\n') + rest);
    }
}

/// Lines joined with a line break between each two.
pub open spec fn join_lines(lines: Seq<Seq<char>>) -> Seq<char>
    decreases lines.len(),
{
    if lines.len() == 0 {
        Seq::empty()
    } else if lines.len() == 1 {
        lines[0]
    } else {
        lines[0].push('\n') + join_lines(lines.drop_first())
    }
}

proof fn lemma_join_lines_cons(first: Seq<char>, rest: Seq<Seq<char>>)
    requires
        rest.len() > 0,
    ensures
        join_lines(seq![first] + rest) == first.push('\n') + join_lines(rest),
{
    assert((seq![first] + rest).drop_first() =~= rest);
}

/// The drawn line under the cursor shows that line's characters split at the
/// cursor's column; every other line shows its characters unchanged.
pub proof fn law_styled_line_contents(v: InputView)
    requires
        v.cursor <= v.text.len(),
    ensures
        ({
            let lines = input_styled_lines(v);
            let pieces = split_char(v.text, '\n');
            let before = v.text.take(v.cursor as int);
            let cl = count_newlines(before) as int;
            let col = column_after_last_newline(before) as int;
            &&& lines.len() == pieces.len()
            &&& forall|i: int| 0 <= i < lines.len() && i != cl ==> lines[i] == InputLineView::Plain(
                pieces[i],
            )
            &&& lines[cl] matches InputLineView::Highlight(b, ch, a) ==> b.len() == col && b.push(
                ch,
            ) + a == pieces[cl]
            &&& lines[cl] matches InputLineView::EndCursor(l) ==> l == pieces[cl] && col
                >= l.len()
        }),
{
    law_one_cursor_drawn(v);
    let lines = input_styled_lines(v);
    let pieces = split_char(v.text, '\n');
    let before = v.text.take(v.cursor as int);
    let cl = count_newlines(before) as int;
    let col = column_after_last_newline(before) as int;
    if col < pieces[cl].len() {
        assert(pieces[cl].take(col).push(pieces[cl][col]) + pieces[cl].skip(col + 1)
            =~= pieces[cl]);
    }
}

/// The cursor of an empty box is at column 0 of line 0. Typing a
/// character other than a line break moves the cursor one column right on
/// its line; typing a line break moves it to column 0 of the next line
/// (while the numbers fit in 16 bits).
pub proof fn law_cursor_position(v: InputView, c: char)
    requires
        v.cursor <= v.text.len(),
        column_after_last_newline(v.text.take(v.cursor as int)) < 0xffff,
        count_newlines(v.text.take(v.cursor as int)) < 0xffff,
    ensures
        input_cursor_position(empty_input()) == (0u16, 0u16),
        ({
            let (x, y) = input_cursor_position(v);
            let (x2, y2) = input_cursor_position(input_enter_char(v, c));
            if c == '\n' {
                x2 == 0 && y2 == y + 1
            } else {
                x2 == x + 1 && y2 == y
            }
        }),
{
    law_typing_moves_cursor(v, c);
    assert(empty_input().text.take(0) =~= Seq::<char>::empty());
}

} // verus!
