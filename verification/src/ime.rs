//! Input method state and the display width of preedit text.

use unicode_width::UnicodeWidthChar;
use vstd::prelude::*;

use crate::display::CursorShape;
use crate::shaping::{utf8_len, utf8_width};
use crate::text::chars_of;

verus! {

/// Displayed width in columns of `c` as Unicode Standard Annex #11 gives it
/// (ambiguous characters narrow), or `None` for a control character.
pub uninterp spec fn unicode_char_width(c: char) -> Option<usize>;

/// Displayed width of one character.
///
/// Calls `UnicodeWidthChar::width`. The contract claims the named width,
/// plus what the crate's source shows: control characters (below U+0020 and
/// U+007F to U+009F) have no width, printable ASCII is one column wide, and
/// no width exceeds 3.
#[verifier::external_body]
fn char_width(c: char) -> (r: Option<usize>)
    ensures
        r == unicode_char_width(c),
        r is None <==> ((c as u32) < 0x20 || (0x7F <= (c as u32) && (c as u32) < 0xA0)),
        (0x20 <= (c as u32) && (c as u32) < 0x7F) ==> r == Some(1usize),
        r matches Some(w) ==> w <= 3,
{
    c.width()
}

/// Columns a character takes in preedit text; characters without a width
/// count as one column.
pub open spec fn char_columns(c: char) -> nat {
    match unicode_char_width(c) {
        Some(w) => w as nat,
        None => 1,
    }
}

/// Columns taken by a sequence of characters.
pub open spec fn text_columns(cs: Seq<char>) -> nat
    decreases cs.len(),
{
    if cs.len() == 0 {
        0
    } else {
        char_columns(cs[0]) + text_columns(cs.drop_first())
    }
}

/// Number of UTF-8 bytes that encode `cs`.
pub open spec fn byte_len(cs: Seq<char>) -> nat
    decreases cs.len(),
{
    if cs.len() == 0 {
        0
    } else {
        utf8_len(cs[0]) + byte_len(cs.drop_first())
    }
}

/// Whether byte offset `b` of the UTF-8 encoding of `cs` falls between two
/// characters (or at either end).
pub open spec fn is_byte_boundary(cs: Seq<char>, b: nat) -> bool {
    exists|k: int| 0 <= k <= cs.len() && #[trigger] byte_len(cs.take(k)) == b
}

/// Number of characters encoded in the first `b` bytes of `cs`.
pub open spec fn chars_before_byte(cs: Seq<char>, b: int) -> nat
    decreases cs.len(),
{
    if cs.len() == 0 || b <= 0 {
        0
    } else {
        1 + chars_before_byte(cs.drop_first(), b - utf8_len(cs[0]))
    }
}

/// Columns taken by the text that starts at byte offset `b` of `cs`.
pub open spec fn columns_from_byte(cs: Seq<char>, b: nat) -> nat {
    text_columns(cs.skip(chars_before_byte(cs, b as int) as int))
}

proof fn lemma_byte_len_push(s: Seq<char>, c: char)
    ensures
        byte_len(s.push(c)) == byte_len(s) + utf8_len(c),
    decreases s.len(),
{
    if s.len() > 0 {
        assert(s.push(c).drop_first() =~= s.drop_first().push(c));
        assert(s.push(c)[0] == s[0]);
        lemma_byte_len_push(s.drop_first(), c);
    } else {
        assert(s.push(c).drop_first() =~= Seq::<char>::empty());
        assert(s.push(c)[0] == c);
        assert(byte_len(Seq::<char>::empty()) == 0);
    }
}

proof fn lemma_byte_len_take_step(cs: Seq<char>, i: int)
    requires
        0 <= i < cs.len(),
    ensures
        byte_len(cs.take(i + 1)) == byte_len(cs.take(i)) + utf8_len(cs[i]),
{
    assert(cs.take(i + 1) =~= cs.take(i).push(cs[i]));
    lemma_byte_len_push(cs.take(i), cs[i]);
}

proof fn lemma_byte_len_take_monotone(cs: Seq<char>, i: int, k: int)
    requires
        0 <= i <= k <= cs.len(),
    ensures
        byte_len(cs.take(i)) <= byte_len(cs.take(k)),
        i < k ==> byte_len(cs.take(i + 1)) <= byte_len(cs.take(k)),
        i < k ==> byte_len(cs.take(i)) < byte_len(cs.take(k)),
    decreases k - i,
{
    if i < k {
        lemma_byte_len_take_step(cs, k - 1);
        lemma_byte_len_take_monotone(cs, i, k - 1);
    }
}

proof fn lemma_chars_before_take(cs: Seq<char>, k: int)
    requires
        0 <= k <= cs.len(),
    ensures
        chars_before_byte(cs, byte_len(cs.take(k)) as int) == k,
    decreases k,
{
    if k > 0 {
        assert(cs.take(k).drop_first() =~= cs.drop_first().take(k - 1));
        assert(cs.take(k)[0] == cs[0]);
        lemma_chars_before_take(cs.drop_first(), k - 1);
    } else {
        assert(cs.take(0) =~= Seq::<char>::empty());
    }
}

proof fn lemma_text_columns_skip_monotone(cs: Seq<char>, i: int, j: int)
    requires
        0 <= i <= j <= cs.len(),
    ensures
        text_columns(cs.skip(i)) >= text_columns(cs.skip(j)),
    decreases j - i,
{
    if i < j {
        assert(cs.skip(i).drop_first() =~= cs.skip(i + 1));
        lemma_text_columns_skip_monotone(cs, i + 1, j);
    }
}

proof fn lemma_chars_before_monotone(cs: Seq<char>, a: int, b: int)
    requires
        a <= b,
    ensures
        chars_before_byte(cs, a) <= chars_before_byte(cs, b),
    decreases cs.len(),
{
    if cs.len() > 0 && a > 0 {
        lemma_chars_before_monotone(cs.drop_first(), a - utf8_len(cs[0]), b - utf8_len(cs[0]));
    }
}

proof fn lemma_chars_before_bounded(cs: Seq<char>, b: int)
    ensures
        chars_before_byte(cs, b) <= cs.len(),
    decreases cs.len(),
{
    if cs.len() > 0 && b > 0 {
        lemma_chars_before_bounded(cs.drop_first(), b - utf8_len(cs[0]));
    }
}

/// Text that starts later takes no more columns: for byte offsets `a <= b`,
/// the text from `a` is at least as wide as the text from `b`.
pub proof fn lemma_columns_from_byte_monotone(cs: Seq<char>, a: nat, b: nat)
    requires
        a <= b,
    ensures
        columns_from_byte(cs, a) >= columns_from_byte(cs, b),
{
    lemma_chars_before_monotone(cs, a as int, b as int);
    lemma_chars_before_bounded(cs, b as int);
    lemma_text_columns_skip_monotone(
        cs,
        chars_before_byte(cs, a as int) as int,
        chars_before_byte(cs, b as int) as int,
    );
}

/// Columns taken by the characters of `chars` that start at or after byte
/// offset `b` of their UTF-8 encoding.
pub fn columns_after_byte(chars: &[char], b: usize) -> (r: usize)
    requires
        is_byte_boundary(chars@, b as nat),
        3 * chars@.len() <= usize::MAX,
    ensures
        r == columns_from_byte(chars@, b as nat),
{
    let ghost cs = chars@;
    let ghost k = choose|k: int| 0 <= k <= cs.len() && #[trigger] byte_len(cs.take(k)) == b;
    // Find the character that starts at byte offset `b`.
    let mut i: usize = 0;
    let mut pos: usize = 0;
    proof {
        assert(cs.take(0) =~= Seq::<char>::empty());
    }
    while pos < b
        invariant
            cs == chars@,
            0 <= k <= cs.len(),
            byte_len(cs.take(k)) == b,
            i <= k,
            pos == byte_len(cs.take(i as int)),
            pos <= b,
        decreases b - pos,
    {
        proof {
            if i as int == k {
                assert(false);
            }
            lemma_byte_len_take_step(cs, i as int);
            lemma_byte_len_take_monotone(cs, i as int, k);
        }
        pos = pos + utf8_width(chars[i]);
        i = i + 1;
    }
    proof {
        lemma_chars_before_take(cs, i as int);
    }
    // Sum the widths from the end of the text back to that character.
    let mut acc: usize = 0;
    let mut j: usize = chars.len();
    proof {
        assert(cs.skip(cs.len() as int) =~= Seq::<char>::empty());
    }
    while j > i
        invariant
            cs == chars@,
            i <= j <= cs.len(),
            3 * cs.len() <= usize::MAX,
            acc == text_columns(cs.skip(j as int)),
            acc <= 3 * (cs.len() - j),
        decreases j - i,
    {
        let w: usize = match char_width(chars[j - 1]) {
            Some(w) => w,
            None => 1,
        };
        proof {
            assert(cs.skip(j - 1).drop_first() =~= cs.skip(j as int));
            assert(cs.skip(j - 1)[0] == cs[j - 1]);
        }
        acc = acc + w;
        j = j - 1;
    }
    acc
}

/// Cursor drawn inside the preedit text.
#[derive(Debug, Clone, Copy, PartialEq, Eq)]
pub struct PreeditCursor {
    pub column: usize,
    pub shape: CursorShape,
    /// Width of the cursor in cells.
    pub width: u32,
}

/// Where the visible preedit text goes on its line.
#[derive(Debug, Clone, Copy, PartialEq, Eq)]
pub struct PreeditLayout {
    /// First column of the text.
    pub start_column: usize,
    /// Last column of the text.
    pub end_column: usize,
    /// The preedit cursor, when the preedit has one.
    pub cursor: Option<PreeditCursor>,
}

impl PreeditLayout {
    /// Column of the IME popup: the cursor's, or the end of the text.
    pub open spec fn popup_column_spec(self) -> usize {
        match self.cursor {
            Some(c) => c.column,
            None => self.end_column,
        }
    }

    /// Column of the IME popup: the cursor's, or the end of the text.
    pub fn popup_column(&self) -> (r: usize)
        ensures
            r == self.popup_column_spec(),
    {
        match self.cursor {
            Some(c) => c.column,
            None => self.end_column,
        }
    }
}

/// Layout of `visible_len` visible preedit characters requested at
/// `column` of a line of `num_cols` columns: the text is shifted left so
/// that it ends inside the line; the cursor, given by its offsets from the
/// end of the text in columns, is a hollow block over the changed cells or
/// a beam when none are.
pub open spec fn preedit_layout_of(
    column: nat,
    visible_len: nat,
    num_cols: nat,
    cursor_end_offset: Option<(usize, usize)>,
) -> PreeditLayout {
    let end: int = if column + visible_len <= num_cols {
        (column + visible_len) as int
    } else {
        num_cols as int
    };
    PreeditLayout {
        start_column: if end >= visible_len {
            (end - visible_len) as usize
        } else {
            0usize
        },
        end_column: (end - 1) as usize,
        cursor: match cursor_end_offset {
            Some(c) => Some(
                PreeditCursor {
                    column: if end >= c.0 {
                        (end - c.0) as usize
                    } else {
                        0usize
                    },
                    shape: if c.0 != c.1 {
                        CursorShape::HollowBlock
                    } else {
                        CursorShape::Beam
                    },
                    width: if c.0 != c.1 {
                        (c.0 - c.1) as u32
                    } else {
                        1u32
                    },
                },
            ),
            None => None,
        },
    }
}

/// Lay out the visible preedit text; see [`preedit_layout_of`].
pub fn preedit_layout(
    column: usize,
    visible_len: usize,
    num_cols: usize,
    cursor_end_offset: Option<(usize, usize)>,
) -> (r: PreeditLayout)
    requires
        column + visible_len <= usize::MAX,
        column + visible_len >= 1,
        num_cols >= 1,
        cursor_end_offset matches Some(c) ==> c.1 <= c.0 && c.0 - c.1 <= u32::MAX && c.0
            <= isize::MAX,
    ensures
        r == preedit_layout_of(column as nat, visible_len as nat, num_cols as nat, cursor_end_offset),
{
    let end = if column + visible_len <= num_cols {
        column + visible_len
    } else {
        num_cols
    };
    let start_column = end.saturating_sub(visible_len);
    let end_column = end - 1;
    let cursor = match cursor_end_offset {
        Some((from_start, from_end)) => {
            // A hollow block when several characters are changed at once.
            let changed = from_start - from_end;
            let (shape, width) = if changed != 0 {
                (CursorShape::HollowBlock, changed as u32)
            } else {
                (CursorShape::Beam, 1u32)
            };
            let cursor_column = if end >= from_start {
                end - from_start
            } else {
                0
            };
            Some(PreeditCursor { column: cursor_column, shape, width })
        },
        None => None,
    };
    PreeditLayout { start_column, end_column, cursor }
}

/// The preedit text stays inside its line: it ends in the last column at
/// the latest, takes as many cells as it has characters while it fits, and
/// the cursor never lies past the cell after the text.
pub proof fn lemma_preedit_within_line(
    column: nat,
    visible_len: nat,
    num_cols: nat,
    cursor_end_offset: Option<(usize, usize)>,
)
    requires
        visible_len >= 1,
        1 <= num_cols <= usize::MAX,
    ensures
        ({
            let r = preedit_layout_of(column, visible_len, num_cols, cursor_end_offset);
            &&& r.start_column <= r.end_column < num_cols
            &&& visible_len <= num_cols ==> r.end_column - r.start_column + 1 == visible_len
            &&& r.cursor matches Some(c) ==> c.column <= r.end_column + 1
        }),
{
}

/// Input method preedit text and cursor.
#[derive(Debug)]
pub struct Preedit {
    /// The preedit text.
    text: String,
    /// Byte offset for cursor start into the preedit text.
    ///
    /// `None` means that the cursor is invisible.
    cursor_byte_offset: Option<(usize, usize)>,
    /// The cursor offset from the end of the start of the preedit in char width.
    cursor_end_offset: Option<(usize, usize)>,
}

/// Whether a cursor byte range can be given for `text`: both offsets must
/// fall between characters.
pub open spec fn valid_cursor_offsets(text: Seq<char>, offsets: Option<(usize, usize)>) -> bool {
    match offsets {
        Some((start, end)) => is_byte_boundary(text, start as nat) && is_byte_boundary(text, end as nat),
        None => true,
    }
}

/// Cursor position measured from the end of the preedit, in columns, for a
/// cursor byte range.
pub open spec fn end_offsets(text: Seq<char>, offsets: Option<(usize, usize)>) -> Option<(usize, usize)> {
    match offsets {
        Some((start, end)) => Some(
            (columns_from_byte(text, start as nat) as usize, columns_from_byte(text, end as nat) as usize),
        ),
        None => None,
    }
}

impl Preedit {
    /// The preedit text.
    pub closed spec fn text_spec(&self) -> Seq<char> {
        self.text@
    }

    /// Byte range of the cursor in the text.
    pub closed spec fn cursor_byte_offset_spec(&self) -> Option<(usize, usize)> {
        self.cursor_byte_offset
    }

    /// Cursor offsets from the end of the text, in columns.
    pub closed spec fn cursor_end_offset_spec(&self) -> Option<(usize, usize)> {
        self.cursor_end_offset
    }

    /// Preedit of `text` with the cursor at the given byte range.
    pub fn new(text: String, cursor_byte_offset: Option<(usize, usize)>) -> (r: Self)
        requires
            valid_cursor_offsets(text@, cursor_byte_offset),
            3 * text@.len() <= usize::MAX,
        ensures
            r.text_spec() == text@,
            r.cursor_byte_offset_spec() == cursor_byte_offset,
            r.cursor_end_offset_spec() == end_offsets(text@, cursor_byte_offset),
    {
        let cursor_end_offset = match cursor_byte_offset {
            Some((start, end)) => {
                // Convert byte offset into char offset.
                let chars = chars_of(text.as_str());
                let start_to_end_offset = columns_after_byte(chars.as_slice(), start);
                let end_to_end_offset = columns_after_byte(chars.as_slice(), end);
                Some((start_to_end_offset, end_to_end_offset))
            },
            None => None,
        };
        Preedit { text, cursor_byte_offset, cursor_end_offset }
    }

    /// The preedit text.
    pub fn text(&self) -> (r: &String)
        ensures
            r@ == self.text_spec(),
    {
        &self.text
    }

    /// Byte range of the cursor in the text (`None`: cursor invisible).
    pub fn cursor_byte_offset(&self) -> (r: Option<(usize, usize)>)
        ensures
            r == self.cursor_byte_offset_spec(),
    {
        self.cursor_byte_offset
    }

    /// Cursor offsets from the end of the text, in columns.
    pub fn cursor_end_offset(&self) -> (r: Option<(usize, usize)>)
        ensures
            r == self.cursor_end_offset_spec(),
    {
        self.cursor_end_offset
    }
}

/// Input method state.
#[derive(Debug)]
pub struct Ime {
    /// Whether the IME is enabled.
    enabled: bool,
    /// Current IME preedit.
    preedit: Option<Preedit>,
}

impl Default for Ime {
    fn default() -> (r: Self)
        ensures
            !r.enabled_spec(),
            r.preedit_spec() is None,
    {
        Ime { enabled: false, preedit: None }
    }
}

impl Ime {
    /// Whether the IME is enabled.
    pub closed spec fn enabled_spec(&self) -> bool {
        self.enabled
    }

    /// The current preedit.
    pub closed spec fn preedit_spec(&self) -> Option<Preedit> {
        self.preedit
    }

    /// Enable the IME, keeping its state, or disable it, clearing its state.
    #[inline]
    pub fn set_enabled(&mut self, is_enabled: bool)
        ensures
            final(self).enabled_spec() == is_enabled,
            is_enabled ==> final(self).preedit_spec() == old(self).preedit_spec(),
            !is_enabled ==> final(self).preedit_spec() is None,
    {
        if is_enabled {
            self.enabled = is_enabled
        } else {
            // Clear state when disabling IME.
            *self = Ime::default();
        }
    }

    #[inline]
    pub fn is_enabled(&self) -> (r: bool)
        ensures
            r == self.enabled_spec(),
    {
        self.enabled
    }

    #[inline]
    pub fn set_preedit(&mut self, preedit: Option<Preedit>)
        ensures
            final(self).preedit_spec() == preedit,
            final(self).enabled_spec() == old(self).enabled_spec(),
    {
        self.preedit = preedit;
    }

    #[inline]
    pub fn preedit(&self) -> (r: Option<&Preedit>)
        ensures
            r is Some <==> self.preedit_spec() is Some,
            r is Some ==> *r->0 == self.preedit_spec()->0,
    {
        self.preedit.as_ref()
    }
}

} // verus!
