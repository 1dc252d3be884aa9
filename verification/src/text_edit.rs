//! Editing the text of a text annotation: a string and a cursor that stands
//! on a character boundary, moved by grapheme clusters and by words.

use vstd::prelude::*;
use vstd::utf8::{
    decode_utf8, encode_scalar, encode_utf8, encode_utf8_decode_utf8, encode_utf8_valid_utf8, is_char_boundary,
    is_char_boundary_iff_not_is_continuation_byte, is_char_boundary_start_end_of_seq,
    valid_utf8, valid_utf8_split,
};
use unicode_segmentation::UnicodeSegmentation;

verus! {

/// Where a cursor key moves the cursor.
#[derive(Debug, Clone, Copy, PartialEq, Eq, Structural)]
pub enum CursorMove {
    Left,
    Right,
    WordLeft,
    WordRight,
    Home,
    End,
}

/// The Unicode words of a text with their byte offsets, as `unicode_word_indices` yields them.
pub uninterp spec fn word_indices_of(text: Seq<char>) -> Seq<(usize, Seq<char>)>;

/// The grapheme clusters of a text with their byte offsets, as
/// `grapheme_indices` yields them, extended clusters or legacy ones.
pub uninterp spec fn grapheme_indices_of(text: Seq<char>, is_extended: bool) -> Seq<
    (usize, Seq<char>),
>;

/// The UTF-8 bytes of `text`.
pub open spec fn utf8(text: Seq<char>) -> Seq<u8> {
    encode_utf8(text)
}

/// `index` is a character boundary of `text`, counted in bytes.
pub open spec fn boundary(text: Seq<char>, index: int) -> bool {
    &&& 0 <= index <= utf8(text).len()
    &&& utf8(text).len() <= usize::MAX
    &&& is_char_boundary(utf8(text), index)
}

/// The characters before byte `cursor`.
pub open spec fn chars_before(text: Seq<char>, cursor: int) -> Seq<char> {
    decode_utf8(utf8(text).subrange(0, cursor))
}

/// The characters from byte `cursor` on.
pub open spec fn chars_from(text: Seq<char>, cursor: int) -> Seq<char> {
    decode_utf8(utf8(text).subrange(cursor, utf8(text).len() as int))
}

/// The offsets and texts of pieces of a text.
pub open spec fn pieces_view(pieces: Seq<(usize, &str)>) -> Seq<(usize, Seq<char>)> {
    pieces.map_values(|piece: (usize, &str)| (piece.0, piece.1@))
}

/// Pieces of `text` in order: each non-empty, inside the text, starting and
/// ending on character boundaries, and each ending before the next starts.
pub open spec fn ordered_pieces(text: Seq<char>, pieces: Seq<(usize, Seq<char>)>) -> bool {
    &&& forall|i: int|
        #![trigger pieces[i]]
        0 <= i < pieces.len() ==> {
            &&& 0 < utf8(pieces[i].1).len()
            &&& pieces[i].0 + utf8(pieces[i].1).len() <= utf8(text).len()
            &&& is_char_boundary(utf8(text), pieces[i].0 as int)
            &&& is_char_boundary(utf8(text), pieces[i].0 + utf8(pieces[i].1).len())
        }
    &&& forall|i: int, j: int|
        0 <= i < j < pieces.len() ==> pieces[i].0 + utf8(pieces[i].1).len() <= pieces[j].0
}

/// The start of the last piece, or 0 when there is none.
pub open spec fn last_start(pieces: Seq<(usize, Seq<char>)>) -> int {
    if pieces.len() == 0 {
        0
    } else {
        pieces.last().0 as int
    }
}

/// Where the first piece of a text from `cursor` on ends, counted from the
/// start of the whole text of `text_len` bytes; the end of that text when
/// there is no piece.
pub open spec fn first_end(text_len: int, cursor: int, pieces: Seq<(usize, Seq<char>)>) -> int {
    if pieces.len() == 0 {
        text_len
    } else {
        cursor + pieces[0].0 + utf8(pieces[0].1).len()
    }
}

/// Where the second piece of a text from `cursor` on starts, counted from
/// the start of the whole text of `text_len` bytes; the end of that text
/// when there are fewer than two pieces.
pub open spec fn second_start(text_len: int, cursor: int, pieces: Seq<(usize, Seq<char>)>) -> int {
    if pieces.len() < 2 {
        text_len
    } else {
        cursor + pieces[1].0
    }
}

/// The start of the last word before the cursor, or 0.
pub open spec fn previous_word_boundary_of(text: Seq<char>, cursor: int) -> int {
    last_start(word_indices_of(chars_before(text, cursor)))
}

/// The end of the first word after the cursor, or the end of the text.
pub open spec fn next_word_boundary_of(text: Seq<char>, cursor: int) -> int {
    first_end(utf8(text).len() as int, cursor, word_indices_of(chars_from(text, cursor)))
}

/// The start of the grapheme cluster before the cursor, or 0.
pub open spec fn previous_boundary_of(text: Seq<char>, cursor: int) -> int {
    last_start(grapheme_indices_of(chars_before(text, cursor), true))
}

/// The start of the grapheme cluster after the one at the cursor, or the end of the text.
pub open spec fn next_boundary_of(text: Seq<char>, cursor: int) -> int {
    second_start(utf8(text).len() as int, cursor, grapheme_indices_of(chars_from(text, cursor), true))
}

/// The start of the last piece, or 0.
pub fn last_piece_start(pieces: &Vec<(usize, &str)>) -> (start: usize)
    ensures
        start == last_start(pieces_view(pieces@)),
{
    if pieces.len() == 0 {
        return 0;
    }
    let (start, _) = pieces[pieces.len() - 1];
    start
}

/// Where the first piece of a text from `cursor` on ends, in the whole text
/// of `text_len` bytes.
pub fn first_piece_end(text_len: usize, cursor: usize, pieces: &Vec<(usize, &str)>) -> (end: usize)
    requires
        pieces@.len() > 0 ==> cursor + pieces@[0].0 + utf8(pieces@[0].1@).len() <= usize::MAX,
    ensures
        end == first_end(text_len as int, cursor as int, pieces_view(pieces@)),
{
    if pieces.len() == 0 {
        return text_len;
    }
    let (start, piece) = pieces[0];
    cursor + start + piece.len()
}

/// Where the second piece of a text from `cursor` on starts, in the whole
/// text of `text_len` bytes.
pub fn second_piece_start(text_len: usize, cursor: usize, pieces: &Vec<(usize, &str)>) -> (start: usize)
    requires
        pieces@.len() >= 2 ==> cursor + pieces@[1].0 <= usize::MAX,
    ensures
        start == second_start(text_len as int, cursor as int, pieces_view(pieces@)),
{
    if pieces.len() < 2 {
        return text_len;
    }
    let (start, _) = pieces[1];
    cursor + start
}

/// Calls `unicode_word_indices` and collects the words with their offsets.
/// Trusted: the words are what the crate finds in the text; they are
/// substrings of it, non-empty and in order, so each starts and ends on a
/// character boundary and ends before the next starts.
#[verifier::external_body]
fn word_indices<'a>(text: &'a str) -> (words: Vec<(usize, &'a str)>)
    ensures
        pieces_view(words@) == word_indices_of(text@),
        ordered_pieces(text@, pieces_view(words@)),
{
    text.unicode_word_indices().collect()
}

/// Calls `grapheme_indices` and collects the clusters with their offsets.
/// Trusted: the clusters are what the crate finds in the text; they are
/// substrings of it, non-empty and in order, so each starts and ends on a
/// character boundary and ends before the next starts.
#[verifier::external_body]
fn grapheme_indices<'a>(text: &'a str, is_extended: bool) -> (clusters: Vec<(usize, &'a str)>)
    ensures
        pieces_view(clusters@) == grapheme_indices_of(text@, is_extended),
        ordered_pieces(text@, pieces_view(clusters@)),
{
    text.grapheme_indices(is_extended).collect()
}

/// The bytes of a concatenation are the concatenated bytes.
pub proof fn lemma_utf8_concat(a: Seq<char>, b: Seq<char>)
    ensures
        utf8(a + b) == utf8(a) + utf8(b),
    decreases a.len(),
{
    if a.len() == 0 {
        assert(a + b =~= b);
        assert(utf8(a) =~= Seq::<u8>::empty());
        assert(utf8(a) + utf8(b) =~= utf8(b));
    } else {
        lemma_utf8_concat(a.drop_first(), b);
        assert((a + b).drop_first() =~= a.drop_first() + b);
        assert((a + b)[0] == a[0]);
        assert(utf8(a + b) =~= utf8(a) + utf8(b));
    }
}

/// A boundary of a prefix that ends on a boundary is a boundary of the whole.
proof fn lemma_prefix_boundary(bytes: Seq<u8>, cursor: int, index: int)
    requires
        valid_utf8(bytes),
        0 <= cursor <= bytes.len(),
        is_char_boundary(bytes, cursor),
        0 <= index < cursor,
        is_char_boundary(bytes.subrange(0, cursor), index),
    ensures
        is_char_boundary(bytes, index),
{
    valid_utf8_split(bytes, cursor);
    is_char_boundary_iff_not_is_continuation_byte(bytes.subrange(0, cursor), index);
    is_char_boundary_iff_not_is_continuation_byte(bytes, index);
}

/// A boundary of a suffix that starts on a boundary is a boundary of the whole.
proof fn lemma_suffix_boundary(bytes: Seq<u8>, cursor: int, index: int)
    requires
        valid_utf8(bytes),
        0 <= cursor <= bytes.len(),
        is_char_boundary(bytes, cursor),
        0 <= index <= bytes.len() - cursor,
        is_char_boundary(bytes.subrange(cursor, bytes.len() as int), index),
    ensures
        is_char_boundary(bytes, cursor + index),
{
    valid_utf8_split(bytes, cursor);
    if index == bytes.len() - cursor {
        is_char_boundary_start_end_of_seq(bytes);
    } else {
        is_char_boundary_iff_not_is_continuation_byte(
            bytes.subrange(cursor, bytes.len() as int),
            index,
        );
        is_char_boundary_iff_not_is_continuation_byte(bytes, cursor + index);
    }
}

/// In `left + right`, the end of `left` is a boundary when `right` begins on one.
proof fn lemma_joint_boundary(left: Seq<u8>, right: Seq<u8>)
    requires
        valid_utf8(left + right),
        valid_utf8(right),
    ensures
        is_char_boundary(left + right, left.len() as int),
{
    let whole = left + right;
    if right.len() == 0 {
        assert(whole =~= left);
        is_char_boundary_start_end_of_seq(whole);
    } else {
        is_char_boundary_start_end_of_seq(right);
        is_char_boundary_iff_not_is_continuation_byte(right, 0);
        assert(whole[left.len() as int] == right[0]);
        is_char_boundary_iff_not_is_continuation_byte(whole, left.len() as int);
    }
}

/// The start of the last word that begins before `cursor`, or 0.
pub fn previous_word_boundary(text: &str, cursor: usize) -> (index: usize)
    requires
        boundary(text@, cursor as int),
    ensures
        index == previous_word_boundary_of(text@, cursor as int),
        index <= cursor,
        boundary(text@, index as int),
{
    proof {
        encode_utf8_valid_utf8(text@);
        is_char_boundary_start_end_of_seq(utf8(text@));
    }
    let (before, _) = text.split_at(cursor);
    proof {
        encode_utf8_decode_utf8(before@);
    }
    let words = word_indices(before);
    let index = last_piece_start(&words);
    proof {
        let view = pieces_view(words@);
        if view.len() > 0 {
            assert(view[view.len() - 1].0 == index);
            lemma_prefix_boundary(utf8(text@), cursor as int, index as int);
        }
    }
    index
}

/// The end of the first word that ends after `cursor`, or the end of the text.
pub fn next_word_boundary(text: &str, cursor: usize) -> (index: usize)
    requires
        boundary(text@, cursor as int),
    ensures
        index == next_word_boundary_of(text@, cursor as int),
        cursor <= index,
        boundary(text@, index as int),
{
    proof {
        encode_utf8_valid_utf8(text@);
        is_char_boundary_start_end_of_seq(utf8(text@));
    }
    let (_, after) = text.split_at(cursor);
    proof {
        encode_utf8_decode_utf8(after@);
    }
    let words = word_indices(after);
    proof {
        let view = pieces_view(words@);
        if view.len() > 0 {
            assert(view[0] == (words@[0].0, words@[0].1@));
            lemma_suffix_boundary(
                utf8(text@),
                cursor as int,
                words@[0].0 + utf8(words@[0].1@).len(),
            );
        }
    }
    first_piece_end(text.len(), cursor, &words)
}

/// The start of the grapheme cluster that ends at `cursor`, or 0.
pub fn previous_boundary(text: &str, cursor: usize) -> (index: usize)
    requires
        boundary(text@, cursor as int),
    ensures
        index == previous_boundary_of(text@, cursor as int),
        index <= cursor,
        cursor > 0 ==> index < cursor,
        boundary(text@, index as int),
{
    proof {
        encode_utf8_valid_utf8(text@);
        is_char_boundary_start_end_of_seq(utf8(text@));
    }
    let (before, _) = text.split_at(cursor);
    proof {
        encode_utf8_decode_utf8(before@);
    }
    let clusters = grapheme_indices(before, true);
    let index = last_piece_start(&clusters);
    proof {
        let view = pieces_view(clusters@);
        if view.len() > 0 {
            assert(view[view.len() - 1].0 == index);
            lemma_prefix_boundary(utf8(text@), cursor as int, index as int);
        }
    }
    index
}

/// The start of the grapheme cluster after the one at `cursor`, or the end of the text.
pub fn next_boundary(text: &str, cursor: usize) -> (index: usize)
    requires
        boundary(text@, cursor as int),
    ensures
        index == next_boundary_of(text@, cursor as int),
        cursor <= index,
        cursor < utf8(text@).len() ==> cursor < index,
        boundary(text@, index as int),
{
    proof {
        encode_utf8_valid_utf8(text@);
        is_char_boundary_start_end_of_seq(utf8(text@));
    }
    let (_, after) = text.split_at(cursor);
    proof {
        encode_utf8_decode_utf8(after@);
    }
    let clusters = grapheme_indices(after, true);
    proof {
        let view = pieces_view(clusters@);
        if view.len() >= 2 {
            assert(view[1].0 == clusters@[1].0);
            assert(view[0].0 + utf8(view[0].1).len() <= view[1].0);
            lemma_suffix_boundary(utf8(text@), cursor as int, clusters@[1].0 as int);
        }
    }
    second_piece_start(text.len(), cursor, &clusters)
}

/// `text` with the bytes from `start` to `end` taken out.
pub open spec fn without_range(text: Seq<char>, start: int, end: int) -> Seq<u8> {
    utf8(text).subrange(0, start) + utf8(text).subrange(end, utf8(text).len() as int)
}

/// A new string: `text` without the bytes from `start` to `end`.
fn cut(text: &str, start: usize, end: usize) -> (result: String)
    requires
        start <= end,
        boundary(text@, start as int),
        boundary(text@, end as int),
    ensures
        utf8(result@) == without_range(text@, start as int, end as int),
        boundary(result@, start as int),
{
    proof {
        encode_utf8_valid_utf8(text@);
    }
    let (left, _) = text.split_at(start);
    let (_, right) = text.split_at(end);
    let mut result = String::from_str(left);
    result.append(right);
    proof {
        lemma_utf8_concat(left@, right@);
        encode_utf8_valid_utf8(result@);
        encode_utf8_valid_utf8(right@);
        lemma_joint_boundary(utf8(left@), utf8(right@));
    }
    result
}

/// A new string: `text` with `insert` put in at byte `at`.
fn splice(text: &str, at: usize, insert: &str) -> (result: String)
    requires
        boundary(text@, at as int),
        utf8(text@).len() + utf8(insert@).len() <= usize::MAX,
    ensures
        utf8(result@) == utf8(text@).subrange(0, at as int) + utf8(insert@) + utf8(text@).subrange(
            at as int,
            utf8(text@).len() as int,
        ),
        boundary(result@, at + utf8(insert@).len()),
{
    proof {
        encode_utf8_valid_utf8(text@);
    }
    let (left, right) = text.split_at(at);
    let mut result = String::from_str(left);
    result.append(insert);
    let ghost middle = result@;
    result.append(right);
    proof {
        lemma_utf8_concat(left@, insert@);
        lemma_utf8_concat(middle, right@);
        encode_utf8_valid_utf8(result@);
        encode_utf8_valid_utf8(right@);
        lemma_joint_boundary(utf8(middle), utf8(right@));
    }
    result
}

/// `after` is `edit` with the grapheme cluster before the cursor deleted,
/// or unchanged at the start; `changed` says which.
pub open spec fn backspaced(edit: TextEdit, after: TextEdit, changed: bool) -> bool {
    &&& changed == (edit.cursor > 0)
    &&& !changed ==> after == edit
    &&& changed ==> {
        let start = previous_boundary_of(edit.content@, edit.cursor as int);
        &&& after.id == edit.id
        &&& after.cursor == start
        &&& after.bytes() == without_range(edit.content@, start, edit.cursor as int)
    }
}

/// `after` is `edit` with the word before the cursor deleted, or unchanged at the start.
pub open spec fn backspaced_word(edit: TextEdit, after: TextEdit, changed: bool) -> bool {
    &&& changed == (edit.cursor > 0)
    &&& !changed ==> after == edit
    &&& changed ==> {
        let start = previous_word_boundary_of(edit.content@, edit.cursor as int);
        &&& after.id == edit.id
        &&& after.cursor == start
        &&& after.bytes() == without_range(edit.content@, start, edit.cursor as int)
    }
}

/// `after` is `edit` with the grapheme cluster after the cursor deleted, or
/// unchanged at the end.
pub open spec fn deleted_forward(edit: TextEdit, after: TextEdit, changed: bool) -> bool {
    &&& changed == (edit.cursor < edit.bytes().len())
    &&& !changed ==> after == edit
    &&& changed ==> {
        &&& after.id == edit.id
        &&& after.cursor == edit.cursor
        &&& after.bytes() == without_range(
            edit.content@,
            edit.cursor as int,
            next_boundary_of(edit.content@, edit.cursor as int),
        )
    }
}

/// Where `movement` takes the cursor of `edit`.
pub open spec fn moved_cursor(edit: TextEdit, movement: CursorMove) -> int {
    match movement {
        CursorMove::Left => previous_boundary_of(edit.content@, edit.cursor as int),
        CursorMove::Right => next_boundary_of(edit.content@, edit.cursor as int),
        CursorMove::WordLeft => previous_word_boundary_of(edit.content@, edit.cursor as int),
        CursorMove::WordRight => next_word_boundary_of(edit.content@, edit.cursor as int),
        CursorMove::Home => 0,
        CursorMove::End => edit.bytes().len() as int,
    }
}

/// `after` is `edit` with `text` typed at the cursor and the cursor past it.
pub open spec fn typed(edit: TextEdit, text: Seq<char>, after: TextEdit) -> bool {
    &&& after.id == edit.id
    &&& after.bytes() == edit.bytes().subrange(0, edit.cursor as int) + utf8(text)
        + edit.bytes().subrange(edit.cursor as int, edit.bytes().len() as int)
    &&& after.cursor == edit.cursor + utf8(text).len()
}

/// The text being typed, the cursor in it (a byte offset), and the text
/// annotation being edited, none for a new text.
pub struct TextEdit {
    pub id: Option<u64>,
    pub content: String,
    pub cursor: usize,
}

impl TextEdit {
    /// The cursor stands on a character boundary of the content.
    pub open spec fn wf(&self) -> bool {
        boundary(self.content@, self.cursor as int)
    }

    /// The content as UTF-8 bytes.
    pub open spec fn bytes(&self) -> Seq<u8> {
        utf8(self.content@)
    }

    /// The text as it is shown while being typed: the content with a `|`
    /// standing for the cursor.
    pub fn display(&self) -> (shown: String)
        requires
            self.wf(),
            self.bytes().len() < usize::MAX,
        ensures
            utf8(shown@) == self.bytes().subrange(0, self.cursor as int) + seq![0x7cu8]
                + self.bytes().subrange(self.cursor as int, self.bytes().len() as int),
    {
        proof {
            reveal_strlit("|");
            assert("|"@.drop_first() =~= Seq::<char>::empty());
            assert(('|' as u32) == 0x7c);
            assert((0x7cu32 & 0x7f) as u8 == 0x7cu8) by (bit_vector);
            assert(encode_utf8(Seq::<char>::empty()) =~= Seq::<u8>::empty());
            assert(encode_scalar(0x7cu32) =~= seq![0x7cu8]);
            assert(utf8("|"@) =~= seq![0x7cu8]);
        }
        splice(self.content.as_str(), self.cursor, "|")
    }

    /// Types `text` at the cursor and moves the cursor past it.
    pub fn insert(&mut self, text: &str)
        requires
            old(self).wf(),
            old(self).bytes().len() + utf8(text@).len() <= usize::MAX,
        ensures
            final(self).wf(),
            final(self).bytes() == old(self).bytes().subrange(0, old(self).cursor as int) + utf8(
                text@,
            ) + old(self).bytes().subrange(old(self).cursor as int, old(self).bytes().len() as int),
            final(self).cursor == old(self).cursor + utf8(text@).len(),
            typed(*old(self), text@, *final(self)),
    {
        let content = splice(self.content.as_str(), self.cursor, text);
        self.content = content;
        self.cursor = self.cursor + text.len();
    }

    /// Deletes the grapheme cluster before the cursor. Returns false at the start.
    pub fn backspace(&mut self) -> (changed: bool)
        requires
            old(self).wf(),
        ensures
            final(self).wf(),
            changed == (old(self).cursor > 0),
            !changed ==> *final(self) == *old(self),
            changed ==> {
                let start = previous_boundary_of(old(self).content@, old(self).cursor as int);
                &&& final(self).cursor == start
                &&& final(self).bytes() == without_range(
                    old(self).content@,
                    start,
                    old(self).cursor as int,
                )
            },
            backspaced(*old(self), *final(self), changed),
    {
        if self.cursor == 0 {
            return false;
        }
        let previous = previous_boundary(self.content.as_str(), self.cursor);
        let content = cut(self.content.as_str(), previous, self.cursor);
        self.content = content;
        self.cursor = previous;
        true
    }

    /// Deletes back to the start of the word before the cursor. Returns false at the start.
    pub fn backspace_word(&mut self) -> (changed: bool)
        requires
            old(self).wf(),
        ensures
            final(self).wf(),
            changed == (old(self).cursor > 0),
            !changed ==> *final(self) == *old(self),
            changed ==> {
                let start = previous_word_boundary_of(old(self).content@, old(self).cursor as int);
                &&& final(self).cursor == start
                &&& final(self).bytes() == without_range(
                    old(self).content@,
                    start,
                    old(self).cursor as int,
                )
            },
            backspaced_word(*old(self), *final(self), changed),
    {
        if self.cursor == 0 {
            return false;
        }
        let previous = previous_word_boundary(self.content.as_str(), self.cursor);
        let content = cut(self.content.as_str(), previous, self.cursor);
        self.content = content;
        self.cursor = previous;
        true
    }

    /// Deletes the grapheme cluster after the cursor. Returns false at the end.
    pub fn delete(&mut self) -> (changed: bool)
        requires
            old(self).wf(),
        ensures
            final(self).wf(),
            changed == (old(self).cursor < old(self).bytes().len()),
            !changed ==> *final(self) == *old(self),
            changed ==> {
                &&& final(self).cursor == old(self).cursor
                &&& final(self).bytes() == without_range(
                    old(self).content@,
                    old(self).cursor as int,
                    next_boundary_of(old(self).content@, old(self).cursor as int),
                )
            },
            deleted_forward(*old(self), *final(self), changed),
    {
        if self.cursor == self.content.as_str().len() {
            return false;
        }
        let next = next_boundary(self.content.as_str(), self.cursor);
        let content = cut(self.content.as_str(), self.cursor, next);
        self.content = content;
        true
    }

    /// Moves the cursor; the text is unchanged. Returns whether the cursor moved.
    pub fn move_cursor(&mut self, movement: CursorMove) -> (changed: bool)
        requires
            old(self).wf(),
        ensures
            final(self).wf(),
            final(self).id == old(self).id,
            final(self).content == old(self).content,
            final(self).cursor == match movement {
                CursorMove::Left => previous_boundary_of(old(self).content@, old(self).cursor as int),
                CursorMove::Right => next_boundary_of(old(self).content@, old(self).cursor as int),
                CursorMove::WordLeft => previous_word_boundary_of(
                    old(self).content@,
                    old(self).cursor as int,
                ),
                CursorMove::WordRight => next_word_boundary_of(
                    old(self).content@,
                    old(self).cursor as int,
                ),
                CursorMove::Home => 0,
                CursorMove::End => old(self).bytes().len() as int,
            },
            changed == (final(self).cursor != old(self).cursor),
            final(self).cursor == moved_cursor(*old(self), movement),
    {
        proof {
            encode_utf8_valid_utf8(self.content@);
            is_char_boundary_start_end_of_seq(utf8(self.content@));
        }
        let cursor = match movement {
            CursorMove::Left => previous_boundary(self.content.as_str(), self.cursor),
            CursorMove::Right => next_boundary(self.content.as_str(), self.cursor),
            CursorMove::WordLeft => previous_word_boundary(self.content.as_str(), self.cursor),
            CursorMove::WordRight => next_word_boundary(self.content.as_str(), self.cursor),
            CursorMove::Home => 0,
            CursorMove::End => self.content.as_str().len(),
        };
        let changed = cursor != self.cursor;
        self.cursor = cursor;
        changed
    }
}

} // verus!
