//! Screen layout: the scale of board cells on screen, where the board goes,
//! and how quiz text is wrapped into lines.
use vstd::prelude::*;
use vstd::string::StringExecFns;
use vstd::utf8::encode_utf8;

use crate::grid::{HEIGHT, WIDTH};

verus! {

/// Columns left of the board for the quiz text.
pub const LAYOUT_QUIZ_WIDTH: u16 = 32;

/// How many terminal columns and rows one board cell takes.
pub struct Scale {
    pub x: u8,
    pub y: u8,
}

impl Scale {
    pub fn new(x: u8, y: u8) -> (s: Scale)
        ensures
            s.x == x,
            s.y == y,
    {
        Scale { x, y }
    }
}

/// The top-left corner of the layout in a terminal of the given size: the
/// board is centred horizontally with the quiz area to its left, and the
/// layout sits at the bottom with eight rows to spare. `None` when the
/// terminal is too small for that.
pub open spec fn layout_origin(term_width: int, term_height: int, scale_x: int) -> Option<(int, int)> {
    let board_width = WIDTH * scale_x;
    if term_width < board_width || (term_width - board_width) / 2 < LAYOUT_QUIZ_WIDTH
        || term_height < HEIGHT + 8 {
        None
    } else {
        Some(((term_width - board_width) / 2 - LAYOUT_QUIZ_WIDTH, term_height - HEIGHT - 8))
    }
}

/// Where the layout starts in a terminal of the given size, if it fits.
pub fn layout_offsets(term_width: u16, term_height: u16, scale: &Scale) -> (r: Option<(u16, u16)>)
    ensures
        match (r, layout_origin(term_width as int, term_height as int, scale.x as int)) {
            (Some((x, y)), Some((sx, sy))) => x == sx && y == sy,
            (None, None) => true,
            _ => false,
        },
{
    let board_width: u16 = WIDTH as u16 * scale.x as u16;
    if term_width < board_width || (term_width - board_width) / 2 < LAYOUT_QUIZ_WIDTH
        || term_height < HEIGHT as u16 + 8 {
        None
    } else {
        Some(((term_width - board_width) / 2 - LAYOUT_QUIZ_WIDTH, term_height - HEIGHT as u16 - 8))
    }
}

/// The words of a text, as `str::split_whitespace` finds them.
pub uninterp spec fn words_of(text: Seq<char>) -> Seq<Seq<char>>;

/// Relies on str::split_whitespace: the words of the text, in order, which
/// depend on the text alone; the iterator never yields an empty word.
#[verifier::external_body]
fn split_words(text: &str) -> (words: Vec<String>)
    ensures
        words@.len() == words_of(text@).len(),
        forall|i: int| 0 <= i < words@.len() ==> #[trigger] words@[i]@ == words_of(text@)[i],
        forall|i: int| 0 <= i < words@.len() ==> #[trigger] words_of(text@)[i].len() > 0,
{
    text.split_whitespace().map(String::from).collect()
}

/// The length of a text in bytes, as UTF-8.
pub open spec fn byte_len(s: Seq<char>) -> nat {
    encode_utf8(s).len()
}

/// The lines finished and the line being filled once `words` are placed,
/// greedily, into lines of at most `width` bytes. A word goes to a new line
/// when, with the space before it, it would not fit; the line it ends is kept
/// even if empty.
pub open spec fn pack_words(words: Seq<Seq<char>>, width: int) -> (Seq<Seq<char>>, Seq<char>)
    decreases words.len(),
{
    if words.len() == 0 {
        (Seq::empty(), Seq::empty())
    } else {
        let (lines, line) = pack_words(words.drop_last(), width);
        let word = words.last();
        if byte_len(line) + byte_len(word) + 1 > width {
            (lines.push(line), word)
        } else if line.len() > 0 {
            (lines, line + seq![' '] + word)
        } else {
            (lines, word)
        }
    }
}

/// The lines `words` fill at `width` bytes each; a last line is kept only if
/// it holds something.
pub open spec fn wrap_words(words: Seq<Seq<char>>, width: int) -> Seq<Seq<char>> {
    let (lines, line) = pack_words(words, width);
    if line.len() > 0 {
        lines.push(line)
    } else {
        lines
    }
}

/// Places `words` greedily into lines of at most `width` bytes, breaking
/// between words; a word longer than a line gets a line of its own.
pub fn wrap_into_lines(words: &Vec<String>, width: u16) -> (lines: Vec<String>)
    ensures
        lines@.len() == wrap_words(words@.map_values(|w: String| w@), width as int).len(),
        forall|i: int|
            0 <= i < lines@.len() ==> #[trigger] lines@[i]@ == wrap_words(
                words@.map_values(|w: String| w@),
                width as int,
            )[i],
{
    let ghost ws = words@.map_values(|w: String| w@);
    let w = width as usize;
    let mut lines: Vec<String> = Vec::new();
    let mut line = String::new();
    let mut i: usize = 0;
    while i < words.len()
        invariant
            i <= words@.len(),
            w == width,
            ws == words@.map_values(|w: String| w@),
            lines@.len() == pack_words(ws.take(i as int), width as int).0.len(),
            forall|k: int|
                0 <= k < lines@.len() ==> #[trigger] lines@[k]@ == pack_words(
                    ws.take(i as int),
                    width as int,
                ).0[k],
            line@ == pack_words(ws.take(i as int), width as int).1,
        decreases words@.len() - i,
    {
        let word = &words[i];
        assert(ws.take(i + 1).drop_last() =~= ws.take(i as int));
        assert(ws.take(i + 1).last() == word@);
        let word_len = word.as_str().as_bytes().len();
        let line_len = line.as_str().as_bytes().len();
        if word_len >= w || line_len >= w - word_len {
            lines.push(line);
            line = String::from_str(word.as_str());
        } else if !line.as_str().is_empty() {
            proof {
                reveal_strlit(" ");
            }
            line.append(" ");
            line.append(word.as_str());
        } else {
            line = String::from_str(word.as_str());
        }
        i = i + 1;
    }
    assert(ws.take(i as int) =~= ws);
    if !line.as_str().is_empty() {
        lines.push(line);
    }
    lines
}

/// Cuts `text` into lines of at most `width` bytes, breaking between words;
/// a word longer than a line gets a line of its own.
pub fn split_into_lines(text: &String, width: u16) -> (lines: Vec<String>)
    ensures
        lines@.len() == wrap_words(words_of(text@), width as int).len(),
        forall|i: int|
            0 <= i < lines@.len() ==> #[trigger] lines@[i]@ == wrap_words(
                words_of(text@),
                width as int,
            )[i],
{
    let words = split_words(text.as_str());
    assert(words@.map_values(|w: String| w@) =~= words_of(text@));
    wrap_into_lines(&words, width)
}

} // verus!
