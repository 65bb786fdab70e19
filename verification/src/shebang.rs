use vstd::prelude::*;
use crate::bytes::first_index_of;
use crate::bytes::lemma_first_index_of_bounds;
use crate::bytes::copy_range;
use crate::bytes::find_byte;
use crate::path::views;

verus! {

/// Whether `b` is valid UTF-8 text, as `core::str::from_utf8` decides it.
pub uninterp spec fn is_utf8(b: Seq<u8>) -> bool;

/// `core::str::from_utf8`: whether the bytes are valid UTF-8.
#[verifier::external_body]
pub(crate) fn utf8_ok(b: &[u8]) -> (r: bool)
    ensures
        r == is_utf8(b@),
{
    core::str::from_utf8(b).is_ok()
}

/// Length of the whitespace character (Unicode `White_Space`) that starts at
/// byte `i` of UTF-8 text, or 0 when none starts there.
pub open spec fn ws_len(s: Seq<u8>, i: int) -> int {
    let b = s[i];
    if b == 9 || b == 10 || b == 11 || b == 12 || b == 13 || b == 32 {
        1
    } else if b == 0xC2 && i + 1 < s.len() && (s[i + 1] == 0x85 || s[i + 1] == 0xA0) {
        2
    } else if b == 0xE1 && i + 2 < s.len() && s[i + 1] == 0x9A && s[i + 2] == 0x80 {
        3
    } else if b == 0xE2 && i + 2 < s.len() && ((s[i + 1] == 0x80 && ((0x80 <= s[i + 2]
        && s[i + 2] <= 0x8A) || s[i + 2] == 0xA8 || s[i + 2] == 0xA9 || s[i + 2] == 0xAF)) || (
    s[i + 1] == 0x81 && s[i + 2] == 0x9F)) {
        3
    } else if b == 0xE3 && i + 2 < s.len() && s[i + 1] == 0x80 && s[i + 2] == 0x80 {
        3
    } else {
        0
    }
}

/// `acc` with the word `cur` appended unless it is empty.
pub open spec fn flush_word(acc: Seq<Seq<u8>>, cur: Seq<u8>) -> Seq<Seq<u8>> {
    if cur.len() == 0 {
        acc
    } else {
        acc.push(cur)
    }
}

/// The words of `s` from byte `i` on, given the words `acc` already found and
/// the word `cur` in progress.
pub open spec fn split_ws_from(s: Seq<u8>, i: int, cur: Seq<u8>, acc: Seq<Seq<u8>>) -> Seq<
    Seq<u8>,
>
    decreases s.len() - i,
{
    if i < 0 || i >= s.len() {
        flush_word(acc, cur)
    } else if ws_len(s, i) > 0 {
        split_ws_from(s, i + ws_len(s, i), Seq::empty(), flush_word(acc, cur))
    } else {
        split_ws_from(s, i + 1, cur.push(s[i]), acc)
    }
}

/// The maximal runs of non-whitespace characters of `s`, in order.
pub open spec fn split_ws(s: Seq<u8>) -> Seq<Seq<u8>> {
    split_ws_from(s, 0, Seq::empty(), Seq::empty())
}

fn ws_len_at(s: &[u8], i: usize) -> (r: usize)
    requires
        i < s.len(),
    ensures
        r == ws_len(s@, i as int),
        r <= 3,
{
    let b = s[i];
    if b == 9 || b == 10 || b == 11 || b == 12 || b == 13 || b == 32 {
        return 1;
    }
    if b == 0xC2 && i + 1 < s.len() && (s[i + 1] == 0x85 || s[i + 1] == 0xA0) {
        return 2;
    }
    if s.len() - i > 2 {
        let b1 = s[i + 1];
        let b2 = s[i + 2];
        if b == 0xE1 && b1 == 0x9A && b2 == 0x80 {
            return 3;
        }
        if b == 0xE2 && ((b1 == 0x80 && ((0x80 <= b2 && b2 <= 0x8A) || b2 == 0xA8 || b2 == 0xA9
            || b2 == 0xAF)) || (b1 == 0x81 && b2 == 0x9F)) {
            return 3;
        }
        if b == 0xE3 && b1 == 0x80 && b2 == 0x80 {
            return 3;
        }
    }
    0
}

/// Splits UTF-8 text at whitespace, as `str::split_whitespace` does.
pub fn split_whitespace(s: &[u8]) -> (r: Vec<Vec<u8>>)
    ensures
        views(r@) == split_ws(s@),
{
    let mut acc: Vec<Vec<u8>> = Vec::new();
    let mut cur: Vec<u8> = Vec::new();
    let mut i: usize = 0;
    assert(views(acc@) =~= Seq::<Seq<u8>>::empty());
    assert(cur@ =~= Seq::<u8>::empty());
    while i < s.len()
        invariant
            i <= s.len(),
            split_ws_from(s@, i as int, cur@, views(acc@)) == split_ws(s@),
        decreases s.len() - i,
    {
        let w = ws_len_at(s, i);
        if w > 0 {
            let ghost before = views(acc@);
            if cur.len() > 0 {
                let ghost c = cur@;
                acc.push(cur);
                assert(views(acc@) =~= before.push(c));
            } else {
                assert(views(acc@) =~= flush_word(before, cur@));
            }
            cur = Vec::new();
            assert(cur@ =~= Seq::<u8>::empty());
            i = i + w;
        } else {
            cur.push(s[i]);
            i = i + 1;
        }
    }
    if cur.len() > 0 {
        let ghost before = views(acc@);
        let ghost c = cur@;
        acc.push(cur);
        assert(views(acc@) =~= before.push(c));
    }
    acc
}

/// Byte index where the first line of `image` ends: its first newline, or
/// the end of the image.
pub open spec fn line_end(image: Seq<u8>) -> int {
    match first_index_of(image, 10) {
        Some(i) => i,
        None => image.len() as int,
    }
}

/// Why a `#!` line cannot be used.
#[derive(Clone, Copy, Debug, PartialEq, Eq, Structural)]
pub enum ShebangError {
    /// The line is not valid UTF-8.
    Invalid,
    /// The line names no interpreter.
    Empty,
}

/// What the first line of `image` says: nothing when it does not start with
/// `#!`, otherwise the words that follow `#!` up to the first newline.
pub open spec fn shebang_of(image: Seq<u8>) -> Result<Option<Seq<Seq<u8>>>, ShebangError> {
    if image.len() < 2 || image[0] != 35 || image[1] != 33 {
        Ok(None)
    } else {
        let line = image.subrange(2, line_end(image));
        if !is_utf8(line) {
            Err(ShebangError::Invalid)
        } else if split_ws(line).len() == 0 {
            Err(ShebangError::Empty)
        } else {
            Ok(Some(split_ws(line)))
        }
    }
}

/// The words of the `#!` line that starts `image`: the interpreter first,
/// then its arguments.
pub fn shebang_words(image: &[u8]) -> (r: Result<Option<Vec<Vec<u8>>>, ShebangError>)
    ensures
        match (r, shebang_of(image@)) {
            (Ok(None), Ok(None)) => true,
            (Ok(Some(w)), Ok(Some(ws))) => views(w@) == ws,
            (Err(e), Err(f)) => e == f,
            _ => false,
        },
{
    if image.len() < 2 || image[0] != 35 || image[1] != 33 {
        return Ok(None);
    }
    let end = match find_byte(image, 10) {
        Some(i) => i,
        None => image.len(),
    };
    proof {
        lemma_first_index_of_bounds(image@, 10);
    }
    if end < 2 {
        proof {
            assert(image@[0] != 10u8);
            assert(image@[1] != 10u8);
        }
    }
    let line = copy_range(image, 2, end);
    if !utf8_ok(line.as_slice()) {
        return Err(ShebangError::Invalid);
    }
    let words = split_whitespace(line.as_slice());
    if words.len() == 0 {
        return Err(ShebangError::Empty);
    }
    Ok(Some(words))
}

} // verus!
