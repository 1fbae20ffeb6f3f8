//! Text by the character: words, padding to a width, and the word that a
//! line begins with.

use std::str::Chars;
use vstd::prelude::*;
use vstd::std_specs::iter::IteratorSpec;
use vstd::string::*;

verus! {

/// `count` spaces; none where `count` is not positive.
pub open spec fn spaces(count: int) -> Seq<char> {
    Seq::new(
        if count > 0 {
            count as nat
        } else {
            0
        },
        |i: int| ' ',
    )
}

/// `text` with spaces behind it up to `width` characters; `text` itself
/// where it is that wide or wider.
pub open spec fn padded(text: Seq<char>, width: int) -> Seq<char> {
    text + spaces(width - text.len())
}

/// `text` filled up with spaces to `width` characters. Text that is wider
/// than `width` is left as it is.
pub fn pad_to(text: &str, width: usize) -> (out: String)
    ensures
        out@ == padded(text@, width as int),
{
    let mut out: String = text.to_owned();
    let mut filled: usize = text.unicode_len();
    proof {
        reveal_strlit(" ");
        assert(out@ =~= text@ + spaces(0));
    }
    while filled < width
        invariant
            text@.len() <= filled,
            filled <= width || filled == text@.len(),
            out@ == text@ + spaces(filled - text@.len()),
            " "@ == seq![' '],
        decreases width - filled,
    {
        out.append(" ");
        filled += 1;
        assert(out@ =~= text@ + spaces(filled - text@.len()));
    }
    assert(out@ =~= padded(text@, width as int));
    out
}

/// Whether `text` can stand as one word in a line: it is not empty and holds
/// neither a space nor a line feed.
pub open spec fn is_word(text: Seq<char>) -> bool {
    &&& text.len() > 0
    &&& forall|i: int| 0 <= i < text.len() ==> text[i] != ' ' && text[i] != '\n'
}

/// Whether `text` begins with `word` as a whole: with its characters, and
/// behind them a space or nothing more.
pub open spec fn begins_with_word(text: Seq<char>, word: Seq<char>) -> bool {
    &&& word.is_prefix_of(text)
    &&& text.len() == word.len() || text[word.len() as int] == ' '
}

/// Whether `text` can stand as one word in a line.
pub fn is_one_word(text: &str) -> (word: bool)
    ensures
        word == is_word(text@),
{
    let mut rest: Chars<'_> = text.chars();
    let ghost mut seen: int = 0;
    loop
        invariant
            0 <= seen <= text@.len(),
            rest.remaining() == text@.skip(seen),
            forall|i: int| 0 <= i < seen ==> text@[i] != ' ' && text@[i] != '\n',
        decreases text@.len() - seen,
    {
        match rest.next() {
            None => {
                assert(seen == text@.len());
                return !text.is_empty();
            },
            Some(found) => {
                assert(found == text@[seen]);
                if found == ' ' || found == '\n' {
                    return false;
                }
                proof {
                    assert(text@.skip(seen).drop_first() =~= text@.skip(seen + 1));
                    seen = seen + 1;
                }
            },
        }
    }
}

/// Whether `text` begins with `word` as a whole.
pub fn starts_with_word(text: &str, word: &str) -> (begins: bool)
    ensures
        begins == begins_with_word(text@, word@),
{
    let mut of_text: Chars<'_> = text.chars();
    let mut of_word: Chars<'_> = word.chars();
    let ghost mut seen: int = 0;
    loop
        invariant
            0 <= seen <= word@.len(),
            seen <= text@.len(),
            of_text.remaining() == text@.skip(seen),
            of_word.remaining() == word@.skip(seen),
            word@.take(seen) == text@.take(seen),
        decreases word@.len() - seen,
    {
        match of_word.next() {
            None => {
                assert(seen == word@.len());
                assert(word@.take(seen) =~= word@);
                assert(text@.take(seen) =~= text@.subrange(0, word@.len() as int));
                match of_text.next() {
                    None => {
                        assert(seen == text@.len());
                        return true;
                    },
                    Some(behind) => {
                        assert(behind == text@[seen]);
                        return behind == ' ';
                    },
                }
            },
            Some(wanted) => {
                assert(wanted == word@[seen]);
                match of_text.next() {
                    None => {
                        assert(seen == text@.len());
                        return false;
                    },
                    Some(found) => {
                        assert(found == text@[seen]);
                        if wanted != found {
                            assert(!word@.is_prefix_of(text@)) by {
                                if word@.is_prefix_of(text@) {
                                    assert(text@.subrange(0, word@.len() as int)[seen]
                                        == word@[seen]);
                                }
                            }
                            return false;
                        }
                        proof {
                            assert(word@.skip(seen).drop_first() =~= word@.skip(seen + 1));
                            assert(text@.skip(seen).drop_first() =~= text@.skip(seen + 1));
                            assert(word@.take(seen + 1) =~= word@.take(seen).push(word@[seen]));
                            assert(text@.take(seen + 1) =~= text@.take(seen).push(text@[seen]));
                            seen = seen + 1;
                        }
                    },
                }
            },
        }
    }
}

} // verus!
