//! What the library needs of `std`'s string functions, with what they return
//! stated over the characters of their arguments.

use vstd::prelude::*;
use vstd::std_specs::iter::IteratorSpec;
use vstd::string::StringSliceAdditionalSpecFns;
use vstd::utf8::{decode_utf8, encode_utf8, is_char_boundary};

verus! {

/// Whether a character is whitespace, as Unicode's `White_Space` tells it.
pub uninterp spec fn is_space(c: char) -> bool;

/// `char::is_whitespace`: whether the character is whitespace.
#[verifier::external_body]
pub(crate) fn is_whitespace(c: char) -> (space: bool)
    ensures
        space == is_space(c),
{
    c.is_whitespace()
}

/// `String::push`: the string with the character added at its end.
#[verifier::external_body]
pub(crate) fn push_char(text: &mut String, c: char)
    ensures
        final(text)@ == old(text)@.push(c),
{
    text.push(c)
}

/// How many whitespace characters a text starts with.
pub open spec fn leading_spaces(text: Seq<char>) -> nat
    decreases text.len(),
{
    if text.len() == 0 || !is_space(text.first()) {
        0
    } else {
        1 + leading_spaces(text.drop_first())
    }
}

/// How many whitespace characters a text ends with.
pub open spec fn trailing_spaces(text: Seq<char>) -> nat
    decreases text.len(),
{
    if text.len() == 0 || !is_space(text.last()) {
        0
    } else {
        1 + trailing_spaces(text.drop_last())
    }
}

/// A text without the whitespace at its start and at its end.
pub open spec fn trim_of(text: Seq<char>) -> Seq<char> {
    if leading_spaces(text) == text.len() {
        Seq::empty()
    } else {
        text.subrange(leading_spaces(text) as int, text.len() - trailing_spaces(text))
    }
}

/// How many times the character `c` stands at the end of a text.
pub open spec fn trailing_run(text: Seq<char>, c: char) -> nat
    decreases text.len(),
{
    if text.len() == 0 || text.last() != c {
        0
    } else {
        1 + trailing_run(text.drop_last(), c)
    }
}

/// A text without the slashes at its end.
pub open spec fn without_trailing_slashes(text: Seq<char>) -> Seq<char> {
    text.subrange(0, text.len() - trailing_run(text, '/'))
}

/// `str::trim`: the text without the whitespace characters at its start
/// and at its end.
#[verifier::external_body]
pub(crate) fn trim(text: &str) -> (trimmed: &str)
    ensures
        trimmed@ == trim_of(text@),
{
    text.trim()
}

/// `str::trim_end_matches` with the pattern `'/'`: the text without the
/// slashes that it ends with.
#[verifier::external_body]
pub(crate) fn trim_end_slashes(text: &str) -> (trimmed: &str)
    ensures
        trimmed@ == without_trailing_slashes(text@),
{
    text.trim_end_matches('/')
}

/// The character of a digit.
pub open spec fn digit(d: nat) -> Seq<char> {
    if d == 0 {
        "0"@
    } else if d == 1 {
        "1"@
    } else if d == 2 {
        "2"@
    } else if d == 3 {
        "3"@
    } else if d == 4 {
        "4"@
    } else if d == 5 {
        "5"@
    } else if d == 6 {
        "6"@
    } else if d == 7 {
        "7"@
    } else if d == 8 {
        "8"@
    } else {
        "9"@
    }
}

/// A number written in decimal digits, without leading zeros.
pub open spec fn decimal(n: nat) -> Seq<char>
    decreases n,
{
    if n < 10 {
        digit(n)
    } else {
        decimal(n / 10) + digit(n % 10)
    }
}

/// The character of a digit.
fn digit_text(d: usize) -> (text: &'static str)
    requires
        d < 10,
    ensures
        text@ == digit(d as nat),
{
    if d == 0 {
        "0"
    } else if d == 1 {
        "1"
    } else if d == 2 {
        "2"
    } else if d == 3 {
        "3"
    } else if d == 4 {
        "4"
    } else if d == 5 {
        "5"
    } else if d == 6 {
        "6"
    } else if d == 7 {
        "7"
    } else if d == 8 {
        "8"
    } else {
        "9"
    }
}

/// A number written in decimal digits.
pub fn decimal_text(n: usize) -> (text: String)
    ensures
        text@ == decimal(n as nat),
    decreases n,
{
    if n < 10 {
        digit_text(n).to_owned()
    } else {
        let mut text = decimal_text(n / 10);
        text.append(digit_text(n % 10));
        text
    }
}

/// The texts of a list, one after the other, with `separator` between them.
pub open spec fn joined_texts(texts: Seq<Seq<char>>, separator: Seq<char>) -> Seq<char>
    decreases texts.len(),
{
    if texts.len() == 0 {
        Seq::empty()
    } else if texts.len() == 1 {
        texts[0]
    } else {
        joined_texts(texts.drop_last(), separator) + separator + texts.last()
    }
}

/// The strings of a list, one after the other, with `separator` between them.
pub fn join_texts(texts: &Vec<String>, separator: &str) -> (text: String)
    ensures
        text@ == joined_texts(crate::hooks::texts_of(texts@), separator@),
{
    let ghost all = crate::hooks::texts_of(texts@);
    let mut text = String::new();
    let mut i: usize = 0;
    proof {
        assert(all.take(0) =~= Seq::<Seq<char>>::empty());
    }
    while i < texts.len()
        invariant
            i <= texts.len(),
            all == crate::hooks::texts_of(texts@),
            text@ == joined_texts(all.take(i as int), separator@),
        decreases texts.len() - i,
    {
        proof {
            let next = all.take(i as int + 1);
            assert(next.drop_last() =~= all.take(i as int));
            assert(next.last() == texts@[i as int]@);
            if i == 0 {
                assert(text@ + texts@[i as int]@ =~= texts@[i as int]@);
            }
        }
        if i > 0 {
            text.append(separator);
        }
        text.append(texts[i].as_str());
        i = i + 1;
    }
    proof {
        assert(all.take(i as int) =~= all);
    }
    text
}

/// The characters of a text, one by one.
pub fn to_chars(text: &str) -> (chars: Vec<char>)
    ensures
        chars@ == text@,
{
    broadcast use vstd::string::axiom_spec_iter, vstd::string::next_postcondition;

    let mut rest = text.chars();
    let mut chars: Vec<char> = Vec::new();
    assert(chars@ + rest.remaining() =~= text@);
    loop
        invariant
            chars@ + rest.remaining() == text@,
            rest.obeys_prophetic_iter_laws(),
            rest.decrease() is Some,
        ensures
            chars@ == text@,
        decreases rest.decrease()->0,
    {
        let ghost before = rest.remaining();
        match rest.next() {
            Some(c) => {
                chars.push(c);
                assert(chars@ + rest.remaining() =~= text@);
            },
            None => {
                assert(chars@ + before =~= chars@);
                break ;
            },
        }
    }
    chars
}

/// The string with the characters of `chars` from position `from` up to,
/// not including, position `to`.
pub fn from_chars(chars: &Vec<char>, from: usize, to: usize) -> (text: String)
    requires
        from <= to <= chars@.len(),
    ensures
        text@ == chars@.subrange(from as int, to as int),
{
    let mut text = String::new();
    let mut i: usize = from;
    assert(text@ =~= chars@.subrange(from as int, i as int));
    while i < to
        invariant
            from <= i <= to <= chars@.len(),
            text@ == chars@.subrange(from as int, i as int),
        decreases to - i,
    {
        push_char(&mut text, chars[i]);
        i = i + 1;
        assert(text@ =~= chars@.subrange(from as int, i as int));
    }
    text
}

/// The words of a text: its longest runs of characters that are not
/// whitespace, in order.
pub open spec fn words(text: Seq<char>) -> Seq<Seq<char>>
    decreases text.len(),
{
    if text.len() == 0 {
        Seq::empty()
    } else {
        let front = text.drop_last();
        let before = words(front);
        if is_space(text.last()) {
            before
        } else if front.len() > 0 && !is_space(front.last()) {
            before.drop_last().push(before.last().push(text.last()))
        } else {
            before.push(seq![text.last()])
        }
    }
}

/// A text with every run of whitespace turned into one blank, and without
/// whitespace at its start and its end.
pub open spec fn collapsed(text: Seq<char>) -> Seq<char> {
    joined_texts(words(text), " "@)
}

/// A text that ends with a character that is no whitespace has a last word.
proof fn lemma_words_last(text: Seq<char>)
    requires
        text.len() > 0,
        !is_space(text.last()),
    ensures
        words(text).len() > 0,
{
}

/// Joining a list whose last text has grown gives the joined list, grown.
proof fn lemma_joined_grow(texts: Seq<Seq<char>>, separator: Seq<char>, more: Seq<char>)
    requires
        texts.len() > 0,
    ensures
        joined_texts(texts.drop_last().push(texts.last() + more), separator) == joined_texts(
            texts,
            separator,
        ) + more,
{
    let grown = texts.drop_last().push(texts.last() + more);
    assert(grown.drop_last() =~= texts.drop_last());
    assert(grown.last() == texts.last() + more);
    if texts.len() == 1 {
        assert(joined_texts(grown, separator) =~= joined_texts(texts, separator) + more);
    } else {
        assert(joined_texts(grown, separator) =~= joined_texts(texts, separator) + more);
    }
}

/// Joining a list with one more text gives the joined list, the separator
/// and that text; the first text stands alone.
proof fn lemma_joined_push(texts: Seq<Seq<char>>, separator: Seq<char>, added: Seq<char>)
    ensures
        joined_texts(texts.push(added), separator) == if texts.len() == 0 {
            added
        } else {
            joined_texts(texts, separator) + separator + added
        },
{
    let more = texts.push(added);
    assert(more.drop_last() =~= texts);
    assert(more.last() == added);
    if texts.len() == 0 {
        assert(more[0] == added);
    }
}

/// Turns every run of whitespace into one blank and drops the whitespace at
/// the start and the end.
pub fn collapse_whitespace(text: &str) -> (out: String)
    ensures
        out@ == collapsed(text@),
{
    let chars = to_chars(text);
    let mut out = String::new();
    let mut in_word = false;
    let mut started = false;
    let mut i: usize = 0;
    proof {
        assert(chars@.take(0) =~= Seq::<char>::empty());
        assert(out@ =~= collapsed(chars@.take(0)));
    }
    while i < chars.len()
        invariant
            i <= chars.len(),
            chars@ == text@,
            out@ == collapsed(chars@.take(i as int)),
            in_word == (i > 0 && !is_space(chars@[i as int - 1])),
            started == (words(chars@.take(i as int)).len() > 0),
        decreases chars.len() - i,
    {
        let c = chars[i];
        let ghost front = chars@.take(i as int);
        let ghost next = chars@.take(i as int + 1);
        proof {
            assert(next.drop_last() =~= front);
            assert(next.last() == c);
            if i > 0 {
                assert(front.last() == chars@[i as int - 1]);
            }
        }
        if is_whitespace(c) {
            in_word = false;
        } else {
            if in_word {
                proof {
                    lemma_words_last(front);
                    lemma_joined_grow(words(front), " "@, seq![c]);
                    assert(words(front).last().push(c) =~= words(front).last() + seq![c]);
                    assert(out@.push(c) =~= out@ + seq![c]);
                }
                push_char(&mut out, c);
            } else {
                proof {
                    lemma_joined_push(words(front), " "@, seq![c]);
                    reveal_strlit(" ");
                    assert(" "@ =~= seq![' ']);
                }
                if started {
                    push_char(&mut out, ' ');
                    push_char(&mut out, c);
                    assert(out@ =~= collapsed(front) + " "@ + seq![c]);
                } else {
                    push_char(&mut out, c);
                    assert(joined_texts(words(front), " "@) =~= Seq::<char>::empty());
                    assert(out@ =~= seq![c]);
                }
            }
            in_word = true;
            started = true;
        }
        i = i + 1;
    }
    proof {
        assert(chars@.take(i as int) =~= chars@);
    }
    out
}

/// The last place at or before `limit` at which a text in UTF-8 can be cut
/// without cutting a character.
pub open spec fn boundary_below(bytes: Seq<u8>, limit: int) -> int
    decreases limit,
{
    if limit <= 0 {
        0
    } else if is_char_boundary(bytes, limit) {
        limit
    } else {
        boundary_below(bytes, limit - 1)
    }
}

/// The start of a text: its first `limit` bytes in UTF-8, or fewer where
/// that many would cut a character.
pub open spec fn cut_of(text: Seq<char>, limit: int) -> Seq<char> {
    decode_utf8(encode_utf8(text).subrange(0, boundary_below(encode_utf8(text), limit)))
}

/// The start of a text, at most `limit` bytes long, that ends between two
/// characters.
pub fn cut_at(text: &str, limit: usize) -> (start: &str)
    requires
        limit <= text.spec_bytes().len(),
    ensures
        start@ == cut_of(text@, limit as int),
{
    broadcast use vstd::utf8::encode_utf8_valid_utf8, vstd::utf8::encode_utf8_decode_utf8;

    let mut k: usize = limit;
    while k > 0 && !text.is_char_boundary(k)
        invariant
            k <= limit <= text.spec_bytes().len(),
            boundary_below(text.spec_bytes(), k as int) == boundary_below(
                text.spec_bytes(),
                limit as int,
            ),
        decreases k,
    {
        k = k - 1;
    }
    assert(is_char_boundary(text.spec_bytes(), k as int));
    let (start, _) = text.split_at(k);
    assert(encode_utf8(start@) == text.spec_bytes().subrange(0, k as int));
    start
}

/// Whether `pattern` stands in `text` at position `i`.
pub open spec fn stands_at(text: Seq<char>, pattern: Seq<char>, i: int) -> bool {
    0 <= i && i + pattern.len() <= text.len() && text.subrange(i, i + pattern.len()) == pattern
}

/// Whether `i` is the first position at which `pattern` stands in `text`.
pub open spec fn first_stands_at(text: Seq<char>, pattern: Seq<char>, i: int) -> bool {
    stands_at(text, pattern, i) && forall|j: int| 0 <= j < i ==> !stands_at(text, pattern, j)
}

/// Whether `pattern` stands in `chars` at position `at`.
pub fn matches_at(chars: &Vec<char>, pattern: &Vec<char>, at: usize) -> (found: bool)
    ensures
        found == stands_at(chars@, pattern@, at as int),
{
    if pattern.len() > chars.len() || at > chars.len() - pattern.len() {
        return false;
    }
    let mut k: usize = 0;
    while k < pattern.len()
        invariant
            k <= pattern.len(),
            at + pattern.len() <= chars.len(),
            forall|j: int| 0 <= j < k ==> chars@[at + j] == pattern@[j],
        decreases pattern.len() - k,
    {
        if chars[at + k] != pattern[k] {
            assert(chars@.subrange(at as int, at + pattern.len())[k as int] != pattern@[k as int]);
            return false;
        }
        k = k + 1;
    }
    assert(chars@.subrange(at as int, at + pattern.len()) =~= pattern@);
    true
}

/// The first position at which `pattern` stands in `chars`.
pub fn find_chars(chars: &Vec<char>, pattern: &Vec<char>) -> (found: Option<usize>)
    ensures
        match found {
            Some(i) => first_stands_at(chars@, pattern@, i as int),
            None => forall|j: int| !stands_at(chars@, pattern@, j),
        },
{
    let mut i: usize = 0;
    while i < chars.len()
        invariant
            i <= chars.len(),
            forall|j: int| 0 <= j < i ==> !stands_at(chars@, pattern@, j),
        decreases chars.len() - i,
    {
        if matches_at(chars, pattern, i) {
            return Some(i);
        }
        i = i + 1;
    }
    if matches_at(chars, pattern, i) {
        Some(i)
    } else {
        None
    }
}

/// The first position at or after `from` at which the character `c` stands,
/// or the length of the text where it stands at none.
pub open spec fn next_char(text: Seq<char>, c: char, from: int) -> int
    decreases text.len() - from,
{
    if from >= text.len() || text[from] == c {
        from
    } else {
        next_char(text, c, from + 1)
    }
}

/// The first position at or after `from` at which `c` stands in `chars`.
pub fn find_char_from(chars: &Vec<char>, c: char, from: usize) -> (at: usize)
    requires
        from <= chars.len(),
    ensures
        at == next_char(chars@, c, from as int),
        from <= at <= chars.len(),
{
    let mut i: usize = from;
    while i < chars.len() && chars[i] != c
        invariant
            from <= i <= chars.len(),
            next_char(chars@, c, i as int) == next_char(chars@, c, from as int),
        decreases chars.len() - i,
    {
        i = i + 1;
    }
    i
}

} // verus!
