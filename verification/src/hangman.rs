//! The rules of a game of hangman: which letters of the secret word show,
//! and what a guess costs.

use rand::Rng;
use vstd::prelude::*;
use vstd::string::StrSliceExecFns;

verus! {

/// The number of wrong guesses that a game allows.
pub const NUM_INCORRECT_GUESSES: u32 = 5;

/// A random index below `n`.
///
/// Calls `rand::Rng::gen_range(0, n)` on `rand::thread_rng()`, which draws
/// from the range that includes 0 and excludes `n`, and panics on an empty
/// range. Nothing more is claimed of the number drawn.
#[verifier::external_body]
fn random_index(n: usize) -> (index: usize)
    requires
        n > 0,
    ensures
        index < n,
{
    rand::thread_rng().gen_range(0, n)
}

/// The pieces `lines` put together again, with a line feed between each
/// two of them.
pub open spec fn joined(lines: Seq<Seq<char>>) -> Seq<char>
    decreases lines.len(),
{
    if lines.len() == 0 {
        Seq::empty()
    } else if lines.len() == 1 {
        lines[0]
    } else {
        joined(lines.drop_last()) + seq!['\n'] + lines.last()
    }
}

/// Whether `lines` are the lines of `text`: there is at least one, none
/// holds a line feed, and together they give the text back. A text of `n`
/// line feeds has exactly one such sequence, of `n + 1` lines.
pub open spec fn are_lines_of(lines: Seq<Seq<char>>, text: Seq<char>) -> bool {
    &&& lines.len() > 0
    &&& forall|i: int| 0 <= i < lines.len() ==> !(#[trigger] lines[i]).contains('\n')
    &&& joined(lines) == text
}

/// The contents of each vector.
pub open spec fn views(lines: Seq<Vec<char>>) -> Seq<Seq<char>> {
    Seq::new(lines.len(), |i: int| lines[i]@)
}

/// Cuts `text` at each line feed.
pub fn split_lines(text: &str) -> (lines: Vec<Vec<char>>)
    ensures
        are_lines_of(views(lines@), text@),
{
    let len = text.unicode_len();
    let mut lines: Vec<Vec<char>> = Vec::new();
    let mut current: Vec<char> = Vec::new();
    let mut i: usize = 0;
    while i < len
        invariant
            i <= len,
            len == text@.len(),
            !current@.contains('\n'),
            forall|j: int| 0 <= j < lines@.len() ==> !(#[trigger] lines@[j])@.contains('\n'),
            joined(views(lines@).push(current@)) == text@.take(i as int),
        decreases len - i,
    {
        let c = text.get_char(i);
        let ghost before = views(lines@).push(current@);
        assert(before.drop_last() =~= views(lines@));
        if c == '\n' {
            lines.push(current);
            current = Vec::new();
            proof {
                let after = views(lines@).push(current@);
                assert(after.drop_last() =~= before);
            }
        } else {
            let ghost old_current = current@;
            current.push(c);
            proof {
                let after = views(lines@).push(current@);
                assert(after.drop_last() =~= views(lines@));
                assert(joined(after) =~= joined(before).push(c));
                assert forall|j: int| 0 <= j < current@.len() implies current@[j] != '\n' by {
                    if j < old_current.len() {
                        assert(old_current.contains(old_current[j]));
                    }
                }
            }
        }
        i += 1;
    }
    assert(text@.take(len as int) =~= text@);
    let ghost before = views(lines@).push(current@);
    lines.push(current);
    assert(views(lines@) =~= before);
    lines
}

/// Whether `c` is white space: the characters with the Unicode property
/// `White_Space`.
pub open spec fn is_space(c: char) -> bool {
    let code = c as u32;
    ||| 0x09 <= code <= 0x0d
    ||| code == 0x20
    ||| code == 0x85
    ||| code == 0xa0
    ||| code == 0x1680
    ||| 0x2000 <= code <= 0x200a
    ||| code == 0x2028
    ||| code == 0x2029
    ||| code == 0x202f
    ||| code == 0x205f
    ||| code == 0x3000
}

/// Whether `c` is white space.
pub fn space(c: char) -> (white: bool)
    ensures
        white == is_space(c),
{
    let code: u32 = c as u32;
    (0x09 <= code && code <= 0x0d) || code == 0x20 || code == 0x85 || code == 0xa0 || code == 0x1680
        || (0x2000 <= code && code <= 0x200a) || code == 0x2028 || code == 0x2029 || code == 0x202f
        || code == 0x205f || code == 0x3000
}

/// Whether `inner` is `word` without the white space at its two ends:
/// `word` is white space, then `inner`, then white space, and `inner`
/// neither starts nor ends with white space.
pub open spec fn is_trimmed(inner: Seq<char>, word: Seq<char>) -> bool {
    exists|start: int, end: int|
        {
            &&& 0 <= start <= end <= word.len()
            &&& inner == #[trigger] word.subrange(start, end)
            &&& forall|i: int| 0 <= i < start ==> is_space(#[trigger] word[i])
            &&& forall|i: int| end <= i < word.len() ==> is_space(#[trigger] word[i])
            &&& start < end ==> !is_space(word[start]) && !is_space(word[end - 1])
        }
}

/// `word` without the white space at its two ends.
pub fn trim(word: &Vec<char>) -> (inner: Vec<char>)
    ensures
        is_trimmed(inner@, word@),
{
    let mut start: usize = 0;
    while start < word.len() && space(word[start])
        invariant
            start <= word.len(),
            forall|i: int| 0 <= i < start ==> is_space(#[trigger] word@[i]),
        decreases word.len() - start,
    {
        start += 1;
    }
    let mut end: usize = word.len();
    while end > start && space(word[end - 1])
        invariant
            start <= end <= word.len(),
            forall|i: int| end <= i < word.len() ==> is_space(#[trigger] word@[i]),
        decreases end,
    {
        end -= 1;
    }
    let mut inner: Vec<char> = Vec::new();
    let mut i: usize = start;
    while i < end
        invariant
            start <= i <= end <= word.len(),
            inner@ == word@.subrange(start as int, i as int),
        decreases end - i,
    {
        inner.push(word[i]);
        i += 1;
    }
    inner
}

/// The word on line `index` of `lines`: the line without the white space
/// at its two ends.
pub fn word_at(lines: &Vec<Vec<char>>, index: usize) -> (word: Vec<char>)
    requires
        index < lines.len(),
    ensures
        is_trimmed(word@, lines[index as int]@),
{
    trim(&lines[index])
}

/// Picks, at random, the word on one line of the word list `file_string`.
pub fn pick_a_random_word(file_string: &str) -> (word: Vec<char>)
    ensures
        exists|lines: Seq<Seq<char>>, index: int|
            are_lines_of(lines, file_string@) && 0 <= index < lines.len() && is_trimmed(
                word@,
                #[trigger] lines[index],
            ),
{
    let lines = split_lines(file_string);
    let index = random_index(lines.len());
    let word = word_at(&lines, index);
    assert(views(lines@)[index as int] == lines@[index as int]@);
    word
}

/// A text has one sequence of lines and no other: `are_lines_of` says what
/// `split_lines` returns, to the last character.
pub proof fn lemma_lines_are_unique(a: Seq<Seq<char>>, b: Seq<Seq<char>>, text: Seq<char>)
    requires
        are_lines_of(a, text),
        are_lines_of(b, text),
    ensures
        a == b,
    decreases a.len(),
{
    let x = a.last();
    let y = b.last();
    lemma_joined_ends_with_last(a);
    lemma_joined_ends_with_last(b);
    // Both last lines are what follows the last line feed of the text, or
    // the whole text where it has none: a longer one would hold the line
    // feed that stands before the shorter one.
    assert(x =~= y) by {
        assert forall|i: int| 0 <= i < x.len() implies x[i] == y[i] by {
            assert(y[i] == text[text.len() - y.len() + i]);
        }
    }
    if a.len() > 1 {
        let rest = text.take(text.len() - x.len() - 1);
        lemma_lines_are_unique(a.drop_last(), b.drop_last(), rest);
        assert(b =~= b.drop_last().push(y));
    }
}

/// The text of some lines ends with the last line, and with a line feed
/// before it where it is not the only one.
proof fn lemma_joined_ends_with_last(lines: Seq<Seq<char>>)
    requires
        lines.len() > 0,
    ensures
        joined(lines).len() >= lines.last().len(),
        lines.len() == 1 ==> joined(lines) == lines.last(),
        lines.len() > 1 ==> joined(lines).len() > lines.last().len(),
        lines.len() > 1 ==> joined(lines)[joined(lines).len() - lines.last().len() - 1] == '\n',
        forall|i: int|
            0 <= i < lines.last().len() ==> lines.last()[i] == #[trigger] joined(lines)[joined(
                lines,
            ).len() - lines.last().len() + i],
        lines.len() > 1 ==> joined(lines).take(joined(lines).len() - lines.last().len() - 1)
            == joined(lines.drop_last()),
{
    if lines.len() > 1 {
        let head = joined(lines.drop_last());
        assert(joined(lines) == head + seq!['\n'] + lines.last());
        assert(joined(lines).take(joined(lines).len() - lines.last().len() - 1) =~= head);
    }
}

/// The secret word as the player sees it: a letter where it has been
/// revealed, a dash where it has not.
pub open spec fn shown(revealed: Seq<bool>, secret: Seq<char>) -> Seq<char> {
    Seq::new(
        secret.len(),
        |i: int|
            if revealed[i] {
                secret[i]
            } else {
                '-'
            },
    )
}

/// The secret word as the player sees it.
pub fn word_so_far(revealed_indexes: &Vec<bool>, secret_word_chars: &Vec<char>) -> (word: Vec<char>)
    requires
        revealed_indexes.len() >= secret_word_chars.len(),
    ensures
        word@ == shown(revealed_indexes@, secret_word_chars@),
{
    let mut word: Vec<char> = Vec::new();
    let mut i: usize = 0;
    while i < secret_word_chars.len()
        invariant
            i <= secret_word_chars.len() <= revealed_indexes.len(),
            word@ == shown(revealed_indexes@, secret_word_chars@).subrange(0, i as int),
        decreases secret_word_chars.len() - i,
    {
        if revealed_indexes[i] {
            word.push(secret_word_chars[i]);
        } else {
            word.push('-');
        }
        i += 1;
    }
    word
}

/// What is revealed after the guess `c`: what was revealed before, and
/// every place of the secret word that holds `c`.
pub open spec fn revealed_after(revealed: Seq<bool>, secret: Seq<char>, c: char) -> Seq<bool> {
    Seq::new(revealed.len(), |i: int| revealed[i] || (i < secret.len() && secret[i] == c))
}

/// Takes the guess `c`: reveals every place of the secret word that holds
/// it, and returns the number of guesses left, which is one less than
/// before if the word does not hold `c`.
pub fn process_user_input(
    revealed_indexes: &mut Vec<bool>,
    secret_word_chars: &Vec<char>,
    c: char,
    num_guess_left: u32,
) -> (left: u32)
    requires
        old(revealed_indexes).len() >= secret_word_chars.len(),
        num_guess_left > 0 || secret_word_chars@.contains(c),
    ensures
        final(revealed_indexes)@ == revealed_after(old(revealed_indexes)@, secret_word_chars@, c),
        left == if secret_word_chars@.contains(c) {
            num_guess_left as int
        } else {
            num_guess_left - 1
        },
{
    let ghost before = revealed_indexes@;
    let ghost secret = secret_word_chars@;
    let mut found: bool = false;
    let mut i: usize = 0;
    while i < secret_word_chars.len()
        invariant
            i <= secret_word_chars.len() <= revealed_indexes.len(),
            secret == secret_word_chars@,
            revealed_indexes.len() == before.len(),
            found <==> secret.take(i as int).contains(c),
            forall|j: int|
                0 <= j < revealed_indexes.len() ==> revealed_indexes@[j] == (before[j] || (j < i
                    && secret[j] == c)),
        decreases secret_word_chars.len() - i,
    {
        if secret_word_chars[i] == c {
            revealed_indexes.set(i, true);
            found = true;
        }
        proof {
            let longer = secret.take(i + 1);
            let shorter = secret.take(i as int);
            if shorter.contains(c) {
                let k = choose|k: int| 0 <= k < shorter.len() && shorter[k] == c;
                assert(longer[k] == c);
            }
            if secret[i as int] == c {
                assert(longer[i as int] == c);
            }
            if longer.contains(c) {
                let k = choose|k: int| 0 <= k < longer.len() && longer[k] == c;
                assert(k < i ==> shorter[k] == c);
            }
        }
        i += 1;
    }
    assert(secret.take(i as int) =~= secret);
    if !found {
        num_guess_left - 1
    } else {
        num_guess_left
    }
}

} // verus!
