//! Text helpers shared by the other modules: the characters of a string,
//! decimal digits, and the last line of a message.

use vstd::prelude::*;
use vstd::std_specs::iter::IteratorSpec;
use vstd::string::StringExecFns;

verus! {

/// `String::push` of std appends one character at the end of the string.
pub assume_specification[ String::push ](s: &mut String, c: char)
    ensures
        final(s)@ == old(s)@.push(c),
;

/// `==` on string slices, as std defines it: two slices are equal exactly
/// when they hold the same characters in the same order.
pub assume_specification[ <str as PartialEq>::eq ](a: &str, b: &str) -> (same: bool)
    ensures
        same == (a@ == b@),
;

/// Whether `c` is white space, as `char::is_whitespace` of std tells it.
pub uninterp spec fn is_white_space(c: char) -> bool;

/// `char::is_whitespace` of std: whether the character has the Unicode
/// property White_Space. The answer depends on the character alone.
pub assume_specification[ char::is_whitespace ](c: char) -> (white: bool)
    ensures
        white == is_white_space(c),
;

/// The characters of `s`, in order.
pub fn chars_of(s: &str) -> (v: Vec<char>)
    ensures
        v@ == s@,
{
    broadcast use vstd::string::group_string_axioms;

    let mut it = s.chars();
    let mut v: Vec<char> = Vec::new();
    loop
        invariant
            it.obeys_prophetic_iter_laws(),
            v@ + it.remaining() == s@,
            it.decrease() is Some,
        decreases it.decrease()->0,
    {
        match it.next() {
            Some(c) => {
                v.push(c);
                assert(v@ + it.remaining() =~= s@);
            },
            None => {
                assert(v@ =~= s@);
                return v;
            },
        }
    }
}

/// The character that stands for one decimal digit.
pub open spec fn digit_char(d: nat) -> char {
    if d == 0 {
        '0'
    } else if d == 1 {
        '1'
    } else if d == 2 {
        '2'
    } else if d == 3 {
        '3'
    } else if d == 4 {
        '4'
    } else if d == 5 {
        '5'
    } else if d == 6 {
        '6'
    } else if d == 7 {
        '7'
    } else if d == 8 {
        '8'
    } else {
        '9'
    }
}

/// The decimal notation of `n`: no sign, no leading zero, `"0"` for zero.
pub open spec fn decimal(n: nat) -> Seq<char>
    decreases n,
{
    if n < 10 {
        seq![digit_char(n)]
    } else {
        decimal(n / 10).push(digit_char(n % 10))
    }
}

fn digit(d: u64) -> (c: char)
    requires
        d < 10,
    ensures
        c == digit_char(d as nat),
{
    if d == 0 {
        '0'
    } else if d == 1 {
        '1'
    } else if d == 2 {
        '2'
    } else if d == 3 {
        '3'
    } else if d == 4 {
        '4'
    } else if d == 5 {
        '5'
    } else if d == 6 {
        '6'
    } else if d == 7 {
        '7'
    } else if d == 8 {
        '8'
    } else {
        '9'
    }
}

fn push_decimal(s: &mut String, n: u64)
    ensures
        final(s)@ == old(s)@ + decimal(n as nat),
    decreases n,
{
    if n >= 10 {
        push_decimal(s, n / 10);
    }
    s.push(digit(n % 10));
    assert(s@ =~= old(s)@ + decimal(n as nat));
}

/// Writes `n` in decimal notation.
pub fn decimal_string(n: u64) -> (s: String)
    ensures
        s@ == decimal(n as nat),
{
    let mut s = String::new();
    push_decimal(&mut s, n);
    assert(s@ =~= decimal(n as nat));
    s
}

/// The parts, one behind the other, with `separator` between each two.
pub open spec fn joined_by(parts: Seq<Seq<char>>, separator: char) -> Seq<char>
    decreases parts.len(),
{
    if parts.len() == 0 {
        Seq::empty()
    } else if parts.len() == 1 {
        parts[0]
    } else {
        joined_by(parts.drop_last(), separator) + seq![separator] + parts.last()
    }
}

/// One more part behind the others.
pub proof fn lemma_joined_push(parts: Seq<Seq<char>>, part: Seq<char>, separator: char)
    ensures
        joined_by(parts.push(part), separator) == if parts.len() == 0 {
            part
        } else {
            joined_by(parts, separator) + seq![separator] + part
        },
{
    assert(parts.push(part).drop_last() =~= parts);
}

/// One more character at the end of the last part.
pub proof fn lemma_joined_extend(parts: Seq<Seq<char>>, c: char, separator: char)
    requires
        parts.len() > 0,
    ensures
        joined_by(parts.drop_last().push(parts.last().push(c)), separator) == joined_by(
            parts,
            separator,
        ).push(c),
{
    let front = parts.drop_last();
    lemma_joined_push(front, parts.last().push(c), separator);
    assert(joined_by(front.push(parts.last().push(c)), separator) =~= joined_by(
        parts,
        separator,
    ).push(c));
}

/// The words of `s`: its longest runs of characters that are not white
/// space, in order.
pub open spec fn words(s: Seq<char>) -> Seq<Seq<char>>
    decreases s.len(),
{
    if s.len() == 0 {
        Seq::empty()
    } else {
        let front = s.drop_last();
        let before = words(front);
        if is_white_space(s.last()) {
            before
        } else if front.len() > 0 && !is_white_space(front.last()) {
            before.drop_last().push(before.last().push(s.last()))
        } else {
            before.push(seq![s.last()])
        }
    }
}

/// A text that ends in a character that is not white space ends in a word.
pub proof fn lemma_words_open(s: Seq<char>)
    requires
        s.len() > 0,
        !is_white_space(s.last()),
    ensures
        words(s).len() > 0,
    decreases s.len(),
{
    let front = s.drop_last();
    if front.len() > 0 && !is_white_space(front.last()) {
        lemma_words_open(front);
    }
}

/// No word is empty, and no word holds white space.
pub proof fn lemma_words_solid(s: Seq<char>, i: int)
    requires
        0 <= i < words(s).len(),
    ensures
        words(s)[i].len() > 0,
        forall|j: int| 0 <= j < words(s)[i].len() ==> !is_white_space(#[trigger] words(s)[i][j]),
    decreases s.len(),
{
    if s.len() > 0 {
        let front = s.drop_last();
        let before = words(front);
        if is_white_space(s.last()) {
            lemma_words_solid(front, i);
        } else if front.len() > 0 && !is_white_space(front.last()) {
            lemma_words_open(front);
            if i < before.len() - 1 {
                lemma_words_solid(front, i);
            } else {
                lemma_words_solid(front, before.len() - 1);
            }
        } else {
            if i < before.len() {
                lemma_words_solid(front, i);
            }
        }
    }
}

/// The lines of `s`: what stands between its line feeds, before the first
/// and behind the last. A text without a line feed is one line, the empty
/// text too.
pub open spec fn lines(s: Seq<char>) -> Seq<Seq<char>>
    decreases s.len(),
{
    if s.len() == 0 {
        seq![Seq::empty()]
    } else {
        let before = lines(s.drop_last());
        if s.last() == '\n' {
            before.push(Seq::empty())
        } else {
            before.drop_last().push(before.last().push(s.last()))
        }
    }
}

/// Where the last line of `s` begins: just behind the last line feed, or at
/// 0 where `s` holds none.
pub open spec fn last_line_start(s: Seq<char>) -> nat
    decreases s.len(),
{
    if s.len() == 0 {
        0
    } else if s.last() == '\n' {
        s.len()
    } else {
        last_line_start(s.drop_last())
    }
}

/// `text` with its last line replaced by `line`: all of `text` up to and
/// including its last line feed, then `line`.
pub open spec fn with_last_line(text: Seq<char>, line: Seq<char>) -> Seq<char> {
    text.take(last_line_start(text) as int) + line
}

/// The last line begins inside the text, directly behind a line feed unless
/// it begins the text, and holds no line feed itself.
pub proof fn lemma_last_line_start(s: Seq<char>)
    ensures
        last_line_start(s) <= s.len(),
        last_line_start(s) > 0 ==> s[last_line_start(s) - 1] == '\n',
        forall|i: int| last_line_start(s) <= i < s.len() ==> s[i] != '\n',
    decreases s.len(),
{
    if s.len() > 0 && s.last() != '\n' {
        let front = s.drop_last();
        lemma_last_line_start(front);
        assert forall|i: int| last_line_start(s) <= i < s.len() implies s[i] != '\n' by {
            if i < front.len() {
                assert(s[i] == front[i]);
            }
        }
    }
}

/// A position behind a line feed, with no line feed after it, is where the
/// last line begins.
pub proof fn lemma_last_line_start_unique(s: Seq<char>, k: int)
    requires
        0 <= k <= s.len(),
        k > 0 ==> s[k - 1] == '\n',
        forall|i: int| k <= i < s.len() ==> s[i] != '\n',
    ensures
        last_line_start(s) == k,
    decreases s.len(),
{
    if s.len() > 0 && s.last() != '\n' {
        lemma_last_line_start_unique(s.drop_last(), k);
    }
}

/// A text has at least one line; its lines joined by line feeds are the
/// text; the last of them is what stands behind `last_line_start`; and the
/// others, joined and closed by a line feed, are what stands before.
pub proof fn lemma_lines(s: Seq<char>)
    ensures
        lines(s).len() >= 1,
        joined_by(lines(s), '\n') == s,
        lines(s).last() == s.skip(last_line_start(s) as int),
        last_line_start(s) <= s.len(),
        s.take(last_line_start(s) as int) == if lines(s).len() == 1 {
            Seq::<char>::empty()
        } else {
            joined_by(lines(s).drop_last(), '\n').push('\n')
        },
    decreases s.len(),
{
    if s.len() == 0 {
        assert(s =~= Seq::empty());
        assert(s.skip(0) =~= s);
        assert(s.take(0) =~= Seq::empty());
    } else {
        let front = s.drop_last();
        let before = lines(front);
        lemma_lines(front);
        lemma_last_line_start(s);
        if s.last() == '\n' {
            lemma_joined_push(before, Seq::empty(), '\n');
            assert(before.push(Seq::empty()).drop_last() =~= before);
            assert(joined_by(lines(s), '\n') =~= s);
            assert(s.skip(s.len() as int) =~= Seq::empty());
            assert(s.take(s.len() as int) =~= front.push('\n'));
        } else {
            let k = last_line_start(front) as int;
            lemma_joined_extend(before, s.last(), '\n');
            assert(front.push(s.last()) =~= s);
            assert(s.skip(k) =~= front.skip(k).push(s.last()));
            assert(s.take(k) =~= front.take(k));
            assert(lines(s).drop_last() =~= before.drop_last());
        }
    }
}

/// To replace the last line is to split the text at its line feeds, put
/// the new line in the place of the last part, and join the parts by line
/// feeds again.
pub proof fn lemma_with_last_line(text: Seq<char>, line: Seq<char>)
    ensures
        lines(text).len() >= 1,
        with_last_line(text, line) == joined_by(lines(text).drop_last().push(line), '\n'),
{
    lemma_lines(text);
    let others = lines(text).drop_last();
    lemma_joined_push(others, line, '\n');
    if others.len() > 0 {
        assert(joined_by(others, '\n').push('\n') + line =~= joined_by(others, '\n') + seq!['\n']
            + line);
    } else {
        assert(Seq::<char>::empty() + line =~= line);
    }
}

/// Replaces the last line of `text` by `line`.
pub fn replace_last_line(text: &str, line: &str) -> (replaced: String)
    ensures
        replaced@ == with_last_line(text@, line@),
{
    let chars = chars_of(text);
    let mut start: usize = 0;
    let mut i: usize = 0;
    while i < chars.len()
        invariant
            i <= chars.len(),
            start <= i,
            start > 0 ==> chars@[start - 1] == '\n',
            forall|j: int| start <= j < i ==> chars@[j] != '\n',
        decreases chars.len() - i,
    {
        if chars[i] == '\n' {
            start = i + 1;
        }
        i += 1;
    }
    proof {
        lemma_last_line_start_unique(chars@, start as int);
    }
    let mut replaced = String::new();
    let mut j: usize = 0;
    while j < start
        invariant
            j <= start <= chars.len(),
            replaced@ == chars@.take(j as int),
        decreases start - j,
    {
        replaced.push(chars[j]);
        assert(replaced@ =~= chars@.take(j + 1));
        j += 1;
    }
    replaced.append(line);
    replaced
}

} // verus!
