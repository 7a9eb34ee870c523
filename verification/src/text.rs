//! Character sequences: splitting at a separator and reading decimal numbers.

use vstd::prelude::*;

verus! {

/// std's `String::push` appends the given character to the end of the
/// string: the view after the call is the view before it with `ch` added.
pub assume_specification[ String::push ](s: &mut String, ch: char)
    ensures
        final(s)@ == old(s)@.push(ch),
;

/// The pieces of `s` between occurrences of `sep`, in order. There is always
/// at least one piece; a separator at either end gives an empty piece there.
pub open spec fn split_on(s: Seq<char>, sep: char) -> Seq<Seq<char>>
    decreases s.len(),
{
    if s.len() == 0 {
        seq![Seq::empty()]
    } else {
        let before = split_on(s.drop_last(), sep);
        if s.last() == sep {
            before.push(Seq::empty())
        } else {
            before.drop_last().push(before.last().push(s.last()))
        }
    }
}

/// Splitting always gives at least one piece.
pub proof fn lemma_split_on_is_not_empty(s: Seq<char>, sep: char)
    ensures
        split_on(s, sep).len() >= 1,
    decreases s.len(),
{
    if s.len() > 0 {
        lemma_split_on_is_not_empty(s.drop_last(), sep);
    }
}

/// A text without the separator is its own single piece.
pub proof fn lemma_split_on_without_separator(s: Seq<char>, sep: char)
    requires
        !s.contains(sep),
    ensures
        split_on(s, sep) == seq![s],
    decreases s.len(),
{
    if s.len() > 0 {
        let shorter = s.drop_last();
        assert forall|i: int| 0 <= i < shorter.len() implies shorter[i] != sep by {
            assert(s.contains(s[i]));
        }
        lemma_split_on_without_separator(shorter, sep);
        assert(s.contains(s.last()));
        assert(shorter.push(s.last()) == s);
        assert(seq![shorter].drop_last().push(shorter.push(s.last())) == seq![s]);
    } else {
        assert(s == Seq::<char>::empty());
    }
}

/// The first piece of a text runs up to its first separator, and the other
/// pieces are those of the rest of the text.
pub proof fn lemma_split_on_first_separator(head: Seq<char>, tail: Seq<char>, sep: char)
    requires
        !head.contains(sep),
    ensures
        split_on(head + seq![sep] + tail, sep) == seq![head] + split_on(tail, sep),
    decreases tail.len(),
{
    let s = head + seq![sep] + tail;
    if tail.len() == 0 {
        assert(s.drop_last() == head);
        lemma_split_on_without_separator(head, sep);
        assert(split_on(tail, sep) == seq![Seq::<char>::empty()]);
        assert(seq![head].push(Seq::<char>::empty()) == seq![head] + seq![Seq::<char>::empty()]);
    } else {
        let shorter = tail.drop_last();
        assert(s.drop_last() == head + seq![sep] + shorter);
        assert(s.last() == tail.last());
        lemma_split_on_first_separator(head, shorter, sep);
        lemma_split_on_is_not_empty(shorter, sep);
        let rest = split_on(shorter, sep);
        let joined = seq![head] + rest;
        if tail.last() == sep {
            assert(joined.push(Seq::<char>::empty()) == seq![head] + rest.push(
                Seq::<char>::empty(),
            ));
        } else {
            assert(joined.last() == rest.last());
            assert(joined.drop_last() == seq![head] + rest.drop_last());
            assert(joined.drop_last().push(rest.last().push(tail.last())) == seq![head]
                + rest.drop_last().push(rest.last().push(tail.last())));
        }
    }
}

/// The views of a sequence of character vectors.
pub open spec fn views(pieces: Seq<Vec<char>>) -> Seq<Seq<char>> {
    pieces.map_values(|piece: Vec<char>| piece@)
}

/// Whether `c` is one of the decimal digits `0` to `9`.
pub open spec fn is_digit(c: char) -> bool {
    '0' <= c <= '9'
}

/// The number that the digit `c` stands for.
pub open spec fn digit_value(c: char) -> int {
    c as int - '0' as int
}

/// Whether every character of `s` is a decimal digit.
pub open spec fn all_digits(s: Seq<char>) -> bool {
    forall|i: int| 0 <= i < s.len() ==> is_digit(#[trigger] s[i])
}

/// Whether `s` is a non-empty run of decimal digits.
pub open spec fn is_decimal(s: Seq<char>) -> bool {
    s.len() > 0 && all_digits(s)
}

/// How many digits of a run have been read after `steps` steps, when the run
/// is aligned to the right with `pad` places in front of it.
pub open spec fn read_of(steps: int, pad: int) -> int {
    if steps >= pad {
        steps - pad
    } else {
        0
    }
}

/// The number written by the digits of `s`, most significant digit first.
pub open spec fn decimal_value(s: Seq<char>) -> int
    decreases s.len(),
{
    if s.len() == 0 {
        0
    } else {
        10 * decimal_value(s.drop_last()) + digit_value(s.last())
    }
}

/// Whether `field` is a non-empty run of decimal digits.
pub fn is_decimal_run(field: &Vec<char>) -> (decimal: bool)
    ensures
        decimal == is_decimal(field@),
{
    if field.len() == 0 {
        return false;
    }
    for i in 0..field.len()
        invariant
            forall|j: int| 0 <= j < i ==> is_digit(#[trigger] field@[j]),
    {
        let c = field[i];
        if c < '0' || c > '9' {
            return false;
        }
    }
    true
}

/// Whether the digits of `a` write a smaller number than the digits of `b`.
/// The runs may be of any length: the numbers are compared digit by digit,
/// the shorter run counting as if it had zeros in front.
pub fn decimal_less(a: &Vec<char>, b: &Vec<char>) -> (less: bool)
    requires
        all_digits(a@),
        all_digits(b@),
    ensures
        less == (decimal_value(a@) < decimal_value(b@)),
{
    let longest = if a.len() < b.len() {
        b.len()
    } else {
        a.len()
    };
    let pad_a = longest - a.len();
    let pad_b = longest - b.len();
    let mut less = false;
    let mut same = true;
    for i in 0..longest
        invariant
            all_digits(a@),
            all_digits(b@),
            pad_a + a.len() == longest,
            pad_b + b.len() == longest,
            less == (decimal_value(a@.take(read_of(i as int, pad_a as int))) < decimal_value(
                b@.take(read_of(i as int, pad_b as int)),
            )),
            same == (decimal_value(a@.take(read_of(i as int, pad_a as int))) == decimal_value(
                b@.take(read_of(i as int, pad_b as int)),
            )),
    {
        let digit_a = if i < pad_a {
            '0'
        } else {
            a[i - pad_a]
        };
        let digit_b = if i < pad_b {
            '0'
        } else {
            b[i - pad_b]
        };
        proof {
            let read_a = read_of(i as int, pad_a as int);
            let read_b = read_of(i as int, pad_b as int);
            if i >= pad_a {
                assert(a@.take(read_a + 1).drop_last() == a@.take(read_a));
            }
            if i >= pad_b {
                assert(b@.take(read_b + 1).drop_last() == b@.take(read_b));
            }
            assert(decimal_value(a@.take(read_of(i + 1, pad_a as int))) == 10 * decimal_value(
                a@.take(read_a),
            ) + digit_value(digit_a));
            assert(decimal_value(b@.take(read_of(i + 1, pad_b as int))) == 10 * decimal_value(
                b@.take(read_b),
            ) + digit_value(digit_b));
        }
        if same {
            if digit_a < digit_b {
                less = true;
                same = false;
            } else if digit_a > digit_b {
                same = false;
            }
        }
    }
    proof {
        assert(a@.take(a.len() as int) == a@);
        assert(b@.take(b.len() as int) == b@);
    }
    less
}

/// The characters of a string slice, in order.
pub fn chars_of(s: &str) -> (chars: Vec<char>)
    ensures
        chars@ == s@,
{
    let mut chars: Vec<char> = Vec::new();
    for c in it: s.chars()
        invariant
            it.seq() == s@,
            chars@ == it.seq().take(it.index() as int),
    {
        chars.push(c);
    }
    chars
}

/// A string that holds the given characters.
pub fn string_of(chars: &Vec<char>) -> (s: String)
    ensures
        s@ == chars@,
{
    let mut s = String::new();
    for i in 0..chars.len()
        invariant
            s@ == chars@.take(i as int),
    {
        s.push(chars[i]);
    }
    s
}

/// Whether two character vectors hold the same characters.
pub fn same_chars(a: &Vec<char>, b: &Vec<char>) -> (same: bool)
    ensures
        same == (a@ == b@),
{
    if a.len() != b.len() {
        return false;
    }
    for i in 0..a.len()
        invariant
            a.len() == b.len(),
            a@.take(i as int) == b@.take(i as int),
    {
        if a[i] != b[i] {
            return false;
        }
        proof {
            assert(a@.take(i + 1) == a@.take(i as int).push(a@[i as int]));
            assert(b@.take(i + 1) == b@.take(i as int).push(b@[i as int]));
        }
    }
    proof {
        assert(a@ == a@.take(a.len() as int));
        assert(b@ == b@.take(b.len() as int));
    }
    true
}

/// Splits `chars` at each occurrence of `sep`.
pub fn split(chars: &Vec<char>, sep: char) -> (pieces: Vec<Vec<char>>)
    ensures
        views(pieces@) == split_on(chars@, sep),
{
    let mut pieces: Vec<Vec<char>> = Vec::new();
    let mut current: Vec<char> = Vec::new();
    for i in 0..chars.len()
        invariant
            views(pieces@).push(current@) == split_on(chars@.take(i as int), sep),
    {
        let c = chars[i];
        proof {
            assert(chars@.take(i + 1).drop_last() == chars@.take(i as int));
        }
        if c == sep {
            pieces.push(current);
            current = Vec::new();
        } else {
            current.push(c);
        }
    }
    proof {
        assert(chars@.take(chars.len() as int) == chars@);
        assert(views(pieces@.push(current)) == views(pieces@).push(current@));
    }
    pieces.push(current);
    pieces
}

} // verus!
