//! Plain text as bytes: lines, words and decimal numbers.

use vstd::prelude::*;

verus! {

/// The line feed, which ends a line.
pub const LINE_FEED: u8 = 10;

/// Whether a byte is blank: a space, a tab, a line feed, a form feed or a
/// carriage return.
pub open spec fn is_space(b: u8) -> bool {
    b == 32 || b == 9 || b == 10 || b == 12 || b == 13
}

/// Length of the longest prefix of `s` whose bytes all satisfy `p`.
pub open spec fn run(s: Seq<u8>, p: spec_fn(u8) -> bool) -> nat
    decreases s.len(),
{
    if s.len() > 0 && p(s[0]) {
        1 + run(s.skip(1), p)
    } else {
        0
    }
}

/// A run is the number of leading bytes that satisfy the predicate up to the
/// first byte that does not, or up to the end.
pub proof fn lemma_run(s: Seq<u8>, p: spec_fn(u8) -> bool, n: nat)
    requires
        n <= s.len(),
        forall|i: int| 0 <= i < n ==> p(#[trigger] s[i]),
        n == s.len() || !p(s[n as int]),
    ensures
        run(s, p) == n,
    decreases n,
{
    if n > 0 {
        let t = s.skip(1);
        assert forall|i: int| 0 <= i < n - 1 implies p(#[trigger] t[i]) by {
            assert(t[i] == s[i + 1]);
        }
        lemma_run(t, p, (n - 1) as nat);
    }
}

/// A run never passes the end, every byte inside it satisfies the predicate,
/// and the byte that follows it, if any, does not.
pub proof fn lemma_run_bounds(s: Seq<u8>, p: spec_fn(u8) -> bool)
    ensures
        run(s, p) <= s.len(),
        forall|i: int| 0 <= i < run(s, p) ==> p(#[trigger] s[i]),
        run(s, p) < s.len() ==> !p(s[run(s, p) as int]),
    decreases s.len(),
{
    if s.len() > 0 && p(s[0]) {
        let t = s.skip(1);
        lemma_run_bounds(t, p);
        assert forall|i: int| 0 <= i < run(s, p) implies p(#[trigger] s[i]) by {
            if i > 0 {
                assert(s[i] == t[i - 1]);
            }
        }
        if run(s, p) < s.len() {
            assert(s[run(s, p) as int] == t[run(t, p) as int]);
        }
    }
}

/// Length of the blank prefix of `s`.
pub open spec fn space_run(s: Seq<u8>) -> nat {
    run(s, |b: u8| is_space(b))
}

/// Length of the first word of `s`, if `s` starts with one.
pub open spec fn word_run(s: Seq<u8>) -> nat {
    run(s, |b: u8| !is_space(b))
}

/// Length of the first line of `s`, without the line feed that ends it.
pub open spec fn line_run(s: Seq<u8>) -> nat {
    run(s, |b: u8| b != LINE_FEED)
}

/// The words of `s`: the longest stretches without a blank byte, in order.
pub open spec fn tokens(s: Seq<u8>) -> Seq<Seq<u8>>
    decreases s.len(),
    via tokens_decreases
{
    let rest = s.skip(space_run(s) as int);
    let n = word_run(rest);
    if n == 0 {
        seq![]
    } else {
        seq![rest.take(n as int)] + tokens(rest.skip(n as int))
    }
}

#[via_fn]
proof fn tokens_decreases(s: Seq<u8>) {
    lemma_run_bounds(s, |b: u8| is_space(b));
    let rest = s.skip(space_run(s) as int);
    lemma_run_bounds(rest, |b: u8| !is_space(b));
}

/// The lines of `s`: the stretches between line feeds, in order. A line feed
/// at the very end opens no further line, and empty text has no line.
pub open spec fn lines(s: Seq<u8>) -> Seq<Seq<u8>>
    decreases s.len(),
    via lines_decreases
{
    if s.len() == 0 {
        seq![]
    } else {
        let n = line_run(s);
        if n >= s.len() {
            seq![s]
        } else {
            seq![s.take(n as int)] + lines(s.skip(n as int + 1))
        }
    }
}

#[via_fn]
proof fn lines_decreases(s: Seq<u8>) {
    lemma_run_bounds(s, |b: u8| b != LINE_FEED);
}

/// Every word holds at least one byte, and none of its bytes is blank.
pub proof fn lemma_tokens_are_words(s: Seq<u8>)
    ensures
        forall|i: int|
            0 <= i < tokens(s).len() ==> (#[trigger] tokens(s)[i]).len() > 0 && forall|j: int|
                0 <= j < tokens(s)[i].len() ==> !is_space(#[trigger] tokens(s)[i][j]),
    decreases s.len(),
{
    lemma_run_bounds(s, |b: u8| is_space(b));
    let rest = s.skip(space_run(s) as int);
    lemma_run_bounds(rest, |b: u8| !is_space(b));
    let n = word_run(rest);
    if n > 0 {
        let tail = rest.skip(n as int);
        lemma_tokens_are_words(tail);
        let first = rest.take(n as int);
        assert forall|i: int| 0 <= i < tokens(s).len() implies (#[trigger] tokens(s)[i]).len() > 0
            && forall|j: int|
            0 <= j < tokens(s)[i].len() ==> !is_space(#[trigger] tokens(s)[i][j]) by {
            if i == 0 {
                assert(tokens(s)[0] == first);
                assert forall|j: int| 0 <= j < first.len() implies !is_space(
                    #[trigger] first[j],
                ) by {
                    assert(first[j] == rest[j]);
                }
            } else {
                assert(tokens(s)[i] == tokens(tail)[i - 1]);
            }
        }
    }
}

/// No line holds a line feed.
pub proof fn lemma_lines_hold_no_feed(s: Seq<u8>)
    ensures
        forall|i: int, j: int|
            0 <= i < lines(s).len() && 0 <= j < lines(s)[i].len() ==> #[trigger] lines(
                s,
            )[i][j] != LINE_FEED,
    decreases s.len(),
{
    if s.len() > 0 {
        lemma_run_bounds(s, |b: u8| b != LINE_FEED);
        let n = line_run(s);
        if n >= s.len() {
            assert(lines(s) =~= seq![s]);
        } else {
            let tail = s.skip(n as int + 1);
            lemma_lines_hold_no_feed(tail);
            let first = s.take(n as int);
            assert forall|i: int, j: int|
                0 <= i < lines(s).len() && 0 <= j < lines(s)[i].len() implies #[trigger] lines(
                s,
            )[i][j] != LINE_FEED by {
                if i == 0 {
                    assert(lines(s)[0] == first);
                    assert(first[j] == s[j]);
                } else {
                    assert(lines(s)[i] == lines(tail)[i - 1]);
                }
            }
        }
    }
}

/// Tells whether a byte is blank.
pub fn is_ascii_whitespace(b: u8) -> (r: bool)
    ensures
        r == is_space(b),
{
    b == 32 || b == 9 || b == 10 || b == 12 || b == 13
}

/// Splits text into its words.
pub fn split_ascii_whitespace<'a>(text: &'a [u8]) -> (words: Vec<&'a [u8]>)
    ensures
        words@.len() == tokens(text@).len(),
        forall|i: int| 0 <= i < words@.len() ==> (#[trigger] words@[i])@ == tokens(text@)[i],
{
    let mut words: Vec<&'a [u8]> = Vec::new();
    let mut i: usize = 0;
    let ghost mut found: Seq<Seq<u8>> = seq![];
    proof {
        assert(text@.skip(0) =~= text@);
        assert(found + tokens(text@) =~= tokens(text@));
    }
    loop
        invariant
            i <= text.len(),
            found.len() == words@.len(),
            forall|k: int| 0 <= k < words@.len() ==> (#[trigger] words@[k])@ == found[k],
            tokens(text@) == found + tokens(text@.skip(i as int)),
        ensures
            words@.len() == tokens(text@).len(),
            forall|k: int| 0 <= k < words@.len() ==> (#[trigger] words@[k])@ == tokens(text@)[k],
        decreases text.len() - i,
    {
        let ghost from = i;
        while i < text.len() && is_ascii_whitespace(text[i])
            invariant
                from <= i <= text.len(),
                forall|k: int| from <= k < i ==> is_space(#[trigger] text@[k]),
            decreases text.len() - i,
        {
            i += 1;
        }
        let start: usize = i;
        proof {
            let tail = text@.skip(from as int);
            assert forall|k: int| 0 <= k < start - from implies (|b: u8| is_space(b))(
                #[trigger] tail[k],
            ) by {
                assert(tail[k] == text@[from + k]);
            }
            lemma_run(tail, |b: u8| is_space(b), (start - from) as nat);
            assert(tail.skip((start - from) as int) =~= text@.skip(start as int));
        }
        while i < text.len() && !is_ascii_whitespace(text[i])
            invariant
                start <= i <= text.len(),
                forall|k: int| start <= k < i ==> !is_space(#[trigger] text@[k]),
            decreases text.len() - i,
        {
            i += 1;
        }
        proof {
            let rest = text@.skip(start as int);
            assert forall|k: int| 0 <= k < i - start implies (|b: u8| !is_space(b))(
                #[trigger] rest[k],
            ) by {
                assert(rest[k] == text@[start + k]);
            }
            lemma_run(rest, |b: u8| !is_space(b), (i - start) as nat);
            assert(rest.skip((i - start) as int) =~= text@.skip(i as int));
            assert(rest.take((i - start) as int) =~= text@.subrange(start as int, i as int));
        }
        if i == start {
            proof {
                assert(tokens(text@.skip(from as int)) =~= seq![]);
                assert(found + Seq::<Seq<u8>>::empty() =~= found);
            }
            break ;
        }
        let word: &'a [u8] = &text[start..i];
        words.push(word);
        proof {
            let word_view = text@.subrange(start as int, i as int);
            assert(tokens(text@.skip(from as int)) == seq![word_view] + tokens(
                text@.skip(i as int),
            ));
            assert(found + (seq![word_view] + tokens(text@.skip(i as int))) =~= found.push(
                word_view,
            ) + tokens(text@.skip(i as int)));
            found = found.push(word_view);
        }
    }
    words
}

/// Splits text into its lines.
pub fn split_lines<'a>(text: &'a [u8]) -> (rows: Vec<&'a [u8]>)
    ensures
        rows@.len() == lines(text@).len(),
        forall|i: int| 0 <= i < rows@.len() ==> (#[trigger] rows@[i])@ == lines(text@)[i],
{
    let mut rows: Vec<&'a [u8]> = Vec::new();
    let mut i: usize = 0;
    let ghost mut found: Seq<Seq<u8>> = seq![];
    proof {
        assert(text@.skip(0) =~= text@);
        assert(found + lines(text@) =~= lines(text@));
    }
    while i < text.len()
        invariant
            i <= text.len(),
            found.len() == rows@.len(),
            forall|k: int| 0 <= k < rows@.len() ==> (#[trigger] rows@[k])@ == found[k],
            lines(text@) == found + lines(text@.skip(i as int)),
        decreases text.len() - i,
    {
        let start: usize = i;
        while i < text.len() && text[i] != LINE_FEED
            invariant
                start <= i <= text.len(),
                forall|k: int| start <= k < i ==> #[trigger] text@[k] != LINE_FEED,
            decreases text.len() - i,
        {
            i += 1;
        }
        let row: &'a [u8] = &text[start..i];
        rows.push(row);
        proof {
            let rest = text@.skip(start as int);
            assert forall|k: int| 0 <= k < i - start implies (|b: u8| b != LINE_FEED)(
                #[trigger] rest[k],
            ) by {
                assert(rest[k] == text@[start + k]);
            }
            lemma_run(rest, |b: u8| b != LINE_FEED, (i - start) as nat);
            assert(rest.take((i - start) as int) =~= text@.subrange(start as int, i as int));
            if i < text.len() {
                assert(rest.skip(i - start + 1) =~= text@.skip(i + 1));
            } else {
                assert(rest =~= text@.subrange(start as int, i as int));
                assert(lines(text@.skip(i as int)) =~= seq![]);
            }
            let next = if i < text.len() {
                i + 1
            } else {
                i as int
            };
            assert(lines(rest) =~= seq![row@] + lines(text@.skip(next)));
            assert(found + (seq![row@] + lines(text@.skip(next))) =~= found.push(row@) + lines(
                text@.skip(next),
            ));
            found = found.push(row@);
        }
        if i < text.len() {
            i += 1;
        }
    }
    proof {
        assert(lines(text@.skip(i as int)) =~= seq![]);
        assert(found + Seq::<Seq<u8>>::empty() =~= found);
    }
    rows
}

/// Whether a byte is a decimal digit.
pub open spec fn is_digit(b: u8) -> bool {
    48 <= b <= 57
}

/// The number that a string of digits writes.
pub open spec fn digits_value(s: Seq<u8>) -> nat
    decreases s.len(),
{
    if s.len() == 0 {
        0
    } else {
        digits_value(s.drop_last()) * 10 + (s.last() - 48) as nat
    }
}

/// The digit at place `i` of a fraction, where missing places count as zero.
pub open spec fn fraction_digit(f: Seq<u8>, i: int) -> nat {
    if 0 <= i < f.len() {
        (f[i] - 48) as nat
    } else {
        0
    }
}

/// The thousandths that the digits after a decimal point stand for. Digits
/// beyond the third are dropped.
pub open spec fn fraction_value(f: Seq<u8>) -> nat {
    fraction_digit(f, 0) * 100 + fraction_digit(f, 1) * 10 + fraction_digit(f, 2)
}

/// Whether a word starts with a sign.
pub open spec fn has_sign(t: Seq<u8>) -> bool {
    t.len() > 0 && (t[0] == 43 || t[0] == 45)
}

/// A word without its sign.
pub open spec fn unsigned(t: Seq<u8>) -> Seq<u8> {
    if has_sign(t) {
        t.skip(1)
    } else {
        t
    }
}

/// The digits of a word before the decimal point.
pub open spec fn whole_digits(t: Seq<u8>) -> Seq<u8> {
    unsigned(t).take(run(unsigned(t), |b: u8| is_digit(b)) as int)
}

/// What follows the whole digits of a word: nothing, or a decimal point and
/// what comes after it.
pub open spec fn after_whole(t: Seq<u8>) -> Seq<u8> {
    unsigned(t).skip(run(unsigned(t), |b: u8| is_digit(b)) as int)
}

/// Whether a word writes a decimal number: an optional sign `+` or `-`, then
/// digits, which may hold one decimal point anywhere among, before or behind
/// them. At least one digit is needed.
pub open spec fn is_decimal(t: Seq<u8>) -> bool {
    let whole = whole_digits(t);
    let rest = after_whole(t);
    if rest.len() == 0 {
        whole.len() > 0
    } else {
        &&& rest[0] == 46
        &&& forall|i: int| 1 <= i < rest.len() ==> is_digit(#[trigger] rest[i])
        &&& whole.len() + rest.len() > 1
    }
}

/// The digits of a word behind its decimal point.
pub open spec fn fraction_digits(t: Seq<u8>) -> Seq<u8> {
    if after_whole(t).len() > 0 {
        after_whole(t).skip(1)
    } else {
        seq![]
    }
}

/// The number that a decimal word writes, in thousandths, rounded toward
/// zero.
pub open spec fn decimal_value(t: Seq<u8>) -> int {
    let size = digits_value(whole_digits(t)) * 1000 + fraction_value(fraction_digits(t));
    if t.len() > 0 && t[0] == 45 {
        -size
    } else {
        size as int
    }
}

/// What reading a word as a decimal number gives: its value fitted to the
/// range of the numbers, or nothing where the word writes no number.
pub open spec fn parsed_decimal(t: Seq<u8>) -> Option<i64> {
    if is_decimal(t) {
        Some(crate::fixed::saturate(decimal_value(t)) as i64)
    } else {
        None
    }
}

fn digit_or_zero(word: &[u8], at: usize) -> (d: i128)
    requires
        forall|k: int| at <= k < word@.len() ==> is_digit(#[trigger] word@[k]),
    ensures
        d == (if at < word@.len() {
            (word@[at as int] - 48) as nat
        } else {
            0
        }),
        0 <= d <= 9,
{
    if at < word.len() {
        (word[at] - 48) as i128
    } else {
        0
    }
}

/// Reads a word as a decimal number in thousandths.
pub fn parse_decimal(word: &[u8]) -> (r: Option<i64>)
    ensures
        r == parsed_decimal(word@),
{
    let n: usize = word.len();
    let mut i: usize = 0;
    let mut negative = false;
    if n > 0 && (word[0] == 43 || word[0] == 45) {
        negative = word[0] == 45;
        i = 1;
    }
    let begin: usize = i;
    let ghost body = unsigned(word@);
    assert(body =~= word@.skip(begin as int));
    let mut whole: i128 = 0;
    assert(word@.subrange(begin as int, begin as int) =~= Seq::<u8>::empty());
    while i < n && 48 <= word[i] && word[i] <= 57
        invariant
            begin <= i <= n,
            n == word@.len(),
            forall|k: int| begin <= k < i ==> is_digit(#[trigger] word@[k]),
            0 <= whole <= 10000000000000000,
            whole == (if digits_value(word@.subrange(begin as int, i as int)) <= 10000000000000000 {
                digits_value(word@.subrange(begin as int, i as int)) as int
            } else {
                10000000000000000
            }),
        decreases n - i,
    {
        proof {
            assert(word@.subrange(begin as int, i + 1).drop_last() =~= word@.subrange(
                begin as int,
                i as int,
            ));
        }
        whole = whole * 10 + (word[i] - 48) as i128;
        if whole > 10000000000000000 {
            whole = 10000000000000000;
        }
        i += 1;
    }
    let ghost digits = (i - begin) as nat;
    proof {
        assert forall|k: int| 0 <= k < digits implies (|b: u8| is_digit(b))(#[trigger] body[k]) by {
            assert(body[k] == word@[begin + k]);
        }
        lemma_run(body, |b: u8| is_digit(b), digits);
        assert(whole_digits(word@) =~= word@.subrange(begin as int, i as int));
        assert(after_whole(word@) =~= word@.skip(i as int));
    }
    let mut fraction: i128 = 0;
    if i < n {
        if word[i] != 46 {
            return None;
        }
        if n - begin <= 1 {
            return None;
        }
        let mut j: usize = i + 1;
        while j < n
            invariant
                i < j <= n,
                n == word@.len(),
                after_whole(word@) == word@.skip(i as int),
                after_whole(word@).len() > 0 && after_whole(word@)[0] == 46,
                forall|k: int| i < k < j ==> is_digit(#[trigger] word@[k]),
            decreases n - j,
        {
            if !(48 <= word[j] && word[j] <= 57) {
                proof {
                    assert(after_whole(word@)[j - i] == word@[j as int]);
                }
                return None;
            }
            j += 1;
        }
        proof {
            assert forall|k: int| 1 <= k < after_whole(word@).len() implies is_digit(
                #[trigger] after_whole(word@)[k],
            ) by {
                assert(after_whole(word@)[k] == word@[i + k]);
            }
            assert(fraction_digits(word@) =~= word@.skip(i + 1));
        }
        let first: i128 = digit_or_zero(word, i + 1);
        let second: i128 = if n - i > 2 {
            digit_or_zero(word, i + 2)
        } else {
            0
        };
        let third: i128 = if n - i > 3 {
            digit_or_zero(word, i + 3)
        } else {
            0
        };
        fraction = first * 100 + second * 10 + third;
    } else {
        if i == begin {
            return None;
        }
        proof {
            assert(fraction_digits(word@) =~= Seq::<u8>::empty());
        }
    }
    assert(fraction == fraction_value(fraction_digits(word@)));
    let size: i128 = whole * 1000 + fraction;
    if negative {
        Some(crate::fixed::clamp(-size))
    } else {
        Some(crate::fixed::clamp(size))
    }
}

/// The character that writes a digit.
pub open spec fn digit_char(d: nat) -> char {
    if d == 0 {
        '0'
    } else if d == 1 {
        '1'
    } else if d == 2 {
        '2'
    } else if d == 3 {
        '3'
    } else if d == 4 {
        '4'
    } else if d == 5 {
        '5'
    } else if d == 6 {
        '6'
    } else if d == 7 {
        '7'
    } else if d == 8 {
        '8'
    } else {
        '9'
    }
}

/// A number written in decimal digits, without leading zeros.
pub open spec fn decimal_text(n: nat) -> Seq<char>
    decreases n,
{
    if n < 10 {
        seq![digit_char(n)]
    } else {
        decimal_text(n / 10).push(digit_char(n % 10))
    }
}

fn digit_text(d: usize) -> (text: &'static str)
    requires
        d < 10,
    ensures
        text@ == seq![digit_char(d as nat)],
{
    proof {
        reveal_strlit("0");
        reveal_strlit("1");
        reveal_strlit("2");
        reveal_strlit("3");
        reveal_strlit("4");
        reveal_strlit("5");
        reveal_strlit("6");
        reveal_strlit("7");
        reveal_strlit("8");
        reveal_strlit("9");
    }
    let text = if d == 0 {
        "0"
    } else if d == 1 {
        "1"
    } else if d == 2 {
        "2"
    } else if d == 3 {
        "3"
    } else if d == 4 {
        "4"
    } else if d == 5 {
        "5"
    } else if d == 6 {
        "6"
    } else if d == 7 {
        "7"
    } else if d == 8 {
        "8"
    } else {
        "9"
    };
    assert(text@ =~= seq![digit_char(d as nat)]);
    text
}

/// Appends a number in decimal digits to a string.
pub fn push_decimal(out: &mut String, n: u64)
    ensures
        final(out)@ == old(out)@ + decimal_text(n as nat),
    decreases n,
{
    if n >= 10 {
        push_decimal(out, n / 10);
    }
    out.append(digit_text((n % 10) as usize));
    assert(out@ =~= old(out)@ + decimal_text(n as nat));
}

} // verus!
