//! What a process uses, read from what the system reports of it.
use vstd::prelude::*;

use crate::text::{decimal, lemma_decimal, to_chars, written};

verus! {

/// Whether `c` is white space, by the property of that name in Unicode.
pub open spec fn white_space(c: char) -> bool {
    ||| '\u{9}' <= c <= '\u{d}'
    ||| c == ' ' || c == '\u{85}' || c == '\u{a0}' || c == '\u{1680}'
    ||| '\u{2000}' <= c <= '\u{200a}'
    ||| c == '\u{2028}' || c == '\u{2029}' || c == '\u{202f}' || c == '\u{205f}' || c == '\u{3000}'
}

/// Whether `c` is white space.
fn is_white_space(c: char) -> (r: bool)
    ensures
        r == white_space(c),
{
    ('\u{9}' <= c && c <= '\u{d}') || c == ' ' || c == '\u{85}' || c == '\u{a0}' || c == '\u{1680}'
        || ('\u{2000}' <= c && c <= '\u{200a}') || c == '\u{2028}' || c == '\u{2029}' || c
        == '\u{202f}' || c == '\u{205f}' || c == '\u{3000}'
}

/// How many characters of `s` come before the first one that `stops`.
pub open spec fn until(s: Seq<char>, stops: spec_fn(char) -> bool) -> nat
    decreases s.len(),
{
    if s.len() == 0 || stops(s[0]) {
        0
    } else {
        1 + until(s.drop_first(), stops)
    }
}

proof fn lemma_until(s: Seq<char>, stops: spec_fn(char) -> bool, n: nat)
    requires
        n <= s.len(),
        forall|j: int| 0 <= j < n ==> !stops(#[trigger] s[j]),
        n == s.len() || stops(s[n as int]),
    ensures
        until(s, stops) == n,
    decreases n,
{
    if n > 0 {
        assert(!stops(s[0]));
        let rest = s.drop_first();
        assert forall|j: int| 0 <= j < n - 1 implies !stops(#[trigger] rest[j]) by {
            assert(rest[j] == s[j + 1]);
        }
        if n < s.len() {
            assert(rest[n - 1] == s[n as int]);
        }
        lemma_until(rest, stops, (n - 1) as nat);
    }
}

/// What comes before the first stop is part of the text.
pub proof fn lemma_until_bound(s: Seq<char>, stops: spec_fn(char) -> bool)
    ensures
        until(s, stops) <= s.len(),
    decreases s.len(),
{
    if s.len() > 0 && !stops(s[0]) {
        lemma_until_bound(s.drop_first(), stops);
    }
}

/// How long the first line of `s` is.
pub open spec fn line_len(s: Seq<char>) -> nat {
    until(s, |c: char| c == '\n')
}

/// What follows the label `VmRSS:` on the first line of `s` that begins with it.
pub open spec fn resident_entry(s: Seq<char>) -> Option<Seq<char>>
    decreases s.len(),
{
    let label = "VmRSS:"@;
    let n = line_len(s);
    if label.is_prefix_of(s.take(n as int)) {
        Some(s.take(n as int).skip(label.len() as int))
    } else if n == s.len() {
        None
    } else {
        proof {
            lemma_until_bound(s, |c: char| c == '\n');
        }
        resident_entry(s.skip(n as int + 1))
    }
}

/// The first word of `s`, where words are parted by white space.
pub open spec fn first_word(s: Seq<char>) -> Option<Seq<char>> {
    let text = s.skip(until(s, |c: char| !white_space(c)) as int);
    if text.len() == 0 {
        None
    } else {
        Some(text.take(until(text, |c: char| white_space(c)) as int))
    }
}

/// Whether `s` is made of decimal digits.
pub open spec fn all_digits(s: Seq<char>) -> bool {
    forall|i: int| 0 <= i < s.len() ==> '0' <= #[trigger] s[i] <= '9'
}

/// The number that the decimal digits write.
pub open spec fn digits_value(s: Seq<char>) -> nat
    decreases s.len(),
{
    if s.len() == 0 {
        0
    } else {
        digits_value(s.drop_last()) * 10 + (s.last() as nat - '0' as nat) as nat
    }
}

/// The number that `s` writes: digits, with at most one plus sign before them, of a number that
/// fits.
pub open spec fn parsed_number(s: Seq<char>) -> Option<u64> {
    let digits = if s.len() > 0 && s[0] == '+' {
        s.drop_first()
    } else {
        s
    };
    if digits.len() > 0 && all_digits(digits) && digits_value(digits) <= u64::MAX {
        Some(digits_value(digits) as u64)
    } else {
        None
    }
}

/// The resident memory in whole megabytes that a status report tells in kilobytes, cut to thirty
/// two bits.
pub open spec fn resident_mb(report: Seq<char>) -> Option<u32> {
    match resident_entry(report) {
        None => None,
        Some(entry) => match first_word(entry) {
            None => None,
            Some(word) => match parsed_number(word) {
                None => None,
                Some(kb) => Some(((kb / 1024) % 0x1_0000_0000) as u32),
            },
        },
    }
}

/// Where the line ends that goes on at `start`.
fn line_end(chars: &Vec<char>, start: usize) -> (r: usize)
    requires
        start <= chars@.len(),
    ensures
        start <= r <= chars@.len(),
        r - start == line_len(chars@.skip(start as int)),
{
    let n: usize = chars.len();
    let mut end: usize = start;
    while end < n && chars[end] != '\n'
        invariant
            n == chars@.len(),
            start <= end <= n,
            forall|j: int| start <= j < end ==> #[trigger] chars@[j] != '\n',
        decreases n - end,
    {
        end = end + 1;
    }
    proof {
        lemma_until(chars@.skip(start as int), |c: char| c == '\n', (end - start) as nat);
    }
    end
}

/// The first word from `start` on before `end`.
fn find_word(chars: &Vec<char>, start: usize, end: usize) -> (r: Option<(usize, usize)>)
    requires
        start <= end <= chars@.len(),
    ensures
        match r {
            Some((from, to)) => start <= from <= to <= end && first_word(
                chars@.subrange(start as int, end as int),
            ) == Some(chars@.subrange(from as int, to as int)),
            None => first_word(chars@.subrange(start as int, end as int)) is None,
        },
{
    let ghost s = chars@.subrange(start as int, end as int);
    let mut from: usize = start;
    while from < end && is_white_space(chars[from])
        invariant
            start <= from <= end <= chars@.len(),
            forall|j: int| start <= j < from ==> white_space(#[trigger] chars@[j]),
        decreases end - from,
    {
        from = from + 1;
    }
    proof {
        lemma_until(s, |c: char| !white_space(c), (from - start) as nat);
    }
    if from == end {
        return None;
    }
    let ghost text = s.skip(from - start);
    let mut to: usize = from;
    while to < end && !is_white_space(chars[to])
        invariant
            start <= from <= to <= end <= chars@.len(),
            forall|j: int| from <= j < to ==> !white_space(#[trigger] chars@[j]),
        decreases end - to,
    {
        to = to + 1;
    }
    proof {
        lemma_until(text, |c: char| white_space(c), (to - from) as nat);
        assert(text.take(to - from) =~= chars@.subrange(from as int, to as int));
    }
    Some((from, to))
}

proof fn lemma_digits_grow(s: Seq<char>, n: int)
    requires
        0 <= n <= s.len(),
    ensures
        digits_value(s.take(n)) <= digits_value(s),
    decreases s.len() - n,
{
    if n < s.len() {
        lemma_digits_grow(s, n + 1);
        assert(s.take(n + 1).drop_last() =~= s.take(n));
    } else {
        assert(s.take(n) =~= s);
    }
}

/// The number that the characters from `start` on before `end` write.
fn parse_number(chars: &Vec<char>, start: usize, end: usize) -> (r: Option<u64>)
    requires
        start <= end <= chars@.len(),
    ensures
        r == parsed_number(chars@.subrange(start as int, end as int)),
{
    let ghost s = chars@.subrange(start as int, end as int);
    let from: usize = if start < end && chars[start] == '+' {
        start + 1
    } else {
        start
    };
    let ghost digits = chars@.subrange(from as int, end as int);
    proof {
        assert(from > start ==> s.drop_first() =~= digits);
    }
    if from == end {
        return None;
    }
    let mut value: u64 = 0;
    let mut i: usize = from;
    while i < end
        invariant
            from <= i <= end <= chars@.len(),
            s == chars@.subrange(start as int, end as int),
            digits == chars@.subrange(from as int, end as int),
            all_digits(digits.take(i - from)),
            value == digits_value(digits.take(i - from)),
            digits.len() > 0,
            parsed_number(s) == (if all_digits(digits) && digits_value(digits) <= u64::MAX {
                Some(digits_value(digits) as u64)
            } else {
                None
            }),
        decreases end - i,
    {
        let c: char = chars[i];
        let ghost next = digits.take(i - from + 1);
        assert(c == digits[i - from]);
        if c < '0' || c > '9' {
            return None;
        }
        let digit: u64 = (c as u32 - '0' as u32) as u64;
        proof {
            assert(next.drop_last() =~= digits.take(i - from));
            assert(next.last() == c);
            assert(digits_value(next) == value * 10 + digit);
            lemma_digits_grow(digits, i - from + 1);
        }
        if value > u64::MAX / 10 || value * 10 > u64::MAX - digit {
            return None;
        }
        value = value * 10 + digit;
        i = i + 1;
    }
    assert(digits.take(end - from) =~= digits);
    Some(value)
}

/// The resident memory of a process in whole megabytes, out of the status report of the system
/// on it, if that tells it.
pub fn read_memory_mb(report: &str) -> (r: Option<u32>)
    ensures
        r == resident_mb(report@),
{
    let chars: Vec<char> = to_chars(report);
    let label: Vec<char> = to_chars("VmRSS:");
    let k: usize = label.len();
    let n: usize = chars.len();
    let mut start: usize = 0;
    assert(chars@.skip(0) =~= chars@);
    loop
        invariant
            n == chars@.len(),
            k == label@.len(),
            label@ == "VmRSS:"@,
            start <= n,
            resident_entry(chars@.skip(start as int)) == resident_entry(report@),
        decreases n - start,
    {
        let end: usize = line_end(&chars, start);
        let ghost rest = chars@.skip(start as int);
        let ghost line = rest.take(end - start);
        assert(line =~= chars@.subrange(start as int, end as int));
        let mut i: usize = 0;
        while i < k && i < end - start && chars[start + i] == label[i]
            invariant
                n == chars@.len(),
                k == label@.len(),
                start <= end <= n,
                i <= k,
                i <= end - start,
                line == chars@.subrange(start as int, end as int),
                forall|j: int| 0 <= j < i ==> #[trigger] line[j] == label@[j],
            decreases k - i,
        {
            i = i + 1;
        }
        if i == k {
            assert(label@.is_prefix_of(line)) by {
                assert(label@ =~= line.subrange(0, k as int));
            }
            assert(line.skip(k as int) =~= chars@.subrange(start + k, end as int));
            let word: Option<(usize, usize)> = find_word(&chars, start + k, end);
            let (from, to): (usize, usize) = match word {
                Some(span) => span,
                None => {
                    return None;
                },
            };
            let kb: u64 = match parse_number(&chars, from, to) {
                Some(kb) => kb,
                None => {
                    return None;
                },
            };
            let mb: u64 = (kb / 1024) % 0x1_0000_0000;
            return Some(mb as u32);
        }
        assert(!label@.is_prefix_of(line)) by {
            if label@.is_prefix_of(line) {
                assert(label@[i as int] == line[i as int]);
            }
        }
        if end == n {
            return None;
        }
        assert(rest.skip(end - start + 1) =~= chars@.skip(end + 1));
        start = end + 1;
    }
}

// ---------------------------------------------------------------------------
// Laws
// ---------------------------------------------------------------------------

/// Whether a line of `s` begins at `i`.
pub open spec fn line_begins(s: Seq<char>, i: int) -> bool {
    0 <= i < s.len() && (i == 0 || s[i - 1] == '\n')
}

/// Whether no line of `s` begins with the label.
pub open spec fn unlabelled(s: Seq<char>) -> bool {
    forall|i: int| #[trigger] line_begins(s, i) ==> !"VmRSS:"@.is_prefix_of(s.skip(i))
}

/// Whether `s` is made of whole lines.
pub open spec fn whole_lines(s: Seq<char>) -> bool {
    s.len() > 0 ==> s.last() == '\n'
}

proof fn lemma_line(s: Seq<char>)
    ensures
        line_len(s) <= s.len(),
        forall|j: int| 0 <= j < line_len(s) ==> #[trigger] s[j] != '\n',
        line_len(s) < s.len() ==> s[line_len(s) as int] == '\n',
    decreases s.len(),
{
    if s.len() > 0 && s[0] != '\n' {
        let rest = s.drop_first();
        lemma_line(rest);
        assert(line_len(s) == 1 + line_len(rest));
        assert forall|j: int| 0 <= j < line_len(s) implies #[trigger] s[j] != '\n' by {
            if j > 0 {
                assert(rest[j - 1] == s[j]);
            }
        }
        if line_len(s) < s.len() {
            assert(rest[line_len(rest) as int] == s[line_len(s) as int]);
        }
    }
}

proof fn lemma_later_lines(s: Seq<char>, n: int)
    requires
        unlabelled(s),
        0 <= n < s.len(),
        s[n] == '\n',
    ensures
        unlabelled(s.skip(n + 1)),
{
    let rest = s.skip(n + 1);
    assert forall|i: int| #[trigger] line_begins(rest, i) implies !"VmRSS:"@.is_prefix_of(
        rest.skip(i),
    ) by {
        assert(line_begins(s, n + 1 + i)) by {
            if i > 0 {
                assert(rest[i - 1] == s[n + i]);
            }
        }
        assert(rest.skip(i) =~= s.skip(n + 1 + i));
    }
}

proof fn lemma_unlabelled_line(s: Seq<char>)
    requires
        unlabelled(s),
        s.len() > 0,
    ensures
        !"VmRSS:"@.is_prefix_of(s.take(line_len(s) as int)),
{
    let label = "VmRSS:"@;
    let line = s.take(line_len(s) as int);
    lemma_line(s);
    assert(line_begins(s, 0));
    assert(s.skip(0) =~= s);
    if label.is_prefix_of(line) {
        assert(label =~= s.subrange(0, label.len() as int)) by {
            assert(label =~= line.subrange(0, label.len() as int));
        }
    }
}

proof fn lemma_lines_are_passed_over(before: Seq<char>, rest: Seq<char>)
    requires
        whole_lines(before),
        unlabelled(before),
    ensures
        resident_entry(before + rest) == resident_entry(rest),
    decreases before.len(),
{
    if before.len() == 0 {
        assert(before + rest =~= rest);
    } else {
        let s = before + rest;
        let n = line_len(before) as int;
        lemma_line(before);
        if n == before.len() {
            assert(before[before.len() - 1] != '\n');
        }
        lemma_until(s, |c: char| c == '\n', n as nat);
        assert(line_len(s) == n);
        assert(s.take(n) =~= before.take(n));
        lemma_unlabelled_line(before);
        lemma_later_lines(before, n);
        let later = before.skip(n + 1);
        if later.len() > 0 {
            assert(later.last() == before.last());
        }
        assert(s.skip(n + 1) =~= later + rest);
        lemma_lines_are_passed_over(later, rest);
    }
}

proof fn lemma_digits_are_written(s: Seq<char>)
    requires
        all_digits(s),
    ensures
        digits_value(s) == written(s),
    decreases s.len(),
{
    if s.len() > 0 {
        let rest = s.drop_last();
        assert(all_digits(rest)) by {
            assert forall|i: int| 0 <= i < rest.len() implies '0' <= #[trigger] rest[i] <= '9' by {
                assert(rest[i] == s[i]);
            }
        }
        assert('0' <= s[s.len() - 1] <= '9');
        lemma_digits_are_written(rest);
    }
}

proof fn lemma_labelled_line(tail: Seq<char>)
    ensures
        resident_entry("VmRSS:"@ + tail) == Some(tail.take(line_len(tail) as int)),
{
    reveal_strlit("VmRSS:");
    let label = "VmRSS:"@;
    let s = label + tail;
    let n = label.len() + line_len(tail);
    lemma_line(tail);
    assert forall|j: int| 0 <= j < n implies #[trigger] s[j] != '\n' by {
        if j >= label.len() {
            assert(s[j] == tail[j - label.len()]);
        }
    }
    lemma_until(s, |c: char| c == '\n', n);
    let line = s.take(n as int);
    assert(label =~= line.subrange(0, label.len() as int));
    assert(line.skip(label.len() as int) =~= tail.take(line_len(tail) as int));
}

/// What is left of a word without the plus sign that it may begin with.
pub open spec fn without_plus(word: Seq<char>) -> Seq<char> {
    if word.len() > 0 && word[0] == '+' {
        word.skip(1)
    } else {
        word
    }
}

/// Whether `s` is made of decimal digits, at least one.
pub open spec fn is_number(s: Seq<char>) -> bool {
    &&& s.len() > 0
    &&& forall|i: int| 0 <= i < s.len() ==> '0' as int <= #[trigger] s[i] as int <= '9' as int
}

/// The memory of a process is read from the first line of the report on it that is labelled so,
/// whatever lines come before it and whatever follows: the first word there, in decimal digits,
/// perhaps behind a plus sign, is a number of kilobytes, and the memory is that many in whole
/// megabytes. There is none to be read if and only if the word is no such number, or too large a
/// one.
pub proof fn law_memory_is_read_from_its_line(
    report: &str,
    before: Seq<char>,
    blank: Seq<char>,
    word: Seq<char>,
    after: Seq<char>,
    r: Option<u32>,
)
    requires
        call_ensures(read_memory_mb, (report,), r),
        report@ == before + ("VmRSS:"@ + (blank + word + after)),
        whole_lines(before),
        unlabelled(before),
        forall|i: int|
            0 <= i < blank.len() ==> white_space(#[trigger] blank[i]) && blank[i] != '\n',
        word.len() > 0,
        forall|i: int| 0 <= i < word.len() ==> !white_space(#[trigger] word[i]),
        after.len() > 0 ==> white_space(after[0]),
    ensures
        r is Some <==> is_number(without_plus(word)) && written(without_plus(word)) <= u64::MAX,
        r matches Some(mb) ==> mb == (written(without_plus(word)) / 1024) % 0x1_0000_0000,
{
    let tail = blank + word + after;
    let entry = tail.take(line_len(tail) as int);
    lemma_lines_are_passed_over(before, "VmRSS:"@ + tail);
    lemma_labelled_line(tail);
    lemma_line(tail);
    let b = blank.len() as int;
    let w = word.len() as int;
    assert(line_len(tail) >= b + w) by {
        if line_len(tail) < b + w {
            let at = line_len(tail) as int;
            assert(tail[at] == '\n');
            if at < b {
                assert(tail[at] == blank[at]);
            } else {
                assert(tail[at] == word[at - b]);
                assert(white_space('\n'));
            }
        }
    }
    assert forall|j: int| 0 <= j < b implies white_space(#[trigger] entry[j]) by {
        assert(entry[j] == blank[j]);
    }
    assert(entry[b] == word[0]);
    lemma_until(entry, |c: char| !white_space(c), b as nat);
    let text = entry.skip(b);
    assert forall|j: int| 0 <= j < w implies !white_space(#[trigger] text[j]) by {
        assert(text[j] == word[j]);
    }
    assert(w == text.len() || white_space(text[w])) by {
        if w < text.len() {
            assert(text[w] == after[0]);
        }
    }
    lemma_until(text, |c: char| white_space(c), w as nat);
    assert(text.take(w) =~= word);
    assert(first_word(entry) == Some(word));
    let digits = without_plus(word);
    assert(word.skip(1) =~= word.drop_first());
    assert(all_digits(digits) <==> (forall|i: int|
        0 <= i < digits.len() ==> '0' as int <= #[trigger] digits[i] as int <= '9' as int)) by {
        if all_digits(digits) {
            assert forall|i: int| 0 <= i < digits.len() implies '0' as int
                <= #[trigger] digits[i] as int <= '9' as int by {
                assert('0' <= digits[i] <= '9');
            }
        }
        if forall|i: int|
            0 <= i < digits.len() ==> '0' as int <= #[trigger] digits[i] as int <= '9' as int {
            assert forall|i: int| 0 <= i < digits.len() implies '0' <= #[trigger] digits[i]
                <= '9' by {
                assert('0' as int <= digits[i] as int <= '9' as int);
            }
        }
    }
    if all_digits(digits) {
        lemma_digits_are_written(digits);
        let value = digits_value(digits);
        assert(value == written(digits));
        if digits.len() > 0 && value <= u64::MAX {
            assert(parsed_number(word) == Some(value as u64));
        }
    }
}

/// The memory that the system reports is read back exactly, in whole megabytes, for any number of
/// kilobytes.
pub proof fn law_reported_memory_is_read_back(
    report: &str,
    before: Seq<char>,
    kb: u64,
    after: Seq<char>,
    r: Option<u32>,
)
    requires
        call_ensures(read_memory_mb, (report,), r),
        report@ == before + ("VmRSS:"@ + (seq!['\t', ' '] + decimal(kb as nat) + after)),
        whole_lines(before),
        unlabelled(before),
        after.len() > 0 ==> white_space(after[0]),
    ensures
        r matches Some(mb) && mb == (kb / 1024) % 0x1_0000_0000,
{
    let word = decimal(kb as nat);
    lemma_decimal(kb as nat);
    assert forall|i: int| 0 <= i < word.len() implies !white_space(#[trigger] word[i]) by {
        assert('0' as int <= word[i] as int <= '9' as int);
    }
    assert('0' as int <= word[0] as int <= '9' as int);
    law_memory_is_read_from_its_line(report, before, seq!['\t', ' '], word, after, r);
}

/// A report without a line that is labelled so tells no memory.
pub proof fn law_no_memory_is_made_up(report: &str, r: Option<u32>)
    requires
        call_ensures(read_memory_mb, (report,), r),
        unlabelled(report@),
    ensures
        r is None,
{
    lemma_no_entry(report@);
}

proof fn lemma_no_entry(s: Seq<char>)
    requires
        unlabelled(s),
    ensures
        resident_entry(s) is None,
    decreases s.len(),
{
    reveal_strlit("VmRSS:");
    let n = line_len(s) as int;
    lemma_line(s);
    if s.len() > 0 {
        lemma_unlabelled_line(s);
        if n < s.len() {
            lemma_later_lines(s, n);
            lemma_no_entry(s.skip(n + 1));
        }
    } else {
        assert(s.take(n).len() == 0);
    }
}

/// A line that is labelled so and holds nothing else tells no memory, whatever comes on later
/// lines.
pub proof fn law_an_empty_line_tells_no_memory(
    report: &str,
    before: Seq<char>,
    blank: Seq<char>,
    after: Seq<char>,
    r: Option<u32>,
)
    requires
        call_ensures(read_memory_mb, (report,), r),
        report@ == before + ("VmRSS:"@ + (blank + after)),
        whole_lines(before),
        unlabelled(before),
        forall|i: int|
            0 <= i < blank.len() ==> white_space(#[trigger] blank[i]) && blank[i] != '\n',
        after.len() > 0 ==> after[0] == '\n',
    ensures
        r is None,
{
    let tail = blank + after;
    let n = blank.len();
    lemma_lines_are_passed_over(before, "VmRSS:"@ + tail);
    lemma_labelled_line(tail);
    assert forall|j: int| 0 <= j < n implies #[trigger] tail[j] != '\n' by {
        assert(tail[j] == blank[j]);
    }
    if after.len() > 0 {
        assert(tail[n as int] == after[0]);
    }
    lemma_until(tail, |c: char| c == '\n', n);
    let entry = tail.take(n as int);
    assert(entry =~= blank);
    lemma_until(entry, |c: char| !white_space(c), n);
    assert(entry.skip(n as int).len() == 0);
}

/// White space is what Unicode has as white space, by the numbers of the characters.
pub proof fn law_white_space_is_unicodes(c: char)
    ensures
        white_space(c) <==> ({
            let n = c as int;
            9 <= n <= 13 || n == 32 || n == 133 || n == 160 || n == 5760 || 8192 <= n <= 8202 || n
                == 8232 || n == 8233 || n == 8239 || n == 8287 || n == 12288
        }),
{
}

} // verus!
