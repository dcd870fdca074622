//! Building shader text: characters, decimal numbers and line handling.

use vstd::prelude::*;
use vstd::string::*;

verus! {

/// Appends one character to a string.
///
/// Trusted: wraps `String::push`, which std documents as appending the given
/// character to the end of the string.
#[verifier::external_body]
pub(crate) fn push_char(s: &mut String, c: char)
    ensures
        final(s)@ == old(s)@.push(c),
{
    s.push(c);
}

/// The character that stands for a decimal digit.
pub open spec fn digit_char(d: int) -> char {
    if d == 0 {
        '0'
    } else if d == 1 {
        '1'
    } else if d == 2 {
        '2'
    } else if d == 3 {
        '3'
    } else if d == 4 {
        '4'
    } else if d == 5 {
        '5'
    } else if d == 6 {
        '6'
    } else if d == 7 {
        '7'
    } else if d == 8 {
        '8'
    } else {
        '9'
    }
}

/// The decimal digits of a natural number, most significant first, without
/// leading zeros; zero is written as a single `0`.
pub open spec fn dec_digits(n: nat) -> Seq<char>
    decreases n,
{
    if n < 10 {
        seq![digit_char(n as int)]
    } else {
        dec_digits(n / 10).push(digit_char((n % 10) as int))
    }
}

/// A run of `n` copies of one character.
pub open spec fn repeat_char(c: char, n: nat) -> Seq<char> {
    Seq::new(n, |i: int| c)
}

/// The character for a digit below ten.
pub fn digit_to_char(d: u8) -> (c: char)
    requires
        d < 10,
    ensures
        c == digit_char(d as int),
{
    if d == 0 {
        '0'
    } else if d == 1 {
        '1'
    } else if d == 2 {
        '2'
    } else if d == 3 {
        '3'
    } else if d == 4 {
        '4'
    } else if d == 5 {
        '5'
    } else if d == 6 {
        '6'
    } else if d == 7 {
        '7'
    } else if d == 8 {
        '8'
    } else {
        '9'
    }
}

/// Appends the decimal digits of `n` to `out`.
pub fn push_digits(out: &mut Vec<char>, n: u64)
    ensures
        final(out)@ == old(out)@ + dec_digits(n as nat),
    decreases n,
{
    if n >= 10 {
        push_digits(out, n / 10);
    }
    let d: u8 = (n % 10) as u8;
    out.push(digit_to_char(d));
}

/// Appends the decimal digits of `n` to the string `out`.
pub fn push_number(out: &mut String, n: u64)
    ensures
        final(out)@ == old(out)@ + dec_digits(n as nat),
    decreases n,
{
    if n >= 10 {
        push_number(out, n / 10);
    }
    let d: u8 = (n % 10) as u8;
    push_char(out, digit_to_char(d));
}

/// Appends `count` copies of the character `c` to `out`.
pub fn push_repeated(out: &mut String, c: char, count: u64)
    ensures
        final(out)@ == old(out)@ + repeat_char(c, count as nat),
{
    let mut i: u64 = 0;
    while i < count
        invariant
            i <= count,
            out@ == old(out)@ + repeat_char(c, i as nat),
        decreases count - i,
    {
        push_char(out, c);
        i = i + 1;
        assert(out@ =~= old(out)@ + repeat_char(c, i as nat));
    }
}

/// Appends the characters of `chars` from position `from` up to `to`.
pub fn push_range(out: &mut String, chars: &Vec<char>, from: usize, to: usize)
    requires
        from <= to <= chars@.len(),
    ensures
        final(out)@ == old(out)@ + chars@.subrange(from as int, to as int),
{
    let mut i: usize = from;
    while i < to
        invariant
            from <= i <= to <= chars@.len(),
            out@ == old(out)@ + chars@.subrange(from as int, i as int),
        decreases to - i,
    {
        push_char(out, chars[i]);
        i = i + 1;
        assert(out@ =~= old(out)@ + chars@.subrange(from as int, i as int));
    }
    assert(old(out)@ + chars@.subrange(from as int, from as int) =~= old(out)@);
}

/// The characters of a text.
pub fn chars_of(s: &str) -> (v: Vec<char>)
    ensures
        v@ == s@,
{
    let mut v: Vec<char> = Vec::new();
    for c in it: s.chars()
        invariant
            v@ == it.seq().take(it.index() as int),
            it.seq() == s@,
    {
        v.push(c);
        assert(v@ =~= it.seq().take(it.index() + 1));
    }
    assert(v@ =~= s@);
    v
}

/// Where the line that starts at `start` ends: at the next line feed, or at
/// the end of the text.
pub open spec fn line_end(s: Seq<char>, start: int) -> int
    decreases s.len() - start,
{
    if start < 0 || start >= s.len() {
        s.len() as int
    } else if s[start] == '\n' {
        start
    } else {
        line_end(s, start + 1)
    }
}

/// The line between `start` and `end`. A carriage return just before the line
/// feed that ends the line belongs to the line ending, not to the line.
pub open spec fn line_content(s: Seq<char>, start: int, end: int) -> Seq<char> {
    if end < s.len() && start < end && s[end - 1] == '\r' {
        s.subrange(start, end - 1)
    } else {
        s.subrange(start, end)
    }
}

/// Where the line after the one that starts at `start` starts: behind the
/// line feed, or at the end of the text.
pub open spec fn next_line(s: Seq<char>, start: int) -> int {
    if line_end(s, start) < s.len() {
        line_end(s, start) + 1
    } else {
        s.len() as int
    }
}

/// The lines of the text from `start` on. A line ends at a line feed, or at a
/// carriage return followed by a line feed; the ending is no part of the
/// line. The last line needs no ending, and a text that ends with a line
/// ending has no empty line after it.
pub open spec fn lines_from(s: Seq<char>, start: int) -> Seq<Seq<char>>
    decreases s.len() - start,
{
    if start < 0 || start >= s.len() {
        Seq::empty()
    } else {
        proof {
            lemma_line_end(s, start);
        }
        seq![line_content(s, start, line_end(s, start))] + lines_from(s, next_line(s, start))
    }
}

/// The lines of a text.
pub open spec fn lines(s: Seq<char>) -> Seq<Seq<char>> {
    lines_from(s, 0)
}

/// The rows, one after the other, with a line feed between each two.
pub open spec fn join_lines(rows: Seq<Seq<char>>) -> Seq<char>
    decreases rows.len(),
{
    if rows.len() == 0 {
        Seq::empty()
    } else if rows.len() == 1 {
        rows[0]
    } else {
        join_lines(rows.drop_last()) + seq!['\n'] + rows.last()
    }
}

/// A line ends at or after its start, and within the text.
pub proof fn lemma_line_end(s: Seq<char>, start: int)
    requires
        0 <= start <= s.len(),
    ensures
        start <= line_end(s, start) <= s.len(),
        line_end(s, start) < s.len() ==> s[line_end(s, start)] == '\n',
        forall|k: int| start <= k < line_end(s, start) ==> s[k] != '\n',
    decreases s.len() - start,
{
    if start < s.len() && s[start] != '\n' {
        lemma_line_end(s, start + 1);
    }
}

/// The views of rows of characters.
pub open spec fn row_views(rows: Seq<Vec<char>>) -> Seq<Seq<char>> {
    Seq::new(rows.len(), |i: int| rows[i]@)
}

/// The lines of a text, each as a row of characters.
pub fn split_lines(chars: &Vec<char>) -> (rows: Vec<Vec<char>>)
    ensures
        row_views(rows@) == lines(chars@),
{
    let mut rows: Vec<Vec<char>> = Vec::new();
    let mut start: usize = 0;
    let n = chars.len();
    assert(row_views(rows@) + lines_from(chars@, 0) =~= lines(chars@));
    while start < n
        invariant
            n == chars@.len(),
            start <= n,
            row_views(rows@) + lines_from(chars@, start as int) == lines(chars@),
        decreases n - start,
    {
        let mut end: usize = start;
        while end < n && chars[end] != '\n'
            invariant
                n == chars@.len(),
                start <= end <= n,
                line_end(chars@, start as int) == line_end(chars@, end as int),
            decreases n - end,
        {
            end = end + 1;
        }
        proof {
            lemma_line_end(chars@, end as int);
        }
        let stop: usize = if end < n && start < end && chars[end - 1] == '\r' {
            end - 1
        } else {
            end
        };
        let mut row: Vec<char> = Vec::new();
        let mut k: usize = start;
        while k < stop
            invariant
                start <= k <= stop <= n,
                n == chars@.len(),
                row@ == chars@.subrange(start as int, k as int),
            decreases stop - k,
        {
            row.push(chars[k]);
            k = k + 1;
            assert(row@ =~= chars@.subrange(start as int, k as int));
        }
        let ghost before = row_views(rows@);
        rows.push(row);
        proof {
            assert(row_views(rows@) =~= before.push(row@));
            assert(row@ == line_content(chars@, start as int, end as int));
            assert(next_line(chars@, start as int) == (if end < n {
                end + 1
            } else {
                n as int
            }));
            assert(before.push(row@) + lines_from(chars@, next_line(chars@, start as int))
                =~= before + lines_from(chars@, start as int));
        }
        if end < n {
            start = end + 1;
        } else {
            start = n;
        }
    }
    assert(row_views(rows@) + Seq::<Seq<char>>::empty() =~= row_views(rows@));
    rows
}

/// The rows joined into one text, a line feed between each two.
pub fn join_rows(rows: &Vec<Vec<char>>) -> (out: String)
    ensures
        out@ == join_lines(row_views(rows@)),
{
    let mut out = String::new();
    let mut i: usize = 0;
    assert(row_views(rows@).take(0) =~= Seq::<Seq<char>>::empty());
    while i < rows.len()
        invariant
            i <= rows@.len(),
            out@ == join_lines(row_views(rows@).take(i as int)),
        decreases rows@.len() - i,
    {
        let ghost done = out@;
        if i > 0 {
            push_char(&mut out, '\n');
        }
        let row = &rows[i];
        push_range(&mut out, row, 0, row.len());
        proof {
            let all = row_views(rows@);
            assert(row@.subrange(0, row@.len() as int) =~= row@);
            assert(all.take(i + 1).drop_last() =~= all.take(i as int));
            assert(all.take(i + 1).last() == row@);
            if i == 0 {
                assert(out@ =~= row@);
                assert(all.take(1)[0] == row@);
            }
        }
        i = i + 1;
    }
    assert(row_views(rows@).take(i as int) =~= row_views(rows@));
    out
}

/// Every row with `prefix` before it.
pub open spec fn prefixed(rows: Seq<Seq<char>>, prefix: Seq<char>) -> Seq<Seq<char>> {
    Seq::new(rows.len(), |i: int| prefix + rows[i])
}

/// The row without `prefix` at its start; the row itself where it does not
/// start with `prefix`.
pub open spec fn strip_prefix(row: Seq<char>, prefix: Seq<char>) -> Seq<char> {
    if prefix.len() <= row.len() && row.subrange(0, prefix.len() as int) == prefix {
        row.subrange(prefix.len() as int, row.len() as int)
    } else {
        row
    }
}

/// Every row without `prefix` at its start.
pub open spec fn stripped(rows: Seq<Seq<char>>, prefix: Seq<char>) -> Seq<Seq<char>> {
    Seq::new(rows.len(), |i: int| strip_prefix(rows[i], prefix))
}

/// Puts `count` copies of `c` before every line of `input`. The lines of the
/// result are joined by line feeds, whatever ended them in `input`.
fn prefix_lines(input: &str, c: char, count: usize) -> (out: String)
    ensures
        out@ == join_lines(prefixed(lines(input@), repeat_char(c, count as nat))),
{
    let chars = chars_of(input);
    let rows = split_lines(&chars);
    let mut shifted: Vec<Vec<char>> = Vec::new();
    let mut i: usize = 0;
    let ghost prefix = repeat_char(c, count as nat);
    while i < rows.len()
        invariant
            i <= rows@.len(),
            prefix == repeat_char(c, count as nat),
            row_views(shifted@) == prefixed(row_views(rows@), prefix).take(i as int),
        decreases rows@.len() - i,
    {
        let mut row: Vec<char> = Vec::new();
        let mut k: usize = 0;
        while k < count
            invariant
                k <= count,
                row@ == repeat_char(c, k as nat),
            decreases count - k,
        {
            row.push(c);
            k = k + 1;
            assert(row@ =~= repeat_char(c, k as nat));
        }
        let source = &rows[i];
        let mut j: usize = 0;
        while j < source.len()
            invariant
                j <= source@.len(),
                row@ == repeat_char(c, count as nat) + source@.subrange(0, j as int),
            decreases source@.len() - j,
        {
            row.push(source[j]);
            j = j + 1;
            assert(row@ =~= repeat_char(c, count as nat) + source@.subrange(0, j as int));
        }
        assert(source@.subrange(0, j as int) =~= source@);
        let ghost before = row_views(shifted@);
        let ghost target = prefixed(row_views(rows@), prefix);
        assert(row@ == target[i as int]);
        shifted.push(row);
        assert(row_views(shifted@) =~= before.push(row@));
        assert(target.take(i + 1) =~= target.take(i as int).push(target[i as int]));
        i = i + 1;
    }
    assert(prefixed(row_views(rows@), prefix).take(i as int) =~= prefixed(
        row_views(rows@),
        prefix,
    ));
    join_rows(&shifted)
}

/// Takes `count` copies of `c` off the start of every line of `input` that
/// starts with them. The lines of the result are joined by line feeds.
fn unprefix_lines(input: &str, c: char, count: usize) -> (out: String)
    ensures
        out@ == join_lines(stripped(lines(input@), repeat_char(c, count as nat))),
{
    let chars = chars_of(input);
    let rows = split_lines(&chars);
    let mut shifted: Vec<Vec<char>> = Vec::new();
    let mut i: usize = 0;
    let ghost prefix = repeat_char(c, count as nat);
    while i < rows.len()
        invariant
            i <= rows@.len(),
            prefix == repeat_char(c, count as nat),
            row_views(shifted@) == stripped(row_views(rows@), prefix).take(i as int),
        decreases rows@.len() - i,
    {
        let source = &rows[i];
        let mut starts = count <= source.len();
        let mut k: usize = 0;
        while starts && k < count
            invariant
                k <= count,
                starts ==> count <= source@.len(),
                starts ==> source@.subrange(0, k as int) == repeat_char(c, k as nat),
                !starts ==> !(count <= source@.len() && source@.subrange(0, count as int)
                    == repeat_char(c, count as nat)),
            decreases count - k + if starts { 1nat } else { 0nat },
        {
            if source[k] != c {
                starts = false;
                assert(source@.subrange(0, count as int)[k as int] != repeat_char(c, count as nat)[k as int]);
            } else {
                k = k + 1;
                assert(source@.subrange(0, k as int) =~= repeat_char(c, k as nat));
            }
        }
        let from: usize = if starts { count } else { 0 };
        let mut row: Vec<char> = Vec::new();
        let mut j: usize = from;
        while j < source.len()
            invariant
                from <= j <= source@.len(),
                row@ == source@.subrange(from as int, j as int),
            decreases source@.len() - j,
        {
            row.push(source[j]);
            j = j + 1;
            assert(row@ =~= source@.subrange(from as int, j as int));
        }
        assert(source@.subrange(0, source@.len() as int) =~= source@);
        assert(row@ == strip_prefix(source@, prefix));
        let ghost before = row_views(shifted@);
        let ghost target = stripped(row_views(rows@), prefix);
        assert(row@ == target[i as int]);
        shifted.push(row);
        assert(row_views(shifted@) =~= before.push(row@));
        assert(target.take(i + 1) =~= target.take(i as int).push(target[i as int]));
        i = i + 1;
    }
    assert(stripped(row_views(rows@), prefix).take(i as int) =~= stripped(row_views(rows@), prefix));
    join_rows(&shifted)
}

/// Puts `tab_count` tabs before every line of `input`.
pub fn add_tabs_to_string(input: &str, tab_count: usize) -> (out: String)
    ensures
        out@ == join_lines(prefixed(lines(input@), repeat_char('\t', tab_count as nat))),
{
    prefix_lines(input, '\t', tab_count)
}

/// Takes `tab_count` tabs off the start of every line of `input` that starts
/// with as many.
pub fn remove_tabs_from_string(input: &str, tab_count: usize) -> (out: String)
    ensures
        out@ == join_lines(stripped(lines(input@), repeat_char('\t', tab_count as nat))),
{
    unprefix_lines(input, '\t', tab_count)
}

/// Takes `space_count` spaces off the start of every line of `input` that
/// starts with as many.
pub fn remove_spaces_from_string(input: &str, space_count: usize) -> (out: String)
    ensures
        out@ == join_lines(stripped(lines(input@), repeat_char(' ', space_count as nat))),
{
    unprefix_lines(input, ' ', space_count)
}

} // verus!
