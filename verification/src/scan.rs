//! Searching, splitting and trimming character sequences.

use vstd::prelude::*;
use crate::text::seq_less;

verus! {

/// The whitespace characters: the twenty-five that have the Unicode property
/// `White_Space`. They are the tab, the line feed, the vertical tab, the form
/// feed and the carriage return; the space; the next-line mark; the no-break
/// space; the Ogham space mark; the spaces of fixed width from the en quad to
/// the hair space; the line and the paragraph separator; the narrow no-break
/// space; the medium mathematical space; and the ideographic space.
pub open spec fn is_space(c: char) -> bool {
    ||| '\u{9}' <= c <= '\u{d}'
    ||| c == ' '
    ||| c == '\u{85}'
    ||| c == '\u{a0}'
    ||| c == '\u{1680}'
    ||| '\u{2000}' <= c <= '\u{200a}'
    ||| c == '\u{2028}'
    ||| c == '\u{2029}'
    ||| c == '\u{202f}'
    ||| c == '\u{205f}'
    ||| c == '\u{3000}'
}

/// `char::is_whitespace`: whether a character has the Unicode property
/// `White_Space`, whose members `is_space` lists.
#[verifier::external_body]
pub(crate) fn char_is_whitespace(c: char) -> (r: bool)
    ensures
        r == is_space(c),
{
    c.is_whitespace()
}

/// Whether `pattern` stands in `s` at position `at`.
pub open spec fn occurs_at(s: Seq<char>, pattern: Seq<char>, at: int) -> bool {
    0 <= at && at + pattern.len() <= s.len() && s.subrange(at, at + pattern.len()) == pattern
}

/// The first position at or after `from` where `pattern` stands in `s`, or
/// -1 where there is none.
pub open spec fn first_match(s: Seq<char>, pattern: Seq<char>, from: int) -> int
    decreases s.len() - from,
{
    if from < 0 || from + pattern.len() > s.len() {
        -1
    } else if occurs_at(s, pattern, from) {
        from
    } else if from < s.len() {
        first_match(s, pattern, from + 1)
    } else {
        -1
    }
}

/// Whether `pattern` stands somewhere in `s`.
pub open spec fn contains_text(s: Seq<char>, pattern: Seq<char>) -> bool {
    first_match(s, pattern, 0) >= 0
}

/// The pieces into which the occurrences of `pattern` cut `s` from `from`
/// on. Occurrences are found from the left and do not overlap. There is
/// always at least one piece; two occurrences in a row give an empty piece.
pub open spec fn split_from(s: Seq<char>, pattern: Seq<char>, from: int) -> Seq<Seq<char>>
    decreases s.len() - from,
{
    let at = first_match(s, pattern, from);
    if 0 <= from <= s.len() && pattern.len() > 0 && from <= at && at + pattern.len() <= s.len() {
        seq![s.subrange(from, at)] + split_from(s, pattern, at + pattern.len())
    } else if 0 <= from <= s.len() {
        seq![s.subrange(from, s.len() as int)]
    } else {
        seq![Seq::empty()]
    }
}

/// The pieces into which the occurrences of `pattern` cut `s`.
pub open spec fn split_text(s: Seq<char>, pattern: Seq<char>) -> Seq<Seq<char>> {
    split_from(s, pattern, 0)
}

/// The sequences of `pieces` one after another, with `separator` between
/// each two.
pub open spec fn join_text(pieces: Seq<Seq<char>>, separator: Seq<char>) -> Seq<char>
    decreases pieces.len(),
{
    if pieces.len() == 0 {
        Seq::empty()
    } else if pieces.len() == 1 {
        pieces[0]
    } else {
        join_text(pieces.drop_last(), separator) + separator + pieces.last()
    }
}

/// `s` without the occurrences of `pattern`.
pub open spec fn without_text(s: Seq<char>, pattern: Seq<char>) -> Seq<char> {
    join_text(split_text(s, pattern), Seq::empty())
}

/// How many times `c` stands at the start of `s` without a break.
pub open spec fn leading_run(s: Seq<char>, c: char) -> int
    decreases s.len(),
{
    if s.len() > 0 && s[0] == c {
        1 + leading_run(s.drop_first(), c)
    } else {
        0
    }
}

/// How many times `c` stands at the end of `s` without a break.
pub open spec fn trailing_run(s: Seq<char>, c: char) -> int
    decreases s.len(),
{
    if s.len() > 0 && s.last() == c {
        1 + trailing_run(s.drop_last(), c)
    } else {
        0
    }
}

/// `s` without the run of `c` at its start and the run at its end.
pub open spec fn trim_char(s: Seq<char>, c: char) -> Seq<char> {
    let lead = leading_run(s, c);
    if lead >= s.len() {
        Seq::empty()
    } else {
        s.subrange(lead, s.len() - trailing_run(s, c))
    }
}

/// How many whitespace characters stand at the start of `s` without a break.
pub open spec fn leading_space(s: Seq<char>) -> int
    decreases s.len(),
{
    if s.len() > 0 && is_space(s[0]) {
        1 + leading_space(s.drop_first())
    } else {
        0
    }
}

/// How many whitespace characters stand at the end of `s` without a break.
pub open spec fn trailing_space(s: Seq<char>) -> int
    decreases s.len(),
{
    if s.len() > 0 && is_space(s.last()) {
        1 + trailing_space(s.drop_last())
    } else {
        0
    }
}

/// `s` without the whitespace at its start and at its end.
pub open spec fn trim_space(s: Seq<char>) -> Seq<char> {
    let lead = leading_space(s);
    if lead >= s.len() {
        Seq::empty()
    } else {
        s.subrange(lead, s.len() - trailing_space(s))
    }
}

/// `s` without the occurrences of `pattern` that stand at its start, one
/// after another.
pub open spec fn strip_start(s: Seq<char>, pattern: Seq<char>) -> Seq<char>
    decreases s.len(),
{
    if pattern.len() > 0 && occurs_at(s, pattern, 0) {
        strip_start(s.skip(pattern.len() as int), pattern)
    } else {
        s
    }
}

/// `s` without the occurrences of `pattern` that stand at its end, one after
/// another.
pub open spec fn strip_end(s: Seq<char>, pattern: Seq<char>) -> Seq<char>
    decreases s.len(),
{
    if pattern.len() > 0 && occurs_at(s, pattern, s.len() - pattern.len()) {
        strip_end(s.take(s.len() - pattern.len()), pattern)
    } else {
        s
    }
}

/// A piece of a text cut at line feeds, as a line: a piece that a line feed
/// ended loses the carriage return before it, if there is one.
pub open spec fn line_of(piece: Seq<char>, ended: bool) -> Seq<char> {
    if ended && piece.len() > 0 && piece.last() == '\r' {
        piece.drop_last()
    } else {
        piece
    }
}

/// The lines of a text. A line ends with a line feed or with a carriage
/// return and a line feed; the ending is no part of the line. The last line
/// needs no ending, and nothing follows a final ending.
pub open spec fn lines_of(s: Seq<char>) -> Seq<Seq<char>> {
    let pieces = split_text(s, seq!['\n']);
    let kept = if pieces.len() > 0 && pieces.last().len() == 0 {
        pieces.len() - 1
    } else {
        pieces.len() as int
    };
    Seq::new(kept as nat, |i: int| line_of(pieces[i], i < pieces.len() - 1))
}

/// Whether a line holds nothing but whitespace.
pub open spec fn is_blank(line: Seq<char>) -> bool {
    leading_space(line) == line.len()
}

/// The least number of whitespace characters at the start of one of the
/// first `upto` lines that are not blank, if there is such a line.
pub open spec fn least_indent(lines: Seq<Seq<char>>, upto: nat) -> Option<int>
    decreases upto,
{
    if 0 < upto <= lines.len() {
        let before = least_indent(lines, (upto - 1) as nat);
        let line = lines[upto - 1];
        if is_blank(line) {
            before
        } else {
            match before {
                Some(least) => if leading_space(line) < least {
                    Some(leading_space(line))
                } else {
                    Some(least)
                },
                None => Some(leading_space(line)),
            }
        }
    } else {
        None
    }
}

/// The indentation that all lines that are not blank share; 0 where all
/// lines are blank.
pub open spec fn common_indent(lines: Seq<Seq<char>>) -> int {
    match least_indent(lines, lines.len()) {
        Some(least) => least,
        None => 0,
    }
}

/// A line without its first `indent` characters; a shorter line as it is.
pub open spec fn dedent(line: Seq<char>, indent: int) -> Seq<char> {
    if 0 <= indent <= line.len() {
        line.skip(indent)
    } else {
        line
    }
}

/// How many blank lines stand at the start of `lines` without a break.
pub open spec fn leading_blank(lines: Seq<Seq<char>>) -> int
    decreases lines.len(),
{
    if lines.len() > 0 && is_blank(lines[0]) {
        1 + leading_blank(lines.drop_first())
    } else {
        0
    }
}

/// How many blank lines stand at the end of `lines` without a break.
pub open spec fn trailing_blank(lines: Seq<Seq<char>>) -> int
    decreases lines.len(),
{
    if lines.len() > 0 && is_blank(lines.last()) {
        1 + trailing_blank(lines.drop_last())
    } else {
        0
    }
}

/// `lines` without the blank lines at their start and at their end. The
/// lines between stay as they are, blank ones too.
pub open spec fn content_lines(lines: Seq<Seq<char>>) -> Seq<Seq<char>> {
    let lead = leading_blank(lines);
    if lead >= lines.len() {
        Seq::empty()
    } else {
        lines.subrange(lead, lines.len() - trailing_blank(lines))
    }
}

/// The lines of a text, each without the indentation that the lines share.
pub open spec fn dedented_lines(s: Seq<char>) -> Seq<Seq<char>> {
    let lines = lines_of(s);
    let indent = common_indent(lines);
    Seq::new(lines.len(), |i: int| dedent(lines[i], indent))
}

/// A text without the indentation that its lines share and without the blank
/// lines before its first and after its last line that is not blank. The
/// lines that stay are joined by line feeds; what a line has of indentation
/// beyond the shared one, and what stands at its end, stays.
pub open spec fn without_common_indent(s: Seq<char>) -> Seq<char> {
    join_text(content_lines(dedented_lines(s)), seq!['\n'])
}

/// Copies `chars[from..to]`.
pub fn slice(chars: &Vec<char>, from: usize, to: usize) -> (out: Vec<char>)
    requires
        from <= to <= chars.len(),
    ensures
        out@ == chars@.subrange(from as int, to as int),
{
    let mut out: Vec<char> = Vec::new();
    let mut i: usize = from;
    while i < to
        invariant
            from <= i <= to <= chars.len(),
            out@ == chars@.subrange(from as int, i as int),
        decreases to - i,
    {
        out.push(chars[i]);
        assert(chars@.subrange(from as int, i + 1) =~= chars@.subrange(from as int, i as int).push(
            chars@[i as int],
        ));
        i += 1;
    }
    out
}

/// Tests whether `pattern` stands in `chars` at position `at`.
pub fn matches_at(chars: &Vec<char>, pattern: &Vec<char>, at: usize) -> (r: bool)
    ensures
        r == occurs_at(chars@, pattern@, at as int),
{
    if pattern.len() > chars.len() || at > chars.len() - pattern.len() {
        return false;
    }
    let mut i: usize = 0;
    while i < pattern.len()
        invariant
            i <= pattern.len(),
            at + pattern.len() <= chars.len(),
            forall|j: int| 0 <= j < i ==> chars@[at + j] == pattern@[j],
        decreases pattern.len() - i,
    {
        if chars[at + i] != pattern[i] {
            assert(chars@.subrange(at as int, at + pattern.len())[i as int] != pattern@[i as int]);
            return false;
        }
        i += 1;
    }
    assert(chars@.subrange(at as int, at + pattern.len()) =~= pattern@);
    true
}

/// Finds the first position at or after `from` where a pattern that is not
/// empty stands.
pub fn find(chars: &Vec<char>, pattern: &Vec<char>, from: usize) -> (r: Option<usize>)
    requires
        pattern@.len() > 0,
    ensures
        match r {
            Some(at) => first_match(chars@, pattern@, from as int) == at && from <= at
                && at + pattern.len() <= chars.len(),
            None => first_match(chars@, pattern@, from as int) == -1,
        },
{
    if from > chars.len() {
        return None;
    }
    let mut at: usize = from;
    while chars.len() - at >= pattern.len()
        invariant
            from <= at <= chars.len(),
            pattern@.len() > 0,
            first_match(chars@, pattern@, from as int) == first_match(chars@, pattern@, at as int),
        decreases chars.len() - at,
    {
        if matches_at(chars, pattern, at) {
            return Some(at);
        }
        at += 1;
    }
    None
}

/// Tests whether a pattern that is not empty stands somewhere in `chars`.
pub fn contains(chars: &Vec<char>, pattern: &Vec<char>) -> (r: bool)
    requires
        pattern@.len() > 0,
    ensures
        r == contains_text(chars@, pattern@),
{
    find(chars, pattern, 0).is_some()
}

/// Tests whether `chars` starts with `pattern`.
pub fn starts_with(chars: &Vec<char>, pattern: &Vec<char>) -> (r: bool)
    ensures
        r == occurs_at(chars@, pattern@, 0),
{
    matches_at(chars, pattern, 0)
}

/// Tests whether `chars` ends with `pattern`.
pub fn ends_with(chars: &Vec<char>, pattern: &Vec<char>) -> (r: bool)
    ensures
        r == occurs_at(chars@, pattern@, chars@.len() - pattern@.len()),
{
    if pattern.len() > chars.len() {
        return false;
    }
    matches_at(chars, pattern, chars.len() - pattern.len())
}

/// The views of a vector of character vectors.
pub open spec fn views(pieces: Seq<Vec<char>>) -> Seq<Seq<char>> {
    Seq::new(pieces.len(), |i: int| pieces[i]@)
}

/// Cuts `chars` at the occurrences of a pattern that is not empty.
pub fn split(chars: &Vec<char>, pattern: &Vec<char>) -> (pieces: Vec<Vec<char>>)
    requires
        pattern@.len() > 0,
    ensures
        views(pieces@) == split_text(chars@, pattern@),
        pieces@.len() > 0,
{
    let mut pieces: Vec<Vec<char>> = Vec::new();
    let mut from: usize = 0;
    let ghost whole = split_text(chars@, pattern@);
    proof {
        assert(views(pieces@) =~= Seq::<Seq<char>>::empty());
    }
    loop
        invariant
            from <= chars.len(),
            pattern@.len() > 0,
            whole == split_text(chars@, pattern@),
            whole == views(pieces@) + split_from(chars@, pattern@, from as int),
        decreases chars.len() - from,
    {
        let ghost done = views(pieces@);
        match find(chars, pattern, from) {
            Some(at) => {
                pieces.push(slice(chars, from, at));
                proof {
                    let piece = chars@.subrange(from as int, at as int);
                    assert(views(pieces@) =~= done.push(piece));
                    assert(done + (seq![piece] + split_from(chars@, pattern@, at + pattern@.len()))
                        =~= done.push(piece) + split_from(chars@, pattern@, at + pattern@.len()));
                }
                from = at + pattern.len();
            },
            None => {
                pieces.push(slice(chars, from, chars.len()));
                proof {
                    let piece = chars@.subrange(from as int, chars@.len() as int);
                    assert(views(pieces@) =~= done.push(piece));
                    assert(done + seq![piece] =~= done.push(piece));
                }
                return pieces;
            },
        }
    }
}

/// Puts pieces one after another with a separator between each two.
pub fn join(pieces: &Vec<Vec<char>>, separator: &Vec<char>) -> (out: Vec<char>)
    ensures
        out@ == join_text(views(pieces@), separator@),
{
    let mut out: Vec<char> = Vec::new();
    let mut i: usize = 0;
    while i < pieces.len()
        invariant
            i <= pieces.len(),
            out@ == join_text(views(pieces@).take(i as int), separator@),
        decreases pieces.len() - i,
    {
        let ghost before = out@;
        if i > 0 {
            append(&mut out, separator);
        }
        append(&mut out, &pieces[i]);
        proof {
            let taken = views(pieces@).take(i + 1);
            assert(taken.drop_last() =~= views(pieces@).take(i as int));
            assert(taken.last() == pieces@[i as int]@);
            if i == 0 {
                assert(out@ =~= pieces@[0]@);
            }
        }
        i += 1;
    }
    proof {
        assert(views(pieces@).take(pieces@.len() as int) =~= views(pieces@));
    }
    out
}

/// Appends the characters of `more` to `out`.
pub fn append(out: &mut Vec<char>, more: &Vec<char>)
    ensures
        final(out)@ == old(out)@ + more@,
{
    let mut i: usize = 0;
    let ghost start = out@;
    proof {
        assert(start + more@.take(0) =~= start);
    }
    while i < more.len()
        invariant
            i <= more.len(),
            out@ == start + more@.take(i as int),
        decreases more.len() - i,
    {
        out.push(more[i]);
        assert(start + more@.take(i + 1) =~= (start + more@.take(i as int)).push(more@[i as int]));
        i += 1;
    }
    proof {
        assert(more@.take(more@.len() as int) =~= more@);
    }
}

/// Removes the occurrences of a pattern that is not empty.
pub fn remove_all(chars: &Vec<char>, pattern: &Vec<char>) -> (out: Vec<char>)
    requires
        pattern@.len() > 0,
    ensures
        out@ == without_text(chars@, pattern@),
{
    let pieces = split(chars, pattern);
    let nothing: Vec<char> = Vec::new();
    join(&pieces, &nothing)
}

/// Where the first `n` characters are `c` and the next one is not, the run
/// of `c` at the start has length `n`.
proof fn lemma_leading_run(s: Seq<char>, c: char, n: int)
    requires
        0 <= n <= s.len(),
        forall|j: int| 0 <= j < n ==> s[j] == c,
        n < s.len() ==> s[n] != c,
    ensures
        leading_run(s, c) == n,
    decreases n,
{
    if n > 0 {
        let rest = s.drop_first();
        assert forall|j: int| 0 <= j < n - 1 implies rest[j] == c by {
            assert(rest[j] == s[j + 1]);
        }
        lemma_leading_run(rest, c, n - 1);
    }
}

/// Where the last `n` characters are `c` and the one before them is not, the
/// run of `c` at the end has length `n`.
proof fn lemma_trailing_run(s: Seq<char>, c: char, n: int)
    requires
        0 <= n <= s.len(),
        forall|j: int| s.len() - n <= j < s.len() ==> s[j] == c,
        n < s.len() ==> s[s.len() - n - 1] != c,
    ensures
        trailing_run(s, c) == n,
    decreases n,
{
    if n > 0 {
        let rest = s.drop_last();
        assert forall|j: int| rest.len() - (n - 1) <= j < rest.len() implies rest[j] == c by {
            assert(rest[j] == s[j]);
        }
        lemma_trailing_run(rest, c, n - 1);
    }
}

/// Where the first `n` characters are whitespace and the next one is not,
/// the whitespace at the start has length `n`.
proof fn lemma_leading_space(s: Seq<char>, n: int)
    requires
        0 <= n <= s.len(),
        forall|j: int| 0 <= j < n ==> is_space(s[j]),
        n < s.len() ==> !is_space(s[n]),
    ensures
        leading_space(s) == n,
    decreases n,
{
    if n > 0 {
        let rest = s.drop_first();
        assert forall|j: int| 0 <= j < n - 1 implies is_space(rest[j]) by {
            assert(rest[j] == s[j + 1]);
        }
        lemma_leading_space(rest, n - 1);
    }
}

/// Where the last `n` characters are whitespace and the one before them is
/// not, the whitespace at the end has length `n`.
proof fn lemma_trailing_space(s: Seq<char>, n: int)
    requires
        0 <= n <= s.len(),
        forall|j: int| s.len() - n <= j < s.len() ==> is_space(s[j]),
        n < s.len() ==> !is_space(s[s.len() - n - 1]),
    ensures
        trailing_space(s) == n,
    decreases n,
{
    if n > 0 {
        let rest = s.drop_last();
        assert forall|j: int| rest.len() - (n - 1) <= j < rest.len() implies is_space(rest[j]) by {
            assert(rest[j] == s[j]);
        }
        lemma_trailing_space(rest, n - 1);
    }
}

/// Counts the whitespace characters at the start of `chars`.
pub fn count_leading_space(chars: &Vec<char>) -> (r: usize)
    ensures
        r == leading_space(chars@),
        r <= chars.len(),
        r < chars.len() ==> !is_space(chars@[r as int]),
        forall|j: int| 0 <= j < r ==> is_space(chars@[j]),
{
    let mut n: usize = 0;
    while n < chars.len() && char_is_whitespace(chars[n])
        invariant
            n <= chars.len(),
            forall|j: int| 0 <= j < n ==> is_space(chars@[j]),
        decreases chars.len() - n,
    {
        n += 1;
    }
    proof {
        lemma_leading_space(chars@, n as int);
    }
    n
}

/// Removes the whitespace at the start and at the end.
pub fn trim(chars: &Vec<char>) -> (out: Vec<char>)
    ensures
        out@ == trim_space(chars@),
{
    let lead = count_leading_space(chars);
    if lead >= chars.len() {
        return Vec::new();
    }
    let mut end: usize = chars.len();
    while end > 0 && char_is_whitespace(chars[end - 1])
        invariant
            lead < end <= chars.len(),
            !is_space(chars@[lead as int]),
            forall|j: int| end <= j < chars.len() ==> is_space(chars@[j]),
        decreases end,
    {
        end -= 1;
    }
    proof {
        lemma_trailing_space(chars@, chars.len() - end);
    }
    slice(chars, lead, end)
}

/// Removes the run of `c` at the start and the run at the end.
pub fn trim_matches(chars: &Vec<char>, c: char) -> (out: Vec<char>)
    ensures
        out@ == trim_char(chars@, c),
{
    let mut lead: usize = 0;
    while lead < chars.len() && chars[lead] == c
        invariant
            lead <= chars.len(),
            forall|j: int| 0 <= j < lead ==> chars@[j] == c,
        decreases chars.len() - lead,
    {
        lead += 1;
    }
    proof {
        lemma_leading_run(chars@, c, lead as int);
    }
    if lead >= chars.len() {
        return Vec::new();
    }
    let mut end: usize = chars.len();
    while end > 0 && chars[end - 1] == c
        invariant
            lead < end <= chars.len(),
            chars@[lead as int] != c,
            forall|j: int| end <= j < chars.len() ==> chars@[j] == c,
        decreases end,
    {
        end -= 1;
    }
    proof {
        lemma_trailing_run(chars@, c, chars.len() - end);
    }
    slice(chars, lead, end)
}

/// A pattern stands at the start of what follows a position exactly where it
/// stands at the position.
proof fn lemma_occurs_skip(s: Seq<char>, pattern: Seq<char>, from: int)
    requires
        0 <= from <= s.len(),
    ensures
        occurs_at(s.skip(from), pattern, 0) == occurs_at(s, pattern, from),
{
    if from + pattern.len() <= s.len() {
        assert(s.skip(from).subrange(0, pattern.len() as int) =~= s.subrange(
            from,
            from + pattern.len(),
        ));
    }
}

/// A pattern stands at the end of what precedes a position exactly where it
/// ends at the position.
proof fn lemma_occurs_take(s: Seq<char>, pattern: Seq<char>, end: int)
    requires
        0 <= end <= s.len(),
    ensures
        occurs_at(s.take(end), pattern, end - pattern.len()) == occurs_at(
            s,
            pattern,
            end - pattern.len(),
        ),
{
    if end - pattern.len() >= 0 {
        assert(s.take(end).subrange(end - pattern.len(), end) =~= s.subrange(
            end - pattern.len(),
            end,
        ));
    }
}

/// Removes the occurrences of a pattern at the start, one after another.
pub fn trim_start_matches(chars: &Vec<char>, pattern: &Vec<char>) -> (out: Vec<char>)
    ensures
        out@ == strip_start(chars@, pattern@),
{
    let mut from: usize = 0;
    proof {
        assert(chars@.skip(0) =~= chars@);
    }
    while pattern.len() > 0 && matches_at(chars, pattern, from)
        invariant
            from <= chars.len(),
            strip_start(chars@, pattern@) == strip_start(chars@.skip(from as int), pattern@),
        decreases chars.len() - from,
    {
        proof {
            lemma_occurs_skip(chars@, pattern@, from as int);
            assert(chars@.skip(from as int).skip(pattern@.len() as int) =~= chars@.skip(
                from + pattern@.len(),
            ));
        }
        from += pattern.len();
    }
    proof {
        lemma_occurs_skip(chars@, pattern@, from as int);
        assert(chars@.skip(from as int) =~= chars@.subrange(from as int, chars@.len() as int));
    }
    slice(chars, from, chars.len())
}

/// Removes the occurrences of a pattern at the end, one after another.
pub fn trim_end_matches(chars: &Vec<char>, pattern: &Vec<char>) -> (out: Vec<char>)
    ensures
        out@ == strip_end(chars@, pattern@),
{
    let mut end: usize = chars.len();
    proof {
        assert(chars@.take(end as int) =~= chars@);
    }
    while pattern.len() > 0 && end >= pattern.len() && matches_at(chars, pattern, end - pattern.len())
        invariant
            end <= chars.len(),
            strip_end(chars@, pattern@) == strip_end(chars@.take(end as int), pattern@),
        decreases end,
    {
        proof {
            lemma_occurs_take(chars@, pattern@, end as int);
            assert(chars@.take(end as int).take(end - pattern@.len()) =~= chars@.take(
                end - pattern@.len(),
            ));
        }
        end -= pattern.len();
    }
    proof {
        lemma_occurs_take(chars@, pattern@, end as int);
        assert(chars@.take(end as int) =~= chars@.subrange(0, end as int));
    }
    slice(chars, 0, end)
}

/// Whether the text at `a` comes before the text at `b` in a listing by
/// text: it is less, or the two are the same and `a` stands first.
pub open spec fn text_before(keys: Seq<Seq<char>>, a: int, b: int) -> bool {
    seq_less(keys[a], keys[b]) || (keys[a] == keys[b] && a < b)
}

/// Whether `listing` names every position of `keys` once, in ascending order
/// of the texts, same texts in the order in which they stand.
pub open spec fn lists_by_text(keys: Seq<Seq<char>>, listing: Seq<usize>) -> bool {
    &&& listing.len() == keys.len()
    &&& forall|i: int| 0 <= i < listing.len() ==> (#[trigger] listing[i]) < keys.len()
    &&& forall|i: int, j: int|
        0 <= i < j < listing.len() ==> text_before(
            keys,
            (#[trigger] listing[i]) as int,
            (#[trigger] listing[j]) as int,
        )
}

/// Those of the first `upto` positions of a listing whose flag is `wanted`,
/// in the order of the listing.
pub open spec fn flagged(listing: Seq<usize>, flags: Seq<bool>, wanted: bool, upto: nat) -> Seq<usize>
    decreases upto,
{
    if 0 < upto <= listing.len() {
        let before = flagged(listing, flags, wanted, (upto - 1) as nat);
        let at = listing[upto - 1];
        if at < flags.len() && flags[at as int] == wanted {
            before.push(at)
        } else {
            before
        }
    } else {
        Seq::empty()
    }
}

/// Lists the positions of texts in ascending order of the texts.
pub fn sort_by_text(keys: &Vec<Vec<char>>) -> (listing: Vec<usize>)
    ensures
        lists_by_text(views(keys@), listing@),
{
    let ghost texts = views(keys@);
    let mut listing: Vec<usize> = Vec::new();
    let mut i: usize = 0;
    while i < keys.len()
        invariant
            i <= keys.len(),
            texts == views(keys@),
            listing@.len() == i,
            forall|m: int| 0 <= m < listing@.len() ==> (#[trigger] listing@[m]) < i,
            forall|a: int, b: int|
                0 <= a < b < listing@.len() ==> text_before(
                    texts,
                    (#[trigger] listing@[a]) as int,
                    (#[trigger] listing@[b]) as int,
                ),
        decreases keys.len() - i,
    {
        let mut at: usize = 0;
        while at < listing.len() && !crate::text::chars_less(&keys[i], &keys[listing[at]])
            invariant
                at <= listing@.len(),
                i < keys.len(),
                texts == views(keys@),
                forall|m: int| 0 <= m < listing@.len() ==> (#[trigger] listing@[m]) < i,
                forall|m: int|
                    0 <= m < at ==> !seq_less(texts[i as int], texts[(#[trigger] listing@[m]) as int]),
            decreases listing@.len() - at,
        {
            at += 1;
        }
        let ghost before = listing@;
        listing.insert(at, i);
        proof {
            let after = listing@;
            let own = texts[i as int];
            assert forall|m: int| 0 <= m < after.len() implies (#[trigger] after[m]) < i + 1 by {
                if m < at {
                    assert(after[m] == before[m]);
                } else if m > at {
                    assert(after[m] == before[m - 1]);
                }
            }
            assert forall|m: int| 0 <= m < at implies text_before(
                texts,
                (#[trigger] before[m]) as int,
                i as int,
            ) by {
                crate::text::lemma_less_total(texts[before[m] as int], own);
            }
            assert forall|b: int| at <= b < before.len() implies seq_less(
                own,
                texts[(#[trigger] before[b]) as int],
            ) by {
                let first = texts[before[at as int] as int];
                if b > at {
                    assert(text_before(texts, before[at as int] as int, before[b] as int));
                    if first != texts[before[b] as int] {
                        crate::text::lemma_less_transitive(own, first, texts[before[b] as int]);
                    }
                }
            }
            assert forall|a: int, b: int| 0 <= a < b < after.len() implies text_before(
                texts,
                (#[trigger] after[a]) as int,
                (#[trigger] after[b]) as int,
            ) by {
                let old_a = if a < at {
                    a
                } else {
                    a - 1
                };
                let old_b = if b < at {
                    b
                } else {
                    b - 1
                };
                if a != at {
                    assert(after[a] == before[old_a]);
                }
                if b != at {
                    assert(after[b] == before[old_b]);
                }
                if a != at && b != at {
                    assert(text_before(texts, before[old_a] as int, before[old_b] as int));
                }
            }
        }
        i += 1;
    }
    listing
}

/// Picks from a listing the positions whose flag is `wanted`.
pub fn pick_flagged(listing: &Vec<usize>, flags: &Vec<bool>, wanted: bool) -> (picked: Vec<usize>)
    ensures
        picked@ == flagged(listing@, flags@, wanted, listing@.len()),
{
    let mut picked: Vec<usize> = Vec::new();
    let mut i: usize = 0;
    while i < listing.len()
        invariant
            i <= listing.len(),
            picked@ == flagged(listing@, flags@, wanted, i as nat),
        decreases listing.len() - i,
    {
        let at = listing[i];
        if at < flags.len() && flags[at] == wanted {
            picked.push(at);
        }
        i += 1;
    }
    picked
}

/// Cuts a text into its lines.
pub fn lines(chars: &Vec<char>) -> (out: Vec<Vec<char>>)
    ensures
        views(out@) == lines_of(chars@),
{
    let feed: Vec<char> = vec!['\n'];
    assert(feed@ =~= seq!['\n']);
    let pieces = split(chars, &feed);
    let count = pieces.len();
    let kept: usize = if pieces[count - 1].len() == 0 {
        count - 1
    } else {
        count
    };
    let ghost parts = views(pieces@);
    let mut out: Vec<Vec<char>> = Vec::new();
    let mut i: usize = 0;
    while i < kept
        invariant
            i <= kept <= count,
            count == pieces@.len(),
            parts == views(pieces@),
            out@.len() == i,
            forall|j: int| 0 <= j < i ==> (#[trigger] out@[j])@ == line_of(parts[j], j < count - 1),
        decreases kept - i,
    {
        let piece = &pieces[i];
        let length = piece.len();
        assert(parts[i as int] == piece@);
        if i + 1 < count && length > 0 && piece[length - 1] == '\r' {
            out.push(slice(piece, 0, length - 1));
            assert(piece@.subrange(0, length - 1) =~= piece@.drop_last());
        } else {
            out.push(slice(piece, 0, length));
            assert(piece@.subrange(0, length as int) =~= piece@);
        }
        i += 1;
    }
    proof {
        assert(views(out@) =~= lines_of(chars@));
    }
    out
}

/// Where the first `n` lines are blank and the next one is not, the blank
/// lines at the start are `n`.
proof fn lemma_leading_blank(lines: Seq<Seq<char>>, n: int)
    requires
        0 <= n <= lines.len(),
        forall|j: int| 0 <= j < n ==> is_blank(#[trigger] lines[j]),
        n < lines.len() ==> !is_blank(lines[n]),
    ensures
        leading_blank(lines) == n,
    decreases n,
{
    if n > 0 {
        let rest = lines.drop_first();
        assert(is_blank(lines[0]));
        assert forall|j: int| 0 <= j < n - 1 implies is_blank(#[trigger] rest[j]) by {
            assert(rest[j] == lines[j + 1]);
        }
        if n < lines.len() {
            assert(rest[n - 1] == lines[n]);
        }
        lemma_leading_blank(rest, n - 1);
    }
}

/// Where the last `n` lines are blank and the one before them is not, the
/// blank lines at the end are `n`.
proof fn lemma_trailing_blank(lines: Seq<Seq<char>>, n: int)
    requires
        0 <= n <= lines.len(),
        forall|j: int| lines.len() - n <= j < lines.len() ==> is_blank(#[trigger] lines[j]),
        n < lines.len() ==> !is_blank(lines[lines.len() - n - 1]),
    ensures
        trailing_blank(lines) == n,
    decreases n,
{
    if n > 0 {
        let rest = lines.drop_last();
        assert(is_blank(lines[lines.len() - 1]));
        assert forall|j: int| rest.len() - (n - 1) <= j < rest.len() implies is_blank(
            #[trigger] rest[j],
        ) by {
            assert(rest[j] == lines[j]);
        }
        if n < lines.len() {
            assert(rest[rest.len() - (n - 1) - 1] == lines[lines.len() - n - 1]);
        }
        lemma_trailing_blank(rest, n - 1);
    }
}

/// Tests whether a line holds nothing but whitespace.
pub fn line_is_blank(line: &Vec<char>) -> (r: bool)
    ensures
        r == is_blank(line@),
{
    count_leading_space(line) == line.len()
}

/// Drops the blank lines at the start and at the end.
pub fn drop_blank_ends(lines: &Vec<Vec<char>>) -> (out: Vec<Vec<char>>)
    ensures
        views(out@) == content_lines(views(lines@)),
{
    let ghost texts = views(lines@);
    let mut lead: usize = 0;
    while lead < lines.len() && line_is_blank(&lines[lead])
        invariant
            lead <= lines.len(),
            texts == views(lines@),
            forall|j: int| 0 <= j < lead ==> is_blank(#[trigger] texts[j]),
        decreases lines.len() - lead,
    {
        assert(texts[lead as int] == lines@[lead as int]@);
        lead += 1;
    }
    proof {
        if lead < lines.len() {
            assert(texts[lead as int] == lines@[lead as int]@);
        }
        lemma_leading_blank(texts, lead as int);
    }
    let mut out: Vec<Vec<char>> = Vec::new();
    if lead >= lines.len() {
        proof {
            assert(views(out@) =~= Seq::<Seq<char>>::empty());
        }
        return out;
    }
    let mut end: usize = lines.len();
    while end > 0 && line_is_blank(&lines[end - 1])
        invariant
            lead < end <= lines.len(),
            texts == views(lines@),
            !is_blank(texts[lead as int]),
            forall|j: int| end <= j < lines.len() ==> is_blank(#[trigger] texts[j]),
        decreases end,
    {
        assert(texts[end - 1] == lines@[end - 1]@);
        end -= 1;
    }
    proof {
        assert(texts[end - 1] == lines@[end - 1]@);
        lemma_trailing_blank(texts, lines.len() - end);
    }
    let mut k: usize = lead;
    while k < end
        invariant
            lead <= k <= end <= lines.len(),
            texts == views(lines@),
            out@.len() == k - lead,
            forall|j: int| 0 <= j < out@.len() ==> (#[trigger] out@[j])@ == texts[lead + j],
        decreases end - k,
    {
        let line = &lines[k];
        assert(texts[k as int] == line@);
        out.push(slice(line, 0, line.len()));
        assert(line@.subrange(0, line@.len() as int) =~= line@);
        k += 1;
    }
    proof {
        assert(views(out@) =~= texts.subrange(lead as int, end as int));
    }
    out
}

/// Removes the indentation that the lines of a text share, then the blank
/// lines before the first and after the last line that is not blank.
pub fn trim_common_indentation(chars: &Vec<char>) -> (out: Vec<char>)
    ensures
        out@ == without_common_indent(chars@),
{
    let all = lines(chars);
    let ghost texts = views(all@);
    let mut least: Option<usize> = None;
    let mut i: usize = 0;
    while i < all.len()
        invariant
            i <= all.len(),
            texts == views(all@),
            match least {
                Some(n) => least_indent(texts, i as nat) == Some(n as int),
                None => least_indent(texts, i as nat) is None,
            },
        decreases all.len() - i,
    {
        let line = &all[i];
        assert(texts[i as int] == line@);
        let indent = count_leading_space(line);
        if indent < line.len() {
            least = match least {
                Some(n) => if indent < n {
                    Some(indent)
                } else {
                    Some(n)
                },
                None => Some(indent),
            };
        }
        i += 1;
    }
    let indent: usize = match least {
        Some(n) => n,
        None => 0,
    };
    let mut shorter: Vec<Vec<char>> = Vec::new();
    let mut k: usize = 0;
    while k < all.len()
        invariant
            k <= all.len(),
            texts == views(all@),
            shorter@.len() == k,
            forall|j: int| 0 <= j < k ==> (#[trigger] shorter@[j])@ == dedent(texts[j], indent as int),
        decreases all.len() - k,
    {
        let line = &all[k];
        assert(texts[k as int] == line@);
        if line.len() >= indent {
            shorter.push(slice(line, indent, line.len()));
            assert(line@.subrange(indent as int, line@.len() as int) =~= line@.skip(indent as int));
        } else {
            shorter.push(slice(line, 0, line.len()));
            assert(line@.subrange(0, line@.len() as int) =~= line@);
        }
        k += 1;
    }
    let feed: Vec<char> = vec!['\n'];
    proof {
        assert(feed@ =~= seq!['\n']);
        assert(views(shorter@) =~= dedented_lines(chars@));
    }
    let kept = drop_blank_ends(&shorter);
    join(&kept, &feed)
}

} // verus!
