//! Reading the method names out of the text of a service definition: of
//! every line that mentions `rpc`, the second word.

use vstd::prelude::*;
use crate::text::chars_of;
use crate::text::contains_chars;
use crate::text::contains_text;
use crate::text::text_of;

verus! {

/// `c` is white space as Unicode defines it.
pub open spec fn is_space(c: char) -> bool {
    let u = c as u32;
    ||| 0x09 <= u <= 0x0D
    ||| u == 0x20
    ||| u == 0x85
    ||| u == 0xA0
    ||| u == 0x1680
    ||| 0x2000 <= u <= 0x200A
    ||| u == 0x2028
    ||| u == 0x2029
    ||| u == 0x202F
    ||| u == 0x205F
    ||| u == 0x3000
}

/// `s` without the white space that it begins with.
pub open spec fn skip_spaces(s: Seq<char>) -> Seq<char>
    decreases s.len(),
{
    if s.len() > 0 && is_space(s[0]) {
        skip_spaces(s.drop_first())
    } else {
        s
    }
}

/// `s` without the word that it begins with.
pub open spec fn skip_word(s: Seq<char>) -> Seq<char>
    decreases s.len(),
{
    if s.len() > 0 && !is_space(s[0]) {
        skip_word(s.drop_first())
    } else {
        s
    }
}

/// The word that `s` begins with: its characters up to the first white space.
pub open spec fn first_word(s: Seq<char>) -> Seq<char>
    decreases s.len(),
{
    if s.len() == 0 || is_space(s[0]) {
        Seq::empty()
    } else {
        seq![s[0]] + first_word(s.drop_first())
    }
}

/// The second of the words of `line`, which white space separates; empty
/// where the line has fewer than two.
pub open spec fn second_word(line: Seq<char>) -> Seq<char> {
    first_word(skip_spaces(skip_word(skip_spaces(line))))
}

/// The lines of `text` after the line `current`, which is still open: a
/// line ends at a line feed, and what follows the last line feed is a line
/// unless it is empty.
pub open spec fn lines_from(text: Seq<char>, current: Seq<char>) -> Seq<Seq<char>>
    decreases text.len(),
{
    if text.len() == 0 {
        if current.len() == 0 {
            Seq::empty()
        } else {
            seq![current]
        }
    } else if text[0] == '\n' {
        seq![current] + lines_from(text.drop_first(), Seq::empty())
    } else {
        lines_from(text.drop_first(), current.push(text[0]))
    }
}

/// The lines of `text`.
pub open spec fn lines_of(text: Seq<char>) -> Seq<Seq<char>> {
    lines_from(text, Seq::empty())
}

/// The method names that `lines` declare: the second word of each line
/// that mentions `rpc`.
pub open spec fn declared(lines: Seq<Seq<char>>) -> Seq<Seq<char>>
    decreases lines.len(),
{
    if lines.len() == 0 {
        Seq::empty()
    } else if contains_text(lines.last(), "rpc"@) {
        declared(lines.drop_last()).push(second_word(lines.last()))
    } else {
        declared(lines.drop_last())
    }
}

/// The method names that the service definition `text` declares.
pub open spec fn service_methods(text: Seq<char>) -> Seq<Seq<char>> {
    declared(lines_of(text))
}

proof fn lemma_skip_spaces(s: Seq<char>, k: int)
    requires
        0 <= k <= s.len(),
        forall|j: int| 0 <= j < k ==> is_space(s[j]),
        k == s.len() || !is_space(s[k]),
    ensures
        skip_spaces(s) == s.skip(k),
    decreases k,
{
    if k == 0 {
        assert(s.skip(0) =~= s);
    } else {
        let rest = s.drop_first();
        assert forall|j: int| 0 <= j < k - 1 implies is_space(rest[j]) by {
            assert(rest[j] == s[j + 1]);
        }
        lemma_skip_spaces(rest, k - 1);
        assert(rest.skip(k - 1) =~= s.skip(k));
    }
}

proof fn lemma_skip_word(s: Seq<char>, k: int)
    requires
        0 <= k <= s.len(),
        forall|j: int| 0 <= j < k ==> !is_space(s[j]),
        k == s.len() || is_space(s[k]),
    ensures
        skip_word(s) == s.skip(k),
        first_word(s) == s.take(k),
    decreases k,
{
    if k == 0 {
        assert(s.skip(0) =~= s);
        assert(s.take(0) =~= Seq::<char>::empty());
    } else {
        let rest = s.drop_first();
        assert forall|j: int| 0 <= j < k - 1 implies !is_space(rest[j]) by {
            assert(rest[j] == s[j + 1]);
        }
        lemma_skip_word(rest, k - 1);
        assert(rest.skip(k - 1) =~= s.skip(k));
        assert(s.take(k) =~= seq![s[0]] + rest.take(k - 1));
    }
}

/// Whether `c` is white space.
pub fn is_whitespace(c: char) -> (r: bool)
    ensures
        r == is_space(c),
{
    let u: u32 = c as u32;
    (0x09 <= u && u <= 0x0D) || u == 0x20 || u == 0x85 || u == 0xA0 || u == 0x1680 || (0x2000 <= u
        && u <= 0x200A) || u == 0x2028 || u == 0x2029 || u == 0x202F || u == 0x205F || u == 0x3000
}

/// The position of the first character at or after `from` that is white
/// space, or is none, as `space` asks.
fn scan(line: &Vec<char>, from: usize, space: bool) -> (to: usize)
    requires
        from <= line.len(),
    ensures
        from <= to <= line.len(),
        forall|j: int| from <= j < to ==> is_space(line@[j]) != space,
        to == line.len() || is_space(line@[to as int]) == space,
{
    let mut to: usize = from;
    while to < line.len() && is_whitespace(line[to]) != space
        invariant
            from <= to <= line.len(),
            forall|j: int| from <= j < to ==> is_space(line@[j]) != space,
        decreases line.len() - to,
    {
        to += 1;
    }
    to
}

/// The second word of `line`.
pub fn second_word_of(line: &Vec<char>) -> (word: Vec<char>)
    ensures
        word@ == second_word(line@),
{
    let a = scan(line, 0, false);
    let b = scan(line, a, true);
    let c = scan(line, b, false);
    let d = scan(line, c, true);
    proof {
        let s = line@;
        lemma_skip_spaces(s, a as int);
        assert forall|j: int| 0 <= j < b - a implies !is_space(s.skip(a as int)[j]) by {
            assert(s.skip(a as int)[j] == s[a + j]);
        }
        lemma_skip_word(s.skip(a as int), b - a);
        assert(s.skip(a as int).skip(b - a) =~= s.skip(b as int));
        assert forall|j: int| 0 <= j < c - b implies is_space(s.skip(b as int)[j]) by {
            assert(s.skip(b as int)[j] == s[b + j]);
        }
        lemma_skip_spaces(s.skip(b as int), c - b);
        assert(s.skip(b as int).skip(c - b) =~= s.skip(c as int));
        assert forall|j: int| 0 <= j < d - c implies !is_space(s.skip(c as int)[j]) by {
            assert(s.skip(c as int)[j] == s[c + j]);
        }
        lemma_skip_word(s.skip(c as int), d - c);
        assert(s.skip(c as int).take(d - c) =~= s.subrange(c as int, d as int));
    }
    let mut word: Vec<char> = Vec::new();
    let mut i: usize = c;
    while i < d
        invariant
            c <= i <= d <= line.len(),
            word@ == line@.subrange(c as int, i as int),
        decreases d - i,
    {
        word.push(line[i]);
        assert(word@ =~= line@.subrange(c as int, i + 1));
        i += 1;
    }
    word
}

/// The lines of a list as plain values.
pub open spec fn line_views(lines: Seq<Vec<char>>) -> Seq<Seq<char>> {
    Seq::new(lines.len(), |i: int| lines[i]@)
}

/// The lines of `text`.
pub fn split_lines(text: &Vec<char>) -> (lines: Vec<Vec<char>>)
    ensures
        line_views(lines@) == lines_of(text@),
{
    let mut lines: Vec<Vec<char>> = Vec::new();
    let mut current: Vec<char> = Vec::new();
    let mut i: usize = 0;
    assert(text@.skip(0) =~= text@);
    assert(line_views(lines@) + lines_of(text@) =~= lines_of(text@));
    while i < text.len()
        invariant
            i <= text.len(),
            line_views(lines@) + lines_from(text@.skip(i as int), current@) == lines_of(text@),
        decreases text.len() - i,
    {
        let ghost rest = text@.skip(i as int);
        let ghost done = line_views(lines@);
        let ghost open = current@;
        assert(rest.drop_first() =~= text@.skip(i + 1));
        if text[i] == '\n' {
            lines.push(current);
            current = Vec::new();
            assert(line_views(lines@) =~= done.push(open));
            assert(done.push(open) + lines_from(rest.drop_first(), Seq::empty()) =~= done + (seq![
                open,
            ] + lines_from(rest.drop_first(), Seq::empty())));
        } else {
            current.push(text[i]);
        }
        i += 1;
    }
    if current.len() > 0 {
        let ghost done = line_views(lines@);
        let ghost open = current@;
        lines.push(current);
        assert(line_views(lines@) =~= done + seq![open]);
    } else {
        assert(line_views(lines@) + Seq::<Seq<char>>::empty() =~= line_views(lines@));
    }
    lines
}

/// The names of the methods that the service definition `definition`
/// declares: of every line that mentions `rpc`, the second word, and the
/// empty name where such a line has no second word.
pub fn get_service_methods(definition: &str) -> (methods: Vec<String>)
    ensures
        methods.deep_view() == service_methods(definition@),
{
    let text = chars_of(definition);
    let lines = split_lines(&text);
    let mark = chars_of("rpc");
    let ghost all = line_views(lines@);
    let mut methods: Vec<String> = Vec::new();
    let mut i: usize = 0;
    assert(all.take(0) =~= Seq::<Seq<char>>::empty());
    while i < lines.len()
        invariant
            i <= lines.len(),
            all == line_views(lines@),
            mark@ == "rpc"@,
            methods.deep_view() == declared(all.take(i as int)),
        decreases lines.len() - i,
    {
        let ghost so_far = methods.deep_view();
        proof {
            assert(all.take(i + 1).drop_last() =~= all.take(i as int));
            assert(all.take(i + 1).last() == lines@[i as int]@);
        }
        if contains_chars(&lines[i], &mark) {
            methods.push(text_of(&second_word_of(&lines[i])));
            assert(methods.deep_view() =~= so_far.push(second_word(lines@[i as int]@)));
        }
        i += 1;
    }
    assert(all.take(lines.len() as int) =~= all);
    methods
}

} // verus!
