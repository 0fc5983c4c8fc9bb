use vstd::prelude::*;

use crate::uxnasmlib::assembler::chars::to_chars;

verus! {

/// Whether `c` has the Unicode White_Space property, as `char::is_whitespace` tests it.
pub open spec fn is_white_space(c: char) -> bool {
    ('\u{9}' <= c <= '\u{d}') || c == ' ' || c == '\u{85}' || c == '\u{a0}' || c == '\u{1680}'
        || ('\u{2000}' <= c <= '\u{200a}') || c == '\u{2028}' || c == '\u{2029}'
        || c == '\u{202f}' || c == '\u{205f}' || c == '\u{3000}'
}

pub fn is_white_space_exec(c: char) -> (r: bool)
    ensures
        r == is_white_space(c),
{
    ('\u{9}' <= c && c <= '\u{d}') || c == ' ' || c == '\u{85}' || c == '\u{a0}' || c == '\u{1680}'
        || ('\u{2000}' <= c && c <= '\u{200a}') || c == '\u{2028}' || c == '\u{2029}'
        || c == '\u{202f}' || c == '\u{205f}' || c == '\u{3000}'
}

/// Brackets stand as tokens of their own, even with no space around them.
pub open spec fn is_bracket(c: char) -> bool {
    c == '{' || c == '}' || c == '(' || c == ')'
}

/// The finished tokens, with the token being read added where there is one.
pub open spec fn flush(done: Seq<Seq<char>>, cur: Seq<char>) -> Seq<Seq<char>> {
    if cur.len() > 0 {
        done.push(cur)
    } else {
        done
    }
}

/// Reading a line character by character: the tokens finished so far, and the token being
/// read.
pub open spec fn scan_line(l: Seq<char>) -> (Seq<Seq<char>>, Seq<char>)
    decreases l.len(),
{
    if l.len() == 0 {
        (Seq::empty(), Seq::empty())
    } else {
        let (done, cur) = scan_line(l.drop_last());
        let c = l.last();
        if is_white_space(c) {
            (flush(done, cur), Seq::empty())
        } else if is_bracket(c) {
            (flush(done, cur).push(seq![c]), Seq::empty())
        } else {
            (done, cur.push(c))
        }
    }
}

/// The tokens of a line: the runs of characters between white space, with each bracket a
/// token of its own.
pub open spec fn line_tokens(l: Seq<char>) -> Seq<Seq<char>> {
    flush(scan_line(l).0, scan_line(l).1)
}

/// The tokens of all lines, in order.
pub open spec fn lines_tokens(lines: Seq<Seq<char>>) -> Seq<Seq<char>>
    decreases lines.len(),
{
    if lines.len() == 0 {
        Seq::empty()
    } else {
        lines_tokens(lines.drop_last()) + line_tokens(lines.last())
    }
}

pub open spec fn strings_view(v: Seq<String>) -> Seq<Seq<char>> {
    v.map_values(|s: String| s@)
}

/// The text of `s` from character `from` to character `to`.
pub fn sub_string(s: &str, from: usize, to: usize) -> (r: String)
    requires
        from <= to <= s@.len(),
    ensures
        r@ == s@.subrange(from as int, to as int),
{
    String::from_str(s.substring_char(from, to))
}

fn push_string(out: &mut Vec<String>, s: String)
    ensures
        strings_view(final(out)@) == strings_view(old(out)@).push(s@),
{
    out.push(s);
    assert(strings_view(out@) =~= strings_view(old(out)@).push(s@));
}

/// Appends the tokens of `line` to `out`.
fn split_line(line: &String, out: &mut Vec<String>)
    ensures
        strings_view(final(out)@) == strings_view(old(out)@) + line_tokens(line@),
{
    let chars = to_chars(line.as_str());
    let n = chars.len();
    let ghost base = strings_view(out@);
    let mut start: usize = 0;
    let mut i: usize = 0;
    while i < n
        invariant
            n == line@.len(),
            chars@ == line@,
            start <= i <= n,
            scan_line(line@.take(i as int)) == (strings_view(out@).skip(base.len() as int), line@.subrange(start as int, i as int)),
            strings_view(out@).len() >= base.len(),
            strings_view(out@).take(base.len() as int) == base,
        decreases n - i,
    {
        let c = chars[i];
        let ghost done = strings_view(out@).skip(base.len() as int);
        proof {
            assert(line@.take(i as int + 1).drop_last() =~= line@.take(i as int));
            assert(line@.take(i as int + 1).last() == c);
        }
        if is_white_space_exec(c) || c == '{' || c == '}' || c == '(' || c == ')' {
            if start < i {
                let t = sub_string(line.as_str(), start, i);
                push_string(out, t);
                assert(strings_view(out@).skip(base.len() as int) =~= done.push(line@.subrange(start as int, i as int)));
            }
            if !is_white_space_exec(c) {
                let ghost before = strings_view(out@);
                let t = sub_string(line.as_str(), i, i + 1);
                assert(t@ =~= seq![c]);
                push_string(out, t);
                assert(strings_view(out@).skip(base.len() as int) =~= before.skip(base.len() as int).push(seq![c]));
            }
            start = i + 1;
        }
        proof {
            assert(strings_view(out@).take(base.len() as int) =~= base);
            assert(line@.subrange(start as int, i + 1) =~= (if start == i + 1 {
                Seq::<char>::empty()
            } else {
                line@.subrange(start as int, i as int).push(c)
            }));
        }
        i = i + 1;
    }
    let ghost done = strings_view(out@).skip(base.len() as int);
    assert(line@.take(n as int) =~= line@);
    if start < n {
        let t = sub_string(line.as_str(), start, n);
        push_string(out, t);
    }
    assert(strings_view(out@) =~= base + line_tokens(line@));
}

/// The tokens of the lines of a program, in order.
pub fn split_to_token_strings(input: &Vec<String>) -> (r: Vec<String>)
    ensures
        strings_view(r@) == lines_tokens(strings_view(input@)),
{
    let mut out: Vec<String> = Vec::new();
    let mut i: usize = 0;
    while i < input.len()
        invariant
            i <= input@.len(),
            strings_view(out@) == lines_tokens(strings_view(input@).take(i as int)),
        decreases input.len() - i,
    {
        split_line(&input[i], &mut out);
        proof {
            let t = strings_view(input@).take(i as int + 1);
            assert(t.drop_last() =~= strings_view(input@).take(i as int));
            assert(t.last() == input@[i as int]@);
        }
        i = i + 1;
    }
    assert(strings_view(input@).take(input@.len() as int) =~= strings_view(input@));
    out
}

/// Dropping comments: the tokens kept, and whether the pass is inside a comment. A comment
/// runs from a `(` token to the next `)` token; comments do not nest.
pub open spec fn strip_pass(tokens: Seq<Seq<char>>) -> (Seq<Seq<char>>, bool)
    decreases tokens.len(),
{
    if tokens.len() == 0 {
        (Seq::empty(), false)
    } else {
        let (kept, in_comment) = strip_pass(tokens.drop_last());
        let s = tokens.last();
        if s == seq!['('] {
            (kept, true)
        } else {
            let still = if s == seq![')'] { false } else { in_comment };
            if in_comment {
                (kept, still)
            } else {
                (kept.push(s), still)
            }
        }
    }
}

fn is_single(s: &String, c: char) -> (r: bool)
    ensures
        r == (s@ == seq![c]),
{
    let n = s.as_str().unicode_len();
    if n == 1 {
        let d = s.as_str().get_char(0);
        if d == c {
            assert(s@ =~= seq![c]);
            return true;
        }
    }
    false
}

/// The tokens outside comments, in order.
pub fn strip_comments(input: Vec<String>) -> (r: Vec<String>)
    ensures
        strings_view(r@) == strip_pass(strings_view(input@)).0,
{
    let ghost items = input@;
    let mut in_comment = false;
    let mut out: Vec<String> = Vec::new();
    for s in it: input.into_iter()
        invariant
            it.seq() == items,
            strip_pass(strings_view(items.take(it.index() as int))) == (strings_view(out@), in_comment),
    {
        proof {
            assert(strings_view(items.take(it.index() as int + 1)).drop_last() =~= strings_view(items.take(it.index() as int)));
            assert(strings_view(items.take(it.index() as int + 1)).last() == s@);
        }
        if is_single(&s, '(') {
            in_comment = true;
        } else {
            let was_in_comment = in_comment;
            if is_single(&s, ')') {
                in_comment = false;
            }
            if !was_in_comment {
                push_string(&mut out, s);
            }
        }
    }
    assert(items.take(items.len() as int) =~= items);
    out
}

} // verus!
