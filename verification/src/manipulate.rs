use crate::text::{
    count_lines, count_terminators, join_lines, lemma_join_split, lemma_split_append_line,
    lemma_split_join, lemma_split_lines_shape, split_lines, terminator_free, TERMINATOR,
};
use vstd::math::max;
use vstd::prelude::*;

verus! {

/// Every line with its characters in the opposite order; the order of the
/// lines is kept.
pub open spec fn reverse_each(lines: Seq<Seq<char>>) -> Seq<Seq<char>> {
    lines.map_values(|line: Seq<char>| line.reverse())
}

/// The lines of `text` that survive the transformation: all but the last.
/// This is the one place that decides what happens to the final line.
pub open spec fn kept_lines(text: Seq<char>) -> Seq<Seq<char>> {
    split_lines(text).drop_last()
}

/// What `reverse` turns `text` into.
pub open spec fn reverse_text(text: Seq<char>) -> Seq<char> {
    join_lines(reverse_each(kept_lines(text)))
}

/// Writes the characters of `line` after what `out` holds, last character
/// first.
fn push_reversed(out: &mut String, line: &Vec<char>)
    ensures
        final(out)@ == old(out)@ + line@.reverse(),
{
    let mut left: usize = line.len();
    assert(line@.skip(left as int).reverse() =~= Seq::<char>::empty());
    while left > 0
        invariant
            left <= line.len(),
            out@ == old(out)@ + line@.skip(left as int).reverse(),
        decreases left,
    {
        left = left - 1;
        out.push(line[left]);
        assert(line@.skip(left as int).reverse() =~= line@.skip(left + 1).reverse().push(
            line@[left as int],
        ));
    }
    assert(line@.skip(0) =~= line@);
}

/// The reversed form of `text`, as a new string. One pass over the
/// characters: a line is gathered until its terminator comes, and only then
/// written, so the line that no terminator follows is never written.
fn reversed_lines(text: &str) -> (out: String)
    ensures
        out@ == reverse_text(text@),
{
    let mut out = String::new();
    let mut line: Vec<char> = Vec::new();
    let mut first = true;
    let chars = text.chars();
    for ch in it: chars
        invariant
            it.seq() == text@,
            split_lines(text@.take(it.index())).len() >= 1,
            first == (split_lines(text@.take(it.index())).len() == 1),
            line@ == split_lines(text@.take(it.index())).last(),
            out@ == reverse_text(text@.take(it.index())),
    {
        let ghost seen = text@.take(it.index());
        let ghost next = text@.take(it.index() + 1);
        let ghost lines = split_lines(seen);
        assert(next.drop_last() =~= seen);
        assert(next.last() == ch);
        if ch == TERMINATOR {
            if !first {
                out.push(TERMINATOR);
            }
            push_reversed(&mut out, &line);
            line.clear();
            first = false;
            assert(kept_lines(next) =~= lines);
            assert(reverse_each(lines).drop_last() =~= reverse_each(lines.drop_last()));
        } else {
            line.push(ch);
            assert(kept_lines(next) =~= kept_lines(seen));
        }
    }
    assert(text@.take(text@.len() as int) =~= text@);
    out
}

/// Reverses the characters of every line of `src` in place, keeps the lines
/// in their order, puts one terminator between each two of them and drops
/// the last line, whatever it holds.
pub fn reverse(src: &mut String)
    ensures
        final(src)@ == reverse_text(old(src)@),
{
    let reversed = reversed_lines(src.as_str());
    *src = reversed;
}

/// A text whose only terminator is its first character.
pub open spec fn lone_leading_terminator(text: Seq<char>) -> bool {
    text.len() >= 1 && text[0] == TERMINATOR && terminator_free(text.drop_first())
}

/// Reversing its characters leaves a line free of terminators, and a text
/// joined from reversed lines is as long as the one joined from the lines.
proof fn lemma_reverse_each_shape(lines: Seq<Seq<char>>)
    requires
        forall|i: int| 0 <= i < lines.len() ==> terminator_free(#[trigger] lines[i]),
    ensures
        reverse_each(lines).len() == lines.len(),
        forall|i: int|
            0 <= i < lines.len() ==> terminator_free(#[trigger] reverse_each(lines)[i]),
        join_lines(reverse_each(lines)).len() == join_lines(lines).len(),
    decreases lines.len(),
{
    if lines.len() > 1 {
        lemma_reverse_each_shape(lines.drop_last());
        assert(reverse_each(lines).drop_last() =~= reverse_each(lines.drop_last()));
    }
}

/// Reversing keeps the lines in their places: where at least one line is
/// kept, the lines of the result are, one for one and in the same order, the
/// kept lines of the text with their characters reversed.
pub proof fn lemma_lines_of_reverse(text: Seq<char>)
    requires
        split_lines(text).len() >= 2,
    ensures
        split_lines(reverse_text(text)) == reverse_each(kept_lines(text)),
{
    lemma_split_lines_shape(text);
    lemma_reverse_each_shape(kept_lines(text));
    lemma_split_join(reverse_each(kept_lines(text)));
}

/// Reversing takes exactly one line from a text, and a text without lines
/// stays without: the result has `max(n - 1, 0)` lines where the text has
/// `n`. This holds of every text but one whose only terminator is its first
/// character: the one line kept of it is empty, so the result is the empty
/// text, which has no line at all.
pub proof fn lemma_reverse_drops_one_line(text: Seq<char>)
    requires
        !lone_leading_terminator(text),
    ensures
        count_lines(reverse_text(text)) == max(count_lines(text) - 1, 0),
{
    let lines = split_lines(text);
    lemma_split_lines_shape(text);
    lemma_join_split(text);
    if lines.len() >= 2 {
        let kept = kept_lines(text);
        lemma_lines_of_reverse(text);
        lemma_reverse_each_shape(kept);
        if kept.len() == 1 && lines[0].len() == 0 {
            assert(text =~= lines[0].push(TERMINATOR) + lines[1]);
            assert(text.drop_first() =~= lines[1]);
            assert(lone_leading_terminator(text));
        }
    }
}

/// Reversing takes exactly one terminator from a text that has any: the
/// result holds `max(n - 1, 0)` terminators where the text holds `n`.
pub proof fn lemma_reverse_drops_one_terminator(text: Seq<char>)
    ensures
        count_terminators(reverse_text(text)) == max(count_terminators(text) - 1, 0),
{
    lemma_split_lines_shape(text);
    if split_lines(text).len() >= 2 {
        lemma_lines_of_reverse(text);
        lemma_split_lines_shape(reverse_text(text));
    }
}

/// Of a text whose only terminator is its first character nothing is left,
/// though it has two lines.
pub proof fn lemma_reverse_lone_leading_terminator(text: Seq<char>)
    requires
        lone_leading_terminator(text),
    ensures
        count_lines(text) == 2,
        reverse_text(text) == Seq::<char>::empty(),
{
    let rest = text.drop_first();
    lemma_split_append_line(Seq::<char>::empty(), rest);
    assert(text =~= Seq::<char>::empty().push(TERMINATOR) + rest);
    assert(kept_lines(text) =~= seq![Seq::<char>::empty()]);
    assert(Seq::<char>::empty().reverse() =~= Seq::<char>::empty());
    assert(reverse_each(kept_lines(text)) =~= seq![Seq::<char>::empty()]);
}

/// A text that ends in a terminator loses that terminator and has each of
/// its lines reversed in place: the lines of the result are, one for one and
/// in the same order, the reversed lines of the text before its final
/// terminator.
pub proof fn lemma_reverse_terminated(text: Seq<char>)
    requires
        text.len() > 0,
        text.last() == TERMINATOR,
    ensures
        reverse_text(text) == join_lines(reverse_each(split_lines(text.drop_last()))),
        split_lines(reverse_text(text)) == reverse_each(split_lines(text.drop_last())),
{
    let body = text.drop_last();
    lemma_split_lines_shape(text);
    assert(kept_lines(text) =~= split_lines(body));
    lemma_lines_of_reverse(text);
}

/// Reversing never lengthens a text, and shortens every text but the empty
/// one: the last line goes, and with it a terminator if there is one.
pub proof fn lemma_reverse_shortens(text: Seq<char>)
    ensures
        reverse_text(text).len() <= text.len(),
        text.len() > 0 ==> reverse_text(text).len() < text.len(),
{
    lemma_split_lines_shape(text);
    lemma_join_split(text);
    lemma_reverse_each_shape(kept_lines(text));
}

/// Reversing is not its own inverse: applied twice it gives the text back
/// only if the text is empty.
pub proof fn lemma_reverse_twice(text: Seq<char>)
    ensures
        reverse_text(reverse_text(text)) == text <==> text.len() == 0,
{
    lemma_reverse_shortens(text);
    lemma_reverse_shortens(reverse_text(text));
    if text.len() == 0 {
        assert(reverse_text(text) =~= text);
    }
}

} // verus!
