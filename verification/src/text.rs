use vstd::prelude::*;

verus! {

/// The character that ends a line.
pub const TERMINATOR: char = '\n';

/// A run of characters that holds no terminator.
pub open spec fn terminator_free(line: Seq<char>) -> bool {
    forall|j: int| 0 <= j < line.len() ==> line[j] != TERMINATOR
}

/// How many terminators `text` holds.
pub open spec fn count_terminators(text: Seq<char>) -> nat
    decreases text.len(),
{
    if text.len() == 0 {
        0
    } else if text.last() == TERMINATOR {
        count_terminators(text.drop_last()) + 1
    } else {
        count_terminators(text.drop_last())
    }
}

/// The lines of a text: the maximal runs of characters between terminators,
/// in order. The last line is empty when the text is empty or ends in a
/// terminator.
pub open spec fn split_lines(text: Seq<char>) -> Seq<Seq<char>>
    decreases text.len(),
{
    if text.len() == 0 {
        seq![Seq::<char>::empty()]
    } else {
        let lines = split_lines(text.drop_last());
        if text.last() == TERMINATOR {
            lines.push(Seq::<char>::empty())
        } else {
            lines.update(lines.len() - 1, lines.last().push(text.last()))
        }
    }
}

/// The text made of `lines` with one terminator between each two
/// neighbours, and none after the last.
pub open spec fn join_lines(lines: Seq<Seq<char>>) -> Seq<char>
    decreases lines.len(),
{
    if lines.len() == 0 {
        Seq::<char>::empty()
    } else if lines.len() == 1 {
        lines[0]
    } else {
        join_lines(lines.drop_last()).push(TERMINATOR) + lines.last()
    }
}

/// The number of lines of a text. The empty text has none; any other text
/// has one line more than it has terminators, so a text that ends in a
/// terminator counts the empty line after it.
pub open spec fn count_lines(text: Seq<char>) -> nat {
    if text.len() == 0 {
        0
    } else {
        split_lines(text).len()
    }
}

/// A text has one line more than it has terminators, and no line holds a
/// terminator.
pub proof fn lemma_split_lines_shape(text: Seq<char>)
    ensures
        split_lines(text).len() == count_terminators(text) + 1,
        forall|i: int|
            0 <= i < split_lines(text).len() ==> terminator_free(#[trigger] split_lines(text)[i]),
    decreases text.len(),
{
    if text.len() > 0 {
        lemma_split_lines_shape(text.drop_last());
    }
}

/// Splitting loses nothing: the lines of a text, joined again, are the text.
pub proof fn lemma_join_split(text: Seq<char>)
    ensures
        join_lines(split_lines(text)) == text,
    decreases text.len(),
{
    if text.len() > 0 {
        let head = text.drop_last();
        let lines = split_lines(head);
        lemma_join_split(head);
        lemma_split_lines_shape(head);
        assert(text =~= head.push(text.last()));
        if text.last() == TERMINATOR {
            assert(split_lines(text).drop_last() =~= lines);
        } else {
            let grown = split_lines(text);
            if lines.len() > 1 {
                assert(grown.drop_last() =~= lines.drop_last());
                assert(join_lines(grown) =~= join_lines(lines).push(text.last()));
            }
        }
    }
}

/// A run without a terminator is a text of one line.
pub proof fn lemma_split_single_line(line: Seq<char>)
    requires
        terminator_free(line),
    ensures
        split_lines(line) == seq![line],
    decreases line.len(),
{
    if line.len() > 0 {
        lemma_split_single_line(line.drop_last());
        assert(line =~= line.drop_last().push(line.last()));
        assert(split_lines(line) =~= seq![line]);
    } else {
        assert(line =~= Seq::<char>::empty());
    }
}

/// A terminator and a run without one, put after a text, add that run to
/// the text's lines as one more line.
pub proof fn lemma_split_append_line(text: Seq<char>, line: Seq<char>)
    requires
        terminator_free(line),
    ensures
        split_lines(text.push(TERMINATOR) + line) == split_lines(text).push(line),
    decreases line.len(),
{
    let whole = text.push(TERMINATOR) + line;
    if line.len() == 0 {
        assert(line =~= Seq::<char>::empty());
        assert(whole =~= text.push(TERMINATOR));
        assert(whole.drop_last() =~= text);
    } else {
        let shorter = line.drop_last();
        lemma_split_append_line(text, shorter);
        assert(whole.drop_last() =~= text.push(TERMINATOR) + shorter);
        assert(whole.last() == line.last());
        assert(shorter.push(line.last()) =~= line);
        assert(split_lines(whole) =~= split_lines(text).push(line));
    }
}

/// Joining loses nothing either: at least one line, none of them holding a
/// terminator, joined and split again, are the same lines.
pub proof fn lemma_split_join(lines: Seq<Seq<char>>)
    requires
        lines.len() >= 1,
        forall|i: int| 0 <= i < lines.len() ==> terminator_free(#[trigger] lines[i]),
    ensures
        split_lines(join_lines(lines)) == lines,
    decreases lines.len(),
{
    if lines.len() == 1 {
        lemma_split_single_line(lines[0]);
        assert(seq![lines[0]] =~= lines);
    } else {
        let head = lines.drop_last();
        lemma_split_join(head);
        lemma_split_append_line(join_lines(head), lines.last());
        assert(head.push(lines.last()) =~= lines);
    }
}

/// The lines of a text are the only way to cut it: lines without a
/// terminator, at least one of them, that join to a text are that text's
/// lines.
pub proof fn lemma_split_lines_unique(text: Seq<char>, lines: Seq<Seq<char>>)
    requires
        lines.len() >= 1,
        forall|i: int| 0 <= i < lines.len() ==> terminator_free(#[trigger] lines[i]),
        join_lines(lines) == text,
    ensures
        split_lines(text) == lines,
{
    lemma_split_join(lines);
}

} // verus!
