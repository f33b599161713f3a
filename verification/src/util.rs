//! Text helpers shared by the session state and the dispatcher.

use vstd::prelude::*;
use vstd::string::*;

verus! {

/// What `unicode_width::UnicodeWidthChar::width` returns for a character:
/// the number of terminal columns it occupies, or `None` for a control character.
pub uninterp spec fn display_width(c: char) -> Option<usize>;

/// Columns a character takes on screen; a control character takes none.
pub open spec fn columns(c: char) -> nat {
    match display_width(c) {
        Some(n) => n as nat,
        None => 0,
    }
}

/// Calls `unicode_width::UnicodeWidthChar::width`. The crate looks the width
/// up in fixed tables, so the result depends on the character alone; its
/// tables hold no width above 3.
#[verifier::external_body]
pub(crate) fn char_width(c: char) -> (w: Option<usize>)
    ensures
        w == display_width(c),
        w matches Some(n) ==> n <= 3,
{
    unicode_width::UnicodeWidthChar::width(c)
}

/// `String::push` appends one character.
pub assume_specification[ String::push ](s: &mut String, c: char)
    ensures
        final(s)@ == old(s)@.push(c),
;

/// Columns a character takes on screen, as a machine integer.
pub(crate) fn char_columns(c: char) -> (w: usize)
    ensures
        w == columns(c),
        w <= 3,
{
    match char_width(c) {
        Some(n) => n,
        None => 0,
    }
}

/// The text that holds the characters of `chars`, in order.
pub fn string_of(chars: &Vec<char>) -> (s: String)
    ensures
        s@ == chars@,
{
    let mut s = String::new();
    let mut i: usize = 0;
    while i < chars.len()
        invariant
            i <= chars.len(),
            s@ == chars@.take(i as int),
        decreases chars.len() - i,
    {
        s.push(chars[i]);
        i += 1;
        assert(chars@.take(i as int) =~= chars@.take(i - 1).push(chars@[i - 1]));
    }
    assert(chars@.take(chars.len() as int) =~= chars@);
    s
}

/// The characters of `text`, in order.
pub fn chars_of(text: &str) -> (chars: Vec<char>)
    ensures
        chars@ == text@,
{
    let mut chars: Vec<char> = Vec::new();
    for c in it: text.chars()
        invariant
            it.seq() == text@,
            chars@ == text@.take(it.index()),
    {
        chars.push(c);
    }
    assert(text@.take(text@.len() as int) =~= text@);
    chars
}

/// The text that holds the characters of `chars` from `from` up to `to`.
pub fn string_of_range(chars: &Vec<char>, from: usize, to: usize) -> (s: String)
    requires
        from <= to <= chars.len(),
    ensures
        s@ == chars@.subrange(from as int, to as int),
{
    let mut s = String::new();
    let mut i: usize = from;
    while i < to
        invariant
            from <= i <= to <= chars.len(),
            s@ == chars@.subrange(from as int, i as int),
        decreases to - i,
    {
        s.push(chars[i]);
        i += 1;
        assert(chars@.subrange(from as int, i as int) =~= chars@.subrange(
            from as int,
            i - 1,
        ).push(chars@[i - 1]));
    }
    s
}

/// Progress of the greedy line filling of [`split_each`]: the rows that are
/// closed, the row being filled and the columns it takes so far.
pub struct WrapState {
    pub rows: Seq<Seq<char>>,
    pub row: Seq<char>,
    pub index: nat,
}

/// Places one more character: the row being filled is closed first when it
/// is full or cannot take the character.
pub open spec fn wrap_step(s: WrapState, c: char, width: nat) -> WrapState {
    let w = columns(c);
    if (s.index != 0 && s.index == width) || s.index + w > width {
        WrapState { rows: s.rows.push(s.row), row: seq![c], index: w }
    } else {
        WrapState { rows: s.rows, row: s.row.push(c), index: s.index + w }
    }
}

/// Places the characters of `chars` in order, starting from nothing.
pub open spec fn wrap_fold(chars: Seq<char>, width: nat) -> WrapState
    decreases chars.len(),
{
    if chars.len() == 0 {
        WrapState { rows: Seq::empty(), row: Seq::empty(), index: 0 }
    } else {
        wrap_step(wrap_fold(chars.drop_last(), width), chars.last(), width)
    }
}

/// The rows that `chars` fills in a panel `width` columns wide.
pub open spec fn wrapped(chars: Seq<char>, width: nat) -> Seq<Seq<char>> {
    let s = wrap_fold(chars, width);
    if s.row.len() > 0 {
        s.rows.push(s.row)
    } else {
        s.rows
    }
}

/// The characters of all rows, in order.
pub open spec fn joined(rows: Seq<Seq<char>>) -> Seq<char>
    decreases rows.len(),
{
    if rows.len() == 0 {
        Seq::empty()
    } else {
        joined(rows.drop_last()) + rows.last()
    }
}

/// The views of a list of texts.
pub open spec fn texts(rows: Seq<String>) -> Seq<Seq<char>> {
    rows.map_values(|r: String| r@)
}

/// Splits `input` into the rows it fills in a panel `width` columns wide.
/// A row is closed when it is full or when the next character does not fit.
pub fn split_each(input: String, width: usize) -> (rows: Vec<String>)
    requires
        width > 0,
    ensures
        texts(rows@) == wrapped(input@, width as nat),
        joined(texts(rows@)) == input@,
{
    proof {
        lemma_split_keeps_text(input@, width as nat);
    }
    let mut splitted: Vec<String> = Vec::new();
    let mut row = String::new();
    let mut index: usize = 0;
    let text = input.as_str();
    for current_char in it: text.chars()
        invariant
            it.seq() == input@,
            width > 0,
            index <= width || index <= 3,
            wrap_fold(input@.take(it.index()), width as nat).rows == texts(splitted@),
            wrap_fold(input@.take(it.index()), width as nat).row == row@,
            wrap_fold(input@.take(it.index()), width as nat).index == index,
    {
        let ghost before = input@.take(it.index());
        let ghost after = input@.take(it.index() + 1);
        assert(after.drop_last() =~= before);
        assert(after.last() == current_char);
        let w = char_columns(current_char);
        if (index != 0 && index == width) || index > width || w > width - index {
            proof {
                assert(texts(splitted@.push(row)) =~= texts(splitted@).push(row@));
            }
            splitted.push(row);
            row = String::new();
            row.push(current_char);
            index = w;
            assert(row@ =~= seq![current_char]);
        } else {
            row.push(current_char);
            index += w;
        }
    }
    assert(input@.take(input@.len() as int) =~= input@);
    if !row.as_str().is_empty() {
        proof {
            assert(texts(splitted@.push(row)) =~= texts(splitted@).push(row@));
        }
        splitted.push(row);
    }
    splitted
}

proof fn lemma_wrap_keeps_text(chars: Seq<char>, width: nat)
    ensures
        joined(wrap_fold(chars, width).rows) + wrap_fold(chars, width).row == chars,
    decreases chars.len(),
{
    if chars.len() == 0 {
        assert(joined(wrap_fold(chars, width).rows) + wrap_fold(chars, width).row =~= chars);
    } else {
        let prev = wrap_fold(chars.drop_last(), width);
        let next = wrap_fold(chars, width);
        lemma_wrap_keeps_text(chars.drop_last(), width);
        let w = columns(chars.last());
        if (prev.index != 0 && prev.index == width) || prev.index + w > width {
            assert(next.rows.drop_last() =~= prev.rows);
            assert(joined(next.rows) + next.row =~= (joined(prev.rows) + prev.row).push(
                chars.last(),
            ));
        } else {
            assert(joined(next.rows) + next.row =~= (joined(prev.rows) + prev.row).push(
                chars.last(),
            ));
        }
        assert(chars.drop_last().push(chars.last()) =~= chars);
    }
}

/// Splitting loses nothing: the rows, read one after the other, give back
/// the input.
pub proof fn lemma_split_keeps_text(chars: Seq<char>, width: nat)
    ensures
        joined(wrapped(chars, width)) == chars,
{
    lemma_wrap_keeps_text(chars, width);
    let s = wrap_fold(chars, width);
    if s.row.len() > 0 {
        assert(s.rows.push(s.row).drop_last() =~= s.rows);
    } else {
        assert(joined(s.rows) + s.row =~= joined(s.rows));
    }
}

/// Columns that a row takes on screen.
pub open spec fn row_columns(row: Seq<char>) -> nat
    decreases row.len(),
{
    if row.len() == 0 {
        0
    } else {
        row_columns(row.drop_last()) + columns(row.last())
    }
}

/// Whether a row fits a panel `width` columns wide. A character that is
/// wider than the panel has a row for itself.
pub open spec fn row_fits(row: Seq<char>, width: nat) -> bool {
    row_columns(row) <= width || row.len() == 1
}

proof fn lemma_wrap_rows_fit(chars: Seq<char>, width: nat)
    ensures
        wrap_fold(chars, width).index == row_columns(wrap_fold(chars, width).row),
        row_fits(wrap_fold(chars, width).row, width),
        forall|i: int|
            0 <= i < wrap_fold(chars, width).rows.len() ==> row_fits(
                #[trigger] wrap_fold(chars, width).rows[i],
                width,
            ),
    decreases chars.len(),
{
    if chars.len() > 0 {
        let prev = wrap_fold(chars.drop_last(), width);
        let next = wrap_fold(chars, width);
        lemma_wrap_rows_fit(chars.drop_last(), width);
        let c = chars.last();
        let w = columns(c);
        if (prev.index != 0 && prev.index == width) || prev.index + w > width {
            assert(next.row.drop_last() =~= Seq::<char>::empty());
            assert(row_columns(next.row.drop_last()) == 0);
            assert forall|i: int| 0 <= i < next.rows.len() implies row_fits(
                #[trigger] next.rows[i],
                width,
            ) by {
                if i < prev.rows.len() {
                    assert(next.rows[i] == prev.rows[i]);
                }
            }
        } else {
            assert(next.row.drop_last() =~= prev.row);
        }
    }
}

/// Every row that splitting makes fits the panel, but for the rows that a
/// single character wider than the panel has for itself.
pub proof fn lemma_split_rows_fit(chars: Seq<char>, width: nat)
    ensures
        forall|i: int|
            0 <= i < wrapped(chars, width).len() ==> row_fits(
                #[trigger] wrapped(chars, width)[i],
                width,
            ),
{
    lemma_wrap_rows_fit(chars, width);
}

/// One line of a report on failed deliveries.
pub open spec fn failure_line(endpoint: Seq<char>, error: Seq<char>) -> Seq<char> {
    "Failed to connect to "@ + endpoint + ", error: "@ + error
}

/// The report on a list of failed deliveries: one line for each, in order,
/// with a line feed between two lines.
pub open spec fn failure_report(errors: Seq<(Seq<char>, Seq<char>)>) -> Seq<char>
    decreases errors.len(),
{
    if errors.len() == 0 {
        Seq::empty()
    } else if errors.len() == 1 {
        failure_line(errors[0].0, errors[0].1)
    } else {
        failure_report(errors.drop_last()).push('\n') + failure_line(
            errors.last().0,
            errors.last().1,
        )
    }
}

/// The views of a list of failed deliveries.
pub open spec fn failures(errors: Seq<(String, String)>) -> Seq<(Seq<char>, Seq<char>)> {
    errors.map_values(|e: (String, String)| (e.0@, e.1@))
}

/// Gathers the deliveries that failed, each given by the recipient and the
/// error's text, into one report of one line per failure.
pub fn stringify_sendall_errors(e: &Vec<(String, String)>) -> (out: String)
    ensures
        out@ == failure_report(failures(e@)),
{
    let mut out = String::new();
    let mut i: usize = 0;
    while i < e.len()
        invariant
            i <= e.len(),
            out@ == failure_report(failures(e@).take(i as int)),
        decreases e.len() - i,
    {
        let ghost done = failures(e@).take(i as int);
        let ghost next = failures(e@).take(i + 1);
        assert(next.drop_last() =~= done);
        assert(next.last() == (e@[i as int].0@, e@[i as int].1@));
        if i > 0 {
            out.push('\n');
        }
        out.append("Failed to connect to ");
        out.append(e[i].0.as_str());
        out.append(", error: ");
        out.append(e[i].1.as_str());
        proof {
            let line = failure_line(e@[i as int].0@, e@[i as int].1@);
            if i == 0 {
                assert(done =~= Seq::<(Seq<char>, Seq<char>)>::empty());
                assert(out@ =~= line);
            } else {
                assert(out@ =~= failure_report(done).push('\n') + line);
            }
        }
        i += 1;
    }
    assert(failures(e@).take(e.len() as int) =~= failures(e@));
    out
}

} // verus!
