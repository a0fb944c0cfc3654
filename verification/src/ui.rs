//! Text helpers for the terminal view.

use unicode_width::UnicodeWidthChar;
use vstd::prelude::*;

verus! {

/// The number of terminal columns a character occupies, as the
/// `unicode_width` crate assigns it: nothing for a control character, and
/// otherwise up to three columns.
pub uninterp spec fn char_width_of(c: char) -> Option<usize>;

/// A character's column width.
///
/// Relies on `unicode_width::UnicodeWidthChar::width`: a deterministic
/// function of the character, `None` for control characters and otherwise
/// at most 3 (the widest assignment in the crate's tables).
#[verifier::external_body]
fn char_width(c: char) -> (r: Option<usize>)
    ensures
        r == char_width_of(c),
        r matches Some(w) ==> w <= 3,
{
    c.width()
}

/// A character's effective width when filling rows: control characters
/// count as zero columns.
pub open spec fn eff_width(c: char) -> nat {
    match char_width_of(c) {
        Some(w) => w as nat,
        None => 0,
    }
}

/// The rows that greedy filling produces from position `i` on, with `row`
/// holding the characters accepted so far at combined width `idx`.  A
/// character that would overrun the width — or land on a row already full —
/// starts the next row; whatever is left at the end becomes the last row.
pub open spec fn split_rows(s: Seq<char>, i: int, row: Seq<char>, idx: nat, width: nat) -> Seq<
    Seq<char>,
>
    decreases s.len() - i,
{
    if i < 0 || i >= s.len() {
        if row.len() == 0 {
            seq![]
        } else {
            seq![row]
        }
    } else {
        let c = s[i];
        if (idx != 0 && idx == width) || idx + eff_width(c) > width {
            seq![row] + split_rows(s, i + 1, seq![c], eff_width(c), width)
        } else {
            split_rows(s, i + 1, row.push(c), idx + eff_width(c), width)
        }
    }
}

/// Splits a message into rows that fit a panel `width` columns wide.
pub fn split_each(input: String, width: usize) -> (r: Vec<String>)
    requires
        1 <= width <= usize::MAX - 6,
    ensures
        r@.len() == split_rows(input@, 0, Seq::<char>::empty(), 0, width as nat).len(),
        forall|k: int|
            0 <= k < r@.len() ==> #[trigger] r@[k]@ == split_rows(
                input@,
                0,
                Seq::<char>::empty(),
                0,
                width as nat,
            )[k],
{
    let n: usize = input.as_str().unicode_len();
    let mut rows: Vec<String> = Vec::new();
    let mut row: String = String::new();
    let mut idx: usize = 0;
    let mut i: usize = 0;
    while i < n
        invariant
            1 <= width <= usize::MAX - 6,
            i <= n == input@.len(),
            idx <= width + 3,
            split_rows(input@, 0, Seq::<char>::empty(), 0, width as nat) =~= rows@.map_values(
                |t: String| t@,
            ) + split_rows(input@, i as int, row@, idx as nat, width as nat),
        decreases n - i,
    {
        let c: char = input.as_str().get_char(i);
        let w: usize = match char_width(c) {
            Some(w) => w,
            None => 0,
        };
        if (idx != 0 && idx == width) || idx + w > width {
            let ghost rows_before = rows@;
            rows.push(row);
            row = String::new();
            push_char(&mut row, c);
            idx = w;
            proof {
                assert(rows@.map_values(|t: String| t@) =~= rows_before.map_values(
                    |t: String| t@,
                ).push(rows@.last()@));
            }
        } else {
            push_char(&mut row, c);
            idx = idx + w;
        }
        i = i + 1;
    }
    if row.as_str().unicode_len() != 0 {
        let ghost rows_before = rows@;
        rows.push(row);
        proof {
            assert(rows@.map_values(|t: String| t@) =~= rows_before.map_values(
                |t: String| t@,
            ).push(rows@.last()@));
        }
    }
    proof {
        assert(rows@.map_values(|t: String| t@) =~= split_rows(
            input@,
            0,
            Seq::<char>::empty(),
            0,
            width as nat,
        ));
    }
    rows
}

/// Appends one character to a string.
///
/// Relies on `String::push`.
#[verifier::external_body]
pub(crate) fn push_char(s: &mut String, c: char)
    ensures
        final(s)@ == old(s)@.push(c),
{
    s.push(c);
}

/// The rows joined back together.
pub open spec fn concat_rows(rows: Seq<Seq<char>>) -> Seq<char>
    decreases rows.len(),
{
    if rows.len() == 0 {
        Seq::empty()
    } else {
        rows[0] + concat_rows(rows.drop_first())
    }
}

proof fn lemma_concat_rows_cons(head: Seq<char>, rest: Seq<Seq<char>>)
    ensures
        concat_rows(seq![head] + rest) == head + concat_rows(rest),
{
    assert((seq![head] + rest)[0] == head);
    assert((seq![head] + rest).drop_first() =~= rest);
}

/// No character is lost or invented: the rows of a split concatenate back
/// to the pending row followed by the text's remainder — so the rows of
/// [`split_each`] concatenate to exactly its input.
pub proof fn lemma_split_rows_concat(s: Seq<char>, i: int, row: Seq<char>, idx: nat, width: nat)
    requires
        0 <= i <= s.len(),
    ensures
        concat_rows(split_rows(s, i, row, idx, width)) == row + s.skip(i),
    decreases s.len() - i,
{
    if i >= s.len() {
        assert(s.skip(i) =~= Seq::<char>::empty());
        if row.len() == 0 {
            assert(concat_rows(seq![row]) == row + concat_rows(Seq::<Seq<char>>::empty())) by {
                lemma_concat_rows_cons(row, Seq::<Seq<char>>::empty());
                assert(seq![row] + Seq::<Seq<char>>::empty() =~= seq![row]);
            }
            assert(row + s.skip(i) =~= Seq::<char>::empty());
        } else {
            lemma_concat_rows_cons(row, Seq::<Seq<char>>::empty());
            assert(seq![row] + Seq::<Seq<char>>::empty() =~= seq![row]);
            assert(row + s.skip(i) =~= row);
        }
    } else {
        let c = s[i];
        assert(s.skip(i) =~= seq![c] + s.skip(i + 1));
        if (idx != 0 && idx == width) || idx + eff_width(c) > width {
            lemma_split_rows_concat(s, i + 1, seq![c], eff_width(c), width);
            lemma_concat_rows_cons(row, split_rows(s, i + 1, seq![c], eff_width(c), width));
            assert(row + (seq![c] + s.skip(i + 1)) =~= row + s.skip(i));
        } else {
            lemma_split_rows_concat(s, i + 1, row.push(c), idx + eff_width(c), width);
            assert(row.push(c) + s.skip(i + 1) =~= row + s.skip(i));
        }
    }
}

} // verus!
