//! A table of columns and rows, written as markdown for a terminal to
//! render.
use vstd::prelude::*;
use crate::text::push_str;

verus! {

/// How a column is aligned.
#[derive(Debug, Clone, Copy, PartialEq, Eq, Structural)]
pub enum Alignment {
    Left,
    Center,
    Right,
}

/// A column: its title and alignment.
#[derive(Debug)]
pub struct Col {
    pub text: String,
    pub align: Alignment,
}

/// Columns, and rows already written as markdown table rows.
#[derive(Debug)]
pub struct Table {
    pub cols: Vec<Col>,
    pub rows: Vec<String>,
}

/// The markdown marking the alignment of a column.
pub open spec fn align_mark(a: Alignment) -> Seq<char> {
    match a {
        Alignment::Center => "|:-:"@,
        Alignment::Right => "|-:"@,
        Alignment::Left => "|:-"@,
    }
}

/// The alignment marks of the columns, one after the other.
pub open spec fn align_marks(cols: Seq<Col>) -> Seq<char>
    decreases cols.len(),
{
    if cols.len() == 0 {
        Seq::empty()
    } else {
        align_marks(cols.drop_last()) + align_mark(cols.last().align)
    }
}

/// The column titles, in bold.
pub open spec fn titles(cols: Seq<Col>) -> Seq<char>
    decreases cols.len(),
{
    if cols.len() == 0 {
        Seq::empty()
    } else {
        titles(cols.drop_last()) + "|**"@ + cols.last().text@ + "**"@
    }
}

/// The rows, separated by line endings.
pub open spec fn joined_rows(rows: Seq<Seq<char>>) -> Seq<char>
    decreases rows.len(),
{
    if rows.len() == 0 {
        Seq::empty()
    } else if rows.len() == 1 {
        rows[0]
    } else {
        joined_rows(rows.drop_last()) + "\n"@ + rows.last()
    }
}

/// The views of rows.
pub open spec fn rows_view(v: Seq<String>) -> Seq<Seq<char>> {
    v.map_values(|s: String| s@)
}

/// The first row shown: all where there is room for all or the number is
/// not given, else the last `n`.
pub open spec fn first_shown(n_rows: int, nb_visible_rows: Option<u16>) -> int {
    match nb_visible_rows {
        Some(n) => if n >= n_rows {
            0
        } else {
            n_rows - n
        },
        None => 0,
    }
}

/// The table as markdown: the alignment marks, the bold titles, the marks
/// again, then the rows shown; where the number of visible rows is not
/// given, all rows and a closing `|-` line.
pub open spec fn markdown_of(t: Table, nb_visible_rows: Option<u16>) -> Seq<char> {
    let aligns = align_marks(t.cols@);
    aligns + "\n"@ + titles(t.cols@) + "\n"@ + aligns + "\n"@ + joined_rows(
        rows_view(t.rows@).skip(first_shown(t.rows@.len() as int, nb_visible_rows)),
    ) + if nb_visible_rows is None {
        "\n|-"@
    } else {
        Seq::empty()
    }
}

impl Table {
    pub fn new() -> (t: Self)
        ensures
            t.cols@.len() == 0,
            t.rows@.len() == 0,
    {
        Table { cols: Vec::new(), rows: Vec::new() }
    }

    fn push_col(&mut self, text: &str, align: Alignment)
        ensures
            final(self).rows@ == old(self).rows@,
            final(self).cols@.len() == old(self).cols@.len() + 1,
            forall|i: int|
                0 <= i < old(self).cols@.len() ==> #[trigger] final(self).cols@[i] == old(
                    self,
                ).cols@[i],
            final(self).cols@.last().text@ == text@,
            final(self).cols@.last().align == align,
    {
        let mut s = String::new();
        push_str(&mut s, text);
        assert(s@ =~= text@);
        self.cols.push(Col { text: s, align });
    }

    /// Adds a left-aligned column.
    pub fn left_col(&mut self, text: &str)
        ensures
            final(self).rows@ == old(self).rows@,
            final(self).cols@.len() == old(self).cols@.len() + 1,
            forall|i: int|
                0 <= i < old(self).cols@.len() ==> #[trigger] final(self).cols@[i] == old(
                    self,
                ).cols@[i],
            final(self).cols@.last().text@ == text@,
            final(self).cols@.last().align == Alignment::Left,
    {
        self.push_col(text, Alignment::Left)
    }

    /// Adds a centered column.
    pub fn center_col(&mut self, text: &str)
        ensures
            final(self).rows@ == old(self).rows@,
            final(self).cols@.len() == old(self).cols@.len() + 1,
            forall|i: int|
                0 <= i < old(self).cols@.len() ==> #[trigger] final(self).cols@[i] == old(
                    self,
                ).cols@[i],
            final(self).cols@.last().text@ == text@,
            final(self).cols@.last().align == Alignment::Center,
    {
        self.push_col(text, Alignment::Center)
    }

    /// Adds a right-aligned column.
    pub fn right_col(&mut self, text: &str)
        ensures
            final(self).rows@ == old(self).rows@,
            final(self).cols@.len() == old(self).cols@.len() + 1,
            forall|i: int|
                0 <= i < old(self).cols@.len() ==> #[trigger] final(self).cols@[i] == old(
                    self,
                ).cols@[i],
            final(self).cols@.last().text@ == text@,
            final(self).cols@.last().align == Alignment::Right,
    {
        self.push_col(text, Alignment::Right)
    }

    /// Adds a row.
    pub fn add_row(&mut self, row: String)
        ensures
            final(self).cols@ == old(self).cols@,
            final(self).rows@ == old(self).rows@.push(row),
    {
        self.rows.push(row);
    }

    /// The table as markdown (see [`markdown_of`]).
    pub fn as_markdown(&self, nb_visible_rows: Option<u16>) -> (s: String)
        ensures
            s@ == markdown_of(*self, nb_visible_rows),
    {
        proof {
            reveal_strlit("|:-:");
            reveal_strlit("|-:");
            reveal_strlit("|:-");
            reveal_strlit("|**");
            reveal_strlit("**");
            reveal_strlit("\n");
            reveal_strlit("\n|-");
        }
        let mut aligns = String::new();
        let mut i: usize = 0;
        while i < self.cols.len()
            invariant
                i <= self.cols.len(),
                aligns@ == align_marks(self.cols@.take(i as int)),
            decreases self.cols.len() - i,
        {
            assert(self.cols@.take(i + 1).drop_last() == self.cols@.take(i as int));
            let mark = match self.cols[i].align {
                Alignment::Center => "|:-:",
                Alignment::Right => "|-:",
                Alignment::Left => "|:-",
            };
            push_str(&mut aligns, mark);
            i = i + 1;
        }
        assert(self.cols@.take(self.cols.len() as int) == self.cols@);
        let mut ths = String::new();
        let mut i: usize = 0;
        while i < self.cols.len()
            invariant
                i <= self.cols.len(),
                ths@ == titles(self.cols@.take(i as int)),
            decreases self.cols.len() - i,
        {
            assert(self.cols@.take(i + 1).drop_last() == self.cols@.take(i as int));
            push_str(&mut ths, "|**");
            push_str(&mut ths, self.cols[i].text.as_str());
            push_str(&mut ths, "**");
            assert(ths@ =~= titles(self.cols@.take(i + 1)));
            i = i + 1;
        }
        let mut markdown = String::new();
        push_str(&mut markdown, aligns.as_str());
        push_str(&mut markdown, "\n");
        push_str(&mut markdown, ths.as_str());
        push_str(&mut markdown, "\n");
        push_str(&mut markdown, aligns.as_str());
        push_str(&mut markdown, "\n");
        let ghost head = markdown@;
        let n = self.rows.len();
        let first: usize = match nb_visible_rows {
            Some(v) => {
                let v = v as usize;
                if v >= n {
                    0
                } else {
                    n - v
                }
            },
            None => 0,
        };
        let ghost shown = rows_view(self.rows@).skip(first as int);
        let mut k: usize = first;
        while k < n
            invariant
                first <= k <= n,
                n == self.rows@.len(),
                shown == rows_view(self.rows@).skip(first as int),
                markdown@ == head + joined_rows(shown.take(k - first)),
            decreases n - k,
        {
            let ghost before = shown.take(k - first);
            assert(shown.take(k - first + 1).drop_last() == before);
            assert(shown.take(k - first + 1).last() == self.rows@[k as int]@);
            if k > first {
                push_str(&mut markdown, "\n");
            } else {
                assert(before.len() == 0);
            }
            push_str(&mut markdown, self.rows[k].as_str());
            k = k + 1;
            assert(markdown@ =~= head + joined_rows(shown.take(k - first)));
        }
        assert(shown.take(n - first) == shown);
        if nb_visible_rows.is_none() {
            push_str(&mut markdown, "\n|-");
        }
        assert(markdown@ =~= markdown_of(*self, nb_visible_rows));
        markdown
    }
}

} // verus!
