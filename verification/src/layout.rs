//! The text form of a slot layout.
//!
//! A layout is a text of lines: a title, the number of rows, a separator, one
//! line per row of the supply grid, a separator, and one line per row of the
//! demand grid. Every character of a supply row makes one cell, and so one
//! slot; the character at the same place of the matching demand row says
//! what that slot asks for. The character `^` stands for an empty cell.

use vstd::prelude::*;

verus! {

/// The character that marks an empty cell.
pub const NULL_SLOT_PAYLOAD_CHAR: char = '^';

/// The index of the first line break at or after `from`, or the length of
/// the text if there is none.
pub open spec fn line_end(text: Seq<char>, from: int) -> int
    decreases text.len() - from,
{
    if from < 0 || from >= text.len() {
        text.len() as int
    } else if text[from] == '\n' {
        from
    } else {
        line_end(text, from + 1)
    }
}

/// Where the line that starts at `from` and runs up to the break at `end`
/// stops: before the break, and before a carriage return in front of it.
pub open spec fn line_stop(text: Seq<char>, from: int, end: int) -> int {
    if end < text.len() && from < end && text[end - 1] == '\r' {
        end - 1
    } else {
        end
    }
}

/// The lines of the text from `from` on, each as the pair of where it starts
/// and where it stops. A line ends at a line break, without the carriage
/// return that may stand in front of the break, or at the end of the text; a
/// text that ends in a line break has no empty last line.
pub open spec fn spans(text: Seq<char>, from: int) -> Seq<(int, int)>
    decreases text.len() - from,
{
    if from < 0 || from >= text.len() {
        Seq::empty()
    } else if from <= line_end(text, from) < text.len() {
        seq![(from, line_stop(text, from, line_end(text, from)))] + spans(
            text,
            line_end(text, from) + 1,
        )
    } else {
        seq![(from, text.len() as int)]
    }
}

/// The lines of the text.
pub open spec fn lines(text: Seq<char>) -> Seq<Seq<char>> {
    Seq::new(spans(text, 0).len(), |i: int| text.subrange(spans(text, 0)[i].0, spans(text, 0)[i].1))
}

/// `line_end` is the one place at or after `from` that is a break, or the
/// end, with no break before it.
pub proof fn lemma_line_end(text: Seq<char>, from: int, end: int)
    requires
        0 <= from <= end <= text.len(),
        forall|j: int| from <= j < end ==> text[j] != '\n',
        end == text.len() || text[end] == '\n',
    ensures
        line_end(text, from) == end,
    decreases end - from,
{
    if from < end {
        lemma_line_end(text, from + 1, end);
    }
}

/// Every span lies inside the text, in order.
pub proof fn lemma_spans_inside(text: Seq<char>, from: int, i: int)
    requires
        0 <= from,
        0 <= i < spans(text, from).len(),
    ensures
        from <= spans(text, from)[i].0 <= spans(text, from)[i].1 <= text.len(),
    decreases text.len() - from,
{
    lemma_line_end_bounds(text, from);
    if i > 0 {
        lemma_spans_inside(text, line_end(text, from) + 1, i - 1);
    }
}

proof fn lemma_line_end_bounds(text: Seq<char>, from: int)
    requires
        0 <= from,
    ensures
        from <= line_end(text, from) || from > text.len(),
        line_end(text, from) <= text.len(),
    decreases text.len() - from,
{
    if from < text.len() && text[from] != '\n' {
        lemma_line_end_bounds(text, from + 1);
    }
}

/// Whether the pairs of machine indices in `found` are the spans `wanted`.
pub open spec fn same_spans(found: Seq<(usize, usize)>, wanted: Seq<(int, int)>) -> bool {
    &&& found.len() == wanted.len()
    &&& forall|i: int|
        0 <= i < found.len() ==> (#[trigger] found[i]).0 == wanted[i].0 && found[i].1
            == wanted[i].1
}

/// Splits the text into lines and returns where each starts and stops.
pub fn split_lines(text: &[char]) -> (found: Vec<(usize, usize)>)
    ensures
        same_spans(found@, spans(text@, 0)),
{
    let n: usize = text.len();
    let mut found: Vec<(usize, usize)> = Vec::new();
    let mut from: usize = 0;
    while from < n
        invariant
            from <= n,
            n == text@.len(),
            spans(text@, 0).len() == found@.len() + spans(text@, from as int).len(),
            forall|i: int|
                0 <= i < found@.len() ==> (#[trigger] found@[i]).0 == spans(text@, 0)[i].0
                    && found@[i].1 == spans(text@, 0)[i].1,
            forall|i: int|
                0 <= i < spans(text@, from as int).len() ==> spans(text@, 0)[found@.len() + i]
                    == #[trigger] spans(text@, from as int)[i],
        decreases n - from,
    {
        let mut end: usize = from;
        while end < n && text[end] != '\n'
            invariant
                from <= end <= n,
                n == text@.len(),
                forall|j: int| from <= j < end ==> text@[j] != '\n',
            decreases n - end,
        {
            end = end + 1;
        }
        proof {
            lemma_line_end(text@, from as int, end as int);
        }
        let stop: usize = if end < n && from < end && text[end - 1] == '\r' {
            end - 1
        } else {
            end
        };
        let ghost rest = if end < n {
            spans(text@, end + 1)
        } else {
            Seq::empty()
        };
        proof {
            assert(spans(text@, from as int) =~= seq![(from as int, stop as int)] + rest);
            assert(spans(text@, 0)[found@.len() as int] == spans(text@, from as int)[0]);
            assert forall|i: int| 0 <= i < rest.len() implies spans(text@, 0)[found@.len() + 1
                + i] == #[trigger] rest[i] by {
                assert(spans(text@, from as int)[i + 1] == rest[i]);
            }
        }
        found.push((from, stop));
        if end == n {
            from = n;
        } else {
            from = end + 1;
        }
    }
    found
}

/// Whether `c` is a decimal digit.
pub open spec fn is_digit(c: char) -> bool {
    '0' <= c <= '9'
}

/// The number a string of decimal digits stands for.
pub open spec fn decimal(digits: Seq<char>) -> nat
    decreases digits.len(),
{
    if digits.len() == 0 {
        0
    } else {
        10 * decimal(digits.drop_last()) + (digits.last() as nat - '0' as nat) as nat
    }
}

/// The digits of a line that is to be a number: the line without a leading
/// plus sign.
pub open spec fn digits_of(line: Seq<char>) -> Seq<char> {
    if line.len() > 0 && line[0] == '+' {
        line.subrange(1, line.len() as int)
    } else {
        line
    }
}

/// The number a line stands for: an optional plus sign and then one or more
/// decimal digits, with nothing before, between or after.
pub open spec fn number(line: Seq<char>) -> Option<nat> {
    let digits = digits_of(line);
    if digits.len() > 0 && forall|i: int| 0 <= i < digits.len() ==> is_digit(#[trigger] digits[i]) {
        Some(decimal(digits))
    } else {
        None
    }
}

/// What reading a number from a line gives.
#[derive(Clone, Copy, Debug, PartialEq, Eq, Structural)]
pub enum Reading {
    /// The line is no number.
    Nothing,
    /// The line is this number.
    Value(usize),
    /// The line is a number too large for the machine.
    Beyond,
}

/// Reads the part of the text from `start` to `stop` as a number.
pub fn read_number(text: &[char], start: usize, stop: usize) -> (r: Reading)
    requires
        start <= stop <= text@.len(),
    ensures
        match r {
            Reading::Nothing => number(text@.subrange(start as int, stop as int)) is None,
            Reading::Value(v) => number(text@.subrange(start as int, stop as int)) == Some(
                v as nat,
            ),
            Reading::Beyond => number(text@.subrange(start as int, stop as int)) is Some && number(
                text@.subrange(start as int, stop as int),
            )->0 > usize::MAX,
        },
{
    let ghost line = text@.subrange(start as int, stop as int);
    let first: usize = if start < stop && text[start] == '+' {
        start + 1
    } else {
        start
    };
    let ghost digits = digits_of(line);
    assert(digits =~= text@.subrange(first as int, stop as int));
    if first == stop {
        return Reading::Nothing;
    }
    let mut value: usize = 0;
    let mut beyond: bool = false;
    let mut i: usize = first;
    while i < stop
        invariant
            start <= first <= i <= stop <= text@.len(),
            digits == text@.subrange(first as int, stop as int),
            digits == digits_of(text@.subrange(start as int, stop as int)),
            forall|j: int| 0 <= j < i - first ==> is_digit(#[trigger] digits[j]),
            !beyond ==> value == decimal(digits.subrange(0, i - first)),
            beyond ==> decimal(digits.subrange(0, i - first)) > usize::MAX,
        decreases stop - i,
    {
        let c: char = text[i];
        if c < '0' || c > '9' {
            assert(!is_digit(digits[i - first]));
            return Reading::Nothing;
        }
        let d: usize = (c as u32 - '0' as u32) as usize;
        proof {
            let longer = digits.subrange(0, i - first + 1);
            assert(longer.drop_last() =~= digits.subrange(0, i - first));
            assert(longer.last() == c);
        }
        if !beyond {
            match value.checked_mul(10) {
                Some(tenfold) => match tenfold.checked_add(d) {
                    Some(sum) => {
                        value = sum;
                    },
                    None => {
                        beyond = true;
                    },
                },
                None => {
                    beyond = true;
                },
            }
        }
        i = i + 1;
    }
    assert(digits.subrange(0, stop - first) =~= digits);
    if beyond {
        Reading::Beyond
    } else {
        Reading::Value(value)
    }
}

/// One cell of a layout: where in the grid it lies, what its slot holds and
/// what the slot asks for.
#[derive(Clone, Copy, Debug, PartialEq, Eq, Structural)]
pub struct LayoutCell {
    pub row: usize,
    pub column: usize,
    pub supply: Option<char>,
    pub demand: Option<char>,
}

/// Why a text is no layout.
#[derive(Clone, Copy, Debug, PartialEq, Eq, Structural)]
pub enum LayoutError {
    /// The text ends before all the lines it announces.
    Truncated,
    /// The second line is not the number of rows.
    BadHeight,
    /// A row of the demand grid is not as long as its supply row.
    WidthMismatch,
}

impl LayoutError {
    /// The sentence that describes this fault.
    pub open spec fn message(self) -> Seq<char> {
        match self {
            LayoutError::Truncated => "the layout ends before all the lines it announces"@,
            LayoutError::BadHeight => "the second line of the layout is not a number of rows"@,
            LayoutError::WidthMismatch => "a demand row is not as long as its supply row"@,
        }
    }

    /// A description of the fault, fit to show to the person who wrote the
    /// layout.
    pub fn describe(&self) -> (s: &'static str)
        ensures
            s@ == self.message(),
    {
        match self {
            LayoutError::Truncated => "the layout ends before all the lines it announces",
            LayoutError::BadHeight => "the second line of the layout is not a number of rows",
            LayoutError::WidthMismatch => "a demand row is not as long as its supply row",
        }
    }
}

/// The cargo a grid character stands for.
pub open spec fn symbol_of(c: char) -> Option<char> {
    if c == NULL_SLOT_PAYLOAD_CHAR {
        None
    } else {
        Some(c)
    }
}

/// The cell in row `r` and column `c`.
pub open spec fn cell_at(supply_row: Seq<char>, demand_row: Seq<char>, r: int, c: int) -> LayoutCell {
    LayoutCell {
        row: r as usize,
        column: c as usize,
        supply: symbol_of(supply_row[c]),
        demand: symbol_of(demand_row[c]),
    }
}

/// The cells of row `r`, left to right, or what is wrong with the row.
pub open spec fn row_cells(supply_row: Seq<char>, demand_row: Seq<char>, r: int) -> Result<
    Seq<LayoutCell>,
    LayoutError,
> {
    if supply_row.len() != demand_row.len() {
        Err(LayoutError::WidthMismatch)
    } else {
        Ok(Seq::new(supply_row.len(), |c: int| cell_at(supply_row, demand_row, r, c)))
    }
}

/// The cells of the first `rows` rows of a layout of `height` rows, row by
/// row, or what is wrong with the first row that is wrong.
pub open spec fn grid_cells(all: Seq<Seq<char>>, height: int, rows: int) -> Result<
    Seq<LayoutCell>,
    LayoutError,
>
    decreases rows,
{
    if rows <= 0 {
        Ok(Seq::empty())
    } else {
        match grid_cells(all, height, rows - 1) {
            Err(e) => Err(e),
            Ok(cells) => match row_cells(all[2 + rows], all[3 + height + rows], rows - 1) {
                Err(e) => Err(e),
                Ok(more) => Ok(cells + more),
            },
        }
    }
}

/// The cells a layout text describes, or why it describes none.
pub open spec fn parsed(text: Seq<char>) -> Result<Seq<LayoutCell>, LayoutError> {
    let all = lines(text);
    if all.len() < 3 {
        Err(LayoutError::Truncated)
    } else {
        match number(all[1]) {
            None => Err(LayoutError::BadHeight),
            Some(height) => if all.len() < 4 + 2 * height {
                Err(LayoutError::Truncated)
            } else {
                grid_cells(all, height as int, height as int)
            },
        }
    }
}

/// The first row that is wrong decides: its fault is the fault of the whole
/// grid.
pub proof fn lemma_grid_error_lasts(all: Seq<Seq<char>>, height: int, rows: int, more: int)
    requires
        rows <= more,
        grid_cells(all, height, rows) is Err,
    ensures
        grid_cells(all, height, more) == grid_cells(all, height, rows),
    decreases more - rows,
{
    if rows < more {
        lemma_grid_error_lasts(all, height, rows, more - 1);
    }
}

/// The characters in the first `rows` rows of the supply grid.
pub open spec fn cells_in(all: Seq<Seq<char>>, rows: int) -> nat
    decreases rows,
{
    if rows <= 0 {
        0
    } else {
        cells_in(all, rows - 1) + all[2 + rows].len()
    }
}

/// A grid that is read without fault has one cell for every character of its
/// supply rows.
pub proof fn lemma_one_cell_per_character(all: Seq<Seq<char>>, height: int, rows: int)
    requires
        grid_cells(all, height, rows) is Ok,
    ensures
        grid_cells(all, height, rows)->Ok_0.len() == cells_in(all, rows),
    decreases rows,
{
    if rows > 0 {
        lemma_one_cell_per_character(all, height, rows - 1);
    }
}

/// A text with its three head lines, a number of rows for a second line, all
/// the lines that number announces, and demand rows as long as their supply
/// rows, is a layout: reading it gives its cells.
pub proof fn lemma_well_formed_is_read(text: Seq<char>, height: nat)
    requires
        lines(text).len() >= 4 + 2 * height,
        number(lines(text)[1]) == Some(height),
        forall|r: int|
            0 <= r < height ==> (#[trigger] lines(text)[3 + r]).len() == lines(text)[4 + height
                + r].len(),
    ensures
        parsed(text) is Ok,
        parsed(text)->Ok_0.len() == cells_in(lines(text), height as int),
{
    lemma_rows_are_read(lines(text), height as int, height as int);
    lemma_one_cell_per_character(lines(text), height as int, height as int);
}

proof fn lemma_rows_are_read(all: Seq<Seq<char>>, height: int, rows: int)
    requires
        0 <= rows <= height,
        forall|r: int| 0 <= r < height ==> (#[trigger] all[3 + r]).len() == all[4 + height + r].len(),
    ensures
        grid_cells(all, height, rows) is Ok,
    decreases rows,
{
    if rows > 0 {
        lemma_rows_are_read(all, height, rows - 1);
        assert(all[3 + (rows - 1)].len() == all[4 + height + (rows - 1)].len());
    }
}

/// Reads a layout text. Returns the cells it describes, row by row and left
/// to right, or the reason why it describes none.
pub fn parse_layout(text: &[char]) -> (r: Result<Vec<LayoutCell>, LayoutError>)
    ensures
        match r {
            Ok(cells) => parsed(text@) == Ok::<Seq<LayoutCell>, LayoutError>(cells@),
            Err(e) => parsed(text@) == Err::<Seq<LayoutCell>, LayoutError>(e),
        },
{
    let found: Vec<(usize, usize)> = split_lines(text);
    let ghost all = lines(text@);
    let count: usize = found.len();
    proof {
        assert forall|i: int| 0 <= i < count implies (#[trigger] found@[i]).0 <= found@[i].1
            <= text@.len() && all[i] == text@.subrange(found@[i].0 as int, found@[i].1 as int) by {
            lemma_spans_inside(text@, 0, i);
        }
    }
    if count < 3 {
        return Err(LayoutError::Truncated);
    }
    let height: usize = match read_number(text, found[1].0, found[1].1) {
        Reading::Nothing => {
            return Err(LayoutError::BadHeight);
        },
        Reading::Beyond => {
            return Err(LayoutError::Truncated);
        },
        Reading::Value(v) => v,
    };
    if count < 4 || height > (count - 4) / 2 {
        return Err(LayoutError::Truncated);
    }
    let mut cells: Vec<LayoutCell> = Vec::new();
    let mut r: usize = 0;
    while r < height
        invariant
            r <= height,
            4 + 2 * height <= count,
            count == found@.len(),
            all == lines(text@),
            all.len() == count,
            forall|i: int|
                0 <= i < count ==> (#[trigger] found@[i]).0 <= found@[i].1 <= text@.len() && all[i]
                    == text@.subrange(found@[i].0 as int, found@[i].1 as int),
            parsed(text@) == grid_cells(all, height as int, height as int),
            grid_cells(all, height as int, r as int) == Ok::<Seq<LayoutCell>, LayoutError>(cells@),
        decreases height - r,
    {
        let supply: (usize, usize) = found[3 + r];
        let demand: (usize, usize) = found[4 + height + r];
        let width: usize = supply.1 - supply.0;
        let ghost supply_row = all[3 + r];
        let ghost demand_row = all[4 + height + r];
        assert(grid_cells(all, height as int, r + 1) == match row_cells(
            supply_row,
            demand_row,
            r as int,
        ) {
            Err(e) => Err::<Seq<LayoutCell>, LayoutError>(e),
            Ok(more) => Ok(cells@ + more),
        });
        proof {
            if grid_cells(all, height as int, r + 1) is Err {
                lemma_grid_error_lasts(all, height as int, r + 1, height as int);
            }
        }
        if demand.1 - demand.0 != width {
            return Err(LayoutError::WidthMismatch);
        }
        let ghost before = cells@;
        let ghost row = row_cells(supply_row, demand_row, r as int)->Ok_0;
        let mut c: usize = 0;
        while c < width
            invariant
                c <= width,
                width == supply.1 - supply.0,
                width == demand.1 - demand.0,
                supply.0 <= supply.1 <= text@.len(),
                demand.0 <= demand.1 <= text@.len(),
                supply_row == text@.subrange(supply.0 as int, supply.1 as int),
                demand_row == text@.subrange(demand.0 as int, demand.1 as int),
                row == Seq::new(width as nat, |k: int| cell_at(supply_row, demand_row, r as int, k)),
                cells@ == before + row.subrange(0, c as int),
            decreases width - c,
        {
            let have: char = text[supply.0 + c];
            let want: char = text[demand.0 + c];
            let cell = LayoutCell {
                row: r,
                column: c,
                supply: if have == NULL_SLOT_PAYLOAD_CHAR {
                    None
                } else {
                    Some(have)
                },
                demand: if want == NULL_SLOT_PAYLOAD_CHAR {
                    None
                } else {
                    Some(want)
                },
            };
            assert(cell == row[c as int]);
            cells.push(cell);
            assert(cells@ =~= before + row.subrange(0, c + 1));
            c = c + 1;
        }
        assert(cells@ =~= before + row);
        r = r + 1;
    }
    Ok(cells)
}

} // verus!
