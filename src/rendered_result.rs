//! The rendered report: the allocation statistics of each class and the text of the
//! report's sections.
use vstd::prelude::*;
use core::cmp::Ordering;
use vstd::slice::slice_subrange;
use crate::strings::push_char;
use crate::utils::{decimal, pretty_bytes_size, pretty_size, push_decimal, push_repeated};

verus! {

/// Allocation statistics of one class, or of the arrays of one element type.
#[derive(Clone, Debug, PartialEq, Eq)]
pub struct ClassAllocationStats {
    pub class_name: String,
    pub instance_count: u64,
    pub largest_allocation_bytes: u64,
    pub allocation_size_bytes: u64,
}

impl ClassAllocationStats {
    pub fn new(
        class_name: String,
        instance_count: u64,
        largest_allocation_bytes: u64,
        allocation_size_bytes: u64,
    ) -> (r: Self)
        ensures
            r.class_name == class_name,
            r.instance_count == instance_count,
            r.largest_allocation_bytes == largest_allocation_bytes,
            r.allocation_size_bytes == allocation_size_bytes,
    {
        ClassAllocationStats {
            class_name,
            instance_count,
            largest_allocation_bytes,
            allocation_size_bytes,
        }
    }
}

pub struct RenderedResult {
    pub summary: String,
    pub thread_info: String,
    pub memory_usage: Vec<ClassAllocationStats>,
    pub duplicated_strings: Option<String>,
    pub captured_strings: Option<String>,
}

pub open spec fn min_len(n: nat, top: nat) -> nat {
    if n > top {
        top
    } else {
        n
    }
}

pub open spec fn allocation_sum(rows: Seq<ClassAllocationStats>) -> nat
    decreases rows.len(),
{
    if rows.len() == 0 {
        0
    } else {
        allocation_sum(rows.drop_last()) + (rows.last().allocation_size_bytes as nat)
    }
}

pub open spec fn capped(n: nat) -> nat {
    if n > u64::MAX {
        u64::MAX as nat
    } else {
        n
    }
}

/// The memory-usage section for the rows, given them ordered both ways.
pub open spec fn memory_text(
    rows: Seq<ClassAllocationStats>,
    by_allocation: Seq<ClassAllocationStats>,
    by_largest: Seq<ClassAllocationStats>,
    top: nat,
) -> Seq<char> {
    "Found a total of "@ + pretty_size(capped(allocation_sum(rows)))
        + " of instances allocated on the heap.\n"@ + "\nTop "@ + decimal(top)
        + " allocated classes:\n\n"@ + table_text(by_allocation, top) + "\nTop "@ + decimal(top)
        + " largest instances:\n\n"@ + table_text(by_largest, top)
}

/// The whole report text.
pub open spec fn report_text(
    summary: Seq<char>,
    thread_info: Seq<char>,
    memory: Seq<char>,
    duplicated_strings: Option<String>,
    captured_strings: Option<String>,
) -> Seq<char> {
    summary + seq!['\n'] + thread_info + seq!['\n'] + memory + match duplicated_strings {
        Some(d) => d@ + seq!['\n'],
        None => seq![],
    } + match captured_strings {
        Some(c) => c@,
        None => seq![],
    }
}

/// `new` holds the rows of `old` reordered: row `i` of `new` is row `perm[i]` of `old`.
pub open spec fn reordered(old: Seq<ClassAllocationStats>, new: Seq<ClassAllocationStats>, perm: Seq<int>) -> bool {
    &&& perm.len() == old.len()
    &&& new.len() == old.len()
    &&& forall|i: int| 0 <= i < perm.len() ==> 0 <= #[trigger] perm[i] < old.len()
    &&& forall|i: int, j: int| 0 <= i < j < perm.len() ==> perm[i] != perm[j]
    &&& forall|i: int| 0 <= i < new.len() ==> #[trigger] new[i] == old[perm[i]]
}

/// A stable reordering by total allocation: rows with equal totals keep their order.
pub open spec fn stable_by_allocation(old: Seq<ClassAllocationStats>, new: Seq<ClassAllocationStats>) -> bool {
    exists|perm: Seq<int>|
        #[trigger] reordered(old, new, perm) && forall|i: int, j: int|
            0 <= i < j < new.len() && new[i].allocation_size_bytes == new[j].allocation_size_bytes
                ==> perm[i] < perm[j]
}

/// A stable reordering by largest allocation: rows with equal largest sizes keep their order.
pub open spec fn stable_by_largest(old: Seq<ClassAllocationStats>, new: Seq<ClassAllocationStats>) -> bool {
    exists|perm: Seq<int>|
        #[trigger] reordered(old, new, perm) && forall|i: int, j: int|
            0 <= i < j < new.len() && new[i].largest_allocation_bytes == new[j].largest_allocation_bytes
                ==> perm[i] < perm[j]
}

/// The rows are ordered by a non-increasing key.
pub open spec fn sorted_by_allocation(rows: Seq<ClassAllocationStats>) -> bool {
    forall|i: int, j: int|
        0 <= i < j < rows.len() ==> rows[i].allocation_size_bytes
            >= rows[j].allocation_size_bytes
}

pub open spec fn sorted_by_largest(rows: Seq<ClassAllocationStats>) -> bool {
    forall|i: int, j: int|
        0 <= i < j < rows.len() ==> rows[i].largest_allocation_bytes
            >= rows[j].largest_allocation_bytes
}

fn compare_desc(a: u64, b: u64) -> (r: Ordering)
    ensures
        (r == Ordering::Less) == (a > b),
        (r == Ordering::Greater) == (a < b),
        (r == Ordering::Equal) == (a == b),
{
    if a > b {
        Ordering::Less
    } else if a < b {
        Ordering::Greater
    } else {
        Ordering::Equal
    }
}

/// Orders rows by non-increasing total allocation.
pub fn allocation_order(a: &ClassAllocationStats, b: &ClassAllocationStats) -> (r: Ordering)
    ensures
        (r == Ordering::Less) == (a.allocation_size_bytes > b.allocation_size_bytes),
        (r == Ordering::Greater) == (a.allocation_size_bytes < b.allocation_size_bytes),
{
    compare_desc(a.allocation_size_bytes, b.allocation_size_bytes)
}

/// Orders rows by non-increasing largest allocation.
pub fn largest_order(a: &ClassAllocationStats, b: &ClassAllocationStats) -> (r: Ordering)
    ensures
        (r == Ordering::Less) == (a.largest_allocation_bytes > b.largest_allocation_bytes),
        (r == Ordering::Greater) == (a.largest_allocation_bytes < b.largest_allocation_bytes),
{
    compare_desc(a.largest_allocation_bytes, b.largest_allocation_bytes)
}

/// Relies on `slice::sort_by`, a stable sort, with a comparison that is a total order:
/// the rows are permuted into non-increasing total allocation, equal ones in their order.
#[verifier::external_body]
fn sort_by_allocation(rows: &mut Vec<ClassAllocationStats>)
    ensures
        final(rows)@.to_multiset() == old(rows)@.to_multiset(),
        sorted_by_allocation(final(rows)@),
        stable_by_allocation(old(rows)@, final(rows)@),
{
    rows.sort_by(|a, b| allocation_order(a, b));
}

/// Relies on `slice::sort_by`, a stable sort, with a comparison that is a total order:
/// the rows are permuted into non-increasing largest allocation, equal ones in their order.
#[verifier::external_body]
fn sort_by_largest(rows: &mut Vec<ClassAllocationStats>)
    ensures
        final(rows)@.to_multiset() == old(rows)@.to_multiset(),
        sorted_by_largest(final(rows)@),
        stable_by_largest(old(rows)@, final(rows)@),
{
    rows.sort_by(|a, b| largest_order(a, b));
}

/// The text of a cell of the memory table: total size, count, largest size, class name.
pub open spec fn cell(r: ClassAllocationStats, col: int) -> Seq<char> {
    if col == 0 {
        pretty_size(r.allocation_size_bytes as nat)
    } else if col == 1 {
        decimal(r.instance_count as nat)
    } else if col == 2 {
        pretty_size(r.largest_allocation_bytes as nat)
    } else {
        r.class_name@
    }
}

pub open spec fn column_label(col: int) -> Seq<char> {
    if col == 0 {
        "Total size"@
    } else if col == 1 {
        "Instances"@
    } else if col == 2 {
        "Largest"@
    } else {
        "Class name"@
    }
}

pub open spec fn max_nat(a: nat, b: nat) -> nat {
    if a >= b {
        a
    } else {
        b
    }
}

/// The width of a column: its label or its widest cell.
pub open spec fn column_width(rows: Seq<ClassAllocationStats>, col: int) -> nat
    decreases rows.len(),
{
    if rows.len() == 0 {
        column_label(col).len()
    } else {
        max_nat(column_width(rows.drop_last(), col), cell(rows.last(), col).len())
    }
}

pub open spec fn spaces(n: int) -> Seq<char> {
    Seq::new(if n > 0 { n as nat } else { 0 }, |i: int| ' ')
}

pub open spec fn dashes(n: nat) -> Seq<char> {
    Seq::new(n, |i: int| '-')
}

/// A cell padded to the width: numbers to the right, the class name to the left.
pub open spec fn padded_cell(text: Seq<char>, width: nat, col: int) -> Seq<char> {
    if col == 3 {
        seq![' '] + text + spaces(width - text.len()) + seq![' ']
    } else {
        seq![' '] + spaces(width - text.len()) + text + seq![' ']
    }
}

pub open spec fn table_line(cells: Seq<Seq<char>>) -> Seq<char> {
    seq!['|'] + cells[0] + seq!['|'] + cells[1] + seq!['|'] + cells[2] + seq!['|'] + cells[3]
        + seq!['|', '\n']
}

pub open spec fn rule_line(w: Seq<nat>) -> Seq<char> {
    seq!['+'] + dashes(w[0] + 2) + seq!['+'] + dashes(w[1] + 2) + seq!['+'] + dashes(w[2] + 2)
        + seq!['+'] + dashes(w[3] + 2) + seq!['+', '\n']
}

#[verifier::opaque]
pub open spec fn widths(rows: Seq<ClassAllocationStats>) -> Seq<nat> {
    seq![column_width(rows, 0), column_width(rows, 1), column_width(rows, 2), column_width(rows, 3)]
}

pub open spec fn row_line(r: ClassAllocationStats, w: Seq<nat>) -> Seq<char> {
    table_line(Seq::new(4, |c: int| padded_cell(cell(r, c), w[c], c)))
}

pub open spec fn row_lines(rows: Seq<ClassAllocationStats>, w: Seq<nat>) -> Seq<char>
    decreases rows.len(),
{
    if rows.len() == 0 {
        seq![]
    } else {
        row_lines(rows.drop_last(), w) + row_line(rows.last(), w)
    }
}

/// The table of the first `top` rows: a rule, the labels, a rule, one line per row, a rule.
pub open spec fn table_text(rows: Seq<ClassAllocationStats>, top: nat) -> Seq<char> {
    let shown = if rows.len() > top {
        rows.subrange(0, top as int)
    } else {
        rows
    };
    let w = widths(shown);
    rule_line(w) + table_line(Seq::new(4, |c: int| padded_cell(column_label(c), w[c], c)))
        + rule_line(w) + row_lines(shown, w) + rule_line(w)
}

proof fn lemma_widths(rows: Seq<ClassAllocationStats>)
    ensures
        widths(rows).len() == 4,
        forall|c: int| 0 <= c < 4 ==> #[trigger] widths(rows)[c] == column_width(rows, c),
{
    reveal(widths);
}

proof fn lemma_width_covers_label(rows: Seq<ClassAllocationStats>, col: int)
    ensures
        column_label(col).len() <= column_width(rows, col),
    decreases rows.len(),
{
    if rows.len() > 0 {
        lemma_width_covers_label(rows.drop_last(), col);
    }
}

/// Appends a rule for columns of widths `ws`.
fn push_rule(s: &mut String, ws: &Vec<usize>, w: Ghost<Seq<nat>>)
    requires
        ws@.len() == 4,
        w@.len() == 4,
        forall|c: int| 0 <= c < 4 ==> #[trigger] ws@[c] as nat == w@[c],
    ensures
        final(s)@ == old(s)@ + rule_line(w@),
{
    push_char(s, '+');
    push_repeated(s, '-', ws[0]);
    push_char(s, '-');
    push_char(s, '-');
    push_char(s, '+');
    push_repeated(s, '-', ws[1]);
    push_char(s, '-');
    push_char(s, '-');
    push_char(s, '+');
    push_repeated(s, '-', ws[2]);
    push_char(s, '-');
    push_char(s, '-');
    push_char(s, '+');
    push_repeated(s, '-', ws[3]);
    push_char(s, '-');
    push_char(s, '-');
    push_char(s, '+');
    push_char(s, '\n');
    assert(final(s)@ =~= old(s)@ + rule_line(w@));
}

/// Appends one table line per row.
fn push_rows(s: &mut String, rows: &[ClassAllocationStats], ws: &Vec<usize>, w: Ghost<Seq<nat>>)
    requires
        ws@.len() == 4,
        w@.len() == 4,
        forall|c: int| 0 <= c < 4 ==> #[trigger] ws@[c] as nat == w@[c],
    ensures
        final(s)@ == old(s)@ + row_lines(rows@, w@),
{
    let mut i: usize = 0;
    assert(rows@.subrange(0, 0) =~= Seq::<ClassAllocationStats>::empty());
    while i < rows.len()
        invariant
            i <= rows@.len(),
            ws@.len() == 4,
            w@.len() == 4,
            forall|c: int| 0 <= c < 4 ==> #[trigger] ws@[c] as nat == w@[c],
            s@ == old(s)@ + row_lines(rows@.subrange(0, i as int), w@),
        decreases rows@.len() - i,
    {
        push_row(s, &rows[i], ws, w);
        i = i + 1;
        assert(rows@.subrange(0, i as int).drop_last() =~= rows@.subrange(0, i - 1));
        assert(s@ =~= old(s)@ + row_lines(rows@.subrange(0, i as int), w@));
    }
    assert(rows@.subrange(0, rows@.len() as int) =~= rows@);
}

/// Appends the line of the four label cells.
fn push_header_line(s: &mut String, headers: &Vec<String>)
    requires
        headers@.len() == 4,
    ensures
        final(s)@ == old(s)@ + table_line(Seq::new(4, |c: int| headers@[c]@)),
{
    push_char(s, '|');
    s.append(headers[0].as_str());
    push_char(s, '|');
    s.append(headers[1].as_str());
    push_char(s, '|');
    s.append(headers[2].as_str());
    push_char(s, '|');
    s.append(headers[3].as_str());
    push_char(s, '|');
    push_char(s, '\n');
    assert(final(s)@ =~= old(s)@ + table_line(Seq::new(4, |c: int| headers@[c]@)));
}

/// Appends the table line of one row.
fn push_row(s: &mut String, r: &ClassAllocationStats, ws: &Vec<usize>, w: Ghost<Seq<nat>>)
    requires
        ws@.len() == 4,
        w@.len() == 4,
        forall|c: int| 0 <= c < 4 ==> #[trigger] ws@[c] as nat == w@[c],
    ensures
        final(s)@ == old(s)@ + row_line(*r, w@),
{
    let ghost cells = Seq::new(4, |c: int| padded_cell(cell(*r, c), w@[c], c));
    push_char(s, '|');
    push_padded_cell(s, cell_text(r, 0).as_str(), ws[0], 0);
    push_char(s, '|');
    push_padded_cell(s, cell_text(r, 1).as_str(), ws[1], 1);
    push_char(s, '|');
    push_padded_cell(s, cell_text(r, 2).as_str(), ws[2], 2);
    push_char(s, '|');
    push_padded_cell(s, cell_text(r, 3).as_str(), ws[3], 3);
    push_char(s, '|');
    push_char(s, '\n');
    assert(final(s)@ =~= old(s)@ + table_line(cells));
}

fn cell_text(r: &ClassAllocationStats, col: usize) -> (t: String)
    ensures
        t@ == cell(*r, col as int),
{
    if col == 0 {
        pretty_bytes_size(r.allocation_size_bytes)
    } else if col == 1 {
        let mut t = String::new();
        push_decimal(&mut t, r.instance_count);
        t
    } else if col == 2 {
        pretty_bytes_size(r.largest_allocation_bytes)
    } else {
        r.class_name.clone()
    }
}

fn label_text(col: usize) -> (t: &'static str)
    ensures
        t@ == column_label(col as int),
{
    if col == 0 {
        "Total size"
    } else if col == 1 {
        "Instances"
    } else if col == 2 {
        "Largest"
    } else {
        "Class name"
    }
}

/// Appends `text` padded to `width` as a cell of column `col`.
fn push_padded_cell(s: &mut String, text: &str, width: usize, col: usize)
    ensures
        final(s)@ == old(s)@ + padded_cell(text@, width as nat, col as int),
{
    let n = text.unicode_len();
    let pad: usize = if width > n {
        width - n
    } else {
        0
    };
    push_char(s, ' ');
    if col == 3 {
        s.append(text);
        push_repeated(s, ' ', pad);
    } else {
        push_repeated(s, ' ', pad);
        s.append(text);
    }
    push_char(s, ' ');
    assert(Seq::new(pad as nat, |i: int| ' ') =~= spaces(width - text@.len()));
    assert(final(s)@ =~= old(s)@ + padded_cell(text@, width as nat, col as int));
}

impl RenderedResult {
    /// Spaces that pad a column label to the widest item of the column.
    pub fn column_padding(column_name: &str, max_item_length: usize) -> (r: String)
        ensures
            r@ == spaces(max_item_length - column_name@.len()),
    {
        let column_label_len = column_name.unicode_len();
        let padding_size = max_item_length.saturating_sub(column_label_len);
        let mut r = String::new();
        push_repeated(&mut r, ' ', padding_size);
        assert(r@ =~= spaces(max_item_length - column_name@.len()));
        r
    }

    /// The padding that widens the label of column `col` to the widest of its cells.
    pub fn padding_for_header(rows: &[ClassAllocationStats], col: usize, header_label: &str) -> (r: String)
        requires
            header_label@ == column_label(col as int),
        ensures
            r@ == spaces(column_width(rows@, col as int) - header_label@.len()),
            header_label@.len() + r@.len() == column_width(rows@, col as int),
    {
        let mut w: usize = header_label.unicode_len();
        let mut i: usize = 0;
        assert(rows@.subrange(0, 0).len() == 0);
        while i < rows.len()
            invariant
                i <= rows@.len(),
                header_label@ == column_label(col as int),
                w == column_width(rows@.subrange(0, i as int), col as int),
            decreases rows@.len() - i,
        {
            let t = cell_text(&rows[i], col);
            let n = t.as_str().unicode_len();
            if n > w {
                w = n;
            }
            i = i + 1;
            assert(rows@.subrange(0, i as int).drop_last() =~= rows@.subrange(0, i - 1));
        }
        assert(rows@.subrange(0, rows@.len() as int) =~= rows@);
        let r = Self::column_padding(header_label, w);
        proof {
            lemma_width_covers_label(rows@, col as int);
        }
        r
    }

    /// Appends a rule whose segments are as wide as the four given header cells.
    pub fn render_table_vertical_line(
        analysis: &mut String,
        total_size_header: &str,
        instance_count_header: &str,
        largest_instance_header: &str,
        class_name_header: &str,
    )
        ensures
            final(analysis)@ == old(analysis)@ + seq!['+'] + dashes(total_size_header@.len())
                + seq!['+'] + dashes(instance_count_header@.len()) + seq!['+'] + dashes(
                largest_instance_header@.len(),
            ) + seq!['+'] + dashes(class_name_header@.len()) + seq!['+', '\n'],
    {
        push_char(analysis, '+');
        push_repeated(analysis, '-', total_size_header.unicode_len());
        push_char(analysis, '+');
        push_repeated(analysis, '-', instance_count_header.unicode_len());
        push_char(analysis, '+');
        push_repeated(analysis, '-', largest_instance_header.unicode_len());
        push_char(analysis, '+');
        push_repeated(analysis, '-', class_name_header.unicode_len());
        push_char(analysis, '+');
        push_char(analysis, '\n');
        assert(final(analysis)@ =~= old(analysis)@ + seq!['+'] + dashes(total_size_header@.len())
            + seq!['+'] + dashes(instance_count_header@.len()) + seq!['+'] + dashes(
            largest_instance_header@.len(),
        ) + seq!['+'] + dashes(class_name_header@.len()) + seq!['+', '\n']);
    }

    /// The label cells of the table of `shown`, and the widths of its columns.
    fn header_cells(shown: &[ClassAllocationStats], sh: Ghost<Seq<ClassAllocationStats>>) -> (r: (Vec<String>, Vec<usize>))
        requires
            shown@ == sh@,
        ensures
            r.0@.len() == 4,
            r.1@.len() == 4,
            forall|c: int| 0 <= c < 4 ==> #[trigger] r.1@[c] as nat == widths(sh@)[c],
            forall|c: int| 0 <= c < 4 ==> (#[trigger] r.0@[c])@ == padded_cell(column_label(c), widths(sh@)[c], c),
    {
        let ghost sh = sh@;
        let ghost w = widths(sh);
        proof {
            lemma_widths(sh);
        }
        let mut headers: Vec<String> = Vec::new();
        let mut ws: Vec<usize> = Vec::new();
        let mut col: usize = 0;
        while col < 4
            invariant
                col <= 4,
                shown@ == sh,
                w == widths(sh),
                headers@.len() == col,
                w.len() == 4,
                forall|c: int| 0 <= c < 4 ==> #[trigger] w[c] == column_width(sh, c),
                ws@.len() == col,
                forall|c: int| 0 <= c < col ==> #[trigger] ws@[c] as nat == w[c],
                forall|c: int| 0 <= c < col ==> (#[trigger] headers@[c])@ == padded_cell(column_label(c), w[c], c),
            decreases 4 - col,
        {
            let label = label_text(col);
            let padding = Self::padding_for_header(shown, col, label);
            let mut h = String::new();
            push_char(&mut h, ' ');
            if col == 3 {
                h.append(label);
                h.append(padding.as_str());
            } else {
                h.append(padding.as_str());
                h.append(label);
            }
            push_char(&mut h, ' ');
            assert(h@ =~= padded_cell(column_label(col as int), w[col as int], col as int));
            proof {
                lemma_width_covers_label(sh, col as int);
            }
            ws.push(h.as_str().unicode_len() - 2);
            headers.push(h);
            col = col + 1;
        }
        (headers, ws)
    }

    /// Appends the table of the first `top` rows.
    #[verifier::rlimit(60)]
    pub fn render_table(top: usize, analysis: &mut String, rows: &[ClassAllocationStats])
        ensures
            final(analysis)@ == old(analysis)@ + table_text(rows@, top as nat),
    {
        let shown_len = if rows.len() > top {
            top
        } else {
            rows.len()
        };
        let shown = slice_subrange(rows, 0, shown_len);
        let ghost sh = if rows@.len() > top {
            rows@.subrange(0, top as int)
        } else {
            rows@
        };
        assert(shown@ =~= sh);
        let ghost w = widths(sh);
        proof {
            lemma_widths(sh);
        }
        let (headers, ws) = Self::header_cells(shown, Ghost(sh));
        let ghost start = analysis@;
        push_rule(analysis, &ws, Ghost(w));
        push_header_line(analysis, &headers);
        assert(Seq::new(4, |c: int| headers@[c]@) =~= Seq::new(4, |c: int| padded_cell(column_label(c), w[c], c)));
        push_rule(analysis, &ws, Ghost(w));
        push_rows(analysis, shown, &ws, Ghost(w));
        push_rule(analysis, &ws, Ghost(w));
        assert(shown@ == sh);
        assert(analysis@ =~= old(analysis)@ + table_text(rows@, top as nat));
    }

    /// The memory-usage section: the total, then the table of the rows by total
    /// allocation and the table of the rows by largest allocation. The rows are left
    /// ordered by largest allocation.
    pub fn render_memory_usage(memory_usage: &mut Vec<ClassAllocationStats>, top: usize) -> (r: String)
        ensures
            final(memory_usage)@.to_multiset() == old(memory_usage)@.to_multiset(),
            sorted_by_largest(final(memory_usage)@),
            exists|by_allocation: Seq<ClassAllocationStats>|
                #[trigger] memory_text(old(memory_usage)@, by_allocation, final(memory_usage)@, top as nat)
                    == r@ && by_allocation.to_multiset() == old(memory_usage)@.to_multiset()
                    && sorted_by_allocation(by_allocation) && stable_by_allocation(
                    old(memory_usage)@,
                    by_allocation,
                ) && stable_by_largest(by_allocation, final(memory_usage)@),
    {
        let ghost rows0 = memory_usage@;
        let mut total: u64 = 0;
        let mut i: usize = 0;
        assert(rows0.subrange(0, 0) =~= Seq::<ClassAllocationStats>::empty());
        while i < memory_usage.len()
            invariant
                i <= memory_usage@.len(),
                memory_usage@ == rows0,
                total == capped(allocation_sum(rows0.subrange(0, i as int))),
            decreases memory_usage@.len() - i,
        {
            let a = memory_usage[i].allocation_size_bytes;
            total = total.saturating_add(a);
            i = i + 1;
            assert(rows0.subrange(0, i as int).drop_last() =~= rows0.subrange(0, i - 1));
        }
        assert(rows0.subrange(0, rows0.len() as int) =~= rows0);
        let mut analysis = String::new();
        analysis.append("Found a total of ");
        analysis.append(pretty_bytes_size(total).as_str());
        analysis.append(" of instances allocated on the heap.\n");
        analysis.append("\nTop ");
        push_decimal(&mut analysis, top as u64);
        analysis.append(" allocated classes:\n\n");
        sort_by_allocation(memory_usage);
        let ghost by_allocation = memory_usage@;
        Self::render_table(top, &mut analysis, memory_usage.as_slice());
        analysis.append("\nTop ");
        push_decimal(&mut analysis, top as u64);
        analysis.append(" largest instances:\n\n");
        sort_by_largest(memory_usage);
        Self::render_table(top, &mut analysis, memory_usage.as_slice());
        proof {
            reveal_strlit("Found a total of ");
            reveal_strlit(" of instances allocated on the heap.\n");
            reveal_strlit("\nTop ");
            reveal_strlit(" allocated classes:\n\n");
            reveal_strlit(" largest instances:\n\n");
            assert(analysis@ =~= memory_text(rows0, by_allocation, memory_usage@, top as nat));
        }
        analysis
    }

    /// The whole report: summary, thread information, memory usage, then the optional
    /// duplicated-strings line and list of strings.
    pub fn serialize(self, top: usize) -> (r: String)
        ensures
            exists|by_allocation: Seq<ClassAllocationStats>, by_largest: Seq<ClassAllocationStats>|
                {
                    &&& by_allocation.to_multiset() == self.memory_usage@.to_multiset()
                    &&& sorted_by_allocation(by_allocation)
                    &&& by_largest.to_multiset() == self.memory_usage@.to_multiset()
                    &&& sorted_by_largest(by_largest)
                    &&& stable_by_allocation(self.memory_usage@, by_allocation)
                    &&& stable_by_largest(by_allocation, by_largest)
                    &&& r@ == #[trigger] report_text(
                        self.summary@,
                        self.thread_info@,
                        memory_text(self.memory_usage@, by_allocation, by_largest, top as nat),
                        self.duplicated_strings,
                        self.captured_strings,
                    )
                },
    {
        let RenderedResult {
            summary,
            thread_info,
            mut memory_usage,
            duplicated_strings,
            captured_strings,
        } = self;
        let ghost rows0 = memory_usage@;
        let memory = Self::render_memory_usage(&mut memory_usage, top);
        let ghost by_allocation = choose|by_allocation: Seq<ClassAllocationStats>|
            #[trigger] memory_text(rows0, by_allocation, memory_usage@, top as nat) == memory@
                && by_allocation.to_multiset() == rows0.to_multiset() && sorted_by_allocation(by_allocation)
                && stable_by_allocation(rows0, by_allocation) && stable_by_largest(by_allocation, memory_usage@);
        let mut result = String::new();
        result.append(summary.as_str());
        push_char(&mut result, '\n');
        result.append(thread_info.as_str());
        push_char(&mut result, '\n');
        result.append(memory.as_str());
        match &duplicated_strings {
            Some(d) => {
                result.append(d.as_str());
                push_char(&mut result, '\n');
            },
            None => {},
        }
        match &captured_strings {
            Some(c) => {
                result.append(c.as_str());
            },
            None => {},
        }
        assert(result@ =~= report_text(
            summary@,
            thread_info@,
            memory_text(rows0, by_allocation, memory_usage@, top as nat),
            duplicated_strings,
            captured_strings,
        ));
        result
    }
}

/// A copy of a row.
pub fn copy_stats(s: &ClassAllocationStats) -> (r: ClassAllocationStats)
    ensures
        same_stats(r, *s),
{
    ClassAllocationStats::new(
        s.class_name.clone(),
        s.instance_count,
        s.largest_allocation_bytes,
        s.allocation_size_bytes,
    )
}

pub open spec fn same_stats(a: ClassAllocationStats, b: ClassAllocationStats) -> bool {
    a.class_name@ == b.class_name@ && a.instance_count == b.instance_count
        && a.largest_allocation_bytes == b.largest_allocation_bytes
        && a.allocation_size_bytes == b.allocation_size_bytes
}

/// Copies of the first `top` rows.
fn first_rows(rows: &Vec<ClassAllocationStats>, top: usize) -> (r: Vec<ClassAllocationStats>)
    ensures
        r@.len() == if rows@.len() > top { top as int } else { rows@.len() as int },
        forall|i: int| 0 <= i < r@.len() ==> same_stats(#[trigger] r@[i], rows@[i]),
{
    let n = if rows.len() > top {
        top
    } else {
        rows.len()
    };
    let mut r: Vec<ClassAllocationStats> = Vec::new();
    let mut i: usize = 0;
    while i < n
        invariant
            i <= n <= rows@.len(),
            r@.len() == i,
            forall|j: int| 0 <= j < i ==> same_stats(#[trigger] r@[j], rows@[j]),
        decreases n - i,
    {
        r.push(copy_stats(&rows[i]));
        i = i + 1;
    }
    r
}

/// The two rankings that the JSON export holds.
pub struct JsonResult {
    pub top_allocated_classes: Vec<ClassAllocationStats>,
    pub top_largest_instances: Vec<ClassAllocationStats>,
}

impl JsonResult {
    /// The first `top` rows by total allocation and the first `top` rows by largest
    /// allocation. The rows are left ordered by largest allocation.
    pub fn new(memory_usage: &mut Vec<ClassAllocationStats>, top: usize) -> (r: JsonResult)
        ensures
            final(memory_usage)@.to_multiset() == old(memory_usage)@.to_multiset(),
            sorted_by_largest(final(memory_usage)@),
            sorted_by_allocation(r.top_allocated_classes@),
            sorted_by_largest(r.top_largest_instances@),
            r.top_allocated_classes@.len() == min_len(old(memory_usage)@.len(), top as nat),
            r.top_largest_instances@.len() == min_len(old(memory_usage)@.len(), top as nat),
            forall|i: int|
                0 <= i < r.top_largest_instances@.len() ==> same_stats(
                    #[trigger] r.top_largest_instances@[i],
                    final(memory_usage)@[i],
                ),
            exists|by_allocation: Seq<ClassAllocationStats>|
                by_allocation.to_multiset() == old(memory_usage)@.to_multiset()
                    && sorted_by_allocation(by_allocation) && stable_by_allocation(
                    old(memory_usage)@,
                    by_allocation,
                ) && stable_by_largest(by_allocation, final(memory_usage)@) && forall|i: int|
                    0 <= i < r.top_allocated_classes@.len() ==> same_stats(
                        #[trigger] r.top_allocated_classes@[i],
                        by_allocation[i],
                    ),
    {
        sort_by_allocation(memory_usage);
        let ghost by_allocation = memory_usage@;
        let top_allocated_classes = first_rows(memory_usage, top);
        sort_by_largest(memory_usage);
        let top_largest_instances = first_rows(memory_usage, top);
        assert(by_allocation.to_multiset() == old(memory_usage)@.to_multiset());
        proof {
            vstd::seq_lib::to_multiset_len(by_allocation);
            vstd::seq_lib::to_multiset_len(old(memory_usage)@);
            vstd::seq_lib::to_multiset_len(memory_usage@);
        }
        JsonResult { top_allocated_classes, top_largest_instances }
    }
}

} // verus!
