//! The report of a run as text: a header row and one row per record, in
//! comma-separated columns.

use crate::engine::MonitorRun;
use crate::number::{
    decimal3_value, digit_char, fixed3_text, int_text, is_digit, lemma_int_text_reads_back,
    lemma_nat_text_reads_back, lemma_thousandths_nearest, lemma_thousandths_text_reads_back,
    magnitude, nat_text, push_fixed3, push_int, push_rounded, push_thousandths, signed_value,
    thousandths, thousandths_text,
};
use crate::record::{Ratio, Record};
use crate::text::{lemma_lines_append, lemma_one_line, lines};
use vstd::prelude::*;
use vstd::string::StringExecFns;

verus! {

/// The number of columns of a report.
pub const COLUMNS: usize = 22;

/// How many clock ticks make a second; never zero.
#[derive(Clone, Copy, Debug, PartialEq, Eq)]
pub struct TickRate {
    per_second: u64,
}

impl View for TickRate {
    type V = int;

    closed spec fn view(&self) -> int {
        self.per_second as int
    }
}

impl TickRate {
    #[verifier::type_invariant]
    spec fn positive(self) -> bool {
        self.per_second > 0
    }

    /// The rate of `ticks_per_second`, which has to be positive.
    pub fn new(ticks_per_second: i64) -> (rate: Option<TickRate>)
        ensures
            match rate {
                Some(r) => ticks_per_second > 0 && r@ == ticks_per_second,
                None => ticks_per_second <= 0,
            },
    {
        if ticks_per_second > 0 {
            Some(TickRate { per_second: ticks_per_second as u64 })
        } else {
            None
        }
    }

    /// The number of clock ticks in a second.
    pub fn per_second(&self) -> (n: u64)
        ensures
            n == self@,
            n > 0,
    {
        proof {
            use_type_invariant(self);
        }
        self.per_second
    }
}

/// The name of column `i`, counted from zero in the order of the report.
pub open spec fn column(i: int) -> Seq<char> {
    if i == 0 {
        "time"@
    } else if i == 1 {
        "pss"@
    } else if i == 2 {
        "vmRss"@
    } else if i == 3 {
        "vmAnon"@
    } else if i == 4 {
        "vmFile"@
    } else if i == 5 {
        "vmShmem"@
    } else if i == 6 {
        "vmSwap"@
    } else if i == 7 {
        "voluntaryCtxtSwitches"@
    } else if i == 8 {
        "nonvoluntaryCtxtSwitches"@
    } else if i == 9 {
        "minflt"@
    } else if i == 10 {
        "majflt"@
    } else if i == 11 {
        "utime"@
    } else if i == 12 {
        "stime"@
    } else if i == 13 {
        "totalcputime"@
    } else if i == 14 {
        "gutime"@
    } else if i == 15 {
        "gstime"@
    } else if i == 16 {
        "gtotalcputime"@
    } else if i == 17 {
        "cpuOccupancyRate"@
    } else if i == 18 {
        "priority"@
    } else if i == 19 {
        "nice"@
    } else if i == 20 {
        "numThreads"@
    } else {
        "startTime"@
    }
}

/// The names of the columns, in the order of the report.
pub open spec fn columns() -> Seq<Seq<char>> {
    Seq::new(COLUMNS as nat, |i: int| column(i))
}

/// The cell of column `i` in the row of a record. Counts and sizes are
/// whole numbers; CPU times are seconds and the occupancy is a ratio, each
/// rounded to three decimal places as it is written.
pub open spec fn cell(r: Record, rate: int, i: int) -> Seq<char> {
    if i == 0 {
        int_text(r.timestamp as int)
    } else if i == 1 {
        int_text(r.pss as int)
    } else if i == 2 {
        int_text(r.vm_rss as int)
    } else if i == 3 {
        int_text(r.vm_anon as int)
    } else if i == 4 {
        int_text(r.vm_file as int)
    } else if i == 5 {
        int_text(r.vm_shmem as int)
    } else if i == 6 {
        int_text(r.vm_swap as int)
    } else if i == 7 {
        int_text(r.voluntary_ctxt_switches as int)
    } else if i == 8 {
        int_text(r.nonvoluntary_ctxt_switches as int)
    } else if i == 9 {
        int_text(r.minflt as int)
    } else if i == 10 {
        int_text(r.majflt as int)
    } else if i == 11 {
        fixed3_text(r.utime as int, rate)
    } else if i == 12 {
        fixed3_text(r.stime as int, rate)
    } else if i == 13 {
        fixed3_text(r.totalcputime as int, rate)
    } else if i == 14 {
        fixed3_text(r.global_utime as int, rate)
    } else if i == 15 {
        fixed3_text(r.global_stime as int, rate)
    } else if i == 16 {
        fixed3_text(r.global_total_cpu_time as int, rate)
    } else if i == 17 {
        thousandths_text(r.cpu_occupancy.thousandths())
    } else if i == 18 {
        int_text(r.priority as int)
    } else if i == 19 {
        int_text(r.nice as int)
    } else if i == 20 {
        int_text(r.num_threads as int)
    } else {
        int_text(r.start_time as int)
    }
}

/// The cells of the row of a record, in the order of the columns.
pub open spec fn cells(r: Record, rate: int) -> Seq<Seq<char>> {
    Seq::new(COLUMNS as nat, |i: int| cell(r, rate, i))
}

/// The pieces `parts` in one text, with `sep` between every two of them.
pub open spec fn join(parts: Seq<Seq<char>>, sep: char) -> Seq<char>
    decreases parts.len(),
{
    if parts.len() == 0 {
        Seq::empty()
    } else if parts.len() == 1 {
        parts[0]
    } else {
        join(parts.drop_last(), sep).push(sep) + parts.last()
    }
}

/// The pieces of `s` between every two occurrences of `sep`, and before the
/// first and after the last one. A text without `sep` is one piece.
pub open spec fn split(s: Seq<char>, sep: char) -> Seq<Seq<char>>
    decreases s.len(),
{
    if s.len() == 0 {
        seq![Seq::empty()]
    } else if s.last() == sep {
        split(s.drop_last(), sep).push(Seq::empty())
    } else {
        let before = split(s.drop_last(), sep);
        before.drop_last().push(before.last().push(s.last()))
    }
}

/// `s` does not hold the character `c`.
pub open spec fn free_of(s: Seq<char>, c: char) -> bool {
    forall|i: int| 0 <= i < s.len() ==> s[i] != c
}

/// `s` holds neither a comma nor a line feed nor a carriage return.
pub open spec fn is_cell(s: Seq<char>) -> bool {
    free_of(s, ',') && free_of(s, '\n') && free_of(s, '\r')
}

/// The header row, without its end.
pub open spec fn header_text() -> Seq<char> {
    join(columns(), ',')
}

/// The row of a record, without its end.
pub open spec fn row_text(r: Record, rate: int) -> Seq<char> {
    join(cells(r, rate), ',')
}

/// What ends every row of a report: a carriage return and a line feed.
pub open spec fn row_end() -> Seq<char> {
    seq!['\r', '\n']
}

/// The report of the records: the header row, then the row of every record
/// in order, every row with its end.
pub open spec fn report_text(records: Seq<Record>, rate: int) -> Seq<char>
    decreases records.len(),
{
    if records.len() == 0 {
        header_text() + row_end()
    } else {
        report_text(records.drop_last(), rate) + row_text(records.last(), rate) + row_end()
    }
}

/// `c` may stand in a number: a digit, a minus sign or a decimal point.
pub open spec fn is_number_char(c: char) -> bool {
    is_digit(c) || c == '-' || c == '.'
}

/// Every character of `s` may stand in a number.
pub open spec fn is_number_text(s: Seq<char>) -> bool {
    forall|i: int| 0 <= i < s.len() ==> is_number_char(#[trigger] s[i])
}

/// The text written for an integer holds digits and a sign only.
pub proof fn lemma_int_text_is_number(n: int)
    ensures
        is_number_text(int_text(n)),
{
    if n < 0 {
        lemma_nat_text_reads_back((-n) as nat);
        let t = int_text(n);
        assert forall|i: int| 0 <= i < t.len() implies is_number_char(#[trigger] t[i]) by {
            if i > 0 {
                assert(t[i] == nat_text((-n) as nat)[i - 1]);
            }
        }
    } else {
        lemma_nat_text_reads_back(n as nat);
    }
}

/// The text written for a number of thousandths holds digits, a sign and a
/// decimal point only.
pub proof fn lemma_thousandths_text_is_number(m: int)
    ensures
        is_number_text(thousandths_text(m)),
{
    let a: nat = if m < 0 {
        (-m) as nat
    } else {
        m as nat
    };
    let sign: Seq<char> = if m < 0 {
        seq!['-']
    } else {
        Seq::empty()
    };
    let whole = nat_text(a / 1000);
    let places = seq![
        '.',
        digit_char((a / 100 % 10) as int),
        digit_char((a / 10 % 10) as int),
        digit_char((a % 10) as int),
    ];
    lemma_nat_text_reads_back(a / 1000);
    let t = thousandths_text(m);
    assert(t == sign + whole + places);
    assert forall|i: int| 0 <= i < t.len() implies is_number_char(#[trigger] t[i]) by {
        if i < sign.len() {
            assert(t[i] == sign[i]);
        } else if i < sign.len() + whole.len() {
            assert(t[i] == whole[i - sign.len()]);
        } else {
            assert(t[i] == places[i - sign.len() - whole.len()]);
        }
    }
}

/// A text that holds what may stand in a number holds no separator.
pub proof fn lemma_number_is_cell(s: Seq<char>)
    requires
        is_number_text(s),
    ensures
        is_cell(s),
{
    assert forall|i: int| 0 <= i < s.len() implies s[i] != ',' && s[i] != '\n' && s[i] != '\r' by {
        assert(is_number_char(s[i]));
    }
}

/// The text written for an integer holds no separator.
pub proof fn lemma_int_cell(n: int)
    ensures
        is_cell(int_text(n)),
{
    lemma_int_text_is_number(n);
    lemma_number_is_cell(int_text(n));
}

/// The text written for a number of thousandths holds no separator.
pub proof fn lemma_thousandths_cell(m: int)
    ensures
        is_cell(thousandths_text(m)),
{
    lemma_thousandths_text_is_number(m);
    lemma_number_is_cell(thousandths_text(m));
}

/// No cell of a row holds a separator.
pub proof fn lemma_cell_is_cell(r: Record, rate: int, i: int)
    ensures
        is_cell(cell(r, rate, i)),
{
    if i == 0 {
        lemma_int_cell(r.timestamp as int);
    } else if i == 1 {
        lemma_int_cell(r.pss as int);
    } else if i == 2 {
        lemma_int_cell(r.vm_rss as int);
    } else if i == 3 {
        lemma_int_cell(r.vm_anon as int);
    } else if i == 4 {
        lemma_int_cell(r.vm_file as int);
    } else if i == 5 {
        lemma_int_cell(r.vm_shmem as int);
    } else if i == 6 {
        lemma_int_cell(r.vm_swap as int);
    } else if i == 7 {
        lemma_int_cell(r.voluntary_ctxt_switches as int);
    } else if i == 8 {
        lemma_int_cell(r.nonvoluntary_ctxt_switches as int);
    } else if i == 9 {
        lemma_int_cell(r.minflt as int);
    } else if i == 10 {
        lemma_int_cell(r.majflt as int);
    } else if i == 11 {
        lemma_thousandths_cell(thousandths(r.utime as int, rate));
    } else if i == 12 {
        lemma_thousandths_cell(thousandths(r.stime as int, rate));
    } else if i == 13 {
        lemma_thousandths_cell(thousandths(r.totalcputime as int, rate));
    } else if i == 14 {
        lemma_thousandths_cell(thousandths(r.global_utime as int, rate));
    } else if i == 15 {
        lemma_thousandths_cell(thousandths(r.global_stime as int, rate));
    } else if i == 16 {
        lemma_thousandths_cell(thousandths(r.global_total_cpu_time as int, rate));
    } else if i == 17 {
        lemma_thousandths_cell(r.cpu_occupancy.thousandths());
    } else if i == 18 {
        lemma_int_cell(r.priority as int);
    } else if i == 19 {
        lemma_int_cell(r.nice as int);
    } else if i == 20 {
        lemma_int_cell(r.num_threads as int);
    } else {
        lemma_int_cell(r.start_time as int);
    }
}

/// A row has a cell for every column, and no cell holds a separator.
pub proof fn lemma_cells_shape(r: Record, rate: int)
    ensures
        cells(r, rate).len() == COLUMNS,
        forall|i: int| 0 <= i < COLUMNS ==> is_cell(#[trigger] cells(r, rate)[i]),
{
    assert forall|i: int| 0 <= i < COLUMNS implies is_cell(#[trigger] cells(r, rate)[i]) by {
        lemma_cell_is_cell(r, rate, i);
    }
}

/// A text of letters holds no separator.
proof fn lemma_name_is_cell(s: Seq<char>)
    requires
        forall|i: int|
            0 <= i < s.len() ==> 0x41 <= (#[trigger] s[i]) as u32 <= 0x5a || 0x61 <= s[i] as u32
                <= 0x7a,
    ensures
        is_cell(s),
{
}

/// No name of a column holds a separator.
pub proof fn lemma_column_is_cell(i: int)
    ensures
        is_cell(column(i)),
{
    if i == 0 {
        reveal_strlit("time");
        lemma_name_is_cell("time"@);
    } else if i == 1 {
        reveal_strlit("pss");
        lemma_name_is_cell("pss"@);
    } else if i == 2 {
        reveal_strlit("vmRss");
        lemma_name_is_cell("vmRss"@);
    } else if i == 3 {
        reveal_strlit("vmAnon");
        lemma_name_is_cell("vmAnon"@);
    } else if i == 4 {
        reveal_strlit("vmFile");
        lemma_name_is_cell("vmFile"@);
    } else if i == 5 {
        reveal_strlit("vmShmem");
        lemma_name_is_cell("vmShmem"@);
    } else if i == 6 {
        reveal_strlit("vmSwap");
        lemma_name_is_cell("vmSwap"@);
    } else if i == 7 {
        reveal_strlit("voluntaryCtxtSwitches");
        lemma_name_is_cell("voluntaryCtxtSwitches"@);
    } else if i == 8 {
        reveal_strlit("nonvoluntaryCtxtSwitches");
        lemma_name_is_cell("nonvoluntaryCtxtSwitches"@);
    } else if i == 9 {
        reveal_strlit("minflt");
        lemma_name_is_cell("minflt"@);
    } else if i == 10 {
        reveal_strlit("majflt");
        lemma_name_is_cell("majflt"@);
    } else if i == 11 {
        reveal_strlit("utime");
        lemma_name_is_cell("utime"@);
    } else if i == 12 {
        reveal_strlit("stime");
        lemma_name_is_cell("stime"@);
    } else if i == 13 {
        reveal_strlit("totalcputime");
        lemma_name_is_cell("totalcputime"@);
    } else if i == 14 {
        reveal_strlit("gutime");
        lemma_name_is_cell("gutime"@);
    } else if i == 15 {
        reveal_strlit("gstime");
        lemma_name_is_cell("gstime"@);
    } else if i == 16 {
        reveal_strlit("gtotalcputime");
        lemma_name_is_cell("gtotalcputime"@);
    } else if i == 17 {
        reveal_strlit("cpuOccupancyRate");
        lemma_name_is_cell("cpuOccupancyRate"@);
    } else if i == 18 {
        reveal_strlit("priority");
        lemma_name_is_cell("priority"@);
    } else if i == 19 {
        reveal_strlit("nice");
        lemma_name_is_cell("nice"@);
    } else if i == 20 {
        reveal_strlit("numThreads");
        lemma_name_is_cell("numThreads"@);
    } else {
        reveal_strlit("startTime");
        lemma_name_is_cell("startTime"@);
    }
}

/// The header has a name for every column, and no name holds a separator.
pub proof fn lemma_columns_shape()
    ensures
        columns().len() == COLUMNS,
        forall|i: int| 0 <= i < COLUMNS ==> is_cell(#[trigger] columns()[i]),
{
    assert forall|i: int| 0 <= i < COLUMNS implies is_cell(#[trigger] columns()[i]) by {
        lemma_column_is_cell(i);
    }
}

/// A text always splits into at least one piece.
pub proof fn lemma_split_nonempty(s: Seq<char>, sep: char)
    ensures
        split(s, sep).len() >= 1,
    decreases s.len(),
{
    if s.len() > 0 {
        lemma_split_nonempty(s.drop_last(), sep);
    }
}

/// Text without a separator, put after a text, only lengthens the last
/// piece of the text.
pub proof fn lemma_split_append(a: Seq<char>, b: Seq<char>, sep: char)
    requires
        free_of(b, sep),
    ensures
        split(a, sep).len() >= 1,
        split(a + b, sep) == split(a, sep).drop_last().push(split(a, sep).last() + b),
    decreases b.len(),
{
    lemma_split_nonempty(a, sep);
    let pieces = split(a, sep);
    if b.len() == 0 {
        assert(a + b =~= a);
        assert(pieces.last() + b =~= pieces.last());
        assert(pieces.drop_last().push(pieces.last()) =~= pieces);
    } else {
        let init = b.drop_last();
        assert(free_of(init, sep)) by {
            assert forall|i: int| 0 <= i < init.len() implies init[i] != sep by {
                assert(init[i] == b[i]);
            }
        }
        lemma_split_append(a, init, sep);
        assert((a + b).drop_last() =~= a + init);
        assert((a + b).last() == b.last());
        assert(b.last() != sep);
        let before = split(a + init, sep);
        assert(before.drop_last() =~= pieces.drop_last());
        assert(before.last().push(b.last()) =~= pieces.last() + b);
    }
}

/// Pieces without a separator, joined and split again, are the pieces.
pub proof fn lemma_split_join(parts: Seq<Seq<char>>, sep: char)
    requires
        parts.len() >= 1,
        forall|i: int| 0 <= i < parts.len() ==> free_of(#[trigger] parts[i], sep),
    ensures
        split(join(parts, sep), sep) == parts,
    decreases parts.len(),
{
    if parts.len() == 1 {
        let empty = Seq::<char>::empty();
        lemma_split_append(empty, parts[0], sep);
        assert(empty + parts[0] =~= parts[0]);
        assert(split(empty, sep) =~= seq![empty]);
        assert(seq![empty].drop_last().push(seq![empty].last() + parts[0]) =~= parts);
    } else {
        let init = parts.drop_last();
        assert forall|i: int| 0 <= i < init.len() implies free_of(#[trigger] init[i], sep) by {
            assert(init[i] == parts[i]);
        }
        lemma_split_join(init, sep);
        let head = join(init, sep).push(sep);
        assert(head.drop_last() =~= join(init, sep));
        assert(split(head, sep) == init.push(Seq::<char>::empty()));
        lemma_split_append(head, parts.last(), sep);
        assert(init.push(Seq::<char>::empty()).drop_last() =~= init);
        assert(Seq::<char>::empty() + parts.last() =~= parts.last());
        assert(init.push(parts.last()) =~= parts);
    }
}

/// Pieces that do not hold a character, joined by another one, do not hold
/// it either.
pub proof fn lemma_join_free(parts: Seq<Seq<char>>, sep: char, c: char)
    requires
        c != sep,
        forall|i: int| 0 <= i < parts.len() ==> free_of(#[trigger] parts[i], c),
    ensures
        free_of(join(parts, sep), c),
    decreases parts.len(),
{
    if parts.len() >= 2 {
        let init = parts.drop_last();
        assert forall|i: int| 0 <= i < init.len() implies free_of(#[trigger] init[i], c) by {
            assert(init[i] == parts[i]);
        }
        lemma_join_free(init, sep, c);
        let head = join(init, sep).push(sep);
        let s = join(parts, sep);
        assert(free_of(parts.last(), c));
        assert forall|i: int| 0 <= i < s.len() implies s[i] != c by {
            if i < head.len() - 1 {
                assert(s[i] == join(init, sep)[i]);
            } else if i == head.len() - 1 {
                assert(s[i] == sep);
            } else {
                assert(s[i] == parts.last()[i - head.len()]);
            }
        }
    } else if parts.len() == 1 {
        assert(free_of(parts[0], c));
    }
}

/// The header row splits at its commas into the names of the columns.
pub proof fn lemma_header_fields()
    ensures
        split(header_text(), ',') == columns(),
        split(header_text(), ',').len() == COLUMNS,
        free_of(header_text(), '\n'),
{
    lemma_columns_shape();
    lemma_split_join(columns(), ',');
    lemma_join_free(columns(), ',', '\n');
}

/// The row of a record splits at its commas into the cells of the record,
/// one for every column.
pub proof fn lemma_row_fields(r: Record, rate: int)
    ensures
        split(row_text(r, rate), ',') == cells(r, rate),
        split(row_text(r, rate), ',').len() == COLUMNS,
        free_of(row_text(r, rate), '\n'),
{
    lemma_cells_shape(r, rate);
    lemma_split_join(cells(r, rate), ',');
    lemma_join_free(cells(r, rate), ',', '\n');
}

/// The whole numbers of a row read back from its text: split at its
/// commas, the row gives for every column of a count, a size or an attribute
/// a cell that reads as the number the record holds. With the law on the
/// decimal numbers of a row, every cell reads back as what the column of the
/// same place in the header names.
pub proof fn lemma_row_reads_back(r: Record, rate: int)
    ensures
        ({
            let cell = split(row_text(r, rate), ',');
            &&& signed_value(cell[0]) == Some(r.timestamp as int)
            &&& signed_value(cell[1]) == Some(r.pss as int)
            &&& signed_value(cell[2]) == Some(r.vm_rss as int)
            &&& signed_value(cell[3]) == Some(r.vm_anon as int)
            &&& signed_value(cell[4]) == Some(r.vm_file as int)
            &&& signed_value(cell[5]) == Some(r.vm_shmem as int)
            &&& signed_value(cell[6]) == Some(r.vm_swap as int)
            &&& signed_value(cell[7]) == Some(r.voluntary_ctxt_switches as int)
            &&& signed_value(cell[8]) == Some(r.nonvoluntary_ctxt_switches as int)
            &&& signed_value(cell[9]) == Some(r.minflt as int)
            &&& signed_value(cell[10]) == Some(r.majflt as int)
            &&& signed_value(cell[18]) == Some(r.priority as int)
            &&& signed_value(cell[19]) == Some(r.nice as int)
            &&& signed_value(cell[20]) == Some(r.num_threads as int)
            &&& signed_value(cell[21]) == Some(r.start_time as int)
        }),
{
    lemma_row_fields(r, rate);
    lemma_int_text_reads_back(r.timestamp as int);
    lemma_int_text_reads_back(r.pss as int);
    lemma_int_text_reads_back(r.vm_rss as int);
    lemma_int_text_reads_back(r.vm_anon as int);
    lemma_int_text_reads_back(r.vm_file as int);
    lemma_int_text_reads_back(r.vm_shmem as int);
    lemma_int_text_reads_back(r.vm_swap as int);
    lemma_int_text_reads_back(r.voluntary_ctxt_switches as int);
    lemma_int_text_reads_back(r.nonvoluntary_ctxt_switches as int);
    lemma_int_text_reads_back(r.minflt as int);
    lemma_int_text_reads_back(r.majflt as int);
    lemma_int_text_reads_back(r.priority as int);
    lemma_int_text_reads_back(r.nice as int);
    lemma_int_text_reads_back(r.num_threads as int);
    lemma_int_text_reads_back(r.start_time as int);
}

/// The cell `s` reads as a number of thousandths that is within half a
/// thousandth of the quotient `num / den`.
pub open spec fn reads_near(s: Seq<char>, num: int, den: int) -> bool
    recommends
        den > 0,
{
    decimal3_value(s) matches Some(v) && -den <= 2 * (1000 * num - v * den) <= den
}

/// The text written for a quotient reads back to within half a thousandth
/// of the quotient.
pub proof fn lemma_fixed3_reads_near(num: int, den: int)
    requires
        den > 0,
    ensures
        reads_near(fixed3_text(num, den), num, den),
{
    lemma_thousandths_text_reads_back(thousandths(num, den));
    lemma_thousandths_nearest(num, den);
}

/// The decimal numbers of a row read back from its text: split at its
/// commas, the row gives for every column of a CPU time a cell that reads
/// to within half a thousandth of a second of the time the record holds, in
/// seconds, and for the occupancy a cell that reads to within half a
/// thousandth of the quotient the record holds, or as zero where the host
/// used no time.
pub proof fn lemma_row_decimals_read_back(r: Record, rate: int)
    requires
        rate > 0,
    ensures
        ({
            let cell = split(row_text(r, rate), ',');
            let share = r.cpu_occupancy;
            &&& reads_near(cell[11], r.utime as int, rate)
            &&& reads_near(cell[12], r.stime as int, rate)
            &&& reads_near(cell[13], r.totalcputime as int, rate)
            &&& reads_near(cell[14], r.global_utime as int, rate)
            &&& reads_near(cell[15], r.global_stime as int, rate)
            &&& reads_near(cell[16], r.global_total_cpu_time as int, rate)
            &&& share.den > 0 ==> reads_near(cell[17], share.num as int, share.den as int)
            &&& share.den < 0 ==> reads_near(cell[17], -share.num, -share.den)
            &&& share.den == 0 ==> decimal3_value(cell[17]) == Some(0int)
        }),
{
    lemma_row_fields(r, rate);
    lemma_fixed3_reads_near(r.utime as int, rate);
    lemma_fixed3_reads_near(r.stime as int, rate);
    lemma_fixed3_reads_near(r.totalcputime as int, rate);
    lemma_fixed3_reads_near(r.global_utime as int, rate);
    lemma_fixed3_reads_near(r.global_stime as int, rate);
    lemma_fixed3_reads_near(r.global_total_cpu_time as int, rate);
    let share = r.cpu_occupancy;
    if share.den > 0 {
        lemma_fixed3_reads_near(share.num as int, share.den as int);
    } else if share.den < 0 {
        lemma_fixed3_reads_near(-share.num, -share.den);
    } else {
        lemma_thousandths_text_reads_back(0);
    }
}

/// The lines that a report is made of: the header row and the row of every
/// record in order.
pub open spec fn report_lines(records: Seq<Record>, rate: int) -> Seq<Seq<char>>
    decreases records.len(),
{
    if records.len() == 0 {
        seq![header_text()]
    } else {
        report_lines(records.drop_last(), rate).push(row_text(records.last(), rate))
    }
}

/// A report has a line more than it has records: the header row comes
/// first, and the row of record `i` is line `i + 1`.
pub proof fn lemma_report_lines_shape(records: Seq<Record>, rate: int)
    ensures
        report_lines(records, rate).len() == records.len() + 1,
        report_lines(records, rate)[0] == header_text(),
        forall|i: int|
            0 <= i < records.len() ==> #[trigger] report_lines(records, rate)[i + 1] == row_text(
                records[i],
                rate,
            ),
    decreases records.len(),
{
    if records.len() > 0 {
        let init = records.drop_last();
        lemma_report_lines_shape(init, rate);
        let all = report_lines(records, rate);
        assert forall|i: int| 0 <= i < records.len() implies #[trigger] all[i + 1] == row_text(
            records[i],
            rate,
        ) by {
            if i < init.len() {
                assert(all[i + 1] == report_lines(init, rate)[i + 1]);
                assert(init[i] == records[i]);
            }
        }
    }
}

/// A row without a line feed, followed by the end of a row, is one line:
/// the row.
pub proof fn lemma_row_line(row: Seq<char>)
    requires
        free_of(row, '\n'),
    ensures
        lines(row + row_end()) == seq![row],
{
    lemma_one_line(row);
}

/// The lines of a text that ends with a line feed, followed by a row and
/// the end of a row, are the lines of the text and then the row.
proof fn lemma_lines_with_row(head: Seq<char>, row: Seq<char>)
    requires
        head.len() > 0,
        head.last() == '\n',
        free_of(row, '\n'),
    ensures
        lines(head + row + row_end()) == lines(head).push(row),
{
    lemma_row_line(row);
    lemma_lines_append(head, row + row_end());
    assert(head + row + row_end() =~= head + (row + row_end()));
    assert(lines(head) + seq![row] =~= lines(head).push(row));
}

/// A report ends with a line feed.
pub proof fn lemma_report_ends(records: Seq<Record>, rate: int)
    ensures
        report_text(records, rate).len() > 0,
        report_text(records, rate).last() == '\n',
{
}

/// A report of `n` records reads back as `n + 1` lines: the header row and
/// the row of every record in order.
pub proof fn lemma_report_lines(records: Seq<Record>, rate: int)
    ensures
        lines(report_text(records, rate)) == report_lines(records, rate),
        lines(report_text(records, rate)).len() == records.len() + 1,
    decreases records.len(),
{
    lemma_report_lines_shape(records, rate);
    if records.len() == 0 {
        lemma_header_fields();
        lemma_row_line(header_text());
    } else {
        let init = records.drop_last();
        lemma_report_lines(init, rate);
        lemma_report_ends(init, rate);
        lemma_row_fields(records.last(), rate);
        lemma_lines_with_row(report_text(init, rate), row_text(records.last(), rate));
    }
}

/// Appends the name of column `i` to `out`.
fn push_column(out: &mut String, i: usize)
    requires
        i < COLUMNS,
    ensures
        final(out)@ == old(out)@ + column(i as int),
{
    match i {
        0 => out.append("time"),
        1 => out.append("pss"),
        2 => out.append("vmRss"),
        3 => out.append("vmAnon"),
        4 => out.append("vmFile"),
        5 => out.append("vmShmem"),
        6 => out.append("vmSwap"),
        7 => out.append("voluntaryCtxtSwitches"),
        8 => out.append("nonvoluntaryCtxtSwitches"),
        9 => out.append("minflt"),
        10 => out.append("majflt"),
        11 => out.append("utime"),
        12 => out.append("stime"),
        13 => out.append("totalcputime"),
        14 => out.append("gutime"),
        15 => out.append("gstime"),
        16 => out.append("gtotalcputime"),
        17 => out.append("cpuOccupancyRate"),
        18 => out.append("priority"),
        19 => out.append("nice"),
        20 => out.append("numThreads"),
        _ => out.append("startTime"),
    }
}

/// Appends a quotient to `out`, rounded to three decimal places; zero where
/// it has no value.
fn push_ratio(out: &mut String, ratio: Ratio)
    ensures
        final(out)@ == old(out)@ + thousandths_text(ratio.thousandths()),
{
    if ratio.den > 0 {
        push_rounded(out, ratio.num < 0, magnitude(ratio.num), magnitude(ratio.den));
    } else if ratio.den < 0 {
        push_rounded(out, ratio.num > 0, magnitude(ratio.num), magnitude(ratio.den));
    } else {
        push_thousandths(out, 0);
    }
}

/// Appends the cell of column `i` of the row of `r` to `out`.
fn push_cell(out: &mut String, r: &Record, rate: TickRate, i: usize)
    requires
        i < COLUMNS,
    ensures
        final(out)@ == old(out)@ + cell(*r, rate@, i as int),
{
    match i {
        0 => push_int(out, r.timestamp as i128),
        1 => push_int(out, r.pss as i128),
        2 => push_int(out, r.vm_rss as i128),
        3 => push_int(out, r.vm_anon as i128),
        4 => push_int(out, r.vm_file as i128),
        5 => push_int(out, r.vm_shmem as i128),
        6 => push_int(out, r.vm_swap as i128),
        7 => push_int(out, r.voluntary_ctxt_switches),
        8 => push_int(out, r.nonvoluntary_ctxt_switches),
        9 => push_int(out, r.minflt),
        10 => push_int(out, r.majflt),
        11 => push_fixed3(out, r.utime, rate.per_second() as u128),
        12 => push_fixed3(out, r.stime, rate.per_second() as u128),
        13 => push_fixed3(out, r.totalcputime, rate.per_second() as u128),
        14 => push_fixed3(out, r.global_utime, rate.per_second() as u128),
        15 => push_fixed3(out, r.global_stime, rate.per_second() as u128),
        16 => push_fixed3(out, r.global_total_cpu_time, rate.per_second() as u128),
        17 => push_ratio(out, r.cpu_occupancy),
        18 => push_int(out, r.priority as i128),
        19 => push_int(out, r.nice as i128),
        20 => push_int(out, r.num_threads as i128),
        _ => push_int(out, r.start_time as i128),
    }
}

/// What joining makes of one piece more: the pieces so far, a separator
/// unless there were none, and the piece.
proof fn lemma_join_next(parts: Seq<Seq<char>>, i: int, sep: char)
    requires
        0 <= i < parts.len(),
    ensures
        join(parts.take(i + 1), sep) == if i == 0 {
            parts[i]
        } else {
            join(parts.take(i), sep).push(sep) + parts[i]
        },
{
    let next = parts.take(i + 1);
    assert(next.last() == parts[i]);
    assert(next.drop_last() =~= parts.take(i));
}

/// The header row of a report, without its end.
pub fn render_header() -> (out: String)
    ensures
        out@ == header_text(),
{
    let mut out = String::new();
    let mut i: usize = 0;
    proof {
        lemma_columns_shape();
        assert(columns().take(0) =~= Seq::<Seq<char>>::empty());
    }
    while i < COLUMNS
        invariant
            i <= COLUMNS,
            columns().len() == COLUMNS,
            out@ == join(columns().take(i as int), ','),
        decreases COLUMNS - i,
    {
        let ghost before = out@;
        if i > 0 {
            out.push(',');
        }
        push_column(&mut out, i);
        proof {
            lemma_join_next(columns(), i as int, ',');
            if i == 0 {
                assert(before + columns()[0] =~= columns()[0]);
            }
        }
        i = i + 1;
    }
    proof {
        assert(columns().take(COLUMNS as int) =~= columns());
    }
    out
}

/// The row of a record, without its end.
pub fn render_row(r: &Record, rate: TickRate) -> (out: String)
    ensures
        out@ == row_text(*r, rate@),
{
    let mut out = String::new();
    let mut i: usize = 0;
    let ghost all = cells(*r, rate@);
    proof {
        lemma_cells_shape(*r, rate@);
        assert(all.take(0) =~= Seq::<Seq<char>>::empty());
    }
    while i < COLUMNS
        invariant
            i <= COLUMNS,
            all == cells(*r, rate@),
            all.len() == COLUMNS,
            out@ == join(all.take(i as int), ','),
        decreases COLUMNS - i,
    {
        let ghost before = out@;
        if i > 0 {
            out.push(',');
        }
        push_cell(&mut out, r, rate, i);
        proof {
            lemma_join_next(all, i as int, ',');
            if i == 0 {
                assert(before + all[0] =~= all[0]);
            }
        }
        i = i + 1;
    }
    proof {
        assert(all.take(COLUMNS as int) =~= all);
    }
    out
}

/// Appends the end of a row to `out`.
fn push_row_end(out: &mut String)
    ensures
        final(out)@ == old(out)@ + row_end(),
{
    out.push('\r');
    out.push('\n');
    assert(final(out)@ =~= old(out)@ + row_end());
}

/// The report of a run: the header row, then one row for every record of
/// the run, oldest first.
pub fn render_report(run: &MonitorRun, rate: TickRate) -> (out: String)
    ensures
        out@ == report_text(run.records@, rate@),
{
    let mut out = render_header();
    push_row_end(&mut out);
    let mut i: usize = 0;
    proof {
        assert(run.records@.take(0) =~= Seq::<Record>::empty());
    }
    while i < run.records.len()
        invariant
            i <= run.records.len(),
            out@ == report_text(run.records@.take(i as int), rate@),
        decreases run.records.len() - i,
    {
        let row = render_row(&run.records[i], rate);
        out.append(row.as_str());
        push_row_end(&mut out);
        proof {
            let next = run.records@.take(i + 1);
            assert(next.drop_last() =~= run.records@.take(i as int));
            assert(next.last() == run.records@[i as int]);
        }
        i = i + 1;
    }
    proof {
        assert(run.records@.take(run.records@.len() as int) =~= run.records@);
    }
    out
}

} // verus!
