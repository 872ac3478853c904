//! Laws of the library, each stated over concrete values or over what an
//! operation's inputs and results must satisfy.

use vstd::prelude::*;

use crate::data::{
    column_layout, loaded_from_table, millis_between, parses_as_datetime, row_outcome,
    rows_of_table, texts, valid_rows, LoadReport, LoadError, TableView,
};
use crate::number::is_float_literal_spec;
use crate::parameters::{
    field_colour_spec, field_header_spec, field_label_spec, Rgb, FIELD_COUNT, TIMESTAMP_FORMAT,
    TIMESTAMP_HEADER,
};

verus! {

/// The harvester schema, in column order after the timestamp:
/// Vtrack, VccEst, BmpC, BmpPa, BmpMslpPa, V0, R0, T0, T0sh, V1, R1, T1, T1sh,
/// V2, R2, T2, T2sh.
pub proof fn schema_headers()
    ensures
        TIMESTAMP_HEADER@ == seq!['t', 'i', 'm', 'e', 's', 't', 'a', 'm', 'p'],
        field_header_spec(0) == seq!['V', 't', 'r', 'a', 'c', 'k'],
        field_header_spec(1) == seq!['V', 'c', 'c', 'E', 's', 't'],
        field_header_spec(2) == seq!['B', 'm', 'p', 'C'],
        field_header_spec(3) == seq!['B', 'm', 'p', 'P', 'a'],
        field_header_spec(4) == seq!['B', 'm', 'p', 'M', 's', 'l', 'p', 'P', 'a'],
        field_header_spec(5) == seq!['V', '0'],
        field_header_spec(6) == seq!['R', '0'],
        field_header_spec(7) == seq!['T', '0'],
        field_header_spec(8) == seq!['T', '0', 's', 'h'],
        field_header_spec(9) == seq!['V', '1'],
        field_header_spec(10) == seq!['R', '1'],
        field_header_spec(11) == seq!['T', '1'],
        field_header_spec(12) == seq!['T', '1', 's', 'h'],
        field_header_spec(13) == seq!['V', '2'],
        field_header_spec(14) == seq!['R', '2'],
        field_header_spec(15) == seq!['T', '2'],
        field_header_spec(16) == seq!['T', '2', 's', 'h'],
{
    reveal_strlit("timestamp");
        reveal_strlit("Vtrack");
        assert(field_header_spec(0) =~= seq!['V', 't', 'r', 'a', 'c', 'k']);
        reveal_strlit("VccEst");
        assert(field_header_spec(1) =~= seq!['V', 'c', 'c', 'E', 's', 't']);
        reveal_strlit("BmpC");
        assert(field_header_spec(2) =~= seq!['B', 'm', 'p', 'C']);
        reveal_strlit("BmpPa");
        assert(field_header_spec(3) =~= seq!['B', 'm', 'p', 'P', 'a']);
        reveal_strlit("BmpMslpPa");
        assert(field_header_spec(4) =~= seq!['B', 'm', 'p', 'M', 's', 'l', 'p', 'P', 'a']);
        reveal_strlit("V0");
        assert(field_header_spec(5) =~= seq!['V', '0']);
        reveal_strlit("R0");
        assert(field_header_spec(6) =~= seq!['R', '0']);
        reveal_strlit("T0");
        assert(field_header_spec(7) =~= seq!['T', '0']);
        reveal_strlit("T0sh");
        assert(field_header_spec(8) =~= seq!['T', '0', 's', 'h']);
        reveal_strlit("V1");
        assert(field_header_spec(9) =~= seq!['V', '1']);
        reveal_strlit("R1");
        assert(field_header_spec(10) =~= seq!['R', '1']);
        reveal_strlit("T1");
        assert(field_header_spec(11) =~= seq!['T', '1']);
        reveal_strlit("T1sh");
        assert(field_header_spec(12) =~= seq!['T', '1', 's', 'h']);
        reveal_strlit("V2");
        assert(field_header_spec(13) =~= seq!['V', '2']);
        reveal_strlit("R2");
        assert(field_header_spec(14) =~= seq!['R', '2']);
        reveal_strlit("T2");
        assert(field_header_spec(15) =~= seq!['T', '2']);
        reveal_strlit("T2sh");
        assert(field_header_spec(16) =~= seq!['T', '2', 's', 'h']);
}

/// Each field's legend label: β-model temperatures end in `β`,
/// Steinhart–Hart temperatures in `SH`.
pub proof fn schema_labels()
    ensures
        field_label_spec(0) == seq!['V', 't', 'r', 'a', 'c', 'k'],
        field_label_spec(1) == seq!['V', 'c', 'c', ' ', 'e', 's', 't', 'i', 'm', 'a', 't', 'e'],
        field_label_spec(2) == seq!['B', 'M', 'P', '1', '8', '0', ' ', 'r', 'e', 'f', 'e', 'r', 'e', 'n', 'c', 'e'],
        field_label_spec(3) == seq!['B', 'M', 'P', '1', '8', '0', ' ', 's', 't', 'a', 't', 'i', 'o', 'n'],
        field_label_spec(4) == seq!['B', 'M', 'P', '1', '8', '0', ' ', 'M', 'S', 'L', 'P'],
        field_label_spec(5) == seq!['A', 'D', 'S', ' ', 'A', '0'],
        field_label_spec(6) == seq!['N', 'T', 'C', ' ', 'A', '0'],
        field_label_spec(7) == seq!['A', '0', ' ', 'β'],
        field_label_spec(8) == seq!['A', '0', ' ', 'S', 'H'],
        field_label_spec(9) == seq!['A', 'D', 'S', ' ', 'A', '1'],
        field_label_spec(10) == seq!['N', 'T', 'C', ' ', 'A', '1'],
        field_label_spec(11) == seq!['A', '1', ' ', 'β'],
        field_label_spec(12) == seq!['A', '1', ' ', 'S', 'H'],
        field_label_spec(13) == seq!['A', 'D', 'S', ' ', 'A', '2'],
        field_label_spec(14) == seq!['N', 'T', 'C', ' ', 'A', '2'],
        field_label_spec(15) == seq!['A', '2', ' ', 'β'],
        field_label_spec(16) == seq!['A', '2', ' ', 'S', 'H'],
{
        reveal_strlit("Vtrack");
        assert(field_label_spec(0) =~= seq!['V', 't', 'r', 'a', 'c', 'k']);
        reveal_strlit("Vcc estimate");
        assert(field_label_spec(1) =~= seq!['V', 'c', 'c', ' ', 'e', 's', 't', 'i', 'm', 'a', 't', 'e']);
        reveal_strlit("BMP180 reference");
        assert(field_label_spec(2) =~= seq!['B', 'M', 'P', '1', '8', '0', ' ', 'r', 'e', 'f', 'e', 'r', 'e', 'n', 'c', 'e']);
        reveal_strlit("BMP180 station");
        assert(field_label_spec(3) =~= seq!['B', 'M', 'P', '1', '8', '0', ' ', 's', 't', 'a', 't', 'i', 'o', 'n']);
        reveal_strlit("BMP180 MSLP");
        assert(field_label_spec(4) =~= seq!['B', 'M', 'P', '1', '8', '0', ' ', 'M', 'S', 'L', 'P']);
        reveal_strlit("ADS A0");
        assert(field_label_spec(5) =~= seq!['A', 'D', 'S', ' ', 'A', '0']);
        reveal_strlit("NTC A0");
        assert(field_label_spec(6) =~= seq!['N', 'T', 'C', ' ', 'A', '0']);
        reveal_strlit("A0 β");
        assert(field_label_spec(7) =~= seq!['A', '0', ' ', 'β']);
        reveal_strlit("A0 SH");
        assert(field_label_spec(8) =~= seq!['A', '0', ' ', 'S', 'H']);
        reveal_strlit("ADS A1");
        assert(field_label_spec(9) =~= seq!['A', 'D', 'S', ' ', 'A', '1']);
        reveal_strlit("NTC A1");
        assert(field_label_spec(10) =~= seq!['N', 'T', 'C', ' ', 'A', '1']);
        reveal_strlit("A1 β");
        assert(field_label_spec(11) =~= seq!['A', '1', ' ', 'β']);
        reveal_strlit("A1 SH");
        assert(field_label_spec(12) =~= seq!['A', '1', ' ', 'S', 'H']);
        reveal_strlit("ADS A2");
        assert(field_label_spec(13) =~= seq!['A', 'D', 'S', ' ', 'A', '2']);
        reveal_strlit("NTC A2");
        assert(field_label_spec(14) =~= seq!['N', 'T', 'C', ' ', 'A', '2']);
        reveal_strlit("A2 β");
        assert(field_label_spec(15) =~= seq!['A', '2', ' ', 'β']);
        reveal_strlit("A2 SH");
        assert(field_label_spec(16) =~= seq!['A', '2', ' ', 'S', 'H']);
}

/// Each field's channel colour.
pub proof fn schema_colours()
    ensures
        field_colour_spec(0) == (Rgb { r: 180, g: 140, b: 255 }),
        field_colour_spec(1) == (Rgb { r: 255, g: 190, b: 70 }),
        field_colour_spec(2) == (Rgb { r: 255, g: 255, b: 255 }),
        field_colour_spec(3) == (Rgb { r: 80, g: 190, b: 255 }),
        field_colour_spec(4) == (Rgb { r: 80, g: 255, b: 190 }),
        field_colour_spec(5) == (Rgb { r: 255, g: 90, b: 90 }),
        field_colour_spec(6) == (Rgb { r: 255, g: 90, b: 90 }),
        field_colour_spec(7) == (Rgb { r: 255, g: 90, b: 90 }),
        field_colour_spec(8) == (Rgb { r: 255, g: 150, b: 150 }),
        field_colour_spec(9) == (Rgb { r: 100, g: 220, b: 120 }),
        field_colour_spec(10) == (Rgb { r: 100, g: 220, b: 120 }),
        field_colour_spec(11) == (Rgb { r: 100, g: 220, b: 120 }),
        field_colour_spec(12) == (Rgb { r: 160, g: 255, b: 175 }),
        field_colour_spec(13) == (Rgb { r: 90, g: 150, b: 255 }),
        field_colour_spec(14) == (Rgb { r: 90, g: 150, b: 255 }),
        field_colour_spec(15) == (Rgb { r: 90, g: 150, b: 255 }),
        field_colour_spec(16) == (Rgb { r: 150, g: 190, b: 255 }),
{
}

/// Every required column is found at a header carrying its name.
pub proof fn columns_carry_their_names(headers: Seq<Seq<char>>)
    requires
        column_layout(headers) is Ok,
    ensures
        ({
            let layout = column_layout(headers)->Ok_0;
            &&& 0 <= layout.0 < headers.len()
            &&& headers[layout.0] == TIMESTAMP_HEADER@
            &&& layout.1.len() == FIELD_COUNT
            &&& forall|k: int|
                0 <= k < FIELD_COUNT ==> 0 <= #[trigger] layout.1[k] < headers.len() && headers[layout.1[k]]
                    == field_header_spec(k)
        }),
{
    crate::data::lemma_layout_positions(headers);
}

/// A valid record reads as its timestamp cell and, for each numeric field in
/// field order, the cell in that field's column; the timestamp parses and
/// every value is a floating-point literal.
pub proof fn rows_read_their_own_columns(
    record: Seq<Seq<char>>,
    layout: (int, Seq<int>),
)
    requires
        row_outcome(record, layout) is Ok,
        layout.1.len() == FIELD_COUNT,
    ensures
        ({
            let v = row_outcome(record, layout)->Ok_0;
            &&& 0 <= layout.0 < record.len() ==> v.0 == record[layout.0]
            &&& parses_as_datetime(v.0, TIMESTAMP_FORMAT@)
            &&& v.1.len() == FIELD_COUNT
            &&& forall|k: int|
                0 <= k < FIELD_COUNT ==> #[trigger] v.1[k] == record[layout.1[k]]
                    && is_float_literal_spec(v.1[k])
        }),
{
    crate::data::lemma_row_outcome_fields(record, layout);
}

/// A loaded run measures every sample from the run's first valid row, and
/// keeps each valid row's values in logger order.
pub proof fn samples_measure_from_the_first_row(
    report: Result<LoadReport, LoadError>,
    table: TableView,
    source_path: Seq<char>,
    file_name: Option<Seq<char>>,
)
    requires
        loaded_from_table(report, table, source_path, file_name),
        report is Ok,
    ensures
        table.0 is Ok,
        rows_of_table(table.0->Ok_0, table.1) is Ok,
        ({
            let rows = rows_of_table(table.0->Ok_0, table.1)->Ok_0;
            let samples = report->Ok_0.run.samples@;
            &&& samples.len() == rows.len()
            &&& rows.len() > 0
            &&& forall|i: int|
                0 <= i < samples.len() ==> (#[trigger] samples[i]).elapsed_milliseconds
                    == millis_between(rows[i].0, rows[0].0, TIMESTAMP_FORMAT@) && texts(
                    samples[i].values@,
                ) == rows[i].1
        }),
{
    let rows = rows_of_table(table.0->Ok_0, table.1)->Ok_0;
    let samples = report->Ok_0.run.samples@;
    let views = samples.map_values(|s: crate::data::Sample| crate::data::sample_view(s));
    assert(crate::data::report_of_rows(
        report->Ok_0,
        rows,
        table.1.len() as int,
        source_path,
        file_name,
    ));
    assert(views == crate::data::aligned_samples(rows));
    assert(views.len() == samples.len());
    assert(crate::data::aligned_samples(rows).len() == rows.len());
    assert forall|i: int| 0 <= i < samples.len() implies (#[trigger] samples[i]).elapsed_milliseconds
        == millis_between(rows[i].0, rows[0].0, TIMESTAMP_FORMAT@) && texts(samples[i].values@)
        == rows[i].1 by {
        assert(views[i] == crate::data::sample_view(samples[i]));
        assert(crate::data::aligned_samples(rows)[i] == (
            millis_between(rows[i].0, rows[0].0, TIMESTAMP_FORMAT@) as int,
            rows[i].1,
        ));
    }
}

/// Texts made only of the digits `0` to `9`, with an optional sign, are numbers.
pub proof fn digit_texts_are_numbers(s: Seq<char>)
    requires
        s.len() > 0,
        forall|i: int| 0 <= i < s.len() ==> '0' <= #[trigger] s[i] <= '9',
    ensures
        is_float_literal_spec(s),
        is_float_literal_spec(seq!['-'] + s),
        is_float_literal_spec(seq!['+'] + s),
{
    crate::number::lemma_digits_are_numbers(s);
}

/// A decimal with digits before the point, and optionally after it, is a number.
pub proof fn decimals_are_numbers(whole: Seq<char>, fraction: Seq<char>)
    requires
        whole.len() > 0,
        forall|i: int| 0 <= i < whole.len() ==> '0' <= #[trigger] whole[i] <= '9',
        forall|i: int| 0 <= i < fraction.len() ==> '0' <= #[trigger] fraction[i] <= '9',
    ensures
        is_float_literal_spec(whole + seq!['.'] + fraction),
{
    crate::number::lemma_decimals_are_numbers(whole, fraction);
}

/// No text holding a character outside digits, `.`, signs and the letters of
/// `e`, `inf`, `infinity` and `nan` (in either case) is a number; in
/// particular no text with a space is.
pub proof fn stray_characters_are_refused(s: Seq<char>, at: int)
    requires
        0 <= at < s.len(),
        !('0' <= s[at] <= '9'),
        !(s[at] == '.' || s[at] == '+' || s[at] == '-'),
        !(s[at] == 'e' || s[at] == 'E' || s[at] == 'i' || s[at] == 'I' || s[at] == 'n' || s[at] == 'N'
            || s[at] == 'f' || s[at] == 'F' || s[at] == 't' || s[at] == 'T' || s[at] == 'y'
            || s[at] == 'Y' || s[at] == 'a' || s[at] == 'A'),
    ensures
        !is_float_literal_spec(s),
{
    crate::number::lemma_stray_character(s, at);
}


/// When every record is a valid row, the rows are the records' readings,
/// one per record, in record order.
pub proof fn valid_records_become_rows_in_order(
    records: Seq<Option<Seq<Seq<char>>>>,
    layout: (int, Seq<int>),
)
    requires
        forall|i: int|
            0 <= i < records.len() ==> (#[trigger] records[i]) is Some && row_outcome(
                records[i]->Some_0,
                layout,
            ) is Ok,
    ensures
        valid_rows(records, layout).len() == records.len(),
        forall|i: int|
            0 <= i < records.len() ==> #[trigger] valid_rows(records, layout)[i] == row_outcome(
                records[i]->Some_0,
                layout,
            )->Ok_0,
    decreases records.len(),
{
    if records.len() > 0 {
        let earlier = records.drop_last();
        assert forall|i: int| 0 <= i < earlier.len() implies (#[trigger] earlier[i]) is Some
            && row_outcome(earlier[i]->Some_0, layout) is Ok by {
            assert(earlier[i] == records[i]);
        }
        valid_records_become_rows_in_order(earlier, layout);
        assert(records.last() == records[records.len() - 1]);
        assert forall|i: int| 0 <= i < records.len() implies #[trigger] valid_rows(records, layout)[i]
            == row_outcome(records[i]->Some_0, layout)->Ok_0 by {
            if i < records.len() - 1 {
                assert(earlier[i] == records[i]);
                assert(valid_rows(earlier, layout)[i] == row_outcome(earlier[i]->Some_0, layout)->Ok_0);
            }
        }
    }
}

/// A record that cannot be read, or is not a valid row, adds no row: the
/// valid rows are the same without it.
pub proof fn refused_records_add_no_row(
    records: Seq<Option<Seq<Seq<char>>>>,
    layout: (int, Seq<int>),
    i: int,
)
    requires
        0 <= i < records.len(),
        records[i] is None || row_outcome(records[i]->Some_0, layout) is Err,
    ensures
        valid_rows(records.remove(i), layout) == valid_rows(records, layout),
    decreases records.len(),
{
    let last = records.len() - 1;
    if i == last {
        assert(records.remove(i) =~= records.drop_last());
        assert(records.last() == records[i]);
    } else {
        let shorter = records.remove(i);
        refused_records_add_no_row(records.drop_last(), layout, i);
        assert(shorter.drop_last() =~= records.drop_last().remove(i));
        assert(shorter.last() == records.last());
    }
}

} // verus!
