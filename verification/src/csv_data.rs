//! The reference table: supplemental facts per butterfly, keyed by its two
//! names.
use vstd::prelude::*;
use vstd::string::StringExecFns;
use crate::constants::CSV_FILE_PATH;
use crate::errors::{ButterflyError, ButterflyErrorView};
use crate::text::chars_of;
use crate::width::normalized;
pub use crate::width::normalize;

verus! {

/// The rows that the `csv` reader finds below the header line of a text,
/// each as its fields; `None` where a row cannot be read or has another
/// number of fields than the header line.
pub uninterp spec fn csv_records(text: Seq<char>) -> Option<Seq<Seq<Seq<char>>>>;

/// `csv::Reader::records` on a reader over the text, with the reader's
/// default settings: the rows are a function of the text.
#[verifier::external_body]
pub(crate) fn read_records(text: &str) -> (r: Option<Vec<Vec<String>>>)
    ensures
        match r {
            Some(rows) => csv_records(text@) == Some(rows.deep_view()),
            None => csv_records(text@) is None,
        },
{
    csv::Reader::from_reader(text.as_bytes())
        .records()
        .map(|row| row.ok().map(|record| record.iter().map(String::from).collect()))
        .collect()
}

/// A Japanese name.
#[derive(Eq, Debug, PartialEq, Hash, Clone)]
pub struct JPName(pub String);

/// An English name.
#[derive(Eq, Debug, PartialEq, Hash, Clone)]
pub struct EngName(pub String);

impl View for JPName {
    type V = Seq<char>;

    open spec fn view(&self) -> Seq<char> {
        self.0@
    }
}

impl View for EngName {
    type V = Seq<char>;

    open spec fn view(&self) -> Seq<char> {
        self.0@
    }
}

/// CSV data extracted from `butterfly.csv`.
#[derive(Debug, PartialEq, Eq, Clone)]
pub struct CSVData {
    pub distribution: String,
    pub open_length: u32,
    pub diet: Option<String>,
    pub remarks: Option<String>,
}

/// The data of a row as plain values.
#[verifier::ext_equal]
pub struct CSVDataView {
    pub distribution: Seq<char>,
    pub open_length: u32,
    pub diet: Option<Seq<char>>,
    pub remarks: Option<Seq<char>>,
}

/// The view of an optional string.
pub open spec fn optional_text(s: Option<String>) -> Option<Seq<char>> {
    match s {
        Some(t) => Some(t@),
        None => None,
    }
}

impl View for CSVData {
    type V = CSVDataView;

    open spec fn view(&self) -> CSVDataView {
        CSVDataView {
            distribution: self.distribution@,
            open_length: self.open_length,
            diet: optional_text(self.diet),
            remarks: optional_text(self.remarks),
        }
    }
}

/// A copy of an optional string.
pub fn duplicate_optional(s: &Option<String>) -> (r: Option<String>)
    ensures
        optional_text(r) == optional_text(*s),
{
    match s {
        Some(t) => Some(t.clone()),
        None => None,
    }
}

/// One row of the reference table.
#[derive(Debug, PartialEq, Eq, Clone)]
pub struct ReferenceRow {
    pub jp_name: JPName,
    pub eng_name: EngName,
    pub data: CSVData,
}

/// A row as plain values.
#[verifier::ext_equal]
pub struct ReferenceRowView {
    pub jp_name: Seq<char>,
    pub eng_name: Seq<char>,
    pub data: CSVDataView,
}

impl View for ReferenceRow {
    type V = ReferenceRowView;

    open spec fn view(&self) -> ReferenceRowView {
        ReferenceRowView { jp_name: self.jp_name@, eng_name: self.eng_name@, data: self.data@ }
    }
}

/// The views of a list of rows.
pub open spec fn row_views(rows: Seq<ReferenceRow>) -> Seq<ReferenceRowView> {
    rows.map_values(|r: ReferenceRow| r@)
}

/// The value of a decimal digit.
pub open spec fn digit_value(c: char) -> Option<nat> {
    let n = c as u32;
    if 48 <= n <= 57 {
        Some((n - 48) as nat)
    } else {
        None
    }
}

/// The number that a run of decimal digits denotes; `None` if a character is
/// no digit.
pub open spec fn digits_value(s: Seq<char>) -> Option<nat>
    decreases s.len(),
{
    if s.len() == 0 {
        Some(0)
    } else {
        match (digits_value(s.drop_last()), digit_value(s.last())) {
            (Some(v), Some(d)) => Some(v * 10 + d),
            _ => None,
        }
    }
}

/// The number that a text denotes in the decimal notation of unsigned
/// integers: an optional `+`, then one or more digits, the value at most
/// 2^32 - 1.
pub open spec fn decimal_u32(s: Seq<char>) -> Option<u32> {
    let body = if s.len() > 0 && s[0] == '+' {
        s.drop_first()
    } else {
        s
    };
    if body.len() == 0 {
        None
    } else {
        match digits_value(body) {
            Some(v) => if v <= u32::MAX {
                Some(v as u32)
            } else {
                None
            },
            None => None,
        }
    }
}

/// Every prefix of a run of digits is a run of digits, of a value no larger.
proof fn lemma_digits_prefix(s: Seq<char>, k: int)
    requires
        0 <= k <= s.len(),
        digits_value(s) is Some,
    ensures
        digits_value(s.take(k)) is Some,
        digits_value(s.take(k))->0 <= digits_value(s)->0,
    decreases s.len(),
{
    if k == s.len() {
        assert(s.take(k) =~= s);
    } else {
        assert(s.take(k) =~= s.drop_last().take(k));
        lemma_digits_prefix(s.drop_last(), k);
    }
}

/// Reads an unsigned decimal number.
pub fn parse_u32(s: &str) -> (r: Option<u32>)
    ensures
        r == decimal_u32(s@),
{
    let v = chars_of(s);
    let start: usize = if v.len() > 0 && v[0] == '+' {
        1
    } else {
        0
    };
    if start == v.len() {
        return None;
    }
    let ghost body = v@.subrange(start as int, v.len() as int);
    proof {
        if start == 1 {
            assert(body =~= s@.drop_first());
        } else {
            assert(body =~= s@);
        }
    }
    let mut acc: u64 = 0;
    let mut i: usize = start;
    while i < v.len()
        invariant
            start <= i <= v.len(),
            body == v@.subrange(start as int, v.len() as int),
            decimal_u32(s@) == match digits_value(body) {
                Some(n) => if n <= u32::MAX {
                    Some(n as u32)
                } else {
                    None
                },
                None => None,
            },
            digits_value(body.take(i - start)) == Some(acc as nat),
            acc <= u32::MAX,
        decreases v.len() - i,
    {
        let n: u32 = v[i] as u32;
        proof {
            let next = body.take(i - start + 1);
            assert(next.drop_last() =~= body.take(i - start));
            assert(next.last() == v@[i as int]);
            if digits_value(body) is Some {
                lemma_digits_prefix(body, i - start + 1);
            }
        }
        if n < 48 || n > 57 {
            return None;
        }
        let d: u64 = (n - 48) as u64;
        let next: u64 = acc * 10 + d;
        if next > u32::MAX as u64 {
            return None;
        }
        acc = next;
        i += 1;
    }
    proof {
        assert(body.take(i - start) =~= body);
    }
    Some(acc as u32)
}

/// A free-text column that may be left empty.
pub open spec fn optional_column(fields: Seq<Seq<char>>, i: int) -> Option<Seq<char>> {
    if i < fields.len() && fields[i].len() > 0 {
        Some(normalized(fields[i]))
    } else {
        None
    }
}

/// The row that a record of the table describes. Its columns are: English
/// name, Japanese name, an unused column, open length, distribution, diet,
/// remarks. The first five are required and the open length must be an
/// unsigned decimal number; diet and remarks may be missing or empty.
pub open spec fn reference_row(fields: Seq<Seq<char>>) -> Option<ReferenceRowView> {
    if fields.len() >= 5 && decimal_u32(fields[3]) is Some {
        Some(
            ReferenceRowView {
                jp_name: fields[1],
                eng_name: fields[0],
                data: CSVDataView {
                    distribution: normalized(fields[4]),
                    open_length: decimal_u32(fields[3])->0,
                    diet: optional_column(fields, 5),
                    remarks: optional_column(fields, 6),
                },
            },
        )
    } else {
        None
    }
}

/// A free-text column that may be left empty, in its normal form.
fn optional_field(vec: &Vec<String>, i: usize) -> (r: Option<String>)
    ensures
        optional_text(r) == optional_column(vec.deep_view(), i as int),
{
    if i < vec.len() {
        let field = vec[i].as_str();
        assert(vec.deep_view()[i as int] == vec@[i as int]@);
        if field.is_empty() {
            None
        } else {
            Some(normalize(field))
        }
    } else {
        None
    }
}

impl CSVData {
    /// Create an new instance of `CSVData`, with its key, from the fields of
    /// one record.
    pub fn new(vec: &Vec<String>) -> (r: Option<((JPName, EngName), CSVData)>)
        ensures
            match r {
                Some(((jp_name, eng_name), data)) => reference_row(vec.deep_view()) == Some(
                    ReferenceRowView { jp_name: jp_name@, eng_name: eng_name@, data: data@ },
                ),
                None => reference_row(vec.deep_view()) is None,
            },
    {
        if vec.len() < 5 {
            return None;
        }
        proof {
            assert(vec.deep_view()[0] == vec@[0]@);
            assert(vec.deep_view()[1] == vec@[1]@);
            assert(vec.deep_view()[3] == vec@[3]@);
            assert(vec.deep_view()[4] == vec@[4]@);
        }
        let eng_name = vec[0].clone();
        let jp_name = vec[1].clone();
        let open_length = match parse_u32(vec[3].as_str()) {
            Some(n) => n,
            None => {
                return None;
            },
        };
        let distribution = normalize(vec[4].as_str());
        let diet = optional_field(vec, 5);
        let remarks = optional_field(vec, 6);
        let csv_data = CSVData { distribution, open_length, diet, remarks };
        Some(((JPName(jp_name), EngName(eng_name)), csv_data))
    }

}

/// The rows that a list of records describes, if each of them describes one.
pub open spec fn reference_rows(records: Seq<Seq<Seq<char>>>) -> Option<Seq<ReferenceRowView>> {
    if forall|i: int| 0 <= i < records.len() ==> (#[trigger] reference_row(records[i])) is Some {
        Some(Seq::new(records.len(), |i: int| reference_row(records[i])->0))
    } else {
        None
    }
}

/// The reference table that a text holds: the rows of its records, or the
/// error that names the table's file where a record cannot be read or
/// describes no row.
pub open spec fn reference_table(text: Seq<char>) -> Result<
    Seq<ReferenceRowView>,
    ButterflyErrorView,
> {
    match csv_records(text) {
        Some(records) => match reference_rows(records) {
            Some(rows) => Ok(rows),
            None => Err(ButterflyErrorView::FailedToParseCSVRecord(CSV_FILE_PATH@)),
        },
        None => Err(ButterflyErrorView::FailedToParseCSVRecord(CSV_FILE_PATH@)),
    }
}

/// Reads the reference table from the text of its file.
pub fn parse_csv_data(text: &str) -> (r: Result<Vec<ReferenceRow>, ButterflyError>)
    ensures
        match r {
            Ok(rows) => reference_table(text@) == Ok::<
                Seq<ReferenceRowView>,
                ButterflyErrorView,
            >(row_views(rows@)),
            Err(e) => reference_table(text@) == Err::<Seq<ReferenceRowView>, ButterflyErrorView>(
                e@,
            ),
        },
{
    let records = match read_records(text) {
        Some(records) => records,
        None => {
            return Err(ButterflyError::FailedToParseCSVRecord(String::from_str(CSV_FILE_PATH)));
        },
    };
    let ghost list = records.deep_view();
    let mut rows: Vec<ReferenceRow> = Vec::new();
    let mut i: usize = 0;
    while i < records.len()
        invariant
            i <= records.len(),
            list == records.deep_view(),
            csv_records(text@) == Some(list),
            rows.len() == i,
            forall|k: int| 0 <= k < i ==> reference_row(list[k]) == Some((#[trigger] rows@[k])@),
        decreases records.len() - i,
    {
        proof {
            assert(list[i as int] == records@[i as int].deep_view());
        }
        match CSVData::new(&records[i]) {
            Some(((jp_name, eng_name), data)) => {
                rows.push(ReferenceRow { jp_name, eng_name, data });
            },
            None => {
                assert(reference_row(list[i as int]) is None);
                return Err(
                    ButterflyError::FailedToParseCSVRecord(String::from_str(CSV_FILE_PATH)),
                );
            },
        }
        i += 1;
    }
    proof {
        assert forall|k: int| 0 <= k < list.len() implies (#[trigger] reference_row(
            list[k],
        )) is Some by {
            assert(reference_row(list[k]) == Some(rows@[k]@));
        }
        assert(row_views(rows@) =~= Seq::new(list.len(), |k: int| reference_row(list[k])->0));
    }
    Ok(rows)
}

/// The data under a key: that of the last row with both names, as a later
/// row replaces an earlier one with the same key.
pub open spec fn lookup(rows: Seq<ReferenceRowView>, jp_name: Seq<char>, eng_name: Seq<char>)
    -> Option<CSVDataView>
    decreases rows.len(),
{
    if rows.len() == 0 {
        None
    } else if rows.last().jp_name == jp_name && rows.last().eng_name == eng_name {
        Some(rows.last().data)
    } else {
        lookup(rows.drop_last(), jp_name, eng_name)
    }
}

/// Finds the data under a key.
pub fn find_row<'a>(rows: &'a Vec<ReferenceRow>, jp_name: &str, eng_name: &str) -> (r: Option<
    &'a CSVData,
>)
    ensures
        match r {
            Some(data) => lookup(row_views(rows@), jp_name@, eng_name@) == Some(data@),
            None => lookup(row_views(rows@), jp_name@, eng_name@) is None,
        },
{
    let mut i: usize = rows.len();
    assert(row_views(rows@).take(i as int) =~= row_views(rows@));
    while i > 0
        invariant
            i <= rows.len(),
            lookup(row_views(rows@), jp_name@, eng_name@) == lookup(
                row_views(rows@).take(i as int),
                jp_name@,
                eng_name@,
            ),
        decreases i,
    {
        let row = &rows[i - 1];
        proof {
            let prefix = row_views(rows@).take(i as int);
            assert(prefix.last() == row@);
            assert(prefix.drop_last() =~= row_views(rows@).take(i - 1));
        }
        if *row.jp_name.0.as_str() == *jp_name && *row.eng_name.0.as_str() == *eng_name {
            return Some(&row.data);
        }
        i -= 1;
    }
    None
}

} // verus!
