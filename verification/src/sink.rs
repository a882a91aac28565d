//! Rows of the result log, and the rule for when the header row is due.

use crate::aggregate::AggregateResult;
use crate::measure::Elapsed;
use crate::text::{decimal, elapsed_text, elapsed_to_string, usize_to_string};
use vstd::prelude::*;
use vstd::string::StringExecFns;

verus! {

/// The bytes that a `csv::Writer` with default settings writes for one
/// record with the given fields, record terminator included.
pub uninterp spec fn csv_record(fields: Seq<Seq<char>>) -> Seq<u8>;

/// Encodes one record with a fresh `csv::Writer` over a `Vec<u8>`
/// (`from_writer`, `write_record`, `into_inner`).
/// Trusted: the bytes are a function of the fields alone, and there is at
/// least one byte, since every record ends with its terminator. Such a writer
/// cannot fail: a `Vec<u8>` takes every write, and the first record of a
/// writer sets the field count that later records are held to.
#[verifier::external_body]
fn csv_record_bytes(fields: &Vec<String>) -> (bytes: Vec<u8>)
    ensures
        bytes@ == csv_record(fields.deep_view()),
        bytes@.len() > 0,
{
    let mut writer = csv::Writer::from_writer(Vec::new());
    writer.write_record(fields).expect("a record written to memory");
    writer.into_inner().expect("a writer flushed to memory")
}

/// The seven column names of the result log.
pub open spec fn header_fields() -> Seq<Seq<char>> {
    seq![
        "name"@,
        "total_keys"@,
        "average_proof_time"@,
        "average_verification_time"@,
        "average_size"@,
        "no_runs"@,
        "leaves_to_prove"@,
    ]
}

/// The seven fields of the row that reports one benchmark configuration,
/// in the order of the header's columns.
pub open spec fn row_fields(
    name: Seq<char>,
    total_keys: nat,
    average_proof_nanos: nat,
    average_verification_nanos: nat,
    average_size: nat,
    no_runs: nat,
    leaves_to_prove: nat,
) -> Seq<Seq<char>> {
    seq![
        name,
        decimal(total_keys),
        elapsed_text(average_proof_nanos),
        elapsed_text(average_verification_nanos),
        decimal(average_size),
        decimal(no_runs),
        decimal(leaves_to_prove),
    ]
}

/// Whether a write must start with the header row: the file did not exist
/// before the write, or it holds nothing, or its length cannot be told.
pub open spec fn header_needed(file_exists: bool, file_len: Option<u64>) -> bool {
    !file_exists || match file_len {
        Some(len) => len == 0,
        None => true,
    }
}

/// What one write appends: the row, after the header where one is due.
pub open spec fn appended_bytes(with_header: bool, header: Seq<u8>, row: Seq<u8>) -> Seq<u8> {
    if with_header {
        header + row
    } else {
        row
    }
}

/// The header row as fields.
pub fn header_row() -> (fields: Vec<String>)
    ensures
        fields.deep_view() == header_fields(),
{
    let mut fields: Vec<String> = Vec::new();
    fields.push(String::from_str("name"));
    fields.push(String::from_str("total_keys"));
    fields.push(String::from_str("average_proof_time"));
    fields.push(String::from_str("average_verification_time"));
    fields.push(String::from_str("average_size"));
    fields.push(String::from_str("no_runs"));
    fields.push(String::from_str("leaves_to_prove"));
    assert(fields.deep_view() =~= header_fields());
    fields
}

/// The row of one benchmark configuration as fields.
pub fn result_row(
    benchmark_name: String,
    total_keys: usize,
    average_proof_time: Elapsed,
    average_verification_time: Elapsed,
    average_size: usize,
    no_runs: usize,
    leaves_to_prove: usize,
) -> (fields: Vec<String>)
    ensures
        fields.deep_view() == row_fields(
            benchmark_name@,
            total_keys as nat,
            average_proof_time@,
            average_verification_time@,
            average_size as nat,
            no_runs as nat,
            leaves_to_prove as nat,
        ),
{
    let ghost name = benchmark_name@;
    let mut fields: Vec<String> = Vec::new();
    fields.push(benchmark_name);
    fields.push(usize_to_string(total_keys));
    fields.push(elapsed_to_string(average_proof_time));
    fields.push(elapsed_to_string(average_verification_time));
    fields.push(usize_to_string(average_size));
    fields.push(usize_to_string(no_runs));
    fields.push(usize_to_string(leaves_to_prove));
    assert(fields.deep_view() =~= row_fields(
        name,
        total_keys as nat,
        average_proof_time@,
        average_verification_time@,
        average_size as nat,
        no_runs as nat,
        leaves_to_prove as nat,
    ));
    fields
}

/// Whether a write to a file in the observed state must start with the header.
///
/// `file_exists` tells whether the file could be opened for reading before
/// the write; `file_len` is its length once it is open for appending, `None`
/// when the length cannot be read.
pub fn needs_header(file_exists: bool, file_len: Option<u64>) -> (due: bool)
    ensures
        due == header_needed(file_exists, file_len),
{
    if !file_exists {
        true
    } else {
        match file_len {
            Some(len) => len == 0,
            None => true,
        }
    }
}

/// Renders what one write appends to the result log: the row of the given
/// configuration, preceded by the header row if the file in the observed
/// state needs one. Both rows are encoded as CSV records.
pub fn write_benchmark_results_to_csv(
    benchmark_name: String,
    total_keys: usize,
    average_proof_time: Elapsed,
    average_verification_time: Elapsed,
    average_size: usize,
    no_runs: usize,
    leaves_to_prove: usize,
    file_exists: bool,
    file_len: Option<u64>,
) -> (bytes: Vec<u8>)
    ensures
        bytes@ == appended_bytes(
            header_needed(file_exists, file_len),
            csv_record(header_fields()),
            csv_record(
                row_fields(
                    benchmark_name@,
                    total_keys as nat,
                    average_proof_time@,
                    average_verification_time@,
                    average_size as nat,
                    no_runs as nat,
                    leaves_to_prove as nat,
                ),
            ),
        ),
        csv_record(header_fields()).len() > 0,
        bytes@.len() > 0,
{
    let header = csv_record_bytes(&header_row());
    let row = csv_record_bytes(
        &result_row(
            benchmark_name,
            total_keys,
            average_proof_time,
            average_verification_time,
            average_size,
            no_runs,
            leaves_to_prove,
        ),
    );
    if needs_header(file_exists, file_len) {
        let mut bytes = header;
        let mut row = row;
        bytes.append(&mut row);
        bytes
    } else {
        row
    }
}

impl AggregateResult {
    /// Renders what writing this record appends to the result log.
    pub fn csv_bytes(&self, file_exists: bool, file_len: Option<u64>) -> (bytes: Vec<u8>)
        ensures
            bytes@ == appended_bytes(
                header_needed(file_exists, file_len),
                csv_record(header_fields()),
                csv_record(
                    row_fields(
                        self.name@,
                        self.total_keys as nat,
                        self.average_proof_time@,
                        self.average_verification_time@,
                        self.average_size as nat,
                        self.num_runs as nat,
                        self.leaves_to_prove as nat,
                    ),
                ),
            ),
            csv_record(header_fields()).len() > 0,
            bytes@.len() > 0,
    {
        write_benchmark_results_to_csv(
            self.name.clone(),
            self.total_keys,
            self.average_proof_time,
            self.average_verification_time,
            self.average_size,
            self.num_runs,
            self.leaves_to_prove,
            file_exists,
            file_len,
        )
    }
}

/// The contents of the result log after one write. `file` is `None` while
/// the file does not exist; a write creates it.
pub open spec fn file_after_write(file: Option<Seq<u8>>, header: Seq<u8>, row: Seq<u8>) -> Seq<
    u8,
> {
    match file {
        None => appended_bytes(header_needed(false, Some(0u64)), header, row),
        Some(contents) => contents + appended_bytes(
            header_needed(true, Some(contents.len() as u64)),
            header,
            row,
        ),
    }
}

/// Two writes to a file that does not exist leave one header row followed
/// by the two rows, in the order of the writes.
pub proof fn lemma_two_writes_one_header(header: Seq<u8>, first: Seq<u8>, second: Seq<u8>)
    requires
        header.len() > 0,
        header.len() + first.len() <= u64::MAX,
    ensures
        file_after_write(Some(file_after_write(None, header, first)), header, second) == header
            + first + second,
{
}

/// A write to a file that already holds something appends the row alone:
/// the header is never repeated.
pub proof fn lemma_nonempty_file_gets_no_header(contents: Seq<u8>, header: Seq<u8>, row: Seq<u8>)
    requires
        0 < contents.len() <= u64::MAX,
    ensures
        file_after_write(Some(contents), header, row) == contents + row,
{
}

/// A write to a file that exists but holds nothing starts with the header,
/// as a write to a file that does not exist does.
pub proof fn lemma_empty_file_gets_header(header: Seq<u8>, row: Seq<u8>)
    ensures
        file_after_write(Some(Seq::empty()), header, row) == header + row,
        file_after_write(None, header, row) == header + row,
{
    assert(Seq::<u8>::empty() + (header + row) =~= header + row);
}

/// The rows one after the other.
pub open spec fn joined(rows: Seq<Seq<u8>>) -> Seq<u8>
    decreases rows.len(),
{
    if rows.len() == 0 {
        Seq::empty()
    } else {
        joined(rows.drop_last()) + rows.last()
    }
}

/// The result log after one write for each of `rows`, in order.
pub open spec fn file_after_writes(
    file: Option<Seq<u8>>,
    header: Seq<u8>,
    rows: Seq<Seq<u8>>,
) -> Option<Seq<u8>>
    decreases rows.len(),
{
    if rows.len() == 0 {
        file
    } else {
        let before = file_after_writes(file, header, rows.drop_last());
        Some(file_after_write(before, header, rows.last()))
    }
}

/// A log that is written from nothing holds the header once, as its first
/// row, and after it the rows in the order of the writes. Without a write
/// there is no file, and so no header.
pub proof fn lemma_log_has_one_header(header: Seq<u8>, rows: Seq<Seq<u8>>)
    requires
        header.len() > 0,
        header.len() + joined(rows).len() <= u64::MAX,
    ensures
        rows.len() > 0 ==> file_after_writes(None, header, rows) == Some(header + joined(rows)),
        rows.len() == 0 ==> file_after_writes(None, header, rows) == None::<Seq<u8>>,
    decreases rows.len(),
{
    if rows.len() == 1 {
        assert(rows.drop_last().len() == 0);
        assert(joined(rows) =~= rows.last());
    } else if rows.len() > 1 {
        lemma_log_has_one_header(header, rows.drop_last());
        assert(header + joined(rows.drop_last()) + rows.last() =~= header + joined(rows));
    }
}

} // verus!
