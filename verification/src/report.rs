//! What a run comes to and what is printed of it.

use vstd::prelude::*;

use crate::config::{
    BenchmarkConfig, ConfigView, OBJECT_STORE_WAL_POLL_INTERVAL_MS, S3_BUCKET,
};
use crate::sampler::{SampleError, SAMPLE_INTERVAL_MS};
use crate::text::push_decimal;
use crate::writer::{WriteError, KEY_SIZE, VALUE_SIZE};

verus! {

// ---------------------------------------------------------------------------
// The outcome of a run
// ---------------------------------------------------------------------------

/// What a run measured; times are in nanoseconds.
#[derive(Debug)]
pub struct BenchmarkOutcome {
    pub writes: u64,
    pub elapsed: u128,
    pub latencies: Vec<u128>,
}

/// How the writer of a run ended.
#[derive(Debug)]
pub enum WriterOutcome {
    /// Its task panicked.
    Panicked { cause: String },
    /// A write failed.
    Failed(WriteError),
    /// It finished; how many writes the database accepted.
    Finished(u64),
}

/// Why a run failed.
#[derive(Debug)]
pub enum BenchmarkError {
    WriterPanicked { cause: String },
    WriterFailed(WriteError),
    Sampling(SampleError),
    ReaderClose { cause: String },
    WriterClose { cause: String },
    NoSamples,
}

impl BenchmarkError {
    /// The error in words.
    pub open spec fn text(self) -> Seq<char> {
        match self {
            BenchmarkError::WriterPanicked { .. } => "writer task panicked"@,
            BenchmarkError::WriterFailed(_) => "writer task failed"@,
            BenchmarkError::Sampling(error) => error.text(),
            BenchmarkError::ReaderClose { .. } => "failed to close the reader"@,
            BenchmarkError::WriterClose { .. } => "failed to close the writer"@,
            BenchmarkError::NoSamples => "benchmark produced no samples"@,
        }
    }

    /// The error in words.
    pub fn message(&self) -> (text: String)
        ensures
            text@ == self.text(),
    {
        match self {
            BenchmarkError::WriterPanicked { .. } => "writer task panicked".to_owned(),
            BenchmarkError::WriterFailed(_) => "writer task failed".to_owned(),
            BenchmarkError::Sampling(error) => error.message(),
            BenchmarkError::ReaderClose { .. } => "failed to close the reader".to_owned(),
            BenchmarkError::WriterClose { .. } => "failed to close the writer".to_owned(),
            BenchmarkError::NoSamples => "benchmark produced no samples".to_owned(),
        }
    }
}

/// What a run comes to, by how its writer and its sampler ended; a failure of the writer goes
/// before one of the sampler.
pub fn run_benchmark(
    writer: WriterOutcome,
    sampled: Result<Vec<u128>, SampleError>,
    elapsed: u128,
) -> (res: Result<BenchmarkOutcome, BenchmarkError>)
    ensures
        res == (match writer {
            WriterOutcome::Panicked { cause } => Err::<BenchmarkOutcome, BenchmarkError>(
                BenchmarkError::WriterPanicked { cause },
            ),
            WriterOutcome::Failed(error) => Err(BenchmarkError::WriterFailed(error)),
            WriterOutcome::Finished(writes) => match sampled {
                Err(error) => Err(BenchmarkError::Sampling(error)),
                Ok(latencies) => Ok(BenchmarkOutcome { writes, elapsed, latencies }),
            },
        }),
{
    let writes = match writer {
        WriterOutcome::Panicked { cause } => return Err(BenchmarkError::WriterPanicked { cause }),
        WriterOutcome::Failed(error) => return Err(BenchmarkError::WriterFailed(error)),
        WriterOutcome::Finished(writes) => writes,
    };
    let latencies = match sampled {
        Ok(latencies) => latencies,
        Err(error) => return Err(BenchmarkError::Sampling(error)),
    };
    Ok(BenchmarkOutcome { writes, elapsed, latencies })
}

// ---------------------------------------------------------------------------
// Latencies
// ---------------------------------------------------------------------------

/// Whether each number is at most as large as those that follow it.
pub open spec fn sorted(values: Seq<u128>) -> bool {
    forall|i: int, j: int| 0 <= i <= j < values.len() ==> values[i] <= values[j]
}

/// Calls `sort_unstable` of `std`, which sorts a slice.
///
/// Claimed: the numbers are the same, each as often as before, in ascending order.
#[verifier::external_body]
fn sort_numbers(values: &mut Vec<u128>)
    ensures
        sorted(final(values)@),
        final(values)@.to_multiset() == old(values)@.to_multiset(),
{
    values.sort_unstable();
}

/// The latencies in ascending order.
pub fn sorted_latencies(latencies: &Vec<u128>) -> (res: Vec<u128>)
    ensures
        sorted(res@),
        res@.to_multiset() == latencies@.to_multiset(),
        res@.len() == latencies@.len(),
{
    let mut res = latencies.clone();
    assert(res@ =~= latencies@);
    sort_numbers(&mut res);
    proof {
        vstd::seq_lib::to_multiset_len(res@);
        vstd::seq_lib::to_multiset_len(latencies@);
    }
    res
}

/// Where the number with the given rank stands among `len` numbers, the first having rank 1; a
/// rank that is too low or too high stands for the first or the last.
pub open spec fn rank_index(rank: int, len: int) -> int {
    if rank <= 1 {
        0
    } else if rank > len {
        len - 1
    } else {
        rank - 1
    }
}

/// The number with the given rank.
pub fn percentile(sorted: &Vec<u128>, rank: usize) -> (value: u128)
    requires
        sorted@.len() > 0,
    ensures
        value == sorted@[rank_index(rank as int, sorted@.len() as int)],
{
    let last: usize = sorted.len() - 1;
    let index: usize = if rank == 0 {
        0
    } else if rank - 1 < last {
        rank - 1
    } else {
        last
    };
    sorted[index]
}

/// As many numbers as the rank says are at most as large as the number with that rank, and all
/// that follow are at least as large.
pub proof fn percentile_splits_the_sorted_numbers(values: Seq<u128>, rank: int)
    requires
        sorted(values),
        1 <= rank <= values.len(),
    ensures
        forall|i: int|
            0 <= i < rank ==> #[trigger] values[i] <= values[rank_index(
                rank,
                values.len() as int,
            )],
        forall|i: int|
            rank - 1 <= i < values.len() ==> values[rank_index(rank, values.len() as int)]
                <= #[trigger] values[i],
{
}

// ---------------------------------------------------------------------------
// Lines
// ---------------------------------------------------------------------------

/// What lines say.
pub open spec fn line_views(lines: Seq<String>) -> Seq<Seq<char>> {
    lines.map_values(|line: String| line@)
}

fn push_line(lines: &mut Vec<String>, line: String)
    ensures
        line_views(final(lines)@) == line_views(old(lines)@).push(line@),
{
    lines.push(line);
    assert(line_views(lines@) =~= line_views(old(lines)@).push(line@));
}

/// A line of three parts.
fn line_of(label: &str, value: &str, unit: &str) -> (line: String)
    ensures
        line@ == label@ + value@ + unit@,
{
    let mut line = label.to_owned();
    line.append(value);
    line.append(unit);
    line
}

/// A line with a number at its end.
fn count_line(label: &str, value: u64) -> (line: String)
    ensures
        line@ == label@ + crate::text::decimal(value as nat),
{
    let mut line = label.to_owned();
    push_decimal(&mut line, value);
    line
}

/// A line with a number and its unit at its end.
fn number_line(label: &str, value: u64, unit: &str) -> (line: String)
    ensures
        line@ == label@ + crate::text::decimal(value as nat) + unit@,
{
    let mut line = count_line(label, value);
    line.append(unit);
    line
}

/// Where a database is, for people to read.
pub open spec fn s3_location(label: Seq<char>, db_path: Seq<char>) -> Seq<char> {
    label + S3_BUCKET@ + "/"@ + db_path
}

fn s3_line(label: &str, db_path: &str) -> (line: String)
    ensures
        line@ == s3_location(label@, db_path@),
{
    let mut line = label.to_owned();
    line.append(S3_BUCKET);
    line.append("/");
    line.append(db_path);
    line
}

/// What is printed before a run; `duration` is its length in seconds as text.
pub open spec fn configuration_text(config: ConfigView, duration: Seq<char>) -> Seq<Seq<char>> {
    let heading = seq![
        "SlateDB WAL benchmark"@,
        "WAL backend: "@ + config.plan.backend.name(),
        "run id: "@ + config.plan.run_id,
        "duration: "@ + duration + "s"@,
        "write target: 1,000 records/s"@,
        "record size: "@ + crate::text::decimal(KEY_SIZE as nat) + "-byte key, "@
            + crate::text::decimal(VALUE_SIZE as nat) + "-byte value"@,
        "sample interval: "@ + crate::text::decimal(SAMPLE_INTERVAL_MS as nat) + "ms"@,
    ];
    let backend = match config.kafka {
        Some(kafka) => heading.push(
            "Kafka WAL commit interval: "@ + crate::text::decimal(kafka.commit_interval_ms as nat)
                + "ms"@,
        ).push("Kafka properties: "@ + kafka.properties_path).push("Kafka topic: "@ + kafka.topic),
        None => heading.push(
            "object-store WAL poll interval: "@ + crate::text::decimal(
                OBJECT_STORE_WAL_POLL_INTERVAL_MS as nat,
            ) + "ms"@,
        ),
    };
    backend.push(s3_location("S3 path: s3://"@, config.plan.db_path))
}

/// The lines that are printed before a run; `duration` is its length in seconds as text.
pub fn configuration_lines(config: &BenchmarkConfig, duration: &str) -> (lines: Vec<String>)
    ensures
        line_views(lines@) == configuration_text(config@, duration@),
{
    let mut lines: Vec<String> = Vec::new();
    assert(line_views(lines@) =~= seq![]);
    push_line(&mut lines, "SlateDB WAL benchmark".to_owned());
    let mut line = "WAL backend: ".to_owned();
    line.append(config.backend.as_str());
    push_line(&mut lines, line);
    let mut line = "run id: ".to_owned();
    line.append(config.run_id.as_str());
    push_line(&mut lines, line);
    push_line(&mut lines, line_of("duration: ", duration, "s"));
    push_line(&mut lines, "write target: 1,000 records/s".to_owned());
    let mut line = "record size: ".to_owned();
    push_decimal(&mut line, KEY_SIZE as u64);
    line.append("-byte key, ");
    push_decimal(&mut line, VALUE_SIZE as u64);
    line.append("-byte value");
    push_line(&mut lines, line);
    push_line(&mut lines, number_line("sample interval: ", SAMPLE_INTERVAL_MS, "ms"));
    match &config.kafka {
        Some(kafka) => {
            push_line(
                &mut lines,
                number_line("Kafka WAL commit interval: ", kafka.commit_interval_ms, "ms"),
            );
            let mut line = "Kafka properties: ".to_owned();
            line.append(kafka.properties_path.as_str());
            push_line(&mut lines, line);
            let mut line = "Kafka topic: ".to_owned();
            line.append(kafka.topic.as_str());
            push_line(&mut lines, line);
        },
        None => {
            push_line(
                &mut lines,
                number_line(
                    "object-store WAL poll interval: ",
                    OBJECT_STORE_WAL_POLL_INTERVAL_MS,
                    "ms",
                ),
            );
        },
    }
    push_line(&mut lines, s3_line("S3 path: s3://", config.db_path.as_str()));
    lines
}

/// The figures of a report as text; times are in milliseconds.
#[derive(Debug)]
pub struct Figures {
    pub rate: String,
    pub average: String,
    pub p50: String,
    pub p90: String,
    pub p99: String,
}

/// What is printed after a run.
pub open spec fn results_text(outcome: BenchmarkOutcome, figures: Figures) -> Seq<Seq<char>> {
    seq![
        ""@,
        "Results"@,
        "writes: "@ + crate::text::decimal(outcome.writes as nat),
        "achieved write rate: "@ + figures.rate@ + " records/s"@,
        "verified samples: "@ + crate::text::decimal(outcome.latencies@.len()),
        "durable-to-readable latency:"@,
        "  average: "@ + figures.average@ + " ms"@,
        "  p50: "@ + figures.p50@ + " ms"@,
        "  p90: "@ + figures.p90@ + " ms"@,
        "  p99: "@ + figures.p99@ + " ms"@,
    ]
}

/// The lines that are printed after a run.
pub fn result_lines(outcome: &BenchmarkOutcome, figures: &Figures) -> (lines: Vec<String>)
    ensures
        line_views(lines@) == results_text(*outcome, *figures),
{
    let mut lines: Vec<String> = Vec::new();
    assert(line_views(lines@) =~= seq![]);
    push_line(&mut lines, "".to_owned());
    push_line(&mut lines, "Results".to_owned());
    push_line(&mut lines, count_line("writes: ", outcome.writes));
    push_line(&mut lines, line_of("achieved write rate: ", figures.rate.as_str(), " records/s"));
    push_line(&mut lines, count_line("verified samples: ", outcome.latencies.len() as u64));
    push_line(&mut lines, "durable-to-readable latency:".to_owned());
    push_line(&mut lines, line_of("  average: ", figures.average.as_str(), " ms"));
    push_line(&mut lines, line_of("  p50: ", figures.p50.as_str(), " ms"));
    push_line(&mut lines, line_of("  p90: ", figures.p90.as_str(), " ms"));
    push_line(&mut lines, line_of("  p99: ", figures.p99.as_str(), " ms"));
    lines
}

// ---------------------------------------------------------------------------
// The end of a run
// ---------------------------------------------------------------------------

/// How a run ends: what is still printed, and whether it succeeded.
#[derive(Debug)]
pub struct Conclusion {
    pub lines: Vec<String>,
    pub result: Result<(), BenchmarkError>,
}

/// What is printed of the things that a run leaves behind.
pub open spec fn retained_text(config: ConfigView) -> Seq<Seq<char>> {
    let topic = match config.kafka {
        Some(kafka) => seq!["Kafka topic retained: "@ + kafka.topic],
        None => seq![],
    };
    topic.push(s3_location("S3 data retained: s3://"@, config.plan.db_path))
}

/// The failure that a run is reported to have, of those that came up until its databases were
/// closed; the reader is closed before the writer, both whatever came before.
pub open spec fn first_failure(
    outcome: Result<BenchmarkOutcome, BenchmarkError>,
    reader_close: Result<(), String>,
    writer_close: Result<(), String>,
) -> Option<BenchmarkError> {
    match (outcome, reader_close, writer_close) {
        (Err(error), _, _) => Some(error),
        (Ok(_), Err(cause), _) => Some(BenchmarkError::ReaderClose { cause }),
        (Ok(_), Ok(_), Err(cause)) => Some(BenchmarkError::WriterClose { cause }),
        _ => None,
    }
}

/// How a run ends.
pub fn conclude(
    config: &BenchmarkConfig,
    outcome: Result<BenchmarkOutcome, BenchmarkError>,
    reader_close: Result<(), String>,
    writer_close: Result<(), String>,
) -> (conclusion: Conclusion)
    ensures
        match first_failure(outcome, reader_close, writer_close) {
            Some(error) => {
                &&& conclusion.lines@.len() == 0
                &&& conclusion.result == Err::<(), BenchmarkError>(error)
            },
            None => {
                &&& line_views(conclusion.lines@) == retained_text(config@)
                &&& conclusion.result == (if outcome->Ok_0.latencies@.len() == 0 {
                    Err::<(), BenchmarkError>(BenchmarkError::NoSamples)
                } else {
                    Ok(())
                })
            },
        },
{
    let mut lines: Vec<String> = Vec::new();
    let outcome = match outcome {
        Ok(outcome) => outcome,
        Err(error) => return Conclusion { lines, result: Err(error) },
    };
    match reader_close {
        Ok(_) => {},
        Err(cause) => return Conclusion {
            lines,
            result: Err(BenchmarkError::ReaderClose { cause }),
        },
    }
    match writer_close {
        Ok(_) => {},
        Err(cause) => return Conclusion {
            lines,
            result: Err(BenchmarkError::WriterClose { cause }),
        },
    }
    assert(line_views(lines@) =~= seq![]);
    match &config.kafka {
        Some(kafka) => {
            let mut line = "Kafka topic retained: ".to_owned();
            line.append(kafka.topic.as_str());
            push_line(&mut lines, line);
        },
        None => {},
    }
    push_line(&mut lines, s3_line("S3 data retained: s3://", config.db_path.as_str()));
    let result = if outcome.latencies.len() == 0 {
        Err(BenchmarkError::NoSamples)
    } else {
        Ok(())
    };
    Conclusion { lines, result }
}

} // verus!
