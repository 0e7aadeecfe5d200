//! What a report says and how a run ends, stated over what was measured.

use vstd::prelude::*;

use crate::config::{ConfigView, KafkaConfigView, WalBackend};
use crate::report::{BenchmarkError, BenchmarkOutcome, Figures};

verus! {

/// The number with rank 1 is the first, each further rank is one place on, and ranks below and above
/// stand for the first and the last.
pub proof fn ranks_count_from_the_least(rank: int, len: int)
    requires
        len > 0,
    ensures
        1 <= rank <= len ==> crate::report::rank_index(rank, len) == rank - 1,
        rank < 1 ==> crate::report::rank_index(rank, len) == 0,
        rank > len ==> crate::report::rank_index(rank, len) == len - 1,
{
}

/// Sorted numbers are in ascending order.
pub proof fn sorted_numbers_ascend(values: Seq<u128>, i: int, j: int)
    requires
        0 <= i <= j < values.len(),
    ensures
        crate::report::sorted(values) ==> values[i] <= values[j],
{
}

/// Lines say what each of them says.
pub proof fn lines_say_what_each_says(lines: Seq<String>)
    ensures
        crate::report::line_views(lines).len() == lines.len(),
        forall|i: int|
            0 <= i < lines.len() ==> #[trigger] crate::report::line_views(lines)[i] == lines[i]@,
{
}

/// The lines before a run name its backend, its identifier, its duration, the workload and where its
/// data goes.
pub proof fn configuration_names_the_run(config: ConfigView, duration: Seq<char>)
    ensures
        ({
            let lines = crate::report::configuration_text(config, duration);
            &&& lines.len() == (if config.kafka is Some {
                11int
            } else {
                9int
            })
            &&& lines[0] == "SlateDB WAL benchmark"@
            &&& config.plan.backend == WalBackend::Kafka ==> lines[1] == "WAL backend: "@
                + "kafka"@
            &&& config.plan.backend == WalBackend::ObjectStore ==> lines[1] == "WAL backend: "@
                + "object_store"@
            &&& lines[2] == "run id: "@ + config.plan.run_id
            &&& lines[3] == "duration: "@ + duration + "s"@
            &&& lines[4] == "write target: 1,000 records/s"@
            &&& lines[5] == "record size: "@ + crate::text::decimal(32) + "-byte key, "@
                + crate::text::decimal(512) + "-byte value"@
            &&& lines[6] == "sample interval: "@ + crate::text::decimal(100) + "ms"@
            &&& lines.last() == "S3 path: s3://"@ + "opendata-vector-bench"@ + "/"@
                + config.plan.db_path
        }),
{
}

/// For a run on Kafka they name its commit interval, its properties file and its topic; for a run on
/// the object store, how often the log is looked at.
pub proof fn configuration_names_the_log(
    config: ConfigView,
    kafka: KafkaConfigView,
    duration: Seq<char>,
)
    ensures
        ({
            let lines = crate::report::configuration_text(config, duration);
            &&& config.kafka == Some(kafka) ==> {
                &&& lines[7] == "Kafka WAL commit interval: "@ + crate::text::decimal(
                    kafka.commit_interval_ms as nat,
                ) + "ms"@
                &&& lines[8] == "Kafka properties: "@ + kafka.properties_path
                &&& lines[9] == "Kafka topic: "@ + kafka.topic
            }
            &&& config.kafka is None ==> lines[7] == "object-store WAL poll interval: "@
                + crate::text::decimal(10) + "ms"@
        }),
{
}

/// The report gives the number of writes, their rate, the number of samples and the four latencies.
pub proof fn report_gives_every_figure(outcome: BenchmarkOutcome, figures: Figures)
    ensures
        ({
            let lines = crate::report::results_text(outcome, figures);
            &&& lines.len() == 10
            &&& lines[0].len() == 0
            &&& lines[1] == "Results"@
            &&& lines[2] == "writes: "@ + crate::text::decimal(outcome.writes as nat)
            &&& lines[3] == "achieved write rate: "@ + figures.rate@ + " records/s"@
            &&& lines[4] == "verified samples: "@ + crate::text::decimal(
                outcome.latencies@.len(),
            )
            &&& lines[5] == "durable-to-readable latency:"@
            &&& lines[6] == "  average: "@ + figures.average@ + " ms"@
            &&& lines[7] == "  p50: "@ + figures.p50@ + " ms"@
            &&& lines[8] == "  p90: "@ + figures.p90@ + " ms"@
            &&& lines[9] == "  p99: "@ + figures.p99@ + " ms"@
        }),
{
    reveal_strlit("");
}

/// What a run leaves behind is named: its topic, where it has one, and its data.
pub proof fn what_is_retained_is_named(config: ConfigView, kafka: KafkaConfigView)
    ensures
        ({
            let lines = crate::report::retained_text(config);
            let data = "S3 data retained: s3://"@ + "opendata-vector-bench"@ + "/"@
                + config.plan.db_path;
            &&& config.kafka == Some(kafka) ==> lines.len() == 2 && lines[0]
                == "Kafka topic retained: "@ + kafka.topic && lines[1] == data
            &&& config.kafka is None ==> lines.len() == 1 && lines[0] == data
        }),
{
}

/// A run that failed is reported with its own failure; one that did not, with that of closing the
/// reader before that of closing the writer; and with none exactly when all three succeeded.
pub proof fn first_failure_decides(
    outcome: Result<BenchmarkOutcome, BenchmarkError>,
    reader_close: Result<(), String>,
    writer_close: Result<(), String>,
)
    ensures
        ({
            let failure = crate::report::first_failure(outcome, reader_close, writer_close);
            &&& failure is None <==> outcome is Ok && reader_close is Ok && writer_close is Ok
            &&& outcome matches Err(error) ==> failure == Some(error)
            &&& outcome is Ok ==> (reader_close matches Err(cause) ==> failure == Some(
                BenchmarkError::ReaderClose { cause },
            ))
            &&& outcome is Ok && reader_close is Ok ==> (writer_close matches Err(cause) ==> failure
                == Some(BenchmarkError::WriterClose { cause }))
        }),
{
}

} // verus!
