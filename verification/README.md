# SlateDB WAL benchmark

Runs a SlateDB writer and a reader that tails the same write-ahead log (WAL), on Kafka or on the
native object-store log. The workload targets 1,000 writes per second and, every 100 ms, waits for
the latest write to become durable, waits for the reader to expose its sequence number, verifies the
value, and records the latency between the two.

Beside the benchmark, the library lists the physical objects that a checkpoint of a database refers
to: its manifest, the part of the log that is not in the trees yet, and the tables of the trees, each
under the database that owns it.

## Layout

- `src/` is the library. The functions state in their contracts what they return, and Verus proves
  it. Two rest on chance and the clock and can say less: the keys and values that are written have
  stated lengths and random contents, and the identifier of a run is that of some ULID.
  - `text`, `ids`, `object_path`: characters, numbers, identifiers and object paths.
  - `tables`, `manifest`, `storage_view`, `inventory`, `capture`: the inventory of a checkpoint.
  - `properties`, `config`, `kafka`, `opening`: how a run is set up.
  - `writer`, `sampler`, `report`: what a run does and what is printed of it.
  - `inventory_laws`, `writer_laws`, `sampler_laws`: what holds of every capture and every run.
- `tests/` runs the library, with the crates it calls.
- `app/` is the program: it reads the environment, talks to S3, Kafka and the storage engine, and
  prints.

Calls into other crates stand behind small functions marked `external_body`; the comment above each
of them says what is claimed of the call.

## Settings

- `WAL_BACKEND`: `kafka` or `object_store`; defaults to `kafka`.
- `TEST_DURATION_SECONDS`: defaults to `60`.
- `KAFKA_CLIENT_PROPERTIES`: properties file path; defaults to `client.properties`.
- `KAFKA_BOOTSTRAP_SERVERS`: brokers, in place of `bootstrap.servers` in the properties file.
- `KAFKA_COMMIT_INTERVAL_MS`: Kafka transaction commit interval; defaults to `100`.
- `KAFKA_TOPIC_PREFIX`: per-run topic prefix; defaults to `slatedb-kafka-wal-example`.
- `KAFKA_DEBUG`: librdkafka debug facilities such as `security,broker,protocol`.

Every run creates and retains a database under
`s3://opendata-vector-bench/wal-rfc-proto/<run-id>`. Kafka runs also create and retain a
one-partition topic named `<prefix>-<run-id>`.
