//! The rules of a SlateDB write-ahead log benchmark, and the inventory of the objects that a
//! checkpoint of a database refers to.
//!
//! A benchmark run writes records at a steady rate and samples how long it takes until a reader
//! that tails the log sees what the writer made durable. `config`, `properties`, `kafka` and
//! `opening` settle how a run is set up; `writer` and `sampler` decide, event by event, what its two tasks do next;
//! `report` puts what they measured into words.
//!
//! An inventory lists, in ascending order, every object that the view of a checkpoint is made of.
//! `inventory` says which objects these are, and `capture` leads through the reads of the object
//! store that it takes.
//!
//! Nothing here does input or output: callers perform the actions and reads that they are asked
//! for and hand back what came of them. What holds of all inputs, and of whole runs and captures,
//! is proved in the modules whose names end in `laws`.

pub mod capture;
pub mod config;
pub mod config_laws;
pub mod ids;
pub mod inventory;
pub mod inventory_laws;
pub mod kafka;
pub mod manifest;
pub mod object_path;
pub mod opening;
pub mod path_laws;
pub mod properties;
pub mod properties_laws;
pub mod report;
pub mod report_laws;
pub mod sampler;
pub mod sampler_laws;
pub mod storage_view;
pub mod tables;
pub mod text;
pub mod text_laws;
pub mod view_laws;
pub mod writer;
pub mod writer_laws;
