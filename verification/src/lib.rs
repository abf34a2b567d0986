//! The rules of a memory-protection benchmark.
//!
//! A protection job runs one or more scenarios. In the memory-hog scenario a
//! latency-sensitive workload is brought to a steady load, a memory hog is
//! started next to it, and the reports of both are studied for how much of
//! its throughput and latency the workload kept.
//!
//! This crate holds what such a job decides and computes: how a job is parsed
//! from its properties, which steps a run takes and what it records, how runs
//! are studied and results combined, and how results are laid out as text.
//! Measured quantities have a type `F` of the caller's choice. Single
//! operations on them, their text, the reports of a period, and the statistics
//! of a list of values come from functions that the caller hands in; which
//! operations are done on what, which reports are read for which values, and
//! what is shown where, is decided here.
//!
//! The modules whose names end in `_laws` or begin with `exact` state what holds
//! of all this together: what results mean as equations between numbers, how
//! calls relate to each other, and what can be told from a text.

pub mod arith;
pub mod call_laws;
pub mod combine;
pub mod combine_laws;
pub mod course;
pub mod error;
pub mod exact;
pub mod exact_combine;
pub mod exact_study;
pub mod impact_laws;
pub mod job;
pub mod job_call_laws;
pub mod job_laws;
pub mod layout;
pub mod lists;
pub mod mem_hog;
pub mod monitor;
pub mod number;
pub mod order;
pub mod page;
pub mod readings;
pub mod report;
pub mod scenario;
pub mod session;
pub mod session_laws;
pub mod show_laws;
pub mod speed;
pub mod strmap;
pub mod study;
pub mod study_laws;
pub mod text;
pub mod wording_laws;

