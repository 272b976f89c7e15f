//! A pluggable test harness: registration, selection, scheduling and reporting of test
//! cases.
//!
//! Cases register themselves in a [`distributed_list`]. The [`harness`] tells a reporter of
//! every case, keeps those that the options select and puts them in the order in which
//! they run ([`select`]). A [`run`] executes them: the [`schedule`] splits them into the
//! lane of the cases that may run in parallel and the lane of the exclusive ones, and
//! decides what the first lane does next. What happens is told to a reporter as a
//! stream of events ([`event`], [`notify`]); the [`notify::summary`] of the stream gives
//! the final report. The options come from the command line ([`cli`], [`opts`]), in which
//! an argument may stand for the lines of a file ([`argfile`]); the machine-readable
//! report is written as JSON ([`json_write`]).

pub mod argfile;
pub mod case;
pub mod cases;
pub mod cli;
pub mod context;
pub mod distributed_list;
pub mod error;
pub mod event;
pub mod harness;
pub mod json_write;
pub mod mimic;
pub mod notify;
pub mod opts;
pub mod panic;
pub mod run;
pub mod schedule;
pub mod select;
pub mod text;
