//! The decisions behind `kueueski`, a command-line tool that operates BullMQ queues.
//!
//! Everything here works on plain values and is proved against its contract. The tool around it
//! talks to Redis, to processes and to the terminal.
//!
//! - Values on the command line: [`redis_url`], [`numbers`], [`duration`], [`data`].
//! - Settings: [`options`].
//! - Handler commands: [`command`], [`handler`], [`bounded`], [`process`], [`result`].
//! - Workers: [`worker`].
//! - What is printed: [`output`], [`failure`], [`queue`], [`json`], [`text`].

pub mod bounded;
pub mod command;
pub mod data;
pub mod duration;
pub mod failure;
pub mod handler;
pub mod json;
pub mod numbers;
pub mod options;
pub mod output;
pub mod process;
pub mod queue;
pub mod redis_url;
pub mod result;
pub mod text;
pub mod worker;
