//! Binary telemetry formats for racing-simulator recordings: byte-level
//! codecs, the v1 chunked format, the v2 columnar format, item keys, lap
//! segmentation and column decoding, each with its contract.

pub mod cli_args;
pub mod commands;
pub mod codec;
pub mod compute;
pub mod dashboard;
pub mod distributor;
pub mod encode_v2;
pub mod error;
pub mod format;
pub mod format_v2;
pub mod frame_window;
pub mod item_key;
pub mod lap_report;
pub mod laps;
pub mod latest_value;
pub mod raw_catalog;
pub mod raw_pages;
pub mod reader;
pub mod recorder;
pub mod reader_v2;
pub mod samples;
pub mod schedule;
pub mod subscriptions;
pub mod text;
pub mod text_order;
