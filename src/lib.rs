//! Log aggregation across the pods of a deployment, with optional line
//! filtering, plus the small pieces of decision logic behind the inventory
//! listing and the provider setup commands.
pub mod aggregate;
pub mod filter;
pub mod inventory;
pub mod laws;
pub mod output;
pub mod pattern;
pub mod setup;
pub mod text;

pub use aggregate::{aggregate_logs, FetchError, LogCollector, LogReport};
pub use filter::{filter_logs, select_lines, tag_line};
pub use inventory::{int_text, join_images, pod_row, workload_row, PodRow, PodSummary, WorkloadRow, WorkloadSummary};
pub use output::{label_selector, log_file_name, log_sink, named_pods, LogSink};
pub use pattern::{LinePattern, PatternError};
pub use setup::{parse_choice, provider_for_choice, Provider, ProviderCommand};
pub use text::join_lines;
