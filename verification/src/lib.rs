//! The decisions behind the DNS commands of a domain registrar's command-line client.
//!
//! `dns list`, `dns set` and `dns delete` work over an API that touches one record at a time. This
//! library holds what they decide: which calls to make, in which order, what to make of each reply,
//! and what to report in the end. It makes no call itself. A run asks for one call at a time and
//! takes the reply to it; whoever drives it talks to the API.
//!
//! * [`client`] and [`endpoint`]: the authenticated HTTP client, and where each operation goes.
//! * [`api`]: the calls and the replies.
//! * [`list`], [`delete`] and [`set`]: the commands.
//! * [`plan`], [`write`](mod@write) and [`outcome`]: the parts of `dns set`, which are the plan, a
//!   single write with its conflicts, and the outcomes.
//! * [`text`] and [`json`]: what messages and results are made of.
//! * [`write_laws`], [`set_laws`], [`zone_laws`], [`effect_laws`], [`success_laws`],
//!   [`delete_laws`] and [`run_laws`]: what holds of whole runs.
//! * [`text_laws`], [`api_laws`], [`endpoint_laws`] and [`report_laws`]: what holds of texts, calls,
//!   requests and reports.
//! * [`call_laws`]: what holds of every call of the functions above.

pub mod api;
pub mod api_laws;
pub mod call_laws;
pub mod client;
pub mod delete;
pub mod delete_laws;
pub mod effect_laws;
pub mod endpoint;
pub mod endpoint_laws;
pub mod json;
pub mod list;
pub mod outcome;
pub mod plan;
pub mod report_laws;
pub mod run_laws;
pub mod set;
pub mod set_laws;
pub mod success_laws;
pub mod text;
pub mod text_laws;
pub mod write;
pub mod write_laws;
pub mod zone_laws;
