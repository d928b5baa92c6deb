//! Core logic of a one-shot token guard for process environment variables.
//!
//! A loader-injected shim intercepts the process's environment lookups and
//! shields a bounded protect-list of secret variable names: the first lookup
//! of a protected name captures its value into library-owned storage and
//! removes the entry from the raw environment table, so later out-of-band
//! scans of that table no longer see the secret. This crate follows the
//! *replay* policy: every later lookup of an already-captured name returns
//! the same retained value, so the process itself can keep reading its
//! secret while external inspection cannot.
//!
//! This library holds the verified decision logic: protect-list construction
//! from an operator-supplied configuration value, the per-name state machine
//! (pass-through, first capture, replay), the raw-table exposure scan, and
//! the value obscuring used by diagnostic output. The thin unverified shim
//! around it performs the actual symbol resolution, C-string conversion,
//! locking and table mutation, and hands this library plain values.

pub mod config;
pub mod exposure;
pub mod handler;
pub mod logfmt;
pub mod state;

pub use config::InitSource;
pub use config::default_sensitive_tokens;
pub use config::init_token_list;
pub use config::is_debug_enabled;
pub use config::parse_token_list;
pub use exposure::ExposureStatus;
pub use exposure::check_task_environ_exposure;
pub use exposure::remove_name_from_table;
pub use handler::CaptureOutcome;
pub use handler::LookupDecision;
pub use handler::classify_lookup;
pub use handler::record_first_access;
pub use logfmt::format_token_value;
pub use state::AccessRecord;
pub use state::MAX_TOKENS;
pub use state::TokenState;
pub use state::is_sensitive_token;
