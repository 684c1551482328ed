//! The decision logic of the Orion scheduler service, which keeps one VM
//! alive for Orion deployments and serves its logs over HTTP.
//!
//! - `text`: character-level searching, trimming, line splitting, joining.
//! - `logs`: ANSI stripping, colouring and decorating log lines, the log
//!   page and its sections, and the split of the combined log.
//! - `stream`: what each poll of the live log stream sends.
//! - `config`: the target configuration store.
//! - `state`: the VM's details and the slots that hold the running VM.
//! - `handlers`: the answer of each HTTP endpoint.
//! - `keep_alive`: the image a new VM boots from, and its address.
pub mod text;
pub mod logs;
pub mod stream;
pub mod config;
pub mod state;
pub mod handlers;
pub mod keep_alive;
