//! A digital-signage player for store screens: everything it decides, apart from the window, the
//! sockets and the disk that it is decided for.
//!
//! A screen plays one video forever. A management server tells it over a WebSocket which one, the
//! screen downloads and verifies it, swaps it in once the webview has let go of the old file, and
//! reports back. The modules:
//!
//! - [`app`]: the state of a screen, and what the webview asks of it
//! - [`launch`] and [`cli`]: what a launch decides, and provisioning from the command line
//! - [`config`] and [`ident`]: what a screen remembers, and the identities it draws
//! - [`store`] and [`store_laws`]: which files are kept, evicted and moved
//! - [`download`], [`fetch`], [`download_laws`] and [`fetch_laws`]: a download step by step, on the
//!   SHA-256 of [`digest`]
//! - [`service`] and [`service_laws`]: the control channel, its sessions and its assignments
//! - [`protocol`] and [`json`]: the messages, and how they go over the wire
//! - [`media_server`]: what the webview's requests for video are answered with
//! - [`logs`]: the rotating log
//! - [`text`]: the operations on text that all of it is stated in

pub mod app;
pub mod cli;
pub mod config;
pub mod digest;
pub mod download;
pub mod download_laws;
pub mod fetch;
pub mod fetch_laws;
pub mod ident;
pub mod json;
pub mod launch;
pub mod logs;
pub mod media_server;
pub mod protocol;
pub mod service;
pub mod service_laws;
pub mod store;
pub mod store_laws;
pub mod text;
