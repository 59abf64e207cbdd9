//! Installs a CA certificate into the host's trust stores and removes it again.
//!
//! The library decides; the caller acts. Every filesystem and process effect is
//! requested through an [`Action`] and answered with an [`Event`], so each
//! decision is a verified function of plain values.
use vstd::prelude::*;

pub mod error;
pub mod names;
pub mod nss;
pub mod registry;
pub mod session;
pub mod store;
pub mod text;

pub use error::CaError;
pub use names::{file_name, template_filename, tr_filename};
pub use registry::{append_path, redact_path, registry_lists, split_registry};
pub use session::{install_ca, uninstall_ca, Action, Event, Op, Session};
pub use store::{candidate_dirs, get_trust_store_command, TrustStoreLayout};

verus! {

} // verus!
