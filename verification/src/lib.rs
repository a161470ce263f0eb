//! DNS auto-configuration for Linux.
//!
//! A system is configured in one of several modes, depending on which program manages
//! `/etc/resolv.conf`. [`dns_mode`] detects the mode by asking questions about the system,
//! one at a time, and [`new_os_configurator`] picks the manager for it:
//!
//! - [`ResolvedManager`] configures systemd-resolved through `resolvectl`,
//! - [`ResolvconfManager`] registers settings with `resolvconf`,
//! - [`DirectManager`] writes `/etc/resolv.conf` itself.
//!
//! Nothing in this library touches the system. A manager says which commands to run and
//! which files to write, and is told how that went.
pub mod command;
pub mod conf;
pub mod conf_laws;
pub mod config;
pub mod direct;
pub mod direct_laws;
pub mod encoding;
pub mod factory;
pub mod files;
pub mod mode;
pub mod mode_laws;
pub mod network_manager;
pub mod nsswitch;
pub mod owner;
pub mod owner_laws;
pub mod resolvconf;
pub mod resolved;
pub mod resolver;
pub mod text;
pub mod text_laws;
pub mod view_laws;

pub use crate::command::{Command, Exit, NextStep};
pub use crate::config::OSConfig;
pub use crate::direct::{DirectManager, FileAction, FilesSeen};
pub use crate::factory::{mode_to_use, new_os_configurator, OsConfigurator};
pub use crate::mode::{dns_mode, Answer, DetectError, Detection, Question, Stage};
pub use crate::network_manager::{nm_is_using_resolved, nm_version_between};
pub use crate::nsswitch::{is_libnss_resolve_used, NssError};
pub use crate::owner::resolv_owner;
pub use crate::resolvconf::{resolvconf_style, version_command, ResolvconfManager, StyleProbe};
pub use crate::resolved::ResolvedManager;
pub use crate::resolver::{resolved_is_actually_resolver, Evidence, ResolverError};
