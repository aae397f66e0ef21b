//! Inventory and staged toggling of autostart entries: the entry model, the
//! decisions of each source adapter, change staging with apply orchestration,
//! and backup snapshots.

pub mod apply;
pub mod backup;
pub mod digest;
mod error;
pub mod folder;
pub mod groups;
pub mod icons;
mod item;
pub mod order;
pub mod pending;
pub mod registry;
pub mod relocation;
pub mod services;
mod source_type;
pub mod sources;
pub mod state;
mod status;
pub mod tasks;
pub mod text;

pub use apply::{ApplyPhase, ApplySession, ApplyStep};
pub use backup::{Backup, Timestamp};
pub use error::Error;
pub use folder::StartupFolderScanner;
pub use icons::{get_source_icon, Borders, Icons};
pub use item::{EnvVars, StartupItem};
pub use pending::PendingChange;
pub use registry::{RegistryHive, RegistryScanner};
pub use relocation::{Relocation, RelocationStep, RegistryEvent};
pub use services::ServicesScanner;
pub use source_type::{AdapterKind, SourceType};
pub use sources::{admin_warning, merge_scans, modification, Modification};
pub use state::{AppState, ConfirmAction, DisplayItem, MessageType, ViewMode};
pub use status::ItemStatus;
pub use tasks::{parse_csv_line, TaskSchedulerScanner};
pub use text::truncate_str;
