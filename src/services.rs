use vstd::prelude::*;

use crate::item::{EnvVars, StartupItem};
use crate::source_type::{AdapterKind, SourceType};
use crate::status::ItemStatus;

verus! {

/// A service that a boot loader starts.
pub const SERVICE_BOOT_START: u32 = 0;

/// A service that the kernel starts during initialisation.
pub const SERVICE_SYSTEM_START: u32 = 1;

/// A service that the service control manager starts at boot.
pub const SERVICE_AUTO_START: u32 = 2;

/// A service started on demand.
pub const SERVICE_DEMAND_START: u32 = 3;

/// Whether a service configured with this start type launches by itself.
pub open spec fn starts_itself(start_type: u32) -> bool {
    start_type == SERVICE_AUTO_START || start_type == SERVICE_BOOT_START || start_type
        == SERVICE_SYSTEM_START
}

/// The adapter for services.
pub struct ServicesScanner;

impl ServicesScanner {
    pub fn new() -> (r: ServicesScanner) {
        ServicesScanner
    }

    /// The source types this adapter owns.
    pub fn source_types(&self) -> (r: Vec<SourceType>)
        ensures
            r@ == seq![SourceType::WindowsService],
            forall|k: int| 0 <= k < r@.len() ==> (#[trigger] r@[k]).owner() == AdapterKind::Service,
    {
        vec![SourceType::WindowsService]
    }

    /// The UTF-16 code units of a service name and a closing NUL.
    pub fn to_wide(s: &str) -> (r: Vec<u16>)
        ensures
            r@ == crate::registry::utf16_of(s@).push(0),
    {
        crate::registry::to_wide(s)
    }

    /// Whether a service with this start type is an autostart entry.
    pub fn is_autostart(start_type: u32) -> (r: bool)
        ensures
            r == starts_itself(start_type),
    {
        start_type == SERVICE_AUTO_START || start_type == SERVICE_BOOT_START || start_type
            == SERVICE_SYSTEM_START
    }

    /// The entry of a service, if its start type makes it start by itself:
    /// named by its display name, located by its service name, enabled.
    pub fn service_item(
        &self,
        service_name: String,
        display_name: String,
        start_type: u32,
        binary_path: String,
        env: &EnvVars,
    ) -> (r: Option<StartupItem>)
        ensures
            !starts_itself(start_type) ==> r is None,
            starts_itself(start_type) ==> (r matches Some(it) && {
                &&& it.built_under(*env)
                &&& it.name == display_name
                &&& it.source == SourceType::WindowsService
                &&& it.source_location == service_name
                &&& it.command == binary_path
                &&& it.status == ItemStatus::Enabled
                &&& it.publisher is None
                &&& (it.description matches Some(d) && d@ == "Service: "@ + service_name@)
            }),
    {
        if !Self::is_autostart(start_type) {
            return None;
        }
        let description = String::from_str("Service: ").concat(service_name.as_str());
        let item = StartupItem::new(display_name, SourceType::WindowsService, service_name, binary_path, env)
            .with_status(ItemStatus::Enabled)
            .with_description(Some(description));
        Some(item)
    }

    /// The start type that enabling or disabling a service sets: automatic
    /// start to enable, start on demand to disable; none for `Unknown`.
    pub fn start_type_for(status: ItemStatus) -> (r: Option<u32>)
        ensures
            status == ItemStatus::Enabled ==> r == Some(SERVICE_AUTO_START),
            status == ItemStatus::Disabled ==> r == Some(SERVICE_DEMAND_START),
            status == ItemStatus::Unknown ==> r is None,
    {
        match status {
            ItemStatus::Enabled => Some(SERVICE_AUTO_START),
            ItemStatus::Disabled => Some(SERVICE_DEMAND_START),
            ItemStatus::Unknown => None,
        }
    }
}

} // verus!
