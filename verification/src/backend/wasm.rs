//! Decisions of the browser backend (Web Bluetooth): how `requestDevice`
//! options become the browser's request.

use vstd::prelude::*;

pub use crate::backend::WriteMode;

verus! {

/// The `requestDevice` options after parsing: normalized service UUIDs,
/// normalized optional service UUIDs and an optional name prefix.
pub struct RequestDeviceOptionsInput {
    pub services: Vec<String>,
    pub optional_services: Vec<String>,
    pub name_prefix: Option<String>,
}

impl Default for RequestDeviceOptionsInput {
    /// No services, no optional services, no name prefix.
    fn default() -> (res: Self)
        ensures
            res.services@.len() == 0,
            res.optional_services@.len() == 0,
            res.name_prefix is None,
    {
        RequestDeviceOptionsInput { services: Vec::new(), optional_services: Vec::new(), name_prefix: None }
    }
}

/// The one scan filter of a browser request.
pub struct DeviceFilterPlan {
    pub name_prefix: Option<String>,
    pub services: Option<Vec<String>>,
}

/// The browser request: either any device is accepted, or one filter
/// applies; optional services are granted when there are any.
pub struct RequestDevicePlan {
    pub accept_all_devices: bool,
    pub filter: Option<DeviceFilterPlan>,
    pub optional_services: Option<Vec<String>>,
}

/// Builds the browser request: with neither services nor a name prefix every
/// device is accepted; otherwise one filter carries the name prefix (if any)
/// and the services (if any). Optional services are passed only when there
/// are some.
pub fn request_device_plan(options: RequestDeviceOptionsInput) -> (res: RequestDevicePlan)
    ensures
        res.accept_all_devices == (options.services@.len() == 0 && options.name_prefix is None),
        res.accept_all_devices ==> res.filter is None,
        !res.accept_all_devices ==> (res.filter matches Some(f) && f.name_prefix == options.name_prefix
            && (options.services@.len() == 0 ==> f.services is None) && (options.services@.len() > 0
            ==> (f.services matches Some(s) && s@ == options.services@))),
        options.optional_services@.len() == 0 ==> res.optional_services is None,
        options.optional_services@.len() > 0 ==> (res.optional_services matches Some(o) && o@
            == options.optional_services@),
{
    let RequestDeviceOptionsInput { services, optional_services, name_prefix } = options;
    let accept_all_devices = services.len() == 0 && name_prefix.is_none();
    let filter = if accept_all_devices {
        None
    } else {
        let services = if services.len() == 0 {
            None
        } else {
            Some(services)
        };
        Some(DeviceFilterPlan { name_prefix, services })
    };
    let optional_services = if optional_services.len() == 0 {
        None
    } else {
        Some(optional_services)
    };
    RequestDevicePlan { accept_all_devices, filter, optional_services }
}

} // verus!
