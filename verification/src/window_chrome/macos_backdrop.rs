//! The native material behind the sidebar.

use vstd::prelude::*;

verus! {

/// How the material is shown.
#[derive(Clone, Copy, Debug, PartialEq, Eq, Structural)]
pub struct SidebarMaterial {
    pub is_light: bool,
    pub is_enabled: bool,
}

/// What has to be told to the window system.
#[derive(Clone, Copy, Debug, PartialEq, Eq, Structural)]
pub struct MaterialChange {
    /// The new appearance, if it changes.
    pub appearance: Option<bool>,
    /// The new visibility, if it changes.
    pub enabled: Option<bool>,
}

/// Brings the material in line with the settings: only what differs is told.
/// Without a material there is nothing to tell.
pub fn sync_subtle_sidebar_material(
    material: &mut Option<SidebarMaterial>,
    is_light: bool,
    is_enabled: bool,
) -> (r: MaterialChange)
    ensures
        match *old(material) {
            Some(m) => {
                &&& *final(material) == Some(SidebarMaterial { is_light, is_enabled })
                &&& r.appearance == (if m.is_light != is_light {
                    Some(is_light)
                } else {
                    None
                })
                &&& r.enabled == (if m.is_enabled != is_enabled {
                    Some(is_enabled)
                } else {
                    None
                })
            },
            None => *final(material) is None && r == (MaterialChange {
                appearance: None,
                enabled: None,
            }),
        },
{
    match *material {
        Some(m) => {
            let appearance = if m.is_light != is_light {
                Some(is_light)
            } else {
                None
            };
            let enabled = if m.is_enabled != is_enabled {
                Some(is_enabled)
            } else {
                None
            };
            *material = Some(SidebarMaterial { is_light, is_enabled });
            MaterialChange { appearance, enabled }
        },
        None => MaterialChange { appearance: None, enabled: None },
    }
}

} // verus!
