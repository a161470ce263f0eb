use crate::direct::DirectManager;
use crate::mode;
use crate::mode::{DetectError, DetectErrorView, Host};
use crate::owner;
use crate::resolvconf;
use crate::resolvconf::ResolvconfManager;
use crate::resolved::ResolvedManager;
use crate::text;
use crate::text::Text;
use vstd::prelude::*;

verus! {

/// The manager that configures DNS on a system.
#[derive(Debug, PartialEq, Eq)]
pub enum OsConfigurator {
    /// Through systemd-resolved.
    Resolved(ResolvedManager),
    /// Through `resolvconf`.
    Resolvconf(ResolvconfManager),
    /// By writing `/etc/resolv.conf`.
    Direct(DirectManager),
}

/// The values of an `OsConfigurator`.
pub enum OsConfiguratorView {
    /// With the name of the interface.
    Resolved(Text),
    /// With the label under which the settings are registered.
    Resolvconf(Text),
    Direct,
}

impl View for OsConfigurator {
    type V = OsConfiguratorView;

    open spec fn view(&self) -> OsConfiguratorView {
        match *self {
            OsConfigurator::Resolved(manager) => OsConfiguratorView::Resolved(manager@),
            OsConfigurator::Resolvconf(manager) => OsConfiguratorView::Resolvconf(manager@),
            OsConfigurator::Direct(_) => OsConfiguratorView::Direct,
        }
    }
}

/// The mode to use: the one detected, or "direct" if detection failed.
pub open spec fn mode_in_use(detected: Result<Text, DetectErrorView>) -> Text {
    match detected {
        Ok(mode) => mode,
        Err(_) => "direct"@,
    }
}

/// The manager for a mode.
pub open spec fn configurator_for(interface_name: Text, mode: Text) -> OsConfiguratorView {
    if mode == "systemd-resolved"@ {
        OsConfiguratorView::Resolved(interface_name)
    } else if mode == "debian-resolvconf"@ || mode == "openresolv"@ {
        OsConfiguratorView::Resolvconf(resolvconf::label(interface_name))
    } else {
        OsConfiguratorView::Direct
    }
}

/// The mode to use: the one detected, or "direct" if detection failed.
pub fn mode_to_use(detected: Result<String, DetectError>) -> (r: String)
    ensures
        r@ == mode_in_use(mode::outcome_of(detected)),
{
    match detected {
        Ok(mode) => mode,
        Err(_) => "direct".to_string(),
    }
}

/// Return the manager for the DNS management mode that was detected. Where detection
/// failed, it falls back to direct.
pub fn new_os_configurator(
    interface_name: &str,
    detected: Result<String, DetectError>,
) -> (r: OsConfigurator)
    ensures
        r@ == configurator_for(interface_name@, mode_in_use(mode::outcome_of(detected))),
{
    let mode = mode_to_use(detected);
    if text::same_text(mode.as_str(), "systemd-resolved") {
        OsConfigurator::Resolved(ResolvedManager::new(interface_name))
    } else if text::same_text(mode.as_str(), "debian-resolvconf") || text::same_text(
        mode.as_str(),
        "openresolv",
    ) {
        OsConfigurator::Resolvconf(ResolvconfManager::new(interface_name))
    } else {
        OsConfigurator::Direct(DirectManager::new())
    }
}

/// The names of the modes are different.
proof fn lemma_modes_differ()
    ensures
        "direct"@ != "systemd-resolved"@,
        "direct"@ != "debian-resolvconf"@,
        "direct"@ != "openresolv"@,
        "systemd-resolved"@ != "debian-resolvconf"@,
        "systemd-resolved"@ != "openresolv"@,
{
    reveal_strlit("direct");
    reveal_strlit("systemd-resolved");
    reveal_strlit("debian-resolvconf");
    reveal_strlit("openresolv");
    assert("direct"@.len() == 6);
    assert("systemd-resolved"@.len() == 16);
    assert("debian-resolvconf"@.len() == 17);
    assert("openresolv"@.len() == 10);
}

/// Where detection fails, `/etc/resolv.conf` is written directly.
pub proof fn failure_falls_back_to_direct(interface_name: Text, e: DetectErrorView)
    ensures
        configurator_for(interface_name, mode_in_use(Err(e))) is Direct,
{
    lemma_modes_differ();
}

/// Each mode has its manager: systemd-resolved is used in its own mode alone,
/// `resolvconf` in the modes of its two implementations alone, and `/etc/resolv.conf` is
/// written only as the last resort.
pub proof fn each_mode_has_its_manager(interface_name: Text, mode: Text)
    requires
        mode::is_mode(mode),
    ensures
        configurator_for(interface_name, mode) is Resolved <==> mode == "systemd-resolved"@,
        configurator_for(interface_name, mode) is Resolvconf <==> mode == "debian-resolvconf"@
            || mode == "openresolv"@,
        configurator_for(interface_name, mode) is Direct <==> mode == "direct"@,
{
    lemma_modes_differ();
}

/// Which manager a system gets: that of systemd-resolved if and only if it owns
/// `resolv.conf` and is the resolver in use, or NetworkManager owns it and leaves DNS to
/// systemd-resolved, which is up.
pub proof fn resolved_is_used_only_where_it_resolves(interface_name: Text, host: Host)
    ensures
        configurator_for(interface_name, mode_in_use(host.mode())) is Resolved <==> (
        host.resolv_conf matches Ok(content) && {
            ||| owner::owner(content) == "systemd-resolved"@ && host.uses_resolved(content)
            ||| owner::owner(content) == "NetworkManager"@ && host.resolved_up
                && host.nm_is_using_resolved
        }),
{
    lemma_modes_differ();
    reveal_strlit("systemd-resolved");
    reveal_strlit("NetworkManager");
    reveal_strlit("resolvconf");
    assert("systemd-resolved"@.len() == 16);
    assert("NetworkManager"@.len() == 14);
    assert("resolvconf"@.len() == 10);
}

/// The manager for each mode, and what it is for: systemd-resolved for the interface,
/// `resolvconf` under the label of the interface, and direct management for every other
/// text.
pub proof fn managers_are_for_the_interface(interface_name: Text, mode: Text)
    ensures
        configurator_for(interface_name, "systemd-resolved"@) == OsConfiguratorView::Resolved(
            interface_name,
        ),
        configurator_for(interface_name, "debian-resolvconf"@) == OsConfiguratorView::Resolvconf(
            interface_name + ".easytier"@,
        ),
        configurator_for(interface_name, "openresolv"@) == OsConfiguratorView::Resolvconf(
            interface_name + ".easytier"@,
        ),
        mode != "systemd-resolved"@ && mode != "debian-resolvconf"@ && mode != "openresolv"@
            ==> configurator_for(interface_name, mode) == OsConfiguratorView::Direct,
{
    lemma_modes_differ();
}

/// What was detected is used as it is, and "direct" where detection failed.
pub proof fn the_detected_mode_is_used(mode: Text, e: DetectErrorView)
    ensures
        mode_in_use(Ok(mode)) == mode,
        mode_in_use(Err(e)) == "direct"@,
{
}

} // verus!
