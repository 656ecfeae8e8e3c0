//! How the runtime is to be launched.

use vstd::prelude::*;

verus! {

/// A path of the file system, as std holds it.
#[verifier::external_type_specification]
#[verifier::external_body]
pub struct ExPathBuf(std::path::PathBuf);

/// The settings with which the runtime is launched. `N` is the network
/// configuration of the conductor, which is handed on as it is.
pub struct HolochainRuntimeConfig<N> {
    /// The directory where the holochain files and databases will be stored in
    pub holochain_dir: std::path::PathBuf,
    /// Holochain network config
    pub network_config: N,
    /// Force the conductor to run at this admin port
    pub admin_port: Option<u16>,
    /// Enable mDNS based discovery.
    /// Useful to discover peers in the same LAN
    pub mdns_discovery: bool,
}

impl<N> HolochainRuntimeConfig<N> {
    /// The settings for a runtime in `holochain_dir` on the given network: the
    /// admin port is left to be picked, and there is no mDNS discovery.
    pub fn new(holochain_dir: std::path::PathBuf, network_config: N) -> (config: Self)
        ensures
            config.holochain_dir == holochain_dir,
            config.network_config == network_config,
            config.admin_port is None,
            !config.mdns_discovery,
    {
        Self { holochain_dir, network_config, admin_port: None, mdns_discovery: false }
    }

    /// The same settings with the admin port fixed.
    pub fn admin_port(self, admin_port: u16) -> (config: Self)
        ensures
            config.admin_port == Some(admin_port),
            config.holochain_dir == self.holochain_dir,
            config.network_config == self.network_config,
            config.mdns_discovery == self.mdns_discovery,
    {
        let mut config = self;
        config.admin_port = Some(admin_port);
        config
    }

    /// The same settings with mDNS discovery.
    pub fn enable_mdns_discovery(self) -> (config: Self)
        ensures
            config.mdns_discovery,
            config.holochain_dir == self.holochain_dir,
            config.network_config == self.network_config,
            config.admin_port == self.admin_port,
    {
        let mut config = self;
        config.mdns_discovery = true;
        config
    }
}

} // verus!
