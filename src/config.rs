//! Settings of the application, and the handler that starts the monitoring
//! loop once the presence sink is ready.
use vstd::prelude::*;
use crate::address::DomainOrIp;
use crate::monitor::{Monitor, Phase};
use crate::presence::Target;

verus! {

/// Collection of settings making up the configuration of the application.
#[allow(non_snake_case)]
pub struct Config {
    /// Token of the chat bot that shows the presence.
    pub DISCORD_BOT_TOKEN: String,
    /// Domain or IP address of the game server, without a port.
    pub MINECRAFT_SERVER_DOMAIN_OR_IP: DomainOrIp,
    /// Port of the game server; the protocol's default port when unset.
    pub MINECRAFT_SERVER_PORT: Option<u16>,
    /// Seconds between two refreshes of the presence.
    pub REFRESH_INTERVAL: u64,
}

impl Clone for Config {
    fn clone(&self) -> (r: Config)
        ensures
            r == *self,
    {
        Config {
            DISCORD_BOT_TOKEN: self.DISCORD_BOT_TOKEN.clone(),
            MINECRAFT_SERVER_DOMAIN_OR_IP: self.MINECRAFT_SERVER_DOMAIN_OR_IP.clone(),
            MINECRAFT_SERVER_PORT: self.MINECRAFT_SERVER_PORT,
            REFRESH_INTERVAL: self.REFRESH_INTERVAL,
        }
    }
}

impl Default for Config {
    /// An empty token and domain, port 25565, a refresh every 5 seconds.
    fn default() -> (r: Config)
        ensures
            r.DISCORD_BOT_TOKEN@.len() == 0,
            r.MINECRAFT_SERVER_DOMAIN_OR_IP matches DomainOrIp::Domain(d) && d@.len() == 0,
            r.MINECRAFT_SERVER_PORT == Some(25565u16),
            r.REFRESH_INTERVAL == 5,
    {
        Config {
            DISCORD_BOT_TOKEN: String::new(),
            MINECRAFT_SERVER_DOMAIN_OR_IP: DomainOrIp::Domain(String::new()),
            MINECRAFT_SERVER_PORT: Some(25565),
            REFRESH_INTERVAL: 5,
        }
    }
}

/// Holds the configuration until the presence sink reports that it is
/// ready, then hands out the monitoring loop for it.
pub struct RichPresenceHandler {
    config: Config,
    started: bool,
}

impl RichPresenceHandler {
    pub closed spec fn config_spec(&self) -> Config {
        self.config
    }

    /// Whether the loop has been handed out.
    pub closed spec fn started_spec(&self) -> bool {
        self.started
    }

    pub fn new(config: Config) -> (r: RichPresenceHandler)
        ensures
            r.config_spec() == config,
            !r.started_spec(),
    {
        RichPresenceHandler { config, started: false }
    }

    pub fn config(&self) -> (r: &Config)
        ensures
            *r == self.config_spec(),
    {
        &self.config
    }

    /// The loop to run once the sink is ready, handed out on the first call
    /// only: it monitors the configured host and port, refreshes at the
    /// configured interval and samples first. Later calls give `None`, so one
    /// loop runs however often the sink reports that it is ready.
    pub fn start_monitor(&mut self) -> (r: Option<Monitor>)
        requires
            old(self).config_spec().REFRESH_INTERVAL > 0,
        ensures
            final(self).config_spec() == old(self).config_spec(),
            final(self).started_spec(),
            r is Some <==> !old(self).started_spec(),
            r matches Some(m) ==> {
                &&& m.wf()
                &&& m.target_spec().host_spec() == old(self).config_spec().MINECRAFT_SERVER_DOMAIN_OR_IP
                &&& m.target_spec().port_spec() == old(self).config_spec().MINECRAFT_SERVER_PORT
                &&& m.interval_spec() == old(self).config_spec().REFRESH_INTERVAL
                &&& m.phase_spec() == Phase::Sampling
            },
    {
        if self.started {
            return None;
        }
        self.started = true;
        let target = Target::new(
            self.config.MINECRAFT_SERVER_DOMAIN_OR_IP.clone(),
            self.config.MINECRAFT_SERVER_PORT,
        );
        Some(Monitor::new(target, self.config.REFRESH_INTERVAL))
    }
}

} // verus!
