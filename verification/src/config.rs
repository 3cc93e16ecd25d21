use vstd::prelude::*;

verus! {

/// Settings of a running node, as read from the configuration sources.
pub struct Settings {
    pub app_port: u16,
    pub net: Net,
}

/// The network part of the settings: the address of a node already in the
/// network, through which this node joins.
pub struct Net {
    pub known_node: String,
}

/// Why the configuration cannot be turned into settings.
#[derive(Debug, PartialEq, Eq, Structural)]
pub enum SettingsError {
    /// No source gave `app_port`, and the builder did not set it either.
    MissingPort,
}

/// Builder for the settings: values set here take precedence over the
/// configuration file and the environment.
pub struct Configuration {
    port: Option<u16>,
}

impl Configuration {
    /// The port that this builder forces, if any.
    pub closed spec fn port_override(&self) -> Option<u16> {
        self.port
    }

    pub fn new() -> (c: Self)
        ensures
            c.port_override() == None::<u16>,
    {
        Self { port: None }
    }

    pub fn port(&mut self, port: u16) -> (r: &mut Self)
        ensures
            r.port_override() == Some(port),
            *final(self) == *final(r),
    {
        self.port = Some(port);
        self
    }

    /// Completes the settings from what the configuration sources hold: the
    /// port that this builder forces wins over `sourced_port`, the port that
    /// the file or the environment gave.
    pub fn finish_with(&self, sourced_port: Option<u16>, net: Net) -> (r: Result<Settings, SettingsError>)
        ensures
            match self.port_override() {
                Some(p) => r matches Ok(s) && s.app_port == p && s.net == net,
                None => match sourced_port {
                    Some(p) => r matches Ok(s) && s.app_port == p && s.net == net,
                    None => r == Err::<Settings, SettingsError>(SettingsError::MissingPort),
                },
            },
    {
        let app_port = match self.port {
            Some(p) => p,
            None => match sourced_port {
                Some(p) => p,
                None => return Err(SettingsError::MissingPort),
            },
        };
        Ok(Settings { app_port, net })
    }
}

} // verus!
