//! The proxy settings, the error type, and the operations that do not depend
//! on the desktop.

use vstd::prelude::*;
use vstd::string::*;
use vstd::std_specs::cmp::PartialEqSpecImpl;

use crate::desktop::{Command, Desktop, commands_view};
use crate::text::{parse_u16_spec, rsplit_once, rsplit_once_spec, parse_u16};

verus! {

#[verifier::external_type_specification]
#[verifier::external_body]
pub struct ExIoError(std::io::Error);

#[verifier::external_type_specification]
#[verifier::external_body]
pub struct ExBaseDirectoriesError(xdg::BaseDirectoriesError);

/// A manual proxy configuration.
#[derive(Debug)]
pub struct Sysproxy {
    pub enable: bool,
    pub host: String,
    pub port: u16,
    pub bypass: String,
}

/// An automatic (PAC) proxy configuration.
#[derive(Debug)]
pub struct Autoproxy {
    pub enable: bool,
    pub url: String,
}

/// What a [`Sysproxy`] holds, as mathematical values.
pub struct ProxySettings {
    pub enable: bool,
    pub host: Seq<char>,
    pub port: u16,
    pub bypass: Seq<char>,
}

/// What an [`Autoproxy`] holds, as mathematical values.
pub struct AutoSettings {
    pub enable: bool,
    pub url: Seq<char>,
}

impl View for Sysproxy {
    type V = ProxySettings;

    open spec fn view(&self) -> ProxySettings {
        ProxySettings { enable: self.enable, host: self.host@, port: self.port, bypass: self.bypass@ }
    }
}

impl View for Autoproxy {
    type V = AutoSettings;

    open spec fn view(&self) -> AutoSettings {
        AutoSettings { enable: self.enable, url: self.url@ }
    }
}

/// The failures of reading or writing the proxy settings.
#[derive(Debug)]
pub enum Error {
    /// A text could not be read; it holds the text or the name of what was read.
    ParseStr(String),
    /// A configuration tool could not be run.
    Io(std::io::Error),
    /// The default network interface could not be found.
    NetworkInterface,
    /// This environment offers no way to set the proxy.
    NotSupport,
    /// The user's configuration directory could not be found.
    Xdg(xdg::BaseDirectoriesError),
}

/// The result of reading or writing the proxy settings.
pub type Result<T> = std::result::Result<T, Error>;

/// Whether `e` is a parse failure that carries the text `msg`.
pub open spec fn is_parse_error(e: Error, msg: Seq<char>) -> bool {
    e matches Error::ParseStr(m) && m@ == msg
}

/// Whether `r` is a parse failure that carries the text `msg`.
pub open spec fn fails_parsing<T>(r: Result<T>, msg: Seq<char>) -> bool {
    r matches Err(e) && is_parse_error(e, msg)
}

/// The settings that an address `host:port` names: enabled, the host before
/// the last `:`, the port after it, no bypass list; `None` where there is no
/// `:` or the port is not a `u16`.
pub open spec fn address_settings(addr: Seq<char>) -> Option<ProxySettings> {
    match rsplit_once_spec(addr, ':') {
        Some((h, p)) => match parse_u16_spec(p) {
            Some(port) => Some(ProxySettings { enable: true, host: h, port, bypass: seq![] }),
            None => None,
        },
        None => None,
    }
}

/// The settings with nothing set.
pub open spec fn empty_settings() -> ProxySettings {
    ProxySettings { enable: false, host: seq![], port: 0, bypass: seq![] }
}


impl PartialEq for Sysproxy {
    fn eq(&self, other: &Self) -> (r: bool) {
        self.enable == other.enable && self.host == other.host && self.port == other.port
            && self.bypass == other.bypass
    }
}

impl PartialEqSpecImpl for Sysproxy {
    open spec fn obeys_eq_spec() -> bool {
        true
    }

    open spec fn eq_spec(&self, other: &Self) -> bool {
        self.enable == other.enable && self.host@ == other.host@ && self.port == other.port
            && self.bypass@ == other.bypass@
    }
}

impl Eq for Sysproxy {

}

impl PartialEq for Autoproxy {
    fn eq(&self, other: &Self) -> (r: bool) {
        self.enable == other.enable && self.url == other.url
    }
}

impl PartialEqSpecImpl for Autoproxy {
    open spec fn obeys_eq_spec() -> bool {
        true
    }

    open spec fn eq_spec(&self, other: &Self) -> bool {
        self.enable == other.enable && self.url@ == other.url@
    }
}

impl Eq for Autoproxy {

}

impl Default for Autoproxy {
    fn default() -> (r: Self)
        ensures
            r@ == (AutoSettings { enable: false, url: seq![] }),
    {
        Autoproxy { enable: false, url: String::new() }
    }
}

impl Clone for Sysproxy {
    fn clone(&self) -> (r: Self)
        ensures
            r@ == self@,
    {
        self.duplicate()
    }
}

impl Clone for Autoproxy {
    fn clone(&self) -> (r: Self)
        ensures
            r@ == self@,
    {
        Autoproxy { enable: self.enable, url: self.url.clone() }
    }
}

impl Default for Sysproxy {
    fn default() -> (r: Self)
        ensures
            r@ == empty_settings(),
    {
        Sysproxy { enable: false, host: String::new(), port: 0, bypass: String::new() }
    }
}

impl Sysproxy {
    /// A copy of these settings.
    fn duplicate(&self) -> (r: Sysproxy)
        ensures
            r@ == self@,
    {
        Sysproxy {
            enable: self.enable,
            host: self.host.clone(),
            port: self.port,
            bypass: self.bypass.clone(),
        }
    }

    /// Whether proxy settings can be changed on this platform (Linux: always).
    pub fn is_support() -> (r: bool)
        ensures
            r,
    {
        true
    }

    /// Whether the proxy is enabled, given the current settings or the failure
    /// to read them.
    pub fn check(current: Result<Sysproxy>) -> (r: Result<bool>)
        ensures
            match current {
                Ok(p) => r == Ok::<bool, Error>(p.enable),
                Err(e) => r == Err::<bool, Error>(e),
            },
    {
        match current {
            Ok(p) => Ok(p.enable),
            Err(e) => Err(e),
        }
    }

    /// The settings that enabling the proxy at `addr` (`"host:port"`) writes:
    /// the text before the last `:` is the host, the text after it the port.
    /// Fails with `ParseStr(addr)` where there is no `:` or the port is not a `u16`.
    pub fn enable(addr: &str) -> (r: Result<Sysproxy>)
        ensures
            match address_settings(addr@) {
                Some(s) => r matches Ok(x) && x@ == s,
                None => fails_parsing(r, addr@),
            },
    {
        match rsplit_once(addr, ':') {
            Some((host, port)) => match parse_u16(port) {
                Some(port) => Ok(
                    Sysproxy { enable: true, host: host.to_owned(), port, bypass: String::new() },
                ),
                None => Err(Error::ParseStr(addr.to_owned())),
            },
            None => Err(Error::ParseStr(addr.to_owned())),
        }
    }

    /// The writes of these settings with the enabled flag set to `enable`:
    /// `self`'s host, port and bypass list are written as they are.
    pub fn set_system_proxy_enable(&self, enable: bool, desktop: &Desktop) -> (r: Vec<Command>)
        ensures
            commands_view(r@) == crate::linux::system_proxy_plan(
                desktop@,
                ProxySettings { enable, host: self.host@, port: self.port, bypass: self.bypass@ },
            ),
    {
        let p = Sysproxy {
            enable,
            host: self.host.clone(),
            port: self.port,
            bypass: self.bypass.clone(),
        };
        p.set_system_proxy(desktop)
    }

    /// The writes that disable the proxy: only the enabled flag is written,
    /// so the stored host, port and bypass list are kept.
    pub fn disable(desktop: &Desktop) -> (r: Vec<Command>)
        ensures
            commands_view(r@) == crate::linux::enable_plan(desktop@, false),
    {
        crate::linux::mode_writes(false, desktop)
    }
}

impl Autoproxy {
    /// Whether the automatic proxy can be changed on this platform (Linux: always).
    pub fn is_support() -> (r: bool)
        ensures
            r,
    {
        true
    }
}

} // verus!
