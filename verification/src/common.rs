//! The types shared by every part of the guest agent: its errors, the
//! command tags, and the three kinds of message that cross the channel.

use vstd::prelude::*;
use vstd::std_specs::convert::FromSpecImpl;

verus! {

/// What can go wrong inside the guest agent.
#[derive(Debug, Clone, Copy, PartialEq, Eq, Structural)]
pub enum GVMError {
    /// The channel or the filesystem failed.
    IOError,
    /// The host asked for a NIC that the guest does not have.
    NicNotFound,
    /// The plugin is not loaded, or could not be loaded.
    PluginNotFound,
    /// The plugin is already loaded.
    PluginLoaded,
    /// The command makes no sense for a plugin request.
    PluginCommandNotSupported,
    /// A network descriptor does not carry a gateway of the form
    /// `address/prefix` with a prefix length between 0 and 32.
    InvalidDescriptor,
}

impl GVMError {
    /// The text by which the error is reported to the host.
    pub open spec fn name(self) -> Seq<char> {
        match self {
            GVMError::IOError => "IOError"@,
            GVMError::NicNotFound => "NicNotFound"@,
            GVMError::PluginNotFound => "PluginNotFound"@,
            GVMError::PluginLoaded => "PluginLoaded"@,
            GVMError::PluginCommandNotSupported => "PluginCommandNotSupported"@,
            GVMError::InvalidDescriptor => "InvalidDescriptor"@,
        }
    }

    /// Renders the error as the host sees it.
    pub fn to_string(&self) -> (text: String)
        ensures
            text@ == self.name(),
    {
        match self {
            GVMError::IOError => String::from_str("IOError"),
            GVMError::NicNotFound => String::from_str("NicNotFound"),
            GVMError::PluginNotFound => String::from_str("PluginNotFound"),
            GVMError::PluginLoaded => String::from_str("PluginLoaded"),
            GVMError::PluginCommandNotSupported => String::from_str("PluginCommandNotSupported"),
            GVMError::InvalidDescriptor => String::from_str("InvalidDescriptor"),
        }
    }
}

/// An I/O failure as the standard library reports it. Nothing is known of
/// its contents.
#[verifier::external_type_specification]
#[verifier::external_body]
pub struct ExIoError(std::io::Error);

impl From<std::io::Error> for GVMError {
    fn from(e: std::io::Error) -> (r: GVMError) {
        GVMError::IOError
    }
}

impl FromSpecImpl<std::io::Error> for GVMError {
    open spec fn obeys_from_spec() -> bool {
        true
    }

    open spec fn from_spec(e: std::io::Error) -> GVMError {
        GVMError::IOError
    }
}

/// The commands that the host and the guest exchange.
#[derive(Debug, Clone, Copy, PartialEq, Eq, Structural)]
pub enum GVMCmd {
    /// Asks for the list of network descriptors.
    GetNetwork,
    /// Starts a loaded plugin.
    StartPlugin,
    /// Loads a plugin; it has to come before the plugin is started.
    CreatePluginLinks,
    /// Hands a message to a loaded plugin.
    PluginCmd,
    /// Stops a loaded plugin.
    StopPlugin,
    /// Ends the agent.
    ShutdownGuest,
}

/// A message from the guest to the host.
#[derive(Debug, Clone, PartialEq, Eq)]
pub struct Command {
    /// The command that the message belongs to.
    pub cmd: GVMCmd,
    /// The response text, if there is any.
    pub resp: Option<String>,
    /// `None` when the guest opens an exchange; otherwise whether the
    /// host's request succeeded.
    pub finished: Option<bool>,
}

/// A [`Command`] as contracts see it.
pub struct CommandView {
    pub cmd: GVMCmd,
    pub resp: Option<Seq<char>>,
    pub finished: Option<bool>,
}

impl View for Command {
    type V = CommandView;

    open spec fn view(&self) -> CommandView {
        CommandView {
            cmd: self.cmd,
            resp: match self.resp {
                Some(s) => Some(s@),
                None => None,
            },
            finished: self.finished,
        }
    }
}

/// One network interface that the host wants configured.
#[derive(Debug, Clone, PartialEq, Eq)]
pub struct Network {
    /// Hardware address of the NIC handed to the guest.
    pub mac: String,
    /// IP address to give it.
    pub ip: String,
    /// Gateway and prefix length, as `address/prefix`.
    pub gateway: String,
}

/// A [`Network`] as contracts see it.
pub struct NetworkView {
    pub mac: Seq<char>,
    pub ip: Seq<char>,
    pub gateway: Seq<char>,
}

impl View for Network {
    type V = NetworkView;

    open spec fn view(&self) -> NetworkView {
        NetworkView { mac: self.mac@, ip: self.ip@, gateway: self.gateway@ }
    }
}

impl DeepView for Network {
    type V = NetworkView;

    open spec fn deep_view(&self) -> NetworkView {
        self@
    }
}

/// A request from the host that concerns a plugin.
#[derive(Debug, Clone, PartialEq, Eq)]
pub struct PluginMsg {
    /// What to do.
    pub cmd: GVMCmd,
    /// The plugin's identifier; an absolute path is recommended.
    pub plugin: String,
    /// The message for the plugin. Only [`GVMCmd::PluginCmd`] reads it.
    pub msg: Option<String>,
}

/// A [`PluginMsg`] as contracts see it.
pub struct PluginMsgView {
    pub cmd: GVMCmd,
    pub plugin: Seq<char>,
    pub msg: Option<Seq<char>>,
}

impl View for PluginMsg {
    type V = PluginMsgView;

    open spec fn view(&self) -> PluginMsgView {
        PluginMsgView {
            cmd: self.cmd,
            plugin: self.plugin@,
            msg: match self.msg {
                Some(s) => Some(s@),
                None => None,
            },
        }
    }
}

} // verus!
