//! The command dispatcher: what each event in the agent's life leads to.
//!
//! The agent starts by asking the host for its network configuration,
//! unless it finds it was done before, and then serves plugin requests
//! until the host shuts it down. The program around this library reads the
//! channel, opens plugin modules and calls into them. It reports each such
//! event to [`handle`] and does what the returned [`Action`] says.

use crate::common::{Command, CommandView, GVMCmd, GVMError, PluginMsg, PluginMsgView};
use crate::registry::{
    distinct_ids, lemma_second_load_refused, load_entries, load_result, occurrences, registered,
    PluginRegistry,
};
use vstd::prelude::*;

verus! {

/// The file whose presence says that the network was configured by an
/// earlier run. Only its presence counts.
pub const BOOT_MARKER: &'static str = "/tmp/init-nets";

/// Something that happened and that the dispatcher has to react to.
pub enum Event<H> {
    /// The host sent a plugin request.
    Request(PluginMsg),
    /// The module of `plugin` was looked for, as [`Action::Open`] asked.
    /// `module` is its handle, or `None` where the module does not exist
    /// or could not be opened.
    Opened { plugin: String, module: Option<H> },
    /// A plugin was called for the command `cmd`, as [`Action::Start`],
    /// [`Action::Process`] or [`Action::Stop`] asked, and returned `text`.
    Returned { cmd: GVMCmd, text: Option<String> },
}

/// An [`Event`] as contracts see it.
pub enum EventView<H> {
    Request(PluginMsgView),
    Opened { plugin: Seq<char>, module: Option<H> },
    Returned { cmd: GVMCmd, text: Option<Seq<char>> },
}

impl<H> View for Event<H> {
    type V = EventView<H>;

    open spec fn view(&self) -> EventView<H> {
        match *self {
            Event::Request(request) => EventView::Request(request@),
            Event::Opened { plugin, module } => EventView::Opened { plugin: plugin@, module },
            Event::Returned { cmd, text } => EventView::Returned {
                cmd,
                text: match text {
                    Some(t) => Some(t@),
                    None => None,
                },
            },
        }
    }
}

/// What the dispatcher wants done next.
#[derive(Debug, Clone, PartialEq, Eq)]
pub enum Action {
    /// Send this message to the host; the request is then dealt with.
    Send(Command),
    /// The request is dealt with and nothing is sent.
    Nothing,
    /// Leave the service loop and end the agent; nothing is sent.
    Exit,
    /// Look for the module of `plugin` and try to open it, then report
    /// [`Event::Opened`].
    Open { plugin: String },
    /// Call the start entry of the loaded plugin, then report
    /// [`Event::Returned`] for `StartPlugin`.
    Start { plugin: String },
    /// Hand `msg` to the process entry of the loaded plugin, then report
    /// [`Event::Returned`] for `PluginCmd`.
    Process { plugin: String, msg: String },
    /// Call the stop entry of the loaded plugin, once, then report
    /// [`Event::Returned`] for `StopPlugin`.
    Stop { plugin: String },
}

/// An [`Action`] as contracts see it.
pub enum ActionView {
    Send(CommandView),
    Nothing,
    Exit,
    Open { plugin: Seq<char> },
    Start { plugin: Seq<char> },
    Process { plugin: Seq<char>, msg: Seq<char> },
    Stop { plugin: Seq<char> },
}

impl ActionView {
    /// The messages that carrying out the action puts on the channel:
    /// the one of `Send`, and none otherwise.
    pub open spec fn sent(self) -> Seq<CommandView> {
        match self {
            ActionView::Send(command) => seq![command],
            _ => Seq::empty(),
        }
    }

    /// Whether the action ends the service loop.
    pub open spec fn ends_service(self) -> bool {
        self is Exit
    }
}

impl View for Action {
    type V = ActionView;

    open spec fn view(&self) -> ActionView {
        match *self {
            Action::Send(command) => ActionView::Send(command@),
            Action::Nothing => ActionView::Nothing,
            Action::Exit => ActionView::Exit,
            Action::Open { plugin } => ActionView::Open { plugin: plugin@ },
            Action::Start { plugin } => ActionView::Start { plugin: plugin@ },
            Action::Process { plugin, msg } => ActionView::Process { plugin: plugin@, msg: msg@ },
            Action::Stop { plugin } => ActionView::Stop { plugin: plugin@ },
        }
    }
}

/// The response that reports `error` for the command `cmd`.
pub open spec fn refusal(cmd: GVMCmd, error: GVMError) -> CommandView {
    CommandView { cmd, resp: Some(error.name()), finished: Some(false) }
}

/// The response that reports success for the command `cmd`, with what the
/// plugin returned, if it returned anything.
pub open spec fn success(cmd: GVMCmd, text: Option<Seq<char>>) -> CommandView {
    CommandView { cmd, resp: text, finished: Some(true) }
}

/// What a plugin request leads to, given the loaded plugins.
pub open spec fn request_action<H>(entries: Seq<(Seq<char>, H)>, request: PluginMsgView)
    -> ActionView {
    let loaded = registered(entries, request.plugin);
    match request.cmd {
        GVMCmd::CreatePluginLinks => if loaded {
            ActionView::Send(refusal(request.cmd, GVMError::PluginLoaded))
        } else {
            ActionView::Open { plugin: request.plugin }
        },
        GVMCmd::StartPlugin => if loaded {
            ActionView::Start { plugin: request.plugin }
        } else {
            ActionView::Send(refusal(request.cmd, GVMError::PluginNotFound))
        },
        GVMCmd::PluginCmd => match request.msg {
            None => ActionView::Nothing,
            Some(msg) => if loaded {
                ActionView::Process { plugin: request.plugin, msg }
            } else {
                ActionView::Send(refusal(request.cmd, GVMError::PluginNotFound))
            },
        },
        GVMCmd::StopPlugin => if loaded {
            ActionView::Stop { plugin: request.plugin }
        } else {
            ActionView::Send(refusal(request.cmd, GVMError::PluginNotFound))
        },
        GVMCmd::ShutdownGuest => ActionView::Exit,
        GVMCmd::GetNetwork => ActionView::Send(
            refusal(request.cmd, GVMError::PluginCommandNotSupported),
        ),
    }
}

/// The response to a request to load a plugin, once the module was looked
/// for.
pub open spec fn load_response(outcome: Result<(), GVMError>) -> CommandView {
    match outcome {
        Ok(_) => success(GVMCmd::CreatePluginLinks, None),
        Err(e) => refusal(GVMCmd::CreatePluginLinks, e),
    }
}

/// What the dispatcher wants done after `event`, given the loaded plugins.
pub open spec fn next_action<H>(entries: Seq<(Seq<char>, H)>, event: EventView<H>) -> ActionView {
    match event {
        EventView::Request(request) => request_action(entries, request),
        EventView::Opened { plugin, module } => ActionView::Send(
            load_response(load_result(entries, plugin, module)),
        ),
        EventView::Returned { cmd, text } => ActionView::Send(success(cmd, text)),
    }
}

/// The loaded plugins after `event`: only a module that was opened for an
/// identifier that is still free adds one.
pub open spec fn next_entries<H>(entries: Seq<(Seq<char>, H)>, event: EventView<H>) -> Seq<
    (Seq<char>, H),
> {
    match event {
        EventView::Opened { plugin, module } => load_entries(entries, plugin, module),
        _ => entries,
    }
}

/// Builds the response that reports `error` for `cmd`.
fn refuse(cmd: GVMCmd, error: GVMError) -> (command: Command)
    ensures
        command@ == refusal(cmd, error),
{
    Command { cmd, resp: Some(error.to_string()), finished: Some(false) }
}

/// Decides what a plugin request leads to.
fn route<H>(registry: &PluginRegistry<H>, request: PluginMsg) -> (action: Action)
    ensures
        action@ == request_action(registry@, request@),
{
    let PluginMsg { cmd, plugin, msg } = request;
    let loaded = registry.contains(&plugin);
    match cmd {
        GVMCmd::CreatePluginLinks => if loaded {
            Action::Send(refuse(cmd, GVMError::PluginLoaded))
        } else {
            Action::Open { plugin }
        },
        GVMCmd::StartPlugin => if loaded {
            Action::Start { plugin }
        } else {
            Action::Send(refuse(cmd, GVMError::PluginNotFound))
        },
        GVMCmd::PluginCmd => match msg {
            None => Action::Nothing,
            Some(msg) => if loaded {
                Action::Process { plugin, msg }
            } else {
                Action::Send(refuse(cmd, GVMError::PluginNotFound))
            },
        },
        GVMCmd::StopPlugin => if loaded {
            Action::Stop { plugin }
        } else {
            Action::Send(refuse(cmd, GVMError::PluginNotFound))
        },
        GVMCmd::ShutdownGuest => Action::Exit,
        GVMCmd::GetNetwork => Action::Send(refuse(cmd, GVMError::PluginCommandNotSupported)),
    }
}

/// Reacts to one event of the service loop.
///
/// A request is answered at once where no plugin has to be touched:
/// with a refusal, with silence for a `PluginCmd` that carries no message,
/// or by leaving the loop on `ShutdownGuest`. Otherwise the action names
/// the work to do, and the event that reports its result brings the
/// response. Each request thus leads to at most one message, which carries
/// the request's command.
///
/// Only a module opened for a free identifier changes the registry.
pub fn handle<H>(registry: &mut PluginRegistry<H>, event: Event<H>) -> (action: Action)
    requires
        old(registry).wf(),
    ensures
        final(registry).wf(),
        action@ == next_action(old(registry)@, event@),
        final(registry)@ == next_entries(old(registry)@, event@),
{
    match event {
        Event::Request(request) => route(registry, request),
        Event::Opened { plugin, module } => match registry.load(plugin, module) {
            Ok(_) => Action::Send(
                Command { cmd: GVMCmd::CreatePluginLinks, resp: None, finished: Some(true) },
            ),
            Err(e) => Action::Send(refuse(GVMCmd::CreatePluginLinks, e)),
        },
        Event::Returned { cmd, text } => Action::Send(
            Command { cmd, resp: text, finished: Some(true) },
        ),
    }
}

/// The message that opens the agent's life: a request for the network
/// descriptors.
pub open spec fn network_request() -> CommandView {
    CommandView { cmd: GVMCmd::GetNetwork, resp: None, finished: None }
}

/// The message that reports how configuring the network went.
pub open spec fn network_report(outcome: Result<(), GVMError>) -> CommandView {
    match outcome {
        Ok(_) => success(GVMCmd::GetNetwork, None),
        Err(e) => refusal(GVMCmd::GetNetwork, e),
    }
}

/// Decides how the agent starts. Where the boot marker is absent it asks
/// the host for the network descriptors; where it is present there is
/// nothing to send and the agent goes on to serve requests.
pub fn bootstrap_request(marker_present: bool) -> (r: Option<Command>)
    ensures
        marker_present ==> r is None,
        !marker_present ==> r is Some && r->Some_0@ == network_request(),
{
    if marker_present {
        None
    } else {
        Some(Command { cmd: GVMCmd::GetNetwork, resp: None, finished: None })
    }
}

/// Builds the report on the network configuration. A failure is reported,
/// with the error's text, and the agent goes on regardless.
pub fn bootstrap_report(outcome: Result<(), GVMError>) -> (command: Command)
    ensures
        command@ == network_report(outcome),
{
    match outcome {
        Ok(_) => Command { cmd: GVMCmd::GetNetwork, resp: None, finished: Some(true) },
        Err(e) => refuse(GVMCmd::GetNetwork, e),
    }
}

/// Where a plugin is loaded under an identifier, a request to load that
/// identifier again is refused with `PluginLoaded`, and the registry is
/// left as it was, with exactly one entry under the identifier.
///
/// `first` is what the first attempt found when it looked for the module.
/// The plugin counts as loaded by it where the identifier was taken
/// already or a module could be opened.
pub proof fn lemma_load_twice<H>(
    entries: Seq<(Seq<char>, H)>,
    first: Option<H>,
    request: PluginMsgView,
)
    requires
        distinct_ids(entries),
        request.cmd == GVMCmd::CreatePluginLinks,
        registered(entries, request.plugin) || first is Some,
    ensures
        ({
            let once = next_entries(
                entries,
                EventView::Opened { plugin: request.plugin, module: first },
            );
            &&& next_action(once, EventView::Request(request)) == ActionView::Send(
                refusal(GVMCmd::CreatePluginLinks, GVMError::PluginLoaded),
            )
            &&& next_entries(once, EventView::Request(request)) == once
            &&& occurrences(once, request.plugin) == 1
        }),
{
    lemma_second_load_refused(entries, request.plugin, first, None);
}

/// A request to start, to stop or to hand a message to a plugin that is
/// not loaded is answered with `PluginNotFound`, and the registry is left
/// as it was.
pub proof fn lemma_unknown_plugin<H>(entries: Seq<(Seq<char>, H)>, request: PluginMsgView)
    requires
        !registered(entries, request.plugin),
        request.cmd == GVMCmd::StartPlugin || request.cmd == GVMCmd::StopPlugin || (request.cmd
            == GVMCmd::PluginCmd && request.msg is Some),
    ensures
        next_action(entries, EventView::Request(request)) == ActionView::Send(
            refusal(request.cmd, GVMError::PluginNotFound),
        ),
        next_entries(entries, EventView::Request(request)) == entries,
{
}

/// `ShutdownGuest` ends the service loop, and no message is sent for it.
pub proof fn lemma_shutdown_is_silent<H>(entries: Seq<(Seq<char>, H)>, request: PluginMsgView)
    requires
        request.cmd == GVMCmd::ShutdownGuest,
    ensures
        next_action(entries, EventView::Request(request)).ends_service(),
        next_action(entries, EventView::Request(request)).sent().len() == 0,
        next_entries(entries, EventView::Request(request)) == entries,
{
}

/// A `PluginCmd` request without a message is dealt with at once: no
/// message is sent for it, no plugin is called, the service goes on and
/// the registry is left as it was.
pub proof fn lemma_missing_message_is_silent<H>(
    entries: Seq<(Seq<char>, H)>,
    request: PluginMsgView,
)
    requires
        request.cmd == GVMCmd::PluginCmd,
        request.msg is None,
    ensures
        next_action(entries, EventView::Request(request)) == ActionView::Nothing,
        next_action(entries, EventView::Request(request)).sent().len() == 0,
        !next_action(entries, EventView::Request(request)).ends_service(),
        next_entries(entries, EventView::Request(request)) == entries,
{
}

/// Every message that the dispatcher sends carries the command of the
/// request it answers and says whether the request succeeded; the events
/// that report a plugin's work always bring a message; and a request is
/// passed over in silence only where it is a `PluginCmd` without a
/// message, or `ShutdownGuest`.
pub proof fn lemma_responses<H>(entries: Seq<(Seq<char>, H)>, event: EventView<H>)
    ensures
        match event {
            EventView::Request(request) => match next_action(entries, event) {
                ActionView::Send(command) => command.cmd == request.cmd && command.finished
                    == Some(false),
                ActionView::Nothing => request.cmd == GVMCmd::PluginCmd && request.msg is None,
                ActionView::Exit => request.cmd == GVMCmd::ShutdownGuest,
                ActionView::Open { plugin } => request.cmd == GVMCmd::CreatePluginLinks && plugin
                    == request.plugin && !registered(entries, plugin),
                ActionView::Start { plugin } => request.cmd == GVMCmd::StartPlugin && plugin
                    == request.plugin && registered(entries, plugin),
                ActionView::Process { plugin, msg } => request.cmd == GVMCmd::PluginCmd && plugin
                    == request.plugin && request.msg == Some(msg) && registered(entries, plugin),
                ActionView::Stop { plugin } => request.cmd == GVMCmd::StopPlugin && plugin
                    == request.plugin && registered(entries, plugin),
            },
            EventView::Opened { plugin, module } => next_action(entries, event) matches ActionView::Send(
                command,
            ) && command.cmd == GVMCmd::CreatePluginLinks && command.finished is Some,
            EventView::Returned { cmd, text } => next_action(entries, event) == ActionView::Send(
                success(cmd, text),
            ),
        },
{
}

} // verus!
