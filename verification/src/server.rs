//! The server: what it is set up with, the events that flow between the portal
//! and the server, and when capture is switched on and off.

use crate::config::{ClientMap, Position};
use crate::coord::Coord;
use crate::portal::Point;
use vstd::prelude::*;

verus! {

/// Events that flow between the portal and the server.
#[derive(Debug, Clone)]
pub enum Event {
    /// Barrier was activated: the cursor crossed into a client's area.
    Activated {
        /// Which client's barrier was crossed.
        client_name: String,
        /// The client's position relative to the server.
        client_position: Position,
        /// Activation ID for releasing the capture.
        activation_id: u32,
        /// Cursor position where the barrier was crossed.
        cursor: Point,
    },
    /// A Synergy client disconnected.
    ClientDisconnected {
        /// Name of the disconnected client.
        client_name: String,
    },
    /// Request to enable the InputCapture portal.
    EnableCapture,
    /// Request to disable the InputCapture portal.
    DisableCapture,
    /// Request to release the current capture session.
    ReleaseCapture {
        /// Activation ID to release.
        activation_id: Option<u32>,
        /// Optional cursor position for release.
        cursor: Option<Point>,
    },
    /// Pointer absolute motion.
    PointerAbsolute { x: Coord, y: Coord },
    /// Pointer relative motion.
    PointerRelative { dx: Coord, dy: Coord },
    /// Mouse button press or release.
    Button { button: u32, is_press: bool },
    /// Keyboard key press or release.
    Key { keysym: u32, is_press: bool, mask: u16, button: u16 },
    /// Scroll wheel.
    Scroll { x: Coord, y: Coord },
}

/// The port to listen on, unless another one is set.
pub const DEFAULT_PORT: u16 = 24801;

/// A server that has not yet connected to the portal.
pub struct NotConnected;

/// Server for managing Synergy protocol connections with the InputCapture portal.
/// The state is [`NotConnected`], or the portal that was attached.
pub struct Server<State> {
    /// The port to listen on.
    pub port: u16,
    /// The clients that may connect.
    pub client_configs: ClientMap,
    /// The portal, if one is attached.
    pub state: State,
}

impl Server<NotConnected> {
    /// Create a new server for the configured clients, on the default port.
    pub fn new(client_configs: ClientMap) -> (server: Server<NotConnected>)
        ensures
            server.port == DEFAULT_PORT,
            server.client_configs == client_configs,
    {
        let mut server = Server { port: 0, client_configs, state: NotConnected };
        server.set_port(DEFAULT_PORT);
        server
    }

    /// Set the port to listen on.
    pub fn set_port(&mut self, port: u16)
        ensures
            final(self).port == port,
            final(self).client_configs == old(self).client_configs,
            final(self).state == old(self).state,
    {
        self.port = port;
    }

    /// Attach a connected portal to the server.
    pub fn with_portal<P>(self, portal: P) -> (server: Server<P>)
        ensures
            server.port == self.port,
            server.client_configs == self.client_configs,
            server.state == portal,
    {
        Server { port: self.port, client_configs: self.client_configs, state: portal }
    }
}

/// What the schengen server gives notice of.
pub enum ServerNotice {
    /// A client connected.
    Connected,
    /// A client disconnected, and that many are still connected.
    Disconnected { client_name: String, left: usize },
    /// The server failed.
    Failed,
    /// Anything else.
    Other,
}

/// What is to be done about a notice of the schengen server.
pub enum ServerStep {
    /// Ask the portal for something.
    Ask { request: Event },
    /// Tell the task that forwards input about a client that is gone, then ask the
    /// portal for something.
    Tell { notice: Event, request: Option<Event> },
    /// End the run with an error.
    Fail,
    /// Nothing.
    Nothing,
}

/// Whether the portal was told to capture: from when the first client connects
/// until the last one is gone.
#[derive(Debug, Clone, Copy, PartialEq, Eq, Structural)]
pub struct CaptureSwitch {
    /// Whether the portal was told to capture.
    pub portal_enabled: bool,
}

impl CaptureSwitch {
    /// The portal was not told to capture yet.
    pub fn new() -> (switch: CaptureSwitch)
        ensures
            !switch.portal_enabled,
    {
        CaptureSwitch { portal_enabled: false }
    }

    /// The request to the portal when a client connected.
    pub open spec fn on_connect(self) -> Option<Event> {
        if self.portal_enabled {
            None
        } else {
            Some(Event::EnableCapture)
        }
    }

    /// The request to the portal when a client disconnected, and that many are
    /// left.
    pub open spec fn on_disconnect(self, left: int) -> Option<Event> {
        if self.portal_enabled && left == 0 {
            Some(Event::DisableCapture)
        } else {
            None
        }
    }

    /// The state once a request was sent, or could not be sent.
    pub open spec fn after(self, request: Event, sent: bool) -> CaptureSwitch {
        if !sent {
            self
        } else {
            match request {
                Event::EnableCapture => CaptureSwitch { portal_enabled: true },
                Event::DisableCapture => CaptureSwitch { portal_enabled: false },
                _ => self,
            }
        }
    }

    /// What is to be done about a notice.
    pub open spec fn reaction(self, notice: ServerNotice) -> ServerStep {
        match notice {
            ServerNotice::Connected => match self.on_connect() {
                Some(request) => ServerStep::Ask { request },
                None => ServerStep::Nothing,
            },
            ServerNotice::Disconnected { client_name, left } => ServerStep::Tell {
                notice: Event::ClientDisconnected { client_name },
                request: self.on_disconnect(left as int),
            },
            ServerNotice::Failed => ServerStep::Fail,
            ServerNotice::Other => ServerStep::Nothing,
        }
    }

    /// What is to be done about a notice: the first client that connects enables
    /// the portal, and the last one that disconnects disables it. Whoever forwards
    /// input is told of every client that disconnects. When the server fails, its
    /// run ends with an error.
    pub fn step(&self, notice: ServerNotice) -> (step: ServerStep)
        ensures
            step == self.reaction(notice),
    {
        match notice {
            ServerNotice::Connected => if self.portal_enabled {
                ServerStep::Nothing
            } else {
                ServerStep::Ask { request: Event::EnableCapture }
            },
            ServerNotice::Disconnected { client_name, left } => ServerStep::Tell {
                notice: Event::ClientDisconnected { client_name },
                request: if left == 0 && self.portal_enabled {
                    Some(Event::DisableCapture)
                } else {
                    None
                },
            },
            ServerNotice::Failed => ServerStep::Fail,
            ServerNotice::Other => ServerStep::Nothing,
        }
    }

    /// A request was sent to the portal, or could not be sent.
    pub fn request_done(&mut self, request: &Event, sent: bool)
        ensures
            *final(self) == old(self).after(*request, sent),
    {
        if sent {
            match request {
                Event::EnableCapture => {
                    self.portal_enabled = true;
                },
                Event::DisableCapture => {
                    self.portal_enabled = false;
                },
                _ => {},
            }
        }
    }
}

/// One notice in the run of a server, and whether the request to the portal that
/// it led to could be sent.
pub ghost struct Round {
    pub notice: ServerNotice,
    pub sent: bool,
}

impl CaptureSwitch {
    /// The state after one more notice.
    pub open spec fn after_round(self, round: Round) -> CaptureSwitch {
        match self.reaction(round.notice) {
            ServerStep::Ask { request } => self.after(request, round.sent),
            ServerStep::Tell { request: Some(request), .. } => self.after(request, round.sent),
            _ => self,
        }
    }

    /// The events that go out because of a notice, in their order.
    pub open spec fn events_of_round(self, round: Round) -> Seq<Event> {
        match self.reaction(round.notice) {
            ServerStep::Ask { request } => if round.sent {
                seq![request]
            } else {
                Seq::empty()
            },
            ServerStep::Tell { notice, request: Some(request) } => if round.sent {
                seq![notice, request]
            } else {
                seq![notice]
            },
            ServerStep::Tell { notice, request: None } => seq![notice],
            _ => Seq::empty(),
        }
    }
}

/// The switch after a run of the server.
pub open spec fn switch_after(rounds: Seq<Round>) -> CaptureSwitch
    decreases rounds.len(),
{
    if rounds.len() == 0 {
        CaptureSwitch { portal_enabled: false }
    } else {
        switch_after(rounds.drop_last()).after_round(rounds.last())
    }
}

/// The events that go out in a run of the server, in their order.
pub open spec fn events_of_run(rounds: Seq<Round>) -> Seq<Event>
    decreases rounds.len(),
{
    if rounds.len() == 0 {
        Seq::empty()
    } else {
        events_of_run(rounds.drop_last()) + switch_after(rounds.drop_last()).events_of_round(
            rounds.last(),
        )
    }
}

/// The requests to enable or disable capture among some events.
pub open spec fn capture_requests(events: Seq<Event>) -> Seq<Event>
    decreases events.len(),
{
    if events.len() == 0 {
        Seq::empty()
    } else if events.last() is EnableCapture || events.last() is DisableCapture {
        capture_requests(events.drop_last()).push(events.last())
    } else {
        capture_requests(events.drop_last())
    }
}

/// The requests of some events and one more.
proof fn lemma_requests_of_more(events: Seq<Event>, event: Event)
    ensures
        capture_requests(events.push(event)) == if event is EnableCapture
            || event is DisableCapture {
            capture_requests(events).push(event)
        } else {
            capture_requests(events)
        },
{
    assert(events.push(event).drop_last() =~= events);
}

/// Over any run of the server, the portal is asked to enable and to disable
/// capture strictly in turn, first to enable it; and it was last asked to enable
/// it exactly when the switch is on.
pub proof fn law_capture_requests_alternate(rounds: Seq<Round>)
    ensures
        forall|k: int|
            0 <= k < capture_requests(events_of_run(rounds)).len() ==> (
            #[trigger] capture_requests(events_of_run(rounds))[k]) == if k % 2 == 0 {
                Event::EnableCapture
            } else {
                Event::DisableCapture
            },
        switch_after(rounds).portal_enabled <==> capture_requests(events_of_run(rounds)).len() % 2
            == 1,
    decreases rounds.len(),
{
    if rounds.len() > 0 {
        let before = rounds.drop_last();
        law_capture_requests_alternate(before);
        let switch = switch_after(before);
        let sent = events_of_run(before);
        match switch.reaction(rounds.last().notice) {
            ServerStep::Ask { request } => {
                lemma_requests_of_more(sent, request);
                if rounds.last().sent {
                    assert(events_of_run(rounds) =~= sent.push(request));
                } else {
                    assert(events_of_run(rounds) =~= sent);
                }
            },
            ServerStep::Tell { notice, request } => {
                lemma_requests_of_more(sent, notice);
                match request {
                    Some(request) => {
                        lemma_requests_of_more(sent.push(notice), request);
                        if rounds.last().sent {
                            assert(events_of_run(rounds) =~= sent.push(notice).push(request));
                        } else {
                            assert(events_of_run(rounds) =~= sent.push(notice));
                        }
                    },
                    None => {
                        assert(events_of_run(rounds) =~= sent.push(notice));
                    },
                }
            },
            ServerStep::Fail => {
                assert(events_of_run(rounds) =~= sent);
            },
            ServerStep::Nothing => {
                assert(events_of_run(rounds) =~= sent);
            },
        }
    }
}

/// At any point of a run of the server in which requests can be sent, a client
/// that connects leads to a request to enable capture exactly when it is off; one
/// that disconnects leads first to the notice of that, whatever the state, and
/// then to a request to disable capture exactly when it is on and no client is
/// left. Nothing else goes out.
pub proof fn law_notices_lead_to_requests(rounds: Seq<Round>, notice: ServerNotice)
    ensures
        ({
            let switch = switch_after(rounds);
            let out = switch.events_of_round(Round { notice, sent: true });
            match notice {
                ServerNotice::Connected => out =~= if switch.portal_enabled {
                    Seq::empty()
                } else {
                    seq![Event::EnableCapture]
                },
                ServerNotice::Disconnected { client_name, left } => out =~= if left == 0
                    && switch.portal_enabled {
                    seq![Event::ClientDisconnected { client_name }, Event::DisableCapture]
                } else {
                    seq![Event::ClientDisconnected { client_name }]
                },
                _ => out =~= Seq::empty(),
            }
        }),
{
}

/// The requests that the server sends are those that the portal expects: in step
/// with the portal's session, none is redundant.
pub proof fn law_requests_are_not_redundant(
    switch: CaptureSwitch,
    state: crate::portal::PortalState,
    left: int,
)
    requires
        switch.portal_enabled == state.is_enabled,
    ensures
        switch.on_connect() matches Some(request) ==> {
            &&& state.command(request) == crate::portal::PortalCommand::Enable
            &&& state.after(state.command(request), true).is_enabled == switch.after(
                request,
                true,
            ).portal_enabled
        },
        switch.on_disconnect(left) matches Some(request) ==> {
            &&& state.command(request) == crate::portal::PortalCommand::Disable
            &&& state.after(state.command(request), true).is_enabled == switch.after(
                request,
                true,
            ).portal_enabled
        },
{
}

/// A new server listens on port 24801, unless another one is set; it knows the
/// clients that it was given, and keeps both when a portal is attached.
pub proof fn law_servers_keep_what_they_are_given<P>(
    client_configs: ClientMap,
    server: Server<NotConnected>,
    other: &mut Server<NotConnected>,
    port: u16,
    portal: P,
    connected: Server<P>,
)
    requires
        call_ensures(Server::<NotConnected>::new, (client_configs,), server),
        call_ensures(Server::<NotConnected>::set_port, (other, port), ()),
        call_ensures(Server::<NotConnected>::with_portal::<P>, (server, portal), connected),
    ensures
        server.port == 24801,
        server.client_configs == client_configs,
        final(other).port == port,
        final(other).client_configs == old(other).client_configs,
        connected.port == 24801,
        connected.client_configs == client_configs,
        connected.state == portal,
{
}

/// A client that connects leads to a request to enable capture, unless it is on
/// already. One that disconnects is told to whoever forwards input, by its name, and
/// leads to a request to disable capture when it is on and no client is left. A
/// failure ends the run, and anything else leads to nothing.
pub proof fn law_notices_lead_to_steps(
    switch: &CaptureSwitch,
    notice: ServerNotice,
    step: ServerStep,
)
    requires
        call_ensures(CaptureSwitch::step, (switch, notice), step),
    ensures
        notice is Connected && !switch.portal_enabled ==> step == (ServerStep::Ask {
            request: Event::EnableCapture,
        }),
        notice is Connected && switch.portal_enabled ==> step is Nothing,
        notice matches ServerNotice::Disconnected { client_name, left } ==> {
            &&& step matches ServerStep::Tell { notice: told, request }
            &&& told matches Event::ClientDisconnected { client_name: name }
            &&& name@ == client_name@
            &&& request == if switch.portal_enabled && left == 0 {
                Some(Event::DisableCapture)
            } else {
                None
            }
        },
        notice is Failed ==> step is Fail,
        notice is Other ==> step is Nothing,
{
}

/// Capture is off at first, is on once the request to enable it was sent, and off
/// once the one to disable it was. A request that could not be sent changes nothing,
/// and neither does any other.
pub proof fn law_sent_requests_turn_the_switch(
    first: CaptureSwitch,
    switch: &mut CaptureSwitch,
    request: &Event,
    sent: bool,
)
    requires
        call_ensures(CaptureSwitch::new, (), first),
        call_ensures(CaptureSwitch::request_done, (switch, request, sent), ()),
    ensures
        !first.portal_enabled,
        sent && request is EnableCapture ==> final(switch).portal_enabled,
        sent && request is DisableCapture ==> !final(switch).portal_enabled,
        !sent || !(request is EnableCapture || request is DisableCapture) ==> final(switch).portal_enabled == old(switch).portal_enabled,
{
}

} // verus!
