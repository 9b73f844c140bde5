//! A pairing session: the conversation with one phone over BLE.
//!
//! The BLE stack is driven from outside.  Its callbacks arrive here as method
//! calls; a poll of the session is a sequence of calls, in this order:
//! `poll`, `encryption_fallback`, `take_write`, `respond` for a write that was
//! taken, and `begin_indication` for a response.

use vstd::prelude::*;

use crate::bytes::copy_bytes;
use crate::node::ble_pairing::{
    encode_node_ack, envelope, handle_node_provision, header_error, has_layout, is_envelope,
    is_mtu_acceptable, parse_ble_envelope, parse_node_provision, provision_of, was_provisioned,
    Provision, ProvisionedBoardLayout, BLE_MIN_ATT_MTU, BLE_MSG_NODE_ACK, BLE_MSG_NODE_PROVISION,
};
use crate::node::map_storage::{MapStorage, MapsView};
use crate::node::traits::PlatformStorage;
use crate::node::types::BoardLayout;
use crate::text::{hex_text, push_hex};
use vstd::string::*;

verus! {

/// The default MTU: no MTU exchange has taken place yet.
pub const ATT_DEFAULT_MTU: u16 = 23;

/// Disconnect reason for a second client.
pub const REASON_SECOND_CLIENT: u8 = 0x13;

/// A diagnostic to relay: a frame and the channel to send it on.
#[derive(Debug, PartialEq, Eq)]
pub struct DiagRelayParams {
    pub rf_channel: u8,
    pub payload: Vec<u8>,
}

/// A diagnostic as mathematical values.
pub ghost struct DiagRelay {
    pub rf_channel: u8,
    pub payload: Seq<u8>,
}

impl View for DiagRelayParams {
    type V = DiagRelay;

    open spec fn view(&self) -> DiagRelay {
        DiagRelay { rf_channel: self.rf_channel, payload: self.payload@ }
    }
}

/// A diagnostic, if any, as mathematical values.
pub open spec fn relay_view(params: Option<DiagRelayParams>) -> Option<DiagRelay> {
    match params {
        Some(p) => Some(p@),
        None => None,
    }
}

/// What an indication that is on its way to the phone was for.
#[derive(Clone, Copy, Debug, PartialEq, Eq, Structural)]
pub enum PendingIndication {
    NodeAck,
    DiagAckAccepted,
    DiagAckRejected,
    DiagResult { clear_on_success: bool },
}

/// The answer to a request for a diagnostic.
#[derive(Clone, Copy, Debug, PartialEq, Eq, Structural)]
pub enum DiagAck {
    /// The diagnostic is run once the phone has the answer.
    Accepted,
    /// Another diagnostic is under way or its result was not fetched yet.
    Busy,
    /// The request is malformed, with this status.
    Refused(u8),
}

/// What is sent to the phone.
#[derive(Debug, PartialEq, Eq)]
pub enum Response {
    /// An encoded NODE_ACK.
    NodeAck(Vec<u8>),
    /// The answer to a request for a diagnostic.
    DiagAck(DiagAck),
    /// The stored result of a diagnostic, if there is one.
    DiagResult,
}

/// A response as mathematical values.
pub ghost enum Answer {
    NodeAck { data: Seq<u8> },
    DiagAck { ack: DiagAck },
    DiagResult,
}

impl View for Response {
    type V = Answer;

    open spec fn view(&self) -> Answer {
        match *self {
            Response::NodeAck(data) => Answer::NodeAck { data: data@ },
            Response::DiagAck(ack) => Answer::DiagAck { ack },
            Response::DiagResult => Answer::DiagResult,
        }
    }
}

/// How a poll goes on.
#[derive(Debug, PartialEq, Eq)]
pub enum SessionStep {
    /// The phone has the answer: shut BLE down and run the diagnostic.
    StartDiagnostic(DiagRelayParams),
    /// The phone has left: the session is over.
    Disconnect,
    /// Go on with the session.
    Continue,
}

/// A step as mathematical values.
pub ghost enum StepView {
    StartDiagnostic { params: DiagRelay },
    Disconnect,
    Continue,
}

impl View for SessionStep {
    type V = StepView;

    open spec fn view(&self) -> StepView {
        match *self {
            SessionStep::StartDiagnostic(params) => StepView::StartDiagnostic { params: params@ },
            SessionStep::Disconnect => StepView::Disconnect,
            SessionStep::Continue => StepView::Continue,
        }
    }
}

/// Envelope types of the diagnostic messages.
#[derive(Clone, Copy, Debug, PartialEq, Eq, Structural)]
pub struct DiagCodes {
    pub start_diag_relay: u8,
    pub fetch_diag_result: u8,
}

/// A session as mathematical values.
pub ghost struct SessionView {
    pub pending_write: Option<Seq<u8>>,
    pub disconnected: bool,
    pub authenticated: bool,
    pub conn_handle: Option<u16>,
    pub notify_pending: Option<PendingIndication>,
    pub notify_complete: Option<(PendingIndication, bool)>,
    pub pending_diag_start: Option<DiagRelay>,
}

/// The session before anything has happened.
pub open spec fn fresh_session() -> SessionView {
    SessionView {
        pending_write: None,
        disconnected: false,
        authenticated: false,
        conn_handle: None,
        notify_pending: None,
        notify_complete: None,
        pending_diag_start: None,
    }
}

impl SessionView {
    /// Whether the indication that accepts a diagnostic is on its way.
    pub open spec fn accepting(self) -> bool {
        self.notify_pending == Some(PendingIndication::DiagAckAccepted)
    }

    /// Whether the indication that accepts a diagnostic has ended.
    pub open spec fn accepted(self) -> bool {
        self.notify_complete matches Some((kind, _)) && kind == PendingIndication::DiagAckAccepted
    }

    /// A diagnostic that is being accepted is kept until its acceptance has
    /// been dealt with, and only one is accepted at a time.
    pub open spec fn wf(self) -> bool {
        &&& (self.accepting() || self.accepted()) ==> self.pending_diag_start is Some
        &&& !(self.accepting() && self.accepted())
    }

    /// What a poll leads to, and whether it clears the stored result.
    pub open spec fn poll_step(self) -> StepView {
        match self.notify_complete {
            Some((PendingIndication::DiagAckAccepted, true)) => StepView::StartDiagnostic {
                params: self.pending_diag_start->0,
            },
            _ => if self.disconnected {
                StepView::Disconnect
            } else {
                StepView::Continue
            },
        }
    }

    /// The session after a poll.
    pub open spec fn after_poll(self) -> SessionView {
        SessionView {
            notify_complete: None,
            pending_diag_start: if self.accepted() {
                None
            } else {
                self.pending_diag_start
            },
            ..self
        }
    }

    /// Whether a poll finds that a stored result was delivered.
    pub open spec fn result_delivered(self) -> bool {
        self.notify_complete == Some(
            (PendingIndication::DiagResult { clear_on_success: true }, true),
        )
    }
}

/// State of a pairing session.
pub struct PairingSession {
    pending_write: Option<Vec<u8>>,
    disconnected: bool,
    authenticated: bool,
    conn_handle: Option<u16>,
    notify_pending: Option<PendingIndication>,
    notify_complete: Option<(PendingIndication, bool)>,
    pending_diag_start: Option<DiagRelayParams>,
}

impl View for PairingSession {
    type V = SessionView;

    closed spec fn view(&self) -> SessionView {
        SessionView {
            pending_write: match self.pending_write {
                Some(data) => Some(data@),
                None => None,
            },
            disconnected: self.disconnected,
            authenticated: self.authenticated,
            conn_handle: self.conn_handle,
            notify_pending: self.notify_pending,
            notify_complete: self.notify_complete,
            pending_diag_start: relay_view(self.pending_diag_start),
        }
    }
}

/// The link's state as the BLE stack reports it.
#[derive(Clone, Copy, Debug, PartialEq, Eq, Structural)]
pub struct LinkState {
    pub encrypted: bool,
    pub mtu: u16,
}

/// What a message from the phone leads to.
pub open spec fn was_answered<S: PlatformStorage>(
    pre: SessionView,
    data: Seq<u8>,
    codes: DiagCodes,
    layout: Option<BoardLayout>,
    diag: Result<DiagRelay, u8>,
    result_stored: bool,
    storage: S,
    maps: MapsView,
    button_held: bool,
    paired_on_entry: bool,
    post: SessionView,
    storage_after: S,
    maps_after: MapsView,
    answer: Option<(PendingIndication, Answer)>,
) -> bool {
    let body = data.skip(3);
    if is_envelope(data) && data[0] == BLE_MSG_NODE_PROVISION {
        &&& post == pre
        &&& match provision_in(body, layout) {
            None => answer is None && storage_after == storage && maps_after == maps,
            Some(provision) => exists|status: u8| #[trigger]
                was_provisioned(
                    storage,
                    maps,
                    provision,
                    button_held,
                    paired_on_entry,
                    storage_after,
                    maps_after,
                    status,
                ) && answer == Some(
                    (
                        PendingIndication::NodeAck,
                        Answer::NodeAck { data: envelope(BLE_MSG_NODE_ACK, seq![status]) },
                    ),
                ),
        }
    } else {
        &&& storage_after == storage && maps_after == maps
        &&& if !is_envelope(data) {
            post == pre && answer is None
        } else if data[0] == codes.start_diag_relay {
            if pre.pending_diag_start is Some || result_stored {
                post == pre && answer == Some(
                    (
                        PendingIndication::DiagAckRejected,
                        Answer::DiagAck { ack: DiagAck::Busy },
                    ),
                )
            } else {
                match diag {
                    Ok(params) => {
                        &&& post == (SessionView { pending_diag_start: Some(params), ..pre })
                        &&& answer == Some(
                            (
                                PendingIndication::DiagAckAccepted,
                                Answer::DiagAck { ack: DiagAck::Accepted },
                            ),
                        )
                    },
                    Err(status) => post == pre && answer == Some(
                        (
                            PendingIndication::DiagAckRejected,
                            Answer::DiagAck { ack: DiagAck::Refused(status) },
                        ),
                    ),
                }
            }
        } else if data[0] == codes.fetch_diag_result {
            post == pre && answer == Some(
                (
                    PendingIndication::DiagResult { clear_on_success: result_stored },
                    Answer::DiagResult,
                ),
            )
        } else {
            post == pre && answer is None
        }
    }
}

/// The provision that a body holds, if it is well-formed.
pub open spec fn provision_in(body: Seq<u8>, layout: Option<BoardLayout>) -> Option<Provision> {
    if header_error(body) is Some {
        None
    } else if !has_layout(body) {
        Some(provision_of(body, ProvisionedBoardLayout::Absent))
    } else {
        match layout {
            Some(l) => Some(provision_of(body, ProvisionedBoardLayout::Provided(l))),
            None => None,
        }
    }
}

/// A response as mathematical values.
pub open spec fn answer_view(response: Option<(PendingIndication, Response)>) -> Option<
    (PendingIndication, Answer),
> {
    match response {
        Some((kind, r)) => Some((kind, r@)),
        None => None,
    }
}

impl PairingSession {
    /// A session before anything has happened.
    pub fn new() -> (session: PairingSession)
        ensures
            session@ == fresh_session(),
            session@.wf(),
    {
        PairingSession {
            pending_write: None,
            disconnected: false,
            authenticated: false,
            conn_handle: None,
            notify_pending: None,
            notify_complete: None,
            pending_diag_start: None,
        }
    }

    /// A client has connected; `connected_count` counts it too.  Returns
    /// `false` where it has to be disconnected, since another one is there.
    pub fn on_connect(&mut self, connected_count: usize, conn_handle: u16) -> (accepted: bool)
        requires
            old(self)@.wf(),
        ensures
            final(self)@.wf(),
            accepted == (connected_count <= 1),
            final(self)@ == (if accepted {
                SessionView {
                    disconnected: false,
                    conn_handle: Some(conn_handle),
                    ..old(self)@
                }
            } else {
                old(self)@
            }),
    {
        if connected_count > 1 {
            return false;
        }
        self.disconnected = false;
        self.conn_handle = Some(conn_handle);
        true
    }

    /// The client has disconnected.
    pub fn on_disconnect(&mut self)
        requires
            old(self)@.wf(),
        ensures
            final(self)@.wf(),
            final(self)@ == (SessionView {
                disconnected: true,
                authenticated: false,
                conn_handle: None,
                ..old(self)@
            }),
    {
        self.disconnected = true;
        self.authenticated = false;
        self.conn_handle = None;
    }

    /// Pairing has ended, successfully or not.  Returns the connection to
    /// drop, where the MTU is too low.
    pub fn on_authentication_complete(&mut self, success: bool, mtu: u16, conn_handle: u16) -> (
    disconnect: Option<u16>)
        requires
            old(self)@.wf(),
        ensures
            final(self)@.wf(),
            final(self)@ == (SessionView {
                authenticated: old(self)@.authenticated || (success && mtu >= BLE_MIN_ATT_MTU),
                ..old(self)@
            }),
            disconnect == (if success && mtu < BLE_MIN_ATT_MTU {
                Some(conn_handle)
            } else {
                None::<u16>
            }),
    {
        if !success {
            return None;
        }
        if !is_mtu_acceptable(mtu) {
            return Some(conn_handle);
        }
        self.authenticated = true;
        None
    }

    /// The client wrote to the command characteristic.  The write is kept
    /// until the session is authenticated; a later one replaces it.
    pub fn on_write(&mut self, value: &[u8])
        requires
            old(self)@.wf(),
        ensures
            final(self)@.wf(),
            final(self)@ == (if value@.len() == 0 {
                old(self)@
            } else {
                SessionView { pending_write: Some(value@), ..old(self)@ }
            }),
    {
        if value.len() == 0 {
            return;
        }
        self.pending_write = Some(copy_bytes(value));
    }

    /// An indication has ended.
    pub fn on_notify_tx(&mut self, success: bool)
        requires
            old(self)@.wf(),
        ensures
            final(self)@.wf(),
            final(self)@ == (match old(self)@.notify_pending {
                Some(kind) => SessionView {
                    notify_pending: None,
                    notify_complete: Some((kind, success)),
                    ..old(self)@
                },
                None => old(self)@,
            }),
    {
        if let Some(kind) = self.notify_pending {
            self.notify_pending = None;
            self.notify_complete = Some((kind, success));
        }
    }

    /// Begin a poll: deal with an indication that has ended, and with a phone
    /// that has left.  A stored result that was delivered is cleared.
    pub fn poll<R>(&mut self, stored_result: &mut Option<R>) -> (step: SessionStep)
        requires
            old(self)@.wf(),
        ensures
            final(self)@.wf(),
            step@ == old(self)@.poll_step(),
            final(self)@ == old(self)@.after_poll(),
            *final(stored_result) == (if old(self)@.result_delivered() {
                None::<R>
            } else {
                *old(stored_result)
            }),
    {
        let complete = self.notify_complete;
        self.notify_complete = None;
        if let Some((kind, success)) = complete {
            match kind {
                PendingIndication::DiagAckAccepted => {
                    let mut params: Option<DiagRelayParams> = None;
                    std::mem::swap(&mut self.pending_diag_start, &mut params);
                    if success {
                        if let Some(p) = params {
                            return SessionStep::StartDiagnostic(p);
                        }
                    }
                },
                PendingIndication::DiagResult { clear_on_success } => {
                    if clear_on_success && success {
                        *stored_result = None;
                    }
                },
                _ => {},
            }
        }
        if self.disconnected {
            SessionStep::Disconnect
        } else {
            SessionStep::Continue
        }
    }

    /// The connection whose link state is needed for `encryption_fallback`.
    pub fn connection(&self) -> (handle: Option<u16>)
        ensures
            handle == self@.conn_handle,
    {
        self.conn_handle
    }

    /// Whether the session is authenticated.  Where the stack did not report
    /// that, the link's own state (`link`; `None` if it is not known) decides:
    /// it must be encrypted, and once an MTU was exchanged it must be large
    /// enough.  Also returns the connection to drop, where it is not.
    pub fn encryption_fallback(&mut self, link: Option<LinkState>) -> (outcome: (bool, Option<u16>))
        requires
            old(self)@.wf(),
        ensures
            final(self)@.wf(),
            ({
                let promoted = old(self)@.conn_handle is Some && (link matches Some(l)
                    && l.encrypted && l.mtu >= BLE_MIN_ATT_MTU);
                let too_small = old(self)@.conn_handle is Some && (link matches Some(l)
                    && l.encrypted && ATT_DEFAULT_MTU < l.mtu < BLE_MIN_ATT_MTU);
                &&& outcome.0 == (old(self)@.authenticated || promoted)
                &&& outcome.1 == (if !old(self)@.authenticated && too_small {
                    old(self)@.conn_handle
                } else {
                    None::<u16>
                })
                &&& final(self)@ == (SessionView { authenticated: outcome.0, ..old(self)@ })
            }),
    {
        if self.authenticated {
            return (true, None);
        }
        let handle = match self.conn_handle {
            Some(handle) => handle,
            None => {
                return (false, None);
            },
        };
        let link = match link {
            Some(link) => link,
            None => {
                return (false, None);
            },
        };
        if !link.encrypted {
            return (false, None);
        }
        // The default MTU means that the exchange has not happened yet.
        if link.mtu <= ATT_DEFAULT_MTU {
            return (false, None);
        }
        if !is_mtu_acceptable(link.mtu) {
            return (false, Some(handle));
        }
        self.authenticated = true;
        (true, None)
    }

    /// Take the write that waits, if the session is authenticated.
    pub fn take_write(&mut self) -> (data: Option<Vec<u8>>)
        requires
            old(self)@.wf(),
        ensures
            final(self)@.wf(),
            match data {
                Some(d) => {
                    &&& old(self)@.authenticated
                    &&& old(self)@.pending_write == Some(d@)
                    &&& final(self)@ == (SessionView { pending_write: None, ..old(self)@ })
                },
                None => {
                    &&& !old(self)@.authenticated || old(self)@.pending_write is None
                    &&& final(self)@ == old(self)@
                },
            },
    {
        if !self.authenticated {
            return None;
        }
        let mut data: Option<Vec<u8>> = None;
        std::mem::swap(&mut self.pending_write, &mut data);
        data
    }

    /// Respond to a message from the phone.  `layout` is the decoded board
    /// layout of a NODE_PROVISION and `diag` the decoded request of a
    /// diagnostic; each matters only for its own message.
    pub fn respond<S: PlatformStorage>(
        &mut self,
        data: &[u8],
        codes: DiagCodes,
        layout: Option<BoardLayout>,
        diag: Result<DiagRelayParams, u8>,
        result_stored: bool,
        storage: &mut S,
        map_storage: &mut MapStorage,
        button_held: bool,
        paired_on_entry: bool,
    ) -> (response: Option<(PendingIndication, Response)>)
        requires
            old(self)@.wf(),
            old(map_storage)@.wf(),
        ensures
            final(self)@.wf(),
            final(map_storage)@.wf(),
            was_answered(
                old(self)@,
                data@,
                codes,
                layout,
                match diag {
                    Ok(params) => Ok(params@),
                    Err(status) => Err(status),
                },
                result_stored,
                *old(storage),
                old(map_storage)@,
                button_held,
                paired_on_entry,
                final(self)@,
                *final(storage),
                final(map_storage)@,
                answer_view(response),
            ),
    {
        let (msg_type, body) = match parse_ble_envelope(data) {
            Some(parsed) => parsed,
            None => {
                return None;
            },
        };
        if msg_type == BLE_MSG_NODE_PROVISION {
            let ghost before = *storage;
            let ghost maps = map_storage@;
            return match parse_node_provision(body, layout) {
                Ok(provision) => {
                    assert(provision_in(body@, layout) == Some(provision@));
                    let status = handle_node_provision(
                        &provision,
                        storage,
                        map_storage,
                        button_held,
                        paired_on_entry,
                    );
                    assert(was_provisioned(
                        before,
                        maps,
                        provision@,
                        button_held,
                        paired_on_entry,
                        *storage,
                        map_storage@,
                        status,
                    ));
                    Some((PendingIndication::NodeAck, Response::NodeAck(encode_node_ack(status))))
                },
                Err(_) => None,
            };
        }
        if msg_type == codes.start_diag_relay {
            if self.pending_diag_start.is_some() || result_stored {
                return Some(
                    (PendingIndication::DiagAckRejected, Response::DiagAck(DiagAck::Busy)),
                );
            }
            return match diag {
                Ok(params) => {
                    self.pending_diag_start = Some(params);
                    Some((PendingIndication::DiagAckAccepted, Response::DiagAck(DiagAck::Accepted)))
                },
                Err(status) => Some(
                    (
                        PendingIndication::DiagAckRejected,
                        Response::DiagAck(DiagAck::Refused(status)),
                    ),
                ),
            };
        }
        if msg_type == codes.fetch_diag_result {
            return Some(
                (
                    PendingIndication::DiagResult { clear_on_success: result_stored },
                    Response::DiagResult,
                ),
            );
        }
        None
    }

    /// Whether an indication of this kind may begin now: only one acceptance
    /// of a diagnostic is on its way at a time.
    pub open spec fn may_begin(&self, kind: PendingIndication) -> bool {
        kind == PendingIndication::DiagAckAccepted ==> {
            &&& self@.pending_diag_start is Some
            &&& !self@.accepted()
            &&& !self@.accepting()
        }
    }

    /// Whether an indication of this kind may begin now.
    pub fn can_begin(&self, kind: PendingIndication) -> (can: bool)
        ensures
            can == self.may_begin(kind),
    {
        if kind != PendingIndication::DiagAckAccepted {
            return true;
        }
        let accepted = match self.notify_complete {
            Some((k, _)) => k == PendingIndication::DiagAckAccepted,
            None => false,
        };
        let accepting = match self.notify_pending {
            Some(k) => k == PendingIndication::DiagAckAccepted,
            None => false,
        };
        self.pending_diag_start.is_some() && !accepted && !accepting
    }

    /// Begin to indicate a response.  Returns the connection to indicate it
    /// on; without one the response is dropped, and an accepted diagnostic
    /// with it.
    pub fn begin_indication(&mut self, kind: PendingIndication) -> (handle: Option<u16>)
        requires
            old(self)@.wf(),
            old(self).may_begin(kind),
        ensures
            final(self)@.wf(),
            handle == old(self)@.conn_handle,
            final(self)@ == (match handle {
                Some(_) => SessionView { notify_pending: Some(kind), ..old(self)@ },
                None => if kind == PendingIndication::DiagAckAccepted {
                    SessionView { pending_diag_start: None, ..old(self)@ }
                } else {
                    old(self)@
                },
            }),
    {
        match self.conn_handle {
            Some(handle) => {
                self.notify_pending = Some(kind);
                Some(handle)
            },
            None => {
                if kind == PendingIndication::DiagAckAccepted {
                    self.pending_diag_start = None;
                }
                None
            },
        }
    }

    /// The stack could not send the indication: it is forgotten, and an
    /// accepted diagnostic with it, even if its acceptance was reported.
    pub fn indication_failed(&mut self, kind: PendingIndication)
        requires
            old(self)@.wf(),
        ensures
            final(self)@.wf(),
            final(self)@ == (SessionView {
                notify_pending: None,
                notify_complete: if kind == PendingIndication::DiagAckAccepted
                    && old(self)@.accepted() {
                    None
                } else {
                    old(self)@.notify_complete
                },
                pending_diag_start: if kind == PendingIndication::DiagAckAccepted {
                    None
                } else {
                    old(self)@.pending_diag_start
                },
                ..old(self)@
            }),
    {
        self.notify_pending = None;
        if kind == PendingIndication::DiagAckAccepted {
            self.pending_diag_start = None;
            if let Some((k, _)) = self.notify_complete {
                if k == PendingIndication::DiagAckAccepted {
                    self.notify_complete = None;
                }
            }
        }
    }
}

/// The name that the node advertises: the last two bytes of its address, which
/// the stack stores lowest byte first.
pub fn device_name(mac_le: &[u8; 6]) -> (name: String)
    ensures
        name@ == "sonde-"@ + hex_text(mac_le@[1]) + hex_text(mac_le@[0]),
{
    let mut name = String::from_str("sonde-");
    push_hex(&mut name, mac_le[1]);
    push_hex(&mut name, mac_le[0]);
    name
}

/// Secondary channel setting: none.
pub const SECOND_CHAN_NONE: u32 = 0;

/// The channel to go back to after a diagnostic: the current one, where it is
/// known, else the stored one, else the first.
pub fn restore_channel(current: Option<(u8, u32)>, stored: Option<u8>) -> (channel: (u8, u32))
    ensures
        channel == (match current {
            Some(c) => c,
            None => (
                match stored {
                    Some(s) => s,
                    None => 1u8,
                },
                SECOND_CHAN_NONE,
            ),
        }),
{
    match current {
        Some(c) => c,
        None => match stored {
            Some(s) => (s, SECOND_CHAN_NONE),
            None => (1, SECOND_CHAN_NONE),
        },
    }
}

/// What a diagnostic relay does next.
#[derive(Clone, Copy, Debug, PartialEq, Eq, Structural)]
pub enum RelayStep {
    /// Set the radio to this channel.
    SetChannel(u8),
    /// Send the diagnostic and wait for its result.
    Relay,
    /// Set the radio back to this channel and report the result.
    Restore(u8, u32),
    /// Report that the channel could not be used.
    ChannelError,
}

/// A diagnostic relay: the channel is set, the diagnostic is relayed, and the
/// channel is set back, whatever the result.
#[derive(Clone, Copy, Debug, PartialEq, Eq)]
pub struct DiagRelayRun {
    pub rf_channel: u8,
    pub restore: (u8, u32),
    pub relayed: bool,
}

impl DiagRelayRun {
    /// Begin a relay.  Without a transport the channel cannot be used.
    pub fn begin(
        params: &DiagRelayParams,
        has_transport: bool,
        current: Option<(u8, u32)>,
        stored: Option<u8>,
    ) -> (run: (DiagRelayRun, RelayStep))
        ensures
            run.0.rf_channel == params.rf_channel,
            run.0.restore == (match current {
                Some(c) => c,
                None => (
                    match stored {
                        Some(s) => s,
                        None => 1u8,
                    },
                    SECOND_CHAN_NONE,
                ),
            }),
            !run.0.relayed,
            run.1 == (if has_transport {
                RelayStep::SetChannel(params.rf_channel)
            } else {
                RelayStep::ChannelError
            }),
    {
        let run = DiagRelayRun {
            rf_channel: params.rf_channel,
            restore: restore_channel(current, stored),
            relayed: false,
        };
        if has_transport {
            (run, RelayStep::SetChannel(params.rf_channel))
        } else {
            (run, RelayStep::ChannelError)
        }
    }

    /// The channel was set, or could not be.
    pub fn channel_set(&self, ok: bool) -> (step: RelayStep)
        ensures
            step == (if ok {
                RelayStep::Relay
            } else {
                RelayStep::ChannelError
            }),
    {
        if ok {
            RelayStep::Relay
        } else {
            RelayStep::ChannelError
        }
    }

    /// The diagnostic was relayed.
    pub fn relay_done(&mut self) -> (step: RelayStep)
        ensures
            *final(self) == (DiagRelayRun { relayed: true, ..*old(self) }),
            step == RelayStep::Restore(old(self).restore.0, old(self).restore.1),
    {
        self.relayed = true;
        RelayStep::Restore(self.restore.0, self.restore.1)
    }
}

/// A diagnostic is started once, and exactly the one that was accepted, after
/// the phone has received the acceptance; a failed acceptance drops it.
pub proof fn law_accepted_diagnostic_is_started(session: SessionView, params: DiagRelay, success: bool)
    requires
        session.wf(),
        session.pending_diag_start == Some(params),
        session.notify_complete == Some((PendingIndication::DiagAckAccepted, success)),
    ensures
        success ==> session.poll_step() == (StepView::StartDiagnostic { params }),
        !success ==> !(session.poll_step() is StartDiagnostic),
        session.after_poll().pending_diag_start is None,
        session.after_poll().wf(),
        !(session.after_poll().poll_step() is StartDiagnostic),
{
}

/// While a diagnostic waits to be started, or its result to be fetched, every
/// further request is refused as busy and changes nothing.
pub proof fn law_one_diagnostic_at_a_time<S: PlatformStorage>(
    pre: SessionView,
    data: Seq<u8>,
    codes: DiagCodes,
    layout: Option<BoardLayout>,
    diag: Result<DiagRelay, u8>,
    result_stored: bool,
    storage: S,
    maps: MapsView,
    button_held: bool,
    paired_on_entry: bool,
    post: SessionView,
    storage_after: S,
    maps_after: MapsView,
    answer: Option<(PendingIndication, Answer)>,
)
    requires
        is_envelope(data),
        data[0] == codes.start_diag_relay,
        data[0] != BLE_MSG_NODE_PROVISION,
        pre.pending_diag_start is Some || result_stored,
        was_answered(
            pre,
            data,
            codes,
            layout,
            diag,
            result_stored,
            storage,
            maps,
            button_held,
            paired_on_entry,
            post,
            storage_after,
            maps_after,
            answer,
        ),
    ensures
        post == pre,
        storage_after == storage,
        answer == Some(
            (PendingIndication::DiagAckRejected, (Answer::DiagAck { ack: DiagAck::Busy })),
        ),
{
}

/// A result is kept until the phone has received it: only the delivery of an
/// indication that carried it clears it.
pub proof fn law_result_is_kept_until_delivered(session: SessionView, success: bool, clear: bool)
    requires
        session.notify_complete == Some(
            (PendingIndication::DiagResult { clear_on_success: clear }, success),
        ),
    ensures
        session.result_delivered() == (clear && success),
{
}

/// A session begins with nothing connected, nothing authenticated and nothing
/// waiting.
pub proof fn law_session_starts_empty()
    ensures
        fresh_session().pending_write is None && fresh_session().conn_handle is None,
        !fresh_session().disconnected && !fresh_session().authenticated,
        fresh_session().notify_pending is None && fresh_session().notify_complete is None,
        fresh_session().pending_diag_start is None,
        fresh_session().poll_step() is Continue,
{
}

/// A poll starts a diagnostic exactly where its acceptance has reached the
/// phone; else it ends the session exactly where the phone has left.  It deals
/// with an ended indication once, and keeps everything else, a diagnostic that
/// waits for its acceptance to end included.
pub proof fn law_polls_follow_the_phone(session: SessionView)
    requires
        session.wf(),
    ensures
        ({
            let started = session.notify_complete == Some(
                (PendingIndication::DiagAckAccepted, true),
            );
            let after = session.after_poll();
            &&& session.poll_step() is StartDiagnostic <==> started
            &&& !started ==> (session.poll_step() is Disconnect <==> session.disconnected)
            &&& after.notify_complete is None
            &&& !(session.notify_complete matches Some((k, _)) && k is DiagAckAccepted)
                ==> after.pending_diag_start == session.pending_diag_start
            &&& after.pending_write == session.pending_write
            &&& after.disconnected == session.disconnected
            &&& after.authenticated == session.authenticated
            &&& after.conn_handle == session.conn_handle
            &&& after.notify_pending == session.notify_pending
            &&& !after.result_delivered()
        }),
{
}

/// A stored result is cleared only after an indication that carried it has
/// reached the phone, and never by anything else that ended.
pub proof fn law_nothing_else_clears_a_result(session: SessionView)
    requires
        !(session.notify_complete matches Some((k, _)) && k is DiagResult),
    ensures
        !session.result_delivered(),
{
}

/// Only a well-formed NODE_PROVISION changes what is stored, and it is answered
/// with a NODE_ACK of the status that handling it has led to; a malformed one is
/// not answered and changes nothing.  Neither changes the session.
pub proof fn law_provisions_are_acknowledged<S: PlatformStorage>(
    pre: SessionView,
    data: Seq<u8>,
    codes: DiagCodes,
    layout: Option<BoardLayout>,
    diag: Result<DiagRelay, u8>,
    result_stored: bool,
    storage: S,
    maps: MapsView,
    button_held: bool,
    paired_on_entry: bool,
    post: SessionView,
    storage_after: S,
    maps_after: MapsView,
    answer: Option<(PendingIndication, Answer)>,
)
    requires
        is_envelope(data),
        data[0] == 1,
        was_answered(
            pre,
            data,
            codes,
            layout,
            diag,
            result_stored,
            storage,
            maps,
            button_held,
            paired_on_entry,
            post,
            storage_after,
            maps_after,
            answer,
        ),
    ensures
        post == pre,
        header_error(data.skip(3)) is Some || (has_layout(data.skip(3)) && layout is None)
            ==> answer is None && storage_after == storage && maps_after == maps,
        header_error(data.skip(3)) is None && !has_layout(data.skip(3)) ==> exists|status: u8|
            answer == Some(
                (
                    PendingIndication::NodeAck,
                    (Answer::NodeAck { data: seq![0x81u8, 0u8, 1u8, status] }),
                ),
            ) && #[trigger] was_provisioned(
                storage,
                maps,
                provision_of(data.skip(3), ProvisionedBoardLayout::Absent),
                button_held,
                paired_on_entry,
                storage_after,
                maps_after,
                status,
            ),
        header_error(data.skip(3)) is None && has_layout(data.skip(3)) && layout is Some ==> exists|status: u8|
            answer == Some(
                (
                    PendingIndication::NodeAck,
                    (Answer::NodeAck { data: seq![0x81u8, 0u8, 1u8, status] }),
                ),
            ) && #[trigger] was_provisioned(
                storage,
                maps,
                provision_of(data.skip(3), ProvisionedBoardLayout::Provided(layout->0)),
                button_held,
                paired_on_entry,
                storage_after,
                maps_after,
                status,
            ),
{
    let body = data.skip(3);
    if header_error(body) is None && (has_layout(body) ==> layout is Some) {
        let provision = provision_in(body, layout)->0;
        let status = choose|status: u8| #[trigger]
            was_provisioned(
                storage,
                maps,
                provision,
                button_held,
                paired_on_entry,
                storage_after,
                maps_after,
                status,
            ) && answer == Some(
                (
                    PendingIndication::NodeAck,
                    Answer::NodeAck { data: envelope(BLE_MSG_NODE_ACK, seq![status]) },
                ),
            );
        crate::node::ble_pairing::law_acknowledgements_carry_the_status(status);
        assert(answer == Some(
            (
                PendingIndication::NodeAck,
                Answer::NodeAck { data: seq![0x81u8, 0u8, 1u8, status] },
            ),
        ));
    }
}

/// Messages about diagnostics, unknown ones and what is no message at all leave
/// storage and maps alone.  A diagnostic that can be accepted is kept as it was
/// asked for; a malformed request is refused with its status; a result is handed
/// out, to be cleared once it has arrived if there is one; the rest is ignored.
pub proof fn law_other_messages_are_about_diagnostics<S: PlatformStorage>(
    pre: SessionView,
    data: Seq<u8>,
    codes: DiagCodes,
    layout: Option<BoardLayout>,
    diag: Result<DiagRelay, u8>,
    result_stored: bool,
    storage: S,
    maps: MapsView,
    button_held: bool,
    paired_on_entry: bool,
    post: SessionView,
    storage_after: S,
    maps_after: MapsView,
    answer: Option<(PendingIndication, Answer)>,
)
    requires
        !is_envelope(data) || data[0] != 1,
        codes.start_diag_relay != codes.fetch_diag_result,
        was_answered(
            pre,
            data,
            codes,
            layout,
            diag,
            result_stored,
            storage,
            maps,
            button_held,
            paired_on_entry,
            post,
            storage_after,
            maps_after,
            answer,
        ),
    ensures
        storage_after == storage,
        maps_after == maps,
        post == (SessionView { pending_diag_start: post.pending_diag_start, ..pre }),
        is_envelope(data) && data[0] == codes.start_diag_relay && pre.pending_diag_start is None
            && !result_stored ==> match diag {
            Ok(params) => post.pending_diag_start == Some(params) && answer == Some(
                (
                    PendingIndication::DiagAckAccepted,
                    (Answer::DiagAck { ack: DiagAck::Accepted }),
                ),
            ),
            Err(status) => post == pre && answer == Some(
                (
                    PendingIndication::DiagAckRejected,
                    (Answer::DiagAck { ack: DiagAck::Refused(status) }),
                ),
            ),
        },
        is_envelope(data) && data[0] == codes.fetch_diag_result ==> post == pre && answer == Some(
            (
                (PendingIndication::DiagResult { clear_on_success: result_stored }),
                Answer::DiagResult,
            ),
        ),
        !is_envelope(data) || (data[0] != codes.start_diag_relay && data[0]
            != codes.fetch_diag_result) ==> post == pre && answer is None,
{
}

/// The MTU of an accepted phone is at least 247, one of 23 has not been
/// negotiated yet, and a second phone is told 0x13.
pub proof fn law_session_limits()
    ensures
        BLE_MIN_ATT_MTU == 247,
        ATT_DEFAULT_MTU == 23,
        REASON_SECOND_CLIENT == 0x13,
        SECOND_CHAN_NONE == 0,
{
}

/// What is sent to the phone, and how a poll goes on, stand for themselves.
pub proof fn law_responses_stand_for_themselves(response: Response, step: SessionStep)
    ensures
        response matches Response::NodeAck(data) ==> response@ == (Answer::NodeAck { data: data@ }),
        response matches Response::DiagAck(ack) ==> response@ == (Answer::DiagAck { ack }),
        response is DiagResult ==> response@ is DiagResult,
        step matches SessionStep::StartDiagnostic(params) ==> step@ == (StepView::StartDiagnostic {
            params: DiagRelay { rf_channel: params.rf_channel, payload: params.payload@ },
        }),
        step is Disconnect <==> step@ is Disconnect,
        step is Continue <==> step@ is Continue,
{
}

/// Only one acceptance of a diagnostic is on its way at a time, and only for a
/// diagnostic that waits; every other indication may begin at any time.
pub proof fn law_one_acceptance_at_a_time(session: PairingSession, kind: PendingIndication)
    ensures
        !(kind is DiagAckAccepted) ==> session.may_begin(kind),
        kind is DiagAckAccepted ==> (session.may_begin(kind) <==> {
            &&& session@.pending_diag_start is Some
            &&& !(session@.notify_pending matches Some(k) && k is DiagAckAccepted)
            &&& !(session@.notify_complete matches Some((k, _)) && k is DiagAckAccepted)
        }),
{
}

} // verus!
