//! The clipboard offered on X11: who asked for it, and whether that was the target.
use crate::text::strings::prefixed;
use vstd::prelude::*;

verus! {

/// The window identifier and the atom that stand for none.
pub const NONE: u32 = 0;

/// What is given as the hint that the text is a secret.
pub const SECRET_HINT: &'static str = "secret";

/// Where the offer of the clipboard stands.
#[derive(Debug, Clone, Copy, PartialEq, Eq, Structural)]
pub enum LinuxProviderState {
    /// The text is offered; the paste was not sent yet.
    Publishing,
    /// The paste is about to be sent; the target has not asked for the text yet.
    AwaitingConsumer,
    /// The target took the text.
    Confirmed,
    /// Another program owns the clipboard.
    OwnershipLost,
    Failed,
}

/// What happens to the offer.
#[derive(Debug, Clone, Copy, PartialEq, Eq, Structural)]
pub enum LinuxProviderInput {
    ArmPaste,
    TextRequested { intended_consumer: bool },
    SelectionClear,
    ProviderError,
}

/// Where the offer stands after something happened to it. Delivery is confirmed only
/// by the target asking after the paste was armed, and then for good.
pub open spec fn provider_next(
    state: LinuxProviderState,
    input: LinuxProviderInput,
) -> LinuxProviderState {
    match (state, input) {
        (LinuxProviderState::Confirmed, _) => LinuxProviderState::Confirmed,
        (_, LinuxProviderInput::SelectionClear) => LinuxProviderState::OwnershipLost,
        (_, LinuxProviderInput::ProviderError) => LinuxProviderState::Failed,
        (LinuxProviderState::Publishing, LinuxProviderInput::ArmPaste) => {
            LinuxProviderState::AwaitingConsumer
        },
        (
            LinuxProviderState::AwaitingConsumer,
            LinuxProviderInput::TextRequested { intended_consumer: true },
        ) => LinuxProviderState::Confirmed,
        _ => state,
    }
}

/// Where the offer stands after something happened to it.
pub fn linux_provider_transition(state: LinuxProviderState, input: LinuxProviderInput) -> (r:
    LinuxProviderState)
    ensures
        r == provider_next(state, input),
{
    match (state, input) {
        (LinuxProviderState::Publishing, LinuxProviderInput::ArmPaste) => {
            LinuxProviderState::AwaitingConsumer
        },
        (LinuxProviderState::Publishing, LinuxProviderInput::TextRequested { .. }) => {
            LinuxProviderState::Publishing
        },
        (
            LinuxProviderState::AwaitingConsumer,
            LinuxProviderInput::TextRequested { intended_consumer },
        ) => {
            if intended_consumer {
                LinuxProviderState::Confirmed
            } else {
                LinuxProviderState::AwaitingConsumer
            }
        },
        (LinuxProviderState::Confirmed, LinuxProviderInput::SelectionClear) => {
            LinuxProviderState::Confirmed
        },
        (_, LinuxProviderInput::SelectionClear) => LinuxProviderState::OwnershipLost,
        (LinuxProviderState::Confirmed, LinuxProviderInput::ProviderError) => {
            LinuxProviderState::Confirmed
        },
        (_, LinuxProviderInput::ProviderError) => LinuxProviderState::Failed,
        (state, _) => state,
    }
}

/// Delivery becomes confirmed only by the target asking for the text while it is
/// awaited.
pub proof fn only_the_target_confirms(state: LinuxProviderState, input: LinuxProviderInput)
    requires
        !(state is Confirmed),
        provider_next(state, input) is Confirmed,
    ensures
        state is AwaitingConsumer,
        input == (LinuxProviderInput::TextRequested { intended_consumer: true }),
{
}

/// The target is awaited only after the paste was armed.
pub proof fn only_arming_awaits_the_target(state: LinuxProviderState, input: LinuxProviderInput)
    requires
        !(state is AwaitingConsumer),
        provider_next(state, input) is AwaitingConsumer,
    ensures
        state is Publishing,
        input is ArmPaste,
{
}

/// Other programs that ask for the text change nothing.
pub proof fn other_consumers_change_nothing(state: LinuxProviderState)
    ensures
        provider_next(state, LinuxProviderInput::TextRequested { intended_consumer: false })
            == state,
{
}

/// Losing the clipboard or failing before delivery was confirmed is no delivery, and
/// once confirmed it stays so.
pub proof fn loss_is_no_delivery(state: LinuxProviderState, input: LinuxProviderInput)
    ensures
        !(state is Confirmed) && input is SelectionClear ==> provider_next(state, input)
            is OwnershipLost,
        !(state is Confirmed) && input is ProviderError ==> provider_next(state, input) is Failed,
        state is Confirmed ==> provider_next(state, input) is Confirmed,
{
}

/// What the provider of the clipboard tells the one who pastes.
#[derive(Debug, Clone, Copy, PartialEq, Eq, Structural)]
pub enum LinuxProviderEvent {
    PasteArmed,
    DeliveryConfirmed,
    OwnershipLost,
    ProviderFailed,
}

/// The atoms of the forms in which the clipboard can be asked for.
#[derive(Debug, Clone, Copy, PartialEq, Eq, Structural)]
pub struct SelectionAtoms {
    pub targets: u32,
    pub utf8_string: u32,
    pub utf8_mime_0: u32,
    pub utf8_mime_1: u32,
    pub text: u32,
    /// Tells clipboard managers not to keep the text.
    pub password_hint: u32,
}

impl SelectionAtoms {
    /// The form is one of text.
    pub open spec fn is_text(self, target: u32) -> bool {
        target == self.utf8_string || target == self.utf8_mime_0 || target == self.utf8_mime_1
            || target == self.text
    }

    /// All forms, as they are listed to who asks.
    pub open spec fn offered(self) -> Seq<u32> {
        seq![
            self.targets,
            self.utf8_string,
            self.utf8_mime_0,
            self.utf8_mime_1,
            self.text,
            self.password_hint,
        ]
    }
}

/// A window asking for the clipboard.
#[derive(Debug, Clone, Copy, PartialEq, Eq, Structural)]
pub struct SelectionRequest {
    pub requestor: u32,
    pub selection: u32,
    /// The form that is asked for.
    pub target: u32,
    /// Where the answer goes; older programs leave that open.
    pub property: u32,
    pub time: u32,
    pub sequence: u16,
}

/// What is written as an answer.
#[derive(Debug, Clone, Copy, PartialEq, Eq, Structural)]
pub enum ReplyKind {
    /// The list of forms.
    Targets,
    /// The hint that the text is a secret.
    Hint,
    /// The text.
    Text,
}

/// What the provider is about to do.
#[derive(Debug, Clone, Copy, PartialEq, Eq, Structural)]
pub enum ServePhase {
    /// Get the next event: without waiting while publishing, and else waiting for it.
    Listen,
    /// Wait for a millisecond.
    Pause,
    /// Write an answer to the property of the requesting window.
    Write { request: SelectionRequest, property: u32, kind: ReplyKind },
    /// Tell the requesting window where its answer is, or that there is none.
    Notify { request: SelectionRequest, property: u32, delivered: bool },
    /// Find out whether the requesting window belongs to the target.
    Check { requestor: u32 },
    /// Tell the one who pastes, and stop after that or go on.
    Announce { event: LinuxProviderEvent, last: bool },
    /// Stop.
    Stop,
    /// Stop, and tell the one who pastes that the provider failed.
    Fail,
}

/// What happened.
#[derive(Debug, Clone, Copy, PartialEq, Eq, Structural)]
pub enum ServeEvent {
    /// There was no event, and the paste was armed or not.
    Quiet { armed: bool },
    /// The pause is over.
    Rested,
    /// A window lost a selection.
    SelectionClear { owner: u32 },
    /// A window asked for a selection.
    SelectionRequest { owner: u32, request: SelectionRequest },
    /// Something that does not matter.
    Unrelated,
    /// The answer was written or not.
    Written { ok: bool },
    /// The requesting window was told or not.
    Notified { ok: bool },
    /// The requesting window belongs to the target or not.
    Checked { intended_consumer: bool },
    /// The one who pastes was told.
    Announced,
    /// The connection is broken.
    Broken,
}

/// Where the answer to a request goes.
pub open spec fn reply_property(request: SelectionRequest) -> u32 {
    if request.property == NONE {
        request.target
    } else {
        request.property
    }
}

/// What is written as an answer to a request, if it can be met.
pub open spec fn reply_kind(atoms: SelectionAtoms, target: u32) -> Option<ReplyKind> {
    if target == atoms.targets {
        Some(ReplyKind::Targets)
    } else if target == atoms.password_hint {
        Some(ReplyKind::Hint)
    } else if atoms.is_text(target) {
        Some(ReplyKind::Text)
    } else {
        None
    }
}

/// The event is one that may come while the provider does what it is about to do.
pub open spec fn expected(state: LinuxProviderState, phase: ServePhase, event: ServeEvent) -> bool {
    match phase {
        ServePhase::Listen => match event {
            ServeEvent::Quiet { .. } => state is Publishing,
            ServeEvent::SelectionClear { .. } => true,
            ServeEvent::SelectionRequest { .. } => true,
            ServeEvent::Unrelated => true,
            ServeEvent::Broken => true,
            _ => false,
        },
        ServePhase::Pause => event is Rested,
        ServePhase::Write { .. } => event is Written,
        ServePhase::Notify { .. } => event is Notified,
        ServePhase::Check { .. } => event is Checked,
        ServePhase::Announce { .. } => event is Announced,
        ServePhase::Stop => false,
        ServePhase::Fail => false,
    }
}

/// What the provider that owns the clipboard by `window` does next.
pub open spec fn served(
    window: u32,
    atoms: SelectionAtoms,
    state: LinuxProviderState,
    phase: ServePhase,
    event: ServeEvent,
) -> (LinuxProviderState, ServePhase) {
    match (phase, event) {
        (ServePhase::Listen, ServeEvent::Quiet { armed }) => if armed {
            (
                provider_next(state, LinuxProviderInput::ArmPaste),
                ServePhase::Announce { event: LinuxProviderEvent::PasteArmed, last: false },
            )
        } else {
            (state, ServePhase::Pause)
        },
        (ServePhase::Listen, ServeEvent::SelectionClear { owner }) => if owner == window {
            let next = provider_next(state, LinuxProviderInput::SelectionClear);
            if next is OwnershipLost {
                (
                    next,
                    ServePhase::Announce { event: LinuxProviderEvent::OwnershipLost, last: true },
                )
            } else {
                (next, ServePhase::Stop)
            }
        } else {
            (state, ServePhase::Listen)
        },
        (ServePhase::Listen, ServeEvent::SelectionRequest { owner, request }) => if owner
            == window {
            match reply_kind(atoms, request.target) {
                Some(kind) => (
                    state,
                    ServePhase::Write { request, property: reply_property(request), kind },
                ),
                None => (
                    state,
                    ServePhase::Notify { request, property: NONE, delivered: false },
                ),
            }
        } else {
            (state, ServePhase::Listen)
        },
        (ServePhase::Write { request, property, kind }, ServeEvent::Written { ok }) => (
            state,
            ServePhase::Notify {
                request,
                property: if ok {
                    property
                } else {
                    NONE
                },
                delivered: ok && kind is Text,
            },
        ),
        (ServePhase::Notify { request, delivered, .. }, ServeEvent::Notified { ok }) => if !ok {
            (state, ServePhase::Fail)
        } else if delivered && !(state is Confirmed) {
            (state, ServePhase::Check { requestor: request.requestor })
        } else {
            (state, ServePhase::Listen)
        },
        (ServePhase::Check { .. }, ServeEvent::Checked { intended_consumer }) => {
            let next = provider_next(
                state,
                LinuxProviderInput::TextRequested { intended_consumer },
            );
            if next is Confirmed {
                (
                    next,
                    ServePhase::Announce {
                        event: LinuxProviderEvent::DeliveryConfirmed,
                        last: false,
                    },
                )
            } else {
                (next, ServePhase::Listen)
            }
        },
        (ServePhase::Announce { last, .. }, ServeEvent::Announced) => if last {
            (state, ServePhase::Stop)
        } else {
            (state, ServePhase::Listen)
        },
        (ServePhase::Listen, ServeEvent::Broken) => (state, ServePhase::Fail),
        _ => (state, ServePhase::Listen),
    }
}

/// The provider of the clipboard.
#[derive(Debug, Clone, Copy)]
pub struct Provider {
    /// The window that owns the clipboard.
    pub window: u32,
    pub atoms: SelectionAtoms,
    pub state: LinuxProviderState,
    pub phase: ServePhase,
}

impl Provider {
    /// Whether the requesting window belongs to the target is only asked while delivery
    /// is not confirmed.
    pub open spec fn well_formed(self) -> bool {
        self.phase is Check ==> !(self.state is Confirmed)
    }

    /// The provider that owns the clipboard by `window`.
    pub fn new(window: u32, atoms: SelectionAtoms) -> (r: Provider)
        ensures
            r.well_formed(),
            r.window == window,
            r.atoms == atoms,
            r.state == LinuxProviderState::Publishing,
            r.phase == ServePhase::Listen,
    {
        Provider {
            window,
            atoms,
            state: LinuxProviderState::Publishing,
            phase: ServePhase::Listen,
        }
    }

    /// Takes note of what happened while doing what the phase asks for.
    pub fn serve(&mut self, event: ServeEvent)
        requires
            old(self).well_formed(),
            expected(old(self).state, old(self).phase, event),
        ensures
            final(self).well_formed(),
            final(self).window == old(self).window,
            final(self).atoms == old(self).atoms,
            (final(self).state, final(self).phase) == served(
                old(self).window,
                old(self).atoms,
                old(self).state,
                old(self).phase,
                event,
            ),
    {
        match (self.phase, event) {
            (ServePhase::Listen, ServeEvent::Quiet { armed }) => {
                if armed {
                    // All requests that came before are served by now.
                    self.state =
                    linux_provider_transition(self.state, LinuxProviderInput::ArmPaste);
                    self.phase =
                    ServePhase::Announce { event: LinuxProviderEvent::PasteArmed, last: false };
                } else {
                    self.phase = ServePhase::Pause;
                }
            },
            (ServePhase::Listen, ServeEvent::SelectionClear { owner }) => {
                if owner == self.window {
                    self.state =
                    linux_provider_transition(self.state, LinuxProviderInput::SelectionClear);
                    if self.state == LinuxProviderState::OwnershipLost {
                        self.phase =
                        ServePhase::Announce {
                            event: LinuxProviderEvent::OwnershipLost,
                            last: true,
                        };
                    } else {
                        self.phase = ServePhase::Stop;
                    }
                }
            },
            (ServePhase::Listen, ServeEvent::SelectionRequest { owner, request }) => {
                if owner == self.window {
                    self.phase =
                    match self.kind_of_reply(request.target) {
                        Some(kind) => {
                            let property: u32 = if request.property == NONE {
                                request.target
                            } else {
                                request.property
                            };
                            ServePhase::Write { request, property, kind }
                        },
                        None => ServePhase::Notify { request, property: NONE, delivered: false },
                    };
                }
            },
            (ServePhase::Write { request, property, kind }, ServeEvent::Written { ok }) => {
                let property: u32 = if ok {
                    property
                } else {
                    NONE
                };
                self.phase =
                ServePhase::Notify { request, property, delivered: ok && kind == ReplyKind::Text };
            },
            (ServePhase::Notify { request, delivered, .. }, ServeEvent::Notified { ok }) => {
                if !ok {
                    self.phase = ServePhase::Fail;
                } else if delivered && self.state != LinuxProviderState::Confirmed {
                    self.phase = ServePhase::Check { requestor: request.requestor };
                } else {
                    self.phase = ServePhase::Listen;
                }
            },
            (ServePhase::Check { .. }, ServeEvent::Checked { intended_consumer }) => {
                self.state =
                linux_provider_transition(
                    self.state,
                    LinuxProviderInput::TextRequested { intended_consumer },
                );
                if self.state == LinuxProviderState::Confirmed {
                    self.phase =
                    ServePhase::Announce {
                        event: LinuxProviderEvent::DeliveryConfirmed,
                        last: false,
                    };
                } else {
                    self.phase = ServePhase::Listen;
                }
            },
            (ServePhase::Announce { last, .. }, ServeEvent::Announced) => {
                if last {
                    self.phase = ServePhase::Stop;
                } else {
                    self.phase = ServePhase::Listen;
                }
            },
            (ServePhase::Listen, ServeEvent::Broken) => {
                self.phase = ServePhase::Fail;
            },
            _ => {
                self.phase = ServePhase::Listen;
            },
        }
    }

    /// What is written as an answer to a request, if it can be met.
    fn kind_of_reply(&self, target: u32) -> (r: Option<ReplyKind>)
        ensures
            r == reply_kind(self.atoms, target),
    {
        if target == self.atoms.targets {
            Some(ReplyKind::Targets)
        } else if target == self.atoms.password_hint {
            Some(ReplyKind::Hint)
        } else if target == self.atoms.utf8_string || target == self.atoms.utf8_mime_0 || target
            == self.atoms.utf8_mime_1 || target == self.atoms.text {
            Some(ReplyKind::Text)
        } else {
            None
        }
    }

    /// Whether to wait for the next event, or only to look whether there is one.
    pub fn waits(&self) -> (r: bool)
        ensures
            r == !(self.state is Publishing),
    {
        self.state != LinuxProviderState::Publishing
    }

    /// The list of forms in which the clipboard can be asked for.
    pub fn offered_targets(&self) -> (r: Vec<u32>)
        ensures
            r@ == self.atoms.offered(),
    {
        let mut list: Vec<u32> = Vec::new();
        list.push(self.atoms.targets);
        list.push(self.atoms.utf8_string);
        list.push(self.atoms.utf8_mime_0);
        list.push(self.atoms.utf8_mime_1);
        list.push(self.atoms.text);
        list.push(self.atoms.password_hint);
        assert(list@ =~= self.atoms.offered());
        list
    }
}

/// Every form that is listed is also given.
pub proof fn offered_forms_are_given(atoms: SelectionAtoms, i: int)
    requires
        0 <= i < atoms.offered().len(),
    ensures
        reply_kind(atoms, atoms.offered()[i]) is Some,
{
}

/// Only text forms get the text.
pub proof fn only_text_forms_get_the_text(atoms: SelectionAtoms, target: u32)
    requires
        reply_kind(atoms, target) == Some(ReplyKind::Text),
    ensures
        atoms.is_text(target),
{
}

/// Delivery is announced only where the target was awaited and found to have asked,
/// and so at most once.
pub proof fn delivery_is_announced_once(
    window: u32,
    atoms: SelectionAtoms,
    state: LinuxProviderState,
    phase: ServePhase,
    event: ServeEvent,
)
    requires
        phase is Check ==> !(state is Confirmed),
        expected(state, phase, event),
        served(window, atoms, state, phase, event).1 matches ServePhase::Announce {
            event: told,
            ..
        } && told is DeliveryConfirmed,
    ensures
        state is AwaitingConsumer,
        event == (ServeEvent::Checked { intended_consumer: true }),
        served(window, atoms, state, phase, event).0 is Confirmed,
{
}

/// The target is awaited from the moment that the paste is announced to be armed.
pub proof fn arming_is_announced(
    window: u32,
    atoms: SelectionAtoms,
    state: LinuxProviderState,
    phase: ServePhase,
    event: ServeEvent,
)
    requires
        expected(state, phase, event),
        !(state is AwaitingConsumer),
        served(window, atoms, state, phase, event).0 is AwaitingConsumer,
    ensures
        served(window, atoms, state, phase, event).1 == (ServePhase::Announce {
            event: LinuxProviderEvent::PasteArmed,
            last: false,
        }),
{
}

/// Requests for the clipboard of another window change nothing.
pub proof fn other_windows_change_nothing(
    window: u32,
    atoms: SelectionAtoms,
    state: LinuxProviderState,
    owner: u32,
    request: SelectionRequest,
)
    requires
        owner != window,
    ensures
        served(
            window,
            atoms,
            state,
            ServePhase::Listen,
            ServeEvent::SelectionRequest { owner, request },
        ) == (state, ServePhase::Listen),
        served(
            window,
            atoms,
            state,
            ServePhase::Listen,
            ServeEvent::SelectionClear { owner },
        ) == (state, ServePhase::Listen),
{
}

/// What is known of a window: its ancestors, and the leader and the process of the
/// program that it belongs to.
pub struct WindowIdentity {
    pub lineage: Vec<u32>,
    pub leader: Option<u32>,
    pub pid: Option<u32>,
}

/// How many ancestors of a window are looked at.
pub const MAX_LINEAGE: usize = 32;

/// The windows from `window` up to the one below `root`, `levels` at most.
pub open spec fn climbed(window: u32, root: u32, parents: Map<u32, u32>, levels: nat) -> Seq<u32>
    decreases levels,
{
    if levels == 0 || window == NONE || window == root {
        Seq::empty()
    } else if !parents.contains_key(window) || parents[window] == window {
        seq![window]
    } else {
        seq![window] + climbed(parents[window], root, parents, (levels - 1) as nat)
    }
}

/// The way up from a window to the root.
pub struct LineageWalk {
    pub identity: WindowIdentity,
    /// The window to look at next.
    pub current: u32,
    pub root: u32,
    /// There is nothing more to look at.
    pub over: bool,
}

/// What to ask about a window: its parent, and its leader and process where they are
/// not known yet.
#[derive(Debug, Clone, Copy, PartialEq, Eq, Structural)]
pub struct WindowQuery {
    pub window: u32,
    pub leader: bool,
    pub pid: bool,
}

/// `first` if it holds something, else `second`.
pub open spec fn or_second(first: Option<u32>, second: Option<u32>) -> Option<u32> {
    if first is Some {
        first
    } else {
        second
    }
}

/// `after` is `before` with the answers about its window taken note of.
pub open spec fn records(
    before: LineageWalk,
    leader: Option<u32>,
    pid: Option<u32>,
    parent: Option<u32>,
    after: LineageWalk,
) -> bool {
    &&& after.identity.lineage@ == before.identity.lineage@.push(before.current)
    &&& after.identity.leader == or_second(before.identity.leader, leader)
    &&& after.identity.pid == or_second(before.identity.pid, pid)
    &&& after.root == before.root
    &&& match parent {
        Some(window) if window != before.current => after.current == window && !after.over,
        _ => after.current == before.current && after.over,
    }
}

impl LineageWalk {
    /// There is a window to look at.
    pub open spec fn pending(self) -> bool {
        !self.over && self.identity.lineage@.len() < MAX_LINEAGE && self.current != NONE
            && self.current != self.root
    }

    /// The windows seen so far and those still to come.
    pub open spec fn whole_lineage(self, parents: Map<u32, u32>) -> Seq<u32> {
        self.identity.lineage@ + (if self.over || self.identity.lineage@.len() > MAX_LINEAGE {
            Seq::empty()
        } else {
            climbed(
                self.current,
                self.root,
                parents,
                (MAX_LINEAGE - self.identity.lineage@.len()) as nat,
            )
        })
    }

    /// The way up from `window`.
    pub fn new(window: u32, root: u32) -> (r: LineageWalk)
        ensures
            r.identity.lineage@ == Seq::<u32>::empty(),
            r.identity.leader is None,
            r.identity.pid is None,
            r.current == window,
            r.root == root,
            !r.over,
    {
        LineageWalk {
            identity: WindowIdentity { lineage: Vec::new(), leader: None, pid: None },
            current: window,
            root,
            over: false,
        }
    }

    /// What to ask next, if anything.
    pub fn next(&self) -> (r: Option<WindowQuery>)
        ensures
            r is Some <==> self.pending(),
            r matches Some(query) ==> query == (WindowQuery {
                window: self.current,
                leader: self.identity.leader is None,
                pid: self.identity.pid is None,
            }),
    {
        if self.over || self.identity.lineage.len() >= MAX_LINEAGE || self.current == NONE
            || self.current == self.root {
            return None;
        }
        Some(
            WindowQuery {
                window: self.current,
                leader: self.identity.leader.is_none(),
                pid: self.identity.pid.is_none(),
            },
        )
    }

    /// Takes note of the answers.
    pub fn record(&mut self, leader: Option<u32>, pid: Option<u32>, parent: Option<u32>)
        requires
            old(self).pending(),
        ensures
            final(self).identity.lineage@ == old(self).identity.lineage@.push(old(self).current),
            final(self).identity.leader == or_second(old(self).identity.leader, leader),
            final(self).identity.pid == or_second(old(self).identity.pid, pid),
            final(self).root == old(self).root,
            match parent {
                Some(window) if window != old(self).current => final(self).current == window
                    && !final(self).over,
                _ => final(self).current == old(self).current && final(self).over,
            },
            records(*old(self), leader, pid, parent, *final(self)),
    {
        self.identity.lineage.push(self.current);
        if self.identity.leader.is_none() {
            self.identity.leader = leader;
        }
        if self.identity.pid.is_none() {
            self.identity.pid = pid;
        }
        match parent {
            Some(window) if window != self.current => {
                self.current = window;
            },
            _ => {
                self.over = true;
            },
        }
    }
}

/// Each step of the way up keeps to the way that the parents give.
pub proof fn walk_keeps_to_the_lineage(
    before: LineageWalk,
    after: LineageWalk,
    parents: Map<u32, u32>,
)
    requires
        before.pending(),
        after.identity.lineage@ == before.identity.lineage@.push(before.current),
        after.root == before.root,
        match parents.contains_key(before.current) {
            true if parents[before.current] != before.current => after.current
                == parents[before.current] && !after.over,
            _ => after.over,
        },
    ensures
        after.whole_lineage(parents) == before.whole_lineage(parents),
{
    let seen = before.identity.lineage@;
    let left = (MAX_LINEAGE - seen.len()) as nat;
    let way = climbed(before.current, before.root, parents, left);
    if after.over {
        assert(way =~= seq![before.current]);
    } else {
        let rest = climbed(after.current, after.root, parents, (left - 1) as nat);
        assert(way =~= seq![before.current] + rest);
    }
    assert(seen.push(before.current) =~= seen + seq![before.current]);
    assert(after.whole_lineage(parents) =~= before.whole_lineage(parents));
}

/// The way up is over when all windows on it were seen.
pub proof fn walk_ends_with_the_lineage(walk: LineageWalk, parents: Map<u32, u32>)
    requires
        !walk.pending(),
    ensures
        walk.whole_lineage(parents) == walk.identity.lineage@,
{
    assert(walk.whole_lineage(parents) =~= walk.identity.lineage@);
}

/// Both hold something, and the same.
pub open spec fn both_same(a: Option<u32>, b: Option<u32>) -> bool {
    a is Some && a == b
}

/// Two windows belong together: they have an ancestor in common, or the same leader,
/// or the same process.
pub open spec fn belong_together(a: WindowIdentity, b: WindowIdentity) -> bool {
    ||| exists|i: int| 0 <= i < a.lineage@.len() && b.lineage@.contains(#[trigger] a.lineage@[i])
    ||| both_same(a.leader, b.leader)
    ||| both_same(a.pid, b.pid)
}

/// Whether two options hold the same.
fn hold_same(a: Option<u32>, b: Option<u32>) -> (r: bool)
    ensures
        r == both_same(a, b),
{
    match (a, b) {
        (Some(a), Some(b)) => a == b,
        _ => false,
    }
}

/// Whether a list holds a window.
fn holds(list: &Vec<u32>, window: u32) -> (r: bool)
    ensures
        r == list@.contains(window),
{
    let mut i: usize = 0;
    while i < list.len()
        invariant
            i <= list@.len(),
            forall|k: int| 0 <= k < i ==> list@[k] != window,
        decreases list@.len() - i,
    {
        if list[i] == window {
            return true;
        }
        i = i + 1;
    }
    false
}

/// Whether two windows belong to one program.
pub fn identities_match(requestor: &WindowIdentity, focus: &WindowIdentity) -> (r: bool)
    ensures
        r == belong_together(*requestor, *focus),
{
    let mut i: usize = 0;
    while i < requestor.lineage.len()
        invariant
            i <= requestor.lineage@.len(),
            forall|k: int|
                0 <= k < i ==> !focus.lineage@.contains(#[trigger] requestor.lineage@[k]),
        decreases requestor.lineage@.len() - i,
    {
        if holds(&focus.lineage, requestor.lineage[i]) {
            return true;
        }
        i = i + 1;
    }
    hold_same(requestor.leader, focus.leader) || hold_same(requestor.pid, focus.pid)
}

/// Belonging together goes both ways.
pub proof fn belonging_is_mutual(a: WindowIdentity, b: WindowIdentity)
    ensures
        belong_together(a, b) == belong_together(b, a),
{
    if exists|i: int| 0 <= i < a.lineage@.len() && b.lineage@.contains(#[trigger] a.lineage@[i]) {
        let i = choose|i: int|
            0 <= i < a.lineage@.len() && b.lineage@.contains(#[trigger] a.lineage@[i]);
        let j = b.lineage@.index_of(a.lineage@[i]);
        assert(a.lineage@.contains(b.lineage@[j]));
    }
    if exists|i: int| 0 <= i < b.lineage@.len() && a.lineage@.contains(#[trigger] b.lineage@[i]) {
        let i = choose|i: int|
            0 <= i < b.lineage@.len() && a.lineage@.contains(#[trigger] b.lineage@[i]);
        let j = a.lineage@.index_of(b.lineage@[i]);
        assert(b.lineage@.contains(a.lineage@[j]));
    }
}

/// The window that has the input focus, where the server names one, and else the
/// active one.
pub open spec fn window_in_focus(input_focus: Option<u32>, active_window: Option<u32>) -> Option<
    u32,
> {
    if input_focus is Some && input_focus->0 > 1 {
        input_focus
    } else {
        active_window
    }
}

/// The window that has the input focus, where the server names one (0 and 1 name
/// none), and else the active one.
pub fn focused_window(input_focus: Option<u32>, active_window: Option<u32>) -> (r: Option<u32>)
    ensures
        r == (if input_focus is Some && input_focus->0 > 1 {
            input_focus
        } else {
            active_window
        }),
        r == window_in_focus(input_focus, active_window),
{
    match input_focus {
        Some(window) if window > 1 => Some(window),
        _ => active_window,
    }
}

/// The steps of offering the clipboard that can fail.
#[derive(Debug, Clone, Copy, PartialEq, Eq, Structural)]
pub enum OfferStep {
    Connect,
    InternAtoms,
    ResolveAtoms,
    AllocateWindow,
    CreateWindow,
    OwnClipboard,
    Publish,
    VerifyOwnership,
}

/// What is said where a step failed because of `error`.
pub open spec fn offer_message(step: OfferStep, error: Seq<char>) -> Seq<char> {
    match step {
        OfferStep::Connect => "Failed to connect to X11: "@ + error,
        OfferStep::InternAtoms => "Failed to intern X11 clipboard atoms: "@ + error,
        OfferStep::ResolveAtoms => "Failed to resolve X11 clipboard atoms: "@ + error,
        OfferStep::AllocateWindow => "Failed to allocate X11 clipboard window: "@ + error,
        OfferStep::CreateWindow => "Failed to create X11 clipboard window: "@ + error,
        OfferStep::OwnClipboard => "Failed to own the X11 clipboard: "@ + error,
        OfferStep::Publish => "Failed to publish the X11 clipboard: "@ + error,
        OfferStep::VerifyOwnership => "Failed to verify X11 clipboard ownership: "@ + error,
    }
}

/// What is said where a step failed because of `error`.
pub fn offer_error(step: OfferStep, error: &str) -> (r: String)
    ensures
        r@ == offer_message(step, error@),
{
    match step {
        OfferStep::Connect => prefixed("Failed to connect to X11: ", error),
        OfferStep::InternAtoms => prefixed("Failed to intern X11 clipboard atoms: ", error),
        OfferStep::ResolveAtoms => prefixed("Failed to resolve X11 clipboard atoms: ", error),
        OfferStep::AllocateWindow => prefixed("Failed to allocate X11 clipboard window: ", error),
        OfferStep::CreateWindow => prefixed("Failed to create X11 clipboard window: ", error),
        OfferStep::OwnClipboard => prefixed("Failed to own the X11 clipboard: ", error),
        OfferStep::Publish => prefixed("Failed to publish the X11 clipboard: ", error),
        OfferStep::VerifyOwnership => prefixed("Failed to verify X11 clipboard ownership: ", error),
    }
}

/// The clipboard is offered only by the window that owns it.
pub fn check_ownership(owner: u32, window: u32) -> (r: Result<(), String>)
    ensures
        r is Ok <==> owner == window,
        r matches Err(message) ==> message@ == "X11 rejected clipboard ownership"@,
{
    if owner == window {
        Ok(())
    } else {
        Err("X11 rejected clipboard ownership".to_owned())
    }
}

/// What the one who pastes gets to hear.
#[derive(Debug, Clone, Copy, PartialEq, Eq, Structural)]
pub enum Heard {
    Event(LinuxProviderEvent),
    /// Nothing in time.
    Timeout,
    /// The provider is gone.
    Disconnected,
}

/// What came of waiting.
#[derive(Debug, Clone, Copy, PartialEq, Eq, Structural)]
pub enum LinuxPasteWaitOutcome {
    Confirmed,
    OwnershipLost,
    ProviderFailed,
    TimedOut,
}

/// What came of waiting for the paste to be armed.
pub open spec fn arm_result(heard: Heard) -> Result<(), LinuxPasteWaitOutcome> {
    match heard {
        Heard::Event(LinuxProviderEvent::PasteArmed) => Ok(()),
        Heard::Event(LinuxProviderEvent::OwnershipLost) => Err(
            LinuxPasteWaitOutcome::OwnershipLost,
        ),
        Heard::Timeout => Err(LinuxPasteWaitOutcome::TimedOut),
        _ => Err(LinuxPasteWaitOutcome::ProviderFailed),
    }
}

/// What came of waiting for the paste to be armed. Delivery cannot come before the
/// paste was sent: a provider that says so fails.
pub fn arm_outcome(heard: Heard) -> (r: Result<(), LinuxPasteWaitOutcome>)
    ensures
        r == (match heard {
            Heard::Event(LinuxProviderEvent::PasteArmed) => Ok(()),
            Heard::Event(LinuxProviderEvent::OwnershipLost) => Err(
                LinuxPasteWaitOutcome::OwnershipLost,
            ),
            Heard::Timeout => Err(LinuxPasteWaitOutcome::TimedOut),
            _ => Err(LinuxPasteWaitOutcome::ProviderFailed),
        }),
        r == arm_result(heard),
{
    match heard {
        Heard::Event(LinuxProviderEvent::PasteArmed) => Ok(()),
        Heard::Event(LinuxProviderEvent::OwnershipLost) => Err(
            LinuxPasteWaitOutcome::OwnershipLost,
        ),
        Heard::Event(LinuxProviderEvent::ProviderFailed) => Err(
            LinuxPasteWaitOutcome::ProviderFailed,
        ),
        Heard::Event(LinuxProviderEvent::DeliveryConfirmed) => Err(
            LinuxPasteWaitOutcome::ProviderFailed,
        ),
        Heard::Timeout => Err(LinuxPasteWaitOutcome::TimedOut),
        Heard::Disconnected => Err(LinuxPasteWaitOutcome::ProviderFailed),
    }
}

/// What came of waiting for the target to take the text.
pub open spec fn wait_result(heard: Heard) -> LinuxPasteWaitOutcome {
    match heard {
        Heard::Event(LinuxProviderEvent::DeliveryConfirmed) => LinuxPasteWaitOutcome::Confirmed,
        Heard::Event(LinuxProviderEvent::OwnershipLost) => LinuxPasteWaitOutcome::OwnershipLost,
        Heard::Timeout => LinuxPasteWaitOutcome::TimedOut,
        _ => LinuxPasteWaitOutcome::ProviderFailed,
    }
}

/// What came of waiting for the target to take the text.
pub fn wait_outcome(heard: Heard) -> (r: LinuxPasteWaitOutcome)
    ensures
        r == wait_result(heard),
{
    match heard {
        Heard::Event(LinuxProviderEvent::PasteArmed) => LinuxPasteWaitOutcome::ProviderFailed,
        Heard::Event(LinuxProviderEvent::DeliveryConfirmed) => LinuxPasteWaitOutcome::Confirmed,
        Heard::Event(LinuxProviderEvent::OwnershipLost) => LinuxPasteWaitOutcome::OwnershipLost,
        Heard::Event(LinuxProviderEvent::ProviderFailed) => LinuxPasteWaitOutcome::ProviderFailed,
        Heard::Timeout => LinuxPasteWaitOutcome::TimedOut,
        Heard::Disconnected => LinuxPasteWaitOutcome::ProviderFailed,
    }
}

} // verus!
