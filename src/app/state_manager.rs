//! The communication router: which backend each user action goes to.
//!
//! The router decides; the application shell performs the network work that a
//! decision names and reports its outcome back.
use vstd::prelude::*;
use crate::app::state::{ConnectionStatus, LogState, views_of, bounded_push, log_entry};
use crate::app::legacy_state::{LegacyState, legacy_ready};
use crate::app::matrix_state::{MatrixState, logged_in};
use crate::text::push_str;
use crate::util::error::NokError;

verus! {

/// Which backend or backends are enabled.
#[derive(Clone, Copy, PartialEq, Eq, Structural, Debug)]
pub enum CommunicationMode {
    /// Only the target-protocol backend.
    Matrix,
    /// Only the legacy backend.
    Legacy,
    /// Both, preferring the target-protocol backend.
    Hybrid,
}

#[derive(Clone, Copy, PartialEq, Eq, Structural, Debug)]
pub enum Backend {
    Matrix,
    Legacy,
}

/// What the shell is to send.
#[derive(Debug)]
pub enum Outgoing {
    /// A knock event to the legacy server.
    LegacyKnock { target: String },
    /// A text message to a room of the legacy server.
    LegacyRoomMessage { room: String, text: String },
    /// A text message to a room of the target server; no room means the first
    /// joined one.
    MatrixRoomMessage { room: Option<String>, text: String },
}

/// The backends a presence update goes to, in order, and the sub-errors of
/// enabled backends that cannot take it.
#[derive(Debug)]
pub struct PresencePlan {
    pub targets: Vec<Backend>,
    pub errors: Vec<String>,
}

pub struct StateManager {
    pub mode: CommunicationMode,
    pub matrix: MatrixState,
    pub legacy: LegacyState,
}

/// The target-protocol backend can take traffic.
pub open spec fn matrix_ready(m: MatrixState) -> bool {
    m.enabled && logged_in(m)
}

/// Where a point-to-point action goes: the mode's backend when it is usable;
/// in hybrid mode the target backend first, then the legacy one.
pub open spec fn route(mode: CommunicationMode, m: MatrixState, l: LegacyState) -> Result<
    Backend,
    NokError,
> {
    match mode {
        CommunicationMode::Matrix => if matrix_ready(m) {
            Ok(Backend::Matrix)
        } else {
            Err(NokError::BackendUnavailable(Backend::Matrix))
        },
        CommunicationMode::Legacy => if legacy_ready(l) {
            Ok(Backend::Legacy)
        } else {
            Err(NokError::BackendUnavailable(Backend::Legacy))
        },
        CommunicationMode::Hybrid => if matrix_ready(m) {
            Ok(Backend::Matrix)
        } else if legacy_ready(l) {
            Ok(Backend::Legacy)
        } else {
            Err(NokError::AllBackendsUnavailable)
        },
    }
}

pub open spec fn outgoing_backend(o: Outgoing) -> Backend {
    match o {
        Outgoing::LegacyKnock { .. } => Backend::Legacy,
        Outgoing::LegacyRoomMessage { .. } => Backend::Legacy,
        Outgoing::MatrixRoomMessage { .. } => Backend::Matrix,
    }
}

/// The tagged text that stands for a knock on the target backend, which has
/// no knock of its own.
pub open spec fn knock_text(target: Seq<char>) -> Seq<char> {
    "\u{1F6AA} *knock knock* for "@ + target
}

/// The backends that the mode asks for and that are enabled, target first.
pub open spec fn mode_backends(mode: CommunicationMode, m: MatrixState, l: LegacyState) -> Seq<
    Backend,
> {
    let want_m = (mode == CommunicationMode::Matrix || mode == CommunicationMode::Hybrid)
        && m.enabled;
    let want_l = (mode == CommunicationMode::Legacy || mode == CommunicationMode::Hybrid)
        && l.enabled;
    (if want_m {
        seq![Backend::Matrix]
    } else {
        Seq::<Backend>::empty()
    }) + (if want_l {
        seq![Backend::Legacy]
    } else {
        Seq::<Backend>::empty()
    })
}

pub open spec fn backend_ready(b: Backend, m: MatrixState, l: LegacyState) -> bool {
    match b {
        Backend::Matrix => matrix_ready(m),
        Backend::Legacy => legacy_ready(l),
    }
}

/// The backends of `s` that can take traffic, in order.
pub open spec fn ready_backends(s: Seq<Backend>, m: MatrixState, l: LegacyState) -> Seq<Backend>
    decreases s.len(),
{
    if s.len() == 0 {
        s
    } else if backend_ready(s.last(), m, l) {
        ready_backends(s.drop_last(), m, l).push(s.last())
    } else {
        ready_backends(s.drop_last(), m, l)
    }
}

/// The sub-error of each backend of `s` that cannot take traffic, in order.
pub open spec fn unready_texts(s: Seq<Backend>, m: MatrixState, l: LegacyState) -> Seq<Seq<char>>
    decreases s.len(),
{
    if s.len() == 0 {
        Seq::<Seq<char>>::empty()
    } else if backend_ready(s.last(), m, l) {
        unready_texts(s.drop_last(), m, l)
    } else {
        unready_texts(s.drop_last(), m, l).push(not_connected_text(s.last()))
    }
}

pub open spec fn not_connected_text(b: Backend) -> Seq<char> {
    match b {
        Backend::Matrix => "Matrix presence error: not connected"@,
        Backend::Legacy => "Legacy presence error: not connected"@,
    }
}

/// The parts joined with `; `.
pub open spec fn join_errors(parts: Seq<Seq<char>>) -> Seq<char>
    decreases parts.len(),
{
    if parts.len() == 0 {
        Seq::<char>::empty()
    } else if parts.len() == 1 {
        parts[0]
    } else {
        join_errors(parts.drop_last()) + "; "@ + parts.last()
    }
}

/// The debug-log line of a failed connection attempt.
pub open spec fn connect_failure_text(b: Backend, reason: Seq<char>) -> Seq<char> {
    (match b {
        Backend::Matrix => "Matrix"@,
        Backend::Legacy => "Legacy"@,
    }) + " connection failed: "@ + reason
}

pub open spec fn views(v: Seq<String>) -> Seq<Seq<char>> {
    v.map_values(|s: String| s@)
}

/// What the connection status shows for the mode.
pub open spec fn status_for(mode: CommunicationMode, m: MatrixState, l: LegacyState) -> ConnectionStatus {
    match mode {
        CommunicationMode::Matrix => if logged_in(m) {
            ConnectionStatus::Connected
        } else if m.enabled {
            ConnectionStatus::Connecting
        } else {
            ConnectionStatus::Disconnected
        },
        CommunicationMode::Legacy => l.connection_status,
        CommunicationMode::Hybrid => if logged_in(m) || l.connection_status is Connected {
            ConnectionStatus::Connected
        } else {
            ConnectionStatus::Disconnected
        },
    }
}

pub open spec fn optimal_mode(
    matrix_available: bool,
    legacy_available: bool,
    preference: Option<CommunicationMode>,
) -> CommunicationMode {
    match preference {
        Some(mode) => mode,
        None => if matrix_available && legacy_available {
            CommunicationMode::Hybrid
        } else if legacy_available {
            CommunicationMode::Legacy
        } else {
            CommunicationMode::Matrix
        },
    }
}

impl Backend {
    pub fn name(&self) -> (r: String)
        ensures
            r@ == match *self {
                Backend::Matrix => "Matrix"@,
                Backend::Legacy => "Legacy"@,
            },
    {
        match self {
            Backend::Matrix => String::from_str("Matrix"),
            Backend::Legacy => String::from_str("Legacy"),
        }
    }
}

impl Outgoing {
    pub fn backend(&self) -> (r: Backend)
        ensures
            r == outgoing_backend(*self),
    {
        match self {
            Outgoing::LegacyKnock { .. } => Backend::Legacy,
            Outgoing::LegacyRoomMessage { .. } => Backend::Legacy,
            Outgoing::MatrixRoomMessage { .. } => Backend::Matrix,
        }
    }
}

impl PresencePlan {
    /// Combines the plan's sub-errors with the failures of the sends it asked
    /// for: success when there are none, else one error listing them all.
    pub fn finish(self, failures: Vec<String>) -> (r: Result<(), NokError>)
        ensures
            (self.errors@.len() + failures@.len() == 0) <==> r is Ok,
            r matches Err(e) ==> e == NokError::InternalError(
                e->InternalError_0,
            ) && e->InternalError_0@ == join_errors(views(self.errors@ + failures@)),
    {
        let mut all = self.errors;
        let mut rest = failures;
        let ghost whole = all@ + rest@;
        all.append(&mut rest);
        assert(all@ =~= whole);
        if all.len() == 0 {
            return Ok(());
        }
        let joined = join(&all);
        Err(NokError::InternalError(joined))
    }
}

/// The parts joined with `; `.
fn join(parts: &Vec<String>) -> (r: String)
    ensures
        r@ == join_errors(views(parts@)),
{
    let mut out = String::new();
    let n = parts.len();
    let mut i: usize = 0;
    while i < n
        invariant
            n == parts@.len(),
            i <= n,
            out@ == join_errors(views(parts@.subrange(0, i as int))),
        decreases n - i,
    {
        let ghost pre = views(parts@.subrange(0, i + 1));
        assert(pre.drop_last() =~= views(parts@.subrange(0, i as int)));
        assert(pre.last() == parts@[i as int]@);
        if i > 0 {
            push_str(&mut out, "; ");
        }
        push_str(&mut out, parts[i].as_str());
        proof {
            if i == 0 {
                assert(out@ =~= pre[0]);
            } else {
                assert(out@ =~= join_errors(pre.drop_last()) + "; "@ + pre.last());
            }
        }
        i = i + 1;
    }
    assert(parts@.subrange(0, n as int) =~= parts@);
    out
}

impl StateManager {
    /// Target-protocol mode; the backends' flags are taken as given.
    pub fn new(matrix: MatrixState, legacy: LegacyState) -> (r: StateManager)
        ensures
            r.mode == CommunicationMode::Matrix,
            r.matrix == matrix,
            r.legacy == legacy,
    {
        StateManager { mode: CommunicationMode::Matrix, matrix, legacy }
    }

    pub fn get_mode(&self) -> (r: CommunicationMode)
        ensures
            r == self.mode,
    {
        self.mode
    }

    /// Switches mode and enables exactly the backends it uses. Only the
    /// enabled flags change: no connection or client is opened or dropped.
    pub fn set_mode(&mut self, mode: CommunicationMode)
        ensures
            final(self).mode == mode,
            final(self).matrix.enabled == (mode == CommunicationMode::Matrix || mode
                == CommunicationMode::Hybrid),
            final(self).legacy.enabled == (mode == CommunicationMode::Legacy || mode
                == CommunicationMode::Hybrid),
            final(self).matrix == (MatrixState {
                enabled: mode != CommunicationMode::Legacy,
                ..old(self).matrix
            }),
            final(self).legacy == (LegacyState {
                enabled: mode != CommunicationMode::Matrix,
                ..old(self).legacy
            }),
    {
        self.mode = mode;
        match mode {
            CommunicationMode::Matrix => {
                self.matrix.enable();
                self.legacy.disable();
            },
            CommunicationMode::Legacy => {
                self.matrix.enabled = false;
                self.legacy.enable();
            },
            CommunicationMode::Hybrid => {
                self.matrix.enable();
                self.legacy.enable();
            },
        }
    }

    fn matrix_usable(&self) -> (r: bool)
        ensures
            r == matrix_ready(self.matrix),
    {
        self.matrix.is_enabled() && self.matrix.is_logged_in()
    }

    fn legacy_usable(&self) -> (r: bool)
        ensures
            r == legacy_ready(self.legacy),
    {
        self.legacy.is_enabled() && self.legacy.is_connected()
    }

    /// The backend that point-to-point actions go to now.
    pub fn route(&self) -> (r: Result<Backend, NokError>)
        ensures
            r == route(self.mode, self.matrix, self.legacy),
    {
        match self.mode {
            CommunicationMode::Matrix => if self.matrix_usable() {
                Ok(Backend::Matrix)
            } else {
                Err(NokError::BackendUnavailable(Backend::Matrix))
            },
            CommunicationMode::Legacy => if self.legacy_usable() {
                Ok(Backend::Legacy)
            } else {
                Err(NokError::BackendUnavailable(Backend::Legacy))
            },
            CommunicationMode::Hybrid => if self.matrix_usable() {
                Ok(Backend::Matrix)
            } else if self.legacy_usable() {
                Ok(Backend::Legacy)
            } else {
                Err(NokError::AllBackendsUnavailable)
            },
        }
    }

    /// The backends to connect at start-up: those of the mode that are
    /// enabled, target first. In hybrid mode each is tried whatever happens
    /// to the other.
    pub fn initialize(&self) -> (r: Vec<Backend>)
        ensures
            r@ == mode_backends(self.mode, self.matrix, self.legacy),
    {
        let mut out: Vec<Backend> = Vec::new();
        let want_m = (self.mode == CommunicationMode::Matrix || self.mode == CommunicationMode::Hybrid)
            && self.matrix.is_enabled();
        let want_l = (self.mode == CommunicationMode::Legacy || self.mode == CommunicationMode::Hybrid)
            && self.legacy.is_enabled();
        if want_m {
            out.push(Backend::Matrix);
        }
        if want_l {
            out.push(Backend::Legacy);
        }
        assert(out@ =~= mode_backends(self.mode, self.matrix, self.legacy));
        out
    }

    /// Records how connecting a backend ended. A failure is logged; it is
    /// returned only when the mode uses that backend alone.
    pub fn record_connect(
        &mut self,
        backend: Backend,
        outcome: Result<(), String>,
        logs: &mut LogState,
    ) -> (r: Result<(), NokError>)
        requires
            old(logs).debug_logs@.len() < usize::MAX,
        ensures
            r is Err <==> (outcome is Err && old(self).mode != CommunicationMode::Hybrid),
            r matches Err(e) ==> e == NokError::ConnectionFailed(outcome->Err_0),
            final(self).mode == old(self).mode,
            backend == Backend::Legacy ==> final(self).matrix == old(self).matrix,
            backend == Backend::Matrix ==> final(self).legacy == old(self).legacy,
            backend == Backend::Legacy && outcome is Ok ==> final(self).legacy == (LegacyState {
                connection_status: ConnectionStatus::Connected,
                ..old(self).legacy
            }),
            backend == Backend::Legacy && outcome is Err ==> final(self).legacy == (LegacyState {
                connection_status: ConnectionStatus::Error(outcome->Err_0),
                ..old(self).legacy
            }),
            backend == Backend::Matrix && outcome is Ok ==> final(self).matrix == (MatrixState {
                client_ready: true,
                user_id: None,
                ..old(self).matrix
            }),
            backend == Backend::Matrix && outcome is Err ==> final(self).matrix == old(self).matrix,
            outcome is Ok ==> *final(logs) == *old(logs),
            outcome is Err ==> exists|stamp: Seq<char>|
                views_of(final(logs).debug_logs@) == bounded_push(
                    views_of(old(logs).debug_logs@),
                    #[trigger] log_entry(stamp, connect_failure_text(backend, outcome->Err_0@)),
                    old(logs).max_debug_logs as nat,
                ),
            final(logs).settings_logs == old(logs).settings_logs,
            final(logs).max_debug_logs == old(logs).max_debug_logs,
    {
        match outcome {
            Ok(()) => {
                match backend {
                    Backend::Matrix => self.matrix.set_client(),
                    Backend::Legacy => self.legacy.set_connected(),
                }
                Ok(())
            },
            Err(reason) => {
                let mut line = backend.name();
                push_str(&mut line, " connection failed: ");
                push_str(&mut line, reason.as_str());
                assert(line@ =~= connect_failure_text(backend, reason@));
                logs.add_debug_log(line);
                match backend {
                    Backend::Matrix => {},
                    Backend::Legacy => self.legacy.set_error(reason.clone()),
                }
                if self.mode == CommunicationMode::Hybrid {
                    Ok(())
                } else {
                    Err(NokError::ConnectionFailed(reason))
                }
            },
        }
    }

    /// A knock for `target_user_id`: a knock event on the legacy backend, or
    /// a tagged text message on the target backend.
    pub fn send_knock(&self, target_user_id: &str) -> (r: Result<Outgoing, NokError>)
        ensures
            r is Err <==> route(self.mode, self.matrix, self.legacy) is Err,
            r matches Err(e) ==> route(self.mode, self.matrix, self.legacy) == Err::<
                Backend,
                NokError,
            >(e),
            r matches Ok(o) ==> route(self.mode, self.matrix, self.legacy) == Ok::<
                Backend,
                NokError,
            >(outgoing_backend(o)),
            r matches Ok(Outgoing::LegacyKnock { target }) ==> target@ == target_user_id@,
            r matches Ok(Outgoing::MatrixRoomMessage { room, text }) ==> room is None && text@
                == knock_text(target_user_id@),
            !(r matches Ok(Outgoing::LegacyRoomMessage { .. })),
    {
        match self.route() {
            Ok(Backend::Matrix) => {
                let mut text = String::from_str("\u{1F6AA} *knock knock* for ");
                push_str(&mut text, target_user_id);
                Ok(Outgoing::MatrixRoomMessage { room: None, text })
            },
            Ok(Backend::Legacy) => Ok(Outgoing::LegacyKnock { target: target_user_id.to_owned() }),
            Err(e) => Err(e),
        }
    }

    /// A text message to `room_id`, on the backend that the route picks.
    pub fn send_message(&self, room_id: &str, message: &str) -> (r: Result<Outgoing, NokError>)
        ensures
            r is Err <==> route(self.mode, self.matrix, self.legacy) is Err,
            r matches Err(e) ==> route(self.mode, self.matrix, self.legacy) == Err::<
                Backend,
                NokError,
            >(e),
            r matches Ok(o) ==> route(self.mode, self.matrix, self.legacy) == Ok::<
                Backend,
                NokError,
            >(outgoing_backend(o)),
            r matches Ok(Outgoing::LegacyRoomMessage { room, text }) ==> room@ == room_id@
                && text@ == message@,
            r matches Ok(Outgoing::MatrixRoomMessage { room, text }) ==> room matches Some(
                id,
            ) && id@ == room_id@ && text@ == message@,
            !(r matches Ok(Outgoing::LegacyKnock { .. })),
    {
        match self.route() {
            Ok(Backend::Matrix) => Ok(
                Outgoing::MatrixRoomMessage { room: Some(room_id.to_owned()), text: message.to_owned() },
            ),
            Ok(Backend::Legacy) => Ok(
                Outgoing::LegacyRoomMessage { room: room_id.to_owned(), text: message.to_owned() },
            ),
            Err(e) => Err(e),
        }
    }

    /// Where a presence update goes. A single-backend mode routes as
    /// messages do. Hybrid mode broadcasts: every enabled backend that can
    /// take it is a target, and each enabled one that cannot gives a
    /// sub-error; it fails only when no backend is enabled.
    pub fn set_presence(&self) -> (r: Result<PresencePlan, NokError>)
        ensures
            self.mode != CommunicationMode::Hybrid ==> match r {
                Ok(p) => route(self.mode, self.matrix, self.legacy) == Ok::<Backend, NokError>(
                    p.targets@[0],
                ) && p.targets@.len() == 1 && p.errors@.len() == 0,
                Err(e) => route(self.mode, self.matrix, self.legacy) == Err::<Backend, NokError>(
                    e,
                ),
            },
            self.mode == CommunicationMode::Hybrid ==> match r {
                Ok(p) => p.targets@ == ready_backends(
                    mode_backends(self.mode, self.matrix, self.legacy),
                    self.matrix,
                    self.legacy,
                ) && views(p.errors@) == unready_texts(
                    mode_backends(self.mode, self.matrix, self.legacy),
                    self.matrix,
                    self.legacy,
                ),
                Err(e) => e == NokError::AllBackendsUnavailable && mode_backends(
                    self.mode,
                    self.matrix,
                    self.legacy,
                ).len() == 0,
            },
    {
        if self.mode != CommunicationMode::Hybrid {
            return match self.route() {
                Ok(b) => {
                    let mut targets: Vec<Backend> = Vec::new();
                    targets.push(b);
                    Ok(PresencePlan { targets, errors: Vec::new() })
                },
                Err(e) => Err(e),
            };
        }
        let wanted = self.initialize();
        if wanted.len() == 0 {
            return Err(NokError::AllBackendsUnavailable);
        }
        let mut targets: Vec<Backend> = Vec::new();
        let mut errors: Vec<String> = Vec::new();
        let n = wanted.len();
        let mut i: usize = 0;
        while i < n
            invariant
                n == wanted@.len(),
                i <= n,
                targets@ == ready_backends(wanted@.subrange(0, i as int), self.matrix, self.legacy),
                views(errors@) == unready_texts(wanted@.subrange(0, i as int), self.matrix, self.legacy),
            decreases n - i,
        {
            let b = wanted[i];
            let ghost pre = wanted@.subrange(0, i + 1);
            assert(pre.drop_last() =~= wanted@.subrange(0, i as int));
            assert(pre.last() == b);
            let ok = match b {
                Backend::Matrix => self.matrix_usable(),
                Backend::Legacy => self.legacy_usable(),
            };
            if ok {
                targets.push(b);
            } else {
                let msg = match b {
                    Backend::Matrix => String::from_str("Matrix presence error: not connected"),
                    Backend::Legacy => String::from_str("Legacy presence error: not connected"),
                };
                let ghost before = errors@;
                errors.push(msg);
                assert(views(errors@) =~= views(before).push(not_connected_text(b)));
            }
            i = i + 1;
        }
        assert(wanted@.subrange(0, n as int) =~= wanted@);
        Ok(PresencePlan { targets, errors })
    }

    /// The status shown for the current mode.
    pub fn get_connection_status(&self) -> (r: ConnectionStatus)
        ensures
            r == status_for(self.mode, self.matrix, self.legacy),
    {
        match self.mode {
            CommunicationMode::Matrix => if self.matrix.is_logged_in() {
                ConnectionStatus::Connected
            } else if self.matrix.is_enabled() {
                ConnectionStatus::Connecting
            } else {
                ConnectionStatus::Disconnected
            },
            CommunicationMode::Legacy => self.legacy.get_connection_status().duplicate(),
            CommunicationMode::Hybrid => if self.matrix.is_logged_in() || self.legacy.is_connected() {
                ConnectionStatus::Connected
            } else {
                ConnectionStatus::Disconnected
            },
        }
    }

    pub fn matrix(&self) -> (r: &MatrixState)
        ensures
            *r == self.matrix,
    {
        &self.matrix
    }

    pub fn legacy(&self) -> (r: &LegacyState)
        ensures
            *r == self.legacy,
    {
        &self.legacy
    }

    /// The enabled backends to close, target first; the legacy one is marked
    /// disconnected. Closing is best effort: the shell logs what fails.
    pub fn shutdown(&mut self) -> (r: Vec<Backend>)
        ensures
            r@ == (if old(self).matrix.enabled {
                seq![Backend::Matrix]
            } else {
                Seq::<Backend>::empty()
            }) + (if old(self).legacy.enabled {
                seq![Backend::Legacy]
            } else {
                Seq::<Backend>::empty()
            }),
            old(self).legacy.enabled ==> final(self).legacy.connection_status is Disconnected,
            !old(self).legacy.enabled ==> final(self).legacy == old(self).legacy,
            final(self).matrix == old(self).matrix,
            final(self).mode == old(self).mode,
    {
        let mut out: Vec<Backend> = Vec::new();
        if self.matrix.is_enabled() {
            out.push(Backend::Matrix);
        }
        if self.legacy.is_enabled() {
            self.legacy.disconnect();
            out.push(Backend::Legacy);
        }
        assert(out@ =~= (if old(self).matrix.enabled {
            seq![Backend::Matrix]
        } else {
            Seq::<Backend>::empty()
        }) + (if old(self).legacy.enabled {
            seq![Backend::Legacy]
        } else {
            Seq::<Backend>::empty()
        }));
        out
    }
}

/// Choosing and checking modes.
pub struct ModeTransition;

impl ModeTransition {
    /// The user's choice if any; otherwise hybrid when both backends are
    /// available, the one available otherwise, and target-protocol mode when
    /// neither is.
    pub fn determine_optimal_mode(
        matrix_available: bool,
        legacy_available: bool,
        user_preference: Option<CommunicationMode>,
    ) -> (r: CommunicationMode)
        ensures
            r == optimal_mode(matrix_available, legacy_available, user_preference),
    {
        match user_preference {
            Some(mode) => mode,
            None => if matrix_available && legacy_available {
                CommunicationMode::Hybrid
            } else if legacy_available {
                CommunicationMode::Legacy
            } else {
                CommunicationMode::Matrix
            },
        }
    }

    /// Moving from legacy to target-protocol mode needs a logged-in client;
    /// moving the other way needs an enabled, connected legacy backend.
    pub fn validate_mode_transition(
        current: CommunicationMode,
        target: CommunicationMode,
        matrix_state: &MatrixState,
        legacy_state: &LegacyState,
    ) -> (r: Result<(), String>)
        ensures
            r is Ok <==> (if current == CommunicationMode::Legacy && target
                == CommunicationMode::Matrix {
                logged_in(*matrix_state)
            } else if current == CommunicationMode::Matrix && target == CommunicationMode::Legacy {
                legacy_ready(*legacy_state)
            } else {
                true
            }),
    {
        if current == CommunicationMode::Legacy && target == CommunicationMode::Matrix {
            if !matrix_state.is_initialized() {
                return Err(String::from_str("Matrix client not initialized"));
            }
            if !matrix_state.is_logged_in() {
                return Err(String::from_str("Not logged into Matrix"));
            }
        } else if current == CommunicationMode::Matrix && target == CommunicationMode::Legacy {
            if !legacy_state.is_enabled() {
                return Err(String::from_str("Legacy system not available"));
            }
            if !legacy_state.is_connected() {
                return Err(String::from_str("Not connected to legacy server"));
            }
        }
        Ok(())
    }
}

/// With both backends usable in hybrid mode, actions go to the target
/// backend; once the target backend is disabled, they go to the legacy one.
pub proof fn lemma_hybrid_prefers_target_then_falls_back(
    m: MatrixState,
    l: LegacyState,
    m_disabled: MatrixState,
)
    requires
        matrix_ready(m),
        legacy_ready(l),
        !m_disabled.enabled,
    ensures
        route(CommunicationMode::Hybrid, m, l) == Ok::<Backend, NokError>(Backend::Matrix),
        route(CommunicationMode::Hybrid, m_disabled, l) == Ok::<Backend, NokError>(
            Backend::Legacy,
        ),
{
}

} // verus!
