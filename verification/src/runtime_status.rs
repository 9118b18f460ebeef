//! What the service is doing.
use vstd::prelude::*;

verus! {

/// A phase of the service.
#[derive(Debug, Clone, Copy, PartialEq, Eq, Structural)]
pub enum ServicePhase {
    Ready,
    WaitingForEdge,
    CapturingToken,
    CaptureFailed,
}

impl Default for ServicePhase {
    fn default() -> (phase: Self)
        ensures
            phase is Ready,
    {
        ServicePhase::Ready
    }
}

/// How a phase is called.
pub open spec fn phase_label(phase: ServicePhase) -> Seq<char> {
    match phase {
        ServicePhase::Ready => "ready"@,
        ServicePhase::WaitingForEdge => "waiting for Edge M365 tab"@,
        ServicePhase::CapturingToken => "capturing token — click Copilot box, type 1 char"@,
        ServicePhase::CaptureFailed => "token capture failed — run set-token"@,
    }
}

impl ServicePhase {
    /// How the phase is called.
    pub fn label(self) -> (label: &'static str)
        ensures
            label@ == phase_label(self),
    {
        match self {
            ServicePhase::Ready => "ready",
            ServicePhase::WaitingForEdge => "waiting for Edge M365 tab",
            ServicePhase::CapturingToken => "capturing token — click Copilot box, type 1 char",
            ServicePhase::CaptureFailed => "token capture failed — run set-token",
        }
    }
}

/// The phase that the service is in. There is one of it, which all who tell of the phase or read
/// it share.
#[derive(Debug)]
pub struct RuntimeStatus {
    phase: ServicePhase,
}

impl RuntimeStatus {
    /// The phase that the service is in.
    pub closed spec fn view(self) -> ServicePhase {
        self.phase
    }

    /// A service that is ready.
    pub fn new() -> (status: Self)
        ensures
            status@ is Ready,
    {
        RuntimeStatus { phase: ServicePhase::default() }
    }

    /// Enters a phase.
    pub fn set_phase(&mut self, phase: ServicePhase)
        ensures
            final(self)@ == phase,
    {
        self.phase = phase;
    }

    /// The phase that the service is in.
    pub fn phase(&self) -> (phase: ServicePhase)
        ensures
            phase == self@,
    {
        self.phase
    }
}

impl Default for RuntimeStatus {
    fn default() -> (status: Self)
        ensures
            status@ is Ready,
    {
        RuntimeStatus::new()
    }
}

/// The phase after phases were entered one after the other, by whomever.
pub open spec fn phase_after(begin: ServicePhase, entered: Seq<ServicePhase>) -> ServicePhase
    decreases entered.len(),
{
    if entered.len() == 0 {
        begin
    } else {
        phase_after(entered[0], entered.skip(1))
    }
}

/// The phase is the one that was entered last, or the one that the service began in.
pub proof fn law_last_phase_counts(begin: ServicePhase, entered: Seq<ServicePhase>)
    ensures
        phase_after(begin, entered) == if entered.len() == 0 {
            begin
        } else {
            entered.last()
        },
    decreases entered.len(),
{
    if entered.len() > 0 {
        law_last_phase_counts(entered[0], entered.skip(1));
    }
}

/// A phase is shown by what is waited for, and two phases are never shown alike.
pub proof fn law_phases_are_told_apart(phase: ServicePhase, other: ServicePhase)
    ensures
        phase is Ready ==> phase_label(phase) == "ready"@,
        phase is WaitingForEdge ==> phase_label(phase) == "waiting for Edge M365 tab"@,
        phase is CapturingToken ==> phase_label(phase)
            == "capturing token — click Copilot box, type 1 char"@,
        phase is CaptureFailed ==> phase_label(phase) == "token capture failed — run set-token"@,
        phase_label(phase) == phase_label(other) <==> phase == other,
{
    reveal_strlit("ready");
    reveal_strlit("waiting for Edge M365 tab");
    reveal_strlit("capturing token — click Copilot box, type 1 char");
    reveal_strlit("token capture failed — run set-token");
    assert("ready"@.len() == 5);
    assert("waiting for Edge M365 tab"@.len() == 25);
    assert("capturing token — click Copilot box, type 1 char"@.len() == 48);
    assert("token capture failed — run set-token"@.len() == 36);
}

} // verus!
