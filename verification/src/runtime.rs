//! Serving: what happens at the start, on a user's request, and when a token runs out.
use vstd::prelude::*;
use vstd::string::*;

use crate::config::{self, AppConfig};
use crate::runtime_status::ServicePhase;
use crate::text;
use crate::token_store::{self, seconds_remaining_at};
use crate::tui::UiAction;

verus! {

/// The phase that the service begins in.
pub fn first_phase(token_needed: bool) -> (phase: ServicePhase)
    ensures
        phase == if token_needed {
            ServicePhase::WaitingForEdge
        } else {
            ServicePhase::Ready
        },
{
    if token_needed {
        ServicePhase::WaitingForEdge
    } else {
        ServicePhase::Ready
    }
}

/// What one round of serving does: each request to restart begins another.
#[derive(Debug, Clone, Copy, PartialEq, Eq, Structural)]
pub struct RoundPlan {
    pub launch_browser: bool,
    pub capture_token: bool,
    pub auto_refresh: bool,
}

/// What one round of serving does: a browser is launched where the settings say so, a token is
/// captured where one is needed and the settings say so, and tokens are refreshed where the
/// settings say so.
pub open spec fn round_plan(c: config::ConfigView, token_needed: bool) -> RoundPlan {
    RoundPlan {
        launch_browser: c.edge.launch_on_start,
        capture_token: c.token.capture_on_start && token_needed,
        auto_refresh: c.token.auto_refresh,
    }
}

/// What one round of serving does.
pub fn plan_round(config: &AppConfig, token_needed: bool) -> (plan: RoundPlan)
    ensures
        plan == round_plan(config@, token_needed),
{
    RoundPlan {
        launch_browser: config.edge.launch_on_start,
        capture_token: config.token.capture_on_start && token_needed,
        auto_refresh: config.token.auto_refresh,
    }
}

/// The phase in which a round begins: ready, unless a token is to be captured.
pub fn round_phase(plan: RoundPlan, before: ServicePhase) -> (phase: ServicePhase)
    ensures
        phase == if plan.capture_token {
            before
        } else {
            ServicePhase::Ready
        },
{
    if plan.capture_token {
        before
    } else {
        ServicePhase::Ready
    }
}

/// What follows a user's request.
#[derive(Debug, Clone, Copy, PartialEq, Eq, Structural)]
pub enum AfterAction {
    /// Serving ends.
    Stop,
    /// This round ends; the token is refreshed, and another round begins.
    Restart,
    /// A browser is launched, and serving goes on.
    LaunchBrowser,
}

/// What follows a user's request.
pub fn after_action(action: UiAction) -> (next: AfterAction)
    ensures
        next == match action {
            UiAction::Quit => AfterAction::Stop,
            UiAction::RefreshToken => AfterAction::Restart,
            UiAction::LaunchEdge => AfterAction::LaunchBrowser,
        },
{
    match action {
        UiAction::Quit => AfterAction::Stop,
        UiAction::RefreshToken => AfterAction::Restart,
        UiAction::LaunchEdge => AfterAction::LaunchBrowser,
    }
}

/// The phase after a refresh that a user asked for.
pub fn phase_after_refresh(refreshed: bool) -> (phase: ServicePhase)
    ensures
        phase == if refreshed {
            ServicePhase::Ready
        } else {
            ServicePhase::CaptureFailed
        },
{
    if refreshed {
        ServicePhase::Ready
    } else {
        ServicePhase::CaptureFailed
    }
}

/// What the service is about.
#[derive(Debug, Clone, Copy, PartialEq, Eq, Structural)]
pub enum ServeState {
    /// A round of serving.
    Serving,
    /// The token is refreshed because a user asked for it.
    Refreshing,
    Stopped,
}

/// What happens to the service.
#[derive(Debug, Clone, Copy, PartialEq, Eq, Structural)]
pub enum ServeEvent {
    /// A user asked for something.
    Asked(UiAction),
    /// The refresh is over; a new token was stored, or not.
    Refreshed(bool),
}

/// What the service is about after an event, and in which phase: a request to stop stops it; a
/// request to refresh ends the round, and another one follows however the refresh ends.
pub open spec fn serve_following(state: ServeState, phase: ServicePhase, event: ServeEvent) -> (
    ServeState,
    ServicePhase,
) {
    match (state, event) {
        (ServeState::Serving, ServeEvent::Asked(UiAction::Quit)) => (ServeState::Stopped, phase),
        (ServeState::Serving, ServeEvent::Asked(UiAction::RefreshToken)) => (
            ServeState::Refreshing,
            ServicePhase::CapturingToken,
        ),
        (ServeState::Refreshing, ServeEvent::Refreshed(refreshed)) => (
            ServeState::Serving,
            if refreshed {
                ServicePhase::Ready
            } else {
                ServicePhase::CaptureFailed
            },
        ),
        _ => (state, phase),
    }
}

/// What the service is about after an event, and in which phase.
pub fn serve_next(state: ServeState, phase: ServicePhase, event: ServeEvent) -> (next: (
    ServeState,
    ServicePhase,
))
    ensures
        next == serve_following(state, phase, event),
{
    match (state, event) {
        (ServeState::Serving, ServeEvent::Asked(action)) => match after_action(action) {
            AfterAction::Stop => (ServeState::Stopped, phase),
            AfterAction::Restart => (ServeState::Refreshing, ServicePhase::CapturingToken),
            AfterAction::LaunchBrowser => (state, phase),
        },
        (ServeState::Refreshing, ServeEvent::Refreshed(refreshed)) => (
            ServeState::Serving,
            phase_after_refresh(refreshed),
        ),
        _ => (state, phase),
    }
}

// ---------------------------------------------------------------------------------------------
// Refreshing a token
// ---------------------------------------------------------------------------------------------

/// What the refreshing of tokens does next.
#[derive(Debug, Clone, Copy, PartialEq, Eq, Structural)]
pub enum RefreshStep {
    /// Look again after so many seconds.
    Wait(u64),
    /// Refresh now, and look again after so many seconds.
    Refresh(u64),
}

/// What the refreshing of tokens does next: a token that cannot be read is looked at again after
/// the time for another try; one that lasts is looked at again when it is about to run out, or
/// after five minutes; one that is about to run out is refreshed.
pub open spec fn refresh_step(
    token: Option<Seq<char>>,
    now: i64,
    refresh_before: i64,
    retry: u64,
) -> RefreshStep {
    match token {
        None => RefreshStep::Wait(retry),
        Some(token) => match token_store::remaining_at(token, now) {
            Err(_) => RefreshStep::Wait(retry),
            Ok(left) => if left > refresh_before {
                if left - refresh_before > 300 {
                    RefreshStep::Wait(300)
                } else {
                    RefreshStep::Wait((left - refresh_before) as u64)
                }
            } else {
                RefreshStep::Refresh(retry)
            },
        },
    }
}

/// What the refreshing of tokens does next, by the token of the environment file.
pub fn auto_refresh_step(config: &AppConfig, token: Option<&str>, now: i64) -> (step: RefreshStep)
    ensures
        step == refresh_step(
            text::text_view(token),
            now,
            config@.token.refresh_before_seconds,
            config@.token.refresh_retry_seconds,
        ),
{
    let retry: u64 = config.token.refresh_retry_seconds;
    let before: i64 = config.token.refresh_before_seconds;
    let left: i64 = match token {
        None => return RefreshStep::Wait(retry),
        Some(token) => match seconds_remaining_at(token, now) {
            Ok(left) => left,
            Err(_) => return RefreshStep::Wait(retry),
        },
    };
    if left > before {
        match left.checked_sub(before) {
            Some(wait) => if wait > 300 {
                RefreshStep::Wait(300)
            } else {
                RefreshStep::Wait(wait as u64)
            },
            None => RefreshStep::Wait(300),
        }
    } else {
        RefreshStep::Refresh(retry)
    }
}

// ---------------------------------------------------------------------------------------------
// Capturing a token by command
// ---------------------------------------------------------------------------------------------

/// What is said where no token was captured in time.
pub const NOT_CAPTURED: &'static str = "no Substrate WebSocket token captured before timeout";

/// The environment file with the token that was captured, or what is said where none was.
pub fn capture_token_interactive(captured: Option<&str>, env_file: Option<&str>) -> (written: Result<
    String,
    String,
>)
    ensures
        match written {
            Ok(file) => captured matches Some(token) && file@ == token_store::env_with_token(
                text::text_view(env_file),
                token@,
            ),
            Err(e) => captured is None && e@ == NOT_CAPTURED@,
        },
{
    match captured {
        Some(token) => Ok(token_store::write_token(env_file, token)),
        None => Err(NOT_CAPTURED.to_owned()),
    }
}

// ---------------------------------------------------------------------------------------------
// Laws
// ---------------------------------------------------------------------------------------------

/// A refresh that a user asks for ends the round, shows that a token is being got, and is followed
/// by another round whether or not it got one; the service is ready then exactly if it did.
pub proof fn law_another_round_follows_a_refresh(phase: ServicePhase, refreshed: bool)
    ensures
        ({
            let asked = serve_following(
                ServeState::Serving,
                phase,
                ServeEvent::Asked(UiAction::RefreshToken),
            );
            let ended = serve_following(asked.0, asked.1, ServeEvent::Refreshed(refreshed));
            &&& asked == (ServeState::Refreshing, ServicePhase::CapturingToken)
            &&& ended.0 is Serving
            &&& ended.1 is Ready <==> refreshed
            &&& ended.1 is CaptureFailed <==> !refreshed
        }),
{
}

/// A service that was stopped stays so.
pub proof fn law_stopped_stays_stopped(phase: ServicePhase, event: ServeEvent)
    ensures
        serve_following(ServeState::Stopped, phase, event) == (ServeState::Stopped, phase),
{
}

/// A token is refreshed exactly when it can be read and no more than the set time of it is left.
pub proof fn law_refreshed_when_about_to_expire(
    token: Seq<char>,
    now: i64,
    refresh_before: i64,
    retry: u64,
)
    ensures
        (refresh_step(Some(token), now, refresh_before, retry) is Refresh) == (
        token_store::remaining_at(token, now) matches Ok(left) && left <= refresh_before),
{
}

/// A token that lasts is looked at again before less than the set time of it is left, and at
/// least every five minutes.
pub proof fn law_looked_at_in_time(
    token: Seq<char>,
    now: i64,
    refresh_before: i64,
    retry: u64,
    left: i64,
)
    requires
        token_store::remaining_at(token, now) == Ok::<i64, Seq<char>>(left),
        left > refresh_before,
    ensures
        refresh_step(Some(token), now, refresh_before, retry) matches RefreshStep::Wait(wait)
            && 0 < wait <= 300 && left - wait >= refresh_before,
{
}

/// A round launches a browser, captures a token and refreshes tokens exactly where the settings
/// say so; a token is captured only where one is needed.
pub proof fn law_round_does_what_is_set(c: config::ConfigView, token_needed: bool)
    ensures
        round_plan(c, token_needed).launch_browser <==> c.edge.launch_on_start,
        round_plan(c, token_needed).capture_token <==> c.token.capture_on_start && token_needed,
        round_plan(c, token_needed).auto_refresh <==> c.token.auto_refresh,
{
}

/// While it serves, a request to stop stops the service, and one to launch a browser changes
/// nothing; the end of a refresh that was not asked for changes nothing.
pub proof fn law_serving_ends_on_request(phase: ServicePhase, refreshed: bool)
    ensures
        serve_following(ServeState::Serving, phase, ServeEvent::Asked(UiAction::Quit)) == (
            ServeState::Stopped,
            phase,
        ),
        serve_following(ServeState::Serving, phase, ServeEvent::Asked(UiAction::LaunchEdge)) == (
            ServeState::Serving,
            phase,
        ),
        serve_following(ServeState::Serving, phase, ServeEvent::Refreshed(refreshed)) == (
            ServeState::Serving,
            phase,
        ),
{
}

/// A token that is missing or cannot be read is looked at again after the time for another try,
/// as is one that was refreshed; one that lasts is looked at again when the set time of it is
/// left, or after five minutes where that is sooner.
pub proof fn law_next_look_at_the_token(
    token: Seq<char>,
    now: i64,
    refresh_before: i64,
    retry: u64,
)
    ensures
        refresh_step(None, now, refresh_before, retry) == RefreshStep::Wait(retry),
        token_store::remaining_at(token, now) is Err ==> refresh_step(
            Some(token),
            now,
            refresh_before,
            retry,
        ) == RefreshStep::Wait(retry),
        token_store::remaining_at(token, now) matches Ok(left) ==> {
            &&& left <= refresh_before ==> refresh_step(Some(token), now, refresh_before, retry)
                == RefreshStep::Refresh(retry)
            &&& left > refresh_before && left - refresh_before > 300 ==> refresh_step(
                Some(token),
                now,
                refresh_before,
                retry,
            ) == RefreshStep::Wait(300)
            &&& left > refresh_before && left - refresh_before <= 300 ==> (refresh_step(
                Some(token),
                now,
                refresh_before,
                retry,
            ) matches RefreshStep::Wait(wait) && wait == left - refresh_before)
        },
{
}

} // verus!
