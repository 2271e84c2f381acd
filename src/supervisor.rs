//! Decisions of the runtime supervisor. The host performs the actions (spawn,
//! kill, probe, sleep) and reports back what happened; every transition of the
//! state machine is made here.
use vstd::prelude::*;
use crate::text::{replace_all, replace_text, starts_with, has_prefix};
use crate::status::{
    FriendlyStatus, StatusView, starting_view, running_view, not_installed_view, model_missing_view,
    stopped_view, error_view, MSG_CONNECTION_ISSUE, MSG_RECONNECTING, MSG_PLEASE_RESTART,
};

verus! {

pub const MAX_RESTART_ATTEMPTS: u32 = 3;
pub const HEALTH_CHECK_INTERVAL_MS: u64 = 5000;
pub const STARTUP_TIMEOUT_MS: u64 = 30000;
/// Interval between health probes while waiting for a fresh process.
pub const STARTUP_POLL_INTERVAL_MS: u64 = 500;
/// Pause between stopping and starting again on a restart.
pub const RESTART_COOLDOWN_MS: u64 = 1000;
pub const DEFAULT_MODEL: &'static str = "phi3:mini";

/// Internal supervisor state; never shown to users as it is.
#[derive(Clone, Copy, Debug, PartialEq, Eq, Structural)]
pub enum SupervisorState {
    Starting,
    Running,
    Unhealthy,
    Stopped,
    OllamaNotInstalled,
    ModelMissing,
}

pub struct SupervisorConfig {
    pub max_restart_attempts: u32,
    pub health_check_interval_ms: u64,
    pub startup_timeout_ms: u64,
    pub default_model: String,
}

impl Default for SupervisorConfig {
    fn default() -> (r: Self)
        ensures
            r.max_restart_attempts == MAX_RESTART_ATTEMPTS,
            r.health_check_interval_ms == HEALTH_CHECK_INTERVAL_MS,
            r.startup_timeout_ms == STARTUP_TIMEOUT_MS,
            r.default_model@ == DEFAULT_MODEL@,
    {
        SupervisorConfig {
            max_restart_attempts: MAX_RESTART_ATTEMPTS,
            health_check_interval_ms: HEALTH_CHECK_INTERVAL_MS,
            startup_timeout_ms: STARTUP_TIMEOUT_MS,
            default_model: DEFAULT_MODEL.to_owned(),
        }
    }
}

/// What `begin_start` asks the host to do next.
#[derive(Clone, Copy, Debug, PartialEq, Eq, Structural)]
pub enum StartStep {
    /// The runtime already answers: nothing to spawn, the start has succeeded.
    AlreadyRunning,
    /// Spawn the runtime, then poll its health.
    Spawn,
}

#[derive(Clone, Copy, Debug, PartialEq, Eq, Structural)]
pub enum SupervisorError {
    /// Binary discovery found nothing.
    NotInstalled,
    /// No health probe succeeded within the startup timeout (whole seconds).
    StartupTimeout { seconds: u64 },
}

/// What one round of the health monitor asks the host to do.
#[derive(Clone, Copy, Debug, PartialEq, Eq, Structural)]
pub enum MonitorAction {
    /// Stopped on purpose, or not installed: nothing to probe.
    Idle,
    /// Healthy: nothing to do.
    Healthy,
    /// Restart the runtime, then call `record_restart_attempt`.
    Restart,
    /// Unhealthy with the restart ceiling reached: wait for the user.
    GiveUp,
}

/// The supervisor as mathematical values.
pub struct SupervisorModel {
    pub state: SupervisorState,
    pub restart_count: int,
    pub monitoring: bool,
    pub max_restart_attempts: int,
    pub startup_timeout_ms: int,
}

pub open spec fn u32_count(x: int) -> bool {
    0 <= x <= u32::MAX
}

pub open spec fn supervisor_wf(m: SupervisorModel) -> bool {
    &&& u32_count(m.restart_count)
    &&& u32_count(m.max_restart_attempts)
    &&& 0 <= m.startup_timeout_ms <= u64::MAX
}

/// `start`, up to the spawn: given whether the runtime already answers and
/// whether a binary was found.
pub open spec fn start_begin(m: SupervisorModel, healthy: bool, binary_found: bool) -> (
    SupervisorModel,
    Result<StartStep, SupervisorError>,
) {
    if healthy {
        (SupervisorModel { state: SupervisorState::Running, ..m }, Ok(StartStep::AlreadyRunning))
    } else if !binary_found {
        (m, Err(SupervisorError::NotInstalled))
    } else {
        (SupervisorModel { state: SupervisorState::Starting, ..m }, Ok(StartStep::Spawn))
    }
}

/// `start`, after polling: given whether some probe succeeded in time.
pub open spec fn start_finish(m: SupervisorModel, became_healthy: bool) -> (
    SupervisorModel,
    Result<(), SupervisorError>,
) {
    if became_healthy {
        (SupervisorModel { state: SupervisorState::Running, restart_count: 0, ..m }, Ok(()))
    } else {
        (
            SupervisorModel { state: SupervisorState::Unhealthy, ..m },
            Err(SupervisorError::StartupTimeout { seconds: (m.startup_timeout_ms / 1000) as u64 }),
        )
    }
}

pub open spec fn stopped(m: SupervisorModel) -> SupervisorModel {
    SupervisorModel { state: SupervisorState::Stopped, ..m }
}

/// States in which the monitor does not probe.
pub open spec fn monitor_skips(s: SupervisorState) -> bool {
    s == SupervisorState::Stopped || s == SupervisorState::OllamaNotInstalled
}

/// One monitor round, given the outcome of its probe.
pub open spec fn monitor_step(m: SupervisorModel, healthy: bool) -> (SupervisorModel, MonitorAction) {
    if monitor_skips(m.state) {
        (m, MonitorAction::Idle)
    } else if healthy {
        (SupervisorModel { state: SupervisorState::Running, restart_count: 0, ..m }, MonitorAction::Healthy)
    } else if m.restart_count < m.max_restart_attempts {
        (SupervisorModel { state: SupervisorState::Unhealthy, ..m }, MonitorAction::Restart)
    } else {
        (m, MonitorAction::GiveUp)
    }
}

pub open spec fn count_attempt(m: SupervisorModel) -> SupervisorModel {
    SupervisorModel {
        restart_count: if m.restart_count < u32::MAX {
            m.restart_count + 1
        } else {
            m.restart_count
        },
        ..m
    }
}

pub open spec fn reset_count(m: SupervisorModel) -> SupervisorModel {
    SupervisorModel { restart_count: 0, ..m }
}

/// The status shown, given whether a binary is found, whether the runtime
/// answers, and whether it lists a usable model (`None`: could not tell).
/// The last two are consulted only while the state is `Running`.
pub open spec fn status_of(
    m: SupervisorModel,
    installed: bool,
    healthy: bool,
    model_available: Option<bool>,
) -> StatusView {
    if !installed {
        not_installed_view()
    } else {
        match m.state {
            SupervisorState::Starting => starting_view(),
            SupervisorState::Running => if !healthy {
                error_view(MSG_CONNECTION_ISSUE@)
            } else if model_available == Some(false) {
                model_missing_view()
            } else {
                running_view()
            },
            SupervisorState::Unhealthy => if m.restart_count >= m.max_restart_attempts {
                error_view(MSG_PLEASE_RESTART@)
            } else {
                error_view(MSG_RECONNECTING@)
            },
            SupervisorState::Stopped => stopped_view(),
            SupervisorState::OllamaNotInstalled => not_installed_view(),
            SupervisorState::ModelMissing => model_missing_view(),
        }
    }
}

pub struct OllamaSupervisor {
    state: SupervisorState,
    restart_count: u32,
    is_monitoring: bool,
    config: SupervisorConfig,
}

impl View for OllamaSupervisor {
    type V = SupervisorModel;

    closed spec fn view(&self) -> SupervisorModel {
        SupervisorModel {
            state: self.state,
            restart_count: self.restart_count as int,
            monitoring: self.is_monitoring,
            max_restart_attempts: self.config.max_restart_attempts as int,
            startup_timeout_ms: self.config.startup_timeout_ms as int,
        }
    }
}

impl OllamaSupervisor {
    pub proof fn lemma_wf(&self)
        ensures
            supervisor_wf(self@),
    {
    }

    pub fn new(config: SupervisorConfig) -> (r: Self)
        ensures
            r@ == (SupervisorModel {
                state: SupervisorState::Stopped,
                restart_count: 0,
                monitoring: false,
                max_restart_attempts: config.max_restart_attempts as int,
                startup_timeout_ms: config.startup_timeout_ms as int,
            }),
            r.config().default_model@ == config.default_model@,
            r.config().health_check_interval_ms == config.health_check_interval_ms,
    {
        OllamaSupervisor { state: SupervisorState::Stopped, restart_count: 0, is_monitoring: false, config }
    }

    pub closed spec fn config(&self) -> SupervisorConfig {
        self.config
    }

    pub fn get_config(&self) -> (r: &SupervisorConfig)
        ensures
            *r == self.config(),
            r.max_restart_attempts == self@.max_restart_attempts,
            r.startup_timeout_ms == self@.startup_timeout_ms,
    {
        &self.config
    }

    pub fn get_state(&self) -> (r: SupervisorState)
        ensures
            r == self@.state,
    {
        self.state
    }

    pub fn restart_count(&self) -> (r: u32)
        ensures
            r == self@.restart_count,
    {
        self.restart_count
    }

    /// First half of `start`. `already_healthy` is the outcome of a health
    /// probe made before anything else; `binary_found` that of binary discovery.
    pub fn begin_start(&mut self, already_healthy: bool, binary_found: bool) -> (r: Result<
        StartStep,
        SupervisorError,
    >)
        ensures
            (final(self)@, r) == start_begin(old(self)@, already_healthy, binary_found),
            final(self).config() == old(self).config(),
    {
        if already_healthy {
            self.state = SupervisorState::Running;
            Ok(StartStep::AlreadyRunning)
        } else if !binary_found {
            Err(SupervisorError::NotInstalled)
        } else {
            self.state = SupervisorState::Starting;
            Ok(StartStep::Spawn)
        }
    }

    /// How many health probes, `STARTUP_POLL_INTERVAL_MS` apart, to wait for
    /// a freshly spawned runtime.
    pub fn startup_poll_attempts(&self) -> (r: u64)
        ensures
            r == self@.startup_timeout_ms / (STARTUP_POLL_INTERVAL_MS as int),
    {
        self.config.startup_timeout_ms / STARTUP_POLL_INTERVAL_MS
    }

    /// Second half of `start`: `became_healthy` tells whether one of the
    /// probes succeeded.
    pub fn finish_start(&mut self, became_healthy: bool) -> (r: Result<(), SupervisorError>)
        ensures
            (final(self)@, r) == start_finish(old(self)@, became_healthy),
            final(self).config() == old(self).config(),
    {
        if became_healthy {
            self.state = SupervisorState::Running;
            self.restart_count = 0;
            Ok(())
        } else {
            self.state = SupervisorState::Unhealthy;
            Err(SupervisorError::StartupTimeout { seconds: self.config.startup_timeout_ms / 1000 })
        }
    }

    /// The owned process, if any, has been told to end: the state is
    /// `Stopped` whatever happened to it.
    pub fn stop(&mut self)
        ensures
            final(self)@ == stopped(old(self)@),
            final(self).config() == old(self).config(),
    {
        self.state = SupervisorState::Stopped;
    }

    /// Claims the single health monitor: true for the first caller only.
    pub fn begin_monitoring(&mut self) -> (r: bool)
        ensures
            r == !old(self)@.monitoring,
            final(self)@ == (SupervisorModel { monitoring: true, ..old(self)@ }),
            final(self).config() == old(self).config(),
    {
        let was = self.is_monitoring;
        self.is_monitoring = true;
        !was
    }

    /// Whether a monitor round probes at all.
    pub fn monitor_should_probe(&self) -> (r: bool)
        ensures
            r == !monitor_skips(self@.state),
    {
        !(self.state == SupervisorState::Stopped || self.state == SupervisorState::OllamaNotInstalled)
    }

    /// One monitor round, given the outcome of its health probe.
    pub fn on_monitor_probe(&mut self, healthy: bool) -> (r: MonitorAction)
        ensures
            (final(self)@, r) == monitor_step(old(self)@, healthy),
            final(self).config() == old(self).config(),
    {
        if self.state == SupervisorState::Stopped || self.state == SupervisorState::OllamaNotInstalled {
            MonitorAction::Idle
        } else if healthy {
            self.restart_count = 0;
            self.state = SupervisorState::Running;
            MonitorAction::Healthy
        } else if self.restart_count < self.config.max_restart_attempts {
            self.state = SupervisorState::Unhealthy;
            MonitorAction::Restart
        } else {
            MonitorAction::GiveUp
        }
    }

    /// Counts one automatic recovery attempt, whatever its outcome.
    pub fn record_restart_attempt(&mut self)
        ensures
            final(self)@ == count_attempt(old(self)@),
            final(self).config() == old(self).config(),
    {
        if self.restart_count < u32::MAX {
            self.restart_count = self.restart_count + 1;
        }
    }

    /// Re-arms automatic recovery; called before a restart the user asked for.
    pub fn reset_restart_count(&mut self)
        ensures
            final(self)@ == reset_count(old(self)@),
            final(self).config() == old(self).config(),
    {
        self.restart_count = 0;
    }

    /// Whether `get_friendly_status` consults a health probe and the model list.
    pub fn status_needs_probe(&self) -> (r: bool)
        ensures
            r == (self@.state == SupervisorState::Running),
    {
        self.state == SupervisorState::Running
    }

    /// The status to show. `installed` is the outcome of binary discovery;
    /// `healthy` and `model_available` are read only while running.
    pub fn get_friendly_status(&self, installed: bool, healthy: bool, model_available: Option<bool>) -> (r:
        FriendlyStatus)
        ensures
            r@ == status_of(self@, installed, healthy, model_available),
    {
        if !installed {
            return FriendlyStatus::not_installed();
        }
        match self.state {
            SupervisorState::Starting => FriendlyStatus::starting(),
            SupervisorState::Running => {
                if !healthy {
                    FriendlyStatus::error(MSG_CONNECTION_ISSUE)
                } else {
                    match model_available {
                        Some(false) => FriendlyStatus::model_missing(),
                        _ => FriendlyStatus::running(),
                    }
                }
            },
            SupervisorState::Unhealthy => {
                if self.restart_count >= self.config.max_restart_attempts {
                    FriendlyStatus::error(MSG_PLEASE_RESTART)
                } else {
                    FriendlyStatus::error(MSG_RECONNECTING)
                }
            },
            SupervisorState::Stopped => FriendlyStatus::stopped(),
            SupervisorState::OllamaNotInstalled => FriendlyStatus::not_installed(),
            SupervisorState::ModelMissing => FriendlyStatus::model_missing(),
        }
    }
}

/// The family of the configured model: its name without the `:mini` tag.
pub open spec fn model_family(default_model: Seq<char>) -> Seq<char> {
    replace_all(default_model, ":mini"@, Seq::empty())
}

/// A listed name counts as the configured model when it is that model or
/// begins with its family.
pub open spec fn names_default_model(name: Seq<char>, default_model: Seq<char>) -> bool {
    name == default_model || starts_with(name, model_family(default_model))
}

/// Whether the runtime lists the configured default model.
pub fn check_model_available(names: &Vec<String>, default_model: &str) -> (r: bool)
    ensures
        r == exists|i: int| 0 <= i < names@.len() && names_default_model(#[trigger] names@[i]@, default_model@),
{
    proof {
        reveal_strlit(":mini");
        reveal_strlit("");
        assert(""@ =~= Seq::<char>::empty());
    }
    let family = replace_text(default_model, ":mini", "");
    let wanted = default_model.to_owned();
    let n = names.len();
    let mut i: usize = 0;
    while i < n
        invariant
            n == names@.len(),
            i <= n,
            family@ == model_family(default_model@),
            wanted@ == default_model@,
            forall|j: int| 0 <= j < i ==> !names_default_model(#[trigger] names@[j]@, default_model@),
        decreases n - i,
    {
        if names[i] == wanted || has_prefix(names[i].as_str(), family.as_str()) {
            assert(names_default_model(names@[i as int]@, default_model@));
            return true;
        }
        i += 1;
    }
    false
}

} // verus!
