//! The small, stable status vocabulary shown to users, kept apart from the
//! supervisor's internal states.
use vstd::prelude::*;

verus! {

/// What a user is told about the runtime. Carries display text only.
pub enum FriendlyStatus {
    Starting { message: String },
    Running { message: String },
    NotInstalled { message: String, download_url: String },
    ModelMissing { message: String },
    Error { message: String },
    Stopped { message: String },
}

/// A status as mathematical values.
pub enum StatusView {
    Starting { message: Seq<char> },
    Running { message: Seq<char> },
    NotInstalled { message: Seq<char>, download_url: Seq<char> },
    ModelMissing { message: Seq<char> },
    Error { message: Seq<char> },
    Stopped { message: Seq<char> },
}

impl View for FriendlyStatus {
    type V = StatusView;

    open spec fn view(&self) -> StatusView {
        match self {
            FriendlyStatus::Starting { message } => StatusView::Starting { message: message@ },
            FriendlyStatus::Running { message } => StatusView::Running { message: message@ },
            FriendlyStatus::NotInstalled { message, download_url } => StatusView::NotInstalled {
                message: message@,
                download_url: download_url@,
            },
            FriendlyStatus::ModelMissing { message } => StatusView::ModelMissing { message: message@ },
            FriendlyStatus::Error { message } => StatusView::Error { message: message@ },
            FriendlyStatus::Stopped { message } => StatusView::Stopped { message: message@ },
        }
    }
}

pub const DOWNLOAD_URL: &'static str = "https://ollama.ai/download";
pub const MSG_STARTING: &'static str = "Starting up...";
pub const MSG_RUNNING: &'static str = "Protected";
pub const MSG_SETUP_REQUIRED: &'static str = "Setup required";
pub const MSG_MODEL_MISSING: &'static str = "Downloading AI model...";
pub const MSG_STOPPED: &'static str = "Protection paused";
/// Shown when the runtime was thought to be running but does not answer.
pub const MSG_CONNECTION_ISSUE: &'static str = "Connection issue. Restarting...";
/// Shown while automatic recovery is still being attempted.
pub const MSG_RECONNECTING: &'static str = "Reconnecting...";
/// Shown once automatic recovery has given up.
pub const MSG_PLEASE_RESTART: &'static str = "Please restart the app";

pub open spec fn starting_view() -> StatusView {
    StatusView::Starting { message: MSG_STARTING@ }
}

pub open spec fn running_view() -> StatusView {
    StatusView::Running { message: MSG_RUNNING@ }
}

pub open spec fn not_installed_view() -> StatusView {
    StatusView::NotInstalled { message: MSG_SETUP_REQUIRED@, download_url: DOWNLOAD_URL@ }
}

pub open spec fn model_missing_view() -> StatusView {
    StatusView::ModelMissing { message: MSG_MODEL_MISSING@ }
}

pub open spec fn stopped_view() -> StatusView {
    StatusView::Stopped { message: MSG_STOPPED@ }
}

pub open spec fn error_view(message: Seq<char>) -> StatusView {
    StatusView::Error { message }
}

/// The name under which each status travels on the wire.
pub open spec fn tag_of(v: StatusView) -> Seq<char> {
    match v {
        StatusView::Starting { .. } => "starting"@,
        StatusView::Running { .. } => "running"@,
        StatusView::NotInstalled { .. } => "not_installed"@,
        StatusView::ModelMissing { .. } => "model_missing"@,
        StatusView::Error { .. } => "error"@,
        StatusView::Stopped { .. } => "stopped"@,
    }
}

pub open spec fn message_of(v: StatusView) -> Seq<char> {
    match v {
        StatusView::Starting { message } => message,
        StatusView::Running { message } => message,
        StatusView::NotInstalled { message, .. } => message,
        StatusView::ModelMissing { message } => message,
        StatusView::Error { message } => message,
        StatusView::Stopped { message } => message,
    }
}

impl FriendlyStatus {
    pub fn starting() -> (r: Self)
        ensures
            r@ == starting_view(),
    {
        FriendlyStatus::Starting { message: MSG_STARTING.to_owned() }
    }

    pub fn running() -> (r: Self)
        ensures
            r@ == running_view(),
    {
        FriendlyStatus::Running { message: MSG_RUNNING.to_owned() }
    }

    pub fn not_installed() -> (r: Self)
        ensures
            r@ == not_installed_view(),
    {
        FriendlyStatus::NotInstalled {
            message: MSG_SETUP_REQUIRED.to_owned(),
            download_url: DOWNLOAD_URL.to_owned(),
        }
    }

    pub fn model_missing() -> (r: Self)
        ensures
            r@ == model_missing_view(),
    {
        FriendlyStatus::ModelMissing { message: MSG_MODEL_MISSING.to_owned() }
    }

    pub fn error(user_message: &str) -> (r: Self)
        ensures
            r@ == error_view(user_message@),
    {
        FriendlyStatus::Error { message: user_message.to_owned() }
    }

    pub fn stopped() -> (r: Self)
        ensures
            r@ == stopped_view(),
    {
        FriendlyStatus::Stopped { message: MSG_STOPPED.to_owned() }
    }

    /// The wire name of this status.
    pub fn status_tag(&self) -> (r: &'static str)
        ensures
            r@ == tag_of(self@),
    {
        match self {
            FriendlyStatus::Starting { .. } => "starting",
            FriendlyStatus::Running { .. } => "running",
            FriendlyStatus::NotInstalled { .. } => "not_installed",
            FriendlyStatus::ModelMissing { .. } => "model_missing",
            FriendlyStatus::Error { .. } => "error",
            FriendlyStatus::Stopped { .. } => "stopped",
        }
    }

    /// The text shown to the user.
    pub fn message(&self) -> (r: &str)
        ensures
            r@ == message_of(self@),
    {
        match self {
            FriendlyStatus::Starting { message } => message.as_str(),
            FriendlyStatus::Running { message } => message.as_str(),
            FriendlyStatus::NotInstalled { message, .. } => message.as_str(),
            FriendlyStatus::ModelMissing { message } => message.as_str(),
            FriendlyStatus::Error { message } => message.as_str(),
            FriendlyStatus::Stopped { message } => message.as_str(),
        }
    }
}

} // verus!
