//! The dashboard as a state machine. The page hands each event to
//! `step`, shows the new state, and carries out the action it is told.

use vstd::prelude::*;
use vstd::string::StringExecFns;
use crate::records::{AnalyzeRequest, AnalyzeResponse, RequestModel, ResponseModel};
use crate::text::{decimal_of, push_decimal};

verus! {

#[derive(Clone, Copy, Debug, PartialEq, Eq, Structural)]
pub enum Tab {
    Summary,
    Files,
    Graph,
    Complexity,
}

/// What the dashboard shows.
#[derive(Clone, Debug, PartialEq, Eq)]
pub struct Dashboard {
    pub active_tab: Tab,
    pub project_id: Option<String>,
    pub analyzing: bool,
    pub error: Option<String>,
    pub analyze_msg: Option<String>,
    pub github_url: String,
}

pub struct DashboardModel {
    pub active_tab: Tab,
    pub project_id: Option<Seq<char>>,
    pub analyzing: bool,
    pub error: Option<Seq<char>>,
    pub analyze_msg: Option<Seq<char>>,
    pub github_url: Seq<char>,
}

impl DeepView for Dashboard {
    type V = DashboardModel;

    open spec fn deep_view(&self) -> DashboardModel {
        DashboardModel {
            active_tab: self.active_tab,
            project_id: self.project_id.deep_view(),
            analyzing: self.analyzing,
            error: self.error.deep_view(),
            analyze_msg: self.analyze_msg.deep_view(),
            github_url: self.github_url@,
        }
    }
}

/// What can happen to the dashboard.
#[derive(Clone, Debug, PartialEq, Eq)]
pub enum Event {
    /// A tab was chosen.
    TabChosen(Tab),
    /// The repository field now holds this text.
    UrlTyped(String),
    /// The run button was pressed.
    RunPressed,
    /// The request could not be sent; the text says why.
    SendFailed(String),
    /// The server answered with this HTTP status.
    Answered(u16),
    /// The body of the answer was read.
    BodyRead(AnalyzeResponse),
    /// The body of the answer could not be read; the text says why.
    BodyUnreadable(String),
}

pub enum EventModel {
    TabChosen(Tab),
    UrlTyped(Seq<char>),
    RunPressed,
    SendFailed(Seq<char>),
    Answered(u16),
    BodyRead(ResponseModel),
    BodyUnreadable(Seq<char>),
}

impl DeepView for Event {
    type V = EventModel;

    open spec fn deep_view(&self) -> EventModel {
        match self {
            Event::TabChosen(t) => EventModel::TabChosen(*t),
            Event::UrlTyped(s) => EventModel::UrlTyped(s@),
            Event::RunPressed => EventModel::RunPressed,
            Event::SendFailed(s) => EventModel::SendFailed(s@),
            Event::Answered(code) => EventModel::Answered(*code),
            Event::BodyRead(r) => EventModel::BodyRead(r.deep_view()),
            Event::BodyUnreadable(s) => EventModel::BodyUnreadable(s@),
        }
    }
}

/// What the page has to do after an event.
#[derive(Clone, Debug, PartialEq, Eq)]
pub enum Action {
    Nothing,
    /// Post this request to the analysis endpoint.
    Send(AnalyzeRequest),
    /// Read the body of the answer.
    ReadBody,
}

pub enum ActionModel {
    Nothing,
    Send(RequestModel),
    ReadBody,
}

impl DeepView for Action {
    type V = ActionModel;

    open spec fn deep_view(&self) -> ActionModel {
        match self {
            Action::Nothing => ActionModel::Nothing,
            Action::Send(r) => ActionModel::Send(r.deep_view()),
            Action::ReadBody => ActionModel::ReadBody,
        }
    }
}

pub open spec fn initial_state() -> DashboardModel {
    DashboardModel {
        active_tab: Tab::Summary,
        project_id: None,
        analyzing: false,
        error: None,
        analyze_msg: None,
        github_url: Seq::empty(),
    }
}

/// The request that a run sends: for the repository in the field, or for
/// no repository where the field is empty.
pub open spec fn request_of(url: Seq<char>) -> RequestModel {
    RequestModel {
        project_name: Some("gravity-project"@),
        path: None,
        github_url: if url.len() == 0 {
            None
        } else {
            Some(url)
        },
    }
}

/// Whether an HTTP status reports success.
pub open spec fn is_success(status: u16) -> bool {
    200 <= status <= 299
}

/// The state after an event.
pub open spec fn next_state(st: DashboardModel, ev: EventModel) -> DashboardModel {
    match ev {
        EventModel::TabChosen(tab) => DashboardModel { active_tab: tab, ..st },
        EventModel::UrlTyped(url) => DashboardModel { github_url: url, ..st },
        EventModel::RunPressed => DashboardModel { analyzing: true, error: None, ..st },
        EventModel::SendFailed(why) => DashboardModel {
            analyzing: false,
            error: Some("Request failed: "@ + why),
            ..st
        },
        EventModel::Answered(status) => if is_success(status) {
            st
        } else {
            DashboardModel {
                analyzing: false,
                error: Some("HTTP "@ + decimal_of(status as nat)),
                ..st
            }
        },
        EventModel::BodyRead(r) => DashboardModel {
            analyzing: false,
            project_id: Some(r.project_id),
            analyze_msg: Some(r.message),
            ..st
        },
        EventModel::BodyUnreadable(why) => DashboardModel {
            analyzing: false,
            error: Some("Parse error: "@ + why),
            ..st
        },
    }
}

/// What the page has to do after an event.
pub open spec fn next_action(st: DashboardModel, ev: EventModel) -> ActionModel {
    match ev {
        EventModel::RunPressed => ActionModel::Send(request_of(st.github_url)),
        EventModel::Answered(status) => if is_success(status) {
            ActionModel::ReadBody
        } else {
            ActionModel::Nothing
        },
        _ => ActionModel::Nothing,
    }
}

impl AnalyzeRequest {
    /// The request for the repository at `url`; for no repository where
    /// `url` is empty.
    pub fn for_url(url: &str) -> (request: AnalyzeRequest)
        ensures
            request.deep_view() == request_of(url@),
    {
        AnalyzeRequest {
            project_name: Some("gravity-project".to_owned()),
            path: None,
            github_url: if url.unicode_len() == 0 {
                None
            } else {
                Some(url.to_owned())
            },
        }
    }
}

impl Dashboard {
    /// The dashboard as it opens.
    pub fn new() -> (d: Dashboard)
        ensures
            d.deep_view() == initial_state(),
    {
        Dashboard {
            active_tab: Tab::Summary,
            project_id: None,
            analyzing: false,
            error: None,
            analyze_msg: None,
            github_url: String::new(),
        }
    }

    /// Takes one event: changes the state and says what to do.
    pub fn step(&mut self, event: Event) -> (action: Action)
        ensures
            final(self).deep_view() == next_state(old(self).deep_view(), event.deep_view()),
            action.deep_view() == next_action(old(self).deep_view(), event.deep_view()),
    {
        match event {
            Event::TabChosen(tab) => {
                self.active_tab = tab;
                Action::Nothing
            },
            Event::UrlTyped(url) => {
                self.github_url = url;
                Action::Nothing
            },
            Event::RunPressed => {
                self.analyzing = true;
                self.error = None;
                Action::Send(AnalyzeRequest::for_url(self.github_url.as_str()))
            },
            Event::SendFailed(why) => {
                let mut text: String = "Request failed: ".to_owned();
                text.append(why.as_str());
                self.analyzing = false;
                self.error = Some(text);
                Action::Nothing
            },
            Event::Answered(status) => {
                if 200 <= status && status <= 299 {
                    Action::ReadBody
                } else {
                    let mut text: String = "HTTP ".to_owned();
                    push_decimal(&mut text, status as u64);
                    self.analyzing = false;
                    self.error = Some(text);
                    Action::Nothing
                }
            },
            Event::BodyRead(r) => {
                self.analyzing = false;
                self.project_id = Some(r.project_id);
                self.analyze_msg = Some(r.message);
                Action::Nothing
            },
            Event::BodyUnreadable(why) => {
                let mut text: String = "Parse error: ".to_owned();
                text.append(why.as_str());
                self.analyzing = false;
                self.error = Some(text);
                Action::Nothing
            },
        }
    }
}

} // verus!
