//! The router: classifies a message into an intent by trying the patterns in
//! a fixed order, decides on a direct reply or a backend call, and renders the
//! backend's outcome into the reply.

use vstd::prelude::*;
use crate::arrival::{
    arrival_direction, arrival_shape, starts_east, arrival_station, arrival_text, is_next_arrival_request,
    next_arrival_query, help_schedule, NextArrivalRequest, NextArrivalResponse, HELP_SCHEDULE,
};
use crate::forecast::{
    clock_for, forecast_reply, forecast_text, help_weather, weather_mode, weather_mode_of, Forecast,
    WeatherMode, HELP_WEATHER,
};
use crate::spending::{
    help_spending, is_spent_request, ledger_text, parse_spent_request, spending_action_of,
    spent_category, spent_category_of, spent_category_shape, spent_shape, action_start, first_word, is_budget_verb, is_spent_verb, verb_then_blank, action_word,
    ActionModel, Category, SpendingAction, SpendingQuery, SpentResponse, SpentTotalResponse,
    HELP_SPENDING,
};
use crate::text::{lemma_word_end_bounds, lit_at, lower_of, same_text, trim};

verus! {

#[derive(Clone, Copy, Debug, PartialEq, Eq, Structural)]
pub enum HelpTopic {
    Schedule,
    Spending,
    Weather,
}

/// A weather request: the forecast mode, or `None` for the whole forecast,
/// and whether it is for a location that the sender shared.
#[derive(Clone, Copy, Debug, PartialEq, Eq, Structural)]
pub struct WeatherQuery {
    pub mode: Option<WeatherMode>,
    pub at_location: bool,
}

/// One inbound message as the router sees it: its text, if any, whether it
/// carries a location, and whether its text holds a link.
#[derive(Clone, Debug, PartialEq, Eq)]
pub struct Message {
    pub text: Option<String>,
    pub has_location: bool,
    pub has_link: bool,
}

/// The purpose of a message.
#[derive(Clone, Debug, PartialEq, Eq)]
pub enum Intent {
    Help,
    HelpTopic(HelpTopic),
    NextArrival(NextArrivalRequest),
    Spending(SpendingQuery),
    Weather(WeatherQuery),
    Summarize(String),
    Unrecognized,
}

pub enum IntentModel {
    Help,
    HelpTopic(HelpTopic),
    NextArrival { station: Seq<char>, direction: Seq<char> },
    Spending { action: ActionModel, category: Option<Category> },
    Weather(WeatherQuery),
    Summarize(Seq<char>),
    Unrecognized,
}

impl View for Intent {
    type V = IntentModel;

    open spec fn view(&self) -> IntentModel {
        match self {
            Intent::Help => IntentModel::Help,
            Intent::HelpTopic(t) => IntentModel::HelpTopic(*t),
            Intent::NextArrival(q) => IntentModel::NextArrival {
                station: q.station@,
                direction: q.direction@,
            },
            Intent::Spending(q) => IntentModel::Spending { action: q.action@, category: q.category },
            Intent::Weather(w) => IntentModel::Weather(*w),
            Intent::Summarize(t) => IntentModel::Summarize(t@),
            Intent::Unrecognized => IntentModel::Unrecognized,
        }
    }
}

/// The intent of a text, by the first pattern that matches: the four help
/// commands exactly, a categorised ledger request, a plain ledger request, a
/// next-arrival request, a weather request; otherwise a text with a link is to
/// be summarised and any other is not recognised.
pub open spec fn intent_of_text(s: Seq<char>, has_link: bool) -> IntentModel {
    if s == "Help"@ {
        IntentModel::Help
    } else if s == "Help schedule"@ {
        IntentModel::HelpTopic(HelpTopic::Schedule)
    } else if s == "Help spending"@ {
        IntentModel::HelpTopic(HelpTopic::Spending)
    } else if s == "Help weather"@ {
        IntentModel::HelpTopic(HelpTopic::Weather)
    } else if spent_category_shape(s) {
        IntentModel::Spending { action: spending_action_of(s), category: Some(spent_category(s)) }
    } else if spent_shape(s) {
        IntentModel::Spending { action: spending_action_of(s), category: None }
    } else if arrival_shape(s) {
        IntentModel::NextArrival { station: arrival_station(s), direction: arrival_direction(s) }
    } else if weather_mode_of(s) is Some {
        IntentModel::Weather(WeatherQuery { mode: weather_mode_of(s), at_location: false })
    } else if has_link {
        IntentModel::Summarize(s)
    } else {
        IntentModel::Unrecognized
    }
}

/// The intent of a message: that of its text; for a message without text, a
/// weather request for the shared location, if there is one.
pub open spec fn intent_of(text: Option<Seq<char>>, has_location: bool, has_link: bool) -> IntentModel {
    match text {
        Some(s) => intent_of_text(s, has_link),
        None => if has_location {
            IntentModel::Weather(WeatherQuery { mode: None, at_location: true })
        } else {
            IntentModel::Unrecognized
        },
    }
}

pub open spec fn message_text(m: Message) -> Option<Seq<char>> {
    match m.text {
        Some(t) => Some(t@),
        None => None,
    }
}

/// The intent of a text.
pub fn classify_text(text: &str, has_link: bool) -> (r: Intent)
    ensures
        r@ == intent_of_text(text@, has_link),
{
    if same_text(text, "Help") {
        Intent::Help
    } else if same_text(text, "Help schedule") {
        Intent::HelpTopic(HelpTopic::Schedule)
    } else if same_text(text, "Help spending") {
        Intent::HelpTopic(HelpTopic::Spending)
    } else if same_text(text, "Help weather") {
        Intent::HelpTopic(HelpTopic::Weather)
    } else if let Some(c) = spent_category_of(text) {
        Intent::Spending(parse_spent_request(text, Some(c)))
    } else if is_spent_request(text) {
        Intent::Spending(parse_spent_request(text, None))
    } else if is_next_arrival_request(text) {
        Intent::NextArrival(next_arrival_query(text))
    } else if let Some(mode) = weather_mode(text) {
        Intent::Weather(WeatherQuery { mode: Some(mode), at_location: false })
    } else if has_link {
        Intent::Summarize(String::from_str(text))
    } else {
        Intent::Unrecognized
    }
}

/// The intent of a message.
pub fn classify(msg: &Message) -> (r: Intent)
    ensures
        r@ == intent_of(message_text(*msg), msg.has_location, msg.has_link),
{
    match &msg.text {
        Some(t) => classify_text(t.as_str(), msg.has_link),
        None => if msg.has_location {
            Intent::Weather(WeatherQuery { mode: None, at_location: true })
        } else {
            Intent::Unrecognized
        },
    }
}

/// What the ledger is sent to record an expense or set the budget.
#[derive(Clone, Debug, PartialEq, Eq)]
pub struct SpentRequest {
    /// The amount as written: a valid decimal number.
    pub amount: String,
    pub category: Option<Category>,
}

/// A call to one of the backend services.
#[derive(Clone, Debug, PartialEq, Eq)]
pub enum BackendCall {
    Arrival(NextArrivalRequest),
    Record(SpentRequest),
    SetBudget(SpentRequest),
    Total,
    Reset,
    Forecast(WeatherQuery),
    Summarize(String),
}

pub enum CallModel {
    Arrival { station: Seq<char>, direction: Seq<char> },
    Record { amount: Seq<char>, category: Option<Category> },
    SetBudget { amount: Seq<char>, category: Option<Category> },
    Total,
    Reset,
    Forecast(WeatherQuery),
    Summarize(Seq<char>),
}

impl View for BackendCall {
    type V = CallModel;

    open spec fn view(&self) -> CallModel {
        match self {
            BackendCall::Arrival(q) => CallModel::Arrival {
                station: q.station@,
                direction: q.direction@,
            },
            BackendCall::Record(q) => CallModel::Record { amount: q.amount@, category: q.category },
            BackendCall::SetBudget(q) => CallModel::SetBudget {
                amount: q.amount@,
                category: q.category,
            },
            BackendCall::Total => CallModel::Total,
            BackendCall::Reset => CallModel::Reset,
            BackendCall::Forecast(w) => CallModel::Forecast(*w),
            BackendCall::Summarize(t) => CallModel::Summarize(t@),
        }
    }
}

/// What the router does with a classified message.
#[derive(Clone, Debug, PartialEq, Eq)]
pub enum Step {
    /// Reply at once with this text.
    Reply(String),
    /// Call a backend; its outcome makes the reply.
    Call(BackendCall),
    /// Send no reply.
    Silent,
}

pub enum StepModel {
    Reply(Seq<char>),
    Call(CallModel),
    Silent,
}

impl View for Step {
    type V = StepModel;

    open spec fn view(&self) -> StepModel {
        match self {
            Step::Reply(t) => StepModel::Reply(t@),
            Step::Call(c) => StepModel::Call(c@),
            Step::Silent => StepModel::Silent,
        }
    }
}

pub const HELP: &'static str = "Use the following for additional details:\nhelp schedule\nhelp spending\nhelp weather";

pub const INVALID_AMOUNT: &'static str = "cannot parse that value as float";

pub const SCHEDULE_FAILURE: &'static str = "An error occurred retrieving the schedule";

pub const API_FAILURE: &'static str = "error calling api";

/// The overview of the help topics.
pub fn helpmsg() -> (r: &'static str)
    ensures
        r == HELP,
{
    HELP
}

/// Help is answered with its fixed text; a request with an amount that is no
/// number with the validation message; every other recognised intent with a
/// call to its backend; an unrecognised message not at all.
pub open spec fn step_of(i: IntentModel) -> StepModel {
    match i {
        IntentModel::Help => StepModel::Reply(HELP@),
        IntentModel::HelpTopic(HelpTopic::Schedule) => StepModel::Reply(HELP_SCHEDULE@),
        IntentModel::HelpTopic(HelpTopic::Spending) => StepModel::Reply(HELP_SPENDING@),
        IntentModel::HelpTopic(HelpTopic::Weather) => StepModel::Reply(HELP_WEATHER@),
        IntentModel::NextArrival { station, direction } => StepModel::Call(
            CallModel::Arrival { station, direction },
        ),
        IntentModel::Spending { action, category } => match action {
            ActionModel::Total => StepModel::Call(CallModel::Total),
            ActionModel::Reset => StepModel::Call(CallModel::Reset),
            ActionModel::Record(amount) => StepModel::Call(CallModel::Record { amount, category }),
            ActionModel::SetBudget(amount) => StepModel::Call(
                CallModel::SetBudget { amount, category },
            ),
            ActionModel::InvalidAmount => StepModel::Reply(INVALID_AMOUNT@),
        },
        IntentModel::Weather(w) => StepModel::Call(CallModel::Forecast(w)),
        IntentModel::Summarize(t) => StepModel::Call(CallModel::Summarize(t)),
        IntentModel::Unrecognized => StepModel::Silent,
    }
}

/// What to do with a classified message.
pub fn decide(intent: Intent) -> (r: Step)
    ensures
        r@ == step_of(intent@),
{
    match intent {
        Intent::Help => Step::Reply(String::from_str(helpmsg())),
        Intent::HelpTopic(HelpTopic::Schedule) => Step::Reply(String::from_str(help_schedule())),
        Intent::HelpTopic(HelpTopic::Spending) => Step::Reply(String::from_str(help_spending())),
        Intent::HelpTopic(HelpTopic::Weather) => Step::Reply(String::from_str(help_weather())),
        Intent::NextArrival(q) => Step::Call(BackendCall::Arrival(q)),
        Intent::Spending(q) => match q.action {
            SpendingAction::Total => Step::Call(BackendCall::Total),
            SpendingAction::Reset => Step::Call(BackendCall::Reset),
            SpendingAction::Record(amount) => Step::Call(
                BackendCall::Record(SpentRequest { amount, category: q.category }),
            ),
            SpendingAction::SetBudget(amount) => Step::Call(
                BackendCall::SetBudget(SpentRequest { amount, category: q.category }),
            ),
            SpendingAction::InvalidAmount => Step::Reply(String::from_str(INVALID_AMOUNT)),
        },
        Intent::Weather(w) => Step::Call(BackendCall::Forecast(w)),
        Intent::Summarize(t) => Step::Call(BackendCall::Summarize(t)),
        Intent::Unrecognized => Step::Silent,
    }
}

/// Why a backend call failed: the connection, or an answer of the wrong shape.
#[derive(Clone, Copy, Debug, PartialEq, Eq, Structural)]
pub enum BackendError {
    Network,
    Decode,
}

/// A backend's answer.
#[derive(Clone, Debug, PartialEq, Eq)]
pub enum BackendReply {
    Arrival(NextArrivalResponse),
    Spent(SpentResponse),
    Ledger(SpentTotalResponse),
    Forecast(Forecast),
    Summary(String),
}

/// The one fixed line that reports a failed call: its cause is not shown.
pub open spec fn failure_text(c: CallModel) -> Seq<char> {
    if c is Arrival {
        SCHEDULE_FAILURE@
    } else {
        API_FAILURE@
    }
}

/// The reply to an answer other than a forecast.
pub open spec fn reply_text(r: BackendReply) -> Seq<char> {
    match r {
        BackendReply::Arrival(a) => arrival_text(a),
        BackendReply::Spent(s) => "total: "@ + s.total@,
        BackendReply::Ledger(l) => ledger_text(l),
        BackendReply::Forecast(_) => Seq::empty(),
        BackendReply::Summary(t) => t@,
    }
}

/// The reply to the outcome of a backend call. Every outcome gives exactly one
/// reply; a failure gives the fixed line for the call, whatever its cause.
pub fn render_outcome(call: &BackendCall, outcome: &Result<BackendReply, BackendError>) -> (r: String)
    ensures
        *outcome is Err ==> r@ == failure_text(call@),
        *outcome matches Ok(rep) ==> (rep !is Forecast ==> r@ == reply_text(rep)),
        *outcome matches Ok(BackendReply::Forecast(f)) ==> exists|
            rise: Option<(u32, u32)>,
            set: Option<(u32, u32)>,
        |
            clock_for(f.sunrise, rise) && clock_for(f.sunset, set) && r@ == forecast_text(
                f,
                rise,
                set,
            ),
{
    match outcome {
        Err(_) => match call {
            BackendCall::Arrival(_) => String::from_str(SCHEDULE_FAILURE),
            _ => String::from_str(API_FAILURE),
        },
        Ok(BackendReply::Arrival(a)) => a.render(),
        Ok(BackendReply::Spent(s)) => s.render(),
        Ok(BackendReply::Ledger(l)) => l.render(),
        Ok(BackendReply::Forecast(f)) => forecast_reply(f),
        Ok(BackendReply::Summary(t)) => t.clone(),
    }
}

/// The label under which a message is counted: one per kind of request, none
/// for a message that is not recognised.
pub open spec fn label_of(i: IntentModel) -> Option<Seq<char>> {
    match i {
        IntentModel::Help => Some("Help"@),
        IntentModel::HelpTopic(HelpTopic::Schedule) => Some("Help schedule"@),
        IntentModel::HelpTopic(HelpTopic::Spending) => Some("Help spending"@),
        IntentModel::HelpTopic(HelpTopic::Weather) => Some("Help weather"@),
        IntentModel::NextArrival { .. } => Some("Next Arrival"@),
        IntentModel::Spending { .. } => Some("Spending"@),
        IntentModel::Weather(_) => Some("Weather"@),
        IntentModel::Summarize(_) => Some("Summarize"@),
        IntentModel::Unrecognized => None,
    }
}

/// The label under which a message of this intent is counted.
pub fn metric_label(intent: &Intent) -> (r: Option<&'static str>)
    ensures
        r is None <==> label_of(intent@) is None,
        r matches Some(l) ==> label_of(intent@) == Some(l@),
{
    match intent {
        Intent::Help => Some("Help"),
        Intent::HelpTopic(HelpTopic::Schedule) => Some("Help schedule"),
        Intent::HelpTopic(HelpTopic::Spending) => Some("Help spending"),
        Intent::HelpTopic(HelpTopic::Weather) => Some("Help weather"),
        Intent::NextArrival(_) => Some("Next Arrival"),
        Intent::Spending(_) => Some("Spending"),
        Intent::Weather(_) => Some("Weather"),
        Intent::Summarize(_) => Some("Summarize"),
        Intent::Unrecognized => None,
    }
}

/// Every text that starts with `east`, `west`, `East` or `West`, one
/// whitespace character and a character that is not whitespace asks for the
/// next arrival: the direction lower-cased, and the station the rest of the
/// text, trimmed and lower-cased (never empty before lower-casing).
pub proof fn lemma_direction_text_is_arrival(s: Seq<char>, has_link: bool)
    requires
        arrival_shape(s),
    ensures
        intent_of_text(s, has_link) == (IntentModel::NextArrival {
            station: lower_of(trim(s.subrange(5, s.len() as int))),
            direction: if starts_east(s) {
                seq!['e', 'a', 's', 't']
            } else {
                seq!['w', 'e', 's', 't']
            },
        }),
        trim(s.subrange(5, s.len() as int)).len() > 0,
{
    let c = s[0];
    assert(c == s.subrange(0, 4)[0]);
    assert(c == 'e' || c == 'E' || c == 'w' || c == 'W');
    reveal_strlit("Help");
    reveal_strlit("Help schedule");
    reveal_strlit("Help spending");
    reveal_strlit("Help weather");
    reveal_strlit("spent");
    reveal_strlit("Spent");
    reveal_strlit("budget");
    reveal_strlit("Budget");
    lemma_word_end_bounds(s, 0);
    if is_spent_verb(s) || is_budget_verb(s) {
        assert(first_word(s).len() >= 5);
        assert(c == first_word(s)[0]);
    }
    if s == "Help"@ || s == "Help schedule"@ || s == "Help spending"@ || s == "Help weather"@ {
        assert(c == 'H');
    }
    lemma_station_not_empty(s);
}

proof fn lemma_station_not_empty(s: Seq<char>)
    requires
        arrival_shape(s),
    ensures
        trim(s.subrange(5, s.len() as int)).len() > 0,
{
    let rest = s.subrange(5, s.len() as int);
    assert(rest[0] == s[5]);
    crate::arrival::lemma_trim_keeps_first(rest);
}

/// A ledger verb followed by an amount with a minus sign is no ledger request:
/// negative amounts fail the pattern itself.
pub proof fn lemma_negative_amount_not_spending(s: Seq<char>, has_link: bool)
    requires
        verb_then_blank(s),
        s.len() > action_start(s),
        s[action_start(s)] == '-',
    ensures
        intent_of_text(s, has_link) !is Spending,
{
    lemma_word_end_bounds(s, 0);
    let i = action_start(s);
    reveal_strlit("total");
    reveal_strlit("reset");
    if lit_at(s, i, "total"@) || lit_at(s, i, "reset"@) {
        assert(s[i] == s.subrange(i, i + 5)[0]);
    }
    lemma_word_end_bounds(s, i + 1);
    assert(crate::text::word_end(s, i) == crate::text::word_end(s, i + 1));
    let a = action_word(s);
    assert(a[0] == s[i]);
    if a == "total"@ || a == "reset"@ {
        assert(a[0] != '-');
    }
    assert(crate::amount::digit_run_end(a, 0) == 0);
}

/// Every `spent reset` or `Spent reset` message, with or without a category
/// after it, makes the same call: a reset of the ledger, which carries no
/// argument. Sending it again makes that call again.
pub proof fn lemma_reset_is_one_call(s: Seq<char>, has_link: bool)
    requires
        is_spent_verb(s),
        verb_then_blank(s),
        action_word(s) == "reset"@,
    ensures
        step_of(intent_of_text(s, has_link)) == StepModel::Call(CallModel::Reset),
{
    reveal_strlit("reset");
    reveal_strlit("spent");
    reveal_strlit("Spent");
    reveal_strlit("Help");
    reveal_strlit("Help schedule");
    reveal_strlit("Help spending");
    reveal_strlit("Help weather");
    lemma_word_end_bounds(s, 0);
    let c = s[0];
    assert(first_word(s).len() == 5);
    assert(c == first_word(s)[0]);
    if s == "Help"@ || s == "Help schedule"@ || s == "Help spending"@ || s == "Help weather"@ {
        assert(c == 'H');
    }
    let i = action_start(s);
    lemma_word_end_bounds(s, i);
    assert(action_word(s).len() == 5);
    assert(crate::text::word_end(s, i) == i + 5);
    assert(s.subrange(i, i + 5) == action_word(s));
    assert(lit_at(s, i, "reset"@));
    reveal_strlit("budget");
    reveal_strlit("Budget");
    assert(!is_budget_verb(s));
    assert(spent_shape(s));
}

} // verus!
