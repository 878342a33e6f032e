use chatbot::arrival::{
    help_schedule, is_next_arrival_request, next_arrival_query, NextArrivalResponse,
};
use chatbot::dispatch::{
    classify, classify_text, decide, helpmsg, metric_label, render_outcome, BackendCall, BackendError,
    BackendReply, Intent, Message, SpentRequest, Step, WeatherQuery, HelpTopic,
};
use chatbot::forecast::{
    exclude_blocks, help_weather, is_weather_request, render_forecast, weather_mode,
    ExcludeBlock, Forecast, WeatherMode,
};
use chatbot::spending::{
    help_spending, Category, SpendingAction, SpentResponse,
};

fn reply_of(text: &str) -> Step {
    decide(classify_text(text, false))
}

#[test]
fn direction_text_is_next_arrival() {
    assert!(is_next_arrival_request("East Union"));
    assert!(is_next_arrival_request("west\tfvh"));
    assert!(!is_next_arrival_request("east "));
    assert!(!is_next_arrival_request("eastward bound"));
    assert!(!is_next_arrival_request("north union"));
    match classify_text("East Forest PARK  ", false) {
        Intent::NextArrival(q) => {
            assert_eq!(q.direction, "east");
            assert_eq!(q.station, "forest park");
        }
        other => panic!("unexpected {:?}", other),
    }
    assert!(is_next_arrival_request("East\u{A0}Union"));
    assert!(is_next_arrival_request("East #5"));
    match classify_text("west\u{2003}Delmar\u{3000}\u{A0}", false) {
        Intent::NextArrival(q) => {
            assert_eq!(q.direction, "west");
            assert_eq!(q.station, "delmar");
        }
        other => panic!("unexpected {:?}", other),
    }
    let q = next_arrival_query("West 8th Pine");
    assert_eq!(q.direction, "west");
    assert_eq!(q.station, "8th pine");
}

#[test]
fn category_spending_wins_over_plain() {
    match classify_text("spent 10.00 dining", false) {
        Intent::Spending(q) => {
            assert_eq!(q.action, SpendingAction::Record("10.00".to_string()));
            assert_eq!(q.category, Some(Category::Dining));
        }
        other => panic!("unexpected {:?}", other),
    }
    match classify_text("spent 10.00 something", false) {
        Intent::Spending(q) => {
            assert_eq!(q.action, SpendingAction::Record("10.00".to_string()));
            assert_eq!(q.category, None);
        }
        other => panic!("unexpected {:?}", other),
    }
}

#[test]
fn negative_amount_is_not_spending() {
    assert_eq!(classify_text("spent -4", false), Intent::Unrecognized);
    assert_eq!(classify_text("spent -40.5", false), Intent::Unrecognized);
    assert_eq!(reply_of("spent -4"), Step::Silent);
}

#[test]
fn help_commands_reply_with_fixed_text() {
    assert_eq!(reply_of("Help"), Step::Reply(helpmsg().to_string()));
    assert_eq!(reply_of("Help schedule"), Step::Reply(help_schedule().to_string()));
    assert_eq!(reply_of("Help spending"), Step::Reply(help_spending().to_string()));
    assert_eq!(reply_of("Help weather"), Step::Reply(help_weather().to_string()));
    assert_eq!(
        helpmsg(),
        "Use the following for additional details:\nhelp schedule\nhelp spending\nhelp weather"
    );
    assert!(help_schedule().starts_with("Next Arrival:\n"));
    assert!(help_weather().starts_with("Weather examples:"));
    assert_eq!(classify_text("help", false), Intent::Unrecognized);
    assert_eq!(classify_text("Help ", false), Intent::Unrecognized);
    assert_eq!(classify_text("Help weather", false), Intent::HelpTopic(HelpTopic::Weather));
}

#[test]
fn reset_is_the_same_call_every_time() {
    assert_eq!(reply_of("spent reset"), Step::Call(BackendCall::Reset));
    assert_eq!(reply_of("spent reset"), Step::Call(BackendCall::Reset));
    assert_eq!(reply_of("spent total"), Step::Call(BackendCall::Total));
}

#[test]
fn network_failure_renders_fixed_text() {
    let call = BackendCall::Reset;
    assert_eq!(render_outcome(&call, &Err(BackendError::Network)), "error calling api");
    assert_eq!(render_outcome(&call, &Err(BackendError::Decode)), "error calling api");
    let arrival = match reply_of("east union") {
        Step::Call(c) => c,
        other => panic!("unexpected {:?}", other),
    };
    assert_eq!(
        render_outcome(&arrival, &Err(BackendError::Network)),
        "An error occurred retrieving the schedule"
    );
}

#[test]
fn calls_for_amounts() {
    assert_eq!(
        reply_of("spent 12.5 grocery"),
        Step::Call(BackendCall::Record(SpentRequest {
            amount: "12.5".to_string(),
            category: Some(Category::Grocery),
        }))
    );
    assert_eq!(
        reply_of("budget 400"),
        Step::Call(BackendCall::SetBudget(SpentRequest {
            amount: "400".to_string(),
            category: None,
        }))
    );
    assert_eq!(
        reply_of("spent 10.00abc"),
        Step::Reply("cannot parse that value as float".to_string())
    );
}

#[test]
fn successful_replies() {
    let a = NextArrivalResponse {
        station: "union".to_string(),
        direction: "east".to_string(),
        line: "red".to_string(),
        time: "10:05".to_string(),
    };
    assert_eq!(a.render(), "station: union\ndirection: east\nline: red\ntime: 10:05");
    let call = BackendCall::Total;
    let spent = BackendReply::Spent(SpentResponse { total: "7".to_string() });
    assert_eq!(render_outcome(&call, &Ok(spent)), "total: 7");
    let summary = BackendReply::Summary("short".to_string());
    assert_eq!(render_outcome(&BackendCall::Summarize("x".to_string()), &Ok(summary)), "short");
}

#[test]
fn weather_requests() {
    assert_eq!(weather_mode("weather now"), Some(WeatherMode::Now));
    assert_eq!(weather_mode("Weather\ttoday please"), Some(WeatherMode::Today));
    assert_eq!(weather_mode("weather"), None);
    assert_eq!(weather_mode("WEATHER now"), Some(WeatherMode::Now));
    assert_eq!(weather_mode("wEaThEr\u{3000}today"), Some(WeatherMode::Today));
    assert_eq!(weather_mode("weathers now"), None);
    assert!(is_weather_request("weather today"));
    assert!(!is_weather_request("weather tomorrow"));
    assert_eq!(
        reply_of("weather now"),
        Step::Call(BackendCall::Forecast(WeatherQuery { mode: Some(WeatherMode::Now), at_location: false }))
    );
    assert_eq!(
        exclude_blocks(Some(WeatherMode::Now)),
        vec![ExcludeBlock::Minutely, ExcludeBlock::Flags, ExcludeBlock::Daily, ExcludeBlock::Hourly]
    );
    assert_eq!(
        exclude_blocks(Some(WeatherMode::Today)),
        vec![ExcludeBlock::Minutely, ExcludeBlock::Flags, ExcludeBlock::Currently]
    );
    assert_eq!(exclude_blocks(None), vec![ExcludeBlock::Minutely, ExcludeBlock::Flags]);
}

#[test]
fn location_and_links() {
    let loc = Message { text: None, has_location: true, has_link: false };
    assert_eq!(classify(&loc), Intent::Weather(WeatherQuery { mode: None, at_location: true }));
    let nothing = Message { text: None, has_location: false, has_link: false };
    assert_eq!(classify(&nothing), Intent::Unrecognized);
    let link = Message {
        text: Some("read https://example.org/a".to_string()),
        has_location: false,
        has_link: true,
    };
    assert_eq!(classify(&link), Intent::Summarize("read https://example.org/a".to_string()));
    let plain = Message { text: Some("hello there".to_string()), has_location: true, has_link: false };
    assert_eq!(decide(classify(&plain)), Step::Silent);
}

#[test]
fn forecast_fields_in_order() {
    let f = Forecast {
        alerts: None,
        current_summary: Some("Clear".to_string()),
        temperature: Some("71.3".to_string()),
        wind_gust: None,
        hourly_summary: Some("Mild".to_string()),
        high: Some("80".to_string()),
        low: None,
        sunrise: Some(0),
        sunset: None,
    };
    assert_eq!(
        render_forecast(&f, Some((6, 5)), None),
        "Curently: Clear\nTemp: 71.3\nToday: Mild\nHigh: 80\nSunrise: 6:5 AM\n"
    );
    let g = Forecast {
        alerts: Some("storm".to_string()),
        current_summary: None,
        temperature: None,
        wind_gust: Some("30".to_string()),
        hourly_summary: None,
        high: None,
        low: Some("50".to_string()),
        sunrise: None,
        sunset: Some(0),
    };
    assert_eq!(
        render_forecast(&g, None, Some((19, 42))),
        "Alerts: storm\nWind gust: 30\nLow: 50\nSunset: 7:42 PM"
    );
    let reply = render_outcome(
        &BackendCall::Forecast(WeatherQuery { mode: None, at_location: true }),
        &Ok(BackendReply::Forecast(g)),
    );
    assert!(reply.starts_with("Alerts: storm\nWind gust: 30\nLow: 50\nSunset: "));
    assert!(reply.ends_with(" PM"));
    let rise = Forecast { sunset: None, sunrise: Some(1_600_000_000), ..f };
    let reply = render_outcome(
        &BackendCall::Forecast(WeatherQuery { mode: Some(WeatherMode::Today), at_location: false }),
        &Ok(BackendReply::Forecast(rise)),
    );
    assert!(reply.contains("\nSunrise: "));
    assert!(reply.ends_with(" AM\n"));
}

#[test]
fn metric_labels_per_request_kind() {
    assert_eq!(metric_label(&classify_text("Help", false)), Some("Help"));
    assert_eq!(metric_label(&classify_text("Help spending", false)), Some("Help spending"));
    assert_eq!(metric_label(&classify_text("west union", false)), Some("Next Arrival"));
    assert_eq!(metric_label(&classify_text("budget 100 travel", false)), Some("Spending"));
    assert_eq!(metric_label(&classify_text("weather today", false)), Some("Weather"));
    assert_eq!(metric_label(&classify_text("see https://a.b", true)), Some("Summarize"));
    assert_eq!(metric_label(&classify_text("good morning", false)), None);
}
