use chatbot::spending::{
    help_spending, is_spent_category_request, is_spent_request, parse_spent_request, Category,
    SpendingAction, SpentResponse, SpentTotalResponse, Transaction,
};

#[test]
fn test_is_spent_request() {
    assert_eq!(is_spent_request("spent total"), true);
    assert_eq!(is_spent_request("spent reset"), true);
    assert_eq!(is_spent_request("spent 0.01"), true);
    assert_eq!(is_spent_request("spent 1000"), true);
    assert_eq!(is_spent_request("spent -4"), false);
    assert_eq!(is_spent_request("spent 10.00 travel"), true);
}

#[test]
fn test_is_spent_category_request() {
    assert_eq!(is_spent_category_request("spent 10.00 dining"), true);
    assert_eq!(is_spent_category_request("spent 10.00 entertainment"), true);
    assert_eq!(is_spent_category_request("spent 10.00 merchandise"), true);
    assert_eq!(is_spent_category_request("spent 10.00 travel"), true);
    assert_eq!(is_spent_category_request("spent 10.00 other"), true);
    assert_eq!(is_spent_category_request("spent 10.00 grocery"), true);
    assert_eq!(is_spent_category_request("spent 10.00 something"), false);
    assert_eq!(is_spent_category_request("spent 10.00"), false);
}

#[test]
fn budget_verbs_and_short_amounts() {
    assert!(is_spent_request("budget 250.5"));
    assert!(is_spent_request("Budget 12"));
    assert!(is_spent_request("Spent 1.5"));
    assert!(is_spent_request("spent 5"));
    assert!(is_spent_request("budget 5"));
    assert!(is_spent_request("spent 4"));
    assert!(is_spent_request("spent .5"));
    assert!(is_spent_request("spent +3"));
    assert!(!is_spent_request("spent inf"));
    assert!(!is_spent_request("spent +-3"));
    assert!(!is_spent_request("spend 10.00"));
    assert!(!is_spent_request("spent"));
    assert!(!is_spent_request(""));
    assert!(is_spent_category_request("budget 300 dining"));
    assert!(!is_spent_category_request("spent -40 dining"));
    assert!(is_spent_category_request("spent 10. dining"));
    assert!(is_spent_category_request("spent 4 travel"));
    assert!(is_spent_category_request("spent 1e3 other"));
    assert!(!is_spent_category_request("spent 1e dining"));
    assert!(!is_spent_category_request("spent 1.2.3 dining"));
}

#[test]
fn parse_record_and_budget() {
    let q = parse_spent_request("spent 10.00", Some(Category::Travel));
    assert_eq!(q.action, SpendingAction::Record("10.00".to_string()));
    assert_eq!(q.category, Some(Category::Travel));
    let q = parse_spent_request("budget 300 dining", None);
    assert_eq!(q.action, SpendingAction::SetBudget("300".to_string()));
    assert_eq!(q.category, None);
}

#[test]
fn parse_total_reset_and_invalid() {
    assert_eq!(parse_spent_request("spent total", None).action, SpendingAction::Total);
    assert_eq!(parse_spent_request("spent reset", None).action, SpendingAction::Reset);
    assert_eq!(parse_spent_request("spent totally", None).action, SpendingAction::InvalidAmount);
    assert_eq!(parse_spent_request("budget total", None).action, SpendingAction::InvalidAmount);
    assert_eq!(parse_spent_request("spent 1.2.3", None).action, SpendingAction::InvalidAmount);
    assert_eq!(parse_spent_request("spent 10.00abc", None).action, SpendingAction::InvalidAmount);
    assert_eq!(parse_spent_request("foo bar", None).action, SpendingAction::InvalidAmount);
    assert_eq!(parse_spent_request("foo total", None).action, SpendingAction::Total);
}

#[test]
fn amounts_in_the_float_grammar() {
    let rec = |t: &str| parse_spent_request(&format!("spent {}", t), None).action;
    assert_eq!(rec("10e3"), SpendingAction::Record("10e3".to_string()));
    assert_eq!(rec("+4"), SpendingAction::Record("+4".to_string()));
    assert_eq!(rec(".5"), SpendingAction::Record(".5".to_string()));
    assert_eq!(rec("5."), SpendingAction::Record("5.".to_string()));
    assert_eq!(rec("1E-7"), SpendingAction::Record("1E-7".to_string()));
    assert_eq!(rec("0e999999999999999999999999"), SpendingAction::Record("0e999999999999999999999999".to_string()));
    assert_eq!(rec("1e-999999999999999999999999"), SpendingAction::Record("1e-999999999999999999999999".to_string()));
    assert_eq!(rec("."), SpendingAction::InvalidAmount);
    assert_eq!(rec("1e"), SpendingAction::InvalidAmount);
    assert_eq!(rec("1e+"), SpendingAction::InvalidAmount);
    assert_eq!(rec("++1"), SpendingAction::InvalidAmount);
    assert_eq!(
        parse_spent_request("budget 10e3", None).action,
        SpendingAction::SetBudget("10e3".to_string())
    );
}

#[test]
fn amounts_that_round_to_infinity_are_invalid() {
    let rec = |t: &str| parse_spent_request(&format!("spent {}", t), None).action;
    let limit = "179769313486231580793728971405303415079934132710037826936173778980444968292764750946649017977587207096330286416692887910946555547851940402630657488671505820681908902000708383676273854845817711531764475730270069855571366959622842914819860834936475292719074168444365510704342711559699508093042880177904174497792";
    let below = "179769313486231580793728971405303415079934132710037826936173778980444968292764750946649017977587207096330286416692887910946555547851940402630657488671505820681908902000708383676273854845817711531764475730270069855571366959622842914819860834936475292719074168444365510704342711559699508093042880177904174497791";
    let huge = "9".repeat(400);
    for t in [below, "1.7976931348623157e308", "17976931348623158e292", "0.1e309", "1e308"] {
        assert!(t.parse::<f64>().unwrap().is_finite());
        assert_eq!(rec(t), SpendingAction::Record(t.to_string()), "{}", t);
    }
    for t in [limit, huge.as_str(), "1e309", "2e308", "1.8e308", "1e99999999999999999999999"] {
        assert!(t.parse::<f64>().unwrap().is_infinite());
        assert_eq!(rec(t), SpendingAction::InvalidAmount, "{}", t);
    }
}

#[test]
fn category_names() {
    assert_eq!(Category::from_name("Dining"), Category::Dining);
    assert_eq!(Category::from_name("grocery"), Category::Grocery);
    assert_eq!(Category::from_name("entertainment"), Category::Entertainment);
    assert_eq!(Category::from_name("DINING"), Category::Other);
    assert_eq!(Category::from_name("diningroom"), Category::Other);
    assert_eq!(Category::Merchandise.name(), "Merchandise");
    assert_eq!(Category::Other.name(), "Other");
}

#[test]
fn ledger_replies() {
    let r = SpentResponse { total: "42.50".to_string() };
    assert_eq!(r.render(), "total: 42.50");
    let l = SpentTotalResponse {
        budget: "500".to_string(),
        total: "30".to_string(),
        transactions: vec![
            Transaction {
                amount: "20".to_string(),
                category: "Dining".to_string(),
                time: "t2".to_string(),
            },
            Transaction {
                amount: "10".to_string(),
                category: "Travel".to_string(),
                time: "t1".to_string(),
            },
        ],
    };
    assert_eq!(
        l.render(),
        format!("budget: 500\ntotal: 30\ntransactions: {:?}", l.transactions)
    );
    assert_eq!(
        l.render(),
        "budget: 500\ntotal: 30\ntransactions: [Transaction { amount: \"20\", category: \"Dining\", time: \"t2\" }, Transaction { amount: \"10\", category: \"Travel\", time: \"t1\" }]"
    );
    let quoted = SpentTotalResponse {
        budget: "1".to_string(),
        total: "2".to_string(),
        transactions: vec![Transaction {
            amount: "3".to_string(),
            category: "a\"b".to_string(),
            time: "x\ny".to_string(),
        }],
    };
    assert_eq!(
        quoted.render(),
        format!("budget: 1\ntotal: 2\ntransactions: {:?}", quoted.transactions)
    );
    let empty = SpentTotalResponse {
        budget: "0".to_string(),
        total: "0".to_string(),
        transactions: vec![],
    };
    assert_eq!(empty.render(), "budget: 0\ntotal: 0\ntransactions: []");
}

#[test]
fn spending_help_text() {
    assert_eq!(help_spending(), "Spending Tracker:\nspent total\nspent reset\nspent 10.67");
}
