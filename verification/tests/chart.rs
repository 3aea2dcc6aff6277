use treasuror::clock::Date;
use treasuror::model::chart::{
    coin_history, days_before_count, days_through_count, follow, is_followed, max_total_of, notable,
    push_days_span, track,
};
use treasuror::parser::Command;
use treasuror::model::Currency;

fn date(year: i32, month: u32, day: u32) -> Date {
    Date { year, month, day }
}

#[test]
fn day_counts() {
    assert_eq!(days_before_count(date(2021, 1, 30), date(2021, 2, 2)), 3);
    assert_eq!(days_before_count(date(2021, 2, 2), date(2021, 1, 30)), 0);
    assert_eq!(days_before_count(date(2021, 2, 2), date(2021, 2, 2)), 0);
    assert_eq!(days_through_count(date(2021, 2, 2), date(2021, 2, 2)), 1);
    assert_eq!(days_through_count(date(2020, 2, 28), date(2020, 3, 1)), 3);
    assert_eq!(days_through_count(date(2021, 2, 3), date(2021, 2, 2)), 0);
    assert_eq!(days_before_count(date(2021, 2, 30), date(2021, 3, 2)), 0);
}

#[test]
fn spans_cross_months() {
    let mut v = Vec::new();
    push_days_span(&mut v, date(2021, 1, 30), 1, 3, 7);
    assert_eq!(v, vec![(date(2021, 1, 31), 7), (date(2021, 2, 1), 7), (date(2021, 2, 2), 7)]);
    push_days_span(&mut v, date(2021, 12, 31), 0, 2, 9);
    assert_eq!(v[3], (date(2021, 12, 31), 9));
    assert_eq!(v[4], (date(2022, 1, 1), 9));
    assert_eq!(v.len(), 5);
}

#[test]
fn coin_history_of_steps() {
    let steps = vec![
        (date(2021, 1, 18), date(2021, 1, 20), 100),
        (date(2021, 1, 20), date(2021, 1, 20), 150),
        (date(2021, 1, 20), date(2021, 1, 21), 120),
    ];
    let h = coin_history(&steps, date(2021, 1, 21), date(2021, 1, 22), 130);
    assert_eq!(
        h,
        vec![
            (date(2021, 1, 19), 100),
            (date(2021, 1, 20), 100),
            (date(2021, 1, 21), 120),
            (date(2021, 1, 22), 130),
            (date(2021, 1, 23), 130),
        ]
    );
    assert_eq!(max_total_of(&steps), 150);
    assert_eq!(max_total_of(&Vec::new()), 0);
    assert_eq!(coin_history(&Vec::new(), date(2021, 1, 22), date(2021, 1, 21), 5), vec![]);
}

#[test]
fn notable_entities_sorted_by_lowercase_name() {
    let d = date(2021, 1, 18);
    let tracks = vec![
        ("zed".to_string(), vec![(d, 1900)], vec![(d, 0)]),
        ("Amy".to_string(), vec![(d, 2000), (d, 0)], vec![]),
        ("bob".to_string(), vec![(d, 1800)], vec![(d, 5000)]),
        ("Carl".to_string(), vec![], vec![(d, 3000)]),
        ("dee".to_string(), vec![(d, 1801)], vec![(d, 10)]),
    ];
    let r = notable(tracks);
    assert_eq!(
        r,
        vec![
            ("Amy".to_string(), vec![(d, 2000), (d, 0)]),
            ("dee".to_string(), vec![(d, 1801), (d, 10)]),
            ("zed".to_string(), vec![(d, 1900), (d, 0)]),
        ]
    );
    assert_eq!(notable(Vec::new()), vec![]);
}

#[test]
fn currency_from_str_knows_nine() {
    assert_eq!(Currency::from_str("cn"), Some(Currency::Coin));
    assert_eq!(Currency::from_str("xv"), Some(Currency::ExtraVote));
    assert_eq!(Currency::from_str("ws"), None);
    assert_eq!(Currency::from_str("vo"), None);
    assert_eq!(Currency::from_abbr("ws"), Some(Currency::Winsome));
    assert_eq!(Currency::from_abbr("vo"), Some(Currency::Votive));
    assert_eq!(Currency::from_str("zz"), None);
}

#[test]
fn followed_entities_follow_the_commands() {
    let mut t: Vec<(String, bool)> = Vec::new();
    follow(&mut t, "Alice");
    follow(&mut t, "Alice");
    assert_eq!(t, vec![("Alice".to_string(), true)]);
    track(&mut t, &Command::NewPlayer("Bob".to_string(), "Bob".to_string()));
    track(&mut t, &Command::NewContract("Shop".to_string(), "The Shop".to_string()));
    track(&mut t, &Command::NewPlayer("Bob".to_string(), "Bob".to_string()));
    track(&mut t, &Command::Deregister("Bob".to_string()));
    track(&mut t, &Command::Activate("Alice".to_string()));
    assert_eq!(
        t,
        vec![("Alice".to_string(), true), ("Bob".to_string(), false), ("Shop".to_string(), true)]
    );
    assert!(is_followed(&t, "Shop"));
    assert!(!is_followed(&t, "Carol"));
}
