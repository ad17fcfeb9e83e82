//! The overview.
use compas::dashboard::views::overview::gauge_bar;

#[test]
fn test_overview_gauge_bar_zero() {
    let bar = gauge_bar(0, 2);
    assert_eq!(bar, "[>         ]");
}

#[test]
fn test_overview_gauge_bar_half() {
    let bar = gauge_bar(1, 2);
    // ratio=0.5 → filled=5 → 4 `=` + `>` + 5 spaces
    assert_eq!(bar, "[====>     ]");
}

#[test]
fn test_overview_gauge_bar_full() {
    let bar = gauge_bar(2, 2);
    // ratio=1.0 → filled=10 → 9 `=` + `>` + 0 spaces
    assert_eq!(bar, "[=========>]");
}

#[test]
fn test_overview_gauge_bar_zero_max() {
    let bar = gauge_bar(0, 0);
    assert_eq!(bar, "[          ]");
}
