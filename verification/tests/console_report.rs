use savanna_smell_detector::model::smell::{SmellType, TestSmell};
use savanna_smell_detector::reporters::{console_segments, severity_bar_of, Paint};

fn seg(text: &str, paint: Paint) -> (String, Paint) {
    (text.to_string(), paint)
}

#[test]
fn console_layout_of_one_smell() {
    let smells = vec![
        TestSmell::new(SmellType::SleepyTest, "tests/a.rs", 9, Some("test_wait".to_string())).with_message("zzz"),
    ];
    let segs = console_segments(&smells);
    assert_eq!(
        segs,
        vec![
            seg("\n🦁  1 test smell(s) detected:\n\n", Paint::Plain),
            seg("  ", Paint::Plain),
            seg("██░", Paint::Yellow),
            seg(" ", Paint::Plain),
            seg("Sleepy Test", Paint::Bold),
            seg(" ", Paint::Plain),
            seg("tests/a.rs:9 in test_wait", Paint::Dimmed),
            seg("\n", Paint::Plain),
            seg("    💬 zzz\n\n", Paint::Plain),
            seg("  ", Paint::Plain),
            seg("— t_wada の前でも同じこと言えんの？", Paint::DimmedItalic),
            seg("\n", Paint::Plain),
        ]
    );
}

#[test]
fn console_layout_with_nothing_found() {
    assert_eq!(
        console_segments(&[]),
        vec![
            seg("\n", Paint::Plain),
            seg("✓", Paint::Green),
            seg("  No test smells detected. Even t_wada would approve.\n", Paint::Plain),
        ]
    );
}

#[test]
fn severity_bars() {
    assert_eq!(severity_bar_of(5), ("███", Paint::RedBold));
    assert_eq!(severity_bar_of(4), ("██░", Paint::Red));
    assert_eq!(severity_bar_of(2), ("█░░", Paint::Yellow));
    assert_eq!(severity_bar_of(1), ("░░░", Paint::White));
}
