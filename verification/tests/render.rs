use labeller::app::App;
use labeller::example::{unlabelled, Example, LabelledExample};
use labeller::render::RenderState;

fn plain(text: &str) -> Example {
    Example { metadata: None, ground_truth: None, text: text.to_string() }
}

fn state(position: usize, total: usize) -> RenderState<'static> {
    RenderState { position, total, text: "", ground_truth: None, label: None }
}

#[test]
fn snapshot_of_first_entry() {
    let entries = vec![
        LabelledExample {
            example: Example {
                metadata: None,
                ground_truth: Some("reference".to_string()),
                text: "first text".to_string(),
            },
            label: Some("A".to_string()),
        },
        LabelledExample { example: plain("second text"), label: None },
        LabelledExample { example: plain("third text"), label: None },
    ];
    let app = App::new(entries, vec!["A".to_string()]).unwrap();
    let state = app.snapshot();
    assert_eq!(state.position, 1);
    assert_eq!(state.total, 3);
    assert_eq!(state.text, "first text");
    assert_eq!(state.ground_truth, Some("reference"));
    assert_eq!(state.ground_truth_text(), "reference");
    assert_eq!(state.label, Some("A"));
    assert_eq!(state.label_text(), "A");
    assert_eq!(state.percent(), 33);
}

#[test]
fn snapshot_marks_what_is_absent() {
    let app = App::new(unlabelled(vec![plain("only")]), vec!["A".to_string()]).unwrap();
    let state = app.snapshot();
    assert_eq!(state.position, 1);
    assert_eq!(state.total, 1);
    assert_eq!(state.text, "only");
    assert_eq!(state.ground_truth, None);
    assert_eq!(state.ground_truth_text(), "n/a");
    assert_eq!(state.label, None);
    assert_eq!(state.label_text(), "<None>");
    assert_eq!(state.percent(), 100);
}

#[test]
fn snapshot_follows_the_cursor_and_the_label() {
    let mut app = App::new(
        unlabelled(vec![plain("a"), plain("b"), plain("c")]),
        vec!["yes".to_string(), "no".to_string()],
    )
    .unwrap();
    app.move_next();
    app.cycle_label();
    app.cycle_label();
    {
        let state = app.snapshot();
        assert_eq!(state.position, 2);
        assert_eq!(state.total, 3);
        assert_eq!(state.text, "b");
        assert_eq!(state.label_text(), "no");
        assert_eq!(state.percent(), 66);
    }
    app.move_next();
    let state = app.snapshot();
    assert_eq!(state.position, 3);
    assert_eq!(state.text, "c");
    assert_eq!(state.label_text(), "<None>");
    assert_eq!(state.percent(), 100);
}

#[test]
fn snapshot_changes_nothing() {
    let mut app =
        App::new(unlabelled(vec![plain("a"), plain("b")]), vec!["A".to_string()]).unwrap();
    app.move_next();
    let first = app.snapshot().position;
    let second = app.snapshot().position;
    assert_eq!(first, second);
    assert_eq!(app.cursor(), 1);
    assert!(app.examples().iter().all(|e| e.label.is_none()));
}

#[test]
fn label_that_reads_like_the_marker_is_still_a_label() {
    let entries = vec![LabelledExample { example: plain("t"), label: Some("<None>".to_string()) }];
    let app = App::new(entries, vec!["A".to_string()]).unwrap();
    let state = app.snapshot();
    assert_eq!(state.label, Some("<None>"));
    assert_eq!(state.label_text(), "<None>");
}

#[test]
fn percent_rounds_down() {
    assert_eq!(state(1, 3).percent(), 33);
    assert_eq!(state(2, 3).percent(), 66);
    assert_eq!(state(3, 3).percent(), 100);
    assert_eq!(state(1, 7).percent(), 14);
    assert_eq!(state(6, 7).percent(), 85);
    assert_eq!(state(29, 100).percent(), 29);
    assert_eq!(state(1, 101).percent(), 0);
    assert_eq!(state(1, 100).percent(), 1);
    assert_eq!(state(199, 200).percent(), 99);
}

#[test]
fn percent_of_huge_totals() {
    assert_eq!(state(usize::MAX, usize::MAX).percent(), 100);
    assert_eq!(state(usize::MAX - 1, usize::MAX).percent(), 99);
    assert_eq!(state(usize::MAX / 2, usize::MAX).percent(), 49);
    assert_eq!(state(1, usize::MAX).percent(), 0);
}

#[test]
fn percent_is_between_0_and_100() {
    for total in 1..60usize {
        for position in 1..=total {
            let percent = state(position, total).percent();
            assert!(percent <= 100);
            assert_eq!(percent as usize, position * 100 / total);
        }
    }
}

#[test]
fn marker_texts() {
    let with_both = RenderState {
        position: 1,
        total: 1,
        text: "t",
        ground_truth: Some(""),
        label: Some(""),
    };
    assert_eq!(with_both.ground_truth_text(), "");
    assert_eq!(with_both.label_text(), "");
    assert_eq!(state(1, 1).ground_truth_text(), "n/a");
    assert_eq!(state(1, 1).label_text(), "<None>");
}
