use labeller::example::{unlabelled, Example, LabelledExample};

#[test]
fn unlabelled_gives_every_entry_no_label() {
    let examples = vec![
        Example {
            metadata: Some(serde_json::Value::String("label: A".to_string())),
            ground_truth: Some("A".to_string()),
            text: "label".to_string(),
        },
        Example { metadata: None, ground_truth: None, text: String::new() },
        Example {
            metadata: serde_json::from_str::<serde_json::Value>("{\"label\": \"B\"}").ok(),
            ground_truth: Some("B".to_string()),
            text: "{\"label\": \"B\"}".to_string(),
        },
    ];
    let entries = unlabelled(examples);
    assert_eq!(entries.len(), 3);
    for entry in &entries {
        assert_eq!(entry.label, None);
    }
}

#[test]
fn unlabelled_keeps_order_and_content() {
    let meta = serde_json::from_str::<serde_json::Value>("{\"n\": [1, {\"k\": 2.5}]}").unwrap();
    let examples = vec![
        Example { metadata: None, ground_truth: None, text: "first".to_string() },
        Example {
            metadata: Some(meta.clone()),
            ground_truth: Some("truth".to_string()),
            text: "second".to_string(),
        },
        Example { metadata: None, ground_truth: Some(String::new()), text: "third".to_string() },
    ];
    let entries = unlabelled(examples);
    assert_eq!(entries.len(), 3);
    assert_eq!(entries[0].example.text, "first");
    assert_eq!(entries[0].example.metadata, None);
    assert_eq!(entries[0].example.ground_truth, None);
    assert_eq!(entries[1].example.text, "second");
    assert_eq!(entries[1].example.metadata, Some(meta));
    assert_eq!(entries[1].example.ground_truth.as_deref(), Some("truth"));
    assert_eq!(entries[2].example.text, "third");
    assert_eq!(entries[2].example.ground_truth.as_deref(), Some(""));
}

#[test]
fn unlabelled_of_nothing_is_nothing() {
    let entries: Vec<LabelledExample> = unlabelled(Vec::new());
    assert!(entries.is_empty());
}

#[test]
fn entries_show_in_debug_output() {
    let entry = LabelledExample {
        example: Example { metadata: None, ground_truth: None, text: "shown".to_string() },
        label: Some("A".to_string()),
    };
    let shown = format!("{:?}", entry);
    assert!(shown.contains("shown"));
    assert!(shown.contains("label"));
}
