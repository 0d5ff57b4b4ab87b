use csv_translator::{Action, Event, Record, Session, PAUSE_MILLIS};

fn row(code: &str, label: &str) -> Record {
    Record { code: code.to_string(), label: label.to_string(), label_en: None, label_de: None }
}

/// Drives a session over `rows`; `service` answers each translation request
/// or fails. Returns the rows written, the pauses asked for, and whether
/// the run failed.
fn drive(
    rows: Vec<Record>,
    limit: Option<u16>,
    mut service: impl FnMut(&str, &str) -> Result<String, ()>,
) -> (Vec<Record>, Vec<u64>, bool) {
    let mut s = Session::new(limit);
    let mut input = rows.into_iter();
    let mut written = Vec::new();
    let mut pauses = Vec::new();
    let mut event = match input.next() {
        Some(r) => Event::Row(r),
        None => Event::EndOfInput,
    };
    loop {
        assert!(s.accepts(&event));
        match s.step(event) {
            Action::Translate { text, target_lang } => match service(&text, &target_lang) {
                Ok(t) => event = Event::Translated(t),
                Err(()) => return (written, pauses, true),
            },
            Action::Pause { millis } => {
                pauses.push(millis);
                event = Event::Resumed;
            }
            Action::Write(r) => {
                written.push(r);
                event = match input.next() {
                    Some(r) => Event::Row(r),
                    None => Event::EndOfInput,
                };
            }
            Action::Finish => {
                assert!(s.is_done());
                return (written, pauses, false);
            }
        }
    }
}

fn fake(text: &str, lang: &str) -> Result<String, ()> {
    Ok(format!("{}:{}", lang, text))
}

#[test]
fn limit_two_of_three_rows() {
    let rows = vec![row("A", "un"), row("B", "deux"), row("C", "trois")];
    let (written, _, failed) = drive(rows, Some(2), fake);
    assert!(!failed);
    assert_eq!(written.len(), 2);
    assert_eq!(written[0], Record {
        code: "A".to_string(),
        label: "un".to_string(),
        label_en: Some("EN:un".to_string()),
        label_de: Some("DE:un".to_string()),
    });
    assert_eq!(written[1].code, "B");
    assert_eq!(written[1].label_en, Some("EN:deux".to_string()));
    assert_eq!(written[1].label_de, Some("DE:deux".to_string()));
    assert!(written.iter().all(|r| r.code != "C"));
}

#[test]
fn no_limit_translates_every_row_in_order() {
    let rows: Vec<Record> = (0..5).map(|i| row(&format!("R{}", i), &format!("texte {}", i))).collect();
    let (written, pauses, failed) = drive(rows.clone(), None, fake);
    assert!(!failed);
    assert_eq!(written.len(), 5);
    for (w, r) in written.iter().zip(rows.iter()) {
        assert_eq!(w.code, r.code);
        assert_eq!(w.label, r.label);
    }
    assert_eq!(pauses, vec![PAUSE_MILLIS; 10]);
    assert_eq!(PAUSE_MILLIS, 500);
}

#[test]
fn limit_zero_writes_nothing() {
    let (written, pauses, failed) = drive(vec![row("A", "un")], Some(0), fake);
    assert!(!failed);
    assert!(written.is_empty());
    assert!(pauses.is_empty());
}

#[test]
fn empty_input_finishes_at_once() {
    let (written, _, failed) = drive(Vec::new(), Some(10), fake);
    assert!(!failed);
    assert!(written.is_empty());
}

#[test]
fn limit_above_row_count_writes_all() {
    let rows = vec![row("A", "un"), row("B", "deux")];
    let (written, _, _) = drive(rows, Some(60000), fake);
    assert_eq!(written.len(), 2);
}

#[test]
fn service_failure_keeps_only_finished_rows() {
    let rows = vec![row("A", "un"), row("B", "deux"), row("C", "trois")];
    let mut calls = 0;
    let (written, _, failed) = drive(rows, None, |t, l| {
        calls += 1;
        if calls == 4 { Err(()) } else { fake(t, l) }
    });
    assert!(failed);
    assert_eq!(written.len(), 1);
    assert_eq!(written[0].code, "A");
}

#[test]
fn english_is_asked_before_german() {
    let mut s = Session::new(Some(1));
    assert_eq!(s.step(Event::Row(row("A", "un"))), Action::Translate {
        text: "un".to_string(),
        target_lang: "EN".to_string(),
    });
    assert_eq!(s.step(Event::Translated("one".to_string())), Action::Pause { millis: 500 });
    assert_eq!(s.step(Event::Resumed), Action::Translate {
        text: "un".to_string(),
        target_lang: "DE".to_string(),
    });
    assert_eq!(s.step(Event::Translated("eins".to_string())), Action::Pause { millis: 500 });
    assert_eq!(s.step(Event::Resumed), Action::Write(Record {
        code: "A".to_string(),
        label: "un".to_string(),
        label_en: Some("one".to_string()),
        label_de: Some("eins".to_string()),
    }));
    assert_eq!(s.translated(), 1);
    assert_eq!(s.step(Event::Row(row("B", "deux"))), Action::Finish);
    assert!(s.is_done());
}

#[test]
fn events_out_of_turn_are_not_accepted() {
    let mut s = Session::new(None);
    assert!(!s.accepts(&Event::Resumed));
    assert!(!s.accepts(&Event::Translated("x".to_string())));
    assert!(s.accepts(&Event::EndOfInput));
    s.step(Event::Row(row("A", "un")));
    assert!(!s.accepts(&Event::Row(row("B", "deux"))));
    assert!(!s.accepts(&Event::Resumed));
    assert!(s.accepts(&Event::Translated("one".to_string())));
    let mut done = Session::new(None);
    assert_eq!(done.step(Event::EndOfInput), Action::Finish);
    assert!(!done.accepts(&Event::EndOfInput));
}

#[test]
fn empty_translation_is_written_as_empty() {
    let (written, _, _) = drive(vec![row("A", "?")], None, |_, _| Ok(String::new()));
    assert_eq!(written[0].label_en, Some(String::new()));
    assert_eq!(written[0].label_de, Some(String::new()));
}
