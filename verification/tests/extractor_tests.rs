use wikigraph::events::XmlEvent;
use wikigraph::extractor::{extract_pages, PageExtractor, PipelineError, StepOutcome};

fn open(name: &[u8]) -> XmlEvent {
    XmlEvent::Open(name.to_vec())
}

fn close(name: &[u8]) -> XmlEvent {
    XmlEvent::Close(name.to_vec())
}

fn text(content: &[u8]) -> XmlEvent {
    XmlEvent::Text(content.to_vec())
}

#[test]
fn one_well_formed_pair_yields_one_page() {
    let events = vec![
        open(b"title"),
        text(b"Example"),
        close(b"title"),
        open(b"text"),
        text(b"Body text"),
        close(b"text"),
        XmlEvent::Eof,
    ];
    let pages = extract_pages(&events).unwrap();
    assert_eq!(pages.len(), 1);
    assert_eq!(pages[0].title, "Example");
    assert_eq!(pages[0].text, "Body text");
}

#[test]
fn surrounding_noise_is_ignored_while_searching() {
    let events = vec![
        XmlEvent::Other,
        open(b"mediawiki"),
        open(b"page"),
        open(b"title"),
        text(b"A"),
        close(b"title"),
        open(b"revision"),
        close(b"revision"),
        open(b"text"),
        text(b"B"),
        close(b"text"),
        close(b"page"),
        open(b"page"),
        open(b"title"),
        text(b"C"),
        close(b"title"),
        open(b"text"),
        text(b"D"),
        close(b"text"),
        close(b"page"),
        XmlEvent::Eof,
    ];
    let pages = extract_pages(&events).unwrap();
    assert_eq!(pages.len(), 2);
    assert_eq!(pages[0].title, "A");
    assert_eq!(pages[0].text, "B");
    assert_eq!(pages[1].title, "C");
    assert_eq!(pages[1].text, "D");
}

#[test]
fn entities_are_unescaped_in_captured_fields() {
    let events = vec![
        open(b"title"),
        text(b"Salt &amp; Pepper"),
        close(b"title"),
        open(b"text"),
        text(b"a &lt;b&gt; c"),
        close(b"text"),
        XmlEvent::Eof,
    ];
    let pages = extract_pages(&events).unwrap();
    assert_eq!(pages[0].title, "Salt & Pepper");
    assert_eq!(pages[0].text, "a <b> c");
}

#[test]
fn multibyte_content_is_decoded() {
    let events = vec![
        open(b"title"),
        text("Caf\u{e9}".as_bytes()),
        close(b"title"),
        open(b"text"),
        text("\u{fc}ber".as_bytes()),
        close(b"text"),
        XmlEvent::Eof,
    ];
    let pages = extract_pages(&events).unwrap();
    assert_eq!(pages[0].title, "Café");
    assert_eq!(pages[0].text, "über");
}

#[test]
fn invalid_utf8_content_is_a_decode_error() {
    let events = vec![open(b"title"), text(&[0xff, 0xfe]), close(b"title"), XmlEvent::Eof];
    let err = extract_pages(&events).unwrap_err();
    assert!(matches!(err, PipelineError::DecodeError));
}

#[test]
fn bad_entity_is_a_decode_error() {
    let events = vec![open(b"title"), text(b"a &nosuchentity; b"), close(b"title"), XmlEvent::Eof];
    let err = extract_pages(&events).unwrap_err();
    assert!(matches!(err, PipelineError::DecodeError));
}

#[test]
fn title_without_text_is_malformed() {
    let events = vec![
        open(b"title"),
        text(b"Orphan"),
        close(b"title"),
        XmlEvent::Other,
        close(b"page"),
        XmlEvent::Eof,
    ];
    let err = extract_pages(&events).unwrap_err();
    assert!(matches!(err, PipelineError::MalformedDocument { .. }));
}

#[test]
fn end_of_stream_inside_text_capture_is_malformed() {
    let events = vec![
        open(b"title"),
        text(b"T"),
        close(b"title"),
        open(b"text"),
        XmlEvent::Eof,
    ];
    let err = extract_pages(&events).unwrap_err();
    assert!(matches!(err, PipelineError::MalformedDocument { .. }));
}

#[test]
fn page_is_complete_at_text_content() {
    let events = vec![
        open(b"title"),
        text(b"T"),
        close(b"title"),
        open(b"text"),
        text(b"X"),
        XmlEvent::Eof,
    ];
    let pages = extract_pages(&events).unwrap();
    assert_eq!(pages.len(), 1);
    assert_eq!(pages[0].title, "T");
    assert_eq!(pages[0].text, "X");
}

#[test]
fn events_after_title_content_are_ignored_until_close() {
    let events = vec![
        open(b"title"),
        text(b"First"),
        XmlEvent::Other,
        text(b"Second"),
        close(b"other"),
        close(b"title"),
        open(b"text"),
        text(b"X"),
        close(b"text"),
        XmlEvent::Eof,
    ];
    let pages = extract_pages(&events).unwrap();
    assert_eq!(pages.len(), 1);
    assert_eq!(pages[0].title, "First");
    assert_eq!(pages[0].text, "X");
}

#[test]
fn only_first_text_run_is_authoritative() {
    let events = vec![
        open(b"title"),
        text(b"T"),
        close(b"title"),
        open(b"text"),
        text(b"First run"),
        XmlEvent::Other,
        text(b"Second run"),
        close(b"text"),
        XmlEvent::Eof,
    ];
    let pages = extract_pages(&events).unwrap();
    assert_eq!(pages.len(), 1);
    assert_eq!(pages[0].text, "First run");
}

#[test]
fn unexpected_event_while_capturing_title_is_malformed() {
    let events = vec![open(b"title"), open(b"b"), XmlEvent::Eof];
    let err = extract_pages(&events).unwrap_err();
    assert!(matches!(err, PipelineError::MalformedDocument { .. }));
}

#[test]
fn text_element_without_title_is_malformed() {
    let events = vec![open(b"text"), text(b"stray"), close(b"text"), XmlEvent::Eof];
    let err = extract_pages(&events).unwrap_err();
    assert!(matches!(err, PipelineError::MalformedDocument { .. }));
}

#[test]
fn tokenizer_failure_is_a_decode_error() {
    let events = vec![open(b"title"), XmlEvent::ReadError];
    let err = extract_pages(&events).unwrap_err();
    assert!(matches!(err, PipelineError::DecodeError));
}

#[test]
fn empty_event_stream_yields_zero_pages() {
    let pages = extract_pages(&vec![XmlEvent::Eof]).unwrap();
    assert!(pages.is_empty());
    let pages2 = extract_pages(&Vec::new()).unwrap();
    assert!(pages2.is_empty());
}

#[test]
fn incremental_machine_emits_page_and_resets() {
    let mut m = PageExtractor::new();
    assert!(matches!(m.advance(open(b"page")), StepOutcome::Proceed));
    assert!(matches!(m.advance(open(b"title")), StepOutcome::Proceed));
    assert!(matches!(m.advance(text(b"T")), StepOutcome::Proceed));
    assert!(matches!(m.advance(close(b"title")), StepOutcome::Proceed));
    assert!(matches!(m.advance(open(b"text")), StepOutcome::Proceed));
    match m.advance(text(b"X")) {
        StepOutcome::Emitted(p) => {
            assert_eq!(p.title, "T");
            assert_eq!(p.text, "X");
        },
        _ => panic!("expected an emitted page"),
    }
    assert!(matches!(m.advance(close(b"text")), StepOutcome::Proceed));
    assert!(matches!(m.advance(XmlEvent::Eof), StepOutcome::EndOfDocument));
}
