//! The bridge: callback sequences replayed through the adapter into the
//! channel, and the streams the consumer drains out of it.

use sax::adapter::{replay, Callback};
use sax::channel::EventChannel;
use sax::error::{xmlError, ErrorLevel, XML_ERR_FATAL};
use sax::{well_formed, ParseEvent, ParseResult};

/// The callback sequence the foreign parser drives for
/// `"<hello><this /><a foo=\"bar\">test</a></hello>"`.
fn hello_fixture() -> Vec<Callback> {
    vec![
        Callback::StartDocument,
        Callback::StartElement("hello".to_string(), vec![]),
        Callback::StartElement("this".to_string(), vec![]),
        Callback::EndElement("this".to_string()),
        Callback::StartElement(
            "a".to_string(),
            vec![Some("foo".to_string()), Some("bar".to_string())],
        ),
        Callback::Characters("test".to_string()),
        Callback::EndElement("a".to_string()),
        Callback::EndElement("hello".to_string()),
        Callback::EndDocument,
    ]
}

/// The callback sequence the foreign parser drives for a root carrying a
/// namespace declaration around `<this />` and `<test:a foo="bar">test</test:a>`.
/// Element names keep their literal prefixed form: the bridge resolves no
/// namespace prefixes.
fn namespace_fixture() -> Vec<Callback> {
    vec![
        Callback::StartDocument,
        Callback::StartElement(
            "hello".to_string(),
            vec![
                Some("xmlns:test".to_string()),
                Some("http://www.test.org/test".to_string()),
            ],
        ),
        Callback::Characters("\n            ".to_string()),
        Callback::StartElement("this".to_string(), vec![]),
        Callback::EndElement("this".to_string()),
        Callback::StartElement(
            "test:a".to_string(),
            vec![Some("foo".to_string()), Some("bar".to_string())],
        ),
        Callback::Characters("test".to_string()),
        Callback::EndElement("test:a".to_string()),
        Callback::EndElement("hello".to_string()),
        Callback::EndDocument,
    ]
}

fn drain(mut ch: EventChannel) -> Vec<ParseResult> {
    ch.drain()
}

fn element_names(results: &[ParseResult]) -> Vec<String> {
    let mut tags = Vec::new();
    for r in results {
        match r {
            Ok(ParseEvent::StartElement(name, _)) => tags.push(name.clone()),
            Ok(ParseEvent::EndElement(name)) => tags.push(format!("/{}", name)),
            _ => {}
        }
    }
    tags
}

#[test]
fn sax_test() {
    let mut sax = replay(hello_fixture());
    loop {
        match sax.recv() {
            Some(Ok(ParseEvent::StartDocument)) => (),
            Some(Ok(ParseEvent::EndDocument)) => break,
            Some(Ok(event)) => println!("{}", event.to_text()),
            Some(Err(err)) => println!("{}", err.to_text()),
            None => panic!("stream ended without EndDocument"),
        }
    }
}

#[test]
fn lib_test() {
    let mut sax = replay(hello_fixture());
    loop {
        match sax.recv() {
            Some(Ok(ParseEvent::StartDocument)) => (),
            Some(Ok(ParseEvent::EndDocument)) => break,
            Some(Ok(event)) => println!("{}", event.to_text()),
            Some(Err(err)) => println!("{}", err.to_text()),
            None => panic!("stream ended without EndDocument"),
        }
    }
}

#[test]
fn test_traversal_elements() {
    let results = drain(replay(hello_fixture()));
    let tags = element_names(&results);
    let t: Vec<&str> = tags.iter().map(|t| t.as_str()).collect();
    assert_eq!(t.as_slice(), &["hello", "this", "/this", "a", "/a", "/hello"]);
}

#[test]
fn test_traversal_elements_with_namespace() {
    let results = drain(replay(namespace_fixture()));
    let tags = element_names(&results);
    let t: Vec<&str> = tags.iter().map(|t| t.as_str()).collect();
    assert_eq!(t.as_slice(), &["hello", "this", "/this", "test:a", "/test:a", "/hello"]);
}

#[test]
fn stream_carries_payloads_in_order() {
    let results = drain(replay(hello_fixture()));
    assert_eq!(results.len(), 9);
    assert_eq!(results[0], Ok(ParseEvent::StartDocument));
    match &results[4] {
        Ok(ParseEvent::StartElement(name, atts)) => {
            assert_eq!(name, "a");
            assert_eq!(atts.find("foo"), Some("bar"));
        }
        other => panic!("unexpected entry: {:?}", other),
    }
    assert_eq!(results[5], Ok(ParseEvent::Characters("test".to_string())));
    assert_eq!(results[8], Ok(ParseEvent::EndDocument));
}

#[test]
fn well_formed_accepts_the_fixture_stream() {
    let results = drain(replay(hello_fixture()));
    let events: Vec<ParseEvent> = results.into_iter().map(|r| r.unwrap()).collect();
    assert!(well_formed(&events));
}

#[test]
fn well_formed_rejects_mismatched_nesting() {
    let events = vec![
        ParseEvent::StartDocument,
        ParseEvent::StartElement("a".to_string(), sax::Attributes(Vec::new())),
        ParseEvent::EndElement("b".to_string()),
        ParseEvent::EndDocument,
    ];
    assert!(!well_formed(&events));
}

#[test]
fn well_formed_rejects_unclosed_element() {
    let events = vec![
        ParseEvent::StartDocument,
        ParseEvent::StartElement("a".to_string(), sax::Attributes(Vec::new())),
        ParseEvent::EndDocument,
    ];
    assert!(!well_formed(&events));
}

#[test]
fn replaying_the_same_input_twice_gives_equal_streams() {
    let first = drain(replay(hello_fixture()));
    let second = drain(replay(hello_fixture()));
    assert_eq!(first, second);
    let first_ns = drain(replay(namespace_fixture()));
    let second_ns = drain(replay(namespace_fixture()));
    assert_eq!(first_ns, second_ns);
}

/// The foreign grammar does not accept an empty document: rather than a
/// bare `StartDocument`/`EndDocument` pair, the parser reports a fatal
/// "document is empty" diagnostic before any structure. This fixture
/// records that behaviour; the bridge forwards the error-terminated stream
/// as it is told.
#[test]
fn empty_input_yields_error_terminated_stream() {
    let calls = vec![Callback::StructuredError(xmlError {
        domain: 1,
        code: 4,
        message: "Document is empty\n".to_string(),
        level: XML_ERR_FATAL,
        file: String::new(),
        line: 1,
        str1: String::new(),
        str2: String::new(),
        str3: String::new(),
        int1: 0,
        int2: 1,
    })];
    let results = drain(replay(calls));
    assert_eq!(results.len(), 1);
    match &results[0] {
        Err(err) => {
            assert_eq!(err.level, ErrorLevel::Fatal);
            assert_eq!(err.line, 1);
        }
        other => panic!("unexpected entry: {:?}", other),
    }
}

/// A trivially accepted document reaches the consumer as exactly a
/// `StartDocument`/`EndDocument` pair.
#[test]
fn bare_document_pair_passes_through_exactly() {
    let results = drain(replay(vec![Callback::StartDocument, Callback::EndDocument]));
    assert_eq!(
        results,
        vec![Ok(ParseEvent::StartDocument), Ok(ParseEvent::EndDocument)]
    );
}

#[test]
fn drain_takes_everything_in_order_and_empties_the_channel() {
    let mut ch = EventChannel::new();
    ch.send(Ok(ParseEvent::StartDocument));
    ch.send(Ok(ParseEvent::Comment("c".to_string())));
    ch.send(Ok(ParseEvent::EndDocument));
    let all = ch.drain();
    assert_eq!(
        all,
        vec![
            Ok(ParseEvent::StartDocument),
            Ok(ParseEvent::Comment("c".to_string())),
            Ok(ParseEvent::EndDocument),
        ]
    );
    assert_eq!(ch.len(), 0);
    assert_eq!(ch.recv(), None);
}

#[test]
fn channel_is_first_in_first_out() {
    let mut ch = EventChannel::new();
    assert_eq!(ch.len(), 0);
    assert_eq!(ch.recv(), None);
    ch.send(Ok(ParseEvent::StartDocument));
    ch.send(Ok(ParseEvent::Characters("x".to_string())));
    ch.send(Ok(ParseEvent::EndDocument));
    assert_eq!(ch.len(), 3);
    assert_eq!(ch.recv(), Some(Ok(ParseEvent::StartDocument)));
    assert_eq!(ch.recv(), Some(Ok(ParseEvent::Characters("x".to_string()))));
    assert_eq!(ch.recv(), Some(Ok(ParseEvent::EndDocument)));
    assert_eq!(ch.recv(), None);
}
