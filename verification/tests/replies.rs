use rustc_serialize::json::{ErrorCode, Json, ParserError};
use shiplift::events::{Event, Step};
use shiplift::json::{Field, Item, Reply};
use shiplift::rep::{BuildOutput, Fault, ProgressDetail, PullInfo, PullOutput, Status};
use shiplift::{Error, Image};

fn deleted(text: &str) -> Result<Vec<Status>, Error> {
    assert!(Reply::can_parse(text));
    Image::deleted(text)
}

fn text(name: &str, value: &str) -> (String, Field) {
    (name.to_owned(), Field::Text(value.to_owned()))
}

fn other(name: &str) -> (String, Field) {
    (name.to_owned(), Field::Other)
}

#[test]
fn removed_layers_are_reported_in_order() {
    assert_eq!(
        deleted("[{\"Untagged\": \"3e2f21a89f\"},\n {\"Deleted\": \"3e2f21a89f\"}, {\"Deleted\":\"53b4f83ac9\"}]"),
        Ok(vec![
            Status::Untagged("3e2f21a89f".to_owned()),
            Status::Deleted("3e2f21a89f".to_owned()),
            Status::Deleted("53b4f83ac9".to_owned()),
        ])
    );
    assert_eq!(deleted("[]"), Ok(vec![]));
}

#[test]
fn untagged_goes_first() {
    assert_eq!(deleted("[{\"Deleted\":\"a\",\"Untagged\":\"b\",\"More\":{\"x\":[1,null,2.5e3]}}]"),
               Ok(vec![Status::Untagged("b".to_owned())]));
}

#[test]
fn escapes_in_names_are_resolved() {
    assert_eq!(deleted("[{\"\\u0055ntagged\":\"a\\\"\\u00e9\\\\\"}]"),
               Ok(vec![Status::Untagged("a\"\u{e9}\\".to_owned())]));
}

#[test]
fn the_last_of_two_fields_in_a_text_counts() {
    assert_eq!(deleted("[{\"Untagged\":\"a\",\"Untagged\":\"b\"}]"),
               Ok(vec![Status::Untagged("b".to_owned())]));
}

#[test]
fn a_reply_that_is_not_json_is_an_error() {
    assert_eq!(deleted(""),
               Err(Error::Json(ParserError::SyntaxError(ErrorCode::EOFWhileParsingValue, 1, 1))));
    assert_eq!(deleted("[1 2]"),
               Err(Error::Json(ParserError::SyntaxError(ErrorCode::InvalidSyntax, 1, 4))));
}

#[test]
fn a_reply_of_another_form_is_a_fault() {
    let fault = |text: &str| match deleted(text) {
        Err(Error::Unexpected(fault)) => fault,
        other => panic!("{:?}", other),
    };
    assert_eq!(fault("{}"), Fault::NotArray);
    assert_eq!(fault("null"), Fault::NotArray);
    assert_eq!(fault("[\"Untagged\"]"), Fault::NotObject);
    assert_eq!(fault("[{\"Untagged\":1}]"), Fault::UntaggedNotString);
    assert_eq!(fault("[{\"Deleted\":null}]"), Fault::DeletedNotString);
    assert_eq!(fault("[{\"Untagged\":\"a\",\"Deleted\":true}]"), Fault::DeletedNotString);
    assert_eq!(fault("[{\"Untagged\":[],\"Deleted\":true}]"), Fault::UntaggedNotString);
    assert_eq!(fault("[{\"untagged\":\"a\"}]"), Fault::NoStatus);
    assert_eq!(fault("[{\"Untagged\":\"a\"},{},3]"), Fault::NoStatus);
}

#[test]
fn texts_that_cannot_be_parsed_are_not_supported() {
    assert_eq!(Image::deleted("[1e99999999999999999999]"), Err(Error::Unsupported));
    let named = format!("{{\"{}\":1}}", "n".repeat(65536));
    assert_eq!(Image::deleted(&named), Err(Error::Unsupported));
}

#[test]
fn values_may_nest_to_any_depth() {
    let arrays = format!("{}{}", "[".repeat(100000), "]".repeat(100000));
    let deep = format!("[{{\"a\":{},\"Deleted\":\"b\",\"c\":{}}}]", arrays, arrays);
    assert_eq!(deleted(&deep), Ok(vec![Status::Deleted("b".to_owned())]));
    assert_eq!(deleted(&format!("[{{\"Untagged\":{}}}]", arrays)),
               Err(Error::Unexpected(Fault::UntaggedNotString)));
    assert_eq!(deleted(&format!("[{}]", arrays)), Err(Error::Unexpected(Fault::NotObject)));
    assert!(matches!(deleted(&"[".repeat(100000)), Err(Error::Json(_))));
    let objects = format!("{}1{}", "{\"\":".repeat(100000), "}".repeat(100000));
    assert_eq!(deleted(&objects), Err(Error::Unexpected(Fault::NotArray)));
    assert_eq!(deleted(&format!("[{{\"a\":{},\"Untagged\":\"b\"}}]", objects)),
               Ok(vec![Status::Untagged("b".to_owned())]));
}

#[test]
fn exponents_are_bounded_by_their_value() {
    let with = |number: &str| format!("[{{\"Deleted\":\"a\",\"n\":{}}}]", number);
    let read = Ok(vec![Status::Deleted("a".to_owned())]);
    for number in ["1e0000000001", "-2.5E+12345678901", "1e000000000000000000000000000000-0",
                   "1e18446744073709551615", "0E-18446744073709551615"] {
        assert!(Reply::can_parse(&with(number)), "{}", number);
    }
    assert_eq!(deleted(&with("1e0000000001")), read);
    assert_eq!(deleted(&with("-2.5E+12345678901")), read);
    assert_eq!(deleted(&with("1e18446744073709551615")), read);
    assert!(!Reply::can_parse(&with("1e18446744073709551616")));
    assert!(!Reply::can_parse(&with("1.5E-18446744073709551616")));
    assert!(Reply::can_parse("[\"1e18446744073709551616\", true, 18446744073709551616]"));
}

#[test]
fn a_comma_before_the_end_of_an_object_is_an_error() {
    let trailing = |column: usize| {
        Err(Error::Json(ParserError::SyntaxError(ErrorCode::TrailingCharacters, 1, column)))
    };
    assert_eq!(deleted("[{\"Deleted\":\"a\",}]"), trailing(18));
    assert_eq!(deleted("[[{\"a\":1,}],5]"), trailing(12));
    assert_eq!(deleted("{\"a\":1,}"),
               Err(Error::Json(ParserError::SyntaxError(ErrorCode::TrailingComma, 1, 8))));
    assert_eq!(deleted("[{\"Deleted\":\"a\",}"), Err(Error::Unfinished));
    assert_eq!(deleted("[{\"k\":{\"a\":1,},5]"), Err(Error::Unfinished));
    assert_eq!(deleted("[{\"k\":{\"a\":1,}]"), Err(Error::Unfinished));
}

/// A value of the JSON library as a reply.
fn reply(value: Json) -> Reply {
    let field = |value: Json| match value {
        Json::String(text) => Field::Text(text),
        _ => Field::Other,
    };
    let item = |value: Json| match value {
        Json::Object(fields) => {
            Item::Object(fields.into_iter().map(|(name, value)| (name, field(value))).collect())
        }
        _ => Item::Other,
    };
    match value {
        Json::Array(values) => Reply::Array(values.into_iter().map(item).collect()),
        _ => Reply::Other,
    }
}

#[test]
fn replies_are_read_as_json_values_are() {
    let pieces = ["", "[", "]", "{", "}", ",", ":", "\"Deleted\"", "\"a\"", "1", "null", "\"\\u00e9\"",
                  "{\"Untagged\":\"b\"}", "[[],{}]", "\"x\":{\"Deleted\":\"c\"}", " "];
    let size = pieces.len();
    for choice in 0..size.pow(4) {
        let inner: String = (0..4).map(|place| pieces[choice / size.pow(place) % size]).collect();
        for text in [format!("[{}]", inner), format!("[{{{}}}]", inner), inner] {
            if text.contains(",}") || text.contains(", }") {
                continue;
            }
            let expected = match Json::from_str(&text) {
                Ok(value) => Status::from_reply(&reply(value)).map_err(Error::Unexpected),
                Err(error) => Err(Error::Json(error)),
            };
            assert_eq!(deleted(&text), expected, "{}", text);
        }
    }
}

fn step(event: Event, key: Option<&str>) -> Step {
    Step { event, key: key.map(|key| key.to_owned()) }
}

#[test]
fn steps_make_a_reply() {
    let string = |text: &str, key: Option<&str>| step(Event::Text(text.to_owned()), key);
    let steps = vec![
        step(Event::ArrayStart, None),
        step(Event::ObjectStart, None),
        string("b", Some("a")),
        step(Event::ObjectStart, Some("c")),
        string("e", Some("d")),
        step(Event::End, Some("c")),
        step(Event::Other, Some("f")),
        step(Event::End, None),
        step(Event::Other, None),
        step(Event::ArrayStart, None),
        string("g", None),
        step(Event::End, None),
        step(Event::End, None),
    ];
    let fields = vec![text("a", "b"), other("c"), other("f")];
    assert_eq!(Reply::from_steps(steps),
               Ok(Reply::Array(vec![Item::Object(fields), Item::Other, Item::Other])));
    assert_eq!(Reply::from_steps(vec![string("a", None)]), Ok(Reply::Other));
    assert_eq!(Reply::from_steps(vec![step(Event::ObjectStart, None), step(Event::End, None)]),
               Ok(Reply::Other));
    assert_eq!(Reply::from_steps(vec![]), Err(Error::Unfinished));
    assert_eq!(Reply::from_steps(vec![step(Event::ArrayStart, None)]), Err(Error::Unfinished));
    let first = || ParserError::SyntaxError(ErrorCode::InvalidSyntax, 1, 2);
    let second = ParserError::SyntaxError(ErrorCode::TrailingCharacters, 3, 4);
    let errors = vec![step(Event::Other, None), step(Event::Error(first()), None),
                      step(Event::Error(second), None)];
    assert_eq!(Reply::from_steps(errors), Err(Error::Json(first())));
}

#[test]
fn the_names_of_open_fields_fit_together() {
    let name = |letter: &str, count: usize| letter.repeat(count);
    let nested = |outer: &str, inner: &str| format!("[{{\"{}\":{{\"{}\":1}}}}]", outer, inner);
    assert!(Reply::can_parse(&nested(&name("n", 65535), "")));
    assert!(!Reply::can_parse(&nested(&name("n", 65536), "")));
    assert!(Reply::can_parse(&nested(&name("n", 65534), "m")));
    assert!(!Reply::can_parse(&nested(&name("n", 65535), "m")));
    assert!(Reply::can_parse(&nested(&name("\u{e9}", 32767), "m")));
    assert!(!Reply::can_parse(&nested(&name("\u{e9}", 32768), "")));
    assert!(Reply::can_parse(&nested(&name("\u{20ac}", 21845), "")));
    assert!(!Reply::can_parse(&nested(&name("\u{20ac}", 21845), "m")));
    assert!(Reply::can_parse(&nested(&name("\u{10FFFF}", 16383), "mmm")));
    assert!(!Reply::can_parse(&nested(&name("\u{10FFFF}", 16383), "mmmm")));
    assert!(Reply::can_parse(&nested(&name("\\n", 65535), "")));
    assert!(!Reply::can_parse(&nested(&name("\\n", 65535), "m")));
    assert!(Reply::can_parse(&nested(&name("\\u0041", 65534), "m")));
    assert!(!Reply::can_parse(&nested(&name("\\u0041", 65535), "m")));
    assert!(Reply::can_parse(&nested(&name("\\u07fF", 32767), "m")));
    assert!(!Reply::can_parse(&nested(&name("\\u07fF", 32767), "mm")));
    assert!(Reply::can_parse(&nested(&name("\\u0800", 21845), "")));
    assert!(!Reply::can_parse(&nested(&name("\\uFfFf", 21845), "m")));
    assert!(Reply::can_parse(&nested(&name("\\ud83d\\ude00", 16383), "mmm")));
    assert!(!Reply::can_parse(&nested(&name("\\ud83d\\ude00", 16383), "mmmm")));
    let long = name("n", 65000);
    let row = format!("[{{\"{}\":1,\"{}\":{{}}}},{{\"{}\":2}}]", long, long, long);
    assert!(Reply::can_parse(&row));
    assert!(Reply::can_parse(&format!("[\"{}\"]", name("v", 100000))));
}

#[test]
fn the_longest_names_that_fit_are_parsed() {
    let read = Ok(vec![Status::Deleted("a".to_owned())]);
    for (outer, inner) in [("n".repeat(65534), "m"), ("\\u0041".repeat(65535), ""),
                           ("\\ud83d\\ude00".repeat(16383), "mmm")] {
        let long = format!("[{{\"{}\":{{\"{}\":1}},\"Deleted\":\"a\"}}]", outer, inner);
        assert_eq!(deleted(&long), read);
    }
    let open = format!("{{\"{}\":", "\u{10FFFF}".repeat(127));
    let deep = format!("{}1{}", open.repeat(128), "}".repeat(128));
    assert_eq!(deleted(&deep), Err(Error::Unexpected(Fault::NotArray)));
}

#[test]
fn build_output_is_a_log_or_an_error() {
    let output = |fields: Vec<(String, Field)>| BuildOutput::from_item(&Item::Object(fields));
    assert_eq!(output(vec![text("stream", "Step 1")]), Ok(BuildOutput::Stream("Step 1".to_owned())));
    assert_eq!(output(vec![other("errorDetail"), text("error", "no")]),
               Ok(BuildOutput::Error("no".to_owned())));
    assert_eq!(output(vec![text("error", "no"), text("stream", "Step 1")]),
               Ok(BuildOutput::Stream("Step 1".to_owned())));
    assert_eq!(output(vec![text("stream", "a"), text("stream", "b")]),
               Ok(BuildOutput::Stream("b".to_owned())));
    assert_eq!(output(vec![other("stream")]), Err(Fault::StreamNotString));
    assert_eq!(output(vec![other("error")]), Err(Fault::ErrorNotString));
    assert_eq!(output(vec![text("stream", "a"), other("error")]), Err(Fault::ErrorNotString));
    assert_eq!(output(vec![text("status", "a")]), Err(Fault::NoBuildOutput));
    assert_eq!(BuildOutput::from_item(&Item::Other), Err(Fault::NotObject));
}

fn info() -> PullInfo {
    PullInfo {
        id: Some("latest".to_owned()),
        status: "Downloading".to_owned(),
        progress: Some("[=>  ]".to_owned()),
        progressDetail: Some(ProgressDetail { current: 1, total: 4 }),
    }
}

#[test]
fn pull_output_is_a_status_or_an_error() {
    let status = PullOutput::Status {
        id: Some("latest".to_owned()),
        status: "Downloading".to_owned(),
        progress: Some("[=>  ]".to_owned()),
        progress_detail: Some(ProgressDetail { current: 1, total: 4 }),
    };
    let plain = Item::Object(vec![text("status", "Downloading")]);
    let failed = Item::Object(vec![text("error", "no such image")]);
    assert_eq!(PullOutput::from_item(Some(info()), &plain), Ok(status));
    assert_eq!(PullOutput::from_item(None, &failed),
               Ok(PullOutput::Error("no such image".to_owned())));
    assert!(matches!(PullOutput::from_item(Some(info()), &failed), Ok(PullOutput::Status { .. })));
    assert_eq!(PullOutput::from_item(None, &plain), Err(Fault::NoPullOutput));
    assert_eq!(PullOutput::from_item(Some(info()), &Item::Object(vec![other("error")])),
               Err(Fault::ErrorNotString));
    assert_eq!(PullOutput::from_item(Some(info()), &Item::Other), Err(Fault::NotObject));
}

#[test]
fn statuses_are_read_one_by_one() {
    assert_eq!(Status::from_item(&Item::Object(vec![text("Deleted", "a")])),
               Ok(Status::Deleted("a".to_owned())));
    assert_eq!(Status::from_item(&Item::Other), Err(Fault::NotObject));
    assert_eq!(Status::from_reply(&Reply::Other), Err(Fault::NotArray));
    assert_eq!(Status::from_reply(&Reply::Array(vec![Item::Object(vec![text("Untagged", "a")])])),
               Ok(vec![Status::Untagged("a".to_owned())]));
}

#[test]
fn faults_say_what_was_expected() {
    let messages = [
        (Fault::NotArray, "internal error: entered unreachable code"),
        (Fault::NotObject, "expected json object"),
        (Fault::UntaggedNotString, "expected Untagged to be a string"),
        (Fault::DeletedNotString, "expected Deleted to be a string"),
        (Fault::NoStatus, "expected Untagged or Deleted"),
        (Fault::StreamNotString, "expected stream to be a string"),
        (Fault::ErrorNotString, "expected error to be a string"),
        (Fault::NoBuildOutput, "expected build output stream or error"),
        (Fault::NoPullOutput, "expected pull status or error"),
    ];
    for (fault, message) in messages {
        assert_eq!(fault.message(), message);
    }
}
