use junit2json::cli::PossibleFilterTags;
use junit2json::{
    convert, from_str, DecodeError, Decimal, Detail, Json, Properties, Property, TestCase, TestSuite,
    TestSuites, TestSuitesOrTestSuite,
};
use serde_json::{Number, Value};

fn json_value(json: &Json) -> Value {
    match json {
        Json::Number(n) => Value::Number(Number::from(*n)),
        Json::Decimal(number) => {
            let seconds = number.as_str().parse::<f32>().unwrap();
            Number::from_f64(seconds as f64).map_or(Value::Null, Value::Number)
        }
        Json::Text(text) => Value::String(text.clone()),
        Json::Array(items) => Value::Array(items.iter().map(json_value).collect()),
        Json::Object(members) => {
            Value::Object(members.iter().map(|(key, value)| (key.clone(), json_value(value))).collect())
        }
    }
}

fn compact(json: &Json) -> String {
    serde_json::to_string(&json_value(json)).unwrap()
}

fn object(members: Vec<(&str, Json)>) -> Json {
    Json::Object(members.into_iter().map(|(key, value)| (key.to_string(), value)).collect())
}

fn decimal(s: &str) -> Json {
    Json::Decimal(Decimal::parse(s).unwrap())
}

fn string(s: &str) -> Json {
    Json::Text(s.to_string())
}

fn text(s: &str) -> Option<String> {
    Some(s.to_string())
}

#[test]
fn unset_fields_are_left_out() {
    let xml = r#"<testsuites><testsuite failures="1" tests="2"></testsuite></testsuites>"#;
    let json = from_str(xml).unwrap().to_json();
    assert_eq!(compact(&json), r#"{"testsuites":{"testsuite":[{"failures":1,"tests":2}]}}"#);
    assert_eq!(
        json,
        object(vec![(
            "testsuites",
            object(vec![(
                "testsuite",
                Json::Array(vec![object(vec![("tests", Json::Number(2)), ("failures", Json::Number(1))])])
            )])
        )])
    );
}

#[test]
fn failure_with_text_only_has_inner_only() {
    let xml = "<testsuite><testcase><failure>inner text</failure></testcase></testsuite>";
    let json = from_str(xml).unwrap().to_json();
    assert_eq!(compact(&json), r#"{"testsuite":{"testcase":[{"failure":{"inner":"inner text"}}]}}"#);
}

#[test]
fn bare_suite_is_wrapped_under_its_own_name() {
    let json = TestSuitesOrTestSuite::TestSuite(Box::new(TestSuite::default())).to_json();
    assert_eq!(json, object(vec![("testsuite", object(vec![]))]));
    let json = TestSuitesOrTestSuite::TestSuites(TestSuites::default()).to_json();
    assert_eq!(json, object(vec![("testsuites", object(vec![]))]));
}

#[test]
fn members_stand_in_the_order_of_the_fields() {
    let case = TestCase {
        name: text("n"),
        classname: text("c"),
        assertions: Some(1),
        time: Decimal::parse("0.5"),
        status: text("s"),
        file: text("f"),
        line: Some(2),
        system_out: Some(vec!["o1".to_string(), "o2".to_string()]),
        system_err: Some(vec![]),
        skipped: Some(Detail::default()),
        error: Some(Detail { message: text("m"), kind: text("t"), inner: text("i") }),
        failure: Some(Detail { kind: text("only"), ..Default::default() }),
    };
    let case_json = object(vec![
        ("name", string("n")),
        ("classname", string("c")),
        ("assertions", Json::Number(1)),
        ("time", decimal("0.5")),
        ("status", string("s")),
        ("file", string("f")),
        ("line", Json::Number(2)),
        ("system-out", Json::Array(vec![string("o1"), string("o2")])),
        ("system-err", Json::Array(vec![])),
        ("skipped", object(vec![])),
        ("error", object(vec![("message", string("m")), ("type", string("t")), ("inner", string("i"))])),
        ("failure", object(vec![("type", string("only"))])),
    ]);
    assert_eq!(case.to_json(), case_json);

    let suite = TestSuite {
        name: text("n"),
        tests: Some(1),
        failures: Some(2),
        errors: Some(3),
        group: text("g"),
        time: Decimal::parse("4.772"),
        disabled: Some(5),
        skipped: Some(6),
        timestamp: text("ts"),
        hostname: text("h"),
        id: text("i"),
        package: text("p"),
        file: text("f"),
        log: text("l"),
        url: text("u"),
        system_out: Some(vec!["o".to_string()]),
        system_err: Some(vec!["e".to_string()]),
        properties: Some(Properties {
            property: Some(vec![
                Property { name: text("k"), value: text("v") },
                Property { name: None, value: text("w") },
            ]),
        }),
        testcase: Some(vec![case, TestCase::default()]),
    };
    let suite_json = object(vec![
        ("name", string("n")),
        ("tests", Json::Number(1)),
        ("failures", Json::Number(2)),
        ("errors", Json::Number(3)),
        ("group", string("g")),
        ("time", decimal("4.772")),
        ("disabled", Json::Number(5)),
        ("skipped", Json::Number(6)),
        ("timestamp", string("ts")),
        ("hostname", string("h")),
        ("id", string("i")),
        ("package", string("p")),
        ("file", string("f")),
        ("log", string("l")),
        ("url", string("u")),
        ("system-out", Json::Array(vec![string("o")])),
        ("system-err", Json::Array(vec![string("e")])),
        (
            "properties",
            object(vec![(
                "property",
                Json::Array(vec![
                    object(vec![("name", string("k")), ("value", string("v"))]),
                    object(vec![("value", string("w"))]),
                ]),
            )]),
        ),
        ("testcase", Json::Array(vec![case_json, object(vec![])])),
    ]);
    assert_eq!(suite.to_json(), suite_json);

    let wrapper = TestSuites {
        name: text("w"),
        time: Decimal::parse("8.018"),
        tests: Some(12),
        failures: Some(2),
        errors: Some(0),
        testsuite: Some(vec![TestSuite::default()]),
    };
    assert_eq!(
        wrapper.to_json(),
        object(vec![
            ("name", string("w")),
            ("time", decimal("8.018")),
            ("tests", Json::Number(12)),
            ("failures", Json::Number(2)),
            ("errors", Json::Number(0)),
            ("testsuite", Json::Array(vec![object(vec![])])),
        ])
    );
}

#[test]
fn container_without_a_list_is_an_empty_object() {
    assert_eq!(Properties { property: None }.to_json(), object(vec![]));
    assert_eq!(
        Properties { property: Some(vec![]) }.to_json(),
        object(vec![("property", Json::Array(vec![]))])
    );
    assert_eq!(Property::default().to_json(), object(vec![]));
}

#[test]
fn conversion_decodes_normalizes_filters_and_emits() {
    let xml = r#"
        <testsuites name="all">
            <testsuite name="suite1" time="1.25">
                <properties><property/></properties>
                <system-out>suite out</system-out>
                <system-out/>
                <system-err>suite err</system-err>
                <testcase name="case1">
                    <system-out>case out</system-out>
                    <system-err/>
                    <system-err>case err</system-err>
                </testcase>
            </testsuite>
        </testsuites>"#;
    let case = |members: Vec<(&str, Json)>| {
        let mut all = vec![("name", string("case1"))];
        all.extend(members);
        object(all)
    };
    let document = |suite: Vec<(&str, Json)>| {
        let mut all = vec![("name", string("suite1")), ("time", decimal("1.25"))];
        all.extend(suite);
        object(vec![(
            "testsuites",
            object(vec![("name", string("all")), ("testsuite", Json::Array(vec![object(all)]))]),
        )])
    };
    let out = |s: &str| ("system-out", Json::Array(vec![string(s)]));
    let err = |s: &str| ("system-err", Json::Array(vec![string(s)]));

    assert_eq!(
        convert(xml, &[]),
        Ok(document(vec![
            out("suite out"),
            err("suite err"),
            ("testcase", Json::Array(vec![case(vec![out("case out"), err("case err")])])),
        ]))
    );
    assert_eq!(
        convert(xml, &[PossibleFilterTags::SystemOut]),
        Ok(document(vec![
            err("suite err"),
            ("testcase", Json::Array(vec![case(vec![err("case err")])])),
        ]))
    );
    assert_eq!(
        convert(xml, &[PossibleFilterTags::SystemErr]),
        Ok(document(vec![
            out("suite out"),
            ("testcase", Json::Array(vec![case(vec![out("case out")])])),
        ]))
    );
    assert_eq!(
        convert(xml, &[PossibleFilterTags::SystemErr, PossibleFilterTags::SystemOut]),
        Ok(document(vec![("testcase", Json::Array(vec![case(vec![])]))]))
    );
}

#[test]
fn conversion_fails_as_decoding_does() {
    assert_eq!(convert("<a/>", &[]), Err(DecodeError::UnrecognizedRoot { tag: "a".to_string() }));
    assert_eq!(convert("<testsuite>", &[PossibleFilterTags::SystemOut]), Err(DecodeError::Malformed));
    assert_eq!(
        convert(r#"<testsuite tests="two"/>"#, &[]),
        Err(DecodeError::InvalidNumber { element: "testsuite".to_string(), attribute: "tests".to_string() })
    );
}

#[test]
fn vacuous_elements_leave_no_trace() {
    for xml in [
        "<testsuite><properties/></testsuite>",
        "<testsuite><properties></properties></testsuite>",
        "<testsuite><properties><property/></properties></testsuite>",
        "<testsuite><properties><property/><property></property><property/></properties></testsuite>",
    ] {
        let json = from_str(xml).unwrap().to_json();
        assert_eq!(compact(&json), r#"{"testsuite":{}}"#, "{:?}", xml);
    }
    let xml = r#"<testsuite><properties><property/><property name="hello" value="bonjour"/></properties></testsuite>"#;
    assert_eq!(
        compact(&from_str(xml).unwrap().to_json()),
        r#"{"testsuite":{"properties":{"property":[{"name":"hello","value":"bonjour"}]}}}"#
    );
    let xml = "<testsuite><system-out/><system-out/><testcase><system-err></system-err></testcase></testsuite>";
    assert_eq!(
        compact(&from_str(xml).unwrap().to_json()),
        r#"{"testsuite":{"system-out":[],"testcase":[{"system-err":[]}]}}"#
    );
}

#[test]
fn durations_are_numbers() {
    let xml = r#"<testsuites time="8.018"><testsuite time="1"><testcase time="0.5e1"/></testsuite></testsuites>"#;
    assert_eq!(
        json_value(&from_str(xml).unwrap().to_json()),
        serde_json::from_str::<Value>(
            r#"{"testsuites":{"time":8.017999649047852,"testsuite":[{"time":1.0,"testcase":[{"time":5.0}]}]}}"#
        )
        .unwrap()
    );
}
