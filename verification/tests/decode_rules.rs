use junit2json::decode::{
    children_named, count_field, find_attribute, lines_field, once_field, text_field, time_field,
};
use junit2json::xml::parse_tree;
use junit2json::{
    from_str, DecodeError, Decimal, Detail, Properties, Property, TestCase, TestSuite, TestSuites,
    TestSuitesOrTestSuite, XmlElement,
};

fn text(s: &str) -> Option<String> {
    Some(s.to_string())
}

fn invalid(element: &str, attribute: &str) -> DecodeError {
    DecodeError::InvalidNumber { element: element.to_string(), attribute: attribute.to_string() }
}

fn repeated(element: &str) -> DecodeError {
    DecodeError::Repeated { element: element.to_string() }
}

fn bare(suite: TestSuite) -> TestSuitesOrTestSuite {
    TestSuitesOrTestSuite::TestSuite(Box::new(suite))
}

#[test]
fn root_of_another_name_is_refused_whatever_it_holds() {
    for (xml, tag) in [
        ("<unrecognized/>", "unrecognized"),
        ("<html><testsuite/></html>", "html"),
        ("<testcase name=\"c\"/>", "testcase"),
        ("<TestSuite/>", "TestSuite"),
        ("<testsuitess/>", "testsuitess"),
        ("<j:testsuite xmlns:j=\"x\"/>", "j:testsuite"),
        ("<properties/>", "properties"),
    ] {
        assert_eq!(from_str(xml), Err(DecodeError::UnrecognizedRoot { tag: tag.to_string() }));
    }
}

#[test]
fn text_that_is_not_xml_is_malformed() {
    for xml in ["", "not xml", "<testsuite>", "<testsuites><testsuite></testsuites>", "<testsuite name=x/>"] {
        assert_eq!(from_str(xml), Err(DecodeError::Malformed), "{:?}", xml);
    }
}

#[test]
fn bare_suite_is_a_document() {
    assert_eq!(
        from_str(r#"<testsuite name="alone" tests="3"/>"#),
        Ok(bare(TestSuite { name: text("alone"), tests: Some(3), ..Default::default() }))
    );
}

#[test]
fn every_attribute_of_a_wrapper_is_decoded() {
    assert_eq!(
        from_str(r#"<testsuites name="n" time="8.018" tests="12" failures="2" errors="1" other="x"/>"#),
        Ok(TestSuitesOrTestSuite::TestSuites(TestSuites {
            name: text("n"),
            time: Decimal::parse("8.018"),
            tests: Some(12),
            failures: Some(2),
            errors: Some(1),
            testsuite: None,
        }))
    );
}

#[test]
fn every_attribute_of_a_suite_is_decoded() {
    let xml = r#"<testsuite name="n" tests="1" failures="2" errors="3" group="g" time="4.5"
        disabled="6" skipped="7" timestamp="2020-01-12T16:33:13" hostname="h" id="i" package="p"
        file="f" log="l" url="u" unknown="ignored"/>"#;
    assert_eq!(
        from_str(xml),
        Ok(bare(TestSuite {
            name: text("n"),
            tests: Some(1),
            failures: Some(2),
            errors: Some(3),
            group: text("g"),
            time: Decimal::parse("4.5"),
            disabled: Some(6),
            skipped: Some(7),
            timestamp: text("2020-01-12T16:33:13"),
            hostname: text("h"),
            id: text("i"),
            package: text("p"),
            file: text("f"),
            log: text("l"),
            url: text("u"),
            ..Default::default()
        }))
    );
}

#[test]
fn every_field_of_a_case_is_decoded() {
    let xml = r#"<testsuite><testcase name="n" classname="c" assertions="2" time="0.414"
        status="s" file="f.rs" line="22" extra="x">
            <skipped message="sm" type="st">si</skipped>
            <error message="em" type="et">ei</error>
            <failure message="fm" type="ft">fi</failure>
            <system-out>o</system-out>
            <system-err>e</system-err>
        </testcase></testsuite>"#;
    assert_eq!(
        from_str(xml),
        Ok(bare(TestSuite {
            testcase: Some(vec![TestCase {
                name: text("n"),
                classname: text("c"),
                assertions: Some(2),
                time: Decimal::parse("0.414"),
                status: text("s"),
                file: text("f.rs"),
                line: Some(22),
                system_out: Some(vec!["o".to_string()]),
                system_err: Some(vec!["e".to_string()]),
                skipped: Some(Detail { message: text("sm"), kind: text("st"), inner: text("si") }),
                error: Some(Detail { message: text("em"), kind: text("et"), inner: text("ei") }),
                failure: Some(Detail { message: text("fm"), kind: text("ft"), inner: text("fi") }),
            }]),
            ..Default::default()
        }))
    );
}

#[test]
fn empty_attribute_is_present_and_empty() {
    assert_eq!(
        from_str(r#"<testsuite name="" hostname=''/>"#),
        Ok(bare(TestSuite { name: text(""), hostname: text(""), ..Default::default() }))
    );
}

#[test]
fn attribute_names_are_case_sensitive() {
    assert_eq!(from_str(r#"<testsuite Name="n" TESTS="x" Time="slow"/>"#), Ok(bare(TestSuite::default())));
}

#[test]
fn duration_is_kept_as_written() {
    assert_eq!(
        from_str(r#"<testsuite time="0.10"><testcase time="+1e3"/><testcase time=".5"/></testsuite>"#),
        Ok(bare(TestSuite {
            time: Decimal::parse("0.10"),
            testcase: Some(vec![
                TestCase { time: Decimal::parse("+1e3"), ..Default::default() },
                TestCase { time: Decimal::parse(".5"), ..Default::default() },
            ]),
            ..Default::default()
        }))
    );
}

#[test]
fn attribute_that_writes_no_number_is_an_error() {
    for (xml, element, attribute) in [
        (r#"<testsuites time="fast"/>"#, "testsuites", "time"),
        (r#"<testsuites tests="many"/>"#, "testsuites", "tests"),
        (r#"<testsuites failures="-1"/>"#, "testsuites", "failures"),
        (r#"<testsuites errors="1.5"/>"#, "testsuites", "errors"),
        (r#"<testsuite tests=""/>"#, "testsuite", "tests"),
        (r#"<testsuite failures="0x1"/>"#, "testsuite", "failures"),
        (r#"<testsuite errors=" 1"/>"#, "testsuite", "errors"),
        (r#"<testsuite time=""/>"#, "testsuite", "time"),
        (r#"<testsuite time="1,5"/>"#, "testsuite", "time"),
        (r#"<testsuite disabled="4294967296"/>"#, "testsuite", "disabled"),
        (r#"<testsuite skipped="one"/>"#, "testsuite", "skipped"),
        (r#"<testsuite><testcase assertions="a"/></testsuite>"#, "testcase", "assertions"),
        (r#"<testsuite><testcase time="1s"/></testsuite>"#, "testcase", "time"),
        (r#"<testsuite><testcase line="-3"/></testsuite>"#, "testcase", "line"),
        (r#"<testsuites><testsuite><testcase/><testcase line="x"/></testsuite></testsuites>"#, "testcase", "line"),
    ] {
        assert_eq!(from_str(xml), Err(invalid(element, attribute)), "{:?}", xml);
    }
}

#[test]
fn first_error_is_reported() {
    // the fields of an element in their order, whatever the order of the attributes
    assert_eq!(from_str(r#"<testsuite skipped="x" tests="y"/>"#), Err(invalid("testsuite", "tests")));
    assert_eq!(from_str(r#"<testsuites errors="x" time="y"/>"#), Err(invalid("testsuites", "time")));
    // an element before what it holds
    assert_eq!(
        from_str(r#"<testsuite><testcase line="x"/><properties/><properties/></testsuite>"#),
        Err(repeated("properties"))
    );
    assert_eq!(
        from_str(r#"<testsuites tests="x"><testsuite tests="y"/></testsuites>"#),
        Err(invalid("testsuites", "tests"))
    );
    // the first of the children that has one
    assert_eq!(
        from_str(r#"<testsuite><testcase/><testcase time="x"/><testcase line="y"/></testsuite>"#),
        Err(invalid("testcase", "time"))
    );
    // a text that is no XML before anything else
    assert_eq!(from_str(r#"<html tests="x"><a b=c/></html>"#), Err(DecodeError::Malformed));
}

#[test]
fn element_that_may_stand_once_is_refused_twice() {
    assert_eq!(
        from_str("<testsuite><properties/><testcase/><properties/></testsuite>"),
        Err(repeated("properties"))
    );
    for name in ["skipped", "error", "failure"] {
        let xml = format!("<testsuite><testcase><{0}/><{0}>again</{0}></testcase></testsuite>", name);
        assert_eq!(from_str(&xml), Err(repeated(name)));
    }
}

#[test]
fn unknown_elements_are_passed_over_with_what_they_hold() {
    let xml = r#"
        <testsuite>
            text between elements
            <extra tests="not looked at"><testcase name="inside"/><properties/></extra>
            <testsuite name="nested"/>
            <testcase name="real"><note><failure/></note><property name="stray"/></testcase>
        </testsuite>"#;
    assert_eq!(
        from_str(xml),
        Ok(bare(TestSuite {
            testcase: Some(vec![TestCase { name: text("real"), ..Default::default() }]),
            ..Default::default()
        }))
    );
}

#[test]
fn repeated_elements_keep_their_order_wherever_they_stand() {
    let xml = r#"
        <testsuites>
            <testsuite name="a">
                <testcase name="1"/>
                <system-out>first</system-out>
                <testcase name="2"/>
                <system-err>e</system-err>
                <system-out>second</system-out>
                <testcase name="3"/>
            </testsuite>
            <other/>
            <testsuite name="b"/>
        </testsuites>"#;
    assert_eq!(
        from_str(xml),
        Ok(TestSuitesOrTestSuite::TestSuites(TestSuites {
            testsuite: Some(vec![
                TestSuite {
                    name: text("a"),
                    system_out: Some(vec!["first".to_string(), "second".to_string()]),
                    system_err: Some(vec!["e".to_string()]),
                    testcase: Some(vec![
                        TestCase { name: text("1"), ..Default::default() },
                        TestCase { name: text("2"), ..Default::default() },
                        TestCase { name: text("3"), ..Default::default() },
                    ]),
                    ..Default::default()
                },
                TestSuite { name: text("b"), ..Default::default() },
            ]),
            ..Default::default()
        }))
    );
}

#[test]
fn detail_without_text_has_no_inner() {
    let xml = "<testsuite><testcase><skipped/><error>   </error><failure><![CDATA[ kept ]]></failure></testcase></testsuite>";
    assert_eq!(
        from_str(xml),
        Ok(bare(TestSuite {
            testcase: Some(vec![TestCase {
                skipped: Some(Detail::default()),
                error: Some(Detail::default()),
                failure: Some(Detail { inner: text(" kept "), ..Default::default() }),
                ..Default::default()
            }]),
            ..Default::default()
        }))
    );
}

#[test]
fn entity_references_are_resolved_in_texts_and_attributes() {
    let xml = r#"<testsuite name="a &amp; b"><testcase classname="x&lt;y&gt;">
        <failure message="&quot;no&quot;">1 &lt; 2 &#38; 3</failure>
        <system-out>&apos;out&apos;</system-out>
    </testcase></testsuite>"#;
    assert_eq!(
        from_str(xml),
        Ok(bare(TestSuite {
            name: text("a & b"),
            testcase: Some(vec![TestCase {
                classname: text("x<y>"),
                system_out: Some(vec!["'out'".to_string()]),
                failure: Some(Detail {
                    message: text("\"no\""),
                    inner: text("1 < 2 & 3"),
                    ..Default::default()
                }),
                ..Default::default()
            }]),
            ..Default::default()
        }))
    );
}

#[test]
fn properties_are_decoded_in_their_order() {
    let xml = r#"<testsuite><properties>
        <property name="a" value="1"/><property name="b"/><other/><property value="3" extra="x"/>
    </properties></testsuite>"#;
    assert_eq!(
        from_str(xml),
        Ok(bare(TestSuite {
            properties: Some(Properties {
                property: Some(vec![
                    Property { name: text("a"), value: text("1") },
                    Property { name: text("b"), value: None },
                    Property { name: None, value: text("3") },
                ]),
            }),
            ..Default::default()
        }))
    );
}

#[test]
fn tree_of_a_report_decodes_as_the_report_does() {
    let xml = r#"<testsuites name="w"><testsuite tests="2"><system-out/><testcase name="c"/></testsuite></testsuites>"#;
    let tree = parse_tree(xml).unwrap();
    let mut decoded = TestSuitesOrTestSuite::decode(&tree).unwrap();
    assert_eq!(
        decoded,
        TestSuitesOrTestSuite::TestSuites(TestSuites {
            name: text("w"),
            testsuite: Some(vec![TestSuite {
                tests: Some(2),
                system_out: Some(vec!["".to_string()]),
                testcase: Some(vec![TestCase { name: text("c"), ..Default::default() }]),
                ..Default::default()
            }]),
            ..Default::default()
        })
    );
    decoded.trim_empty_items();
    assert_eq!(Ok(decoded), from_str(xml));
}

fn sample() -> XmlElement {
    XmlElement {
        name: "p".to_string(),
        attributes: vec![
            ("a".to_string(), "1".to_string()),
            ("b".to_string(), "two".to_string()),
            ("a".to_string(), "3".to_string()),
            ("t".to_string(), "1.5e3".to_string()),
        ],
        text: String::new(),
        children: vec![
            XmlElement { name: "x".to_string(), attributes: vec![], text: "1".to_string(), children: vec![] },
            XmlElement { name: "y".to_string(), attributes: vec![], text: "2".to_string(), children: vec![] },
            XmlElement { name: "x".to_string(), attributes: vec![], text: "".to_string(), children: vec![] },
        ],
    }
}

#[test]
fn attribute_is_the_first_of_its_name() {
    let e = sample();
    assert_eq!(find_attribute(&e.attributes, "a"), Some(&"1".to_string()));
    assert_eq!(find_attribute(&e.attributes, "b"), Some(&"two".to_string()));
    assert_eq!(find_attribute(&e.attributes, "c"), None);
    assert_eq!(text_field(&e.attributes, "b"), text("two"));
    assert_eq!(text_field(&e.attributes, "B"), None);
}

#[test]
fn number_fields_are_checked() {
    let e = sample();
    assert_eq!(count_field(&e.attributes, "p", "a"), Ok(Some(1)));
    assert_eq!(count_field(&e.attributes, "p", "c"), Ok(None));
    assert_eq!(count_field(&e.attributes, "p", "b"), Err(invalid("p", "b")));
    assert_eq!(count_field(&e.attributes, "p", "t"), Err(invalid("p", "t")));
    assert_eq!(time_field(&e.attributes, "p", "t"), Ok(Decimal::parse("1.5e3")));
    assert_eq!(time_field(&e.attributes, "p", "t").unwrap().unwrap().as_str(), "1.5e3");
    assert_eq!(time_field(&e.attributes, "p", "a"), Ok(Decimal::parse("1")));
    assert_eq!(time_field(&e.attributes, "p", "c"), Ok(None));
    assert_eq!(time_field(&e.attributes, "p", "b"), Err(invalid("p", "b")));
}

#[test]
fn children_are_found_by_name() {
    let e = sample();
    assert_eq!(children_named(&e, "x"), vec![&e.children[0], &e.children[2]]);
    assert_eq!(children_named(&e, "z"), Vec::<&XmlElement>::new());
    assert_eq!(lines_field(&e, "x"), Some(vec!["1".to_string(), "".to_string()]));
    assert_eq!(lines_field(&e, "y"), Some(vec!["2".to_string()]));
    assert_eq!(lines_field(&e, "z"), None);
    assert_eq!(once_field(&e, "y"), Ok(Some(&e.children[1])));
    assert_eq!(once_field(&e, "z"), Ok(None));
    assert_eq!(once_field(&e, "x"), Err(repeated("x")));
}

#[test]
fn errors_say_what_failed() {
    assert_eq!(DecodeError::Malformed.message(), "the text is not well-formed XML");
    assert_eq!(
        DecodeError::UnrecognizedRoot { tag: "html".to_string() }.message(),
        "unrecognized root element `html`: expected `testsuites` or `testsuite`"
    );
    assert_eq!(
        invalid("testcase", "line").message(),
        "the attribute `line` of the element `testcase` is not a number"
    );
    assert_eq!(repeated("failure").message(), "the element `failure` stands more than once in its parent");
}

#[test]
fn white_space_inside_captured_output_is_kept() {
    let xml = "<testsuite>
        <system-out>first <![CDATA[second]]></system-out>
        <system-out>
            line one
              line two
        </system-out>
        <system-err><![CDATA[  kept as it is\n]]></system-err>
        <testcase><failure> before <!-- note --> after </failure></testcase>
    </testsuite>";
    assert_eq!(
        from_str(xml),
        Ok(bare(TestSuite {
            system_out: Some(vec![
                "first second".to_string(),
                "line one\n              line two".to_string(),
            ]),
            system_err: Some(vec!["  kept as it is\n".to_string()]),
            testcase: Some(vec![TestCase {
                failure: Some(Detail { inner: text("before  after"), ..Default::default() }),
                ..Default::default()
            }]),
            ..Default::default()
        }))
    );
}
