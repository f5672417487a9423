use junit2json::Json;
use serde_json::{Number, Value};

fn value_of(json: &Json) -> Value {
    match json {
        Json::Number(n) => Value::Number(Number::from(*n)),
        Json::Decimal(number) => {
            let seconds = number.as_str().parse::<f32>().unwrap();
            Number::from_f64(seconds as f64).map_or(Value::Null, Value::Number)
        }
        Json::Text(text) => Value::String(text.clone()),
        Json::Array(items) => Value::Array(items.iter().map(value_of).collect()),
        Json::Object(members) => {
            Value::Object(members.iter().map(|(key, value)| (key.clone(), value_of(value))).collect())
        }
    }
}

fn expected(text: &str) -> Value {
    serde_json::from_str(text).unwrap()
}

#[test]
  // Test when testsuites.testsuite has some fields
fn testsuite_has_some_fields () {
  let xml = r#"
      <?xml version="1.0" encoding="UTF-8"?>
      <testsuites>
          <testsuite failures="1" tests="2">
          </testsuite>
      </testsuites>
  "#;
  let expect = expected(r#"{
      "testsuites": {
          "testsuite": [
              {
                  "failures": 1,
                  "tests": 2
              }
          ]
      }
  }"#);

  let actual = junit2json::from_str(xml).unwrap();
  let actual_json_value = value_of(&actual.to_json());
  assert_eq!(actual_json_value, expect);
}

  #[test]
  // Test when testcase.failure has inner text
  fn testcase_failure_has_inner() {
    let xml = r#"
        <?xml version="1.0" encoding="UTF-8"?>
        <testsuites>
            <testsuite tests="1">
                <testcase>
                    <failure>inner text</failure>
                </testcase>
            </testsuite>
        </testsuites>
    "#;
    let expect = expected(r#"{
        "testsuites": {
            "testsuite": [
                {
                    "tests": 1,
                    "testcase": [
                        {
                          "failure": {
                            "inner": "inner text"
                            }
                        }
                    ]
                }
            ]
        }
    }"#);

    let actual = junit2json::from_str(xml).unwrap();
    let actual_json_value = value_of(&actual.to_json());
    assert_eq!(actual_json_value, expect);
  }

  #[test]
  // Test when testcase has skiped test
  fn skipped_testcase() {
    let xml = r#"
        <?xml version="1.0" encoding="UTF-8"?>
        <testsuites>
            <testsuite tests="1" skipped="1">
                <testcase>
                    <skipped message="skip reason" />
                </testcase>
            </testsuite>
        </testsuites>
    "#;
    let expect = expected(r#"{
        "testsuites": {
            "testsuite": [
                {
                    "tests": 1,
                    "skipped": 1,
                    "testcase": [
                        {
                          "skipped": {
                            "message": "skip reason"
                            }
                        }
                    ]
                }
            ]
        }
    }"#);

    let actual = junit2json::from_str(xml).unwrap();
    let actual_json_value = value_of(&actual.to_json());
    assert_eq!(actual_json_value, expect);
  }

  #[test]
  // Test when testcase.system-out has inner text
  fn testcase_system_out_has_inner() {
    let xml = r#"
        <?xml version="1.0" encoding="UTF-8"?>
        <testsuites>
            <testsuite>
                <testcase>
                <system-out>system out text</system-out>
                </testcase>
            </testsuite>
        </testsuites>
    "#;
    let expect = expected(r#"{
      "testsuites": {
          "testsuite": [
              {
                  "testcase": [
                      {
                          "system-out": ["system out text"]
                      }
                  ]
              }
          ]
      }}"#);

    let actual = junit2json::from_str(xml).unwrap();
    let actual_json_value = value_of(&actual.to_json());
    assert_eq!(actual_json_value, expect);
  }

  #[test]
  // Test when testcase.system-err has inner text
  fn testcase_system_err_has_inner() {
    let xml = r#"
        <?xml version="1.0" encoding="UTF-8"?>
        <testsuites>
            <testsuite>
                <testcase>
                <system-err>system error text</system-err>
                </testcase>
            </testsuite>
        </testsuites>
    "#;
    let expect = expected(r#"{
      "testsuites": {
          "testsuite": [
              {
                  "testcase": [
                      {
                          "system-err": ["system error text"]
                      }
                  ]
              }
          ]
      }}"#);
    
    let actual = junit2json::from_str(xml).unwrap();
    let actual_json_value = value_of(&actual.to_json());
    assert_eq!(actual_json_value, expect);
  }

  #[test]
  // Test when testsuite.property is empty
  fn testsuite_property_is_empty() {
    let xml = r#"
        <?xml version="1.0" encoding="UTF-8"?>
        <testsuites>
            <testsuite>
                <properties />
            </testsuite>
        </testsuites>
    "#;
    let expect = expected(r#"{
      "testsuites": {
          "testsuite": [
              {}
          ]
      }}"#);

    let actual = junit2json::from_str(xml).unwrap();
    let actual_json_value = value_of(&actual.to_json());
    assert_eq!(actual_json_value, expect);
  }

  #[test]
  // Test when testsuite.property has some fields
  fn testsuite_property_has_some_fields() {
    let xml = r#"
        <?xml version="1.0" encoding="UTF-8"?>
        <testsuites>
            <testsuite>
                <properties>
                    <property name="hello" value="bonjour"/>
                    <property name="world" value="monde"/>
                </properties>
            </testsuite>
        </testsuites>
    "#;
    let expect = expected(r#"{
      "testsuites": {
          "testsuite": [
              {
                "properties": {
                  "property": [
                    {
                        "name": "hello",
                        "value": "bonjour"
                    },
                    {
                        "name": "world",
                        "value": "monde"
                    }
                  ]
                }
              }
          ]
      }}"#);
    
    let actual = junit2json::from_str(xml).unwrap();
    let actual_json_value = value_of(&actual.to_json());
    assert_eq!(actual_json_value, expect);
  }

  #[test]
  // Test when some testsuite.property are empty
  fn some_testsuite_property_are_empty() {
      let xml = r#"
          <?xml version="1.0" encoding="UTF-8"?>
          <testsuites>
              <testsuite>
                  <properties>
                      <property name="hello" value="bonjour"/>
                      <property/>
                  </properties>
              </testsuite>
          </testsuites>
      "#;

    let expect = expected(r#"{
      "testsuites": {
          "testsuite": [
              {
                "properties": {
                  "property": [
                    {
                        "name": "hello",
                        "value": "bonjour"
                    }
                  ]
                }
              }
          ]
      }}"#);

    let actual = junit2json::from_str(xml).unwrap();
    let actual_json_value = value_of(&actual.to_json());
    assert_eq!(actual_json_value, expect);
  }
