//! Emission: the JSON value of a document.
//!
//! A field that is absent gives no member, never a `null`; a list gives an
//! array in the same order; the members of an object stand in the order of
//! the fields; and the document as a whole is an object with one member, named
//! after its shape.

use vstd::prelude::*;
use crate::text::Decimal;
use crate::model::{
    Detail, DetailView, DocumentView, Properties, PropertiesView, Property, PropertyView,
    TestCase, TestCaseView, TestSuite, TestSuiteView, TestSuites, TestSuitesOrTestSuite,
    TestSuitesView,
};

verus! {

/// A JSON value, as far as a document needs one.
#[derive(Debug, PartialEq)]
pub enum Json {
    /// A count.
    Number(u32),
    /// A number given by the decimal text that writes it.
    Decimal(Decimal),
    /// A string.
    Text(String),
    /// An array.
    Array(Vec<Json>),
    /// An object: its members, each a name and a value, in their order.
    Object(Vec<(String, Json)>),
}

/// View of a [`Json`] value.
pub ghost enum JsonView {
    Number(u32),
    Decimal(Seq<char>),
    Text(Seq<char>),
    Array(Seq<JsonView>),
    Object(Seq<(Seq<char>, JsonView)>),
}

impl Json {
    /// The value as a ghost value: its texts as sequences of characters, and
    /// the values inside it likewise.
    pub open spec fn model(self) -> JsonView
        decreases self,
    {
        match self {
            Json::Number(n) => JsonView::Number(n),
            Json::Decimal(number) => JsonView::Decimal(number@),
            Json::Text(text) => JsonView::Text(text@),
            Json::Array(items) => JsonView::Array(
                Seq::new(
                    items@.len(),
                    |i: int|
                        if 0 <= i < items@.len() {
                            items@[i].model()
                        } else {
                            arbitrary()
                        },
                ),
            ),
            Json::Object(members) => JsonView::Object(
                Seq::new(
                    members@.len(),
                    |i: int|
                        if 0 <= i < members@.len() {
                            (members@[i].0@, members@[i].1.model())
                        } else {
                            arbitrary()
                        },
                ),
            ),
        }
    }
}

impl DeepView for Json {
    type V = JsonView;

    open spec fn deep_view(&self) -> JsonView {
        self.model()
    }
}

impl View for Json {
    type V = JsonView;

    open spec fn view(&self) -> JsonView {
        self.model()
    }
}

/// The member `key` of an object for a text field: none where the field is
/// absent.
pub open spec fn text_member(key: Seq<char>, value: Option<Seq<char>>) -> Seq<
    (Seq<char>, JsonView),
> {
    match value {
        Some(text) => seq![(key, JsonView::Text(text))],
        None => seq![],
    }
}

/// The member `key` of an object for a duration: none where it is absent.
pub open spec fn decimal_member(key: Seq<char>, value: Option<Seq<char>>) -> Seq<
    (Seq<char>, JsonView),
> {
    match value {
        Some(text) => seq![(key, JsonView::Decimal(text))],
        None => seq![],
    }
}

/// The member `key` of an object for a count: none where it is absent.
pub open spec fn count_member(key: Seq<char>, value: Option<u32>) -> Seq<(Seq<char>, JsonView)> {
    match value {
        Some(n) => seq![(key, JsonView::Number(n))],
        None => seq![],
    }
}

/// The member `key` of an object for a value that is an array or an object:
/// none where it is absent.
pub open spec fn value_member(key: Seq<char>, value: Option<JsonView>) -> Seq<
    (Seq<char>, JsonView),
> {
    match value {
        Some(json) => seq![(key, json)],
        None => seq![],
    }
}

/// The array of the lines of a captured output.
pub open spec fn lines_json(lines: Option<Seq<Seq<char>>>) -> Option<JsonView> {
    match lines {
        Some(list) => Some(JsonView::Array(list.map_values(|l: Seq<char>| JsonView::Text(l)))),
        None => None,
    }
}

/// The JSON value of a detail.
pub open spec fn detail_json(d: DetailView) -> JsonView {
    JsonView::Object(
        text_member("message"@, d.message) + text_member("type"@, d.kind) + text_member(
            "inner"@,
            d.inner,
        ),
    )
}

/// The JSON value of a detail slot.
pub open spec fn detail_slot_json(d: Option<DetailView>) -> Option<JsonView> {
    match d {
        Some(detail) => Some(detail_json(detail)),
        None => None,
    }
}

/// The JSON value of a property.
pub open spec fn property_json(p: PropertyView) -> JsonView {
    JsonView::Object(text_member("name"@, p.name) + text_member("value"@, p.value))
}

/// The JSON value of a `<properties>` container.
pub open spec fn properties_json(p: PropertiesView) -> JsonView {
    JsonView::Object(
        value_member(
            "property"@,
            match p.property {
                Some(items) => Some(
                    JsonView::Array(items.map_values(|i: PropertyView| property_json(i))),
                ),
                None => None,
            },
        ),
    )
}

/// The JSON value of a test case.
pub open spec fn case_json(c: TestCaseView) -> JsonView {
    JsonView::Object(
        text_member("name"@, c.name) + text_member("classname"@, c.classname) + count_member(
            "assertions"@,
            c.assertions,
        ) + decimal_member("time"@, c.time) + text_member("status"@, c.status) + text_member(
            "file"@,
            c.file,
        ) + count_member("line"@, c.line) + value_member("system-out"@, lines_json(c.system_out))
            + value_member("system-err"@, lines_json(c.system_err)) + value_member(
            "skipped"@,
            detail_slot_json(c.skipped),
        ) + value_member("error"@, detail_slot_json(c.error)) + value_member(
            "failure"@,
            detail_slot_json(c.failure),
        ),
    )
}

/// The JSON value of a suite.
pub open spec fn suite_json(s: TestSuiteView) -> JsonView {
    JsonView::Object(
        text_member("name"@, s.name) + count_member("tests"@, s.tests) + count_member(
            "failures"@,
            s.failures,
        ) + count_member("errors"@, s.errors) + text_member("group"@, s.group) + decimal_member(
            "time"@,
            s.time,
        ) + count_member("disabled"@, s.disabled) + count_member("skipped"@, s.skipped)
            + text_member("timestamp"@, s.timestamp) + text_member("hostname"@, s.hostname)
            + text_member("id"@, s.id) + text_member("package"@, s.package) + text_member(
            "file"@,
            s.file,
        ) + text_member("log"@, s.log) + text_member("url"@, s.url) + value_member(
            "system-out"@,
            lines_json(s.system_out),
        ) + value_member("system-err"@, lines_json(s.system_err)) + value_member(
            "properties"@,
            match s.properties {
                Some(p) => Some(properties_json(p)),
                None => None,
            },
        ) + value_member(
            "testcase"@,
            match s.testcase {
                Some(cases) => Some(
                    JsonView::Array(cases.map_values(|c: TestCaseView| case_json(c))),
                ),
                None => None,
            },
        ),
    )
}

/// The JSON value of a `<testsuites>` wrapper.
pub open spec fn wrapper_json(w: TestSuitesView) -> JsonView {
    JsonView::Object(
        text_member("name"@, w.name) + decimal_member("time"@, w.time) + count_member(
            "tests"@,
            w.tests,
        ) + count_member("failures"@, w.failures) + count_member("errors"@, w.errors)
            + value_member(
            "testsuite"@,
            match w.testsuite {
                Some(suites) => Some(
                    JsonView::Array(suites.map_values(|s: TestSuiteView| suite_json(s))),
                ),
                None => None,
            },
        ),
    )
}

/// The JSON value of a document: an object with one member, `testsuites` or
/// `testsuite`, that holds the value of the wrapper or of the suite.
pub open spec fn document_json(d: DocumentView) -> JsonView {
    match d {
        DocumentView::TestSuites(w) => JsonView::Object(seq![("testsuites"@, wrapper_json(w))]),
        DocumentView::TestSuite(s) => JsonView::Object(seq![("testsuite"@, suite_json(s))]),
    }
}

/// The members of an object under construction.
pub open spec fn members_view(members: Vec<(String, Json)>) -> Seq<(Seq<char>, JsonView)> {
    Seq::new(members@.len(), |i: int| (members@[i].0@, members@[i].1.model()))
}

/// The items of an array under construction.
pub open spec fn items_view(items: Vec<Json>) -> Seq<JsonView> {
    Seq::new(items@.len(), |i: int| items@[i].model())
}

/// Makes an object of its members.
fn object(members: Vec<(String, Json)>) -> (json: Json)
    ensures
        json@ == JsonView::Object(members_view(members)),
{
    let json = Json::Object(members);
    assert(json.model()->Object_0 =~= members_view(members));
    json
}

/// Makes an array of its items.
fn array(items: Vec<Json>) -> (json: Json)
    ensures
        json@ == JsonView::Array(items_view(items)),
{
    let json = Json::Array(items);
    assert(json.model()->Array_0 =~= items_view(items));
    json
}

/// Adds a member to an object under construction.
fn push_member(members: &mut Vec<(String, Json)>, key: &str, value: Json)
    ensures
        members_view(*final(members)) == members_view(*old(members)).push((key@, value@)),
{
    members.push((key.to_owned(), value));
    assert(members_view(*members) =~= members_view(*old(members)).push((key@, value@)));
}

/// Adds the member of a text field, if the field is present.
fn push_text(members: &mut Vec<(String, Json)>, key: &str, value: &Option<String>)
    ensures
        members_view(*final(members)) == members_view(*old(members)) + text_member(
            key@,
            value.deep_view(),
        ),
{
    match value {
        Some(text) => {
            push_member(members, key, Json::Text(text.clone()));
            assert(members_view(*members) =~= members_view(*old(members)) + text_member(
                key@,
                value.deep_view(),
            ));
        },
        None => {
            assert(members_view(*members) =~= members_view(*old(members)) + text_member(
                key@,
                value.deep_view(),
            ));
        },
    }
}

/// Adds the member of a duration, if it is present.
fn push_decimal(members: &mut Vec<(String, Json)>, key: &str, value: &Option<Decimal>)
    ensures
        members_view(*final(members)) == members_view(*old(members)) + decimal_member(
            key@,
            value.deep_view(),
        ),
{
    match value {
        Some(number) => {
            push_member(members, key, Json::Decimal(number.clone()));
            assert(members_view(*members) =~= members_view(*old(members)) + decimal_member(
                key@,
                value.deep_view(),
            ));
        },
        None => {
            assert(members_view(*members) =~= members_view(*old(members)) + decimal_member(
                key@,
                value.deep_view(),
            ));
        },
    }
}

/// Adds the member of a count, if it is present.
fn push_count(members: &mut Vec<(String, Json)>, key: &str, value: Option<u32>)
    ensures
        members_view(*final(members)) == members_view(*old(members)) + count_member(key@, value),
{
    match value {
        Some(n) => {
            push_member(members, key, Json::Number(n));
            assert(members_view(*members) =~= members_view(*old(members)) + count_member(
                key@,
                value,
            ));
        },
        None => {
            assert(members_view(*members) =~= members_view(*old(members)) + count_member(
                key@,
                value,
            ));
        },
    }
}

/// Adds the member of an array or an object, if there is one.
fn push_value(members: &mut Vec<(String, Json)>, key: &str, value: Option<Json>)
    ensures
        members_view(*final(members)) == members_view(*old(members)) + value_member(
            key@,
            value.deep_view(),
        ),
{
    match value {
        Some(json) => {
            push_member(members, key, json);
            assert(members_view(*members) =~= members_view(*old(members)) + value_member(
                key@,
                value.deep_view(),
            ));
        },
        None => {
            assert(members_view(*members) =~= members_view(*old(members)) + value_member(
                key@,
                value.deep_view(),
            ));
        },
    }
}

/// The array of the lines of a captured output.
fn lines_to_json(lines: &Option<Vec<String>>) -> (json: Option<Json>)
    ensures
        json.deep_view() == lines_json(lines.deep_view()),
{
    match lines {
        Some(list) => {
            let mut items: Vec<Json> = Vec::new();
            let mut i: usize = 0;
            while i < list.len()
                invariant
                    i <= list.len(),
                    items.len() == i,
                    forall|j: int| 0 <= j < i ==> (#[trigger] items@[j]).model() == JsonView::Text(list@[j]@),
                decreases list.len() - i,
            {
                items.push(Json::Text(list[i].clone()));
                i += 1;
            }
            assert(items_view(items) =~= list.deep_view().map_values(
                |l: Seq<char>| JsonView::Text(l),
            ));
            Some(array(items))
        },
        None => None,
    }
}

impl Detail {
    /// The JSON value of the detail.
    pub fn to_json(&self) -> (json: Json)
        ensures
            json@ == detail_json(self@),
    {
        let mut members: Vec<(String, Json)> = Vec::new();
        assert(members_view(members) =~= Seq::empty());
        push_text(&mut members, "message", &self.message);
        push_text(&mut members, "type", &self.kind);
        push_text(&mut members, "inner", &self.inner);
        assert(members_view(members) =~= detail_json(self@)->Object_0);
        object(members)
    }
}

impl Property {
    /// The JSON value of the property.
    pub fn to_json(&self) -> (json: Json)
        ensures
            json@ == property_json(self@),
    {
        let mut members: Vec<(String, Json)> = Vec::new();
        assert(members_view(members) =~= Seq::empty());
        push_text(&mut members, "name", &self.name);
        push_text(&mut members, "value", &self.value);
        assert(members_view(members) =~= property_json(self@)->Object_0);
        object(members)
    }
}

/// The JSON value of a detail slot.
fn detail_to_json(detail: &Option<Detail>) -> (json: Option<Json>)
    ensures
        json.deep_view() == detail_slot_json(detail.deep_view()),
{
    match detail {
        Some(d) => Some(d.to_json()),
        None => None,
    }
}

impl Properties {
    /// The JSON value of the container.
    pub fn to_json(&self) -> (json: Json)
        ensures
            json@ == properties_json(self@),
    {
        let list = match &self.property {
            Some(properties) => {
                let mut items: Vec<Json> = Vec::new();
                let mut i: usize = 0;
                while i < properties.len()
                    invariant
                        i <= properties.len(),
                        items.len() == i,
                        forall|j: int|
                            0 <= j < i ==> (#[trigger] items@[j]).model() == property_json(
                                properties@[j]@,
                            ),
                    decreases properties.len() - i,
                {
                    items.push(properties[i].to_json());
                    i += 1;
                }
                assert(items_view(items) =~= properties.deep_view().map_values(
                    |i: PropertyView| property_json(i),
                ));
                Some(array(items))
            },
            None => None,
        };
        let mut members: Vec<(String, Json)> = Vec::new();
        assert(members_view(members) =~= Seq::empty());
        push_value(&mut members, "property", list);
        assert(members_view(members) =~= properties_json(self@)->Object_0);
        object(members)
    }
}

impl TestCase {
    /// The JSON value of the test case.
    pub fn to_json(&self) -> (json: Json)
        ensures
            json@ == case_json(self@),
    {
        let mut members: Vec<(String, Json)> = Vec::new();
        assert(members_view(members) =~= Seq::empty());
        push_text(&mut members, "name", &self.name);
        push_text(&mut members, "classname", &self.classname);
        push_count(&mut members, "assertions", self.assertions);
        push_decimal(&mut members, "time", &self.time);
        push_text(&mut members, "status", &self.status);
        push_text(&mut members, "file", &self.file);
        push_count(&mut members, "line", self.line);
        push_value(&mut members, "system-out", lines_to_json(&self.system_out));
        push_value(&mut members, "system-err", lines_to_json(&self.system_err));
        push_value(&mut members, "skipped", detail_to_json(&self.skipped));
        push_value(&mut members, "error", detail_to_json(&self.error));
        push_value(&mut members, "failure", detail_to_json(&self.failure));
        assert(members_view(members) =~= case_json(self@)->Object_0);
        object(members)
    }
}

impl TestSuite {
    /// The JSON value of the suite.
    pub fn to_json(&self) -> (json: Json)
        ensures
            json@ == suite_json(self@),
    {
        let properties = match &self.properties {
            Some(p) => Some(p.to_json()),
            None => None,
        };
        let cases = match &self.testcase {
            Some(list) => {
                let mut items: Vec<Json> = Vec::new();
                let mut i: usize = 0;
                while i < list.len()
                    invariant
                        i <= list.len(),
                        items.len() == i,
                        forall|j: int|
                            0 <= j < i ==> (#[trigger] items@[j]).model() == case_json(list@[j]@),
                    decreases list.len() - i,
                {
                    items.push(list[i].to_json());
                    i += 1;
                }
                assert(items_view(items) =~= list.deep_view().map_values(
                    |c: TestCaseView| case_json(c),
                ));
                Some(array(items))
            },
            None => None,
        };
        let mut members: Vec<(String, Json)> = Vec::new();
        assert(members_view(members) =~= Seq::empty());
        push_text(&mut members, "name", &self.name);
        push_count(&mut members, "tests", self.tests);
        push_count(&mut members, "failures", self.failures);
        push_count(&mut members, "errors", self.errors);
        push_text(&mut members, "group", &self.group);
        push_decimal(&mut members, "time", &self.time);
        push_count(&mut members, "disabled", self.disabled);
        push_count(&mut members, "skipped", self.skipped);
        push_text(&mut members, "timestamp", &self.timestamp);
        push_text(&mut members, "hostname", &self.hostname);
        push_text(&mut members, "id", &self.id);
        push_text(&mut members, "package", &self.package);
        push_text(&mut members, "file", &self.file);
        push_text(&mut members, "log", &self.log);
        push_text(&mut members, "url", &self.url);
        push_value(&mut members, "system-out", lines_to_json(&self.system_out));
        push_value(&mut members, "system-err", lines_to_json(&self.system_err));
        push_value(&mut members, "properties", properties);
        push_value(&mut members, "testcase", cases);
        assert(members_view(members) =~= suite_json(self@)->Object_0);
        object(members)
    }
}

impl TestSuites {
    /// The JSON value of the wrapper.
    pub fn to_json(&self) -> (json: Json)
        ensures
            json@ == wrapper_json(self@),
    {
        let suites = match &self.testsuite {
            Some(list) => {
                let mut items: Vec<Json> = Vec::new();
                let mut i: usize = 0;
                while i < list.len()
                    invariant
                        i <= list.len(),
                        items.len() == i,
                        forall|j: int|
                            0 <= j < i ==> (#[trigger] items@[j]).model() == suite_json(list@[j]@),
                    decreases list.len() - i,
                {
                    items.push(list[i].to_json());
                    i += 1;
                }
                assert(items_view(items) =~= list.deep_view().map_values(
                    |s: TestSuiteView| suite_json(s),
                ));
                Some(array(items))
            },
            None => None,
        };
        let mut members: Vec<(String, Json)> = Vec::new();
        assert(members_view(members) =~= Seq::empty());
        push_text(&mut members, "name", &self.name);
        push_decimal(&mut members, "time", &self.time);
        push_count(&mut members, "tests", self.tests);
        push_count(&mut members, "failures", self.failures);
        push_count(&mut members, "errors", self.errors);
        push_value(&mut members, "testsuite", suites);
        assert(members_view(members) =~= wrapper_json(self@)->Object_0);
        object(members)
    }
}

impl TestSuitesOrTestSuite {
    /// The JSON value of the document.
    pub fn to_json(&self) -> (json: Json)
        ensures
            json@ == document_json(self@),
    {
        let mut members: Vec<(String, Json)> = Vec::new();
        assert(members_view(members) =~= Seq::empty());
        match self {
            TestSuitesOrTestSuite::TestSuites(wrapper) => {
                push_member(&mut members, "testsuites", wrapper.to_json());
            },
            TestSuitesOrTestSuite::TestSuite(suite) => {
                push_member(&mut members, "testsuite", suite.to_json());
            },
        }
        assert(members_view(members) =~= document_json(self@)->Object_0);
        object(members)
    }
}

} // verus!
