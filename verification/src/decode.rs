//! Decoding: from the tree of an XML document to the document model.
//!
//! The root element chooses the shape of the document by its name. Within an
//! element, an attribute gives the scalar field of its name, and the child
//! elements of one name give, in their order, the list of that name. What the
//! model has no field for is passed over.

use vstd::prelude::*;
use vstd::string::StringExecFns;
use crate::model::{
    Detail, DetailView, DocumentView, Properties, PropertiesView, Property, PropertyView,
    TestCase, TestCaseView, TestSuite, TestSuiteView, TestSuites, TestSuitesOrTestSuite,
    TestSuitesView,
};
use crate::normalize::normalized;
use crate::text::{count_of, is_decimal, parse_count, same_text, Decimal};
use crate::xml::{document_tree, parse_tree, xml_tokens, XmlElement, XmlElementView};

verus! {

/// Why a text is not decoded.
#[derive(Debug, PartialEq, Clone)]
pub enum DecodeError {
    /// The text is not well-formed XML.
    Malformed,
    /// The root element is neither `testsuites` nor `testsuite`.
    UnrecognizedRoot { tag: String },
    /// An attribute that holds a number has a value that does not write one.
    InvalidNumber { element: String, attribute: String },
    /// An element that may stand once in its parent stands there again.
    Repeated { element: String },
}

/// View of a [`DecodeError`].
pub ghost enum DecodeErrorView {
    Malformed,
    UnrecognizedRoot { tag: Seq<char> },
    InvalidNumber { element: Seq<char>, attribute: Seq<char> },
    Repeated { element: Seq<char> },
}

impl DeepView for DecodeError {
    type V = DecodeErrorView;

    open spec fn deep_view(&self) -> DecodeErrorView {
        match self {
            DecodeError::Malformed => DecodeErrorView::Malformed,
            DecodeError::UnrecognizedRoot { tag } => DecodeErrorView::UnrecognizedRoot { tag: tag@ },
            DecodeError::InvalidNumber { element, attribute } => DecodeErrorView::InvalidNumber {
                element: element@,
                attribute: attribute@,
            },
            DecodeError::Repeated { element } => DecodeErrorView::Repeated { element: element@ },
        }
    }
}

impl View for DecodeError {
    type V = DecodeErrorView;

    open spec fn view(&self) -> DecodeErrorView {
        self.deep_view()
    }
}

/// What an error says, in words.
pub open spec fn error_text(error: DecodeErrorView) -> Seq<char> {
    match error {
        DecodeErrorView::Malformed => "the text is not well-formed XML"@,
        DecodeErrorView::UnrecognizedRoot { tag } => "unrecognized root element `"@ + tag
            + "`: expected `testsuites` or `testsuite`"@,
        DecodeErrorView::InvalidNumber { element, attribute } => "the attribute `"@ + attribute
            + "` of the element `"@ + element + "` is not a number"@,
        DecodeErrorView::Repeated { element } => "the element `"@ + element
            + "` stands more than once in its parent"@,
    }
}

impl DecodeError {
    /// What the error says, in words.
    pub fn message(&self) -> (text: String)
        ensures
            text@ == error_text(self@),
    {
        match self {
            DecodeError::Malformed => "the text is not well-formed XML".to_owned(),
            DecodeError::UnrecognizedRoot { tag } => {
                let mut text = "unrecognized root element `".to_owned();
                text.append(tag.as_str());
                text.append("`: expected `testsuites` or `testsuite`");
                text
            },
            DecodeError::InvalidNumber { element, attribute } => {
                let mut text = "the attribute `".to_owned();
                text.append(attribute.as_str());
                text.append("` of the element `");
                text.append(element.as_str());
                text.append("` is not a number");
                text
            },
            DecodeError::Repeated { element } => {
                let mut text = "the element `".to_owned();
                text.append(element.as_str());
                text.append("` stands more than once in its parent");
                text
            },
        }
    }
}

/// The view of what a decoding step returns.
pub open spec fn outcome<T: DeepView>(r: Result<T, DecodeError>) -> Result<T::V, DecodeErrorView> {
    match r {
        Ok(value) => Ok(value.deep_view()),
        Err(error) => Err(error@),
    }
}

/// The first of two errors.
pub open spec fn first(a: Option<DecodeErrorView>, b: Option<DecodeErrorView>) -> Option<
    DecodeErrorView,
> {
    match a {
        Some(_) => a,
        None => b,
    }
}

/// The value of the first attribute named `name`.
pub open spec fn attribute(attributes: Seq<(Seq<char>, Seq<char>)>, name: Seq<char>) -> Option<
    Seq<char>,
>
    decreases attributes.len(),
{
    if attributes.len() == 0 {
        None
    } else if attributes[0].0 == name {
        Some(attributes[0].1)
    } else {
        attribute(attributes.skip(1), name)
    }
}

/// The count that the attribute `name` gives: absent where there is no such
/// attribute, and where its value writes no count.
pub open spec fn count_value(attributes: Seq<(Seq<char>, Seq<char>)>, name: Seq<char>) -> Option<
    u32,
> {
    match attribute(attributes, name) {
        Some(value) => count_of(value),
        None => None,
    }
}

/// The error of the count attribute `name` of the element `element`: its
/// value writes no count.
pub open spec fn count_error(
    attributes: Seq<(Seq<char>, Seq<char>)>,
    element: Seq<char>,
    name: Seq<char>,
) -> Option<DecodeErrorView> {
    match attribute(attributes, name) {
        Some(value) if count_of(value) is None => Some(
            DecodeErrorView::InvalidNumber { element, attribute: name },
        ),
        _ => None,
    }
}

/// The error of the duration attribute `name` of the element `element`: its
/// value writes no decimal number.
pub open spec fn time_error(
    attributes: Seq<(Seq<char>, Seq<char>)>,
    element: Seq<char>,
    name: Seq<char>,
) -> Option<DecodeErrorView> {
    match attribute(attributes, name) {
        Some(value) if !is_decimal(value) => Some(
            DecodeErrorView::InvalidNumber { element, attribute: name },
        ),
        _ => None,
    }
}

/// The elements of `children` whose name is `name`, in their order.
pub open spec fn named(children: Seq<XmlElementView>, name: Seq<char>) -> Seq<XmlElementView> {
    children.filter(|e: XmlElementView| e.name == name)
}

/// The captured output that the children named `name` hold: absent where
/// there is no such child, else the text of each, in their order.
pub open spec fn lines(children: Seq<XmlElementView>, name: Seq<char>) -> Option<Seq<Seq<char>>> {
    let found = named(children, name);
    if found.len() == 0 {
        None
    } else {
        Some(found.map_values(|e: XmlElementView| e.text))
    }
}

/// What a list of elements decodes to when each is decoded by `decode`: the
/// results in their order, or the error of the first element that has one.
pub open spec fn decode_each<T>(
    elements: Seq<XmlElementView>,
    decode: spec_fn(XmlElementView) -> Result<T, DecodeErrorView>,
) -> Result<Seq<T>, DecodeErrorView>
    decreases elements.len(),
{
    if elements.len() == 0 {
        Ok(Seq::empty())
    } else {
        match decode_each(elements.drop_last(), decode) {
            Ok(items) => match decode(elements.last()) {
                Ok(item) => Ok(items.push(item)),
                Err(error) => Err(error),
            },
            Err(error) => Err(error),
        }
    }
}

/// A repeated element: absent where no element is found, else what the found
/// ones decode to.
pub open spec fn repeated<T>(
    found: Seq<XmlElementView>,
    decode: spec_fn(XmlElementView) -> Result<T, DecodeErrorView>,
) -> Result<Option<Seq<T>>, DecodeErrorView> {
    if found.len() == 0 {
        Ok(None)
    } else {
        match decode_each(found, decode) {
            Ok(items) => Ok(Some(items)),
            Err(error) => Err(error),
        }
    }
}

/// The error of an element that may stand once: more than one is found.
pub open spec fn once_error(found: Seq<XmlElementView>, name: Seq<char>) -> Option<DecodeErrorView> {
    if found.len() > 1 {
        Some(DecodeErrorView::Repeated { element: name })
    } else {
        None
    }
}

/// The element that stands once: the first found, absent where none is.
pub open spec fn once(found: Seq<XmlElementView>) -> Option<XmlElementView> {
    if found.len() == 0 {
        None
    } else {
        Some(found[0])
    }
}

/// An error among the first elements is the error of the whole list.
pub proof fn lemma_decode_each_prefix<T>(
    elements: Seq<XmlElementView>,
    decode: spec_fn(XmlElementView) -> Result<T, DecodeErrorView>,
    n: int,
)
    requires
        0 <= n <= elements.len(),
        decode_each(elements.take(n), decode) is Err,
    ensures
        decode_each(elements, decode) == decode_each(elements.take(n), decode),
    decreases elements.len() - n,
{
    if n == elements.len() {
        assert(elements.take(n) =~= elements);
    } else {
        assert(elements.drop_last().take(n) =~= elements.take(n));
        lemma_decode_each_prefix(elements.drop_last(), decode, n);
    }
}

/// The elements named `name` of a list extended by one element.
pub proof fn lemma_named_push(children: Seq<XmlElementView>, child: XmlElementView, name: Seq<char>)
    ensures
        named(children.push(child), name) == if child.name == name {
            named(children, name).push(child)
        } else {
            named(children, name)
        },
{
    reveal(Seq::filter);
    assert(children.push(child).drop_last() =~= children);
}

/// Finds the value of the first attribute named `name`.
pub fn find_attribute<'a>(attributes: &'a Vec<(String, String)>, name: &str) -> (value: Option<
    &'a String,
>)
    ensures
        value.deep_view() == attribute(attributes.deep_view(), name@),
{
    let ghost all = attributes.deep_view();
    assert(all.skip(0) =~= all);
    let mut i: usize = 0;
    while i < attributes.len()
        invariant
            i <= attributes.len(),
            all == attributes.deep_view(),
            attribute(all, name@) == attribute(all.skip(i as int), name@),
        decreases attributes.len() - i,
    {
        assert(all.skip(i as int)[0] == all[i as int]);
        assert(all.skip(i as int).skip(1) =~= all.skip(i + 1));
        if same_text(attributes[i].0.as_str(), name) {
            return Some(&attributes[i].1);
        }
        i += 1;
    }
    None
}

/// Reads the text attribute `name`.
pub fn text_field(attributes: &Vec<(String, String)>, name: &str) -> (value: Option<String>)
    ensures
        value.deep_view() == attribute(attributes.deep_view(), name@),
{
    match find_attribute(attributes, name) {
        Some(value) => Some(value.clone()),
        None => None,
    }
}

/// Reads the count attribute `name` of the element `element`.
pub fn count_field(attributes: &Vec<(String, String)>, element: &str, name: &str) -> (value: Result<
    Option<u32>,
    DecodeError,
>)
    ensures
        match value {
            Ok(count) => count_error(attributes.deep_view(), element@, name@) is None && count
                == count_value(attributes.deep_view(), name@),
            Err(error) => count_error(attributes.deep_view(), element@, name@) == Some(error@),
        },
{
    match find_attribute(attributes, name) {
        Some(value) => match parse_count(value.as_str()) {
            Some(count) => Ok(Some(count)),
            None => Err(
                DecodeError::InvalidNumber { element: element.to_owned(), attribute: name.to_owned() },
            ),
        },
        None => Ok(None),
    }
}

/// Reads the duration attribute `name` of the element `element`.
pub fn time_field(attributes: &Vec<(String, String)>, element: &str, name: &str) -> (value: Result<
    Option<Decimal>,
    DecodeError,
>)
    ensures
        match value {
            Ok(time) => time_error(attributes.deep_view(), element@, name@) is None
                && time.deep_view() == attribute(attributes.deep_view(), name@),
            Err(error) => time_error(attributes.deep_view(), element@, name@) == Some(error@),
        },
{
    match find_attribute(attributes, name) {
        Some(value) => match Decimal::parse(value.as_str()) {
            Some(time) => Ok(Some(time)),
            None => Err(
                DecodeError::InvalidNumber { element: element.to_owned(), attribute: name.to_owned() },
            ),
        },
        None => Ok(None),
    }
}

/// Finds the children of `element` whose name is `name`.
pub fn children_named<'a>(element: &'a XmlElement, name: &str) -> (found: Vec<&'a XmlElement>)
    ensures
        found.deep_view() == named(element@.children, name@),
{
    let ghost all = element@.children;
    let mut found: Vec<&'a XmlElement> = Vec::new();
    assert(found.deep_view() =~= named(all.take(0), name@)) by {
        reveal(Seq::filter);
    }
    let mut i: usize = 0;
    while i < element.children.len()
        invariant
            i <= element.children.len(),
            all == element@.children,
            all.len() == element.children.len(),
            found.deep_view() == named(all.take(i as int), name@),
        decreases element.children.len() - i,
    {
        let child = &element.children[i];
        proof {
            assert(all[i as int] == child.deep_view());
            assert(all.take(i + 1) =~= all.take(i as int).push(all[i as int]));
            lemma_named_push(all.take(i as int), all[i as int], name@);
        }
        if same_text(child.name.as_str(), name) {
            let ghost before = found.deep_view();
            found.push(child);
            assert(found.deep_view() =~= before.push(child.deep_view()));
        }
        i += 1;
    }
    assert(all.take(all.len() as int) =~= all);
    found
}

/// Reads the captured output that the children named `name` hold.
pub fn lines_field(element: &XmlElement, name: &str) -> (value: Option<Vec<String>>)
    ensures
        value.deep_view() == lines(element@.children, name@),
{
    let found = children_named(element, name);
    if found.len() == 0 {
        return None;
    }
    let mut out: Vec<String> = Vec::new();
    let mut i: usize = 0;
    while i < found.len()
        invariant
            i <= found.len(),
            out.len() == i,
            forall|j: int| 0 <= j < i ==> (#[trigger] out@[j])@ == found@[j].deep_view().text,
        decreases found.len() - i,
    {
        out.push(found[i].text.clone());
        i += 1;
    }
    assert(out.deep_view() =~= found.deep_view().map_values(|e: XmlElementView| e.text));
    Some(out)
}

/// Finds the child named `name` that may stand once.
pub fn once_field<'a>(element: &'a XmlElement, name: &str) -> (value: Result<
    Option<&'a XmlElement>,
    DecodeError,
>)
    ensures
        match value {
            Ok(child) => once_error(named(element@.children, name@), name@) is None
                && child.deep_view() == once(named(element@.children, name@)),
            Err(error) => once_error(named(element@.children, name@), name@) == Some(error@),
        },
{
    let found = children_named(element, name);
    if found.len() > 1 {
        Err(DecodeError::Repeated { element: name.to_owned() })
    } else if found.len() == 1 {
        Ok(Some(found[0]))
    } else {
        Ok(None)
    }
}

/// What a `<skipped>`, `<error>` or `<failure>` element decodes to: its
/// `message` and `type` attributes, and its text if it has any.
pub open spec fn decode_detail(e: XmlElementView) -> DetailView {
    DetailView {
        message: attribute(e.attributes, "message"@),
        kind: attribute(e.attributes, "type"@),
        inner: if e.text.len() == 0 {
            None
        } else {
            Some(e.text)
        },
    }
}

/// The detail slot `name` of a test case.
pub open spec fn detail(children: Seq<XmlElementView>, name: Seq<char>) -> Option<DetailView> {
    match once(named(children, name)) {
        Some(e) => Some(decode_detail(e)),
        None => None,
    }
}

/// What a `<property>` element decodes to.
pub open spec fn decode_property(e: XmlElementView) -> PropertyView {
    PropertyView { name: attribute(e.attributes, "name"@), value: attribute(e.attributes, "value"@) }
}

/// What a `<properties>` element decodes to: its `<property>` children.
pub open spec fn decode_properties(e: XmlElementView) -> PropertiesView {
    let found = named(e.children, "property"@);
    PropertiesView {
        property: if found.len() == 0 {
            None
        } else {
            Some(found.map_values(|p: XmlElementView| decode_property(p)))
        },
    }
}

/// The first error of a `<testcase>` element, its attributes before its
/// children.
pub open spec fn case_error(e: XmlElementView) -> Option<DecodeErrorView> {
    first(
        count_error(e.attributes, "testcase"@, "assertions"@),
        first(
            time_error(e.attributes, "testcase"@, "time"@),
            first(
                count_error(e.attributes, "testcase"@, "line"@),
                first(
                    once_error(named(e.children, "skipped"@), "skipped"@),
                    first(
                        once_error(named(e.children, "error"@), "error"@),
                        once_error(named(e.children, "failure"@), "failure"@),
                    ),
                ),
            ),
        ),
    )
}

/// What a `<testcase>` element decodes to.
pub open spec fn decode_case(e: XmlElementView) -> Result<TestCaseView, DecodeErrorView> {
    match case_error(e) {
        Some(error) => Err(error),
        None => Ok(
            TestCaseView {
                name: attribute(e.attributes, "name"@),
                classname: attribute(e.attributes, "classname"@),
                assertions: count_value(e.attributes, "assertions"@),
                time: attribute(e.attributes, "time"@),
                status: attribute(e.attributes, "status"@),
                file: attribute(e.attributes, "file"@),
                line: count_value(e.attributes, "line"@),
                system_out: lines(e.children, "system-out"@),
                system_err: lines(e.children, "system-err"@),
                skipped: detail(e.children, "skipped"@),
                error: detail(e.children, "error"@),
                failure: detail(e.children, "failure"@),
            },
        ),
    }
}

/// The rule by which each `<testcase>` element is decoded.
pub open spec fn case_rule() -> spec_fn(XmlElementView) -> Result<TestCaseView, DecodeErrorView> {
    |e: XmlElementView| decode_case(e)
}

/// The first error of the attributes of a `<testsuite>` element and of its
/// `<properties>` children.
pub open spec fn suite_error(e: XmlElementView) -> Option<DecodeErrorView> {
    first(
        count_error(e.attributes, "testsuite"@, "tests"@),
        first(
            count_error(e.attributes, "testsuite"@, "failures"@),
            first(
                count_error(e.attributes, "testsuite"@, "errors"@),
                first(
                    time_error(e.attributes, "testsuite"@, "time"@),
                    first(
                        count_error(e.attributes, "testsuite"@, "disabled"@),
                        first(
                            count_error(e.attributes, "testsuite"@, "skipped"@),
                            once_error(named(e.children, "properties"@), "properties"@),
                        ),
                    ),
                ),
            ),
        ),
    )
}

/// What a `<testsuite>` element decodes to. An error of the element itself
/// comes before one of its test cases.
pub open spec fn decode_suite(e: XmlElementView) -> Result<TestSuiteView, DecodeErrorView> {
    match suite_error(e) {
        Some(error) => Err(error),
        None => match repeated(named(e.children, "testcase"@), case_rule()) {
            Err(error) => Err(error),
            Ok(testcase) => Ok(
                TestSuiteView {
                    name: attribute(e.attributes, "name"@),
                    tests: count_value(e.attributes, "tests"@),
                    failures: count_value(e.attributes, "failures"@),
                    errors: count_value(e.attributes, "errors"@),
                    group: attribute(e.attributes, "group"@),
                    time: attribute(e.attributes, "time"@),
                    disabled: count_value(e.attributes, "disabled"@),
                    skipped: count_value(e.attributes, "skipped"@),
                    timestamp: attribute(e.attributes, "timestamp"@),
                    hostname: attribute(e.attributes, "hostname"@),
                    id: attribute(e.attributes, "id"@),
                    package: attribute(e.attributes, "package"@),
                    file: attribute(e.attributes, "file"@),
                    log: attribute(e.attributes, "log"@),
                    url: attribute(e.attributes, "url"@),
                    system_out: lines(e.children, "system-out"@),
                    system_err: lines(e.children, "system-err"@),
                    properties: match once(named(e.children, "properties"@)) {
                        Some(p) => Some(decode_properties(p)),
                        None => None,
                    },
                    testcase,
                },
            ),
        },
    }
}

/// The rule by which each `<testsuite>` element is decoded.
pub open spec fn suite_rule() -> spec_fn(XmlElementView) -> Result<TestSuiteView, DecodeErrorView> {
    |e: XmlElementView| decode_suite(e)
}

/// The first error of the attributes of a `<testsuites>` element.
pub open spec fn wrapper_error(e: XmlElementView) -> Option<DecodeErrorView> {
    first(
        time_error(e.attributes, "testsuites"@, "time"@),
        first(
            count_error(e.attributes, "testsuites"@, "tests"@),
            first(
                count_error(e.attributes, "testsuites"@, "failures"@),
                count_error(e.attributes, "testsuites"@, "errors"@),
            ),
        ),
    )
}

/// What a `<testsuites>` element decodes to. An error of the element itself
/// comes before one of its suites.
pub open spec fn decode_wrapper(e: XmlElementView) -> Result<TestSuitesView, DecodeErrorView> {
    match wrapper_error(e) {
        Some(error) => Err(error),
        None => match repeated(named(e.children, "testsuite"@), suite_rule()) {
            Err(error) => Err(error),
            Ok(testsuite) => Ok(
                TestSuitesView {
                    name: attribute(e.attributes, "name"@),
                    time: attribute(e.attributes, "time"@),
                    tests: count_value(e.attributes, "tests"@),
                    failures: count_value(e.attributes, "failures"@),
                    errors: count_value(e.attributes, "errors"@),
                    testsuite,
                },
            ),
        },
    }
}

/// What the root element of a document decodes to. Its name decides: a
/// `testsuites` element is a wrapper, a `testsuite` element is a single suite,
/// and an element of any other name is refused, whatever it holds.
pub open spec fn decode_document(root: XmlElementView) -> Result<DocumentView, DecodeErrorView> {
    if root.name == "testsuites"@ {
        match decode_wrapper(root) {
            Ok(w) => Ok(DocumentView::TestSuites(w)),
            Err(error) => Err(error),
        }
    } else if root.name == "testsuite"@ {
        match decode_suite(root) {
            Ok(s) => Ok(DocumentView::TestSuite(s)),
            Err(error) => Err(error),
        }
    } else {
        Err(DecodeErrorView::UnrecognizedRoot { tag: root.name })
    }
}

/// What an XML text decodes to: the document of its root element, normalized.
pub open spec fn decoded(text: Seq<char>) -> Result<DocumentView, DecodeErrorView> {
    match document_tree(xml_tokens(text)) {
        Some(root) => match decode_document(root) {
            Ok(d) => Ok(normalized(d)),
            Err(error) => Err(error),
        },
        None => Err(DecodeErrorView::Malformed),
    }
}

impl Detail {
    /// Decodes a `<skipped>`, `<error>` or `<failure>` element.
    pub fn decode(element: &XmlElement) -> (detail: Detail)
        ensures
            detail@ == decode_detail(element@),
    {
        Detail {
            message: text_field(&element.attributes, "message"),
            kind: text_field(&element.attributes, "type"),
            inner: if element.text.as_str().is_empty() {
                None
            } else {
                Some(element.text.clone())
            },
        }
    }
}

impl Property {
    /// Decodes a `<property>` element.
    pub fn decode(element: &XmlElement) -> (property: Property)
        ensures
            property@ == decode_property(element@),
    {
        Property {
            name: text_field(&element.attributes, "name"),
            value: text_field(&element.attributes, "value"),
        }
    }
}

impl Properties {
    /// Decodes a `<properties>` element.
    pub fn decode(element: &XmlElement) -> (properties: Properties)
        ensures
            properties@ == decode_properties(element@),
    {
        let found = children_named(element, "property");
        if found.len() == 0 {
            return Properties { property: None };
        }
        let mut out: Vec<Property> = Vec::new();
        let mut i: usize = 0;
        while i < found.len()
            invariant
                i <= found.len(),
                out.len() == i,
                forall|j: int|
                    0 <= j < i ==> (#[trigger] out@[j])@ == decode_property(found@[j].deep_view()),
            decreases found.len() - i,
        {
            out.push(Property::decode(found[i]));
            i += 1;
        }
        assert(out.deep_view() =~= found.deep_view().map_values(
            |p: XmlElementView| decode_property(p),
        ));
        Properties { property: Some(out) }
    }
}

/// Reads the detail slot `name` of a test case.
fn detail_field(element: &XmlElement, name: &str) -> (value: Result<Option<Detail>, DecodeError>)
    ensures
        match value {
            Ok(slot) => once_error(named(element@.children, name@), name@) is None
                && slot.deep_view() == detail(element@.children, name@),
            Err(error) => once_error(named(element@.children, name@), name@) == Some(error@),
        },
{
    match once_field(element, name) {
        Ok(Some(child)) => Ok(Some(Detail::decode(child))),
        Ok(None) => Ok(None),
        Err(error) => Err(error),
    }
}

impl TestCase {
    /// Decodes a `<testcase>` element.
    pub fn decode(element: &XmlElement) -> (case: Result<TestCase, DecodeError>)
        ensures
            outcome(case) == decode_case(element@),
    {
        let attributes = &element.attributes;
        let assertions = match count_field(attributes, "testcase", "assertions") {
            Ok(value) => value,
            Err(error) => {
                return Err(error);
            },
        };
        let time = match time_field(attributes, "testcase", "time") {
            Ok(value) => value,
            Err(error) => {
                return Err(error);
            },
        };
        let line = match count_field(attributes, "testcase", "line") {
            Ok(value) => value,
            Err(error) => {
                return Err(error);
            },
        };
        let skipped = match detail_field(element, "skipped") {
            Ok(value) => value,
            Err(error) => {
                return Err(error);
            },
        };
        let error = match detail_field(element, "error") {
            Ok(value) => value,
            Err(error) => {
                return Err(error);
            },
        };
        let failure = match detail_field(element, "failure") {
            Ok(value) => value,
            Err(error) => {
                return Err(error);
            },
        };
        Ok(
            TestCase {
                name: text_field(attributes, "name"),
                classname: text_field(attributes, "classname"),
                assertions,
                time,
                status: text_field(attributes, "status"),
                file: text_field(attributes, "file"),
                line,
                system_out: lines_field(element, "system-out"),
                system_err: lines_field(element, "system-err"),
                skipped,
                error,
                failure,
            },
        )
    }
}

/// Decodes the `<testcase>` children of a suite.
fn cases_field(element: &XmlElement) -> (value: Result<Option<Vec<TestCase>>, DecodeError>)
    ensures
        outcome(value) == repeated(named(element@.children, "testcase"@), case_rule()),
{
    let found = children_named(element, "testcase");
    if found.len() == 0 {
        return Ok(None);
    }
    let ghost all = found.deep_view();
    let mut out: Vec<TestCase> = Vec::new();
    assert(out.deep_view() =~= Seq::empty());
    let mut i: usize = 0;
    while i < found.len()
        invariant
            i <= found.len(),
            all == found.deep_view(),
            all == named(element@.children, "testcase"@),
            decode_each(all.take(i as int), case_rule()) == Ok::<
                Seq<TestCaseView>,
                DecodeErrorView,
            >(out.deep_view()),
        decreases found.len() - i,
    {
        proof {
            assert(all.take(i + 1).drop_last() =~= all.take(i as int));
            assert(all.take(i + 1).last() == found@[i as int].deep_view());
        }
        match TestCase::decode(found[i]) {
            Ok(case) => {
                let ghost before = out.deep_view();
                out.push(case);
                assert(out.deep_view() =~= before.push(case@));
            },
            Err(error) => {
                proof {
                    lemma_decode_each_prefix(all, case_rule(), i + 1);
                }
                return Err(error);
            },
        }
        i += 1;
    }
    assert(all.take(all.len() as int) =~= all);
    Ok(Some(out))
}

impl TestSuite {
    /// Decodes a `<testsuite>` element.
    pub fn decode(element: &XmlElement) -> (suite: Result<TestSuite, DecodeError>)
        ensures
            outcome(suite) == decode_suite(element@),
    {
        let attributes = &element.attributes;
        let tests = match count_field(attributes, "testsuite", "tests") {
            Ok(value) => value,
            Err(error) => {
                return Err(error);
            },
        };
        let failures = match count_field(attributes, "testsuite", "failures") {
            Ok(value) => value,
            Err(error) => {
                return Err(error);
            },
        };
        let errors = match count_field(attributes, "testsuite", "errors") {
            Ok(value) => value,
            Err(error) => {
                return Err(error);
            },
        };
        let time = match time_field(attributes, "testsuite", "time") {
            Ok(value) => value,
            Err(error) => {
                return Err(error);
            },
        };
        let disabled = match count_field(attributes, "testsuite", "disabled") {
            Ok(value) => value,
            Err(error) => {
                return Err(error);
            },
        };
        let skipped = match count_field(attributes, "testsuite", "skipped") {
            Ok(value) => value,
            Err(error) => {
                return Err(error);
            },
        };
        let properties = match once_field(element, "properties") {
            Ok(Some(child)) => Some(Properties::decode(child)),
            Ok(None) => None,
            Err(error) => {
                return Err(error);
            },
        };
        let testcase = match cases_field(element) {
            Ok(value) => value,
            Err(error) => {
                return Err(error);
            },
        };
        Ok(
            TestSuite {
                name: text_field(attributes, "name"),
                tests,
                failures,
                errors,
                group: text_field(attributes, "group"),
                time,
                disabled,
                skipped,
                timestamp: text_field(attributes, "timestamp"),
                hostname: text_field(attributes, "hostname"),
                id: text_field(attributes, "id"),
                package: text_field(attributes, "package"),
                file: text_field(attributes, "file"),
                log: text_field(attributes, "log"),
                url: text_field(attributes, "url"),
                system_out: lines_field(element, "system-out"),
                system_err: lines_field(element, "system-err"),
                properties,
                testcase,
            },
        )
    }
}

/// Decodes the `<testsuite>` children of a wrapper.
fn suites_field(element: &XmlElement) -> (value: Result<Option<Vec<TestSuite>>, DecodeError>)
    ensures
        outcome(value) == repeated(named(element@.children, "testsuite"@), suite_rule()),
{
    let found = children_named(element, "testsuite");
    if found.len() == 0 {
        return Ok(None);
    }
    let ghost all = found.deep_view();
    let mut out: Vec<TestSuite> = Vec::new();
    assert(out.deep_view() =~= Seq::empty());
    let mut i: usize = 0;
    while i < found.len()
        invariant
            i <= found.len(),
            all == found.deep_view(),
            all == named(element@.children, "testsuite"@),
            decode_each(all.take(i as int), suite_rule()) == Ok::<
                Seq<TestSuiteView>,
                DecodeErrorView,
            >(out.deep_view()),
        decreases found.len() - i,
    {
        proof {
            assert(all.take(i + 1).drop_last() =~= all.take(i as int));
            assert(all.take(i + 1).last() == found@[i as int].deep_view());
        }
        match TestSuite::decode(found[i]) {
            Ok(suite) => {
                let ghost before = out.deep_view();
                out.push(suite);
                assert(out.deep_view() =~= before.push(suite@));
            },
            Err(error) => {
                proof {
                    lemma_decode_each_prefix(all, suite_rule(), i + 1);
                }
                return Err(error);
            },
        }
        i += 1;
    }
    assert(all.take(all.len() as int) =~= all);
    Ok(Some(out))
}

impl TestSuites {
    /// Decodes a `<testsuites>` element.
    pub fn decode(element: &XmlElement) -> (wrapper: Result<TestSuites, DecodeError>)
        ensures
            outcome(wrapper) == decode_wrapper(element@),
    {
        let attributes = &element.attributes;
        let time = match time_field(attributes, "testsuites", "time") {
            Ok(value) => value,
            Err(error) => {
                return Err(error);
            },
        };
        let tests = match count_field(attributes, "testsuites", "tests") {
            Ok(value) => value,
            Err(error) => {
                return Err(error);
            },
        };
        let failures = match count_field(attributes, "testsuites", "failures") {
            Ok(value) => value,
            Err(error) => {
                return Err(error);
            },
        };
        let errors = match count_field(attributes, "testsuites", "errors") {
            Ok(value) => value,
            Err(error) => {
                return Err(error);
            },
        };
        let testsuite = match suites_field(element) {
            Ok(value) => value,
            Err(error) => {
                return Err(error);
            },
        };
        Ok(
            TestSuites {
                name: text_field(attributes, "name"),
                time,
                tests,
                failures,
                errors,
                testsuite,
            },
        )
    }
}

impl TestSuitesOrTestSuite {
    /// Decodes the root element of a document.
    pub fn decode(root: &XmlElement) -> (document: Result<TestSuitesOrTestSuite, DecodeError>)
        ensures
            outcome(document) == decode_document(root@),
    {
        if same_text(root.name.as_str(), "testsuites") {
            match TestSuites::decode(root) {
                Ok(wrapper) => Ok(TestSuitesOrTestSuite::TestSuites(wrapper)),
                Err(error) => Err(error),
            }
        } else if same_text(root.name.as_str(), "testsuite") {
            match TestSuite::decode(root) {
                Ok(suite) => Ok(TestSuitesOrTestSuite::TestSuite(Box::new(suite))),
                Err(error) => Err(error),
            }
        } else {
            Err(DecodeError::UnrecognizedRoot { tag: root.name.clone() })
        }
    }
}

/// Decodes a JUnit XML report and normalizes it.
///
/// Fails with `Malformed` where the text holds no well-formed root element,
/// with `UnrecognizedRoot` where that element is neither `testsuites` nor
/// `testsuite`, and with the error of the first element that cannot be
/// decoded.
pub fn from_str(s: &str) -> (document: Result<TestSuitesOrTestSuite, DecodeError>)
    ensures
        outcome(document) == decoded(s@),
{
    match parse_tree(s) {
        Some(root) => match TestSuitesOrTestSuite::decode(&root) {
            Ok(mut document) => {
                document.trim_empty_items();
                Ok(document)
            },
            Err(error) => Err(error),
        },
        None => Err(DecodeError::Malformed),
    }
}

} // verus!
