//! The document model of a JUnit report.
//!
//! Every attribute and child element that a report may leave out is an
//! `Option`: an absent field and a field holding an empty or zero value are
//! different documents. Each type has a view, a ghost value of the same shape
//! that holds texts as `Seq<char>` and lists as `Seq`, and the contracts of the
//! crate are stated over these views.

use vstd::prelude::*;
use crate::text::Decimal;

verus! {

/// View of a [`Property`].
pub ghost struct PropertyView {
    pub name: Option<Seq<char>>,
    pub value: Option<Seq<char>>,
}

/// View of a [`Properties`] container.
pub ghost struct PropertiesView {
    pub property: Option<Seq<PropertyView>>,
}

/// View of a [`Detail`].
pub ghost struct DetailView {
    pub message: Option<Seq<char>>,
    pub kind: Option<Seq<char>>,
    pub inner: Option<Seq<char>>,
}

/// View of a [`TestCase`].
pub ghost struct TestCaseView {
    pub name: Option<Seq<char>>,
    pub classname: Option<Seq<char>>,
    pub assertions: Option<u32>,
    pub time: Option<Seq<char>>,
    pub status: Option<Seq<char>>,
    pub file: Option<Seq<char>>,
    pub line: Option<u32>,
    pub system_out: Option<Seq<Seq<char>>>,
    pub system_err: Option<Seq<Seq<char>>>,
    pub skipped: Option<DetailView>,
    pub error: Option<DetailView>,
    pub failure: Option<DetailView>,
}

/// View of a [`TestSuite`].
pub ghost struct TestSuiteView {
    pub name: Option<Seq<char>>,
    pub tests: Option<u32>,
    pub failures: Option<u32>,
    pub errors: Option<u32>,
    pub group: Option<Seq<char>>,
    pub time: Option<Seq<char>>,
    pub disabled: Option<u32>,
    pub skipped: Option<u32>,
    pub timestamp: Option<Seq<char>>,
    pub hostname: Option<Seq<char>>,
    pub id: Option<Seq<char>>,
    pub package: Option<Seq<char>>,
    pub file: Option<Seq<char>>,
    pub log: Option<Seq<char>>,
    pub url: Option<Seq<char>>,
    pub system_out: Option<Seq<Seq<char>>>,
    pub system_err: Option<Seq<Seq<char>>>,
    pub properties: Option<PropertiesView>,
    pub testcase: Option<Seq<TestCaseView>>,
}

/// View of a [`TestSuites`] wrapper.
pub ghost struct TestSuitesView {
    pub name: Option<Seq<char>>,
    pub time: Option<Seq<char>>,
    pub tests: Option<u32>,
    pub failures: Option<u32>,
    pub errors: Option<u32>,
    pub testsuite: Option<Seq<TestSuiteView>>,
}

/// View of a [`TestSuitesOrTestSuite`] document.
pub ghost enum DocumentView {
    TestSuites(TestSuitesView),
    TestSuite(TestSuiteView),
}

impl PropertyView {
    /// The property that carries neither a name nor a value.
    pub open spec fn empty() -> PropertyView {
        PropertyView { name: None, value: None }
    }
}

impl PropertiesView {
    /// The container in which no `property` element was seen.
    pub open spec fn empty() -> PropertiesView {
        PropertiesView { property: None }
    }
}

impl DetailView {
    /// The detail with no attribute and no text.
    pub open spec fn empty() -> DetailView {
        DetailView { message: None, kind: None, inner: None }
    }
}

impl TestCaseView {
    /// The test case with every field absent.
    pub open spec fn empty() -> TestCaseView {
        TestCaseView {
            name: None,
            classname: None,
            assertions: None,
            time: None,
            status: None,
            file: None,
            line: None,
            system_out: None,
            system_err: None,
            skipped: None,
            error: None,
            failure: None,
        }
    }
}

impl TestSuiteView {
    /// The suite with every field absent.
    pub open spec fn empty() -> TestSuiteView {
        TestSuiteView {
            name: None,
            tests: None,
            failures: None,
            errors: None,
            group: None,
            time: None,
            disabled: None,
            skipped: None,
            timestamp: None,
            hostname: None,
            id: None,
            package: None,
            file: None,
            log: None,
            url: None,
            system_out: None,
            system_err: None,
            properties: None,
            testcase: None,
        }
    }
}

impl TestSuitesView {
    /// The wrapper with every field absent.
    pub open spec fn empty() -> TestSuitesView {
        TestSuitesView {
            name: None,
            time: None,
            tests: None,
            failures: None,
            errors: None,
            testsuite: None,
        }
    }
}

/// A `<property name=".." value=".."/>` element.
#[derive(Debug, PartialEq, Clone)]
pub struct Property {
    pub name: Option<String>,
    pub value: Option<String>,
}

/// A `<properties>` element: the container of the `<property>` elements of a
/// suite.
#[derive(Debug, PartialEq, Clone)]
pub struct Properties {
    pub property: Option<Vec<Property>>,
}

/// The outcome detail of a test case: a `<skipped>`, `<error>` or `<failure>`
/// element. `kind` holds the element's `type` attribute and `inner` its text.
#[derive(Debug, PartialEq, Clone)]
pub struct Detail {
    pub message: Option<String>,
    pub kind: Option<String>,
    pub inner: Option<String>,
}

/// A `<testcase>` element.
///
/// `time` is the duration in seconds; the three detail slots are independent
/// of each other.
#[derive(Debug, PartialEq, Clone)]
pub struct TestCase {
    pub name: Option<String>,
    pub classname: Option<String>,
    pub assertions: Option<u32>,
    pub time: Option<Decimal>,
    pub status: Option<String>,
    pub file: Option<String>,
    pub line: Option<u32>,
    pub system_out: Option<Vec<String>>,
    pub system_err: Option<Vec<String>>,
    pub skipped: Option<Detail>,
    pub error: Option<Detail>,
    pub failure: Option<Detail>,
}

/// A `<testsuite>` element.
///
/// The counts are the values that the report states; they are never compared
/// with the number of test cases that the suite holds. `time` is the duration
/// in seconds.
#[derive(Debug, PartialEq, Clone)]
pub struct TestSuite {
    pub name: Option<String>,
    pub tests: Option<u32>,
    pub failures: Option<u32>,
    pub errors: Option<u32>,
    pub group: Option<String>,
    pub time: Option<Decimal>,
    pub disabled: Option<u32>,
    pub skipped: Option<u32>,
    pub timestamp: Option<String>,
    pub hostname: Option<String>,
    pub id: Option<String>,
    pub package: Option<String>,
    pub file: Option<String>,
    pub log: Option<String>,
    pub url: Option<String>,
    pub system_out: Option<Vec<String>>,
    pub system_err: Option<Vec<String>>,
    pub properties: Option<Properties>,
    pub testcase: Option<Vec<TestCase>>,
}

/// A `<testsuites>` element: the wrapper around the suites of a report.
#[derive(Debug, PartialEq, Clone)]
pub struct TestSuites {
    pub name: Option<String>,
    pub time: Option<Decimal>,
    pub tests: Option<u32>,
    pub failures: Option<u32>,
    pub errors: Option<u32>,
    pub testsuite: Option<Vec<TestSuite>>,
}

/// A report: either a `<testsuites>` wrapper or a single bare `<testsuite>`.
#[derive(Debug, PartialEq, Clone)]
pub enum TestSuitesOrTestSuite {
    TestSuites(TestSuites),
    TestSuite(Box<TestSuite>),
}

impl DeepView for Property {
    type V = PropertyView;

    open spec fn deep_view(&self) -> PropertyView {
        PropertyView { name: self.name.deep_view(), value: self.value.deep_view() }
    }
}

impl View for Property {
    type V = PropertyView;

    open spec fn view(&self) -> PropertyView {
        self.deep_view()
    }
}

impl DeepView for Properties {
    type V = PropertiesView;

    open spec fn deep_view(&self) -> PropertiesView {
        PropertiesView { property: self.property.deep_view() }
    }
}

impl View for Properties {
    type V = PropertiesView;

    open spec fn view(&self) -> PropertiesView {
        self.deep_view()
    }
}

impl DeepView for Detail {
    type V = DetailView;

    open spec fn deep_view(&self) -> DetailView {
        DetailView {
            message: self.message.deep_view(),
            kind: self.kind.deep_view(),
            inner: self.inner.deep_view(),
        }
    }
}

impl View for Detail {
    type V = DetailView;

    open spec fn view(&self) -> DetailView {
        self.deep_view()
    }
}

impl DeepView for TestCase {
    type V = TestCaseView;

    open spec fn deep_view(&self) -> TestCaseView {
        TestCaseView {
            name: self.name.deep_view(),
            classname: self.classname.deep_view(),
            assertions: self.assertions,
            time: self.time.deep_view(),
            status: self.status.deep_view(),
            file: self.file.deep_view(),
            line: self.line,
            system_out: self.system_out.deep_view(),
            system_err: self.system_err.deep_view(),
            skipped: self.skipped.deep_view(),
            error: self.error.deep_view(),
            failure: self.failure.deep_view(),
        }
    }
}

impl View for TestCase {
    type V = TestCaseView;

    open spec fn view(&self) -> TestCaseView {
        self.deep_view()
    }
}

impl DeepView for TestSuite {
    type V = TestSuiteView;

    open spec fn deep_view(&self) -> TestSuiteView {
        TestSuiteView {
            name: self.name.deep_view(),
            tests: self.tests,
            failures: self.failures,
            errors: self.errors,
            group: self.group.deep_view(),
            time: self.time.deep_view(),
            disabled: self.disabled,
            skipped: self.skipped,
            timestamp: self.timestamp.deep_view(),
            hostname: self.hostname.deep_view(),
            id: self.id.deep_view(),
            package: self.package.deep_view(),
            file: self.file.deep_view(),
            log: self.log.deep_view(),
            url: self.url.deep_view(),
            system_out: self.system_out.deep_view(),
            system_err: self.system_err.deep_view(),
            properties: self.properties.deep_view(),
            testcase: self.testcase.deep_view(),
        }
    }
}

impl View for TestSuite {
    type V = TestSuiteView;

    open spec fn view(&self) -> TestSuiteView {
        self.deep_view()
    }
}

impl DeepView for TestSuites {
    type V = TestSuitesView;

    open spec fn deep_view(&self) -> TestSuitesView {
        TestSuitesView {
            name: self.name.deep_view(),
            time: self.time.deep_view(),
            tests: self.tests,
            failures: self.failures,
            errors: self.errors,
            testsuite: self.testsuite.deep_view(),
        }
    }
}

impl View for TestSuites {
    type V = TestSuitesView;

    open spec fn view(&self) -> TestSuitesView {
        self.deep_view()
    }
}

impl DeepView for TestSuitesOrTestSuite {
    type V = DocumentView;

    open spec fn deep_view(&self) -> DocumentView {
        match self {
            TestSuitesOrTestSuite::TestSuites(suites) => DocumentView::TestSuites(suites.deep_view()),
            TestSuitesOrTestSuite::TestSuite(suite) => DocumentView::TestSuite(suite.deep_view()),
        }
    }
}

impl View for TestSuitesOrTestSuite {
    type V = DocumentView;

    open spec fn view(&self) -> DocumentView {
        self.deep_view()
    }
}

impl Default for Property {
    fn default() -> (r: Property)
        ensures
            r@ == PropertyView::empty(),
    {
        Property { name: None, value: None }
    }
}

impl Default for Properties {
    fn default() -> (r: Properties)
        ensures
            r@ == PropertiesView::empty(),
    {
        Properties { property: None }
    }
}

impl Default for Detail {
    fn default() -> (r: Detail)
        ensures
            r@ == DetailView::empty(),
    {
        Detail { message: None, kind: None, inner: None }
    }
}

impl Default for TestCase {
    fn default() -> (r: TestCase)
        ensures
            r@ == TestCaseView::empty(),
    {
        TestCase {
            name: None,
            classname: None,
            assertions: None,
            time: None,
            status: None,
            file: None,
            line: None,
            system_out: None,
            system_err: None,
            skipped: None,
            error: None,
            failure: None,
        }
    }
}

impl Default for TestSuite {
    fn default() -> (r: TestSuite)
        ensures
            r@ == TestSuiteView::empty(),
    {
        TestSuite {
            name: None,
            tests: None,
            failures: None,
            errors: None,
            group: None,
            time: None,
            disabled: None,
            skipped: None,
            timestamp: None,
            hostname: None,
            id: None,
            package: None,
            file: None,
            log: None,
            url: None,
            system_out: None,
            system_err: None,
            properties: None,
            testcase: None,
        }
    }
}

impl Default for TestSuites {
    fn default() -> (r: TestSuites)
        ensures
            r@ == TestSuitesView::empty(),
    {
        TestSuites {
            name: None,
            time: None,
            tests: None,
            failures: None,
            errors: None,
            testsuite: None,
        }
    }
}

} // verus!
