//! Conversion of JUnit XML test reports into JSON.
//!
//! A report is read in four steps, each with its contract:
//!
//! 1. [`xml::parse_tree`] reads the XML text into the tree of its root element;
//! 2. [`TestSuitesOrTestSuite::decode`] turns the tree into the document model,
//!    choosing the shape of the document by the name of the root element;
//! 3. [`TestSuitesOrTestSuite::trim_empty_items`] normalizes the document, and
//!    [`TestSuitesOrTestSuite::filter_tags`] leaves out the captured output
//!    that the caller does not want;
//! 4. [`TestSuitesOrTestSuite::to_json`] emits the JSON value of the document.
//!
//! [`from_str`] does the first two steps and normalizes; [`convert`] does them
//! all.
//!
//! ```text
//! <testsuites>                        {"testsuites": {
//!   <testsuite failures="1"             "testsuite": [
//!              tests="2"/>                {"tests": 2, "failures": 1}
//! </testsuites>                         ]}}
//! ```
//!
//! Every field of the model is optional, and a field that the report leaves
//! out gives no member in the JSON value. A duration is a [`Decimal`], a
//! number kept as the text that the report gives for it.

pub mod cli;
pub mod convert;
pub mod decode;
pub mod filter;
pub mod json;
pub mod model;
pub mod normalize;
pub mod text;
pub mod xml;

pub use convert::convert;
pub use decode::{from_str, DecodeError, DecodeErrorView};
pub use json::{Json, JsonView};
pub use model::{
    Detail, DetailView, DocumentView, Properties, PropertiesView, Property, PropertyView,
    TestCase, TestCaseView, TestSuite, TestSuiteView, TestSuites, TestSuitesOrTestSuite,
    TestSuitesView,
};
pub use text::Decimal;
pub use xml::{Step, TreeBuilder, XmlElement, XmlElementView, XmlToken};
