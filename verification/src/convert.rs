//! The conversion as a whole: decode, normalize, filter, emit.

use vstd::prelude::*;
use crate::cli::PossibleFilterTags;
use crate::decode::{decode_document, decoded, from_str, outcome, DecodeError, DecodeErrorView};
use crate::filter::{
    filtered, filtered_case, filtered_cases, filtered_suite, filtered_suites, filtered_wrapper,
};
use crate::json::{document_json, Json, JsonView};
use crate::model::{DocumentView, TestCaseView, TestSuiteView, TestSuitesView};
use crate::normalize::{
    lemma_normalized_idempotent, normalized, normalized_case, normalized_cases, normalized_suite,
    normalized_suites, normalized_wrapper,
};
use crate::xml::{document_tree, xml_tokens};

verus! {

/// The JSON value that a report converts to when the captured output that
/// `tags` names is left out; the error of the decoding where the report cannot
/// be decoded.
pub open spec fn converted(text: Seq<char>, tags: Seq<PossibleFilterTags>) -> Result<
    JsonView,
    DecodeErrorView,
> {
    match decoded(text) {
        Ok(d) => Ok(document_json(filtered(d, tags))),
        Err(error) => Err(error),
    }
}

/// Converts a JUnit XML report to its JSON value: the report is decoded and
/// normalized, the captured output that `tags` names is left out, and the
/// document that remains is emitted. With no tag nothing is left out.
pub fn convert(xml: &str, tags: &[PossibleFilterTags]) -> (json: Result<Json, DecodeError>)
    ensures
        outcome(json) == converted(xml@, tags@),
{
    match from_str(xml) {
        Ok(mut document) => {
            document.filter_tags(tags);
            Ok(document.to_json())
        },
        Err(error) => Err(error),
    }
}

/// A report whose root element is neither `testsuites` nor `testsuite` is not
/// converted: where the text has a root element of another name, decoding and
/// conversion fail, and the error names that element.
pub proof fn lemma_unrecognized_root_fails(text: Seq<char>, tags: Seq<PossibleFilterTags>)
    requires
        document_tree(xml_tokens(text)) matches Some(root) && root.name != "testsuites"@
            && root.name != "testsuite"@,
    ensures
        decoded(text) == Err::<DocumentView, DecodeErrorView>(
            DecodeErrorView::UnrecognizedRoot { tag: document_tree(xml_tokens(text))->0.name },
        ),
        converted(text, tags) is Err,
{
}

/// A text that holds no well-formed root element is not converted.
pub proof fn lemma_malformed_fails(text: Seq<char>, tags: Seq<PossibleFilterTags>)
    requires
        document_tree(xml_tokens(text)) is None,
    ensures
        decoded(text) == Err::<DocumentView, DecodeErrorView>(
            DecodeErrorView::Malformed,
        ),
        converted(text, tags) is Err,
{
}

/// What is decoded is normalized: to normalize it again changes nothing.
pub proof fn lemma_decoded_is_normalized(text: Seq<char>)
    ensures
        decoded(text) matches Ok(d) ==> normalized(d) == d,
{
    if let Some(root) = document_tree(xml_tokens(text)) {
        if let Ok(d) = decode_document(root) {
            lemma_normalized_idempotent(d);
        }
    }
}

/// The filter and the normalization of a test case do not disturb each other.
pub proof fn lemma_filtered_case_normalized(c: TestCaseView, tags: Seq<PossibleFilterTags>)
    ensures
        normalized_case(filtered_case(c, tags)) == filtered_case(normalized_case(c), tags),
{
}

/// The filter and the normalization of a suite do not disturb each other.
pub proof fn lemma_filtered_suite_normalized(s: TestSuiteView, tags: Seq<PossibleFilterTags>)
    ensures
        normalized_suite(filtered_suite(s, tags)) == filtered_suite(normalized_suite(s), tags),
{
    if let Some(cases) = s.testcase {
        assert forall|i: int| 0 <= i < cases.len() implies normalized_case(
            #[trigger] filtered_cases(cases, tags)[i],
        ) == filtered_case(normalized_cases(cases)[i], tags) by {
            lemma_filtered_case_normalized(cases[i], tags);
        }
        assert(normalized_cases(filtered_cases(cases, tags)) =~= filtered_cases(
            normalized_cases(cases),
            tags,
        ));
    }
}

/// The filter and the normalization of a wrapper do not disturb each other.
pub proof fn lemma_filtered_wrapper_normalized(w: TestSuitesView, tags: Seq<PossibleFilterTags>)
    ensures
        normalized_wrapper(filtered_wrapper(w, tags)) == filtered_wrapper(
            normalized_wrapper(w),
            tags,
        ),
{
    if let Some(suites) = w.testsuite {
        assert forall|i: int| 0 <= i < suites.len() implies normalized_suite(
            #[trigger] filtered_suites(suites, tags)[i],
        ) == filtered_suite(normalized_suites(suites)[i], tags) by {
            lemma_filtered_suite_normalized(suites[i], tags);
        }
        assert(normalized_suites(filtered_suites(suites, tags)) =~= filtered_suites(
            normalized_suites(suites),
            tags,
        ));
    }
}

/// The filter keeps a document normalized: the document that is emitted is
/// normalized whatever tags are left out.
pub proof fn lemma_filtered_stays_normalized(d: DocumentView, tags: Seq<PossibleFilterTags>)
    requires
        normalized(d) == d,
    ensures
        normalized(filtered(d, tags)) == filtered(d, tags),
{
    match d {
        DocumentView::TestSuites(w) => lemma_filtered_wrapper_normalized(w, tags),
        DocumentView::TestSuite(s) => lemma_filtered_suite_normalized(s, tags),
    }
}

} // verus!
