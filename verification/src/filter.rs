//! The tag filter: removal of captured output on request.
//!
//! A set of tags chosen by the caller names the captured-output fields that
//! are to be left out. For each chosen tag the matching field of every suite
//! and of every test case of the document is made absent; every other field
//! stays as it is.

use vstd::prelude::*;
use vstd::seq_lib::{lemma_seq_concat_contains_all_elements, lemma_seq_contains_after_push};
use crate::cli::PossibleFilterTags;
use crate::model::{
    DocumentView, TestCase, TestCaseView, TestSuite, TestSuiteView, TestSuites,
    TestSuitesOrTestSuite, TestSuitesView,
};

verus! {

/// A captured-output field after the filter: absent if its tag is among
/// `tags`, unchanged if not.
pub open spec fn filtered_lines(
    lines: Option<Seq<Seq<char>>>,
    tag: PossibleFilterTags,
    tags: Seq<PossibleFilterTags>,
) -> Option<Seq<Seq<char>>> {
    if tags.contains(tag) {
        None
    } else {
        lines
    }
}

/// A test case after the filter.
pub open spec fn filtered_case(c: TestCaseView, tags: Seq<PossibleFilterTags>) -> TestCaseView {
    TestCaseView {
        system_out: filtered_lines(c.system_out, PossibleFilterTags::SystemOut, tags),
        system_err: filtered_lines(c.system_err, PossibleFilterTags::SystemErr, tags),
        ..c
    }
}

/// Every test case of a list after the filter.
pub open spec fn filtered_cases(cases: Seq<TestCaseView>, tags: Seq<PossibleFilterTags>) -> Seq<
    TestCaseView,
> {
    cases.map_values(|c: TestCaseView| filtered_case(c, tags))
}

/// A suite after the filter: its own captured output and that of each of its
/// test cases.
pub open spec fn filtered_suite(s: TestSuiteView, tags: Seq<PossibleFilterTags>) -> TestSuiteView {
    TestSuiteView {
        system_out: filtered_lines(s.system_out, PossibleFilterTags::SystemOut, tags),
        system_err: filtered_lines(s.system_err, PossibleFilterTags::SystemErr, tags),
        testcase: match s.testcase {
            Some(cases) => Some(filtered_cases(cases, tags)),
            None => None,
        },
        ..s
    }
}

/// Every suite of a list after the filter.
pub open spec fn filtered_suites(suites: Seq<TestSuiteView>, tags: Seq<PossibleFilterTags>) -> Seq<
    TestSuiteView,
> {
    suites.map_values(|s: TestSuiteView| filtered_suite(s, tags))
}

/// A `<testsuites>` wrapper after the filter: each of its suites is filtered.
pub open spec fn filtered_wrapper(w: TestSuitesView, tags: Seq<PossibleFilterTags>) -> TestSuitesView {
    TestSuitesView {
        testsuite: match w.testsuite {
            Some(suites) => Some(filtered_suites(suites, tags)),
            None => None,
        },
        ..w
    }
}

/// A document after the filter.
pub open spec fn filtered(d: DocumentView, tags: Seq<PossibleFilterTags>) -> DocumentView {
    match d {
        DocumentView::TestSuites(w) => DocumentView::TestSuites(filtered_wrapper(w, tags)),
        DocumentView::TestSuite(s) => DocumentView::TestSuite(filtered_suite(s, tags)),
    }
}

/// Makes the two captured-output fields absent as `tags` asks.
fn strip_lines(
    system_out: &mut Option<Vec<String>>,
    system_err: &mut Option<Vec<String>>,
    tags: &[PossibleFilterTags],
)
    ensures
        final(system_out).deep_view() == filtered_lines(
            old(system_out).deep_view(),
            PossibleFilterTags::SystemOut,
            tags@,
        ),
        final(system_err).deep_view() == filtered_lines(
            old(system_err).deep_view(),
            PossibleFilterTags::SystemErr,
            tags@,
        ),
{
    let mut i: usize = 0;
    while i < tags.len()
        invariant
            i <= tags.len(),
            system_out.deep_view() == filtered_lines(
                old(system_out).deep_view(),
                PossibleFilterTags::SystemOut,
                tags@.take(i as int),
            ),
            system_err.deep_view() == filtered_lines(
                old(system_err).deep_view(),
                PossibleFilterTags::SystemErr,
                tags@.take(i as int),
            ),
        decreases tags.len() - i,
    {
        proof {
            let seen = tags@.take(i as int);
            assert(tags@.take(i + 1) =~= seen.push(tags@[i as int]));
            lemma_seq_contains_after_push(seen, tags@[i as int], PossibleFilterTags::SystemOut);
            lemma_seq_contains_after_push(seen, tags@[i as int], PossibleFilterTags::SystemErr);
        }
        match tags[i] {
            PossibleFilterTags::SystemOut => {
                *system_out = None;
            },
            PossibleFilterTags::SystemErr => {
                *system_err = None;
            },
        }
        i += 1;
    }
    assert(tags@.take(tags.len() as int) =~= tags@);
}

impl TestCase {
    /// Makes the captured output that `tags` names absent.
    pub fn filter_tags(&mut self, tags: &[PossibleFilterTags])
        ensures
            final(self)@ == filtered_case(old(self)@, tags@),
    {
        strip_lines(&mut self.system_out, &mut self.system_err, tags);
    }
}

impl TestSuite {
    /// Makes the captured output that `tags` names absent, in the suite and in
    /// each of its test cases.
    pub fn filter_tags(&mut self, tags: &[PossibleFilterTags])
        ensures
            final(self)@ == filtered_suite(old(self)@, tags@),
    {
        strip_lines(&mut self.system_out, &mut self.system_err, tags);
        match &mut self.testcase {
            Some(cases) => {
                let ghost before = cases.deep_view();
                let mut i: usize = 0;
                while i < cases.len()
                    invariant
                        i <= cases.len(),
                        cases.len() == before.len(),
                        forall|j: int|
                            0 <= j < i ==> (#[trigger] cases@[j])@ == filtered_case(before[j], tags@),
                        forall|j: int| i <= j < before.len() ==> (#[trigger] cases@[j])@ == before[j],
                    decreases cases.len() - i,
                {
                    cases[i].filter_tags(tags);
                    i += 1;
                }
                assert(cases.deep_view() =~= filtered_cases(before, tags@));
            },
            None => {},
        }
    }
}

impl TestSuites {
    /// Makes the captured output that `tags` names absent in each suite of the
    /// wrapper.
    pub fn filter_tags(&mut self, tags: &[PossibleFilterTags])
        ensures
            final(self)@ == filtered_wrapper(old(self)@, tags@),
    {
        match &mut self.testsuite {
            Some(suites) => {
                let ghost before = suites.deep_view();
                let mut i: usize = 0;
                while i < suites.len()
                    invariant
                        i <= suites.len(),
                        suites.len() == before.len(),
                        forall|j: int|
                            0 <= j < i ==> (#[trigger] suites@[j])@ == filtered_suite(before[j], tags@),
                        forall|j: int| i <= j < before.len() ==> (#[trigger] suites@[j])@ == before[j],
                    decreases suites.len() - i,
                {
                    suites[i].filter_tags(tags);
                    i += 1;
                }
                assert(suites.deep_view() =~= filtered_suites(before, tags@));
            },
            None => {},
        }
    }
}

impl TestSuitesOrTestSuite {
    /// Makes the captured output that `tags` names absent in every suite and
    /// every test case of the document. With no tag the document stays as it
    /// is.
    pub fn filter_tags(&mut self, tags: &[PossibleFilterTags])
        ensures
            final(self)@ == filtered(old(self)@, tags@),
    {
        match self {
            TestSuitesOrTestSuite::TestSuites(suites) => suites.filter_tags(tags),
            TestSuitesOrTestSuite::TestSuite(suite) => suite.filter_tags(tags),
        }
    }
}

/// Whether two lists of tags choose the same tags.
pub open spec fn same_tags(a: Seq<PossibleFilterTags>, b: Seq<PossibleFilterTags>) -> bool {
    forall|t: PossibleFilterTags| a.contains(t) <==> b.contains(t)
}

/// The filter of a test case depends on the chosen tags alone, and filtering by
/// `a` and then by `b` is filtering by the tags of both.
pub proof fn lemma_filtered_case_laws(
    c: TestCaseView,
    a: Seq<PossibleFilterTags>,
    b: Seq<PossibleFilterTags>,
)
    ensures
        same_tags(a, b) ==> filtered_case(c, a) == filtered_case(c, b),
        filtered_case(filtered_case(c, a), b) == filtered_case(c, a + b),
{
    lemma_seq_concat_contains_all_elements(a, b, PossibleFilterTags::SystemOut);
    lemma_seq_concat_contains_all_elements(a, b, PossibleFilterTags::SystemErr);
}

/// The filter of a suite depends on the chosen tags alone, and filtering by `a`
/// and then by `b` is filtering by the tags of both.
pub proof fn lemma_filtered_suite_laws(
    s: TestSuiteView,
    a: Seq<PossibleFilterTags>,
    b: Seq<PossibleFilterTags>,
)
    ensures
        same_tags(a, b) ==> filtered_suite(s, a) == filtered_suite(s, b),
        filtered_suite(filtered_suite(s, a), b) == filtered_suite(s, a + b),
{
    lemma_seq_concat_contains_all_elements(a, b, PossibleFilterTags::SystemOut);
    lemma_seq_concat_contains_all_elements(a, b, PossibleFilterTags::SystemErr);
    if let Some(cases) = s.testcase {
        assert forall|i: int| 0 <= i < cases.len() implies {
            &&& same_tags(a, b) ==> filtered_case(cases[i], a) == filtered_case(cases[i], b)
            &&& filtered_case(#[trigger] filtered_cases(cases, a)[i], b) == filtered_case(
                cases[i],
                a + b,
            )
        } by {
            lemma_filtered_case_laws(cases[i], a, b);
        }
        if same_tags(a, b) {
            assert(filtered_cases(cases, a) =~= filtered_cases(cases, b));
        }
        assert(filtered_cases(filtered_cases(cases, a), b) =~= filtered_cases(cases, a + b));
    }
}

/// The filter of a `<testsuites>` wrapper depends on the chosen tags alone, and
/// filtering by `a` and then by `b` is filtering by the tags of both.
pub proof fn lemma_filtered_wrapper_laws(
    w: TestSuitesView,
    a: Seq<PossibleFilterTags>,
    b: Seq<PossibleFilterTags>,
)
    ensures
        same_tags(a, b) ==> filtered_wrapper(w, a) == filtered_wrapper(w, b),
        filtered_wrapper(filtered_wrapper(w, a), b) == filtered_wrapper(w, a + b),
{
    if let Some(suites) = w.testsuite {
        assert forall|i: int| 0 <= i < suites.len() implies {
            &&& same_tags(a, b) ==> filtered_suite(suites[i], a) == filtered_suite(suites[i], b)
            &&& filtered_suite(#[trigger] filtered_suites(suites, a)[i], b) == filtered_suite(
                suites[i],
                a + b,
            )
        } by {
            lemma_filtered_suite_laws(suites[i], a, b);
        }
        if same_tags(a, b) {
            assert(filtered_suites(suites, a) =~= filtered_suites(suites, b));
        }
        assert(filtered_suites(filtered_suites(suites, a), b) =~= filtered_suites(suites, a + b));
    }
}

/// The filter depends on which tags are chosen, not on their order or on how
/// often one is named.
pub proof fn lemma_filtered_by_tag_set(
    d: DocumentView,
    a: Seq<PossibleFilterTags>,
    b: Seq<PossibleFilterTags>,
)
    requires
        same_tags(a, b),
    ensures
        filtered(d, a) == filtered(d, b),
{
    match d {
        DocumentView::TestSuites(w) => lemma_filtered_wrapper_laws(w, a, b),
        DocumentView::TestSuite(s) => lemma_filtered_suite_laws(s, a, b),
    }
}

/// Filtering by `a` and then by `b` is filtering once by the tags of both.
pub proof fn lemma_filtered_twice(
    d: DocumentView,
    a: Seq<PossibleFilterTags>,
    b: Seq<PossibleFilterTags>,
)
    ensures
        filtered(filtered(d, a), b) == filtered(d, a + b),
{
    match d {
        DocumentView::TestSuites(w) => lemma_filtered_wrapper_laws(w, a, b),
        DocumentView::TestSuite(s) => lemma_filtered_suite_laws(s, a, b),
    }
}

/// The filter is idempotent: a second application with the same tags changes
/// nothing.
pub proof fn lemma_filtered_idempotent(d: DocumentView, tags: Seq<PossibleFilterTags>)
    ensures
        filtered(filtered(d, tags), tags) == filtered(d, tags),
{
    lemma_filtered_twice(d, tags, tags);
    assert(same_tags(tags + tags, tags)) by {
        assert forall|t: PossibleFilterTags| (tags + tags).contains(t) <==> tags.contains(t) by {
            lemma_seq_concat_contains_all_elements(tags, tags, t);
        }
    }
    lemma_filtered_by_tag_set(d, tags + tags, tags);
}

/// Filtering by both tags at once is filtering by the one and then by the
/// other, in either order.
pub proof fn lemma_filtered_both(d: DocumentView)
    ensures
        filtered(d, seq![PossibleFilterTags::SystemOut, PossibleFilterTags::SystemErr]) == filtered(
            filtered(d, seq![PossibleFilterTags::SystemOut]),
            seq![PossibleFilterTags::SystemErr],
        ),
        filtered(d, seq![PossibleFilterTags::SystemOut, PossibleFilterTags::SystemErr]) == filtered(
            filtered(d, seq![PossibleFilterTags::SystemErr]),
            seq![PossibleFilterTags::SystemOut],
        ),
{
    let out = seq![PossibleFilterTags::SystemOut];
    let err = seq![PossibleFilterTags::SystemErr];
    let both = seq![PossibleFilterTags::SystemOut, PossibleFilterTags::SystemErr];
    lemma_filtered_twice(d, out, err);
    lemma_filtered_twice(d, err, out);
    assert(out + err =~= both);
    assert(same_tags(err + out, both)) by {
        assert forall|t: PossibleFilterTags| (err + out).contains(t) <==> both.contains(t) by {
            assert((err + out)[0] == PossibleFilterTags::SystemErr);
            assert((err + out)[1] == PossibleFilterTags::SystemOut);
            assert(both[0] == PossibleFilterTags::SystemOut);
            assert(both[1] == PossibleFilterTags::SystemErr);
        }
    }
    lemma_filtered_by_tag_set(d, err + out, both);
}

/// With no tag the filter changes nothing.
pub proof fn lemma_filtered_by_none(d: DocumentView)
    ensures
        filtered(d, Seq::empty()) == d,
{
    let none = Seq::<PossibleFilterTags>::empty();
    match d {
        DocumentView::TestSuites(w) => {
            if let Some(suites) = w.testsuite {
                assert forall|i: int| 0 <= i < suites.len() implies #[trigger] filtered_suites(
                    suites,
                    none,
                )[i] == suites[i] by {
                    lemma_filtered_suite_by_none(suites[i]);
                }
                assert(filtered_suites(suites, none) =~= suites);
            }
        },
        DocumentView::TestSuite(s) => lemma_filtered_suite_by_none(s),
    }
}

/// With no tag the filter leaves a suite as it is.
pub proof fn lemma_filtered_suite_by_none(s: TestSuiteView)
    ensures
        filtered_suite(s, Seq::empty()) == s,
{
    let none = Seq::<PossibleFilterTags>::empty();
    if let Some(cases) = s.testcase {
        assert(filtered_cases(cases, none) =~= cases);
    }
}

} // verus!
