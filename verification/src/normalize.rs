//! Normalization: the removal of entries that carry no information.
//!
//! A self-closing or empty element decodes to a value equal to the default of
//! its type. In a repeated element such a value says nothing, and it is
//! dropped; a `<properties>` container that is left without a property is
//! dropped as a whole.

use vstd::prelude::*;
use crate::model::{
    DocumentView, Properties, PropertiesView, Property, PropertyView, TestCase, TestCaseView,
    TestSuite, TestSuiteView, TestSuites, TestSuitesOrTestSuite, TestSuitesView,
};

verus! {

/// A type of repeated elements, with the test that tells the vacuous ones.
pub trait Vacuous: DeepView + Sized {
    /// Whether `v` is the view of the type's default value.
    spec fn is_default(v: <Self as DeepView>::V) -> bool;

    /// Whether `self` is equal to the default value of its type.
    fn is_vacuous(&self) -> (b: bool)
        ensures
            b == Self::is_default(self.deep_view()),
    ;
}

impl Vacuous for String {
    open spec fn is_default(v: Seq<char>) -> bool {
        v.len() == 0
    }

    fn is_vacuous(&self) -> (b: bool) {
        self.as_str().is_empty()
    }
}

impl Vacuous for Property {
    open spec fn is_default(v: PropertyView) -> bool {
        v == PropertyView::empty()
    }

    fn is_vacuous(&self) -> (b: bool) {
        self.name.is_none() && self.value.is_none()
    }
}

/// The items of `items` that are not vacuous, in their order.
pub open spec fn kept<T: Vacuous>(items: Seq<<T as DeepView>::V>) -> Seq<<T as DeepView>::V> {
    items.filter(|v: <T as DeepView>::V| !T::is_default(v))
}

/// A repeated element after normalization: an absent list stays absent, a
/// present one keeps its items that are not vacuous.
pub open spec fn trimmed<T: Vacuous>(items: Option<Seq<<T as DeepView>::V>>) -> Option<
    Seq<<T as DeepView>::V>,
> {
    match items {
        Some(s) => Some(kept::<T>(s)),
        None => None,
    }
}

/// Filtering a sequence extended by one item.
pub proof fn lemma_kept_push<T: Vacuous>(items: Seq<<T as DeepView>::V>, item: <T as DeepView>::V)
    ensures
        kept::<T>(items.push(item)) == if T::is_default(item) {
            kept::<T>(items)
        } else {
            kept::<T>(items).push(item)
        },
{
    reveal(Seq::filter);
    assert(items.push(item).drop_last() =~= items);
}

/// A sequence without vacuous items is left as it is.
pub proof fn lemma_kept_all<T: Vacuous>(items: Seq<<T as DeepView>::V>)
    requires
        forall|i: int| 0 <= i < items.len() ==> !T::is_default(#[trigger] items[i]),
    ensures
        kept::<T>(items) == items,
    decreases items.len(),
{
    reveal(Seq::filter);
    if items.len() > 0 {
        lemma_kept_all::<T>(items.drop_last());
        assert(items.drop_last().push(items.last()) =~= items);
    }
}

/// What is kept holds no vacuous item.
pub proof fn lemma_kept_holds_none<T: Vacuous>(items: Seq<<T as DeepView>::V>)
    ensures
        forall|i: int|
            0 <= i < kept::<T>(items).len() ==> !T::is_default(#[trigger] kept::<T>(items)[i]),
    decreases items.len(),
{
    reveal(Seq::filter);
    if items.len() > 0 {
        lemma_kept_holds_none::<T>(items.drop_last());
    }
}

/// Removes from a repeated element every item that is equal to the default
/// value of its type. An absent list stays absent; a list that loses all its
/// items stays, empty.
pub fn trim_default_items<T: Vacuous>(vec: &mut Option<Vec<T>>)
    ensures
        final(vec).deep_view() == trimmed::<T>(old(vec).deep_view()),
{
    match vec.take() {
        Some(items) => {
            let ghost all = items.deep_view();
            let mut out: Vec<T> = Vec::new();
            for item in it: items
                invariant
                    it.seq().len() == all.len(),
                    forall|i: int| 0 <= i < all.len() ==> #[trigger] it.seq()[i].deep_view() == all[i],
                    out.deep_view() == kept::<T>(all.take(it.index() as int)),
            {
                proof {
                    lemma_kept_push::<T>(all.take(it.index() as int), item.deep_view());
                    assert(all.take(it.index() + 1) =~= all.take(it.index() as int).push(
                        item.deep_view(),
                    ));
                }
                if !item.is_vacuous() {
                    let ghost before = out.deep_view();
                    out.push(item);
                    assert(out.deep_view() =~= before.push(item.deep_view()));
                }
            }
            assert(all.take(all.len() as int) =~= all);
            *vec = Some(out);
        },
        None => {},
    }
}

/// A `<properties>` container after normalization: its vacuous properties are
/// dropped.
pub open spec fn normalized_properties(p: PropertiesView) -> PropertiesView {
    PropertiesView { property: trimmed::<Property>(p.property) }
}

/// The `properties` field of a suite after normalization: a container that
/// holds no property after its vacuous ones are dropped is absent.
pub open spec fn normalized_properties_field(p: Option<PropertiesView>) -> Option<PropertiesView> {
    match p {
        Some(container) => match normalized_properties(container).property {
            Some(items) if items.len() > 0 => Some(normalized_properties(container)),
            _ => None,
        },
        None => None,
    }
}

/// A test case after normalization: the empty lines of its captured output are
/// dropped, and nothing else changes.
pub open spec fn normalized_case(c: TestCaseView) -> TestCaseView {
    TestCaseView {
        system_out: trimmed::<String>(c.system_out),
        system_err: trimmed::<String>(c.system_err),
        ..c
    }
}

/// Every test case of a list, normalized.
pub open spec fn normalized_cases(cases: Seq<TestCaseView>) -> Seq<TestCaseView> {
    cases.map_values(|c: TestCaseView| normalized_case(c))
}

/// A suite after normalization: the empty lines of its captured output are
/// dropped, its properties are normalized, and so is each of its test cases.
pub open spec fn normalized_suite(s: TestSuiteView) -> TestSuiteView {
    TestSuiteView {
        system_out: trimmed::<String>(s.system_out),
        system_err: trimmed::<String>(s.system_err),
        properties: normalized_properties_field(s.properties),
        testcase: match s.testcase {
            Some(cases) => Some(normalized_cases(cases)),
            None => None,
        },
        ..s
    }
}

/// Every suite of a list, normalized.
pub open spec fn normalized_suites(suites: Seq<TestSuiteView>) -> Seq<TestSuiteView> {
    suites.map_values(|s: TestSuiteView| normalized_suite(s))
}

/// A `<testsuites>` wrapper after normalization: each of its suites is
/// normalized.
pub open spec fn normalized_wrapper(w: TestSuitesView) -> TestSuitesView {
    TestSuitesView {
        testsuite: match w.testsuite {
            Some(suites) => Some(normalized_suites(suites)),
            None => None,
        },
        ..w
    }
}

/// A document after normalization.
pub open spec fn normalized(d: DocumentView) -> DocumentView {
    match d {
        DocumentView::TestSuites(w) => DocumentView::TestSuites(normalized_wrapper(w)),
        DocumentView::TestSuite(s) => DocumentView::TestSuite(normalized_suite(s)),
    }
}

impl Properties {
    /// Drops every property that has neither a name nor a value.
    pub fn trim_empty_items(&mut self)
        ensures
            final(self)@ == normalized_properties(old(self)@),
    {
        trim_default_items(&mut self.property);
    }
}

impl TestCase {
    /// Drops the empty lines of the captured output.
    pub fn trim_empty_items(&mut self)
        ensures
            final(self)@ == normalized_case(old(self)@),
    {
        trim_default_items(&mut self.system_out);
        trim_default_items(&mut self.system_err);
    }
}

impl TestSuite {
    /// Normalizes the suite and each of its test cases.
    pub fn trim_empty_items(&mut self)
        ensures
            final(self)@ == normalized_suite(old(self)@),
    {
        trim_default_items(&mut self.system_out);
        trim_default_items(&mut self.system_err);
        match self.properties.take() {
            Some(mut container) => {
                container.trim_empty_items();
                let holds_some = match &container.property {
                    Some(items) => items.len() > 0,
                    None => false,
                };
                if holds_some {
                    self.properties = Some(container);
                }
            },
            None => {},
        }
        match &mut self.testcase {
            Some(cases) => {
                let ghost before = cases.deep_view();
                let mut i: usize = 0;
                while i < cases.len()
                    invariant
                        i <= cases.len(),
                        cases.len() == before.len(),
                        forall|j: int|
                            0 <= j < i ==> (#[trigger] cases@[j])@ == normalized_case(before[j]),
                        forall|j: int| i <= j < before.len() ==> (#[trigger] cases@[j])@ == before[j],
                    decreases cases.len() - i,
                {
                    cases[i].trim_empty_items();
                    i += 1;
                }
                assert(cases.deep_view() =~= normalized_cases(before));
            },
            None => {},
        }
    }
}

impl TestSuites {
    /// Normalizes each suite of the wrapper.
    pub fn trim_empty_items(&mut self)
        ensures
            final(self)@ == normalized_wrapper(old(self)@),
    {
        match &mut self.testsuite {
            Some(suites) => {
                let ghost before = suites.deep_view();
                let mut i: usize = 0;
                while i < suites.len()
                    invariant
                        i <= suites.len(),
                        suites.len() == before.len(),
                        forall|j: int|
                            0 <= j < i ==> (#[trigger] suites@[j])@ == normalized_suite(before[j]),
                        forall|j: int| i <= j < before.len() ==> (#[trigger] suites@[j])@ == before[j],
                    decreases suites.len() - i,
                {
                    suites[i].trim_empty_items();
                    i += 1;
                }
                assert(suites.deep_view() =~= normalized_suites(before));
            },
            None => {},
        }
    }
}

impl TestSuitesOrTestSuite {
    /// Normalizes the document, whichever shape it has.
    pub fn trim_empty_items(&mut self)
        ensures
            final(self)@ == normalized(old(self)@),
    {
        match self {
            TestSuitesOrTestSuite::TestSuites(suites) => suites.trim_empty_items(),
            TestSuitesOrTestSuite::TestSuite(suite) => suite.trim_empty_items(),
        }
    }
}

/// Dropping the vacuous items a second time drops nothing.
pub proof fn lemma_trimmed_idempotent<T: Vacuous>(items: Option<Seq<<T as DeepView>::V>>)
    ensures
        trimmed::<T>(trimmed::<T>(items)) == trimmed::<T>(items),
{
    if let Some(s) = items {
        lemma_kept_holds_none::<T>(s);
        lemma_kept_all::<T>(kept::<T>(s));
    }
}

/// Normalizing a `<properties>` container twice gives what normalizing it once
/// gives.
pub proof fn lemma_normalized_properties_idempotent(p: PropertiesView)
    ensures
        normalized_properties(normalized_properties(p)) == normalized_properties(p),
{
    lemma_trimmed_idempotent::<Property>(p.property);
}

/// Normalizing a test case twice gives what normalizing it once gives.
pub proof fn lemma_normalized_case_idempotent(c: TestCaseView)
    ensures
        normalized_case(normalized_case(c)) == normalized_case(c),
{
    lemma_trimmed_idempotent::<String>(c.system_out);
    lemma_trimmed_idempotent::<String>(c.system_err);
}

/// Normalizing a suite twice gives what normalizing it once gives.
pub proof fn lemma_normalized_suite_idempotent(s: TestSuiteView)
    ensures
        normalized_suite(normalized_suite(s)) == normalized_suite(s),
{
    lemma_trimmed_idempotent::<String>(s.system_out);
    lemma_trimmed_idempotent::<String>(s.system_err);
    if let Some(container) = s.properties {
        lemma_normalized_properties_idempotent(container);
    }
    if let Some(cases) = s.testcase {
        assert forall|i: int| 0 <= i < cases.len() implies normalized_case(
            #[trigger] normalized_cases(cases)[i],
        ) == normalized_cases(cases)[i] by {
            lemma_normalized_case_idempotent(cases[i]);
        }
        assert(normalized_cases(normalized_cases(cases)) =~= normalized_cases(cases));
    }
}

/// Normalizing a `<testsuites>` wrapper twice gives what normalizing it once
/// gives.
pub proof fn lemma_normalized_wrapper_idempotent(w: TestSuitesView)
    ensures
        normalized_wrapper(normalized_wrapper(w)) == normalized_wrapper(w),
{
    if let Some(suites) = w.testsuite {
        assert forall|i: int| 0 <= i < suites.len() implies normalized_suite(
            #[trigger] normalized_suites(suites)[i],
        ) == normalized_suites(suites)[i] by {
            lemma_normalized_suite_idempotent(suites[i]);
        }
        assert(normalized_suites(normalized_suites(suites)) =~= normalized_suites(suites));
    }
}

/// Normalization is idempotent: a second application changes nothing.
pub proof fn lemma_normalized_idempotent(d: DocumentView)
    ensures
        normalized(normalized(d)) == normalized(d),
{
    match d {
        DocumentView::TestSuites(w) => lemma_normalized_wrapper_idempotent(w),
        DocumentView::TestSuite(s) => lemma_normalized_suite_idempotent(s),
    }
}

/// Whether a `<properties>` container says nothing: it holds no property, or
/// only properties without name and value.
pub open spec fn says_nothing(p: PropertiesView) -> bool {
    match p.property {
        Some(items) => forall|i: int| 0 <= i < items.len() ==> #[trigger] items[i] == PropertyView::empty(),
        None => true,
    }
}

/// The `properties` field of a normalized suite is absent exactly when the
/// suite had no `<properties>` container or one that says nothing.
pub proof fn lemma_properties_absent(s: TestSuiteView)
    ensures
        normalized_suite(s).properties is None <==> (s.properties matches Some(p) ==> says_nothing(p)),
{
    if let Some(p) = s.properties {
        if let Some(items) = p.property {
            lemma_kept_holds_none::<Property>(items);
            if says_nothing(p) {
                if kept::<Property>(items).len() > 0 {
                    Seq::lemma_filter_contains_rev(
                        items,
                        |v: PropertyView| !Property::is_default(v),
                        kept::<Property>(items)[0],
                    );
                }
            } else {
                let i = choose|i: int| 0 <= i < items.len() && items[i] != PropertyView::empty();
                Seq::lemma_filter_contains(items, |v: PropertyView| !Property::is_default(v), i);
            }
        }
    }
}

} // verus!
