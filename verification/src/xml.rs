//! Reading XML: from text to tokens, and from tokens to a tree of elements.
//!
//! The text is split into tokens by the `quick_xml` reader; what the reader
//! yields is taken on trust and named by [`xml_tokens`]. How the tokens nest
//! into a tree, and which white space around character data counts, is this
//! module's own, and verified: [`advance`] states what one token does,
//! [`TreeBuilder::push`] does it, [`document_tree`] states the whole and
//! [`parse_tree`] computes it.

use vstd::prelude::*;
use vstd::string::StringExecFns;
use crate::text::{trim_end, trim_start, without_leading_space, without_trailing_space};

verus! {

/// One token of an XML text.
#[derive(Debug, PartialEq, Clone)]
pub enum XmlToken {
    /// A start tag: the element's name and the rest of the tag, which holds
    /// its attributes as they are written. A self-closing tag is an `Open`
    /// followed by a `Close`.
    Open { name: String, attributes: String },
    /// An end tag.
    Close,
    /// Character data between two pieces of markup, as it is written: with
    /// the white space around it and with its entity references in place.
    Text(String),
    /// The content of a CDATA section.
    CData(String),
    /// A document type declaration.
    DocType,
    /// A comment, a processing instruction or the XML declaration.
    Other,
    /// The end of the text.
    End,
    /// Text that is not well-formed at this place.
    Invalid,
}

/// View of an [`XmlToken`].
pub ghost enum XmlTokenView {
    Open { name: Seq<char>, attributes: Seq<char> },
    Close,
    Text(Seq<char>),
    CData(Seq<char>),
    DocType,
    Other,
    End,
    Invalid,
}

impl DeepView for XmlToken {
    type V = XmlTokenView;

    open spec fn deep_view(&self) -> XmlTokenView {
        match self {
            XmlToken::Open { name, attributes } => XmlTokenView::Open {
                name: name@,
                attributes: attributes@,
            },
            XmlToken::Close => XmlTokenView::Close,
            XmlToken::Text(text) => XmlTokenView::Text(text@),
            XmlToken::CData(text) => XmlTokenView::CData(text@),
            XmlToken::DocType => XmlTokenView::DocType,
            XmlToken::Other => XmlTokenView::Other,
            XmlToken::End => XmlTokenView::End,
            XmlToken::Invalid => XmlTokenView::Invalid,
        }
    }
}

impl View for XmlToken {
    type V = XmlTokenView;

    open spec fn view(&self) -> XmlTokenView {
        self.deep_view()
    }
}

/// An element of an XML document.
#[derive(Debug, PartialEq)]
pub struct XmlElement {
    /// The name of the element's tag.
    pub name: String,
    /// The attributes of the start tag, each a name and a value, in their
    /// order. The values have their entity references resolved.
    pub attributes: Vec<(String, String)>,
    /// The character data directly inside the element, in one piece: entity
    /// references resolved, and without the white space that stands next to
    /// a tag.
    pub text: String,
    /// The elements directly inside the element, in their order.
    pub children: Vec<XmlElement>,
}

/// View of an [`XmlElement`].
pub ghost struct XmlElementView {
    pub name: Seq<char>,
    pub attributes: Seq<(Seq<char>, Seq<char>)>,
    pub text: Seq<char>,
    pub children: Seq<XmlElementView>,
}

impl XmlElement {
    /// The element as a ghost value: its texts as sequences of characters, and
    /// each of its children likewise.
    pub open spec fn tree(self) -> XmlElementView
        decreases self,
    {
        XmlElementView {
            name: self.name@,
            attributes: self.attributes.deep_view(),
            text: self.text@,
            children: Seq::new(
                self.children@.len(),
                |i: int|
                    if 0 <= i < self.children@.len() {
                        self.children@[i].tree()
                    } else {
                        arbitrary()
                    },
            ),
        }
    }
}

impl DeepView for XmlElement {
    type V = XmlElementView;

    open spec fn deep_view(&self) -> XmlElementView {
        self.tree()
    }
}

impl View for XmlElement {
    type V = XmlElementView;

    open spec fn view(&self) -> XmlElementView {
        self.deep_view()
    }
}

/// The tokens of an XML text, as a new `quick_xml` reader yields them when it
/// splits a self-closing tag in two: up to and including the first `End` or
/// `Invalid`.
pub uninterp spec fn xml_tokens(text: Seq<char>) -> Seq<XmlTokenView>;

/// The tokens that a reader yields from the state it is in, up to and
/// including the first `End` or `Invalid`.
pub uninterp spec fn pending_tokens(reader: quick_xml::Reader<&[u8]>) -> Seq<XmlTokenView>;

/// The text that an escaped text stands for: every entity reference replaced
/// by what it names, as `quick_xml::escape::unescape` does it; `None` where a
/// reference is not terminated or names nothing.
pub uninterp spec fn unescaped(raw: Seq<char>) -> Option<Seq<char>>;

/// The attributes that the rest of a start tag holds, each a name and a value
/// as it is written between its quotes, as the attribute iterator of
/// `quick_xml` yields them; `None` where it reports an error: an attribute is
/// not of the form `name="value"`, or a name occurs twice.
pub uninterp spec fn xml_attributes(raw: Seq<char>) -> Option<Seq<(Seq<char>, Seq<char>)>>;

/// Whether a token ends a token sequence.
pub open spec fn is_last(token: XmlTokenView) -> bool {
    token is End || token is Invalid
}

/// Whether a token sequence ends with `End` or `Invalid`.
pub open spec fn terminated(tokens: Seq<XmlTokenView>) -> bool {
    tokens.len() > 0 && is_last(tokens.last())
}

/// The `quick_xml` reader.
#[verifier::external_type_specification]
#[verifier::external_body]
#[verifier::reject_recursive_types(R)]
pub struct ExReader<R>(quick_xml::Reader<R>);

/// Makes a `quick_xml::Reader` over `xml` with `Reader::from_str`, and sets it
/// to expand empty elements. The reader will yield the tokens of `xml`, and
/// these end with `End` or `Invalid`: the text is finite.
#[verifier::external_body]
fn open_reader<'a>(xml: &'a str) -> (reader: quick_xml::Reader<&'a [u8]>)
    ensures
        pending_tokens(reader) == xml_tokens(xml@),
        terminated(pending_tokens(reader)),
{
    let mut reader = quick_xml::Reader::from_str(xml);
    reader.config_mut().expand_empty_elements = true;
    reader
}

/// Reads one event with `Reader::read_event` and hands it out as a token: the
/// first of the pending ones. An error of the reader is the token `Invalid`.
/// Unless the token is `End` or `Invalid`, the reader then yields the tokens
/// that were pending behind it; of a reader that has yielded `End` or
/// `Invalid` nothing is said.
#[verifier::external_body]
fn next_token<'a>(reader: &mut quick_xml::Reader<&'a [u8]>) -> (token: XmlToken)
    requires
        pending_tokens(*old(reader)).len() > 0,
    ensures
        token@ == pending_tokens(*old(reader))[0],
        !is_last(token@) ==> pending_tokens(*final(reader)) == pending_tokens(*old(reader)).skip(1),
{
    match reader.read_event() {
        Ok(quick_xml::events::Event::Start(e)) => XmlToken::Open {
            name: String::from_utf8_lossy(e.name().0).into_owned(),
            attributes: String::from_utf8_lossy(e.attributes_raw()).into_owned(),
        },
        Ok(quick_xml::events::Event::End(_)) => XmlToken::Close,
        Ok(quick_xml::events::Event::Text(e)) => XmlToken::Text(String::from_utf8_lossy(&e).into_owned()),
        Ok(quick_xml::events::Event::CData(e)) => XmlToken::CData(String::from_utf8_lossy(&e).into_owned()),
        Ok(quick_xml::events::Event::DocType(_)) => XmlToken::DocType,
        Ok(quick_xml::events::Event::Eof) => XmlToken::End,
        Ok(_) => XmlToken::Other,
        Err(_) => XmlToken::Invalid,
    }
}

/// Resolves the entity references of `raw` with `quick_xml::escape::unescape`.
#[verifier::external_body]
fn unescape(raw: &str) -> (text: Option<String>)
    ensures
        text.deep_view() == unescaped(raw@),
{
    quick_xml::escape::unescape(raw).ok().map(|text| text.into_owned())
}

/// Splits the rest of a start tag into its attributes with
/// `quick_xml::events::attributes::Attributes`, from the first attribute to
/// the last or to the first error.
#[verifier::external_body]
fn split_attributes(raw: &str) -> (attributes: Option<Vec<(String, String)>>)
    ensures
        attributes.deep_view() == xml_attributes(raw@),
{
    quick_xml::events::attributes::Attributes::new(raw, 0)
        .map(|a| a.map(|a| (
            String::from_utf8_lossy(a.key.0).into_owned(),
            String::from_utf8_lossy(&a.value).into_owned(),
        )))
        .collect::<Result<Vec<_>, _>>()
        .ok()
}

/// The attributes `pairs` with the entity references of their values
/// resolved; `None` where one of the values holds a reference that cannot be
/// resolved.
pub open spec fn resolved(pairs: Seq<(Seq<char>, Seq<char>)>) -> Option<
    Seq<(Seq<char>, Seq<char>)>,
>
    decreases pairs.len(),
{
    if pairs.len() == 0 {
        Some(Seq::empty())
    } else {
        match (resolved(pairs.drop_last()), unescaped(pairs.last().1)) {
            (Some(before), Some(value)) => Some(before.push((pairs.last().0, value))),
            _ => None,
        }
    }
}

/// The attributes that the rest of a start tag holds, with the entity
/// references of their values resolved; `None` where the tag is not
/// well-formed.
pub open spec fn attributes_of(raw: Seq<char>) -> Option<Seq<(Seq<char>, Seq<char>)>> {
    match xml_attributes(raw) {
        Some(pairs) => resolved(pairs),
        None => None,
    }
}

/// Where the first pairs cannot be resolved, the whole cannot.
proof fn lemma_resolved_prefix(pairs: Seq<(Seq<char>, Seq<char>)>, n: int)
    requires
        0 <= n <= pairs.len(),
        resolved(pairs.take(n)) is None,
    ensures
        resolved(pairs) is None,
    decreases pairs.len() - n,
{
    if n == pairs.len() {
        assert(pairs.take(n) =~= pairs);
    } else {
        assert(pairs.drop_last().take(n) =~= pairs.take(n));
        lemma_resolved_prefix(pairs.drop_last(), n);
    }
}

/// Reads the attributes of a start tag. See [`attributes_of`].
fn read_attributes(raw: &str) -> (attributes: Option<Vec<(String, String)>>)
    ensures
        attributes.deep_view() == attributes_of(raw@),
{
    match split_attributes(raw) {
        Some(pairs) => {
            let ghost all = pairs.deep_view();
            let mut out: Vec<(String, String)> = Vec::new();
            for pair in it: pairs
                invariant
                    it.seq().len() == all.len(),
                    forall|i: int|
                        0 <= i < all.len() ==> #[trigger] it.seq()[i].deep_view() == all[i],
                    xml_attributes(raw@) == Some(all),
                    resolved(all.take(it.index() as int)) == Some(out.deep_view()),
            {
                let ghost seen = all.take(it.index() as int);
                let ghost next = all.take(it.index() + 1);
                assert(next.drop_last() =~= seen);
                assert(next.last() == pair.deep_view());
                let (name, value) = pair;
                match unescape(value.as_str()) {
                    Some(value) => {
                        let ghost before = out.deep_view();
                        out.push((name, value));
                        assert(out.deep_view() =~= before.push((name@, value@)));
                    },
                    None => {
                        proof {
                            lemma_resolved_prefix(all, it.index() + 1);
                        }
                        return None;
                    },
                }
            }
            assert(all.take(all.len() as int) =~= all);
            Some(out)
        },
        None => None,
    }
}

/// A new element with the given name and attributes, and nothing inside.
pub open spec fn opened(name: Seq<char>, attributes: Seq<(Seq<char>, Seq<char>)>) -> XmlElementView {
    XmlElementView { name, attributes, text: Seq::empty(), children: Seq::empty() }
}

/// The stack of open elements after the innermost has got more text.
pub open spec fn with_text(stack: Seq<XmlElementView>, text: Seq<char>) -> Seq<XmlElementView>
    recommends
        stack.len() >= 1,
{
    let top = stack.last();
    stack.drop_last().push(XmlElementView { text: top.text + text, ..top })
}

/// The stack of open elements after the innermost is closed: it becomes the
/// last child of the element around it.
pub open spec fn with_closed(stack: Seq<XmlElementView>) -> Seq<XmlElementView>
    recommends
        stack.len() >= 2,
{
    let child = stack.last();
    let parent = stack[stack.len() - 2];
    stack.take(stack.len() - 2).push(
        XmlElementView { children: parent.children.push(child), ..parent },
    )
}

/// View of a [`TreeBuilder`]: how far a document is read.
pub ghost struct ReadingView {
    /// The elements that are open, outermost first.
    pub open: Seq<XmlElementView>,
    /// Whether no character data was kept since the last tag.
    pub fresh: bool,
    /// The last piece of text, as it is written, until it is known whether
    /// character data follows it.
    pub held: Option<Seq<char>>,
}

/// View of a [`Step`].
pub ghost enum StepView {
    Continue(ReadingView),
    Finished(Option<XmlElementView>),
}

impl ReadingView {
    /// The reading before the first token.
    pub open spec fn start() -> ReadingView {
        ReadingView { open: Seq::empty(), fresh: true, held: None }
    }

    /// The reading after a tag, with `open` as the open elements.
    pub open spec fn after_tag(open: Seq<XmlElementView>) -> ReadingView {
        ReadingView { open, fresh: true, held: None }
    }
}

/// The open elements once the text that is held has gone into the innermost
/// of them, with its entity references resolved. Where `last` holds, the text
/// is the last character data before a tag, and the white space behind it is
/// dropped. `None` where a reference cannot be resolved.
pub open spec fn settled(r: ReadingView, last: bool) -> Option<Seq<XmlElementView>> {
    match r.held {
        None => Some(r.open),
        Some(raw) => match unescaped(
            if last {
                without_trailing_space(raw)
            } else {
                raw
            },
        ) {
            Some(text) if r.open.len() > 0 => Some(with_text(r.open, text)),
            _ => None,
        },
    }
}

/// What one token does to a reading.
///
/// A start tag opens an element and an end tag closes the innermost open one;
/// the end tag of the outermost element finishes the tree. Character data
/// goes to the innermost open element: a CDATA section as it is, other text
/// with its entity references resolved. Of the character data between two
/// tags, the white space in front of the first text and behind the last text
/// is dropped, and a text of white space alone in front is dropped whole;
/// comments and processing instructions in between change nothing to that,
/// and a document type declaration counts as a tag. The reading finishes
/// without a tree where the tokens end before the root is closed, where
/// character data stands outside the root, where a start tag holds attributes
/// that are not well-formed, and where an entity reference cannot be resolved.
pub open spec fn advance(r: ReadingView, token: XmlTokenView) -> StepView {
    match token {
        XmlTokenView::Other => StepView::Continue(r),
        XmlTokenView::End => StepView::Finished(None),
        XmlTokenView::Invalid => StepView::Finished(None),
        XmlTokenView::Text(raw) => if r.fresh {
            let text = without_leading_space(raw);
            if text.len() == 0 {
                StepView::Continue(r)
            } else if r.open.len() == 0 {
                StepView::Finished(None)
            } else {
                StepView::Continue(ReadingView { open: r.open, fresh: false, held: Some(text) })
            }
        } else {
            match settled(r, false) {
                Some(open) => StepView::Continue(
                    ReadingView { open, fresh: false, held: Some(raw) },
                ),
                None => StepView::Finished(None),
            }
        },
        XmlTokenView::CData(text) => match settled(r, false) {
            Some(open) if open.len() > 0 => StepView::Continue(
                ReadingView { open: with_text(open, text), fresh: false, held: None },
            ),
            _ => StepView::Finished(None),
        },
        XmlTokenView::DocType => match settled(r, true) {
            Some(open) => StepView::Continue(ReadingView::after_tag(open)),
            None => StepView::Finished(None),
        },
        XmlTokenView::Open { name, attributes } => match (
            settled(r, true),
            attributes_of(attributes),
        ) {
            (Some(open), Some(pairs)) => StepView::Continue(
                ReadingView::after_tag(open.push(opened(name, pairs))),
            ),
            _ => StepView::Finished(None),
        },
        XmlTokenView::Close => match settled(r, true) {
            Some(open) => if open.len() == 0 {
                StepView::Finished(None)
            } else if open.len() == 1 {
                StepView::Finished(Some(open[0]))
            } else {
                StepView::Continue(ReadingView::after_tag(with_closed(open)))
            },
            None => StepView::Finished(None),
        },
    }
}

/// The root element that `tokens` complete when they are read from the
/// reading `r` on: each token does what [`advance`] says, until one finishes
/// the reading. What follows that token is not looked at. There is no tree
/// where no token finishes the reading.
pub open spec fn tree_of(tokens: Seq<XmlTokenView>, r: ReadingView) -> Option<XmlElementView>
    decreases tokens.len(),
{
    if tokens.len() == 0 {
        None
    } else {
        match advance(r, tokens[0]) {
            StepView::Continue(next) => tree_of(tokens.skip(1), next),
            StepView::Finished(tree) => tree,
        }
    }
}

/// The root element of the document that `tokens` hold, if they hold one.
pub open spec fn document_tree(tokens: Seq<XmlTokenView>) -> Option<XmlElementView> {
    tree_of(tokens, ReadingView::start())
}

/// Adds `text` to the innermost open element.
fn add_text(stack: &mut Vec<XmlElement>, text: &str)
    requires
        old(stack).len() >= 1,
    ensures
        final(stack).deep_view() == with_text(old(stack).deep_view(), text@),
{
    let ghost before = stack.deep_view();
    match stack.pop() {
        Some(mut top) => {
            let ghost children = top.deep_view().children;
            top.text.append(text);
            assert(top.deep_view().children =~= children);
            stack.push(top);
            assert(stack.deep_view() =~= with_text(before, text@));
        },
        None => {},
    }
}

/// Closes the innermost open element.
fn close_top(stack: &mut Vec<XmlElement>)
    requires
        old(stack).len() >= 2,
    ensures
        final(stack).deep_view() == with_closed(old(stack).deep_view()),
{
    let ghost before = stack.deep_view();
    let child = stack.pop().unwrap();
    let parent = stack.pop().unwrap();
    let ghost around = parent.deep_view();
    let XmlElement { name, attributes, text, mut children } = parent;
    children.push(child);
    let parent = XmlElement { name, attributes, text, children };
    assert(parent.deep_view().children =~= around.children.push(child.deep_view()));
    stack.push(parent);
    assert(stack.deep_view() =~= with_closed(before));
}

/// A tree under construction: the elements that are open, and the text that
/// is held until the next token tells whether character data follows it.
#[derive(Debug)]
pub struct TreeBuilder {
    stack: Vec<XmlElement>,
    fresh: bool,
    held: Option<String>,
}

/// What a token did to a tree under construction.
#[derive(Debug)]
pub enum Step {
    /// The reading goes on.
    Continue(TreeBuilder),
    /// The reading is finished, with the tree of the root element or without
    /// one.
    Finished(Option<XmlElement>),
}

impl View for TreeBuilder {
    type V = ReadingView;

    closed spec fn view(&self) -> ReadingView {
        ReadingView { open: self.stack.deep_view(), fresh: self.fresh, held: self.held.deep_view() }
    }
}

impl View for Step {
    type V = StepView;

    open spec fn view(&self) -> StepView {
        match self {
            Step::Continue(builder) => StepView::Continue(builder@),
            Step::Finished(tree) => StepView::Finished(tree.deep_view()),
        }
    }
}

/// Puts the text that is held into the innermost open element. See
/// [`settled`]. Returns whether that could be done.
fn settle(stack: &mut Vec<XmlElement>, held: Option<String>, last: bool) -> (done: bool)
    ensures
        match settled(
            ReadingView { open: old(stack).deep_view(), fresh: false, held: held.deep_view() },
            last,
        ) {
            Some(open) => done && final(stack).deep_view() == open,
            None => !done,
        },
{
    match held {
        None => true,
        Some(raw) => {
            let resolved = if last {
                let text = trim_end(raw.as_str());
                unescape(text.as_str())
            } else {
                unescape(raw.as_str())
            };
            match resolved {
                Some(text) => {
                    if stack.len() == 0 {
                        return false;
                    }
                    add_text(stack, text.as_str());
                    true
                },
                None => false,
            }
        },
    }
}

impl TreeBuilder {
    /// A tree of which nothing is read yet.
    pub fn new() -> (builder: TreeBuilder)
        ensures
            builder@ == ReadingView::start(),
    {
        let builder = TreeBuilder { stack: Vec::new(), fresh: true, held: None };
        assert(builder.stack.deep_view() =~= Seq::empty());
        builder
    }

    /// Reads one token. See [`advance`].
    pub fn push(self, token: XmlToken) -> (step: Step)
        ensures
            step@ == advance(self@, token@),
    {
        let TreeBuilder { mut stack, fresh, held } = self;
        match token {
            XmlToken::Other => Step::Continue(TreeBuilder { stack, fresh, held }),
            XmlToken::End => Step::Finished(None),
            XmlToken::Invalid => Step::Finished(None),
            XmlToken::Text(raw) => {
                if fresh {
                    let text = trim_start(raw.as_str());
                    if text.as_str().is_empty() {
                        Step::Continue(TreeBuilder { stack, fresh, held })
                    } else if stack.len() == 0 {
                        Step::Finished(None)
                    } else {
                        Step::Continue(TreeBuilder { stack, fresh: false, held: Some(text) })
                    }
                } else if settle(&mut stack, held, false) {
                    Step::Continue(TreeBuilder { stack, fresh: false, held: Some(raw) })
                } else {
                    Step::Finished(None)
                }
            },
            XmlToken::CData(text) => {
                if settle(&mut stack, held, false) && stack.len() > 0 {
                    add_text(&mut stack, text.as_str());
                    Step::Continue(TreeBuilder { stack, fresh: false, held: None })
                } else {
                    Step::Finished(None)
                }
            },
            XmlToken::DocType => {
                if settle(&mut stack, held, true) {
                    Step::Continue(TreeBuilder { stack, fresh: true, held: None })
                } else {
                    Step::Finished(None)
                }
            },
            XmlToken::Open { name, attributes } => {
                if !settle(&mut stack, held, true) {
                    return Step::Finished(None);
                }
                match read_attributes(attributes.as_str()) {
                    Some(pairs) => {
                        let ghost open = stack.deep_view();
                        let element = XmlElement {
                            name,
                            attributes: pairs,
                            text: String::new(),
                            children: Vec::new(),
                        };
                        assert(element.deep_view() == opened(name@, pairs.deep_view())) by {
                            assert(element.deep_view().children =~= Seq::empty());
                        }
                        stack.push(element);
                        assert(stack.deep_view() =~= open.push(opened(name@, pairs.deep_view())));
                        Step::Continue(TreeBuilder { stack, fresh: true, held: None })
                    },
                    None => Step::Finished(None),
                }
            },
            XmlToken::Close => {
                if !settle(&mut stack, held, true) {
                    return Step::Finished(None);
                }
                if stack.len() == 0 {
                    Step::Finished(None)
                } else if stack.len() == 1 {
                    Step::Finished(stack.pop())
                } else {
                    close_top(&mut stack);
                    Step::Continue(TreeBuilder { stack, fresh: true, held: None })
                }
            },
        }
    }
}

/// Reads `xml` into the tree of its root element. `None` where `xml` holds no
/// well-formed root element.
pub fn parse_tree(xml: &str) -> (tree: Option<XmlElement>)
    ensures
        tree.deep_view() == document_tree(xml_tokens(xml@)),
{
    let mut reader = open_reader(xml);
    let mut builder = TreeBuilder::new();
    loop
        invariant
            terminated(pending_tokens(reader)),
            tree_of(pending_tokens(reader), builder@) == document_tree(xml_tokens(xml@)),
        decreases pending_tokens(reader).len(),
    {
        let token = next_token(&mut reader);
        match builder.push(token) {
            Step::Continue(next) => {
                builder = next;
            },
            Step::Finished(tree) => {
                return tree;
            },
        }
    }
}

} // verus!
