//! Reading the entries of an index page: each entry is a link whose target is the
//! entry's page and whose text is the headword.

use crate::dom::{
    attrs_view, forest_view, Attr, AttrView, DocNode, DocNodeView, NodeKind, NodeKindView,
};
use crate::html::{can_parse, is_parsable, parse_html, parsed_document};
use crate::text::{all_whitespace, ascii_lowercase, is_all_whitespace, text_eq, to_ascii_lowercase};
use vstd::prelude::*;

verus! {

/// One entry of an index: the headword in lower case, and the link to its page.
#[derive(Debug, PartialEq, Eq)]
pub struct ParsedWord {
    pub name: String,
    pub link: String,
}

/// Mathematical model of a [`ParsedWord`].
pub struct ParsedWordView {
    pub name: Seq<char>,
    pub link: Seq<char>,
}

impl View for ParsedWord {
    type V = ParsedWordView;

    open spec fn view(&self) -> ParsedWordView {
        ParsedWordView { name: self.name@, link: self.link@ }
    }
}

impl Clone for ParsedWord {
    /// A copy with the same model.
    fn clone(&self) -> (copy: ParsedWord)
        ensures
            copy@ == self@,
    {
        ParsedWord { name: self.name.clone(), link: self.link.clone() }
    }
}

/// Why a node of an index is not an entry.
#[derive(Clone, Copy, Debug, PartialEq, Eq, Structural)]
pub enum TagError {
    /// The element has no `href` attribute.
    MissingHref,
    /// The node is neither an element nor a blank text.
    NotAnElement,
    /// The element has no children.
    NoChildren,
    /// The first child of the element is not a text.
    FirstChildNotText,
}

/// Why an index page yields no entries.
#[derive(Clone, Copy, Debug, PartialEq, Eq, Structural)]
pub enum IndexError {
    /// The page lacks the wrapper whose second child holds the entries, or is too
    /// long to parse.
    MalformedDocument,
    /// The node at `position` among the entries is not an entry.
    Tag { position: usize, kind: TagError },
}

/// Why a series of index pages yields no entries: the page at position `page` fails.
#[derive(Clone, Copy, Debug, PartialEq, Eq, Structural)]
pub struct PageError {
    pub page: usize,
    pub error: IndexError,
}

/// The attribute that holds the link of an entry.
pub open spec fn link_attribute() -> Seq<char> {
    "href"@
}

/// The value of the first `href` attribute from position `from` on, if there is one.
pub open spec fn href_from(attrs: Seq<AttrView>, from: int) -> Option<Seq<char>>
    decreases attrs.len() - from,
{
    if from < 0 || from >= attrs.len() {
        None
    } else if attrs[from].local == link_attribute() {
        Some(attrs[from].value)
    } else {
        href_from(attrs, from + 1)
    }
}

/// The entry that a node of an index stands for. An element is an entry: its link is
/// the value of its first `href` attribute and its name the text of its first child in
/// ASCII lower case. A blank text between entries stands for none. Anything else is an
/// error, and so is an element that lacks one of the two.
pub open spec fn word_of_tag(tag: DocNodeView) -> Result<Option<ParsedWordView>, TagError> {
    match tag.data {
        NodeKindView::Element { ns, local, attrs } => match href_from(attrs, 0) {
            None => Err(TagError::MissingHref),
            Some(link) => if tag.children.len() == 0 {
                Err(TagError::NoChildren)
            } else {
                match tag.children[0].data {
                    NodeKindView::Text { contents } => Ok(
                        Some(ParsedWordView { name: ascii_lowercase(contents), link }),
                    ),
                    _ => Err(TagError::FirstChildNotText),
                }
            },
        },
        NodeKindView::Text { contents } => if all_whitespace(contents) {
            Ok(None)
        } else {
            Err(TagError::NotAnElement)
        },
        _ => Err(TagError::NotAnElement),
    }
}

/// The model of what [`ParsedWord::from_tag`] returns.
pub open spec fn tag_result_view(result: Result<Option<ParsedWord>, TagError>) -> Result<
    Option<ParsedWordView>,
    TagError,
> {
    match result {
        Ok(Some(word)) => Ok(Some(word@)),
        Ok(None) => Ok(None),
        Err(e) => Err(e),
    }
}

/// The model of an optional text.
pub open spec fn text_view(text: Option<String>) -> Option<Seq<char>> {
    match text {
        Some(value) => Some(value@),
        None => None,
    }
}

/// The value of the first `href` attribute, if there is one.
fn find_href(attrs: &Vec<Attr>) -> (link: Option<String>)
    ensures
        text_view(link) == href_from(attrs_view(attrs@), 0),
{
    let mut i: usize = 0;
    while i < attrs.len()
        invariant
            i <= attrs.len(),
            href_from(attrs_view(attrs@), 0) == href_from(attrs_view(attrs@), i as int),
        decreases attrs.len() - i,
    {
        if text_eq(attrs[i].local.as_str(), "href") {
            return Some(attrs[i].value.clone());
        }
        i += 1;
    }
    None
}

impl ParsedWord {
    /// Reads the entry that a node of an index stands for, see [`word_of_tag`].
    pub fn from_tag(tag: &DocNode) -> (result: Result<Option<ParsedWord>, TagError>)
        ensures
            tag_result_view(result) == word_of_tag(tag@),
    {
        let link = match &tag.data {
            NodeKind::Element { ns, local, attrs } => match find_href(attrs) {
                Some(link) => link,
                None => {
                    return Err(TagError::MissingHref);
                },
            },
            NodeKind::Text { contents } => {
                if is_all_whitespace(contents.as_str()) {
                    return Ok(None);
                }
                return Err(TagError::NotAnElement);
            },
            _ => {
                return Err(TagError::NotAnElement);
            },
        };
        if tag.children.len() == 0 {
            return Err(TagError::NoChildren);
        }
        assert(tag@.children[0] == tag.children@[0]@);
        match &tag.children[0].data {
            NodeKind::Text { contents } => {
                let name = to_ascii_lowercase(contents.as_str());
                Ok(Some(ParsedWord { name, link }))
            },
            _ => Err(TagError::FirstChildNotText),
        }
    }
}

/// The nodes that hold the entries of an index page: the children of the second
/// child of the document's first child.
pub open spec fn index_tags(doc: DocNodeView) -> Option<Seq<DocNodeView>> {
    if doc.children.len() >= 1 && doc.children[0].children.len() >= 2 {
        Some(doc.children[0].children[1].children)
    } else {
        None
    }
}

/// The entries that the nodes stand for, in the order of the nodes, or the error of
/// the first node that stands for none and is no blank text, with its position.
pub open spec fn words_of_tags(tags: Seq<DocNodeView>) -> Result<Seq<ParsedWordView>, IndexError>
    decreases tags.len(),
{
    if tags.len() == 0 {
        Ok(Seq::empty())
    } else {
        match words_of_tags(tags.drop_last()) {
            Err(e) => Err(e),
            Ok(words) => match word_of_tag(tags.last()) {
                Err(kind) => Err(IndexError::Tag { position: (tags.len() - 1) as usize, kind }),
                Ok(Some(word)) => Ok(words.push(word)),
                Ok(None) => Ok(words),
            },
        }
    }
}

/// The entries of a parsed index page.
pub open spec fn words_of_document(doc: DocNodeView) -> Result<Seq<ParsedWordView>, IndexError> {
    match index_tags(doc) {
        None => Err(IndexError::MalformedDocument),
        Some(tags) => words_of_tags(tags),
    }
}

/// The models of a sequence of entries, in order.
pub open spec fn words_view(words: Seq<ParsedWord>) -> Seq<ParsedWordView> {
    Seq::new(words.len(), |i: int| words[i]@)
}

/// The model of a list of entries, or of the error in its place.
pub open spec fn words_or_error<E>(result: Result<Vec<ParsedWord>, E>) -> Result<
    Seq<ParsedWordView>,
    E,
> {
    match result {
        Ok(words) => Ok(words_view(words@)),
        Err(e) => Err(e),
    }
}

/// Reads the entries of a parsed index page, in order.
pub fn document_to_words(doc: &DocNode) -> (result: Result<Vec<ParsedWord>, IndexError>)
    ensures
        words_or_error(result) == words_of_document(doc@),
{
    if doc.children.len() < 1 {
        return Err(IndexError::MalformedDocument);
    }
    let wrapper = &doc.children[0];
    assert(doc@.children[0] == wrapper@);
    if wrapper.children.len() < 2 {
        return Err(IndexError::MalformedDocument);
    }
    let holder = &wrapper.children[1];
    assert(wrapper@.children[1] == holder@);
    let tags = &holder.children;
    let ghost all = forest_view(tags@);
    let mut words: Vec<ParsedWord> = Vec::with_capacity(tags.len());
    let mut i: usize = 0;
    assert(words_view(words@) == Seq::<ParsedWordView>::empty());
    while i < tags.len()
        invariant
            i <= tags.len(),
            all == forest_view(tags@),
            index_tags(doc@) == Some(all),
            words_of_tags(all.take(i as int)) == Ok::<Seq<ParsedWordView>, IndexError>(
                words_view(words@),
            ),
        decreases tags.len() - i,
    {
        assert(all.take(i + 1).drop_last() == all.take(i as int));
        match ParsedWord::from_tag(&tags[i]) {
            Err(kind) => {
                proof {
                    assert(words_of_tags(all.take(i + 1)) == Err::<
                        Seq<ParsedWordView>,
                        IndexError,
                    >(IndexError::Tag { position: i, kind }));
                    lemma_error_stays(all, i + 1);
                }
                return Err(IndexError::Tag { position: i, kind });
            },
            Ok(Some(word)) => {
                let ghost before = words_view(words@);
                words.push(word);
                assert(words_view(words@) == before.push(word@));
            },
            Ok(None) => {},
        }
        i += 1;
    }
    assert(all.take(tags.len() as int) == all);
    Ok(words)
}

/// The first error is the error of the whole: where a prefix of the nodes fails, every
/// longer prefix fails in the same way.
pub proof fn lemma_error_stays(tags: Seq<DocNodeView>, n: int)
    requires
        0 <= n <= tags.len(),
        words_of_tags(tags.take(n)) is Err,
    ensures
        words_of_tags(tags) == words_of_tags(tags.take(n)),
    decreases tags.len() - n,
{
    if n == tags.len() {
        assert(tags.take(n) == tags);
    } else {
        assert(tags.take(n + 1).drop_last() == tags.take(n));
        lemma_error_stays(tags, n + 1);
    }
}

/// The entries of an index page given as text: those of the document it parses to.
pub open spec fn words_of_text(html: Seq<char>) -> Result<Seq<ParsedWordView>, IndexError> {
    if can_parse(html) {
        words_of_document(parsed_document(html))
    } else {
        Err(IndexError::MalformedDocument)
    }
}

/// Parses an index page and reads its entries, in order.
pub fn html_to_words(html: &str) -> (result: Result<Vec<ParsedWord>, IndexError>)
    ensures
        words_or_error(result) == words_of_text(html@),
{
    if !is_parsable(html) {
        return Err(IndexError::MalformedDocument);
    }
    let doc = parse_html(html);
    document_to_words(&doc)
}

/// The entries of a series of index pages, one page after the other, or the error of
/// the first page that fails, with its position.
pub open spec fn words_of_pages(pages: Seq<String>) -> Result<Seq<ParsedWordView>, PageError>
    decreases pages.len(),
{
    if pages.len() == 0 {
        Ok(Seq::empty())
    } else {
        match words_of_pages(pages.drop_last()) {
            Err(e) => Err(e),
            Ok(words) => match words_of_text(pages.last()@) {
                Err(error) => Err(PageError { page: (pages.len() - 1) as usize, error }),
                Ok(more) => Ok(words + more),
            },
        }
    }
}

/// The first failing page is the error of the whole series.
pub proof fn lemma_page_error_stays(pages: Seq<String>, n: int)
    requires
        0 <= n <= pages.len(),
        words_of_pages(pages.take(n)) is Err,
    ensures
        words_of_pages(pages) == words_of_pages(pages.take(n)),
    decreases pages.len() - n,
{
    if n == pages.len() {
        assert(pages.take(n) == pages);
    } else {
        assert(pages.take(n + 1).drop_last() == pages.take(n));
        lemma_page_error_stays(pages, n + 1);
    }
}

/// Reads the entries of a series of index pages, given as their texts, one page after
/// the other.
pub fn file_to_words(pages: &[String]) -> (result: Result<Vec<ParsedWord>, PageError>)
    ensures
        words_or_error(result) == words_of_pages(pages@),
{
    let mut words: Vec<ParsedWord> = Vec::new();
    let mut i: usize = 0;
    assert(words_view(words@) == Seq::<ParsedWordView>::empty());
    while i < pages.len()
        invariant
            i <= pages.len(),
            words_of_pages(pages@.take(i as int)) == Ok::<Seq<ParsedWordView>, PageError>(
                words_view(words@),
            ),
        decreases pages.len() - i,
    {
        assert(pages@.take(i + 1).drop_last() == pages@.take(i as int));
        match html_to_words(pages[i].as_str()) {
            Err(error) => {
                proof {
                    lemma_page_error_stays(pages@, i + 1);
                }
                return Err(PageError { page: i, error });
            },
            Ok(mut more) => {
                let ghost before = words_view(words@);
                let ghost added = words_view(more@);
                words.append(&mut more);
                assert(words_view(words@) == before + added);
            },
        }
        i += 1;
    }
    assert(pages@.take(pages.len() as int) == pages@);
    Ok(words)
}

} // verus!
