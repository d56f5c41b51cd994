//! Extracting the section of a document: stripping the document down to its working
//! sequence, finding the section of the primary or the fallback label in it, and
//! writing the section as markup. The extraction of an entry is a state machine whose
//! driver does the file work between two steps.

use crate::dom::{forest_fits, forest_view, node_fits, DocNode, DocNodeView, NodeKind, NodeKindView};
use crate::download::{lemma_framed_text_is_told_apart, DefinedWord, DefinedWordView};
use crate::html::{can_parse, node_markup, is_parsable, parse_html, parsed_document, print_node};
use crate::section::{
    definitions, get_definitions, heading_below, lemma_found_iff_heading_below,
};
use crate::text::{all_whitespace, is_all_whitespace};
use vstd::prelude::*;

verus! {

/// Why no section came out of a document.
#[derive(Clone, Copy, Debug, PartialEq, Eq, Structural)]
pub enum ExtractError {
    /// No heading matched any accepted label.
    SectionNotFound,
    /// The document lacks the structure that the extraction relies on: an outer
    /// wrapper with a substantive child after its first, or a tree that can be written.
    MalformedDocument,
    /// The section was extracted and could not be written to its file.
    PersistFailure,
    /// The cached page of the entry could not be read.
    PageUnreadable,
}

/// The label looked for first.
pub open spec fn primary_label() -> Seq<char> {
    "English"@
}

/// The label looked for where the first is absent.
pub open spec fn fallback_label() -> Seq<char> {
    "Translingual"@
}

/// The node is a text made of whitespace alone. An empty text is one.
pub open spec fn is_blank_text(node: DocNodeView) -> bool {
    node.data matches NodeKindView::Text { contents } && all_whitespace(contents)
}

/// The children of the outer wrapper of a document: those of the document's first
/// child or, where that has none, those of its second.
pub open spec fn wrapper_children(doc: DocNodeView) -> Option<Seq<DocNodeView>> {
    if doc.children.len() == 0 {
        None
    } else if doc.children[0].children.len() > 0 {
        Some(doc.children[0].children)
    } else if doc.children.len() >= 2 {
        Some(doc.children[1].children)
    } else {
        None
    }
}

/// `k` is the position of the content root in `nodes`: the first node after the
/// leading one that is not a blank text.
pub open spec fn is_content_position(nodes: Seq<DocNodeView>, k: int) -> bool {
    &&& 1 <= k < nodes.len()
    &&& !is_blank_text(nodes[k])
    &&& forall|j: int| 1 <= j < k ==> is_blank_text(#[trigger] nodes[j])
}

/// The working sequence of a document: the children of its content root, where it has
/// an outer wrapper and the wrapper a content root.
pub open spec fn content_root(doc: DocNodeView) -> Option<Seq<DocNodeView>> {
    match wrapper_children(doc) {
        None => None,
        Some(wrapper) => {
            if exists|k: int| is_content_position(wrapper, k) {
                Some(wrapper[choose|k: int| is_content_position(wrapper, k)].children)
            } else {
                None
            }
        },
    }
}

/// The working sequence of a document, or the error of a document without one.
pub open spec fn working_sequence(doc: DocNodeView) -> Result<Seq<DocNodeView>, ExtractError> {
    match content_root(doc) {
        Some(nodes) => Ok(nodes),
        None => Err(ExtractError::MalformedDocument),
    }
}

/// There is at most one content position.
pub proof fn lemma_content_position_unique(nodes: Seq<DocNodeView>, k: int)
    requires
        is_content_position(nodes, k),
    ensures
        (choose|c: int| is_content_position(nodes, c)) == k,
{
    let c = choose|c: int| is_content_position(nodes, c);
    assert(is_content_position(nodes, c));
    if c < k {
        assert(is_blank_text(nodes[c]));
    }
    if k < c {
        assert(is_blank_text(nodes[k]));
    }
}

/// Whether the node is a text made of whitespace alone.
pub fn is_blank(node: &DocNode) -> (b: bool)
    ensures
        b == is_blank_text(node@),
{
    match &node.data {
        NodeKind::Text { contents } => is_all_whitespace(contents.as_str()),
        _ => false,
    }
}

/// The model of a level of nodes, or of the error in its place.
pub open spec fn level_or_error(level: Result<&[DocNode], ExtractError>) -> Result<
    Seq<DocNodeView>,
    ExtractError,
> {
    match level {
        Ok(nodes) => Ok(forest_view(nodes@)),
        Err(e) => Err(e),
    }
}

/// Strips a document down to its working sequence: past the outer wrapper, past the
/// wrapper's first child and any blank texts after it, to the children of the first
/// substantive node. A document without these is malformed.
pub fn remove_heading<'a>(tree: &'a DocNode) -> (body: Result<&'a [DocNode], ExtractError>)
    ensures
        level_or_error(body) == working_sequence(tree@),
{
    let document = tree.children.as_slice();
    if document.len() == 0 {
        return Err(ExtractError::MalformedDocument);
    }
    let first = document[0].children.as_slice();
    assert(tree@.children[0] == document[0]@);
    let wrapper = if first.len() == 0 {
        if document.len() < 2 {
            return Err(ExtractError::MalformedDocument);
        }
        assert(tree@.children[1] == document[1]@);
        document[1].children.as_slice()
    } else {
        first
    };
    let ghost level = forest_view(wrapper@);
    let mut k: usize = 1;
    while k < wrapper.len()
        invariant
            1 <= k,
            level == forest_view(wrapper@),
            wrapper_children(tree@) == Some(level),
            forall|j: int| 1 <= j < k && j < level.len() ==> is_blank_text(#[trigger] level[j]),
        decreases wrapper.len() - k,
    {
        let next = &wrapper[k];
        if !is_blank(next) {
            proof {
                lemma_content_position_unique(level, k as int);
                assert(level[k as int].children == forest_view(next.children@));
            }
            return Ok(next.children.as_slice());
        }
        k += 1;
    }
    assert forall|c: int| !is_content_position(level, c) by {
        if 1 <= c < level.len() {
            assert(is_blank_text(level[c]));
        }
    }
    Err(ExtractError::MalformedDocument)
}

/// The markup of a forest: the markup of each node, the node itself included, one node
/// after the other.
pub open spec fn markup_of(nodes: Seq<DocNodeView>) -> Seq<char>
    decreases nodes.len(),
{
    if nodes.len() == 0 {
        Seq::empty()
    } else {
        markup_of(nodes.drop_last()) + node_markup(nodes.last())
    }
}

/// The markup of two forests, one after the other, is the markup of the first followed
/// by the markup of the second.
pub proof fn lemma_markup_of_joined(first: Seq<DocNodeView>, second: Seq<DocNodeView>)
    ensures
        markup_of(first + second) == markup_of(first) + markup_of(second),
    decreases second.len(),
{
    if second.len() == 0 {
        assert(first + second == first);
    } else {
        lemma_markup_of_joined(first, second.drop_last());
        assert((first + second).drop_last() == first + second.drop_last());
        assert((first + second).last() == second.last());
    }
}

/// Whether every node of the sequence can be written as markup.
pub fn all_fit(nodes: &[DocNode]) -> (b: bool)
    ensures
        b == forest_fits(forest_view(nodes@)),
{
    let mut i: usize = 0;
    while i < nodes.len()
        invariant
            i <= nodes.len(),
            forall|k: int| 0 <= k < i ==> node_fits(#[trigger] forest_view(nodes@)[k]),
        decreases nodes.len() - i,
    {
        if !nodes[i].fits() {
            assert(!node_fits(forest_view(nodes@)[i as int]));
            return false;
        }
        i += 1;
    }
    true
}

/// Writes a forest as markup, node after node.
pub fn print_nodes(nodes: &[DocNode]) -> (output: String)
    requires
        forest_fits(forest_view(nodes@)),
    ensures
        output@ == markup_of(forest_view(nodes@)),
{
    let ghost level = forest_view(nodes@);
    let mut output = String::new();
    let mut i: usize = 0;
    while i < nodes.len()
        invariant
            i <= nodes.len(),
            level == forest_view(nodes@),
            forest_fits(level),
            output@ == markup_of(level.take(i as int)),
        decreases nodes.len() - i,
    {
        assert(node_fits(level[i as int]));
        let piece = print_node(&nodes[i]);
        assert(level.take(i + 1).drop_last() == level.take(i as int));
        output.append(piece.as_str());
        i += 1;
    }
    assert(level.take(nodes.len() as int) == level);
    output
}

/// The section of a working sequence: that of the label or, where there is none and
/// a fallback label is given, that of the fallback label.
pub open spec fn section_of(
    body: Seq<DocNodeView>,
    label: Seq<char>,
    fallback: Option<Seq<char>>,
) -> Option<Seq<DocNodeView>> {
    match definitions(body, label) {
        Some(found) => Some(found),
        None => match fallback {
            Some(other) => definitions(body, other),
            None => None,
        },
    }
}

/// What the extraction of a label yields for a document: the markup of the section,
/// or why there is none.
pub open spec fn extraction_of(
    doc: DocNodeView,
    label: Seq<char>,
    fallback: Option<Seq<char>>,
) -> Result<Seq<char>, ExtractError> {
    match content_root(doc) {
        None => Err(ExtractError::MalformedDocument),
        Some(body) => match section_of(body, label, fallback) {
            None => Err(ExtractError::SectionNotFound),
            Some(found) => if forest_fits(found) {
                Ok(markup_of(found))
            } else {
                Err(ExtractError::MalformedDocument)
            },
        },
    }
}

/// What the extraction yields for a document with the usual labels: the primary
/// label, with the fallback label behind it.
pub open spec fn extraction(doc: DocNodeView) -> Result<Seq<char>, ExtractError> {
    extraction_of(doc, primary_label(), Some(fallback_label()))
}

/// The model of an optional label.
pub open spec fn label_view(label: Option<&str>) -> Option<Seq<char>> {
    match label {
        Some(text) => Some(text@),
        None => None,
    }
}

/// The model of an extraction result.
pub open spec fn markup_or_error(result: Result<String, ExtractError>) -> Result<
    Seq<char>,
    ExtractError,
> {
    match result {
        Ok(markup) => Ok(markup@),
        Err(e) => Err(e),
    }
}

/// Extracts the section of `label` from a parsed document and writes it as markup.
/// Where the document holds no section of that label and a fallback label is given,
/// the section of the fallback label is taken in its place.
pub fn extract_section(doc: &DocNode, label: &str, fallback: Option<&str>) -> (result: Result<
    String,
    ExtractError,
>)
    ensures
        markup_or_error(result) == extraction_of(doc@, label@, label_view(fallback)),
{
    let body = match remove_heading(doc) {
        Ok(body) => body,
        Err(e) => {
            return Err(e);
        },
    };
    let found = match get_definitions(body, label) {
        Some(found) => found,
        None => {
            let below = match fallback {
                Some(other) => get_definitions(body, other),
                None => None,
            };
            match below {
                Some(found) => found,
                None => {
                    return Err(ExtractError::SectionNotFound);
                },
            }
        },
    };
    if !all_fit(found) {
        return Err(ExtractError::MalformedDocument);
    }
    Ok(print_nodes(found))
}

/// Extracts the section of a parsed document with the usual labels and writes it as
/// markup.
pub fn extract_document(doc: &DocNode) -> (result: Result<String, ExtractError>)
    ensures
        markup_or_error(result) == extraction(doc@),
{
    extract_section(doc, "English", Some("Translingual"))
}

/// What the extraction yields for a text: that of the document it parses to. A text
/// too long to parse counts as malformed.
pub open spec fn extraction_of_text(html: Seq<char>) -> Result<Seq<char>, ExtractError> {
    if can_parse(html) {
        extraction(parsed_document(html))
    } else {
        Err(ExtractError::MalformedDocument)
    }
}

/// Parses a text as HTML and extracts its section as markup.
pub fn extract_one(html: &str) -> (result: Result<String, ExtractError>)
    ensures
        markup_or_error(result) == extraction_of_text(html@),
{
    if !is_parsable(html) {
        return Err(ExtractError::MalformedDocument);
    }
    let doc = parse_html(html);
    extract_document(&doc)
}

/// The directory of the extracted sections, with its separator.
pub open spec fn output_prefix() -> Seq<char> {
    "data/extracted/"@
}

/// The path of the extracted section of the entry with the given name.
pub open spec fn output_of(name: Seq<char>) -> Seq<char> {
    output_prefix() + name + ".html"@
}

/// One output path, one name: the sections of two entries lie at the same path only if
/// the entries have the same name.
pub proof fn lemma_output_tells_name(a: Seq<char>, b: Seq<char>)
    requires
        output_of(a) == output_of(b),
    ensures
        a == b,
{
    lemma_framed_text_is_told_apart(output_prefix(), a, b, ".html"@);
}

/// The path of an entry's extracted section: it goes by the entry's name.
pub fn word_to_output(word: &DefinedWord) -> (path: String)
    ensures
        path@ == output_of(word.name@),
{
    let mut path = String::from_str("data/extracted/");
    path.append(word.name.as_str());
    path.append(".html");
    path
}

/// How the extraction of an entry ended well.
#[derive(Clone, Copy, Debug, PartialEq, Eq, Structural)]
pub enum Extracted {
    /// The section was there already and was left as it was.
    AlreadyThere,
    /// The section was extracted and written.
    Written,
}

/// Where the extraction of an entry stands: which outside work it waits for.
#[derive(Debug, PartialEq, Eq)]
pub enum ExtractState {
    /// For the output to be looked up.
    Lookup,
    /// For the cached page to be read.
    Reading,
    /// For `contents` to be written to the output.
    Writing { contents: String },
    /// For nothing: the extraction has ended.
    Done { outcome: Result<Extracted, ExtractError> },
}

/// What the driver reports of the outside work it did.
#[derive(Debug, PartialEq, Eq)]
pub enum ExtractEvent {
    /// The output is there.
    OutputExists,
    /// The output is not there.
    OutputMissing,
    /// The cached page holds this text.
    Input { html: String },
    /// The cached page could not be read.
    InputFailed,
    /// The output was written.
    Written,
    /// The output could not be written.
    WriteFailed,
}

/// The outside work that a state asks for.
#[derive(Debug, PartialEq, Eq)]
pub enum ExtractAction {
    /// See whether the file at `path` is there; report `OutputExists` or `OutputMissing`.
    CheckOutput { path: String },
    /// Read the file at `path`; report `Input` or `InputFailed`.
    ReadInput { path: String },
    /// Write `contents` to the file at `path`; report `Written` or `WriteFailed`.
    WriteOutput { path: String, contents: String },
    /// Nothing is left to do: the state holds the outcome.
    Finish,
}

/// Mathematical model of an [`ExtractState`].
pub enum ExtractStateView {
    Lookup,
    Reading,
    Writing { contents: Seq<char> },
    Done { outcome: Result<Extracted, ExtractError> },
}

/// Mathematical model of an [`ExtractEvent`].
pub enum ExtractEventView {
    OutputExists,
    OutputMissing,
    Input { html: Seq<char> },
    InputFailed,
    Written,
    WriteFailed,
}

/// Mathematical model of an [`ExtractAction`].
pub enum ExtractActionView {
    CheckOutput { path: Seq<char> },
    ReadInput { path: Seq<char> },
    WriteOutput { path: Seq<char>, contents: Seq<char> },
    Finish,
}

impl View for ExtractState {
    type V = ExtractStateView;

    open spec fn view(&self) -> ExtractStateView {
        match self {
            ExtractState::Lookup => ExtractStateView::Lookup,
            ExtractState::Reading => ExtractStateView::Reading,
            ExtractState::Writing { contents } => ExtractStateView::Writing { contents: contents@ },
            ExtractState::Done { outcome } => ExtractStateView::Done { outcome: *outcome },
        }
    }
}

impl View for ExtractEvent {
    type V = ExtractEventView;

    open spec fn view(&self) -> ExtractEventView {
        match self {
            ExtractEvent::OutputExists => ExtractEventView::OutputExists,
            ExtractEvent::OutputMissing => ExtractEventView::OutputMissing,
            ExtractEvent::Input { html } => ExtractEventView::Input { html: html@ },
            ExtractEvent::InputFailed => ExtractEventView::InputFailed,
            ExtractEvent::Written => ExtractEventView::Written,
            ExtractEvent::WriteFailed => ExtractEventView::WriteFailed,
        }
    }
}

impl View for ExtractAction {
    type V = ExtractActionView;

    open spec fn view(&self) -> ExtractActionView {
        match self {
            ExtractAction::CheckOutput { path } => ExtractActionView::CheckOutput { path: path@ },
            ExtractAction::ReadInput { path } => ExtractActionView::ReadInput { path: path@ },
            ExtractAction::WriteOutput { path, contents } => ExtractActionView::WriteOutput {
                path: path@,
                contents: contents@,
            },
            ExtractAction::Finish => ExtractActionView::Finish,
        }
    }
}

/// The state after the cached page was read: its section waits to be written, or the
/// extraction has ended with the reason why there is none.
pub open spec fn after_input(html: Seq<char>) -> ExtractStateView {
    match extraction_of_text(html) {
        Ok(contents) => ExtractStateView::Writing { contents },
        Err(e) => ExtractStateView::Done { outcome: Err(e) },
    }
}

/// The state that follows `state` on `event`. An output that is there ends the
/// extraction at once, and so does a cached page that cannot be read. An event that
/// does not answer what the state waits for leaves the state as it is.
pub open spec fn next_extract_state(
    state: ExtractStateView,
    event: ExtractEventView,
) -> ExtractStateView {
    match (state, event) {
        (ExtractStateView::Lookup, ExtractEventView::OutputExists) => ExtractStateView::Done {
            outcome: Ok(Extracted::AlreadyThere),
        },
        (ExtractStateView::Lookup, ExtractEventView::OutputMissing) => ExtractStateView::Reading,
        (ExtractStateView::Reading, ExtractEventView::Input { html }) => after_input(html),
        (ExtractStateView::Reading, ExtractEventView::InputFailed) => ExtractStateView::Done {
            outcome: Err(ExtractError::PageUnreadable),
        },
        (ExtractStateView::Writing { contents }, ExtractEventView::Written) => {
            ExtractStateView::Done { outcome: Ok(Extracted::Written) }
        },
        (ExtractStateView::Writing { contents }, ExtractEventView::WriteFailed) => {
            ExtractStateView::Done { outcome: Err(ExtractError::PersistFailure) }
        },
        _ => state,
    }
}

/// The outside work that `state` asks for, for the entry `word`.
pub open spec fn pending_extract_action(
    word: DefinedWordView,
    state: ExtractStateView,
) -> ExtractActionView {
    match state {
        ExtractStateView::Lookup => ExtractActionView::CheckOutput { path: output_of(word.name) },
        ExtractStateView::Reading => ExtractActionView::ReadInput { path: word.path },
        ExtractStateView::Writing { contents } => ExtractActionView::WriteOutput {
            path: output_of(word.name),
            contents,
        },
        ExtractStateView::Done { outcome } => ExtractActionView::Finish,
    }
}

/// The state in which every extraction begins.
pub fn extract_start() -> (state: ExtractState)
    ensures
        state@ == ExtractStateView::Lookup,
{
    ExtractState::Lookup
}

/// One step of the extraction of an entry: the state that follows `state` on `event`.
pub fn extract_word(state: ExtractState, event: ExtractEvent) -> (next: ExtractState)
    ensures
        next@ == next_extract_state(state@, event@),
{
    match (state, event) {
        (ExtractState::Lookup, ExtractEvent::OutputExists) => ExtractState::Done {
            outcome: Ok(Extracted::AlreadyThere),
        },
        (ExtractState::Lookup, ExtractEvent::OutputMissing) => ExtractState::Reading,
        (ExtractState::Reading, ExtractEvent::Input { html }) => {
            match extract_one(html.as_str()) {
                Ok(contents) => ExtractState::Writing { contents },
                Err(e) => ExtractState::Done { outcome: Err(e) },
            }
        },
        (ExtractState::Reading, ExtractEvent::InputFailed) => ExtractState::Done {
            outcome: Err(ExtractError::PageUnreadable),
        },
        (ExtractState::Writing { contents }, ExtractEvent::Written) => ExtractState::Done {
            outcome: Ok(Extracted::Written),
        },
        (ExtractState::Writing { contents }, ExtractEvent::WriteFailed) => ExtractState::Done {
            outcome: Err(ExtractError::PersistFailure),
        },
        (state, _) => state,
    }
}

/// The outside work that `state` asks for.
pub fn extract_action(word: &DefinedWord, state: &ExtractState) -> (action: ExtractAction)
    ensures
        action@ == pending_extract_action(word@, state@),
{
    match state {
        ExtractState::Lookup => ExtractAction::CheckOutput { path: word_to_output(word) },
        ExtractState::Reading => ExtractAction::ReadInput { path: word.path.clone() },
        ExtractState::Writing { contents } => ExtractAction::WriteOutput {
            path: word_to_output(word),
            contents: contents.clone(),
        },
        ExtractState::Done { outcome } => ExtractAction::Finish,
    }
}

/// An entry whose extraction failed, and why.
#[derive(Debug, PartialEq, Eq)]
pub struct FailedEntry {
    pub name: String,
    pub kind: ExtractError,
}

/// Mathematical model of a [`FailedEntry`].
pub struct FailedEntryView {
    pub name: Seq<char>,
    pub kind: ExtractError,
}

impl View for FailedEntry {
    type V = FailedEntryView;

    open spec fn view(&self) -> FailedEntryView {
        FailedEntryView { name: self.name@, kind: self.kind }
    }
}

impl Clone for FailedEntry {
    /// A copy with the same model.
    fn clone(&self) -> (copy: FailedEntry)
        ensures
            copy@ == self@,
    {
        FailedEntry { name: self.name.clone(), kind: self.kind }
    }
}

/// The failures among the entries with the given names, in their order: each entry
/// whose outcome, by position, is an error. An entry without an outcome is no failure.
pub open spec fn failures(
    names: Seq<Seq<char>>,
    outcomes: Seq<Result<Extracted, ExtractError>>,
) -> Seq<FailedEntryView>
    decreases names.len(),
{
    if names.len() == 0 {
        Seq::empty()
    } else {
        let before = failures(names.drop_last(), outcomes);
        let last = names.len() - 1;
        if last < outcomes.len() && outcomes[last] is Err {
            before.push(FailedEntryView { name: names.last(), kind: outcomes[last]->Err_0 })
        } else {
            before
        }
    }
}

/// The names of a sequence of cached entries, in order.
pub open spec fn names_of(words: Seq<DefinedWord>) -> Seq<Seq<char>> {
    Seq::new(words.len(), |i: int| words[i].name@)
}

/// The models of a sequence of failures, in order.
pub open spec fn failed_view(failed: Seq<FailedEntry>) -> Seq<FailedEntryView> {
    Seq::new(failed.len(), |i: int| failed[i]@)
}

/// Gathers the failures of a run over `words`: each entry whose extraction ended in
/// an error, with that error, in the order of the entries.
pub fn extract_all(
    words: Vec<DefinedWord>,
    outcomes: &[Result<Extracted, ExtractError>],
) -> (failed: Vec<FailedEntry>)
    ensures
        failed_view(failed@) == failures(names_of(words@), outcomes@),
        failed@.len() <= words@.len(),
{
    let ghost names = names_of(words@);
    let mut failed: Vec<FailedEntry> = Vec::new();
    let mut i: usize = 0;
    while i < words.len()
        invariant
            i <= words.len(),
            names == names_of(words@),
            failed@.len() <= i,
            failed_view(failed@) == failures(names.take(i as int), outcomes@),
        decreases words.len() - i,
    {
        assert(names.take(i + 1).drop_last() == names.take(i as int));
        if i < outcomes.len() {
            match outcomes[i] {
                Err(kind) => {
                    let ghost before = failed_view(failed@);
                    let name = words[i].name.clone();
                    failed.push(FailedEntry { name, kind });
                    assert(failed_view(failed@) == before.push(
                        FailedEntryView { name: words@[i as int].name@, kind },
                    ));
                },
                Ok(_) => {},
            }
        }
        i += 1;
    }
    assert(names.take(words.len() as int) == names);
    failed
}

/// The fallback. Where the working sequence of a document holds no heading for the
/// label two or more levels down and a section for the fallback label, the extraction
/// succeeds with the markup of that section, as long as it can be written.
pub proof fn lemma_fallback_is_used(
    doc: DocNodeView,
    body: Seq<DocNodeView>,
    label: Seq<char>,
    fallback: Seq<char>,
    found: Seq<DocNodeView>,
)
    requires
        content_root(doc) == Some(body),
        !heading_below(body, label),
        definitions(body, fallback) == Some(found),
        forest_fits(found),
    ensures
        extraction_of(doc, label, Some(fallback)) == Ok::<Seq<char>, ExtractError>(
            markup_of(found),
        ),
{
    lemma_found_iff_heading_below(body, label);
}

/// No section. A document with a working sequence has no section exactly where no
/// heading for the label, nor for the fallback label where one is given, lies two or
/// more levels below the working sequence: then, and only then, the extraction fails
/// with `SectionNotFound`.
pub proof fn lemma_not_found_iff_no_heading(
    doc: DocNodeView,
    body: Seq<DocNodeView>,
    label: Seq<char>,
    fallback: Option<Seq<char>>,
)
    requires
        content_root(doc) == Some(body),
    ensures
        extraction_of(doc, label, fallback) == Err::<Seq<char>, ExtractError>(
            ExtractError::SectionNotFound,
        ) <==> !heading_below(body, label) && (fallback is Some ==> !heading_below(
            body,
            fallback->Some_0,
        )),
{
    lemma_found_iff_heading_below(body, label);
    if fallback is Some {
        lemma_found_iff_heading_below(body, fallback->Some_0);
    }
}

/// A failed extraction writes nothing: where the text of the cached page yields no
/// section, the step that takes the text ends the extraction with the error, and the
/// ended extraction asks for no outside work.
pub proof fn lemma_failure_writes_nothing(word: DefinedWordView, html: Seq<char>)
    requires
        extraction_of_text(html) is Err,
    ensures
        ({
            let next = next_extract_state(
                ExtractStateView::Reading,
                ExtractEventView::Input { html },
            );
            &&& next == (ExtractStateView::Done { outcome: Err(extraction_of_text(html)->Err_0) })
            &&& pending_extract_action(word, next) is Finish
        }),
{
}

/// A page that cannot be read fails its entry and nothing else: the step that takes the
/// report ends the extraction with `PageUnreadable`, the ended extraction asks for no
/// outside work, and it stays ended whatever is reported.
pub proof fn lemma_unreadable_page_fails_the_entry(word: DefinedWordView, event: ExtractEventView)
    ensures
        ({
            let ended = next_extract_state(
                ExtractStateView::Reading,
                ExtractEventView::InputFailed,
            );
            &&& ended == (ExtractStateView::Done { outcome: Err(ExtractError::PageUnreadable) })
            &&& pending_extract_action(word, ended) is Finish
            &&& next_extract_state(ended, event) == ended
        }),
{
}

/// An output that is there is never written again: the extraction ends at once, and
/// an ended extraction stays ended whatever is reported.
pub proof fn lemma_existing_output_is_kept(word: DefinedWordView, event: ExtractEventView)
    ensures
        ({
            let ended = next_extract_state(
                ExtractStateView::Lookup,
                ExtractEventView::OutputExists,
            );
            &&& ended == (ExtractStateView::Done { outcome: Ok(Extracted::AlreadyThere) })
            &&& pending_extract_action(word, ended) is Finish
            &&& next_extract_state(ended, event) == ended
        }),
{
}

} // verus!
