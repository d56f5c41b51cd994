//! Word lists: the names of the entries that pass a filter, one name to a line.

use crate::parser::{words_view, ParsedWord, ParsedWordView};
use crate::text::{all_ascii_lower, is_all_ascii_lower};
use crate::{is_fetchable, valid_link};
use vstd::prelude::*;

verus! {

/// The filters by which lists are made.
#[derive(Clone, Copy, Debug, PartialEq, Eq, Structural)]
pub enum ListKind {
    /// Every entry.
    All,
    /// The entries with a page.
    AllValid,
    /// The entries whose name is made of lower-case ASCII letters.
    AlphaLower,
    /// Both of the above.
    AlphaLowerValid,
    /// The entries whose name is made of three or more lower-case ASCII letters.
    MinThreeAlphaLower,
    /// Those among them with a page.
    MinThreeAlphaLowerValid,
}

/// A list, ready to be written: where it goes and what it holds.
#[derive(Debug, PartialEq, Eq)]
pub struct WordList {
    pub path: String,
    pub contents: String,
}

/// Mathematical model of a [`WordList`].
pub struct WordListView {
    pub path: Seq<char>,
    pub contents: Seq<char>,
}

impl View for WordList {
    type V = WordListView;

    open spec fn view(&self) -> WordListView {
        WordListView { path: self.path@, contents: self.contents@ }
    }
}

impl Clone for WordList {
    /// A copy with the same model.
    fn clone(&self) -> (copy: WordList)
        ensures
            copy@ == self@,
    {
        WordList { path: self.path.clone(), contents: self.contents.clone() }
    }
}

/// The shortest name of the lists that ask for a length.
pub const MIN_NAME_CHARS: usize = 3;

/// Whether the filter lets an entry pass.
pub open spec fn selects(kind: ListKind, word: ParsedWordView) -> bool {
    match kind {
        ListKind::All => true,
        ListKind::AllValid => is_fetchable(word.link),
        ListKind::AlphaLower => all_ascii_lower(word.name),
        ListKind::AlphaLowerValid => is_fetchable(word.link) && all_ascii_lower(word.name),
        ListKind::MinThreeAlphaLower => {
            word.name.len() >= MIN_NAME_CHARS && all_ascii_lower(word.name)
        },
        ListKind::MinThreeAlphaLowerValid => {
            &&& word.name.len() >= MIN_NAME_CHARS
            &&& is_fetchable(word.link)
            &&& all_ascii_lower(word.name)
        },
    }
}

/// The file name of a list, without directory and suffix.
pub open spec fn list_name(kind: ListKind) -> Seq<char> {
    match kind {
        ListKind::All => "all"@,
        ListKind::AllValid => "all_valid"@,
        ListKind::AlphaLower => "alpha_lower"@,
        ListKind::AlphaLowerValid => "alpha_lower_valid"@,
        ListKind::MinThreeAlphaLower => "min_3_alpha_lower"@,
        ListKind::MinThreeAlphaLowerValid => "min_3_alpha_lower_valid"@,
    }
}

/// The path of a list.
pub open spec fn list_path(kind: ListKind) -> Seq<char> {
    "data/txt/"@ + list_name(kind) + ".txt"@
}

/// The names of the entries that pass the filter, in the order of the entries.
pub open spec fn selected_names(words: Seq<ParsedWordView>, kind: ListKind) -> Seq<Seq<char>>
    decreases words.len(),
{
    if words.len() == 0 {
        Seq::empty()
    } else {
        let before = selected_names(words.drop_last(), kind);
        if selects(kind, words.last()) {
            before.push(words.last().name)
        } else {
            before
        }
    }
}

/// What stands between two names of a list.
pub open spec fn line_break() -> Seq<char> {
    "\n"@
}

/// The names with a line break between each two of them; nothing after the last.
pub open spec fn joined(names: Seq<Seq<char>>) -> Seq<char>
    decreases names.len(),
{
    if names.len() == 0 {
        Seq::empty()
    } else if names.len() == 1 {
        names[0]
    } else {
        joined(names.drop_last()) + line_break() + names.last()
    }
}

/// The list that a filter makes of the entries.
pub open spec fn list_of(words: Seq<ParsedWordView>, kind: ListKind) -> WordListView {
    WordListView { path: list_path(kind), contents: joined(selected_names(words, kind)) }
}

/// The filters in the order in which their lists are made.
pub open spec fn all_kinds() -> Seq<ListKind> {
    seq![
        ListKind::All,
        ListKind::AllValid,
        ListKind::AlphaLower,
        ListKind::AlphaLowerValid,
        ListKind::MinThreeAlphaLower,
        ListKind::MinThreeAlphaLowerValid,
    ]
}

impl ListKind {
    /// Whether the filter lets an entry pass.
    pub fn selects(&self, word: &ParsedWord) -> (b: bool)
        ensures
            b == selects(*self, word@),
    {
        match self {
            ListKind::All => true,
            ListKind::AllValid => valid_link(word.link.as_str()),
            ListKind::AlphaLower => is_all_ascii_lower(word.name.as_str()),
            ListKind::AlphaLowerValid => {
                valid_link(word.link.as_str()) && is_all_ascii_lower(word.name.as_str())
            },
            ListKind::MinThreeAlphaLower => {
                word.name.as_str().unicode_len() >= MIN_NAME_CHARS && is_all_ascii_lower(
                    word.name.as_str(),
                )
            },
            ListKind::MinThreeAlphaLowerValid => {
                word.name.as_str().unicode_len() >= MIN_NAME_CHARS && valid_link(
                    word.link.as_str(),
                ) && is_all_ascii_lower(word.name.as_str())
            },
        }
    }

    /// The path of the filter's list.
    pub fn path(&self) -> (path: String)
        ensures
            path@ == list_path(*self),
    {
        let name = match self {
            ListKind::All => "all",
            ListKind::AllValid => "all_valid",
            ListKind::AlphaLower => "alpha_lower",
            ListKind::AlphaLowerValid => "alpha_lower_valid",
            ListKind::MinThreeAlphaLower => "min_3_alpha_lower",
            ListKind::MinThreeAlphaLowerValid => "min_3_alpha_lower_valid",
        };
        let mut path = String::from_str("data/txt/");
        path.append(name);
        path.append(".txt");
        path
    }
}

/// Makes the list of one filter: the names of the entries that pass it, in their
/// order, one to a line.
pub fn make_list(words: &[ParsedWord], kind: ListKind) -> (list: WordList)
    ensures
        list@ == list_of(words_view(words@), kind),
{
    let ghost all = words_view(words@);
    let mut contents = String::new();
    let mut any = false;
    let mut i: usize = 0;
    while i < words.len()
        invariant
            i <= words.len(),
            all == words_view(words@),
            any == (selected_names(all.take(i as int), kind).len() > 0),
            contents@ == joined(selected_names(all.take(i as int), kind)),
        decreases words.len() - i,
    {
        let ghost before = selected_names(all.take(i as int), kind);
        assert(all.take(i + 1).drop_last() == all.take(i as int));
        if kind.selects(&words[i]) {
            proof {
                let after = before.push(words@[i as int].name@);
                assert(after.drop_last() == before);
            }
            if any {
                contents.append("\n");
            }
            contents.append(words[i].name.as_str());
            any = true;
        }
        i += 1;
    }
    assert(all.take(words.len() as int) == all);
    WordList { path: kind.path(), contents }
}

/// The models of a sequence of lists, in order.
pub open spec fn lists_view(lists: Seq<WordList>) -> Seq<WordListView> {
    Seq::new(lists.len(), |i: int| lists[i]@)
}

/// Makes the six lists, in the order of [`all_kinds`].
pub fn make_lists(words: &[ParsedWord]) -> (lists: Vec<WordList>)
    ensures
        lists_view(lists@) == all_kinds().map_values(
            |kind: ListKind| list_of(words_view(words@), kind),
        ),
{
    let mut lists: Vec<WordList> = Vec::with_capacity(6);
    lists.push(make_list(words, ListKind::All));
    lists.push(make_list(words, ListKind::AllValid));
    lists.push(make_list(words, ListKind::AlphaLower));
    lists.push(make_list(words, ListKind::AlphaLowerValid));
    lists.push(make_list(words, ListKind::MinThreeAlphaLower));
    lists.push(make_list(words, ListKind::MinThreeAlphaLowerValid));
    assert(lists_view(lists@) =~= all_kinds().map_values(
        |kind: ListKind| list_of(words_view(words@), kind),
    ));
    lists
}

} // verus!
