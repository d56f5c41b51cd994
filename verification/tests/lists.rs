use wiktionary_defs::list::{make_list, make_lists, ListKind, WordList};
use wiktionary_defs::parser::ParsedWord;

fn word(name: &str, link: &str) -> ParsedWord {
    ParsedWord { name: name.to_string(), link: link.to_string() }
}

fn sample() -> Vec<ParsedWord> {
    vec![
        word("cat", "/wiki/cat"),
        word("a", "/wiki/a"),
        word("x-ray", "/wiki/x-ray"),
        word("qat", "/w/index.php?title=qat&action=edit"),
        word("the", "/wiki/the"),
        word("\u{e9}t\u{e9}", "/wiki/%C3%A9t%C3%A9"),
        word("ab", "/w/index.php?title=ab"),
        word("Cat", "/wiki/Cat"),
    ]
}

fn list(path: &str, contents: &str) -> WordList {
    WordList { path: path.to_string(), contents: contents.to_string() }
}

#[test]
fn six_lists_in_order() {
    let lists = make_lists(&sample());
    assert_eq!(
        lists,
        vec![
            list("data/txt/all.txt", "cat\na\nx-ray\nqat\nthe\n\u{e9}t\u{e9}\nab\nCat"),
            list("data/txt/all_valid.txt", "cat\na\nx-ray\nthe\n\u{e9}t\u{e9}\nCat"),
            list("data/txt/alpha_lower.txt", "cat\na\nqat\nthe\nab"),
            list("data/txt/alpha_lower_valid.txt", "cat\na\nthe"),
            list("data/txt/min_3_alpha_lower.txt", "cat\nqat\nthe"),
            list("data/txt/min_3_alpha_lower_valid.txt", "cat\nthe"),
        ]
    );
}

#[test]
fn list_of_nothing_is_empty() {
    assert_eq!(make_list(&[], ListKind::All), list("data/txt/all.txt", ""));
    assert_eq!(
        make_list(&[word("Cat", "/wiki/Cat")], ListKind::AlphaLower),
        list("data/txt/alpha_lower.txt", "")
    );
}

#[test]
fn empty_name_keeps_its_line() {
    let words = vec![word("", "/wiki/"), word("cat", "/wiki/cat"), word("", "/wiki/")];
    assert_eq!(make_list(&words, ListKind::All).contents, "\ncat\n");
    assert_eq!(make_list(&words, ListKind::AlphaLower).contents, "\ncat\n");
    assert_eq!(make_list(&words, ListKind::MinThreeAlphaLower).contents, "cat");
}

#[test]
fn filters_decide_by_name_and_link() {
    let kinds = [
        ListKind::All,
        ListKind::AllValid,
        ListKind::AlphaLower,
        ListKind::AlphaLowerValid,
        ListKind::MinThreeAlphaLower,
        ListKind::MinThreeAlphaLowerValid,
    ];
    let passes = |w: &ParsedWord| kinds.iter().map(|k| k.selects(w)).collect::<Vec<bool>>();
    assert_eq!(passes(&word("cat", "/wiki/cat")), vec![true, true, true, true, true, true]);
    assert_eq!(passes(&word("at", "/wiki/at")), vec![true, true, true, true, false, false]);
    assert_eq!(
        passes(&word("cat", "/w/index.php?title=cat")),
        vec![true, false, true, false, true, false]
    );
    assert_eq!(passes(&word("c4t", "/wiki/c4t")), vec![true, true, false, false, false, false]);
    assert_eq!(passes(&word("{|}", "/wiki/x")), vec![true, true, false, false, false, false]);
    assert_eq!(passes(&word("`ab", "/wiki/x")), vec![true, true, false, false, false, false]);
    assert_eq!(passes(&word("azz", "/wiki/x")), vec![true, true, true, true, true, true]);
}
