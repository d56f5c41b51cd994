use wiktionary_defs::dom::{Attr, DocNode, NodeKind};
use wiktionary_defs::download::DefinedWord;
use wiktionary_defs::extract::{
    all_fit, extract_action, extract_all, extract_document, extract_one, extract_section,
    extract_start, extract_word, is_blank, print_nodes, remove_heading, word_to_output,
    ExtractAction, ExtractError, ExtractEvent, ExtractState, Extracted, FailedEntry,
};
use wiktionary_defs::section::{
    get_definitions, is_section, search_title_with_depth, SearchStatus,
};
use wiktionary_defs::html::parse_document;

fn el(tag: &str, children: Vec<DocNode>) -> DocNode {
    DocNode::element(tag, Vec::new(), children)
}

fn heading(label: &str) -> DocNode {
    DocNode::element("h2", vec![Attr::new("id", label)], vec![DocNode::text(label)])
}

fn section(label: &str, text: &str) -> Vec<DocNode> {
    vec![el("div", vec![heading(label)]), el("p", vec![DocNode::text(text)])]
}

fn page(body: Vec<DocNode>) -> DocNode {
    DocNode::document(vec![el("html", vec![el("head", Vec::new()), el("body", body)])])
}

#[test]
fn heading_is_an_h2_with_the_label_as_id() {
    assert!(is_section(&heading("English"), "English"));
    assert!(!is_section(&heading("English"), "French"));
    assert!(!is_section(&heading("English"), "english"));
    assert!(!is_section(&heading("English"), "Englis"));
    assert!(!is_section(&DocNode::text("English"), "English"));
    assert!(!is_section(&el("h2", Vec::new()), "English"));
    let h3 = DocNode::element("h3", vec![Attr::new("id", "English")], Vec::new());
    assert!(!is_section(&h3, "English"));
    let by_class = DocNode::element("h2", vec![Attr::new("class", "English")], Vec::new());
    assert!(!is_section(&by_class, "English"));
    let second = DocNode::element(
        "h2",
        vec![Attr::new("class", "x"), Attr::new("id", "English")],
        Vec::new(),
    );
    assert!(is_section(&second, "English"));
    let twice = DocNode::element(
        "h2",
        vec![Attr::new("id", "French"), Attr::new("id", "English")],
        Vec::new(),
    );
    assert!(is_section(&twice, "English"));
    assert!(is_section(&twice, "French"));
}

#[test]
fn search_at_depth_zero_looks_at_the_level_itself() {
    let level = vec![DocNode::text("x"), heading("English")];
    assert!(matches!(search_title_with_depth(0, &level, "English"), SearchStatus::FoundTitle));
    assert!(matches!(search_title_with_depth(0, &level, "French"), SearchStatus::NoMatch));
    let deeper = vec![el("div", vec![heading("English")])];
    assert!(matches!(search_title_with_depth(0, &deeper, "English"), SearchStatus::NoMatch));
    assert!(matches!(search_title_with_depth(0, &[], "English"), SearchStatus::NoMatch));
}

#[test]
fn search_at_depth_one_gives_the_holder_and_its_later_siblings() {
    let level = vec![
        el("p", vec![DocNode::text("before")]),
        el("div", vec![heading("English")]),
        el("p", vec![DocNode::text("after")]),
    ];
    match search_title_with_depth(1, &level, "English") {
        SearchStatus::FirstDepth(found) => assert_eq!(found, &level[1..]),
        _ => panic!("no first depth"),
    }
    let on_level = vec![heading("English")];
    assert!(matches!(search_title_with_depth(1, &on_level, "English"), SearchStatus::NoMatch));
}

#[test]
fn search_at_depth_two_resolves_to_the_level_below_the_first_holder() {
    let english = section("English", "cat");
    let body = vec![el("div", english), el("div", section("French", "chat"))];
    match search_title_with_depth(2, &body, "English") {
        SearchStatus::Resolved(found) => assert_eq!(found, &body[0].children[..]),
        _ => panic!("not resolved"),
    }
    match search_title_with_depth(2, &body, "French") {
        SearchStatus::Resolved(found) => assert_eq!(found, &body[1].children[..]),
        _ => panic!("not resolved"),
    }
    assert!(matches!(search_title_with_depth(2, &body, "German"), SearchStatus::NoMatch));
    assert!(matches!(
        search_title_with_depth(2, &body[0].children, "English"),
        SearchStatus::NoMatch
    ));
}

#[test]
fn section_ends_where_the_next_container_begins() {
    let mut english = vec![el("p", vec![DocNode::text("intro")])];
    english.extend(section("English", "a small cat"));
    english.push(el("ul", vec![el("li", vec![DocNode::text("more")])]));
    let body = vec![el("div", english), el("div", section("French", "un chat"))];
    let found = get_definitions(&body, "English").unwrap();
    assert_eq!(found.len(), 3);
    assert_eq!(found, &body[0].children[1..]);
    assert_eq!(found[0], el("div", vec![heading("English")]));
    assert_eq!(
        print_nodes(found),
        "<div><h2 id=\"English\">English</h2></div><p>a small cat</p><ul><li>more</li></ul>"
    );
    let french = get_definitions(&body, "French").unwrap();
    assert_eq!(french, &body[1].children[..]);
    assert_eq!(
        print_nodes(french),
        "<div><h2 id=\"French\">French</h2></div><p>un chat</p>"
    );
}

#[test]
fn later_sections_on_the_same_level_belong_to_the_result() {
    let mut level = section("English", "cat");
    level.extend(section("French", "chat"));
    let body = vec![el("div", level)];
    let found = get_definitions(&body, "English").unwrap();
    assert_eq!(found, &body[0].children[..]);
    let french = get_definitions(&body, "French").unwrap();
    assert_eq!(french, &body[0].children[2..]);
}

#[test]
fn first_heading_in_document_order_wins() {
    let body = vec![
        el("div", vec![el("p", Vec::new()), el("div", vec![heading("English")])]),
        el("div", vec![el("div", vec![heading("English")]), el("p", Vec::new())]),
    ];
    let found = get_definitions(&body, "English").unwrap();
    assert_eq!(found, &body[0].children[1..]);

    let twice = vec![el(
        "div",
        vec![
            el("div", vec![heading("English")]),
            el("p", vec![DocNode::text("one")]),
            el("div", vec![heading("English")]),
            el("p", vec![DocNode::text("two")]),
        ],
    )];
    assert_eq!(get_definitions(&twice, "English").unwrap(), &twice[0].children[..]);
}

#[test]
fn shallow_heading_is_no_match_and_deep_heading_is_found_by_descent() {
    let on_top = vec![heading("English")];
    assert_eq!(get_definitions(&on_top, "English"), None);
    let one_down = vec![el("div", vec![heading("English")])];
    assert_eq!(get_definitions(&one_down, "English"), None);
    let two_down = vec![el("div", vec![el("div", vec![heading("English")])])];
    assert_eq!(get_definitions(&two_down, "English").unwrap(), &two_down[0].children[..]);
    let four_down = vec![
        el("nav", Vec::new()),
        el("main", vec![el("article", vec![el("div", section("English", "cat"))])]),
    ];
    let found = get_definitions(&four_down, "English").unwrap();
    assert_eq!(found, &four_down[1].children[0].children[0].children[..]);
    assert_eq!(get_definitions(&[], "English"), None);
}

#[test]
fn top_level_match_is_preferred_to_a_deeper_one_that_comes_first() {
    let body = vec![
        el("div", vec![el("div", vec![el("div", vec![heading("English")])])]),
        el("div", vec![el("section", vec![heading("English")])]),
    ];
    let found = get_definitions(&body, "English").unwrap();
    assert_eq!(found, &body[1].children[..]);
}

#[test]
fn blank_text_is_text_of_whitespace_only() {
    assert!(is_blank(&DocNode::text("")));
    assert!(is_blank(&DocNode::text(" \n\t")));
    assert!(!is_blank(&DocNode::text(" x ")));
    assert!(!is_blank(&el("p", Vec::new())));
    assert!(!is_blank(&DocNode { data: NodeKind::Comment { contents: " ".to_string() }, children: Vec::new() }));
}

#[test]
fn working_sequence_is_the_children_of_the_content_root() {
    let body = section("English", "cat");
    let doc = page(section("English", "cat"));
    assert_eq!(remove_heading(&doc), Ok(&body[..]));

    let doctype = DocNode { data: NodeKind::Doctype { name: "html".to_string() }, children: Vec::new() };
    let with_doctype = DocNode::document(vec![
        doctype,
        el("html", vec![el("head", Vec::new()), el("body", section("English", "cat"))]),
    ]);
    assert_eq!(remove_heading(&with_doctype), Ok(&body[..]));

    let spaced = DocNode::document(vec![el(
        "html",
        vec![
            el("head", Vec::new()),
            DocNode::text("\n  "),
            DocNode::text(""),
            el("body", section("English", "cat")),
            el("footer", vec![DocNode::text("not reached")]),
        ],
    )]);
    assert_eq!(remove_heading(&spaced), Ok(&body[..]));

    let first_is_skipped = DocNode::document(vec![el(
        "html",
        vec![el("nav", vec![DocNode::text("skipped")]), DocNode::text("text"), el("body", Vec::new())],
    )]);
    let none: &[DocNode] = &[];
    assert_eq!(remove_heading(&first_is_skipped), Ok(none));
}

#[test]
fn document_without_wrapper_or_content_is_malformed() {
    let malformed = Err(ExtractError::MalformedDocument);
    assert_eq!(remove_heading(&DocNode::document(Vec::new())), malformed);
    assert_eq!(remove_heading(&DocNode::document(vec![DocNode::text("x")])), malformed);
    assert_eq!(remove_heading(&DocNode::document(vec![el("html", vec![el("head", Vec::new())])])), malformed);
    assert_eq!(
        remove_heading(&DocNode::document(vec![el(
            "html",
            vec![el("head", Vec::new()), DocNode::text(" "), DocNode::text("\n")]
        )])),
        malformed
    );
    assert_eq!(
        remove_heading(&DocNode::document(vec![DocNode::text("x"), el("html", Vec::new())])),
        malformed
    );
    assert_eq!(extract_document(&DocNode::document(Vec::new())), Err(ExtractError::MalformedDocument));
}

#[test]
fn markup_is_written_by_the_serializer() {
    let nodes = vec![
        el(
            "div",
            vec![
                DocNode::element(
                    "a",
                    vec![Attr::new("href", "/wiki/cat?x=1&y=\"2\""), Attr::new("title", "<cat>")],
                    vec![DocNode::text("cat & <dog>\u{a0}")],
                ),
                el("br", Vec::new()),
                el("img", vec![el("b", vec![DocNode::text("untagged")]), DocNode::text("kept")]),
                DocNode { data: NodeKind::Comment { contents: " note ".to_string() }, children: Vec::new() },
                el("script", vec![DocNode::text("a < b && c")]),
            ],
        ),
        DocNode::text("a bare <text>"),
        el("p", Vec::new()),
        el("ul", vec![el("li", vec![DocNode::text("x")])]),
        DocNode { data: NodeKind::Doctype { name: "html".to_string() }, children: Vec::new() },
        DocNode {
            data: NodeKind::ProcessingInstruction {
                target: "pi".to_string(),
                contents: "data".to_string(),
            },
            children: Vec::new(),
        },
    ];
    assert_eq!(
        print_nodes(&nodes),
        "<div><a href=\"/wiki/cat?x=1&amp;y=&quot;2&quot;\" title=\"&lt;cat&gt;\">cat &amp; &lt;dog&gt;&nbsp;</a>\
         <br><img>untaggedkept<!-- note --><script>a < b && c</script></div>\
         a bare &lt;text&gt;<p></p><ul><li>x</li></ul><!DOCTYPE html><?pi data>"
    );
    assert_eq!(print_nodes(&[]), "");
}

#[test]
fn each_node_is_written_with_its_own_tag() {
    let forest = vec![el("p", vec![DocNode::text("a")]), DocNode::text("b")];
    assert_eq!(print_nodes(&forest), "<p>a</p>b");
    assert_eq!(print_nodes(&forest[..1]), "<p>a</p>");
    assert_eq!(print_nodes(&forest[1..]), "b");
}

#[test]
fn fallback_label_is_used_where_the_primary_is_absent() {
    let doc = page(vec![el("div", section("Translingual", "symbol"))]);
    assert_eq!(
        extract_document(&doc),
        Ok("<div><h2 id=\"Translingual\">Translingual</h2></div><p>symbol</p>".to_string())
    );
}

#[test]
fn fallback_is_a_choice_of_the_caller() {
    let doc = page(vec![
        el("div", section("Translingual", "symbol")),
        el("div", section("French", "chat")),
    ]);
    let symbol = Ok("<div><h2 id=\"Translingual\">Translingual</h2></div><p>symbol</p>".to_string());
    assert_eq!(extract_section(&doc, "English", Some("Translingual")), symbol);
    assert_eq!(extract_section(&doc, "English", None), Err(ExtractError::SectionNotFound));
    assert_eq!(extract_section(&doc, "Translingual", None), symbol);
    assert_eq!(
        extract_section(&doc, "German", Some("French")),
        Ok("<div><h2 id=\"French\">French</h2></div><p>chat</p>".to_string())
    );
    assert_eq!(
        extract_section(&doc, "German", Some("Dutch")),
        Err(ExtractError::SectionNotFound)
    );
    assert_eq!(
        extract_section(&DocNode::document(Vec::new()), "English", None),
        Err(ExtractError::MalformedDocument)
    );
}

#[test]
fn primary_label_is_preferred_to_the_fallback() {
    let doc = page(vec![
        el("div", section("Translingual", "symbol")),
        el("div", section("English", "word")),
    ]);
    assert_eq!(
        extract_document(&doc),
        Ok("<div><h2 id=\"English\">English</h2></div><p>word</p>".to_string())
    );
}

#[test]
fn document_without_either_label_has_no_section() {
    let doc = page(vec![el("div", section("French", "chat"))]);
    assert_eq!(extract_document(&doc), Err(ExtractError::SectionNotFound));
    let shallow = page(vec![heading("English"), el("div", vec![heading("Translingual")])]);
    assert_eq!(extract_document(&shallow), Err(ExtractError::SectionNotFound));
    assert_eq!(extract_document(&page(Vec::new())), Err(ExtractError::SectionNotFound));
}

#[test]
fn section_that_cannot_be_written_is_malformed() {
    let mut level = section("English", "cat");
    level.push(el("div", vec![DocNode::document(Vec::new())]));
    assert!(!all_fit(&level));
    assert!(all_fit(&level[..2]));
    let doc = page(vec![el("div", level)]);
    assert_eq!(extract_document(&doc), Err(ExtractError::MalformedDocument));
    assert!(el("p", vec![DocNode::text("x")]).fits());
    assert!(!DocNode::document(vec![el("p", Vec::new())]).fits());
    assert!(!el("p", vec![DocNode::document(Vec::new())]).fits());
    assert!(!all_fit(&[DocNode::document(Vec::new())]));
}

#[test]
fn text_is_parsed_then_extracted() {
    let html = "<!DOCTYPE html><html><head><title>cat</title></head>\n<body>\
                <div id=\"content\"><div class=\"mw-heading\"><h2 id=\"English\">English</h2></div>\
                <p>A small <b>domesticated</b> animal.</p>\
                <div class=\"mw-heading\"><h2 id=\"French\">French</h2></div><p>chat</p></div>\
                </body></html>";
    assert_eq!(
        extract_one(html),
        Ok("<div class=\"mw-heading\"><h2 id=\"English\">English</h2></div>\
            <p>A small <b>domesticated</b> animal.</p>\
            <div class=\"mw-heading\"><h2 id=\"French\">French</h2></div><p>chat</p>"
            .to_string())
    );
    assert_eq!(extract_one("<p>no section</p>"), Err(ExtractError::SectionNotFound));
    assert_eq!(extract_one(""), Err(ExtractError::SectionNotFound));
}

#[test]
fn english_section_alone_comes_out_of_a_page_with_two_languages() {
    let html = "<html><head></head><body><section><div><h2 id=\"English\">English</h2></div>\
                <p>a cat</p></section><section><div><h2 id=\"French\">French</h2></div>\
                <p>un chat</p></section></body></html>";
    assert_eq!(
        extract_one(html),
        Ok("<div><h2 id=\"English\">English</h2></div><p>a cat</p>".to_string())
    );
}

#[test]
fn fallback_section_comes_out_of_a_page_without_the_primary_label() {
    let html = "<html><head></head><body><section><div><h2 id=\"Translingual\">T</h2></div>\
                <p>sym</p></section></body></html>";
    assert_eq!(
        extract_one(html),
        Ok("<div><h2 id=\"Translingual\">T</h2></div><p>sym</p>".to_string())
    );
}

#[test]
fn two_sections_in_two_containers_are_kept_apart() {
    let html = "<html><head></head><body>\
                <section><div><h2 id=\"English\">English</h2></div><p>cat</p><ol><li>animal</li></ol></section>\
                <section><div><h2 id=\"French\">French</h2></div><p>chat</p></section>\
                </body></html>";
    assert_eq!(
        extract_one(html),
        Ok("<div><h2 id=\"English\">English</h2></div><p>cat</p><ol><li>animal</li></ol>"
            .to_string())
    );
}

#[test]
fn parsed_document_is_the_tree_of_the_text() {
    let doc = parse_document("<html><head></head><body><p class=\"x\">Hi &amp; bye</p><!--c--></body></html>")
        .unwrap();
    let expected = DocNode::document(vec![el(
        "html",
        vec![
            el("head", Vec::new()),
            el(
                "body",
                vec![
                    DocNode::element(
                        "p",
                        vec![Attr::new("class", "x")],
                        vec![DocNode::text("Hi & bye")],
                    ),
                    DocNode { data: NodeKind::Comment { contents: "c".to_string() }, children: Vec::new() },
                ],
            ),
        ],
    )]);
    assert_eq!(doc, expected);
    let bare = parse_document("x").unwrap();
    assert_eq!(
        bare,
        DocNode::document(vec![el(
            "html",
            vec![el("head", Vec::new()), el("body", vec![DocNode::text("x")])]
        )])
    );
}

#[test]
fn output_path_goes_by_name() {
    let word = DefinedWord { name: "cat".to_string(), path: "./data/defs/cat.html".to_string() };
    assert_eq!(word_to_output(&word), "data/extracted/cat.html");
}

#[test]
fn extraction_of_an_entry_reads_extracts_and_writes() {
    let word = DefinedWord { name: "cat".to_string(), path: "./data/defs/cat.html".to_string() };
    let state = extract_start();
    assert_eq!(
        extract_action(&word, &state),
        ExtractAction::CheckOutput { path: "data/extracted/cat.html".to_string() }
    );
    let state = extract_word(state, ExtractEvent::OutputMissing);
    assert_eq!(
        extract_action(&word, &state),
        ExtractAction::ReadInput { path: "./data/defs/cat.html".to_string() }
    );
    let html = "<html><body><div><div><h2 id=\"English\">English</h2></div><p>cat</p></div></body></html>";
    let state = extract_word(state, ExtractEvent::Input { html: html.to_string() });
    assert_eq!(
        extract_action(&word, &state),
        ExtractAction::WriteOutput {
            path: "data/extracted/cat.html".to_string(),
            contents: "<div><h2 id=\"English\">English</h2></div><p>cat</p>".to_string()
        }
    );
    let state = extract_word(state, ExtractEvent::Written);
    assert_eq!(state, ExtractState::Done { outcome: Ok(Extracted::Written) });
    assert_eq!(extract_action(&word, &state), ExtractAction::Finish);
}

#[test]
fn existing_output_is_left_alone() {
    let word = DefinedWord { name: "cat".to_string(), path: "./data/defs/cat.html".to_string() };
    let state = extract_word(extract_start(), ExtractEvent::OutputExists);
    assert_eq!(state, ExtractState::Done { outcome: Ok(Extracted::AlreadyThere) });
    assert_eq!(extract_action(&word, &state), ExtractAction::Finish);
    let state = extract_word(state, ExtractEvent::Input { html: "<p>x</p>".to_string() });
    assert_eq!(state, ExtractState::Done { outcome: Ok(Extracted::AlreadyThere) });
}

#[test]
fn failed_extraction_asks_for_no_write() {
    let word = DefinedWord { name: "dog".to_string(), path: "./data/defs/dog.html".to_string() };
    let state = extract_word(extract_start(), ExtractEvent::OutputMissing);
    let state = extract_word(state, ExtractEvent::Input { html: "<p>nothing here</p>".to_string() });
    assert_eq!(state, ExtractState::Done { outcome: Err(ExtractError::SectionNotFound) });
    assert_eq!(extract_action(&word, &state), ExtractAction::Finish);
}

#[test]
fn page_that_cannot_be_read_fails_its_entry() {
    let word = DefinedWord { name: "cat".to_string(), path: "./data/defs/cat.html".to_string() };
    let state = extract_word(extract_start(), ExtractEvent::OutputMissing);
    let state = extract_word(state, ExtractEvent::InputFailed);
    assert_eq!(state, ExtractState::Done { outcome: Err(ExtractError::PageUnreadable) });
    assert_eq!(extract_action(&word, &state), ExtractAction::Finish);
    let later = extract_word(state, ExtractEvent::Input { html: "<p>late</p>".to_string() });
    assert_eq!(later, ExtractState::Done { outcome: Err(ExtractError::PageUnreadable) });
    let out_of_turn = extract_word(extract_start(), ExtractEvent::InputFailed);
    assert_eq!(out_of_turn, ExtractState::Lookup);
}

#[test]
fn failed_write_of_a_section_is_a_persist_failure() {
    let state = extract_word(
        ExtractState::Writing { contents: "x".to_string() },
        ExtractEvent::WriteFailed,
    );
    assert_eq!(state, ExtractState::Done { outcome: Err(ExtractError::PersistFailure) });
    let kept = extract_word(ExtractState::Reading, ExtractEvent::Written);
    assert_eq!(kept, ExtractState::Reading);
}

#[test]
fn failures_are_gathered_by_name() {
    let words = vec![
        DefinedWord { name: "cat".to_string(), path: "a".to_string() },
        DefinedWord { name: "dog".to_string(), path: "b".to_string() },
        DefinedWord { name: "eel".to_string(), path: "c".to_string() },
        DefinedWord { name: "fox".to_string(), path: "d".to_string() },
    ];
    let outcomes = vec![
        Ok(Extracted::Written),
        Err(ExtractError::SectionNotFound),
        Err(ExtractError::MalformedDocument),
    ];
    assert_eq!(
        extract_all(words, &outcomes),
        vec![
            FailedEntry { name: "dog".to_string(), kind: ExtractError::SectionNotFound },
            FailedEntry { name: "eel".to_string(), kind: ExtractError::MalformedDocument },
        ]
    );
    assert_eq!(extract_all(Vec::new(), &outcomes), Vec::new());
}
