use oxibrowser_core::json::{number_json, text_json, Json};
use oxibrowser_core::json_codec::{parse_json, write_json};
use oxibrowser_core::page_table::{PageTable, MAX_PAGES};
use oxibrowser_core::wasm_dispatch::{
    capabilities, dispatch_verb, dom_query_reply, encode_reply, err, evaluate_reply,
    extract_markdown_reply, navigate_reply, ok, page_of, panic_reply, parse_verb, parsed_or_null,
    read_body, read_call, read_str, runtime_failure_reply, verb_close_page, verb_dom_query,
    verb_evaluate, verb_list_pages, verb_navigate, with_page, Evaluation, Job, NodeSummary,
    PageAction, PageEvent, Step, Verb, DEFAULT_PAGE, PAGE_FIELD,
};

fn object(entries: Vec<(&str, Json)>) -> Json {
    Json::Object(entries.into_iter().map(|(k, v)| (k.to_string(), v)).collect())
}

const VERBS: [Verb; 7] = [
    Verb::Navigate,
    Verb::Evaluate,
    Verb::DomQuery,
    Verb::ExtractMarkdown,
    Verb::ListPages,
    Verb::ClosePage,
    Verb::Capabilities,
];

#[test]
fn answers_are_json() {
    let reply = ok("navigate", "default", object(vec![("navigated", Json::Bool(true))]));
    assert_eq!(
        encode_reply(&reply),
        b"{\"data\":{\"navigated\":true},\"ok\":true,\"page\":\"default\",\"verb\":\"navigate\"}".to_vec()
    );
    let reply = err("x", "p", "no");
    assert_eq!(
        encode_reply(&reply),
        b"{\"error\":\"no\",\"ok\":false,\"page\":\"p\",\"verb\":\"x\"}".to_vec()
    );
}

#[test]
fn answers_are_read_back() {
    for reply in [err("v\u{e9}", "p", "m \"q\""), ok("v", "p", Json::Array(vec![Json::Null]))] {
        let text = read_str(Some(&encode_reply(&reply)));
        let back = parse_json(&text).unwrap();
        assert_eq!(back.get("ok"), reply.get("ok"));
        assert_eq!(back.get_str("verb"), reply.get_str("verb"));
        assert_eq!(back.get_str("page"), Some("p"));
        assert_eq!(back.get("data"), reply.get("data"));
        assert_eq!(back.get("error"), reply.get("error"));
    }
}

#[test]
fn success_has_data_and_failure_has_a_message() {
    let success = ok("v", "p", Json::Null);
    assert_eq!(success.get("ok"), Some(&Json::Bool(true)));
    assert_eq!(success.get("data"), Some(&Json::Null));
    assert_eq!(success.get("error"), None);
    let failure = err("v", "p", "m");
    assert_eq!(failure.get("ok"), Some(&Json::Bool(false)));
    assert_eq!(failure.get_str("error"), Some("m"));
    assert_eq!(failure.get("data"), None);
}

#[test]
fn page_is_trimmed_or_default() {
    assert_eq!(PAGE_FIELD, "page");
    assert_eq!(DEFAULT_PAGE, "default");
    assert_eq!(page_of(&object(vec![("page", text_json(" \u{3000}a b\u{a0}\n"))])), "a b");
    assert_eq!(page_of(&object(vec![("page", text_json("\u{200b}"))])), "\u{200b}");
    assert_eq!(page_of(&object(vec![("page", text_json(" \t\u{85}"))])), "default");
    assert_eq!(page_of(&object(vec![("page", text_json(""))])), "default");
    assert_eq!(page_of(&object(vec![("page", number_json(1))])), "default");
    assert_eq!(page_of(&object(vec![])), "default");
    assert_eq!(page_of(&Json::Null), "default");
}

#[test]
fn white_space_is_that_of_unicode() {
    for code in 0..0x11_0000u32 {
        if let Some(c) = char::from_u32(code) {
            let listed = matches!(
                code,
                0x9..=0xd
                    | 0x20
                    | 0x85
                    | 0xa0
                    | 0x1680
                    | 0x2000..=0x200a
                    | 0x2028
                    | 0x2029
                    | 0x202f
                    | 0x205f
                    | 0x3000
            );
            assert_eq!(c.is_whitespace(), listed);
        }
    }
}

#[test]
fn calls_are_read() {
    let call = read_call(Some(b"navigate"), Some(br#"{"page":" p ","url":"u"}"#));
    assert_eq!(call.verb, "navigate");
    assert_eq!(call.page, "p");
    assert_eq!(call.body.get_str("url"), Some("u"));
    let call = read_call(None, None);
    assert_eq!(call.verb, "");
    assert_eq!(call.page, "default");
    assert_eq!(call.body, Json::Null);
    let call = read_call(Some(&[b'x', 0xff]), Some(b"{not json"));
    assert_eq!(call.verb, "x\u{fffd}");
    assert_eq!(call.body, Json::Null);
    assert_eq!(call.page, "default");
}

#[test]
fn bodies_are_null_where_they_are_not_json() {
    assert_eq!(read_body(""), Json::Null);
    assert_eq!(read_body("]"), Json::Null);
    assert_eq!(read_body("3"), number_json(3));
    assert_eq!(parsed_or_null(None), Json::Null);
    assert_eq!(parsed_or_null(Some(Json::Bool(true))), Json::Bool(true));
}

#[test]
fn verbs_and_names_match() {
    for verb in VERBS {
        assert_eq!(parse_verb(verb.name()), Some(verb));
    }
    assert_eq!(parse_verb("Navigate"), None);
    assert_eq!(parse_verb(""), None);
    assert_eq!(parse_verb("navigate "), None);
}

#[test]
fn calls_lead_to_jobs() {
    let body = object(vec![
        ("url", text_json("https://x/")),
        ("expression", text_json("1+1")),
        ("selector", text_json("a.b")),
    ]);
    assert_eq!(
        dispatch_verb("navigate", "p", &body),
        Step::UsePage(Job::Navigate("https://x/".to_string()))
    );
    assert_eq!(
        dispatch_verb("evaluate", "p", &body),
        Step::UsePage(Job::Evaluate("1+1".to_string()))
    );
    assert_eq!(
        dispatch_verb("dom-query", "p", &body),
        Step::UsePage(Job::Query("a.b".to_string()))
    );
    assert_eq!(dispatch_verb("extract-markdown", "p", &Json::Null), Step::UsePage(Job::Markdown));
    assert_eq!(dispatch_verb("list-pages", "p", &Json::Null), Step::ListPages);
    assert_eq!(dispatch_verb("close-page", "p", &Json::Null), Step::ClosePage);
}

#[test]
fn missing_fields_are_refused() {
    let body = object(vec![("url", number_json(1)), ("selector", Json::Null)]);
    assert_eq!(
        verb_navigate("p", &body),
        Step::Reply(err("navigate", "p", "missing required field: url"))
    );
    assert_eq!(
        verb_evaluate("p", &body),
        Step::Reply(err("evaluate", "p", "missing required field: expression"))
    );
    assert_eq!(
        verb_dom_query("p", &body),
        Step::Reply(err("dom-query", "p", "missing required field: selector"))
    );
    assert_eq!(
        dispatch_verb("navigate", "p", &Json::Null),
        Step::Reply(err("navigate", "p", "missing required field: url"))
    );
}

#[test]
fn unknown_verbs_are_refused() {
    assert_eq!(
        dispatch_verb("fly", "p", &Json::Null),
        Step::Reply(err("fly", "p", "unknown verb: fly"))
    );
}

#[test]
fn capabilities_are_told() {
    assert_eq!(
        dispatch_verb("capabilities", "p", &Json::Null),
        Step::Reply(ok("capabilities", "p", capabilities()))
    );
    assert_eq!(
        write_json(&capabilities()),
        concat_lines(&[
            "{\"default_page\":\"default\",\"max_pages\":16,\"page_field\":\"page\",",
            "\"payload_field\":{\"close-page\":\"closed\",\"dom-query\":\"nodes\",",
            "\"evaluate\":\"value\",\"extract-markdown\":\"markdown\",\"list-pages\":\"pages\",",
            "\"navigate\":\"navigated\"},\"plugin\":\"oxibrowser\",\"verbs\":[\"navigate\",",
            "\"evaluate\",\"dom-query\",\"extract-markdown\",\"list-pages\",\"close-page\",",
            "\"capabilities\"]}",
        ])
    );
}

fn concat_lines(lines: &[&str]) -> String {
    lines.concat()
}

#[test]
fn told_verbs_are_the_known_ones() {
    let told = capabilities();
    let names = told.get("verbs").unwrap().as_array().unwrap();
    assert_eq!(names.len(), VERBS.len());
    for name in names {
        assert!(parse_verb(name.as_str().unwrap()).is_some());
    }
}

#[test]
fn payload_is_in_its_field() {
    let told = capabilities();
    let fields = told.get("payload_field").unwrap();
    let mut table: PageTable<u8> = PageTable::new();
    let replies = [
        navigate_reply("p", Ok(())),
        evaluate_reply("p", Ok(Evaluation { value: number_json(2), exception: Json::Null })),
        dom_query_reply("p", Ok(None)),
        extract_markdown_reply("p", Ok(None)),
        verb_list_pages(&table, "p", |_: &u8| None),
        verb_close_page(&mut table, "p"),
    ];
    for reply in replies {
        let field = fields.get_str(reply.get_str("verb").unwrap()).unwrap();
        assert!(reply.get("data").unwrap().get(field).is_some());
    }
}

#[test]
fn navigation_is_answered() {
    assert_eq!(
        write_json(&navigate_reply("p", Ok(()))),
        "{\"data\":{\"navigated\":true},\"ok\":true,\"page\":\"p\",\"verb\":\"navigate\"}"
    );
    assert_eq!(navigate_reply("p", Err("e".to_string())), err("navigate", "p", "e"));
}

#[test]
fn evaluation_is_answered() {
    let outcome = Evaluation { value: parse_json("1.5").unwrap(), exception: text_json("x") };
    assert_eq!(
        write_json(evaluate_reply("p", Ok(outcome)).get("data").unwrap()),
        "{\"exception\":\"x\",\"value\":1.5}"
    );
    assert_eq!(evaluate_reply("p", Err("e".to_string())), err("evaluate", "p", "e"));
}

#[test]
fn query_is_answered() {
    let node = |tag: &str| Some(NodeSummary { tag: text_json(tag), text: Json::Null });
    let reply = dom_query_reply("p", Ok(Some(vec![node("a"), None, node("b")])));
    assert_eq!(
        write_json(reply.get("data").unwrap()),
        "{\"nodes\":[{\"tag\":\"a\",\"text\":null},{\"tag\":\"b\",\"text\":null}]}"
    );
    assert_eq!(write_json(dom_query_reply("p", Ok(None)).get("data").unwrap()), "{\"nodes\":[]}");
    assert_eq!(dom_query_reply("p", Err("e".to_string())), err("dom-query", "p", "e"));
}

#[test]
fn extraction_is_answered() {
    let data = |r: Json| write_json(r.get("data").unwrap());
    assert_eq!(
        data(extract_markdown_reply("p", Ok(Some("# t".to_string())))),
        "{\"markdown\":\"# t\"}"
    );
    assert_eq!(data(extract_markdown_reply("p", Ok(None))), "{\"markdown\":\"\"}");
    assert_eq!(
        extract_markdown_reply("p", Err("e".to_string())),
        err("extract-markdown", "p", "e")
    );
}

#[test]
fn listing_is_answered() {
    let mut table = PageTable::new();
    table.park_page("a", Some("https://a/"));
    table.park_page("b", None);
    let reply = verb_list_pages(&table, "q", |s: &Option<&str>| s.map(|u| u.to_string()));
    assert_eq!(
        write_json(&reply),
        concat_lines(&[
            "{\"data\":{\"max_pages\":16,\"pages\":[",
            "{\"last_used\":2,\"page\":\"b\",\"url\":null},",
            "{\"last_used\":1,\"page\":\"a\",\"url\":\"https://a/\"}]},",
            "\"ok\":true,\"page\":\"q\",\"verb\":\"list-pages\"}",
        ])
    );
}

#[test]
fn closing_is_answered() {
    let mut table = PageTable::new();
    table.park_page("a", 1);
    let closed = |r: &Json| r.get("data").unwrap().get("closed") == Some(&Json::Bool(true));
    assert!(closed(&verb_close_page(&mut table, "a")));
    assert!(!closed(&verb_close_page(&mut table, "a")));
    assert_eq!(table.len(), 0);
    assert_eq!(
        write_json(&verb_close_page(&mut table, "a")),
        "{\"data\":{\"closed\":false},\"ok\":true,\"page\":\"a\",\"verb\":\"close-page\"}"
    );
}

#[test]
fn page_is_opened_used_and_parked() {
    let mut table = PageTable::new();
    assert_eq!(with_page(&mut table, "a", PageEvent::Wanted), PageAction::Open);
    assert_eq!(with_page(&mut table, "a", PageEvent::Opened(Ok(7))), PageAction::Run(7));
    assert_eq!(table.len(), 0);
    assert_eq!(with_page(&mut table, "a", PageEvent::Finished(8)), PageAction::Done(vec![]));
    assert_eq!(table.len(), 1);
    assert_eq!(with_page(&mut table, "a", PageEvent::Wanted), PageAction::Run(8));
    assert_eq!(table.len(), 0);
}

#[test]
fn page_that_cannot_be_opened_leaves_the_table() {
    let mut table = PageTable::new();
    table.park_page("b", 1);
    assert_eq!(with_page(&mut table, "a", PageEvent::Wanted), PageAction::Open);
    assert_eq!(
        with_page(&mut table, "a", PageEvent::Opened(Err("no".to_string()))),
        PageAction::Fail("no".to_string())
    );
    assert_eq!(table.len(), 1);
    assert_eq!(table.last_tick(), 1);
}

#[test]
fn using_many_pages_closes_the_oldest() {
    let mut table = PageTable::new();
    for i in 0..MAX_PAGES {
        with_page(&mut table, &i.to_string(), PageEvent::Finished(i));
    }
    assert_eq!(
        with_page(&mut table, "more", PageEvent::Finished(99)),
        PageAction::Done(vec!["0".to_string()])
    );
}

#[test]
fn panics_are_answered() {
    assert_eq!(panic_reply("v", "p", Some("boom")), err("v", "p", "panicked: boom"));
    assert_eq!(
        panic_reply("v", "p", None),
        err("v", "p", "panicked: panic during dispatch")
    );
}

#[test]
fn runtime_failure_is_answered() {
    assert_eq!(
        runtime_failure_reply("v", "p", "no driver"),
        err("v", "p", "failed to build async runtime: no driver")
    );
}

#[test]
fn answers_are_never_empty() {
    for reply in [err("", "", ""), ok("", "", Json::Null), Json::Null, Json::Array(vec![])] {
        assert!(!encode_reply(&reply).is_empty());
    }
}

#[test]
fn utf8_calls_are_read_as_they_are() {
    let call = read_call(Some("\u{e9}t\u{e9}".as_bytes()), Some("{\"page\":\"\u{1f600}\"}".as_bytes()));
    assert_eq!(call.verb, "\u{e9}t\u{e9}");
    assert_eq!(call.page, "\u{1f600}");
}

#[test]
fn listing_again_gives_the_same_data() {
    let mut table = PageTable::new();
    table.park_page("a", "https://a/");
    table.park_page("b", "https://b/");
    let list = |table: &PageTable<&str>, page: &str| {
        verb_list_pages(table, page, |url: &&str| Some(url.to_string()))
    };
    let first = list(&table, "a");
    let second = list(&table, "a");
    let other = list(&table, "not open");
    assert_eq!(first, second);
    assert_eq!(first.get("data"), other.get("data"));
    assert_eq!(first.get_str("page"), Some("a"));
    assert_eq!(other.get_str("page"), Some("not open"));
    assert_eq!(table.len(), 2);
    assert_eq!(table.last_tick(), 2);
}
