//! What holds of calls and answers as a whole.

use vstd::prelude::*;
use vstd::utf8::{
    decode_utf8, encode_utf8, encode_utf8_decode_utf8, encode_utf8_valid_utf8, valid_utf8,
};

use crate::host_abi::{law_unpacking_undoes_packing, packed, packed_len};
use crate::json::{JsonNumber, JsonTree};
use crate::json_codec::{json_parse, reads_back, MAX_READ_DEPTH};
use crate::page_laws::law_listing_is_determined;
use crate::page_table::{is_listing, listed_before, PageEntry, Pages, MAX_PAGES};
use crate::text::{
    is_white_space, law_trimming_leaves_the_name, lossy_text, text_before, trimmed, trimmed_end,
    trimmed_start,
};
use crate::wasm_dispatch::{
    all_verbs, argument_text, body_value, capabilities_tree, closed_tree, dispatch_step,
    entry_tree, err_tree, evaluated_tree, extracted_tree, is_list_reply, listed_tree,
    navigated_tree, node_trees, ok_tree, page_name, panic_message, queried_tree, tells_urls,
    unknown_verb_tree, verb_names, verb_of, Job, JobTree, NodeSummary, Step, StepTree, Verb,
    DEFAULT_PAGE,
};

verus! {

proof fn lemma_verb_names()
    ensures
        "navigate"@.len() == 8 && "navigate"@[0] == 'n',
        "evaluate"@.len() == 8 && "evaluate"@[0] == 'e',
        "dom-query"@.len() == 9,
        "extract-markdown"@.len() == 16,
        "list-pages"@.len() == 10 && "list-pages"@[0] == 'l',
        "close-page"@.len() == 10 && "close-page"@[0] == 'c',
        "capabilities"@.len() == 12,
{
    reveal_strlit("navigate");
    reveal_strlit("evaluate");
    reveal_strlit("dom-query");
    reveal_strlit("extract-markdown");
    reveal_strlit("list-pages");
    reveal_strlit("close-page");
    reveal_strlit("capabilities");
}

/// Each verb is asked for by its own name, and by no other.
pub proof fn law_verbs_and_names_match(verb: Verb, name: Seq<char>)
    ensures
        verb_of(verb.spec_name()) == Some(verb),
        verb_of(name) == Some(verb) ==> name == verb.spec_name(),
{
    lemma_verb_names();
}

/// The names that the plugin tells are exactly those that are not answered as unknown.
pub proof fn law_told_verbs_are_the_known_ones(name: Seq<char>, page: Seq<char>, body: JsonTree)
    ensures
        capabilities_tree().member("verbs"@) == Some(verb_names(all_verbs())),
        verb_names(all_verbs())->Array_0.contains(JsonTree::Text(name)) <==> verb_of(name) is Some,
        verb_of(name) is None ==> dispatch_step(name, page, body) == StepTree::Reply(
            unknown_verb_tree(name, page),
        ),
{
    lemma_capability_members();
    lemma_verb_names();
    let names = verb_names(all_verbs())->Array_0;
    if names.contains(JsonTree::Text(name)) {
        let i = choose|i: int| 0 <= i < names.len() && names[i] == JsonTree::Text(name);
        assert(name == all_verbs()[i].spec_name());
    }
    match verb_of(name) {
        Some(verb) => {
            let i: int = match verb {
                Verb::Navigate => 0,
                Verb::Evaluate => 1,
                Verb::DomQuery => 2,
                Verb::ExtractMarkdown => 3,
                Verb::ListPages => 4,
                Verb::ClosePage => 5,
                Verb::Capabilities => 6,
            };
            assert(all_verbs()[i] == verb);
            assert(names[i] == JsonTree::Text(name));
        },
        None => {},
    }
}

/// A call that lacks a member that its verb needs, or has no text there, is answered
/// with the name of that member, and no page is used.
pub proof fn law_missing_field_is_refused(
    verb: Verb,
    field: Seq<char>,
    page: Seq<char>,
    body: JsonTree,
)
    requires
        verb.required_field() == Some(field),
        body.text_member(field) is None,
    ensures
        dispatch_step(verb.spec_name(), page, body) == StepTree::Reply(
            err_tree(verb.spec_name(), page, "missing required field: "@ + field),
        ),
{
    law_verbs_and_names_match(verb, verb.spec_name());
    reveal_strlit("missing required field: ");
    reveal_strlit("missing required field: url");
    reveal_strlit("missing required field: expression");
    reveal_strlit("missing required field: selector");
    reveal_strlit("url");
    reveal_strlit("expression");
    reveal_strlit("selector");
    assert("missing required field: "@ + "url"@ =~= "missing required field: url"@);
    assert("missing required field: "@ + "expression"@ =~= "missing required field: expression"@);
    assert("missing required field: "@ + "selector"@ =~= "missing required field: selector"@);
}

/// A call that has the member that its verb needs is not refused: its page is used,
/// for a job with the text of that member.
pub proof fn law_complete_call_uses_its_page(
    verb: Verb,
    field: Seq<char>,
    text: Seq<char>,
    page: Seq<char>,
    body: JsonTree,
)
    requires
        verb.required_field() == Some(field),
        body.text_member(field) == Some(text),
    ensures
        dispatch_step(verb.spec_name(), page, body) == StepTree::UsePage(
            match verb {
                Verb::Navigate => JobTree::Navigate(text),
                Verb::Evaluate => JobTree::Evaluate(text),
                _ => JobTree::Query(text),
            },
        ),
{
    law_verbs_and_names_match(verb, verb.spec_name());
}

proof fn lemma_capability_members()
    ensures
        capabilities_tree().member("verbs"@) == Some(verb_names(all_verbs())),
        capabilities_tree().member("page_field"@) == Some(JsonTree::Text("page"@)),
        capabilities_tree().member("default_page"@) == Some(JsonTree::Text(DEFAULT_PAGE@)),
        capabilities_tree().member("max_pages"@) == Some(
            JsonTree::Number(JsonNumber::Unsigned(MAX_PAGES as u64)),
        ),
        capabilities_tree().member("payload_field"@) is Some,
{
    reveal_strlit("plugin");
    reveal_strlit("verbs");
    reveal_strlit("page_field");
    reveal_strlit("default_page");
    reveal_strlit("max_pages");
    reveal_strlit("payload_field");
    assert("plugin"@.len() == 6);
    assert("verbs"@.len() == 5);
    assert("page_field"@.len() == 10);
    assert("default_page"@.len() == 12);
    assert("max_pages"@.len() == 9);
    assert("payload_field"@.len() == 13);
}

/// For each verb the plugin tells under which member of the data its result is found.
pub proof fn law_payload_fields_are_told(verb: Verb)
    ensures
        capabilities_tree().member("payload_field"@) matches Some(fields)
            && fields.text_member(verb.spec_name()) == verb.payload_field(),
{
    lemma_capability_members();
    lemma_verb_names();
}

/// The data of each answer that succeeds has the member that the plugin tells for
/// the verb, whatever the result.
pub proof fn law_payload_is_in_its_field(
    value: JsonTree,
    exception: JsonTree,
    matched: Option<Seq<Option<NodeSummary>>>,
    markdown: Option<Seq<char>>,
    entries: Seq<PageEntry>,
    closed: bool,
)
    ensures
        navigated_tree().member(Verb::Navigate.payload_field()->0) == Some(JsonTree::Bool(true)),
        evaluated_tree(value, exception).member(Verb::Evaluate.payload_field()->0) == Some(value),
        queried_tree(matched).member(Verb::DomQuery.payload_field()->0) is Some,
        extracted_tree(markdown).text_member(Verb::ExtractMarkdown.payload_field()->0) is Some,
        listed_tree(entries).member(Verb::ListPages.payload_field()->0) is Some,
        closed_tree(closed).member(Verb::ClosePage.payload_field()->0) == Some(
            JsonTree::Bool(closed),
        ),
{
    reveal_strlit("value");
    reveal_strlit("exception");
    reveal_strlit("pages");
    reveal_strlit("max_pages");
    assert("value"@.len() == 5);
    assert("exception"@.len() == 9);
    assert("pages"@.len() == 5);
    assert("max_pages"@.len() == 9);
}

proof fn lemma_reply_members_differ()
    ensures
        "ok"@.len() == 2,
        "verb"@.len() == 4 && "verb"@[0] == 'v',
        "page"@.len() == 4 && "page"@[0] == 'p',
        "data"@.len() == 4 && "data"@[0] == 'd',
        "error"@.len() == 5,
{
    reveal_strlit("ok");
    reveal_strlit("verb");
    reveal_strlit("page");
    reveal_strlit("data");
    reveal_strlit("error");
}

/// An answer to a call that succeeded says so, repeats the verb and the page, and has
/// data and no error.
pub proof fn law_success_is_told(verb: Seq<char>, page: Seq<char>, data: JsonTree)
    ensures
        ok_tree(verb, page, data).member("ok"@) == Some(JsonTree::Bool(true)),
        ok_tree(verb, page, data).text_member("verb"@) == Some(verb),
        ok_tree(verb, page, data).text_member("page"@) == Some(page),
        ok_tree(verb, page, data).member("data"@) == Some(data),
        ok_tree(verb, page, data).member("error"@) is None,
{
    lemma_reply_members_differ();
}

/// An answer to a call that failed says so, repeats the verb and the page, and has a
/// message and no data.
pub proof fn law_failure_is_told(verb: Seq<char>, page: Seq<char>, message: Seq<char>)
    ensures
        err_tree(verb, page, message).member("ok"@) == Some(JsonTree::Bool(false)),
        err_tree(verb, page, message).text_member("verb"@) == Some(verb),
        err_tree(verb, page, message).text_member("page"@) == Some(page),
        err_tree(verb, page, message).text_member("error"@) == Some(message),
        err_tree(verb, page, message).member("data"@) is None,
{
    lemma_reply_members_differ();
}

/// An answer to a call that failed can be read back from its text.
pub proof fn law_failures_read_back(verb: Seq<char>, page: Seq<char>, message: Seq<char>)
    ensures
        reads_back(err_tree(verb, page, message), MAX_READ_DEPTH as nat),
{
    reveal_with_fuel(reads_back, 2);
}

/// An answer to a call that succeeded can be read back from its text where its data can.
pub proof fn law_successes_read_back(verb: Seq<char>, page: Seq<char>, data: JsonTree)
    requires
        reads_back(data, (MAX_READ_DEPTH - 1) as nat),
    ensures
        reads_back(ok_tree(verb, page, data), MAX_READ_DEPTH as nat),
{
    reveal_with_fuel(reads_back, 2);
    let members = ok_tree(verb, page, data)->Object_0;
    assert forall|key: Seq<char>| members.dom().contains(key) implies reads_back(
        #[trigger] members[key],
        (MAX_READ_DEPTH - 1) as nat,
    ) by {
    }
}

/// The data of every answer that does not carry what a session told as JSON can be
/// read back: so can the whole answer.
pub proof fn law_own_data_reads_back(
    markdown: Option<Seq<char>>,
    entries: Seq<PageEntry>,
    closed: bool,
)
    ensures
        reads_back(navigated_tree(), (MAX_READ_DEPTH - 1) as nat),
        reads_back(extracted_tree(markdown), (MAX_READ_DEPTH - 1) as nat),
        reads_back(listed_tree(entries), (MAX_READ_DEPTH - 1) as nat),
        reads_back(closed_tree(closed), (MAX_READ_DEPTH - 1) as nat),
        reads_back(capabilities_tree(), (MAX_READ_DEPTH - 1) as nat),
{
    reveal_with_fuel(reads_back, 4);
}

proof fn lemma_trimmed_end(s: Seq<char>)
    ensures
        trimmed_end(s).len() > 0 ==> {
            &&& !is_white_space(trimmed_end(s).last())
            &&& trimmed_end(s).len() <= s.len()
            &&& trimmed_end(s)[0] == s[0]
        },
    decreases s.len(),
{
    if s.len() > 0 && is_white_space(s.last()) {
        lemma_trimmed_end(s.drop_last());
    }
}

proof fn lemma_trimmed_start(s: Seq<char>)
    ensures
        trimmed_start(s).len() > 0 ==> !is_white_space(trimmed_start(s)[0]),
    decreases s.len(),
{
    if s.len() > 0 && is_white_space(s[0]) {
        lemma_trimmed_start(s.drop_first());
    }
}

/// The page of a call has a name, with no white space at either end.
pub proof fn law_page_names_are_trimmed(body: JsonTree)
    ensures
        page_name(body).len() > 0,
        !is_white_space(page_name(body)[0]),
        !is_white_space(page_name(body).last()),
        trimmed(page_name(body)) == page_name(body),
{
    reveal_strlit("default");
    assert(DEFAULT_PAGE@.len() == 7 && DEFAULT_PAGE@[0] == 'd' && DEFAULT_PAGE@[6] == 't');
    match body.text_member("page"@) {
        Some(page) => {
            lemma_trimmed_start(page);
            lemma_trimmed_end(trimmed_start(page));
        },
        None => {},
    }
}

/// A page for which no session can be opened is not missed: taking it out left the
/// table as it was.
pub proof fn law_failed_open_leaves_the_table<S>(pages: Pages<S>, page: Seq<char>)
    requires
        !pages.dom().contains(page),
    ensures
        pages.remove(page) == pages,
{
    assert(pages.remove(page) =~= pages);
}

/// A page that was closed is not open any more, and the other pages are as they were.
pub proof fn law_closed_page_is_gone<S>(pages: Pages<S>, page: Seq<char>, other: Seq<char>)
    requires
        other != page,
    ensures
        !pages.remove(page).dom().contains(page),
        pages.remove(page).dom().contains(other) == pages.dom().contains(other),
        pages.dom().contains(other) ==> pages.remove(page)[other] == pages[other],
{
}

/// A text that is written in UTF-8 is read as the same text.
pub proof fn law_texts_survive_the_abi(text: Seq<char>)
    ensures
        valid_utf8(encode_utf8(text)),
        decode_utf8(encode_utf8(text)) == text,
{
    encode_utf8_valid_utf8(text);
    encode_utf8_decode_utf8(text);
}

/// A call that was answered returns a word other than zero: where bytes were returned,
/// their length is in it.
pub proof fn law_answered_calls_return_a_word(ptr: u32, len: u32)
    requires
        len > 0,
    ensures
        packed(ptr as int, len as int) > 0,
        packed_len(packed(ptr as int, len as int) as u64) == len,
{
    law_unpacking_undoes_packing(ptr, len);
}

/// The characters of an address, if there is one.
pub open spec fn url_text(url: Option<String>) -> Option<Seq<char>> {
    match url {
        Some(text) => Some(text@),
        None => None,
    }
}

/// Whether the reader reads one address only off the session of each open page.
pub open spec fn reads_one_url<S, F: Fn(&S) -> Option<String>>(pages: Pages<S>, url_of: F) -> bool {
    forall|page: Seq<char>, a: Option<String>, b: Option<String>|
        pages.dom().contains(page) && #[trigger] call_ensures(url_of, (&pages[page].session,), a)
            && #[trigger] call_ensures(url_of, (&pages[page].session,), b) ==> url_text(a)
            == url_text(b)
}

/// Two listings of the same pages tell the same, addresses and all, where each session
/// shows one address.
pub proof fn law_listings_tell_the_same<S, F: Fn(&S) -> Option<String>>(
    pages: Pages<S>,
    url_of: F,
    entries: Seq<PageEntry>,
    entries2: Seq<PageEntry>,
)
    requires
        reads_one_url(pages, url_of),
        is_listing(pages, entries),
        tells_urls(pages, url_of, entries),
        is_listing(pages, entries2),
        tells_urls(pages, url_of, entries2),
    ensures
        listed_tree(entries) == listed_tree(entries2),
{
    law_listing_is_determined(pages, entries, entries2);
    assert forall|i: int| 0 <= i < entries.len() implies entry_tree(#[trigger] entries[i])
        == entry_tree(entries2[i]) by {
        let page = entries[i].page@;
        assert(pages.dom().contains(page) && entries2[i].page@ == page);
        assert(call_ensures(url_of, (&pages[page].session,), entries[i].url));
        assert(call_ensures(url_of, (&pages[page].session,), entries2[i].url));
        assert(url_text(entries[i].url) == url_text(entries2[i].url));
    }
    assert(Seq::new(entries.len(), |i: int| entry_tree(entries[i])) =~= Seq::new(
        entries2.len(),
        |i: int| entry_tree(entries2[i]),
    ));
}

/// Listing the pages again, in a call that names the same page or another, gives the
/// same data where each session shows one address: a listing leaves the pages as they
/// are, and the page of the call is only repeated in the answer.
pub proof fn law_listing_again_gives_the_same_data<S, F: Fn(&S) -> Option<String>>(
    pages: Pages<S>,
    url_of: F,
    page: Seq<char>,
    reply: JsonTree,
    page2: Seq<char>,
    reply2: JsonTree,
)
    requires
        reads_one_url(pages, url_of),
        is_list_reply(pages, url_of, page, reply),
        is_list_reply(pages, url_of, page2, reply2),
    ensures
        reply.member("data"@) is Some,
        reply.member("data"@) == reply2.member("data"@),
        reply.text_member("page"@) == Some(page),
        reply2.text_member("page"@) == Some(page2),
        page == page2 ==> reply == reply2,
{
    let entries = choose|entries: Seq<PageEntry>|
        {
            &&& #[trigger] is_listing(pages, entries)
            &&& tells_urls(pages, url_of, entries)
            &&& reply == ok_tree("list-pages"@, page, listed_tree(entries))
        };
    let entries2 = choose|entries: Seq<PageEntry>|
        {
            &&& #[trigger] is_listing(pages, entries)
            &&& tells_urls(pages, url_of, entries)
            &&& reply2 == ok_tree("list-pages"@, page2, listed_tree(entries))
        };
    law_listings_tell_the_same(pages, url_of, entries, entries2);
    law_success_is_told("list-pages"@, page, listed_tree(entries));
    law_success_is_told("list-pages"@, page2, listed_tree(entries2));
}

/// The verbs that need no member of the body lead to one step each, whatever the page
/// and the body: a page is rendered, the pages are listed, the page is closed, or the
/// plugin tells of itself.
pub proof fn law_verbs_without_a_field_lead_to_one_step(page: Seq<char>, body: JsonTree)
    ensures
        dispatch_step("extract-markdown"@, page, body) == StepTree::UsePage(JobTree::Markdown),
        dispatch_step("list-pages"@, page, body) == StepTree::ListPages,
        dispatch_step("close-page"@, page, body) == StepTree::ClosePage,
        dispatch_step("capabilities"@, page, body) == StepTree::Reply(
            ok_tree("capabilities"@, page, capabilities_tree()),
        ),
{
    lemma_verb_names();
}

/// A navigation goes to the `url` of the body as it stands there, whatever else the body
/// holds, and is refused exactly where that is not a text.
pub proof fn law_navigation_goes_to_the_url(page: Seq<char>, body: JsonTree, url: Seq<char>)
    ensures
        dispatch_step("navigate"@, page, body) == StepTree::UsePage(JobTree::Navigate(url))
            <==> body.member("url"@) == Some(JsonTree::Text(url)),
        !(body.member("url"@) matches Some(JsonTree::Text(_))) ==> dispatch_step(
            "navigate"@,
            page,
            body,
        ) == StepTree::Reply(err_tree("navigate"@, page, "missing required field: url"@)),
{
    lemma_verb_names();
}

/// An evaluation is of the `expression` of the body as it stands there, whatever else the
/// body holds, and is refused exactly where that is not a text.
pub proof fn law_evaluation_is_of_the_expression(
    page: Seq<char>,
    body: JsonTree,
    expression: Seq<char>,
)
    ensures
        dispatch_step("evaluate"@, page, body) == StepTree::UsePage(JobTree::Evaluate(expression))
            <==> body.member("expression"@) == Some(JsonTree::Text(expression)),
        !(body.member("expression"@) matches Some(JsonTree::Text(_))) ==> dispatch_step(
            "evaluate"@,
            page,
            body,
        ) == StepTree::Reply(err_tree("evaluate"@, page, "missing required field: expression"@)),
{
    lemma_verb_names();
}

/// A query is for the `selector` of the body as it stands there, whatever else the body
/// holds, and is refused exactly where that is not a text.
pub proof fn law_query_is_for_the_selector(
    page: Seq<char>,
    body: JsonTree,
    selector: Seq<char>,
)
    ensures
        dispatch_step("dom-query"@, page, body) == StepTree::UsePage(JobTree::Query(selector))
            <==> body.member("selector"@) == Some(JsonTree::Text(selector)),
        !(body.member("selector"@) matches Some(JsonTree::Text(_))) ==> dispatch_step(
            "dom-query"@,
            page,
            body,
        ) == StepTree::Reply(err_tree("dom-query"@, page, "missing required field: selector"@)),
{
    lemma_verb_names();
}

/// Every other verb is refused, under its own name and with that name in the message.
pub proof fn law_other_verbs_are_refused(name: Seq<char>, page: Seq<char>, body: JsonTree)
    requires
        name != "navigate"@,
        name != "evaluate"@,
        name != "dom-query"@,
        name != "extract-markdown"@,
        name != "list-pages"@,
        name != "close-page"@,
        name != "capabilities"@,
    ensures
        dispatch_step(name, page, body) matches StepTree::Reply(reply) && {
            &&& reply.member("ok"@) == Some(JsonTree::Bool(false))
            &&& reply.text_member("verb"@) == Some(name)
            &&& reply.text_member("page"@) == Some(page)
            &&& reply.text_member("error"@) == Some("unknown verb: "@ + name)
        },
{
    law_failure_is_told(name, page, "unknown verb: "@ + name);
}

/// Steps and jobs are told apart, and a job is told with its own text.
pub proof fn law_steps_are_told_apart(step: Step, text: Seq<char>)
    ensures
        step.tree() == StepTree::ListPages <==> step is ListPages,
        step.tree() == StepTree::ClosePage <==> step is ClosePage,
        step.tree() == StepTree::UsePage(JobTree::Markdown) <==> step == Step::UsePage(
            Job::Markdown,
        ),
        step.tree() == StepTree::UsePage(JobTree::Navigate(text)) <==> (step matches Step::UsePage(
            Job::Navigate(url),
        ) && url@ == text),
        step.tree() == StepTree::UsePage(JobTree::Evaluate(text)) <==> (step matches Step::UsePage(
            Job::Evaluate(expression),
        ) && expression@ == text),
        step.tree() == StepTree::UsePage(JobTree::Query(text)) <==> (step matches Step::UsePage(
            Job::Query(selector),
        ) && selector@ == text),
        step.tree() is Reply <==> step is Reply,
        step matches Step::Reply(reply) ==> step.tree() == StepTree::Reply(reply.tree()),
{
}

/// A call that names a page speaks of that page, however much white space stands around
/// the name and whatever else the body holds.
pub proof fn law_named_page_is_meant(
    body: JsonTree,
    left: Seq<char>,
    name: Seq<char>,
    right: Seq<char>,
)
    requires
        body.member("page"@) == Some(JsonTree::Text(left + name + right)),
        forall|i: int| 0 <= i < left.len() ==> is_white_space(#[trigger] left[i]),
        forall|i: int| 0 <= i < right.len() ==> is_white_space(#[trigger] right[i]),
        name.len() > 0,
        !is_white_space(name[0]),
        !is_white_space(name.last()),
    ensures
        page_name(body) == name,
{
    law_trimming_leaves_the_name(left, name, right);
}

/// A call that names no page, or none but with white space, speaks of the default page.
pub proof fn law_default_page_is_meant(body: JsonTree)
    requires
        body.member("page"@) matches Some(JsonTree::Text(page)) ==> forall|i: int|
            0 <= i < page.len() ==> is_white_space(#[trigger] page[i]),
    ensures
        page_name(body) == "default"@,
{
    match body.text_member("page"@) {
        Some(page) => {
            let nothing = Seq::<char>::empty();
            law_trimming_leaves_the_name(page, nothing, nothing);
            assert(page + nothing + nothing =~= page);
        },
        None => {},
    }
}

/// An argument without bytes is an empty text, and one with bytes is their text.
pub proof fn law_argument_is_its_text(bytes: Seq<u8>)
    ensures
        argument_text(None).len() == 0,
        argument_text(Some(bytes)) == lossy_text(bytes),
{
}

/// The body of a call is the value that its text is the JSON of, and null where the text
/// is not JSON or there is none.
pub proof fn law_body_is_its_value_or_null(text: Seq<char>, tree: JsonTree)
    ensures
        text.len() > 0 && json_parse(text) == Some(tree) ==> body_value(text, json_parse(text))
            == tree,
        text.len() > 0 ==> body_value(text, Some(tree)) == tree,
        json_parse(text) is None ==> body_value(text, json_parse(text)) == JsonTree::Null,
        body_value(text, None) == JsonTree::Null,
        text.len() == 0 ==> body_value(text, Some(tree)) == JsonTree::Null,
{
}

/// An answer has four members, whatever is answered: whether the call succeeded, the
/// verb, the page, and the data or the error.
pub proof fn law_answers_tell_nothing_else(
    verb: Seq<char>,
    page: Seq<char>,
    data: JsonTree,
    message: Seq<char>,
    key: Seq<char>,
)
    ensures
        ok_tree(verb, page, data).member(key) is Some <==> key == "ok"@ || key == "verb"@ || key
            == "page"@ || key == "data"@,
        err_tree(verb, page, message).member(key) is Some <==> key == "ok"@ || key == "verb"@
            || key == "page"@ || key == "error"@,
{
}

/// A navigation that succeeded tells so and nothing else.
pub proof fn law_navigation_is_told(key: Seq<char>)
    ensures
        navigated_tree().member("navigated"@) == Some(JsonTree::Bool(true)),
        navigated_tree().member(key) is Some <==> key == "navigated"@,
{
}

/// An evaluation tells the value and the exception that the session told, each as it is
/// and whatever the other, and nothing else.
pub proof fn law_value_and_exception_are_told(
    value: JsonTree,
    exception: JsonTree,
    key: Seq<char>,
)
    ensures
        evaluated_tree(value, exception).member("value"@) == Some(value),
        evaluated_tree(value, exception).member("exception"@) == Some(exception),
        evaluated_tree(value, exception).member(key) is Some <==> key == "value"@ || key
            == "exception"@,
{
    reveal_strlit("value");
    reveal_strlit("exception");
    assert("value"@.len() == 5);
    assert("exception"@.len() == 9);
}

/// Different outcomes of an evaluation are answered differently.
pub proof fn law_evaluations_are_told_apart(
    value: JsonTree,
    exception: JsonTree,
    value2: JsonTree,
    exception2: JsonTree,
)
    requires
        evaluated_tree(value, exception) == evaluated_tree(value2, exception2),
    ensures
        value == value2,
        exception == exception2,
{
    law_value_and_exception_are_told(value, exception, "value"@);
    law_value_and_exception_are_told(value2, exception2, "value"@);
}

proof fn lemma_node_members_differ()
    ensures
        "tag"@.len() == 3,
        "text"@.len() == 4,
{
    reveal_strlit("tag");
    reveal_strlit("text");
}

/// Of a node its tag and its text are told, each as it is and whatever the other, and
/// nothing else.
pub proof fn law_tag_and_text_are_told(node: NodeSummary, key: Seq<char>)
    ensures
        node.tree().member("tag"@) == Some(node.tag.tree()),
        node.tree().member("text"@) == Some(node.text.tree()),
        node.tree().member(key) is Some <==> key == "tag"@ || key == "text"@,
{
    lemma_node_members_differ();
}

proof fn lemma_node_trees_add(
    front: Seq<Option<NodeSummary>>,
    back: Seq<Option<NodeSummary>>,
)
    ensures
        node_trees(front + back) == node_trees(front) + node_trees(back),
    decreases back.len(),
{
    if back.len() == 0 {
        assert(front + back =~= front);
    } else {
        lemma_node_trees_add(front, back.drop_last());
        assert((front + back).drop_last() =~= front + back.drop_last());
        assert((front + back).last() == back.last());
    }
}

proof fn lemma_held_nodes(matched: Seq<Option<NodeSummary>>)
    requires
        forall|i: int| 0 <= i < matched.len() ==> (#[trigger] matched[i]) is Some,
    ensures
        node_trees(matched).len() == matched.len(),
        forall|i: int|
            0 <= i < matched.len() ==> #[trigger] node_trees(matched)[i] == matched[i]->0.tree(),
    decreases matched.len(),
{
    if matched.len() > 0 {
        let init = matched.drop_last();
        assert forall|i: int| 0 <= i < init.len() implies (#[trigger] init[i]) is Some by {
            assert(init[i] == matched[i]);
        }
        lemma_held_nodes(init);
        assert(matched[matched.len() - 1] is Some);
    }
}

/// A query whose matched nodes are all held by the snapshot tells of every one of them,
/// in the order in which they were matched, with its tag and its text.
pub proof fn law_every_matched_node_is_told(matched: Seq<Option<NodeSummary>>)
    requires
        forall|i: int| 0 <= i < matched.len() ==> (#[trigger] matched[i]) is Some,
    ensures
        queried_tree(Some(matched)).member("nodes"@) matches Some(JsonTree::Array(told)) && {
            &&& told.len() == matched.len()
            &&& forall|i: int|
                0 <= i < matched.len() ==> {
                    &&& (#[trigger] told[i]).member("tag"@) == Some(matched[i]->0.tag.tree())
                    &&& told[i].member("text"@) == Some(matched[i]->0.text.tree())
                }
        },
{
    lemma_held_nodes(matched);
    let told = node_trees(matched);
    assert forall|i: int| 0 <= i < matched.len() implies {
        &&& (#[trigger] told[i]).member("tag"@) == Some(matched[i]->0.tag.tree())
        &&& told[i].member("text"@) == Some(matched[i]->0.text.tree())
    } by {
        law_tag_and_text_are_told(matched[i]->0, "tag"@);
    }
}

/// A query tells of the nodes that were matched first, and then of the others: what is
/// told of a node does not depend on the others.
pub proof fn law_nodes_are_told_in_order(
    front: Seq<Option<NodeSummary>>,
    back: Seq<Option<NodeSummary>>,
)
    ensures
        queried_tree(Some(front)).member("nodes"@) matches Some(JsonTree::Array(first))
            && queried_tree(Some(back)).member("nodes"@) matches Some(JsonTree::Array(second))
            && queried_tree(Some(front + back)).member("nodes"@) == Some(
            JsonTree::Array(first + second),
        ),
{
    lemma_node_trees_add(front, back);
}

/// A matched node that the snapshot does not hold is passed over, and a page without a
/// document has no nodes: neither is an error. A query tells of nodes and nothing else.
pub proof fn law_missing_nodes_are_passed_over(
    matched: Option<Seq<Option<NodeSummary>>>,
    key: Seq<char>,
)
    ensures
        queried_tree(None).member("nodes"@) == Some(JsonTree::Array(Seq::empty())),
        queried_tree(Some(seq![None::<NodeSummary>])).member("nodes"@) == Some(
            JsonTree::Array(Seq::empty()),
        ),
        queried_tree(matched).member(key) is Some <==> key == "nodes"@,
{
    let missing = seq![None::<NodeSummary>];
    assert(missing.last() is None);
    assert(missing.drop_last() =~= Seq::empty());
    assert(node_trees(missing.drop_last()) =~= Seq::empty());
}

/// An extraction tells the markdown of the page as it is, an empty text where no page is
/// loaded, and nothing else.
pub proof fn law_markdown_is_told(markdown: Seq<char>, found: Option<Seq<char>>, key: Seq<char>)
    ensures
        extracted_tree(Some(markdown)).member("markdown"@) == Some(JsonTree::Text(markdown)),
        extracted_tree(None).text_member("markdown"@) matches Some(text) && text.len() == 0,
        extracted_tree(found).member(key) is Some <==> key == "markdown"@,
{
}

/// Closing a page tells whether the page was open, and nothing else.
pub proof fn law_closing_is_told(closed: bool, key: Seq<char>)
    ensures
        closed_tree(closed).member("closed"@) == Some(JsonTree::Bool(closed)),
        closed_tree(closed).member(key) is Some <==> key == "closed"@,
{
}

/// A call that panicked is answered with the text that the panic carried, or with a text
/// of its own where it carried none.
pub proof fn law_panic_text_is_told(text: Seq<char>)
    ensures
        panic_message(Some(text)) == "panicked: "@ + text,
        panic_message(None) == "panicked: panic during dispatch"@,
{
    reveal_strlit("panicked: ");
    reveal_strlit("panic during dispatch");
    reveal_strlit("panicked: panic during dispatch");
    assert("panicked: "@ + "panic during dispatch"@ =~= "panicked: panic during dispatch"@);
}

proof fn lemma_entry_members(entry: PageEntry)
    ensures
        entry_tree(entry).member("page"@) == Some(JsonTree::Text(entry.page@)),
        entry_tree(entry).member("url"@) == Some(
            match entry.url {
                Some(url) => JsonTree::Text(url@),
                None => JsonTree::Null,
            },
        ),
        entry_tree(entry).member("last_used"@) == Some(
            JsonTree::Number(JsonNumber::Unsigned(entry.last_used)),
        ),
{
    reveal_strlit("page");
    reveal_strlit("url");
    reveal_strlit("last_used");
    assert("page"@.len() == 4);
    assert("url"@.len() == 3);
    assert("last_used"@.len() == 9);
}

/// A listing tells of each entry, all of them and in their order: the page, the tick of
/// its last use, and its address, or null where it has none. It also tells how many pages
/// stay open, and nothing else.
pub proof fn law_every_entry_is_told(entries: Seq<PageEntry>, key: Seq<char>)
    ensures
        listed_tree(entries).member("pages"@) matches Some(JsonTree::Array(told)) && {
            &&& told.len() == entries.len()
            &&& forall|i: int|
                0 <= i < entries.len() ==> {
                    &&& (#[trigger] told[i]).member("page"@) == Some(
                        JsonTree::Text(entries[i].page@),
                    )
                    &&& told[i].member("last_used"@) == Some(
                        JsonTree::Number(JsonNumber::Unsigned(entries[i].last_used)),
                    )
                    &&& told[i].member("url"@) == Some(
                        match entries[i].url {
                            Some(url) => JsonTree::Text(url@),
                            None => JsonTree::Null,
                        },
                    )
                    &&& told[i].member(key) is Some ==> key == "page"@ || key == "url"@ || key
                        == "last_used"@
                }
        },
        listed_tree(entries).member("max_pages"@) == Some(
            JsonTree::Number(JsonNumber::Unsigned(16)),
        ),
        listed_tree(entries).member(key) is Some <==> key == "pages"@ || key == "max_pages"@,
{
    reveal_strlit("pages");
    reveal_strlit("max_pages");
    assert("pages"@.len() == 5);
    assert("max_pages"@.len() == 9);
    let told = Seq::new(entries.len(), |i: int| entry_tree(entries[i]));
    assert forall|i: int| 0 <= i < entries.len() implies {
        &&& (#[trigger] told[i]).member("page"@) == Some(JsonTree::Text(entries[i].page@))
        &&& told[i].member("last_used"@) == Some(
            JsonTree::Number(JsonNumber::Unsigned(entries[i].last_used)),
        )
        &&& told[i].member("url"@) == Some(
            match entries[i].url {
                Some(url) => JsonTree::Text(url@),
                None => JsonTree::Null,
            },
        )
        &&& told[i].member(key) is Some ==> key == "page"@ || key == "url"@ || key
            == "last_used"@
    } by {
        lemma_entry_members(entries[i]);
    }
}

/// The answer to a listing tells of every open page, and of no page that is not open,
/// once each: as many items as there are open pages, each with the tick of its page.
pub proof fn law_every_open_page_is_told<S, F: Fn(&S) -> Option<String>>(
    pages: Pages<S>,
    url_of: F,
    page: Seq<char>,
    reply: JsonTree,
)
    requires
        is_list_reply(pages, url_of, page, reply),
    ensures
        reply.member("ok"@) == Some(JsonTree::Bool(true)),
        reply.text_member("verb"@) == Some("list-pages"@),
        reply.text_member("page"@) == Some(page),
        reply.member("data"@) matches Some(data) && data.member("pages"@) matches Some(
            JsonTree::Array(told),
        ) && {
            &&& told.len() == pages.len()
            &&& forall|i: int|
                0 <= i < told.len() ==> {
                    &&& (#[trigger] told[i]).text_member("page"@) matches Some(name)
                    &&& pages.dom().contains(name)
                    &&& told[i].member("last_used"@) == Some(
                        JsonTree::Number(JsonNumber::Unsigned(pages[name].last_used)),
                    )
                }
            &&& forall|open: Seq<char>| #[trigger]
                pages.dom().contains(open) ==> exists|i: int|
                    0 <= i < told.len() && (#[trigger] told[i]).text_member("page"@) == Some(open)
        },
{
    let entries = choose|entries: Seq<PageEntry>|
        {
            &&& #[trigger] is_listing(pages, entries)
            &&& tells_urls(pages, url_of, entries)
            &&& reply == ok_tree("list-pages"@, page, listed_tree(entries))
        };
    law_success_is_told("list-pages"@, page, listed_tree(entries));
    law_every_entry_is_told(entries, "page"@);
    let told = listed_tree(entries).member("pages"@)->0->Array_0;
    assert forall|i: int| 0 <= i < told.len() implies {
        &&& (#[trigger] told[i]).text_member("page"@) matches Some(name)
        &&& pages.dom().contains(name)
        &&& told[i].member("last_used"@) == Some(
            JsonTree::Number(JsonNumber::Unsigned(pages[name].last_used)),
        )
    } by {
        assert(pages.dom().contains(entries[i].page@));
    }
    assert forall|open: Seq<char>| #[trigger] pages.dom().contains(open) implies exists|i: int|
        0 <= i < told.len() && (#[trigger] told[i]).text_member("page"@) == Some(open) by {
        let i = choose|i: int| 0 <= i < entries.len() && (#[trigger] entries[i]).page@ == open;
        assert(told[i].text_member("page"@) == Some(open));
    }
}

/// The answer to a listing tells for each page the address that was read off its session,
/// or null where none was.
pub proof fn law_addresses_are_told<S, F: Fn(&S) -> Option<String>>(
    pages: Pages<S>,
    url_of: F,
    page: Seq<char>,
    reply: JsonTree,
    i: int,
    name: Seq<char>,
)
    requires
        is_list_reply(pages, url_of, page, reply),
    ensures
        reply.member("data"@) matches Some(data) && data.member("pages"@) matches Some(
            JsonTree::Array(told),
        ) && (0 <= i < told.len() && told[i].text_member("page"@) == Some(name) ==> exists|
            url: Option<String>,
        |
            {
                &&& #[trigger] call_ensures(url_of, (&pages[name].session,), url)
                &&& told[i].member("url"@) == Some(
                    match url {
                        Some(address) => JsonTree::Text(address@),
                        None => JsonTree::Null,
                    },
                )
            }),
{
    let entries = choose|entries: Seq<PageEntry>|
        {
            &&& #[trigger] is_listing(pages, entries)
            &&& tells_urls(pages, url_of, entries)
            &&& reply == ok_tree("list-pages"@, page, listed_tree(entries))
        };
    law_success_is_told("list-pages"@, page, listed_tree(entries));
    law_every_entry_is_told(entries, "url"@);
    let told = listed_tree(entries).member("pages"@)->0->Array_0;
    if 0 <= i < told.len() && told[i].text_member("page"@) == Some(name) {
        assert(entries[i].page@ == name);
        assert(call_ensures(url_of, (&pages[name].session,), entries[i].url));
    }
}

/// The answer to a listing tells of the page that was used last first; pages with the
/// same tick go by name.
pub proof fn law_listing_goes_by_last_use<S, F: Fn(&S) -> Option<String>>(
    pages: Pages<S>,
    url_of: F,
    page: Seq<char>,
    reply: JsonTree,
)
    requires
        is_list_reply(pages, url_of, page, reply),
    ensures
        reply.member("data"@) matches Some(data) && data.member("pages"@) matches Some(
            JsonTree::Array(told),
        ) && forall|i: int, j: int|
            0 <= i < j < told.len() ==> {
                &&& (#[trigger] told[i]).text_member("page"@) matches Some(first)
                &&& (#[trigger] told[j]).text_member("page"@) matches Some(second)
                &&& pages[first].last_used > pages[second].last_used || (pages[first].last_used
                    == pages[second].last_used && text_before(first, second))
            },
{
    let entries = choose|entries: Seq<PageEntry>|
        {
            &&& #[trigger] is_listing(pages, entries)
            &&& tells_urls(pages, url_of, entries)
            &&& reply == ok_tree("list-pages"@, page, listed_tree(entries))
        };
    law_success_is_told("list-pages"@, page, listed_tree(entries));
    law_every_entry_is_told(entries, "page"@);
    let told = listed_tree(entries).member("pages"@)->0->Array_0;
    assert forall|i: int, j: int| 0 <= i < j < told.len() implies {
        &&& (#[trigger] told[i]).text_member("page"@) matches Some(first)
        &&& (#[trigger] told[j]).text_member("page"@) matches Some(second)
        &&& pages[first].last_used > pages[second].last_used || (pages[first].last_used
            == pages[second].last_used && text_before(first, second))
    } by {
        assert(listed_before(entries[i], entries[j]));
    }
}

/// What the plugin tells of itself holds of it: the member that it tells is the one that
/// names the page of a call, and a call that names none speaks of the page that it tells.
pub proof fn law_page_field_and_default_page_are_told(name: Seq<char>)
    requires
        name.len() > 0,
        !is_white_space(name[0]),
        !is_white_space(name.last()),
    ensures
        capabilities_tree().text_member("page_field"@) matches Some(field) && page_name(
            JsonTree::Object(map![field => JsonTree::Text(name)]),
        ) == name,
        capabilities_tree().text_member("default_page"@) == Some(page_name(JsonTree::Null)),
        capabilities_tree().member("max_pages"@) == Some(
            JsonTree::Number(JsonNumber::Unsigned(16)),
        ),
{
    lemma_capability_members();
    let nothing = Seq::<char>::empty();
    assert(nothing + name + nothing =~= name);
    law_named_page_is_meant(
        JsonTree::Object(map!["page"@ => JsonTree::Text(name)]),
        nothing,
        name,
        nothing,
    );
}

} // verus!
