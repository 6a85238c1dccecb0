//! Calls of the plugin: how they are read, what they ask of a page, what is answered.

use vstd::prelude::*;
use vstd::string::*;
use vstd::utf8::{decode_utf8, encode_scalar, encode_utf8, encode_utf8_decode_utf8, valid_utf8};

use crate::dispatch_laws::{
    law_closing_is_told, law_every_entry_is_told, law_every_matched_node_is_told,
    law_evaluation_is_of_the_expression, law_failure_is_told, law_markdown_is_told,
    law_navigation_goes_to_the_url, law_navigation_is_told, law_query_is_for_the_selector,
    law_success_is_told, law_value_and_exception_are_told,
    law_verbs_without_a_field_lead_to_one_step,
};
use crate::host_abi::{pack_ptr_len, packed, some_bytes};
use crate::json::{
    no_entries, no_items, number_json, text_json, trees, with_entry, with_item, Json, JsonNumber,
    JsonTree,
};
use crate::json_codec::{
    json_parse, json_text, parse_json, reads_back, write_json, MAX_READ_DEPTH,
};
use crate::page_table::{
    is_eviction, is_listing, texts, PageEntry, PageTable, Pages, Parked, MAX_PAGES,
};
use crate::text::{decode_lossy, lossy_text, same_text, text_bytes, trim, trimmed};

verus! {

/// The member of a call's body that names the page.
pub const PAGE_FIELD: &'static str = "page";

/// The page of a call that names none.
pub const DEFAULT_PAGE: &'static str = "default";

/// How many bytes to allocate for a request of `len` bytes: nothing for none.
pub fn alloc_size(len: u32) -> (r: Option<u32>)
    ensures
        r == if len == 0 {
            None
        } else {
            Some(len)
        },
        r is None <==> len == 0,
        r matches Some(size) ==> size == len,
{
    if len == 0 {
        return None;
    }
    Some(len)
}

/// The text of an argument: empty where no bytes were passed.
pub open spec fn argument_text(bytes: Option<Seq<u8>>) -> Seq<char> {
    match bytes {
        Some(b) => lossy_text(b),
        None => Seq::empty(),
    }
}

/// The text of an argument, out of the bytes that were passed.
pub fn read_str(bytes: Option<&[u8]>) -> (r: String)
    ensures
        r@ == argument_text(some_bytes(bytes)),
        bytes matches Some(b) ==> valid_utf8(b@) ==> r@ == decode_utf8(b@),
{
    match bytes {
        Some(b) => decode_lossy(b),
        None => String::new(),
    }
}

/// How bytes are returned: at once, or after memory for them was allocated.
#[derive(Clone, Copy, Debug, PartialEq, Eq, Structural)]
pub enum ReturnStep {
    Done(u64),
    Allocate(u32),
}

/// Starts to return bytes: none are returned as zero, others need memory.
pub fn return_bytes(bytes: &[u8]) -> (r: ReturnStep)
    requires
        bytes@.len() <= u32::MAX,
    ensures
        r == if bytes@.len() == 0 {
            ReturnStep::Done(0)
        } else {
            ReturnStep::Allocate(bytes@.len() as u32)
        },
        r matches ReturnStep::Done(word) ==> word == 0 && bytes@.len() == 0,
        r matches ReturnStep::Allocate(len) ==> len > 0 && len == bytes@.len(),
{
    if bytes.len() == 0 {
        return ReturnStep::Done(0);
    }
    ReturnStep::Allocate(bytes.len() as u32)
}

/// Ends to return `len` bytes, which now lie at `ptr`.
pub fn returned_at(ptr: u32, len: u32) -> (r: u64)
    ensures
        r == packed(ptr as int, len as int),
        len != 0 ==> r != 0,
        r & 0xffff_ffff == ptr as u64,
        r >> 32 == len as u64,
{
    pack_ptr_len(ptr as usize, len as usize)
}

/// The answer to a call that succeeded.
pub open spec fn ok_tree(verb: Seq<char>, page: Seq<char>, data: JsonTree) -> JsonTree {
    JsonTree::Object(
        map![
            "ok"@ => JsonTree::Bool(true),
            "verb"@ => JsonTree::Text(verb),
            "page"@ => JsonTree::Text(page),
            "data"@ => data,
        ],
    )
}

/// The answer to a call that failed.
pub open spec fn err_tree(verb: Seq<char>, page: Seq<char>, message: Seq<char>) -> JsonTree {
    JsonTree::Object(
        map![
            "ok"@ => JsonTree::Bool(false),
            "verb"@ => JsonTree::Text(verb),
            "page"@ => JsonTree::Text(page),
            "error"@ => JsonTree::Text(message),
        ],
    )
}

/// Answers a call that succeeded.
pub fn ok(verb: &str, page: &str, data: Json) -> (r: Json)
    ensures
        r.tree() == ok_tree(verb@, page@, data.tree()),
        r.tree().member("ok"@) == Some(JsonTree::Bool(true)),
        r.tree().text_member("verb"@) == Some(verb@),
        r.tree().text_member("page"@) == Some(page@),
        r.tree().member("data"@) == Some(data.tree()),
{
    proof {
        law_success_is_told(verb@, page@, data.tree());
    }
    let entries = with_entry(no_entries(), "ok", Json::Bool(true));
    let entries = with_entry(entries, "verb", text_json(verb));
    let entries = with_entry(entries, "page", text_json(page));
    let entries = with_entry(entries, "data", data);
    Json::Object(entries)
}

/// Answers a call that failed.
pub fn err(verb: &str, page: &str, message: &str) -> (r: Json)
    ensures
        r.tree() == err_tree(verb@, page@, message@),
        r.tree().member("ok"@) == Some(JsonTree::Bool(false)),
        r.tree().text_member("verb"@) == Some(verb@),
        r.tree().text_member("page"@) == Some(page@),
        r.tree().text_member("error"@) == Some(message@),
{
    proof {
        law_failure_is_told(verb@, page@, message@);
    }
    let entries = with_entry(no_entries(), "ok", Json::Bool(false));
    let entries = with_entry(entries, "verb", text_json(verb));
    let entries = with_entry(entries, "page", text_json(page));
    let entries = with_entry(entries, "error", text_json(message));
    Json::Object(entries)
}

/// The bytes of an answer: its JSON text in UTF-8, which is never empty.
pub fn encode_reply(reply: &Json) -> (r: Vec<u8>)
    ensures
        r@ == encode_utf8(json_text(reply.tree())),
        r@.len() > 0,
        reads_back(reply.tree(), MAX_READ_DEPTH as nat) ==> json_parse(decode_utf8(r@)) == Some(
            reply.tree(),
        ),
{
    let text = write_json(reply);
    proof {
        encode_utf8_decode_utf8(text@);
        assert(encode_utf8(text@) == encode_scalar(text@[0] as u32) + encode_utf8(
            text@.drop_first(),
        ));
    }
    text_bytes(text.as_str())
}

/// The page that a call speaks of: the one that it names, without the white space
/// around the name, or else the default page.
pub open spec fn page_name(body: JsonTree) -> Seq<char> {
    match body.text_member(PAGE_FIELD@) {
        Some(page) => if trimmed(page).len() > 0 {
            trimmed(page)
        } else {
            DEFAULT_PAGE@
        },
        None => DEFAULT_PAGE@,
    }
}

/// The page that a call speaks of.
pub fn page_of(body: &Json) -> (r: String)
    ensures
        r@ == page_name(body.tree()),
        r@.len() > 0,
        body.tree().text_member("page"@) is None ==> r@ == "default"@,
        body.tree().text_member("page"@) matches Some(page) ==> r@ == if trimmed(page).len() > 0 {
            trimmed(page)
        } else {
            "default"@
        },
{
    proof {
        reveal_strlit("default");
        assert(DEFAULT_PAGE@.len() == 7);
    }
    match body.get_str(PAGE_FIELD) {
        Some(page) => {
            let name = trim(page);
            if name.is_empty() {
                DEFAULT_PAGE.to_string()
            } else {
                name.to_string()
            }
        },
        None => DEFAULT_PAGE.to_string(),
    }
}

/// A call as it was read.
#[derive(Debug, PartialEq)]
pub struct Call {
    pub verb: String,
    pub page: String,
    pub body: Json,
}

/// The body of a call, given the text and what was read out of it: null where the
/// text is empty or not JSON.
pub open spec fn body_value(text: Seq<char>, parsed: Option<JsonTree>) -> JsonTree {
    if text.len() == 0 {
        JsonTree::Null
    } else {
        match parsed {
            Some(tree) => tree,
            None => JsonTree::Null,
        }
    }
}

/// What was read out of a text: null where it was not JSON.
pub fn parsed_or_null(parsed: Option<Json>) -> (r: Json)
    ensures
        r.tree() == match parsed {
            Some(json) => json.tree(),
            None => JsonTree::Null,
        },
{
    match parsed {
        Some(json) => json,
        None => Json::Null,
    }
}

/// The body of a call out of its text.
pub fn read_body(text: &str) -> (r: Json)
    ensures
        r.tree() == body_value(text@, json_parse(text@)),
{
    if text.is_empty() {
        return Json::Null;
    }
    parsed_or_null(parse_json(text))
}

/// Reads a call out of the bytes of its verb and of its body.
pub fn read_call(verb: Option<&[u8]>, body: Option<&[u8]>) -> (r: Call)
    ensures
        r.verb@ == argument_text(some_bytes(verb)),
        r.body.tree() == ({
            let text = argument_text(some_bytes(body));
            body_value(text, json_parse(text))
        }),
        r.page@ == page_name(r.body.tree()),
        verb matches Some(b) ==> valid_utf8(b@) ==> r.verb@ == decode_utf8(b@),
        body matches Some(b) ==> valid_utf8(b@) ==> r.body.tree() == body_value(
            decode_utf8(b@),
            json_parse(decode_utf8(b@)),
        ),
{
    let verb = read_str(verb);
    let text = read_str(body);
    let body = read_body(text.as_str());
    let page = page_of(&body);
    Call { verb, page, body }
}

/// What a call can ask for.
#[derive(Clone, Copy, Debug, PartialEq, Eq, Structural)]
pub enum Verb {
    Navigate,
    Evaluate,
    DomQuery,
    ExtractMarkdown,
    ListPages,
    ClosePage,
    Capabilities,
}

/// The verbs, in the order in which they are told.
pub open spec fn all_verbs() -> Seq<Verb> {
    seq![
        Verb::Navigate,
        Verb::Evaluate,
        Verb::DomQuery,
        Verb::ExtractMarkdown,
        Verb::ListPages,
        Verb::ClosePage,
        Verb::Capabilities,
    ]
}

impl Verb {
    /// The name by which a call asks for this verb.
    pub open spec fn spec_name(self) -> Seq<char> {
        match self {
            Verb::Navigate => "navigate"@,
            Verb::Evaluate => "evaluate"@,
            Verb::DomQuery => "dom-query"@,
            Verb::ExtractMarkdown => "extract-markdown"@,
            Verb::ListPages => "list-pages"@,
            Verb::ClosePage => "close-page"@,
            Verb::Capabilities => "capabilities"@,
        }
    }

    /// The member of the answer's data in which this verb tells its result.
    pub open spec fn payload_field(self) -> Option<Seq<char>> {
        match self {
            Verb::Navigate => Some("navigated"@),
            Verb::Evaluate => Some("value"@),
            Verb::DomQuery => Some("nodes"@),
            Verb::ExtractMarkdown => Some("markdown"@),
            Verb::ListPages => Some("pages"@),
            Verb::ClosePage => Some("closed"@),
            Verb::Capabilities => None,
        }
    }

    /// The member of the body, a text, without which this verb is refused.
    pub open spec fn required_field(self) -> Option<Seq<char>> {
        match self {
            Verb::Navigate => Some("url"@),
            Verb::Evaluate => Some("expression"@),
            Verb::DomQuery => Some("selector"@),
            _ => None,
        }
    }

    /// The name by which a call asks for this verb.
    pub fn name(self) -> (r: &'static str)
        ensures
            r@ == self.spec_name(),
    {
        match self {
            Verb::Navigate => "navigate",
            Verb::Evaluate => "evaluate",
            Verb::DomQuery => "dom-query",
            Verb::ExtractMarkdown => "extract-markdown",
            Verb::ListPages => "list-pages",
            Verb::ClosePage => "close-page",
            Verb::Capabilities => "capabilities",
        }
    }
}

/// The verb that a name asks for.
pub open spec fn verb_of(name: Seq<char>) -> Option<Verb> {
    if name == "navigate"@ {
        Some(Verb::Navigate)
    } else if name == "evaluate"@ {
        Some(Verb::Evaluate)
    } else if name == "dom-query"@ {
        Some(Verb::DomQuery)
    } else if name == "extract-markdown"@ {
        Some(Verb::ExtractMarkdown)
    } else if name == "list-pages"@ {
        Some(Verb::ListPages)
    } else if name == "close-page"@ {
        Some(Verb::ClosePage)
    } else if name == "capabilities"@ {
        Some(Verb::Capabilities)
    } else {
        None
    }
}

/// The verb that a name asks for.
pub fn parse_verb(name: &str) -> (r: Option<Verb>)
    ensures
        r == verb_of(name@),
{
    if same_text(name, "navigate") {
        Some(Verb::Navigate)
    } else if same_text(name, "evaluate") {
        Some(Verb::Evaluate)
    } else if same_text(name, "dom-query") {
        Some(Verb::DomQuery)
    } else if same_text(name, "extract-markdown") {
        Some(Verb::ExtractMarkdown)
    } else if same_text(name, "list-pages") {
        Some(Verb::ListPages)
    } else if same_text(name, "close-page") {
        Some(Verb::ClosePage)
    } else if same_text(name, "capabilities") {
        Some(Verb::Capabilities)
    } else {
        None
    }
}

/// What is to be done with the session of a page.
#[derive(Debug, PartialEq, Eq)]
pub enum Job {
    /// Load this address.
    Navigate(String),
    /// Evaluate this expression.
    Evaluate(String),
    /// Look for this selector in a snapshot of the document.
    Query(String),
    /// Render the page as markdown.
    Markdown,
}

/// What a job is, apart from how it is stored.
pub enum JobTree {
    Navigate(Seq<char>),
    Evaluate(Seq<char>),
    Query(Seq<char>),
    Markdown,
}

impl Job {
    /// What this job is.
    pub open spec fn tree(self) -> JobTree {
        match self {
            Job::Navigate(url) => JobTree::Navigate(url@),
            Job::Evaluate(expression) => JobTree::Evaluate(expression@),
            Job::Query(selector) => JobTree::Query(selector@),
            Job::Markdown => JobTree::Markdown,
        }
    }
}

/// What a call leads to: an answer, a job on its page, or an act on the table.
#[derive(Debug, PartialEq)]
pub enum Step {
    Reply(Json),
    UsePage(Job),
    ListPages,
    ClosePage,
}

/// What a step is, apart from how it is stored.
pub enum StepTree {
    Reply(JsonTree),
    UsePage(JobTree),
    ListPages,
    ClosePage,
}

impl Step {
    /// What this step is.
    pub open spec fn tree(self) -> StepTree {
        match self {
            Step::Reply(reply) => StepTree::Reply(reply.tree()),
            Step::UsePage(job) => StepTree::UsePage(job.tree()),
            Step::ListPages => StepTree::ListPages,
            Step::ClosePage => StepTree::ClosePage,
        }
    }
}

/// What each verb leads to.
pub open spec fn verb_step(verb: Verb, page: Seq<char>, body: JsonTree) -> StepTree {
    match verb {
        Verb::Navigate => match body.text_member("url"@) {
            Some(url) => StepTree::UsePage(JobTree::Navigate(url)),
            None => StepTree::Reply(
                err_tree("navigate"@, page, "missing required field: url"@),
            ),
        },
        Verb::Evaluate => match body.text_member("expression"@) {
            Some(expression) => StepTree::UsePage(JobTree::Evaluate(expression)),
            None => StepTree::Reply(
                err_tree("evaluate"@, page, "missing required field: expression"@),
            ),
        },
        Verb::DomQuery => match body.text_member("selector"@) {
            Some(selector) => StepTree::UsePage(JobTree::Query(selector)),
            None => StepTree::Reply(
                err_tree("dom-query"@, page, "missing required field: selector"@),
            ),
        },
        Verb::ExtractMarkdown => StepTree::UsePage(JobTree::Markdown),
        Verb::ListPages => StepTree::ListPages,
        Verb::ClosePage => StepTree::ClosePage,
        Verb::Capabilities => StepTree::Reply(
            ok_tree("capabilities"@, page, capabilities_tree()),
        ),
    }
}

/// The answer to a call whose verb is not known.
pub open spec fn unknown_verb_tree(name: Seq<char>, page: Seq<char>) -> JsonTree {
    err_tree(name, page, "unknown verb: "@ + name)
}

/// The names of verbs, as an array.
pub open spec fn verb_names(verbs: Seq<Verb>) -> JsonTree {
    JsonTree::Array(Seq::new(verbs.len(), |i: int| JsonTree::Text(verbs[i].spec_name())))
}

/// What the plugin tells of itself.
pub open spec fn capabilities_tree() -> JsonTree {
    JsonTree::Object(
        map![
            "plugin"@ => JsonTree::Text("oxibrowser"@),
            "verbs"@ => verb_names(all_verbs()),
            "page_field"@ => JsonTree::Text(PAGE_FIELD@),
            "default_page"@ => JsonTree::Text(DEFAULT_PAGE@),
            "max_pages"@ => JsonTree::Number(JsonNumber::Unsigned(MAX_PAGES as u64)),
            "payload_field"@ => JsonTree::Object(
                map![
                    "navigate"@ => JsonTree::Text("navigated"@),
                    "evaluate"@ => JsonTree::Text("value"@),
                    "dom-query"@ => JsonTree::Text("nodes"@),
                    "extract-markdown"@ => JsonTree::Text("markdown"@),
                    "list-pages"@ => JsonTree::Text("pages"@),
                    "close-page"@ => JsonTree::Text("closed"@),
                ],
            ),
        ],
    )
}

/// What the plugin tells of itself.
pub fn capabilities() -> (r: Json)
    ensures
        r.tree() == capabilities_tree(),
{
    let verbs = with_item(no_items(), text_json(Verb::Navigate.name()));
    let verbs = with_item(verbs, text_json(Verb::Evaluate.name()));
    let verbs = with_item(verbs, text_json(Verb::DomQuery.name()));
    let verbs = with_item(verbs, text_json(Verb::ExtractMarkdown.name()));
    let verbs = with_item(verbs, text_json(Verb::ListPages.name()));
    let verbs = with_item(verbs, text_json(Verb::ClosePage.name()));
    let verbs = with_item(verbs, text_json(Verb::Capabilities.name()));
    assert(trees(verbs@) =~= verb_names(all_verbs())->Array_0);
    let fields = with_entry(no_entries(), "navigate", text_json("navigated"));
    let fields = with_entry(fields, "evaluate", text_json("value"));
    let fields = with_entry(fields, "dom-query", text_json("nodes"));
    let fields = with_entry(fields, "extract-markdown", text_json("markdown"));
    let fields = with_entry(fields, "list-pages", text_json("pages"));
    let fields = with_entry(fields, "close-page", text_json("closed"));
    let entries = with_entry(no_entries(), "plugin", text_json("oxibrowser"));
    let entries = with_entry(entries, "verbs", Json::Array(verbs));
    let entries = with_entry(entries, "page_field", text_json(PAGE_FIELD));
    let entries = with_entry(entries, "default_page", text_json(DEFAULT_PAGE));
    let entries = with_entry(entries, "max_pages", number_json(MAX_PAGES as u64));
    let entries = with_entry(entries, "payload_field", Json::Object(fields));
    Json::Object(entries)
}

/// Starts a navigation: it needs a `url`.
pub fn verb_navigate(page: &str, body: &Json) -> (r: Step)
    ensures
        r.tree() == verb_step(Verb::Navigate, page@, body.tree()),
{
    match body.get_str("url") {
        Some(url) => Step::UsePage(Job::Navigate(url.to_string())),
        None => Step::Reply(err("navigate", page, "missing required field: url")),
    }
}

/// Starts an evaluation: it needs an `expression`.
pub fn verb_evaluate(page: &str, body: &Json) -> (r: Step)
    ensures
        r.tree() == verb_step(Verb::Evaluate, page@, body.tree()),
{
    match body.get_str("expression") {
        Some(expression) => Step::UsePage(Job::Evaluate(expression.to_string())),
        None => Step::Reply(err("evaluate", page, "missing required field: expression")),
    }
}

/// Starts a query of the document: it needs a `selector`.
pub fn verb_dom_query(page: &str, body: &Json) -> (r: Step)
    ensures
        r.tree() == verb_step(Verb::DomQuery, page@, body.tree()),
{
    match body.get_str("selector") {
        Some(selector) => Step::UsePage(Job::Query(selector.to_string())),
        None => Step::Reply(err("dom-query", page, "missing required field: selector")),
    }
}

/// What a call leads to.
pub open spec fn dispatch_step(name: Seq<char>, page: Seq<char>, body: JsonTree) -> StepTree {
    match verb_of(name) {
        Some(verb) => verb_step(verb, page, body),
        None => StepTree::Reply(unknown_verb_tree(name, page)),
    }
}

/// Decides what a call leads to.
pub fn dispatch_verb(name: &str, page: &str, body: &Json) -> (r: Step)
    ensures
        r.tree() == dispatch_step(name@, page@, body.tree()),
        name@ == "navigate"@ ==> (body.tree().text_member("url"@) matches Some(url) ==> (
        r matches Step::UsePage(Job::Navigate(told)) && told@ == url)),
        name@ == "evaluate"@ ==> (body.tree().text_member("expression"@) matches Some(expression)
            ==> (r matches Step::UsePage(Job::Evaluate(told)) && told@ == expression)),
        name@ == "dom-query"@ ==> (body.tree().text_member("selector"@) matches Some(selector)
            ==> (r matches Step::UsePage(Job::Query(told)) && told@ == selector)),
        name@ == "extract-markdown"@ ==> r == Step::UsePage(Job::Markdown),
        name@ == "list-pages"@ ==> r is ListPages,
        name@ == "close-page"@ ==> r is ClosePage,
        name@ == "capabilities"@ ==> r is Reply,
{
    proof {
        law_verbs_without_a_field_lead_to_one_step(page@, body.tree());
        match body.tree().text_member("url"@) {
            Some(url) => law_navigation_goes_to_the_url(page@, body.tree(), url),
            None => {},
        }
        match body.tree().text_member("expression"@) {
            Some(text) => law_evaluation_is_of_the_expression(page@, body.tree(), text),
            None => {},
        }
        match body.tree().text_member("selector"@) {
            Some(text) => law_query_is_for_the_selector(page@, body.tree(), text),
            None => {},
        }
    }
    match parse_verb(name) {
        Some(Verb::Navigate) => verb_navigate(page, body),
        Some(Verb::Evaluate) => verb_evaluate(page, body),
        Some(Verb::DomQuery) => verb_dom_query(page, body),
        Some(Verb::ExtractMarkdown) => Step::UsePage(Job::Markdown),
        Some(Verb::ListPages) => Step::ListPages,
        Some(Verb::ClosePage) => Step::ClosePage,
        Some(Verb::Capabilities) => Step::Reply(ok("capabilities", page, capabilities())),
        None => {
            let mut message = "unknown verb: ".to_string();
            message.append(name);
            Step::Reply(err(name, page, message.as_str()))
        },
    }
}

/// What happens while a page is used.
#[derive(Debug, PartialEq, Eq)]
pub enum PageEvent<S> {
    /// The page is wanted.
    Wanted,
    /// A session was opened for it, or could not be.
    Opened(Result<S, String>),
    /// The job on its session ended, well or not.
    Finished(S),
}

/// What is to be done while a page is used.
#[derive(Debug, PartialEq, Eq)]
pub enum PageAction<S> {
    /// Open a session.
    Open,
    /// Do the job on this session.
    Run(S),
    /// Answer with this message.
    Fail(String),
    /// Answer with the outcome of the job; these pages were closed.
    Done(Vec<String>),
}

/// Uses a page: its session is taken out of the table, or opened where the table
/// holds none, and put back once the job ended.
pub fn with_page<S>(table: &mut PageTable<S>, page: &str, event: PageEvent<S>) -> (r: PageAction<S>)
    requires
        old(table).wf(),
        event is Finished ==> old(table).clock() < u64::MAX,
    ensures
        final(table).wf(),
        match event {
            PageEvent::Wanted => {
                &&& final(table).pages() == old(table).pages().remove(page@)
                &&& final(table).clock() == old(table).clock()
                &&& r == if old(table).pages().dom().contains(page@) {
                    PageAction::Run(old(table).pages()[page@].session)
                } else {
                    PageAction::Open
                }
            },
            PageEvent::Opened(outcome) => {
                &&& final(table).pages() == old(table).pages()
                &&& final(table).clock() == old(table).clock()
                &&& r == match outcome {
                    Ok(session) => PageAction::Run(session),
                    Err(message) => PageAction::Fail(message),
                }
            },
            PageEvent::Finished(session) => {
                &&& final(table).clock() == old(table).clock() + 1
                &&& r matches PageAction::Done(evicted) && is_eviction(
                    old(table).pages().insert(
                        page@,
                        (Parked { session, last_used: (old(table).clock() + 1) as u64 }),
                    ),
                    page@,
                    texts(evicted@),
                    final(table).pages(),
                )
            },
        },
        event is Wanted ==> !final(table).pages().dom().contains(page@),
        r is Open <==> event is Wanted && !old(table).pages().dom().contains(page@),
        r matches PageAction::Fail(message) ==> event == PageEvent::<S>::Opened(Err(message)),
        event matches PageEvent::Finished(session) ==> {
            &&& final(table).pages().dom().contains(page@)
            &&& final(table).pages()[page@].session == session
            &&& final(table).pages()[page@].last_used == old(table).clock() + 1
            &&& final(table).pages().len() <= 16
        },
{
    match event {
        PageEvent::Wanted => match table.take_page(page) {
            Some(session) => PageAction::Run(session),
            None => PageAction::Open,
        },
        PageEvent::Opened(Ok(session)) => PageAction::Run(session),
        PageEvent::Opened(Err(message)) => PageAction::Fail(message),
        PageEvent::Finished(session) => PageAction::Done(table.park_page(page, session)),
    }
}

/// Answers a navigation, given how it went.
pub fn navigate_reply(page: &str, outcome: Result<(), String>) -> (r: Json)
    ensures
        r.tree() == match outcome {
            Ok(_) => ok_tree("navigate"@, page@, navigated_tree()),
            Err(message) => err_tree("navigate"@, page@, message@),
        },
        r.tree().member("ok"@) == Some(JsonTree::Bool(outcome is Ok)),
        r.tree().text_member("verb"@) == Some("navigate"@),
        r.tree().text_member("page"@) == Some(page@),
        outcome matches Err(message) ==> r.tree().text_member("error"@) == Some(message@),
        outcome is Ok ==> (r.tree().member("data"@) matches Some(data) && data.member("navigated"@)
            == Some(JsonTree::Bool(true))),
{
    proof {
        law_navigation_is_told("navigated"@);
    }
    match outcome {
        Ok(_) => {
            let entries = with_entry(no_entries(), "navigated", Json::Bool(true));
            ok("navigate", page, Json::Object(entries))
        },
        Err(message) => err("navigate", page, message.as_str()),
    }
}

/// What a navigation tells.
pub open spec fn navigated_tree() -> JsonTree {
    JsonTree::Object(map!["navigated"@ => JsonTree::Bool(true)])
}

/// What came of an evaluation, as the session tells it.
#[derive(Debug, PartialEq)]
pub struct Evaluation {
    pub value: Json,
    pub exception: Json,
}

/// What an evaluation tells.
pub open spec fn evaluated_tree(value: JsonTree, exception: JsonTree) -> JsonTree {
    JsonTree::Object(map!["value"@ => value, "exception"@ => exception])
}

/// Answers an evaluation, given how it went.
pub fn evaluate_reply(page: &str, outcome: Result<Evaluation, String>) -> (r: Json)
    ensures
        r.tree() == match outcome {
            Ok(evaluation) => ok_tree(
                "evaluate"@,
                page@,
                evaluated_tree(evaluation.value.tree(), evaluation.exception.tree()),
            ),
            Err(message) => err_tree("evaluate"@, page@, message@),
        },
        r.tree().member("ok"@) == Some(JsonTree::Bool(outcome is Ok)),
        r.tree().text_member("verb"@) == Some("evaluate"@),
        r.tree().text_member("page"@) == Some(page@),
        outcome matches Err(message) ==> r.tree().text_member("error"@) == Some(message@),
        outcome matches Ok(evaluation) ==> (r.tree().member("data"@) matches Some(data)
            && data.member("value"@) == Some(evaluation.value.tree()) && data.member("exception"@)
            == Some(evaluation.exception.tree())),
{
    match outcome {
        Ok(evaluation) => {
            proof {
                law_value_and_exception_are_told(
                    evaluation.value.tree(),
                    evaluation.exception.tree(),
                    "value"@,
                );
            }
            let entries = with_entry(no_entries(), "value", evaluation.value);
            let entries = with_entry(entries, "exception", evaluation.exception);
            ok("evaluate", page, Json::Object(entries))
        },
        Err(message) => err("evaluate", page, message.as_str()),
    }
}

/// What is told of a node of the document.
#[derive(Debug, PartialEq)]
pub struct NodeSummary {
    pub tag: Json,
    pub text: Json,
}

impl NodeSummary {
    /// What is told of this node.
    pub open spec fn tree(self) -> JsonTree {
        JsonTree::Object(map!["tag"@ => self.tag.tree(), "text"@ => self.text.tree()])
    }
}

/// What is told of the nodes that were matched; those that the snapshot does not
/// hold are passed over.
pub open spec fn node_trees(matched: Seq<Option<NodeSummary>>) -> Seq<JsonTree>
    decreases matched.len(),
{
    if matched.len() == 0 {
        Seq::empty()
    } else {
        match matched.last() {
            Some(node) => node_trees(matched.drop_last()).push(node.tree()),
            None => node_trees(matched.drop_last()),
        }
    }
}

/// What a query tells: nothing was matched where the page shows no document.
pub open spec fn queried_tree(matched: Option<Seq<Option<NodeSummary>>>) -> JsonTree {
    JsonTree::Object(
        map![
            "nodes"@ => JsonTree::Array(
                match matched {
                    Some(nodes) => node_trees(nodes),
                    None => Seq::empty(),
                },
            ),
        ],
    )
}

/// The nodes that are told of.
fn node_items(matched: Vec<Option<NodeSummary>>) -> (r: Vec<Json>)
    ensures
        trees(r@) == node_trees(matched@),
{
    let ghost all = matched@;
    let mut items = no_items();
    assert(all.take(0) == Seq::<Option<NodeSummary>>::empty());
    for found in it: matched
        invariant
            it.seq() == all,
            trees(items@) == node_trees(all.take(it.index())),
    {
        assert(all.take(it.index() + 1).drop_last() == all.take(it.index()));
        assert(all.take(it.index() + 1).last() == found);
        match found {
            Some(node) => {
                let entries = with_entry(no_entries(), "tag", node.tag);
                let entries = with_entry(entries, "text", node.text);
                items = with_item(items, Json::Object(entries));
            },
            None => {},
        }
    }
    assert(all.take(all.len() as int) == all);
    items
}

/// Answers a query, given how it went: whether there is a document, and for each
/// node that was matched what the snapshot holds of it.
pub fn dom_query_reply(
    page: &str,
    outcome: Result<Option<Vec<Option<NodeSummary>>>, String>,
) -> (r: Json)
    ensures
        r.tree() == match outcome {
            Ok(Some(matched)) => ok_tree("dom-query"@, page@, queried_tree(Some(matched@))),
            Ok(None) => ok_tree("dom-query"@, page@, queried_tree(None)),
            Err(message) => err_tree("dom-query"@, page@, message@),
        },
        r.tree().member("ok"@) == Some(JsonTree::Bool(outcome is Ok)),
        r.tree().text_member("verb"@) == Some("dom-query"@),
        r.tree().text_member("page"@) == Some(page@),
        outcome matches Err(message) ==> r.tree().text_member("error"@) == Some(message@),
        outcome matches Ok(Some(matched)) ==> (forall|i: int|
            0 <= i < matched@.len() ==> (#[trigger] matched@[i]) is Some) ==> (r.tree().member(
            "data"@,
        ) matches Some(data) && data.member("nodes"@) matches Some(JsonTree::Array(told))
            && told.len() == matched@.len() && forall|i: int|
            0 <= i < matched@.len() ==> {
                &&& (#[trigger] told[i]).member("tag"@) == Some(matched@[i]->0.tag.tree())
                &&& told[i].member("text"@) == Some(matched@[i]->0.text.tree())
            }),
        outcome matches Ok(None) ==> (r.tree().member("data"@) matches Some(data) && data.member(
            "nodes"@,
        ) == Some(JsonTree::Array(Seq::empty()))),
{
    match outcome {
        Ok(Some(matched)) => {
            proof {
                if forall|i: int| 0 <= i < matched@.len() ==> (#[trigger] matched@[i]) is Some {
                    law_every_matched_node_is_told(matched@);
                }
            }
            let items = node_items(matched);
            let entries = with_entry(no_entries(), "nodes", Json::Array(items));
            ok("dom-query", page, Json::Object(entries))
        },
        Ok(None) => {
            let entries = with_entry(no_entries(), "nodes", Json::Array(no_items()));
            ok("dom-query", page, Json::Object(entries))
        },
        Err(message) => err("dom-query", page, message.as_str()),
    }
}

/// What an extraction tells: no text where no page is loaded.
pub open spec fn extracted_tree(markdown: Option<Seq<char>>) -> JsonTree {
    JsonTree::Object(
        map![
            "markdown"@ => JsonTree::Text(
                match markdown {
                    Some(text) => text,
                    None => Seq::empty(),
                },
            ),
        ],
    )
}

/// Answers an extraction, given how it went.
pub fn extract_markdown_reply(page: &str, outcome: Result<Option<String>, String>) -> (r: Json)
    ensures
        r.tree() == match outcome {
            Ok(Some(markdown)) => ok_tree(
                "extract-markdown"@,
                page@,
                extracted_tree(Some(markdown@)),
            ),
            Ok(None) => ok_tree("extract-markdown"@, page@, extracted_tree(None)),
            Err(message) => err_tree("extract-markdown"@, page@, message@),
        },
        r.tree().member("ok"@) == Some(JsonTree::Bool(outcome is Ok)),
        r.tree().text_member("verb"@) == Some("extract-markdown"@),
        r.tree().text_member("page"@) == Some(page@),
        outcome matches Err(message) ==> r.tree().text_member("error"@) == Some(message@),
        outcome matches Ok(found) ==> (r.tree().member("data"@) matches Some(data)
            && data.text_member("markdown"@) == Some(
            match found {
                Some(markdown) => markdown@,
                None => Seq::empty(),
            },
        )),
{
    match outcome {
        Ok(found) => {
            let markdown = match found {
                Some(text) => text,
                None => String::new(),
            };
            proof {
                law_markdown_is_told(markdown@, None, "markdown"@);
            }
            let entries = with_entry(no_entries(), "markdown", Json::Text(markdown));
            ok("extract-markdown", page, Json::Object(entries))
        },
        Err(message) => err("extract-markdown", page, message.as_str()),
    }
}

/// What is told of an open page.
pub open spec fn entry_tree(entry: PageEntry) -> JsonTree {
    JsonTree::Object(
        map![
            "page"@ => JsonTree::Text(entry.page@),
            "url"@ => match entry.url {
                Some(url) => JsonTree::Text(url@),
                None => JsonTree::Null,
            },
            "last_used"@ => JsonTree::Number(JsonNumber::Unsigned(entry.last_used)),
        ],
    )
}

/// What a listing tells.
pub open spec fn listed_tree(entries: Seq<PageEntry>) -> JsonTree {
    JsonTree::Object(
        map![
            "pages"@ => JsonTree::Array(
                Seq::new(entries.len(), |i: int| entry_tree(entries[i])),
            ),
            "max_pages"@ => JsonTree::Number(JsonNumber::Unsigned(MAX_PAGES as u64)),
        ],
    )
}

/// Answers a listing, given what is to be told of the open pages.
pub fn list_pages_reply(page: &str, entries: &Vec<PageEntry>) -> (r: Json)
    ensures
        r.tree() == ok_tree("list-pages"@, page@, listed_tree(entries@)),
        r.tree().member("data"@) matches Some(data) && data.member("pages"@) matches Some(
            JsonTree::Array(told),
        ) && told.len() == entries@.len() && forall|i: int|
            0 <= i < entries@.len() ==> {
                &&& (#[trigger] told[i]).text_member("page"@) == Some(entries@[i].page@)
                &&& told[i].member("last_used"@) == Some(
                    JsonTree::Number(JsonNumber::Unsigned(entries@[i].last_used)),
                )
            },
{
    proof {
        law_every_entry_is_told(entries@, "page"@);
    }
    let ghost told = Seq::new(entries@.len(), |i: int| entry_tree(entries@[i]));
    let mut items = no_items();
    assert(told.take(0) == Seq::<JsonTree>::empty());
    for i in 0..entries.len()
        invariant
            told == Seq::new(entries@.len(), |i: int| entry_tree(entries@[i])),
            trees(items@) == told.take(i as int),
    {
        let entry = &entries[i];
        let url = match &entry.url {
            Some(url) => text_json(url.as_str()),
            None => Json::Null,
        };
        let fields = with_entry(no_entries(), "page", text_json(entry.page.as_str()));
        let fields = with_entry(fields, "url", url);
        let fields = with_entry(fields, "last_used", number_json(entry.last_used));
        items = with_item(items, Json::Object(fields));
        assert(told.take(i + 1) == told.take(i as int).push(entry_tree(entries@[i as int])));
    }
    assert(told.take(entries@.len() as int) == told);
    let data = with_entry(no_entries(), "pages", Json::Array(items));
    let data = with_entry(data, "max_pages", number_json(MAX_PAGES as u64));
    ok("list-pages", page, Json::Object(data))
}

/// Whether each entry tells an address that `url_of` read off the page's session.
pub open spec fn tells_urls<S, F: Fn(&S) -> Option<String>>(
    pages: Pages<S>,
    url_of: F,
    entries: Seq<PageEntry>,
) -> bool {
    forall|i: int|
        0 <= i < entries.len() ==> call_ensures(
            url_of,
            (&pages[(#[trigger] entries[i]).page@].session,),
            entries[i].url,
        )
}

/// Whether a reply lists the open pages, with the addresses that `url_of` read.
pub open spec fn is_list_reply<S, F: Fn(&S) -> Option<String>>(
    pages: Pages<S>,
    url_of: F,
    page: Seq<char>,
    reply: JsonTree,
) -> bool {
    exists|entries: Seq<PageEntry>|
        {
            &&& #[trigger] is_listing(pages, entries)
            &&& tells_urls(pages, url_of, entries)
            &&& reply == ok_tree("list-pages"@, page, listed_tree(entries))
        }
}

/// Answers a listing of the open pages, the one that was used last first. `url_of`
/// reads the address that a session shows.
pub fn verb_list_pages<S, F: Fn(&S) -> Option<String>>(
    table: &PageTable<S>,
    page: &str,
    url_of: F,
) -> (r: Json)
    requires
        table.wf(),
        forall|name: Seq<char>| #[trigger]
            table.pages().dom().contains(name) ==> call_requires(
                url_of,
                (&table.pages()[name].session,),
            ),
    ensures
        is_list_reply(table.pages(), url_of, page@, r.tree()),
{
    let entries = table.list_pages(url_of);
    assert(is_listing(table.pages(), entries@) && tells_urls(table.pages(), url_of, entries@));
    list_pages_reply(page, &entries)
}

/// What closing a page tells.
pub open spec fn closed_tree(closed: bool) -> JsonTree {
    JsonTree::Object(map!["closed"@ => JsonTree::Bool(closed)])
}

/// Closes the page of a call, and answers whether it was open.
pub fn verb_close_page<S>(table: &mut PageTable<S>, page: &str) -> (r: Json)
    requires
        old(table).wf(),
    ensures
        final(table).wf(),
        final(table).pages() == old(table).pages().remove(page@),
        final(table).clock() == old(table).clock(),
        r.tree() == ok_tree(
            "close-page"@,
            page@,
            closed_tree(old(table).pages().dom().contains(page@)),
        ),
        r.tree().member("data"@) matches Some(data) && data.member("closed"@) == Some(
            JsonTree::Bool(old(table).pages().dom().contains(page@)),
        ),
        !final(table).pages().dom().contains(page@),
{
    proof {
        law_closing_is_told(table.pages().dom().contains(page@), "closed"@);
    }
    let closed = table.take_page(page).is_some();
    let entries = with_entry(no_entries(), "closed", Json::Bool(closed));
    ok("close-page", page, Json::Object(entries))
}

/// The message of a call that panicked.
pub open spec fn panic_message(payload: Option<Seq<char>>) -> Seq<char> {
    "panicked: "@ + match payload {
        Some(text) => text,
        None => "panic during dispatch"@,
    }
}

/// Answers a call that panicked, given the text that the panic carried.
pub fn panic_reply(verb: &str, page: &str, payload: Option<&str>) -> (r: Json)
    ensures
        r.tree() == err_tree(
            verb@,
            page@,
            panic_message(
                match payload {
                    Some(text) => Some(text@),
                    None => None,
                },
            ),
        ),
        r.tree().member("ok"@) == Some(JsonTree::Bool(false)),
        r.tree().text_member("verb"@) == Some(verb@),
        r.tree().text_member("page"@) == Some(page@),
        payload matches Some(text) ==> r.tree().text_member("error"@) == Some(
            "panicked: "@ + text@,
        ),
{
    let mut message = "panicked: ".to_string();
    match payload {
        Some(text) => message.append(text),
        None => message.append("panic during dispatch"),
    }
    err(verb, page, message.as_str())
}

/// Answers a call for which no runtime could be built.
pub fn runtime_failure_reply(verb: &str, page: &str, cause: &str) -> (r: Json)
    ensures
        r.tree() == err_tree(verb@, page@, "failed to build async runtime: "@ + cause@),
        r.tree().member("ok"@) == Some(JsonTree::Bool(false)),
        r.tree().text_member("verb"@) == Some(verb@),
        r.tree().text_member("page"@) == Some(page@),
        r.tree().text_member("error"@) == Some("failed to build async runtime: "@ + cause@),
{
    let mut message = "failed to build async runtime: ".to_string();
    message.append(cause);
    err(verb, page, message.as_str())
}

} // verus!
