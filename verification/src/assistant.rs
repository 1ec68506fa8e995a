//! Asking a language model for a summary of the page.

use vstd::prelude::*;
use crate::json::{
    children_of, find_member, get_text, json_parsed, json_quoted, list_children, member_of,
    parse_json, quote_json, text_member, JsonItem, JsonNode, JsonView,
};
use crate::number::ints;
use crate::style::{emboldened, plain_text};
use crate::tab::views;
use crate::text::{concat, concat3, fit, fitting};

verus! {

broadcast use vstd::string::group_string_axioms;

/// The most bytes of a page that are sent.
pub const MAX_PAGE: usize = 4000;

/// What is asked of the model.
pub open spec fn question(title: Seq<char>, url: Seq<char>, text: Seq<char>) -> Seq<char> {
    "Summarize this web page concisely.\nTitle: "@ + title + "\nURL: "@ + url + "\n\n"@ + fitting(
        text,
        MAX_PAGE as int,
    )
}

/// The request for the question, as JSON.
pub open spec fn request(asked: Seq<char>) -> Seq<char> {
    "{\"max_tokens\":600,\"messages\":[{\"content\":"@ + json_quoted(asked)
        + ",\"role\":\"user\"}],\"model\":\"gpt-4o-mini\"}"@
}

pub fn ask(title: &str, url: &str, text: &str) -> (r: String)
    ensures
        r@ == question(title@, url@, text@),
{
    let mut r = concat3("Summarize this web page concisely.\nTitle: ", title, "\nURL: ");
    r.append(url);
    r.append("\n\n");
    r.append(fit(text, MAX_PAGE).as_str());
    r
}

/// The request for a summary of a page.
pub fn summary_request(title: &str, url: &str, content: &str) -> (r: String)
    ensures
        r@ == request(question(title@, url@, plain_text(content@))),
{
    let text = crust::strip_ansi(content);
    let asked = ask(title, url, text.as_str());
    concat3(
        "{\"max_tokens\":600,\"messages\":[{\"content\":",
        quote_json(asked.as_str()).as_str(),
        ",\"role\":\"user\"}],\"model\":\"gpt-4o-mini\"}",
    )
}

/// The first value in the list under `key` of the object at `i`.
pub open spec fn first_in(v: Seq<JsonView>, i: int, key: Seq<char>) -> Option<int> {
    match member_of(v, i, key) {
        Some(k) => if v[k].node is List && children_of(v, k).len() > 0 {
            Some(children_of(v, k)[0])
        } else {
            None
        },
        None => None,
    }
}

/// The text of the first answer.
pub open spec fn answer_text(v: Seq<JsonView>) -> Option<Seq<char>> {
    match first_in(v, 0, "choices"@) {
        Some(c) => match member_of(v, c, "message"@) {
            Some(m) => text_member(v, m, "content"@),
            None => None,
        },
        None => None,
    }
}

fn find_first(v: &Vec<JsonItem>, i: usize, key: &str) -> (r: Option<usize>)
    requires
        i < v@.len(),
    ensures
        match r {
            Some(k) => first_in(views(v@), i as int, key@) == Some(k as int) && k < v@.len(),
            None => first_in(views(v@), i as int, key@) is None,
        },
{
    match find_member(v, i, key) {
        Some(k) => {
            assert(views(v@)[k as int] == v@[k as int]@);
            match v[k].node {
                JsonNode::List => {
                    let c = list_children(v, k);
                    if c.len() > 0 {
                        assert(ints(c@)[0] == c@[0]);
                        Some(c[0])
                    } else {
                        None
                    }
                },
                _ => None,
            }
        },
        None => None,
    }
}

/// The text of the first answer in a reply that was read.
pub fn read_answer(v: &Vec<JsonItem>) -> (r: Option<String>)
    requires
        v@.len() > 0,
    ensures
        crate::address::opt_text(r) == answer_text(views(v@)),
{
    match find_first(v, 0, "choices") {
        Some(c) => match find_member(v, c, "message") {
            Some(m) => match get_text(v, m, "content") {
                Some(s) => Some(s.to_string()),
                None => None,
            },
            None => None,
        },
        None => None,
    }
}

/// The page that shows a summary.
pub open spec fn summary_text(answer: Option<Seq<char>>) -> Seq<char> {
    emboldened("AI Summary"@) + "\n\n"@ + (match answer {
        Some(s) => s,
        None => "No response"@,
    })
}

/// The page for a reply; `None` where the reply is not JSON.
pub fn summary_page(reply: &str) -> (r: Option<String>)
    ensures
        match json_parsed(reply@) {
            Some(v) => r matches Some(p) && p@ == summary_text(answer_text(v)),
            None => r is None,
        },
{
    match parse_json(reply) {
        Some(v) => {
            let mut page = concat(crust::style::bold("AI Summary").as_str(), "\n\n");
            match read_answer(&v) {
                Some(s) => {
                    page.append(s.as_str());
                },
                None => {
                    page.append("No response");
                },
            }
            Some(page)
        },
        None => None,
    }
}

} // verus!
