//! A browser tab: its page, what the page refers to, and its history.

use vstd::prelude::*;
use crate::strmap::{Duplicate, StrMap};
use crate::text::same;

verus! {

/// What each item of a sequence stands for.
pub open spec fn views<T: View>(v: Seq<T>) -> Seq<T::V> {
    v.map_values(|x: T| x@)
}

pub proof fn lemma_views_push<T: View>(v: Seq<T>, x: T)
    ensures
        views(v.push(x)) == views(v).push(x@),
{
    assert(views(v.push(x)) =~= views(v).push(x@));
}

pub fn duplicate_all<T: Duplicate>(v: &Vec<T>) -> (r: Vec<T>)
    ensures
        views(r@) == views(v@),
{
    let mut out: Vec<T> = Vec::new();
    for i in 0..v.len()
        invariant
            views(out@) == views(v@.take(i as int)),
    {
        let x = v[i].duplicate();
        proof {
            lemma_views_push(out@, x);
            lemma_views_push(v@.take(i as int), v@[i as int]);
            assert(v@.take(i + 1) =~= v@.take(i as int).push(v@[i as int]));
        }
        out.push(x);
    }
    assert(v@.take(v@.len() as int) =~= v@);
    out
}

// --- What a page refers to ---

#[derive(Clone)]
pub struct Link {
    pub index: usize,
    pub href: String,
    pub text: String,
    pub line: usize,
}

pub struct LinkView {
    pub index: int,
    pub href: Seq<char>,
    pub text: Seq<char>,
    pub line: int,
}

impl View for Link {
    type V = LinkView;

    open spec fn view(&self) -> LinkView {
        LinkView {
            index: self.index as int,
            href: self.href@,
            text: self.text@,
            line: self.line as int,
        }
    }
}

impl Duplicate for Link {
    fn duplicate(&self) -> (r: Self) {
        Link {
            index: self.index,
            href: self.href.clone(),
            text: self.text.clone(),
            line: self.line,
        }
    }
}

#[derive(Clone)]
pub struct FormField {
    pub field_type: String,
    pub name: String,
    pub id: String,
    pub value: String,
    pub placeholder: String,
    /// The choices of a select field, each with its value and its label.
    pub options: Vec<(String, String)>,
    pub line: usize,
    /// The plain text that stands for the field on the rendered page.
    pub render_token: String,
}

pub struct FieldView {
    pub field_type: Seq<char>,
    pub name: Seq<char>,
    pub id: Seq<char>,
    pub value: Seq<char>,
    pub placeholder: Seq<char>,
    pub options: Seq<(Seq<char>, Seq<char>)>,
    pub line: int,
    pub render_token: Seq<char>,
}

pub open spec fn pairs(v: Seq<(String, String)>) -> Seq<(Seq<char>, Seq<char>)> {
    v.map_values(|p: (String, String)| (p.0@, p.1@))
}

impl View for FormField {
    type V = FieldView;

    open spec fn view(&self) -> FieldView {
        FieldView {
            field_type: self.field_type@,
            name: self.name@,
            id: self.id@,
            value: self.value@,
            placeholder: self.placeholder@,
            options: pairs(self.options@),
            line: self.line as int,
            render_token: self.render_token@,
        }
    }
}

pub open spec fn empty_field() -> FieldView {
    FieldView {
        field_type: Seq::empty(),
        name: Seq::empty(),
        id: Seq::empty(),
        value: Seq::empty(),
        placeholder: Seq::empty(),
        options: Seq::empty(),
        line: 0,
        render_token: Seq::empty(),
    }
}

impl Default for FormField {
    fn default() -> (r: Self)
        ensures
            r@ == empty_field(),
    {
        let r = FormField {
            field_type: String::new(),
            name: String::new(),
            id: String::new(),
            value: String::new(),
            placeholder: String::new(),
            options: Vec::new(),
            line: 0,
            render_token: String::new(),
        };
        assert(r.options@ =~= Seq::empty());
        assert(r@.options =~= Seq::empty());
        assert(r@.name =~= Seq::empty());
        r
    }
}

pub fn duplicate_pairs(v: &Vec<(String, String)>) -> (r: Vec<(String, String)>)
    ensures
        pairs(r@) == pairs(v@),
{
    let mut out: Vec<(String, String)> = Vec::new();
    for i in 0..v.len()
        invariant
            out@.len() == i,
            forall|j: int|
                0 <= j < i ==> (#[trigger] out@[j]).0@ == v@[j].0@ && out@[j].1@ == v@[j].1@,
    {
        out.push((v[i].0.clone(), v[i].1.clone()));
    }
    assert(pairs(out@) =~= pairs(v@));
    out
}

impl Duplicate for FormField {
    fn duplicate(&self) -> (r: Self) {
        FormField {
            field_type: self.field_type.clone(),
            name: self.name.clone(),
            id: self.id.clone(),
            value: self.value.clone(),
            placeholder: self.placeholder.clone(),
            options: duplicate_pairs(&self.options),
            line: self.line,
            render_token: self.render_token.clone(),
        }
    }
}

#[derive(Clone)]
pub struct Form {
    pub action: String,
    pub method: String,
    pub fields: Vec<FormField>,
    pub line: usize,
}

pub struct FormView {
    pub action: Seq<char>,
    pub method: Seq<char>,
    pub fields: Seq<FieldView>,
    pub line: int,
}

impl View for Form {
    type V = FormView;

    open spec fn view(&self) -> FormView {
        FormView {
            action: self.action@,
            method: self.method@,
            fields: views(self.fields@),
            line: self.line as int,
        }
    }
}

impl Duplicate for Form {
    fn duplicate(&self) -> (r: Self) {
        Form {
            action: self.action.clone(),
            method: self.method.clone(),
            fields: duplicate_all(&self.fields),
            line: self.line,
        }
    }
}

#[derive(Clone)]
pub struct ImageRef {
    pub src: String,
    pub alt: String,
    pub line: usize,
    pub height: usize,
}

pub struct ImageView {
    pub src: Seq<char>,
    pub alt: Seq<char>,
    pub line: int,
    pub height: int,
}

impl View for ImageRef {
    type V = ImageView;

    open spec fn view(&self) -> ImageView {
        ImageView {
            src: self.src@,
            alt: self.alt@,
            line: self.line as int,
            height: self.height as int,
        }
    }
}

#[derive(Clone)]
pub struct HistoryEntry {
    pub url: String,
    pub ix: usize,
}

pub struct EntryView {
    pub url: Seq<char>,
    pub ix: int,
}

impl View for HistoryEntry {
    type V = EntryView;

    open spec fn view(&self) -> EntryView {
        EntryView { url: self.url@, ix: self.ix as int }
    }
}

// --- The tab ---

#[derive(Clone)]
pub struct Tab {
    pub url: String,
    pub title: String,
    /// The rendered page, with its escape sequences.
    pub content: String,
    /// The first line on screen.
    pub ix: usize,
    pub links: Vec<Link>,
    pub forms: Vec<Form>,
    pub images: Vec<ImageRef>,
    pub back_history: Vec<HistoryEntry>,
    pub forward_history: Vec<HistoryEntry>,
    pub site_bg: Option<u8>,
    pub site_fg: Option<u8>,
    /// Values that scripts gave to elements, by element id.
    pub js_dom_values: StrMap<String>,
    /// What the page's scripts wrote to the console; cleared on navigation.
    pub js_log: Vec<String>,
    /// The bodies of the page's scripts, kept so that a submit can run them again.
    pub js_scripts: Vec<String>,
    /// The page as it was loaded.
    pub raw_html: String,
}

pub struct TabView {
    pub url: Seq<char>,
    pub title: Seq<char>,
    pub content: Seq<char>,
    pub ix: int,
    pub links: Seq<LinkView>,
    pub forms: Seq<FormView>,
    pub images: Seq<ImageView>,
    pub back_history: Seq<EntryView>,
    pub forward_history: Seq<EntryView>,
    pub site_bg: Option<u8>,
    pub site_fg: Option<u8>,
    pub js_dom_values: Seq<(Seq<char>, Seq<char>)>,
    pub js_log: Seq<Seq<char>>,
    pub js_scripts: Seq<Seq<char>>,
    pub raw_html: Seq<char>,
}

impl View for Tab {
    type V = TabView;

    open spec fn view(&self) -> TabView {
        TabView {
            url: self.url@,
            title: self.title@,
            content: self.content@,
            ix: self.ix as int,
            links: views(self.links@),
            forms: views(self.forms@),
            images: views(self.images@),
            back_history: views(self.back_history@),
            forward_history: views(self.forward_history@),
            site_bg: self.site_bg,
            site_fg: self.site_fg,
            js_dom_values: self.js_dom_values@,
            js_log: views(self.js_log@),
            js_scripts: views(self.js_scripts@),
            raw_html: self.raw_html@,
        }
    }
}

/// A tab at `url` that has loaded nothing.
pub open spec fn fresh_tab(url: Seq<char>) -> TabView {
    TabView {
        url,
        title: Seq::empty(),
        content: Seq::empty(),
        ix: 0,
        links: Seq::empty(),
        forms: Seq::empty(),
        images: Seq::empty(),
        back_history: Seq::empty(),
        forward_history: Seq::empty(),
        site_bg: None,
        site_fg: None,
        js_dom_values: Seq::empty(),
        js_log: Seq::empty(),
        js_scripts: Seq::empty(),
        raw_html: Seq::empty(),
    }
}

/// Where the tab is now.
pub open spec fn here(t: TabView) -> EntryView {
    EntryView { url: t.url, ix: t.ix }
}

/// Whether the tab's page is worth going back to.
pub open spec fn is_worth_keeping(url: Seq<char>) -> bool {
    url.len() > 0 && url != "about:blank"@
}

/// The tab on its way to `url`. The page that it leaves is remembered; the way forward and
/// that page's links, forms, images, colours and console output are forgotten.
pub open spec fn navigated(t: TabView, url: Seq<char>) -> TabView {
    TabView {
        url,
        ix: 0,
        back_history: if is_worth_keeping(t.url) {
            t.back_history.push(here(t))
        } else {
            t.back_history
        },
        forward_history: Seq::empty(),
        links: Seq::empty(),
        forms: Seq::empty(),
        images: Seq::empty(),
        site_bg: None,
        site_fg: None,
        js_log: Seq::empty(),
        ..t
    }
}

/// The tab one page back.
pub open spec fn gone_back(t: TabView) -> TabView {
    if t.back_history.len() == 0 {
        t
    } else {
        TabView {
            url: t.back_history.last().url,
            ix: t.back_history.last().ix,
            back_history: t.back_history.drop_last(),
            forward_history: t.forward_history.push(here(t)),
            ..t
        }
    }
}

/// The tab one page forward.
pub open spec fn gone_forward(t: TabView) -> TabView {
    if t.forward_history.len() == 0 {
        t
    } else {
        TabView {
            url: t.forward_history.last().url,
            ix: t.forward_history.last().ix,
            forward_history: t.forward_history.drop_last(),
            back_history: t.back_history.push(here(t)),
            ..t
        }
    }
}

/// Going back and then forward leads to where the tab was.
pub proof fn law_back_forward(t: TabView)
    requires
        t.back_history.len() > 0,
    ensures
        gone_forward(gone_back(t)) == t,
{
    let b = gone_back(t);
    assert(b.back_history.push(here(b)) =~= t.back_history);
    assert(b.forward_history.drop_last() =~= t.forward_history);
}

/// Going forward and then back leads to where the tab was.
pub proof fn law_forward_back(t: TabView)
    requires
        t.forward_history.len() > 0,
    ensures
        gone_back(gone_forward(t)) == t,
{
    let f = gone_forward(t);
    assert(f.forward_history.push(here(f)) =~= t.forward_history);
    assert(f.back_history.drop_last() =~= t.back_history);
}

/// From a page worth keeping, going back undoes a navigation: the address, the scroll
/// position and the way back are restored, and the page that was left lies ahead.
pub proof fn law_navigate_back(t: TabView, url: Seq<char>)
    requires
        is_worth_keeping(t.url),
    ensures
        ({
            let b = gone_back(navigated(t, url));
            &&& here(b) == here(t)
            &&& b.back_history == t.back_history
            &&& b.forward_history == seq![EntryView { url, ix: 0 }]
        }),
{
    let b = gone_back(navigated(t, url));
    assert(b.back_history =~= t.back_history);
    assert(b.forward_history =~= seq![EntryView { url, ix: 0 }]);
}

/// After a navigation there is no way forward.
pub proof fn law_navigate_ends_forward(t: TabView, url: Seq<char>)
    ensures
        gone_forward(navigated(t, url)) == navigated(t, url),
{
}

impl Tab {
    pub fn new(url: &str) -> (r: Self)
        ensures
            r@ == fresh_tab(url@),
    {
        let r = Tab {
            url: url.to_string(),
            title: String::new(),
            content: String::new(),
            ix: 0,
            links: Vec::new(),
            forms: Vec::new(),
            images: Vec::new(),
            back_history: Vec::new(),
            forward_history: Vec::new(),
            site_bg: None,
            site_fg: None,
            js_dom_values: StrMap::new(),
            js_log: Vec::new(),
            js_scripts: Vec::new(),
            raw_html: String::new(),
        };
        assert(r@.title =~= Seq::empty());
        assert(r@.links =~= Seq::empty());
        assert(r@.forms =~= Seq::empty());
        assert(r@.images =~= Seq::empty());
        assert(r@.back_history =~= Seq::empty());
        assert(r@.js_log =~= Seq::empty());
        r
    }

    pub fn navigate(&mut self, url: &str)
        ensures
            final(self)@ == navigated(old(self)@, url@),
    {
        broadcast use vstd::string::group_string_axioms;
        let ghost t = self@;
        if !self.url.as_str().is_empty() && !same(self.url.as_str(), "about:blank") {
            let entry = HistoryEntry { url: self.url.clone(), ix: self.ix };
            proof {
                lemma_views_push(self.back_history@, entry);
            }
            self.back_history.push(entry);
        }
        self.forward_history.clear();
        self.url = url.to_string();
        self.ix = 0;
        self.links.clear();
        self.forms.clear();
        self.images.clear();
        self.site_bg = None;
        self.site_fg = None;
        self.js_log.clear();
        assert(self@.links =~= Seq::empty());
        assert(self@.forms =~= Seq::empty());
        assert(self@.images =~= Seq::empty());
        assert(self@.forward_history =~= Seq::empty());
        assert(self@.js_log =~= Seq::empty());
    }

    pub fn go_back(&mut self) -> (r: Option<String>)
        ensures
            final(self)@ == gone_back(old(self)@),
            match r {
                Some(u) => old(self)@.back_history.len() > 0 && u@ == final(self)@.url,
                None => old(self)@.back_history.len() == 0,
            },
    {
        let ghost t = self@;
        match self.back_history.pop() {
            Some(entry) => {
                let left = HistoryEntry { url: self.url.clone(), ix: self.ix };
                proof {
                    lemma_views_push(self.forward_history@, left);
                }
                self.forward_history.push(left);
                self.url = entry.url.clone();
                self.ix = entry.ix;
                assert(self@.back_history =~= t.back_history.drop_last());
                assert(t.back_history.last() == entry@);
                Some(entry.url)
            },
            None => {
                assert(self@.back_history =~= t.back_history);
                None
            },
        }
    }

    pub fn go_forward(&mut self) -> (r: Option<String>)
        ensures
            final(self)@ == gone_forward(old(self)@),
            match r {
                Some(u) => old(self)@.forward_history.len() > 0 && u@ == final(self)@.url,
                None => old(self)@.forward_history.len() == 0,
            },
    {
        let ghost t = self@;
        match self.forward_history.pop() {
            Some(entry) => {
                let left = HistoryEntry { url: self.url.clone(), ix: self.ix };
                proof {
                    lemma_views_push(self.back_history@, left);
                }
                self.back_history.push(left);
                self.url = entry.url.clone();
                self.ix = entry.ix;
                assert(self@.forward_history =~= t.forward_history.drop_last());
                assert(t.forward_history.last() == entry@);
                Some(entry.url)
            },
            None => {
                assert(self@.forward_history =~= t.forward_history);
                None
            },
        }
    }

    pub fn can_go_back(&self) -> (r: bool)
        ensures
            r == (self@.back_history.len() > 0),
    {
        self.back_history.len() > 0
    }

    pub fn can_go_forward(&self) -> (r: bool)
        ensures
            r == (self@.forward_history.len() > 0),
    {
        self.forward_history.len() > 0
    }
}

} // verus!
