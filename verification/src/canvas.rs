//! The page under construction: finished lines, the line that grows, and what was found.

use vstd::prelude::*;
use crate::config::{Config, ConfigView};
use crate::style::width_of;
use crate::tab::{
    lemma_views_push, views, FieldView, Form, FormField, FormView, ImageRef, ImageView, Link,
    LinkView,
};
use crate::text::{chars2, chars_of, repeat_char, repeated, string_of, words, words_chars};

verus! {

/// A list that is open: one with bullets, or one with numbers and the next number.
#[derive(Clone, Copy, PartialEq, Eq, Structural)]
pub enum ListType {
    Unordered,
    Ordered(usize),
}

pub struct RenderContext<'a> {
    pub lines: Vec<String>,
    pub current_line: String,
    pub col: usize,
    pub width: usize,
    pub links: Vec<Link>,
    pub forms: Vec<Form>,
    pub images: Vec<ImageRef>,
    pub indent: usize,
    pub in_pre: bool,
    pub list_stack: Vec<ListType>,
    pub base_url: String,
    pub conf: &'a Config,
}

pub struct PageView {
    pub lines: Seq<Seq<char>>,
    pub line: Seq<char>,
    pub col: int,
    pub width: int,
    pub links: Seq<LinkView>,
    pub forms: Seq<FormView>,
    pub images: Seq<ImageView>,
    pub indent: int,
    pub in_pre: bool,
    pub lists: Seq<ListType>,
    pub base: Seq<char>,
    pub conf: ConfigView,
}

impl<'a> View for RenderContext<'a> {
    type V = PageView;

    open spec fn view(&self) -> PageView {
        PageView {
            lines: views(self.lines@),
            line: self.current_line@,
            col: self.col as int,
            width: self.width as int,
            links: views(self.links@),
            forms: views(self.forms@),
            images: views(self.images@),
            indent: self.indent as int,
            in_pre: self.in_pre,
            lists: self.list_stack@,
            base: self.base_url@,
            conf: self.conf@,
        }
    }
}

pub open spec fn empty_page(width: int, base: Seq<char>, conf: ConfigView) -> PageView {
    PageView {
        lines: Seq::empty(),
        line: Seq::empty(),
        col: 0,
        width,
        links: Seq::empty(),
        forms: Seq::empty(),
        images: Seq::empty(),
        indent: 0,
        in_pre: false,
        lists: Seq::empty(),
        base,
        conf,
    }
}

/// The sum of two counts, held at the largest count there is.
pub open spec fn sum(a: int, b: int) -> int {
    if a + b > usize::MAX {
        usize::MAX as int
    } else {
        a + b
    }
}

// --- Text on the page ---

/// `text` at the end of the line; a line that begins is indented first.
#[verifier::opaque]
pub open spec fn appended(p: PageView, text: Seq<char>) -> PageView {
    if p.line.len() == 0 && p.indent > 0 {
        PageView {
            line: repeated(' ', p.indent as nat) + text,
            col: sum(p.indent, width_of(text) as int),
            ..p
        }
    } else {
        PageView { line: p.line + text, col: sum(p.col, width_of(text) as int), ..p }
    }
}

/// The line is finished.
#[verifier::opaque]
pub open spec fn newlined(p: PageView) -> PageView {
    PageView { lines: p.lines.push(p.line), line: Seq::empty(), col: 0, ..p }
}

/// The page, at the start of a line that a blank line precedes, unless the page is empty.
#[verifier::opaque]
pub open spec fn blanked(p: PageView) -> PageView {
    let q = if p.line.len() > 0 {
        newlined(p)
    } else {
        p
    };
    if q.lines.len() > 0 && q.lines.last().len() > 0 {
        PageView { lines: q.lines.push(Seq::empty()), ..q }
    } else {
        q
    }
}

/// One word, behind a space where the line has text, or on a new line where it does not
/// fit.
#[verifier::opaque]
pub open spec fn word_added(p: PageView, word: Seq<char>) -> PageView {
    let q = if p.col + width_of(word) + 1 > p.width && p.col > p.indent {
        newlined(p)
    } else {
        p
    };
    let s = if q.col > q.indent {
        appended(q, " "@)
    } else {
        q
    };
    appended(s, word)
}

pub open spec fn words_added(p: PageView, words: Seq<Seq<char>>) -> PageView
    decreases words.len(),
{
    if words.len() == 0 {
        p
    } else {
        word_added(words_added(p, words.drop_last()), words.last())
    }
}

/// The words of `text`, wrapped.
pub open spec fn wrapped(p: PageView, text: Seq<char>) -> PageView {
    words_added(p, words(text))
}

// --- What was found ---

/// A link to `href` on the line that grows, with the next number.
#[verifier::opaque]
pub open spec fn linked(p: PageView, href: Seq<char>, text: Seq<char>) -> PageView {
    PageView {
        links: p.links.push(
            LinkView {
                index: p.links.len() as int + 1,
                href,
                text,
                line: p.lines.len() as int,
            },
        ),
        ..p
    }
}

/// A form that begins on the line that grows.
#[verifier::opaque]
pub open spec fn with_form(p: PageView, action: Seq<char>, method: Seq<char>) -> PageView {
    PageView {
        forms: p.forms.push(
            FormView { action, method, fields: Seq::empty(), line: p.lines.len() as int },
        ),
        ..p
    }
}

/// One more field in the last form; where there is no form the field is lost.
#[verifier::opaque]
pub open spec fn with_field(p: PageView, field: FieldView) -> PageView {
    if p.forms.len() == 0 {
        p
    } else {
        let last = p.forms.last();
        PageView {
            forms: p.forms.update(
                p.forms.len() - 1,
                FormView { fields: last.fields.push(field), ..last },
            ),
            ..p
        }
    }
}

pub open spec fn blank_lines(n: nat) -> Seq<Seq<char>> {
    Seq::new(n, |i: int| Seq::<char>::empty())
}

/// An image with `height` blank lines reserved for it.
#[verifier::opaque]
pub open spec fn with_image(p: PageView, src: Seq<char>, alt: Seq<char>, height: int) -> PageView {
    let q = if p.line.len() > 0 {
        newlined(p)
    } else {
        p
    };
    PageView {
        images: q.images.push(ImageView { src, alt, line: q.lines.len() as int, height }),
        lines: q.lines + blank_lines(height as nat),
        col: 0,
        ..q
    }
}

/// The list that is open last has given out its number.
#[verifier::opaque]
pub open spec fn counted(p: PageView) -> PageView {
    if p.lists.len() == 0 {
        p
    } else {
        PageView {
            lists: p.lists.update(
                p.lists.len() - 1,
                match p.lists.last() {
                    ListType::Unordered => ListType::Unordered,
                    ListType::Ordered(n) => ListType::Ordered(sum(n as int, 1) as usize),
                },
            ),
            ..p
        }
    }
}

impl<'a> RenderContext<'a> {
    pub fn new(width: usize, base_url: &str, conf: &'a Config) -> (r: Self)
        ensures
            r@ == empty_page(width as int, base_url@, conf@),
    {
        let r = RenderContext {
            lines: Vec::new(),
            current_line: String::new(),
            col: 0,
            width,
            links: Vec::new(),
            forms: Vec::new(),
            images: Vec::new(),
            indent: 0,
            in_pre: false,
            list_stack: Vec::new(),
            base_url: base_url.to_string(),
            conf,
        };
        assert(r@.lines =~= Seq::empty());
        assert(r@.line =~= Seq::empty());
        assert(r@.links =~= Seq::empty());
        assert(r@.forms =~= Seq::empty());
        assert(r@.images =~= Seq::empty());
        assert(r@.lists =~= Seq::empty());
        r
    }

    pub fn append(&mut self, text: &str)
        ensures
            final(self)@ == appended(old(self)@, text@),
    {
        reveal(appended);
        if self.current_line.as_str().is_empty() && self.indent > 0 {
            self.current_line = repeat_char(' ', self.indent);
            self.col = self.indent;
        }
        self.current_line.append(text);
        self.col = self.col.saturating_add(crust::display_width(text));
    }

    pub fn newline(&mut self)
        ensures
            final(self)@ == newlined(old(self)@),
    {
        reveal(newlined);
        let mut line = String::new();
        assert(line@ =~= Seq::empty());
        std::mem::swap(&mut self.current_line, &mut line);
        proof {
            lemma_views_push(self.lines@, line);
        }
        self.lines.push(line);
        self.col = 0;
    }

    pub fn ensure_blank_line(&mut self)
        ensures
            final(self)@ == blanked(old(self)@),
    {
        reveal(blanked);
        if !self.current_line.as_str().is_empty() {
            self.newline();
        }
        if self.lines.len() > 0 && !self.lines[self.lines.len() - 1].as_str().is_empty() {
            let line = String::new();
            assert(line@ =~= Seq::empty());
            proof {
                lemma_views_push(self.lines@, line);
            }
            self.lines.push(line);
        }
    }

    fn add_word(&mut self, word: &str)
        ensures
            final(self)@ == word_added(old(self)@, word@),
    {
        reveal(word_added);
        let wlen = crust::display_width(word);
        if (self.col >= self.width || wlen >= self.width - self.col) && self.col > self.indent {
            self.newline();
        }
        if self.col > self.indent {
            self.append(" ");
        }
        self.append(word);
    }

    pub fn word_wrap(&mut self, text: &str)
        ensures
            final(self)@ == wrapped(old(self)@, text@),
    {
        let w = words_chars(&chars_of(text));
        let ghost ws = chars2(w@);
        assert(ws.take(0) =~= Seq::empty());
        for i in 0..w.len()
            invariant
                ws == chars2(w@),
                self@ == words_added(old(self)@, ws.take(i as int)),
        {
            let word = string_of(&w[i]);
            let ghost t = ws.take(i + 1);
            assert(t.drop_last() =~= ws.take(i as int));
            assert(t.last() == word@);
            self.add_word(word.as_str());
        }
        assert(ws.take(w@.len() as int) =~= ws);
    }

    /// Registers a link and gives its number.
    pub fn push_link(&mut self, href: String, text: String) -> (r: usize)
        ensures
            final(self)@ == linked(old(self)@, href@, text@),
            r == old(self)@.links.len() + 1,
    {
        reveal(linked);
        let index: usize = self.links.len().saturating_add(1);
        let link = Link { index, href, text, line: self.lines.len() };
        proof {
            lemma_views_push(self.links@, link);
        }
        self.links.push(link);
        let n: usize = self.links.len();
        assert(index == n);
        index
    }

    pub fn push_form(&mut self, action: String, method: String)
        ensures
            final(self)@ == with_form(old(self)@, action@, method@),
    {
        reveal(with_form);
        let form = Form { action, method, fields: Vec::new(), line: self.lines.len() };
        assert(form@.fields =~= Seq::empty());
        proof {
            lemma_views_push(self.forms@, form);
        }
        self.forms.push(form);
    }

    pub fn push_field(&mut self, field: FormField)
        ensures
            final(self)@ == with_field(old(self)@, field@),
    {
        reveal(with_field);
        let ghost before = self@;
        match self.forms.pop() {
            Some(form) => {
                let mut form = form;
                proof {
                    lemma_views_push(form.fields@, field);
                }
                form.fields.push(field);
                self.forms.push(form);
                assert(self@.forms =~= with_field(before, field@).forms);
            },
            None => {
                assert(self@.forms =~= before.forms);
            },
        }
    }

    pub fn push_image(&mut self, src: String, alt: String, height: usize)
        ensures
            final(self)@ == with_image(old(self)@, src@, alt@, height as int),
    {
        reveal(with_image);
        if !self.current_line.as_str().is_empty() {
            self.newline();
        }
        let ghost q = self@;
        let image = ImageRef { src, alt, line: self.lines.len(), height };
        proof {
            lemma_views_push(self.images@, image);
        }
        self.images.push(image);
        assert(q.lines + blank_lines(0) =~= q.lines);
        for i in 0..height
            invariant
                self@ == (PageView {
                    images: q.images.push(image@),
                    lines: q.lines + blank_lines(i as nat),
                    ..q
                }),
        {
            let line = String::new();
            assert(line@ =~= Seq::empty());
            proof {
                lemma_views_push(self.lines@, line);
            }
            self.lines.push(line);
            assert(self@.lines =~= q.lines + blank_lines(i as nat + 1));
        }
        self.col = 0;
    }

    pub fn count_item(&mut self)
        ensures
            final(self)@ == counted(old(self)@),
    {
        reveal(counted);
        let n: usize = self.list_stack.len();
        if n > 0 {
            let next = match self.list_stack[n - 1] {
                ListType::Unordered => ListType::Unordered,
                ListType::Ordered(k) => ListType::Ordered(k.saturating_add(1)),
            };
            self.list_stack.set(n - 1, next);
        }
    }
}

} // verus!
