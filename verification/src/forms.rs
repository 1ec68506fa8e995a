//! Filling in and submitting forms.

use vstd::prelude::*;
use vstd::utf8::encode_utf8;
use crate::address::{encoded, is_query_char, law_encoded_chars, opt_text, urlencoding};
use crate::cookies::CookieViews;
use crate::js::{JsResult, JsResultView};
use crate::number::{decimal, ints, number, parse_number, parsed};
use crate::strmap::{lookup, put, StrMap};
use crate::tab::{pairs, views, FieldView, Form, FormField, FormView};
use crate::text::{
    chars_of, concat, concat3, contains, has_char, has_text, join, join_strings, law_split_joined, same, split, texts, trim,
    trimmed, uppercase_of,
};

verus! {

broadcast use vstd::string::group_string_axioms;

// --- What to ask for ---

/// How a field comes to its value: it has one, or the user is asked.
pub enum FieldPrompt {
    Fixed { value: String },
    Ask { label: String, initial: String },
}

pub enum PromptView {
    Fixed { value: Seq<char> },
    Ask { label: Seq<char>, initial: Seq<char> },
}

impl View for FieldPrompt {
    type V = PromptView;

    open spec fn view(&self) -> PromptView {
        match *self {
            FieldPrompt::Fixed { value } => PromptView::Fixed { value: value@ },
            FieldPrompt::Ask { label, initial } => PromptView::Ask {
                label: label@,
                initial: initial@,
            },
        }
    }
}

pub open spec fn or_seq(a: Option<Seq<char>>, b: Seq<char>) -> Seq<char> {
    match a {
        Some(s) => s,
        None => b,
    }
}

/// The value that a script gave to the field.
pub open spec fn script_value(f: FieldView, values: CookieViews) -> Option<Seq<char>> {
    if f.id.len() == 0 {
        None
    } else {
        lookup(values, f.id)
    }
}

/// Whether a field asks for a user name, by its own name.
pub open spec fn is_userish(name: Seq<char>) -> bool {
    has_text(name, "user"@) || has_text(name, "email"@) || has_text(name, "login"@)
}

pub open spec fn labels(options: Seq<(Seq<char>, Seq<char>)>) -> Seq<Seq<char>> {
    options.map_values(|o: (Seq<char>, Seq<char>)| o.1)
}

/// How a field comes to its value. What a script set goes before the stored credentials,
/// and these before what the page brought.
pub open spec fn prompt_for(
    f: FieldView,
    values: CookieViews,
    creds: Option<(Seq<char>, Seq<char>)>,
) -> PromptView {
    let js = script_value(f, values);
    if f.field_type == "hidden"@ {
        PromptView::Fixed { value: or_seq(js, f.value) }
    } else if f.field_type == "password"@ {
        PromptView::Ask {
            label: f.name + ": "@,
            initial: or_seq(
                js,
                match creds {
                    Some((_, p)) => p,
                    None => Seq::empty(),
                },
            ),
        }
    } else if f.field_type == "select"@ {
        PromptView::Ask {
            label: f.name + " ("@ + join(labels(f.options), "/"@) + "): "@,
            initial: or_seq(js, Seq::empty()),
        }
    } else {
        PromptView::Ask {
            label: f.placeholder + ": "@,
            initial: or_seq(
                js,
                match creds {
                    Some((u, _)) => if is_userish(f.name) {
                        u
                    } else {
                        f.value
                    },
                    None => f.value,
                },
            ),
        }
    }
}

fn join_labels(options: &Vec<(String, String)>) -> (r: String)
    ensures
        r@ == join(labels(pairs(options@)), "/"@),
{
    let mut out: Vec<String> = Vec::new();
    for i in 0..options.len()
        invariant
            out@.len() == i,
            forall|j: int| 0 <= j < i ==> (#[trigger] out@[j])@ == options@[j].1@,
    {
        out.push(options[i].1.clone());
    }
    assert(texts(out@) =~= labels(pairs(options@)));
    join_strings(&out, "/")
}

pub open spec fn creds_view(c: Option<(String, String)>) -> Option<(Seq<char>, Seq<char>)> {
    match c {
        Some((u, p)) => Some((u@, p@)),
        None => None,
    }
}

fn prompt_field(
    f: &FormField,
    values: &StrMap<String>,
    creds: &Option<(String, String)>,
) -> (r: FieldPrompt)
    ensures
        r@ == prompt_for(f@, values@, creds_view(*creds)),
{
    let js: Option<String> = if f.id.as_str().is_empty() {
        None
    } else {
        match values.get(f.id.as_str()) {
            Some(v) => Some(v.clone()),
            None => None,
        }
    };
    assert(opt_text(js) == script_value(f@, values@));
    let empty = String::new();
    assert(empty@ =~= Seq::empty());
    let kind = f.field_type.as_str();
    if same(kind, "hidden") {
        let value = match js {
            Some(v) => v,
            None => f.value.clone(),
        };
        FieldPrompt::Fixed { value }
    } else if same(kind, "password") {
        let initial = match js {
            Some(v) => v,
            None => match creds {
                Some((_, p)) => p.clone(),
                None => empty,
            },
        };
        FieldPrompt::Ask { label: concat(f.name.as_str(), ": "), initial }
    } else if same(kind, "select") {
        let mut label = concat3(f.name.as_str(), " (", join_labels(&f.options).as_str());
        label.append("): ");
        let initial = match js {
            Some(v) => v,
            None => empty,
        };
        FieldPrompt::Ask { label, initial }
    } else {
        let userish = contains(f.name.as_str(), "user") || contains(f.name.as_str(), "email")
            || contains(f.name.as_str(), "login");
        let initial = match js {
            Some(v) => v,
            None => match creds {
                Some((u, _)) => if userish {
                    u.clone()
                } else {
                    f.value.clone()
                },
                None => f.value.clone(),
            },
        };
        FieldPrompt::Ask { label: concat(f.placeholder.as_str(), ": "), initial }
    }
}

/// How the fields of a form come to their values. `values` are those that scripts set, by
/// element, and `creds` the user name and password for the site.
pub fn form_prompts(
    form: &Form,
    values: &StrMap<String>,
    creds: &Option<(String, String)>,
) -> (r: Vec<FieldPrompt>)
    ensures
        r@.len() == form.fields@.len(),
        forall|i: int|
            0 <= i < r@.len() ==> (#[trigger] r@[i])@ == prompt_for(
                form@.fields[i],
                values@,
                creds_view(*creds),
            ),
{
    let mut out: Vec<FieldPrompt> = Vec::new();
    for i in 0..form.fields.len()
        invariant
            out@.len() == i,
            forall|j: int|
                0 <= j < i ==> (#[trigger] out@[j])@ == prompt_for(
                    form@.fields[j],
                    values@,
                    creds_view(*creds),
                ),
    {
        assert(form@.fields[i as int] == form.fields@[i as int]@);
        out.push(prompt_field(&form.fields[i], values, creds));
    }
    out
}

/// A value that a script set goes before all others.
pub proof fn law_script_value_first(
    f: FieldView,
    values: CookieViews,
    creds: Option<(Seq<char>, Seq<char>)>,
)
    requires
        script_value(f, values) is Some,
    ensures
        match prompt_for(f, values, creds) {
            PromptView::Fixed { value } => Some(value) == script_value(f, values),
            PromptView::Ask { initial, .. } => Some(initial) == script_value(f, values),
        },
{
}

// --- What is sent ---

/// The values of the first `n` fields, by name.
pub open spec fn params_to(fields: Seq<FieldView>, values: Seq<Seq<char>>, n: int) -> CookieViews
    decreases n,
{
    if n <= 0 {
        Seq::empty()
    } else {
        put(params_to(fields, values, n - 1), fields[n - 1].name, values[n - 1])
    }
}

/// The parameters of a form whose fields have these values.
pub fn form_params(form: &Form, values: &Vec<String>) -> (r: StrMap<String>)
    requires
        values@.len() == form.fields@.len(),
    ensures
        r@ == params_to(form@.fields, views(values@), form@.fields.len() as int),
{
    let mut params: StrMap<String> = StrMap::new();
    let ghost vs = views(values@);
    for i in 0..form.fields.len()
        invariant
            vs == views(values@),
            values@.len() == form.fields@.len(),
            params@ == params_to(form@.fields, vs, i as int),
    {
        assert(form@.fields[i as int] == form.fields@[i as int]@);
        assert(vs[i as int] == values@[i as int]@);
        params.insert(form.fields[i].name.clone(), values[i].clone());
    }
    params
}

/// The parameters by the ids of the first `n` fields, where these have ids.
pub open spec fn by_id_to(fields: Seq<FieldView>, params: CookieViews, n: int) -> CookieViews
    decreases n,
{
    if n <= 0 {
        Seq::empty()
    } else {
        let before = by_id_to(fields, params, n - 1);
        let f = fields[n - 1];
        match lookup(params, f.name) {
            Some(v) => if f.id.len() > 0 {
                put(before, f.id, v)
            } else {
                before
            },
            None => before,
        }
    }
}

/// The values that scripts are to find in the elements of a form.
pub fn values_by_id(form: &Form, params: &StrMap<String>) -> (r: StrMap<String>)
    ensures
        r@ == by_id_to(form@.fields, params@, form@.fields.len() as int),
{
    let mut out: StrMap<String> = StrMap::new();
    for i in 0..form.fields.len()
        invariant
            out@ == by_id_to(form@.fields, params@, i as int),
    {
        let f = &form.fields[i];
        assert(form@.fields[i as int] == f@);
        if !f.id.as_str().is_empty() {
            if let Some(v) = params.get(f.name.as_str()) {
                out.insert(f.id.clone(), v.clone());
            }
        }
    }
    out
}

/// The parameters with the values that scripts gave to the elements of the first `n`
/// fields.
pub open spec fn synced_to(
    fields: Seq<FieldView>,
    params: CookieViews,
    values: CookieViews,
    n: int,
) -> CookieViews
    decreases n,
{
    if n <= 0 {
        params
    } else {
        let before = synced_to(fields, params, values, n - 1);
        match script_value(fields[n - 1], values) {
            Some(v) => put(before, fields[n - 1].name, v),
            None => before,
        }
    }
}

/// Takes over the values that scripts gave to the elements of a form.
pub fn sync_values(form: &Form, params: &mut StrMap<String>, values: &StrMap<String>)
    ensures
        final(params)@ == synced_to(
            form@.fields,
            old(params)@,
            values@,
            form@.fields.len() as int,
        ),
{
    for i in 0..form.fields.len()
        invariant
            params@ == synced_to(form@.fields, old(params)@, values@, i as int),
    {
        let f = &form.fields[i];
        assert(form@.fields[i as int] == f@);
        if !f.id.as_str().is_empty() {
            if let Some(v) = values.get(f.id.as_str()) {
                params.insert(f.name.clone(), v.clone());
            }
        }
    }
}

/// The parameters as a query.
pub open spec fn query_texts(params: CookieViews) -> Seq<Seq<char>> {
    params.map_values(|p: (Seq<char>, Seq<char>)| p.0 + "="@ + encoded(encode_utf8(p.1)))
}

pub open spec fn query(params: CookieViews) -> Seq<char> {
    join(query_texts(params), "&"@)
}

/// A query splits at `&` into one piece for each parameter, its name, `=` and its encoded
/// value, where no name holds an `&`: no value runs into the next parameter.
pub proof fn law_query_splits(params: CookieViews)
    requires
        params.len() > 0,
        forall|k: int| 0 <= k < params.len() ==> !(#[trigger] params[k]).0.contains('&'),
    ensures
        split(query(params), '&') == query_texts(params),
{
    let v = query_texts(params);
    reveal_strlit("&");
    reveal_strlit("=");
    assert("&"@ =~= seq!['&']);
    assert forall|k: int| 0 <= k < v.len() implies !(#[trigger] v[k]).contains('&') by {
        let name = params[k].0;
        let value = encoded(encode_utf8(params[k].1));
        law_encoded_chars(encode_utf8(params[k].1));
        let t = v[k];
        assert(t == name + "="@ + value);
        assert forall|i: int| 0 <= i < t.len() implies t[i] != '&' by {
            if i < name.len() {
                assert(t[i] == name[i]);
                assert(name.contains(name[i]));
            } else if i == name.len() {
                assert(t[i] == "="@[0]);
            } else {
                assert(t[i] == value[i - name.len() - 1]);
                assert(is_query_char(value[i - name.len() - 1]));
            }
        }
    }
    law_split_joined(v, '&');
}

fn write_query(params: &StrMap<String>) -> (r: String)
    ensures
        r@ == query(params@),
{
    let mut out: Vec<String> = Vec::new();
    let n: usize = params.len();
    for i in 0..n
        invariant
            n == params@.len(),
            out@.len() == i,
            forall|j: int|
                0 <= j < i ==> (#[trigger] out@[j])@ == params@[j].0 + "="@ + encoded(
                    encode_utf8(params@[j].1),
                ),
    {
        let value = urlencoding(params.value_at(i).as_str());
        out.push(concat3(params.key_at(i), "=", value.as_str()));
    }
    assert(texts(out@) =~= query_texts(params@));
    join_strings(&out, "&")
}

/// Whether a form is sent in the body of a request.
pub open spec fn is_post(method: Seq<char>) -> bool {
    uppercase_of(method) == "POST"@
}

/// The address that a form leads to. The parameters are part of it unless they are sent in
/// the body.
pub open spec fn target(action: Seq<char>, post: bool, params: CookieViews) -> Seq<char> {
    if post {
        action
    } else if action.contains('?') {
        action + "&"@ + query(params)
    } else {
        action + "?"@ + query(params)
    }
}

/// The submission of a form: where it leads, and whether the parameters are sent in the
/// body.
pub struct Submission {
    pub url: String,
    pub post: bool,
}

pub fn target_of(action: &str, post: bool, params: &StrMap<String>) -> (r: String)
    ensures
        r@ == target(action@, post, params@),
{
    if post {
        action.to_string()
    } else {
        let qs = write_query(params);
        if has_char(action, '?') {
            concat3(action, "&", qs.as_str())
        } else {
            concat3(action, "?", qs.as_str())
        }
    }
}

pub fn submit_form(form: &Form, params: &StrMap<String>) -> (r: Submission)
    ensures
        r.post == is_post(form@.method),
        r.url@ == target(form@.action, r.post, params@),
{
    let post = same(form.method.as_str().to_uppercase().as_str(), "POST");
    Submission { url: target_of(form.action.as_str(), post, params), post }
}

/// What becomes of a form that was filled in.
pub enum Filled {
    /// A script of the page refused it.
    Refused,
    /// It is sent with these parameters.
    Sent { submission: Submission, params: StrMap<String> },
}

/// The parameters after the page's scripts, where it has any, heard of the submit.
pub open spec fn heard_params(
    fields: Seq<FieldView>,
    params: CookieViews,
    js: Option<JsResultView>,
) -> CookieViews {
    match js {
        Some(r) => synced_to(fields, params, r.dom_values, fields.len() as int),
        None => params,
    }
}

pub open spec fn js_view(js: Option<&JsResult>) -> Option<JsResultView> {
    match js {
        Some(r) => Some(r@),
        None => None,
    }
}

/// What becomes of a form. A script that refuses the submit ends it; else the values that
/// scripts set are sent along.
pub fn fill_form(form: &Form, params: StrMap<String>, js: Option<&JsResult>) -> (r: Filled)
    ensures
        match r {
            Filled::Refused => js_view(js) matches Some(j) && j.submit_prevented,
            Filled::Sent { submission, params: sent } => {
                &&& js_view(js) matches Some(j) ==> !j.submit_prevented
                &&& sent@ == heard_params(form@.fields, params@, js_view(js))
                &&& submission.post == is_post(form@.method)
                &&& submission.url@ == target(form@.action, submission.post, sent@)
            },
        },
{
    let mut params = params;
    if let Some(j) = js {
        if j.submit_prevented {
            return Filled::Refused;
        }
        sync_values(form, &mut params, &j.dom_values);
    }
    let submission = submit_form(form, &params);
    Filled::Sent { submission, params }
}

// --- Fields in an editor ---

/// The positions of the first `n` fields that are not hidden.
pub open spec fn editable_to(fields: Seq<FieldView>, n: int) -> Seq<int>
    decreases n,
{
    if n <= 0 {
        Seq::empty()
    } else if fields[n - 1].field_type != "hidden"@ {
        editable_to(fields, n - 1).push(n - 1)
    } else {
        editable_to(fields, n - 1)
    }
}

pub fn editable_fields(form: &Form) -> (r: Vec<usize>)
    ensures
        ints(r@) == editable_to(form@.fields, form@.fields.len() as int),
        forall|k: int| 0 <= k < r@.len() ==> (#[trigger] r@[k]) < form.fields@.len(),
{
    let mut out: Vec<usize> = Vec::new();
    assert(ints(out@) =~= Seq::empty());
    for i in 0..form.fields.len()
        invariant
            ints(out@) == editable_to(form@.fields, i as int),
            forall|k: int| 0 <= k < out@.len() ==> (#[trigger] out@[k]) < form.fields@.len(),
    {
        assert(form@.fields[i as int] == form.fields@[i as int]@);
        if !same(form.fields[i].field_type.as_str(), "hidden") {
            let ghost before = ints(out@);
            out.push(i);
            assert(ints(out@) =~= before.push(i as int));
        }
    }
    out
}

/// The field that the user chose by its number among those that can be edited.
pub open spec fn chosen_field(editable: Seq<int>, answer: Seq<char>) -> Option<int> {
    match parsed(answer, usize::MAX as nat) {
        Some(n) => if 1 <= n <= editable.len() {
            Some(editable[n - 1])
        } else {
            None
        },
        None => None,
    }
}

pub fn choose_field(editable: &Vec<usize>, answer: &str) -> (r: Option<usize>)
    ensures
        match r {
            Some(i) => chosen_field(ints(editable@), answer@) == Some(i as int),
            None => chosen_field(ints(editable@), answer@) is None,
        },
{
    match parse_number(&chars_of(answer), usize::MAX) {
        Some(n) => if 1 <= n && n <= editable.len() {
            assert(ints(editable@)[n - 1] == editable@[n - 1]);
            Some(editable[n - 1])
        } else {
            None
        },
        None => None,
    }
}

/// The question for the field: the names of the fields with their numbers.
pub open spec fn field_names(fields: Seq<FieldView>, editable: Seq<int>) -> Seq<Seq<char>> {
    Seq::new(
        editable.len(),
        |k: int| decimal((k + 1) as nat) + ": "@ + fields[editable[k]].name,
    )
}

pub fn field_question(form: &Form, editable: &Vec<usize>) -> (r: String)
    requires
        forall|k: int| 0 <= k < editable@.len() ==> (#[trigger] editable@[k]) < form.fields@.len(),
    ensures
        r@ == "Field ("@ + join(field_names(form@.fields, ints(editable@)), ", "@) + ") #: "@,
{
    let mut names: Vec<String> = Vec::new();
    let n: usize = editable.len();
    for k in 0..n
        invariant
            n == editable@.len(),
            names@.len() == k,
            forall|j: int|
                0 <= j < editable@.len() ==> (#[trigger] editable@[j]) < form.fields@.len(),
            forall|j: int|
                0 <= j < k ==> (#[trigger] names@[j])@ == decimal((j + 1) as nat) + ": "@
                    + form@.fields[editable@[j] as int].name,
    {
        let i: usize = editable[k];
        assert(form@.fields[i as int] == form.fields@[i as int]@);
        names.push(concat3(number(k + 1).as_str(), ": ", form.fields[i].name.as_str()));
    }
    assert(texts(names@) =~= field_names(form@.fields, ints(editable@)));
    concat3("Field (", join_strings(&names, ", ").as_str(), ") #: ")
}

/// Gives a field the text that came from an editor.
pub fn set_field(form: &mut Form, i: usize, edited: &str)
    requires
        i < old(form).fields@.len(),
    ensures
        final(form)@ == (FormView {
            fields: old(form)@.fields.update(
                i as int,
                (FieldView { value: trim(edited@), ..old(form)@.fields[i as int] }),
            ),
            ..old(form)@
        }),
{
    let ghost before = form@;
    let value = trimmed(edited);
    let ghost text = value@;
    form.fields[i].value = value;
    assert(form@.fields =~= before.fields.update(
        i as int,
        FieldView { value: text, ..before.fields[i as int] },
    ));
}

/// Whether a form asks for a password.
pub open spec fn asks_password(fields: Seq<FieldView>) -> bool {
    exists|i: int| 0 <= i < fields.len() && (#[trigger] fields[i]).field_type == "password"@
}

pub open spec fn any_asks_password(forms: Seq<FormView>) -> bool {
    exists|i: int| 0 <= i < forms.len() && asks_password((#[trigger] forms[i]).fields)
}

/// Whether a page has a form that asks for a password.
pub fn has_password_form(forms: &Vec<Form>) -> (r: bool)
    ensures
        r == any_asks_password(views(forms@)),
{
    let ghost all = views(forms@);
    for i in 0..forms.len()
        invariant
            all == views(forms@),
            forall|k: int| 0 <= k < i ==> !asks_password((#[trigger] all[k]).fields),
    {
        let fields = &forms[i].fields;
        let ghost fs = views(fields@);
        assert(all[i as int].fields == fs);
        for j in 0..fields.len()
            invariant
                fs == views(fields@),
                all == views(forms@),
                i < forms@.len(),
                all[i as int].fields == fs,
                forall|k: int| 0 <= k < j ==> (#[trigger] fs[k]).field_type != "password"@,
        {
            assert(fs[j as int] == fields@[j as int]@);
            if same(fields[j].field_type.as_str(), "password") {
                assert(asks_password(all[i as int].fields));
                return true;
            }
        }
    }
    false
}

} // verus!
