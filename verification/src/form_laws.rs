//! What holds of every form that is filled in and sent.

use vstd::prelude::*;
use vstd::utf8::encode_utf8;
use crate::address::encoded;
use crate::cookies::CookieViews;
use crate::forms::{
    any_asks_password, asks_password, by_id_to, chosen_field, editable_to, field_names,
    heard_params, is_post, labels, params_to, prompt_for, query, query_texts, script_value,
    synced_to, target, PromptView,
};
use crate::js::JsResultView;
use crate::number::{decimal, law_decimal_parses};
use crate::page_laws::lemma_joined_part;
use crate::render_laws::{has_part, lemma_part_in, lemma_part_of_part};
use crate::strmap::{law_put_lookup, lookup};
use crate::tab::{FieldView, FormView};
use crate::text::{has_text, join, lemma_find_text, stands_at, uppercase_of};

verus! {

broadcast use vstd::string::group_string_axioms;

// --- Questions ---

proof fn lemma_types()
    ensures
        "hidden"@ != "password"@ && "hidden"@ != "select"@ && "password"@ != "select"@,
{
    reveal_strlit("hidden");
    reveal_strlit("password");
    reveal_strlit("select");
    assert("hidden"@.len() == 6 && "password"@.len() == 8 && "select"@.len() == 6);
    assert("hidden"@[0] == 'h' && "select"@[0] == 's');
}

pub proof fn lemma_has_text(s: Seq<char>, t: Seq<char>)
    ensures
        has_text(s, t) <==> has_part(s, t),
{
    lemma_find_text(s, t, 0);
    if has_part(s, t) {
        let i = choose|i: int| stands_at(s, t, i);
        assert(stands_at(s, t, i));
    }
}

/// A hidden field is not asked for and keeps its value, unless a script set another.
pub proof fn law_hidden_field(
    f: FieldView,
    values: CookieViews,
    creds: Option<(Seq<char>, Seq<char>)>,
)
    requires
        f.field_type == "hidden"@,
    ensures
        f.id.len() > 0 ==> (lookup(values, f.id) matches Some(v) ==> prompt_for(f, values, creds)
            == (PromptView::Fixed { value: v })),
        f.id.len() == 0 || lookup(values, f.id) is None ==> prompt_for(f, values, creds) == (
        PromptView::Fixed { value: f.value }),
{
}

/// An ordinary field is asked for under its placeholder, and the answer begins with what
/// the page brought; with the stored user name where the field asks for one and one is
/// stored; with what a script set where one did.
pub proof fn law_field_asked(
    f: FieldView,
    values: CookieViews,
    creds: Option<(Seq<char>, Seq<char>)>,
)
    requires
        f.field_type != "hidden"@,
        f.field_type != "password"@,
        f.field_type != "select"@,
    ensures
        ({
            let p = prompt_for(f, values, creds);
            let scripted = f.id.len() > 0 && lookup(values, f.id) is Some;
            let userish = has_part(f.name, "user"@) || has_part(f.name, "email"@) || has_part(
                f.name,
                "login"@,
            );
            &&& p is Ask
            &&& p->label == f.placeholder + ": "@
            &&& scripted ==> Some(p->initial) == lookup(values, f.id)
            &&& !scripted && (creds is None || !userish) ==> p->initial == f.value
            &&& !scripted && userish ==> (creds matches Some(c) ==> p->initial == c.0)
        }),
{
    lemma_has_text(f.name, "user"@);
    lemma_has_text(f.name, "email"@);
    lemma_has_text(f.name, "login"@);
}

/// A password is asked for under the field's name, and the answer begins with the stored
/// one, or with what a script set; a password that the page brought is not shown.
pub proof fn law_password_asked(
    f: FieldView,
    values: CookieViews,
    creds: Option<(Seq<char>, Seq<char>)>,
)
    requires
        f.field_type == "password"@,
    ensures
        ({
            let p = prompt_for(f, values, creds);
            let scripted = f.id.len() > 0 && lookup(values, f.id) is Some;
            &&& p is Ask
            &&& p->label == f.name + ": "@
            &&& scripted ==> Some(p->initial) == lookup(values, f.id)
            &&& !scripted ==> (creds matches Some(c) ==> p->initial == c.1)
            &&& !scripted && creds is None ==> p->initial.len() == 0
        }),
{
    lemma_types();
}

/// A list is asked for under its name with the labels of its options, all of them.
pub proof fn law_select_asked(
    f: FieldView,
    values: CookieViews,
    creds: Option<(Seq<char>, Seq<char>)>,
    k: int,
)
    requires
        f.field_type == "select"@,
        0 <= k < f.options.len(),
    ensures
        ({
            let p = prompt_for(f, values, creds);
            let scripted = f.id.len() > 0 && lookup(values, f.id) is Some;
            &&& p is Ask
            &&& has_part(p->label, f.name)
            &&& has_part(p->label, f.options[k].1)
            &&& scripted ==> Some(p->initial) == lookup(values, f.id)
            &&& !scripted ==> p->initial.len() == 0
        }),
{
    lemma_types();
    let all = labels(f.options);
    assert(all[k] == f.options[k].1);
    lemma_joined_part(all, "/"@, k);
    let j = join(all, "/"@);
    let label = f.name + " ("@ + j + "): "@;
    lemma_part_in(f.name + " ("@, j, "): "@);
    lemma_part_of_part(label, j, all[k]);
    lemma_part_in(Seq::empty(), f.name, " ("@ + j + "): "@);
    assert(Seq::<char>::empty() + f.name + (" ("@ + j + "): "@) =~= label);
}

// --- Parameters ---

/// Each field is sent under its name with its value; of two with one name it is the last.
pub proof fn law_field_sent(fields: Seq<FieldView>, values: Seq<Seq<char>>, n: int, k: int)
    requires
        0 <= k < n <= fields.len(),
        n <= values.len(),
        forall|j: int| k < j < n ==> (#[trigger] fields[j]).name != fields[k].name,
    ensures
        lookup(params_to(fields, values, n), fields[k].name) == Some(values[k]),
    decreases n,
{
    law_put_lookup(
        params_to(fields, values, n - 1),
        fields[n - 1].name,
        values[n - 1],
        fields[k].name,
    );
    if k < n - 1 {
        law_field_sent(fields, values, n - 1, k);
    }
}

/// Nothing is sent but the fields of the form.
pub proof fn law_only_fields_sent(
    fields: Seq<FieldView>,
    values: Seq<Seq<char>>,
    n: int,
    name: Seq<char>,
)
    requires
        0 <= n <= fields.len(),
        n <= values.len(),
        forall|j: int| 0 <= j < n ==> (#[trigger] fields[j]).name != name,
    ensures
        lookup(params_to(fields, values, n), name) is None,
    decreases n,
{
    if n > 0 {
        law_only_fields_sent(fields, values, n - 1, name);
        law_put_lookup(
            params_to(fields, values, n - 1),
            fields[n - 1].name,
            values[n - 1],
            name,
        );
    }
}

/// Scripts find what the user typed for a field in the element with the field's id.
pub proof fn law_typed_by_id(fields: Seq<FieldView>, params: CookieViews, n: int, k: int)
    requires
        0 <= k < n <= fields.len(),
        fields[k].id.len() > 0,
        lookup(params, fields[k].name) is Some,
        forall|j: int| k < j < n ==> (#[trigger] fields[j]).id != fields[k].id,
    ensures
        lookup(by_id_to(fields, params, n), fields[k].id) == lookup(params, fields[k].name),
    decreases n,
{
    let f = fields[n - 1];
    let before = by_id_to(fields, params, n - 1);
    if let Some(v) = lookup(params, f.name) {
        law_put_lookup(before, f.id, v, fields[k].id);
    }
    if k < n - 1 {
        law_typed_by_id(fields, params, n - 1, k);
    }
}

/// A value that a script gave to a field's element while the submit was heard is the one
/// that is sent.
pub proof fn law_script_value_sent(
    fields: Seq<FieldView>,
    params: CookieViews,
    js: JsResultView,
    n: int,
    k: int,
)
    requires
        0 <= k < n <= fields.len(),
        fields[k].id.len() > 0,
        lookup(js.dom_values, fields[k].id) is Some,
        forall|j: int| k < j < n ==> (#[trigger] fields[j]).name != fields[k].name,
    ensures
        lookup(synced_to(fields, params, js.dom_values, n), fields[k].name) == lookup(
            js.dom_values,
            fields[k].id,
        ),
        n == fields.len() ==> heard_params(fields, params, Some(js)) == synced_to(
            fields,
            params,
            js.dom_values,
            n,
        ),
    decreases n,
{
    let f = fields[n - 1];
    let before = synced_to(fields, params, js.dom_values, n - 1);
    if let Some(v) = script_value(f, js.dom_values) {
        law_put_lookup(before, f.name, v, fields[k].name);
    }
    if k < n - 1 {
        law_script_value_sent(fields, params, js, n - 1, k);
    }
}

/// Where scripts set no value of a form, what the user typed is sent.
pub proof fn law_typed_value_sent(
    fields: Seq<FieldView>,
    params: CookieViews,
    values: CookieViews,
    n: int,
    name: Seq<char>,
)
    requires
        0 <= n <= fields.len(),
        forall|j: int|
            0 <= j < n && (#[trigger] fields[j]).name == name ==> fields[j].id.len() == 0
                || lookup(values, fields[j].id) is None,
    ensures
        lookup(synced_to(fields, params, values, n), name) == lookup(params, name),
        heard_params(fields, params, None) == params,
    decreases n,
{
    if n > 0 {
        let f = fields[n - 1];
        law_typed_value_sent(fields, params, values, n - 1, name);
        if let Some(v) = script_value(f, values) {
            law_put_lookup(synced_to(fields, params, values, n - 1), f.name, v, name);
        }
    }
}

/// A form is posted to its address where its method says so; else its address is asked for
/// with a query behind it, in which each parameter stands as name and encoded value.
pub proof fn law_submission(action: Seq<char>, method: Seq<char>, params: CookieViews, k: int)
    requires
        0 <= k < params.len(),
    ensures
        ({
            let post = is_post(method);
            let url = target(action, post, params);
            let piece = params[k].0 + "="@ + encoded(encode_utf8(params[k].1));
            &&& post <==> uppercase_of(method) == "POST"@
            &&& post ==> url == action
            &&& !post && !action.contains('?') ==> url.len() > action.len() && url.take(
                action.len() as int,
            ) == action && url[action.len() as int] == '?'
            &&& !post && action.contains('?') ==> url.len() > action.len() && url.take(
                action.len() as int,
            ) == action && url[action.len() as int] == '&'
            &&& !post ==> has_part(url.skip(action.len() as int), piece)
        }),
{
    reveal_strlit("?");
    reveal_strlit("&");
    let post = is_post(method);
    let url = target(action, post, params);
    let all = query_texts(params);
    let q = query(params);
    let piece = params[k].0 + "="@ + encoded(encode_utf8(params[k].1));
    assert(all[k] == piece);
    lemma_joined_part(all, "&"@, k);
    if !post {
        assert(url.take(action.len() as int) =~= action);
        let rest = url.skip(action.len() as int);
        assert(rest.skip(1) =~= q);
        lemma_part_in(seq![rest[0]], q, Seq::empty());
        assert(seq![rest[0]] + q + Seq::<char>::empty() =~= rest);
        lemma_part_of_part(rest, q, piece);
    }
}

// --- Fields in an editor ---

/// The fields that can be edited are those that are not hidden, in their order.
pub proof fn law_editable(fields: Seq<FieldView>, n: int, i: int)
    requires
        0 <= n <= fields.len(),
    ensures
        editable_to(fields, n).contains(i) <==> 0 <= i < n && fields[i].field_type != "hidden"@,
        forall|a: int, b: int|
            0 <= a < b < editable_to(fields, n).len() ==> (#[trigger] editable_to(fields, n)[a])
                < (#[trigger] editable_to(fields, n)[b]),
        forall|a: int|
            0 <= a < editable_to(fields, n).len() ==> (#[trigger] editable_to(fields, n)[a]) < n,
    decreases n,
{
    if n > 0 {
        law_editable(fields, n - 1, i);
        let before = editable_to(fields, n - 1);
        let all = editable_to(fields, n);
        if fields[n - 1].field_type != "hidden"@ {
            assert(all == before.push(n - 1));
            if i == n - 1 {
                assert(all[all.len() - 1] == i);
            } else if before.contains(i) {
                let k = choose|k: int| 0 <= k < before.len() && before[k] == i;
                assert(all[k] == i);
            } else if all.contains(i) {
                let k = choose|k: int| 0 <= k < all.len() && all[k] == i;
                assert(before[k] == i);
            }
        }
    }
}

/// The user chooses a field by its number, counted from one.
pub proof fn law_field_chosen(editable: Seq<int>, k: int)
    requires
        0 <= k < editable.len() < usize::MAX,
    ensures
        chosen_field(editable, decimal((k + 1) as nat)) == Some(editable[k]),
{
    law_decimal_parses((k + 1) as nat, usize::MAX as nat);
}

/// A form asks for a password where one of its fields is of that type, and a page where one
/// of its forms does.
pub proof fn law_password_form(forms: Seq<FormView>, f: int, k: int)
    requires
        0 <= f < forms.len(),
        0 <= k < forms[f].fields.len(),
    ensures
        forms[f].fields[k].field_type == "password"@ ==> asks_password(forms[f].fields),
        forms[f].fields[k].field_type == "password"@ ==> any_asks_password(forms),
        (forall|g: int, j: int|
            0 <= g < forms.len() && 0 <= j < forms[g].fields.len() ==> (
            #[trigger] forms[g].fields[j]).field_type != "password"@) ==> !any_asks_password(forms),
{
    if forms[f].fields[k].field_type == "password"@ {
        assert(asks_password(forms[f].fields));
    }
    if any_asks_password(forms) {
        let g = choose|g: int| 0 <= g < forms.len() && asks_password((#[trigger] forms[g]).fields);
        let fields = forms[g].fields;
        let j = choose|j: int|
            0 <= j < fields.len() && (#[trigger] fields[j]).field_type == "password"@;
        assert(forms[g].fields[j].field_type == "password"@);
    }
}

/// The fields to choose from are numbered from one and called by their names.
pub proof fn law_fields_listed(fields: Seq<FieldView>, editable: Seq<int>, k: int)
    requires
        0 <= k < editable.len(),
    ensures
        field_names(fields, editable).len() == editable.len(),
        field_names(fields, editable)[k] == decimal((k + 1) as nat) + ": "@
            + fields[editable[k]].name,
{
}

} // verus!
