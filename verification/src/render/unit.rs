use vstd::prelude::*;

use std::collections::HashMap;

verus! {

/// The variables a description is filled from, as names and values.
pub open spec fn int_vars_view(vars: Seq<(String, i32)>) -> Seq<(Seq<char>, i32)> {
    vars.map_values(|p: (String, i32)| (p.0@, p.1))
}

/// Whether the text holds no brace, so that it has no placeholder.
pub open spec fn no_braces(text: Seq<char>) -> bool {
    !text.contains('{') && !text.contains('}')
}

/// What `strfmt::strfmt` makes of a template and variables given in order,
/// a later variable of a name taking the place of an earlier one; `None`
/// where it reports an error.
pub uninterp spec fn formatted_text(template: Seq<char>, vars: Seq<(Seq<char>, i32)>) -> Option<Seq<char>>;

/// Fills the `{name}` placeholders of `template` with `strfmt::strfmt`, the
/// variables collected into a map in order. The result is named by
/// [`formatted_text`]; a template without braces comes back unchanged, as
/// the crate's scanner copies every other character to its output.
#[verifier::external_body]
fn strfmt_vars(template: &String, vars: &Vec<(String, i32)>) -> (res: Option<String>)
    ensures
        (res is Some) == (formatted_text(template@, int_vars_view(vars@)) is Some),
        res is Some ==> res->0@ == formatted_text(template@, int_vars_view(vars@))->0,
        no_braces(template@) ==> res is Some && res->0@ == template@,
{
    let map: HashMap<String, i32> = vars.iter().cloned().collect();
    strfmt::strfmt(template, &map).ok()
}

/// The text shown for a description: the formatted text, or the description
/// as written where formatting failed.
pub fn described(description: &String, formatted: Option<String>) -> (res: String)
    ensures
        res@ == match formatted {
            Some(s) => s@,
            None => description@,
        },
{
    match formatted {
        Some(s) => s,
        None => description.clone(),
    }
}

/// The description shown for a unit under the pointer: its `{name}`
/// placeholders filled from the variables, or the description as written
/// where that fails. A description without braces is shown as written.
pub fn hover_text(description: &String, vars: &Vec<(String, i32)>) -> (res: String)
    ensures
        res@ == match formatted_text(description@, int_vars_view(vars@)) {
            Some(s) => s,
            None => description@,
        },
        no_braces(description@) ==> res@ == description@,
{
    let formatted = strfmt_vars(description, vars);
    described(description, formatted)
}

} // verus!
