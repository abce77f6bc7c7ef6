use vstd::prelude::*;

use crate::error::BlogError;
use crate::json::{json_model, JsonData};

verus! {

/// The template engine's registry type.
#[verifier::external_type_specification]
#[verifier::external_body]
pub struct ExHandlebars<'reg>(handlebars::Handlebars<'reg>);

/// The template engine's registration error: a template whose source does
/// not compile.
#[verifier::external_type_specification]
#[verifier::external_body]
pub struct ExTemplateError(handlebars::TemplateError);

/// The templates a registry holds: each name mapped to the source text
/// registered under it.
pub uninterp spec fn hb_templates(h: handlebars::Handlebars<'static>) -> Map<Seq<char>, Seq<char>>;

/// Whether strict mode is on: a template referencing a variable the data
/// does not hold then fails instead of substituting an empty string.
pub uninterp spec fn hb_strict(h: handlebars::Handlebars<'static>) -> bool;

/// Whether the registry is otherwise as `Handlebars::new` built it — the
/// built-in helpers and settings untouched — so that rendering depends on
/// nothing but the registered templates, the strict flag, the template
/// name and the data.
pub uninterp spec fn hb_plain(h: handlebars::Handlebars<'static>) -> bool;

/// What strict rendering on an otherwise untouched registry returns: a
/// function of the registered template sources, the template name and the
/// data's shape; `None` when rendering fails.
pub uninterp spec fn hb_render_of(
    templates: Map<Seq<char>, Seq<char>>,
    name: Seq<char>,
    data: JsonData,
) -> Option<Seq<char>>;

/// Whether the template engine compiles a template source: with the
/// engine's settings as `Handlebars::new` leaves them, compilation is a
/// function of the source text alone.
pub uninterp spec fn hb_compiles(source: Seq<char>) -> bool;

/// A registry map with nothing in it.
pub open spec fn empty_templates() -> Map<Seq<char>, Seq<char>> {
    Map::<Seq<char>, Seq<char>>::empty()
}

/// Relies on Handlebars::new: a fresh registry with no templates
/// registered and strict mode off.
#[verifier::external_body]
pub(crate) fn hb_new() -> (r: handlebars::Handlebars<'static>)
    ensures
        hb_templates(r) == empty_templates(),
        hb_strict(r) == false,
        hb_plain(r) == true,
{
    handlebars::Handlebars::new()
}

/// Relies on Handlebars::set_strict_mode: it sets the flag and touches
/// nothing else.
#[verifier::external_body]
pub(crate) fn hb_set_strict_mode(h: &mut handlebars::Handlebars<'static>, enabled: bool)
    ensures
        hb_templates(*final(h)) == hb_templates(*old(h)),
        hb_strict(*final(h)) == enabled,
        hb_plain(*final(h)) == hb_plain(*old(h)),
{
    h.set_strict_mode(enabled)
}

/// Relies on Handlebars::register_template_string: it succeeds exactly when
/// the source compiles — on an untouched registry, a function of the source
/// text alone — and then stores the template under the name, replacing any
/// previous one; on a syntax error the registry is left unchanged.
#[verifier::external_body]
pub(crate) fn hb_register_template_string(
    h: &mut handlebars::Handlebars<'static>,
    name: &str,
    source: &str,
) -> (r: Result<(), handlebars::TemplateError>)
    ensures
        hb_plain(*old(h)) ==> (r is Ok) == hb_compiles(source@),
        r is Ok ==> hb_templates(*final(h)) == hb_templates(*old(h)).insert(name@, source@),
        r is Err ==> hb_templates(*final(h)) == hb_templates(*old(h)),
        hb_strict(*final(h)) == hb_strict(*old(h)),
        hb_plain(*final(h)) == hb_plain(*old(h)),
{
    h.register_template_string(name, source)
}

/// Relies on Handlebars::render with a JSON value as data, and on
/// RenderErrorReason to tell failures apart.  On a registry as this
/// library builds it — built-ins untouched, strict mode on — whether
/// rendering succeeds, and the text it yields, are a function of the
/// registered template sources, the template name and the data's shape.  A
/// name with nothing registered under it fails as template-not-found, and
/// that is the only place the engine raises that reason: a partial missing
/// from inside a template fails differently.  One limit no contract can
/// state: templates whose partial references form a cycle make the engine
/// recurse until the stack runs out, which verification does not exclude.
#[verifier::external_body]
pub(crate) fn hb_render(
    h: &handlebars::Handlebars<'static>,
    name: &str,
    data: &serde_json::Value,
) -> (r: Result<String, BlogError>)
    ensures
        hb_plain(*h) && hb_strict(*h) && json_model(*data) is Some && r is Ok ==> hb_render_of(
            hb_templates(*h),
            name@,
            json_model(*data)->Some_0,
        ) == Some(r->Ok_0@),
        hb_plain(*h) && hb_strict(*h) && json_model(*data) is Some ==> (r is Ok) == (hb_render_of(
            hb_templates(*h),
            name@,
            json_model(*data)->Some_0,
        ) is Some),
        r is Err ==> (r->Err_0 == BlogError::TemplateNotFound || r->Err_0
            == BlogError::UndefinedTemplateVariable || r->Err_0 == BlogError::RenderFailed),
        hb_plain(*h) && !hb_templates(*h).contains_key(name@) ==> r is Err && r->Err_0
            == BlogError::TemplateNotFound,
        hb_plain(*h) && hb_templates(*h).contains_key(name@) && r is Err ==> r->Err_0
            != BlogError::TemplateNotFound,
{
    match h.render(name, data) {
        Ok(s) => Ok(s),
        Err(e) => match e.reason() {
            handlebars::RenderErrorReason::TemplateNotFound(_) => Err(BlogError::TemplateNotFound),
            handlebars::RenderErrorReason::MissingVariable(_) => Err(
                BlogError::UndefinedTemplateVariable,
            ),
            _ => Err(BlogError::RenderFailed),
        },
    }
}

} // verus!
