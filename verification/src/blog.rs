use vstd::prelude::*;

use crate::error::{BlogError, LoadError};
use crate::json::{json_array, json_model, json_object, json_string, obj_map_of, JsonData};
use crate::loader::{entries_ok, load_posts, models_of, pipeline_models, sort_spec};
use crate::post::{Post, PostModel};
use crate::template::{
    empty_templates, hb_compiles, hb_new, hb_plain, hb_register_template_string, hb_render,
    hb_render_of, hb_set_strict_mode, hb_strict, hb_templates,
};

verus! {

/// The title the index page is rendered under.
pub open spec fn site_title() -> Seq<char> {
    "The Rust Programming Language Blog"@
}

/// The JSON shape of one post: an object with every field as a string.
pub open spec fn post_json(p: PostModel) -> JsonData {
    JsonData::Obj(
        Map::<Seq<char>, JsonData>::empty().insert("filename"@, JsonData::Str(p.filename)).insert(
            "title"@,
            JsonData::Str(p.title),
        ).insert("author"@, JsonData::Str(p.author)).insert("year"@, JsonData::Str(p.year)).insert(
            "month"@,
            JsonData::Str(p.month),
        ).insert("day"@, JsonData::Str(p.day)).insert("contents"@, JsonData::Str(p.contents))
            .insert("url"@, JsonData::Str(p.url)),
    )
}

/// The index page's data: the site title, the layout template as parent,
/// and every post in order.
pub open spec fn index_context(posts: Seq<PostModel>) -> JsonData {
    JsonData::Obj(
        Map::<Seq<char>, JsonData>::empty().insert("title"@, JsonData::Str(site_title())).insert(
            "parent"@,
            JsonData::Str("layout"@),
        ).insert("posts"@, JsonData::Arr(posts.map_values(|p: PostModel| post_json(p)))),
    )
}

/// Whether every template source in the list compiles.
pub open spec fn templates_ok(ts: Seq<(String, String)>) -> bool {
    forall|i: int| 0 <= i < ts.len() ==> hb_compiles(#[trigger] ts[i].1@)
}

/// The registry map a list of named template sources builds, registered in
/// order.
pub open spec fn templates_map(ts: Seq<(String, String)>) -> Map<Seq<char>, Seq<char>>
    decreases ts.len(),
{
    if ts.len() == 0 {
        empty_templates()
    } else {
        templates_map(ts.drop_last()).insert(ts.last().0@, ts.last().1@)
    }
}

/// What rendering a blog's index page yields, as a function of its
/// registered templates and its posts alone.
pub open spec fn index_render(templates: Map<Seq<char>, Seq<char>>, posts: Seq<PostModel>) -> Option<
    Seq<char>,
> {
    hb_render_of(templates, "index"@, index_context(posts))
}

/// The whole site: a strict template registry and the ordered posts.  Built
/// once per generation run; the posts never change after loading.
pub struct Blog {
    registry: handlebars::Handlebars<'static>,
    posts: Vec<Post>,
}

/// Push one string field onto a JSON object under construction.
fn push_string_field(fields: &mut Vec<(String, serde_json::Value)>, key: &str, value: &String)
    ensures
        obj_map_of(final(fields)@) == obj_map_of(old(fields)@).insert(
            key@,
            JsonData::Str(value@),
        ),
        final(fields)@.len() == old(fields)@.len() + 1,
        forall|i: int|
            0 <= i < old(fields)@.len() ==> #[trigger] final(fields)@[i] == old(fields)@[i],
        forall|i: int|
            0 <= i < final(fields)@.len() ==> (#[trigger] json_model(final(fields)@[i].1)) is Some
                || exists|j: int|
                0 <= j < old(fields)@.len() && final(fields)@[i] == #[trigger] old(fields)@[j],
{
    let v = json_string(value.clone());
    fields.push((String::from_str(key), v));
    proof {
        assert(fields@.drop_last() =~= old(fields)@);
    }
}

impl Blog {
    /// The blog's registry is strict and otherwise untouched.
    pub closed spec fn wf(self) -> bool {
        hb_strict(self.registry) && hb_plain(self.registry)
    }

    /// The registered templates: name to source.
    pub closed spec fn templates(self) -> Map<Seq<char>, Seq<char>> {
        hb_templates(self.registry)
    }

    /// The models of the loaded posts, in their held order.
    pub closed spec fn post_models(self) -> Seq<PostModel> {
        models_of(self.posts@)
    }

    /// Set up a blog: register every named template source, in order and
    /// fail-fast, with strict rendering on, then load and order the posts
    /// from the content entries — each an identifier and the item's raw
    /// text.  The stages are strictly ordered: every template is registered
    /// before any content is loaded, so a rejected template wins over a bad
    /// content item.  Setup succeeds exactly when every template compiles
    /// and the pipeline accepts every entry; any failure aborts the run
    /// with the offending item's name.
    pub fn new(templates: Vec<(String, String)>, entries: Vec<(String, String)>) -> (r: Result<
        Blog,
        LoadError,
    >)
        ensures
            (r is Ok) == (templates_ok(templates@) && entries_ok(entries@)),
            r matches Ok(b) ==> b.wf() && b.templates() == templates_map(templates@)
                && b.post_models() == sort_spec(pipeline_models(entries@)),
            !templates_ok(templates@) ==> (r matches Err(le) ==> le.kind
                == BlogError::InvalidTemplate && exists|i: int|
                0 <= i < templates@.len() && !(#[trigger] hb_compiles(templates@[i].1@))
                    && le.item@ == templates@[i].0@ && (forall|j: int|
                    0 <= j < i ==> hb_compiles(#[trigger] templates@[j].1@))),
            templates_ok(templates@) ==> (r matches Err(le) ==> le.kind
                != BlogError::InvalidTemplate && !entries_ok(entries@) && exists|i: int|
                0 <= i < entries@.len() && ((#[trigger] crate::post::post_of(
                    entries@[i].0@,
                    entries@[i].1@,
                )) matches Err(e) && le.kind == e) && le.item@ == entries@[i].0@ && (forall|j: int|
                    0 <= j < i ==> crate::post::post_of(entries@[j].0@, entries@[j].1@) is Ok)),
    {
        let mut registry = hb_new();
        hb_set_strict_mode(&mut registry, true);
        let n: usize = templates.len();
        let mut k: usize = 0;
        proof {
            assert(templates@.take(0) =~= Seq::<(String, String)>::empty());
        }
        while k < n
            invariant
                k <= n,
                n == templates@.len(),
                hb_strict(registry),
                hb_plain(registry),
                hb_templates(registry) == templates_map(templates@.take(k as int)),
                forall|j: int| 0 <= j < k ==> hb_compiles(#[trigger] templates@[j].1@),
            decreases n - k,
        {
            let t = &templates[k];
            match hb_register_template_string(&mut registry, t.0.as_str(), t.1.as_str()) {
                Ok(_) => {
                    proof {
                        assert(templates@.take(k + 1).drop_last() =~= templates@.take(k as int));
                        assert(templates@.take(k + 1).last() == templates@[k as int]);
                    }
                },
                Err(_) => {
                    return Err(LoadError { item: t.0.clone(), kind: BlogError::InvalidTemplate });
                },
            }
            k += 1;
        }
        proof {
            assert(templates@.take(n as int) =~= templates@);
        }
        let posts = match load_posts(&entries) {
            Ok(posts) => posts,
            Err(le) => {
                proof {
                    let i = choose|i: int|
                        0 <= i < entries@.len() && ((#[trigger] crate::post::post_of(
                            entries@[i].0@,
                            entries@[i].1@,
                        )) matches Err(e) && le.kind == e) && le.item@ == entries@[i].0@ && (
                        forall|j: int|
                            0 <= j < i ==> crate::post::post_of(
                                entries@[j].0@,
                                entries@[j].1@,
                            ) is Ok);
                    crate::post::lemma_post_of_err_kinds(entries@[i].0@, entries@[i].1@);
                }
                return Err(le);
            },
        };
        Ok(Blog { registry, posts })
    }

    /// Render one registered template against the given data.
    fn render_template(&self, template: &str, data: &serde_json::Value) -> (r: Result<
        String,
        BlogError,
    >)
        requires
            self.wf(),
            json_model(*data) is Some,
        ensures
            r matches Ok(s) ==> hb_render_of(self.templates(), template@, json_model(*data)->Some_0)
                == Some(s@),
            r is Err ==> hb_render_of(
                self.templates(),
                template@,
                json_model(*data)->Some_0,
            ) is None,
            r matches Err(e) ==> (e == BlogError::TemplateNotFound || e
                == BlogError::UndefinedTemplateVariable || e == BlogError::RenderFailed),
            !self.templates().contains_key(template@) ==> (r matches Err(e) ==> e
                == BlogError::TemplateNotFound),
            self.templates().contains_key(template@) ==> (r matches Err(e) ==> e
                != BlogError::TemplateNotFound),
    {
        hb_render(&self.registry, template, data)
    }

    /// The JSON object for one post, shaped as `post_json` describes.
    fn post_value(p: &Post) -> (r: serde_json::Value)
        ensures
            json_model(r) == Some(post_json(p@)),
    {
        let mut fields: Vec<(String, serde_json::Value)> = Vec::new();
        proof {
            assert(fields@ =~= Seq::<(String, serde_json::Value)>::empty());
        }
        push_string_field(&mut fields, "filename", &p.filename);
        push_string_field(&mut fields, "title", &p.title);
        push_string_field(&mut fields, "author", &p.author);
        push_string_field(&mut fields, "year", &p.year);
        push_string_field(&mut fields, "month", &p.month);
        push_string_field(&mut fields, "day", &p.day);
        push_string_field(&mut fields, "contents", &p.contents);
        push_string_field(&mut fields, "url", &p.url);
        json_object(fields)
    }

    /// Render the index page: bind the site title, the `layout` parent and
    /// the full ordered post collection to the `index` template, and return
    /// the output name `index.html` with the rendered text.  With equal
    /// templates and posts the text is equal too, so a second run over
    /// unchanged input yields byte-identical output.  On failure nothing is
    /// returned, so no partial file can be written from it;
    /// template-not-found is reported exactly when no `index` template is
    /// registered, and — since the registry is strict — a template variable
    /// missing from the data reports an undefined template variable.
    pub fn render_index(&self) -> (r: Result<(String, String), BlogError>)
        requires
            self.wf(),
        ensures
            r matches Ok(out) ==> out.0@ == "index.html"@ && index_render(
                self.templates(),
                self.post_models(),
            ) == Some(out.1@),
            r is Err ==> index_render(self.templates(), self.post_models()) is None,
            r matches Err(e) ==> (e == BlogError::TemplateNotFound || e
                == BlogError::UndefinedTemplateVariable || e == BlogError::RenderFailed),
            !self.templates().contains_key("index"@) ==> (r matches Err(e) ==> e
                == BlogError::TemplateNotFound),
            self.templates().contains_key("index"@) ==> (r matches Err(e) ==> e
                != BlogError::TemplateNotFound),
    {
        let n: usize = self.posts.len();
        let mut items: Vec<serde_json::Value> = Vec::new();
        let mut k: usize = 0;
        while k < n
            invariant
                k <= n,
                n == self.posts@.len(),
                items@.len() == k,
                forall|i: int|
                    0 <= i < k ==> #[trigger] json_model(items@[i]) == Some(
                        post_json(self.posts@[i]@),
                    ),
            decreases n - k,
        {
            let ghost prev = items@;
            let v = Self::post_value(&self.posts[k]);
            items.push(v);
            proof {
                assert forall|i: int| 0 <= i <= k implies #[trigger] json_model(items@[i]) == Some(
                    post_json(self.posts@[i]@),
                ) by {
                    if i < k {
                        assert(items@[i] == prev[i]);
                    }
                }
            }
            k += 1;
        }
        proof {
            assert(items@.map_values(|v: serde_json::Value| json_model(v)->Some_0) =~= self.post_models().map_values(
                |p: PostModel| post_json(p),
            ));
        }
        let posts_value = json_array(items);
        let mut fields: Vec<(String, serde_json::Value)> = Vec::new();
        proof {
            assert(fields@ =~= Seq::<(String, serde_json::Value)>::empty());
        }
        push_string_field(&mut fields, "title", &String::from_str("The Rust Programming Language Blog"));
        push_string_field(&mut fields, "parent", &String::from_str("layout"));
        let ghost before_posts = fields@;
        fields.push((String::from_str("posts"), posts_value));
        proof {
            assert(fields@.drop_last() =~= before_posts);
        }
        let data = json_object(fields);
        proof {
            assert(json_model(data) == Some(index_context(self.post_models())));
        }
        match self.render_template("index", &data) {
            Ok(html) => Ok((String::from_str("index.html"), html)),
            Err(e) => Err(e),
        }
    }
}

/// Law: generation is deterministic.  Two blogs holding the same templates
/// and the same posts render the same index text, so running generation
/// twice over unchanged input — whatever the output directory already held
/// — produces byte-identical output.
pub proof fn lemma_render_index_deterministic(a: Blog, b: Blog)
    requires
        a.templates() == b.templates(),
        a.post_models() == b.post_models(),
    ensures
        index_render(a.templates(), a.post_models()) == index_render(
            b.templates(),
            b.post_models(),
        ),
{
}

} // verus!
