use vstd::prelude::*;

verus! {

/// The canonical relative URL of a post: `{year}/{month}/{day}/{slug}.html`,
/// always with forward slashes — it is a URL, not a filesystem path.  The
/// slug passes through unescaped.
pub open spec fn url_spec(year: Seq<char>, month: Seq<char>, day: Seq<char>, slug: Seq<char>) -> Seq<char> {
    year + "/"@ + month + "/"@ + day + "/"@ + slug + ".html"@
}

/// Derive a post's canonical URL from its date tokens and slug.
pub fn derive_url(year: &str, month: &str, day: &str, slug: &str) -> (r: String)
    ensures
        r@ == url_spec(year@, month@, day@, slug@),
{
    let mut u = String::from_str(year);
    u.append("/");
    u.append(month);
    u.append("/");
    u.append(day);
    u.append("/");
    u.append(slug);
    u.append(".html");
    u
}

} // verus!
