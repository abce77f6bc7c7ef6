use vstd::prelude::*;

use crate::decode::{decode_id_spec, decode_identifier, strip_ext_spec, strip_extension};
use crate::error::BlogError;
use crate::front_matter::{split_fm_spec, split_front_matter};
use crate::metadata::{header_of, parse_metadata, YamlHeader};
use crate::strutil::{
    lemma_seq_le_total, lemma_seq_le_trans, lemma_seq_lt_irrefl, lemma_seq_lt_trans, seq_le,
    seq_lt, str_le,
};
use crate::url::{derive_url, url_spec};

verus! {

/// The mathematical content of a post: each field as a character sequence.
pub struct PostModel {
    pub filename: Seq<char>,
    pub title: Seq<char>,
    pub author: Seq<char>,
    pub year: Seq<char>,
    pub month: Seq<char>,
    pub day: Seq<char>,
    pub contents: Seq<char>,
    pub url: Seq<char>,
}

/// A fully assembled post.  `filename` is the slug without its extension;
/// `year`, `month` and `day` are the zero-padded date tokens of the source
/// identifier; `contents` is the body after the front-matter block; `url`
/// is the canonical relative path `{year}/{month}/{day}/{filename}.html`.
#[derive(Debug)]
pub struct Post {
    pub filename: String,
    pub title: String,
    pub author: String,
    pub year: String,
    pub month: String,
    pub day: String,
    pub contents: String,
    pub url: String,
}

impl View for Post {
    type V = PostModel;

    open spec fn view(&self) -> PostModel {
        PostModel {
            filename: self.filename@,
            title: self.title@,
            author: self.author@,
            year: self.year@,
            month: self.month@,
            day: self.day@,
            contents: self.contents@,
            url: self.url@,
        }
    }
}

impl Post {
    /// Compose a post from its decoded parts.  Pure assembly: every field
    /// is taken as handed in.
    pub fn assemble(
        filename: String,
        title: String,
        author: String,
        year: String,
        month: String,
        day: String,
        contents: String,
        url: String,
    ) -> (r: Post)
        ensures
            r@ == (PostModel {
                filename: filename@,
                title: title@,
                author: author@,
                year: year@,
                month: month@,
                day: day@,
                contents: contents@,
                url: url@,
            }),
    {
        Post { filename, title, author, year, month, day, contents, url }
    }
}

/// The order posts are kept in: ascending by year, month and day, oldest
/// first, with ties broken by filename so that output is reproducible.
pub open spec fn key_le(a: PostModel, b: PostModel) -> bool {
    if a.year != b.year {
        seq_lt(a.year, b.year)
    } else if a.month != b.month {
        seq_lt(a.month, b.month)
    } else if a.day != b.day {
        seq_lt(a.day, b.day)
    } else {
        seq_le(a.filename, b.filename)
    }
}

/// The post order is total.
pub proof fn lemma_key_le_total(a: PostModel, b: PostModel)
    ensures
        key_le(a, b) || key_le(b, a),
{
    lemma_seq_le_total(a.year, b.year);
    lemma_seq_le_total(a.month, b.month);
    lemma_seq_le_total(a.day, b.day);
    lemma_seq_le_total(a.filename, b.filename);
}

/// The post order is transitive.
pub proof fn lemma_key_le_trans(a: PostModel, b: PostModel, c: PostModel)
    requires
        key_le(a, b),
        key_le(b, c),
    ensures
        key_le(a, c),
{
    lemma_seq_lt_irrefl(a.year);
    lemma_seq_lt_irrefl(a.month);
    lemma_seq_lt_irrefl(a.day);
    if seq_lt(a.year, b.year) && seq_lt(b.year, c.year) {
        lemma_seq_lt_trans(a.year, b.year, c.year);
    }
    if seq_lt(a.month, b.month) && seq_lt(b.month, c.month) {
        lemma_seq_lt_trans(a.month, b.month, c.month);
    }
    if seq_lt(a.day, b.day) && seq_lt(b.day, c.day) {
        lemma_seq_lt_trans(a.day, b.day, c.day);
    }
    if seq_le(a.filename, b.filename) && seq_le(b.filename, c.filename) {
        lemma_seq_le_trans(a.filename, b.filename, c.filename);
    }
}

/// Whether `a` comes at or before `b` in the post order.
pub fn post_le(a: &Post, b: &Post) -> (r: bool)
    ensures
        r == key_le(a@, b@),
{
    if a.year != b.year {
        return str_le(a.year.as_str(), b.year.as_str());
    }
    if a.month != b.month {
        return str_le(a.month.as_str(), b.month.as_str());
    }
    if a.day != b.day {
        return str_le(a.day.as_str(), b.day.as_str());
    }
    str_le(a.filename.as_str(), b.filename.as_str())
}

/// The outcome of the whole per-item pipeline on one content item: decode
/// the identifier, split the front matter, decode the header, strip the
/// slug's extension, and derive the URL.
pub open spec fn post_of(ident: Seq<char>, contents: Seq<char>) -> Result<PostModel, BlogError> {
    if decode_id_spec(ident) is None {
        Err(BlogError::MalformedIdentifier)
    } else {
        let toks = decode_id_spec(ident)->Some_0;
        match split_fm_spec(contents) {
            Err(e) => Err(e),
            Ok(parts) => match header_of(parts.0) {
                Err(e) => Err(e),
                Ok(header) => Ok(
                    PostModel {
                        filename: strip_ext_spec(toks.3),
                        title: header.0,
                        author: header.1,
                        year: toks.0,
                        month: toks.1,
                        day: toks.2,
                        contents: parts.1,
                        url: url_spec(toks.0, toks.1, toks.2, strip_ext_spec(toks.3)),
                    },
                ),
            },
        }
    }
}

/// Run the whole pipeline on one content item, as `post_of` describes.
pub fn make_post(identifier: &str, contents: &str) -> (r: Result<Post, BlogError>)
    ensures
        match r {
            Ok(p) => post_of(identifier@, contents@) == Ok::<_, BlogError>(p@),
            Err(e) => post_of(identifier@, contents@) == Err::<PostModel, _>(e),
        },
{
    let toks = match decode_identifier(identifier) {
        Ok(toks) => toks,
        Err(e) => {
            return Err(e);
        },
    };
    let (year, month, day, slug) = toks;
    let filename = strip_extension(slug.as_str());
    let parts = match split_front_matter(contents) {
        Ok(parts) => parts,
        Err(e) => {
            return Err(e);
        },
    };
    let (meta, body) = parts;
    let header = match parse_metadata(meta.as_str()) {
        Ok(header) => header,
        Err(e) => {
            return Err(e);
        },
    };
    let YamlHeader { title, author } = header;
    let url = derive_url(year.as_str(), month.as_str(), day.as_str(), filename.as_str());
    Ok(Post::assemble(filename, title, author, year, month, day, body, url))
}

/// Law: the per-item pipeline fails only with the four load-stage kinds —
/// a malformed identifier, a missing front-matter delimiter, a truncated
/// body, or invalid metadata — never with a template- or render-stage kind.
pub proof fn lemma_post_of_err_kinds(ident: Seq<char>, contents: Seq<char>)
    requires
        post_of(ident, contents) is Err,
    ensures
        post_of(ident, contents)->Err_0 == BlogError::MalformedIdentifier || post_of(
            ident,
            contents,
        )->Err_0 == BlogError::MissingFrontMatterDelimiter || post_of(ident, contents)->Err_0
            == BlogError::TruncatedBody || post_of(ident, contents)->Err_0
            == BlogError::InvalidMetadata,
{
}

/// Law: a post assembled from a well-formed content item carries exactly
/// the URL `{year}/{month}/{day}/{filename}.html` rebuilt from its own
/// fields.
pub proof fn lemma_post_url_round_trip(ident: Seq<char>, contents: Seq<char>)
    requires
        post_of(ident, contents) is Ok,
    ensures
        (post_of(ident, contents)->Ok_0).url == url_spec(
            (post_of(ident, contents)->Ok_0).year,
            (post_of(ident, contents)->Ok_0).month,
            (post_of(ident, contents)->Ok_0).day,
            (post_of(ident, contents)->Ok_0).filename,
        ),
{
}

} // verus!
