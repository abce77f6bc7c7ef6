use blog::decode::{decode_identifier, strip_extension};
use blog::error::BlogError;
use blog::front_matter::split_front_matter;
use blog::metadata::parse_metadata;
use blog::post::make_post;
use blog::url::derive_url;

#[test]
fn decode_valid_identifier() {
    let r = decode_identifier("2020-03-04-hello-world.md").unwrap();
    assert_eq!(r.0, "2020");
    assert_eq!(r.1, "03");
    assert_eq!(r.2, "04");
    assert_eq!(r.3, "hello-world.md");
}

#[test]
fn decode_slug_keeps_dashes() {
    let r = decode_identifier("2015-05-15-rust-1.0-released.md").unwrap();
    assert_eq!(r.0, "2015");
    assert_eq!(r.1, "05");
    assert_eq!(r.2, "15");
    assert_eq!(r.3, "rust-1.0-released.md");
}

#[test]
fn decode_too_few_tokens() {
    assert_eq!(
        decode_identifier("2020-03-04").unwrap_err(),
        BlogError::MalformedIdentifier
    );
    assert_eq!(
        decode_identifier("hello").unwrap_err(),
        BlogError::MalformedIdentifier
    );
    assert_eq!(
        decode_identifier("").unwrap_err(),
        BlogError::MalformedIdentifier
    );
}

#[test]
fn decode_rejects_unpadded_dates() {
    assert_eq!(
        decode_identifier("2020-3-4-hello.md").unwrap_err(),
        BlogError::MalformedIdentifier
    );
    assert_eq!(
        decode_identifier("20-03-04-hello.md").unwrap_err(),
        BlogError::MalformedIdentifier
    );
    assert_eq!(
        decode_identifier("yyyy-03-04-hello.md").unwrap_err(),
        BlogError::MalformedIdentifier
    );
}

#[test]
fn strip_extension_variants() {
    assert_eq!(strip_extension("hello-world.md"), "hello-world");
    assert_eq!(strip_extension("no-extension"), "no-extension");
    assert_eq!(strip_extension("two.dots.md"), "two.dots");
    assert_eq!(strip_extension(".hidden"), ".hidden");
}

#[test]
fn split_front_matter_exact() {
    let (meta, body) = split_front_matter("---\ntitle: Hi\n---\n\nBody text.").unwrap();
    assert_eq!(meta, "---\ntitle: Hi\n---");
    assert_eq!(body, "Body text.");
}

#[test]
fn split_front_matter_empty_body() {
    let (meta, body) = split_front_matter("---\ntitle: Hi\n---\n\n").unwrap();
    assert_eq!(meta, "---\ntitle: Hi\n---");
    assert_eq!(body, "");
}

#[test]
fn split_missing_opening_delimiter() {
    assert_eq!(
        split_front_matter("title: Hi\n---\n\nbody").unwrap_err(),
        BlogError::MissingFrontMatterDelimiter
    );
}

#[test]
fn split_missing_closing_delimiter() {
    assert_eq!(
        split_front_matter("---\ntitle: Hi\n").unwrap_err(),
        BlogError::MissingFrontMatterDelimiter
    );
}

#[test]
fn split_truncated_body() {
    assert_eq!(
        split_front_matter("---\nx\n---").unwrap_err(),
        BlogError::TruncatedBody
    );
}

#[test]
fn parse_metadata_both_fields() {
    let h = parse_metadata("---\ntitle: Hi\nauthor: steve\n---").unwrap();
    assert_eq!(h.title, "Hi");
    assert_eq!(h.author, "steve");
}

#[test]
fn parse_metadata_missing_author() {
    assert_eq!(
        parse_metadata("---\ntitle: Hi\n---").unwrap_err(),
        BlogError::InvalidMetadata
    );
}

#[test]
fn parse_metadata_not_a_mapping() {
    assert_eq!(
        parse_metadata("- a\n- b").unwrap_err(),
        BlogError::InvalidMetadata
    );
}

#[test]
fn derive_url_exact() {
    assert_eq!(
        derive_url("2020", "03", "04", "hello-world"),
        "2020/03/04/hello-world.html"
    );
}

#[test]
fn make_post_scenario() {
    let p = make_post(
        "2020-03-04-hello-world.md",
        "---\ntitle: Hi\nauthor: steve\n---\n\nBody text.",
    )
    .unwrap();
    assert_eq!(p.filename, "hello-world");
    assert_eq!(p.title, "Hi");
    assert_eq!(p.author, "steve");
    assert_eq!(p.year, "2020");
    assert_eq!(p.month, "03");
    assert_eq!(p.day, "04");
    assert_eq!(p.contents, "Body text.");
    assert_eq!(p.url, "2020/03/04/hello-world.html");
}

#[test]
fn make_post_url_round_trip() {
    let p = make_post(
        "2019-11-07-async-await-stable.md",
        "---\ntitle: Async-await on stable Rust!\nauthor: steve\n---\n\nHello.",
    )
    .unwrap();
    let rebuilt = format!("{}/{}/{}/{}.html", p.year, p.month, p.day, p.filename);
    assert_eq!(p.url, rebuilt);
}
