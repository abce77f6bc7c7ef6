use blog::blog::Blog;
use blog::error::BlogError;
use blog::loader::{load_posts, sort_posts};
use blog::post::make_post;

fn item(ident: &str, title: &str) -> (String, String) {
    (
        ident.to_string(),
        format!("---\ntitle: {}\nauthor: steve\n---\n\nSome body.", title),
    )
}

#[test]
fn load_posts_sorts_oldest_first() {
    let entries = vec![
        item("2019-01-02-second.md", "second"),
        item("2018-12-31-zeroth.md", "zeroth"),
        item("2019-01-01-first.md", "first"),
    ];
    let posts = load_posts(&entries).unwrap();
    let dates: Vec<String> = posts
        .iter()
        .map(|p| format!("{}-{}-{}", p.year, p.month, p.day))
        .collect();
    assert_eq!(dates, vec!["2018-12-31", "2019-01-01", "2019-01-02"]);
}

#[test]
fn load_posts_breaks_ties_by_filename() {
    let entries = vec![
        item("2019-01-01-banana.md", "b"),
        item("2019-01-01-apple.md", "a"),
    ];
    let posts = load_posts(&entries).unwrap();
    assert_eq!(posts[0].filename, "apple");
    assert_eq!(posts[1].filename, "banana");
}

#[test]
fn load_posts_fails_fast_on_one_bad_item() {
    let entries = vec![
        item("2019-01-01-a.md", "a"),
        item("2019-01-02-b.md", "b"),
        (
            "2019-01-03-bad.md".to_string(),
            "no front matter here".to_string(),
        ),
        item("2019-01-04-c.md", "c"),
    ];
    let err = load_posts(&entries).unwrap_err();
    assert_eq!(err.kind, BlogError::MissingFrontMatterDelimiter);
    assert_eq!(err.item, "2019-01-03-bad.md");
}

#[test]
fn sort_posts_is_stable_for_equal_keys() {
    let a = make_post(
        "2019-01-01-same.md",
        "---\ntitle: first\nauthor: x\n---\n\n.",
    )
    .unwrap();
    let b = make_post(
        "2019-01-01-same.md",
        "---\ntitle: second\nauthor: x\n---\n\n.",
    )
    .unwrap();
    let sorted = sort_posts(vec![a, b]);
    assert_eq!(sorted[0].title, "first");
    assert_eq!(sorted[1].title, "second");
}

#[test]
fn render_index_binds_title() {
    let templates = vec![("index".to_string(), "<h1>{{title}}</h1>".to_string())];
    let entries = vec![item("2020-03-04-hello-world.md", "Hi")];
    let b = Blog::new(templates, entries).unwrap();
    let (name, html) = b.render_index().unwrap();
    assert_eq!(name, "index.html");
    assert_eq!(html, "<h1>The Rust Programming Language Blog</h1>");
}

#[test]
fn render_index_lists_posts_in_order() {
    let templates = vec![(
        "index".to_string(),
        "{{#each posts}}{{url}};{{/each}}".to_string(),
    )];
    let entries = vec![
        item("2019-01-02-second.md", "second"),
        item("2018-12-31-zeroth.md", "zeroth"),
        item("2019-01-01-first.md", "first"),
    ];
    let b = Blog::new(templates, entries).unwrap();
    let (_, html) = b.render_index().unwrap();
    assert_eq!(
        html,
        "2018/12/31/zeroth.html;2019/01/01/first.html;2019/01/02/second.html;"
    );
}

#[test]
fn render_index_composes_with_parent_template() {
    let templates = vec![
        ("layout".to_string(), "[wrapped]".to_string()),
        (
            "index".to_string(),
            "{{> (lookup this \"parent\") }}:{{title}}".to_string(),
        ),
    ];
    let entries = vec![item("2020-03-04-hello-world.md", "Hi")];
    let b = Blog::new(templates, entries).unwrap();
    let (_, html) = b.render_index().unwrap();
    assert_eq!(html, "[wrapped]:The Rust Programming Language Blog");
}

#[test]
fn strict_mode_rejects_undefined_variable() {
    let templates = vec![("index".to_string(), "{{not_in_context}}".to_string())];
    let entries = vec![item("2020-03-04-hello-world.md", "Hi")];
    let b = match Blog::new(templates, entries) {
        Ok(b) => b,
        Err(_) => panic!("setup should succeed"),
    };
    let err = b.render_index().unwrap_err();
    assert_eq!(err, BlogError::UndefinedTemplateVariable);
}

#[test]
fn render_index_without_index_template() {
    let templates = vec![("layout".to_string(), "x".to_string())];
    let entries = vec![item("2020-03-04-hello-world.md", "Hi")];
    let b = match Blog::new(templates, entries) {
        Ok(b) => b,
        Err(_) => panic!("setup should succeed"),
    };
    let err = b.render_index().unwrap_err();
    assert_eq!(err, BlogError::TemplateNotFound);
}

#[test]
fn blog_new_rejects_bad_template() {
    let templates = vec![("index".to_string(), "{{#if}".to_string())];
    let entries = vec![item("2020-03-04-hello-world.md", "Hi")];
    let err = match Blog::new(templates, entries) {
        Err(e) => e,
        Ok(_) => panic!("registration should fail"),
    };
    assert_eq!(err.kind, BlogError::InvalidTemplate);
    assert_eq!(err.item, "index");
}

#[test]
fn template_stage_failure_wins_over_bad_entry() {
    let templates = vec![("index".to_string(), "{{#if}".to_string())];
    let entries = vec![("not-an-identifier".to_string(), "x".to_string())];
    let err = match Blog::new(templates, entries) {
        Err(e) => e,
        Ok(_) => panic!("setup should fail"),
    };
    assert_eq!(err.kind, BlogError::InvalidTemplate);
    assert_eq!(err.item, "index");
}

#[test]
fn blog_new_propagates_load_failure() {
    let templates = vec![("index".to_string(), "{{title}}".to_string())];
    let entries = vec![("not-an-identifier".to_string(), "---\nx\n---\n\n.".to_string())];
    let err = match Blog::new(templates, entries) {
        Err(e) => e,
        Ok(_) => panic!("load should fail"),
    };
    assert_eq!(err.kind, BlogError::MalformedIdentifier);
    assert_eq!(err.item, "not-an-identifier");
}

#[test]
fn generation_twice_is_byte_identical() {
    let templates = || {
        vec![(
            "index".to_string(),
            "{{title}}|{{#each posts}}{{title}}@{{url}};{{/each}}".to_string(),
        )]
    };
    let entries = || {
        vec![
            item("2019-01-02-second.md", "second"),
            item("2018-12-31-zeroth.md", "zeroth"),
        ]
    };
    let first = Blog::new(templates(), entries())
        .unwrap()
        .render_index()
        .unwrap();
    let second = Blog::new(templates(), entries())
        .unwrap()
        .render_index()
        .unwrap();
    assert_eq!(first, second);
}

#[test]
fn error_message_names_the_failure() {
    assert_eq!(
        BlogError::MalformedIdentifier.message(),
        "malformed content item identifier"
    );
    assert_eq!(
        BlogError::UndefinedTemplateVariable.message(),
        "template referenced an undefined variable"
    );
}
