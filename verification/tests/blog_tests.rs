use blogsite::date::{parse_date, Date};
use blogsite::frontmatter::{Field, LoadError};
use blogsite::pages::{get_post, not_found_page, post_page, render_error_page, PostPage};
use blogsite::post::{load_post, slug_of_file_name};
use blogsite::repo::{list_posts, load_blog_posts, SourceFile};

fn valid_text() -> String {
    "---\n\
     title: Hello World\n\
     date: 2024-06-15\n\
     subtitle: 'a closer look'\n\
     tags: [rust, \"web\"]\n\
     excerpt: Why hello\n\
     reading_time: 5\n\
     ---\n\
     # Heading\n\
     \n\
     Some ~~gone~~ text.\n\
     \n\
     | a | b |\n\
     |---|---|\n\
     | 1 | 2 |\n"
        .to_string()
}

fn source(name: &str, text: &str) -> SourceFile {
    SourceFile {
        name: name.to_string(),
        text: text.to_string(),
    }
}

fn post_text(date: &str) -> String {
    format!(
        "---\ntitle: T\ndate: {}\ntags: []\nexcerpt: e\nreading_time: 1\n---\nbody",
        date
    )
}

#[test]
fn load_valid_post() {
    let post = load_post("hello-world.md", &valid_text()).expect("should load");
    assert_eq!(post.slug, "hello-world");
    assert_eq!(post.title, "Hello World");
    assert_eq!(post.date, Date { year: 2024, month: 6, day: 15 });
    assert_eq!(post.date_display, "June 15, 2024");
    assert_eq!(post.subtitle.as_deref(), Some("a closer look"));
    assert_eq!(post.tags, vec!["rust".to_string(), "web".to_string()]);
    assert_eq!(post.excerpt, "Why hello");
    assert_eq!(post.reading_time, 5);
}

#[test]
fn date_display_zero_pads() {
    let post = load_post("p.md", &post_text("2024-03-05")).unwrap();
    assert_eq!(post.date_display, "March 05, 2024");
}

#[test]
fn markdown_renders_strikethrough_and_tables() {
    let post = load_post("hello.md", &valid_text()).unwrap();
    assert!(post.content.contains("<del>gone</del>"), "{}", post.content);
    assert!(post.content.contains("<table>"), "{}", post.content);
    assert!(post.content.contains("<h1>Heading</h1>"), "{}", post.content);
}

#[test]
fn missing_title_fails() {
    let text = "---\ndate: 2024-01-01\ntags: []\nexcerpt: e\nreading_time: 1\n---\nbody";
    let err = load_post("p.md", text).unwrap_err();
    assert_eq!(err, LoadError::MissingField(Field::Title));
}

#[test]
fn missing_date_fails() {
    let text = "---\ntitle: T\ntags: []\nexcerpt: e\nreading_time: 1\n---\nbody";
    let err = load_post("p.md", text).unwrap_err();
    assert_eq!(err, LoadError::MissingField(Field::Date));
}

#[test]
fn missing_tags_excerpt_reading_time_fail() {
    let no_tags = "---\ntitle: T\ndate: 2024-01-01\nexcerpt: e\nreading_time: 1\n---\n";
    assert_eq!(
        load_post("p.md", no_tags).unwrap_err(),
        LoadError::MissingField(Field::Tags)
    );
    let no_excerpt = "---\ntitle: T\ndate: 2024-01-01\ntags: []\nreading_time: 1\n---\n";
    assert_eq!(
        load_post("p.md", no_excerpt).unwrap_err(),
        LoadError::MissingField(Field::Excerpt)
    );
    let no_rt = "---\ntitle: T\ndate: 2024-01-01\ntags: []\nexcerpt: e\n---\n";
    assert_eq!(
        load_post("p.md", no_rt).unwrap_err(),
        LoadError::MissingField(Field::ReadingTime)
    );
}

#[test]
fn no_front_matter_fails() {
    assert_eq!(
        load_post("p.md", "just a plain file\n").unwrap_err(),
        LoadError::MissingFrontMatter
    );
    // an opening delimiter without a closing one
    assert_eq!(
        load_post("p.md", "---\ntitle: T\n").unwrap_err(),
        LoadError::MissingFrontMatter
    );
}

#[test]
fn malformed_line_fails() {
    let text = "---\ntitle: T\nnot a key value line\n---\nbody";
    assert_eq!(load_post("p.md", text).unwrap_err(), LoadError::MalformedLine);
}

#[test]
fn invalid_date_fails() {
    assert_eq!(
        load_post("p.md", &post_text("2024-02-30")).unwrap_err(),
        LoadError::InvalidValue(Field::Date)
    );
    assert_eq!(
        load_post("p.md", &post_text("not-a-date")).unwrap_err(),
        LoadError::InvalidValue(Field::Date)
    );
}

#[test]
fn leap_years_in_dates() {
    assert_eq!(
        parse_date("2024-02-29"),
        Some(Date { year: 2024, month: 2, day: 29 })
    );
    assert_eq!(parse_date("2023-02-29"), None);
    assert_eq!(parse_date("1900-02-29"), None);
    assert_eq!(
        parse_date("2000-02-29"),
        Some(Date { year: 2000, month: 2, day: 29 })
    );
}

#[test]
fn invalid_reading_time_fails() {
    let text = "---\ntitle: T\ndate: 2024-01-01\ntags: []\nexcerpt: e\nreading_time: soon\n---\n";
    assert_eq!(
        load_post("p.md", text).unwrap_err(),
        LoadError::InvalidValue(Field::ReadingTime)
    );
    let text2 =
        "---\ntitle: T\ndate: 2024-01-01\ntags: []\nexcerpt: e\nreading_time: 99999999999\n---\n";
    assert_eq!(
        load_post("p.md", text2).unwrap_err(),
        LoadError::InvalidValue(Field::ReadingTime)
    );
}

#[test]
fn invalid_tags_fail() {
    let text = "---\ntitle: T\ndate: 2024-01-01\ntags: rust, web\nexcerpt: e\nreading_time: 1\n---\n";
    assert_eq!(
        load_post("p.md", text).unwrap_err(),
        LoadError::InvalidValue(Field::Tags)
    );
}

#[test]
fn empty_title_fails() {
    let text = "---\ntitle:\ndate: 2024-01-01\ntags: []\nexcerpt: e\nreading_time: 1\n---\n";
    assert_eq!(
        load_post("p.md", text).unwrap_err(),
        LoadError::InvalidValue(Field::Title)
    );
}

#[test]
fn empty_excerpt_fails() {
    let text = "---\ntitle: T\ndate: 2024-01-01\ntags: []\nexcerpt:\nreading_time: 1\n---\n";
    assert_eq!(
        load_post("p.md", text).unwrap_err(),
        LoadError::InvalidValue(Field::Excerpt)
    );
}

#[test]
fn quoted_date_is_accepted() {
    let text =
        "---\ntitle: T\ndate: \"2024-01-01\"\ntags: []\nexcerpt: e\nreading_time: 1\n---\n";
    let post = load_post("p.md", text).unwrap();
    assert_eq!(post.date_display, "January 01, 2024");
}

#[test]
fn subtitle_is_optional() {
    let post = load_post("p.md", &post_text("2024-01-01")).unwrap();
    assert_eq!(post.subtitle, None);
}

#[test]
fn error_messages_name_the_cause() {
    assert_eq!(
        LoadError::MissingFrontMatter.message(),
        "no front matter found"
    );
    assert_eq!(
        LoadError::MissingField(Field::Title).message(),
        "missing front-matter field: title"
    );
    assert_eq!(
        LoadError::InvalidValue(Field::ReadingTime).message(),
        "invalid front-matter value: reading_time"
    );
}

#[test]
fn list_is_sorted_newest_first() {
    let files = vec![
        source("a.md", &post_text("2024-01-01")),
        source("b.md", &post_text("2024-06-15")),
        source("c.md", &post_text("2023-12-31")),
    ];
    let posts = load_blog_posts(&files);
    let dates: Vec<&str> = posts.iter().map(|p| p.date_display.as_str()).collect();
    assert_eq!(dates, vec!["June 15, 2024", "January 01, 2024", "December 31, 2023"]);
}

#[test]
fn list_skips_malformed_and_foreign_files() {
    let files = vec![
        source("good.md", &post_text("2024-01-01")),
        source("bad.md", "no front matter here"),
        source("notes.txt", &post_text("2024-05-05")),
        source(".md", &post_text("2024-05-06")),
    ];
    let posts = load_blog_posts(&files);
    assert_eq!(posts.len(), 1);
    assert_eq!(posts[0].slug, "good");
}

#[test]
fn missing_directory_lists_nothing() {
    let posts = list_posts(None);
    assert!(posts.is_empty());
}

#[test]
fn unknown_slug_is_not_found() {
    assert!(get_post("no-such-post", None).is_none());
    match post_page("no-such-post", None) {
        PostPage::NotFound(body) => assert_eq!(
            body,
            "<h1>Post not found</h1><p>The post 'no-such-post' could not be found.</p>"
        ),
        PostPage::Found(_) => panic!("post should not be found"),
    }
}

#[test]
fn malformed_post_page_is_not_found() {
    let text = "---\ntitle: T\n---\nbody".to_string();
    match post_page("broken", Some(&text)) {
        PostPage::NotFound(body) => assert!(body.contains("Post not found")),
        PostPage::Found(_) => panic!("malformed post should not be found"),
    }
}

#[test]
fn found_post_page_carries_the_post() {
    let text = valid_text();
    match post_page("hello-world", Some(&text)) {
        PostPage::Found(post) => {
            assert_eq!(post.slug, "hello-world");
            assert_eq!(post.title, "Hello World");
        }
        PostPage::NotFound(_) => panic!("valid post should be found"),
    }
}

#[test]
fn render_error_page_wraps_message() {
    assert_eq!(
        render_error_page("boom"),
        "<h1>Error rendering post</h1><p>boom</p>"
    );
}

#[test]
fn slug_derivation() {
    assert_eq!(slug_of_file_name("my-post.md"), "my-post");
    assert_eq!(slug_of_file_name("notes"), "notes");
    assert_eq!(slug_of_file_name(""), "unknown");
    assert_eq!(slug_of_file_name(".md"), ".md");
}

#[test]
fn blank_and_unknown_header_lines_are_ignored() {
    let text = "---\ntitle: T\n\ndate: 2024-01-01\nauthor: someone\ntags: []\nexcerpt: e\nreading_time: 1\n---\nbody";
    let post = load_post("p.md", text).unwrap();
    assert_eq!(post.title, "T");
}

#[test]
fn later_header_line_overrides_earlier() {
    let text = "---\ntitle: First\ntitle: Second\ndate: 2024-01-01\ntags: []\nexcerpt: e\nreading_time: 1\n---\n";
    let post = load_post("p.md", text).unwrap();
    assert_eq!(post.title, "Second");
}

#[test]
fn empty_tag_list_and_spaced_items() {
    let empty = "---\ntitle: T\ndate: 2024-01-01\ntags: [ ]\nexcerpt: e\nreading_time: 1\n---\n";
    assert!(load_post("p.md", empty).unwrap().tags.is_empty());
    let spaced = "---\ntitle: T\ndate: 2024-01-01\ntags: [ one , 'two' ]\nexcerpt: e\nreading_time: 1\n---\n";
    assert_eq!(
        load_post("p.md", spaced).unwrap().tags,
        vec!["one".to_string(), "two".to_string()]
    );
}
