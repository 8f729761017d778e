use blog_pipeline::feed::{assemble_feed, Clock, Image, Site};
use blog_pipeline::frontmatter::MetadataError;
use blog_pipeline::grouping::group_posts;
use blog_pipeline::loader::{is_document_path, load_posts, Content, SourceFile, Warning};
use blog_pipeline::post::Post;

fn document(title: &str, date: &str, section: &str) -> String {
    format!(
        "---\ntitle: {}\ndate: {}\nslug: {}\nsection: {}\nsummary: About {}\n---\n# {}\n",
        title,
        date,
        title.to_lowercase(),
        section,
        title,
        title
    )
}

fn file(path: &str, text: &str) -> SourceFile {
    SourceFile { path: path.to_string(), content: Content::Text(text.to_string()) }
}

fn titles(posts: &[Post]) -> Vec<&str> {
    posts.iter().map(|p| p.front.title.as_str()).collect()
}

fn site() -> Site {
    Site {
        title: "Notes".to_string(),
        link: "https://example.org".to_string(),
        description: "Things".to_string(),
        language: "en".to_string(),
        owner: "A. Writer".to_string(),
        editor: "writer@example.org (A. Writer)".to_string(),
        generator: "by hand".to_string(),
        ttl: "60".to_string(),
        image: Image {
            url: "https://example.org/me.png".to_string(),
            title: "Notes".to_string(),
            link: "https://example.org".to_string(),
            width: "144".to_string(),
            height: "144".to_string(),
            description: "Me".to_string(),
        },
        feed_path: "/feed.rss".to_string(),
    }
}

fn clock() -> Clock {
    Clock { year: "2024".to_string(), now: "Mon, 1 Apr 2024 00:00:00 +0000".to_string() }
}

#[test]
fn three_documents_are_ordered_grouped_and_fed() {
    let files = vec![
        file("posts/january.md", &document("January", "2024-01-01T00:00:00Z", "tech")),
        file("posts/march.md", &document("March", "2024-03-01T00:00:00Z", "tech")),
        file("posts/february.md", &document("February", "2024-02-01T00:00:00Z", "life")),
    ];
    let report = load_posts(&files);
    assert!(report.warnings.is_empty());
    assert_eq!(titles(&report.posts), vec!["March", "February", "January"]);

    let groups = group_posts(&report.posts);
    assert_eq!(groups.len(), 2);
    assert_eq!(groups[0].section, "tech");
    assert_eq!(titles(&groups[0].posts), vec!["January", "March"]);
    assert_eq!(groups[1].section, "life");
    assert_eq!(titles(&groups[1].posts), vec!["February"]);

    let feed = assemble_feed(&site(), &clock(), &report.posts);
    let entries: Vec<&str> = feed.entries.iter().map(|e| e.title.as_str()).collect();
    assert_eq!(entries, vec!["March", "February", "January"]);
}

#[test]
fn a_file_without_a_header_is_left_out_in_silence() {
    let files = vec![
        file("posts/notes.md", "Some notes that are no document.\n"),
        file("posts/empty.md", ""),
    ];
    let report = load_posts(&files);
    assert!(report.posts.is_empty());
    assert!(report.warnings.is_empty());
}

#[test]
fn a_header_without_a_title_earns_one_warning() {
    let files = vec![
        file("posts/good.md", &document("Good", "2024-01-01T00:00:00Z", "tech")),
        file(
            "posts/untitled.md",
            "---\ndate: 2024-05-01T00:00:00Z\nslug: u\nsection: tech\nsummary: s\n---\nbody\n",
        ),
    ];
    let report = load_posts(&files);
    assert_eq!(titles(&report.posts), vec!["Good"]);
    assert_eq!(
        report.warnings,
        vec![Warning {
            source: "posts/untitled.md".to_string(),
            detail: "the header gives no `title`".to_string(),
        }]
    );
    assert_eq!(
        report.warnings[0].message(),
        "skipping `posts/untitled.md` as it failed to parse: the header gives no `title`"
    );
    let groups = group_posts(&report.posts);
    assert!(groups.iter().all(|g| g.posts.iter().all(|p| p.source != "posts/untitled.md")));
    let feed = assemble_feed(&site(), &clock(), &report.posts);
    assert_eq!(feed.entries.len(), 1);
    assert_eq!(feed.entries[0].title, "Good");
}

#[test]
fn one_bad_document_does_not_stop_the_others() {
    let files = vec![
        file("a.md", "---\ntitle: broken\n"),
        file("b.md", &document("B", "2024-01-02T00:00:00Z", "x")),
        file("c.md", "---\nnonsense\n---\n"),
        file("d.md", &document("D", "2024-01-03T00:00:00Z", "x")),
        file("e.md", &document("E", "tomorrow", "x")),
    ];
    let report = load_posts(&files);
    assert_eq!(titles(&report.posts), vec!["D", "B"]);
    let warned: Vec<(&str, String)> =
        report.warnings.iter().map(|w| (w.source.as_str(), w.detail.clone())).collect();
    assert_eq!(
        warned,
        vec![
            ("a.md", MetadataError::Unterminated.describe()),
            ("c.md", MetadataError::MalformedLine(2).describe()),
            ("e.md", MetadataError::MalformedDate.describe()),
        ]
    );
}

#[test]
fn entries_that_are_no_document_files_are_passed_over() {
    let text = document("T", "2024-01-01T00:00:00Z", "x");
    let files = vec![
        file("posts/readme.txt", &text),
        file("posts/md", &text),
        file("posts/.md", &text),
        file("posts/picture.md.png", &text),
        SourceFile { path: "posts/drafts.md".to_string(), content: Content::Directory },
        SourceFile { path: "posts/assets".to_string(), content: Content::Directory },
        SourceFile {
            path: "posts/other.txt".to_string(),
            content: Content::Unreadable("permission denied".to_string()),
        },
    ];
    let report = load_posts(&files);
    assert!(report.posts.is_empty());
    assert!(report.warnings.is_empty());
}

#[test]
fn a_document_file_that_cannot_be_read_earns_a_warning() {
    let files = vec![SourceFile {
        path: "posts/locked.md".to_string(),
        content: Content::Unreadable("permission denied".to_string()),
    }];
    let report = load_posts(&files);
    assert!(report.posts.is_empty());
    assert_eq!(
        report.warnings[0].message(),
        "skipping `posts/locked.md` as it failed to parse: permission denied"
    );
    assert_eq!(report.warnings.len(), 1);
}

#[test]
fn documents_of_one_instant_keep_the_order_of_their_files() {
    let files = vec![
        file("1.md", &document("First", "2024-01-01T12:00:00Z", "x")),
        file("2.md", &document("Newest", "2024-06-01T00:00:00Z", "x")),
        file("3.md", &document("Second", "2024-01-01T13:00:00+01:00", "x")),
        file("4.md", &document("Oldest", "2023-01-01T00:00:00Z", "x")),
        file("5.md", &document("Third", "2024-01-01T07:00:00-05:00", "x")),
    ];
    let report = load_posts(&files);
    assert_eq!(titles(&report.posts), vec!["Newest", "First", "Second", "Third", "Oldest"]);
}

#[test]
fn fractions_of_a_second_order_documents() {
    let files = vec![
        file("1.md", &document("Early", "2024-01-01T12:00:00.25Z", "x")),
        file("2.md", &document("Late", "2024-01-01T12:00:00.5Z", "x")),
    ];
    let report = load_posts(&files);
    assert_eq!(titles(&report.posts), vec!["Late", "Early"]);
}

#[test]
fn a_loaded_document_keeps_source_header_and_body() {
    let files = vec![file("posts/one.md", "---\ntitle: One\ndate: 2024-01-01T00:00:00Z\nslug: one\nsection: s\nsummary: d\nmood: fine\n---\nline 1\nline 2")];
    let report = load_posts(&files);
    let post = &report.posts[0];
    assert_eq!(post.source, "posts/one.md");
    assert_eq!(post.body, "line 1\nline 2");
    assert_eq!(post.front.slug, "one");
    assert_eq!(post.front.extra.len(), 1);
    assert_eq!(post.front.extra[0].key, "mood");
    assert_eq!(post.url(), "/posts/one/");
}

#[test]
fn document_files_are_known_by_their_names() {
    assert!(is_document_path("a.md"));
    assert!(is_document_path("posts/2024/a.b.md"));
    assert!(is_document_path("..md"));
    assert!(!is_document_path(".md"));
    assert!(!is_document_path("posts/.md"));
    assert!(!is_document_path("md"));
    assert!(!is_document_path("a.MD"));
    assert!(!is_document_path("a.md "));
    assert!(!is_document_path("a.mdx"));
    assert!(!is_document_path(""));
    assert!(is_document_path("é.md"));
}

#[test]
fn loading_twice_gives_the_same_report() {
    let files = vec![
        file("a.md", &document("A", "2024-01-02T00:00:00Z", "x")),
        file("b.md", "---\nbroken"),
        file("c.md", &document("C", "2024-01-02T00:00:00Z", "y")),
    ];
    assert_eq!(load_posts(&files), load_posts(&files));
    assert_eq!(group_posts(&load_posts(&files).posts), group_posts(&load_posts(&files).posts));
}
