use blog_pipeline::frontmatter::FrontMatter;
use blog_pipeline::post::Post;
use blog_pipeline::render::{
    finish_page, finish_pages, minify, settle, summary, Failure, Page, Rendered,
};
use blog_pipeline::timestamp::Timestamp;

fn post(slug: &str) -> Post {
    Post {
        source: format!("posts/{}.md", slug),
        front: FrontMatter {
            title: slug.to_uppercase(),
            date: Timestamp { seconds: 0, nanos: 0, offset: 0 },
            slug: slug.to_string(),
            section: "s".to_string(),
            summary: "d".to_string(),
            extra: Vec::new(),
        },
        body: String::new(),
    }
}

#[test]
fn markup_is_minified_for_the_page() {
    assert_eq!(
        minify("<pre  >   Hello  world!   </pre  >").unwrap(),
        b"<pre>   Hello  world!   </pre>".to_vec()
    );
    assert_eq!(minify("<p>a</p>  <!-- note -->  <p>b</p>").unwrap(), b"<p>a</p> <p>b</p>".to_vec());
    assert_eq!(
        minify("<code>  let  x;  </code>").unwrap(),
        b"<code>  let  x;  </code>".to_vec()
    );
}

#[test]
fn incomplete_markup_is_not_minified() {
    assert_eq!(minify("<p class="), None);
}

#[test]
fn a_page_goes_to_the_directory_of_its_slug() {
    let outcome = settle(&post("hello"), Some(b"<p>x</p>".to_vec()));
    assert_eq!(
        outcome,
        Rendered::Page(Page {
            dir: "posts/hello".to_string(),
            file: "posts/hello/index.html".to_string(),
            html: b"<p>x</p>".to_vec(),
        })
    );
}

#[test]
fn markup_that_is_not_minified_is_a_failure_of_its_document() {
    let outcome = settle(&post("hello"), None);
    assert_eq!(
        outcome,
        Rendered::Failed(Failure {
            source: "posts/hello.md".to_string(),
            detail: "the markup could not be minified".to_string(),
        })
    );
    assert_eq!(finish_page(&post("hello"), Ok("<p".to_string())), outcome);
}

#[test]
fn a_rendering_error_is_recorded_against_the_source() {
    let outcome = finish_page(&post("bad"), Err("unbalanced fence".to_string()));
    match &outcome {
        Rendered::Failed(failure) => {
            assert_eq!(failure.source, "posts/bad.md");
            assert_eq!(failure.detail, "unbalanced fence");
            assert_eq!(failure.message(), "failed to render `posts/bad.md`: unbalanced fence");
        }
        Rendered::Page(_) => panic!("a failure was expected"),
    }
}

#[test]
fn one_failure_leaves_the_other_pages_as_they_are() {
    let posts = vec![post("a"), post("b"), post("c")];
    let good = vec![
        Ok("<p>  a  </p>".to_string()),
        Ok("<p>  b  </p>".to_string()),
        Ok("<p>  c  </p>".to_string()),
    ];
    let mixed = vec![
        Ok("<p>  a  </p>".to_string()),
        Err("boom".to_string()),
        Ok("<p>  c  </p>".to_string()),
    ];
    let all = finish_pages(&posts, good).unwrap();
    let some = finish_pages(&posts, mixed).unwrap();
    assert_eq!(some.len(), 3);
    assert_eq!(some[0], all[0]);
    assert_eq!(some[2], all[2]);
    assert_eq!(
        some[1],
        Rendered::Failed(Failure { source: "posts/b.md".to_string(), detail: "boom".to_string() })
    );
    match &all[1] {
        Rendered::Page(page) => assert_eq!(page.file, "posts/b/index.html"),
        Rendered::Failed(_) => panic!("a page was expected"),
    }
    assert_eq!(posts, vec![post("a"), post("b"), post("c")]);
}

#[test]
fn markups_must_be_as_many_as_the_documents() {
    let posts = vec![post("a"), post("b")];
    assert_eq!(finish_pages(&posts, vec![Ok("x".to_string())]), None);
    assert_eq!(finish_pages(&posts, Vec::new()), None);
    assert_eq!(finish_pages(&Vec::new(), Vec::new()), Some(Vec::new()));
}

#[test]
fn the_summary_names_every_failure() {
    let posts = vec![post("a"), post("b"), post("c")];
    let outcomes = finish_pages(
        &posts,
        vec![Err("first".to_string()), Ok("<p>b</p>".to_string()), Err("second".to_string())],
    )
    .unwrap();
    assert_eq!(
        summary(&outcomes),
        vec![
            "Failed to render some posts:",
            "  failed to render `posts/a.md`: first",
            "  failed to render `posts/c.md`: second",
        ]
    );
}

#[test]
fn the_summary_is_one_line_when_nothing_failed() {
    let outcomes = finish_pages(&vec![post("a")], vec![Ok("<p>a</p>".to_string())]).unwrap();
    assert_eq!(summary(&outcomes), vec!["Posts rendered!"]);
    assert_eq!(summary(&Vec::new()), vec!["Posts rendered!"]);
}
