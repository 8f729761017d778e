use blog_pipeline::frontmatter::FrontMatter;
use blog_pipeline::grouping::group_posts;
use blog_pipeline::post::Post;
use blog_pipeline::timestamp::Timestamp;

fn post(title: &str, section: &str, seconds: i64) -> Post {
    Post {
        source: format!("posts/{}.md", title),
        front: FrontMatter {
            title: title.to_string(),
            date: Timestamp { seconds, nanos: 0, offset: 0 },
            slug: title.to_lowercase(),
            section: section.to_string(),
            summary: format!("about {}", title),
            extra: Vec::new(),
        },
        body: format!("body of {}", title),
    }
}

fn titles(posts: &[Post]) -> Vec<String> {
    posts.iter().map(|p| p.front.title.clone()).collect()
}

#[test]
fn no_documents_give_no_groups() {
    assert!(group_posts(&Vec::new()).is_empty());
}

#[test]
fn sections_come_in_the_order_of_their_first_document() {
    let posts = vec![
        post("Zebra", "tech", 3),
        post("Apple", "life", 2),
        post("Mango", "tech", 1),
        post("Birch", "notes", 0),
    ];
    let groups = group_posts(&posts);
    let sections: Vec<&str> = groups.iter().map(|g| g.section.as_str()).collect();
    assert_eq!(sections, vec!["tech", "life", "notes"]);
}

#[test]
fn a_group_lists_its_documents_by_title() {
    let posts = vec![
        post("Zebra", "tech", 3),
        post("Apple", "life", 2),
        post("Mango", "tech", 1),
        post("Apple", "tech", 0),
    ];
    let groups = group_posts(&posts);
    assert_eq!(groups.len(), 2);
    assert_eq!(titles(&groups[0].posts), vec!["Apple", "Mango", "Zebra"]);
    assert_eq!(titles(&groups[1].posts), vec!["Apple"]);
    assert_eq!(groups[0].posts[0], posts[3]);
    assert_eq!(groups[0].posts[2], posts[0]);
}

#[test]
fn documents_of_one_title_keep_the_order_given() {
    let posts = vec![
        post("Same", "tech", 30),
        post("Other", "tech", 20),
        post("Same", "tech", 10),
        post("Same", "tech", 40),
    ];
    let groups = group_posts(&posts);
    let seconds: Vec<i64> = groups[0].posts.iter().map(|p| p.front.date.seconds).collect();
    assert_eq!(titles(&groups[0].posts), vec!["Other", "Same", "Same", "Same"]);
    assert_eq!(seconds, vec![20, 30, 10, 40]);
}

#[test]
fn titles_are_compared_by_code_point() {
    let posts = vec![
        post("apple", "s", 0),
        post("Zoo", "s", 0),
        post("Apple pie", "s", 0),
        post("Apple", "s", 0),
        post("Émile", "s", 0),
    ];
    let groups = group_posts(&posts);
    assert_eq!(
        titles(&groups[0].posts),
        vec!["Apple", "Apple pie", "Zoo", "apple", "Émile"]
    );
}

#[test]
fn grouping_leaves_the_collection_as_it_was() {
    let posts = vec![post("B", "x", 2), post("A", "x", 1)];
    let groups = group_posts(&posts);
    assert_eq!(titles(&posts), vec!["B", "A"]);
    assert_eq!(titles(&groups[0].posts), vec!["A", "B"]);
}
