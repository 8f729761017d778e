use blog_pipeline::frontmatter::{
    build_front_matter, parse, read_header, required_value, Field, MetadataError, RequiredField,
};
use blog_pipeline::timestamp::Timestamp;

fn field(key: &str, value: &str) -> Field {
    Field { key: key.to_string(), value: value.to_string() }
}

const COMPLETE: &str = "---\ntitle: Hello\ndate: 2024-03-01T09:30:00+01:00\nslug: hello\nsection: tech\nsummary: A first post\n---\nBody text\n";

#[test]
fn a_complete_header_is_accepted() {
    let (front, body) = parse(COMPLETE).unwrap().unwrap();
    assert_eq!(front.title, "Hello");
    assert_eq!(front.date, Timestamp { seconds: 1_709_281_800, nanos: 0, offset: 3600 });
    assert_eq!(front.slug, "hello");
    assert_eq!(front.section, "tech");
    assert_eq!(front.summary, "A first post");
    assert!(front.extra.is_empty());
    assert_eq!(body, "Body text\n");
}

#[test]
fn text_without_an_opening_line_has_no_header() {
    assert_eq!(parse(""), Ok(None));
    assert_eq!(parse("Just some notes.\n"), Ok(None));
    assert_eq!(parse("\n---\ntitle: late\n---\n"), Ok(None));
    assert_eq!(parse("----\ntitle: x\n----\n"), Ok(None));
    assert_eq!(parse("title: Hello\n---\n"), Ok(None));
}

#[test]
fn the_header_reader_gives_fields_in_order_and_the_body_verbatim() {
    let (fields, body) = read_header("---\nb: 2\na: 1\n---\n\n  indented\n---\nnot a header\n")
        .unwrap()
        .unwrap();
    assert_eq!(fields, vec![field("b", "2"), field("a", "1")]);
    assert_eq!(body, "\n  indented\n---\nnot a header\n");
}

#[test]
fn a_header_may_close_at_the_end_of_the_text() {
    let (fields, body) = read_header("---\na: 1\n---").unwrap().unwrap();
    assert_eq!(fields, vec![field("a", "1")]);
    assert_eq!(body, "");
    let (fields, body) = read_header("---\n---\n").unwrap().unwrap();
    assert!(fields.is_empty());
    assert_eq!(body, "");
}

#[test]
fn blanks_around_lines_keys_and_values_are_dropped() {
    let (fields, body) =
        read_header("--- \r\n\ttitle :  Spaced out \r\n\r\n   \nslug:\tx\r\n ---\r\nbody\r\n")
            .unwrap()
            .unwrap();
    assert_eq!(fields, vec![field("title", "Spaced out"), field("slug", "x")]);
    assert_eq!(body, "body\r\n");
}

#[test]
fn a_value_may_hold_colons_and_may_be_empty() {
    let (fields, _) = read_header("---\nlink: https://example.org/a:b\nnote:\n---\n")
        .unwrap()
        .unwrap();
    assert_eq!(fields, vec![field("link", "https://example.org/a:b"), field("note", "")]);
}

#[test]
fn a_header_that_is_not_closed_is_rejected() {
    assert_eq!(read_header("---"), Err(MetadataError::Unterminated));
    assert_eq!(read_header("---\n"), Err(MetadataError::Unterminated));
    assert_eq!(read_header("---\ntitle: x\nslug: y\n"), Err(MetadataError::Unterminated));
    assert_eq!(parse("---\ntitle: x\n\nbody\n").err(), Some(MetadataError::MalformedLine(4)));
}

#[test]
fn a_line_that_is_no_field_is_rejected_with_its_number() {
    assert_eq!(read_header("---\ntitle: x\nno colon here\n---\n"), Err(MetadataError::MalformedLine(3)));
    assert_eq!(read_header("---\n: no key\n---\n"), Err(MetadataError::MalformedLine(2)));
    assert_eq!(read_header("---\n\n\n  :\n---\n"), Err(MetadataError::MalformedLine(4)));
    assert_eq!(
        read_header("---\na: 1\nbad\nworse\n"),
        Err(MetadataError::MalformedLine(3))
    );
}

#[test]
fn each_required_field_is_missed() {
    let all = ["title", "date", "slug", "section", "summary"];
    let names = [
        RequiredField::Title,
        RequiredField::Date,
        RequiredField::Slug,
        RequiredField::Section,
        RequiredField::Summary,
    ];
    for (k, missing) in all.iter().enumerate() {
        let mut text = String::from("---\n");
        for key in all.iter().filter(|key| *key != missing) {
            let value = if *key == "date" { "2024-01-01T00:00:00Z" } else { "x" };
            text.push_str(&format!("{}: {}\n", key, value));
        }
        text.push_str("---\nbody");
        assert_eq!(parse(&text), Err(MetadataError::MissingField(names[k])));
    }
}

#[test]
fn the_first_missing_field_is_the_one_reported() {
    assert_eq!(parse("---\n---\n"), Err(MetadataError::MissingField(RequiredField::Title)));
    assert_eq!(
        parse("---\nsummary: s\ntitle: t\n---\n"),
        Err(MetadataError::MissingField(RequiredField::Date))
    );
    assert_eq!(
        parse("---\ntitle: t\ndate: never\nsection: s\n---\n"),
        Err(MetadataError::MissingField(RequiredField::Slug))
    );
}

#[test]
fn an_empty_value_does_not_give_a_required_field() {
    let text = "---\ntitle:\ndate: 2024-01-01T00:00:00Z\nslug: s\nsection: c\nsummary: d\n---\n";
    assert_eq!(parse(text), Err(MetadataError::MissingField(RequiredField::Title)));
    let fields = vec![field("title", ""), field("title", "later")];
    assert_eq!(required_value(&fields, RequiredField::Title), None);
}

#[test]
fn a_date_that_is_no_timestamp_is_rejected() {
    let text = "---\ntitle: t\ndate: 2024-01-01\nslug: s\nsection: c\nsummary: d\n---\n";
    assert_eq!(parse(text), Err(MetadataError::MalformedDate));
    let text = "---\ntitle: t\ndate: 2024-02-30T00:00:00Z\nslug: s\nsection: c\nsummary: d\n---\n";
    assert_eq!(parse(text), Err(MetadataError::MalformedDate));
}

#[test]
fn validation_takes_the_date_as_it_was_read() {
    let fields = vec![
        field("title", "t"),
        field("date", "whatever"),
        field("slug", "s"),
        field("section", "c"),
        field("summary", "d"),
    ];
    let at = Timestamp { seconds: 5, nanos: 6, offset: 7 };
    let front = build_front_matter(&fields, Some(at)).unwrap();
    assert_eq!(front.date, at);
    assert_eq!(front.title, "t");
    assert_eq!(build_front_matter(&fields, None), Err(MetadataError::MalformedDate));
    assert_eq!(
        build_front_matter(&fields[..4].iter().map(|f| f.clone()).collect(), Some(at)),
        Err(MetadataError::MissingField(RequiredField::Summary))
    );
}

#[test]
fn other_fields_pass_through_in_the_order_written() {
    let text = "---\ntags: a, b\ntitle: t\ndate: 2024-01-01T00:00:00Z\nauthor: me\nslug: s\nsection: c\nsummary: d\ntags: c\ntitle: again\n---\n";
    let (front, _) = parse(text).unwrap().unwrap();
    assert_eq!(front.title, "t");
    assert_eq!(
        front.extra,
        vec![field("tags", "a, b"), field("author", "me"), field("tags", "c")]
    );
}

#[test]
fn keys_are_told_apart_by_case() {
    let text = "---\nTitle: t\ndate: 2024-01-01T00:00:00Z\nslug: s\nsection: c\nsummary: d\n---\n";
    assert_eq!(parse(text), Err(MetadataError::MissingField(RequiredField::Title)));
}

#[test]
fn faults_are_described_in_words() {
    assert_eq!(
        MetadataError::Unterminated.describe(),
        "the header is not closed by a `---` line"
    );
    assert_eq!(
        MetadataError::MalformedLine(12).describe(),
        "line 12 of the header is not of the form `key: value`"
    );
    assert_eq!(
        MetadataError::MalformedLine(7).describe(),
        "line 7 of the header is not of the form `key: value`"
    );
    assert_eq!(
        MetadataError::MissingField(RequiredField::Summary).describe(),
        "the header gives no `summary`"
    );
    assert_eq!(
        MetadataError::MalformedDate.describe(),
        "the value of `date` is no RFC 3339 date and time"
    );
}

#[test]
fn required_fields_have_their_keys() {
    assert_eq!(RequiredField::Title.name(), "title");
    assert_eq!(RequiredField::Date.name(), "date");
    assert_eq!(RequiredField::Slug.name(), "slug");
    assert_eq!(RequiredField::Section.name(), "section");
    assert_eq!(RequiredField::Summary.name(), "summary");
}
