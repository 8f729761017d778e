//! The header of a document: a block of `key: value` lines between two
//! `---` lines, ahead of the body.

use vstd::prelude::*;
use vstd::string::*;
use crate::text::{
    chars_of, decimal, decimal_text, find_char, lemma_position, lemma_position_in_part, position,
    trim, trim_range,
};
use crate::timestamp::{rfc3339_timestamp, Timestamp};

verus! {

/// One `key: value` line of a header.
#[derive(Debug, PartialEq, Eq)]
pub struct Field {
    pub key: String,
    pub value: String,
}

/// A field as a pair of texts: key, then value.
pub type FieldView = (Seq<char>, Seq<char>);

impl View for Field {
    type V = FieldView;

    open spec fn view(&self) -> FieldView {
        (self.key@, self.value@)
    }
}

impl Clone for Field {
    fn clone(&self) -> (copy: Self)
        ensures
            copy@ == self@,
    {
        Field { key: self.key.clone(), value: self.value.clone() }
    }
}

/// The fields of `fields`, each as a pair of texts.
pub open spec fn field_views(fields: Seq<Field>) -> Seq<FieldView> {
    fields.map_values(|f: Field| f@)
}

/// Copies a list of fields.
pub fn clone_fields(fields: &Vec<Field>) -> (copy: Vec<Field>)
    ensures
        field_views(copy@) == field_views(fields@),
{
    let mut copy: Vec<Field> = Vec::new();
    let mut i: usize = 0;
    while i < fields.len()
        invariant
            i <= fields.len(),
            copy.len() == i,
            forall|j: int| 0 <= j < i ==> copy@[j]@ == fields@[j]@,
        decreases fields.len() - i,
    {
        copy.push(fields[i].clone());
        i += 1;
    }
    proof {
        assert(field_views(copy@) =~= field_views(fields@));
    }
    copy
}

/// The validated header of a document.
#[derive(Debug, PartialEq, Eq)]
pub struct FrontMatter {
    /// Display title; documents of one section are listed by it.
    pub title: String,
    /// When the document was published; newer documents are listed first.
    pub date: Timestamp,
    /// Short name under which the page is written and linked.
    pub slug: String,
    /// The section that the index lists the document under.
    pub section: String,
    /// Short description for the index and the feed.
    pub summary: String,
    /// Every other field of the header, in the order written.
    pub extra: Vec<Field>,
}

/// A validated header as texts.
pub struct FrontMatterView {
    pub title: Seq<char>,
    pub date: Timestamp,
    pub slug: Seq<char>,
    pub section: Seq<char>,
    pub summary: Seq<char>,
    pub extra: Seq<FieldView>,
}

impl View for FrontMatter {
    type V = FrontMatterView;

    open spec fn view(&self) -> FrontMatterView {
        FrontMatterView {
            title: self.title@,
            date: self.date,
            slug: self.slug@,
            section: self.section@,
            summary: self.summary@,
            extra: field_views(self.extra@),
        }
    }
}

impl Clone for FrontMatter {
    fn clone(&self) -> (copy: Self)
        ensures
            copy@ == self@,
    {
        FrontMatter {
            title: self.title.clone(),
            date: self.date,
            slug: self.slug.clone(),
            section: self.section.clone(),
            summary: self.summary.clone(),
            extra: clone_fields(&self.extra),
        }
    }
}

/// The fields that every header must give.
#[derive(Clone, Copy, Debug, PartialEq, Eq)]
pub enum RequiredField {
    Title,
    Date,
    Slug,
    Section,
    Summary,
}

impl RequiredField {
    /// The key under which a header gives the field.
    pub open spec fn key(self) -> Seq<char> {
        match self {
            RequiredField::Title => "title"@,
            RequiredField::Date => "date"@,
            RequiredField::Slug => "slug"@,
            RequiredField::Section => "section"@,
            RequiredField::Summary => "summary"@,
        }
    }

    /// The key under which a header gives the field.
    pub fn name(&self) -> (name: &'static str)
        ensures
            name@ == self.key(),
    {
        match self {
            RequiredField::Title => "title",
            RequiredField::Date => "date",
            RequiredField::Slug => "slug",
            RequiredField::Section => "section",
            RequiredField::Summary => "summary",
        }
    }
}

/// Why a header that is present was not accepted.
#[derive(Clone, Copy, Debug, PartialEq, Eq)]
pub enum MetadataError {
    /// The text ends before a `---` line closes the header.
    Unterminated,
    /// The line of this number, counted from 1 at the opening `---`, is
    /// neither blank nor of the form `key: value`.
    MalformedLine(usize),
    /// No line gives this field a value.
    MissingField(RequiredField),
    /// The value of `date` is no RFC 3339 date and time.
    MalformedDate,
}

/// The line that opens and closes a header.
pub open spec fn delimiter() -> Seq<char> {
    seq!['-', '-', '-']
}

/// The end of the line that starts at `from`: the index of its line
/// feed, or the end of the text.
pub open spec fn line_end(text: Seq<char>, from: int) -> int {
    position(text, '\n', from, text.len() as int)
}

/// The start of the line that follows the one starting at `from`.
pub open spec fn line_after(text: Seq<char>, from: int) -> int {
    if line_end(text, from) < text.len() {
        line_end(text, from) + 1
    } else {
        line_end(text, from)
    }
}

/// The line that starts at `from`, without the blanks around it.
pub open spec fn line_at(text: Seq<char>, from: int) -> Seq<char> {
    trim(text.subrange(from, line_end(text, from)))
}

/// The field that a header line gives: the key is what stands before the
/// first colon, the value what stands behind it, both without the blanks
/// around them. A line without a colon or without a key gives none.
pub open spec fn field_of(line: Seq<char>) -> Option<FieldView> {
    let colon = position(line, ':', 0, line.len() as int);
    let key = trim(line.take(colon));
    if colon < line.len() && key.len() > 0 {
        Some((key, trim(line.skip(colon + 1))))
    } else {
        None
    }
}

/// Reads header lines from index `from`, which starts the line of the
/// given number, behind the fields already read. Blank lines are passed
/// over. Gives all the fields and the index at which the body starts, or
/// the first fault met.
pub open spec fn read_fields(text: Seq<char>, from: int, number: int, fields: Seq<FieldView>)
    -> Result<(Seq<FieldView>, int), MetadataError>
    decreases text.len() - from,
{
    if from >= text.len() {
        Err(MetadataError::Unterminated)
    } else {
        proof {
            lemma_position(text, '\n', from, text.len() as int);
        }
        let line = line_at(text, from);
        if line == delimiter() {
            Ok((fields, line_after(text, from)))
        } else if line.len() == 0 {
            read_fields(text, line_after(text, from), number + 1, fields)
        } else {
            match field_of(line) {
                Some(field) => read_fields(
                    text,
                    line_after(text, from),
                    number + 1,
                    fields.push(field),
                ),
                None => Err(MetadataError::MalformedLine(number as usize)),
            }
        }
    }
}

/// The header of `text`: its fields in the order written, and the body
/// behind it. A text whose first line is not `---` has no header.
pub open spec fn header_of(text: Seq<char>) -> Result<
    Option<(Seq<FieldView>, Seq<char>)>,
    MetadataError,
> {
    if line_at(text, 0) == delimiter() {
        match read_fields(text, line_after(text, 0), 2, Seq::empty()) {
            Ok((fields, body)) => Ok(Some((fields, text.skip(body)))),
            Err(fault) => Err(fault),
        }
    } else {
        Ok(None)
    }
}

/// The value of the first field with the given key.
pub open spec fn lookup(fields: Seq<FieldView>, key: Seq<char>) -> Option<Seq<char>>
    decreases fields.len(),
{
    if fields.len() == 0 {
        None
    } else if fields[0].0 == key {
        Some(fields[0].1)
    } else {
        lookup(fields.skip(1), key)
    }
}

/// The value that the header gives a required field. An empty value
/// counts as none.
pub open spec fn given(fields: Seq<FieldView>, field: RequiredField) -> Option<Seq<char>> {
    match lookup(fields, field.key()) {
        Some(value) => if value.len() > 0 {
            Some(value)
        } else {
            None
        },
        None => None,
    }
}

/// The first required field, in the order title, date, slug, section,
/// summary, that the header does not give.
pub open spec fn first_missing(fields: Seq<FieldView>) -> Option<RequiredField> {
    if given(fields, RequiredField::Title) is None {
        Some(RequiredField::Title)
    } else if given(fields, RequiredField::Date) is None {
        Some(RequiredField::Date)
    } else if given(fields, RequiredField::Slug) is None {
        Some(RequiredField::Slug)
    } else if given(fields, RequiredField::Section) is None {
        Some(RequiredField::Section)
    } else if given(fields, RequiredField::Summary) is None {
        Some(RequiredField::Summary)
    } else {
        None
    }
}

/// Whether `key` names one of the required fields.
pub open spec fn is_required_key(key: Seq<char>) -> bool {
    key == "title"@ || key == "date"@ || key == "slug"@ || key == "section"@ || key == "summary"@
}

/// Selects the fields that pass through unvalidated.
pub open spec fn is_extra() -> spec_fn(FieldView) -> bool {
    |f: FieldView| !is_required_key(f.0)
}

/// The validated header that `fields` make, given what the value of
/// `date` was read as. A missing field is reported before a date that
/// could not be read.
pub open spec fn front_matter_of(fields: Seq<FieldView>, date: Option<Timestamp>) -> Result<
    FrontMatterView,
    MetadataError,
> {
    match first_missing(fields) {
        Some(field) => Err(MetadataError::MissingField(field)),
        None => match date {
            None => Err(MetadataError::MalformedDate),
            Some(at) => Ok(
                FrontMatterView {
                    title: given(fields, RequiredField::Title)->0,
                    date: at,
                    slug: given(fields, RequiredField::Slug)->0,
                    section: given(fields, RequiredField::Section)->0,
                    summary: given(fields, RequiredField::Summary)->0,
                    extra: fields.filter(is_extra()),
                },
            ),
        },
    }
}

/// What the value of `date` reads as, where the header gives one.
pub open spec fn date_of(fields: Seq<FieldView>) -> Option<Timestamp> {
    match given(fields, RequiredField::Date) {
        Some(text) => rfc3339_timestamp(text),
        None => None,
    }
}

/// The outcome of reading a document: `Ok(None)` where the text has no
/// header, the fault where its header is not accepted, else the
/// validated header and the body.
pub open spec fn parsed(text: Seq<char>) -> Result<
    Option<(FrontMatterView, Seq<char>)>,
    MetadataError,
> {
    match header_of(text) {
        Err(fault) => Err(fault),
        Ok(None) => Ok(None),
        Ok(Some((fields, body))) => match front_matter_of(fields, date_of(fields)) {
            Ok(front) => Ok(Some((front, body))),
            Err(fault) => Err(fault),
        },
    }
}

fn is_delimiter(chars: &Vec<char>, a: usize, b: usize) -> (yes: bool)
    requires
        a <= b <= chars.len(),
    ensures
        yes == (chars@.subrange(a as int, b as int) == delimiter()),
{
    let yes = b - a == 3 && chars[a] == '-' && chars[a + 1] == '-' && chars[a + 2] == '-';
    proof {
        let line = chars@.subrange(a as int, b as int);
        if yes {
            assert(line =~= delimiter());
        } else if line == delimiter() {
            assert(line.len() == 3);
            assert(line[0] == '-' && line[1] == '-' && line[2] == '-');
        }
    }
    yes
}

fn read_field(text: &str, chars: &Vec<char>, a: usize, b: usize) -> (field: Option<Field>)
    requires
        chars@ == text@,
        a <= b <= chars.len(),
    ensures
        match field {
            Some(f) => field_of(chars@.subrange(a as int, b as int)) == Some(f@),
            None => field_of(chars@.subrange(a as int, b as int)) is None,
        },
{
    let ghost line = chars@.subrange(a as int, b as int);
    let colon = find_char(chars, ':', a, b);
    proof {
        lemma_position_in_part(chars@, ':', a as int, b as int, a as int);
        assert(line.take(colon - a) =~= chars@.subrange(a as int, colon as int));
    }
    if colon >= b {
        return None;
    }
    let (key_start, key_end) = trim_range(chars, a, colon);
    if key_start == key_end {
        return None;
    }
    let (value_start, value_end) = trim_range(chars, colon + 1, b);
    proof {
        assert(line.skip(colon - a + 1) =~= chars@.subrange(colon + 1, b as int));
    }
    Some(
        Field {
            key: String::from_str(text.substring_char(key_start, key_end)),
            value: String::from_str(text.substring_char(value_start, value_end)),
        },
    )
}

/// Reads the header of `text`.
pub fn read_header(text: &str) -> (header: Result<Option<(Vec<Field>, String)>, MetadataError>)
    ensures
        match header {
            Ok(Some((fields, body))) => header_of(text@) matches Ok(Some(h)) && h == (
                field_views(fields@),
                body@,
            ),
            Ok(None) => header_of(text@) matches Ok(None),
            Err(fault) => header_of(text@) matches Err(f) && f == fault,
        },
{
    let chars = chars_of(text);
    let n = chars.len();
    let end = find_char(&chars, '\n', 0, n);
    let (a, b) = trim_range(&chars, 0, end);
    if !is_delimiter(&chars, a, b) {
        return Ok(None);
    }
    let mut from: usize = if end < n {
        end + 1
    } else {
        end
    };
    let mut number: usize = 2;
    let mut fields: Vec<Field> = Vec::new();
    proof {
        assert(field_views(fields@) =~= Seq::<FieldView>::empty());
        assert(chars@.subrange(a as int, b as int).len() == 3);
    }
    while from < n
        invariant
            chars@ == text@,
            n == chars.len(),
            number <= from <= n,
            line_at(text@, 0) == delimiter(),
            read_fields(text@, line_after(text@, 0), 2, Seq::empty()) == read_fields(
                text@,
                from as int,
                number as int,
                field_views(fields@),
            ),
        decreases n - from,
    {
        let end = find_char(&chars, '\n', from, n);
        let next: usize = if end < n {
            end + 1
        } else {
            end
        };
        let (a, b) = trim_range(&chars, from, end);
        if is_delimiter(&chars, a, b) {
            let body = String::from_str(text.substring_char(next, n));
            proof {
                assert(text@.subrange(next as int, n as int) =~= text@.skip(next as int));
            }
            return Ok(Some((fields, body)));
        }
        if a < b {
            match read_field(text, &chars, a, b) {
                Some(field) => {
                    let ghost read = field_views(fields@);
                    fields.push(field);
                    proof {
                        assert(field_views(fields@) =~= read.push(field@));
                    }
                },
                None => {
                    return Err(MetadataError::MalformedLine(number));
                },
            }
        }
        number += 1;
        from = next;
    }
    Err(MetadataError::Unterminated)
}

fn find_field(fields: &Vec<Field>, key: &str) -> (found: Option<usize>)
    ensures
        match found {
            Some(i) => i < fields.len() && lookup(field_views(fields@), key@) == Some(
                fields@[i as int].value@,
            ),
            None => lookup(field_views(fields@), key@) is None,
        },
{
    let wanted = String::from_str(key);
    let ghost all = field_views(fields@);
    let mut i: usize = 0;
    proof {
        assert(all.skip(0) =~= all);
    }
    while i < fields.len()
        invariant
            i <= fields.len(),
            wanted@ == key@,
            all == field_views(fields@),
            lookup(all, key@) == lookup(all.skip(i as int), key@),
        decreases fields.len() - i,
    {
        proof {
            assert(all.skip(i as int)[0] == fields@[i as int]@);
            assert(all.skip(i as int).skip(1) =~= all.skip(i + 1));
        }
        if fields[i].key == wanted {
            return Some(i);
        }
        i += 1;
    }
    None
}

/// The value that `fields` give to `field`, if any.
pub fn required_value(fields: &Vec<Field>, field: RequiredField) -> (value: Option<String>)
    ensures
        match value {
            Some(v) => given(field_views(fields@), field) == Some(v@),
            None => given(field_views(fields@), field) is None,
        },
{
    match find_field(fields, field.name()) {
        Some(i) => {
            if fields[i].value.as_str().is_empty() {
                None
            } else {
                Some(fields[i].value.clone())
            }
        },
        None => None,
    }
}

fn same_text(a: &String, b: &str) -> (same: bool)
    ensures
        same == (a@ == b@),
{
    let other = String::from_str(b);
    *a == other
}

fn names_required_field(key: &String) -> (yes: bool)
    ensures
        yes == is_required_key(key@),
{
    same_text(key, "title") || same_text(key, "date") || same_text(key, "slug") || same_text(
        key,
        "section",
    ) || same_text(key, "summary")
}

fn extra_fields(fields: &Vec<Field>) -> (extra: Vec<Field>)
    ensures
        field_views(extra@) == field_views(fields@).filter(is_extra()),
{
    let ghost all = field_views(fields@);
    let mut extra: Vec<Field> = Vec::new();
    let mut i: usize = 0;
    proof {
        reveal(Seq::filter);
        assert(all.take(0).filter(is_extra()) =~= Seq::<FieldView>::empty());
        assert(field_views(extra@) =~= Seq::<FieldView>::empty());
    }
    while i < fields.len()
        invariant
            i <= fields.len(),
            all == field_views(fields@),
            field_views(extra@) == all.take(i as int).filter(is_extra()),
        decreases fields.len() - i,
    {
        proof {
            assert(all.take(i + 1) =~= all.take(i as int).push(all[i as int]));
            all.take(i as int).lemma_filter_push(all[i as int], is_extra());
        }
        if !names_required_field(&fields[i].key) {
            let ghost kept = field_views(extra@);
            extra.push(fields[i].clone());
            proof {
                assert(field_views(extra@) =~= kept.push(all[i as int]));
            }
        }
        i += 1;
    }
    proof {
        assert(all.take(fields.len() as int) =~= all);
    }
    extra
}

/// Validates the fields of a header, given what the value of `date` was
/// read as.
pub fn build_front_matter(fields: &Vec<Field>, date: Option<Timestamp>) -> (front: Result<
    FrontMatter,
    MetadataError,
>)
    ensures
        match front {
            Ok(made) => front_matter_of(field_views(fields@), date) matches Ok(f) && f == made@,
            Err(fault) => front_matter_of(field_views(fields@), date) matches Err(f) && f == fault,
        },
{
    let title = match required_value(fields, RequiredField::Title) {
        Some(v) => v,
        None => {
            return Err(MetadataError::MissingField(RequiredField::Title));
        },
    };
    if required_value(fields, RequiredField::Date).is_none() {
        return Err(MetadataError::MissingField(RequiredField::Date));
    }
    let slug = match required_value(fields, RequiredField::Slug) {
        Some(v) => v,
        None => {
            return Err(MetadataError::MissingField(RequiredField::Slug));
        },
    };
    let section = match required_value(fields, RequiredField::Section) {
        Some(v) => v,
        None => {
            return Err(MetadataError::MissingField(RequiredField::Section));
        },
    };
    let summary = match required_value(fields, RequiredField::Summary) {
        Some(v) => v,
        None => {
            return Err(MetadataError::MissingField(RequiredField::Summary));
        },
    };
    match date {
        None => Err(MetadataError::MalformedDate),
        Some(at) => Ok(
            FrontMatter { title, date: at, slug, section, summary, extra: extra_fields(fields) },
        ),
    }
}

/// Reads a document: its validated header and its body. `Ok(None)` says
/// that the text has no header and is no document.
pub fn parse(text: &str) -> (outcome: Result<Option<(FrontMatter, String)>, MetadataError>)
    ensures
        match outcome {
            Ok(Some((front, body))) => parsed(text@) matches Ok(Some(p)) && p == (front@, body@),
            Ok(None) => parsed(text@) matches Ok(None),
            Err(fault) => parsed(text@) matches Err(f) && f == fault,
        },
{
    match read_header(text) {
        Err(fault) => Err(fault),
        Ok(None) => Ok(None),
        Ok(Some((fields, body))) => {
            let date = match required_value(&fields, RequiredField::Date) {
                Some(written) => Timestamp::parse(written.as_str()),
                None => None,
            };
            match build_front_matter(&fields, date) {
                Ok(front) => Ok(Some((front, body))),
                Err(fault) => Err(fault),
            }
        },
    }
}

impl MetadataError {
    /// The fault in words, for a diagnostic.
    pub open spec fn description(self) -> Seq<char> {
        match self {
            MetadataError::Unterminated => "the header is not closed by a `---` line"@,
            MetadataError::MalformedLine(number) => "line "@ + decimal_text(number as nat)
                + " of the header is not of the form `key: value`"@,
            MetadataError::MissingField(field) => "the header gives no `"@ + field.key() + "`"@,
            MetadataError::MalformedDate => "the value of `date` is no RFC 3339 date and time"@,
        }
    }

    /// Writes the fault in words.
    pub fn describe(&self) -> (text: String)
        ensures
            text@ == self.description(),
    {
        match self {
            MetadataError::Unterminated => String::from_str(
                "the header is not closed by a `---` line",
            ),
            MetadataError::MalformedLine(number) => {
                let mut text = String::from_str("line ");
                text.append(decimal(*number).as_str());
                text.append(" of the header is not of the form `key: value`");
                text
            },
            MetadataError::MissingField(field) => {
                let mut text = String::from_str("the header gives no `");
                text.append(field.name());
                text.append("`");
                text
            },
            MetadataError::MalformedDate => String::from_str(
                "the value of `date` is no RFC 3339 date and time",
            ),
        }
    }
}

} // verus!
