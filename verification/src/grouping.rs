//! The index lists the documents section by section, each section's
//! documents by title.

use vstd::prelude::*;
use crate::order::{
    insert_by, insertion_point, keeps_ties_of, lemma_insertion_point_step,
    lemma_insertion_point_stop, lemma_sort_by_is_the_stable_order,
    lemma_sort_by_contains, lemma_sort_by_ordered, lemma_sort_by_permutes, lemma_sort_by_push,
    lemma_sort_by_stable,
    ordered_by, sort_by, strict_weak_order,
};
use crate::post::{post_views, Post, PostView};
use crate::text::{
    chars_of, lemma_lex_asymmetric, lemma_lex_total, lemma_lex_transitive, lex_before, lex_lt,
};

verus! {

/// The documents of one section.
#[derive(Debug, PartialEq, Eq)]
pub struct Group {
    pub section: String,
    pub posts: Vec<Post>,
}

/// A group as texts.
pub struct GroupView {
    pub section: Seq<char>,
    pub posts: Seq<PostView>,
}

impl View for Group {
    type V = GroupView;

    open spec fn view(&self) -> GroupView {
        GroupView { section: self.section@, posts: post_views(self.posts@) }
    }
}

/// The groups of `groups`, each by its view.
pub open spec fn group_views(groups: Seq<Group>) -> Seq<GroupView> {
    groups.map_values(|g: Group| g@)
}

/// The texts of `texts`, each by its view.
pub open spec fn text_views(texts: Seq<String>) -> Seq<Seq<char>> {
    texts.map_values(|t: String| t@)
}

/// Within a section a document comes before another when its title
/// does.
pub open spec fn by_title() -> spec_fn(PostView, PostView) -> bool {
    |a: PostView, b: PostView| lex_lt(a.front.title, b.front.title)
}

/// Selects the documents of `section`.
pub open spec fn in_section(section: Seq<char>) -> spec_fn(PostView) -> bool {
    |p: PostView| p.front.section == section
}

/// Selects the documents titled `title`.
pub open spec fn titled(title: Seq<char>) -> spec_fn(PostView) -> bool {
    |p: PostView| p.front.title == title
}

/// The sections that occur among `posts`, each once, in the order in
/// which they first occur.
pub open spec fn sections_of(posts: Seq<PostView>) -> Seq<Seq<char>>
    decreases posts.len(),
{
    if posts.len() == 0 {
        Seq::empty()
    } else {
        let earlier = sections_of(posts.drop_last());
        if earlier.contains(posts.last().front.section) {
            earlier
        } else {
            earlier.push(posts.last().front.section)
        }
    }
}

/// The documents of `section` among `posts`, by title; documents of one
/// title stay as they stood in `posts`.
pub open spec fn members_of(posts: Seq<PostView>, section: Seq<char>) -> Seq<PostView> {
    sort_by(posts.filter(in_section(section)), by_title())
}

/// One group for each section of `posts`.
pub open spec fn grouped(posts: Seq<PostView>) -> Seq<GroupView> {
    sections_of(posts).map_values(
        |section: Seq<char>| GroupView { section, posts: members_of(posts, section) },
    )
}

/// Titles order documents strictly and weakly: two documents tie exactly
/// when their titles are equal.
pub proof fn lemma_by_title_orders()
    ensures
        strict_weak_order(by_title()),
{
    let before = by_title();
    assert forall|x: PostView, y: PostView| #![trigger before(x, y)] before(x, y) implies !before(
        y,
        x,
    ) by {
        lemma_lex_asymmetric(x.front.title, y.front.title);
    }
    assert forall|x: PostView, y: PostView, z: PostView|
        #![trigger before(x, y), before(y, z)]
        !before(x, y) && !before(y, z) implies !before(x, z) by {
        if before(x, z) {
            lemma_lex_total(x.front.title, y.front.title);
            if lex_lt(y.front.title, x.front.title) {
                lemma_lex_transitive(y.front.title, x.front.title, z.front.title);
            }
        }
    }
}

/// Whether some document of `posts` belongs to `section`.
pub open spec fn occurs_in(posts: Seq<PostView>, section: Seq<char>) -> bool {
    exists|i: int| 0 <= i < posts.len() && (#[trigger] posts[i]).front.section == section
}

/// The sections listed are exactly those that occur, none of them twice.
pub proof fn lemma_sections_of(posts: Seq<PostView>)
    ensures
        sections_of(posts).no_duplicates(),
        forall|s: Seq<char>| #[trigger] sections_of(posts).contains(s) <==> occurs_in(posts, s),
    decreases posts.len(),
{
    if posts.len() > 0 {
        let head = posts.drop_last();
        let earlier = sections_of(head);
        let new = posts.last().front.section;
        lemma_sections_of(head);
        assert forall|s: Seq<char>| #[trigger] sections_of(posts).contains(s) <==> occurs_in(
            posts,
            s,
        ) by {
            if earlier.contains(s) {
                assert(occurs_in(head, s));
                let i = choose|i: int| 0 <= i < head.len() && (#[trigger] head[i]).front.section == s;
                assert(posts[i] == head[i]);
                let k = earlier.index_of(s);
                assert(sections_of(posts)[k] == s);
            } else if s == new {
                assert(posts[posts.len() - 1].front.section == s);
                assert(sections_of(posts)[earlier.len() as int] == s);
            } else {
                if occurs_in(posts, s) {
                    let i = choose|i: int|
                        0 <= i < posts.len() && (#[trigger] posts[i]).front.section == s;
                    assert(head[i] == posts[i]);
                    assert(occurs_in(head, s));
                }
                if sections_of(posts).contains(s) {
                    let k = sections_of(posts).index_of(s);
                    assert(earlier[k] == s);
                }
            }
        }
    }
}

/// The groups read as a mapping from section to documents.
pub open spec fn as_index(groups: Seq<GroupView>) -> Map<Seq<char>, Seq<PostView>> {
    Map::new(
        |section: Seq<char>|
            exists|k: int| 0 <= k < groups.len() && (#[trigger] groups[k]).section == section,
        |section: Seq<char>|
            groups[choose|k: int|
                0 <= k < groups.len() && (#[trigger] groups[k]).section == section].posts,
    )
}

/// The index maps exactly the sections that occur in the collection,
/// each to the documents of that section by title.
pub proof fn lemma_index_of_the_collection(posts: Seq<PostView>)
    ensures
        forall|section: Seq<char>| #[trigger]
            as_index(grouped(posts)).dom().contains(section) <==> occurs_in(posts, section),
        forall|section: Seq<char>|
            occurs_in(posts, section) ==> #[trigger] as_index(grouped(posts))[section]
                == members_of(posts, section),
{
    lemma_sections_of(posts);
    let groups = grouped(posts);
    assert forall|section: Seq<char>| #[trigger]
        as_index(groups).dom().contains(section) <==> occurs_in(posts, section) by {
        if occurs_in(posts, section) {
            assert(sections_of(posts).contains(section));
            let k = sections_of(posts).index_of(section);
            assert(groups[k].section == section);
            assert(as_index(groups).dom().contains(section));
        }
        if as_index(groups).dom().contains(section) {
            let k = choose|k: int|
                0 <= k < groups.len() && (#[trigger] groups[k]).section == section;
            assert(sections_of(posts)[k] == section);
            assert(sections_of(posts).contains(section));
        }
    }
    assert forall|section: Seq<char>| occurs_in(posts, section) implies #[trigger] as_index(
        groups,
    )[section] == members_of(posts, section) by {
        assert(as_index(groups).dom().contains(section));
        let k = choose|k: int| 0 <= k < groups.len() && (#[trigger] groups[k]).section == section;
        assert(sections_of(posts)[k] == section);
    }
}

/// What each group holds: the documents of its section and no others,
/// each as often as it was given, listed by title, documents of one
/// title in the order in which they were given.
pub proof fn lemma_group_contents(posts: Seq<PostView>, k: int)
    requires
        0 <= k < grouped(posts).len(),
    ensures
        grouped(posts)[k].section == sections_of(posts)[k],
        ordered_by(grouped(posts)[k].posts, by_title()),
        grouped(posts)[k].posts.to_multiset() == posts.filter(
            in_section(grouped(posts)[k].section),
        ).to_multiset(),
        forall|title: Seq<char>|
            grouped(posts)[k].posts.filter(#[trigger] titled(title)) == posts.filter(
                in_section(grouped(posts)[k].section),
            ).filter(titled(title)),
{
    let section = sections_of(posts)[k];
    let given = posts.filter(in_section(section));
    lemma_by_title_orders();
    lemma_sort_by_ordered(given, by_title());
    lemma_sort_by_permutes(given, by_title());
    assert forall|title: Seq<char>|
        grouped(posts)[k].posts.filter(#[trigger] titled(title)) == given.filter(
            titled(title),
        ) by {
        let keep = titled(title);
        assert forall|a: PostView, b: PostView| keep(a) && keep(b) implies !#[trigger] by_title()(
            a,
            b,
        ) by {
            lemma_lex_asymmetric(a.front.title, b.front.title);
        }
        lemma_sort_by_stable(given, by_title(), keep);
    }
}

/// The groups hold the collection and nothing else: a document stands in
/// a group exactly if it stands in the collection, and then in the group
/// of its own section.
pub proof fn lemma_groups_hold_the_collection(posts: Seq<PostView>, p: PostView)
    ensures
        posts.contains(p) <==> exists|g: int|
            0 <= g < grouped(posts).len() && (#[trigger] grouped(posts)[g]).posts.contains(p),
        forall|g: int|
            0 <= g < grouped(posts).len() && (#[trigger] grouped(posts)[g]).posts.contains(p)
                ==> grouped(posts)[g].section == p.front.section,
{
    lemma_sections_of(posts);
    assert forall|g: int|
        0 <= g < grouped(posts).len() && (#[trigger] grouped(posts)[g]).posts.contains(
            p,
        ) implies posts.contains(p) && grouped(posts)[g].section == p.front.section by {
        let section = sections_of(posts)[g];
        let given = posts.filter(in_section(section));
        lemma_sort_by_contains(given, by_title(), p);
        let i = given.index_of(p);
        posts.lemma_filter_pred(in_section(section), i);
        posts.lemma_filter_contains_rev(in_section(section), p);
    }
    if posts.contains(p) {
        let i = posts.index_of(p);
        let section = p.front.section;
        assert(posts[i].front.section == section);
        assert(occurs_in(posts, section));
        assert(sections_of(posts).contains(section));
        let g = sections_of(posts).index_of(section);
        let given = posts.filter(in_section(section));
        posts.lemma_filter_contains(in_section(section), i);
        lemma_sort_by_contains(given, by_title(), p);
        assert(sections_of(posts)[g] == section);
        assert(grouped(posts)[g].posts == members_of(posts, section));
        assert(grouped(posts)[g].posts.contains(p));
    }
}

fn title_comes_before(title: &Vec<char>, other: &Post) -> (before: bool)
    ensures
        before == lex_lt(title@, other.front.title@),
{
    let theirs = chars_of(other.front.title.as_str());
    lex_before(title, &theirs)
}

/// Puts `post` among `members` behind the last document whose title does
/// not come after its own.
fn insert_by_title(members: &mut Vec<Post>, post: Post)
    ensures
        post_views(final(members)@) == insert_by(post_views(old(members)@), post@, by_title()),
{
    let title = chars_of(post.front.title.as_str());
    let ghost all = post_views(members@);
    let mut at: usize = members.len();
    proof {
        assert(all.take(at as int) =~= all);
    }
    while at > 0 && title_comes_before(&title, &members[at - 1])
        invariant
            at <= members.len(),
            title@ == post.front.title@,
            all == post_views(members@),
            insertion_point(all, post@, by_title()) == insertion_point(
                all.take(at as int),
                post@,
                by_title(),
            ),
        decreases at,
    {
        proof {
            lemma_insertion_point_step(all, post@, by_title(), at as int);
        }
        at -= 1;
    }
    proof {
        lemma_insertion_point_stop(all, post@, by_title(), at as int);
        assert(post_views(members@.insert(at as int, post)) =~= all.insert(at as int, post@));
    }
    members.insert(at, post);
}

fn contains_text(texts: &Vec<String>, text: &String) -> (found: bool)
    ensures
        found == text_views(texts@).contains(text@),
{
    let mut i: usize = 0;
    while i < texts.len()
        invariant
            i <= texts.len(),
            forall|j: int| 0 <= j < i ==> text_views(texts@)[j] != text@,
        decreases texts.len() - i,
    {
        if texts[i] == *text {
            proof {
                assert(text_views(texts@)[i as int] == text@);
            }
            return true;
        }
        i += 1;
    }
    false
}

fn distinct_sections(posts: &Vec<Post>) -> (sections: Vec<String>)
    ensures
        text_views(sections@) == sections_of(post_views(posts@)),
{
    let ghost all = post_views(posts@);
    let mut sections: Vec<String> = Vec::new();
    let mut i: usize = 0;
    proof {
        assert(text_views(sections@) =~= sections_of(all.take(0)));
    }
    while i < posts.len()
        invariant
            i <= posts.len(),
            all == post_views(posts@),
            text_views(sections@) == sections_of(all.take(i as int)),
        decreases posts.len() - i,
    {
        proof {
            assert(all.take(i + 1).drop_last() =~= all.take(i as int));
        }
        if !contains_text(&sections, &posts[i].front.section) {
            let ghost earlier = text_views(sections@);
            sections.push(posts[i].front.section.clone());
            proof {
                assert(text_views(sections@) =~= earlier.push(posts@[i as int].front.section@));
            }
        }
        i += 1;
    }
    proof {
        assert(all.take(posts.len() as int) =~= all);
    }
    sections
}

fn collect_section(posts: &Vec<Post>, section: &String) -> (members: Vec<Post>)
    ensures
        post_views(members@) == members_of(post_views(posts@), section@),
{
    let ghost all = post_views(posts@);
    let ghost keep = in_section(section@);
    let mut members: Vec<Post> = Vec::new();
    let mut i: usize = 0;
    proof {
        reveal(Seq::filter);
        assert(all.take(0).filter(keep) =~= Seq::<PostView>::empty());
        assert(post_views(members@) =~= Seq::<PostView>::empty());
    }
    while i < posts.len()
        invariant
            i <= posts.len(),
            all == post_views(posts@),
            keep == in_section(section@),
            post_views(members@) == sort_by(all.take(i as int).filter(keep), by_title()),
        decreases posts.len() - i,
    {
        proof {
            assert(all.take(i + 1) =~= all.take(i as int).push(all[i as int]));
            all.take(i as int).lemma_filter_push(all[i as int], keep);
        }
        if posts[i].front.section == *section {
            insert_by_title(&mut members, posts[i].clone());
            proof {
                lemma_sort_by_push(all.take(i as int).filter(keep), all[i as int], by_title());
            }
        }
        i += 1;
    }
    proof {
        assert(all.take(posts.len() as int) =~= all);
    }
    members
}

/// Groups the documents by section. There is one group for each section
/// that occurs, in the order in which the sections first occur; a group
/// lists the documents of its section by title, documents of one title
/// in the order given.
pub fn group_posts(posts: &Vec<Post>) -> (groups: Vec<Group>)
    ensures
        group_views(groups@) == grouped(post_views(posts@)),
        forall|k: int|
            0 <= k < groups.len() ==> ordered_by(#[trigger] group_views(groups@)[k].posts, by_title()),
        forall|k: int|
            0 <= k < groups.len() ==> keeps_ties_of(
                #[trigger] group_views(groups@)[k].posts,
                post_views(posts@).filter(in_section(group_views(groups@)[k].section)),
                by_title(),
            ),
{
    let ghost all = post_views(posts@);
    let sections = distinct_sections(posts);
    let mut groups: Vec<Group> = Vec::new();
    let mut k: usize = 0;
    while k < sections.len()
        invariant
            k <= sections.len(),
            groups.len() == k,
            all == post_views(posts@),
            text_views(sections@) == sections_of(all),
            forall|j: int|
                0 <= j < k ==> (#[trigger] groups@[j])@ == (GroupView {
                    section: sections@[j]@,
                    posts: members_of(all, sections@[j]@),
                }),
        decreases sections.len() - k,
    {
        let members = collect_section(posts, &sections[k]);
        groups.push(Group { section: sections[k].clone(), posts: members });
        k += 1;
    }
    proof {
        assert forall|j: int| 0 <= j < groups.len() implies group_views(groups@)[j] == grouped(
            all,
        )[j] by {
            assert(text_views(sections@)[j] == sections@[j]@);
        }
        assert(group_views(groups@) =~= grouped(all));
        assert forall|j: int| 0 <= j < groups.len() implies ordered_by(
            #[trigger] group_views(groups@)[j].posts,
            by_title(),
        ) by {
            lemma_group_contents(all, j);
        }
        assert forall|j: int| 0 <= j < groups.len() implies keeps_ties_of(
            #[trigger] group_views(groups@)[j].posts,
            all.filter(in_section(group_views(groups@)[j].section)),
            by_title(),
        ) by {
            let given = all.filter(in_section(sections_of(all)[j]));
            lemma_by_title_orders();
            lemma_sort_by_is_the_stable_order(given, given, by_title());
        }
    }
    groups
}

} // verus!
