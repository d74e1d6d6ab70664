//! The three feed documents: each lists the records of the posts, in the
//! order of the posts, inside the envelope of its format.

use vstd::prelude::*;
use vstd::string::StringExecFns;
use crate::identity::is_uuid_v5_text;
use crate::identity::uuid_v5_url;
use crate::identity::uuid_v5_url_of;
use crate::parser::get_posts;
use crate::parser::line_views;
use crate::parser::parsed;
use crate::parser::ParseError;
use crate::post::all_wf;
use crate::post::atom_entry;
use crate::post::derived_parts_wf;
use crate::post::json_item;
use crate::post::post_views;
use crate::post::rss_item;
use crate::post::urn_from_id;
use crate::post::urn_text;
use crate::post::Post;
use crate::post::PostView;
use crate::time::in_rfc2822_span;
use crate::time::rfc2822_of;
use crate::time::rfc2822_text;

verus! {

/// What the documents say of the site.
#[derive(Debug, Clone)]
pub struct Site {
    /// The handle of the author, used as the title of the feeds.
    pub name: String,
    /// The absolute URL of the site, without a slash at its end.
    pub base_url: String,
}

/// The three documents of one run.
#[derive(Debug, Clone)]
pub struct Feeds {
    pub rss: String,
    pub atom: String,
    pub json: String,
}

/// The RSS items of the posts, one after the other in the order of the posts.
pub open spec fn rss_items(posts: Seq<PostView>, base_url: Seq<char>) -> Seq<char>
    decreases posts.len(),
{
    if posts.len() == 0 {
        Seq::empty()
    } else {
        rss_items(posts.drop_last(), base_url) + rss_item(posts.last(), base_url)
    }
}

/// The Atom entries of the posts, one after the other in the order of the
/// posts.
pub open spec fn atom_entries(posts: Seq<PostView>) -> Seq<char>
    decreases posts.len(),
{
    if posts.len() == 0 {
        Seq::empty()
    } else {
        atom_entries(posts.drop_last()) + atom_entry(posts.last())
    }
}

/// The JSON Feed items of the posts in the order of the posts, with a comma
/// between each two of them, so that they are the elements of an array.
pub open spec fn json_items(posts: Seq<PostView>) -> Seq<char>
    decreases posts.len(),
{
    if posts.len() == 0 {
        Seq::empty()
    } else if posts.len() == 1 {
        json_item(posts[0])
    } else {
        json_items(posts.drop_last()) + ","@ + json_item(posts.last())
    }
}

/// The identifier of the feed as a URN: the name-based UUID of the site's
/// name.
pub open spec fn feed_urn(site_name: Seq<char>) -> Seq<char> {
    urn_text(uuid_v5_url(site_name))
}

/// The RSS 2.0 document of the posts, built at the time `now`.
pub open spec fn rss_feed(
    posts: Seq<PostView>,
    site_name: Seq<char>,
    base_url: Seq<char>,
    now: int,
) -> Seq<char> {
    rss_document_text(site_name, base_url, rfc2822_text(now), rss_items(posts, base_url))
}

/// The Atom document of the posts, built at the time `now`.
pub open spec fn atom_feed(
    posts: Seq<PostView>,
    site_name: Seq<char>,
    base_url: Seq<char>,
    now: int,
) -> Seq<char> {
    atom_document_text(
        site_name,
        base_url,
        feed_urn(site_name),
        rfc2822_text(now),
        atom_entries(posts),
    )
}

/// The JSON Feed document of the posts.
pub open spec fn json_feed(
    posts: Seq<PostView>,
    site_name: Seq<char>,
    base_url: Seq<char>,
) -> Seq<char> {
    json_document_text(site_name, base_url, json_items(posts))
}

/// The RSS 2.0 document round the items.
pub open spec fn rss_document_text(
    site_name: Seq<char>,
    base_url: Seq<char>,
    now: Seq<char>,
    items: Seq<char>,
) -> Seq<char> {
    "<?xml version=\"1.0\" encoding=\"UTF-8\" ?>\n<rss version=\"2.0\">\n    <channel>\n        <title>"@
        + site_name
        + "</title>\n        <description>microbe feed by "@
        + site_name
        + "</description>\n        <link>"@
        + base_url
        + "</link>\n        <lastBuildDate>"@
        + now
        + "</lastBuildDate>\n        "@
        + items
        + "\n    </channel>\n</rss>"@
}

/// Writes the RSS 2.0 document round the items.
pub fn rss_document_from_parts(
    site_name: &str,
    base_url: &str,
    now: &str,
    items: &str,
) -> (r: String)
    ensures
        r@ == rss_document_text(site_name@, base_url@, now@, items@),
{
    let mut s = String::from_str("<?xml version=\"1.0\" encoding=\"UTF-8\" ?>\n<rss version=\"2.0\">\n    <channel>\n        <title>");
    s.append(site_name);
    s.append("</title>\n        <description>microbe feed by ");
    s.append(site_name);
    s.append("</description>\n        <link>");
    s.append(base_url);
    s.append("</link>\n        <lastBuildDate>");
    s.append(now);
    s.append("</lastBuildDate>\n        ");
    s.append(items);
    s.append("\n    </channel>\n</rss>");
    s
}

/// The Atom document round the entries.
pub open spec fn atom_document_text(
    site_name: Seq<char>,
    base_url: Seq<char>,
    feed_urn: Seq<char>,
    now: Seq<char>,
    entries: Seq<char>,
) -> Seq<char> {
    "<?xml version=\"1.0\" encoding=\"UTF-8\" ?>\n<feed xmlns=\"http://www.w3.org/2005/Atom\">\n    <title>"@
        + site_name
        + "</title>\n    <subtitle>microbe feed by "@
        + site_name
        + "</subtitle>\n    <link href=\""@
        + base_url
        + "/feed.atom\" rel=\"self\" />\n    <link href=\""@
        + base_url
        + "\" />\n    <id>"@
        + feed_urn
        + "</id>\n    <updated>"@
        + now
        + "</updated>\n\n    "@
        + entries
        + "\n</feed>"@
}

/// Writes the Atom document round the entries.
pub fn atom_document_from_parts(
    site_name: &str,
    base_url: &str,
    feed_urn: &str,
    now: &str,
    entries: &str,
) -> (r: String)
    ensures
        r@ == atom_document_text(site_name@, base_url@, feed_urn@, now@, entries@),
{
    let mut s = String::from_str("<?xml version=\"1.0\" encoding=\"UTF-8\" ?>\n<feed xmlns=\"http://www.w3.org/2005/Atom\">\n    <title>");
    s.append(site_name);
    s.append("</title>\n    <subtitle>microbe feed by ");
    s.append(site_name);
    s.append("</subtitle>\n    <link href=\"");
    s.append(base_url);
    s.append("/feed.atom\" rel=\"self\" />\n    <link href=\"");
    s.append(base_url);
    s.append("\" />\n    <id>");
    s.append(feed_urn);
    s.append("</id>\n    <updated>");
    s.append(now);
    s.append("</updated>\n\n    ");
    s.append(entries);
    s.append("\n</feed>");
    s
}

/// The JSON Feed document round the items.
pub open spec fn json_document_text(
    site_name: Seq<char>,
    base_url: Seq<char>,
    items: Seq<char>,
) -> Seq<char> {
    "{\n    \"version\": \"https://jsonfeed.org/version/1\",\n    \"title\": \"@"@
        + site_name
        + "\",\n    \"home_page_url\": \""@
        + base_url
        + "\",\n    \"feed_url\": \""@
        + base_url
        + "/feed.json\",\n    \"items\": [\n        "@
        + items
        + "\n    ]\n}"@
}

/// Writes the JSON Feed document round the items.
pub fn json_document_from_parts(
    site_name: &str,
    base_url: &str,
    items: &str,
) -> (r: String)
    ensures
        r@ == json_document_text(site_name@, base_url@, items@),
{
    let mut s = String::from_str("{\n    \"version\": \"https://jsonfeed.org/version/1\",\n    \"title\": \"@");
    s.append(site_name);
    s.append("\",\n    \"home_page_url\": \"");
    s.append(base_url);
    s.append("\",\n    \"feed_url\": \"");
    s.append(base_url);
    s.append("/feed.json\",\n    \"items\": [\n        ");
    s.append(items);
    s.append("\n    ]\n}");
    s
}

/// Writes the RSS items of the posts.
pub fn rss_items_of(posts: &Vec<Post>, base_url: &str) -> (r: String)
    requires
        all_wf(posts@),
    ensures
        r@ == rss_items(post_views(posts@), base_url@),
        forall|k: int|
            0 <= k < posts.len() ==> derived_parts_wf(#[trigger] post_views(posts@)[k]),
{
    let ghost views = post_views(posts@);
    let mut items = String::new();
    let mut i: usize = 0;
    assert(views.take(0) =~= Seq::<PostView>::empty());
    while i < posts.len()
        invariant
            i <= posts.len(),
            all_wf(posts@),
            views == post_views(posts@),
            forall|k: int| 0 <= k < i ==> derived_parts_wf(#[trigger] views[k]),
            items@ == rss_items(views.take(i as int), base_url@),
        decreases posts.len() - i,
    {
        let item = posts[i].as_rss(base_url);
        items.append(item.as_str());
        proof {
            let next = views.take(i + 1);
            assert(next.drop_last() =~= views.take(i as int));
            assert(next.last() == posts[i as int]@);
        }
        i += 1;
    }
    assert(views.take(i as int) =~= views);
    items
}

/// Writes the Atom entries of the posts.
pub fn atom_entries_of(posts: &Vec<Post>) -> (r: String)
    requires
        all_wf(posts@),
    ensures
        r@ == atom_entries(post_views(posts@)),
        forall|k: int|
            0 <= k < posts.len() ==> derived_parts_wf(#[trigger] post_views(posts@)[k]),
{
    let ghost views = post_views(posts@);
    let mut entries = String::new();
    let mut i: usize = 0;
    assert(views.take(0) =~= Seq::<PostView>::empty());
    while i < posts.len()
        invariant
            i <= posts.len(),
            all_wf(posts@),
            views == post_views(posts@),
            forall|k: int| 0 <= k < i ==> derived_parts_wf(#[trigger] views[k]),
            entries@ == atom_entries(views.take(i as int)),
        decreases posts.len() - i,
    {
        let entry = posts[i].as_atom();
        entries.append(entry.as_str());
        proof {
            let next = views.take(i + 1);
            assert(next.drop_last() =~= views.take(i as int));
            assert(next.last() == posts[i as int]@);
        }
        i += 1;
    }
    assert(views.take(i as int) =~= views);
    entries
}

/// Writes the JSON Feed items of the posts, with a comma between each two.
pub fn json_items_of(posts: &Vec<Post>) -> (r: String)
    requires
        all_wf(posts@),
    ensures
        r@ == json_items(post_views(posts@)),
        forall|k: int|
            0 <= k < posts.len() ==> derived_parts_wf(#[trigger] post_views(posts@)[k]),
{
    let ghost views = post_views(posts@);
    let mut items = String::new();
    let mut i: usize = 0;
    assert(views.take(0) =~= Seq::<PostView>::empty());
    while i < posts.len()
        invariant
            i <= posts.len(),
            all_wf(posts@),
            views == post_views(posts@),
            forall|k: int| 0 <= k < i ==> derived_parts_wf(#[trigger] views[k]),
            items@ == json_items(views.take(i as int)),
        decreases posts.len() - i,
    {
        let item = posts[i].as_json();
        if i > 0 {
            items.append(",");
        } else {
            proof {
                lemma_empty_join(item@);
            }
        }
        items.append(item.as_str());
        proof {
            let next = views.take(i + 1);
            assert(next.drop_last() =~= views.take(i as int));
            assert(next.last() == posts[i as int]@);
            assert(next[0] == views[0]);
        }
        i += 1;
    }
    assert(views.take(i as int) =~= views);
    items
}

/// The RSS 2.0 document of the posts. `now` is the time of the build in epoch
/// seconds; RFC 2822 can only write it in the years 0000 to 9999.
pub fn create_rss_from_posts(posts: &Vec<Post>, site: &Site, now: i64) -> (r: String)
    requires
        all_wf(posts@),
        in_rfc2822_span(now as int),
    ensures
        r@ == rss_feed(post_views(posts@), site.name@, site.base_url@, now as int),
        forall|k: int|
            0 <= k < posts.len() ==> derived_parts_wf(#[trigger] post_views(posts@)[k]),
{
    let built = rfc2822_of(now);
    let items = rss_items_of(posts, site.base_url.as_str());
    rss_document_from_parts(
        site.name.as_str(),
        site.base_url.as_str(),
        built.as_str(),
        items.as_str(),
    )
}

/// The Atom document of the posts. `now` is the time of the build in epoch
/// seconds; RFC 2822 can only write it in the years 0000 to 9999.
pub fn create_atom_from_posts(posts: &Vec<Post>, site: &Site, now: i64) -> (r: String)
    requires
        all_wf(posts@),
        in_rfc2822_span(now as int),
    ensures
        r@ == atom_feed(post_views(posts@), site.name@, site.base_url@, now as int),
        is_uuid_v5_text(uuid_v5_url(site.name@)),
        forall|k: int|
            0 <= k < posts.len() ==> derived_parts_wf(#[trigger] post_views(posts@)[k]),
{
    let built = rfc2822_of(now);
    let id = uuid_v5_url_of(site.name.as_str());
    let urn = urn_from_id(id.as_str());
    let entries = atom_entries_of(posts);
    atom_document_from_parts(
        site.name.as_str(),
        site.base_url.as_str(),
        urn.as_str(),
        built.as_str(),
        entries.as_str(),
    )
}

/// The JSON Feed document of the posts.
pub fn create_json_from_posts(posts: &Vec<Post>, site: &Site) -> (r: String)
    requires
        all_wf(posts@),
    ensures
        r@ == json_feed(post_views(posts@), site.name@, site.base_url@),
        forall|k: int|
            0 <= k < posts.len() ==> derived_parts_wf(#[trigger] post_views(posts@)[k]),
{
    let items = json_items_of(posts);
    json_document_from_parts(site.name.as_str(), site.base_url.as_str(), items.as_str())
}

/// The three documents of the posts, built at the time `now`.
pub fn render(posts: &Vec<Post>, site: &Site, now: i64) -> (r: Feeds)
    requires
        all_wf(posts@),
        in_rfc2822_span(now as int),
    ensures
        r.rss@ == rss_feed(post_views(posts@), site.name@, site.base_url@, now as int),
        r.atom@ == atom_feed(post_views(posts@), site.name@, site.base_url@, now as int),
        r.json@ == json_feed(post_views(posts@), site.name@, site.base_url@),
        forall|k: int|
            0 <= k < posts.len() ==> derived_parts_wf(#[trigger] post_views(posts@)[k]),
{
    Feeds {
        rss: create_rss_from_posts(posts, site, now),
        atom: create_atom_from_posts(posts, site, now),
        json: create_json_from_posts(posts, site),
    }
}

/// Reads the log and writes the three documents: all of them, or the error
/// of the first malformed record-start line and no document at all.
pub fn convert(lines: &Vec<String>, site: &Site, now: i64) -> (r: Result<Feeds, ParseError>)
    requires
        in_rfc2822_span(now as int),
    ensures
        match r {
            Ok(feeds) => {
                &&& parsed(line_views(lines@)) matches Ok(posts)
                &&& feeds.rss@ == rss_feed(posts, site.name@, site.base_url@, now as int)
                &&& feeds.atom@ == atom_feed(posts, site.name@, site.base_url@, now as int)
                &&& feeds.json@ == json_feed(posts, site.name@, site.base_url@)
                &&& forall|k: int| 0 <= k < posts.len() ==> derived_parts_wf(#[trigger] posts[k])
            },
            Err(ParseError::MalformedTimestamp { line_number, line }) => {
                &&& 1 <= line_number <= lines.len()
                &&& parsed(line_views(lines@)) == Err::<Seq<PostView>, int>(line_number - 1)
                &&& line@ == lines[line_number - 1]@
            },
        },
{
    match get_posts(lines) {
        Ok(posts) => Ok(render(&posts, site, now)),
        Err(error) => Err(error),
    }
}

/// Joining texts does not depend on how they are grouped.
pub proof fn lemma_join_assoc(x: Seq<char>, y: Seq<char>, z: Seq<char>)
    ensures
        (x + y) + z == x + (y + z),
{
    assert((x + y) + z =~= x + (y + z));
}

/// Joining a text with the empty text leaves it as it is.
pub proof fn lemma_join_empty(x: Seq<char>)
    ensures
        x + Seq::<char>::empty() == x,
{
    assert(x + Seq::<char>::empty() =~= x);
}

/// The RSS items of posts listed one after the other are the items of the
/// first list followed by those of the second: the document keeps the order
/// of the posts.
pub proof fn lemma_rss_items_keep_order(a: Seq<PostView>, b: Seq<PostView>, base_url: Seq<char>)
    ensures
        rss_items(a + b, base_url) == rss_items(a, base_url) + rss_items(b, base_url),
    decreases b.len(),
{
    if b.len() == 0 {
        assert(a + b =~= a);
        lemma_join_empty(rss_items(a, base_url));
    } else {
        lemma_rss_items_keep_order(a, b.drop_last(), base_url);
        assert((a + b).drop_last() =~= a + b.drop_last());
        assert((a + b).last() == b.last());
        lemma_join_assoc(
            rss_items(a, base_url),
            rss_items(b.drop_last(), base_url),
            rss_item(b.last(), base_url),
        );
    }
}

/// The Atom entries of posts listed one after the other are the entries of
/// the first list followed by those of the second.
pub proof fn lemma_atom_entries_keep_order(a: Seq<PostView>, b: Seq<PostView>)
    ensures
        atom_entries(a + b) == atom_entries(a) + atom_entries(b),
    decreases b.len(),
{
    if b.len() == 0 {
        assert(a + b =~= a);
        lemma_join_empty(atom_entries(a));
    } else {
        lemma_atom_entries_keep_order(a, b.drop_last());
        assert((a + b).drop_last() =~= a + b.drop_last());
        assert((a + b).last() == b.last());
        lemma_join_assoc(atom_entries(a), atom_entries(b.drop_last()), atom_entry(b.last()));
    }
}

/// Joining the empty text with a text leaves it as it is.
pub proof fn lemma_empty_join(x: Seq<char>)
    ensures
        Seq::<char>::empty() + x == x,
{
    assert(Seq::<char>::empty() + x =~= x);
}

/// The JSON Feed items of posts listed one after the other are the items of
/// the first list, a comma, and those of the second; where one list is
/// empty, they are the items of the other.
pub proof fn lemma_json_items_keep_order(a: Seq<PostView>, b: Seq<PostView>)
    ensures
        json_items(a + b) == if a.len() == 0 {
            json_items(b)
        } else if b.len() == 0 {
            json_items(a)
        } else {
            json_items(a) + ","@ + json_items(b)
        },
    decreases b.len(),
{
    if a.len() == 0 {
        assert(a + b =~= b);
    } else if b.len() == 0 {
        assert(a + b =~= a);
    } else {
        assert((a + b).drop_last() =~= a + b.drop_last());
        assert((a + b).last() == b.last());
        if b.len() == 1 {
            assert(a + b.drop_last() =~= a);
            assert(b.last() == b[0]);
        } else {
            lemma_json_items_keep_order(a, b.drop_last());
            let head = json_items(a) + ","@;
            lemma_join_assoc(head, json_items(b.drop_last()), ","@);
            lemma_join_assoc(head, json_items(b.drop_last()) + ","@, json_item(b.last()));
        }
    }
}

/// The record of the `k`-th post stands in the RSS document between the
/// records of the posts before it and those of the posts after it, whatever
/// the times of the posts and of the build.
pub proof fn lemma_rss_feed_lists_posts_in_order(
    posts: Seq<PostView>,
    k: int,
    site_name: Seq<char>,
    base_url: Seq<char>,
    now: int,
)
    requires
        0 <= k < posts.len(),
    ensures
        rss_items(posts, base_url) == rss_items(posts.take(k), base_url) + rss_item(
            posts[k],
            base_url,
        ) + rss_items(posts.skip(k + 1), base_url),
        rss_feed(posts, site_name, base_url, now) == rss_document_text(
            site_name,
            base_url,
            rfc2822_text(now),
            rss_items(posts.take(k), base_url) + rss_item(posts[k], base_url) + rss_items(
                posts.skip(k + 1),
                base_url,
            ),
        ),
{
    let one = seq![posts[k]];
    assert(posts =~= (posts.take(k) + one) + posts.skip(k + 1));
    lemma_rss_items_keep_order(posts.take(k) + one, posts.skip(k + 1), base_url);
    lemma_rss_items_keep_order(posts.take(k), one, base_url);
    assert(one.drop_last() =~= Seq::<PostView>::empty());
    assert(rss_items(one.drop_last(), base_url) == Seq::<char>::empty());
    lemma_empty_join(rss_item(posts[k], base_url));
}

/// The record of the `k`-th post stands in the Atom document between the
/// records of the posts before it and those of the posts after it, whatever
/// the times of the posts and of the build.
pub proof fn lemma_atom_feed_lists_posts_in_order(
    posts: Seq<PostView>,
    k: int,
    site_name: Seq<char>,
    base_url: Seq<char>,
    now: int,
)
    requires
        0 <= k < posts.len(),
    ensures
        atom_entries(posts) == atom_entries(posts.take(k)) + atom_entry(posts[k]) + atom_entries(
            posts.skip(k + 1),
        ),
        atom_feed(posts, site_name, base_url, now) == atom_document_text(
            site_name,
            base_url,
            feed_urn(site_name),
            rfc2822_text(now),
            atom_entries(posts.take(k)) + atom_entry(posts[k]) + atom_entries(posts.skip(k + 1)),
        ),
{
    let one = seq![posts[k]];
    assert(posts =~= (posts.take(k) + one) + posts.skip(k + 1));
    lemma_atom_entries_keep_order(posts.take(k) + one, posts.skip(k + 1));
    lemma_atom_entries_keep_order(posts.take(k), one);
    assert(one.drop_last() =~= Seq::<PostView>::empty());
    assert(atom_entries(one.drop_last()) == Seq::<char>::empty());
    lemma_empty_join(atom_entry(posts[k]));
}

/// The items of the JSON Feed document up to the `k`-th post end with the
/// item of that post, after a comma where posts stand before it; the items
/// of the posts after it follow, after a comma where there are any.
pub proof fn lemma_json_feed_lists_posts_in_order(posts: Seq<PostView>, k: int)
    requires
        0 <= k < posts.len(),
    ensures
        json_items(posts.take(k + 1)) == if k == 0 {
            json_item(posts[k])
        } else {
            json_items(posts.take(k)) + ","@ + json_item(posts[k])
        },
        json_items(posts) == if k + 1 == posts.len() {
            json_items(posts.take(k + 1))
        } else {
            json_items(posts.take(k + 1)) + ","@ + json_items(posts.skip(k + 1))
        },
{
    let upto = posts.take(k + 1);
    assert(upto.drop_last() =~= posts.take(k));
    assert(upto.last() == posts[k]);
    assert(upto[0] == posts[0]);
    assert(posts =~= upto + posts.skip(k + 1));
    lemma_json_items_keep_order(upto, posts.skip(k + 1));
}

/// Posts that are equal one by one, with the same site and build time, give
/// the same three documents: nothing else is read.
pub proof fn lemma_equal_posts_give_equal_documents(
    a: Seq<Post>,
    b: Seq<Post>,
    site_name: Seq<char>,
    base_url: Seq<char>,
    now: int,
)
    requires
        a.len() == b.len(),
        forall|i: int| 0 <= i < a.len() ==> (#[trigger] a[i])@ == b[i]@,
    ensures
        post_views(a) == post_views(b),
        rss_feed(post_views(a), site_name, base_url, now) == rss_feed(
            post_views(b),
            site_name,
            base_url,
            now,
        ),
        atom_feed(post_views(a), site_name, base_url, now) == atom_feed(
            post_views(b),
            site_name,
            base_url,
            now,
        ),
        json_feed(post_views(a), site_name, base_url) == json_feed(
            post_views(b),
            site_name,
            base_url,
        ),
{
    assert(post_views(a) =~= post_views(b));
}

/// The same log, site and build time give the same three documents.
pub proof fn lemma_documents_determined(
    lines_a: Seq<Seq<char>>,
    lines_b: Seq<Seq<char>>,
    site_name: Seq<char>,
    base_url: Seq<char>,
    now: int,
)
    requires
        lines_a == lines_b,
        parsed(lines_a) is Ok,
    ensures
        parsed(lines_b) is Ok,
        rss_feed(parsed(lines_a)->Ok_0, site_name, base_url, now) == rss_feed(
            parsed(lines_b)->Ok_0,
            site_name,
            base_url,
            now,
        ),
        atom_feed(parsed(lines_a)->Ok_0, site_name, base_url, now) == atom_feed(
            parsed(lines_b)->Ok_0,
            site_name,
            base_url,
            now,
        ),
        json_feed(parsed(lines_a)->Ok_0, site_name, base_url) == json_feed(
            parsed(lines_b)->Ok_0,
            site_name,
            base_url,
        ),
{
}

} // verus!
