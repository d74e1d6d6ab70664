//! A post, its derived identifier and slug, and its record in each of the
//! three feed formats.

use vstd::prelude::*;
use vstd::string::StringExecFns;
use crate::identity::all_slug_chars;
use crate::identity::is_slug_char;
use crate::identity::is_tidy;
use crate::identity::is_uuid_v5_text;
use crate::identity::slugified;
use crate::identity::slugify_of;
use crate::identity::uuid_v5_url;
use crate::identity::uuid_v5_url_of;
use crate::text::decimal_string;
use crate::text::decimal_text;
use crate::text::is_digit;
use crate::text::lemma_decimal_text_chars;
use crate::time::in_span;
use crate::time::is_in_span;
use crate::time::rfc3339_of;
use crate::time::rfc3339_text;

verus! {

/// The most characters that the content contributes to a slug.
pub const SLUG_FRAGMENT_CAP: usize = 24;

/// One dated entry of the log.
#[derive(Debug, Clone)]
pub struct Post {
    /// The lines of the entry, joined by single spaces.
    pub content: String,
    /// Whole seconds since the Unix epoch, in UTC.
    pub timestamp: i64,
}

/// What a post is: its text and its time.
pub struct PostView {
    pub content: Seq<char>,
    pub timestamp: int,
}

impl View for Post {
    type V = PostView;

    open spec fn view(&self) -> PostView {
        PostView { content: self.content@, timestamp: self.timestamp as int }
    }
}

/// The identifier of a post made at `timestamp`: the name-based UUID, in the
/// URL namespace, of the epoch seconds written as decimal text (`0` for the
/// epoch). The content plays no part in it.
pub open spec fn stable_id_of(timestamp: int) -> Seq<char> {
    uuid_v5_url(decimal_text(timestamp))
}

/// The part of a slug that comes from the content: lower-cased, runs of other
/// characters collapsed to one hyphen, cut to the cap.
pub open spec fn slug_fragment_of(content: Seq<char>) -> Seq<char> {
    slugified(content, ""@, "-"@, Some(SLUG_FRAGMENT_CAP))
}

/// A slug from the epoch seconds and the content's fragment.
pub open spec fn slug_text(timestamp: int, fragment: Seq<char>) -> Seq<char> {
    decimal_text(timestamp) + "_"@ + fragment
}

/// The slug of a post.
pub open spec fn slug_of(post: PostView) -> Seq<char> {
    slug_text(post.timestamp, slug_fragment_of(post.content))
}

/// Whether `c` may stand in a slug: a lower-case ASCII letter, a digit, a
/// hyphen or an underscore.
pub open spec fn is_url_safe(c: char) -> bool {
    ('a' <= c && c <= 'z') || is_digit(c) || c == '-' || c == '_'
}

/// Whether a text holds nothing but characters that may stand in a slug.
pub open spec fn all_url_safe(text: Seq<char>) -> bool {
    forall|i: int| 0 <= i < text.len() ==> is_url_safe(#[trigger] text[i])
}

/// What holds of the identifier and the slug's fragment of every post: the
/// identifier has the shape of a version-5 UUID; the fragment is no longer
/// than the cap, holds lower-case letters, digits and hyphens only, neither
/// starts nor ends with a hyphen, never holds two in a row, and is empty for
/// empty content.
pub open spec fn derived_parts_wf(post: PostView) -> bool {
    &&& is_uuid_v5_text(stable_id_of(post.timestamp))
    &&& slug_fragment_of(post.content).len() <= SLUG_FRAGMENT_CAP
    &&& all_slug_chars(slug_fragment_of(post.content), '-')
    &&& is_tidy(slug_fragment_of(post.content), '-')
    &&& post.content.len() == 0 ==> slug_fragment_of(post.content).len() == 0
}

/// The URN form of an identifier.
pub open spec fn urn_text(id: Seq<char>) -> Seq<char> {
    "urn:uuid:"@ + id
}

/// The RSS item of a post under `base_url`.
pub open spec fn rss_item(post: PostView, base_url: Seq<char>) -> Seq<char> {
    rss_item_text(
        rfc3339_text(post.timestamp),
        post.content,
        base_url,
        slug_of(post),
        stable_id_of(post.timestamp),
    )
}

/// The Atom entry of a post.
pub open spec fn atom_entry(post: PostView) -> Seq<char> {
    atom_entry_text(
        rfc3339_text(post.timestamp),
        post.content,
        slug_of(post),
        urn_text(stable_id_of(post.timestamp)),
    )
}

/// The JSON Feed item of a post.
pub open spec fn json_item(post: PostView) -> Seq<char> {
    json_item_text(
        rfc3339_text(post.timestamp),
        post.content,
        slug_of(post),
        stable_id_of(post.timestamp),
    )
}

/// Writes the slug from the epoch seconds and the content's fragment.
pub fn slug_from_parts(timestamp: i64, fragment: &str) -> (r: String)
    ensures
        r@ == slug_text(timestamp as int, fragment@),
{
    let mut s = decimal_string(timestamp);
    s.append("_");
    s.append(fragment);
    s
}

/// Writes the URN form of an identifier.
pub fn urn_from_id(id: &str) -> (r: String)
    ensures
        r@ == urn_text(id@),
{
    let mut s = String::from_str("urn:uuid:");
    s.append(id);
    s
}

/// One RSS item: the title is the time, the description the raw content, the
/// link the slug under the base URL, the guid the identifier.
pub open spec fn rss_item_text(
    time: Seq<char>,
    content: Seq<char>,
    base_url: Seq<char>,
    slug: Seq<char>,
    id: Seq<char>,
) -> Seq<char> {
    "<item>\n    <title>"@
        + time
        + "</title>\n    <description>"@
        + content
        + "</description>\n    <link>"@
        + base_url
        + "/"@
        + slug
        + "</link>\n    <guid isPermaLink=\"false\">"@
        + id
        + "</guid>\n</item>"@
}

/// Writes one RSS item from its parts.
pub fn rss_item_from_parts(
    time: &str,
    content: &str,
    base_url: &str,
    slug: &str,
    id: &str,
) -> (r: String)
    ensures
        r@ == rss_item_text(time@, content@, base_url@, slug@, id@),
{
    let mut s = String::from_str("<item>\n    <title>");
    s.append(time);
    s.append("</title>\n    <description>");
    s.append(content);
    s.append("</description>\n    <link>");
    s.append(base_url);
    s.append("/");
    s.append(slug);
    s.append("</link>\n    <guid isPermaLink=\"false\">");
    s.append(id);
    s.append("</guid>\n</item>");
    s
}

/// One Atom entry: title and update time are the time, the link is the slug
/// from the root, the id is the identifier as a URN.
pub open spec fn atom_entry_text(
    time: Seq<char>,
    content: Seq<char>,
    slug: Seq<char>,
    urn: Seq<char>,
) -> Seq<char> {
    "<entry>\n    <title>"@
        + time
        + "</title>\n    <link type=\"text/html\" href=\"/"@
        + slug
        + "\" />\n    <id>"@
        + urn
        + "</id>\n    <updated>"@
        + time
        + "</updated>\n    <author><name>microbe user</name></author>\n    <content type=\"text\">\n        "@
        + content
        + "\n    </content>\n</entry>"@
}

/// Writes one Atom entry from its parts.
pub fn atom_entry_from_parts(
    time: &str,
    content: &str,
    slug: &str,
    urn: &str,
) -> (r: String)
    ensures
        r@ == atom_entry_text(time@, content@, slug@, urn@),
{
    let mut s = String::from_str("<entry>\n    <title>");
    s.append(time);
    s.append("</title>\n    <link type=\"text/html\" href=\"/");
    s.append(slug);
    s.append("\" />\n    <id>");
    s.append(urn);
    s.append("</id>\n    <updated>");
    s.append(time);
    s.append("</updated>\n    <author><name>microbe user</name></author>\n    <content type=\"text\">\n        ");
    s.append(content);
    s.append("\n    </content>\n</entry>");
    s
}

/// One JSON Feed item: the plain identifier, the raw content, the slug from
/// the root, the time of publication.
pub open spec fn json_item_text(
    time: Seq<char>,
    content: Seq<char>,
    slug: Seq<char>,
    id: Seq<char>,
) -> Seq<char> {
    "{\n    \"id\": \""@
        + id
        + "\",\n    \"content_text\": \""@
        + content
        + "\",\n    \"url\": \"/"@
        + slug
        + "\",\n    \"date_published\": \""@
        + time
        + "\"\n}"@
}

/// Writes one JSON Feed item from its parts.
pub fn json_item_from_parts(
    time: &str,
    content: &str,
    slug: &str,
    id: &str,
) -> (r: String)
    ensures
        r@ == json_item_text(time@, content@, slug@, id@),
{
    let mut s = String::from_str("{\n    \"id\": \"");
    s.append(id);
    s.append("\",\n    \"content_text\": \"");
    s.append(content);
    s.append("\",\n    \"url\": \"/");
    s.append(slug);
    s.append("\",\n    \"date_published\": \"");
    s.append(time);
    s.append("\"\n}");
    s
}

impl Post {
    /// Whether the time of the post lies in the span that can be rendered.
    pub open spec fn wf(&self) -> bool {
        in_span(self.timestamp as int)
    }

    /// A post with the given content and time, where the time can be
    /// rendered; `None` where it cannot.
    pub fn new(content: String, timestamp: i64) -> (r: Option<Post>)
        ensures
            r is Some <==> in_span(timestamp as int),
            r matches Some(post) ==> post.wf() && post.content == content && post.timestamp
                == timestamp,
    {
        if is_in_span(timestamp) {
            Some(Post { content, timestamp })
        } else {
            None
        }
    }

    /// The identifier of the post. It depends on the time alone.
    pub fn stable_id(&self) -> (r: String)
        ensures
            r@ == stable_id_of(self@.timestamp),
            is_uuid_v5_text(r@),
    {
        let name = decimal_string(self.timestamp);
        uuid_v5_url_of(name.as_str())
    }

    /// The part of the slug that comes from the content.
    pub fn slug_fragment(&self) -> (r: String)
        ensures
            r@ == slug_fragment_of(self@.content),
            r@.len() <= SLUG_FRAGMENT_CAP,
            all_slug_chars(r@, '-'),
            is_tidy(r@, '-'),
            self@.content.len() == 0 ==> r@.len() == 0,
    {
        proof {
            reveal_strlit("-");
        }
        slugify_of(self.content.as_str(), "", "-", Some(SLUG_FRAGMENT_CAP))
    }

    /// The slug of the post: its epoch seconds, an underscore, the fragment.
    pub fn slug(&self) -> (r: String)
        ensures
            r@ == slug_of(self@),
            all_url_safe(r@),
            slug_fragment_of(self@.content).len() <= SLUG_FRAGMENT_CAP,
            all_slug_chars(slug_fragment_of(self@.content), '-'),
            is_tidy(slug_fragment_of(self@.content), '-'),
            self@.content.len() == 0 ==> slug_fragment_of(self@.content).len() == 0,
    {
        let fragment = self.slug_fragment();
        let r = slug_from_parts(self.timestamp, fragment.as_str());
        proof {
            reveal_strlit("_");
            lemma_decimal_text_chars(self.timestamp as int);
            let head = decimal_text(self.timestamp as int);
            assert forall|i: int| 0 <= i < r@.len() implies is_url_safe(#[trigger] r@[i]) by {
                if i < head.len() {
                    assert(r@[i] == head[i]);
                } else if i == head.len() {
                    assert(r@[i] == '_');
                } else {
                    assert(r@[i] == fragment@[i - head.len() - 1]);
                    assert(is_slug_char(fragment@[i - head.len() - 1], '-'));
                }
            }
        }
        r
    }

    /// The post as an RSS item whose link stands under `base_url`.
    pub fn as_rss(&self, base_url: &str) -> (r: String)
        requires
            self.wf(),
        ensures
            r@ == rss_item(self@, base_url@),
            derived_parts_wf(self@),
    {
        let time = rfc3339_of(self.timestamp);
        let slug = self.slug();
        let id = self.stable_id();
        rss_item_from_parts(
            time.as_str(),
            self.content.as_str(),
            base_url,
            slug.as_str(),
            id.as_str(),
        )
    }

    /// The post as an Atom entry.
    pub fn as_atom(&self) -> (r: String)
        requires
            self.wf(),
        ensures
            r@ == atom_entry(self@),
            derived_parts_wf(self@),
    {
        let time = rfc3339_of(self.timestamp);
        let slug = self.slug();
        let id = self.stable_id();
        let urn = urn_from_id(id.as_str());
        atom_entry_from_parts(time.as_str(), self.content.as_str(), slug.as_str(), urn.as_str())
    }

    /// The post as a JSON Feed item.
    pub fn as_json(&self) -> (r: String)
        requires
            self.wf(),
        ensures
            r@ == json_item(self@),
            derived_parts_wf(self@),
    {
        let time = rfc3339_of(self.timestamp);
        let slug = self.slug();
        let id = self.stable_id();
        json_item_from_parts(time.as_str(), self.content.as_str(), slug.as_str(), id.as_str())
    }
}

/// The posts of a list as values.
pub open spec fn post_views(posts: Seq<Post>) -> Seq<PostView> {
    posts.map_values(|post: Post| post@)
}

/// Whether every post of the sequence can be rendered.
pub open spec fn all_wf(posts: Seq<Post>) -> bool {
    forall|i: int| 0 <= i < posts.len() ==> (#[trigger] posts[i]).wf()
}

/// Posts made at the same time have the same identifier, whatever they say.
pub proof fn lemma_stable_id_ignores_content(a: PostView, b: PostView)
    requires
        a.timestamp == b.timestamp,
    ensures
        stable_id_of(a.timestamp) == stable_id_of(b.timestamp),
        urn_text(stable_id_of(a.timestamp)) == urn_text(stable_id_of(b.timestamp)),
{
}

/// Deriving the slug of one post twice gives the same text.
pub proof fn lemma_slug_stable(a: PostView, b: PostView)
    requires
        a == b,
    ensures
        slug_of(a) == slug_of(b),
{
}

} // verus!
