//! Parsing of X (formerly Twitter) links out of message text.
//!
//! Links are found with one regular expression. What the expression captures
//! is turned into [`TweetLink`] values by verified code; captures whose number
//! does not fit a tweet id are skipped.

use crate::text::{
    decimal, decimal_of, is_digit, is_word, lemma_decimal_roundtrip, lemma_decimal_value,
    occurs_at, parse_u64, parse_unsigned,
};
use smallvec::SmallVec;
use vstd::prelude::*;
use vstd::string::StringExecFns;

verus! {

/// Tweet id, always numeric.
#[derive(Debug, Clone, Copy, PartialEq, Eq, Hash, PartialOrd, Ord, Structural)]
pub struct TweetId(pub u64);

/// A parsed tweet link and its canonical form on `x.com`.
#[derive(Debug, Clone)]
pub struct TweetLink {
    pub user: String,
    pub tweet_id: TweetId,
    pub original_url: String,
    pub canonical_url: String,
}

/// The canonical address of a tweet.
pub open spec fn canonical_form(user: Seq<char>, id: nat) -> Seq<char> {
    "https://x.com/"@ + user + "/status/"@ + decimal(id)
}

impl TweetLink {
    /// The canonical address is the one of this user and tweet.
    pub open spec fn wf(&self) -> bool {
        self.canonical_url@ == canonical_form(self.user@, self.tweet_id.0 as nat)
    }

    /// Build a link and its canonical `x.com` form.
    pub fn new(user: String, tweet_id: TweetId, original_url: String) -> (link: Self)
        ensures
            link.wf(),
            link.user@ == user@,
            link.tweet_id == tweet_id,
            link.original_url@ == original_url@,
    {
        let mut canonical_url = "https://x.com/".to_owned();
        canonical_url.append(user.as_str());
        canonical_url.append("/status/");
        let id = decimal_of(tweet_id.0);
        canonical_url.append(id.as_str());
        TweetLink { user, tweet_id, original_url, canonical_url }
    }

    /// A copy of the link.
    pub fn duplicate(&self) -> (link: Self)
        ensures
            link == *self,
    {
        TweetLink {
            user: self.user.clone(),
            tweet_id: self.tweet_id,
            original_url: self.original_url.clone(),
            canonical_url: self.canonical_url.clone(),
        }
    }

    /// Canonical address on `x.com`.
    pub fn canonical_url(&self) -> (url: &str)
        ensures
            url@ == self.canonical_url@,
    {
        self.canonical_url.as_str()
    }

    /// Address as it stood in the message.
    pub fn original_url(&self) -> (url: &str)
        ensures
            url@ == self.original_url@,
    {
        self.original_url.as_str()
    }
}

// ---------------------------------------------------------------------------
// The small vector of links
// ---------------------------------------------------------------------------
/// The links of one message, held inline for the common case.
#[verifier::external_body]
pub struct TweetLinks {
    items: SmallVec<[TweetLink; 4]>,
}

/// The links that a small vector holds, in order.
pub uninterp spec fn link_items(links: TweetLinks) -> Seq<TweetLink>;

/// `SmallVec::new`: an empty vector.
#[verifier::external_body]
fn new_links() -> (links: TweetLinks)
    ensures
        link_items(links) == Seq::<TweetLink>::empty(),
{
    TweetLinks { items: SmallVec::new() }
}

/// `SmallVec::push`: the item comes last.
#[verifier::external_body]
fn push_link(links: &mut TweetLinks, link: TweetLink)
    ensures
        link_items(*final(links)) == link_items(*old(links)).push(link),
{
    links.items.push(link)
}

/// `SmallVec::len`: the number of items.
#[verifier::external_body]
fn link_count(links: &TweetLinks) -> (n: usize)
    ensures
        n == link_items(*links).len(),
{
    links.items.len()
}

/// `SmallVec::as_slice`, indexed: the item at that place.
#[verifier::external_body]
fn link_at(links: &TweetLinks, i: usize) -> (link: &TweetLink)
    requires
        i < link_items(*links).len(),
    ensures
        *link == link_items(*links)[i as int],
{
    &links.items.as_slice()[i]
}

impl View for TweetLinks {
    type V = Seq<TweetLink>;

    open spec fn view(&self) -> Seq<TweetLink> {
        link_items(*self)
    }
}

impl TweetLinks {
    /// The number of links.
    pub fn len(&self) -> (n: usize)
        ensures
            n == self@.len(),
    {
        link_count(self)
    }

    /// Whether there is no link.
    pub fn is_empty(&self) -> (r: bool)
        ensures
            r == (self@.len() == 0),
    {
        link_count(self) == 0
    }

    /// The link at a place, where there is one.
    pub fn get(&self, i: usize) -> (link: Option<&TweetLink>)
        ensures
            link is Some <==> i < self@.len(),
            link matches Some(l) ==> *l == self@[i as int],
    {
        if i < link_count(self) {
            Some(link_at(self, i))
        } else {
            None
        }
    }
}

// ---------------------------------------------------------------------------
// What the expression captures
// ---------------------------------------------------------------------------
/// One match: the whole link, the user name and the digits of the id, each as
/// text where the bytes are valid text.
#[derive(Debug, Clone)]
pub struct UrlCapture {
    pub whole: Option<String>,
    pub user: Option<String>,
    pub id: Option<String>,
}

/// The view of an optional string.
pub open spec fn text_view(s: Option<String>) -> Option<Seq<char>> {
    match s {
        Some(t) => Some(t@),
        None => None,
    }
}

pub open spec fn capture_view(c: UrlCapture) -> (
    Option<Seq<char>>,
    Option<Seq<char>>,
    Option<Seq<char>>,
) {
    (text_view(c.whole), text_view(c.user), text_view(c.id))
}

pub open spec fn capture_views(v: Seq<UrlCapture>) -> Seq<
    (Option<Seq<char>>, Option<Seq<char>>, Option<Seq<char>>),
> {
    v.map_values(|c: UrlCapture| capture_view(c))
}

/// The hosts whose tweet links are recognised.
pub open spec fn is_link_host(host: Seq<char>) -> bool {
    ||| host == "x.com"@
    ||| host == "twitter.com"@
    ||| host == "www.x.com"@
    ||| host == "www.twitter.com"@
    ||| host == "mobile.x.com"@
    ||| host == "mobile.twitter.com"@
    ||| host == "fxtwitter.com"@
    ||| host == "vxtwitter.com"@
    ||| host == "fixupx.com"@
}

/// A user name: one to fifteen word characters.
pub open spec fn is_user_name(user: Seq<char>) -> bool {
    1 <= user.len() <= 15 && forall|i: int| 0 <= i < user.len() ==> is_word(#[trigger] user[i])
}

/// A nonempty run of ASCII digits.
pub open spec fn is_digit_run(s: Seq<char>) -> bool {
    s.len() > 0 && forall|i: int| 0 <= i < s.len() ==> is_digit(#[trigger] s[i])
}

/// The text of a tweet link.
pub open spec fn link_text(scheme: Seq<char>, host: Seq<char>, user: Seq<char>, id: Seq<char>) -> Seq<
    char,
> {
    scheme + "://"@ + host + "/"@ + user + "/status/"@ + id
}

/// `content` ends in one tweet link, and no other link begins before it.
pub open spec fn ends_in_lone_link(
    content: Seq<char>,
    prefix: Seq<char>,
    scheme: Seq<char>,
    host: Seq<char>,
    user: Seq<char>,
    id: Seq<char>,
) -> bool {
    &&& content == prefix + link_text(scheme, host, user, id)
    &&& scheme == "https"@ || scheme == "http"@
    &&& is_link_host(host)
    &&& is_user_name(user)
    &&& is_digit_run(id)
    &&& forall|i: int| 0 <= i < prefix.len() ==> !#[trigger] occurs_at(content, "http"@, i)
}

/// The expression for tweet links: whole link, user name and digits of the id.
pub const TWEET_URL_PATTERN: &'static str =
    r"https?://(?:(?:www\.|mobile\.)?(?:twitter\.com|x\.com)|(?:fxtwitter\.com|vxtwitter\.com|fixupx\.com))/([A-Za-z0-9_]{1,15})/status/(\d+)";

/// The matches of an expression in a text, in order, each with its whole,
/// first and second capture group.
pub uninterp spec fn regex_captures(pattern: Seq<char>, content: Seq<char>) -> Seq<
    (Option<Seq<char>>, Option<Seq<char>>, Option<Seq<char>>),
>;

/// The matches of the expression for tweet links.
pub open spec fn tweet_url_captures(content: Seq<char>) -> Seq<
    (Option<Seq<char>>, Option<Seq<char>>, Option<Seq<char>>),
> {
    regex_captures(TWEET_URL_PATTERN@, content)
}

/// `regex::bytes::Regex::captures_iter` on the bytes of a text; nothing where
/// the expression is not valid. The matches are named. Besides, with the
/// expression for tweet links a text that ends in one link and has no `http`
/// before it gives exactly that link, its user name and its digits.
#[verifier::external_body]
fn capture_all(pattern: &str, content: &str) -> (captures: Vec<UrlCapture>)
    ensures
        capture_views(captures@) == regex_captures(pattern@, content@),
        pattern@ == TWEET_URL_PATTERN@ ==> forall|
            prefix: Seq<char>,
            scheme: Seq<char>,
            host: Seq<char>,
            user: Seq<char>,
            id: Seq<char>,
        |
            #[trigger]
            ends_in_lone_link(content@, prefix, scheme, host, user, id) ==> capture_views(captures@)
                == seq![(Some(link_text(scheme, host, user, id)), Some(user), Some(id))],
{
    let text = |m: regex::bytes::Match<'_>| String::from_utf8(m.as_bytes().to_vec()).ok();
    match regex::bytes::Regex::new(pattern) {
        Ok(regex) => regex.captures_iter(content.as_bytes()).map(|c| UrlCapture {
            whole: c.get(0).and_then(text),
            user: c.get(1).and_then(text),
            id: c.get(2).and_then(text),
        }).collect(),
        Err(_) => Vec::new(),
    }
}

// ---------------------------------------------------------------------------
// Links out of captures
// ---------------------------------------------------------------------------
/// What a link says: user, id and the address it was written with.
pub struct LinkModel {
    pub user: Seq<char>,
    pub id: nat,
    pub original: Seq<char>,
}

pub open spec fn link_model(link: TweetLink) -> LinkModel {
    LinkModel { user: link.user@, id: link.tweet_id.0 as nat, original: link.original_url@ }
}

pub open spec fn link_models(links: Seq<TweetLink>) -> Seq<LinkModel> {
    links.map_values(|l: TweetLink| link_model(l))
}

/// The link that one capture stands for: all groups are text and the digits
/// fit a tweet id.
pub open spec fn captured_link(
    c: (Option<Seq<char>>, Option<Seq<char>>, Option<Seq<char>>),
) -> Option<LinkModel> {
    match c {
        (Some(original), Some(user), Some(id)) => match parse_unsigned(id, u64::MAX as nat) {
            Some(n) => Some(LinkModel { user, id: n, original }),
            None => None,
        },
        _ => None,
    }
}

/// The links of a list of captures, in order, without those that stand for none.
pub open spec fn captured_links(
    captures: Seq<(Option<Seq<char>>, Option<Seq<char>>, Option<Seq<char>>)>,
) -> Seq<LinkModel>
    decreases captures.len(),
{
    if captures.len() == 0 {
        Seq::empty()
    } else {
        let before = captured_links(captures.drop_last());
        match captured_link(captures.last()) {
            Some(link) => before.push(link),
            None => before,
        }
    }
}

/// The links are the ones that a text holds.
pub open spec fn tweet_links(text: Seq<char>, links: Seq<TweetLink>) -> bool {
    &&& link_models(links) == captured_links(tweet_url_captures(text))
    &&& forall|i: int| 0 <= i < links.len() ==> (#[trigger] links[i]).wf()
}

/// Turn captures into links.
pub fn links_from_captures(captures: &Vec<UrlCapture>) -> (links: TweetLinks)
    ensures
        link_models(links@) == captured_links(capture_views(captures@)),
        forall|i: int|
            0 <= i < links@.len() ==> (#[trigger] links@[i]).wf(),
{
    let mut links = new_links();
    let mut i: usize = 0;
    let ghost all = capture_views(captures@);
    while i < captures.len()
        invariant
            i <= captures@.len(),
            all == capture_views(captures@),
            link_models(links@) == captured_links(all.take(i as int)),
            forall|j: int|
                0 <= j < links@.len() ==> (#[trigger] links@[j]).wf(),
        decreases captures@.len() - i,
    {
        let capture = &captures[i];
        let ghost before = links@;
        assert(all.take(i + 1).drop_last() =~= all.take(i as int));
        assert(all.take(i + 1).last() == capture_view(*capture));
        i = i + 1;
        if let (Some(original), Some(user), Some(id)) = (
            &capture.whole,
            &capture.user,
            &capture.id,
        ) {
            if let Some(tweet_id) = parse_u64(id.as_str()) {
                let link = TweetLink::new(user.clone(), TweetId(tweet_id), original.clone());
                push_link(&mut links, link);
                assert(link_models(links@) =~= link_models(before).push(
                    link_model(link),
                ));
            }
        }
    }
    assert(all.take(i as int) =~= all);
    links
}

/// Parse X or Twitter links out of message text.
///
/// The links are those that the expression captures. In particular a text that
/// ends in one link, with no `http` before it, parses to exactly that user and
/// id, whatever recognised host it was written with.
pub fn parse_tweet_urls(content: &str) -> (links: TweetLinks)
    ensures
        tweet_links(content@, links@),
        forall|prefix: Seq<char>, scheme: Seq<char>, host: Seq<char>, user: Seq<char>, id: u64|
            #[trigger]
            ends_in_lone_link(content@, prefix, scheme, host, user, decimal(id as nat))
                ==> link_models(links@) == seq![
                LinkModel {
                    user,
                    id: id as nat,
                    original: link_text(scheme, host, user, decimal(id as nat)),
                },
            ],
{
    let captures = capture_all(TWEET_URL_PATTERN, content);
    let links = links_from_captures(&captures);
    proof {
        assert forall|
            prefix: Seq<char>,
            scheme: Seq<char>,
            host: Seq<char>,
            user: Seq<char>,
            id: u64,
        |
            #[trigger] ends_in_lone_link(
                content@,
                prefix,
                scheme,
                host,
                user,
                decimal(id as nat),
            ) implies link_models(links@) == seq![
            LinkModel {
                user,
                id: id as nat,
                original: link_text(scheme, host, user, decimal(id as nat)),
            },
        ] by {
            lemma_captured_one(
                link_text(scheme, host, user, decimal(id as nat)),
                user,
                id,
            );
        }
    }
    links
}

proof fn lemma_captured_one(original: Seq<char>, user: Seq<char>, id: u64)
    ensures
        captured_links(seq![(Some(original), Some(user), Some(decimal(id as nat)))]) == seq![
            LinkModel { user, id: id as nat, original },
        ],
{
    lemma_decimal_roundtrip(id as nat, u64::MAX as nat);
    let one = seq![(Some(original), Some(user), Some(decimal(id as nat)))];
    assert(one.drop_last() =~= Seq::<
        (Option<Seq<char>>, Option<Seq<char>>, Option<Seq<char>>),
    >::empty());
    assert(captured_links(one.drop_last()) =~= Seq::<LinkModel>::empty());
    assert(captured_links(one) =~= seq![LinkModel { user, id: id as nat, original }]);
}

/// A valid user name and a tweet id, written as a link on any recognised host
/// behind text without `http`, are a lone link; so the parser gives them back.
pub proof fn lemma_written_link_is_lone(
    prefix: Seq<char>,
    scheme: Seq<char>,
    host: Seq<char>,
    user: Seq<char>,
    id: u64,
)
    requires
        scheme == "https"@ || scheme == "http"@,
        is_link_host(host),
        is_user_name(user),
        forall|i: int|
            0 <= i < prefix.len() ==> !#[trigger] occurs_at(
                prefix + link_text(scheme, host, user, decimal(id as nat)),
                "http"@,
                i,
            ),
    ensures
        ends_in_lone_link(
            prefix + link_text(scheme, host, user, decimal(id as nat)),
            prefix,
            scheme,
            host,
            user,
            decimal(id as nat),
        ),
{
    lemma_decimal_value(id as nat);
}

/// Two links with the same user and id have the same canonical address, on
/// whatever host they were written.
pub proof fn lemma_same_tweet_same_canonical(a: TweetLink, b: TweetLink)
    requires
        a.wf(),
        b.wf(),
        a.user@ == b.user@,
        a.tweet_id == b.tweet_id,
    ensures
        a.canonical_url@ == b.canonical_url@,
{
}

/// How many links a text holds, where only one is wanted.
#[derive(Debug)]
pub enum LoneLink {
    Absent,
    One { link: TweetLink },
    Several,
}

/// The only link of a list.
pub fn lone_link(links: &TweetLinks) -> (r: LoneLink)
    ensures
        links@.len() == 0 ==> r is Absent,
        links@.len() == 1 ==> r == (LoneLink::One { link: links@[0] }),
        links@.len() > 1 ==> r is Several,
{
    if links.len() > 1 {
        return LoneLink::Several;
    }
    match links.get(0) {
        Some(link) => LoneLink::One { link: link.duplicate() },
        None => LoneLink::Absent,
    }
}

/// The places of links whose tweet stands at no earlier place, in order, up to
/// place `n`.
pub open spec fn first_places(links: Seq<TweetLink>, n: int) -> Seq<usize>
    decreases n,
{
    if n <= 0 {
        Seq::empty()
    } else {
        let rest = first_places(links, n - 1);
        if exists|j: int|
            0 <= j < n - 1 && (#[trigger] links[j]).tweet_id == links[n - 1].tweet_id {
            rest
        } else {
            rest.push((n - 1) as usize)
        }
    }
}

/// Each tweet once, where it is first linked.
pub fn distinct_tweets(links: &TweetLinks) -> (r: Vec<usize>)
    ensures
        r@ == first_places(links@, links@.len() as int),
        forall|i: int| 0 <= i < r@.len() ==> #[trigger] r@[i] < links@.len(),
{
    let mut r: Vec<usize> = Vec::new();
    let n = links.len();
    let mut i: usize = 0;
    while i < n
        invariant
            n == links@.len(),
            i <= n,
            r@ == first_places(links@, i as int),
            forall|k: int| 0 <= k < r@.len() ==> #[trigger] r@[k] < n,
        decreases n - i,
    {
        let id = link_at(links, i).tweet_id;
        let mut seen = false;
        let mut j: usize = 0;
        while j < i
            invariant
                n == links@.len(),
                i < n,
                j <= i,
                id == links@[i as int].tweet_id,
                seen <==> exists|k: int| 0 <= k < j && (#[trigger] links@[k]).tweet_id == id,
            decreases i - j,
        {
            if link_at(links, j).tweet_id == id {
                assert(links@[j as int].tweet_id == id);
                seen = true;
            }
            j = j + 1;
        }
        if !seen {
            r.push(i);
        }
        i = i + 1;
    }
    r
}

proof fn lemma_first_places(links: Seq<TweetLink>, n: int)
    requires
        0 <= n <= links.len() <= usize::MAX,
    ensures
        forall|i: int|
            0 <= i < first_places(links, n).len() ==> #[trigger] first_places(links, n)[i] < n,
        forall|i: int, j: int|
            0 <= i < j < first_places(links, n).len() ==> links[#[trigger] first_places(
                links,
                n,
            )[i] as int].tweet_id != links[#[trigger] first_places(links, n)[j] as int].tweet_id,
        forall|k: int|
            0 <= k < n ==> exists|i: int|
                0 <= i < first_places(links, n).len() && links[#[trigger] first_places(
                    links,
                    n,
                )[i] as int].tweet_id == (#[trigger] links[k]).tweet_id,
    decreases n,
{
    if n > 0 {
        lemma_first_places(links, n - 1);
        let rest = first_places(links, n - 1);
        let all = first_places(links, n);
        if exists|j: int|
            0 <= j < n - 1 && (#[trigger] links[j]).tweet_id == links[n - 1].tweet_id {
            let j = choose|j: int|
                0 <= j < n - 1 && (#[trigger] links[j]).tweet_id == links[n - 1].tweet_id;
            let i = choose|i: int|
                0 <= i < rest.len() && links[#[trigger] rest[i] as int].tweet_id
                    == links[j].tweet_id;
            assert(links[all[i] as int].tweet_id == links[n - 1].tweet_id);
        } else {
            assert(all[rest.len() as int] == n - 1);
            assert forall|i: int, j: int| 0 <= i < j < all.len() implies links[#[trigger] all[i] as int].tweet_id
                != links[#[trigger] all[j] as int].tweet_id by {
                assert(all[i] == rest[i]);
                if j < rest.len() {
                    assert(all[j] == rest[j]);
                }
            }
            assert forall|k: int| 0 <= k < n implies exists|i: int|
                0 <= i < all.len() && links[#[trigger] all[i] as int].tweet_id
                    == (#[trigger] links[k]).tweet_id by {
                if k < n - 1 {
                    let i = choose|i: int|
                        0 <= i < rest.len() && links[#[trigger] rest[i] as int].tweet_id
                            == links[k].tweet_id;
                    assert(all[i] == rest[i]);
                } else {
                    assert(links[all[rest.len() as int] as int].tweet_id == links[k].tweet_id);
                }
            }
        }
    }
}

/// One of the places links this tweet.
pub open spec fn is_kept(links: Seq<TweetLink>, places: Seq<usize>, id: TweetId) -> bool {
    exists|i: int| 0 <= i < places.len() && links[#[trigger] places[i] as int].tweet_id == id
}

/// Collapsing repeated tweets keeps each tweet exactly once.
pub proof fn lemma_each_tweet_is_kept_once(links: Seq<TweetLink>, places: Seq<usize>)
    requires
        links.len() <= usize::MAX,
        places == first_places(links, links.len() as int),
    ensures
        forall|i: int, j: int|
            0 <= i < j < places.len() ==> links[#[trigger] places[i] as int].tweet_id
                != links[#[trigger] places[j] as int].tweet_id,
        forall|k: int|
            0 <= k < links.len() ==> is_kept(links, places, (#[trigger] links[k]).tweet_id),
{
    lemma_first_places(links, links.len() as int);
    assert forall|k: int| 0 <= k < links.len() implies is_kept(
        links,
        places,
        (#[trigger] links[k]).tweet_id,
    ) by {
        let i = choose|i: int|
            0 <= i < places.len() && links[#[trigger] places[i] as int].tweet_id
                == links[k].tweet_id;
        assert(links[places[i] as int].tweet_id == links[k].tweet_id);
    }
}

// ---------------------------------------------------------------------------
// What links are made of
// ---------------------------------------------------------------------------
/// A canonical address is itself a link, to the same user and tweet, and
/// different tweets of a user have different ones.
pub proof fn lemma_canonical_address_is_a_link(user: Seq<char>, id: nat, other: nat)
    ensures
        canonical_form(user, id) == link_text("https"@, "x.com"@, user, decimal(id)),
        is_link_host("x.com"@),
        canonical_form(user, id) == canonical_form(user, other) <==> id == other,
{
    reveal_strlit("https://x.com/");
    reveal_strlit("https");
    reveal_strlit("://");
    reveal_strlit("x.com");
    reveal_strlit("/");
    reveal_strlit("/status/");
    let a = canonical_form(user, id);
    let head = "https"@ + "://"@ + "x.com"@ + "/"@;
    assert(head =~= "https://x.com/"@);
    assert(a =~= link_text("https"@, "x.com"@, user, decimal(id)));
    lemma_decimal_value(id);
    lemma_decimal_value(other);
    let n = 14 + user.len() as int + 8;
    assert(a.skip(n) =~= decimal(id));
    assert(canonical_form(user, other).skip(n) =~= decimal(other));
}

/// Links of two runs of captures are the links of all of them, in order; a
/// capture is a link exactly where all its groups are there and its digits are
/// a tweet's number.
pub proof fn lemma_links_are_taken_in_order(
    a: Seq<(Option<Seq<char>>, Option<Seq<char>>, Option<Seq<char>>)>,
    b: Seq<(Option<Seq<char>>, Option<Seq<char>>, Option<Seq<char>>)>,
    whole: Seq<char>,
    user: Seq<char>,
    id: u64,
)
    ensures
        captured_links(a + b) == captured_links(a) + captured_links(b),
        captured_links(seq![(Some(whole), Some(user), Some(decimal(id as nat)))]) == seq![
            LinkModel { user, id: id as nat, original: whole },
        ],
        captured_links(seq![(Some(whole), None, Some(decimal(id as nat)))]) == Seq::<
            LinkModel,
        >::empty(),
    decreases b.len(),
{
    if b.len() > 0 {
        assert((a + b).drop_last() =~= a + b.drop_last());
        assert((a + b).last() == b.last());
        lemma_links_are_taken_in_order(a, b.drop_last(), whole, user, id);
        assert(captured_links(a + b) =~= captured_links(a) + captured_links(b));
    } else {
        assert(a + b =~= a);
        assert(captured_links(a + b) =~= captured_links(a) + captured_links(b));
    }
    lemma_decimal_roundtrip(id as nat, u64::MAX as nat);
    let none = Seq::<(Option<Seq<char>>, Option<Seq<char>>, Option<Seq<char>>)>::empty();
    let one = seq![(Some(whole), Some(user), Some(decimal(id as nat)))];
    assert(one.drop_last() =~= none);
    assert(captured_links(none) =~= Seq::<LinkModel>::empty());
    assert(captured_links(one) =~= seq![LinkModel { user, id: id as nat, original: whole }]);
    let half = seq![(Some(whole), None::<Seq<char>>, Some(decimal(id as nat)))];
    assert(half.drop_last() =~= none);
}

/// The place that is kept of a tweet is its first one, and places keep their
/// order.
pub proof fn lemma_first_place_is_kept(links: Seq<TweetLink>, n: int)
    requires
        0 <= n <= links.len() <= usize::MAX,
    ensures
        forall|i: int|
            0 <= i < first_places(links, n).len() ==> #[trigger] first_places(links, n)[i] < n,
        forall|i: int, k: int|
            0 <= i < first_places(links, n).len() && 0 <= k < #[trigger] first_places(links, n)[i]
                ==> (#[trigger] links[k]).tweet_id != links[first_places(links, n)[i] as int].tweet_id,
        forall|i: int, j: int|
            0 <= i < j < first_places(links, n).len() ==> #[trigger] first_places(links, n)[i]
                < #[trigger] first_places(links, n)[j],
    decreases n,
{
    if n > 0 {
        lemma_first_place_is_kept(links, n - 1);
        let rest = first_places(links, n - 1);
        let all = first_places(links, n);
        assert forall|i: int| 0 <= i < all.len() implies #[trigger] all[i] < n by {
            if i < rest.len() {
                assert(all[i] == rest[i]);
            }
        }
        assert forall|i: int, k: int|
            0 <= i < all.len() && 0 <= k < #[trigger] all[i] implies (#[trigger] links[k]).tweet_id
            != links[all[i] as int].tweet_id by {
            if i < rest.len() {
                assert(all[i] == rest[i]);
            }
        }
        assert forall|i: int, j: int| 0 <= i < j < all.len() implies #[trigger] all[i]
            < #[trigger] all[j] by {
            assert(all[i] == rest[i]);
            if j < rest.len() {
                assert(all[j] == rest[j]);
            }
        }
    }
}

/// Numbers are runs of digits, and a user's name is up to fifteen letters,
/// digits and underscores.
pub proof fn lemma_parts_of_links(n: nat, c: char, user: Seq<char>)
    requires
        is_word(c),
    ensures
        is_digit_run(decimal(n)),
        !is_digit_run(Seq::empty()),
        !is_digit(c) ==> !is_digit_run(decimal(n).push(c)),
        is_user_name(user) && user.len() < 15 ==> is_user_name(user.push(c)),
        is_user_name(user) ==> 0 < user.len() < 16,
        is_user_name(seq![c]),
        user.contains('/') ==> !is_user_name(user),
{
    lemma_decimal_value(n);
    let d = decimal(n).push(c);
    if is_digit_run(d) {
        assert(is_digit(d[d.len() - 1]));
    }
    if is_user_name(user) {
        assert forall|i: int| 0 <= i < user.push(c).len() implies is_word(
            #[trigger] user.push(c)[i],
        ) by {
            if i < user.len() {
                assert(is_word(user[i]));
            }
        }
        if user.contains('/') {
            let k = choose|k: int| 0 <= k < user.len() && user[k] == '/';
            assert(is_word(user[k]));
        }
    }
    assert(is_word(seq![c][0]));
}

/// Links are known on the two sites, plain or behind `www.` or `mobile.`, and on
/// three that embed them; on no others.
pub proof fn lemma_links_are_known_on_these_hosts(host: Seq<char>)
    ensures
        ({
            let sites = seq!["x.com"@, "twitter.com"@];
            let fronts = seq![""@, "www."@, "mobile."@];
            let others = seq!["fxtwitter.com"@, "vxtwitter.com"@, "fixupx.com"@];
            &&& forall|f: int, s: int|
                0 <= f < 3 && 0 <= s < 2 ==> is_link_host(#[trigger] fronts[f] + #[trigger] sites[s])
            &&& forall|i: int| 0 <= i < 3 ==> is_link_host(#[trigger] others[i])
            &&& is_link_host(host) ==> "x.com"@.is_suffix_of(host) || "twitter.com"@.is_suffix_of(
                host,
            ) || host == "fixupx.com"@
        }),
{
    reveal_strlit("");
    reveal_strlit("www.");
    reveal_strlit("mobile.");
    reveal_strlit("x.com");
    reveal_strlit("twitter.com");
    reveal_strlit("www.x.com");
    reveal_strlit("www.twitter.com");
    reveal_strlit("mobile.x.com");
    reveal_strlit("mobile.twitter.com");
    reveal_strlit("fxtwitter.com");
    reveal_strlit("vxtwitter.com");
    reveal_strlit("fixupx.com");
    let (x, t) = ("x.com"@, "twitter.com"@);
    assert(""@ + x =~= x && ""@ + t =~= t);
    assert("www."@ + x =~= "www.x.com"@ && "www."@ + t =~= "www.twitter.com"@);
    assert("mobile."@ + x =~= "mobile.x.com"@ && "mobile."@ + t =~= "mobile.twitter.com"@);
    let sites = seq![x, t];
    let fronts = seq![""@, "www."@, "mobile."@];
    assert forall|f: int, s: int| 0 <= f < 3 && 0 <= s < 2 implies is_link_host(
        #[trigger] fronts[f] + #[trigger] sites[s],
    ) by {
        assert(s == 0 || s == 1);
        assert(f == 0 || f == 1 || f == 2);
    }
    let n = host.len() as int;
    if is_link_host(host) && host != "fixupx.com"@ {
        if host == x || host == "www.x.com"@ || host == "mobile.x.com"@ {
            assert(host.skip(n - 5) =~= x);
        } else {
            assert(host.skip(n - 11) =~= t);
        }
    }
}

/// Each link of a text is one that was captured there, at its place, with its
/// canonical address.
pub proof fn lemma_links_of_a_text(text: Seq<char>, links: Seq<TweetLink>, i: int)
    requires
        tweet_links(text, links),
        0 <= i < links.len(),
    ensures
        links[i].canonical_url@ == canonical_form(links[i].user@, links[i].tweet_id.0 as nat),
        links.len() == captured_links(tweet_url_captures(text)).len(),
        ({
            let found = captured_links(tweet_url_captures(text))[i];
            found.user == links[i].user@ && found.id == links[i].tweet_id.0 && found.original
                == links[i].original_url@
        }),
{
    assert(links[i].wf());
    assert(link_models(links)[i] == link_model(links[i]));
}

} // verus!
