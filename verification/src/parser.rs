//! Link extraction: the anchors of a document, resolved against the URL of
//! the document, with the web URLs among them kept.

use vstd::prelude::*;
use vstd::string::*;
use crate::storage::{split_url, url_parts};
use crate::task::text_of;
use crate::text::starts_with;

verus! {

/// The value of `attribute` on each element that the `scraper` crate selects
/// with `selector` in the document it parses from `html`, in the order in
/// which it yields them; nothing where it rejects `selector`.
pub uninterp spec fn selected_attrs(
    html: Seq<char>,
    selector: Seq<char>,
    attribute: Seq<char>,
) -> Seq<Option<Seq<char>>>;

/// The serialization of the URL that `url::Url::join` gives for `href` on the
/// URL parsed from `base`; `None` where either is rejected.
pub uninterp spec fn joined_url(base: Seq<char>, href: Seq<char>) -> Option<Seq<char>>;

/// The link targets of the anchors of `html`, in the order in which the
/// document's parser yields the anchors.
pub open spec fn html_hrefs(html: Seq<char>) -> Seq<Option<Seq<char>>> {
    selected_attrs(html, "a[href]"@, "href"@)
}

/// The texts of a sequence of strings.
pub open spec fn texts(v: Seq<String>) -> Seq<Seq<char>> {
    v.map_values(|s: String| s@)
}

/// The texts of a sequence of optional strings.
pub open spec fn opt_texts(v: Seq<Option<String>>) -> Seq<Option<Seq<char>>> {
    v.map_values(|s: Option<String>| text_of(s))
}

/// Parses `html` with `scraper::Html::parse_document` and `selector` with
/// `Selector::parse`, selects with `Html::select`, and reads `attribute` of
/// each element with `Element::attr`. The contract only gives the outcome its
/// name, [`selected_attrs`]: it is a function of the three texts.
#[verifier::external_body]
fn select_attrs(html: &str, selector: &str, attribute: &str) -> (values: Vec<Option<String>>)
    ensures
        opt_texts(values@) == selected_attrs(html@, selector@, attribute@),
{
    let document = ::scraper::Html::parse_document(html);
    match ::scraper::Selector::parse(selector) {
        Ok(parsed) => document
            .select(&parsed)
            .map(|element| element.value().attr(attribute).map(String::from))
            .collect(),
        Err(_) => Vec::new(),
    }
}

/// Parses `base` with `url::Url::parse`, resolves `href` against it with
/// `Url::join`, and serializes the outcome with `Url::as_str`. The contract
/// gives the outcome its name, [`joined_url`]: it is a function of the two
/// texts. It also claims that the URL parser accepts a serialization that it
/// wrote, which the `url` crate holds as an invariant of every `Url`.
#[verifier::external_body]
fn join_url(base: &str, href: &str) -> (joined: Option<String>)
    ensures
        text_of(joined) == joined_url(base@, href@),
        match joined {
            Some(url) => url_parts(url@) is Ok,
            None => true,
        },
{
    match url::Url::parse(base) {
        Ok(parsed) => match parsed.join(href) {
            Ok(absolute) => Some(String::from(absolute.as_str())),
            Err(_) => None,
        },
        Err(_) => None,
    }
}

/// Whether `url` is an `http` or `https` URL.
pub open spec fn is_web_url(url: Seq<char>) -> bool {
    "http://"@.is_prefix_of(url) || "https://"@.is_prefix_of(url)
}

/// What each anchor resolves to against `base`: nothing for an anchor without
/// a target or with one that cannot be joined.
pub open spec fn resolved_hrefs(base: Seq<char>, hrefs: Seq<Option<Seq<char>>>) -> Seq<
    Option<Seq<char>>,
> {
    hrefs.map_values(
        |href: Option<Seq<char>>|
            match href {
                Some(h) => joined_url(base, h),
                None => None,
            },
    )
}

/// The web URLs among `resolved`, each once, in the order in which they
/// occur first.
pub open spec fn web_links(resolved: Seq<Option<Seq<char>>>) -> Seq<Seq<char>>
    decreases resolved.len(),
{
    if resolved.len() == 0 {
        Seq::empty()
    } else {
        let rest = web_links(resolved.drop_last());
        match resolved.last() {
            Some(url) => if is_web_url(url) && !rest.contains(url) {
                rest.push(url)
            } else {
                rest
            },
            None => rest,
        }
    }
}

/// Whether the URL parser accepts each URL of `resolved`.
pub open spec fn all_parse(resolved: Seq<Option<Seq<char>>>) -> bool {
    forall|j: int|
        0 <= j < resolved.len() ==> match #[trigger] resolved[j] {
            Some(url) => url_parts(url) is Ok,
            None => true,
        }
}

/// The links of a document `html` at `base`: none where `base` is no absolute
/// URL, else the web URLs among its resolved anchors, each once.
pub open spec fn document_links(html: Seq<char>, base: Seq<char>) -> Seq<Seq<char>> {
    if url_parts(base) is Err {
        Seq::empty()
    } else {
        web_links(resolved_hrefs(base, html_hrefs(html)))
    }
}

/// The web links hold no URL twice, and hold exactly the web URLs that occur
/// among `resolved`.
pub proof fn lemma_web_links_are_a_set(resolved: Seq<Option<Seq<char>>>)
    ensures
        web_links(resolved).no_duplicates(),
        forall|url: Seq<char>| #[trigger]
            web_links(resolved).contains(url) <==> (resolved.contains(Some(url)) && is_web_url(url)),
    decreases resolved.len(),
{
    if resolved.len() > 0 {
        let shorter = resolved.drop_last();
        let rest = web_links(shorter);
        let all = web_links(resolved);
        lemma_web_links_are_a_set(shorter);
        assert forall|url: Seq<char>| #[trigger]
            all.contains(url) <==> (resolved.contains(Some(url)) && is_web_url(url)) by {
            if rest.contains(url) {
                let k = choose|k: int| 0 <= k < rest.len() && rest[k] == url;
                assert(all[k] == url);
                assert(shorter.contains(Some(url)));
                let j = choose|j: int| 0 <= j < shorter.len() && shorter[j] == Some(url);
                assert(resolved[j] == Some(url));
            }
            if all.contains(url) && !rest.contains(url) {
                let k = choose|k: int| 0 <= k < all.len() && all[k] == url;
                assert(k == rest.len());
                assert(resolved[resolved.len() - 1] == Some(url));
            }
            if resolved.contains(Some(url)) && is_web_url(url) && !rest.contains(url) {
                let j = choose|j: int| 0 <= j < resolved.len() && resolved[j] == Some(url);
                if j < shorter.len() {
                    assert(shorter[j] == Some(url));
                    assert(shorter.contains(Some(url)));
                }
                assert(all[rest.len() as int] == url);
            }
        }
    }
}

/// Extracts links from documents.
pub struct Parser;

impl Parser {
    /// Whether `links` holds `url`.
    pub fn holds(links: &Vec<String>, url: &String) -> (found: bool)
        ensures
            found == texts(links@).contains(url@),
    {
        let mut i: usize = 0;
        while i < links.len()
            invariant
                i <= links.len(),
                forall|j: int| 0 <= j < i ==> texts(links@)[j] != url@,
            decreases links.len() - i,
        {
            if links[i] == *url {
                assert(texts(links@)[i as int] == url@);
                return true;
            }
            i += 1;
        }
        false
    }

    /// The web URLs among `resolved`, each once, in the order in which they
    /// occur first.
    pub fn keep_web_links(resolved: &Vec<Option<String>>) -> (links: Vec<String>)
        ensures
            texts(links@) == web_links(opt_texts(resolved@)),
            texts(links@).no_duplicates(),
    {
        let mut links: Vec<String> = Vec::new();
        let mut i: usize = 0;
        assert(opt_texts(resolved@).take(0) =~= Seq::empty());
        assert(texts(links@) =~= Seq::empty());
        while i < resolved.len()
            invariant
                i <= resolved.len(),
                texts(links@) == web_links(opt_texts(resolved@).take(i as int)),
            decreases resolved.len() - i,
        {
            let ghost before = links@;
            assert(opt_texts(resolved@).take(i + 1).drop_last() =~= opt_texts(resolved@).take(
                i as int,
            ));
            assert(opt_texts(resolved@).take(i + 1).last() == text_of(resolved@[i as int]));
            match &resolved[i] {
                Some(url) => {
                    if (starts_with(url.as_str(), "http://") || starts_with(url.as_str(), "https://"))
                        && !Self::holds(&links, url) {
                        links.push(url.clone());
                        assert(texts(links@) =~= texts(before).push(url@));
                    }
                },
                None => {},
            }
            i += 1;
        }
        assert(opt_texts(resolved@).take(i as int) =~= opt_texts(resolved@));
        proof {
            lemma_web_links_are_a_set(opt_texts(resolved@));
        }
        links
    }

    /// The absolute web URLs that the anchors of `html` lead to, resolved
    /// against `base_url`, each once, in the order in which the document's
    /// parser yields the anchors. A `base_url` that is no absolute URL gives
    /// none.
    pub fn extract_links(html: &str, base_url: &str) -> (links: Vec<String>)
        ensures
            texts(links@) == document_links(html@, base_url@),
            texts(links@).no_duplicates(),
            forall|k: int|
                0 <= k < links@.len() ==> is_web_url(#[trigger] texts(links@)[k]) && url_parts(
                    texts(links@)[k],
                ) is Ok,
    {
        if split_url(base_url).is_err() {
            let links: Vec<String> = Vec::new();
            assert(texts(links@) =~= Seq::empty());
            return links;
        }
        let hrefs = select_attrs(html, "a[href]", "href");
        let mut resolved: Vec<Option<String>> = Vec::new();
        let mut i: usize = 0;
        assert(opt_texts(resolved@) =~= resolved_hrefs(base_url@, html_hrefs(html@).take(0)));
        while i < hrefs.len()
            invariant
                i <= hrefs.len(),
                opt_texts(hrefs@) == html_hrefs(html@),
                resolved@.len() == i,
                opt_texts(resolved@) == resolved_hrefs(base_url@, html_hrefs(html@).take(i as int)),
                all_parse(opt_texts(resolved@)),
            decreases hrefs.len() - i,
        {
            let ghost before = resolved@;
            assert(opt_texts(hrefs@)[i as int] == text_of(hrefs@[i as int]));
            let joined = match &hrefs[i] {
                Some(href) => join_url(base_url, href.as_str()),
                None => None,
            };
            resolved.push(joined);
            assert forall|j: int| 0 <= j < i + 1 implies opt_texts(resolved@)[j] == resolved_hrefs(
                base_url@,
                html_hrefs(html@).take(i + 1),
            )[j] by {
                if j < i {
                    assert(resolved@[j] == before[j]);
                    assert(opt_texts(before)[j] == resolved_hrefs(
                        base_url@,
                        html_hrefs(html@).take(i as int),
                    )[j]);
                }
            }
            assert(opt_texts(resolved@) =~= resolved_hrefs(
                base_url@,
                html_hrefs(html@).take(i + 1),
            ));
            assert forall|j: int| 0 <= j < i + 1 implies match #[trigger] opt_texts(resolved@)[j] {
                Some(url) => url_parts(url) is Ok,
                None => true,
            } by {
                if j < i {
                    assert(resolved@[j] == before[j]);
                    assert(opt_texts(resolved@)[j] == opt_texts(before)[j]);
                }
            }
            i += 1;
        }
        assert(html_hrefs(html@).take(i as int) =~= html_hrefs(html@));
        let links = Self::keep_web_links(&resolved);
        proof {
            lemma_web_links_are_a_set(opt_texts(resolved@));
            assert forall|k: int| 0 <= k < links@.len() implies is_web_url(
                #[trigger] texts(links@)[k],
            ) && url_parts(texts(links@)[k]) is Ok by {
                let url = texts(links@)[k];
                assert(texts(links@).contains(url));
                let j = choose|j: int|
                    0 <= j < opt_texts(resolved@).len() && opt_texts(resolved@)[j] == Some(url);
                assert(opt_texts(resolved@)[j] == Some(url));
            }
        }
        links
    }
}

} // verus!
