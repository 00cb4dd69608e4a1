//! What a fetched page tells about itself: its `<title>`, and its Open Graph
//! title, image, description and site name.
use vstd::prelude::*;

use crate::data::{opt_view, PageInfo, PageInfoV};

verus! {

/// The text that `<title>(.*)</title>` captures in `body`, if it matches.
pub uninterp spec fn title_capture(body: Seq<char>) -> Option<Seq<char>>;

/// The name and value that `property="og:([^"]*)" content="([^"]*)"` captures
/// at each of its successive matches in `body`.
pub uninterp spec fn og_captures(body: Seq<char>) -> Seq<(Seq<char>, Seq<char>)>;

pub open spec fn pairs_view(v: Seq<(String, String)>) -> Seq<(Seq<char>, Seq<char>)> {
    v.map_values(|p: (String, String)| (p.0@, p.1@))
}

/// Relies on `regex::Regex::captures`: the first match of the title pattern
/// in `body`, and the text of its one group.
#[verifier::external_body]
fn find_title(body: &str) -> (r: Option<String>)
    ensures
        opt_view(r) == title_capture(body@),
{
    let re = regex::Regex::new("<title>(.*)</title>").unwrap();
    re.captures(body).map(|caps| caps[1].to_string())
}

/// Relies on `regex::Regex::captures_iter`: the successive matches of the
/// Open Graph pattern in `body`, each as its two groups.
#[verifier::external_body]
fn find_og_properties(body: &str) -> (r: Vec<(String, String)>)
    ensures
        pairs_view(r@) == og_captures(body@),
{
    let re = regex::Regex::new("property=\"og:([^\"]*)\" content=\"([^\"]*)\"").unwrap();
    re.captures_iter(body).map(|caps| (caps[1].to_string(), caps[2].to_string())).collect()
}

/// `p` with the Open Graph property `name` set to `value`; other names change nothing.
pub open spec fn set_property(p: PageInfoV, name: Seq<char>, value: Seq<char>) -> PageInfoV {
    if name == "title"@ {
        PageInfoV {
            url: p.url,
            title: p.title,
            card_title: value,
            image: p.image,
            description: p.description,
            site_name: p.site_name,
        }
    } else if name == "image"@ {
        PageInfoV {
            url: p.url,
            title: p.title,
            card_title: p.card_title,
            image: Some(value),
            description: p.description,
            site_name: p.site_name,
        }
    } else if name == "description"@ {
        PageInfoV {
            url: p.url,
            title: p.title,
            card_title: p.card_title,
            image: p.image,
            description: Some(value),
            site_name: p.site_name,
        }
    } else if name == "site_name"@ {
        PageInfoV {
            url: p.url,
            title: p.title,
            card_title: p.card_title,
            image: p.image,
            description: p.description,
            site_name: Some(value),
        }
    } else {
        p
    }
}

/// `p` with each property of `pairs` set in turn, so that the last one of a name counts.
pub open spec fn set_properties(p: PageInfoV, pairs: Seq<(Seq<char>, Seq<char>)>) -> PageInfoV
    decreases pairs.len(),
{
    if pairs.len() == 0 {
        p
    } else {
        set_property(set_properties(p, pairs.drop_last()), pairs.last().0, pairs.last().1)
    }
}

/// What a page at `url` tells, from its title and Open Graph properties: a
/// link card's title is the Open Graph one, or else the page's title.
pub open spec fn page_from(
    url: Seq<char>,
    title: Option<Seq<char>>,
    pairs: Seq<(Seq<char>, Seq<char>)>,
) -> PageInfoV {
    let t = match title {
        Some(t) => t,
        None => Seq::empty(),
    };
    let p = set_properties(
        PageInfoV {
            url,
            title: t,
            card_title: Seq::empty(),
            image: None,
            description: None,
            site_name: None,
        },
        pairs,
    );
    if p.card_title.len() == 0 {
        PageInfoV {
            url: p.url,
            title: p.title,
            card_title: t,
            image: p.image,
            description: p.description,
            site_name: p.site_name,
        }
    } else {
        p
    }
}

/// What the lookup gives for a page that could not be fetched.
pub open spec fn unreachable_page(url: Seq<char>) -> PageInfoV {
    PageInfoV {
        url,
        title: Seq::empty(),
        card_title: Seq::empty(),
        image: None,
        description: None,
        site_name: None,
    }
}

/// Whether `a` and `b` hold the same text.
fn same_text(a: &String, b: &str) -> (r: bool)
    ensures
        r == (a@ == b@),
{
    *a == b.to_owned()
}

/// The page at `url` from its title and Open Graph properties, as `page_from` says.
pub fn page_from_parts(url: &str, title: Option<String>, pairs: &Vec<(String, String)>) -> (r: PageInfo)
    ensures
        r@ == page_from(url@, opt_view(title), pairs_view(pairs@)),
{
    let t = match title {
        Some(t) => t,
        None => String::new(),
    };
    let mut p = PageInfo {
        url: url.to_owned(),
        title: t.clone(),
        card_title: String::new(),
        image: None,
        description: None,
        site_name: None,
    };
    let ghost start = p@;
    let mut k: usize = 0;
    while k < pairs.len()
        invariant
            k <= pairs@.len(),
            p@ == set_properties(start, pairs_view(pairs@).take(k as int)),
        decreases pairs.len() - k,
    {
        let (name, value) = &pairs[k];
        proof {
            assert(pairs_view(pairs@).take(k + 1).drop_last() =~= pairs_view(pairs@).take(k as int));
        }
        if same_text(name, "title") {
            p.card_title = value.clone();
        } else if same_text(name, "image") {
            p.image = Some(value.clone());
        } else if same_text(name, "description") {
            p.description = Some(value.clone());
        } else if same_text(name, "site_name") {
            p.site_name = Some(value.clone());
        }
        k += 1;
    }
    assert(pairs_view(pairs@).take(pairs@.len() as int) =~= pairs_view(pairs@));
    if p.card_title.as_str().is_empty() {
        p.card_title = t;
    }
    p
}

/// What the lookup gives for `url` from the page's body, or from no body
/// when the page could not be fetched.
pub fn page_info(url: &str, body: Option<String>) -> (r: PageInfo)
    ensures
        r@ == match body {
            Some(b) => page_from(url@, title_capture(b@), og_captures(b@)),
            None => unreachable_page(url@),
        },
{
    match body {
        Some(b) => {
            let title = find_title(b.as_str());
            let pairs = find_og_properties(b.as_str());
            page_from_parts(url, title, &pairs)
        },
        None => PageInfo {
            url: url.to_owned(),
            title: String::new(),
            card_title: String::new(),
            image: None,
            description: None,
            site_name: None,
        },
    }
}

} // verus!
