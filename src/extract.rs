use vstd::prelude::*;
use vstd::string::*;
use crate::message::string_views;

verus! {

/// The views of link targets read from matching elements; `None` stands for an
/// element without a link target.
pub open spec fn href_views(hrefs: Seq<Option<String>>) -> Seq<Option<Seq<char>>> {
    hrefs.map_values(|h: Option<String>|
        match h {
            Some(s) => Some(s@),
            None => None,
        })
}

/// The listing links of a page: `base` followed by each link target, in
/// document order, skipping elements that have none.
pub open spec fn extracted(base: Seq<char>, hrefs: Seq<Option<Seq<char>>>) -> Seq<Seq<char>>
    decreases hrefs.len(),
{
    if hrefs.len() == 0 {
        Seq::empty()
    } else {
        let rest = extracted(base, hrefs.drop_last());
        match hrefs.last() {
            Some(h) => rest.push(base + h),
            None => rest,
        }
    }
}

/// Turns the link targets of the matching elements, in document order, into
/// listing links on the site `base`.
pub fn extract_links(base: &str, hrefs: &Vec<Option<String>>) -> (r: Vec<String>)
    ensures
        string_views(r@) == extracted(base@, href_views(hrefs@)),
{
    let mut links: Vec<String> = Vec::new();
    let ghost hv = href_views(hrefs@);
    for i in 0..hrefs.len()
        invariant
            hv == href_views(hrefs@),
            string_views(links@) == extracted(base@, hv.take(i as int)),
    {
        proof {
            assert(hv.take(i + 1).drop_last() =~= hv.take(i as int));
        }
        match &hrefs[i] {
            Some(h) => {
                let mut link = String::from_str(base);
                link.append(h.as_str());
                links.push(link);
                proof {
                    assert(string_views(links@) =~= extracted(base@, hv.take(i as int)).push(
                        base@ + h@,
                    ));
                }
            },
            None => {},
        }
    }
    proof {
        assert(hv.take(hrefs.len() as int) =~= hv);
    }
    links
}

} // verus!
