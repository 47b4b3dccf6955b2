use vstd::prelude::*;
use vstd::string::*;

verus! {

/// First line of every notification.
pub const HEADER: &'static str = "RustJobs updates:\n";

/// Tag that closes every notification.
pub const TAG: &'static str = "#rust_jobs";

/// Text that follows every item of a notification.
pub const SEPARATOR: &'static str = "\n\n";

pub open spec fn header_text() -> Seq<char> {
    HEADER@
}

pub open spec fn tag_text() -> Seq<char> {
    TAG@
}

pub open spec fn separator_text() -> Seq<char> {
    SEPARATOR@
}

/// The views of a sequence of strings.
pub open spec fn string_views(v: Seq<String>) -> Seq<Seq<char>> {
    v.map_values(|s: String| s@)
}

/// Each link followed by the separator, in order.
pub open spec fn link_lines(links: Seq<Seq<char>>) -> Seq<char>
    decreases links.len(),
{
    if links.len() == 0 {
        Seq::empty()
    } else {
        link_lines(links.drop_last()) + links.last() + separator_text()
    }
}

/// The notification for a batch of links: the header, each link and the tag,
/// every item followed by a blank line.
pub open spec fn message_text(links: Seq<Seq<char>>) -> Seq<char> {
    header_text() + separator_text() + link_lines(links) + tag_text() + separator_text()
}

/// Builds the notification text announcing `links`.
pub fn create_message(links: &Vec<String>) -> (r: String)
    ensures
        r@ == message_text(string_views(links@)),
{
    let mut msg = String::new();
    msg.append(HEADER);
    msg.append(SEPARATOR);
    let ghost views = string_views(links@);
    for i in 0..links.len()
        invariant
            views == string_views(links@),
            msg@ == header_text() + separator_text() + link_lines(views.take(i as int)),
    {
        msg.append(links[i].as_str());
        msg.append(SEPARATOR);
        proof {
            assert(views.take(i + 1).drop_last() =~= views.take(i as int));
        }
    }
    proof {
        assert(views.take(links.len() as int) =~= views);
    }
    msg.append(TAG);
    msg.append(SEPARATOR);
    msg
}

} // verus!
