//! What goes into the request for a film's page: the address, and the
//! cookies as one header.

use vstd::prelude::*;
use vstd::string::*;

verus! {

/// The address of the page of a title.
pub open spec fn title_url_of(imdb_id: Seq<char>) -> Seq<char> {
    "https://www.imdb.com/title/"@ + imdb_id + "/"@
}

/// The address of the page of a title.
pub fn title_url(imdb_id: &str) -> (url: String)
    ensures
        url@ == title_url_of(imdb_id@),
{
    "https://www.imdb.com/title/".to_owned().concat(imdb_id).concat("/")
}

/// The views of a list of cookies, in order.
pub open spec fn cookie_views(cookies: Seq<(String, String)>) -> Seq<(Seq<char>, Seq<char>)> {
    Seq::new(cookies.len(), |i: int| (cookies[i].0@, cookies[i].1@))
}

/// One cookie as the header shows it: name, equals sign, value.
pub open spec fn cookie_text(cookie: (Seq<char>, Seq<char>)) -> Seq<char> {
    cookie.0 + "="@ + cookie.1
}

/// The cookies as one header value: each as name and value, with a
/// semicolon and a space between two.
pub open spec fn cookie_header_of(cookies: Seq<(Seq<char>, Seq<char>)>) -> Seq<char>
    decreases cookies.len(),
{
    if cookies.len() == 0 {
        Seq::empty()
    } else if cookies.len() == 1 {
        cookie_text(cookies[0])
    } else {
        cookie_header_of(cookies.drop_last()) + "; "@ + cookie_text(cookies.last())
    }
}

/// Writes the cookies as one header value.
pub fn cookie_header(cookies: &Vec<(String, String)>) -> (header: String)
    ensures
        header@ == cookie_header_of(cookie_views(cookies@)),
{
    let mut header = String::new();
    let ghost all = cookie_views(cookies@);
    let mut i: usize = 0;
    assert(all.take(0).len() == 0);
    while i < cookies.len()
        invariant
            i <= cookies@.len(),
            all == cookie_views(cookies@),
            header@ == cookie_header_of(all.take(i as int)),
        decreases cookies@.len() - i,
    {
        proof {
            let next = all.take(i + 1);
            assert(next.drop_last() == all.take(i as int));
            assert(next.last() == all[i as int]);
            assert(next[0] == all[0]);
            if i == 0 {
                assert(header@ + cookie_text(all[0]) == cookie_text(all[0]));
            }
        }
        if i > 0 {
            header.append("; ");
        }
        header.append(cookies[i].0.as_str());
        header.append("=");
        header.append(cookies[i].1.as_str());
        i += 1;
    }
    assert(all.take(cookies@.len() as int) == all);
    header
}

} // verus!
