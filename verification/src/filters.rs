//! Content filters for the rendering pipeline around the sync core:
//! each filter produces a fragment and says whether it goes before or
//! after the text it decorates; applying a set of filters wraps the
//! text in all the fragments, beginnings first, in filter order.
//!
//! Filters are named by enums so that each application carries an
//! exact contract; the produced fragments match the named filter
//! functions below.
use vstd::prelude::*;

verus! {

use vstd::utf8::{decode_utf8, encode_utf8, valid_utf8};
use crate::codec::string_from_utf8;

/// Where a filter's fragment is written relative to the text.
#[derive(Clone, Copy, Debug, PartialEq, Eq, Structural)]
pub enum WriteTo {
    /// The fragment goes before the text.
    Beginning,
    /// The fragment goes after the text.
    End,
}

/// The stylesheet fragment: viewport metadata and the stylesheet
/// link, written before the page.
pub fn styling(html: &str) -> (r: (String, WriteTo))
    ensures
        r.0@ == styling_fragment(),
        r.1 == WriteTo::Beginning,
{
    let _ = html;
    let mut s = String::new();
    s.append("<meta name='viewport' content='width=device-width, initial-scale=1'>");
    s.append("<link rel='stylesheet' href='/style.css'>");
    proof {
        assert(s@ =~= styling_fragment());
    }
    (s, WriteTo::Beginning)
}

/// The fragment `styling` produces.
pub open spec fn styling_fragment() -> Seq<char> {
    "<meta name='viewport' content='width=device-width, initial-scale=1'>"@
        + "<link rel='stylesheet' href='/style.css'>"@
}

/// The home-page link fragment, written after the page.
pub fn add_homepage(html: &str) -> (r: (String, WriteTo))
    ensures
        r.0@ == homepage_fragment(),
        r.1 == WriteTo::End,
{
    let _ = html;
    let mut s = String::new();
    s.append("<br><a href='/'>Back to home page</a>");
    proof {
        assert(s@ =~= homepage_fragment());
    }
    (s, WriteTo::End)
}

/// The fragment `add_homepage` produces.
pub open spec fn homepage_fragment() -> Seq<char> {
    "<br><a href='/'>Back to home page</a>"@
}

/// The metadata header for a post: its title, date and author,
/// written before the markdown.
pub fn add_metadata(md: &str, path: &str, title: &str, date: &str) -> (r: (String, WriteTo))
    ensures
        r.0@ == metadata_fragment(title@, date@),
        r.1 == WriteTo::Beginning,
{
    let _ = md;
    let _ = path;
    let mut s = String::new();
    s.append("## **");
    s.append(title);
    s.append("**\n### ");
    s.append(date);
    s.append("\n### bootlegbilly");
    proof {
        assert(s@ =~= metadata_fragment(title@, date@));
    }
    (s, WriteTo::Beginning)
}

/// The fragment `add_metadata` produces for a title and date.
pub open spec fn metadata_fragment(title: Seq<char>, date: Seq<char>) -> Seq<char> {
    "## **"@ + title + "**\n### "@ + date + "\n### bootlegbilly"@
}

/// A markdown filter, named.
#[derive(Clone, Copy, Debug, PartialEq, Eq, Structural)]
pub enum MdFilter {
    /// `add_metadata`.
    AddMetadata,
}

/// A HTML filter, named.
#[derive(Clone, Copy, Debug, PartialEq, Eq, Structural)]
pub enum HtmlFilter {
    /// `styling`.
    Styling,
    /// `add_homepage`.
    AddHomepage,
}

/// The fragment and placement a markdown filter produces.
pub open spec fn md_filter_output(
    f: MdFilter,
    title: Seq<char>,
    date: Seq<char>,
) -> (Seq<char>, WriteTo) {
    match f {
        MdFilter::AddMetadata => (metadata_fragment(title, date), WriteTo::Beginning),
    }
}

/// The fragment and placement a HTML filter produces.
pub open spec fn html_filter_output(f: HtmlFilter) -> (Seq<char>, WriteTo) {
    match f {
        HtmlFilter::Styling => (styling_fragment(), WriteTo::Beginning),
        HtmlFilter::AddHomepage => (homepage_fragment(), WriteTo::End),
    }
}

/// All fragments a filter list writes before the text, in order.
pub open spec fn md_beginnings(fs: Seq<MdFilter>, title: Seq<char>, date: Seq<char>) -> Seq<char>
    decreases fs.len(),
{
    if fs.len() == 0 {
        Seq::empty()
    } else {
        let out = md_filter_output(fs.last(), title, date);
        md_beginnings(fs.drop_last(), title, date) + if out.1 == WriteTo::Beginning {
            out.0
        } else {
            Seq::empty()
        }
    }
}

/// All fragments a filter list writes after the text, in order.
pub open spec fn md_ends(fs: Seq<MdFilter>, title: Seq<char>, date: Seq<char>) -> Seq<char>
    decreases fs.len(),
{
    if fs.len() == 0 {
        Seq::empty()
    } else {
        let out = md_filter_output(fs.last(), title, date);
        md_ends(fs.drop_last(), title, date) + if out.1 == WriteTo::End {
            out.0
        } else {
            Seq::empty()
        }
    }
}

/// All fragments a HTML filter list writes before the text, in order.
pub open spec fn html_beginnings(fs: Seq<HtmlFilter>) -> Seq<char>
    decreases fs.len(),
{
    if fs.len() == 0 {
        Seq::empty()
    } else {
        let out = html_filter_output(fs.last());
        html_beginnings(fs.drop_last()) + if out.1 == WriteTo::Beginning {
            out.0
        } else {
            Seq::empty()
        }
    }
}

/// All fragments a HTML filter list writes after the text, in order.
pub open spec fn html_ends(fs: Seq<HtmlFilter>) -> Seq<char>
    decreases fs.len(),
{
    if fs.len() == 0 {
        Seq::empty()
    } else {
        let out = html_filter_output(fs.last());
        html_ends(fs.drop_last()) + if out.1 == WriteTo::End {
            out.0
        } else {
            Seq::empty()
        }
    }
}

/// Run one markdown filter.
fn run_md_filter(
    f: MdFilter,
    md: &str,
    path: &str,
    title: &str,
    date: &str,
) -> (r: (String, WriteTo))
    ensures
        (r.0@, r.1) == md_filter_output(f, title@, date@),
{
    match f {
        MdFilter::AddMetadata => add_metadata(md, path, title, date),
    }
}

/// Run one HTML filter.
fn run_html_filter(f: HtmlFilter, html: &str) -> (r: (String, WriteTo))
    ensures
        (r.0@, r.1) == html_filter_output(f),
{
    match f {
        HtmlFilter::Styling => styling(html),
        HtmlFilter::AddHomepage => add_homepage(html),
    }
}

/// Apply markdown filters: the text becomes every beginning fragment,
/// in filter order, then the text, then every end fragment.
pub fn apply_md_filters(md: &mut String, path: &str, title: &str, date: &str, filters: &[MdFilter])
    ensures
        final(md)@ == md_beginnings(filters@, title@, date@) + old(md)@ + md_ends(
            filters@,
            title@,
            date@,
        ),
{
    let mut beginning = String::new();
    let mut end = String::new();
    let mut i: usize = 0;
    while i < filters.len()
        invariant
            i <= filters@.len(),
            beginning@ == md_beginnings(filters@.take(i as int), title@, date@),
            end@ == md_ends(filters@.take(i as int), title@, date@),
        decreases filters@.len() - i,
    {
        let (fragment, write_to) = run_md_filter(filters[i], md.as_str(), path, title, date);
        match write_to {
            WriteTo::Beginning => beginning.append(fragment.as_str()),
            WriteTo::End => end.append(fragment.as_str()),
        }
        proof {
            assert(filters@.take(i + 1).drop_last() =~= filters@.take(i as int));
            assert(filters@.take(i + 1).last() == filters@[i as int]);
        }
        i += 1;
    }
    proof {
        assert(filters@.take(filters@.len() as int) =~= filters@);
    }
    beginning.append(md.as_str());
    beginning.append(end.as_str());
    *md = beginning;
}

/// What minify_html::minify returns for the default configuration: a
/// function of the input bytes alone.
pub uninterp spec fn minify_of(b: Seq<u8>) -> Seq<u8>;

/// Relies on minify_html::minify with the default Cfg: minified HTML
/// that is a function of the input bytes alone.
#[verifier::external_body]
fn minify_bytes(b: &[u8]) -> (r: Vec<u8>)
    ensures
        r@ == minify_of(b@),
{
    minify_html::minify(b, &minify_html::Cfg::new())
}

/// The text `apply_html_filters` wraps before minifying.
pub open spec fn html_composed(html: Seq<char>, fs: Seq<HtmlFilter>) -> Seq<char> {
    html_beginnings(fs) + html + html_ends(fs)
}

/// Apply HTML filters and minify: the text is wrapped in every
/// fragment as with markdown filters, then handed to the minifier;
/// when the minifier's bytes are valid UTF-8 they become the text,
/// otherwise the wrapped text stands unminified.
pub fn apply_html_filters(html: &mut String, filters: &[HtmlFilter])
    ensures
        ({
            let composed = html_composed(old(html)@, filters@);
            if valid_utf8(minify_of(encode_utf8(composed))) {
                final(html)@ == decode_utf8(minify_of(encode_utf8(composed)))
            } else {
                final(html)@ == composed
            }
        }),
{
    let mut beginning = String::new();
    let mut end = String::new();
    let mut i: usize = 0;
    while i < filters.len()
        invariant
            i <= filters@.len(),
            beginning@ == html_beginnings(filters@.take(i as int)),
            end@ == html_ends(filters@.take(i as int)),
        decreases filters@.len() - i,
    {
        let (fragment, write_to) = run_html_filter(filters[i], html.as_str());
        match write_to {
            WriteTo::Beginning => beginning.append(fragment.as_str()),
            WriteTo::End => end.append(fragment.as_str()),
        }
        proof {
            assert(filters@.take(i + 1).drop_last() =~= filters@.take(i as int));
            assert(filters@.take(i + 1).last() == filters@[i as int]);
        }
        i += 1;
    }
    proof {
        assert(filters@.take(filters@.len() as int) =~= filters@);
    }
    beginning.append(html.as_str());
    beginning.append(end.as_str());
    let minified = minify_bytes(beginning.as_str().as_bytes());
    match string_from_utf8(minified) {
        Some(s) => {
            *html = s;
        },
        None => {
            *html = beginning;
        },
    }
}

} // verus!
