use vstd::prelude::*;
use crate::text::{push_char, chars_of, trim_bounds, trim};

verus! {

broadcast use vstd::string::group_string_axioms;

/// The text pieces `scraper` yields for the first element of the HTML
/// document `html` that the CSS selector `selector` matches; `None` when the
/// selector does not parse or no element matches.
pub uninterp spec fn first_match_text(html: Seq<char>, selector: Seq<char>) -> Option<Seq<Seq<char>>>;

pub open spec fn strings_view(v: Seq<String>) -> Seq<Seq<char>> {
    v.map_values(|s: String| s@)
}

pub open spec fn opt_strings_view(o: Option<Vec<String>>) -> Option<Seq<Seq<char>>> {
    match o {
        Some(v) => Some(strings_view(v@)),
        None => None,
    }
}

/// Parses `html` with `scraper::Html::parse_document`, parses `selector` with
/// `scraper::Selector::parse`, takes the first element `Html::select` yields
/// and collects the pieces `ElementRef::text` yields. The contract claims
/// that the outcome is a function of the two texts alone.
#[verifier::external_body]
fn scrape_first_match_text(html: &str, selector: &str) -> (nodes: Option<Vec<String>>)
    ensures
        opt_strings_view(nodes) == first_match_text(html@, selector@),
{
    let document = scraper::Html::parse_document(html);
    let selector = scraper::Selector::parse(selector).ok()?;
    let element = document.select(&selector).next()?;
    Some(element.text().map(|piece| piece.to_string()).collect())
}

/// The text kept of a page: each text piece trimmed, empty pieces dropped,
/// every kept piece followed by a line feed.
pub open spec fn page_text(nodes: Seq<Seq<char>>) -> Seq<char>
    decreases nodes.len(),
{
    if nodes.len() == 0 {
        seq![]
    } else {
        let t = trim(nodes.last());
        page_text(nodes.drop_last()) + (if t.len() > 0 { t.push('\n') } else { seq![] })
    }
}

/// Each piece is kept on its own, whatever came before it: the text of two
/// runs of pieces is the text of the first followed by that of the second,
/// so a piece equal to an earlier one is kept again, and a non-blank piece
/// always adds its trimmed text and a line feed.
pub proof fn lemma_page_text_concat(a: Seq<Seq<char>>, b: Seq<Seq<char>>)
    ensures
        page_text(a + b) == page_text(a) + page_text(b),
        trim(b.last()).len() > 0 && b.len() > 0 ==> page_text(a + b).len() == page_text(a + b.drop_last()).len()
            + trim(b.last()).len() + 1,
    decreases b.len(),
{
    if b.len() == 0 {
        assert(a + b =~= a);
        assert(page_text(a) + page_text(b) =~= page_text(a));
    } else {
        lemma_page_text_concat(a, b.drop_last());
        assert((a + b).drop_last() =~= a + b.drop_last());
        assert((a + b).last() == b.last());
        let t = trim(b.last());
        let tail: Seq<char> = if t.len() > 0 { t.push('\n') } else { seq![] };
        assert(page_text(a) + page_text(b.drop_last()) + tail =~= page_text(a) + (page_text(
            b.drop_last(),
        ) + tail));
    }
}

/// Appends the trimmed `piece`, followed by a line feed, to `out` when the
/// trimmed piece is not empty.
fn append_trimmed_line(out: &mut String, piece: &String)
    ensures
        final(out)@ == old(out)@ + (if trim(piece@).len() > 0 { trim(piece@).push('\n') } else { seq![] }),
{
    let chars = chars_of(piece.as_str());
    let n = chars.len();
    let (lo, hi) = trim_bounds(&chars);
    let ghost s = chars@;
    if hi > lo {
        let ghost start = out@;
        let mut k = lo;
        while k < hi
            invariant
                lo <= k <= hi <= n == chars@.len(),
                s == chars@,
                out@ == start + s.subrange(lo as int, k as int),
            decreases hi - k,
        {
            push_char(out, chars[k]);
            proof {
                assert(s.subrange(lo as int, k + 1) =~= s.subrange(lo as int, k as int).push(s[k as int]));
            }
            k = k + 1;
        }
        push_char(out, '\n');
    } else {
        proof {
            assert(out@ =~= out@ + Seq::<char>::empty());
        }
    }
}

/// The text kept of a page from its text pieces: each piece trimmed of white
/// space, empty ones dropped, every kept piece followed by a line feed.
pub fn join_text_nodes(nodes: &Vec<String>) -> (text: String)
    ensures
        text@ == page_text(strings_view(nodes@)),
{
    let mut out = String::new();
    let n = nodes.len();
    let mut i: usize = 0;
    while i < n
        invariant
            i <= n == nodes@.len(),
            out@ == page_text(strings_view(nodes@.take(i as int))),
        decreases n - i,
    {
        append_trimmed_line(&mut out, &nodes[i]);
        proof {
            let vs = strings_view(nodes@.take(i + 1));
            assert(vs.drop_last() =~= strings_view(nodes@.take(i as int)));
            assert(vs.last() == nodes@[i as int]@);
        }
        i = i + 1;
    }
    proof {
        assert(nodes@.take(n as int) =~= nodes@);
    }
    out
}

/// The text of the `body` element of an HTML page: the text pieces of the
/// body, trimmed, empty ones dropped, each followed by a line feed; empty
/// when the page has no body.
pub fn extract_body_text(html: &str) -> (text: String)
    ensures
        text@ == match first_match_text(html@, "body"@) {
            Some(nodes) => page_text(nodes),
            None => seq![],
        },
{
    match scrape_first_match_text(html, "body") {
        Some(nodes) => join_text_nodes(&nodes),
        None => String::new(),
    }
}

} // verus!
