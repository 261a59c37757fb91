//! The page that visitors see.
use vstd::prelude::*;
use vstd::string::*;

use crate::page_text;
use crate::text;
use crate::text_laws;

verus! {

/// The version that the page shows.
pub const APP_VERSION: &'static str = "0.1.0";

/// What stands for the version in the text of the page.
pub const VERSION_PLACEHOLDER: &'static str = "__APP_VERSION__";

/// The page with the placeholder for the version.
pub open spec fn template() -> Seq<char> {
    page_text::HEAD@ + page_text::STYLE@ + page_text::BODY_START@ + page_text::BODY@
        + page_text::SCRIPT_START@ + page_text::SCRIPT_STATE@ + page_text::SCRIPT_PRIVACY@
        + page_text::SCRIPT_LATENCY@ + page_text::SCRIPT_DOWNLOAD@ + page_text::SCRIPT_HISTORY@
        + page_text::SCRIPT_EVENTS@ + page_text::END@
}

/// The page as visitors see it.
pub open spec fn page() -> Seq<char> {
    text::replaced(template(), VERSION_PLACEHOLDER@, APP_VERSION@)
}

/// The page, with its version in it and no placeholder left.
pub fn embedded_index_html() -> (r: String)
    ensures
        r@ == page(),
        !text::occurs(VERSION_PLACEHOLDER@, r@),
{
    let mut html = page_text::HEAD.to_owned();
    html.append(page_text::STYLE);
    html.append(page_text::BODY_START);
    html.append(page_text::BODY);
    html.append(page_text::SCRIPT_START);
    html.append(page_text::SCRIPT_STATE);
    html.append(page_text::SCRIPT_PRIVACY);
    html.append(page_text::SCRIPT_LATENCY);
    html.append(page_text::SCRIPT_DOWNLOAD);
    html.append(page_text::SCRIPT_HISTORY);
    html.append(page_text::SCRIPT_EVENTS);
    html.append(page_text::END);
    proof {
        reveal_strlit("__APP_VERSION__");
        reveal_strlit("0.1.0");
        law_no_placeholder_is_left(template(), VERSION_PLACEHOLDER@, APP_VERSION@);
    }
    text::replace(html.as_str(), VERSION_PLACEHOLDER, APP_VERSION)
}

/// Where replaced text begins with part of the placeholder, so did the text before.
proof fn lemma_kept_start(s: Seq<char>, from: Seq<char>, to: Seq<char>, k: nat, w: Seq<char>)
    requires
        from.len() > 0,
        to.len() > 0,
        forall|i: int, j: int|
            0 <= i < from.len() && 0 <= j < to.len() ==> #[trigger] from[i] != #[trigger] to[j],
        w.len() == k,
        forall|i: int| 0 <= i < k ==> from.contains(#[trigger] w[i]),
        k <= text::replaced(s, from, to).len(),
        text::replaced(s, from, to).take(k as int) == w,
    ensures
        k <= s.len(),
        s.take(k as int) == w,
    decreases k,
{
    let r = text::replaced(s, from, to);
    if k == 0 {
        assert(s.take(0) =~= w);
    } else {
        assert(r.take(k as int)[0] == w[0]);
        let i = from.index_of(w[0]);
        assert(from.contains(w[0]));
        assert(from[i] == w[0]);
        if s.len() > 0 {
            if from.is_prefix_of(s) {
                assert(r[0] == to[0]);
                assert(from[i] != to[0]);
            } else {
                let rest = s.drop_first();
                let rest_r = text::replaced(rest, from, to);
                assert(r =~= seq![s.first()] + rest_r);
                assert(rest_r.take(k - 1) =~= w.drop_first());
                assert forall|j: int| 0 <= j < k - 1 implies from.contains(
                    #[trigger] w.drop_first()[j],
                ) by {
                    assert(from.contains(w[j + 1]));
                }
                lemma_kept_start(rest, from, to, (k - 1) as nat, w.drop_first());
                assert(s.take(k as int) =~= w) by {
                    assert forall|j: int| 0 <= j < k implies s[j] == w[j] by {
                        if j > 0 {
                            assert(rest.take(k - 1)[j - 1] == w.drop_first()[j - 1]);
                        }
                    }
                }
            }
        }
    }
}

/// Where each occurrence of a placeholder is replaced by something that shares no character with
/// it, no placeholder is left.
pub proof fn law_no_placeholder_is_left(s: Seq<char>, from: Seq<char>, to: Seq<char>)
    requires
        from.len() > 0,
        to.len() > 0,
        forall|i: int, j: int|
            0 <= i < from.len() && 0 <= j < to.len() ==> #[trigger] from[i] != #[trigger] to[j],
    ensures
        !text::occurs(from, text::replaced(s, from, to)),
    decreases s.len(),
{
    let r = text::replaced(s, from, to);
    if text::occurs(from, r) {
        let i = choose|i: int| text::occurs_at(from, r, i);
        assert(text::occurs_at(from, r, i));
        assert(r.subrange(i, i + from.len())[0] == r[i]);
        if s.len() > 0 && from.is_prefix_of(s) {
            let rest = s.skip(from.len() as int);
            let rest_r = text::replaced(rest, from, to);
            law_no_placeholder_is_left(rest, from, to);
            if i < to.len() {
                assert(from[0] != to[i]);
            } else {
                assert(rest_r.subrange(i - to.len(), i - to.len() + from.len()) =~= r.subrange(
                    i,
                    i + from.len(),
                ));
                assert(text::occurs_at(from, rest_r, i - to.len()));
            }
        } else if s.len() > 0 {
            let rest_r = text::replaced(s.drop_first(), from, to);
            law_no_placeholder_is_left(s.drop_first(), from, to);
            if i > 0 {
                assert(rest_r.subrange(i - 1, i - 1 + from.len()) =~= r.subrange(
                    i,
                    i + from.len(),
                ));
                assert(text::occurs_at(from, rest_r, i - 1));
            } else {
                assert(r.take(from.len() as int) =~= r.subrange(0, from.len() as int));
                assert forall|j: int| 0 <= j < from.len() implies from.contains(
                    #[trigger] from[j],
                ) by {}
                lemma_kept_start(s, from, to, from.len(), from);
                assert(from.is_prefix_of(s));
            }
        }
    }
}

/// The parts of the page in the order in which a browser reads them.
pub open spec fn parts_of_the_page() -> Seq<Seq<char>> {
    seq![
        page_text::HEAD@,
        page_text::STYLE@,
        page_text::BODY_START@,
        page_text::BODY@,
        page_text::SCRIPT_START@,
        page_text::SCRIPT_STATE@,
        page_text::SCRIPT_PRIVACY@,
        page_text::SCRIPT_LATENCY@,
        page_text::SCRIPT_DOWNLOAD@,
        page_text::SCRIPT_HISTORY@,
        page_text::SCRIPT_EVENTS@,
        page_text::END@,
    ]
}

proof fn lemma_one_more(parts: Seq<Seq<char>>, part: Seq<char>)
    requires
        parts.len() > 0,
    ensures
        text::joined(parts.push(part), Seq::empty()) == text::joined(parts, Seq::empty()) + part,
{
    assert(parts.push(part).drop_last() =~= parts);
    assert(text::joined(parts, Seq::empty()) + Seq::<char>::empty() =~= text::joined(
        parts,
        Seq::empty(),
    ));
}

/// The page is made of its parts, one behind the other.
pub proof fn law_parts_of_the_page()
    ensures
        template() == text::joined(parts_of_the_page(), Seq::empty()),
{
    let a = seq![page_text::HEAD@];
    let b = a.push(page_text::STYLE@);
    lemma_one_more(a, page_text::STYLE@);
    let c = b.push(page_text::BODY_START@);
    lemma_one_more(b, page_text::BODY_START@);
    let d = c.push(page_text::BODY@);
    lemma_one_more(c, page_text::BODY@);
    let e = d.push(page_text::SCRIPT_START@);
    lemma_one_more(d, page_text::SCRIPT_START@);
    let f = e.push(page_text::SCRIPT_STATE@);
    lemma_one_more(e, page_text::SCRIPT_STATE@);
    let g = f.push(page_text::SCRIPT_PRIVACY@);
    lemma_one_more(f, page_text::SCRIPT_PRIVACY@);
    let h = g.push(page_text::SCRIPT_LATENCY@);
    lemma_one_more(g, page_text::SCRIPT_LATENCY@);
    let i = h.push(page_text::SCRIPT_DOWNLOAD@);
    lemma_one_more(h, page_text::SCRIPT_DOWNLOAD@);
    let j = i.push(page_text::SCRIPT_HISTORY@);
    lemma_one_more(i, page_text::SCRIPT_HISTORY@);
    let k = j.push(page_text::SCRIPT_EVENTS@);
    lemma_one_more(j, page_text::SCRIPT_EVENTS@);
    let l = k.push(page_text::END@);
    lemma_one_more(k, page_text::END@);
    assert(l =~= parts_of_the_page());
}

/// A placeholder in the text of the page becomes the version; what stands before the first one
/// stays.
pub proof fn law_version_is_shown(a: Seq<char>, b: Seq<char>)
    requires
        template() == a + "__APP_VERSION__"@ + b,
        forall|i: int|
            0 <= i < a.len() ==> !#[trigger] text::occurs_at("__APP_VERSION__"@, template(), i),
    ensures
        page() == a + "0.1.0"@ + text::replaced(b, "__APP_VERSION__"@, "0.1.0"@),
{
    reveal_strlit("__APP_VERSION__");
    text_laws::law_replacing_the_first(a, b, "__APP_VERSION__"@, "0.1.0"@);
}

} // verus!
