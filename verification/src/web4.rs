//! The web page that the contract serves for a path (web4): a shell with
//! link-preview metadata for communities and proposals.
use crate::contract::Contract;
use crate::proposal::VersionedProposal;
use near_sdk::base64::Engine;
use vstd::prelude::*;

verus! {

pub const PAGE_0: &'static str = "<!DOCTYPE html>\n<html>\n<head>\n    <title>";

pub const PAGE_1: &'static str = "</title>\n    <meta charset=\"utf-8\">\n    <meta name=\"viewport\" content=\"width=device-width,initial-scale=1\">\n    <meta property=\"og:url\" content=\"";

pub const PAGE_2: &'static str = "\" />\n    <meta property=\"og:type\" content=\"website\" />\n    <meta property=\"og:title\" content=\"";

pub const PAGE_3: &'static str = "\" />\n    <meta property=\"og:description\" content=\"";

pub const PAGE_4: &'static str = "\" />\n    <meta property=\"og:image\" content=\"";

pub const PAGE_5: &'static str = "\" />\n\n    <meta name=\"twitter:card\" content=\"summary_large_image\">\n    <meta name=\"twitter:title\" content=\"";

pub const PAGE_6: &'static str = "\">\n    <meta name=\"twitter:description\" content=\"";

pub const PAGE_7: &'static str = "\">\n    <meta name=\"twitter:image\" content=\"";

pub const PAGE_8: &'static str = "\">\n    <script src=\"https://ipfs.web4.near.page/ipfs/bafybeic6aeztkdlthx5uwehltxmn5i6owm47b7b2jxbbpwmydv2mwxdfca/main.794b6347ae264789bc61.bundle.js\"></script>\n    <script src=\"https://ipfs.web4.near.page/ipfs/bafybeic6aeztkdlthx5uwehltxmn5i6owm47b7b2jxbbpwmydv2mwxdfca/runtime.25b143da327a5371509f.bundle.js\"></script>\n</head>\n<body>\n    <div class=\"container\">\n        <nav class=\"navbar navbar-expand-lg navbar-light bg-light\">\n            <div class=\"navbar-brand\"><img src=\"https://i.near.social/magic/large/https://near.social/magic/img/account/devhub.near\" style=\"width: 64px\" /></div>\n            <ul class=\"navbar-nav mr-auto\">\n                <li class=\"nav-item\"><a href=\"https://near.org/";

pub const PAGE_9: &'static str = "\" class=\"nav-link\">near.org</a></li>\n                <li class=\"nav-item\"><a href=\"https://near.social/";

pub const PAGE_10: &'static str = "\" class=\"nav-link\">near.social</a></li>\n            </ul>\n        </nav>\n    </div>\n    <near-social-viewer src=\"devhub.near/widget/app\" initialProps='";

pub const PAGE_11: &'static str = "'></near-social-viewer>\n</body>\n</html>";

/// The page for the given metadata, redirect path and initial properties.
pub open spec fn page_html(title: Seq<char>, description: Seq<char>, image: Seq<char>, url: Seq<char>, props: Seq<char>) -> Seq<char> {
    PAGE_0@ + title + PAGE_1@ + url + PAGE_2@ + title + PAGE_3@ + description + PAGE_4@ + image + PAGE_5@ + title + PAGE_6@ + description + PAGE_7@ + image + PAGE_8@ + url + PAGE_9@ + url + PAGE_10@ + props + PAGE_11@
}

fn render_page(title: &str, description: &str, image: &str, url: &str, props: &str) -> (r: String)
    ensures
        r@ == page_html(title@, description@, image@, url@, props@),
{
    let mut s = String::new();
    s.append(PAGE_0);
    s.append(title);
    s.append(PAGE_1);
    s.append(url);
    s.append(PAGE_2);
    s.append(title);
    s.append(PAGE_3);
    s.append(description);
    s.append(PAGE_4);
    s.append(image);
    s.append(PAGE_5);
    s.append(title);
    s.append(PAGE_6);
    s.append(description);
    s.append(PAGE_7);
    s.append(image);
    s.append(PAGE_8);
    s.append(url);
    s.append(PAGE_9);
    s.append(url);
    s.append(PAGE_10);
    s.append(props);
    s.append(PAGE_11);
    proof {
        assert(s@ =~= page_html(title@, description@, image@, url@, props@));
    }
    s
}

/// The HTML text encoding of a character: `&`, `<` and `>` become entities.
pub open spec fn html_escape_char(c: char) -> Seq<char> {
    if c == '&' {
        "&amp;"@
    } else if c == '<' {
        "&lt;"@
    } else if c == '>' {
        "&gt;"@
    } else {
        seq![c]
    }
}

/// A text encoded for use as HTML text, character by character.
pub open spec fn html_text_escaped(s: Seq<char>) -> Seq<char>
    decreases s.len(),
{
    if s.len() == 0 {
        Seq::empty()
    } else {
        html_text_escaped(s.drop_last()) + html_escape_char(s.last())
    }
}

/// `html_escape::encode_text`: the text with every `&`, `<` and `>` replaced by
/// `&amp;`, `&lt;` and `&gt;`, and every other character kept.
#[verifier::external_body]
fn encode_text(text: &str) -> (r: String)
    ensures
        r@ == html_text_escaped(text@),
{
    html_escape::encode_text(text).to_string()
}

/// The compact JSON text of an object with the given string members, as `serde_json` writes it.
pub uninterp spec fn json_object_text(members: Seq<(Seq<char>, Seq<char>)>) -> Seq<char>;

pub open spec fn members_view(v: Seq<(String, String)>) -> Seq<(Seq<char>, Seq<char>)> {
    v.map_values(|m: (String, String)| (m.0@, m.1@))
}

/// `serde_json::Value::Object(..).to_string()` on an object whose members are
/// the given names and string values, in this order. The contract names the result.
#[verifier::external_body]
pub(crate) fn json_object_string(members: &Vec<(String, String)>) -> (r: String)
    ensures
        r@ == json_object_text(members_view(members@)),
{
    let map: serde_json::Map<String, serde_json::Value> = members.iter().map(
        |m| (m.0.clone(), serde_json::Value::String(m.1.clone())),
    ).collect();
    serde_json::Value::Object(map).to_string()
}

/// The base64 text (URL-safe alphabet, no padding) of the UTF-8 bytes of a text.
pub uninterp spec fn base64_url_nopad(text: Seq<char>) -> Seq<char>;

/// `base64::Engine::encode` with the URL-safe alphabet and no padding, on the
/// UTF-8 bytes of the text. The contract names the result.
#[verifier::external_body]
fn base64_encode(text: &str) -> (r: String)
    ensures
        r@ == base64_url_nopad(text@),
{
    let engine = near_sdk::base64::engine::GeneralPurpose::new(
        &near_sdk::base64::alphabet::URL_SAFE,
        near_sdk::base64::engine::general_purpose::NO_PAD,
    );
    engine.encode(text)
}

/// The pieces of a text between the separators, as `str::split` gives them.
pub open spec fn split_on(s: Seq<char>, sep: char) -> Seq<Seq<char>>
    decreases s.len(),
{
    if s.len() == 0 {
        seq![Seq::empty()]
    } else {
        let rest = split_on(s.drop_last(), sep);
        if s.last() == sep {
            rest.push(Seq::empty())
        } else {
            rest.update(rest.len() - 1, rest.last().push(s.last()))
        }
    }
}

proof fn lemma_split_nonempty(s: Seq<char>, sep: char)
    ensures
        split_on(s, sep).len() >= 1,
    decreases s.len(),
{
    if s.len() > 0 {
        lemma_split_nonempty(s.drop_last(), sep);
    }
}

/// The pieces of `text` between slashes.
pub fn split_path(text: &str) -> (r: Vec<String>)
    ensures
        crate::access_control::rules::strings_view(r@) == split_on(text@, '/'),
{
    let n = text.unicode_len();
    let mut parts: Vec<String> = Vec::new();
    let mut start: usize = 0;
    let mut i: usize = 0;
    proof {
        assert(text@.subrange(0, 0) =~= Seq::<char>::empty());
    }
    while i < n
        invariant
            n == text@.len(),
            start <= i <= n,
            crate::access_control::rules::strings_view(parts@).push(text@.subrange(start as int, i as int)) == split_on(
                text@.subrange(0, i as int),
                '/',
            ),
        decreases n - i,
    {
        let c = text.get_char(i);
        let ghost prefix = text@.subrange(0, i + 1);
        proof {
            assert(prefix.drop_last() =~= text@.subrange(0, i as int));
            assert(prefix.last() == c);
            lemma_split_nonempty(text@.subrange(0, i as int), '/');
        }
        let ghost before = crate::access_control::rules::strings_view(parts@);
        if c == '/' {
            let piece = text.substring_char(start, i);
            parts.push(String::from_str(piece));
            proof {
                assert(crate::access_control::rules::strings_view(parts@) =~= before.push(text@.subrange(start as int, i as int)));
                assert(text@.subrange((i + 1) as int, (i + 1) as int) =~= Seq::<char>::empty());
            }
            start = i + 1;
        } else {
            proof {
                assert(text@.subrange(start as int, i + 1) =~= text@.subrange(start as int, i as int).push(c));
                assert(before.push(text@.subrange(start as int, i + 1)) =~= before.push(text@.subrange(start as int, i as int)).update(
                    before.len() as int,
                    text@.subrange(start as int, i as int).push(c),
                ));
            }
        }
        i += 1;
    }
    let piece = text.substring_char(start, n);
    parts.push(String::from_str(piece));
    proof {
        assert(text@.subrange(0, n as int) =~= text@);
    }
    parts
}

/// The numeric value of a text of decimal digits.
pub open spec fn digits_value(d: Seq<char>) -> nat
    decreases d.len(),
{
    if d.len() == 0 {
        0
    } else {
        digits_value(d.drop_last()) * 10 + ((d.last() as int - '0' as int) as nat)
    }
}

pub open spec fn all_digits(d: Seq<char>) -> bool {
    forall|i: int| 0 <= i < d.len() ==> '0' <= #[trigger] d[i] <= '9'
}

/// The number a text denotes as `u32::from_str` reads it: decimal digits, with
/// an optional leading `+`, within range.
pub open spec fn u32_from_text(s: Seq<char>) -> Option<u32> {
    let d = if s.len() > 0 && s[0] == '+' {
        s.drop_first()
    } else {
        s
    };
    if d.len() > 0 && all_digits(d) && digits_value(d) <= u32::MAX {
        Some(digits_value(d) as u32)
    } else {
        None
    }
}

/// Reads a decimal `u32`, as `str::parse::<u32>` does.
pub fn parse_u32(s: &str) -> (r: Option<u32>)
    ensures
        r == u32_from_text(s@),
{
    let n = s.unicode_len();
    let mut i: usize = 0;
    if n > 0 && s.get_char(0) == '+' {
        i = 1;
    }
    let ghost d = if s@.len() > 0 && s@[0] == '+' {
        s@.drop_first()
    } else {
        s@
    };
    let first = i;
    assert(d =~= s@.subrange(first as int, n as int));
    if first == n {
        return None;
    }
    let mut value: u64 = 0;
    let mut over = false;
    while i < n
        invariant
            n == s@.len(),
            first <= i <= n,
            first < n,
            d == s@.subrange(first as int, n as int),
            d == (if s@.len() > 0 && s@[0] == '+' {
                s@.drop_first()
            } else {
                s@
            }),
            all_digits(s@.subrange(first as int, i as int)),
            !over ==> value == digits_value(s@.subrange(first as int, i as int)) && value <= u32::MAX,
            over ==> digits_value(s@.subrange(first as int, i as int)) > u32::MAX,
        decreases n - i,
    {
        let c = s.get_char(i);
        let ghost seen = s@.subrange(first as int, i as int);
        proof {
            assert(s@.subrange(first as int, i + 1) =~= seen.push(c));
            assert(s@.subrange(first as int, i + 1).drop_last() =~= seen);
        }
        if !('0' <= c && c <= '9') {
            proof {
                assert(d[i - first] == c);
                assert(!all_digits(d));
                assert(u32_from_text(s@) is None);
            }
            return None;
        }
        let digit = (c as u32 - '0' as u32) as u64;
        if !over {
            value = value * 10 + digit;
            if value > 0xffff_ffffu64 {
                over = true;
            }
        }
        proof {
            assert forall|k: int| 0 <= k < i + 1 - first implies '0' <= #[trigger] s@.subrange(first as int, i + 1)[k] <= '9' by {
                if k < i - first {
                    assert(s@.subrange(first as int, i + 1)[k] == seen[k]);
                }
            }
        }
        i += 1;
    }
    if over {
        None
    } else {
        Some(value as u32)
    }
}

proof fn lemma_digit_char(d: nat)
    requires
        d < 10,
    ensures
        '0' <= crate::text::digit_char(d) <= '9',
        crate::text::digit_char(d) as int - '0' as int == d,
{
    reveal_strlit("0123456789");
}

proof fn lemma_decimal_digits(n: nat)
    ensures
        all_digits(crate::text::decimal(n)),
        digits_value(crate::text::decimal(n)) == n,
        crate::text::decimal(n).len() > 0,
    decreases n,
{
    let d = crate::text::decimal(n);
    if n < 10 {
        lemma_digit_char(n);
        assert(d.drop_last() =~= Seq::<char>::empty());
        assert(d.last() == crate::text::digit_char(n));
        assert(digits_value(d.drop_last()) == 0);
        assert(digits_value(d) == digits_value(d.drop_last()) * 10 + ((d.last() as int - '0' as int) as nat));
    } else {
        lemma_decimal_digits(n / 10);
        lemma_digit_char(n % 10);
        assert(d.drop_last() =~= crate::text::decimal(n / 10));
        assert(d.last() == crate::text::digit_char(n % 10));
        assert(digits_value(d) == digits_value(d.drop_last()) * 10 + ((d.last() as int - '0' as int) as nat));
        assert((n / 10) * 10 + n % 10 == n);
        assert forall|i: int| 0 <= i < d.len() implies '0' <= #[trigger] d[i] <= '9' by {
            if i < d.len() - 1 {
                assert(d[i] == crate::text::decimal(n / 10)[i]);
            }
        }
    }
}

/// The decimal text of an id, as posts and proposals are linked by, reads back
/// as that id.
pub proof fn law_decimal_reads_back(n: u32)
    ensures
        u32_from_text(crate::text::decimal(n as nat)) == Some(n),
{
    lemma_decimal_digits(n as nat);
    let d = crate::text::decimal(n as nat);
    assert(d[0] != '+');
}

/// A web page request; only its path matters here.
pub struct Web4Request {
    pub path: String,
}

pub enum Web4Response {
    Body { content_type: String, body: String },
}

/// The stored proposal that the text names, if any.
pub open spec fn proposal_named(c: Contract, id_text: Seq<char>) -> Option<crate::proposal::ProposalBodyV1> {
    match u32_from_text(id_text) {
        Some(id) => if id < c.proposals@.len() {
            Some(c.proposals@[id as int].inner().snapshot.body.latest())
        } else {
            None
        },
        None => None,
    }
}

pub open spec fn is_community_page(parts: Seq<Seq<char>>) -> bool {
    parts[1] == "community"@
}

pub open spec fn is_proposal_page(parts: Seq<Seq<char>>) -> bool {
    parts[1] == "proposal"@
}

pub open spec fn web4_title(c: Contract, parts: Seq<Seq<char>>) -> Seq<char> {
    if is_community_page(parts) && c.communities.map().dom().contains(parts[2]) {
        html_text_escaped(c.communities.map()[parts[2]].name@)
    } else if is_proposal_page(parts) && proposal_named(c, parts[2]) is Some {
        html_text_escaped(proposal_named(c, parts[2])->0.name@)
    } else {
        "near/dev/hub"@
    }
}

pub open spec fn web4_description(c: Contract, parts: Seq<Seq<char>>) -> Seq<char> {
    if is_community_page(parts) && c.communities.map().dom().contains(parts[2]) {
        html_text_escaped(c.communities.map()[parts[2]].description@)
    } else if is_proposal_page(parts) && proposal_named(c, parts[2]) is Some {
        html_text_escaped(proposal_named(c, parts[2])->0.summary@)
    } else {
        "The decentralized home base for NEAR builders"@
    }
}

pub open spec fn web4_image(c: Contract, parts: Seq<Seq<char>>) -> Seq<char> {
    if is_community_page(parts) && c.communities.map().dom().contains(parts[2]) {
        c.communities.map()[parts[2]].logo_url@
    } else {
        "https://i.near.social/magic/large/https://near.social/magic/img/account/devhub.near"@
    }
}

pub open spec fn web4_redirect(parts: Seq<Seq<char>>) -> Seq<char> {
    if is_community_page(parts) {
        "devhub.near/widget/app?page="@ + parts[1] + "&handle="@ + parts[2]
    } else if is_proposal_page(parts) {
        "devhub.near/widget/app?page="@ + parts[1] + "&id="@ + parts[2]
    } else {
        "devhub.near/widget/app"@
    }
}

pub open spec fn web4_props(parts: Seq<Seq<char>>) -> Seq<char> {
    if is_community_page(parts) {
        json_object_text(seq![("page"@, parts[1]), ("handle"@, parts[2])])
    } else if is_proposal_page(parts) {
        json_object_text(seq![("page"@, parts[1]), ("id"@, parts[2])])
    } else {
        json_object_text(seq![("page"@, parts[1])])
    }
}

/// On the page for a stored community, the link previews (the `og:image` and
/// `twitter:image` meta tags) show that community's logo.
pub proof fn law_community_preview_image(c: Contract, path: Seq<char>)
    requires
        split_on(path, '/').len() >= 3,
        split_on(path, '/')[1] == "community"@,
        c.communities.map().dom().contains(split_on(path, '/')[2]),
    ensures
        ({
            let parts = split_on(path, '/');
            let logo = c.communities.map()[parts[2]].logo_url@;
            let page = page_html(
                web4_title(c, parts),
                web4_description(c, parts),
                web4_image(c, parts),
                web4_redirect(parts),
                web4_props(parts),
            );
            &&& exists|i: int| crate::text::occurs_at(page, PAGE_4@ + logo + PAGE_5@, i)
            &&& exists|i: int| crate::text::occurs_at(page, PAGE_7@ + logo + PAGE_8@, i)
        }),
{
    let parts = split_on(path, '/');
    let logo = c.communities.map()[parts[2]].logo_url@;
    let (t, d, u, p) = (web4_title(c, parts), web4_description(c, parts), web4_redirect(parts), web4_props(parts));
    let image = web4_image(c, parts);
    assert(image == logo);
    let page = page_html(t, d, image, u, p);
    let a = PAGE_0@ + t + PAGE_1@ + u + PAGE_2@ + t + PAGE_3@ + d;
    let og = PAGE_4@ + logo + PAGE_5@;
    let b = t + PAGE_6@ + d + PAGE_7@ + image + PAGE_8@ + u + PAGE_9@ + u + PAGE_10@ + p + PAGE_11@;
    assert(page =~= a + og + b);
    assert((a + og + b).subrange(a.len() as int, (a.len() + og.len()) as int) =~= og);
    assert(crate::text::occurs_at(page, og, a.len() as int));
    let a2 = a + PAGE_4@ + image + PAGE_5@ + t + PAGE_6@ + d;
    let tw = PAGE_7@ + logo + PAGE_8@;
    let b2 = u + PAGE_9@ + u + PAGE_10@ + p + PAGE_11@;
    assert(page =~= a2 + tw + b2);
    assert((a2 + tw + b2).subrange(a2.len() as int, (a2.len() + tw.len()) as int) =~= tw);
    assert(crate::text::occurs_at(page, tw, a2.len() as int));
}

/// The link previews name what the page is about: a stored community by its name
/// and description, a stored proposal by its name and summary (both HTML-escaped),
/// and a proposal's preview shows the hub's image.
pub proof fn law_preview_text(c: Contract, path: Seq<char>)
    requires
        split_on(path, '/').len() >= 3,
    ensures
        ({
            let parts = split_on(path, '/');
            &&& parts[1] == "community"@ && c.communities.map().dom().contains(parts[2]) ==> {
                &&& web4_title(c, parts) == html_text_escaped(c.communities.map()[parts[2]].name@)
                &&& web4_description(c, parts) == html_text_escaped(c.communities.map()[parts[2]].description@)
                &&& web4_redirect(parts) == "devhub.near/widget/app?page=community&handle="@ + parts[2]
            }
            &&& parts[1] == "proposal"@ ==> ({
                let id = u32_from_text(parts[2]);
                id is Some && id->0 < c.proposals@.len() ==> {
                    let b = c.proposals@[id->0 as int].inner().snapshot.body.latest();
                    &&& web4_title(c, parts) == html_text_escaped(b.name@)
                    &&& web4_description(c, parts) == html_text_escaped(b.summary@)
                    &&& web4_redirect(parts) == "devhub.near/widget/app?page=proposal&id="@ + parts[2]
                }
            })
        }),
{
    let parts = split_on(path, '/');
    reveal_strlit("devhub.near/widget/app?page=");
    reveal_strlit("community");
    reveal_strlit("proposal");
    reveal_strlit("devhub.near/widget/app?page=community&handle=");
    reveal_strlit("devhub.near/widget/app?page=proposal&id=");
    reveal_strlit("&handle=");
    reveal_strlit("&id=");
    if parts[1] == "community"@ {
        assert("devhub.near/widget/app?page="@ + parts[1] + "&handle="@ + parts[2]
            =~= "devhub.near/widget/app?page=community&handle="@ + parts[2]);
    }
    if parts[1] == "proposal"@ {
        assert(parts[1] != "community"@);
        assert("devhub.near/widget/app?page="@ + parts[1] + "&id="@ + parts[2]
            =~= "devhub.near/widget/app?page=proposal&id="@ + parts[2]);
    }
}

/// The path has a page, and a community or proposal page also names its subject.
pub open spec fn web4_path_ok(path: Seq<char>) -> bool {
    let parts = split_on(path, '/');
    &&& parts.len() >= 2
    &&& (is_community_page(parts) || is_proposal_page(parts)) ==> parts.len() >= 3
}

fn pair(name: &str, value: &String) -> (r: (String, String))
    ensures
        r.0@ == name@,
        r.1@ == value@,
{
    (String::from_str(name), value.clone())
}

/// The page for a path: link previews show a community's or proposal's name
/// and summary (HTML-escaped), and the page opens the matching view of the app.
pub fn web4_get(contract: &Contract, request: Web4Request) -> (r: Web4Response)
    requires
        contract.wf(),
        web4_path_ok(request.path@),
    ensures
        ({
            let parts = split_on(request.path@, '/');
            r == Web4Response::Body { content_type: r->content_type, body: r->body }
            && r->content_type@ == "text/html; charset=UTF-8"@
            && r->body@ == base64_url_nopad(page_html(
                web4_title(*contract, parts),
                web4_description(*contract, parts),
                web4_image(*contract, parts),
                web4_redirect(parts),
                web4_props(parts),
            ))
        }),
{
    let parts = split_path(request.path.as_str());
    let ghost ps = crate::access_control::rules::strings_view(parts@);
    assert(ps[1] == parts@[1]@);
    let page = &parts[1];
    let mut title = String::from_str("near/dev/hub");
    let mut description = String::from_str("The decentralized home base for NEAR builders");
    let mut image = String::from_str("https://i.near.social/magic/large/https://near.social/magic/img/account/devhub.near");
    let mut redirect_path = String::from_str("devhub.near/widget/app");
    let mut members = vec![pair("page", page)];
    if crate::text::str_eq(page.as_str(), "community") {
        assert(ps[2] == parts@[2]@);
        let handle = &parts[2];
        match contract.get_community(handle) {
            Some(community) => {
                title = encode_text(community.name.as_str());
                description = encode_text(community.description.as_str());
                image = community.logo_url.clone();
            },
            None => {},
        }
        redirect_path = String::from_str("devhub.near/widget/app?page=");
        redirect_path.append(page.as_str());
        redirect_path.append("&handle=");
        redirect_path.append(handle.as_str());
        members = vec![pair("page", page), pair("handle", handle)];
    } else if crate::text::str_eq(page.as_str(), "proposal") {
        assert(ps[2] == parts@[2]@);
        let id_string = &parts[2];
        match parse_u32(id_string.as_str()) {
            Some(id) => {
                if (id as usize) < contract.proposals.len() {
                    match &contract.proposals[id as usize] {
                        VersionedProposal::V0(p) => {
                            title = encode_text(p.snapshot.body.name().as_str());
                            description = encode_text(p.snapshot.body.summary().as_str());
                        },
                    }
                }
            },
            None => {},
        }
        redirect_path = String::from_str("devhub.near/widget/app?page=");
        redirect_path.append(page.as_str());
        redirect_path.append("&id=");
        redirect_path.append(id_string.as_str());
        members = vec![pair("page", page), pair("id", id_string)];
    }
    proof {
        if is_community_page(ps) {
            assert(members_view(members@) =~= seq![("page"@, ps[1]), ("handle"@, ps[2])]);
        } else if is_proposal_page(ps) {
            assert(members_view(members@) =~= seq![("page"@, ps[1]), ("id"@, ps[2])]);
        } else {
            assert(members_view(members@) =~= seq![("page"@, ps[1])]);
        }
    }
    proof {
        reveal_strlit("community");
        reveal_strlit("proposal");
        assert(title@ == web4_title(*contract, ps));
        assert(description@ == web4_description(*contract, ps));
        assert(image@ == web4_image(*contract, ps));
        assert(redirect_path@ == web4_redirect(ps));
    }
    let props = json_object_string(&members);
    let body = render_page(title.as_str(), description.as_str(), image.as_str(), redirect_path.as_str(), props.as_str());
    Web4Response::Body { content_type: String::from_str("text/html; charset=UTF-8"), body: base64_encode(body.as_str()) }
}

} // verus!
