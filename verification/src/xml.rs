//! Parsing serialized events into records.
//!
//! The renderer hands each event over as an XML document following the
//! event schema: a root element, a `System` element with the standard
//! fields, and an `EventData` or `UserData` payload. The accepted dialect
//! — elements with attributes in single or double quotes, nested
//! elements, text with the five standard character entities, one optional
//! leading declaration; no comments, CDATA sections, processing
//! instructions past the prologue, doctypes or numeric character
//! references — is written down as the spec-level scanners ([`doc_scan`]
//! and company), the parser is proved to accept exactly that dialect and
//! return exactly the denoted tree, and field extraction from the tree is
//! specified exactly as well.

use vstd::prelude::*;
use crate::error::EventSleuthError;
use crate::record::EventRecord;
use crate::record::level_name_spec;
use crate::text::chars_of;
use crate::text::trim_chars;
use crate::text::trim_spec;
use crate::text::string_from_chars;
use crate::text::slice_chars;
use crate::text::is_space;

verus! {

/// One parsed element: its (possibly prefixed) name, attributes in
/// document order, the text of all its descendants in document order,
/// and its child elements.
pub struct XmlNode {
    pub name: String,
    pub attrs: Vec<(String, String)>,
    pub text: String,
    pub children: Vec<XmlNode>,
}


// ── The accepted grammar, as spec-level scanners ────────────────────────

/// The mathematical shape of a parsed element.
pub struct NodeView {
    pub name: Seq<char>,
    pub attrs: Seq<(Seq<char>, Seq<char>)>,
    pub text: Seq<char>,
    pub children: Seq<NodeView>,
}

/// The shape a parsed element denotes.
pub open spec fn node_view(n: XmlNode) -> NodeView
    decreases n,
{
    NodeView {
        name: n.name@,
        attrs: n.attrs@.map_values(|p: (String, String)| (p.0@, p.1@)),
        text: n.text@,
        children: Seq::new(
            n.children@.len(),
            |i: int|
                if 0 <= i < n.children@.len() {
                    node_view(n.children[i])
                } else {
                    arbitrary()
                },
        ),
    }
}

/// A character a tag or attribute name may hold.
pub open spec fn name_char(c: char) -> bool {
    !(is_space(c) || c == '<' || c == '>' || c == '/' || c == '=' || c == '"' || c == '\u{27}')
}

/// Length of the whitespace run starting at `i`.
pub open spec fn ws_len(s: Seq<char>, i: int) -> nat
    decreases s.len() - i,
{
    if 0 <= i < s.len() && is_space(s[i]) {
        1 + ws_len(s, i + 1)
    } else {
        0
    }
}

/// Length of the name run starting at `i`.
pub open spec fn name_len(s: Seq<char>, i: int) -> nat
    decreases s.len() - i,
{
    if 0 <= i < s.len() && name_char(s[i]) {
        1 + name_len(s, i + 1)
    } else {
        0
    }
}

/// The entity reference starting at the `&` at `i`: the decoded character
/// and the consumed length, or `None` for a literal `&`.
pub open spec fn entity_at(s: Seq<char>, i: int) -> Option<(char, nat)> {
    if s.len() - i > 5 && s[i + 1] == 'a' && s[i + 2] == 'm' && s[i + 3] == 'p' && s[i + 4]
        == ';' {
        Some(('&', 5 as nat))
    } else if s.len() - i > 4 && s[i + 1] == 'l' && s[i + 2] == 't' && s[i + 3] == ';' {
        Some(('<', 4 as nat))
    } else if s.len() - i > 4 && s[i + 1] == 'g' && s[i + 2] == 't' && s[i + 3] == ';' {
        Some(('>', 4 as nat))
    } else if s.len() - i > 6 && s[i + 1] == 'q' && s[i + 2] == 'u' && s[i + 3] == 'o' && s[i + 4]
        == 't' && s[i + 5] == ';' {
        Some(('"', 6 as nat))
    } else if s.len() - i > 6 && s[i + 1] == 'a' && s[i + 2] == 'p' && s[i + 3] == 'o' && s[i + 4]
        == 's' && s[i + 5] == ';' {
        Some(('\u{27}', 6 as nat))
    } else {
        None
    }
}

/// An attribute value scanned from `i` up to and including the closing
/// quote: the decoded text and the consumed length.
pub open spec fn value_scan(s: Seq<char>, i: int, quote: char) -> Option<(Seq<char>, nat)>
    decreases s.len() - i,
{
    if i < 0 || i >= s.len() {
        None
    } else if s[i] == quote {
        Some((Seq::empty(), 1 as nat))
    } else if s[i] == '&' {
        match entity_at(s, i) {
            Some(e) => match value_scan(s, i + e.1, quote) {
                Some(r) => Some((seq![e.0] + r.0, e.1 + r.1)),
                None => None,
            },
            None => match value_scan(s, i + 1, quote) {
                Some(r) => Some((seq![s[i]] + r.0, 1 + r.1)),
                None => None,
            },
        }
    } else {
        match value_scan(s, i + 1, quote) {
            Some(r) => Some((seq![s[i]] + r.0, 1 + r.1)),
            None => None,
        }
    }
}

/// The attribute list scanned from `i` up to and including the open tag's
/// end: the attributes, the consumed length, and whether the tag closed
/// itself (`/>`).
pub open spec fn attrs_scan(s: Seq<char>, i: int) -> Option<
    (Seq<(Seq<char>, Seq<char>)>, nat, bool),
>
    decreases s.len() - i,
{
    if i < 0 {
        None
    } else {
        let w = ws_len(s, i);
        let p = i + w;
        if p >= s.len() {
            None
        } else if s[p] == '/' {
            if p + 1 < s.len() && s[p + 1] == '>' {
                Some((Seq::empty(), (w + 2) as nat, true))
            } else {
                None
            }
        } else if s[p] == '>' {
            Some((Seq::empty(), (w + 1) as nat, false))
        } else {
            let nl = name_len(s, p);
            if nl == 0 {
                None
            } else {
                let aname = s.subrange(p, p + nl);
                let w2 = ws_len(s, p + nl);
                let e = p + nl + w2;
                if e >= s.len() || s[e] != '=' {
                    None
                } else {
                    let w3 = ws_len(s, e + 1);
                    let qp = e + 1 + w3;
                    if qp >= s.len() || !(s[qp] == '"' || s[qp] == '\u{27}') {
                        None
                    } else {
                        match value_scan(s, qp + 1, s[qp]) {
                            Some(v) => {
                                // Past the end the next scan fails anyway;
                                // the clamp keeps the measure in range.
                                let next = if i + w + nl + w2 + 1 + w3 + 1 + v.1 <= s.len() {
                                    i + w + nl + w2 + 1 + w3 + 1 + v.1
                                } else {
                                    s.len() as int
                                };
                                match attrs_scan(s, next) {
                                    Some(rest) => Some(
                                        (
                                            seq![(aname, v.0)] + rest.0,
                                            w + nl + w2 + 1 + w3 + 1 + v.1 + rest.1,
                                            rest.2,
                                        ),
                                    ),
                                    None => None,
                                }
                            },
                            None => None,
                        }
                    }
                }
            }
        }
    }
}

/// An element scanned from the `<` at `i` through its close: the denoted
/// shape and the consumed length.
pub open spec fn elem_scan(s: Seq<char>, i: int) -> Option<(NodeView, nat)> {
    if i < 0 || i >= s.len() || s[i] != '<' {
        None
    } else {
        match elem_body_scan(s, i + 1) {
            Some(b) => Some((b.0, 1 + b.1)),
            None => None,
        }
    }
}

/// The element body scanned from just past its `<`: the name, the open
/// tag's attributes, and (unless self-closing) the content through the
/// matching close tag.
pub open spec fn elem_body_scan(s: Seq<char>, i: int) -> Option<(NodeView, nat)>
    decreases s.len() - i,
{
    let nl = name_len(s, i);
    if i < 0 || nl == 0 {
        None
    } else {
        let name = s.subrange(i, i + nl);
        match attrs_scan(s, i + nl) {
            Some(a) => {
                if a.2 {
                    Some(
                        (
                            NodeView {
                                name,
                                attrs: a.0,
                                text: Seq::empty(),
                                children: Seq::empty(),
                            },
                            nl + a.1,
                        ),
                    )
                } else {
                    // Past the end the content scan fails anyway; the
                    // clamp only keeps the recursion measure in range.
                    let next = if i + nl + a.1 <= s.len() {
                        i + nl + a.1
                    } else {
                        s.len() as int
                    };
                    match content_scan(s, next, name) {
                        Some(c) => Some(
                            (
                                NodeView { name, attrs: a.0, text: c.0, children: c.1 },
                                nl + a.1 + c.2,
                            ),
                        ),
                        None => None,
                    }
                }
            },
            None => None,
        }
    }
}

/// Element content scanned from `i` through the matching close tag of
/// `name`: the subtree text, the child shapes, and the consumed length.
pub open spec fn content_scan(s: Seq<char>, i: int, name: Seq<char>) -> Option<
    (Seq<char>, Seq<NodeView>, nat),
>
    decreases s.len() - i,
{
    if i < 0 || i >= s.len() {
        None
    } else if s[i] == '<' {
        if i + 1 < s.len() && s[i + 1] == '/' {
            let cl = name_len(s, i + 2);
            let cname = s.subrange(i + 2, i + 2 + cl);
            let w = ws_len(s, i + 2 + cl);
            let e = i + 2 + cl + w;
            if e >= s.len() || s[e] != '>' {
                None
            } else if cname != name {
                None
            } else {
                Some((Seq::empty(), Seq::empty(), (2 + cl + w + 1) as nat))
            }
        } else {
            match elem_body_scan(s, i + 1) {
                Some(c) => {
                    // Past the end the next scan fails anyway; the clamp
                    // only keeps the recursion measure in range.
                    let next = if i + 1 + c.1 <= s.len() {
                        i + 1 + c.1
                    } else {
                        s.len() as int
                    };
                    match content_scan(s, next, name) {
                        Some(r) => Some((c.0.text + r.0, seq![c.0] + r.1, 1 + c.1 + r.2)),
                        None => None,
                    }
                },
                None => None,
            }
        }
    } else if s[i] == '&' {
        match entity_at(s, i) {
            Some(e) => match content_scan(s, i + e.1, name) {
                Some(r) => Some((seq![e.0] + r.0, r.1, e.1 + r.2)),
                None => None,
            },
            None => match content_scan(s, i + 1, name) {
                Some(r) => Some((seq![s[i]] + r.0, r.1, 1 + r.2)),
                None => None,
            },
        }
    } else {
        match content_scan(s, i + 1, name) {
            Some(r) => Some((seq![s[i]] + r.0, r.1, 1 + r.2)),
            None => None,
        }
    }
}

/// The prologue body scanned from `i` up to and including `?>`.
pub open spec fn prologue_rest_len(s: Seq<char>, i: int) -> Option<nat>
    decreases s.len() - i,
{
    if i < 0 || i >= s.len() || s.len() - i <= 1 {
        None
    } else if s[i] == '?' && s[i + 1] == '>' {
        Some(2 as nat)
    } else {
        match prologue_rest_len(s, i + 1) {
            Some(r) => Some(1 + r),
            None => None,
        }
    }
}

/// The shape a whole document denotes: optional whitespace and one `<?..?>`
/// prologue, one root element, trailing whitespace to the end — or `None`
/// where the text is not a document of the accepted dialect.
pub open spec fn doc_scan(s: Seq<char>) -> Option<NodeView> {
    let w = ws_len(s, 0) as int;
    let has_prologue = w < s.len() && s.len() - w > 1 && s[w] == '<' && s[w + 1] == '?';
    let body: Option<int> = if has_prologue {
        match prologue_rest_len(s, w + 2) {
            Some(pl) => Some(w + 2 + pl + ws_len(s, w + 2 + pl)),
            None => None,
        }
    } else {
        Some(w)
    };
    match body {
        Some(start) => match elem_scan(s, start) {
            Some(root) => {
                if start + root.1 + ws_len(s, start + root.1) == s.len() {
                    Some(root.0)
                } else {
                    None
                }
            },
            None => None,
        },
        None => None,
    }
}

// ── Tree parsing ────────────────────────────────────────────────────────

fn is_name_char(c: char) -> (r: bool)
    ensures
        r == name_char(c),
{
    !(c == ' ' || c == '\t' || c == '\n' || c == '\r' || c == '<' || c == '>' || c == '/' || c
        == '=' || c == '"' || c == '\u{27}')
}

#[verifier::loop_isolation(false)]
fn skip_ws(v: &Vec<char>, i: usize) -> (r: usize)
    requires
        i <= v@.len(),
    ensures
        i <= r <= v@.len(),
        r == i + ws_len(v@, i as int),
{
    let mut j = i;
    while j < v.len() && (v[j] == ' ' || v[j] == '\t' || v[j] == '\n' || v[j] == '\r')
        invariant
            i <= j <= v@.len(),
            ws_len(v@, i as int) == (j - i) + ws_len(v@, j as int),
        decreases v@.len() - j,
    {
        j = j + 1;
    }
    j
}

/// Decode one entity starting at the `&` at position `i`; returns the
/// decoded character and the position after the `;`, or `None` to treat
/// the `&` as a literal character.
fn decode_entity(v: &Vec<char>, i: usize) -> (r: Option<(char, usize)>)
    requires
        i < v@.len(),
    ensures
        r matches Some(p) ==> i < p.1 <= v@.len(),
        ({
            match entity_at(v@, i as int) {
                Some(e) => r == Some((e.0, (i + e.1) as usize)),
                None => r is None,
            }
        }),
{
    let n = v.len();
    if n - i > 5 && v[i + 1] == 'a' && v[i + 2] == 'm' && v[i + 3] == 'p' && v[i + 4] == ';' {
        Some(('&', i + 5))
    } else if n - i > 4 && v[i + 1] == 'l' && v[i + 2] == 't' && v[i + 3] == ';' {
        Some(('<', i + 4))
    } else if n - i > 4 && v[i + 1] == 'g' && v[i + 2] == 't' && v[i + 3] == ';' {
        Some(('>', i + 4))
    } else if n - i > 6 && v[i + 1] == 'q' && v[i + 2] == 'u' && v[i + 3] == 'o' && v[i + 4] == 't'
        && v[i + 5] == ';' {
        Some(('"', i + 6))
    } else if n - i > 6 && v[i + 1] == 'a' && v[i + 2] == 'p' && v[i + 3] == 'o' && v[i + 4] == 's'
        && v[i + 5] == ';' {
        Some(('\u{27}', i + 6))
    } else {
        None
    }
}

#[verifier::loop_isolation(false)]
fn read_name(v: &Vec<char>, i: usize) -> (r: (Vec<char>, usize))
    requires
        i <= v@.len(),
    ensures
        i <= r.1 <= v@.len(),
        r.0@.len() == r.1 - i,
        r.1 == i + name_len(v@, i as int),
        r.0@ == v@.subrange(i as int, i + name_len(v@, i as int)),
{
    let mut j = i;
    let mut name: Vec<char> = Vec::new();
    while j < v.len() && is_name_char(v[j])
        invariant
            i <= j <= v@.len(),
            name@.len() == j - i,
            name@ == v@.subrange(i as int, j as int),
            name_len(v@, i as int) == (j - i) + name_len(v@, j as int),
        decreases v@.len() - j,
    {
        proof {
            assert(v@.subrange(i as int, j as int).push(v@[j as int]) =~= v@.subrange(
                i as int,
                j as int + 1,
            ));
        }
        name.push(v[j]);
        j = j + 1;
    }
    (name, j)
}


/// Scan a quoted attribute value from `start` (just past the opening
/// quote) through the closing quote.
#[verifier::loop_isolation(false)]
fn scan_quoted(v: &Vec<char>, start: usize, quote: char) -> (r: Result<(Vec<char>, usize), ()>)
    requires
        start <= v@.len(),
    ensures
        ({
            match r {
                Ok(p) => value_scan(v@, start as int, quote) == Some(
                    (p.0@, (p.1 - start) as nat),
                ) && start < p.1 <= v@.len(),
                Err(e) => value_scan(v@, start as int, quote) is None,
            }
        }),
{
    let mut k = start;
    let mut value: Vec<char> = Vec::new();
    loop
        invariant
            start <= k <= v@.len(),
            ({
                match value_scan(v@, k as int, quote) {
                    Some(p) => value_scan(v@, start as int, quote) == Some(
                        (value@ + p.0, ((k - start) + p.1) as nat),
                    ),
                    None => value_scan(v@, start as int, quote) is None,
                }
            }),
        decreases v@.len() - k,
    {
        if k >= v.len() {
            return Err(());
        }
        let c = v[k];
        if c == quote {
            proof {
                assert(value_scan(v@, k as int, quote) == Some(
                    (Seq::<char>::empty(), 1 as nat),
                ));
                assert(value@ + Seq::<char>::empty() =~= value@);
            }
            return Ok((value, k + 1));
        }
        if c == '&' {
            match decode_entity(v, k) {
                Some((d, nk)) => {
                    proof {
                        let e = entity_at(v@, k as int)->Some_0;
                        if value_scan(v@, nk as int, quote) is Some {
                            let p = value_scan(v@, nk as int, quote)->Some_0;
                            assert(value_scan(v@, k as int, quote) == Some(
                                (seq![e.0] + p.0, e.1 + p.1),
                            ));
                            assert(value@ + (seq![e.0] + p.0) =~= value@.push(e.0) + p.0);
                        } else {
                            assert(value_scan(v@, k as int, quote) is None);
                        }
                    }
                    value.push(d);
                    k = nk;
                },
                None => {
                    proof {
                        if value_scan(v@, k as int + 1, quote) is Some {
                            let p = value_scan(v@, k as int + 1, quote)->Some_0;
                            assert(value_scan(v@, k as int, quote) == Some(
                                (seq![v@[k as int]] + p.0, 1 + p.1),
                            ));
                            assert(value@ + (seq![v@[k as int]] + p.0) =~= value@.push(
                                v@[k as int],
                            ) + p.0);
                        } else {
                            assert(value_scan(v@, k as int, quote) is None);
                        }
                    }
                    value.push(c);
                    k = k + 1;
                },
            }
        } else {
            proof {
                if value_scan(v@, k as int + 1, quote) is Some {
                    let p = value_scan(v@, k as int + 1, quote)->Some_0;
                    assert(value_scan(v@, k as int, quote) == Some(
                        (seq![v@[k as int]] + p.0, 1 + p.1),
                    ));
                    assert(value@ + (seq![v@[k as int]] + p.0) =~= value@.push(v@[k as int])
                        + p.0);
                } else {
                    assert(value_scan(v@, k as int, quote) is None);
                }
            }
            value.push(c);
            k = k + 1;
        }
    }
}


/// Scan the attribute list and the open tag's end from `start` (just past
/// the tag name).
#[verifier::loop_isolation(false)]
fn scan_attrs(v: &Vec<char>, start: usize) -> (r: Result<(Vec<(String, String)>, usize, bool), ()>)
    requires
        start <= v@.len(),
    ensures
        ({
            match r {
                Ok(p) => attrs_scan(v@, start as int) == Some(
                    (
                        p.0@.map_values(|q: (String, String)| (q.0@, q.1@)),
                        (p.1 - start) as nat,
                        p.2,
                    ),
                ) && start < p.1 <= v@.len(),
                Err(e) => attrs_scan(v@, start as int) is None,
            }
        }),
{
    let mut j = start;
    let mut attrs: Vec<(String, String)> = Vec::new();
    loop
        invariant
            start <= j <= v@.len(),
            ({
                match attrs_scan(v@, j as int) {
                    Some(p) => attrs_scan(v@, start as int) == Some(
                        (
                            attrs@.map_values(|q: (String, String)| (q.0@, q.1@)) + p.0,
                            ((j - start) + p.1) as nat,
                            p.2,
                        ),
                    ),
                    None => attrs_scan(v@, start as int) is None,
                }
            }),
        decreases v@.len() - j,
    {
        let ghost j0 = j as int;
        let ghost aviews = attrs@.map_values(|q: (String, String)| (q.0@, q.1@));
        let p0 = skip_ws(v, j);
        if p0 >= v.len() {
            return Err(());
        }
        if v[p0] == '/' {
            if p0 + 1 < v.len() && v[p0 + 1] == '>' {
                proof {
                    assert(attrs_scan(v@, j0) == Some(
                        (Seq::<(Seq<char>, Seq<char>)>::empty(), (ws_len(v@, j0) + 2) as nat, true),
                    ));
                    assert(aviews + Seq::<(Seq<char>, Seq<char>)>::empty() =~= aviews);
                }
                return Ok((attrs, p0 + 2, true));
            }
            return Err(());
        }
        if v[p0] == '>' {
            proof {
                assert(attrs_scan(v@, j0) == Some(
                    (Seq::<(Seq<char>, Seq<char>)>::empty(), (ws_len(v@, j0) + 1) as nat, false),
                ));
                assert(aviews + Seq::<(Seq<char>, Seq<char>)>::empty() =~= aviews);
            }
            return Ok((attrs, p0 + 1, false));
        }
        // One attribute: name="value" or name='value'.
        let (aname, after_name) = read_name(v, p0);
        if aname.len() == 0 {
            return Err(());
        }
        let e = skip_ws(v, after_name);
        if e >= v.len() || v[e] != '=' {
            return Err(());
        }
        let qp = skip_ws(v, e + 1);
        if qp >= v.len() || !(v[qp] == '"' || v[qp] == '\u{27}') {
            return Err(());
        }
        let quote = v[qp];
        match scan_quoted(v, qp + 1, quote) {
            Ok((value, after_value)) => {
                proof {
                    let w = ws_len(v@, j0);
                    let nl = name_len(v@, p0 as int);
                    let w2 = ws_len(v@, p0 + nl);
                    let w3 = ws_len(v@, e as int + 1);
                    assert(after_value as int == j0 + w + nl + w2 + 1 + w3 + 1 + value_scan(
                        v@,
                        qp as int + 1,
                        quote,
                    )->Some_0.1);
                    if attrs_scan(v@, after_value as int) is Some {
                        let rest = attrs_scan(v@, after_value as int)->Some_0;
                        assert(attrs_scan(v@, j0) == Some(
                            (
                                seq![(aname@, value@)] + rest.0,
                                (w + nl + w2 + 1 + w3 + 1 + value_scan(
                                    v@,
                                    qp as int + 1,
                                    quote,
                                )->Some_0.1 + rest.1) as nat,
                                rest.2,
                            ),
                        ));
                    } else {
                        assert(attrs_scan(v@, j0) is None);
                    }
                }
                let pair = (string_from_chars(&aname), string_from_chars(&value));
                proof {
                    let ghost_pair_view = (aname@, value@);
                    assert(attrs@.push(pair).map_values(|q: (String, String)| (q.0@, q.1@))
                        =~= aviews.push(ghost_pair_view));
                    if attrs_scan(v@, after_value as int) is Some {
                        let rest = attrs_scan(v@, after_value as int)->Some_0;
                        assert(aviews + (seq![(aname@, value@)] + rest.0) =~= aviews.push(
                            ghost_pair_view,
                        ) + rest.0);
                    }
                }
                attrs.push(pair);
                j = after_value;
            },
            Err(e2) => {
                proof {
                    assert(attrs_scan(v@, j0) is None);
                }
                return Err(());
            },
        }
    }
}

/// Parse the element starting at position `i` (which must hold `<`);
/// returns the node and the position after its close, exactly where the
/// grammar accepts an element ([`elem_scan`]), denoting exactly the shape
/// the grammar gives it.
#[verifier::loop_isolation(false)]
#[verifier::rlimit(100)]
fn parse_element(v: &Vec<char>, i: usize) -> (r: Result<(XmlNode, usize), ()>)
    requires
        i <= v@.len(),
    ensures
        r matches Ok(p) ==> i < p.1 <= v@.len() && p.0.name@.len() > 0,
        ({
            match r {
                Ok(p) => elem_scan(v@, i as int) == Some((node_view(p.0), (p.1 - i) as nat)),
                Err(e) => elem_scan(v@, i as int) is None,
            }
        }),
    decreases v@.len() - i,
{
    if i >= v.len() || v[i] != '<' {
        return Err(());
    }
    let (name, j0) = read_name(v, i + 1);
    let ghost nl = name_len(v@, i as int + 1);
    if name.len() == 0 {
        return Err(());
    }
    let (attrs, j1, self_closing) = match scan_attrs(v, j0) {
        Ok(p) => p,
        Err(e) => {
            return Err(());
        },
    };
    let ghost aviews = attrs@.map_values(|q: (String, String)| (q.0@, q.1@));
    let ghost ac = (j1 - j0) as nat;
    if self_closing {
        let node = XmlNode {
            name: string_from_chars(&name),
            attrs,
            text: String::new(),
            children: Vec::new(),
        };
        proof {
            assert(node_view(node).children =~= Seq::<NodeView>::empty());
            assert(node_view(node) == elem_body_scan(v@, i as int + 1)->Some_0.0);
        }
        return Ok((node, j1));
    }
    // Content: text runs, child elements, then the matching close tag.
    let mut text: Vec<char> = Vec::new();
    let mut children: Vec<XmlNode> = Vec::new();
    let mut j = j1;
    loop
        invariant
            i < j1 <= j <= v@.len(),
            i < v@.len() && v@[i as int] == '<',
            nl == name_len(v@, i as int + 1),
            nl >= 1,
            name@ == v@.subrange(i as int + 1, i as int + 1 + nl),
            j0 == i + 1 + nl,
            attrs_scan(v@, j0 as int) == Some((aviews, ac, false)),
            ac == (j1 - j0) as nat,
            ({
                match content_scan(v@, j as int, name@) {
                    Some(p) => content_scan(v@, j1 as int, name@) == Some(
                        (
                            text@ + p.0,
                            children@.map_values(|c: XmlNode| node_view(c)) + p.1,
                            ((j - j1) + p.2) as nat,
                        ),
                    ),
                    None => content_scan(v@, j1 as int, name@) is None,
                }
            }),
        decreases v@.len() - j,
    {
        let ghost cviews = children@.map_values(|c: XmlNode| node_view(c));
        if j >= v.len() {
            return Err(());
        }
        if v[j] == '<' {
            if j + 1 < v.len() && v[j + 1] == '/' {
                // The close tag: its name must match the open tag.
                let (cname, after) = read_name(v, j + 2);
                let e = skip_ws(v, after);
                if e >= v.len() || v[e] != '>' {
                    return Err(());
                }
                if !crate::text::eq_chars(&cname, &name) {
                    return Err(());
                }
                proof {
                    assert(content_scan(v@, j as int, name@) == Some(
                        (
                            Seq::<char>::empty(),
                            Seq::<NodeView>::empty(),
                            (2 + name_len(v@, j as int + 2) + ws_len(v@, after as int) + 1) as nat,
                        ),
                    ));
                    assert(text@ + Seq::<char>::empty() =~= text@);
                    assert(cviews + Seq::<NodeView>::empty() =~= cviews);
                }
                let node = XmlNode {
                    name: string_from_chars(&name),
                    attrs,
                    text: string_from_chars(&text),
                    children,
                };
                proof {
                    assert(node_view(node).children =~= node.children@.map_values(
                        |c: XmlNode| node_view(c),
                    ));
                    assert(node_view(node) == elem_body_scan(v@, i as int + 1)->Some_0.0);
                    assert(elem_scan(v@, i as int) == Some(
                        (node_view(node), (e + 1 - i) as nat),
                    ));
                }
                return Ok((node, e + 1));
            }
            match parse_element(v, j) {
                Ok((child, nj)) => {
                    proof {
                        assert(elem_body_scan(v@, j as int + 1) == Some(
                            (node_view(child), (nj - j - 1) as nat),
                        ));
                        if content_scan(v@, nj as int, name@) is Some {
                            let rp = content_scan(v@, nj as int, name@)->Some_0;
                            assert(content_scan(v@, j as int, name@) == Some(
                                (
                                    node_view(child).text + rp.0,
                                    seq![node_view(child)] + rp.1,
                                    (1 + (nj - j - 1) + rp.2) as nat,
                                ),
                            ));
                            assert(text@ + (node_view(child).text + rp.0) =~= (text@
                                + child.text@) + rp.0);
                            assert(cviews + (seq![node_view(child)] + rp.1) =~= cviews.push(
                                node_view(child),
                            ) + rp.1);
                        } else {
                            assert(content_scan(v@, j as int, name@) is None);
                        }
                    }
                    let child_text = chars_of(child.text.as_str());
                    let ghost text0 = text@;
                    let mut q: usize = 0;
                    while q < child_text.len()
                        invariant
                            q <= child_text@.len(),
                            child_text@ == child.text@,
                            text@ == text0 + child_text@.take(q as int),
                        decreases child_text@.len() - q,
                    {
                        proof {
                            assert(text0 + child_text@.take(q as int + 1) =~= (text0
                                + child_text@.take(q as int)).push(child_text@[q as int]));
                        }
                        text.push(child_text[q]);
                        q = q + 1;
                    }
                    proof {
                        assert(child_text@.take(child_text@.len() as int) =~= child_text@);
                        assert(children@.push(child).map_values(|c: XmlNode| node_view(c))
                            =~= cviews.push(node_view(child)));
                    }
                    children.push(child);
                    j = nj;
                },
                Err(e) => {
                    proof {
                        assert(elem_body_scan(v@, j as int + 1) is None);
                        assert(content_scan(v@, j as int, name@) is None);
                    }
                    return Err(e);
                },
            }
        } else if v[j] == '&' {
            match decode_entity(v, j) {
                Some((d, nk)) => {
                    proof {
                        let ent = entity_at(v@, j as int)->Some_0;
                        if content_scan(v@, nk as int, name@) is Some {
                            let rp = content_scan(v@, nk as int, name@)->Some_0;
                            assert(content_scan(v@, j as int, name@) == Some(
                                (seq![ent.0] + rp.0, rp.1, (ent.1 + rp.2) as nat),
                            ));
                            assert(text@ + (seq![ent.0] + rp.0) =~= text@.push(ent.0) + rp.0);
                        } else {
                            assert(content_scan(v@, j as int, name@) is None);
                        }
                    }
                    text.push(d);
                    j = nk;
                },
                None => {
                    proof {
                        if content_scan(v@, j as int + 1, name@) is Some {
                            let rp = content_scan(v@, j as int + 1, name@)->Some_0;
                            assert(content_scan(v@, j as int, name@) == Some(
                                (seq![v@[j as int]] + rp.0, rp.1, (1 + rp.2) as nat),
                            ));
                            assert(text@ + (seq![v@[j as int]] + rp.0) =~= text@.push(
                                v@[j as int],
                            ) + rp.0);
                        } else {
                            assert(content_scan(v@, j as int, name@) is None);
                        }
                    }
                    text.push(v[j]);
                    j = j + 1;
                },
            }
        } else {
            proof {
                if content_scan(v@, j as int + 1, name@) is Some {
                    let rp = content_scan(v@, j as int + 1, name@)->Some_0;
                    assert(content_scan(v@, j as int, name@) == Some(
                        (seq![v@[j as int]] + rp.0, rp.1, (1 + rp.2) as nat),
                    ));
                    assert(text@ + (seq![v@[j as int]] + rp.0) =~= text@.push(v@[j as int])
                        + rp.0);
                } else {
                    assert(content_scan(v@, j as int, name@) is None);
                }
            }
            text.push(v[j]);
            j = j + 1;
        }
    }
}

/// Parse a whole document: optional leading declaration, one root
/// element, surrounding whitespace — succeeding exactly where the
/// grammar accepts a document ([`doc_scan`]), and returning exactly the
/// tree the document denotes.
#[verifier::loop_isolation(false)]
pub fn parse_xml_tree(xml: &str) -> (r: Result<XmlNode, ()>)
    ensures
        r matches Ok(node) ==> node.name@.len() > 0,
        ({
            match r {
                Ok(node) => doc_scan(xml@) == Some(node_view(node)),
                Err(e) => doc_scan(xml@) is None,
            }
        }),
{
    let v = chars_of(xml);
    let mut i = skip_ws(&v, 0);
    // An optional `<?...?>` prologue.
    if i < v.len() && v.len() - i > 1 && v[i] == '<' && v[i + 1] == '?' {
        let ghost p0 = i as int + 2;
        let mut j = i + 2;
        loop
            invariant
                p0 <= j <= v@.len(),
                ({
                    match prologue_rest_len(v@, j as int) {
                        Some(pl) => prologue_rest_len(v@, p0) == Some(((j - p0) + pl) as nat),
                        None => prologue_rest_len(v@, p0) is None,
                    }
                }),
            decreases v@.len() - j,
        {
            if j >= v.len() || v.len() - j <= 1 {
                return Err(());
            }
            if v[j] == '?' && v[j + 1] == '>' {
                proof {
                    assert(prologue_rest_len(v@, j as int) == Some(2 as nat));
                }
                j = j + 2;
                break ;
            }
            j = j + 1;
        }
        i = skip_ws(&v, j);
    }
    match parse_element(&v, i) {
        Ok((node, after)) => {
            let e = skip_ws(&v, after);
            if e != v.len() {
                return Err(());
            }
            Ok(node)
        },
        Err(e) => Err(e),
    }
}

// ── Field extraction from the tree ──────────────────────────────────────

/// First index at or after `i` holding a colon, or the length.
pub open spec fn first_colon(s: Seq<char>, i: int) -> int
    decreases s.len() - i,
{
    if 0 <= i < s.len() {
        if s[i] == ':' {
            i
        } else {
            first_colon(s, i + 1)
        }
    } else {
        s.len() as int
    }
}

/// The local part of a possibly namespace-prefixed element name.
pub open spec fn local_of(s: Seq<char>) -> Seq<char> {
    let c = first_colon(s, 0);
    if c < s.len() {
        s.skip(c + 1)
    } else {
        s
    }
}

/// The local part of an element name, executable.
#[verifier::loop_isolation(false)]
fn local_part(s: &str) -> (r: Vec<char>)
    ensures
        r@ == local_of(s@),
{
    let v = chars_of(s);
    let mut i: usize = 0;
    while i < v.len() && v[i] != ':'
        invariant
            i <= v@.len(),
            first_colon(v@, 0) == first_colon(v@, i as int),
        decreases v@.len() - i,
    {
        i = i + 1;
    }
    if i < v.len() {
        slice_chars(&v, i + 1, v.len())
    } else {
        proof {
            assert(v@.subrange(0, v@.len() as int) =~= v@);
        }
        slice_chars(&v, 0, v.len())
    }
}

/// First child whose local name is `target`.
pub open spec fn find_in(children: Seq<XmlNode>, target: Seq<char>) -> Option<XmlNode>
    decreases children.len(),
{
    if children.len() == 0 {
        None
    } else if local_of(children[0].name@) == target {
        Some(children[0])
    } else {
        find_in(children.drop_first(), target)
    }
}

/// Find a direct child element by local name, ignoring any namespace
/// prefix.
#[verifier::loop_isolation(false)]
pub fn find_child<'a>(node: &'a XmlNode, target: &str) -> (r: Option<&'a XmlNode>)
    ensures
        match r {
            Some(c) => find_in(node.children@, target@) == Some(*c),
            None => find_in(node.children@, target@) is None,
        },
{
    let t = chars_of(target);
    let mut i: usize = 0;
    proof {
        assert(node.children@.skip(0) =~= node.children@);
    }
    while i < node.children.len()
        invariant
            i <= node.children@.len(),
            find_in(node.children@, target@) == find_in(
                node.children@.skip(i as int),
                target@,
            ),
        decreases node.children@.len() - i,
    {
        let c = &node.children[i];
        let lp = local_part(c.name.as_str());
        proof {
            assert(node.children@.skip(i as int)[0] == node.children@[i as int]);
            assert(node.children@.skip(i as int).drop_first() =~= node.children@.skip(
                i as int + 1,
            ));
        }
        if crate::text::eq_chars(&lp, &t) {
            return Some(c);
        }
        i = i + 1;
    }
    None
}

/// First attribute named `target`.
pub open spec fn attr_in(attrs: Seq<(String, String)>, target: Seq<char>) -> Option<Seq<char>>
    decreases attrs.len(),
{
    if attrs.len() == 0 {
        None
    } else if attrs[0].0@ == target {
        Some(attrs[0].1@)
    } else {
        attr_in(attrs.drop_first(), target)
    }
}

/// Look up an attribute by name.
#[verifier::loop_isolation(false)]
pub fn attr_value<'a>(node: &'a XmlNode, target: &str) -> (r: Option<&'a String>)
    ensures
        match r {
            Some(v) => attr_in(node.attrs@, target@) == Some(v@),
            None => attr_in(node.attrs@, target@) is None,
        },
{
    let t = chars_of(target);
    let mut i: usize = 0;
    proof {
        assert(node.attrs@.skip(0) =~= node.attrs@);
    }
    while i < node.attrs.len()
        invariant
            i <= node.attrs@.len(),
            attr_in(node.attrs@, target@) == attr_in(node.attrs@.skip(i as int), target@),
        decreases node.attrs@.len() - i,
    {
        let a = &node.attrs[i];
        proof {
            assert(node.attrs@.skip(i as int)[0] == node.attrs@[i as int]);
            assert(node.attrs@.skip(i as int).drop_first() =~= node.attrs@.skip(i as int + 1));
        }
        if crate::text::eq_chars(&chars_of(a.0.as_str()), &t) {
            return Some(&a.1);
        }
        i = i + 1;
    }
    None
}


// ── Record fields from the tree ─────────────────────────────────────────

/// The `u32` a field's text denotes, zero when it does not parse.
pub open spec fn u32_of_text(s: Seq<char>) -> u32 {
    match crate::text::parse_u32_spec(trim_spec(s)) {
        Some(v) => v,
        None => 0,
    }
}

/// The `u16` a field's text denotes, zero when it does not parse.
pub open spec fn u16_of_text(s: Seq<char>) -> u16 {
    match crate::text::parse_u32_spec(trim_spec(s)) {
        Some(v) => if v <= 0xFFFF {
            v as u16
        } else {
            0
        },
        None => 0,
    }
}

/// The `u8` a field's text denotes, zero when it does not parse.
pub open spec fn u8_of_text(s: Seq<char>) -> u8 {
    match crate::text::parse_u32_spec(trim_spec(s)) {
        Some(v) => if v <= 0xFF {
            v as u8
        } else {
            0
        },
        None => 0,
    }
}

/// `s` with every leading `0x`, then every leading `0X`, removed.
pub open spec fn strip_hex_prefix(s: Seq<char>) -> Seq<char>
    decreases s.len(),
{
    if s.len() >= 2 && s[0] == '0' && s[1] == 'x' {
        strip_hex_prefix(s.skip(2))
    } else if s.len() >= 2 && s[0] == '0' && s[1] == 'X' {
        strip_upper_hex_prefix(s)
    } else {
        strip_upper_hex_prefix(s)
    }
}

/// `s` with every leading `0X` removed.
pub open spec fn strip_upper_hex_prefix(s: Seq<char>) -> Seq<char>
    decreases s.len(),
{
    if s.len() >= 2 && s[0] == '0' && s[1] == 'X' {
        strip_upper_hex_prefix(s.skip(2))
    } else {
        s
    }
}

/// The keywords bitmask a field's text denotes: trimmed, hex prefixes
/// stripped, read as hex; zero when it does not parse.
pub open spec fn keywords_of_text(s: Seq<char>) -> u64 {
    match crate::text::parse_hex_u64_spec(strip_hex_prefix(trim_spec(s))) {
        Some(v) => v,
        None => 0,
    }
}

/// The text of an optionally present element.
pub open spec fn child_text(sys: XmlNode, name: Seq<char>) -> Seq<char> {
    match find_in(sys.children@, name) {
        Some(c) => c.text@,
        None => Seq::empty(),
    }
}

fn parse_u32_text(s: &str) -> (r: u32)
    ensures
        r == u32_of_text(s@),
{
    let t = trim_chars(&chars_of(s));
    match crate::text::parse_u32_chars(&t) {
        Some(v) => v,
        None => 0,
    }
}

fn parse_u16_text(s: &str) -> (r: u16)
    ensures
        r == u16_of_text(s@),
{
    let v = parse_u32_text(s);
    if v <= 0xFFFF {
        (v as u16)
    } else {
        0
    }
}

fn parse_u8_text(s: &str) -> (r: u8)
    ensures
        r == u8_of_text(s@),
{
    let v = parse_u32_text(s);
    if v <= 0xFF {
        (v as u8)
    } else {
        0
    }
}

#[verifier::loop_isolation(false)]
#[verifier::rlimit(80)]
fn strip_hex_prefix_exec(v: &Vec<char>) -> (r: Vec<char>)
    ensures
        r@ == strip_hex_prefix(v@),
{
    let ghost v0 = v@;
    let mut i: usize = 0;
    proof {
        assert(v@.skip(0) =~= v@);
    }
    while v.len() - i >= 2 && v[i] == '0' && v[i + 1] == 'x'
        invariant
            i <= v@.len(),
            v@ == v0,
            strip_hex_prefix(v0) == strip_hex_prefix(v@.skip(i as int)),
        decreases v@.len() - i,
    {
        proof {
            assert(v@.skip(i as int).skip(2) =~= v@.skip(i as int + 2));
        }
        i = i + 2;
    }
    proof {
        assert(strip_hex_prefix(v@.skip(i as int)) == strip_upper_hex_prefix(v@.skip(i as int)));
    }
    while v.len() - i >= 2 && v[i] == '0' && v[i + 1] == 'X'
        invariant
            i <= v@.len(),
            v@ == v0,
            strip_hex_prefix(v0) == strip_upper_hex_prefix(v@.skip(i as int)),
        decreases v@.len() - i,
    {
        proof {
            assert(v@.skip(i as int).skip(2) =~= v@.skip(i as int + 2));
        }
        i = i + 2;
    }
    slice_chars(&v, i, v.len())
}

fn parse_keywords_text(s: &str) -> (r: u64)
    ensures
        r == keywords_of_text(s@),
{
    let t = trim_chars(&chars_of(s));
    let stripped = strip_hex_prefix_exec(&t);
    match crate::text::parse_hex_u64_chars(&stripped) {
        Some(v) => v,
        None => 0,
    }
}


// ── Payload pairs and the fallback message ──────────────────────────────

/// The name/value pairs of an `EventData` payload: named entries keep
/// their `Name` attribute; unnamed ones are numbered `Data_1`, `Data_2`,
/// ... in order. Values are trimmed subtree text.
pub open spec fn event_data_pairs(children: Seq<XmlNode>, next_unnamed: int) -> Seq<
    (Seq<char>, Seq<char>),
>
    decreases children.len(),
{
    if children.len() == 0 {
        Seq::empty()
    } else {
        let c = children[0];
        match attr_in(c.attrs@, "Name"@) {
            Some(nm) => seq![(nm, trim_spec(c.text@))] + event_data_pairs(
                children.drop_first(),
                next_unnamed,
            ),
            None => seq![
                ("Data_"@ + crate::text::dec_of(next_unnamed as nat), trim_spec(c.text@)),
            ] + event_data_pairs(children.drop_first(), next_unnamed + 1),
        }
    }
}

/// The name/value pairs of a `UserData` payload: each wrapper's child
/// elements contribute their local tag name and trimmed subtree text.
pub open spec fn user_data_pairs(wrappers: Seq<XmlNode>) -> Seq<(Seq<char>, Seq<char>)>
    decreases wrappers.len(),
{
    if wrappers.len() == 0 {
        Seq::empty()
    } else {
        wrappers[0].children@.map_values(
            |c: XmlNode| (local_of(c.name@), trim_spec(c.text@)),
        ) + user_data_pairs(wrappers.drop_first())
    }
}

/// The payload pairs of the whole event: `EventData` first, else
/// `UserData`, else none.
pub open spec fn payload_pairs(root: XmlNode) -> Seq<(Seq<char>, Seq<char>)> {
    match find_in(root.children@, "EventData"@) {
        Some(ed) => event_data_pairs(ed.children@, 1),
        None => match find_in(root.children@, "UserData"@) {
            Some(ud) => user_data_pairs(ud.children@),
            None => Seq::empty(),
        },
    }
}

/// One pair as the fallback message shows it: `name: value`, or the bare
/// value for a nameless pair.
pub open spec fn pair_text(p: (Seq<char>, Seq<char>)) -> Seq<char> {
    if p.0.len() == 0 {
        p.1
    } else {
        p.0 + ": "@ + p.1
    }
}

/// The join from position `i` on, `; `-separated.
pub open spec fn joined_from(pairs: Seq<(Seq<char>, Seq<char>)>, i: int) -> Seq<char>
    decreases pairs.len() - i,
{
    if i < 0 || i >= pairs.len() {
        Seq::empty()
    } else if i == pairs.len() - 1 {
        pair_text(pairs[i])
    } else {
        pair_text(pairs[i]) + "; "@ + joined_from(pairs, i + 1)
    }
}

/// The synthesized fallback message: the pairs joined with `; `.
pub open spec fn joined_pairs(pairs: Seq<(Seq<char>, Seq<char>)>) -> Seq<char> {
    joined_from(pairs, 0)
}

/// The record's message: the formatted message when the formatter gave
/// one, else the synthesized fallback.
pub open spec fn message_of(formatted: Option<String>, pairs: Seq<(Seq<char>, Seq<char>)>) -> Seq<
    char,
> {
    match formatted {
        Some(m) => m@,
        None => joined_pairs(pairs),
    }
}

#[verifier::loop_isolation(false)]
fn collect_event_data(ed: &XmlNode) -> (r: Vec<(String, String)>)
    ensures
        r@.map_values(|p: (String, String)| (p.0@, p.1@)) == event_data_pairs(ed.children@, 1),
{
    let mut out: Vec<(String, String)> = Vec::new();
    let mut unnamed: u128 = 1;
    let mut i: usize = 0;
    proof {
        assert(ed.children@.skip(0) =~= ed.children@);
    }
    while i < ed.children.len()
        invariant
            i <= ed.children@.len(),
            1 <= unnamed <= i + 1,
            event_data_pairs(ed.children@, 1) == out@.map_values(
                |p: (String, String)| (p.0@, p.1@),
            ) + event_data_pairs(ed.children@.skip(i as int), unnamed as int),
        decreases ed.children@.len() - i,
    {
        let c = &ed.children[i];
        proof {
            assert(ed.children@.skip(i as int)[0] == ed.children@[i as int]);
            assert(ed.children@.skip(i as int).drop_first() =~= ed.children@.skip(i as int + 1));
        }
        let value = string_from_chars(&trim_chars(&chars_of(c.text.as_str())));
        let ghost before = out@.map_values(|p: (String, String)| (p.0@, p.1@));
        match attr_value(c, "Name") {
            Some(nm) => {
                out.push((nm.clone(), value));
            },
            None => {
                let mut label = String::from_str("Data_");
                let num = string_from_chars(&crate::text::u64_to_dec(unnamed as u64));
                label.append(num.as_str());
                out.push((label, value));
                unnamed = unnamed + 1;
            },
        }
        proof {
            assert(out@.map_values(|p: (String, String)| (p.0@, p.1@)) =~= before.push(
                (out@.last().0@, out@.last().1@),
            ));
            assert(before.push((out@.last().0@, out@.last().1@)) =~= before + seq![
                (out@.last().0@, out@.last().1@),
            ]);
        }
        i = i + 1;
    }
    proof {
        assert(event_data_pairs(ed.children@.skip(i as int), unnamed as int) =~= Seq::<
            (Seq<char>, Seq<char>),
        >::empty());
        assert(out@.map_values(|p: (String, String)| (p.0@, p.1@)) + Seq::<
            (Seq<char>, Seq<char>),
        >::empty() =~= out@.map_values(|p: (String, String)| (p.0@, p.1@)));
    }
    out
}

#[verifier::loop_isolation(false)]
fn collect_user_data(ud: &XmlNode) -> (r: Vec<(String, String)>)
    ensures
        r@.map_values(|p: (String, String)| (p.0@, p.1@)) == user_data_pairs(ud.children@),
{
    let mut out: Vec<(String, String)> = Vec::new();
    let mut i: usize = 0;
    proof {
        assert(ud.children@.skip(0) =~= ud.children@);
    }
    while i < ud.children.len()
        invariant
            i <= ud.children@.len(),
            user_data_pairs(ud.children@) == out@.map_values(
                |p: (String, String)| (p.0@, p.1@),
            ) + user_data_pairs(ud.children@.skip(i as int)),
        decreases ud.children@.len() - i,
    {
        let w = &ud.children[i];
        proof {
            assert(ud.children@.skip(i as int)[0] == ud.children@[i as int]);
            assert(ud.children@.skip(i as int).drop_first() =~= ud.children@.skip(i as int + 1));
        }
        let mut j: usize = 0;
        let ghost done = out@.map_values(|p: (String, String)| (p.0@, p.1@));
        while j < w.children.len()
            invariant
                j <= w.children@.len(),
                out@.map_values(|p: (String, String)| (p.0@, p.1@)) == done + w.children@.take(
                    j as int,
                ).map_values(|c: XmlNode| (local_of(c.name@), trim_spec(c.text@))),
            decreases w.children@.len() - j,
        {
            let c = &w.children[j];
            let name = string_from_chars(&local_part(c.name.as_str()));
            let value = string_from_chars(&trim_chars(&chars_of(c.text.as_str())));
            let ghost pre = out@.map_values(|p: (String, String)| (p.0@, p.1@));
            out.push((name, value));
            proof {
                assert(out@.map_values(|p: (String, String)| (p.0@, p.1@)) =~= pre.push(
                    (local_of(w.children@[j as int].name@), trim_spec(
                        w.children@[j as int].text@,
                    )),
                ));
                assert(w.children@.take(j as int + 1) =~= w.children@.take(j as int).push(
                    w.children@[j as int],
                ));
                assert(w.children@.take(j as int + 1).map_values(
                    |c: XmlNode| (local_of(c.name@), trim_spec(c.text@)),
                ) =~= w.children@.take(j as int).map_values(
                    |c: XmlNode| (local_of(c.name@), trim_spec(c.text@)),
                ).push((local_of(w.children@[j as int].name@), trim_spec(
                    w.children@[j as int].text@,
                ))));
                assert(out@.map_values(|p: (String, String)| (p.0@, p.1@)) =~= done + w.children@.take(
                    j as int + 1,
                ).map_values(|c: XmlNode| (local_of(c.name@), trim_spec(c.text@))));
            }
            j = j + 1;
        }
        proof {
            assert(w.children@.take(w.children@.len() as int) =~= w.children@);
            assert(out@.map_values(|p: (String, String)| (p.0@, p.1@)) =~= done + w.children@.map_values(
                |c: XmlNode| (local_of(c.name@), trim_spec(c.text@)),
            ));
        }
        i = i + 1;
    }
    proof {
        assert(user_data_pairs(ud.children@.skip(i as int)) =~= Seq::<
            (Seq<char>, Seq<char>),
        >::empty());
        assert(out@.map_values(|p: (String, String)| (p.0@, p.1@)) + Seq::<
            (Seq<char>, Seq<char>),
        >::empty() =~= out@.map_values(|p: (String, String)| (p.0@, p.1@)));
    }
    out
}

#[verifier::loop_isolation(false)]
fn join_pairs_exec(pairs: &Vec<(String, String)>) -> (r: String)
    ensures
        r@ == joined_pairs(pairs@.map_values(|p: (String, String)| (p.0@, p.1@))),
{
    let ghost views = pairs@.map_values(|p: (String, String)| (p.0@, p.1@));
    let mut out = String::new();
    let mut i: usize = 0;
    while i < pairs.len()
        invariant
            i <= pairs@.len(),
            views == pairs@.map_values(|p: (String, String)| (p.0@, p.1@)),
            i == 0 ==> out@ == Seq::<char>::empty(),
            i > 0 && i < views.len() ==> joined_pairs(views) =~= out@ + ("; "@ + joined_from(
                views,
                i as int,
            )),
            i > 0 && i >= views.len() ==> joined_pairs(views) =~= out@,
        decreases pairs@.len() - i,
    {
        if i > 0 {
            out.append("; ");
        }
        let p = &pairs[i];
        if !p.0.as_str().is_empty() {
            out.append(p.0.as_str());
            out.append(": ");
        }
        out.append(p.1.as_str());
        proof {
            assert(views[i as int] == (pairs@[i as int].0@, pairs@[i as int].1@));
            assert(pair_text(views[i as int]) == (if views[i as int].0.len() == 0 {
                views[i as int].1
            } else {
                views[i as int].0 + ": "@ + views[i as int].1
            }));
            if i == 0 {
                if i + 1 < views.len() {
                    assert(joined_pairs(views) =~= out@ + ("; "@ + joined_from(
                        views,
                        i as int + 1,
                    )));
                } else {
                    assert(joined_pairs(views) =~= out@);
                }
            } else {
                if i + 1 < views.len() {
                    assert(joined_pairs(views) =~= out@ + ("; "@ + joined_from(
                        views,
                        i as int + 1,
                    )));
                } else {
                    assert(joined_pairs(views) =~= out@);
                }
            }
        }
        i = i + 1;
    }
    proof {
        if views.len() == 0 {
            assert(joined_pairs(views) =~= Seq::<char>::empty());
        }
    }
    out
}



// ── Extraction over the denoted shape ───────────────────────────────────

/// First child shape whose local name is `target`.
pub open spec fn view_find(children: Seq<NodeView>, target: Seq<char>) -> Option<NodeView>
    decreases children.len(),
{
    if children.len() == 0 {
        None
    } else if local_of(children[0].name) == target {
        Some(children[0])
    } else {
        view_find(children.drop_first(), target)
    }
}

/// First attribute named `target`, over attribute shapes.
pub open spec fn view_attr(attrs: Seq<(Seq<char>, Seq<char>)>, target: Seq<char>) -> Option<
    Seq<char>,
>
    decreases attrs.len(),
{
    if attrs.len() == 0 {
        None
    } else if attrs[0].0 == target {
        Some(attrs[0].1)
    } else {
        view_attr(attrs.drop_first(), target)
    }
}

/// The text of an optionally present child, over shapes.
pub open spec fn view_child_text(sys: NodeView, name: Seq<char>) -> Seq<char> {
    match view_find(sys.children, name) {
        Some(c) => c.text,
        None => Seq::empty(),
    }
}

/// The value of one attribute of one optionally present child, over
/// shapes.
pub open spec fn view_child_attr(sys: NodeView, child: Seq<char>, attr: Seq<char>) -> Option<
    Seq<char>,
> {
    match view_find(sys.children, child) {
        Some(c) => view_attr(c.attrs, attr),
        None => None,
    }
}

/// The provider name, over shapes.
pub open spec fn view_provider(sys: NodeView) -> Seq<char> {
    match view_find(sys.children, "Provider"@) {
        Some(p) => match view_attr(p.attrs, "Name"@) {
            Some(n) => n,
            None => Seq::empty(),
        },
        None => Seq::empty(),
    }
}

/// The `EventData` pairs, over shapes.
pub open spec fn view_event_data_pairs(children: Seq<NodeView>, next_unnamed: int) -> Seq<
    (Seq<char>, Seq<char>),
>
    decreases children.len(),
{
    if children.len() == 0 {
        Seq::empty()
    } else {
        let c = children[0];
        match view_attr(c.attrs, "Name"@) {
            Some(nm) => seq![(nm, trim_spec(c.text))] + view_event_data_pairs(
                children.drop_first(),
                next_unnamed,
            ),
            None => seq![
                ("Data_"@ + crate::text::dec_of(next_unnamed as nat), trim_spec(c.text)),
            ] + view_event_data_pairs(children.drop_first(), next_unnamed + 1),
        }
    }
}

/// The `UserData` pairs, over shapes.
pub open spec fn view_user_data_pairs(wrappers: Seq<NodeView>) -> Seq<(Seq<char>, Seq<char>)>
    decreases wrappers.len(),
{
    if wrappers.len() == 0 {
        Seq::empty()
    } else {
        wrappers[0].children.map_values(|c: NodeView| (local_of(c.name), trim_spec(c.text)))
            + view_user_data_pairs(wrappers.drop_first())
    }
}

/// The payload pairs of the whole event, over shapes.
pub open spec fn view_payload(root: NodeView) -> Seq<(Seq<char>, Seq<char>)> {
    match view_find(root.children, "EventData"@) {
        Some(ed) => view_event_data_pairs(ed.children, 1),
        None => match view_find(root.children, "UserData"@) {
            Some(ud) => view_user_data_pairs(ud.children),
            None => Seq::empty(),
        },
    }
}

// ── The denoted shape agrees with the tree-level extraction ─────────────

proof fn lemma_children_views(n: XmlNode)
    ensures
        node_view(n).children.len() == n.children@.len(),
        forall|k: int|
            0 <= k < n.children@.len() ==> node_view(n).children[k] == node_view(
                #[trigger] n.children@[k],
            ),
{
}

proof fn lemma_attr_bridge(attrs: Seq<(String, String)>, t: Seq<char>)
    ensures
        attr_in(attrs, t) == view_attr(
            attrs.map_values(|q: (String, String)| (q.0@, q.1@)),
            t,
        ),
    decreases attrs.len(),
{
    let vs = attrs.map_values(|q: (String, String)| (q.0@, q.1@));
    if attrs.len() > 0 {
        lemma_attr_bridge(attrs.drop_first(), t);
        assert(attrs.drop_first().map_values(|q: (String, String)| (q.0@, q.1@))
            =~= vs.drop_first());
    }
}

proof fn lemma_find_bridge(cs: Seq<XmlNode>, vs: Seq<NodeView>, t: Seq<char>)
    requires
        vs.len() == cs.len(),
        forall|k: int| 0 <= k < cs.len() ==> vs[k] == node_view(#[trigger] cs[k]),
    ensures
        ({
            match find_in(cs, t) {
                Some(c) => view_find(vs, t) == Some(node_view(c)),
                None => view_find(vs, t) is None,
            }
        }),
    decreases cs.len(),
{
    if cs.len() > 0 {
        assert(vs[0] == node_view(cs[0]));
        if local_of(cs[0].name@) == t {
        } else {
            lemma_find_bridge(cs.drop_first(), vs.drop_first(), t);
        }
    }
}

proof fn lemma_event_data_bridge(cs: Seq<XmlNode>, vs: Seq<NodeView>, next: int)
    requires
        vs.len() == cs.len(),
        forall|k: int| 0 <= k < cs.len() ==> vs[k] == node_view(#[trigger] cs[k]),
    ensures
        event_data_pairs(cs, next) == view_event_data_pairs(vs, next),
    decreases cs.len(),
{
    if cs.len() > 0 {
        assert(vs[0] == node_view(cs[0]));
        lemma_attr_bridge(cs[0].attrs@, "Name"@);
        lemma_event_data_bridge(cs.drop_first(), vs.drop_first(), next);
        lemma_event_data_bridge(cs.drop_first(), vs.drop_first(), next + 1);
    }
}

proof fn lemma_user_data_bridge(cs: Seq<XmlNode>, vs: Seq<NodeView>)
    requires
        vs.len() == cs.len(),
        forall|k: int| 0 <= k < cs.len() ==> vs[k] == node_view(#[trigger] cs[k]),
    ensures
        user_data_pairs(cs) == view_user_data_pairs(vs),
    decreases cs.len(),
{
    if cs.len() > 0 {
        assert(vs[0] == node_view(cs[0]));
        lemma_children_views(cs[0]);
        assert(cs[0].children@.map_values(|c: XmlNode| (local_of(c.name@), trim_spec(c.text@)))
            =~= vs[0].children.map_values(|c: NodeView| (local_of(c.name), trim_spec(c.text))));
        lemma_user_data_bridge(cs.drop_first(), vs.drop_first());
        assert(user_data_pairs(cs) =~= view_user_data_pairs(vs));
    }
}

/// The tree-level extraction reads exactly what the denoted shape holds.
proof fn lemma_payload_bridge(root: XmlNode)
    ensures
        ({
            match find_in(root.children@, "System"@) {
                Some(sys) => view_find(node_view(root).children, "System"@) == Some(
                    node_view(sys),
                ),
                None => view_find(node_view(root).children, "System"@) is None,
            }
        }),
        payload_pairs(root) == view_payload(node_view(root)),
    decreases root,
{
    lemma_children_views(root);
    lemma_find_bridge(root.children@, node_view(root).children, "System"@);
    lemma_find_bridge(root.children@, node_view(root).children, "EventData"@);
    lemma_find_bridge(root.children@, node_view(root).children, "UserData"@);
    match find_in(root.children@, "EventData"@) {
        Some(ed) => {
            lemma_children_views(ed);
            lemma_event_data_bridge(ed.children@, node_view(ed).children, 1);
        },
        None => {
            match find_in(root.children@, "UserData"@) {
                Some(ud) => {
                    lemma_children_views(ud);
                    lemma_user_data_bridge(ud.children@, node_view(ud).children);
                },
                None => {},
            }
        },
    }
}

/// Each extracted field of a tree equals its shape-level reading.
proof fn lemma_sys_fields_bridge(sys: XmlNode)
    ensures
        forall|name: Seq<char>| #[trigger] child_text(sys, name) == view_child_text(
            node_view(sys),
            name,
        ),
        forall|child: Seq<char>, attr: Seq<char>| #[trigger]
            child_attr(sys, child, attr) == view_child_attr(node_view(sys), child, attr),
        provider_of(sys) == view_provider(node_view(sys)),
{
    lemma_children_views(sys);
    assert forall|name: Seq<char>| #[trigger] child_text(sys, name) == view_child_text(
        node_view(sys),
        name,
    ) by {
        lemma_find_bridge(sys.children@, node_view(sys).children, name);
    }
    assert forall|child: Seq<char>, attr: Seq<char>| #[trigger]
        child_attr(sys, child, attr) == view_child_attr(node_view(sys), child, attr) by {
        lemma_find_bridge(sys.children@, node_view(sys).children, child);
        match find_in(sys.children@, child) {
            Some(c) => {
                lemma_attr_bridge(c.attrs@, attr);
            },
            None => {},
        }
    }
    lemma_find_bridge(sys.children@, node_view(sys).children, "Provider"@);
    match find_in(sys.children@, "Provider"@) {
        Some(pnode) => {
            lemma_attr_bridge(pnode.attrs@, "Name"@);
        },
        None => {},
    }
}

// ── The record ──────────────────────────────────────────────────────────

/// The `u32` an attribute value denotes (no trimming), zero when it does
/// not parse.
pub open spec fn u32_of_attr(s: Seq<char>) -> u32 {
    match crate::text::parse_u32_spec(s) {
        Some(v) => v,
        None => 0,
    }
}

fn parse_u32_attr(s: &str) -> (r: u32)
    ensures
        r == u32_of_attr(s@),
{
    match crate::text::parse_u32_chars(&chars_of(s)) {
        Some(v) => v,
        None => 0,
    }
}

/// The provider name the tree gives.
pub open spec fn provider_of(sys: XmlNode) -> Seq<char> {
    match find_in(sys.children@, "Provider"@) {
        Some(p) => match attr_in(p.attrs@, "Name"@) {
            Some(n) => n,
            None => Seq::empty(),
        },
        None => Seq::empty(),
    }
}

/// The value of one attribute of one optionally present child.
pub open spec fn child_attr(sys: XmlNode, child: Seq<char>, attr: Seq<char>) -> Option<Seq<char>> {
    match find_in(sys.children@, child) {
        Some(c) => attr_in(c.attrs@, attr),
        None => None,
    }
}

/// Build the record a parsed event tree denotes. Every field is pinned to
/// the tree except the timestamp's fallback: a missing or unparsable
/// `TimeCreated` stamp falls back to the clock.
pub fn parse_event_record(
    root: &XmlNode,
    xml: &str,
    channel: &str,
    formatted_message: Option<String>,
) -> (r: Result<EventRecord, EventSleuthError>)
    ensures
        (find_in(root.children@, "System"@) is None) ==> (r matches Err(e) && e is XmlParse),
        find_in(root.children@, "System"@) matches Some(sys) ==> (r matches Ok(rec) && {
            &&& rec.raw_xml@ == xml@
            &&& rec.provider_name@ == provider_of(sys)
            &&& rec.event_id == u32_of_text(child_text(sys, "EventID"@))
            &&& rec.level == u8_of_text(child_text(sys, "Level"@))
            &&& rec.level_name@ == level_name_spec(rec.level)
            &&& (match child_attr(sys, "TimeCreated"@, "SystemTime"@) {
                Some(st) => crate::calendar::parse_timestamp_spec(st) matches Some(ms)
                    ==> rec.timestamp == ms,
                None => true,
            })
            &&& rec.computer@ == child_text(sys, "Computer"@)
            &&& rec.channel@ == (if child_text(sys, "Channel"@).len() == 0 {
                channel@
            } else {
                child_text(sys, "Channel"@)
            })
            &&& rec.process_id == (match child_attr(sys, "Execution"@, "ProcessID"@) {
                Some(t) => u32_of_attr(t),
                None => 0,
            })
            &&& rec.thread_id == (match child_attr(sys, "Execution"@, "ThreadID"@) {
                Some(t) => u32_of_attr(t),
                None => 0,
            })
            &&& rec.task == u16_of_text(child_text(sys, "Task"@))
            &&& rec.opcode == u8_of_text(child_text(sys, "Opcode"@))
            &&& rec.keywords == keywords_of_text(child_text(sys, "Keywords"@))
            &&& (match child_attr(sys, "Correlation"@, "ActivityID"@) {
                Some(a) => rec.activity_id matches Some(v) && v@ == a,
                None => rec.activity_id is None,
            })
            &&& (match child_attr(sys, "Security"@, "UserID"@) {
                Some(a) => rec.user_sid matches Some(v) && v@ == a,
                None => rec.user_sid is None,
            })
            &&& rec.event_data@.map_values(|p: (String, String)| (p.0@, p.1@)) == payload_pairs(
                *root,
            )
            &&& rec.message@ == message_of(formatted_message, payload_pairs(*root))
        }),
{
    let sys = match find_child(root, "System") {
        Some(s) => s,
        None => {
            return Err(
                EventSleuthError::XmlParse(String::from_str("missing System element")),
            );
        },
    };
    let provider_name = match find_child(sys, "Provider") {
        Some(p) => match attr_value(p, "Name") {
            Some(n) => n.clone(),
            None => String::new(),
        },
        None => String::new(),
    };
    let event_id = match find_child(sys, "EventID") {
        Some(c) => parse_u32_text(c.text.as_str()),
        None => {
            proof {
                assert(child_text(*sys, "EventID"@) =~= Seq::<char>::empty());
                assert(trim_spec(Seq::<char>::empty()) =~= Seq::<char>::empty());
            }
            0
        },
    };
    let level = match find_child(sys, "Level") {
        Some(c) => parse_u8_text(c.text.as_str()),
        None => {
            proof {
                assert(child_text(*sys, "Level"@) =~= Seq::<char>::empty());
                assert(trim_spec(Seq::<char>::empty()) =~= Seq::<char>::empty());
            }
            0
        },
    };
    let level_name = String::from_str(EventRecord::level_to_name(level));
    let timestamp: i64 = match find_child(sys, "TimeCreated") {
        Some(tc) => match attr_value(tc, "SystemTime") {
            Some(st) => match crate::timefmt::parse_system_time(st.as_str()) {
                Some(ms) => ms,
                None => crate::timefmt::now_utc_ms(),
            },
            None => crate::timefmt::now_utc_ms(),
        },
        None => crate::timefmt::now_utc_ms(),
    };
    let computer = match find_child(sys, "Computer") {
        Some(c) => c.text.clone(),
        None => String::new(),
    };
    let xml_channel = match find_child(sys, "Channel") {
        Some(c) => c.text.clone(),
        None => String::new(),
    };
    let channel_name = if xml_channel.as_str().is_empty() {
        String::from_str(channel)
    } else {
        xml_channel
    };
    let (process_id, thread_id): (u32, u32) = match find_child(sys, "Execution") {
        Some(e) => {
            let pid = match attr_value(e, "ProcessID") {
                Some(t) => parse_u32_attr(t.as_str()),
                None => 0,
            };
            let tid = match attr_value(e, "ThreadID") {
                Some(t) => parse_u32_attr(t.as_str()),
                None => 0,
            };
            (pid, tid)
        },
        None => (0, 0),
    };
    let task = match find_child(sys, "Task") {
        Some(c) => parse_u16_text(c.text.as_str()),
        None => {
            proof {
                assert(child_text(*sys, "Task"@) =~= Seq::<char>::empty());
                assert(trim_spec(Seq::<char>::empty()) =~= Seq::<char>::empty());
            }
            0
        },
    };
    let opcode = match find_child(sys, "Opcode") {
        Some(c) => parse_u8_text(c.text.as_str()),
        None => {
            proof {
                assert(child_text(*sys, "Opcode"@) =~= Seq::<char>::empty());
                assert(trim_spec(Seq::<char>::empty()) =~= Seq::<char>::empty());
            }
            0
        },
    };
    let keywords = match find_child(sys, "Keywords") {
        Some(c) => parse_keywords_text(c.text.as_str()),
        None => {
            proof {
                assert(child_text(*sys, "Keywords"@) =~= Seq::<char>::empty());
                assert(trim_spec(Seq::<char>::empty()) =~= Seq::<char>::empty());
                assert(strip_hex_prefix(Seq::<char>::empty()) =~= Seq::<char>::empty());
            }
            0
        },
    };
    let activity_id: Option<String> = match find_child(sys, "Correlation") {
        Some(c) => match attr_value(c, "ActivityID") {
            Some(a) => Some(a.clone()),
            None => None,
        },
        None => None,
    };
    let user_sid: Option<String> = match find_child(sys, "Security") {
        Some(c) => match attr_value(c, "UserID") {
            Some(a) => Some(a.clone()),
            None => None,
        },
        None => None,
    };
    let event_data: Vec<(String, String)> = match find_child(root, "EventData") {
        Some(ed) => collect_event_data(ed),
        None => match find_child(root, "UserData") {
            Some(ud) => collect_user_data(ud),
            None => Vec::new(),
        },
    };
    proof {
        assert(event_data@.map_values(|p: (String, String)| (p.0@, p.1@)) =~= payload_pairs(
            *root,
        ));
    }
    let message: String = match formatted_message {
        Some(m) => m,
        None => join_pairs_exec(&event_data),
    };
    Ok(
        EventRecord {
            raw_xml: String::from_str(xml),
            channel: channel_name,
            event_id,
            level,
            level_name,
            provider_name,
            timestamp,
            computer,
            message,
            process_id,
            thread_id,
            task,
            opcode,
            keywords,
            activity_id,
            user_sid,
            event_data,
        },
    )
}

/// Parse one serialized event into a record. Succeeds exactly on a
/// document of the accepted dialect whose root holds a `System` element,
/// and then every field of the record is pinned to the shape the document
/// denotes; the timestamp's one fallback is the clock, taken when the
/// `TimeCreated` stamp is absent or unparsable.
pub fn parse_event_xml(xml: &str, channel: &str, formatted_message: Option<String>) -> (r: Result<
    EventRecord,
    EventSleuthError,
>)
    ensures
        (r is Ok) <==> (doc_scan(xml@) matches Some(root) && view_find(
            root.children,
            "System"@,
        ) is Some),
        r matches Err(e) ==> e is XmlParse,
        ({
            match doc_scan(xml@) {
                Some(root) => match view_find(root.children, "System"@) {
                    Some(sys) => r matches Ok(rec) && {
                        &&& rec.raw_xml@ == xml@
                        &&& rec.provider_name@ == view_provider(sys)
                        &&& rec.event_id == u32_of_text(view_child_text(sys, "EventID"@))
                        &&& rec.level == u8_of_text(view_child_text(sys, "Level"@))
                        &&& rec.level_name@ == level_name_spec(rec.level)
                        &&& (match view_child_attr(sys, "TimeCreated"@, "SystemTime"@) {
                            Some(st) => crate::calendar::parse_timestamp_spec(st) matches Some(ms)
                                ==> rec.timestamp == ms,
                            None => true,
                        })
                        &&& rec.computer@ == view_child_text(sys, "Computer"@)
                        &&& rec.channel@ == (if view_child_text(sys, "Channel"@).len() == 0 {
                            channel@
                        } else {
                            view_child_text(sys, "Channel"@)
                        })
                        &&& rec.process_id == (match view_child_attr(
                            sys,
                            "Execution"@,
                            "ProcessID"@,
                        ) {
                            Some(t) => u32_of_attr(t),
                            None => 0,
                        })
                        &&& rec.thread_id == (match view_child_attr(
                            sys,
                            "Execution"@,
                            "ThreadID"@,
                        ) {
                            Some(t) => u32_of_attr(t),
                            None => 0,
                        })
                        &&& rec.task == u16_of_text(view_child_text(sys, "Task"@))
                        &&& rec.opcode == u8_of_text(view_child_text(sys, "Opcode"@))
                        &&& rec.keywords == keywords_of_text(view_child_text(sys, "Keywords"@))
                        &&& (match view_child_attr(sys, "Correlation"@, "ActivityID"@) {
                            Some(a) => rec.activity_id matches Some(v) && v@ == a,
                            None => rec.activity_id is None,
                        })
                        &&& (match view_child_attr(sys, "Security"@, "UserID"@) {
                            Some(a) => rec.user_sid matches Some(v) && v@ == a,
                            None => rec.user_sid is None,
                        })
                        &&& rec.event_data@.map_values(|p: (String, String)| (p.0@, p.1@))
                            == view_payload(root)
                        &&& rec.message@ == message_of(formatted_message, view_payload(root))
                    },
                    None => r is Err,
                },
                None => r is Err,
            }
        }),
{
    match parse_xml_tree(xml) {
        Ok(root) => {
            let r = parse_event_record(&root, xml, channel, formatted_message);
            proof {
                lemma_payload_bridge(root);
                match find_in(root.children@, "System"@) {
                    Some(sys) => {
                        lemma_sys_fields_bridge(sys);
                    },
                    None => {},
                }
            }
            r
        },
        Err(e) => Err(
            EventSleuthError::XmlParse(String::from_str("malformed event document")),
        ),
    }
}

} // verus!
