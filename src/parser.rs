//! The tree builder: matches the grammar and lowers each element production
//! to a node in one pass.
use vstd::prelude::*;

use crate::grammar::{
    after_decl, attr_at, attrs_at, document, element_at, end_open, items_at, skip_space, Elem, Item,
};
use crate::node::{attrs_view, build, build_items, comment_name, NodeView, XmlNode};
use crate::scan::{
    copy_range, find_x, lit_comment_close, lit_comment_open, lit_decl_close, lit_decl_open,
    lit_empty_close, lit_end_open, name_end_x, skip_space_x, starts_x, text_end_x,
};
use crate::error::ParseError;
use crate::text::push_trimmed;
use vstd::std_specs::iter::IteratorSpec;
use vstd::string::StrSliceExecFns;

verus! {

broadcast use vstd::std_specs::vec::group_vec_axioms;

/// The `attribute` production at `i`.
fn attr_x(s: &Vec<char>, i: usize) -> (r: Option<((String, String), usize)>)
    requires
        i <= s.len(),
    ensures
        match attr_at(s@, i as int) {
            None => r is None,
            Some((a, j)) => r matches Some((p, k)) && p.0@ == a.0 && p.1@ == a.1 && k == j && i
                < k <= s.len(),
        },
{
    let j = skip_space_x(s, i);
    let k = name_end_x(s, j);
    let m = skip_space_x(s, k);
    if j == i || k == j || m >= s.len() || s[m] != '=' {
        return None;
    }
    let p = skip_space_x(s, m + 1);
    if p >= s.len() || s[p] != '"' {
        return None;
    }
    let quote = vec!['"'];
    assert(quote@ =~= seq!['"']);
    match find_x(s, p + 1, &quote) {
        None => None,
        Some(q) => {
            let key = copy_range(s, j, k);
            let value = copy_range(s, p + 1, q);
            Some(((key, value), q + 1))
        },
    }
}

/// The attributes that follow `i`, and the position after them.
fn attrs_x(s: &Vec<char>, i: usize) -> (r: (Vec<(String, String)>, usize))
    requires
        i <= s.len(),
    ensures
        attrs_view(r.0@) == attrs_at(s@, i as int).0,
        r.1 == attrs_at(s@, i as int).1,
        i <= r.1 <= s.len(),
{
    let mut attrs: Vec<(String, String)> = Vec::new();
    let mut pos: usize = i;
    loop
        invariant
            i <= pos <= s.len(),
            attrs_at(s@, i as int) == (
                attrs_view(attrs@) + attrs_at(s@, pos as int).0,
                attrs_at(s@, pos as int).1,
            ),
        decreases s.len() - pos,
    {
        match attr_x(s, pos) {
            None => {
                assert(attrs_view(attrs@) + seq![] =~= attrs_view(attrs@));
                return (attrs, pos);
            },
            Some((a, j)) => {
                let ghost old_attrs = attrs@;
                attrs.push(a);
                assert(attrs_view(attrs@) =~= attrs_view(old_attrs) + seq![(a.0@, a.1@)]);
                assert(attrs_view(old_attrs) + (seq![(a.0@, a.1@)] + attrs_at(s@, j as int).0)
                    =~= attrs_view(attrs@) + attrs_at(s@, j as int).0);
                pos = j;
            },
        }
    }
}

/// `acc` followed by the items of `r`.
pub open spec fn prepend(acc: Seq<Item>, r: Option<(Seq<Item>, Seq<char>, int)>) -> Option<
    (Seq<Item>, Seq<char>, int),
> {
    match r {
        Some((items, c, e)) => Some((acc + items, c, e)),
        None => None,
    }
}

/// `r` is what `b` describes: the node, or the two names that differ.
pub open spec fn built_as(
    r: Result<XmlNode, (String, String)>,
    b: Result<NodeView, (Seq<char>, Seq<char>)>,
) -> bool {
    match b {
        Ok(v) => r matches Ok(n) && n@ == v,
        Err((a, c)) => r matches Err(x) && x.0@ == a && x.1@ == c,
    }
}

fn comment_name_x() -> (r: String)
    ensures
        r@ == comment_name(),
{
    let r = "#comment".to_owned();
    proof {
        reveal_strlit("#comment");
        assert(r@ =~= comment_name());
    }
    r
}

/// Matches the `element` production at `i` and builds its node. Nothing is
/// returned where the text does not match; a built error where it matches but
/// some closing tag names another element than its opening tag.
fn element_x(s: &Vec<char>, i: usize) -> (r: Option<(Result<XmlNode, (String, String)>, usize)>)
    requires
        i <= s.len(),
    ensures
        match element_at(s@, i as int) {
            None => r is None,
            Some((e, k)) => r matches Some((b, j)) && j == k && i < j <= s.len() && built_as(
                b,
                build(e),
            ),
        },
    decreases s.len() - i,
{
    if starts_x(s, i, &lit_comment_open()) {
        match find_x(s, i + 4, &lit_comment_close()) {
            None => {
                return None;
            },
            Some(j) => {
                let text = copy_range(s, i, j + 3);
                let node = XmlNode {
                    name: comment_name_x(),
                    content: text,
                    attributes: Vec::new(),
                    children: Vec::new(),
                };
                assert(node@.children =~= seq![]);
                assert(node@.attributes =~= seq![]);
                return Some((Ok(node), j + 3));
            },
        }
    }
    if i >= s.len() || s[i] != '<' {
        return None;
    }
    let k = name_end_x(s, i + 1);
    if k == i + 1 {
        return None;
    }
    let (attrs, j0) = attrs_x(s, k);
    let j = skip_space_x(s, j0);
    let name = copy_range(s, i + 1, k);
    if starts_x(s, j, &lit_empty_close()) {
        let node = XmlNode {
            name,
            content: String::new(),
            attributes: attrs,
            children: Vec::new(),
        };
        assert(node@.children =~= seq![]);
        return Some((Ok(node), j + 2));
    }
    if j >= s.len() || s[j] != '>' {
        return None;
    }
    let ghost start = j + 1;
    let ghost open_attrs = attrs_at(s@, k as int).0;
    let mut pos: usize = j + 1;
    let mut content = String::new();
    let mut children: Vec<XmlNode> = Vec::new();
    let mut failed: Option<(String, String)> = None;
    let ghost mut acc: Seq<Item> = seq![];
    let ghost mut cv: Seq<NodeView> = seq![];
    let end_lit = lit_end_open();
    assert(items_at(s@, start) == prepend(acc, items_at(s@, start))) by {
        match items_at(s@, start) {
            Some((items, c, e)) => {
                assert(acc + items =~= items);
            },
            None => {},
        }
    }
    loop
        invariant
            i < start <= pos <= s.len(),
            k < start,
            end_lit@ == end_open(),
            name@ == s@.subrange(i + 1, k as int),
            attrs_view(attrs@) == open_attrs,
            element_at(s@, i as int) == match items_at(s@, start) {
                Some((items, c, e)) => Some(
                    (Elem::Full { open: name@, attrs: open_attrs, items, close: c }, e),
                ),
                None => None,
            },
            items_at(s@, start) == prepend(acc, items_at(s@, pos as int)),
            failed is None ==> (build_items(acc) matches Ok((c, v)) && c == content@ && v == cv
                && children.len() == cv.len() && forall|m: int|
                0 <= m < cv.len() ==> children@[m]@ == cv[m]),
            failed matches Some(x) ==> (build_items(acc) matches Err((a, b)) && a == x.0@ && b
                == x.1@),
        decreases s.len() - pos,
    {
        if pos >= s.len() {
            return None;
        }
        if s[pos] != '<' {
            let kk = text_end_x(s, pos + 1);
            let ghost t = Item::Text(s@.subrange(pos as int, kk as int));
            if failed.is_none() {
                push_trimmed(&mut content, s, pos, kk);
            }
            proof {
                match items_at(s@, kk as int) {
                    Some((items, c, e)) => {
                        assert(acc + (seq![t] + items) =~= acc.push(t) + items);
                    },
                    None => {},
                }
                assert(acc.push(t).drop_last() =~= acc);
                acc = acc.push(t);
            }
            pos = kk;
        } else if starts_x(s, pos, &end_lit) {
            let kk = name_end_x(s, pos + 2);
            let jj = skip_space_x(s, kk);
            if kk == pos + 2 || jj >= s.len() || s[jj] != '>' {
                return None;
            }
            let close = copy_range(s, pos + 2, kk);
            assert(acc + seq![] =~= acc);
            match failed {
                Some(x) => {
                    return Some((Err(x), jj + 1));
                },
                None => {},
            }
            if name == close {
                let node = XmlNode { name, content, attributes: attrs, children };
                assert(node@.children =~= cv);
                return Some((Ok(node), jj + 1));
            } else {
                return Some((Err((name, close)), jj + 1));
            }
        } else {
            match element_x(s, pos) {
                None => {
                    return None;
                },
                Some((b, kk)) => {
                    let ghost el = (element_at(s@, pos as int)->0).0;
                    let ghost item = Item::Child(el);
                    match b {
                        Ok(n) => {
                            if failed.is_none() {
                                children.push(n);
                                proof {
                                    cv = cv.push(n@);
                                }
                            }
                        },
                        Err(x) => {
                            if failed.is_none() {
                                failed = Some(x);
                            }
                        },
                    }
                    proof {
                        match items_at(s@, kk as int) {
                            Some((items, c, e)) => {
                                assert(acc + (seq![item] + items) =~= acc.push(item) + items);
                            },
                            None => {},
                        }
                        assert(acc.push(item).drop_last() =~= acc);
                        acc = acc.push(item);
                    }
                    pos = kk;
                },
            }
        }
    }
}

/// The characters of `text`, in order.
fn chars_of(text: &str) -> (r: Vec<char>)
    ensures
        r@ == text@,
{
    broadcast use vstd::string::axiom_spec_iter, vstd::string::next_postcondition;

    let n = text.unicode_len();
    let mut it = text.chars();
    let mut v: Vec<char> = Vec::new();
    let mut k: usize = 0;
    while k < n
        invariant
            k <= n,
            n == text@.len(),
            v@ == text@.subrange(0, k as int),
            it.remaining() == text@.subrange(k as int, n as int),
        decreases n - k,
    {
        let ghost before = it.remaining();
        match it.next() {
            Some(c) => {
                v.push(c);
                assert(text@.subrange(0, k + 1) =~= text@.subrange(0, k as int).push(c));
                assert(text@.subrange(k + 1, n as int) =~= before.drop_first());
            },
            None => {
                return v;
            },
        }
        k = k + 1;
    }
    v
}

/// Where the element starts: after leading whitespace and an optional
/// declaration with the whitespace that follows it.
fn element_start(s: &Vec<char>) -> (r: Option<usize>)
    ensures
        r is None <==> after_decl(s@, skip_space(s@, 0)) is None,
        r matches Some(d) ==> after_decl(s@, skip_space(s@, 0)) == Some(d as int) && d <= s.len(),
{
    let i0 = skip_space_x(s, 0);
    if starts_x(s, i0, &lit_decl_open()) {
        match find_x(s, i0 + 5, &lit_decl_close()) {
            None => None,
            Some(j) => Some(skip_space_x(s, j + 2)),
        }
    } else {
        Some(i0)
    }
}

/// Matches `document` and builds its element: `None` where the text does not
/// match the grammar.
fn document_x(s: &Vec<char>) -> (r: Option<Result<XmlNode, (String, String)>>)
    ensures
        match document(s@) {
            None => r is None,
            Some(e) => r matches Some(b) && built_as(b, build(e)),
        },
{
    match element_start(s) {
        None => None,
        Some(d) => match element_x(s, d) {
            None => None,
            Some((b, k)) => {
                if skip_space_x(s, k) == s.len() {
                    Some(b)
                } else {
                    None
                }
            },
        },
    }
}

/// The grammar of the accepted XML subset.
pub struct Grammar;

impl Grammar {
    /// Whether `input` matches the `document` rule.
    pub fn matches(input: &str) -> (r: bool)
        ensures
            r == document(input@) is Some,
    {
        let s = chars_of(input);
        document_x(&s).is_some()
    }
}

/// What parsing `s` yields: a syntax error where it does not match the
/// grammar, else the built tree or the first pair of tag names that differ.
pub open spec fn parse_result(s: Seq<char>, r: Result<XmlNode, ParseError>) -> bool {
    match document(s) {
        None => r matches Err(ParseError::SyntaxError),
        Some(e) => match build(e) {
            Ok(v) => r matches Ok(n) && n@ == v,
            Err((a, b)) => r matches Err(ParseError::TagMismatch { opening, ending })
                && opening@ == a && ending@ == b,
        },
    }
}

/// Parses `input` into its tree. The text is first held to the grammar as a
/// whole, so a syntax error anywhere wins over a tag mismatch. Recursion
/// follows the nesting depth of the document.
pub fn parse_xml(input: &str) -> (r: Result<XmlNode, ParseError>)
    ensures
        parse_result(input@, r),
{
    let s = chars_of(input);
    match document_x(&s) {
        None => Err(ParseError::SyntaxError),
        Some(Ok(n)) => Ok(n),
        Some(Err((opening, ending))) => Err(ParseError::TagMismatch { opening, ending }),
    }
}

} // verus!
