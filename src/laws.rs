//! Properties that relate several functions of the library.
use vstd::prelude::*;

use crate::error::ParseError;
use crate::grammar::{
    after_decl, attr_at, attrs_at, closing_at, comment_open, decl_open, document, element_at,
    empty_close, end_open, is_name_char, items_at, name_end, skip_space, starts_with_at,
    tag_head, text_end, Elem, Item,
};
use crate::node::{build, build_items, comment_name, render, XmlNode};
use crate::parser::parse_result;
use crate::text::{is_white, lead, trail, trim};

verus! {

/// Rendering depends on the tree alone: two trees with the same names,
/// contents, attributes and children render to the same text.
pub proof fn lemma_render_depends_on_tree_only(a: &XmlNode, b: &XmlNode)
    requires
        a@ == b@,
    ensures
        render(a@, 0) == render(b@, 0),
{
}

/// No element's name is the reserved name of comment nodes: every tag name
/// starts with a name character, and `#` is none.
pub proof fn lemma_comment_name_is_reserved(s: Seq<char>, i: int)
    requires
        tag_head(s, i) is Some,
    ensures
        (tag_head(s, i)->0).0 != comment_name(),
{
    let k = name_end(s, i + 1);
    lemma_name_end_bound(s, i + 1);
    assert(s[i + 1] == s.subrange(i + 1, k)[0]);
    assert(comment_name()[0] == '#');
}

proof fn lemma_name_end_bound(s: Seq<char>, i: int)
    requires
        0 <= i <= s.len(),
    ensures
        i <= name_end(s, i) <= s.len(),
    decreases s.len() - i,
{
    if i < s.len() && is_name_char(s[i]) {
        lemma_name_end_bound(s, i + 1);
    }
}

proof fn lemma_name_run(s: Seq<char>, i: int, j: int)
    requires
        0 <= i <= j <= s.len(),
        forall|k: int| i <= k < j ==> is_name_char(#[trigger] s[k]),
        j == s.len() || !is_name_char(s[j]),
    ensures
        name_end(s, i) == j,
    decreases j - i,
{
    if i < j {
        lemma_name_run(s, i + 1, j);
    }
}

proof fn lemma_text_run(s: Seq<char>, i: int, j: int)
    requires
        0 <= i <= j < s.len(),
        forall|k: int| i <= k < j ==> #[trigger] s[k] != '<',
        s[j] == '<',
    ensures
        text_end(s, i) == j,
    decreases j - i,
{
    if i < j {
        lemma_text_run(s, i + 1, j);
    }
}

/// The document `<a>t</b>`.
pub open spec fn tagged(a: Seq<char>, t: Seq<char>, b: Seq<char>) -> Seq<char> {
    seq!['<'] + a + seq!['>'] + t + seq!['<', '/'] + b + seq!['>']
}

pub open spec fn is_name(n: Seq<char>) -> bool {
    n.len() > 0 && forall|k: int| 0 <= k < n.len() ==> is_name_char(#[trigger] n[k])
}

proof fn lemma_tagged_chars(a: Seq<char>, t: Seq<char>, b: Seq<char>)
    ensures
        ({
            let s = tagged(a, t, b);
            let p = 2 + a.len() + t.len() as int;
            &&& s.len() == p + 3 + b.len()
            &&& s[0] == '<'
            &&& forall|k: int| 0 <= k < a.len() ==> s[1 + k] == #[trigger] a[k]
            &&& s[1 + a.len() as int] == '>'
            &&& forall|k: int| 0 <= k < t.len() ==> s[2 + a.len() as int + k] == #[trigger] t[k]
            &&& s[p] == '<'
            &&& s[p + 1] == '/'
            &&& forall|k: int| 0 <= k < b.len() ==> s[p + 2 + k] == #[trigger] b[k]
            &&& s[p + 2 + b.len() as int] == '>'
        }),
{
    let s = tagged(a, t, b);
    let p = 2 + a.len() + t.len() as int;
    assert forall|k: int| 0 <= k < a.len() implies s[1 + k] == #[trigger] a[k] by {}
    assert forall|k: int| 0 <= k < t.len() implies s[2 + a.len() as int + k] == #[trigger] t[k] by {}
    assert forall|k: int| 0 <= k < b.len() implies s[p + 2 + k] == #[trigger] b[k] by {}
}

/// The opening tag of `<a>t</b>`: the element starts at 0 with name `a` and
/// no attributes, and its items start after the `>`.
proof fn lemma_tagged_open(a: Seq<char>, t: Seq<char>, b: Seq<char>)
    requires
        is_name(a),
    ensures
        ({
            let s = tagged(a, t, b);
            let na = a.len() as int;
            &&& after_decl(s, skip_space(s, 0)) == Some(0int)
            &&& element_at(s, 0) == match items_at(s, 2 + na) {
                Some((items, c, e)) => Some(
                    (Elem::Full { open: a, attrs: Seq::empty(), items, close: c }, e),
                ),
                None => None,
            }
        }),
{
    lemma_tagged_chars(a, t, b);
    let s = tagged(a, t, b);
    let na = a.len() as int;
    assert(skip_space(s, 0) == 0);
    assert(s.subrange(0, 5)[1] == s[1]);
    assert(s.subrange(0, 4)[1] == s[1]);
    assert(decl_open()[1] == '?');
    assert(comment_open()[1] == '!');
    assert(is_name_char(a[0]));
    assert(!starts_with_at(s, 0, decl_open()));
    assert(!starts_with_at(s, 0, comment_open()));
    assert forall|k: int| 1 <= k < 1 + na implies is_name_char(#[trigger] s[k]) by {
        assert(s[1 + (k - 1)] == a[k - 1]);
    }
    lemma_name_run(s, 1, 1 + na);
    assert(skip_space(s, 1 + na) == 1 + na);
    assert(attr_at(s, 1 + na) is None);
    assert(attrs_at(s, 1 + na) == (Seq::<(Seq<char>, Seq<char>)>::empty(), 1 + na));
    assert(s.subrange(1, 1 + na) =~= a);
    assert(tag_head(s, 0) == Some((a, Seq::<(Seq<char>, Seq<char>)>::empty(), 1 + na)));
    assert(s.subrange(1 + na, 3 + na)[0] == '>');
    assert(empty_close()[0] == '/');
    assert(!starts_with_at(s, 1 + na, empty_close()));
}

/// The text and closing tag of `<a>t</b>`.
proof fn lemma_tagged_items(a: Seq<char>, t: Seq<char>, b: Seq<char>)
    requires
        is_name(b),
        forall|k: int| 0 <= k < t.len() ==> #[trigger] t[k] != '<',
    ensures
        ({
            let s = tagged(a, t, b);
            let na = a.len() as int;
            let items = if t.len() > 0 {
                seq![Item::Text(t)]
            } else {
                Seq::<Item>::empty()
            };
            &&& items_at(s, 2 + na) == Some((items, b, s.len() as int))
            &&& skip_space(s, s.len() as int) == s.len()
            &&& build_items(items) is Ok
        }),
{
    lemma_tagged_chars(a, t, b);
    let s = tagged(a, t, b);
    let na = a.len() as int;
    let nt = t.len() as int;
    let nb = b.len() as int;
    let p = 2 + na + nt;
    assert(s.subrange(p, p + 2) =~= end_open());
    assert forall|k: int| p + 2 <= k < p + 2 + nb implies is_name_char(#[trigger] s[k]) by {
        assert(s[p + 2 + (k - p - 2)] == b[k - p - 2]);
    }
    lemma_name_run(s, p + 2, p + 2 + nb);
    assert(skip_space(s, p + 2 + nb) == p + 2 + nb);
    assert(s.subrange(p + 2, p + 2 + nb) =~= b);
    assert(closing_at(s, p) == Some((b, p + 3 + nb)));
    assert(items_at(s, p) == Some((Seq::<Item>::empty(), b, p + 3 + nb)));
    let items = if nt > 0 {
        seq![Item::Text(t)]
    } else {
        Seq::<Item>::empty()
    };
    if nt > 0 {
        assert forall|k: int| 2 + na <= k < p implies #[trigger] s[k] != '<' by {
            assert(s[2 + na + (k - 2 - na)] == t[k - 2 - na]);
        }
        lemma_text_run(s, 2 + na, p);
        assert(s.subrange(2 + na, p) =~= t);
        assert(seq![Item::Text(t)] + Seq::<Item>::empty() =~= items);
        assert(items.drop_last() =~= Seq::<Item>::empty());
        assert(items_at(s, 2 + na) == Some((items, b, s.len() as int)));
        assert(build_items(items.drop_last()) is Ok);
    } else {
        assert(items_at(s, 2 + na) == Some((items, b, s.len() as int)));
    }
    assert(skip_space(s, s.len() as int) == s.len());
}

/// An element `<a>t</b>` whose text `t` holds no markup and whose names
/// differ is rejected as a tag mismatch of `a` and `b`, and in no other way.
pub proof fn lemma_tag_agreement(
    a: Seq<char>,
    t: Seq<char>,
    b: Seq<char>,
    r: Result<XmlNode, ParseError>,
)
    requires
        is_name(a),
        is_name(b),
        a != b,
        forall|k: int| 0 <= k < t.len() ==> #[trigger] t[k] != '<',
        parse_result(tagged(a, t, b), r),
    ensures
        r matches Err(ParseError::TagMismatch { opening, ending }) && opening@ == a && ending@
            == b,
{
    let s = tagged(a, t, b);
    lemma_tagged_open(a, t, b);
    lemma_tagged_items(a, t, b);
    let items = if t.len() > 0 {
        seq![Item::Text(t)]
    } else {
        Seq::<Item>::empty()
    };
    let e = Elem::Full { open: a, attrs: Seq::empty(), items, close: b };
    assert(document(s) == Some(e));
}

/// Neither end of `t` is whitespace.
pub open spec fn is_trimmed(t: Seq<char>) -> bool {
    t.len() == 0 || (!is_white(t[0]) && !is_white(t.last()))
}

proof fn lemma_lead(t: Seq<char>, k: int)
    requires
        0 <= k <= t.len(),
    ensures
        k <= lead(t, k) <= t.len(),
        lead(t, k) < t.len() ==> !is_white(t[lead(t, k)]),
    decreases t.len() - k,
{
    if k < t.len() && is_white(t[k]) {
        lemma_lead(t, k + 1);
    }
}

proof fn lemma_trail(t: Seq<char>, a: int, k: int)
    requires
        0 <= a <= k <= t.len(),
    ensures
        a <= trail(t, a, k) <= k,
        trail(t, a, k) > a ==> !is_white(t[trail(t, a, k) - 1]),
    decreases k - a,
{
    if a < k && is_white(t[k - 1]) {
        lemma_trail(t, a, k - 1);
    }
}

proof fn lemma_trim_is_trimmed(t: Seq<char>)
    ensures
        is_trimmed(trim(t)),
{
    lemma_lead(t, 0);
    let a = lead(t, 0);
    lemma_trail(t, a, t.len() as int);
}

proof fn lemma_concat_trimmed(x: Seq<char>, y: Seq<char>)
    requires
        is_trimmed(x),
        is_trimmed(y),
    ensures
        is_trimmed(x + y),
{
    if x.len() > 0 {
        assert((x + y)[0] == x[0]);
    }
    if y.len() > 0 {
        assert((x + y).last() == y.last());
    } else {
        assert(x + y =~= x);
    }
}

proof fn lemma_items_content_trimmed(items: Seq<Item>)
    requires
        build_items(items) is Ok,
    ensures
        is_trimmed((build_items(items)->Ok_0).0),
    decreases items.len(),
{
    if items.len() > 0 {
        lemma_items_content_trimmed(items.drop_last());
        match items.last() {
            Item::Text(t) => {
                lemma_trim_is_trimmed(t);
                lemma_concat_trimmed((build_items(items.drop_last())->Ok_0).0, trim(t));
            },
            Item::Child(_) => {},
        }
    }
}

/// The content of every element built from the grammar has no whitespace at
/// either end, however many text runs it joins.
pub proof fn lemma_element_content_is_trimmed(e: Elem)
    requires
        !(e is Comment),
        build(e) is Ok,
    ensures
        is_trimmed((build(e)->Ok_0).content),
{
    match e {
        Elem::Full { open, attrs, items, close } => {
            lemma_items_content_trimmed(items);
        },
        _ => {},
    }
}

} // verus!
