//! The grammar of the accepted XML subset, as spec functions over the input
//! characters, and the production tree that a successful match yields.
use vstd::prelude::*;

verus! {

/// One `attribute` production: key and unquoted value.
pub type AttrSpec = (Seq<char>, Seq<char>);

/// An `element` production.
pub enum Elem {
    /// Opening tag, inner items in document order, closing tag.
    Full { open: Seq<char>, attrs: Seq<AttrSpec>, items: Seq<Item>, close: Seq<char> },
    /// A self-closing tag ending in `/>`.
    Empty { name: Seq<char>, attrs: Seq<AttrSpec> },
    /// A comment, with its delimiters.
    Comment { text: Seq<char> },
}

/// What stands between an opening and a closing tag.
pub enum Item {
    Text(Seq<char>),
    Child(Elem),
}

/// Formatting whitespace between tokens.
pub open spec fn is_space(c: char) -> bool {
    c == ' ' || c == '\t' || c == '\r' || c == '\n'
}

/// Characters allowed in tag and attribute names.
pub open spec fn is_name_char(c: char) -> bool {
    let u = c as u32;
    (0x61 <= u <= 0x7a) || (0x41 <= u <= 0x5a) || (0x30 <= u <= 0x39) || c == '_' || c == '-'
        || c == '.' || c == ':'
}

pub open spec fn char_at(s: Seq<char>, i: int, c: char) -> bool {
    0 <= i < s.len() && s[i] == c
}

pub open spec fn starts_with_at(s: Seq<char>, i: int, t: Seq<char>) -> bool {
    0 <= i && i + t.len() <= s.len() && s.subrange(i, i + t.len()) == t
}

/// First position at or after `i` that holds no formatting whitespace.
pub open spec fn skip_space(s: Seq<char>, i: int) -> int
    decreases s.len() - i,
{
    if 0 <= i < s.len() && is_space(s[i]) {
        skip_space(s, i + 1)
    } else {
        i
    }
}

/// End of the run of name characters that starts at `i`.
pub open spec fn name_end(s: Seq<char>, i: int) -> int
    decreases s.len() - i,
{
    if 0 <= i < s.len() && is_name_char(s[i]) {
        name_end(s, i + 1)
    } else {
        i
    }
}

/// End of the text run that starts at `i`: the next `<`, or the end of input.
pub open spec fn text_end(s: Seq<char>, i: int) -> int
    decreases s.len() - i,
{
    if 0 <= i < s.len() && s[i] != '<' {
        text_end(s, i + 1)
    } else {
        i
    }
}

/// First position at or after `i` where `t` occurs, if any.
pub open spec fn find_from(s: Seq<char>, i: int, t: Seq<char>) -> Option<int>
    decreases s.len() - i,
{
    if i < 0 || i >= s.len() || i + t.len() > s.len() {
        None
    } else if starts_with_at(s, i, t) {
        Some(i)
    } else {
        find_from(s, i + 1, t)
    }
}

pub open spec fn comment_open() -> Seq<char> {
    seq!['<', '!', '-', '-']
}

pub open spec fn comment_close() -> Seq<char> {
    seq!['-', '-', '>']
}

pub open spec fn decl_open() -> Seq<char> {
    seq!['<', '?', 'x', 'm', 'l']
}

pub open spec fn decl_close() -> Seq<char> {
    seq!['?', '>']
}

pub open spec fn empty_close() -> Seq<char> {
    seq!['/', '>']
}

pub open spec fn end_open() -> Seq<char> {
    seq!['<', '/']
}

/// `attribute` := whitespace, name, `=`, a quoted value; whitespace may
/// surround the `=`. Yields the pair and the position after the closing quote.
pub open spec fn attr_at(s: Seq<char>, i: int) -> Option<(AttrSpec, int)> {
    let j = skip_space(s, i);
    let k = name_end(s, j);
    let m = skip_space(s, k);
    let p = skip_space(s, m + 1);
    if j > i && k > j && char_at(s, m, '=') && char_at(s, p, '"') {
        match find_from(s, p + 1, seq!['"']) {
            Some(q) => Some(((s.subrange(j, k), s.subrange(p + 1, q)), q + 1)),
            None => None,
        }
    } else {
        None
    }
}

/// As many attributes as follow `i`, and the position after the last.
pub open spec fn attrs_at(s: Seq<char>, i: int) -> (Seq<AttrSpec>, int)
    decreases s.len() - i,
{
    match attr_at(s, i) {
        Some((a, j)) => if i < j <= s.len() {
            let (rest, e) = attrs_at(s, j);
            (seq![a] + rest, e)
        } else {
            (seq![], i)
        },
        None => (seq![], i),
    }
}

/// `<`, a name, attributes, and the position of the first character after
/// the whitespace that follows them.
pub open spec fn tag_head(s: Seq<char>, i: int) -> Option<(Seq<char>, Seq<AttrSpec>, int)> {
    let k = name_end(s, i + 1);
    if char_at(s, i, '<') && k > i + 1 {
        let (attrs, j) = attrs_at(s, k);
        Some((s.subrange(i + 1, k), attrs, skip_space(s, j)))
    } else {
        None
    }
}

/// `closing_tag` := `</`, a name, optional whitespace, `>`.
pub open spec fn closing_at(s: Seq<char>, i: int) -> Option<(Seq<char>, int)> {
    let k = name_end(s, i + 2);
    let j = skip_space(s, k);
    if starts_with_at(s, i, end_open()) && k > i + 2 && char_at(s, j, '>') {
        Some((s.subrange(i + 2, k), j + 1))
    } else {
        None
    }
}

/// The `element` production that starts at `i`, and the position after it.
pub open spec fn element_at(s: Seq<char>, i: int) -> Option<(Elem, int)>
    decreases s.len() - i, 0int,
{
    if starts_with_at(s, i, comment_open()) {
        match find_from(s, i + 4, comment_close()) {
            Some(j) => Some((Elem::Comment { text: s.subrange(i, j + 3) }, j + 3)),
            None => None,
        }
    } else {
        match tag_head(s, i) {
            Some((name, attrs, j)) => if starts_with_at(s, j, empty_close()) {
                Some((Elem::Empty { name, attrs }, j + 2))
            } else if char_at(s, j, '>') && i < j + 1 <= s.len() {
                match items_at(s, j + 1) {
                    Some((items, close, e)) => Some(
                        (Elem::Full { open: name, attrs, items, close }, e),
                    ),
                    None => None,
                }
            } else {
                None
            },
            None => None,
        }
    }
}

/// The items of a `full_element` from `i` on, up to and including its
/// closing tag: the items, the closing name, and the position after the tag.
pub open spec fn items_at(s: Seq<char>, i: int) -> Option<(Seq<Item>, Seq<char>, int)>
    decreases s.len() - i, 1int,
{
    if !(0 <= i < s.len()) {
        None
    } else if s[i] != '<' {
        let k = text_end(s, i);
        if i < k <= s.len() {
            match items_at(s, k) {
                Some((rest, c, e)) => Some((seq![Item::Text(s.subrange(i, k))] + rest, c, e)),
                None => None,
            }
        } else {
            None
        }
    } else if starts_with_at(s, i, end_open()) {
        match closing_at(s, i) {
            Some((c, e)) => Some((seq![], c, e)),
            None => None,
        }
    } else {
        match element_at(s, i) {
            Some((el, k)) => if i < k <= s.len() {
                match items_at(s, k) {
                    Some((rest, c, e)) => Some((seq![Item::Child(el)] + rest, c, e)),
                    None => None,
                }
            } else {
                None
            },
            None => None,
        }
    }
}

/// Where the element starts once an optional `<?xml ... ?>` at `i` is passed.
pub open spec fn after_decl(s: Seq<char>, i: int) -> Option<int> {
    if starts_with_at(s, i, decl_open()) {
        match find_from(s, i + 5, decl_close()) {
            Some(j) => Some(skip_space(s, j + 2)),
            None => None,
        }
    } else {
        Some(i)
    }
}

/// `document` := optional declaration, then exactly one element; whitespace
/// may stand before, between and after them.
pub open spec fn document(s: Seq<char>) -> Option<Elem> {
    match after_decl(s, skip_space(s, 0)) {
        Some(d) => match element_at(s, d) {
            Some((e, k)) => if skip_space(s, k) == s.len() {
                Some(e)
            } else {
                None
            },
            None => None,
        },
        None => None,
    }
}

} // verus!
