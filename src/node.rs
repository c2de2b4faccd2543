use vstd::prelude::*;

use crate::grammar::{Elem, Item};
use crate::text::{push_char, trim};
use vstd::string::StringExecFns;

verus! {

broadcast use vstd::std_specs::vec::group_vec_axioms;

/// Mathematical model of a node: names and texts as character sequences.
pub struct NodeView {
    pub name: Seq<char>,
    pub content: Seq<char>,
    pub attributes: Seq<(Seq<char>, Seq<char>)>,
    pub children: Seq<NodeView>,
}

/// One element of a parsed document, or a comment.
#[derive(Debug)]
pub struct XmlNode {
    /// The tag name; `#comment` for a comment.
    pub name: String,
    /// The element's own text runs, each trimmed, concatenated in order; the
    /// whole comment, delimiters included, for a comment.
    pub content: String,
    /// Key and value of each attribute, in order of appearance.
    pub attributes: Vec<(String, String)>,
    /// Nested elements and comments, in document order.
    pub children: Vec<XmlNode>,
}

/// The attributes as pairs of character sequences.
pub open spec fn attrs_view(a: Seq<(String, String)>) -> Seq<(Seq<char>, Seq<char>)> {
    a.map_values(|p: (String, String)| (p.0@, p.1@))
}

impl XmlNode {
    /// The tree as a mathematical value.
    pub open spec fn view(self) -> NodeView
        decreases self,
    {
        NodeView {
            name: self.name@,
            content: self.content@,
            attributes: attrs_view(self.attributes@),
            children: Seq::new(
                self.children@.len(),
                |i: int|
                    if 0 <= i < self.children@.len() {
                        self.children@[i].view()
                    } else {
                        arbitrary()
                    },
            ),
        }
    }
}

/// The reserved name of a comment node; `#` is no name character, so no
/// element can carry it.
pub open spec fn comment_name() -> Seq<char> {
    seq!['#', 'c', 'o', 'm', 'm', 'e', 'n', 't']
}

/// Lowers an `element` production to a node. The error holds the opening and
/// the closing name of the first element, in the order of the closing tags,
/// whose two names differ.
pub open spec fn build(e: Elem) -> Result<NodeView, (Seq<char>, Seq<char>)>
    decreases e,
{
    match e {
        Elem::Comment { text } => Ok(
            NodeView { name: comment_name(), content: text, attributes: seq![], children: seq![] },
        ),
        Elem::Empty { name, attrs } => Ok(
            NodeView { name, content: seq![], attributes: attrs, children: seq![] },
        ),
        Elem::Full { open, attrs, items, close } => match build_items(items) {
            Ok((content, children)) => if open == close {
                Ok(NodeView { name: open, content, attributes: attrs, children })
            } else {
                Err((open, close))
            },
            Err(x) => Err(x),
        },
    }
}

/// The concatenated trimmed texts and the nodes of the children of `items`.
pub open spec fn build_items(items: Seq<Item>) -> Result<
    (Seq<char>, Seq<NodeView>),
    (Seq<char>, Seq<char>),
>
    decreases items,
{
    if items.len() == 0 {
        Ok((seq![], seq![]))
    } else {
        match build_items(items.drop_last()) {
            Ok((content, children)) => match items.last() {
                Item::Text(t) => Ok((content + trim(t), children)),
                Item::Child(c) => match build(c) {
                    Ok(n) => Ok((content, children.push(n))),
                    Err(x) => Err(x),
                },
            },
            Err(x) => Err(x),
        }
    }
}

/// Content of the first node in pre-order named `tag` whose content is not
/// empty.
pub open spec fn first_content(v: NodeView, tag: Seq<char>) -> Option<Seq<char>>
    decreases v,
{
    if v.name == tag && v.content.len() > 0 {
        Some(v.content)
    } else {
        first_content_in(v.children, tag)
    }
}

/// `first_content` over a sequence of sibling trees, in order.
pub open spec fn first_content_in(cs: Seq<NodeView>, tag: Seq<char>) -> Option<Seq<char>>
    decreases cs,
{
    if cs.len() == 0 {
        None
    } else {
        match first_content(cs[0], tag) {
            Some(c) => Some(c),
            None => first_content_in(cs.drop_first(), tag),
        }
    }
}

/// Every node named `tag`, the node itself and its descendants, in pre-order.
pub open spec fn nodes_named(v: NodeView, tag: Seq<char>) -> Seq<NodeView>
    decreases v,
{
    (if v.name == tag {
        seq![v]
    } else {
        seq![]
    }) + nodes_named_in(v.children, tag)
}

/// `nodes_named` over a sequence of sibling trees, in order.
pub open spec fn nodes_named_in(cs: Seq<NodeView>, tag: Seq<char>) -> Seq<NodeView>
    decreases cs,
{
    if cs.len() == 0 {
        seq![]
    } else {
        nodes_named_in(cs.drop_last(), tag) + nodes_named(cs.last(), tag)
    }
}

pub open spec fn views_of(rs: Seq<&XmlNode>) -> Seq<NodeView> {
    rs.map_values(|n: &XmlNode| n@)
}

/// `n` levels of indentation, two spaces each.
pub open spec fn pad(n: int) -> Seq<char> {
    Seq::new((2 * n) as nat, |i: int| ' ')
}

/// The indentation of a node's children: three levels deeper, held at the
/// largest machine integer.
pub open spec fn child_indent(n: int) -> int {
    if n + 3 <= usize::MAX {
        n + 3
    } else {
        usize::MAX as int
    }
}

/// ` key="value"` for each attribute, in order.
pub open spec fn attrs_text(a: Seq<(Seq<char>, Seq<char>)>) -> Seq<char>
    decreases a.len(),
{
    if a.len() == 0 {
        seq![]
    } else {
        attrs_text(a.drop_last()) + seq![' '] + a.last().0 + seq!['=', '"'] + a.last().1 + seq!['"']
    }
}

/// The opening tag line, with the attributes inlined.
pub open spec fn open_line(v: NodeView, indent: int) -> Seq<char> {
    pad(indent) + seq!['<'] + v.name + attrs_text(v.attributes) + seq!['>', '\n']
}

/// The content line, or nothing where the content is empty.
pub open spec fn content_line(v: NodeView, indent: int) -> Seq<char> {
    if v.content.len() > 0 {
        pad(indent) + seq![' ', ' '] + v.content + seq!['\n']
    } else {
        seq![]
    }
}

/// The closing tag line.
pub open spec fn close_line(v: NodeView, indent: int) -> Seq<char> {
    pad(indent) + seq!['<', '/'] + v.name + seq!['>', '\n']
}

/// The canonical rendering of a tree whose root stands at `indent` levels:
/// the opening tag line, the content line, the children set deeper, and the
/// closing tag line.
pub open spec fn render(v: NodeView, indent: int) -> Seq<char>
    decreases v,
{
    open_line(v, indent) + content_line(v, indent) + render_all(v.children, child_indent(indent))
        + close_line(v, indent)
}

/// `render` of sibling trees, one after another.
pub open spec fn render_all(cs: Seq<NodeView>, indent: int) -> Seq<char>
    decreases cs,
{
    if cs.len() == 0 {
        seq![]
    } else {
        render_all(cs.drop_last(), indent) + render(cs.last(), indent)
    }
}

fn push_pad(out: &mut String, indent: usize)
    ensures
        final(out)@ == old(out)@ + pad(indent as int),
{
    let mut k: usize = 0;
    assert(pad(0) =~= seq![]);
    assert(old(out)@ + pad(0) =~= old(out)@);
    while k < indent
        invariant
            k <= indent,
            out@ == old(out)@ + pad(k as int),
        decreases indent - k,
    {
        push_char(out, ' ');
        push_char(out, ' ');
        assert(pad(k + 1) =~= pad(k as int) + seq![' ', ' ']);
        assert(old(out)@ + pad(k + 1) =~= old(out)@ + pad(k as int) + seq![' ', ' ']);
        k = k + 1;
    }
}

impl XmlNode {
    fn contents_of(&self, tag: &String) -> (r: Option<&str>)
        ensures
            match first_content(self@, tag@) {
                Some(c) => r matches Some(x) && x@ == c,
                None => r is None,
            },
        decreases self,
    {
        if self.name == *tag && !self.content.as_str().is_empty() {
            return Some(self.content.as_str());
        }
        let ghost cs = self@.children;
        assert(cs.subrange(0, cs.len() as int) =~= cs);
        let mut k: usize = 0;
        while k < self.children.len()
            invariant
                k <= self.children.len(),
                cs == self@.children,
                cs.len() == self.children.len(),
                first_content(self@, tag@) == first_content_in(cs.subrange(k as int, cs.len() as int), tag@),
            decreases self.children.len() - k,
        {
            let child = &self.children[k];
            assert(cs.subrange(k as int, cs.len() as int)[0] == child@);
            assert(cs.subrange(k as int, cs.len() as int).drop_first() =~= cs.subrange(k + 1, cs.len() as int));
            match child.contents_of(tag) {
                Some(x) => {
                    return Some(x);
                },
                None => {},
            }
            k = k + 1;
        }
        None
    }

    /// The content of the first node, in pre-order, that is named `tag` and
    /// has content; `None` where there is none.
    pub fn get_contents_of(&self, tag: &str) -> (r: Option<&str>)
        ensures
            match first_content(self@, tag@) {
                Some(c) => r matches Some(x) && x@ == c,
                None => r is None,
            },
    {
        let t = String::from_str(tag);
        self.contents_of(&t)
    }

    fn nodes_of<'a>(&'a self, tag: &String) -> (r: Vec<&'a XmlNode>)
        ensures
            views_of(r@) == nodes_named(self@, tag@),
        decreases self,
    {
        let mut results: Vec<&'a XmlNode> = Vec::new();
        if self.name == *tag {
            results.push(self);
        }
        let ghost cs = self@.children;
        let ghost head = if self@.name == tag@ {
            seq![self@]
        } else {
            seq![]
        };
        assert(views_of(results@) =~= head);
        assert(cs.subrange(0, 0) =~= seq![]);
        let mut k: usize = 0;
        while k < self.children.len()
            invariant
                k <= self.children.len(),
                cs == self@.children,
                cs.len() == self.children.len(),
                views_of(results@) == head + nodes_named_in(cs.subrange(0, k as int), tag@),
            decreases self.children.len() - k,
        {
            let child = &self.children[k];
            let sub = child.nodes_of(tag);
            let ghost before = results@;
            let mut m: usize = 0;
            while m < sub.len()
                invariant
                    m <= sub.len(),
                    results@ == before + sub@.subrange(0, m as int),
                decreases sub.len() - m,
            {
                results.push(sub[m]);
                assert(sub@.subrange(0, m + 1) =~= sub@.subrange(0, m as int).push(sub@[m as int]));
                m = m + 1;
            }
            assert(cs.subrange(0, k + 1).drop_last() =~= cs.subrange(0, k as int));
            assert(results@ =~= before + sub@);
            assert(views_of(results@) =~= views_of(before) + views_of(sub@));
            k = k + 1;
        }
        assert(cs.subrange(0, cs.len() as int) =~= cs);
        results
    }

    /// Every node named `tag`, this one and its descendants, in pre-order.
    pub fn get_nodes(&self, tag: &str) -> (r: Vec<&XmlNode>)
        ensures
            views_of(r@) == nodes_named(self@, tag@),
    {
        let t = String::from_str(tag);
        self.nodes_of(&t)
    }

    fn push_open_line(&self, out: &mut String, indent: usize)
        ensures
            final(out)@ == old(out)@ + open_line(self@, indent as int),
    {
        push_pad(out, indent);
        push_char(out, '<');
        out.append(self.name.as_str());
        let ghost before_attrs = out@;
        let mut k: usize = 0;
        assert(self@.attributes.subrange(0, 0) =~= seq![]);
        assert(before_attrs + attrs_text(seq![]) =~= before_attrs);
        while k < self.attributes.len()
            invariant
                k <= self.attributes.len(),
                self@.attributes == attrs_view(self.attributes@),
                out@ == before_attrs + attrs_text(self@.attributes.subrange(0, k as int)),
            decreases self.attributes.len() - k,
        {
            let (key, value) = &self.attributes[k];
            let ghost prev = out@;
            push_char(out, ' ');
            out.append(key.as_str());
            push_char(out, '=');
            push_char(out, '"');
            out.append(value.as_str());
            push_char(out, '"');
            let ghost sub = self@.attributes.subrange(0, k + 1);
            assert(sub.drop_last() =~= self@.attributes.subrange(0, k as int));
            assert(sub.last() == (key@, value@));
            assert(out@ =~= prev + seq![' '] + key@ + seq!['=', '"'] + value@ + seq!['"']);
            k = k + 1;
        }
        assert(self@.attributes.subrange(0, self@.attributes.len() as int) =~= self@.attributes);
        push_char(out, '>');
        push_char(out, '\n');
        assert(out@ =~= old(out)@ + open_line(self@, indent as int));
    }

    fn push_content_line(&self, out: &mut String, indent: usize)
        ensures
            final(out)@ == old(out)@ + content_line(self@, indent as int),
    {
        if !self.content.as_str().is_empty() {
            push_pad(out, indent);
            push_char(out, ' ');
            push_char(out, ' ');
            out.append(self.content.as_str());
            push_char(out, '\n');
            assert(out@ =~= old(out)@ + content_line(self@, indent as int));
        } else {
            assert(out@ =~= old(out)@ + content_line(self@, indent as int));
        }
    }

    fn push_close_line(&self, out: &mut String, indent: usize)
        ensures
            final(out)@ == old(out)@ + close_line(self@, indent as int),
    {
        push_pad(out, indent);
        push_char(out, '<');
        push_char(out, '/');
        out.append(self.name.as_str());
        push_char(out, '>');
        push_char(out, '\n');
        assert(out@ =~= old(out)@ + close_line(self@, indent as int));
    }

    /// Appends the rendering of this tree, its root at `indent` levels.
    pub fn display_node(&self, out: &mut String, indent: usize)
        ensures
            final(out)@ == old(out)@ + render(self@, indent as int),
        decreases self,
    {
        self.push_open_line(out, indent);
        self.push_content_line(out, indent);
        let ghost after_content = out@;
        let next = if indent <= usize::MAX - 3 {
            indent + 3
        } else {
            usize::MAX
        };
        let ghost cs = self@.children;
        assert(cs.subrange(0, 0) =~= seq![]);
        assert(after_content + render_all(seq![], next as int) =~= after_content);
        let mut m: usize = 0;
        while m < self.children.len()
            invariant
                m <= self.children.len(),
                cs == self@.children,
                cs.len() == self.children.len(),
                next == child_indent(indent as int),
                out@ == after_content + render_all(cs.subrange(0, m as int), next as int),
            decreases self.children.len() - m,
        {
            self.children[m].display_node(out, next);
            assert(cs.subrange(0, m + 1).drop_last() =~= cs.subrange(0, m as int));
            assert(out@ =~= after_content + render_all(cs.subrange(0, m + 1), next as int));
            m = m + 1;
        }
        assert(cs.subrange(0, cs.len() as int) =~= cs);
        self.push_close_line(out, indent);
        assert(out@ =~= old(out)@ + render(self@, indent as int));
    }

    /// The canonical rendering of this tree.
    pub fn render(&self) -> (r: String)
        ensures
            r@ == render(self@, 0),
    {
        let mut out = String::new();
        self.display_node(&mut out, 0);
        assert(out@ =~= render(self@, 0));
        out
    }
}

} // verus!
