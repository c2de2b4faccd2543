//! Executable scanning primitives over the input characters, each equal to
//! its spec function of the grammar.
use vstd::prelude::*;

use crate::grammar::{
    comment_close, comment_open, decl_close, decl_open, empty_close, end_open, find_from, is_name_char, name_end, skip_space, starts_with_at, text_end,
};
use crate::text::push_char;

verus! {

pub fn skip_space_x(s: &Vec<char>, i: usize) -> (r: usize)
    requires
        i <= s.len(),
    ensures
        r == skip_space(s@, i as int),
        i <= r <= s.len(),
{
    let mut j: usize = i;
    while j < s.len() && (s[j] == ' ' || s[j] == '\t' || s[j] == '\r' || s[j] == '\n')
        invariant
            i <= j <= s.len(),
            skip_space(s@, i as int) == skip_space(s@, j as int),
        decreases s.len() - j,
    {
        j = j + 1;
    }
    j
}

pub fn is_name_char_x(c: char) -> (r: bool)
    ensures
        r == is_name_char(c),
{
    let u = c as u32;
    (0x61 <= u && u <= 0x7a) || (0x41 <= u && u <= 0x5a) || (0x30 <= u && u <= 0x39) || c == '_'
        || c == '-' || c == '.' || c == ':'
}

pub fn name_end_x(s: &Vec<char>, i: usize) -> (r: usize)
    requires
        i <= s.len(),
    ensures
        r == name_end(s@, i as int),
        i <= r <= s.len(),
{
    let mut j: usize = i;
    while j < s.len() && is_name_char_x(s[j])
        invariant
            i <= j <= s.len(),
            name_end(s@, i as int) == name_end(s@, j as int),
        decreases s.len() - j,
    {
        j = j + 1;
    }
    j
}

pub fn text_end_x(s: &Vec<char>, i: usize) -> (r: usize)
    requires
        i <= s.len(),
    ensures
        r == text_end(s@, i as int),
        i <= r <= s.len(),
{
    let mut j: usize = i;
    while j < s.len() && s[j] != '<'
        invariant
            i <= j <= s.len(),
            text_end(s@, i as int) == text_end(s@, j as int),
        decreases s.len() - j,
    {
        j = j + 1;
    }
    j
}

pub fn starts_x(s: &Vec<char>, i: usize, t: &Vec<char>) -> (r: bool)
    ensures
        r == starts_with_at(s@, i as int, t@),
{
    if i > s.len() || t.len() > s.len() - i {
        return false;
    }
    let mut k: usize = 0;
    while k < t.len()
        invariant
            i + t.len() <= s.len(),
            k <= t.len(),
            forall|m: int| 0 <= m < k ==> s@[i + m] == t@[m],
        decreases t.len() - k,
    {
        if s[i + k] != t[k] {
            assert(s@.subrange(i as int, i + t.len())[k as int] != t@[k as int]);
            return false;
        }
        k = k + 1;
    }
    assert(s@.subrange(i as int, i + t.len()) =~= t@);
    true
}

pub fn find_x(s: &Vec<char>, i: usize, t: &Vec<char>) -> (r: Option<usize>)
    requires
        t.len() > 0,
    ensures
        r is None <==> find_from(s@, i as int, t@) is None,
        r matches Some(j) ==> find_from(s@, i as int, t@) == Some(j as int) && i <= j && j
            + t.len() <= s.len(),
{
    let mut j: usize = i;
    while j < s.len() && t.len() <= s.len() - j
        invariant
            i <= j,
            t.len() > 0,
            find_from(s@, i as int, t@) == find_from(s@, j as int, t@),
        decreases s.len() - j,
    {
        if starts_x(s, j, t) {
            return Some(j);
        }
        j = j + 1;
    }
    None
}

/// The characters `s[lo..hi]` as a string.
pub fn copy_range(s: &Vec<char>, lo: usize, hi: usize) -> (r: String)
    requires
        lo <= hi <= s.len(),
    ensures
        r@ == s@.subrange(lo as int, hi as int),
{
    let mut r = String::new();
    let mut m: usize = lo;
    while m < hi
        invariant
            lo <= m <= hi <= s.len(),
            r@ == s@.subrange(lo as int, m as int),
        decreases hi - m,
    {
        push_char(&mut r, s[m]);
        assert(s@.subrange(lo as int, m + 1) =~= s@.subrange(lo as int, m as int).push(s@[m as int]));
        m = m + 1;
    }
    r
}

pub fn lit_comment_open() -> (r: Vec<char>)
    ensures
        r@ == comment_open(),
{
    let r = vec!['<', '!', '-', '-'];
    assert(r@ =~= comment_open());
    r
}

pub fn lit_comment_close() -> (r: Vec<char>)
    ensures
        r@ == comment_close(),
{
    let r = vec!['-', '-', '>'];
    assert(r@ =~= comment_close());
    r
}

pub fn lit_decl_open() -> (r: Vec<char>)
    ensures
        r@ == decl_open(),
{
    let r = vec!['<', '?', 'x', 'm', 'l'];
    assert(r@ =~= decl_open());
    r
}

pub fn lit_decl_close() -> (r: Vec<char>)
    ensures
        r@ == decl_close(),
{
    let r = vec!['?', '>'];
    assert(r@ =~= decl_close());
    r
}

pub fn lit_empty_close() -> (r: Vec<char>)
    ensures
        r@ == empty_close(),
{
    let r = vec!['/', '>'];
    assert(r@ =~= empty_close());
    r
}

pub fn lit_end_open() -> (r: Vec<char>)
    ensures
        r@ == end_open(),
{
    let r = vec!['<', '/'];
    assert(r@ =~= end_open());
    r
}

} // verus!
