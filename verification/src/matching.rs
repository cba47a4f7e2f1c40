//! Fuzzy matching of names against a filter, and the item tree it filters.

use vstd::prelude::*;

verus! {

/// The lowercase mapping of `c` (one or more characters), as
/// `char::to_lowercase` yields it.
pub uninterp spec fn char_lowercase(c: char) -> Seq<char>;

/// `char::to_lowercase`, collected. Claimed: the result is the named mapping,
/// has at least one character, maps `A..=Z` to `a..=z` and leaves every other
/// ASCII character as it is. Not claimed: the mapping of other characters.
#[verifier::external_body]
fn lowercase_of(c: char) -> (r: Vec<char>)
    ensures
        r@ == char_lowercase(c),
        r@.len() >= 1,
        ('A' <= c && c <= 'Z') ==> r@ == seq![((c as u32) + 32) as char],
        ((c as u32) < 128 && !('A' <= c && c <= 'Z')) ==> r@ == seq![c],
{
    c.to_lowercase().collect()
}

/// `s` with every character replaced by its lowercase mapping.
pub open spec fn lower(s: Seq<char>) -> Seq<char>
    decreases s.len(),
{
    if s.len() == 0 {
        Seq::empty()
    } else {
        lower(s.drop_last()) + char_lowercase(s.last())
    }
}

/// Whether `n` occurs in `h` in order, not necessarily contiguously.
pub open spec fn is_subseq(n: Seq<char>, h: Seq<char>) -> bool
    decreases h.len(),
{
    if n.len() == 0 {
        true
    } else if h.len() == 0 {
        false
    } else if n[0] == h[0] {
        is_subseq(n.drop_first(), h.drop_first())
    } else {
        is_subseq(n, h.drop_first())
    }
}

/// Whether the filter `needle` fuzzily matches `haystack`: ignoring case, the
/// needle's characters occur in the haystack in order.
pub open spec fn fuzzy_match(needle: Seq<char>, haystack: Seq<char>) -> bool {
    is_subseq(lower(needle), lower(haystack))
}

/// The characters of `s`, lowercased.
pub fn lowercase_chars(s: &str) -> (r: Vec<char>)
    ensures
        r@ == lower(s@),
{
    let n = s.unicode_len();
    let mut out: Vec<char> = Vec::new();
    let mut i: usize = 0;
    while i < n
        invariant
            n == s@.len(),
            0 <= i <= n,
            out@ == lower(s@.subrange(0, i as int)),
        decreases n - i,
    {
        let c = s.get_char(i);
        let l = lowercase_of(c);
        let ghost before = out@;
        let mut k: usize = 0;
        while k < l.len()
            invariant
                0 <= k <= l@.len(),
                out@ =~= before + l@.subrange(0, k as int),
            decreases l@.len() - k,
        {
            out.push(l[k]);
            k = k + 1;
        }
        proof {
            let t = s@.subrange(0, i + 1);
            assert(t.drop_last() =~= s@.subrange(0, i as int));
            assert(t.last() == c);
            assert(l@.subrange(0, l@.len() as int) =~= l@);
        }
        i = i + 1;
    }
    assert(s@.subrange(0, n as int) =~= s@);
    out
}

/// Whether `n` is a subsequence of `h`.
pub fn subsequence(n: &Vec<char>, h: &Vec<char>) -> (r: bool)
    ensures
        r == is_subseq(n@, h@),
{
    let mut i: usize = 0;
    let mut j: usize = 0;
    assert(n@.skip(0) =~= n@);
    assert(h@.skip(0) =~= h@);
    while i < n.len()
        invariant
            0 <= i <= n@.len(),
            0 <= j <= h@.len(),
            is_subseq(n@, h@) == is_subseq(n@.skip(i as int), h@.skip(j as int)),
        decreases n@.len() - i,
    {
        let c = n[i];
        while j < h.len() && h[j] != c
            invariant
                0 <= i < n@.len(),
                0 <= j <= h@.len(),
                c == n@[i as int],
                is_subseq(n@, h@) == is_subseq(n@.skip(i as int), h@.skip(j as int)),
            decreases h@.len() - j,
        {
            assert(h@.skip(j as int).drop_first() =~= h@.skip(j + 1));
            j = j + 1;
        }
        if j == h.len() {
            assert(h@.skip(j as int).len() == 0);
            return false;
        }
        assert(h@.skip(j as int).drop_first() =~= h@.skip(j + 1));
        assert(n@.skip(i as int).drop_first() =~= n@.skip(i + 1));
        i = i + 1;
        j = j + 1;
    }
    true
}

/// Whether the filter `needle` fuzzily matches `haystack`.
pub fn string_match(needle: &str, haystack: &str) -> (r: bool)
    ensures
        r == fuzzy_match(needle@, haystack@),
{
    let n = lowercase_chars(needle);
    let h = lowercase_chars(haystack);
    subsequence(&n, &h)
}

/// A node of the item tree: a named item id, or a named group of nodes.
#[derive(Debug)]
pub enum ItemIDNode {
    Leaf { node: String, value: u32 },
    Node { node: String, children: Vec<ItemIDNode> },
}

/// The mathematical value of an item tree node.
pub enum ItemTree {
    Leaf(Seq<char>, u32),
    Node(Seq<char>, Seq<ItemTree>),
}

impl ItemIDNode {
    /// The node's value.
    pub open spec fn tree(self) -> ItemTree
        decreases self, 1int,
    {
        match self {
            ItemIDNode::Leaf { node, value } => ItemTree::Leaf(node@, value),
            ItemIDNode::Node { node, children } => ItemTree::Node(node@, trees(children@)),
        }
    }
}

/// The values of a list of nodes.
pub open spec fn trees(s: Seq<ItemIDNode>) -> Seq<ItemTree>
    decreases s, 0int,
{
    if s.len() == 0 {
        Seq::empty()
    } else {
        trees(s.drop_last()).push(s.last().tree())
    }
}

/// What filtering a tree by a non-empty filter keeps: leaves whose name
/// matches, and groups with at least one kept descendant (holding only those).
pub open spec fn filter_tree(t: ItemTree, f: Seq<char>) -> Option<ItemTree>
    decreases t, 1int,
{
    match t {
        ItemTree::Leaf(name, value) => if fuzzy_match(f, name) {
            Some(ItemTree::Leaf(name, value))
        } else {
            None
        },
        ItemTree::Node(name, children) => {
            let kept = filter_trees(children, f);
            if kept.len() == 0 {
                None
            } else {
                Some(ItemTree::Node(name, kept))
            }
        },
    }
}

/// The trees of a list that filtering keeps, in order.
pub open spec fn filter_trees(s: Seq<ItemTree>, f: Seq<char>) -> Seq<ItemTree>
    decreases s, 0int,
{
    if s.len() == 0 {
        Seq::empty()
    } else {
        let rest = filter_trees(s.drop_last(), f);
        match filter_tree(s.last(), f) {
            None => rest,
            Some(k) => rest.push(k),
        }
    }
}

/// Filtering with `filter`: everything when the filter is empty.
pub open spec fn filter_spec(t: ItemTree, f: Seq<char>) -> Option<ItemTree> {
    if f.len() == 0 {
        Some(t)
    } else {
        filter_tree(t, f)
    }
}

/// A copy of a string.
pub fn copy_string(s: &String) -> (r: String)
    ensures
        r@ == s@,
{
    let mut r = String::new();
    crate::numfmt::push_str(&mut r, s.as_str());
    r
}

impl ItemIDNode {
    /// A copy of the node and everything under it.
    pub fn duplicate(&self) -> (r: ItemIDNode)
        ensures
            r.tree() == self.tree(),
        decreases self,
    {
        match self {
            ItemIDNode::Leaf { node, value } => ItemIDNode::Leaf { node: copy_string(node), value: *value },
            ItemIDNode::Node { node, children } => {
                let mut out: Vec<ItemIDNode> = Vec::new();
                let mut i: usize = 0;
                while i < children.len()
                    invariant
                        self is Node,
                        self->children == *children,
                        0 <= i <= children@.len(),
                        trees(out@) == trees(children@.subrange(0, i as int)),
                    decreases children@.len() - i,
                {
                    proof {
                        assert(decreases_to!(self->children => self->children@));
                        assert(decreases_to!(self => children@[i as int]));
                    }
                    let c = children[i].duplicate();
                    let ghost before = out@;
                    out.push(c);
                    proof {
                        assert(out@.drop_last() =~= before);
                        let t = children@.subrange(0, i + 1);
                        assert(t.drop_last() =~= children@.subrange(0, i as int));
                    }
                    i = i + 1;
                }
                assert(children@.subrange(0, children@.len() as int) =~= children@);
                ItemIDNode::Node { node: copy_string(node), children: out }
            },
        }
    }

    /// The nodes that match a non-empty filter.
    fn filter_nonempty(&self, filter: &str) -> (r: Option<ItemIDNode>)
        ensures
            match r {
                None => filter_tree(self.tree(), filter@) is None,
                Some(n) => filter_tree(self.tree(), filter@) == Some(n.tree()),
            },
        decreases self,
    {
        match self {
            ItemIDNode::Leaf { node, value } => {
                if string_match(filter, node.as_str()) {
                    Some(ItemIDNode::Leaf { node: copy_string(node), value: *value })
                } else {
                    None
                }
            },
            ItemIDNode::Node { node, children } => {
                let mut kept: Vec<ItemIDNode> = Vec::new();
                let mut i: usize = 0;
                while i < children.len()
                    invariant
                        self is Node,
                        self->children == *children,
                        0 <= i <= children@.len(),
                        trees(kept@) == filter_trees(trees(children@.subrange(0, i as int)), filter@),
                    decreases children@.len() - i,
                {
                    proof {
                        assert(decreases_to!(self->children => self->children@));
                        assert(decreases_to!(self => children@[i as int]));
                    }
                    let r = children[i].filter_nonempty(filter);
                    proof {
                        let t = children@.subrange(0, i + 1);
                        assert(t.drop_last() =~= children@.subrange(0, i as int));
                        assert(trees(t).drop_last() == trees(children@.subrange(0, i as int)));
                        assert(trees(t).last() == children@[i as int].tree());
                    }
                    match r {
                        None => {},
                        Some(n) => {
                            let ghost before = kept@;
                            kept.push(n);
                            assert(kept@.drop_last() =~= before);
                        },
                    }
                    i = i + 1;
                }
                assert(children@.subrange(0, children@.len() as int) =~= children@);
                if kept.len() == 0 {
                    None
                } else {
                    Some(ItemIDNode::Node { node: copy_string(node), children: kept })
                }
            },
        }
    }

    /// The part of the tree that the filter keeps: all of it for an empty
    /// filter; otherwise the matching leaves, and the groups that hold some.
    pub fn filter(&self, filter: &str) -> (r: Option<ItemIDNode>)
        ensures
            match r {
                None => filter_spec(self.tree(), filter@) is None,
                Some(n) => filter_spec(self.tree(), filter@) == Some(n.tree()),
            },
    {
        if filter.unicode_len() == 0 {
            Some(self.duplicate())
        } else {
            self.filter_nonempty(filter)
        }
    }
}

/// The item trees that a filter shows: all of them for an empty filter,
/// otherwise what filtering each one keeps, in order.
pub open spec fn filter_forest(ts: Seq<ItemTree>, f: Seq<char>) -> Seq<ItemTree> {
    if f.len() == 0 {
        ts
    } else {
        filter_trees(ts, f)
    }
}

/// The parts of a list of item trees that a filter shows.
pub fn filter_nodes(nodes: &Vec<ItemIDNode>, filter: &str) -> (r: Vec<ItemIDNode>)
    ensures
        trees(r@) == filter_forest(trees(nodes@), filter@),
{
    let mut kept: Vec<ItemIDNode> = Vec::new();
    let mut i: usize = 0;
    let empty = filter.unicode_len() == 0;
    while i < nodes.len()
        invariant
            empty == (filter@.len() == 0),
            0 <= i <= nodes@.len(),
            trees(kept@) == filter_forest(trees(nodes@.subrange(0, i as int)), filter@),
        decreases nodes@.len() - i,
    {
        let r = nodes[i].filter(filter);
        proof {
            let t = nodes@.subrange(0, i + 1);
            assert(t.drop_last() =~= nodes@.subrange(0, i as int));
            assert(trees(t).drop_last() == trees(nodes@.subrange(0, i as int)));
            assert(trees(t).last() == nodes@[i as int].tree());
        }
        match r {
            None => {},
            Some(n) => {
                let ghost before = kept@;
                kept.push(n);
                assert(kept@.drop_last() =~= before);
            },
        }
        i = i + 1;
    }
    assert(nodes@.subrange(0, nodes@.len() as int) =~= nodes@);
    kept
}

/// Which names the filter keeps: all for an empty filter, otherwise those it
/// fuzzily matches.
pub fn filter_list(names: &Vec<String>, filter: &str) -> (r: Vec<bool>)
    ensures
        r@.len() == names@.len(),
        forall|i: int| 0 <= i < r@.len() ==> #[trigger] r@[i] == (filter@.len() == 0
            || fuzzy_match(filter@, names@[i]@)),
{
    let empty = filter.unicode_len() == 0;
    let mut r: Vec<bool> = Vec::new();
    let mut i: usize = 0;
    while i < names.len()
        invariant
            empty == (filter@.len() == 0),
            0 <= i <= names@.len(),
            r@.len() == i,
            forall|k: int| 0 <= k < i ==> #[trigger] r@[k] == (filter@.len() == 0
                || fuzzy_match(filter@, names@[k]@)),
        decreases names@.len() - i,
    {
        let keep = empty || string_match(filter, names[i].as_str());
        r.push(keep);
        i = i + 1;
    }
    r
}

/// The selection after filtering: kept if still shown, else the first shown
/// entry, else the first entry.
pub fn reposition(current: usize, shown: &Vec<bool>) -> (r: usize)
    requires
        current < shown@.len(),
    ensures
        shown@[current as int] ==> r == current,
        !shown@[current as int] ==> {
            ||| (r < shown@.len() && shown@[r as int] && forall|k: int| 0 <= k < r ==> !#[trigger] shown@[k])
            ||| (r == 0 && forall|k: int| 0 <= k < shown@.len() ==> !#[trigger] shown@[k])
        },
{
    if shown[current] {
        return current;
    }
    let mut i: usize = 0;
    while i < shown.len()
        invariant
            current < shown@.len(),
            !shown@[current as int],
            0 <= i <= shown@.len(),
            forall|k: int| 0 <= k < i ==> !#[trigger] shown@[k],
        decreases shown@.len() - i,
    {
        if shown[i] {
            return i;
        }
        i = i + 1;
    }
    0
}

} // verus!
