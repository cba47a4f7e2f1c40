//! The item tree as it is written by hand (a YAML mapping), and its
//! conversion to the tree the item spawner shows.

use vstd::prelude::*;
use crate::matching::{copy_string, ItemIDNode, ItemTree};

verus! {

/// A YAML value, as far as the item list uses it. A number is kept as the
/// unsigned integer it holds, or `None` when it holds none (negative or
/// fractional).
#[derive(Debug)]
pub enum YamlValue {
    Null,
    Bool(bool),
    Number(Option<u64>),
    String(String),
    Sequence(Vec<YamlValue>),
    Mapping(Vec<(YamlValue, YamlValue)>),
    Tagged,
}

/// The mathematical value of a YAML value.
pub enum YamlTree {
    Null,
    Bool(bool),
    Number(Option<u64>),
    Str(Seq<char>),
    Sequence(Seq<YamlTree>),
    Mapping(Seq<(YamlTree, YamlTree)>),
    Tagged,
}

impl YamlValue {
    pub open spec fn tree(self) -> YamlTree
        decreases self, 2int,
    {
        match self {
            YamlValue::Null => YamlTree::Null,
            YamlValue::Bool(b) => YamlTree::Bool(b),
            YamlValue::Number(n) => YamlTree::Number(n),
            YamlValue::String(s) => YamlTree::Str(s@),
            YamlValue::Sequence(v) => YamlTree::Sequence(yaml_trees(v@)),
            YamlValue::Mapping(m) => YamlTree::Mapping(yaml_pairs(m@)),
            YamlValue::Tagged => YamlTree::Tagged,
        }
    }
}

pub open spec fn yaml_trees(s: Seq<YamlValue>) -> Seq<YamlTree>
    decreases s, 1int,
{
    if s.len() == 0 {
        Seq::empty()
    } else {
        yaml_trees(s.drop_last()).push(s.last().tree())
    }
}

pub open spec fn yaml_pairs(s: Seq<(YamlValue, YamlValue)>) -> Seq<(YamlTree, YamlTree)>
    decreases s, 1int,
{
    if s.len() == 0 {
        Seq::empty()
    } else {
        yaml_pairs(s.drop_last()).push((s.last().0.tree(), s.last().1.tree()))
    }
}

/// How converting an entry ends.
pub enum Conversion {
    /// The entry is this node.
    Done(ItemTree),
    /// The entry is neither a name with an id nor a name with a mapping.
    Invalid,
    /// A name with a number that holds no unsigned integer: the conversion
    /// cannot go on.
    BadNumber,
}

/// Converting the entry `k: v`: a name with a number is a leaf (the number
/// truncated to 32 bits), a name with a mapping a group of the converted
/// entries (the first failing entry decides), anything else is invalid.
pub open spec fn convert_entry(k: YamlTree, v: YamlTree) -> Conversion
    decreases v, 1int,
{
    match k {
        YamlTree::Str(name) => match v {
            YamlTree::Number(Some(n)) => Conversion::Done(ItemTree::Leaf(name, (n % 0x1_0000_0000) as u32)),
            YamlTree::Number(None) => Conversion::BadNumber,
            YamlTree::Mapping(m) => match convert_entries(m) {
                Conversion::Done(ItemTree::Node(_, cs)) => Conversion::Done(ItemTree::Node(name, cs)),
                Conversion::Done(_) => Conversion::Invalid,
                Conversion::Invalid => Conversion::Invalid,
                Conversion::BadNumber => Conversion::BadNumber,
            },
            _ => Conversion::Invalid,
        },
        _ => Conversion::Invalid,
    }
}

/// Converting a list of entries in order, stopping at the first that fails;
/// the result, when all succeed, is a group without a name holding them.
pub open spec fn convert_entries(m: Seq<(YamlTree, YamlTree)>) -> Conversion
    decreases m, 0int,
{
    if m.len() == 0 {
        Conversion::Done(ItemTree::Node(Seq::empty(), Seq::empty()))
    } else {
        match convert_entries(m.drop_last()) {
            Conversion::Done(ItemTree::Node(_, cs)) => match convert_entry(m.last().0, m.last().1) {
                Conversion::Done(t) => Conversion::Done(ItemTree::Node(Seq::empty(), cs.push(t))),
                other => other,
            },
            other => other,
        }
    }
}

/// A name with a number is a leaf with that name whose id is the number's
/// low 32 bits; a number that fits in 32 bits is the id as it is.
pub proof fn lemma_number_entry(name: Seq<char>, n: u64)
    ensures
        convert_entry(YamlTree::Str(name), YamlTree::Number(Some(n))) matches Conversion::Done(ItemTree::Leaf(nm, id))
            && nm == name && id as int == n as int % 0x1_0000_0000,
        n < 0x1_0000_0000 ==> convert_entry(YamlTree::Str(name), YamlTree::Number(Some(n))) == Conversion::Done(
            ItemTree::Leaf(name, n as u32),
        ),
{
}

/// Whether `t` is the leaf for the entry `k: v` where `k` is a name and `v`
/// a number: that name, and the number's low 32 bits as the id.
pub open spec fn is_number_leaf(k: YamlTree, v: YamlTree, t: ItemTree) -> bool {
    &&& k matches YamlTree::Str(name)
    &&& v matches YamlTree::Number(Some(n))
    &&& t matches ItemTree::Leaf(nm, id)
    &&& nm == k->Str_0
    &&& id as int == v->Number_0->0 as int % 0x1_0000_0000
}

/// A mapping of names to numbers converts to one leaf per entry, in order,
/// each with its entry's name and its number's low 32 bits.
pub proof fn lemma_number_entries(m: Seq<(YamlTree, YamlTree)>)
    requires
        forall|i: int| 0 <= i < m.len() ==> (#[trigger] m[i]).0 is Str && m[i].1 matches YamlTree::Number(Some(_)),
    ensures
        convert_entries(m) matches Conversion::Done(ItemTree::Node(_, cs)) && cs.len() == m.len() && forall|i: int|
            0 <= i < m.len() ==> is_number_leaf(m[i].0, m[i].1, #[trigger] cs[i]),
    decreases m.len(),
{
    if m.len() > 0 {
        let p = m.drop_last();
        assert forall|i: int| 0 <= i < p.len() implies (#[trigger] p[i]).0 is Str && p[i].1 matches YamlTree::Number(Some(_)) by {
            assert(p[i] == m[i]);
        }
        lemma_number_entries(p);
        lemma_number_entry(m.last().0->Str_0, m.last().1->Number_0->0);
        let cs = convert_entries(p)->Done_0->Node_1;
        assert forall|i: int| 0 <= i < m.len() implies is_number_leaf(m[i].0, m[i].1, #[trigger] convert_entries(m)->Done_0->Node_1[i]) by {
            if i < p.len() {
                assert(p[i] == m[i]);
                assert(convert_entries(m)->Done_0->Node_1[i] == cs[i]);
            }
        }
    }
}

/// Once a prefix of the entries fails, the whole list fails the same way.
pub proof fn lemma_entries_stop(m: Seq<(YamlTree, YamlTree)>, i: int)
    requires
        0 <= i <= m.len(),
        !(convert_entries(m.subrange(0, i)) matches Conversion::Done(ItemTree::Node(_, _))),
    ensures
        convert_entries(m) == convert_entries(m.subrange(0, i)),
    decreases m.len() - i,
{
    if i < m.len() {
        let p = m.subrange(0, i + 1);
        assert(p.drop_last() =~= m.subrange(0, i));
        lemma_entries_stop(m, i + 1);
    } else {
        assert(m.subrange(0, i) =~= m);
    }
}

/// Why the item list could not be converted.
#[derive(Clone, Copy, Debug, PartialEq, Eq)]
pub enum ItemsError {
    /// The document is not a mapping.
    NotAMapping,
    /// An entry is neither a name with an id nor a name with a mapping.
    InvalidValue,
}

/// How converting an entry or a list of entries ended, with the nodes made.
enum Converted<T> {
    Done(T),
    Invalid,
    BadNumber,
}

/// Converts the entries of a mapping, stopping at the first that fails.
fn convert_pairs(m: &Vec<(YamlValue, YamlValue)>) -> (r: Converted<Vec<ItemIDNode>>)
    ensures
        match r {
            Converted::Done(ns) => convert_entries(yaml_pairs(m@)) == Conversion::Done(
                ItemTree::Node(Seq::empty(), crate::matching::trees(ns@))),
            Converted::Invalid => convert_entries(yaml_pairs(m@)) is Invalid,
            Converted::BadNumber => convert_entries(yaml_pairs(m@)) is BadNumber,
        },
    decreases m@, 1int,
{
    let mut out: Vec<ItemIDNode> = Vec::new();
    let mut i: usize = 0;
    assert(m@.subrange(0, 0) =~= Seq::<(YamlValue, YamlValue)>::empty());
    while i < m.len()
        invariant
            0 <= i <= m@.len(),
            convert_entries(yaml_pairs(m@.subrange(0, i as int))) == Conversion::Done(
                ItemTree::Node(Seq::empty(), crate::matching::trees(out@))),
        decreases m@.len() - i,
    {
        proof {
            let p = m@.subrange(0, i + 1);
            assert(p.drop_last() =~= m@.subrange(0, i as int));
            assert(yaml_pairs(p).drop_last() == yaml_pairs(m@.subrange(0, i as int)));
            assert(yaml_pairs(p).last() == (m@[i as int].0.tree(), m@[i as int].1.tree()));
            lemma_pairs_prefix(m@, i as int + 1);
            assert(decreases_to!(m@ => m@[i as int]));
        }
        let r = convert_entry_exec(&m[i].0, &m[i].1);
        match r {
            Converted::Done(n) => {
                let ghost before = out@;
                out.push(n);
                proof {
                    assert(out@.drop_last() =~= before);
                }
            },
            Converted::Invalid => {
                proof {
                    lemma_entries_stop(yaml_pairs(m@), i as int + 1);
                }
                return Converted::Invalid;
            },
            Converted::BadNumber => {
                proof {
                    lemma_entries_stop(yaml_pairs(m@), i as int + 1);
                }
                return Converted::BadNumber;
            },
        }
        i = i + 1;
    }
    proof {
        assert(m@.subrange(0, m@.len() as int) =~= m@);
    }
    Converted::Done(out)
}

/// Converts the entry `k: v`.
fn convert_entry_exec(k: &YamlValue, v: &YamlValue) -> (r: Converted<ItemIDNode>)
    ensures
        match r {
            Converted::Done(n) => convert_entry(k.tree(), v.tree()) == Conversion::Done(n.tree()),
            Converted::Invalid => convert_entry(k.tree(), v.tree()) is Invalid,
            Converted::BadNumber => convert_entry(k.tree(), v.tree()) is BadNumber,
        },
    decreases v, 2int,
{
    match k {
        YamlValue::String(s) => match v {
            YamlValue::Number(Some(n)) => {
                let n = *n;
                assert(n & 0xffff_ffff == n % 0x1_0000_0000) by (bit_vector);
                Converted::Done(ItemIDNode::Leaf { node: copy_string(s), value: (n & 0xffff_ffff) as u32 })
            },
            YamlValue::Number(None) => Converted::BadNumber,
            YamlValue::Mapping(m) => {
                proof {
                    assert(decreases_to!(v => v->Mapping_0));
                    assert(decreases_to!(v->Mapping_0 => v->Mapping_0@));
                }
                match convert_pairs(m) {
                    Converted::Done(children) => Converted::Done(ItemIDNode::Node { node: copy_string(s), children }),
                    Converted::Invalid => Converted::Invalid,
                    Converted::BadNumber => Converted::BadNumber,
                }
            },
            _ => Converted::Invalid,
        },
        _ => Converted::Invalid,
    }
}

/// The pairs of a prefix are the prefix of the pairs.
proof fn lemma_pairs_prefix(m: Seq<(YamlValue, YamlValue)>, i: int)
    requires
        0 <= i <= m.len(),
    ensures
        yaml_pairs(m.subrange(0, i)) == yaml_pairs(m).subrange(0, i),
        yaml_pairs(m).len() == m.len(),
    decreases m.len() - i,
{
    lemma_pairs_len(m);
    if i < m.len() {
        lemma_pairs_prefix(m, i + 1);
        let p = m.subrange(0, i + 1);
        assert(p.drop_last() =~= m.subrange(0, i));
        lemma_pairs_len(p);
        assert(yaml_pairs(p).drop_last() == yaml_pairs(m.subrange(0, i)));
        assert(yaml_pairs(m).subrange(0, i + 1).drop_last() =~= yaml_pairs(m).subrange(0, i));
    } else {
        assert(m.subrange(0, i) =~= m);
        assert(yaml_pairs(m).subrange(0, i) =~= yaml_pairs(m));
    }
}

proof fn lemma_pairs_len(m: Seq<(YamlValue, YamlValue)>)
    ensures
        yaml_pairs(m).len() == m.len(),
    decreases m.len(),
{
    if m.len() > 0 {
        lemma_pairs_len(m.drop_last());
    }
}

/// Converts the entry `k: v` to an item tree node. Fails for an entry that is
/// neither a name with an id nor a name with a mapping (the first failing
/// entry inside decides). A name with a number that holds no unsigned integer
/// is outside what the conversion accepts (see `reaches_bad_number`).
pub fn item_node_from_entry(k: &YamlValue, v: &YamlValue) -> (r: Result<ItemIDNode, ()>)
    requires
        !(convert_entry(k.tree(), v.tree()) is BadNumber),
    ensures
        match r {
            Ok(n) => convert_entry(k.tree(), v.tree()) == Conversion::Done(n.tree()),
            Err(()) => convert_entry(k.tree(), v.tree()) is Invalid,
        },
{
    match convert_entry_exec(k, v) {
        Converted::Done(n) => Ok(n),
        _ => Err(()),
    }
}

/// Whether converting the item list meets, before any invalid entry, a name
/// with a number that holds no unsigned integer.
pub fn reaches_bad_number(doc: &YamlValue) -> (r: bool)
    ensures
        r == (doc.tree() matches YamlTree::Mapping(m) && convert_entries(m) is BadNumber),
{
    match doc {
        YamlValue::Mapping(m) => match convert_pairs(m) {
            Converted::BadNumber => true,
            _ => false,
        },
        _ => false,
    }
}

/// Converts a whole item list: a mapping of entries, converted in order.
pub fn item_nodes_from_document(doc: &YamlValue) -> (r: Result<Vec<ItemIDNode>, ItemsError>)
    requires
        doc.tree() matches YamlTree::Mapping(m) ==> !(convert_entries(m) is BadNumber),
    ensures
        !(doc.tree() is Mapping) ==> r == Err::<Vec<ItemIDNode>, ItemsError>(ItemsError::NotAMapping),
        doc.tree() matches YamlTree::Mapping(m) ==> match r {
            Ok(ns) => convert_entries(m) == Conversion::Done(
                ItemTree::Node(Seq::empty(), crate::matching::trees(ns@))),
            Err(e) => e == ItemsError::InvalidValue && convert_entries(m) is Invalid,
        },
{
    match doc {
        YamlValue::Mapping(m) => match convert_pairs(m) {
            Converted::Done(ns) => Ok(ns),
            _ => Err(ItemsError::InvalidValue),
        },
        _ => Err(ItemsError::NotAMapping),
    }
}

} // verus!
