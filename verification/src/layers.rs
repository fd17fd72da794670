//! Configuration layers and their controlled-depth merge.
//!
//! A layer is what one configuration source (a TOML file, the environment, the command line)
//! contributes: a table from top-level keys to nodes. Layers are merged in priority order,
//! lowest first:
//! - top-level tables are unioned, each inner entry replaced atomically (no deeper merging);
//! - top-level lists are concatenated, lower-priority items first;
//! - anything else is replaced by the higher-priority layer.
//!
//! Before a layer is merged, the keys and string values of its `volumes` table are
//! tilde-expanded, so that `~/.ssh` and `/home/alice/.ssh` from different sources are the same
//! volume during priority resolution.
//!
//! Tables are held as sequences of `(key, value)` pairs in which a later pair for a key takes
//! precedence over an earlier one, exactly as successive insertions into a map would.

use vstd::prelude::*;
use crate::paths::{expand_tilde, spec_expand_tilde};
use crate::text::{chars_of, string_of};

verus! {

/// A second-level value: a string, a boolean, or any other value, which the merge never
/// inspects and which is referred to by an opaque handle.
#[derive(Debug)]
pub enum Leaf {
    /// A string.
    Text(String),
    /// A boolean.
    Flag(bool),
    /// Any other value (number, date, nested table or list), by handle.
    Opaque(u64),
}

/// The model of a [`Leaf`].
pub enum LeafModel {
    Text(Seq<char>),
    Flag(bool),
    Opaque(u64),
}

/// A top-level value: a table of leaves, a list of leaves, or a single leaf.
#[derive(Debug)]
pub enum Node {
    /// A table; later pairs for a key take precedence.
    Table(Vec<(String, Leaf)>),
    /// A list.
    List(Vec<Leaf>),
    /// Any single value.
    Scalar(Leaf),
}

/// The model of a [`Node`].
pub enum NodeModel {
    Table(Seq<(Seq<char>, LeafModel)>),
    List(Seq<LeafModel>),
    Scalar(LeafModel),
}

/// One configuration source's contribution: top-level keys and their nodes. Later pairs for a
/// key take precedence.
#[derive(Debug)]
pub struct Layer {
    pub entries: Vec<(String, Node)>,
}

/// Pair model of a table entry.
pub open spec fn leaf_entry_model(e: (String, Leaf)) -> (Seq<char>, LeafModel) {
    (e.0@, e.1.model())
}

/// Pair model of a layer entry.
pub open spec fn node_entry_model(e: (String, Node)) -> (Seq<char>, NodeModel) {
    (e.0@, e.1.model())
}

/// Model of a table.
pub open spec fn table_model(t: Seq<(String, Leaf)>) -> Seq<(Seq<char>, LeafModel)> {
    t.map_values(|e: (String, Leaf)| leaf_entry_model(e))
}

/// Model of a list.
pub open spec fn list_model(l: Seq<Leaf>) -> Seq<LeafModel> {
    l.map_values(|x: Leaf| x.model())
}

impl Leaf {
    pub open spec fn model(&self) -> LeafModel {
        match self {
            Leaf::Text(s) => LeafModel::Text(s@),
            Leaf::Flag(b) => LeafModel::Flag(*b),
            Leaf::Opaque(h) => LeafModel::Opaque(*h),
        }
    }

    /// A copy of this leaf.
    pub fn duplicate(&self) -> (res: Self)
        ensures
            res == *self,
    {
        match self {
            Leaf::Text(s) => Leaf::Text(s.clone()),
            Leaf::Flag(b) => Leaf::Flag(*b),
            Leaf::Opaque(h) => Leaf::Opaque(*h),
        }
    }
}

impl Node {
    pub open spec fn model(&self) -> NodeModel {
        match self {
            Node::Table(t) => NodeModel::Table(table_model(t@)),
            Node::List(l) => NodeModel::List(list_model(l@)),
            Node::Scalar(x) => NodeModel::Scalar(x.model()),
        }
    }
}

impl Layer {
    pub open spec fn model(&self) -> Seq<(Seq<char>, NodeModel)> {
        self.entries@.map_values(|e: (String, Node)| node_entry_model(e))
    }

    /// A layer with no entries.
    pub fn empty() -> (res: Layer)
        ensures
            res.model() == Seq::<(Seq<char>, NodeModel)>::empty(),
    {
        let res = Layer { entries: Vec::new() };
        assert(res.model() =~= Seq::<(Seq<char>, NodeModel)>::empty());
        res
    }
}

/// The value of `k` in a pair sequence: that of the last pair with key `k`.
pub open spec fn lookup<V>(s: Seq<(Seq<char>, V)>, k: Seq<char>) -> Option<V>
    decreases s.len(),
{
    if s.len() == 0 {
        None
    } else if s.last().0 == k {
        Some(s.last().1)
    } else {
        lookup(s.drop_last(), k)
    }
}

/// The node that results from merging `incoming` over what a lower-priority layer left at the
/// same key: two tables are unioned, two lists concatenated, anything else replaced.
pub open spec fn combine(prev: Option<NodeModel>, incoming: NodeModel) -> NodeModel {
    match (prev, incoming) {
        (Some(NodeModel::Table(b)), NodeModel::Table(i)) => NodeModel::Table(b + i),
        (Some(NodeModel::List(b)), NodeModel::List(i)) => NodeModel::List(b + i),
        (_, other) => other,
    }
}

/// `base` with the pairs of `incoming` merged in, one after the other.
pub open spec fn merge_entries(
    base: Seq<(Seq<char>, NodeModel)>,
    incoming: Seq<(Seq<char>, NodeModel)>,
) -> Seq<(Seq<char>, NodeModel)>
    decreases incoming.len(),
{
    if incoming.len() == 0 {
        base
    } else {
        let merged = merge_entries(base, incoming.drop_last());
        let (k, v) = incoming.last();
        merged.push((k, combine(lookup(merged, k), v)))
    }
}

/// The key `volumes`.
pub open spec fn volumes_key() -> Seq<char> {
    seq!['v', 'o', 'l', 'u', 'm', 'e', 's']
}

/// A volume pair with its key and string value tilde-expanded.
pub open spec fn expand_volume_pair(e: (Seq<char>, LeafModel), home: Seq<char>) -> (Seq<char>, LeafModel) {
    (
        spec_expand_tilde(e.0, home),
        match e.1 {
            LeafModel::Text(s) => LeafModel::Text(spec_expand_tilde(s, home)),
            other => other,
        },
    )
}

/// The pairs of `s` whose key is not `k`, in order.
pub open spec fn without_key<V>(s: Seq<(Seq<char>, V)>, k: Seq<char>) -> Seq<(Seq<char>, V)>
    decreases s.len(),
{
    if s.len() == 0 {
        s
    } else if s.last().0 == k {
        without_key(s.drop_last(), k)
    } else {
        without_key(s.drop_last(), k).push(s.last())
    }
}

/// A layer with its `volumes` table tilde-expanded. A `volumes` value that is not a table is
/// dropped from the layer.
pub open spec fn expand_layer_volumes(layer: Seq<(Seq<char>, NodeModel)>, home: Seq<char>) -> Seq<(Seq<char>, NodeModel)> {
    let rest = without_key(layer, volumes_key());
    match lookup(layer, volumes_key()) {
        Some(NodeModel::Table(t)) => rest.push(
            (volumes_key(), NodeModel::Table(t.map_values(|e: (Seq<char>, LeafModel)| expand_volume_pair(e, home)))),
        ),
        _ => rest,
    }
}

/// All layers merged in order (lowest priority first), each tilde-expanded beforehand.
pub open spec fn merged_layers(layers: Seq<Seq<(Seq<char>, NodeModel)>>, home: Seq<char>) -> Seq<(Seq<char>, NodeModel)>
    decreases layers.len(),
{
    if layers.len() == 0 {
        Seq::empty()
    } else {
        merge_entries(merged_layers(layers.drop_last(), home), expand_layer_volumes(layers.last(), home))
    }
}

/// The index of the last pair in `s` whose key is `k`.
fn find_last(s: &Vec<(String, Node)>, k: &str) -> (res: Option<usize>)
    ensures
        match res {
            Some(i) => i < s@.len() && s@[i as int].0@ == k@ && forall|j: int|
                i < j < s@.len() ==> #[trigger] s@[j].0@ != k@,
            None => forall|j: int| 0 <= j < s@.len() ==> #[trigger] s@[j].0@ != k@,
        },
{
    let kc = chars_of(k);
    let mut i: usize = s.len();
    while i > 0
        invariant
            i <= s@.len(),
            kc@ == k@,
            forall|j: int| i <= j < s@.len() ==> #[trigger] s@[j].0@ != k@,
        decreases i,
    {
        let cand = chars_of(s[i - 1].0.as_str());
        if chars_equal(&cand, &kc) {
            return Some(i - 1);
        }
        i = i - 1;
    }
    None
}

/// Whether two character vectors are equal.
pub fn chars_equal(a: &Vec<char>, b: &Vec<char>) -> (res: bool)
    ensures
        res == (a@ == b@),
{
    if a.len() != b.len() {
        return false;
    }
    let mut i: usize = 0;
    while i < a.len()
        invariant
            i <= a.len(),
            a.len() == b.len(),
            forall|j: int| 0 <= j < i ==> a@[j] == b@[j],
        decreases a.len() - i,
    {
        if a[i] != b[i] {
            return false;
        }
        i = i + 1;
    }
    assert(a@ =~= b@);
    true
}

/// What `lookup` yields when the last pair with key `k` is at index `i`.
proof fn lemma_lookup_at<V>(s: Seq<(Seq<char>, V)>, k: Seq<char>, i: int)
    requires
        0 <= i < s.len(),
        s[i].0 == k,
        forall|j: int| i < j < s.len() ==> #[trigger] s[j].0 != k,
    ensures
        lookup(s, k) == Some(s[i].1),
    decreases s.len(),
{
    if i != s.len() - 1 {
        lemma_lookup_at(s.drop_last(), k, i);
    }
}

/// `lookup` yields nothing when no pair has key `k`.
proof fn lemma_lookup_absent<V>(s: Seq<(Seq<char>, V)>, k: Seq<char>)
    requires
        forall|j: int| 0 <= j < s.len() ==> #[trigger] s[j].0 != k,
    ensures
        lookup(s, k) is None,
    decreases s.len(),
{
    if s.len() > 0 {
        lemma_lookup_absent(s.drop_last(), k);
    }
}

/// A copy of a table.
fn copy_table(t: &Vec<(String, Leaf)>) -> (res: Vec<(String, Leaf)>)
    ensures
        res@ == t@,
{
    let mut res: Vec<(String, Leaf)> = Vec::new();
    let mut i: usize = 0;
    while i < t.len()
        invariant
            i <= t.len(),
            res@ == t@.take(i as int),
        decreases t.len() - i,
    {
        let k = t[i].0.clone();
        let v = t[i].1.duplicate();
        res.push((k, v));
        assert(t@.take(i + 1) =~= t@.take(i as int).push(t@[i as int]));
        i = i + 1;
    }
    assert(t@.take(t.len() as int) =~= t@);
    res
}

/// A copy of a list.
fn copy_list(l: &Vec<Leaf>) -> (res: Vec<Leaf>)
    ensures
        res@ == l@,
{
    let mut res: Vec<Leaf> = Vec::new();
    let mut i: usize = 0;
    while i < l.len()
        invariant
            i <= l.len(),
            res@ == l@.take(i as int),
        decreases l.len() - i,
    {
        res.push(l[i].duplicate());
        assert(l@.take(i + 1) =~= l@.take(i as int).push(l@[i as int]));
        i = i + 1;
    }
    assert(l@.take(l.len() as int) =~= l@);
    res
}

/// The node to store for `incoming` given the node `prev` found at the same key.
fn combine_nodes(prev: Option<&Node>, incoming: Node) -> (res: Node)
    ensures
        res.model() == combine(
            match prev {
                Some(p) => Some(p.model()),
                None => None,
            },
            incoming.model(),
        ),
{
    match (prev, incoming) {
        (Some(Node::Table(b)), Node::Table(i)) => {
            let mut merged = copy_table(b);
            let mut rest = i;
            let ghost bm = b@;
            let ghost im = rest@;
            merged.append(&mut rest);
            assert(table_model(merged@) =~= table_model(bm) + table_model(im));
            Node::Table(merged)
        },
        (Some(Node::List(b)), Node::List(i)) => {
            let mut merged = copy_list(b);
            let mut rest = i;
            let ghost bm = b@;
            let ghost im = rest@;
            merged.append(&mut rest);
            assert(list_model(merged@) =~= list_model(bm) + list_model(im));
            Node::List(merged)
        },
        (_, other) => other,
    }
}

/// Merge `incoming` into `base`: for each pair of `incoming`, in order, two tables are unioned
/// (inner entries replaced atomically), two lists are concatenated (`base` first), and anything
/// else is replaced.
pub fn merge_dicts(base: &mut Layer, incoming: Layer)
    ensures
        final(base).model() == merge_entries(old(base).model(), incoming.model()),
{
    let ghost inc = incoming.model();
    let ghost start = base.model();
    let ghost raw = incoming.entries@;
    proof {
        assert(inc.take(0) =~= Seq::<(Seq<char>, NodeModel)>::empty());
    }
    for pair in it: incoming.entries.into_iter()
        invariant
            it.seq() == raw,
            inc == raw.map_values(|e: (String, Node)| node_entry_model(e)),
            base.model() == merge_entries(start, inc.take(it.index() as int)),
    {
        let ghost i = it.index();
        let ghost before = base.model();
        let (k, node) = pair;
        let idx = find_last(&base.entries, k.as_str());
        proof {
            match idx {
                Some(j) => {
                    assert forall|m: int| j < m < before.len() implies #[trigger] before[m].0 != k@ by {
                        assert(base.entries@[m].0@ != k@);
                    }
                    lemma_lookup_at(before, k@, j as int);
                },
                None => {
                    assert forall|m: int| 0 <= m < before.len() implies #[trigger] before[m].0 != k@ by {
                        assert(base.entries@[m].0@ != k@);
                    }
                    lemma_lookup_absent(before, k@);
                },
            }
        }
        let prev: Option<&Node> = match idx {
            Some(j) => Some(&base.entries[j].1),
            None => None,
        };
        let combined = combine_nodes(prev, node);
        base.entries.push((k, combined));
        proof {
            assert(inc.take(i + 1).drop_last() =~= inc.take(i));
            assert(inc.take(i + 1).last() == (k@, node.model()));
            assert(base.model() =~= before.push((k@, combined.model())));
        }
    }
    assert(inc.take(raw.len() as int) =~= inc);
}

/// The characters of the key `volumes`.
pub fn volumes_key_chars() -> (res: Vec<char>)
    ensures
        res@ == volumes_key(),
{
    let res = vec!['v', 'o', 'l', 'u', 'm', 'e', 's'];
    assert(res@ =~= volumes_key());
    res
}

/// A volumes table with every key and every string value tilde-expanded.
fn expand_table(t: &Vec<(String, Leaf)>, home_dir: &str) -> (res: Vec<(String, Leaf)>)
    ensures
        table_model(res@) == table_model(t@).map_values(
            |e: (Seq<char>, LeafModel)| expand_volume_pair(e, home_dir@),
        ),
{
    let mut res: Vec<(String, Leaf)> = Vec::new();
    let mut i: usize = 0;
    while i < t.len()
        invariant
            i <= t.len(),
            table_model(res@) == table_model(t@.take(i as int)).map_values(
                |e: (Seq<char>, LeafModel)| expand_volume_pair(e, home_dir@),
            ),
        decreases t.len() - i,
    {
        let key = expand_tilde(t[i].0.as_str(), home_dir);
        let value = match &t[i].1 {
            Leaf::Text(s) => Leaf::Text(expand_tilde(s.as_str(), home_dir)),
            other => other.duplicate(),
        };
        let ghost before = res@;
        res.push((key, value));
        proof {
            let f = |e: (Seq<char>, LeafModel)| expand_volume_pair(e, home_dir@);
            assert(table_model(t@.take(i + 1)) =~= table_model(t@.take(i as int)).push(
                leaf_entry_model(t@[i as int]),
            ));
            assert(table_model(res@) =~= table_model(before).push(leaf_entry_model((key, value))));
            assert(table_model(t@.take(i + 1)).map_values(f) =~= table_model(
                t@.take(i as int),
            ).map_values(f).push(f(leaf_entry_model(t@[i as int]))));
        }
        i = i + 1;
    }
    assert(t@.take(t.len() as int) =~= t@);
    res
}

/// Expand a leading `~` in every key and string value of the layer's `volumes` table, so that
/// priority resolution works on expanded paths. A `volumes` value that is not a table is
/// dropped from the layer.
pub fn expand_tildes_in_volumes(layer: Layer, home_dir: &str) -> (res: Layer)
    ensures
        res.model() == expand_layer_volumes(layer.model(), home_dir@),
{
    let ghost lm = layer.model();
    let vk = volumes_key_chars();
    let vks = string_of(vk.as_slice());
    let idx = find_last(&layer.entries, vks.as_str());
    proof {
        match idx {
            Some(j) => {
                assert forall|m: int| j < m < lm.len() implies #[trigger] lm[m].0 != volumes_key() by {
                    assert(layer.entries@[m].0@ != vks@);
                }
                lemma_lookup_at(lm, volumes_key(), j as int);
            },
            None => {
                assert forall|m: int| 0 <= m < lm.len() implies #[trigger] lm[m].0 != volumes_key() by {
                    assert(layer.entries@[m].0@ != vks@);
                }
                lemma_lookup_absent(lm, volumes_key());
            },
        }
    }
    let expanded: Option<Vec<(String, Leaf)>> = match idx {
        Some(j) => match &layer.entries[j].1 {
            Node::Table(t) => Some(expand_table(t, home_dir)),
            _ => None,
        },
        None => None,
    };
    let ghost raw = layer.entries@;
    let mut rest: Vec<(String, Node)> = Vec::new();
    proof {
        assert(lm.take(0) =~= Seq::<(Seq<char>, NodeModel)>::empty());
        assert(rest@.map_values(|e: (String, Node)| node_entry_model(e)) =~= Seq::<
            (Seq<char>, NodeModel),
        >::empty());
    }
    for pair in it: layer.entries.into_iter()
        invariant
            it.seq() == raw,
            lm == raw.map_values(|e: (String, Node)| node_entry_model(e)),
            vk@ == volumes_key(),
            rest@.map_values(|e: (String, Node)| node_entry_model(e)) == without_key(
                lm.take(it.index() as int),
                volumes_key(),
            ),
    {
        let ghost i = it.index();
        let ghost before = rest@;
        let kc = chars_of(pair.0.as_str());
        let is_volumes = chars_equal(&kc, &vk);
        proof {
            assert(lm.take(i + 1).drop_last() =~= lm.take(i));
            assert(lm.take(i + 1).last() == node_entry_model(pair));
        }
        if !is_volumes {
            rest.push(pair);
            assert(rest@.map_values(|e: (String, Node)| node_entry_model(e)) =~= before.map_values(
                |e: (String, Node)| node_entry_model(e),
            ).push(node_entry_model(pair)));
        }
    }
    assert(lm.take(raw.len() as int) =~= lm);
    match expanded {
        Some(t) => {
            let ghost before = rest@;
            rest.push((vks, Node::Table(t)));
            assert(rest@.map_values(|e: (String, Node)| node_entry_model(e)) =~= before.map_values(
                |e: (String, Node)| node_entry_model(e),
            ).push(node_entry_model((vks, Node::Table(t)))));
        },
        None => {},
    }
    Layer { entries: rest }
}

/// Merge layers given in priority order (lowest first) into one, tilde-expanding the volumes of
/// each layer before it is merged.
pub fn merge_layers(layers: Vec<Layer>, home_dir: &str) -> (res: Layer)
    ensures
        res.model() == merged_layers(layers@.map_values(|l: Layer| l.model()), home_dir@),
{
    let ghost raw = layers@;
    let ghost lms = layers@.map_values(|l: Layer| l.model());
    let mut merged = Layer::empty();
    proof {
        assert(lms.take(0) =~= Seq::<Seq<(Seq<char>, NodeModel)>>::empty());
    }
    for layer in it: layers.into_iter()
        invariant
            it.seq() == raw,
            lms == raw.map_values(|l: Layer| l.model()),
            merged.model() == merged_layers(lms.take(it.index() as int), home_dir@),
    {
        let ghost i = it.index();
        proof {
            assert(lms.take(i + 1).drop_last() =~= lms.take(i));
            assert(lms.take(i + 1).last() == layer.model());
        }
        let expanded = expand_tildes_in_volumes(layer, home_dir);
        merge_dicts(&mut merged, expanded);
    }
    assert(lms.take(raw.len() as int) =~= lms);
    merged
}

/// The values that the pairs of `s` give the key `k`, in order.
pub open spec fn values_of<V>(s: Seq<(Seq<char>, V)>, k: Seq<char>) -> Seq<V>
    decreases s.len(),
{
    if s.len() == 0 {
        Seq::empty()
    } else if s.last().0 == k {
        values_of(s.drop_last(), k).push(s.last().1)
    } else {
        values_of(s.drop_last(), k)
    }
}

/// The values that the layers give the key `k` after tilde expansion, lowest priority first.
pub open spec fn all_values(layers: Seq<Seq<(Seq<char>, NodeModel)>>, home: Seq<char>, k: Seq<char>) -> Seq<NodeModel>
    decreases layers.len(),
{
    if layers.len() == 0 {
        Seq::empty()
    } else {
        all_values(layers.drop_last(), home, k) + values_of(expand_layer_volumes(layers.last(), home), k)
    }
}

/// `combine` applied to the values `vs` in order, starting from `prev`.
pub open spec fn fold_combine(prev: Option<NodeModel>, vs: Seq<NodeModel>) -> Option<NodeModel>
    decreases vs.len(),
{
    if vs.len() == 0 {
        prev
    } else {
        Some(combine(fold_combine(prev, vs.drop_last()), vs.last()))
    }
}

/// The items of the lists `vs`, concatenated in order.
pub open spec fn flatten_lists(vs: Seq<NodeModel>) -> Seq<LeafModel>
    decreases vs.len(),
{
    if vs.len() == 0 {
        Seq::empty()
    } else {
        flatten_lists(vs.drop_last()) + match vs.last() {
            NodeModel::List(l) => l,
            _ => Seq::empty(),
        }
    }
}

/// The pairs of the tables `vs`, concatenated in order.
pub open spec fn flatten_tables(vs: Seq<NodeModel>) -> Seq<(Seq<char>, LeafModel)>
    decreases vs.len(),
{
    if vs.len() == 0 {
        Seq::empty()
    } else {
        flatten_tables(vs.drop_last()) + match vs.last() {
            NodeModel::Table(t) => t,
            _ => Seq::empty(),
        }
    }
}

/// The value of the inner key `j` in the last of the tables `vs` that holds it.
pub open spec fn last_inner(vs: Seq<NodeModel>, j: Seq<char>) -> Option<LeafModel>
    decreases vs.len(),
{
    if vs.len() == 0 {
        None
    } else {
        match vs.last() {
            NodeModel::Table(t) => match lookup(t, j) {
                Some(x) => Some(x),
                None => last_inner(vs.drop_last(), j),
            },
            _ => last_inner(vs.drop_last(), j),
        }
    }
}

proof fn lemma_lookup_merge_entries(base: Seq<(Seq<char>, NodeModel)>, inc: Seq<(Seq<char>, NodeModel)>, k: Seq<char>)
    ensures
        lookup(merge_entries(base, inc), k) == fold_combine(lookup(base, k), values_of(inc, k)),
    decreases inc.len(),
{
    if inc.len() > 0 {
        lemma_lookup_merge_entries(base, inc.drop_last(), k);
        let vs = values_of(inc.drop_last(), k);
        let m = merge_entries(base, inc.drop_last());
        let p = inc.last();
        let x = (p.0, combine(lookup(m, p.0), p.1));
        assert(merge_entries(base, inc) == m.push(x));
        assert(m.push(x).drop_last() =~= m);
        if p.0 == k {
            assert(vs.push(p.1).drop_last() =~= vs);
        }
    }
}

proof fn lemma_fold_combine_append(prev: Option<NodeModel>, a: Seq<NodeModel>, b: Seq<NodeModel>)
    ensures
        fold_combine(prev, a + b) == fold_combine(fold_combine(prev, a), b),
    decreases b.len(),
{
    if b.len() == 0 {
        assert(a + b =~= a);
    } else {
        assert((a + b).drop_last() =~= a + b.drop_last());
        lemma_fold_combine_append(prev, a, b.drop_last());
    }
}

proof fn lemma_lookup_values_of<V>(s: Seq<(Seq<char>, V)>, k: Seq<char>)
    ensures
        lookup(s, k) is None <==> values_of(s, k).len() == 0,
        lookup(s, k) matches Some(v) ==> values_of(s, k).len() > 0 && values_of(s, k).last() == v,
    decreases s.len(),
{
    if s.len() > 0 {
        lemma_lookup_values_of(s.drop_last(), k);
    }
}

pub(crate) proof fn lemma_lookup_concat<V>(a: Seq<(Seq<char>, V)>, b: Seq<(Seq<char>, V)>, k: Seq<char>)
    ensures
        lookup(a + b, k) == match lookup(b, k) {
            Some(x) => Some(x),
            None => lookup(a, k),
        },
    decreases b.len(),
{
    if b.len() == 0 {
        assert(a + b =~= a);
    } else {
        assert((a + b).drop_last() =~= a + b.drop_last());
        lemma_lookup_concat(a, b.drop_last(), k);
    }
}

/// The merge acts key by key: the merged value of a key is what `combine` makes of the values
/// that the (tilde-expanded) layers give it, taken in priority order.
pub proof fn law_merge_is_keywise(layers: Seq<Seq<(Seq<char>, NodeModel)>>, home: Seq<char>, k: Seq<char>)
    ensures
        lookup(merged_layers(layers, home), k) == fold_combine(None, all_values(layers, home, k)),
    decreases layers.len(),
{
    if layers.len() > 0 {
        law_merge_is_keywise(layers.drop_last(), home, k);
        let m = merged_layers(layers.drop_last(), home);
        let e = expand_layer_volumes(layers.last(), home);
        lemma_lookup_merge_entries(m, e, k);
        lemma_fold_combine_append(None, all_values(layers.drop_last(), home, k), values_of(e, k));
    }
}

/// A key that no layer holds is absent from the merge.
pub proof fn law_absent_key_stays_absent(layers: Seq<Seq<(Seq<char>, NodeModel)>>, home: Seq<char>, k: Seq<char>)
    requires
        forall|i: int| 0 <= i < layers.len() ==> #[trigger] lookup(expand_layer_volumes(layers[i], home), k) is None,
    ensures
        lookup(merged_layers(layers, home), k) is None,
    decreases layers.len(),
{
    if layers.len() > 0 {
        let init = layers.drop_last();
        assert forall|i: int| 0 <= i < init.len() implies #[trigger] lookup(expand_layer_volumes(init[i], home), k) is None by {
            assert(init[i] == layers[i]);
        }
        law_absent_key_stays_absent(init, home, k);
        let m = merged_layers(init, home);
        let e = expand_layer_volumes(layers.last(), home);
        assert(lookup(e, k) is None);
        lemma_lookup_values_of(e, k);
        lemma_lookup_merge_entries(m, e, k);
    }
}

proof fn lemma_lookup_without_key<V>(s: Seq<(Seq<char>, V)>, v: Seq<char>, k: Seq<char>)
    ensures
        lookup(without_key(s, v), k) == if k == v {
            None
        } else {
            lookup(s, k)
        },
    decreases s.len(),
{
    if s.len() > 0 {
        lemma_lookup_without_key(s.drop_last(), v, k);
        if s.last().0 != v {
            let w = without_key(s.drop_last(), v);
            assert(w.push(s.last()).drop_last() =~= w);
        }
    }
}

/// Tilde expansion adds no key to a layer.
proof fn lemma_expand_adds_no_key(layer: Seq<(Seq<char>, NodeModel)>, home: Seq<char>, k: Seq<char>)
    requires
        lookup(layer, k) is None,
    ensures
        lookup(expand_layer_volumes(layer, home), k) is None,
{
    let rest = without_key(layer, volumes_key());
    lemma_lookup_without_key(layer, volumes_key(), k);
    match lookup(layer, volumes_key()) {
        Some(NodeModel::Table(t)) => {
            let e = (
                volumes_key(),
                NodeModel::Table(t.map_values(|e: (Seq<char>, LeafModel)| expand_volume_pair(e, home))),
            );
            assert(rest.push(e).drop_last() =~= rest);
        },
        _ => {},
    }
}

/// A layer that does not hold a key leaves the merged value of that key as the layers below it
/// made it: a source that is silent about a setting never overrides it.
pub proof fn law_layer_without_key_changes_nothing(
    layers: Seq<Seq<(Seq<char>, NodeModel)>>,
    top: Seq<(Seq<char>, NodeModel)>,
    home: Seq<char>,
    k: Seq<char>,
)
    requires
        lookup(top, k) is None,
    ensures
        lookup(merged_layers(layers.push(top), home), k) == lookup(merged_layers(layers, home), k),
{
    let all = layers.push(top);
    assert(all.drop_last() =~= layers);
    let e = expand_layer_volumes(top, home);
    lemma_expand_adds_no_key(top, home, k);
    lemma_lookup_values_of(e, k);
    lemma_lookup_merge_entries(merged_layers(layers, home), e, k);
}

/// Tilde expansion leaves every key other than `volumes` as it was.
proof fn lemma_expand_keeps_other_keys(layer: Seq<(Seq<char>, NodeModel)>, home: Seq<char>, k: Seq<char>)
    requires
        k != volumes_key(),
    ensures
        lookup(expand_layer_volumes(layer, home), k) == lookup(layer, k),
{
    let rest = without_key(layer, volumes_key());
    lemma_lookup_without_key(layer, volumes_key(), k);
    match lookup(layer, volumes_key()) {
        Some(NodeModel::Table(t)) => {
            let e = (
                volumes_key(),
                NodeModel::Table(t.map_values(|e: (Seq<char>, LeafModel)| expand_volume_pair(e, home))),
            );
            assert(rest.push(e).drop_last() =~= rest);
        },
        _ => {},
    }
}

/// A value that is neither a table nor a list, given by the highest-priority layer, is the
/// merged value (for any key but `volumes`, whose table tilde expansion rewrites).
pub proof fn law_top_layer_scalar_wins(
    layers: Seq<Seq<(Seq<char>, NodeModel)>>,
    top: Seq<(Seq<char>, NodeModel)>,
    home: Seq<char>,
    k: Seq<char>,
    v: NodeModel,
)
    requires
        k != volumes_key(),
        lookup(top, k) == Some(v),
        !(v is Table),
        !(v is List),
    ensures
        lookup(merged_layers(layers.push(top), home), k) == Some(v),
{
    let all = layers.push(top);
    assert(all[layers.len() as int] == top);
    lemma_expand_keeps_other_keys(top, home, k);
    law_highest_priority_scalar_wins(all, home, k, layers.len() as int, v);
}

proof fn lemma_fold_last_replaces(prev: Option<NodeModel>, vs: Seq<NodeModel>)
    requires
        vs.len() > 0,
        !(vs.last() is Table),
        !(vs.last() is List),
    ensures
        fold_combine(prev, vs) == Some(vs.last()),
{
}

/// A value that is neither a table nor a list, given by the highest-priority layer that holds
/// the key, is the merged value: higher-priority sources override lower-priority ones.
pub proof fn law_highest_priority_scalar_wins(
    layers: Seq<Seq<(Seq<char>, NodeModel)>>,
    home: Seq<char>,
    k: Seq<char>,
    i: int,
    v: NodeModel,
)
    requires
        0 <= i < layers.len(),
        lookup(expand_layer_volumes(layers[i], home), k) == Some(v),
        !(v is Table),
        !(v is List),
        forall|j: int| i < j < layers.len() ==> #[trigger] lookup(expand_layer_volumes(layers[j], home), k) is None,
    ensures
        lookup(merged_layers(layers, home), k) == Some(v),
    decreases layers.len(),
{
    let e = expand_layer_volumes(layers.last(), home);
    let m = merged_layers(layers.drop_last(), home);
    lemma_lookup_merge_entries(m, e, k);
    lemma_lookup_values_of(e, k);
    if i == layers.len() - 1 {
        lemma_fold_last_replaces(lookup(m, k), values_of(e, k));
    } else {
        let init = layers.drop_last();
        assert(init[i] == layers[i]);
        assert forall|j: int| i < j < init.len() implies #[trigger] lookup(expand_layer_volumes(init[j], home), k) is None by {
            assert(init[j] == layers[j]);
        }
        law_highest_priority_scalar_wins(init, home, k, i, v);
        assert(lookup(e, k) is None);
    }
}

proof fn lemma_fold_lists(vs: Seq<NodeModel>)
    requires
        vs.len() > 0,
        forall|i: int| 0 <= i < vs.len() ==> #[trigger] vs[i] is List,
    ensures
        fold_combine(None, vs) == Some(NodeModel::List(flatten_lists(vs))),
    decreases vs.len(),
{
    let init = vs.drop_last();
    assert(vs[vs.len() - 1] is List);
    let l = match vs.last() {
        NodeModel::List(l) => l,
        _ => Seq::<LeafModel>::empty(),
    };
    assert(vs.last() == NodeModel::List(l));
    if init.len() > 0 {
        assert forall|i: int| 0 <= i < init.len() implies #[trigger] init[i] is List by {
            assert(init[i] == vs[i]);
        }
        lemma_fold_lists(init);
    } else {
        assert(fold_combine(None, init) == None::<NodeModel>);
        assert(flatten_lists(init) + l =~= l);
    }
    assert(fold_combine(None, vs) == Some(combine(fold_combine(None, init), NodeModel::List(l))));
    assert(flatten_lists(vs) == flatten_lists(init) + l);
}

/// When every value that the layers give a key is a list, the merged value is the
/// concatenation of those lists, lower-priority items first.
pub proof fn law_lists_accumulate(layers: Seq<Seq<(Seq<char>, NodeModel)>>, home: Seq<char>, k: Seq<char>)
    requires
        all_values(layers, home, k).len() > 0,
        forall|i: int| 0 <= i < all_values(layers, home, k).len() ==> #[trigger] all_values(layers, home, k)[i] is List,
    ensures
        lookup(merged_layers(layers, home), k) == Some(NodeModel::List(flatten_lists(all_values(layers, home, k)))),
{
    law_merge_is_keywise(layers, home, k);
    lemma_fold_lists(all_values(layers, home, k));
}

proof fn lemma_fold_tables(vs: Seq<NodeModel>)
    requires
        vs.len() > 0,
        forall|i: int| 0 <= i < vs.len() ==> #[trigger] vs[i] is Table,
    ensures
        fold_combine(None, vs) == Some(NodeModel::Table(flatten_tables(vs))),
    decreases vs.len(),
{
    let init = vs.drop_last();
    assert(vs[vs.len() - 1] is Table);
    let l = match vs.last() {
        NodeModel::Table(l) => l,
        _ => Seq::<(Seq<char>, LeafModel)>::empty(),
    };
    assert(vs.last() == NodeModel::Table(l));
    if init.len() > 0 {
        assert forall|i: int| 0 <= i < init.len() implies #[trigger] init[i] is Table by {
            assert(init[i] == vs[i]);
        }
        lemma_fold_tables(init);
    } else {
        assert(fold_combine(None, init) == None::<NodeModel>);
        assert(flatten_tables(init) + l =~= l);
    }
    assert(fold_combine(None, vs) == Some(combine(fold_combine(None, init), NodeModel::Table(l))));
    assert(flatten_tables(vs) == flatten_tables(init) + l);
}

proof fn lemma_flatten_tables_lookup(vs: Seq<NodeModel>, j: Seq<char>)
    ensures
        lookup(flatten_tables(vs), j) == last_inner(vs, j),
    decreases vs.len(),
{
    if vs.len() > 0 {
        lemma_flatten_tables_lookup(vs.drop_last(), j);
        match vs.last() {
            NodeModel::Table(t) => {
                lemma_lookup_concat(flatten_tables(vs.drop_last()), t, j);
            },
            _ => {
                lemma_lookup_concat(
                    flatten_tables(vs.drop_last()),
                    Seq::<(Seq<char>, LeafModel)>::empty(),
                    j,
                );
            },
        }
    }
}

/// When every value that the layers give a key is a table, the merged value is a table that
/// holds, for each inner key, the entry of the highest-priority table that has it: tables are
/// unioned and inner entries replaced atomically.
pub proof fn law_tables_union(layers: Seq<Seq<(Seq<char>, NodeModel)>>, home: Seq<char>, k: Seq<char>)
    requires
        all_values(layers, home, k).len() > 0,
        forall|i: int| 0 <= i < all_values(layers, home, k).len() ==> #[trigger] all_values(layers, home, k)[i] is Table,
    ensures
        lookup(merged_layers(layers, home), k) == Some(NodeModel::Table(flatten_tables(all_values(layers, home, k)))),
        forall|j: Seq<char>| #[trigger] lookup(flatten_tables(all_values(layers, home, k)), j)
            == last_inner(all_values(layers, home, k), j),
{
    law_merge_is_keywise(layers, home, k);
    lemma_fold_tables(all_values(layers, home, k));
    assert forall|j: Seq<char>| #[trigger] lookup(flatten_tables(all_values(layers, home, k)), j)
        == last_inner(all_values(layers, home, k), j) by {
        lemma_flatten_tables_lookup(all_values(layers, home, k), j);
    }
}

} // verus!
