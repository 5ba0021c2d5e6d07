//! The node tree: the in-memory form of a parsed hardware description.
//!
//! Nodes live in an arena (`Tree.nodes`) in declaration order, so a parent
//! always has a smaller index than each of its children.  A node carries its
//! positional `path` segment, an optional `name` (required only for nodes
//! that produce a referenced handle), its attributes, and the tree links.

use vstd::prelude::*;
use vstd::string::StringExecFns;

verus! {

/// A typed attribute value: integer, string, boolean, or a reference to
/// another node by name (`&name` in the surface syntax).
pub enum AttrValue {
    Int(u32),
    Str(String),
    Bool(bool),
    Ref(String),
}

/// One entry of the description tree.
pub struct Node {
    /// Positional segment within the parent (`@1`, `PortA`, `clock`, ...).
    pub path: String,
    /// Optional identifier; required for nodes that produce a named handle.
    pub name: Option<String>,
    /// Attribute list; keys are unique per node.
    pub attrs: Vec<(String, AttrValue)>,
    /// Owning node, absent for a root.  Always a smaller arena index.
    pub parent: Option<usize>,
    /// Owned children, in declaration order.
    pub children: Vec<usize>,
}

/// A forest of description nodes, held in an arena in declaration order.
pub struct Tree {
    pub nodes: Vec<Node>,
}

/// First value bound to `key` in an attribute list, if any.
pub open spec fn spec_find_attr(attrs: Seq<(String, AttrValue)>, key: Seq<char>) -> Option<AttrValue>
    decreases attrs.len(),
{
    if attrs.len() == 0 {
        None
    } else if attrs[0].0@ == key {
        Some(attrs[0].1)
    } else {
        spec_find_attr(attrs.skip(1), key)
    }
}

/// If the first `i` entries do not bind `key` and entry `i` does, the search
/// returns entry `i`.
pub proof fn lemma_find_attr_hit(attrs: Seq<(String, AttrValue)>, key: Seq<char>, i: int)
    requires
        0 <= i < attrs.len(),
        forall|k: int| 0 <= k < i ==> attrs[k].0@ != key,
        attrs[i].0@ == key,
    ensures
        spec_find_attr(attrs, key) == Some(attrs[i].1),
    decreases i,
{
    if i > 0 {
        lemma_find_attr_hit(attrs.skip(1), key, i - 1);
    }
}

/// If no entry binds `key`, the search misses.
pub proof fn lemma_find_attr_miss(attrs: Seq<(String, AttrValue)>, key: Seq<char>)
    requires
        forall|k: int| 0 <= k < attrs.len() ==> attrs[k].0@ != key,
    ensures
        spec_find_attr(attrs, key) is None,
    decreases attrs.len(),
{
    if attrs.len() > 0 {
        lemma_find_attr_miss(attrs.skip(1), key);
    }
}

impl Tree {
    /// Number of nodes in the arena.
    pub open spec fn node_count(self) -> int {
        self.nodes@.len() as int
    }

    pub open spec fn valid(self, i: int) -> bool {
        0 <= i < self.node_count()
    }

    /// Children of `i` point at larger, in-range indices and back at `i`.
    pub open spec fn wf_child_links(self, i: int) -> bool {
        let cs = self.nodes@[i].children@;
        forall|k: int|
            0 <= k < cs.len() ==> i < #[trigger] cs[k] as int && (cs[k] as int) < self.node_count()
                && self.nodes@[cs[k] as int].parent == Some(i as usize)
    }

    /// A non-root node is listed among its parent's children.
    pub open spec fn wf_parent_link(self, i: int) -> bool {
        match self.nodes@[i].parent {
            Some(p) => (p as int) < i && self.nodes@[p as int].children@.contains(i as usize),
            None => true,
        }
    }

    /// Attribute keys are unique within one node.
    pub open spec fn attr_keys_unique(attrs: Seq<(String, AttrValue)>) -> bool {
        forall|a: int, b: int| 0 <= a < b < attrs.len() ==> attrs[a].0@ != attrs[b].0@
    }

    /// No two children of `i` share a path segment.
    pub open spec fn sibling_paths_unique(self, i: int) -> bool {
        let cs = self.nodes@[i].children@;
        forall|a: int, b: int|
            0 <= a < b < cs.len() ==> self.nodes@[cs[a] as int].path@ != self.nodes@[cs[b] as int].path@
    }

    /// No two roots share a path segment.
    pub open spec fn root_paths_unique(self) -> bool {
        forall|a: int, b: int|
            0 <= a < b < self.node_count() && self.nodes@[a].parent is None
                && self.nodes@[b].parent is None ==> self.nodes@[a].path@ != self.nodes@[b].path@
    }

    /// Well-formed forest: a proper tree shape in declaration order, unique
    /// attribute keys, and unique sibling/root paths.
    pub open spec fn wf(self) -> bool {
        &&& forall|i: int| 0 <= i < self.node_count() ==> #[trigger] self.wf_child_links(i)
        &&& forall|i: int| 0 <= i < self.node_count() ==> #[trigger] self.wf_parent_link(i)
        &&& forall|i: int|
            0 <= i < self.node_count() ==> Self::attr_keys_unique(
                #[trigger] self.nodes@[i].attrs@,
            )
        &&& forall|i: int| 0 <= i < self.node_count() ==> #[trigger] self.sibling_paths_unique(i)
        &&& self.root_paths_unique()
    }

    /// Some child of `parent` already uses the path segment `path`.
    pub open spec fn has_child_path(self, parent: int, path: Seq<char>) -> bool {
        exists|k: int|
            0 <= k < self.nodes@[parent].children@.len()
                && self.nodes@[#[trigger] self.nodes@[parent].children@[k] as int].path@ == path
    }

    /// Some root already uses the path segment `path`.
    pub open spec fn has_root_path(self, path: Seq<char>) -> bool {
        exists|i: int|
            0 <= i < self.node_count() && (#[trigger] self.nodes@[i].parent) is None
                && self.nodes@[i].path@ == path
    }

    /// First value bound to `key` on node `i`.
    pub open spec fn spec_attr(self, i: int, key: Seq<char>) -> Option<AttrValue> {
        spec_find_attr(self.nodes@[i].attrs@, key)
    }

    pub fn new() -> (r: Tree)
        ensures
            r.wf(),
            r.node_count() == 0,
    {
        Tree { nodes: Vec::new() }
    }

    /// Linear scan: is the root path `path` already taken?
    fn root_path_taken(&self, path: &String) -> (r: bool)
        ensures
            r == self.has_root_path(path@),
    {
        let n = self.nodes.len();
        let mut i: usize = 0;
        while i < n
            invariant
                n == self.node_count(),
                i <= n,
                forall|k: int|
                    0 <= k < i ==> !((#[trigger] self.nodes@[k].parent) is None
                        && self.nodes@[k].path@ == path@),
            decreases n - i,
        {
            if self.nodes[i].parent.is_none() && self.nodes[i].path == *path {
                assert(self.has_root_path(path@));
                return true;
            }
            i += 1;
        }
        false
    }

    /// Linear scan: does `parent` already have a child with path `path`?
    fn child_path_taken(&self, parent: usize, path: &String) -> (r: bool)
        requires
            self.wf(),
            self.valid(parent as int),
        ensures
            r == self.has_child_path(parent as int, path@),
    {
        let cs_len = self.nodes[parent].children.len();
        let mut k: usize = 0;
        while k < cs_len
            invariant
                self.wf(),
                self.valid(parent as int),
                cs_len == self.nodes@[parent as int].children@.len(),
                k <= cs_len,
                forall|j: int|
                    0 <= j < k ==> self.nodes@[(#[trigger] self.nodes@[parent as int].children@[j]) as int].path@
                        != path@,
            decreases cs_len - k,
        {
            assert(self.wf_child_links(parent as int));
            let c = self.nodes[parent].children[k];
            if self.nodes[c].path == *path {
                assert(self.has_child_path(parent as int, path@));
                return true;
            }
            k += 1;
        }
        false
    }

    /// Append a new root node.  Refused (returning `None`, tree unchanged)
    /// when another root already uses the same path segment.
    pub fn add_root(&mut self, path: String, name: Option<String>) -> (r: Option<usize>)
        requires
            old(self).wf(),
        ensures
            final(self).wf(),
            match r {
                Some(id) => {
                    &&& !old(self).has_root_path(path@)
                    &&& id as int == old(self).node_count()
                    &&& final(self).node_count() == old(self).node_count() + 1
                    &&& forall|k: int|
                        0 <= k < id as int ==> final(self).nodes@[k] == old(self).nodes@[k]
                    &&& final(self).nodes@[id as int].path == path
                    &&& final(self).nodes@[id as int].name == name
                    &&& final(self).nodes@[id as int].attrs@.len() == 0
                    &&& final(self).nodes@[id as int].parent is None
                    &&& final(self).nodes@[id as int].children@.len() == 0
                },
                None => *final(self) == *old(self) && old(self).has_root_path(path@),
            },
    {
        if self.root_path_taken(&path) {
            return None;
        }
        let id = self.nodes.len();
        self.nodes.push(
            Node { path, name, attrs: Vec::new(), parent: None, children: Vec::new() },
        );
        proof {
            let t0 = *old(self);
            let t1 = *self;
            let n0 = t0.node_count();
            assert forall|i: int| 0 <= i < t1.node_count() implies #[trigger] t1.wf_child_links(i) by {
                if i < n0 {
                    assert(t0.wf_child_links(i));
                    assert forall|k: int| 0 <= k < t1.nodes@[i].children@.len() implies
                        i < #[trigger] t1.nodes@[i].children@[k] as int
                            && (t1.nodes@[i].children@[k] as int) < t1.node_count()
                            && t1.nodes@[t1.nodes@[i].children@[k] as int].parent == Some(i as usize) by {
                        assert(t1.nodes@[i] == t0.nodes@[i]);
                    }
                }
            }
            assert forall|i: int| 0 <= i < t1.node_count() implies #[trigger] t1.wf_parent_link(i) by {
                if i < n0 {
                    assert(t0.wf_parent_link(i));
                    if t1.nodes@[i].parent is Some {
                        let p = t1.nodes@[i].parent->Some_0;
                        assert(t0.nodes@[p as int].children@.contains(i as usize));
                        assert(t1.nodes@[p as int] == t0.nodes@[p as int]);
                    }
                }
            }
            assert forall|i: int| 0 <= i < t1.node_count() implies Self::attr_keys_unique(
                #[trigger] t1.nodes@[i].attrs@,
            ) by {
                if i < n0 {
                    assert(Self::attr_keys_unique(t0.nodes@[i].attrs@));
                    assert(t1.nodes@[i].attrs@ == t0.nodes@[i].attrs@);
                }
            }
            assert forall|i: int| 0 <= i < t1.node_count() implies #[trigger] t1.sibling_paths_unique(
                i,
            ) by {
                if i < n0 {
                    assert(t0.sibling_paths_unique(i));
                    assert forall|a: int, b: int|
                        0 <= a < b < t1.nodes@[i].children@.len() implies t1.nodes@[(t1.nodes@[i].children@[a]) as int].path@ != t1.nodes@[(t1.nodes@[i].children@[b]) as int].path@ by {
                        assert(t0.wf_child_links(i));
                        assert(t1.nodes@[i] == t0.nodes@[i]);
                        assert((t0.nodes@[i].children@[a] as int) < n0);
                        assert((t0.nodes@[i].children@[b] as int) < n0);
                    }
                }
            }
            assert forall|a: int, b: int|
                0 <= a < b < t1.node_count() && t1.nodes@[a].parent is None
                    && t1.nodes@[b].parent is None implies t1.nodes@[a].path@ != t1.nodes@[b].path@ by {
                if b < n0 {
                    assert(t0.root_paths_unique());
                } else {
                    assert(b == n0);
                    assert(!t0.has_root_path(t1.nodes@[b].path@));
                }
            }
        }
        Some(id)
    }

    /// Append a new child of `parent`.  Refused (returning `None`, tree
    /// unchanged) when a sibling already uses the same path segment.
    pub fn add_child(&mut self, parent: usize, path: String, name: Option<String>) -> (r: Option<
        usize,
    >)
        requires
            old(self).wf(),
            old(self).valid(parent as int),
        ensures
            final(self).wf(),
            match r {
                Some(id) => {
                    &&& !old(self).has_child_path(parent as int, path@)
                    &&& id as int == old(self).node_count()
                    &&& final(self).node_count() == old(self).node_count() + 1
                    &&& forall|k: int|
                        0 <= k < id as int && k != parent as int ==> final(self).nodes@[k] == old(
                            self,
                        ).nodes@[k]
                    &&& final(self).nodes@[parent as int].children@ == old(self).nodes@[
                        parent as int
                    ].children@.push(id)
                    &&& final(self).nodes@[parent as int].path == old(self).nodes@[parent as int].path
                    &&& final(self).nodes@[parent as int].name == old(self).nodes@[parent as int].name
                    &&& final(self).nodes@[parent as int].attrs == old(self).nodes@[parent as int].attrs
                    &&& final(self).nodes@[parent as int].parent == old(self).nodes@[
                        parent as int
                    ].parent
                    &&& final(self).nodes@[id as int].path == path
                    &&& final(self).nodes@[id as int].name == name
                    &&& final(self).nodes@[id as int].attrs@.len() == 0
                    &&& final(self).nodes@[id as int].parent == Some(parent)
                    &&& final(self).nodes@[id as int].children@.len() == 0
                },
                None => *final(self) == *old(self) && old(self).has_child_path(
                    parent as int,
                    path@,
                ),
            },
    {
        if self.child_path_taken(parent, &path) {
            return None;
        }
        let id = self.nodes.len();
        self.nodes[parent].children.push(id);
        self.nodes.push(
            Node { path, name, attrs: Vec::new(), parent: Some(parent), children: Vec::new() },
        );
        proof {
            let t0 = *old(self);
            let t1 = *self;
            let n0 = t0.node_count();
            let pi = parent as int;
            assert(t1.nodes@[pi].children@ == t0.nodes@[pi].children@.push(id));
            assert forall|i: int| 0 <= i < t1.node_count() implies #[trigger] t1.wf_child_links(i) by {
                if i < n0 {
                    assert(t0.wf_child_links(i));
                    assert forall|k: int| 0 <= k < t1.nodes@[i].children@.len() implies
                        i < #[trigger] t1.nodes@[i].children@[k] as int
                            && (t1.nodes@[i].children@[k] as int) < t1.node_count()
                            && t1.nodes@[t1.nodes@[i].children@[k] as int].parent == Some(i as usize) by {
                        if i == pi && k == t0.nodes@[pi].children@.len() as int {
                            assert(t1.nodes@[i].children@[k] == id);
                        } else {
                            assert(t1.nodes@[i].children@[k] == t0.nodes@[i].children@[k]);
                            let c = t0.nodes@[i].children@[k] as int;
                            assert(c < n0);
                            if c == pi {
                                assert(t1.nodes@[c].parent == t0.nodes@[c].parent);
                            } else {
                                assert(t1.nodes@[c] == t0.nodes@[c]);
                            }
                        }
                    }
                }
            }
            assert forall|i: int| 0 <= i < t1.node_count() implies #[trigger] t1.wf_parent_link(i) by {
                if i < n0 {
                    assert(t0.wf_parent_link(i));
                    if t1.nodes@[i].parent is Some {
                        let p = t1.nodes@[i].parent->Some_0;
                        assert(t0.nodes@[p as int].children@.contains(i as usize));
                        let w = choose|w: int|
                            0 <= w < t0.nodes@[p as int].children@.len() && t0.nodes@[p as int].children@[w] == i as usize;
                        assert(t1.nodes@[p as int].children@.len() >= t0.nodes@[p as int].children@.len());
                        assert(t1.nodes@[p as int].children@[w] == i as usize);
                        assert(t1.nodes@[p as int].children@.contains(i as usize));
                    }
                } else {
                    assert(i == n0);
                    assert(t1.nodes@[i].parent == Some(parent));
                    assert(t1.nodes@[pi].children@.last() == id);
                    assert(t1.nodes@[pi].children@.contains(id));
                }
            }
            assert forall|i: int| 0 <= i < t1.node_count() implies Self::attr_keys_unique(
                #[trigger] t1.nodes@[i].attrs@,
            ) by {
                if i < n0 {
                    assert(Self::attr_keys_unique(t0.nodes@[i].attrs@));
                    assert(t1.nodes@[i].attrs@ == t0.nodes@[i].attrs@);
                }
            }
            assert forall|i: int| 0 <= i < t1.node_count() implies #[trigger] t1.sibling_paths_unique(
                i,
            ) by {
                if i < n0 {
                    assert(t0.sibling_paths_unique(i));
                    assert(t0.wf_child_links(i));
                    assert forall|a: int, b: int|
                        0 <= a < b < t1.nodes@[i].children@.len() implies t1.nodes@[(t1.nodes@[i].children@[a]) as int].path@ != t1.nodes@[(t1.nodes@[i].children@[b]) as int].path@ by {
                        if i == pi && b == t0.nodes@[pi].children@.len() as int {
                            let ca = t0.nodes@[i].children@[a] as int;
                            assert(ca < n0);
                            assert(ca != n0);
                            assert(!t0.has_child_path(pi, path@));
                            assert(t0.nodes@[ca].path@ != path@);
                            if ca == pi {
                                assert(t1.nodes@[ca].path@ == t0.nodes@[ca].path@);
                            }
                        } else {
                            let ca = t0.nodes@[i].children@[a] as int;
                            let cb = t0.nodes@[i].children@[b] as int;
                            assert(ca < n0 && cb < n0);
                            assert(t0.nodes@[ca].path@ != t0.nodes@[cb].path@);
                        }
                    }
                }
            }
            assert forall|a: int, b: int|
                0 <= a < b < t1.node_count() && t1.nodes@[a].parent is None
                    && t1.nodes@[b].parent is None implies t1.nodes@[a].path@ != t1.nodes@[b].path@ by {
                assert(t0.root_paths_unique());
                assert(t1.nodes@[n0].parent is Some);
                if a == pi {
                    assert(t1.nodes@[a].parent == t0.nodes@[a].parent);
                }
                if b == pi {
                    assert(t1.nodes@[b].parent == t0.nodes@[b].parent);
                }
            }
        }
        Some(id)
    }

    /// Bind `key = value` on `node`.  Refused (returning `false`, tree
    /// unchanged) when the node already carries an attribute named `key`.
    pub fn set_attr(&mut self, node: usize, key: String, value: AttrValue) -> (r: bool)
        requires
            old(self).wf(),
            old(self).valid(node as int),
        ensures
            final(self).wf(),
            r == !(old(self).spec_attr(node as int, key@) is Some),
            r ==> {
                &&& final(self).node_count() == old(self).node_count()
                &&& forall|k: int|
                    0 <= k < old(self).node_count() && k != node as int ==> final(self).nodes@[k]
                        == old(self).nodes@[k]
                &&& final(self).nodes@[node as int].attrs@ == old(self).nodes@[
                    node as int
                ].attrs@.push((key, value))
                &&& final(self).nodes@[node as int].path == old(self).nodes@[node as int].path
                &&& final(self).nodes@[node as int].name == old(self).nodes@[node as int].name
                &&& final(self).nodes@[node as int].parent == old(self).nodes@[node as int].parent
                &&& final(self).nodes@[node as int].children == old(self).nodes@[
                    node as int
                ].children
            },
            !r ==> *final(self) == *old(self),
    {
        let attrs_len = self.nodes[node].attrs.len();
        let mut k: usize = 0;
        while k < attrs_len
            invariant
                self.wf(),
                self.valid(node as int),
                attrs_len == self.nodes@[node as int].attrs@.len(),
                k <= attrs_len,
                forall|j: int| 0 <= j < k ==> self.nodes@[node as int].attrs@[j].0@ != key@,
            decreases attrs_len - k,
        {
            if self.nodes[node].attrs[k].0 == key {
                proof {
                    lemma_find_attr_hit(self.nodes@[node as int].attrs@, key@, k as int);
                }
                return false;
            }
            k += 1;
        }
        proof {
            lemma_find_attr_miss(self.nodes@[node as int].attrs@, key@);
        }
        self.nodes[node].attrs.push((key, value));
        proof {
            let t0 = *old(self);
            let t1 = *self;
            let n0 = t0.node_count();
            let ni = node as int;
            assert forall|i: int| 0 <= i < t1.node_count() implies #[trigger] t1.wf_child_links(i) by {
                assert(t0.wf_child_links(i));
                assert(t1.nodes@[i].children@ == t0.nodes@[i].children@);
                assert forall|kk: int| 0 <= kk < t1.nodes@[i].children@.len() implies
                    i < #[trigger] t1.nodes@[i].children@[kk] as int
                        && (t1.nodes@[i].children@[kk] as int) < t1.node_count()
                        && t1.nodes@[t1.nodes@[i].children@[kk] as int].parent == Some(i as usize) by {
                    let c = t0.nodes@[i].children@[kk] as int;
                    assert(t1.nodes@[c].parent == t0.nodes@[c].parent);
                }
            }
            assert forall|i: int| 0 <= i < t1.node_count() implies #[trigger] t1.wf_parent_link(i) by {
                assert(t0.wf_parent_link(i));
                assert(t1.nodes@[i].parent == t0.nodes@[i].parent);
                if t1.nodes@[i].parent is Some {
                    let p = t1.nodes@[i].parent->Some_0;
                    assert(t1.nodes@[p as int].children@ == t0.nodes@[p as int].children@);
                }
            }
            assert forall|i: int| 0 <= i < t1.node_count() implies Self::attr_keys_unique(
                #[trigger] t1.nodes@[i].attrs@,
            ) by {
                assert(Self::attr_keys_unique(t0.nodes@[i].attrs@));
                if i == ni {
                    assert forall|a: int, b: int|
                        0 <= a < b < t1.nodes@[i].attrs@.len() implies t1.nodes@[i].attrs@[a].0@
                        != t1.nodes@[i].attrs@[b].0@ by {
                        if b == t0.nodes@[i].attrs@.len() as int {
                            assert(t1.nodes@[i].attrs@[a] == t0.nodes@[i].attrs@[a]);
                        }
                    }
                } else {
                    assert(t1.nodes@[i].attrs@ == t0.nodes@[i].attrs@);
                }
            }
            assert forall|i: int| 0 <= i < t1.node_count() implies #[trigger] t1.sibling_paths_unique(
                i,
            ) by {
                assert(t0.sibling_paths_unique(i));
                assert(t0.wf_child_links(i));
                assert(t1.nodes@[i].children@ == t0.nodes@[i].children@);
                assert forall|a: int, b: int|
                    0 <= a < b < t1.nodes@[i].children@.len() implies t1.nodes@[(t1.nodes@[i].children@[a]) as int].path@ != t1.nodes@[(t1.nodes@[i].children@[b]) as int].path@ by {
                    let ca = t0.nodes@[i].children@[a] as int;
                    let cb = t0.nodes@[i].children@[b] as int;
                    assert(t1.nodes@[ca].path@ == t0.nodes@[ca].path@);
                    assert(t1.nodes@[cb].path@ == t0.nodes@[cb].path@);
                }
            }
            assert forall|a: int, b: int|
                0 <= a < b < t1.node_count() && t1.nodes@[a].parent is None
                    && t1.nodes@[b].parent is None implies t1.nodes@[a].path@ != t1.nodes@[b].path@ by {
                assert(t0.root_paths_unique());
                assert(t1.nodes@[a].parent == t0.nodes@[a].parent);
                assert(t1.nodes@[b].parent == t0.nodes@[b].parent);
                assert(t1.nodes@[a].path@ == t0.nodes@[a].path@);
                assert(t1.nodes@[b].path@ == t0.nodes@[b].path@);
            }
        }
        true
    }

    /// Index of the attribute named `key` on `node`, if any.
    pub(crate) fn attr_index(&self, node: usize, key: &String) -> (r: Option<usize>)
        requires
            self.valid(node as int),
        ensures
            match r {
                Some(k) => {
                    &&& (k as int) < self.nodes@[node as int].attrs@.len()
                    &&& self.nodes@[node as int].attrs@[k as int].0@ == key@
                    &&& self.spec_attr(node as int, key@) == Some(
                        self.nodes@[node as int].attrs@[k as int].1,
                    )
                },
                None => self.spec_attr(node as int, key@) is None,
            },
    {
        let attrs_len = self.nodes[node].attrs.len();
        let mut k: usize = 0;
        while k < attrs_len
            invariant
                self.valid(node as int),
                attrs_len == self.nodes@[node as int].attrs@.len(),
                k <= attrs_len,
                forall|j: int| 0 <= j < k ==> self.nodes@[node as int].attrs@[j].0@ != key@,
            decreases attrs_len - k,
        {
            if self.nodes[node].attrs[k].0 == *key {
                proof {
                    lemma_find_attr_hit(self.nodes@[node as int].attrs@, key@, k as int);
                }
                return Some(k);
            }
            k += 1;
        }
        proof {
            lemma_find_attr_miss(self.nodes@[node as int].attrs@, key@);
        }
        None
    }

    /// The string attribute `key`, if present with that type.
    pub fn get_string_attr(&self, node: usize, key: &String) -> (r: Option<String>)
        requires
            self.valid(node as int),
        ensures
            match self.spec_attr(node as int, key@) {
                Some(AttrValue::Str(s)) => r matches Some(x) && x@ == s@,
                _ => r is None,
            },
    {
        match self.attr_index(node, key) {
            Some(k) => match &self.nodes[node].attrs[k].1 {
                AttrValue::Str(s) => Some(s.clone()),
                _ => None,
            },
            None => None,
        }
    }

    /// The integer attribute `key`, if present with that type.
    pub fn get_int_attr(&self, node: usize, key: &String) -> (r: Option<u32>)
        requires
            self.valid(node as int),
        ensures
            match self.spec_attr(node as int, key@) {
                Some(AttrValue::Int(v)) => r == Some(v),
                _ => r is None,
            },
    {
        match self.attr_index(node, key) {
            Some(k) => match &self.nodes[node].attrs[k].1 {
                AttrValue::Int(v) => Some(*v),
                _ => None,
            },
            None => None,
        }
    }

    /// The boolean attribute `key`, if present with that type.
    pub fn get_bool_attr(&self, node: usize, key: &String) -> (r: Option<bool>)
        requires
            self.valid(node as int),
        ensures
            match self.spec_attr(node as int, key@) {
                Some(AttrValue::Bool(v)) => r == Some(v),
                _ => r is None,
            },
    {
        match self.attr_index(node, key) {
            Some(k) => match &self.nodes[node].attrs[k].1 {
                AttrValue::Bool(v) => Some(*v),
                _ => None,
            },
            None => None,
        }
    }

    /// The reference attribute `key` (`key = &name;`), if present with that
    /// type; returns the referenced name.
    pub fn get_ref_attr(&self, node: usize, key: &String) -> (r: Option<String>)
        requires
            self.valid(node as int),
        ensures
            match self.spec_attr(node as int, key@) {
                Some(AttrValue::Ref(s)) => r matches Some(x) && x@ == s@,
                _ => r is None,
            },
    {
        match self.attr_index(node, key) {
            Some(k) => match &self.nodes[node].attrs[k].1 {
                AttrValue::Ref(s) => Some(s.clone()),
                _ => None,
            },
            None => None,
        }
    }

    /// Slash-joined path of node `i` from its root.
    pub open spec fn spec_full_path(self, i: int) -> Seq<char>
        decreases i,
    {
        match self.nodes@[i].parent {
            Some(p) => if 0 <= (p as int) < i {
                self.spec_full_path(p as int) + "/"@ + self.nodes@[i].path@
            } else {
                self.nodes@[i].path@
            },
            None => self.nodes@[i].path@,
        }
    }

    /// Render the slash-joined path of `node` from its root, for diagnostics.
    pub fn full_path(&self, node: usize) -> (r: String)
        requires
            self.wf(),
            self.valid(node as int),
        ensures
            r@ == self.spec_full_path(node as int),
        decreases node,
    {
        let par = self.nodes[node].parent;
        match par {
            Some(p) => {
                proof {
                    assert(self.wf_parent_link(node as int));
                }
                let mut s = self.full_path(p);
                s.append("/");
                s.append(self.nodes[node].path.as_str());
                s
            },
            None => self.nodes[node].path.clone(),
        }
    }

    /// First node (in declaration order, from index `k` on) named `name`.
    pub open spec fn spec_find_named_from(self, k: int, name: Seq<char>) -> Option<int>
        decreases self.node_count() - k,
    {
        if k < 0 || k >= self.node_count() {
            None
        } else if self.nodes@[k].name matches Some(nm) && nm@ == name {
            Some(k)
        } else {
            self.spec_find_named_from(k + 1, name)
        }
    }

    /// First node named `name`, if any.
    pub open spec fn spec_find_named(self, name: Seq<char>) -> Option<int> {
        self.spec_find_named_from(0, name)
    }

    proof fn lemma_find_named_hit(self, k: int, name: Seq<char>, i: int)
        requires
            0 <= k <= i < self.node_count(),
            forall|j: int|
                k <= j < i ==> !((#[trigger] self.nodes@[j].name) matches Some(nm) && nm@ == name),
            self.nodes@[i].name matches Some(nm) && nm@ == name,
        ensures
            self.spec_find_named_from(k, name) == Some(i),
        decreases i - k,
    {
        if k < i {
            self.lemma_find_named_hit(k + 1, name, i);
        }
    }

    proof fn lemma_find_named_miss(self, k: int, name: Seq<char>)
        requires
            0 <= k,
            forall|j: int|
                k <= j < self.node_count() ==> !((#[trigger] self.nodes@[j].name) matches Some(nm)
                    && nm@ == name),
        ensures
            self.spec_find_named_from(k, name) is None,
        decreases self.node_count() - k,
    {
        if k < self.node_count() {
            self.lemma_find_named_miss(k + 1, name);
        }
    }

    /// A successful name lookup returns an in-range node index.
    pub proof fn lemma_find_named_range(self, k: int, name: Seq<char>)
        requires
            0 <= k,
        ensures
            self.spec_find_named_from(k, name) matches Some(i) ==> 0 <= i < self.node_count(),
        decreases self.node_count() - k,
    {
        if k < self.node_count() {
            self.lemma_find_named_range(k + 1, name);
        }
    }

    /// Find the first node carrying the name `name`, if any.
    pub fn find_named(&self, name: &String) -> (r: Option<usize>)
        ensures
            match r {
                Some(i) => self.spec_find_named(name@) == Some(i as int) && (i as int)
                    < self.node_count(),
                None => self.spec_find_named(name@) is None,
            },
    {
        let n = self.nodes.len();
        let mut i: usize = 0;
        while i < n
            invariant
                n == self.node_count(),
                i <= n,
                forall|j: int|
                    0 <= j < i ==> !((#[trigger] self.nodes@[j].name) matches Some(nm) && nm@
                        == name@),
            decreases n - i,
        {
            let hit = match &self.nodes[i].name {
                Some(nm) => *nm == *name,
                None => false,
            };
            if hit {
                proof {
                    self.lemma_find_named_hit(0, name@, i as int);
                }
                return Some(i);
            }
            i += 1;
        }
        proof {
            self.lemma_find_named_miss(0, name@);
        }
        None
    }
}

} // verus!

