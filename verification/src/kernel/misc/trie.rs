use vstd::prelude::*;

verus! {

/// A prefix tree keyed by character paths, used for mount points.
///
/// Every node stores the character that leads to it from its parent, its
/// children (at most one per character) and an optional value.
pub struct TrieNode<T> {
    ch: char,
    children: Vec<TrieNode<T>>,
    value: Option<Box<T>>,
}

/// The value held by an optional box, unboxed.
pub open spec fn unbox<T>(o: Option<Box<T>>) -> Option<T> {
    match o {
        Some(b) => Some(*b),
        None => None,
    }
}

/// Index of the first node in `s` whose character is `c`, or -1.
pub closed spec fn first_index<T>(s: Seq<TrieNode<T>>, c: char) -> int
    decreases s.len(),
{
    if s.len() == 0 {
        -1
    } else {
        let r = first_index(s.drop_last(), c);
        if r >= 0 {
            r
        } else if s.last().ch == c {
            s.len() - 1
        } else {
            -1
        }
    }
}

proof fn lemma_first_index<T>(s: Seq<TrieNode<T>>, c: char)
    ensures
        -1 <= first_index(s, c) < s.len(),
        first_index(s, c) >= 0 ==> s[first_index(s, c)].ch == c,
        forall|j: int| 0 <= j < first_index(s, c) ==> s[j].ch != c,
        first_index(s, c) == -1 ==> forall|j: int| 0 <= j < s.len() ==> s[j].ch != c,
    decreases s.len(),
{
    if s.len() > 0 {
        lemma_first_index(s.drop_last(), c);
        assert forall|j: int| 0 <= j < s.len() - 1 implies s.drop_last()[j] == s[j] by {}
    }
}

/// `first_index` is the unique index meeting its characterisation.
proof fn lemma_first_index_unique<T>(s: Seq<TrieNode<T>>, c: char, i: int)
    requires
        -1 <= i < s.len(),
        i >= 0 ==> s[i].ch == c,
        forall|j: int| 0 <= j < i ==> s[j].ch != c,
        i == -1 ==> forall|j: int| 0 <= j < s.len() ==> s[j].ch != c,
    ensures
        first_index(s, c) == i,
{
    lemma_first_index(s, c);
    let f = first_index(s, c);
    if f >= 0 && i >= 0 {
        if f < i {
            assert(s[f].ch != c);
        } else if i < f {
            assert(s[i].ch != c);
        }
    }
}

proof fn lemma_first_index_update<T>(s: Seq<TrieNode<T>>, i: int, x: TrieNode<T>, c: char)
    requires
        0 <= i < s.len(),
        s[i].ch == x.ch,
    ensures
        first_index(s.update(i, x), c) == first_index(s, c),
{
    lemma_first_index(s, c);
    lemma_first_index_unique(s.update(i, x), c, first_index(s, c));
}

proof fn lemma_first_index_push<T>(s: Seq<TrieNode<T>>, x: TrieNode<T>, c: char)
    ensures
        first_index(s.push(x), c) == if first_index(s, c) >= 0 {
            first_index(s, c)
        } else if x.ch == c {
            s.len() as int
        } else {
            -1
        },
{
    assert(s.push(x).drop_last() =~= s);
}

proof fn lemma_first_index_remove<T>(s: Seq<TrieNode<T>>, i: int, c: char)
    requires
        0 <= i < s.len(),
        forall|a: int, b: int| 0 <= a < b < s.len() ==> s[a].ch != s[b].ch,
    ensures
        first_index(s.remove(i), c) == if c == s[i].ch {
            -1
        } else if first_index(s, c) < i {
            first_index(s, c)
        } else {
            first_index(s, c) - 1
        },
{
    lemma_first_index(s, c);
    let f = first_index(s, c);
    let t = s.remove(i);
    if c == s[i].ch {
        assert forall|j: int| 0 <= j < t.len() implies t[j].ch != c by {
            if j < i {
                assert(t[j] == s[j]);
            } else {
                assert(t[j] == s[j + 1]);
            }
        }
        lemma_first_index_unique(t, c, -1);
    } else if f < i {
        lemma_first_index_unique(t, c, f);
    } else {
        assert(f != i);
        if f == -1 {
            assert forall|j: int| 0 <= j < t.len() implies t[j].ch != c by {
                if j < i {
                    assert(t[j] == s[j]);
                } else {
                    assert(t[j] == s[j + 1]);
                }
            }
        } else {
            assert forall|j: int| 0 <= j < f - 1 implies t[j].ch != c by {
                if j < i {
                    assert(t[j] == s[j]);
                } else {
                    assert(t[j] == s[j + 1]);
                }
            }
        }
        lemma_first_index_unique(t, c, f - 1);
    }
}

/// Two non-empty sequences with the same head and the same tail are equal.
proof fn lemma_same_head_tail(p: Seq<char>, q: Seq<char>)
    requires
        p.len() > 0,
        q.len() > 0,
        p[0] == q[0],
        p.drop_first() == q.drop_first(),
    ensures
        p == q,
{
    assert(p.drop_first().len() == p.len() - 1);
    assert(q.drop_first().len() == q.len() - 1);
    assert(p.len() == q.len());
    assert forall|k: int| 0 <= k < p.len() implies p[k] == q[k] by {
        if k > 0 {
            assert(p[k] == p.drop_first()[k - 1]);
            assert(q[k] == q.drop_first()[k - 1]);
        }
    }
    assert(p =~= q);
}

impl<T> TrieNode<T> {
    /// The character leading to this node from its parent.
    pub closed spec fn key(self) -> char {
        self.ch
    }

    /// Well-formedness: no two children of a node share a character.
    pub closed spec fn wf(self) -> bool
        decreases self,
    {
        &&& forall|i: int, j: int|
            0 <= i < j < self.children@.len() ==> self.children@[i].ch != self.children@[j].ch
        &&& forall|i: int|
            0 <= i < self.children@.len() ==> (#[trigger] self.children@[i]).wf()
    }

    /// The value stored under `path` below this node, if any.
    pub closed spec fn lookup(self, path: Seq<char>) -> Option<T>
        decreases path.len(),
    {
        if path.len() == 0 {
            unbox(self.value)
        } else {
            let i = first_index(self.children@, path[0]);
            if i < 0 {
                None
            } else {
                self.children@[i].lookup(path.drop_first())
            }
        }
    }

    /// A node without value and without children maps nothing.
    proof fn lemma_empty_lookup(self, path: Seq<char>)
        requires
            self.value is None,
            self.children@.len() == 0,
        ensures
            self.lookup(path) is None,
    {
        if path.len() > 0 {
            lemma_first_index(self.children@, path[0]);
        }
    }

    /// An empty root node, as used for a static default.
    pub fn const_default() -> (r: Self)
        ensures
            r.wf(),
            r.key() == '\0',
            forall|p: Seq<char>| #[trigger] r.lookup(p) is None,
    {
        Self::new('\0')
    }

    /// A node for character `ch`, holding nothing.
    pub fn new(ch: char) -> (r: Self)
        ensures
            r.wf(),
            r.key() == ch,
            forall|p: Seq<char>| #[trigger] r.lookup(p) is None,
    {
        let r = TrieNode { ch, children: Vec::new(), value: None };
        assert forall|p: Seq<char>| #[trigger] r.lookup(p) is None by {
            r.lemma_empty_lookup(p);
        }
        r
    }

    fn find_child(children: &Vec<TrieNode<T>>, c: char) -> (r: Option<usize>)
        ensures
            match r {
                Some(i) => i as int == first_index(children@, c),
                None => first_index(children@, c) == -1,
            },
    {
        let mut i: usize = 0;
        while i < children.len()
            invariant
                i <= children@.len(),
                forall|j: int| 0 <= j < i ==> children@[j].ch != c,
            decreases children.len() - i,
        {
            if children[i].ch == c {
                proof {
                    lemma_first_index(children@, c);
                    lemma_first_index_unique(children@, c, i as int);
                }
                return Some(i);
            }
            i += 1;
        }
        proof {
            lemma_first_index_unique(children@, c, -1);
        }
        None
    }

    fn insert_from(&mut self, path: &Vec<char>, pos: usize, node: T) -> (r: Option<Box<T>>)
        requires
            old(self).wf(),
            pos <= path@.len(),
        ensures
            final(self).wf(),
            final(self).ch == old(self).ch,
            unbox(r) == old(self).lookup(path@.skip(pos as int)),
            forall|p: Seq<char>| #[trigger]
                final(self).lookup(p) == if p == path@.skip(pos as int) {
                    Some(node)
                } else {
                    old(self).lookup(p)
                },
        decreases path@.len() - pos,
    {
        if pos == path.len() {
            let old_value = self.value.take();
            self.value = Some(Box::new(node));
            assert(path@.skip(pos as int) =~= Seq::<char>::empty());
            assert forall|p: Seq<char>| #[trigger]
                self.lookup(p) == if p == path@.skip(pos as int) {
                    Some(node)
                } else {
                    old(self).lookup(p)
                } by {
                if p.len() > 0 {
                    assert(p != path@.skip(pos as int));
                } else {
                    assert(p =~= path@.skip(pos as int));
                }
            }
            return old_value;
        }
        let c = path[pos];
        let ghost old_children = self.children@;
        proof {
            lemma_first_index(old_children, c);
        }
        let i = match Self::find_child(&self.children, c) {
            Some(i) => i,
            None => {
                proof {
                    lemma_first_index(self.children@, c);
                }
                let fresh = TrieNode::new(c);
                let ghost fresh_node = fresh;
                self.children.push(fresh);
                proof {
                    lemma_first_index_push(old_children, fresh_node, c);
                }
                self.children.len() - 1
            },
        };
        let ghost mid_children = self.children@;
        let ghost mid = *self;
        assert(mid_children[i as int].wf());
        let mut child = TrieNode::new('\0');
        self.children.set_and_swap(i, &mut child);
        let r = child.insert_from(path, pos + 1, node);
        self.children.set_and_swap(i, &mut child);
        proof {
            let q = path@.skip(pos as int);
            assert(q[0] == c);
            assert(q.drop_first() =~= path@.skip(pos + 1));
            assert(self.children@ == mid_children.update(i as int, self.children@[i as int]));
            assert forall|d: char| #[trigger]
                first_index(self.children@, d) == first_index(mid_children, d) by {
                lemma_first_index_update(mid_children, i as int, self.children@[i as int], d);
            }
            assert forall|d: char| #[trigger]
                first_index(mid_children, d) == (if first_index(old_children, d) >= 0 {
                    first_index(old_children, d)
                } else if d == c {
                    i as int
                } else {
                    -1
                }) by {
                if mid_children.len() != old_children.len() {
                    lemma_first_index_push(old_children, mid_children.last(), d);
                    assert(mid_children == old_children.push(mid_children.last()));
                }
                lemma_first_index(old_children, d);
            }
            // the previous lookups below `c`
            assert forall|p: Seq<char>| p.len() > 0 && p[0] == c implies #[trigger]
                old(self).lookup(p) == mid_children[i as int].lookup(p.drop_first()) by {
                if mid_children.len() != old_children.len() {
                    lemma_first_index(old_children, c);
                }
            }
            assert forall|p: Seq<char>| #[trigger]
                self.lookup(p) == if p == q {
                    Some(node)
                } else {
                    old(self).lookup(p)
                } by {
                if p.len() > 0 {
                    lemma_first_index(old_children, p[0]);
                    lemma_first_index(mid_children, p[0]);
                    if p[0] == c {
                        assert(p == q <==> p.drop_first() == q.drop_first()) by {
                            if p.drop_first() == q.drop_first() {
                                lemma_same_head_tail(p, q);
                            }
                        }
                        assert(first_index(self.children@, c) == i);
                        assert(self.lookup(p) == self.children@[i as int].lookup(p.drop_first()));
                        assert(old(self).lookup(p) == mid_children[i as int].lookup(p.drop_first()));
                    } else {
                        assert(p != q);
                        let f = first_index(old_children, p[0]);
                        assert(first_index(self.children@, p[0]) == f);
                        if f >= 0 {
                            assert(f != i);
                            assert(self.children@[f] == old_children[f]);
                        }
                    }
                } else {
                    assert(p != q);
                }
            }
            assert forall|a: int, b: int|
                0 <= a < b < self.children@.len() implies self.children@[a].ch
                != self.children@[b].ch by {
                lemma_first_index(old_children, c);
            }
            assert forall|j: int| 0 <= j < self.children@.len() implies (
            #[trigger] self.children@[j]).wf() by {
                if j != i {
                    assert(self.children@[j] == mid_children[j]);
                }
            }
        }
        r
    }

    /// Stores `node` under `path`, creating the nodes on the way, and returns
    /// the value that was stored there before.
    pub fn insert(&mut self, path: &str, node: T) -> (r: Option<Box<T>>)
        requires
            old(self).wf(),
        ensures
            final(self).wf(),
            final(self).key() == old(self).key(),
            unbox(r) == old(self).lookup(path@),
            forall|p: Seq<char>| #[trigger]
                final(self).lookup(p) == if p == path@ {
                    Some(node)
                } else {
                    old(self).lookup(p)
                },
    {
        let chars = path_chars(path);
        assert(chars@.skip(0) =~= chars@);
        self.insert_from(&chars, 0, node)
    }

    fn _remove(&mut self, path: &Vec<char>, pos: usize) -> (r: bool)
        requires
            old(self).wf(),
            pos <= path@.len(),
        ensures
            final(self).wf(),
            final(self).ch == old(self).ch,
            r == (final(self).value is None && final(self).children@.len() == 0),
            forall|p: Seq<char>| #[trigger]
                final(self).lookup(p) == if p == path@.skip(pos as int) {
                    None
                } else {
                    old(self).lookup(p)
                },
        decreases path@.len() - pos,
    {
        if pos < path.len() {
            let c = path[pos];
            proof {
                lemma_first_index(self.children@, c);
            }
            match Self::find_child(&self.children, c) {
                Some(i) => {
                    let ghost old_children = self.children@;
                    assert(old_children[i as int].wf());
                    let mut child = TrieNode::new('\0');
                    self.children.set_and_swap(i, &mut child);
                    let empty = child._remove(path, pos + 1);
                    self.children.set_and_swap(i, &mut child);
                    let ghost mid_children = self.children@;
                    proof {
                        let q = path@.skip(pos as int);
                        assert(q[0] == c);
                        assert(q.drop_first() =~= path@.skip(pos + 1));
                        lemma_first_index(old_children, c);
                        assert(mid_children == old_children.update(i as int, mid_children[i as int]));
                        assert forall|d: char| #[trigger]
                            first_index(mid_children, d) == first_index(old_children, d) by {
                            lemma_first_index_update(old_children, i as int, mid_children[i as int], d);
                        }
                        assert forall|p: Seq<char>| #[trigger]
                            self.lookup(p) == if p == q {
                                None
                            } else {
                                old(self).lookup(p)
                            } by {
                            if p.len() > 0 {
                                lemma_first_index(old_children, p[0]);
                                if p[0] == c {
                                    assert(p == q <==> p.drop_first() == q.drop_first()) by {
                                        if p.drop_first() == q.drop_first() {
                                            lemma_same_head_tail(p, q);
                                        }
                                    }
                                    assert(first_index(mid_children, c) == i);
                                    assert(self.lookup(p) == mid_children[i as int].lookup(p.drop_first()));
                                    assert(old(self).lookup(p) == old_children[i as int].lookup(p.drop_first()));
                                } else {
                                    assert(p != q);
                                    let f = first_index(old_children, p[0]);
                                    assert(first_index(mid_children, p[0]) == f);
                                    if f >= 0 {
                                        assert(f != i);
                                        assert(mid_children[f] == old_children[f]);
                                    }
                                }
                            } else {
                                assert(p != q);
                            }
                        }
                        assert forall|j: int| 0 <= j < mid_children.len() implies (
                        #[trigger] mid_children[j]).wf() by {
                            if j != i {
                                assert(mid_children[j] == old_children[j]);
                            }
                        }
                    }
                    if empty {
                        let ghost before = *self;
                        self.children.remove(i);
                        proof {
                            let t = self.children@;
                            assert(t == mid_children.remove(i as int));
                            assert forall|p: Seq<char>| #[trigger]
                                self.lookup(p) == before.lookup(p) by {
                                if p.len() > 0 {
                                    lemma_first_index(mid_children, p[0]);
                                    lemma_first_index_remove(mid_children, i as int, p[0]);
                                    if p[0] == c {
                                        mid_children[i as int].lemma_empty_lookup(p.drop_first());
                                    } else {
                                        let f = first_index(mid_children, p[0]);
                                        if f >= 0 {
                                            assert(f != i);
                                            if f < i {
                                                assert(t[f] == mid_children[f]);
                                            } else {
                                                assert(t[f - 1] == mid_children[f]);
                                            }
                                        }
                                    }
                                }
                            }
                            assert forall|a: int, b: int|
                                0 <= a < b < t.len() implies t[a].ch != t[b].ch by {
                                if a < i {
                                    if b < i {
                                    } else {
                                        assert(t[b] == mid_children[b + 1]);
                                    }
                                } else {
                                    assert(t[a] == mid_children[a + 1]);
                                    assert(t[b] == mid_children[b + 1]);
                                }
                            }
                            assert forall|j: int| 0 <= j < t.len() implies (#[trigger] t[j]).wf() by {
                                if j < i {
                                    assert(t[j] == mid_children[j]);
                                } else {
                                    assert(t[j] == mid_children[j + 1]);
                                }
                            }
                        }
                    }
                },
                None => {
                    proof {
                        let q = path@.skip(pos as int);
                        assert(q[0] == c);
                        assert(old(self).lookup(q) is None);
                        assert forall|p: Seq<char>| #[trigger]
                            self.lookup(p) == if p == q {
                                None
                            } else {
                                old(self).lookup(p)
                            } by {}
                    }
                },
            }
        } else {
            self.value = None;
            proof {
                assert(path@.skip(pos as int) =~= Seq::<char>::empty());
                assert forall|p: Seq<char>| #[trigger]
                    self.lookup(p) == if p == path@.skip(pos as int) {
                        None
                    } else {
                        old(self).lookup(p)
                    } by {
                    if p.len() > 0 {
                        assert(p != path@.skip(pos as int));
                    } else {
                        assert(p =~= path@.skip(pos as int));
                    }
                }
            }
        }
        self.value.is_none() && self.children.len() == 0
    }

    /// Removes the value stored under `path`, pruning nodes left empty.
    pub fn remove(&mut self, path: &str)
        requires
            old(self).wf(),
        ensures
            final(self).wf(),
            final(self).key() == old(self).key(),
            forall|p: Seq<char>| #[trigger]
                final(self).lookup(p) == if p == path@ {
                    None
                } else {
                    old(self).lookup(p)
                },
    {
        let chars = path_chars(path);
        assert(chars@.skip(0) =~= chars@);
        self._remove(&chars, 0);
    }

    /// The value stored under `path`, if any.
    pub fn get(&self, path: &str) -> (r: Option<&T>)
        requires
            self.wf(),
        ensures
            match r {
                Some(v) => self.lookup(path@) == Some(*v),
                None => self.lookup(path@) is None,
            },
    {
        let chars = path_chars(path);
        let mut node = self;
        let mut i: usize = 0;
        assert(chars@.skip(0) =~= chars@);
        while i < chars.len()
            invariant
                i <= chars@.len(),
                chars@ == path@,
                node.wf(),
                node.lookup(chars@.skip(i as int)) == self.lookup(path@),
            decreases chars@.len() - i,
        {
            let c = chars[i];
            let ghost q = chars@.skip(i as int);
            assert(q[0] == c);
            assert(q.drop_first() =~= chars@.skip(i + 1));
            proof {
                lemma_first_index(node.children@, c);
            }
            match Self::find_child(&node.children, c) {
                Some(j) => {
                    assert(node.children@[j as int].wf());
                    node = &node.children[j];
                },
                None => {
                    return None;
                },
            }
            i += 1;
        }
        assert(chars@.skip(i as int) =~= Seq::<char>::empty());
        match &node.value {
            Some(b) => Some(&**b),
            None => None,
        }
    }
}

/// The characters of `s`, in order.
pub fn path_chars(s: &str) -> (r: Vec<char>)
    ensures
        r@ == s@,
{
    let mut r: Vec<char> = Vec::new();
    for ch in it: s.chars()
        invariant
            r@ == it.seq().take(it.index() as int),
    {
        r.push(ch);
    }
    r
}

} // verus!
