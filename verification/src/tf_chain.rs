//! The frame tree of a TF buffer row: frame ids, parent links, the ancestry
//! of a frame and the path between two frames.
//!
//! Transform values (rotations and translations) are composed along the
//! paths computed here; this module decides which edges those are.

use vstd::prelude::*;
use crate::error::{StageError, is_invalid_message};
use crate::text::{decimal, decimal_string, push_str};

verus! {

/// The dense id of a frame name.
pub type FrameId = u32;

/// The text of each interned name.
pub open spec fn name_views(names: Seq<String>) -> Seq<Seq<char>> {
    names.map_values(|s: String| s@)
}

/// Assigns dense ids to frame names in order of first appearance.
#[derive(Debug)]
pub struct FrameIndexer {
    names: Vec<String>,
}

impl View for FrameIndexer {
    type V = Seq<Seq<char>>;

    closed spec fn view(&self) -> Seq<Seq<char>> {
        name_views(self.names@)
    }
}

impl FrameIndexer {
    #[verifier::type_invariant]
    closed spec fn well_formed(self) -> bool {
        &&& name_views(self.names@).no_duplicates()
        &&& self.names@.len() <= u32::MAX
    }

    /// An indexer without names.
    pub fn new() -> (r: Self)
        ensures
            r@ == Seq::<Seq<char>>::empty(),
    {
        let r = FrameIndexer { names: Vec::new() };
        assert(name_views(r.names@) =~= Seq::<Seq<char>>::empty());
        r
    }

    /// The number of interned names.
    pub fn len(&self) -> (n: usize)
        ensures
            n == self@.len(),
    {
        self.names.len()
    }

    /// The id of a name, when it was interned.
    pub fn id(&self, name: &str) -> (r: Option<FrameId>)
        ensures
            match r {
                Some(i) => i < self@.len() && self@[i as int] == name@,
                None => !self@.contains(name@),
            },
    {
        proof {
            use_type_invariant(self);
        }
        let mut i: usize = 0;
        while i < self.names.len()
            invariant
                i <= self.names@.len() <= u32::MAX,
                forall|k: int| 0 <= k < i ==> name_views(self.names@)[k] != name@,
            decreases self.names.len() - i,
        {
            if crate::text::chars_eq(
                &crate::text::str_chars(self.names[i].as_str()),
                &crate::text::str_chars(name),
            ) {
                return Some(i as u32);
            }
            i += 1;
        }
        None
    }

    /// The name of an id, when it is one.
    pub fn name(&self, id: FrameId) -> (r: Option<&str>)
        ensures
            match r {
                Some(s) => id < self@.len() && s@ == self@[id as int],
                None => id >= self@.len(),
            },
    {
        if (id as usize) < self.names.len() {
            Some(self.names[id as usize].as_str())
        } else {
            None
        }
    }

    /// The id of a name, interning it first when it is new.
    pub fn intern(&mut self, name: &str) -> (r: FrameId)
        requires
            old(self)@.contains(name@) || old(self)@.len() < u32::MAX,
        ensures
            old(self)@.contains(name@) ==> final(self)@ == old(self)@ && r < final(self)@.len()
                && final(self)@[r as int] == name@,
            !old(self)@.contains(name@) ==> final(self)@ == old(self)@.push(name@) && r
                == old(self)@.len(),
    {
        proof {
            use_type_invariant(&*self);
        }
        if let Some(id) = self.id(name) {
            return id;
        }
        let id = self.names.len() as u32;
        let ghost before = self.names@;
        let mut names: Vec<String> = Vec::new();
        std::mem::swap(&mut names, &mut self.names);
        names.push(name.to_string());
        proof {
            assert(name_views(names@) =~= name_views(before).push(name@));
            assert forall|a: int, b: int|
                0 <= a < b < name_views(names@).len() implies name_views(names@)[a] != name_views(
                names@,
            )[b] by {
                if b == before.len() {
                    assert(name_views(before)[a] == name_views(names@)[a]);
                }
            }
        }
        self.names = names;
        id
    }
}

/// Why the frame tree of a row could not be walked or built.
#[derive(Debug, Clone, Copy, PartialEq, Eq, Structural)]
pub enum TfTreeError {
    /// A frame id without a frame, met while walking up the tree.
    AncestryOutOfBounds(FrameId),
    /// A child id without a frame, met while linking it to its parent.
    ChildOutOfBounds(FrameId),
    /// Walking up the tree came back to this frame.
    Cycle(FrameId),
    /// A frame was given a second, different parent.
    MultipleParents { child: FrameId, existing: FrameId, new: FrameId },
}

/// The parent links of a frame tree: one optional parent per frame id, and the
/// children recorded for each frame.
#[derive(Debug, Clone)]
pub struct TfTree {
    pub parents: Vec<Option<FrameId>>,
    pub children: Vec<Vec<FrameId>>,
}

/// Walks up from the last frame of `chain`: the chain up to a root, or the
/// frame id that has no frame, or the frame that closes a cycle.
pub open spec fn chain_walk(parents: Seq<Option<FrameId>>, chain: Seq<FrameId>) -> Result<
    Seq<FrameId>,
    TfTreeError,
>
    decreases parents.len() + 2 - chain.len(),
{
    if chain.len() == 0 || chain.len() > parents.len() + 1 {
        Ok(chain)
    } else {
        let cur = chain.last();
        if cur >= parents.len() {
            Err(TfTreeError::AncestryOutOfBounds(cur))
        } else {
            match parents[cur as int] {
                None => Ok(chain),
                Some(p) => if chain.contains(p) {
                    Err(TfTreeError::Cycle(p))
                } else {
                    chain_walk(parents, chain.push(p))
                },
            }
        }
    }
}

/// The number of `true` entries.
pub open spec fn count_true(s: Seq<bool>) -> nat
    decreases s.len(),
{
    if s.len() == 0 {
        0
    } else {
        count_true(s.drop_last()) + if s.last() {
            1nat
        } else {
            0nat
        }
    }
}

proof fn lemma_count_true_bound(s: Seq<bool>)
    ensures
        count_true(s) <= s.len(),
    decreases s.len(),
{
    if s.len() > 0 {
        lemma_count_true_bound(s.drop_last());
    }
}

proof fn lemma_count_true_set(s: Seq<bool>, i: int)
    requires
        0 <= i < s.len(),
        !s[i],
    ensures
        count_true(s.update(i, true)) == count_true(s) + 1,
    decreases s.len(),
{
    if i < s.len() - 1 {
        lemma_count_true_set(s.drop_last(), i);
        assert(s.update(i, true).drop_last() =~= s.drop_last().update(i, true));
    } else {
        assert(s.update(i, true).drop_last() =~= s.drop_last());
    }
}

proof fn lemma_count_true_none(s: Seq<bool>)
    requires
        forall|i: int| 0 <= i < s.len() ==> !s[i],
    ensures
        count_true(s) == 0,
    decreases s.len(),
{
    if s.len() > 0 {
        lemma_count_true_none(s.drop_last());
    }
}

impl TfTree {
    /// A tree of `n` frames without links.
    pub fn with_frame_count(n: usize) -> (t: Self)
        ensures
            t.parents@ == Seq::new(n as nat, |i: int| None::<FrameId>),
            t.children@.len() == n,
            forall|i: int| 0 <= i < n ==> t.children@[i]@ == Seq::<FrameId>::empty(),
    {
        let mut parents: Vec<Option<FrameId>> = Vec::new();
        let mut children: Vec<Vec<FrameId>> = Vec::new();
        let mut i: usize = 0;
        while i < n
            invariant
                i <= n,
                parents@ == Seq::new(i as nat, |k: int| None::<FrameId>),
                children@.len() == i,
                forall|k: int| 0 <= k < i ==> children@[k]@ == Seq::<FrameId>::empty(),
            decreases n - i,
        {
            parents.push(None);
            children.push(Vec::new());
            i += 1;
            assert(parents@ =~= Seq::new(i as nat, |k: int| None::<FrameId>));
        }
        TfTree { parents, children }
    }

    /// Removes every link, keeping the frames.
    pub fn reset(&mut self)
        ensures
            final(self).parents@ == Seq::new(old(self).parents@.len(), |i: int| None::<FrameId>),
            final(self).children@.len() == old(self).children@.len(),
            forall|i: int|
                0 <= i < old(self).children@.len() ==> final(self).children@[i]@ == Seq::<
                    FrameId,
                >::empty(),
    {
        let n = self.parents.len();
        let m = self.children.len();
        let fresh = TfTree::with_frame_count(n);
        self.parents = fresh.parents;
        let mut children: Vec<Vec<FrameId>> = Vec::new();
        let mut i: usize = 0;
        while i < m
            invariant
                i <= m,
                children@.len() == i,
                forall|k: int| 0 <= k < i ==> children@[k]@ == Seq::<FrameId>::empty(),
            decreases m - i,
        {
            children.push(Vec::new());
            i += 1;
        }
        self.children = children;
    }

    /// Links `child` to `parent`; a frame keeps its first parent and refuses a
    /// different one.
    pub fn set_parent(&mut self, child: FrameId, parent: FrameId) -> (r: Result<(), TfTreeError>)
        ensures
            child >= old(self).parents@.len() ==> r == Err::<(), TfTreeError>(
                TfTreeError::ChildOutOfBounds(child),
            ) && *final(self) == *old(self),
            child < old(self).parents@.len() ==> match old(self).parents@[child as int] {
                Some(existing) => if existing != parent {
                    r == Err::<(), TfTreeError>(
                        TfTreeError::MultipleParents { child, existing, new: parent },
                    ) && *final(self) == *old(self)
                } else {
                    r is Ok && *final(self) == *old(self)
                },
                None => r is Ok && final(self).parents@ == old(self).parents@.update(
                    child as int,
                    Some(parent),
                ) && final(self).children == old(self).children,
            },
    {
        if child as usize >= self.parents.len() {
            return Err(TfTreeError::ChildOutOfBounds(child));
        }
        if let Some(existing) = self.parents[child as usize] {
            if existing != parent {
                return Err(TfTreeError::MultipleParents { child, existing, new: parent });
            }
            return Ok(());
        }
        self.parents.set(child as usize, Some(parent));
        Ok(())
    }

    /// Records `child` among `parent`'s children (nothing happens for an
    /// unknown parent).
    pub fn add_child(&mut self, parent: FrameId, child: FrameId)
        ensures
            final(self).parents == old(self).parents,
            final(self).children@.len() == old(self).children@.len(),
            forall|i: int|
                0 <= i < old(self).children@.len() && i != parent ==> final(self).children@[i]
                    == old(self).children@[i],
            parent < old(self).children@.len() ==> final(self).children@[parent as int]@ == old(
                self,
            ).children@[parent as int]@.push(child),
    {
        if (parent as usize) < self.children.len() {
            let mut kids: Vec<FrameId> = Vec::new();
            std::mem::swap(&mut kids, &mut self.children[parent as usize]);
            kids.push(child);
            self.children.set(parent as usize, kids);
        }
    }

    /// The ancestry of `start`: `start`, its parent, that frame's parent, and
    /// so on up to a frame without parent.
    pub fn ancestor_chain_to_root(&self, start: FrameId) -> (r: Result<Vec<FrameId>, TfTreeError>)
        ensures
            match chain_walk(self.parents@, seq![start]) {
                Ok(c) => r matches Ok(v) && v@ == c,
                Err(e) => r == Err::<Vec<FrameId>, TfTreeError>(e),
            },
    {
        let n = self.parents.len();
        let ghost ps = self.parents@;
        let mut chain: Vec<FrameId> = Vec::new();
        chain.push(start);
        let mut visited: Vec<bool> = Vec::new();
        let mut k: usize = 0;
        while k < n
            invariant
                k <= n,
                visited@ == Seq::new(k as nat, |i: int| false),
            decreases n - k,
        {
            visited.push(false);
            k += 1;
            assert(visited@ =~= Seq::new(k as nat, |i: int| false));
        }
        proof {
            lemma_count_true_none(visited@);
        }
        if (start as usize) < n {
            proof {
                lemma_count_true_set(visited@, start as int);
            }
            visited.set(start as usize, true);
        }
        let mut current = start;
        assert(chain@ =~= seq![start]);
        proof {
            assert forall|x: FrameId| x < n implies (visited@[x as int] <==> chain@.contains(x)) by {
                if x == start {
                    assert(chain@[0] == x);
                }
            }
        }
        loop
            invariant
                n == self.parents@.len(),
                ps == self.parents@,
                visited@.len() == n,
                chain@.len() >= 1,
                chain@.last() == current,
                chain@.len() == count_true(visited@) + (if current >= n {
                    1nat
                } else {
                    0nat
                }),
                forall|i: int| 0 <= i < chain@.len() - 1 ==> chain@[i] < n,
                forall|x: FrameId| x < n ==> (visited@[x as int] <==> chain@.contains(x)),
                chain_walk(ps, chain@) == chain_walk(ps, seq![start]),
            decreases n + 1 - chain@.len(),
        {
            proof {
                lemma_count_true_bound(visited@);
            }
            if current as usize >= n {
                return Err(TfTreeError::AncestryOutOfBounds(current));
            }
            match self.parents[current as usize] {
                None => {
                    return Ok(chain);
                },
                Some(p) => {
                    if (p as usize) < n && visited[p as usize] {
                        return Err(TfTreeError::Cycle(p));
                    }
                    proof {
                        assert(!chain@.contains(p)) by {
                            if chain@.contains(p) {
                                let j = choose|j: int| 0 <= j < chain@.len() && chain@[j] == p;
                                assert(chain@[j] < n);
                            }
                        }
                    }
                    let ghost before = chain@;
                    chain.push(p);
                    if (p as usize) < n {
                        proof {
                            lemma_count_true_set(visited@, p as int);
                        }
                        visited.set(p as usize, true);
                    }
                    current = p;
                    proof {
                        assert forall|x: FrameId| x < n implies (visited@[x as int]
                            <==> chain@.contains(x)) by {
                            if chain@.contains(x) && x != p {
                                let j = choose|j: int| 0 <= j < chain@.len() && chain@[j] == x;
                                assert(before[j] == x);
                            }
                            if before.contains(x) {
                                let j = choose|j: int| 0 <= j < before.len() && before[j] == x;
                                assert(chain@[j] == x);
                            }
                            if x == p {
                                assert(chain@[before.len() as int] == x);
                            }
                        }
                    }
                },
            }
        }
    }
}

/// Whether frame `i` of `chain` exists and has frame `i + 1` as its parent.
pub open spec fn links_up(parents: Seq<Option<FrameId>>, chain: Seq<FrameId>, i: int) -> bool {
    chain[i] < parents.len() && parents[chain[i] as int] == Some(chain[i + 1])
}

/// Whether `chain` walks up the tree: every frame but the last exists and has
/// the next as its parent, and no frame occurs twice.
pub open spec fn is_upward_walk(parents: Seq<Option<FrameId>>, chain: Seq<FrameId>) -> bool {
    &&& chain.len() >= 1
    &&& chain.no_duplicates()
    &&& forall|i: int| 0 <= i < chain.len() - 1 ==> #[trigger] links_up(parents, chain, i)
}

/// The ancestry of a frame is an upward walk from the frame to a root: every
/// frame on it exists, each is the parent of the one before, no frame occurs
/// twice, and the last has no parent.
pub proof fn lemma_ancestry_reaches_root(parents: Seq<Option<FrameId>>, chain: Seq<FrameId>)
    requires
        is_upward_walk(parents, chain),
        chain.len() <= parents.len() + 1,
    ensures
        chain_walk(parents, chain) matches Ok(c) ==> is_upward_walk(parents, c) && c.len()
            >= chain.len() && c.subrange(0, chain.len() as int) == chain && c.last() < parents.len()
            && parents[c.last() as int] is None,
    decreases parents.len() + 2 - chain.len(),
{
    let cur = chain.last();
    if cur < parents.len() {
        if let Some(p) = parents[cur as int] {
            if !chain.contains(p) {
                let next = chain.push(p);
                assert(next[chain.len() - 1] == cur);
                assert(next[chain.len() as int] == p);
                assert(next.no_duplicates()) by {
                    assert forall|a: int, b: int| 0 <= a < b < next.len() implies next[a] != next[b] by {
                        if b == chain.len() {
                            assert(chain[a] == next[a]);
                        }
                    }
                }
                assert forall|i: int| 0 <= i < next.len() - 1 implies #[trigger] links_up(
                    parents,
                    next,
                    i,
                ) by {
                    if i < chain.len() - 1 {
                        assert(next[i] == chain[i]);
                        assert(next[i + 1] == chain[i + 1]);
                        assert(links_up(parents, chain, i));
                    } else {
                        assert(i == chain.len() - 1);
                        assert(next[i] == cur);
                        assert(next[i + 1] == p);
                    }
                }
                if next.len() <= parents.len() + 1 {
                    lemma_ancestry_reaches_root(parents, next);
                    if let Ok(c) = chain_walk(parents, next) {
                        assert(c.subrange(0, chain.len() as int) =~= c.subrange(
                            0,
                            next.len() as int,
                        ).subrange(0, chain.len() as int));
                        assert(next.subrange(0, chain.len() as int) =~= chain);
                    }
                } else {
                    // A duplicate-free chain of existing frames holds each id at most once.
                    assert forall|i: int| 0 <= i < chain.len() implies chain[i] < parents.len() by {
                        if i < chain.len() - 1 {
                            assert(links_up(parents, chain, i));
                        }
                    }
                    lemma_distinct_ids_bound(chain, parents.len());
                }
            }
        } else {
            assert(chain.subrange(0, chain.len() as int) =~= chain);
        }
    }
}

/// Distinct ids below `n` number at most `n`.
proof fn lemma_distinct_ids_bound(ids: Seq<FrameId>, n: nat)
    requires
        ids.no_duplicates(),
        forall|i: int| 0 <= i < ids.len() ==> ids[i] < n,
    ensures
        ids.len() <= n,
{
    let ints = ids.map_values(|x: FrameId| x as int);
    assert(ints.no_duplicates()) by {
        assert forall|a: int, b: int| 0 <= a < b < ints.len() implies ints[a] != ints[b] by {
            assert(ids[a] != ids[b]);
        }
    }
    ints.unique_seq_to_set();
    let range = vstd::set_lib::set_int_range(0, n as int);
    vstd::set_lib::lemma_int_range(0, n as int);
    assert(ints.to_set().subset_of(range)) by {
        assert forall|x: int| ints.to_set().contains(x) implies range.contains(x) by {
            let i = choose|i: int| 0 <= i < ints.len() && ints[i] == x;
            assert(ids[i] < n);
        }
    }
    vstd::set_lib::lemma_len_subset(ints.to_set(), range);
}

/// Finds where two ancestries meet: the first frame of `target` that also
/// occurs in `source`, as (index in `source`, index in `target`).
pub fn find_lowest_common_ancestor(source: &[FrameId], target: &[FrameId]) -> (r: Option<
    (usize, usize),
>)
    ensures
        match r {
            None => forall|i: int, j: int|
                0 <= i < source@.len() && 0 <= j < target@.len() ==> source@[i] != target@[j],
            Some((i, j)) => {
                &&& i < source@.len() && j < target@.len()
                &&& source@[i as int] == target@[j as int]
                &&& forall|j2: int| 0 <= j2 < j ==> !source@.contains(#[trigger] target@[j2])
                &&& forall|i2: int| i < i2 < source@.len() ==> source@[i2] != target@[j as int]
            },
        },
{
    let mut j: usize = 0;
    while j < target.len()
        invariant
            j <= target@.len(),
            forall|j2: int| 0 <= j2 < j ==> !source@.contains(#[trigger] target@[j2]),
        decreases target.len() - j,
    {
        let t = target[j];
        let mut i: usize = source.len();
        while i > 0
            invariant
                i <= source@.len(),
                j < target@.len(),
                t == target@[j as int],
                forall|j2: int| 0 <= j2 < j ==> !source@.contains(#[trigger] target@[j2]),
                forall|i2: int| i <= i2 < source@.len() ==> source@[i2] != t,
            decreases i,
        {
            if source[i - 1] == t {
                return Some((i - 1, j));
            }
            i -= 1;
        }
        assert(!source@.contains(t)) by {
            if source@.contains(t) {
                let k = choose|k: int| 0 <= k < source@.len() && source@[k] == t;
                assert(source@[k] != t);
            }
        }
        j += 1;
    }
    proof {
        assert forall|i: int, j2: int|
            0 <= i < source@.len() && 0 <= j2 < target@.len() implies source@[i] != target@[j2] by {
            assert(!source@.contains(target@[j2]));
        }
    }
    None
}

/// The edges from an ancestor down to the start of its ancestry, in the order
/// their transforms compose: the ancestor's edge first.
pub fn downward_path_edges(ancestry: &[FrameId], ancestor_index: usize) -> (r: Vec<(FrameId, FrameId)>)
    requires
        ancestor_index < ancestry@.len(),
    ensures
        r@.len() == ancestor_index,
        forall|k: int|
            0 <= k < ancestor_index ==> #[trigger] r@[k] == (
                ancestry@[ancestor_index - k],
                ancestry@[ancestor_index - 1 - k],
            ),
{
    let mut edges: Vec<(FrameId, FrameId)> = Vec::new();
    let mut idx: usize = ancestor_index;
    while idx > 0
        invariant
            idx <= ancestor_index < ancestry@.len(),
            edges@.len() == ancestor_index - idx,
            forall|k: int|
                0 <= k < edges@.len() ==> #[trigger] edges@[k] == (
                    ancestry@[ancestor_index - k],
                    ancestry@[ancestor_index - 1 - k],
                ),
        decreases idx,
    {
        let parent = ancestry[idx];
        let child = ancestry[idx - 1];
        edges.push((parent, child));
        idx -= 1;
    }
    edges
}

/// Whether edge `e` lies on the downward path from `ancestry[ancestor_index]`
/// to `ancestry[0]`.
pub open spec fn on_downward_path(ancestry: Seq<FrameId>, ancestor_index: int, e: (FrameId, FrameId)) -> bool {
    exists|k: int| 0 <= k < ancestor_index && e == (ancestry[k + 1], #[trigger] ancestry[k])
}

/// Whether some edge of `path` is one of `fresh`.
pub open spec fn has_fresh_edge(path: Seq<(FrameId, FrameId)>, fresh: Seq<(FrameId, FrameId)>) -> bool {
    exists|k: int| 0 <= k < path.len() && fresh.contains(#[trigger] path[k])
}

/// Whether `e` is one of the edges in `edges`.
fn contains_edge(edges: &[(FrameId, FrameId)], e: (FrameId, FrameId)) -> (r: bool)
    ensures
        r == edges@.contains(e),
{
    let mut i: usize = 0;
    while i < edges.len()
        invariant
            i <= edges@.len(),
            forall|m: int| 0 <= m < i ==> edges@[m] != e,
        decreases edges.len() - i,
    {
        if edges[i].0 == e.0 && edges[i].1 == e.1 {
            assert(edges@[i as int] == e);
            return true;
        }
        i += 1;
    }
    false
}

/// Whether a path of edges is fresh: some edge on it was fresh in the row.
pub fn path_is_fresh(path: &[(FrameId, FrameId)], fresh_edges: &[(FrameId, FrameId)]) -> (r: bool)
    ensures
        r == has_fresh_edge(path@, fresh_edges@),
{
    let mut k: usize = 0;
    while k < path.len()
        invariant
            k <= path@.len(),
            forall|m: int| 0 <= m < k ==> !fresh_edges@.contains(#[trigger] path@[m]),
        decreases path.len() - k,
    {
        if contains_edge(fresh_edges, path[k]) {
            return true;
        }
        k += 1;
    }
    false
}

/// Whether a chain from `source` to `target` is fresh, from the two frames'
/// ancestries: `None` when they share no ancestor; otherwise whether some edge
/// on either downward path from their lowest common ancestor was fresh (a
/// frame's chain to itself has no edges and is not fresh).
pub fn chain_freshness(
    source_ancestry: &[FrameId],
    target_ancestry: &[FrameId],
    fresh_edges: &[(FrameId, FrameId)],
) -> (r: Option<bool>)
    ensures
        match r {
            None => forall|i: int, j: int|
                0 <= i < source_ancestry@.len() && 0 <= j < target_ancestry@.len()
                    ==> source_ancestry@[i] != target_ancestry@[j],
            Some(b) => exists|i: int, j: int|
                {
                    &&& 0 <= i < source_ancestry@.len() && 0 <= j < target_ancestry@.len()
                    &&& source_ancestry@[i] == target_ancestry@[j]
                    &&& forall|j2: int|
                        0 <= j2 < j ==> !source_ancestry@.contains(#[trigger] target_ancestry@[j2])
                    &&& forall|i2: int|
                        i < i2 < source_ancestry@.len() ==> source_ancestry@[i2] != target_ancestry@[j]
                    &&& b == exists|e: (FrameId, FrameId)|
                        #![trigger fresh_edges@.contains(e)]
                        fresh_edges@.contains(e) && (on_downward_path(source_ancestry@, i, e)
                            || on_downward_path(target_ancestry@, j, e))
                },
        },
{
    match find_lowest_common_ancestor(source_ancestry, target_ancestry) {
        None => None,
        Some((i, j)) => {
            let down_source = downward_path_edges(source_ancestry, i);
            let down_target = downward_path_edges(target_ancestry, j);
            let a = path_is_fresh(down_source.as_slice(), fresh_edges);
            let b = path_is_fresh(down_target.as_slice(), fresh_edges);
            proof {
                let s = source_ancestry@;
                let t = target_ancestry@;
                let f = fresh_edges@;
                assert(a == exists|e: (FrameId, FrameId)| #![trigger f.contains(e)] f.contains(e) && on_downward_path(s, i as int, e)) by {
                    if a {
                        let k = choose|k: int| 0 <= k < down_source@.len() && f.contains(#[trigger] down_source@[k]);
                        let e = down_source@[k];
                        let kk = i - 1 - k;
                        assert(e == (s[kk + 1], s[kk]));
                        assert(on_downward_path(s, i as int, e));
                    }
                    if exists|e: (FrameId, FrameId)| #![trigger f.contains(e)] f.contains(e) && on_downward_path(s, i as int, e) {
                        let e = choose|e: (FrameId, FrameId)| #![trigger f.contains(e)] f.contains(e) && on_downward_path(s, i as int, e);
                        let kk = choose|kk: int| 0 <= kk < i && e == (s[kk + 1], #[trigger] s[kk]);
                        let k = i - 1 - kk;
                        assert(down_source@[k] == e);
                    }
                }
                assert(b == exists|e: (FrameId, FrameId)| #![trigger f.contains(e)] f.contains(e) && on_downward_path(t, j as int, e)) by {
                    if b {
                        let k = choose|k: int| 0 <= k < down_target@.len() && f.contains(#[trigger] down_target@[k]);
                        let e = down_target@[k];
                        let kk = j - 1 - k;
                        assert(e == (t[kk + 1], t[kk]));
                        assert(on_downward_path(t, j as int, e));
                    }
                    if exists|e: (FrameId, FrameId)| #![trigger f.contains(e)] f.contains(e) && on_downward_path(t, j as int, e) {
                        let e = choose|e: (FrameId, FrameId)| #![trigger f.contains(e)] f.contains(e) && on_downward_path(t, j as int, e);
                        let kk = choose|kk: int| 0 <= kk < j && e == (t[kk + 1], #[trigger] t[kk]);
                        let k = j - 1 - kk;
                        assert(down_target@[k] == e);
                    }
                }
                assert((a || b) == exists|e: (FrameId, FrameId)| #![trigger f.contains(e)] f.contains(e) && (on_downward_path(s, i as int, e) || on_downward_path(t, j as int, e)));
            }
            Some(a || b)
        },
    }
}

/// Whether frame `x` is reached from `start` by following at most `k`
/// child-to-parent links of `rows` (each row a `(parent, child)` edge).
pub open spec fn reaches_up(rows: Seq<(FrameId, FrameId)>, start: FrameId, x: FrameId, k: nat) -> bool
    decreases k,
{
    x == start || (k > 0 && exists|m: int|
        0 <= m < rows.len() && (#[trigger] rows[m]).0 == x && reaches_up(rows, start, rows[m].1, (k - 1) as nat))
}

/// Whether frame `x` is `start` or one of its ancestors in `rows`.
pub open spec fn upward_reachable(rows: Seq<(FrameId, FrameId)>, start: FrameId, x: FrameId) -> bool {
    exists|k: nat| reaches_up(rows, start, x, k)
}

/// A set of frames that holds `start` and the parent of each of its children
/// holds every frame upward reachable from `start`.
proof fn lemma_closed_holds_reachable(
    rows: Seq<(FrameId, FrameId)>,
    start: FrameId,
    vis: Seq<bool>,
    x: FrameId,
    k: nat,
)
    requires
        start < vis.len(),
        vis[start as int],
        forall|m: int| 0 <= m < rows.len() ==> (#[trigger] rows[m]).0 < vis.len() && rows[m].1 < vis.len(),
        forall|m: int| 0 <= m < rows.len() && vis[(#[trigger] rows[m]).1 as int] ==> vis[rows[m].0 as int],
        reaches_up(rows, start, x, k),
    ensures
        x < vis.len() && vis[x as int],
    decreases k,
{
    if x != start {
        let m = choose|m: int|
            0 <= m < rows.len() && (#[trigger] rows[m]).0 == x && reaches_up(rows, start, rows[m].1, (k - 1) as nat);
        lemma_closed_holds_reachable(rows, start, vis, rows[m].1, (k - 1) as nat);
    }
}

/// The edges of `rows` above `start`: each `(parent, child)` row whose child
/// is `start` or one of its ancestors. Frame ids are below `frame_count`.
pub fn upstream_edges(frame_count: usize, rows: &[(FrameId, FrameId)], start: FrameId) -> (r: Vec<
    (FrameId, FrameId),
>)
    requires
        start < frame_count,
        forall|m: int| 0 <= m < rows@.len() ==> (#[trigger] rows@[m]).0 < frame_count && rows@[m].1 < frame_count,
    ensures
        forall|e: (FrameId, FrameId)|
            #[trigger] r@.contains(e) <==> rows@.contains(e) && upward_reachable(rows@, start, e.1),
{
    let mut visited: Vec<bool> = Vec::new();
    let mut n: usize = 0;
    while n < frame_count
        invariant
            n <= frame_count,
            visited@.len() == n,
            forall|x: int| 0 <= x < n ==> !visited@[x],
        decreases frame_count - n,
    {
        visited.push(false);
        n += 1;
    }
    proof {
        lemma_count_true_none(visited@);
    }
    visited.set(start as usize, true);
    proof {
        lemma_count_true_set(Seq::new(frame_count as nat, |x: int| false), start as int);
        assert(visited@ =~= Seq::new(frame_count as nat, |x: int| false).update(start as int, true));
        assert(reaches_up(rows@, start, start, 0));
    }
    proof {
        lemma_count_true_bound(visited@);
    }
    let mut changed = true;
    while changed
        invariant
            visited@.len() == frame_count,
            start < frame_count,
            visited@[start as int],
            forall|m: int| 0 <= m < rows@.len() ==> (#[trigger] rows@[m]).0 < frame_count && rows@[m].1 < frame_count,
            forall|x: int| 0 <= x < frame_count && #[trigger] visited@[x] ==> upward_reachable(rows@, start, x as FrameId),
            count_true(visited@) <= frame_count,
            !changed ==> forall|m: int|
                0 <= m < rows@.len() && visited@[(#[trigger] rows@[m]).1 as int] ==> visited@[rows@[m].0 as int],
        decreases 2 * (frame_count - count_true(visited@)) + if changed { 1int } else { 0int },
    {
        changed = false;
        let ghost round_start = count_true(visited@);
        let mut m: usize = 0;
        while m < rows.len()
            invariant
                m <= rows@.len(),
                visited@.len() == frame_count,
                start < frame_count,
                visited@[start as int],
                forall|q: int| 0 <= q < rows@.len() ==> (#[trigger] rows@[q]).0 < frame_count && rows@[q].1 < frame_count,
                forall|x: int| 0 <= x < frame_count && #[trigger] visited@[x] ==> upward_reachable(rows@, start, x as FrameId),
                count_true(visited@) <= frame_count,
                changed ==> count_true(visited@) > round_start,
                !changed ==> count_true(visited@) == round_start,
                !changed ==> forall|q: int|
                    0 <= q < m && visited@[(#[trigger] rows@[q]).1 as int] ==> visited@[rows@[q].0 as int],
            decreases rows.len() - m,
        {
            let (p, c) = rows[m];
            if visited[c as usize] && !visited[p as usize] {
                proof {
                    let k = choose|k: nat| reaches_up(rows@, start, c, k);
                    assert(rows@[m as int].0 == p && reaches_up(rows@, start, rows@[m as int].1, k));
                    assert(reaches_up(rows@, start, p, k + 1));
                    lemma_count_true_set(visited@, p as int);
                    lemma_count_true_bound(visited@.update(p as int, true));
                }
                visited.set(p as usize, true);
                changed = true;
            }
            m += 1;
        }
    }
    let mut r: Vec<(FrameId, FrameId)> = Vec::new();
    let mut m: usize = 0;
    while m < rows.len()
        invariant
            m <= rows@.len(),
            visited@.len() == frame_count,
            forall|q: int| 0 <= q < rows@.len() ==> (#[trigger] rows@[q]).0 < frame_count && rows@[q].1 < frame_count,
            forall|e: (FrameId, FrameId)|
                #[trigger] r@.contains(e) <==> (exists|q: int| 0 <= q < m && rows@[q] == e) && visited@[e.1 as int],
        decreases rows.len() - m,
    {
        let (p, c) = rows[m];
        let ghost old_r = r@;
        if visited[c as usize] {
            r.push((p, c));
        }
        proof {
            assert(rows@[m as int] == (p, c));
            assert forall|e: (FrameId, FrameId)|
                #[trigger] r@.contains(e) <==> (exists|q: int| 0 <= q < m + 1 && rows@[q] == e) && visited@[e.1 as int] by {
                let in_old = (exists|q: int| 0 <= q < m && rows@[q] == e) && visited@[e.1 as int];
                assert(old_r.contains(e) == in_old);
                if exists|q: int| 0 <= q < m + 1 && rows@[q] == e {
                    let q = choose|q: int| 0 <= q < m + 1 && rows@[q] == e;
                    if q < m {
                        assert(exists|q2: int| 0 <= q2 < m && rows@[q2] == e);
                    } else {
                        assert(e == (p, c));
                    }
                }
                if visited@[c as int] {
                    assert(r@ == old_r.push((p, c)));
                    assert(r@[old_r.len() as int] == (p, c));
                    if r@.contains(e) && e != (p, c) {
                        let w = choose|w: int| 0 <= w < r@.len() && r@[w] == e;
                        assert(w < old_r.len());
                        assert(old_r[w] == e);
                    }
                    if old_r.contains(e) {
                        let w = choose|w: int| 0 <= w < old_r.len() && old_r[w] == e;
                        assert(r@[w] == e);
                    }
                    if e == (p, c) {
                        assert(exists|q2: int| 0 <= q2 < m + 1 && rows@[q2] == e) by {
                            assert(rows@[m as int] == e);
                        }
                    }
                } else {
                    assert(r@ == old_r);
                    if e == (p, c) {
                        assert(!visited@[e.1 as int]);
                    }
                }
                if exists|q2: int| 0 <= q2 < m && rows@[q2] == e {
                    let q2 = choose|q2: int| 0 <= q2 < m && rows@[q2] == e;
                    assert(0 <= q2 < m + 1 && rows@[q2] == e);
                }
            }
        }
        m += 1;
    }
    proof {
        assert forall|e: (FrameId, FrameId)|
            #[trigger] r@.contains(e) <==> rows@.contains(e) && upward_reachable(rows@, start, e.1) by {
            if rows@.contains(e) {
                let q = choose|q: int| 0 <= q < rows@.len() && rows@[q] == e;
                assert(rows@[q] == e);
                if upward_reachable(rows@, start, e.1) {
                    let k = choose|k: nat| reaches_up(rows@, start, e.1, k);
                    lemma_closed_holds_reachable(rows@, start, visited@, e.1, k);
                }
            }
        }
    }
    r
}

/// Whether `e` is above the frame named `name`: an edge whose child is that
/// frame or one of its ancestors.
pub open spec fn edge_above(names: Seq<Seq<char>>, rows: Seq<(FrameId, FrameId)>, name: Seq<char>, e: (FrameId, FrameId)) -> bool {
    exists|i: int| 0 <= i < names.len() && #[trigger] names[i] == name && upward_reachable(rows, i as FrameId, e.1)
}

/// Whether both frames of every pair of `pairs[..k]` are named in `names`.
pub open spec fn pairs_known(names: Seq<Seq<char>>, pairs: Seq<(&str, &str)>, k: int) -> bool {
    forall|q: int| 0 <= q < k ==> names.contains((#[trigger] pairs[q]).0@) && names.contains(pairs[q].1@)
}

/// The refusal of a source frame that the buffer does not hold.
pub open spec fn missing_source_message(name: Seq<char>) -> Seq<char> {
    "source frame '"@ + name + "' is not present in tf_buffer"@
}

/// The refusal of a target frame that the buffer does not hold.
pub open spec fn missing_target_message(name: Seq<char>) -> Seq<char> {
    "target frame '"@ + name + "' is not present in tf_buffer"@
}

/// The edges a row must provide for the requested frame pairs: every edge above
/// the source or the target of some pair. A frame of a pair that the buffer
/// does not hold is refused, the first such frame in pair order.
pub fn required_edges(indexer: &FrameIndexer, rows: &[(FrameId, FrameId)], frame_pairs: &[(&str, &str)]) -> (r:
    Result<Vec<(FrameId, FrameId)>, StageError>)
    requires
        forall|m: int| 0 <= m < rows@.len() ==> (#[trigger] rows@[m]).0 < indexer@.len() && rows@[m].1 < indexer@.len(),
    ensures
        pairs_known(indexer@, frame_pairs@, frame_pairs@.len() as int) ==> (r matches Ok(v) && forall|e: (FrameId, FrameId)|
            #[trigger] v@.contains(e) <==> rows@.contains(e) && exists|k: int|
                0 <= k < frame_pairs@.len() && (edge_above(indexer@, rows@, (#[trigger] frame_pairs@[k]).0@, e)
                    || edge_above(indexer@, rows@, frame_pairs@[k].1@, e))),
        !pairs_known(indexer@, frame_pairs@, frame_pairs@.len() as int) ==> (r matches Err(err) && exists|k: int|
            0 <= k < frame_pairs@.len() && pairs_known(indexer@, frame_pairs@, k) && if !indexer@.contains(
                (#[trigger] frame_pairs@[k]).0@,
            ) {
                is_invalid_message(err, missing_source_message(frame_pairs@[k].0@))
            } else {
                !indexer@.contains(frame_pairs@[k].1@) && is_invalid_message(
                    err,
                    missing_target_message(frame_pairs@[k].1@),
                )
            }),
{
    let mut out: Vec<(FrameId, FrameId)> = Vec::new();
    let mut k: usize = 0;
    while k < frame_pairs.len()
        invariant
            k <= frame_pairs@.len(),
            forall|m: int| 0 <= m < rows@.len() ==> (#[trigger] rows@[m]).0 < indexer@.len() && rows@[m].1 < indexer@.len(),
            pairs_known(indexer@, frame_pairs@, k as int),
            forall|e: (FrameId, FrameId)|
                #[trigger] out@.contains(e) <==> rows@.contains(e) && exists|q: int|
                    0 <= q < k && (edge_above(indexer@, rows@, (#[trigger] frame_pairs@[q]).0@, e)
                        || edge_above(indexer@, rows@, frame_pairs@[q].1@, e)),
        decreases frame_pairs.len() - k,
    {
        let (source, target) = frame_pairs[k];
        let sid = match indexer.id(source) {
            Some(i) => i,
            None => {
                let mut m = "source frame '".to_string();
                push_str(&mut m, source);
                push_str(&mut m, "' is not present in tf_buffer");
                proof {
                    assert(frame_pairs@[k as int].0 == source);
                }
                return Err(StageError::invalid_owned(m));
            },
        };
        let tid = match indexer.id(target) {
            Some(i) => i,
            None => {
                let mut m = "target frame '".to_string();
                push_str(&mut m, target);
                push_str(&mut m, "' is not present in tf_buffer");
                proof {
                    assert(frame_pairs@[k as int].1 == target);
                    assert(indexer@.contains(source@)) by {
                        assert(indexer@[sid as int] == source@);
                    }
                }
                return Err(StageError::invalid_owned(m));
            },
        };
        proof {
            assert(indexer@[sid as int] == source@);
            assert(indexer@[tid as int] == target@);
            use_type_invariant(indexer);
            assert(indexer@.no_duplicates());
        }
        let up_s = upstream_edges(indexer.len(), rows, sid);
        let up_t = upstream_edges(indexer.len(), rows, tid);
        let ghost old_out = out@;
        let mut a = up_s;
        let mut b = up_t;
        out.append(&mut a);
        out.append(&mut b);
        proof {
            assert(frame_pairs@[k as int] == (source, target));
            assert forall|e: (FrameId, FrameId)|
                #[trigger] out@.contains(e) <==> rows@.contains(e) && exists|q: int|
                    0 <= q < k + 1 && (edge_above(indexer@, rows@, (#[trigger] frame_pairs@[q]).0@, e)
                        || edge_above(indexer@, rows@, frame_pairs@[q].1@, e)) by {
                let names = indexer@;
                assert(edge_above(names, rows@, source@, e) <==> upward_reachable(rows@, sid, e.1)) by {
                    if edge_above(names, rows@, source@, e) {
                        let i = choose|i: int| 0 <= i < names.len() && #[trigger] names[i] == source@
                            && upward_reachable(rows@, i as FrameId, e.1);
                        assert(i == sid);
                    }
                    assert(names[sid as int] == source@);
                }
                assert(edge_above(names, rows@, target@, e) <==> upward_reachable(rows@, tid, e.1)) by {
                    if edge_above(names, rows@, target@, e) {
                        let i = choose|i: int| 0 <= i < names.len() && #[trigger] names[i] == target@
                            && upward_reachable(rows@, i as FrameId, e.1);
                        assert(i == tid);
                    }
                    assert(names[tid as int] == target@);
                }
                assert(out@ == old_out + up_s@ + up_t@);
                assert(out@.contains(e) <==> old_out.contains(e) || up_s@.contains(e) || up_t@.contains(e)) by {
                    if out@.contains(e) {
                        let w = choose|w: int| 0 <= w < out@.len() && out@[w] == e;
                        if w < old_out.len() {
                            assert(old_out[w] == e);
                        } else if w < old_out.len() + up_s@.len() {
                            assert(up_s@[w - old_out.len()] == e);
                        } else {
                            assert(up_t@[w - old_out.len() - up_s@.len()] == e);
                        }
                    }
                    if old_out.contains(e) {
                        let w = choose|w: int| 0 <= w < old_out.len() && old_out[w] == e;
                        assert(out@[w] == e);
                    }
                    if up_s@.contains(e) {
                        let w = choose|w: int| 0 <= w < up_s@.len() && up_s@[w] == e;
                        assert(out@[old_out.len() + w] == e);
                    }
                    if up_t@.contains(e) {
                        let w = choose|w: int| 0 <= w < up_t@.len() && up_t@[w] == e;
                        assert(out@[old_out.len() + up_s@.len() + w] == e);
                    }
                }
                if exists|q: int| 0 <= q < k + 1 && (edge_above(names, rows@, (#[trigger] frame_pairs@[q]).0@, e)
                        || edge_above(names, rows@, frame_pairs@[q].1@, e)) {
                    let q = choose|q: int| 0 <= q < k + 1 && (edge_above(names, rows@, (#[trigger] frame_pairs@[q]).0@, e)
                        || edge_above(names, rows@, frame_pairs@[q].1@, e));
                    if q < k {
                        assert(exists|q2: int| 0 <= q2 < k && (edge_above(names, rows@, (#[trigger] frame_pairs@[q2]).0@, e)
                            || edge_above(names, rows@, frame_pairs@[q2].1@, e)));
                    }
                }
                if exists|q: int| 0 <= q < k && (edge_above(names, rows@, (#[trigger] frame_pairs@[q]).0@, e)
                        || edge_above(names, rows@, frame_pairs@[q].1@, e)) {
                    let q = choose|q: int| 0 <= q < k && (edge_above(names, rows@, (#[trigger] frame_pairs@[q]).0@, e)
                        || edge_above(names, rows@, frame_pairs@[q].1@, e));
                    assert(0 <= q < k + 1);
                }
                if rows@.contains(e) && (upward_reachable(rows@, sid, e.1) || upward_reachable(rows@, tid, e.1)) {
                    assert(0 <= k < k + 1 && frame_pairs@[k as int] == (source, target));
                }
            }
        }
        k += 1;
    }
    Ok(out)
}

/// The id of an interned name: its position among the names.
pub open spec fn id_of(names: Seq<Seq<char>>, name: Seq<char>) -> FrameId {
    (choose|i: int| 0 <= i < names.len() && names[i] == name) as FrameId
}

/// The name of an id, or `<unknown>` for an id without a name.
pub open spec fn name_or_unknown(names: Seq<Seq<char>>, id: FrameId) -> Seq<char> {
    if id < names.len() {
        names[id as int]
    } else {
        "<unknown>"@
    }
}

/// The refusal of a row whose child frame was never interned.
pub open spec fn unregistered_child_message(name: Seq<char>) -> Seq<char> {
    "child frame '"@ + name + "' was not registered in TF chain indexer"@
}

/// The refusal of a row whose parent frame was never interned.
pub open spec fn unregistered_parent_message(name: Seq<char>) -> Seq<char> {
    "parent frame '"@ + name + "' was not registered in TF chain indexer"@
}

/// The refusal of a child id that the tree has no frame for.
pub open spec fn child_out_of_bounds_message(child: Seq<char>) -> Seq<char> {
    "frame '"@ + child + "' is out of bounds while building TF chain"@
}

/// The refusal of a second, different parent within one row.
pub open spec fn multiple_parents_message(child: Seq<char>, existing: Seq<char>, parent: Seq<char>) -> Seq<char> {
    "frame '"@ + child + "' has multiple parents in the same tf_buffer row: '"@ + existing + "' and '"@
        + parent + "'"@
}

/// The links, the children and the `(edge, fresh)` records of a row being read.
pub type RowState = (Seq<Option<FrameId>>, Seq<Seq<FrameId>>, Seq<((FrameId, FrameId), bool)>);

/// Reading one `(child, parent, fresh)` transform of a row: both frames must be
/// interned; a transform on a required edge links the child to the parent
/// (a frame keeps one parent), records the child under the parent and records
/// the edge with its fresh flag; other transforms are skipped.
pub open spec fn row_step(
    names: Seq<Seq<char>>,
    required: Seq<(FrameId, FrameId)>,
    child: Seq<char>,
    parent: Seq<char>,
    fresh: bool,
    st: RowState,
) -> Result<RowState, Seq<char>> {
    if !names.contains(child) {
        Err(unregistered_child_message(child))
    } else if !names.contains(parent) {
        Err(unregistered_parent_message(parent))
    } else {
        let c = id_of(names, child);
        let p = id_of(names, parent);
        let (parents, children, edges) = st;
        if !required.contains((p, c)) {
            Ok(st)
        } else if c >= parents.len() {
            Err(child_out_of_bounds_message(name_or_unknown(names, c)))
        } else {
            match parents[c as int] {
                Some(e) if e != p => Err(
                    multiple_parents_message(
                        name_or_unknown(names, c),
                        name_or_unknown(names, e),
                        name_or_unknown(names, p),
                    ),
                ),
                _ => {
                    let parents2 = parents.update(c as int, Some(p));
                    let children2 = if p < children.len() {
                        children.update(p as int, children[p as int].push(c))
                    } else {
                        children
                    };
                    Ok((parents2, children2, edges.push(((p, c), fresh))))
                },
            }
        }
    }
}

/// Reading the transforms of a row in order from state `st`.
pub open spec fn row_fold(
    names: Seq<Seq<char>>,
    required: Seq<(FrameId, FrameId)>,
    rows: Seq<(String, String, bool)>,
    st: RowState,
) -> Result<RowState, Seq<char>>
    decreases rows.len(),
{
    if rows.len() == 0 {
        Ok(st)
    } else {
        match row_fold(names, required, rows.drop_last(), st) {
            Err(m) => Err(m),
            Ok(s1) => row_step(names, required, rows.last().0@, rows.last().1@, rows.last().2, s1),
        }
    }
}

proof fn lemma_fold_error_persists(
    names: Seq<Seq<char>>,
    required: Seq<(FrameId, FrameId)>,
    rows: Seq<(String, String, bool)>,
    st: RowState,
    k: int,
    m: Seq<char>,
)
    requires
        0 <= k <= rows.len(),
        row_fold(names, required, rows.take(k), st) == Err::<RowState, Seq<char>>(m),
    ensures
        row_fold(names, required, rows, st) == Err::<RowState, Seq<char>>(m),
    decreases rows.len() - k,
{
    if k < rows.len() {
        assert(rows.take(k + 1).drop_last() =~= rows.take(k));
        lemma_fold_error_persists(names, required, rows, st, k + 1, m);
    } else {
        assert(rows.take(k) =~= rows);
    }
}

/// The children lists of a tree, as sequences.
pub open spec fn children_view(children: Seq<Vec<FrameId>>) -> Seq<Seq<FrameId>> {
    children.map_values(|v: Vec<FrameId>| v@)
}

/// The text of a name, `<unknown>` for an id without one.
fn name_text(indexer: &FrameIndexer, id: FrameId) -> (r: String)
    ensures
        r@ == name_or_unknown(indexer@, id),
{
    match indexer.name(id) {
        Some(n) => n.to_string(),
        None => "<unknown>".to_string(),
    }
}

/// Reads the `(child, parent, fresh)` transforms of one TF buffer row into the
/// frame tree, after clearing its links: see [`row_step`]. Returns each
/// recorded edge with its fresh flag, in row order.
pub fn populate_rows(
    indexer: &FrameIndexer,
    required: &[(FrameId, FrameId)],
    rows: &[(String, String, bool)],
    tree: &mut TfTree,
) -> (r: Result<Vec<((FrameId, FrameId), bool)>, StageError>)
    ensures
        match row_fold(
            indexer@,
            required@,
            rows@,
            (
                Seq::new(old(tree).parents@.len(), |i: int| None::<FrameId>),
                Seq::new(old(tree).children@.len(), |i: int| Seq::<FrameId>::empty()),
                Seq::empty(),
            ),
        ) {
            Ok((parents, children, edges)) => r matches Ok(v) && v@ == edges && final(tree).parents@
                == parents && children_view(final(tree).children@) == children,
            Err(m) => r matches Err(e) && is_invalid_message(e, m),
        },
{
    proof {
        use_type_invariant(indexer);
    }
    tree.reset();
    let ghost start: RowState = (
        Seq::new(old(tree).parents@.len(), |i: int| None::<FrameId>),
        Seq::new(old(tree).children@.len(), |i: int| Seq::<FrameId>::empty()),
        Seq::empty(),
    );
    assert(children_view(tree.children@) =~= start.1);
    let mut out: Vec<((FrameId, FrameId), bool)> = Vec::new();
    let mut i: usize = 0;
    assert(rows@.take(0) =~= Seq::<(String, String, bool)>::empty());
    while i < rows.len()
        invariant
            i <= rows@.len(),
            indexer@.no_duplicates(),
            row_fold(indexer@, required@, rows@.take(i as int), start) == Ok::<RowState, Seq<char>>(
                (tree.parents@, children_view(tree.children@), out@),
            ),
            start == (
                Seq::new(old(tree).parents@.len(), |i: int| None::<FrameId>),
                Seq::new(old(tree).children@.len(), |i: int| Seq::<FrameId>::empty()),
                Seq::<((FrameId, FrameId), bool)>::empty(),
            ),
        decreases rows.len() - i,
    {
        let ghost before: RowState = (tree.parents@, children_view(tree.children@), out@);
        proof {
            assert(rows@.take(i + 1).drop_last() =~= rows@.take(i as int));
            assert(rows@.take(i + 1).last() == rows@[i as int]);
        }
        let child_name = rows[i].0.as_str();
        let parent_name = rows[i].1.as_str();
        let fresh = rows[i].2;
        let c = match indexer.id(child_name) {
            Some(c) => c,
            None => {
                let mut m = "child frame '".to_string();
                push_str(&mut m, child_name);
                push_str(&mut m, "' was not registered in TF chain indexer");
                proof {
                    lemma_fold_error_persists(indexer@, required@, rows@, start, i + 1, unregistered_child_message(child_name@));
                }
                return Err(StageError::invalid_owned(m));
            },
        };
        let p = match indexer.id(parent_name) {
            Some(p) => p,
            None => {
                let mut m = "parent frame '".to_string();
                push_str(&mut m, parent_name);
                push_str(&mut m, "' was not registered in TF chain indexer");
                proof {
                    assert(indexer@[c as int] == child_name@);
                    lemma_fold_error_persists(indexer@, required@, rows@, start, i + 1, unregistered_parent_message(parent_name@));
                }
                return Err(StageError::invalid_owned(m));
            },
        };
        proof {
            assert(indexer@[c as int] == child_name@);
            assert(indexer@[p as int] == parent_name@);
            let ci = choose|k: int| 0 <= k < indexer@.len() && indexer@[k] == child_name@;
            let pi = choose|k: int| 0 <= k < indexer@.len() && indexer@[k] == parent_name@;
            assert(ci == c as int);
            assert(pi == p as int);
            assert(id_of(indexer@, child_name@) == c);
            assert(id_of(indexer@, parent_name@) == p);
        }
        if !contains_edge(required, (p, c)) {
            i += 1;
            continue;
        }
        match tree.set_parent(c, p) {
            Ok(()) => {},
            Err(TfTreeError::MultipleParents { child, existing, new }) => {
                let mut m = "frame '".to_string();
                push_str(&mut m, name_text(indexer, child).as_str());
                push_str(&mut m, "' has multiple parents in the same tf_buffer row: '");
                push_str(&mut m, name_text(indexer, existing).as_str());
                push_str(&mut m, "' and '");
                push_str(&mut m, name_text(indexer, new).as_str());
                push_str(&mut m, "'");
                proof {
                    lemma_fold_error_persists(indexer@, required@, rows@, start, i + 1, m@);
                }
                return Err(StageError::invalid_owned(m));
            },
            Err(_) => {
                let mut m = "frame '".to_string();
                push_str(&mut m, name_text(indexer, c).as_str());
                push_str(&mut m, "' is out of bounds while building TF chain");
                proof {
                    lemma_fold_error_persists(indexer@, required@, rows@, start, i + 1, m@);
                }
                return Err(StageError::invalid_owned(m));
            },
        }
        tree.add_child(p, c);
        proof {
            assert(tree.parents@ =~= before.0.update(c as int, Some(p)));
            if (p as int) < before.1.len() {
                assert(children_view(tree.children@) =~= before.1.update(p as int, before.1[p as int].push(c)));
            } else {
                assert(children_view(tree.children@) =~= before.1);
            }
        }
        out.push(((p, c), fresh));
        i += 1;
    }
    assert(rows@.take(rows@.len() as int) =~= rows@);
    Ok(out)
}

} // verus!
