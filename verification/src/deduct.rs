//! The two build-phase indexes.
//!
//! `PipeTypeIndex` is the mutable key-to-type mapping that the deduction
//! fixpoint fills: requiring a key at a type either binds it (raising the
//! "newly concrete" counter), confirms an equal binding, or fails with a
//! type conflict.  `generate` freezes it into a `PipeIndex`: one
//! materialized pipe per bound key, from which precursors draw their
//! typed sender and receiver handles at build time.

use vstd::prelude::*;
use crate::channel::{PipeBuilder, PipeReceiver, PipeSender};
use crate::controller::{agent_wf, Agent};
use crate::elem::{Elem, ElemValue, ElemView, TypeTag, tag_of_view};
use crate::BuildError;

verus! {

/// The mapping a key/tag association list denotes; later entries win,
/// though a well-formed index never repeats a key.
pub open spec fn model_of(keys: Seq<String>, tags: Seq<TypeTag>) -> Map<Seq<char>, TypeTag>
    decreases keys.len(),
{
    if keys.len() == 0 || tags.len() == 0 {
        Map::empty()
    } else {
        model_of(keys.drop_last(), tags.drop_last()).insert(keys.last()@, tags.last())
    }
}

/// The effect of one `require` call on a key-to-type mapping: bind an
/// unbound key, accept an equal binding, reject a different one.
pub open spec fn require_map(m: Map<Seq<char>, TypeTag>, k: Seq<char>, t: TypeTag) -> (
    Map<Seq<char>, TypeTag>,
    bool,
) {
    if m.contains_key(k) {
        (m, m[k] == t)
    } else {
        (m.insert(k, t), true)
    }
}

/// Type-conflict detection: requiring a key that is already bound to a
/// different type fails and changes nothing, while requiring it again at
/// the same type succeeds silently and changes nothing — `require` is
/// idempotent on satisfied constraints.
pub proof fn lemma_type_conflict(m: Map<Seq<char>, TypeTag>, k: Seq<char>, t1: TypeTag, t2: TypeTag)
    requires
        require_map(m, k, t1).1,
    ensures
        require_map(require_map(m, k, t1).0, k, t2) == (
            require_map(m, k, t1).0,
            t1 == t2 || (m.contains_key(k) && m[k] == t2),
        ),
        require_map(require_map(m, k, t1).0, k, t1) == (require_map(m, k, t1).0, true),
{
    let m1 = require_map(m, k, t1).0;
    if m.contains_key(k) {
        assert(m1 == m);
    } else {
        assert(m1 == m.insert(k, t1));
    }
}

/// One `require` only grows the mapping, and only by the requested key.
pub proof fn lemma_require_map(m: Map<Seq<char>, TypeTag>, k: Seq<char>, t: TypeTag)
    ensures
        m.submap_of(require_map(m, k, t).0),
        require_map(m, k, t).0.dom().subset_of(m.dom().insert(k)),
        m.dom().finite() ==> require_map(m, k, t).0.dom().finite(),
{
}

/// A smaller mapping agrees with a larger one on every key it binds.
pub proof fn lemma_submap_at(
    m1: Map<Seq<char>, TypeTag>,
    m2: Map<Seq<char>, TypeTag>,
    k: Seq<char>,
)
    requires
        m1.submap_of(m2),
        m1.contains_key(k),
    ensures
        m2.contains_key(k),
        m2[k] == m1[k],
{
    if m2.dom().contains(k) {
    } else {
        assert(false);
    }
}

/// A `require` that conflicts on a mapping conflicts on every larger
/// one, and on success the results grow with the mapping.
pub proof fn lemma_require_map_monotone(
    m1: Map<Seq<char>, TypeTag>,
    m2: Map<Seq<char>, TypeTag>,
    k: Seq<char>,
    t: TypeTag,
)
    requires
        m1.submap_of(m2),
    ensures
        !require_map(m1, k, t).1 ==> !require_map(m2, k, t).1,
        require_map(m1, k, t).1 && require_map(m2, k, t).1 ==> require_map(
            m1,
            k,
            t,
        ).0.submap_of(require_map(m2, k, t).0),
{
    if m1.contains_key(k) {
        assert(m2.contains_key(k) && m2[k] == m1[k]);
    } else {
        if m2.contains_key(k) {
            if m2[k] == t {
                assert(m1.insert(k, t).submap_of(m2));
            }
        } else {
            assert(m1.insert(k, t).submap_of(m2.insert(k, t)));
        }
    }
}

/// Position of the first key with view `k`, or `-1` if none has it.
pub open spec fn find_key(keys: Seq<String>, k: Seq<char>) -> int
    decreases keys.len(),
{
    if keys.len() == 0 {
        -1
    } else if keys[0]@ == k {
        0
    } else {
        let r = find_key(keys.drop_first(), k);
        if r == -1 {
            -1
        } else {
            r + 1
        }
    }
}

/// `find_key` returns either `-1` with no key matching, or the position
/// of the first match.
pub proof fn lemma_find_key(keys: Seq<String>, k: Seq<char>)
    ensures
        find_key(keys, k) == -1 ==> forall|i: int|
            0 <= i < keys.len() ==> (#[trigger] keys[i])@ != k,
        find_key(keys, k) != -1 ==> 0 <= find_key(keys, k) < keys.len() && keys[find_key(
            keys,
            k,
        )]@ == k,
    decreases keys.len(),
{
    if keys.len() > 0 && keys[0]@ != k {
        lemma_find_key(keys.drop_first(), k);
        assert(forall|i: int|
            1 <= i < keys.len() ==> #[trigger] keys[i] == keys.drop_first()[i - 1]);
    }
}

/// A linear scan that misses everything before a hit at `i` finds `i`.
pub proof fn lemma_find_key_at(keys: Seq<String>, k: Seq<char>, i: int)
    requires
        0 <= i < keys.len(),
        keys[i]@ == k,
        forall|j: int| 0 <= j < i ==> (#[trigger] keys[j])@ != k,
    ensures
        find_key(keys, k) == i,
    decreases keys.len(),
{
    if i > 0 {
        assert(keys[0]@ != k);
        assert(keys.drop_first()[i - 1] == keys[i]);
        assert(forall|j: int|
            0 <= j < i - 1 ==> #[trigger] keys.drop_first()[j] == keys[j + 1]);
        lemma_find_key_at(keys.drop_first(), k, i - 1);
    }
}

/// Each key of a duplicate-free association list is bound, to its own tag.
pub proof fn lemma_model_of_index(keys: Seq<String>, tags: Seq<TypeTag>, i: int)
    requires
        keys.len() == tags.len(),
        0 <= i < keys.len(),
        forall|a: int, b: int|
            0 <= a < b < keys.len() ==> (#[trigger] keys[a])@ != (#[trigger] keys[b])@,
    ensures
        model_of(keys, tags).contains_key(keys[i]@),
        model_of(keys, tags)[keys[i]@] == tags[i],
    decreases keys.len(),
{
    if i < keys.len() - 1 {
        lemma_model_of_index(keys.drop_last(), tags.drop_last(), i);
        assert(keys[keys.len() - 1]@ != keys[i]@);
    }
}

/// A key that no entry carries is unbound.
pub proof fn lemma_model_of_absent(keys: Seq<String>, tags: Seq<TypeTag>, k: Seq<char>)
    requires
        keys.len() == tags.len(),
        forall|i: int| 0 <= i < keys.len() ==> (#[trigger] keys[i])@ != k,
    ensures
        !model_of(keys, tags).contains_key(k),
    decreases keys.len(),
{
    if keys.len() > 0 {
        lemma_model_of_absent(keys.drop_last(), tags.drop_last(), k);
    }
}

/// A duplicate-free association list binds exactly as many keys as it has
/// entries.
pub proof fn lemma_model_of_dom(keys: Seq<String>, tags: Seq<TypeTag>)
    requires
        keys.len() == tags.len(),
        forall|a: int, b: int|
            0 <= a < b < keys.len() ==> (#[trigger] keys[a])@ != (#[trigger] keys[b])@,
    ensures
        model_of(keys, tags).dom().finite(),
        model_of(keys, tags).dom().len() == keys.len(),
    decreases keys.len(),
{
    if keys.len() > 0 {
        lemma_model_of_dom(keys.drop_last(), tags.drop_last());
        lemma_model_of_absent(keys.drop_last(), tags.drop_last(), keys.last()@);
    }
}

/// The state of one materialized pipe, as contracts speak of it: its
/// bound type, its log so far, and its outstanding producer handles.
#[verifier::ext_equal]
pub struct PipeModel {
    pub tag: TypeTag,
    pub queue: Seq<ElemView>,
    pub senders: nat,
}

/// Whether a consumer with cursor `loc` on pipe `pid` can ever see
/// another element: a producer is outstanding or an element is unread.
pub open spec fn alive(m: Seq<PipeModel>, pid: int, loc: nat) -> bool {
    m[pid].senders > 0 || loc < m[pid].queue.len()
}

/// The pool after one value is appended to pipe `pid`.
pub open spec fn push_at(m: Seq<PipeModel>, pid: int, v: ElemView) -> Seq<PipeModel> {
    m.update(pid, PipeModel { tag: m[pid].tag, queue: m[pid].queue.push(v), senders: m[pid].senders })
}

/// The pool after one producer handle of pipe `pid` goes away; the count
/// never falls below zero.
pub open spec fn drop_sender_at(m: Seq<PipeModel>, pid: int) -> Seq<PipeModel> {
    m.update(
        pid,
        PipeModel {
            tag: m[pid].tag,
            queue: m[pid].queue,
            senders: if m[pid].senders > 0 { (m[pid].senders - 1) as nat } else { 0nat },
        },
    )
}

/// The key-to-type mapping built by the deduction fixpoint.
pub struct PipeTypeIndex {
    /// How many keys have been bound so far; the fixpoint's progress
    /// measure.
    pub concrete_count: usize,
    /// The bound keys, in binding order, no key twice.
    pub keys: Vec<String>,
    /// The tag each key is bound to, position for position.
    pub tags: Vec<TypeTag>,
}

impl PipeTypeIndex {
    /// The mapping this index denotes.
    pub open spec fn model(self) -> Map<Seq<char>, TypeTag> {
        model_of(self.keys@, self.tags@)
    }

    /// Well-formed: aligned columns, no duplicate key, and the counter is
    /// exactly the number of bindings.
    pub open spec fn wf(self) -> bool {
        &&& self.keys@.len() == self.tags@.len()
        &&& self.concrete_count == self.keys@.len()
        &&& forall|a: int, b: int|
            0 <= a < b < self.keys@.len() ==> (#[trigger] self.keys@[a])@ != (
            #[trigger] self.keys@[b])@
    }

    /// An empty index: nothing bound, counter zero.
    pub fn new() -> (r: Self)
        ensures
            r.wf(),
            r.model() == Map::<Seq<char>, TypeTag>::empty(),
            r.concrete_count == 0,
    {
        PipeTypeIndex { concrete_count: 0, keys: Vec::new(), tags: Vec::new() }
    }

    /// The currently known type for `k`, or `None` while it is unbound.
    pub fn ask(&self, k: &String) -> (r: Option<TypeTag>)
        requires
            self.wf(),
        ensures
            match r {
                Some(t) => self.model().contains_key(k@) && self.model()[k@] == t,
                None => !self.model().contains_key(k@),
            },
    {
        let n = self.keys.len();
        let mut i: usize = 0;
        while i < n
            invariant
                n == self.keys@.len(),
                i <= n,
                self.wf(),
                forall|j: int| 0 <= j < i ==> (#[trigger] self.keys@[j])@ != k@,
            decreases n - i,
        {
            if self.keys[i] == *k {
                proof {
                    lemma_model_of_index(self.keys@, self.tags@, i as int);
                }
                return Some(self.tags[i]);
            }
            i = i + 1;
        }
        proof {
            lemma_model_of_absent(self.keys@, self.tags@, k@);
        }
        None
    }

    /// Record that `k` must have type `ty`.  Binds an unbound key and
    /// raises the counter; accepts an equal binding silently; fails with a
    /// type conflict on a different one, changing nothing.
    pub fn require_by_type_id(&mut self, k: &String, ty: TypeTag) -> (r: Result<(), BuildError>)
        requires
            old(self).wf(),
        ensures
            final(self).wf(),
            (final(self).model(), r is Ok) == require_map(old(self).model(), k@, ty),
            r is Err ==> *final(self) == *old(self) && r == Err::<(), BuildError>(
                BuildError::TypeConflict,
            ),
            r is Ok && old(self).model().contains_key(k@) ==> *final(self) == *old(self),
            !old(self).model().contains_key(k@) ==> final(self).concrete_count == old(self).concrete_count + 1,
            final(self).concrete_count >= old(self).concrete_count,
    {
        let n = self.keys.len();
        let mut i: usize = 0;
        while i < n
            invariant
                n == self.keys@.len(),
                i <= n,
                self.wf(),
                self == old(self),
                forall|j: int| 0 <= j < i ==> (#[trigger] self.keys@[j])@ != k@,
            decreases n - i,
        {
            if self.keys[i] == *k {
                proof {
                    lemma_model_of_index(self.keys@, self.tags@, i as int);
                }
                if self.tags[i] == ty {
                    return Ok(());
                } else {
                    return Err(BuildError::TypeConflict);
                }
            }
            i = i + 1;
        }
        proof {
            lemma_model_of_absent(self.keys@, self.tags@, k@);
        }
        self.keys.push(k.clone());
        self.tags.push(ty);
        self.concrete_count = self.keys.len();
        proof {
            assert(self.keys@.drop_last() =~= old(self).keys@);
            assert(self.tags@.drop_last() =~= old(self).tags@);
            assert(self.model() == old(self).model().insert(k@, ty));
        }
        Ok(())
    }

    /// Record that `k` must have the element type `T`.
    pub fn require<T: ElemValue>(&mut self, k: &String) -> (r: Result<(), BuildError>)
        requires
            old(self).wf(),
        ensures
            final(self).wf(),
            (final(self).model(), r is Ok) == require_map(old(self).model(), k@, T::tag()),
            r is Err ==> *final(self) == *old(self) && r == Err::<(), BuildError>(
                BuildError::TypeConflict,
            ),
            r is Ok && old(self).model().contains_key(k@) ==> *final(self) == *old(self),
            !old(self).model().contains_key(k@) ==> final(self).concrete_count == old(self).concrete_count + 1,
            final(self).concrete_count >= old(self).concrete_count,
    {
        self.require_by_type_id(k, T::type_tag())
    }

    /// The number of keys bound so far.
    pub fn concrete_count(&self) -> (r: usize)
        ensures
            r == self.concrete_count,
    {
        self.concrete_count
    }

    /// The counter counts exactly the bound keys.
    pub proof fn lemma_count_is_dom(self)
        requires
            self.wf(),
        ensures
            self.model().dom().finite(),
            self.model().dom().len() == self.concrete_count,
    {
        lemma_model_of_dom(self.keys@, self.tags@);
    }

    /// Freeze the index: one empty materialized pipe per bound key, with
    /// the deduced type and no producer handle outstanding yet.
    pub fn generate(self) -> (r: PipeIndex)
        requires
            self.wf(),
        ensures
            r.wf(),
            r.keys@ == self.keys@,
            r.n() == self.keys@.len(),
            forall|i: int|
                0 <= i < r.n() ==> r.tag_at(i) == self.tags@[i] && r.queue_at(i)
                    == Seq::<ElemView>::empty() && r.senders_at(i) == 0,
            r.tag_model() == self.model(),
    {
        let n = self.keys.len();
        let mut pipes: Vec<PipeBuilder> = Vec::new();
        let mut i: usize = 0;
        while i < n
            invariant
                n == self.keys@.len(),
                self.wf(),
                i <= n,
                pipes@.len() == i,
                forall|j: int|
                    0 <= j < i ==> (#[trigger] pipes@[j]).wf() && pipes@[j].ty == self.tags@[j]
                        && pipes@[j].queue_model() == Seq::<ElemView>::empty() && pipes@[j].senders()
                        == 0,
            decreases n - i,
        {
            pipes.push(PipeBuilder::new_by_type_id(self.tags[i]));
            i = i + 1;
        }
        let r = PipeIndex { keys: self.keys, pipes };
        proof {
            assert(r.pipes@.map_values(|b: PipeBuilder| b.ty) =~= self.tags@);
        }
        r
    }
}

/// The frozen, post-deduction pool of materialized pipes, addressed by key
/// when handles are drawn and by position once they exist.
#[verifier::ext_equal]
pub struct PipeIndex {
    /// The bound keys, no key twice; positions are pipe identities.
    pub keys: Vec<String>,
    /// The pipe materialized for each key, position for position.
    pub pipes: Vec<PipeBuilder>,
}

impl PipeIndex {
    /// The number of pipes.
    pub open spec fn n(self) -> nat {
        self.pipes@.len()
    }

    /// The element type of pipe `i`.
    pub open spec fn tag_at(self, i: int) -> TypeTag {
        self.pipes@[i].ty
    }

    /// The log of pipe `i`, as element values.
    pub open spec fn queue_at(self, i: int) -> Seq<ElemView> {
        self.pipes@[i].queue_model()
    }

    /// The outstanding producer handles of pipe `i`.
    pub open spec fn senders_at(self, i: int) -> nat {
        self.pipes@[i].senders()
    }

    /// The whole pool as a sequence of pipe states.
    pub open spec fn model(self) -> Seq<PipeModel> {
        Seq::new(
            self.n(),
            |i: int|
                PipeModel { tag: self.tag_at(i), queue: self.queue_at(i), senders: self.senders_at(i) },
        )
    }

    /// The types of the pipes, position for position.
    pub open spec fn tag_seq(self) -> Seq<TypeTag> {
        self.pipes@.map_values(|b: PipeBuilder| b.ty)
    }

    /// The key-to-type mapping the pool realizes.
    pub open spec fn tag_model(self) -> Map<Seq<char>, TypeTag> {
        model_of(self.keys@, self.tag_seq())
    }

    /// The position of the pipe for key `k`, or `-1` if none exists.
    pub open spec fn pid_of(self, k: Seq<char>) -> int {
        find_key(self.keys@, k)
    }

    /// Well-formed: aligned columns, no duplicate key, every pipe
    /// well-formed.
    pub open spec fn wf(self) -> bool {
        &&& self.keys@.len() == self.pipes@.len()
        &&& forall|a: int, b: int|
            0 <= a < b < self.keys@.len() ==> (#[trigger] self.keys@[a])@ != (
            #[trigger] self.keys@[b])@
        &&& forall|i: int| 0 <= i < self.pipes@.len() ==> (#[trigger] self.pipes@[i]).wf()
    }

    /// A key that resolves at all resolves to a real position.
    pub proof fn pid_range(self, k: Seq<char>)
        ensures
            self.pid_of(k) >= 0 ==> self.pid_of(k) < self.keys@.len(),
    {
        lemma_find_key(self.keys@, k);
    }

    /// Find the pipe position for key `k`.
    pub fn find(&self, k: &String) -> (r: Option<usize>)
        ensures
            match r {
                Some(i) => self.pid_of(k@) == i && i < self.keys@.len()
                    && self.keys@[i as int]@ == k@,
                None => self.pid_of(k@) == -1,
            },
    {
        let n = self.keys.len();
        let mut i: usize = 0;
        while i < n
            invariant
                n == self.keys@.len(),
                i <= n,
                forall|j: int| 0 <= j < i ==> (#[trigger] self.keys@[j])@ != k@,
            decreases n - i,
        {
            if self.keys[i] == *k {
                proof {
                    lemma_find_key_at(self.keys@, k@, i as int);
                }
                return Some(i);
            }
            i = i + 1;
        }
        proof {
            lemma_find_key(self.keys@, k@);
        }
        None
    }

    /// Whether the pipe for `k` is bound to the element type `T`; fails
    /// only if `k` has no pipe at all.
    pub fn ask_to_be<T: ElemValue>(&self, k: &String) -> (r: Result<bool, BuildError>)
        requires
            self.wf(),
        ensures
            match r {
                Ok(b) => self.pid_of(k@) >= 0 && b == (self.tag_at(self.pid_of(k@)) == T::tag()),
                Err(e) => self.pid_of(k@) == -1 && e == BuildError::Unresolved,
            },
    {
        match self.find(k) {
            Some(i) => Ok(self.pipes[i].ask_type_id() == T::type_tag()),
            None => Err(BuildError::Unresolved),
        }
    }

    /// The deduced type of the pipe for `k`; fails if `k` has no pipe.
    pub fn ask(&self, k: &String) -> (r: Result<TypeTag, BuildError>)
        requires
            self.wf(),
        ensures
            match r {
                Ok(t) => self.pid_of(k@) >= 0 && t == self.tag_at(self.pid_of(k@)),
                Err(e) => self.pid_of(k@) == -1 && e == BuildError::Unresolved,
            },
    {
        match self.find(k) {
            Some(i) => Ok(self.pipes[i].ask_type_id()),
            None => Err(BuildError::Unresolved),
        }
    }

    /// Draw a typed producer handle on the pipe for `k`, raising that
    /// pipe's producer count.  Fails if `k` has no pipe (unresolved) or is
    /// bound to a type other than `T` (conflict).
    pub fn require_sender<T: ElemValue>(&mut self, k: &String) -> (r: Result<
        PipeSender<T>,
        BuildError,
    >)
        requires
            old(self).wf(),
            forall|i: int| 0 <= i < old(self).n() ==> old(self).senders_at(i) < usize::MAX,
        ensures
            final(self).wf(),
            final(self).keys@ == old(self).keys@,
            final(self).n() == old(self).n(),
            forall|i: int|
                0 <= i < final(self).n() ==> final(self).tag_at(i) == old(self).tag_at(i) && final(self).queue_at(i) == old(self).queue_at(i),
            match r {
                Ok(s) => {
                    &&& old(self).pid_of(k@) >= 0
                    &&& old(self).tag_at(old(self).pid_of(k@)) == T::tag()
                    &&& s.pid() == old(self).pid_of(k@)
                    &&& final(self).senders_at(s.pid() as int) == old(self).senders_at(
                        s.pid() as int,
                    ) + 1
                    &&& forall|i: int|
                        0 <= i < final(self).n() && i != s.pid() ==> final(self).senders_at(i)
                            == old(self).senders_at(i)
                },
                Err(e) => {
                    &&& forall|i: int|
                        0 <= i < final(self).n() ==> final(self).senders_at(i) == old(self).senders_at(i)
                    &&& if old(self).pid_of(k@) == -1 {
                        e == BuildError::Unresolved
                    } else {
                        old(self).tag_at(old(self).pid_of(k@)) != T::tag() && e
                            == BuildError::TypeConflict
                    }
                },
            },
    {
        match self.find(k) {
            Some(i) => {
                proof {
                    assert(old(self).senders_at(i as int) < usize::MAX);
                }
                let r = self.pipes[i].require_sender::<T>();
                proof {
                    assert(forall|j: int|
                        0 <= j < self.pipes@.len() && j != i ==> self.pipes@[j] == old(self).pipes@[j]);
                }
                match r {
                    Ok(mut s) => {
                        match &mut s {
                            PipeSender::Concrete(inl) => {
                                inl.pipe = i;
                            },
                            PipeSender::Any(inl) => {
                                inl.pipe = i;
                            },
                        }
                        Ok(s)
                    },
                    Err(e) => Err(e),
                }
            },
            None => Err(BuildError::Unresolved),
        }
    }

    /// Draw a typed consumer handle, its cursor at the start, on the pipe
    /// for `k`.  Consumers do not affect liveness, so nothing changes.
    pub fn require_receiver<T: ElemValue>(&self, k: &String) -> (r: Result<
        PipeReceiver<T>,
        BuildError,
    >)
        requires
            self.wf(),
        ensures
            match r {
                Ok(rec) => {
                    &&& self.pid_of(k@) >= 0
                    &&& self.tag_at(self.pid_of(k@)) == T::tag()
                    &&& rec.pid() == self.pid_of(k@)
                    &&& rec.loc() == 0
                },
                Err(e) => {
                    if self.pid_of(k@) == -1 {
                        e == BuildError::Unresolved
                    } else {
                        self.tag_at(self.pid_of(k@)) != T::tag() && e == BuildError::TypeConflict
                    }
                },
            },
    {
        match self.find(k) {
            Some(i) => {
                let r = self.pipes[i].require_receiver::<T>();
                match r {
                    Ok(mut rec) => {
                        match &mut rec {
                            PipeReceiver::Concrete(o) => {
                                o.pipe = i;
                            },
                            PipeReceiver::Any(o) => {
                                o.pipe = i;
                            },
                        }
                        Ok(rec)
                    },
                    Err(e) => Err(e),
                }
            },
            None => Err(BuildError::Unresolved),
        }
    }

    /// Send one value through a producer handle into its pipe.
    pub fn send<T: ElemValue>(&mut self, s: &PipeSender<T>, t: T)
        requires
            old(self).wf(),
            s.pid() < old(self).n(),
            old(self).tag_at(s.pid() as int) == T::tag(),
        ensures
            final(self).wf(),
            final(self).keys@ == old(self).keys@,
            final(self).n() == old(self).n(),
            forall|i: int|
                0 <= i < final(self).n() ==> final(self).tag_at(i) == old(self).tag_at(i) && final(self).senders_at(i) == old(self).senders_at(i),
            final(self).queue_at(s.pid() as int) == old(self).queue_at(s.pid() as int).push(
                T::vw(t),
            ),
            forall|i: int|
                0 <= i < final(self).n() && i != s.pid() ==> final(self).queue_at(i) == old(self).queue_at(i),
    {
        let pid = s.pipe_id();
        s.send(&mut self.pipes[pid], t);
        proof {
            assert(forall|j: int|
                0 <= j < self.pipes@.len() && j != pid ==> self.pipes@[j] == old(self).pipes@[j]);
        }
    }

    /// Receive the next unread element through a consumer handle,
    /// advancing only that handle's cursor.
    pub fn recv<T: ElemValue>(&self, rec: &mut PipeReceiver<T>) -> (r: Option<T>)
        requires
            self.wf(),
            old(rec).pid() < self.n(),
            self.tag_at(old(rec).pid() as int) == T::tag(),
        ensures
            final(rec).pid() == old(rec).pid(),
            match r {
                Some(v) => old(rec).loc() < self.queue_at(old(rec).pid() as int).len() && T::vw(v)
                    == self.queue_at(old(rec).pid() as int)[old(rec).loc() as int] && final(rec).loc() == old(rec).loc() + 1,
                None => old(rec).loc() >= self.queue_at(old(rec).pid() as int).len() && *final(rec)
                    == *old(rec),
            },
    {
        let pid = rec.pipe_id();
        rec.recv(&self.pipes[pid])
    }

    /// Whether an unread element exists right now for this consumer.
    pub fn is_recvable<T: ElemValue>(&self, rec: &PipeReceiver<T>) -> (r: bool)
        requires
            self.wf(),
            rec.pid() < self.n(),
        ensures
            r == (rec.loc() < self.queue_at(rec.pid() as int).len()),
    {
        let pid = rec.pipe_id();
        rec.is_recvable(&self.pipes[pid])
    }

    /// Whether this consumer can ever see another element.
    pub fn is_alive<T: ElemValue>(&self, rec: &PipeReceiver<T>) -> (r: bool)
        requires
            self.wf(),
            rec.pid() < self.n(),
        ensures
            r == (self.senders_at(rec.pid() as int) > 0 || rec.loc() < self.queue_at(
                rec.pid() as int,
            ).len()),
    {
        let pid = rec.pipe_id();
        rec.is_alive(&self.pipes[pid])
    }

    /// Give a producer handle up: its pipe's producer count falls by one
    /// (it never falls below zero).
    pub fn release_sender<T: ElemValue>(&mut self, s: PipeSender<T>)
        requires
            old(self).wf(),
            s.pid() < old(self).n(),
        ensures
            final(self).wf(),
            final(self).keys@ == old(self).keys@,
            final(self).n() == old(self).n(),
            forall|i: int|
                0 <= i < final(self).n() ==> final(self).tag_at(i) == old(self).tag_at(i) && final(self).queue_at(i) == old(self).queue_at(i),
            final(self).senders_at(s.pid() as int) == if old(self).senders_at(s.pid() as int) > 0 {
                (old(self).senders_at(s.pid() as int) - 1) as nat
            } else {
                0nat
            },
            forall|i: int|
                0 <= i < final(self).n() && i != s.pid() ==> final(self).senders_at(i) == old(self).senders_at(i),
    {
        let pid = s.pipe_id();
        if self.pipes[pid].sender_count() > 0 {
            self.pipes[pid].drop_sender();
        }
        proof {
            assert(forall|j: int|
                0 <= j < self.pipes@.len() && j != pid ==> self.pipes@[j] == old(self).pipes@[j]);
        }
    }
}

/// The build-time description of a future agent: it can contribute type
/// constraints on its pipe keys, and materialize itself into an agent
/// once every key has a resolved type.
pub trait AgentPrecursor: Sized {
    /// Contribute zero or more type requirements, given what is already
    /// known about other keys.  Safe to call repeatedly and in any order
    /// relative to other precursors; fails only on a genuine conflict,
    /// and the concrete-binding counter never falls.
    fn deduct(&self, idx: &mut PipeTypeIndex) -> (r: Result<(), BuildError>)
        requires
            old(idx).wf(),
        ensures
            final(idx).wf(),
            final(idx).concrete_count >= old(idx).concrete_count,
            r is Err ==> r == Err::<(), BuildError>(BuildError::TypeConflict),
    ;

    /// Resolve this precursor's keys against the frozen index, construct
    /// the operator instance, and return a ready-to-run agent.  Fails if
    /// a required key has no pipe or the resolved types are not covered;
    /// at most two producer handles are drawn.
    fn build(self, idx: &mut PipeIndex) -> (r: Result<Agent, BuildError>)
        requires
            old(idx).wf(),
            forall|i: int| 0 <= i < old(idx).n() ==> old(idx).senders_at(i) + 1 < usize::MAX,
        ensures
            final(idx).wf(),
            final(idx).keys@ == old(idx).keys@,
            final(idx).n() == old(idx).n(),
            forall|i: int|
                0 <= i < final(idx).n() ==> #[trigger] final(idx).tag_at(i) == old(idx).tag_at(i)
                    && final(idx).queue_at(i) == old(idx).queue_at(i),
            forall|i: int|
                0 <= i < final(idx).n() ==> old(idx).senders_at(i) <= #[trigger] final(idx).senders_at(i) <= old(idx).senders_at(i) + 2,
            r is Ok ==> agent_wf(r->Ok_0, final(idx).model()),
    ;
}

impl PipeIndex {
    /// The number of elements sent so far on the pipe for `k`.
    pub fn len_of(&self, k: &String) -> (r: Option<usize>)
        requires
            self.wf(),
        ensures
            match r {
                Some(n) => self.pid_of(k@) >= 0 && n == self.queue_at(self.pid_of(k@)).len(),
                None => self.pid_of(k@) == -1,
            },
    {
        match self.find(k) {
            Some(i) => Some(self.pipes[i].queue_len()),
            None => None,
        }
    }

    /// The element at position `i` of the pipe for `k`.
    pub fn elem_of(&self, k: &String, i: usize) -> (r: Option<Elem>)
        requires
            self.wf(),
        ensures
            match r {
                Some(e) => self.pid_of(k@) >= 0 && i < self.queue_at(self.pid_of(k@)).len() && e@
                    == self.queue_at(self.pid_of(k@))[i as int],
                None => self.pid_of(k@) == -1 || (self.pid_of(k@) >= 0 && i >= self.queue_at(
                    self.pid_of(k@),
                ).len()),
            },
    {
        match self.find(k) {
            Some(p) => self.pipes[p].elem_at(i),
            None => None,
        }
    }

    /// The number of producer handles still outstanding on the pipe for
    /// `k`.
    pub fn senders_of(&self, k: &String) -> (r: Option<usize>)
        requires
            self.wf(),
        ensures
            match r {
                Some(n) => self.pid_of(k@) >= 0 && n == self.senders_at(self.pid_of(k@)),
                None => self.pid_of(k@) == -1,
            },
    {
        match self.find(k) {
            Some(i) => Some(self.pipes[i].sender_count()),
            None => None,
        }
    }
}

} // verus!
