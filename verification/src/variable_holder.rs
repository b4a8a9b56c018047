use vstd::prelude::*;

use crate::scalar::Scalar;

verus! {

/// The first index at which `names` holds the key `k`, or -1 when it holds
/// it nowhere.
pub open spec fn index_of_key(names: Seq<Seq<char>>, k: Seq<char>) -> int
    decreases names.len(),
{
    if names.len() == 0 {
        -1
    } else if names[0] == k {
        0
    } else {
        let rest = index_of_key(names.drop_first(), k);
        if rest < 0 {
            -1
        } else {
            rest + 1
        }
    }
}

pub proof fn lemma_index_of_key_range(names: Seq<Seq<char>>, k: Seq<char>)
    ensures
        -1 <= index_of_key(names, k) < names.len(),
        index_of_key(names, k) >= 0 ==> names[index_of_key(names, k)] == k,
        index_of_key(names, k) == -1 ==> forall|i: int| 0 <= i < names.len() ==> names[i] != k,
    decreases names.len(),
{
    if names.len() > 0 && names[0] != k {
        lemma_index_of_key_range(names.drop_first(), k);
        assert forall|i: int| 0 <= i < names.len() && index_of_key(names, k) == -1
            implies names[i] != k by {
            if i > 0 {
                assert(names.drop_first()[i - 1] == names[i]);
            }
        }
        if index_of_key(names.drop_first(), k) >= 0 {
            assert(names[index_of_key(names, k)] == names.drop_first()[index_of_key(
                names.drop_first(),
                k,
            )]);
        }
    }
}

/// How the first index of a key moves when one more name is appended: a key
/// already present keeps its index, the appended name itself gets the old
/// length, and any other key stays absent.
pub proof fn lemma_index_of_key_push(names: Seq<Seq<char>>, s: Seq<char>, k: Seq<char>)
    ensures
        index_of_key(names.push(s), k) == if index_of_key(names, k) >= 0 {
            index_of_key(names, k)
        } else if s == k {
            names.len() as int
        } else {
            -1
        },
    decreases names.len(),
{
    assert(names.push(s)[0] == if names.len() == 0 {
        s
    } else {
        names[0]
    });
    if names.len() == 0 {
        assert(names.push(s).drop_first() =~= Seq::<Seq<char>>::empty());
        assert(index_of_key(Seq::<Seq<char>>::empty(), k) == -1);
        if s == k {
            assert(index_of_key(names.push(s), k) == 0);
        } else {
            assert(index_of_key(names.push(s), k) == -1);
        }
    } else {
        lemma_index_of_key_push(names.drop_first(), s, k);
        assert(names.push(s).drop_first() =~= names.drop_first().push(s));
        if names[0] == k {
            assert(index_of_key(names, k) == 0);
            assert(index_of_key(names.push(s), k) == 0);
        } else {
            assert(index_of_key(names.push(s), k) == if index_of_key(
                names.push(s).drop_first(),
                k,
            ) < 0 {
                -1
            } else {
                index_of_key(names.push(s).drop_first(), k) + 1
            });
        }
    }
}

/// If `k` first appears at position `j`, the first index is `j`.
pub proof fn lemma_index_of_key_first(names: Seq<Seq<char>>, k: Seq<char>, j: int)
    requires
        0 <= j < names.len(),
        names[j] == k,
        forall|i: int| 0 <= i < j ==> names[i] != k,
    ensures
        index_of_key(names, k) == j,
    decreases names.len(),
{
    if j > 0 {
        lemma_index_of_key_first(names.drop_first(), k, j - 1);
    }
}

/// The named, mutable scalar registry shared by all samplers for the life of
/// a run. Each name is assigned a dense slot index in first-seen order, and
/// once assigned a name keeps its index forever; every slot starts at the
/// zero word until a sampler writes it.
pub struct DataHolder {
    names: Vec<String>,
    values: Vec<Scalar>,
}

impl DataHolder {
    /// The registered names, in slot order.
    pub closed spec fn names(&self) -> Seq<Seq<char>> {
        self.names@.map(|i: int, s: String| s@)
    }

    /// The slot values, in slot order.
    pub closed spec fn values(&self) -> Seq<Scalar> {
        self.values@
    }

    /// One value slot per name, and no name registered twice.
    pub open spec fn wf(&self) -> bool {
        &&& self.values().len() == self.names().len()
        &&& forall|i: int, j: int|
            0 <= i < j < self.names().len() ==> self.names()[i] != self.names()[j]
    }

    /// Whether `k` already owns a slot.
    pub open spec fn has_key(&self, k: Seq<char>) -> bool {
        index_of_key(self.names(), k) >= 0
    }

    /// The slot index of `k` (meaningful only when `has_key(k)`).
    pub open spec fn key_index(&self, k: Seq<char>) -> int {
        index_of_key(self.names(), k)
    }

    /// Whether this registry grew out of `pre`: every slot of `pre` is still
    /// there, under the same name and index.
    pub open spec fn grew_from(&self, pre: DataHolder) -> bool {
        pre.names().is_prefix_of(self.names())
    }

    /// How many slots are allocated.
    pub fn len(&self) -> (r: usize)
        ensures
            r == self.names().len(),
    {
        self.names.len()
    }

    pub fn new() -> (r: DataHolder)
        ensures
            r.wf(),
            r.names().len() == 0,
    {
        DataHolder { names: Vec::new(), values: Vec::new() }
    }

    /// The slot index for `key`: the slot it already owns, or else the next
    /// dense index, with a fresh zero-valued slot appended. Idempotent and
    /// stable: the same name yields the same index on every call, for the
    /// lifetime of the registry.
    pub fn add_key(&mut self, key: &String) -> (idx: usize)
        requires
            old(self).wf(),
        ensures
            final(self).wf(),
            final(self).grew_from(*old(self)),
            idx < final(self).names().len(),
            final(self).key_index(key@) == idx as int,
            final(self).names()[idx as int] == key@,
            old(self).has_key(key@) ==> *final(self) == *old(self) && idx as int == old(self).key_index(key@),
            !old(self).has_key(key@) ==> idx as int == old(self).names().len()
                && final(self).names() == old(self).names().push(key@)
                && final(self).values() == old(self).values().push(Scalar::zero_spec()),
    {
        let ghost pre = *self;
        let mut j: usize = 0;
        while j < self.names.len()
            invariant
                *self == pre,
                self.wf(),
                j <= self.names@.len(),
                forall|i: int| 0 <= i < j ==> self.names()[i] != key@,
            decreases self.names@.len() - j,
        {
            if self.names[j] == *key {
                proof {
                    lemma_index_of_key_first(self.names(), key@, j as int);
                }
                return j;
            }
            j += 1;
        }
        proof {
            lemma_index_of_key_range(self.names(), key@);
        }
        let idx = self.names.len();
        self.names.push(key.clone());
        self.values.push(Scalar::zero());
        proof {
            assert(self.names() =~= pre.names().push(key@));
            lemma_index_of_key_push(pre.names(), key@, key@);
            assert forall|i: int, j2: int|
                0 <= i < j2 < self.names().len() implies self.names()[i] != self.names()[j2] by {
                if j2 == self.names().len() - 1 {
                    lemma_index_of_key_range(pre.names(), self.names()[i]);
                }
            }
        }
        idx
    }

    /// The slot index `key` owns, if any.
    pub fn get_key(&self, key: &String) -> (r: Option<usize>)
        requires
            self.wf(),
        ensures
            match r {
                Some(i) => self.has_key(key@) && i as int == self.key_index(key@),
                None => !self.has_key(key@),
            },
    {
        let mut j: usize = 0;
        while j < self.names.len()
            invariant
                self.wf(),
                j <= self.names@.len(),
                forall|i: int| 0 <= i < j ==> self.names()[i] != key@,
            decreases self.names@.len() - j,
        {
            if self.names[j] == *key {
                proof {
                    lemma_index_of_key_first(self.names(), key@, j as int);
                }
                return Some(j);
            }
            j += 1;
        }
        proof {
            lemma_index_of_key_range(self.names(), key@);
        }
        None
    }

    /// Writes a slot in place.
    pub fn set(&mut self, key: usize, value: Scalar)
        requires
            old(self).wf(),
            key < old(self).values().len(),
        ensures
            final(self).wf(),
            final(self).names() == old(self).names(),
            final(self).values() == old(self).values().update(key as int, value),
            final(self).grew_from(*old(self)),
    {
        self.values.set(key, value);
        proof {
            assert(self.names() =~= old(self).names());
            assert(self.names().is_prefix_of(self.names()));
        }
    }

    /// Reads a slot.
    pub fn get(&self, key: usize) -> (r: Scalar)
        requires
            self.wf(),
            key < self.values().len(),
        ensures
            r == self.values()[key as int],
    {
        self.values[key]
    }
}


/// Growth of the registry is reflexive and composes.
pub proof fn lemma_grew_refl(h: DataHolder)
    ensures
        h.grew_from(h),
{
    assert(h.names() =~= h.names().subrange(0, h.names().len() as int));
}

pub proof fn lemma_grew_trans(a: DataHolder, b: DataHolder, c: DataHolder)
    requires
        b.grew_from(a),
        c.grew_from(b),
    ensures
        c.grew_from(a),
{
    assert(a.names() =~= c.names().subrange(0, a.names().len() as int));
}

/// Two samplers that resolve the same name get the same slot: resolving a
/// name that already owns a slot moves nothing, and any later growth of the
/// registry keeps every existing name at its index.
pub proof fn lemma_slot_stable(pre: DataHolder, post: DataHolder, k: Seq<char>)
    requires
        pre.wf(),
        post.wf(),
        post.grew_from(pre),
        pre.has_key(k),
    ensures
        post.has_key(k),
        post.key_index(k) == pre.key_index(k),
    decreases pre.names().len(),
{
    lemma_index_of_key_range(pre.names(), k);
    lemma_grown_index(pre.names(), post.names(), k);
}

proof fn lemma_grown_index(pre: Seq<Seq<char>>, post: Seq<Seq<char>>, k: Seq<char>)
    requires
        pre.is_prefix_of(post),
        index_of_key(pre, k) >= 0,
    ensures
        index_of_key(post, k) == index_of_key(pre, k),
    decreases pre.len(),
{
    if pre.len() > 0 && pre[0] != k {
        assert(pre.drop_first().is_prefix_of(post.drop_first()));
        lemma_grown_index(pre.drop_first(), post.drop_first(), k);
    }
}

} // verus!
