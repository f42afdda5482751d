//! Recycling allocator of correlation tags, backed by a slab of unit slots.

use vstd::prelude::*;
use vstd::set_lib::{lemma_int_range, lemma_len_subset, lemma_map_size, set_int_range};

use crate::frame::Tagged;

verus! {

#[verifier::external_type_specification]
#[verifier::external_body]
#[verifier::reject_recursive_types(T)]
pub struct ExSlab<T>(slab::Slab<T>);

/// The keys of the occupied slots of a slab of unit values.
pub uninterp spec fn slab_keys(s: slab::Slab<()>) -> Set<usize>;

/// The key that the slab's next insertion takes (its `vacant_key`).
pub uninterp spec fn slab_next(s: slab::Slab<()>) -> usize;

/// The number of slots the slab has laid out, occupied or vacant.
pub uninterp spec fn slab_slots(s: slab::Slab<()>) -> usize;

/// How a slab lays out its slots: every occupied key is below the slot
/// count; the next key is a vacant slot, or the slot count when no slot
/// below it is vacant.
pub open spec fn slab_layout(s: slab::Slab<()>) -> bool {
    &&& forall|k: usize| #[trigger] slab_keys(s).contains(k) ==> k < slab_slots(s)
    &&& slab_next(s) <= slab_slots(s)
    &&& slab_next(s) < slab_slots(s) ==> !slab_keys(s).contains(slab_next(s))
    &&& slab_next(s) == slab_slots(s) ==> forall|k: usize|
        k < slab_slots(s) ==> #[trigger] slab_keys(s).contains(k)
}

/// Relies on `slab::Slab::new`: a new slab has no slot, and its first
/// insertion takes key 0.
#[verifier::external_body]
fn slab_new() -> (r: slab::Slab<()>)
    ensures
        slab_keys(r) == Set::<usize>::empty(),
        slab_next(r) == 0,
        slab_slots(r) == 0,
{
    slab::Slab::new()
}

/// Relies on `slab::Slab::vacant_key`: the key of the next insertion.
#[verifier::external_body]
fn slab_vacant_key(s: &slab::Slab<()>) -> (r: usize)
    ensures
        r == slab_next(*s),
{
    s.vacant_key()
}

/// Relies on `slab::Slab::insert`: it occupies the vacant slot `next` and
/// returns its key; when that key is the slot count, a slot is appended and
/// the next key follows it. Like `Vec::push`, it panics only when the storage
/// would exceed `isize::MAX` bytes.
#[verifier::external_body]
fn slab_insert(s: &mut slab::Slab<()>) -> (r: usize)
    ensures
        r == slab_next(*old(s)),
        !slab_keys(*old(s)).contains(r),
        slab_keys(*final(s)) == slab_keys(*old(s)).insert(r),
        r == slab_slots(*old(s)) ==> slab_slots(*final(s)) == r + 1 && slab_next(*final(s)) == r + 1,
        r != slab_slots(*old(s)) ==> slab_slots(*final(s)) == slab_slots(*old(s)),
        slab_layout(*final(s)),
{
    s.insert(())
}

/// Relies on `slab::Slab::remove`: the occupied slot `key` becomes vacant and
/// is the key of the next insertion; it panics on a vacant key, which
/// `requires` rules out.
#[verifier::external_body]
fn slab_remove(s: &mut slab::Slab<()>, key: usize)
    requires
        slab_keys(*old(s)).contains(key),
    ensures
        slab_keys(*final(s)) == slab_keys(*old(s)).remove(key),
        slab_next(*final(s)) == key,
        slab_slots(*final(s)) == slab_slots(*old(s)),
        slab_layout(*final(s)),
{
    s.remove(key);
}

/// Relies on `slab::Slab::contains`: whether the slot `key` is occupied.
#[verifier::external_body]
fn slab_contains(s: &slab::Slab<()>, key: usize) -> (r: bool)
    ensures
        r == slab_keys(*s).contains(key),
{
    s.contains(key)
}

/// Relies on `slab::Slab::is_empty`: whether no slot is occupied.
#[verifier::external_body]
fn slab_is_empty(s: &slab::Slab<()>) -> (r: bool)
    ensures
        r == slab_keys(*s).is_empty(),
{
    s.is_empty()
}

/// `after` is `before` with the tag `t`, which was not live, added.
pub open spec fn allocates(before: Set<u32>, after: Set<u32>, t: u32) -> bool {
    &&& !before.contains(t)
    &&& after == before.insert(t)
}

/// `after` is `before` with the live tag `t` taken out.
pub open spec fn releases(before: Set<u32>, after: Set<u32>, t: u32) -> bool {
    &&& before.contains(t)
    &&& after == before.remove(t)
}

/// Each tag handed out by a run of allocations is live after the run, as is
/// every tag that was live before it.
proof fn lemma_allocation_run_keeps(states: Seq<Set<u32>>, tags: Seq<u32>, k: int)
    requires
        states.len() == tags.len() + 1,
        forall|i: int| 0 <= i < tags.len() ==> #[trigger] allocates(states[i], states[i + 1], tags[i]),
        0 <= k <= tags.len(),
    ensures
        forall|i: int| 0 <= i < k ==> states[k].contains(#[trigger] tags[i]),
        forall|t: u32| states[0].contains(t) ==> states[k].contains(t),
    decreases k,
{
    if k > 0 {
        lemma_allocation_run_keeps(states, tags, k - 1);
        assert(allocates(states[k - 1], states[(k - 1) + 1], tags[k - 1]));
    }
}

/// Allocations with no release between them hand out pairwise distinct tags,
/// none of which was live before, and all of which are live afterwards.
pub proof fn lemma_allocations_distinct(states: Seq<Set<u32>>, tags: Seq<u32>)
    requires
        states.len() == tags.len() + 1,
        forall|i: int| 0 <= i < tags.len() ==> #[trigger] allocates(states[i], states[i + 1], tags[i]),
    ensures
        forall|i: int, j: int| 0 <= i < j < tags.len() ==> tags[i] != tags[j],
        forall|i: int| 0 <= i < tags.len() ==> !states[0].contains(#[trigger] tags[i]),
        forall|i: int| 0 <= i < tags.len() ==> states[tags.len() as int].contains(#[trigger] tags[i]),
{
    assert forall|i: int, j: int| 0 <= i < j < tags.len() implies tags[i] != tags[j] by {
        lemma_allocation_run_keeps(states, tags, j);
        assert(allocates(states[j], states[j + 1], tags[j]));
    }
    assert forall|i: int| 0 <= i < tags.len() implies !states[0].contains(#[trigger] tags[i]) by {
        lemma_allocation_run_keeps(states, tags, i);
        assert(allocates(states[i], states[i + 1], tags[i]));
    }
    lemma_allocation_run_keeps(states, tags, tags.len() as int);
}

/// Releasing a tag just after allocating it gives back the live set from
/// before; the tag is not live in between, and may be allocated again.
pub proof fn lemma_release_then_reuse(s0: Set<u32>, s1: Set<u32>, s2: Set<u32>, t: u32)
    requires
        allocates(s0, s1, t),
        releases(s1, s2, t),
    ensures
        !s2.contains(t),
        s2 == s0,
        allocates(s2, s1, t),
{
    assert(s2 =~= s0);
}

/// A released tag stays out of the live set through any run of allocations
/// and releases until an allocation hands it out again.
pub proof fn lemma_released_stays_out(
    states: Seq<Set<u32>>,
    allocs: Seq<bool>,
    tags: Seq<u32>,
    t: u32,
)
    requires
        states.len() == tags.len() + 1,
        allocs.len() == tags.len(),
        forall|i: int| 0 <= i < tags.len() ==> #[trigger] allocs[i] ==> allocates(states[i], states[i + 1], tags[i]),
        forall|i: int| 0 <= i < tags.len() ==> !#[trigger] allocs[i] ==> releases(states[i], states[i + 1], tags[i]),
        !states[0].contains(t),
        forall|i: int| 0 <= i < tags.len() && allocs[i] ==> #[trigger] tags[i] != t,
    ensures
        forall|i: int| 0 <= i < states.len() ==> !#[trigger] states[i].contains(t),
    decreases tags.len(),
{
    if tags.len() > 0 {
        let n = tags.len() - 1;
        lemma_released_stays_out(states.drop_last(), allocs.drop_last(), tags.drop_last(), t);
        assert(states.drop_last()[n] == states[n]);
        assert(!states[n].contains(t));
        if allocs[n] {
            assert(allocates(states[n], states[n + 1], tags[n]));
        } else {
            assert(releases(states[n], states[n + 1], tags[n]));
        }
        assert forall|i: int| 0 <= i < states.len() implies !#[trigger] states[i].contains(t) by {
            if i < states.len() - 1 {
                assert(states.drop_last()[i] == states[i]);
            }
        }
    }
}

/// Hands out tags that are distinct among the live ones and recycles released
/// tags before growing.
#[derive(Debug)]
pub struct Tagger(slab::Slab<()>);

/// One allocation from `pre` to `post` that gave `r`: a tag comes back
/// exactly when some tag is free, that is when the next tag is below 2^32,
/// and it is the tagger's next tag; a tag at
/// the high-water mark raises it by one, any other reuses a freed slot.
pub open spec fn allocation(pre: Tagger, post: Tagger, r: Option<u32>) -> bool {
    &&& (r is None <==> forall|t: u32| #[trigger] pre.live().contains(t))
    &&& (r is None <==> pre.next_tag() == 0x1_0000_0000)
    &&& (pre.live().len() < 0x1_0000_0000 ==> r is Some)
    &&& match r {
        Some(t) => {
            &&& t as nat == pre.next_tag()
            &&& allocates(pre.live(), post.live(), t)
            &&& if t as nat == pre.high_water() {
                post.high_water() == t + 1 && post.next_tag() == t + 1
            } else {
                post.high_water() == pre.high_water()
            }
        },
        None => post == pre,
    }
}

impl Tagger {
    /// The slab keeps its layout, and no slot lies beyond the range of tags.
    pub closed spec fn wf(&self) -> bool {
        &&& slab_layout(self.0)
        &&& slab_slots(self.0) <= 0x1_0000_0000
    }

    /// The tags that are live: allocated and not yet released.
    pub closed spec fn live(&self) -> Set<u32> {
        Set::new(|t: u32| slab_keys(self.0).contains(t as usize))
    }

    /// The tag that the next allocation hands out, if it is a tag at all.
    pub closed spec fn next_tag(&self) -> nat {
        slab_next(self.0) as nat
    }

    /// One more than the greatest tag ever handed out (0 before the first).
    pub closed spec fn high_water(&self) -> nat {
        slab_slots(self.0) as nat
    }

    /// How the tags lie: live tags are below the high-water mark, which is
    /// at most 2^32; the next tag is a freed one below the mark, or the mark
    /// itself when every tag below it is live.
    pub proof fn lemma_layout(&self)
        requires
            self.wf(),
        ensures
            forall|t: u32| #[trigger] self.live().contains(t) ==> (t as nat) < self.high_water(),
            self.high_water() <= 0x1_0000_0000,
            self.next_tag() <= self.high_water(),
            self.next_tag() < self.high_water() ==> !self.live().contains(self.next_tag() as u32),
            self.next_tag() == self.high_water() ==> forall|t: u32|
                #[trigger] self.live().contains(t) <==> (t as nat) < self.high_water(),
    {
        assert forall|t: u32| #[trigger] self.live().contains(t) implies (t as nat) < self.high_water() by {
            assert(slab_keys(self.0).contains(t as usize));
        }
        if self.next_tag() == self.high_water() {
            assert forall|t: u32| (t as nat) < self.high_water() implies #[trigger] self.live().contains(t) by {
                assert(slab_keys(self.0).contains(t as usize));
            }
        }
    }

    /// The live tags are finitely many, at most the high-water mark; exactly
    /// that many when the next tag is the mark.
    pub proof fn lemma_count(&self)
        requires
            self.wf(),
        ensures
            self.live().finite(),
            self.live().len() <= self.high_water(),
            self.next_tag() == self.high_water() ==> self.live().len() == self.high_water(),
    {
        let hw = self.high_water() as int;
        let range = set_int_range(0, hw);
        let to_tag = |i: int| i as u32;
        let below = range.map(to_tag);
        self.lemma_layout();
        lemma_int_range(0, hw);
        assert forall|x: int, y: int| range.contains(x) && range.contains(y) && #[trigger] to_tag(x) == #[trigger] to_tag(y) implies x == y by {}
        lemma_map_size(range, below, to_tag);
        assert forall|t: u32| self.live().contains(t) implies #[trigger] below.contains(t) by {
            assert(range.contains(t as int) && to_tag(t as int) == t);
        }
        lemma_len_subset(self.live(), below);
        if self.next_tag() == self.high_water() {
            assert forall|t: u32| #[trigger] below.contains(t) implies self.live().contains(t) by {
                let i = choose|i: int| range.contains(i) && to_tag(i) == t;
                assert((t as nat) < self.high_water());
            }
            assert(self.live() =~= below);
        }
    }

    /// A tagger with no live tag, whose first tag is 0.
    pub fn new() -> (r: Tagger)
        ensures
            r.wf(),
            r.live() == Set::<u32>::empty(),
            r.next_tag() == 0,
            r.high_water() == 0,
    {
        let r = Tagger(slab_new());
        assert(r.live() =~= Set::<u32>::empty());
        r
    }

    /// Whether `tag` is live.
    pub fn is_live(&self, tag: u32) -> (r: bool)
        requires
            self.wf(),
        ensures
            r == self.live().contains(tag),
    {
        slab_contains(&self.0, tag as usize)
    }

    /// Whether no tag is live.
    pub fn is_empty(&self) -> (r: bool)
        requires
            self.wf(),
        ensures
            r == self.live().is_empty(),
    {
        let r = slab_is_empty(&self.0);
        proof {
            if !r {
                let k = choose|k: usize| slab_keys(self.0).contains(k);
                assert(self.live().contains(k as u32));
            } else {
                assert(self.live() =~= Set::<u32>::empty());
            }
        }
        r
    }

    /// Allocates the next tag and makes it live: the most recently released
    /// tag, else the high-water mark. Gives `None`, and changes nothing, only
    /// when all 2^32 tags are live.
    pub fn allocate(&mut self) -> (r: Option<u32>)
        requires
            old(self).wf(),
        ensures
            final(self).wf(),
            allocation(*old(self), *final(self), r),
    {
        let key = slab_vacant_key(&self.0);
        if key <= u32::MAX as usize {
            let t = key as u32;
            proof {
                if key < slab_slots(self.0) {
                } else {
                    assert(!slab_keys(self.0).contains(key));
                }
                assert(!old(self).live().contains(t));
            }
            slab_insert(&mut self.0);
            assert(self.live() =~= old(self).live().insert(t));
            Some(t)
        } else {
            assert forall|t: u32| #[trigger] old(self).live().contains(t) by {
                assert(slab_keys(self.0).contains(t as usize));
            }
            proof {
                self.lemma_count();
            }
            None
        }
    }

    /// Releases the live tag `tag`, which becomes the next tag allocated.
    pub fn release(&mut self, tag: u32)
        requires
            old(self).wf(),
            old(self).live().contains(tag),
        ensures
            final(self).wf(),
            releases(old(self).live(), final(self).live(), tag),
            final(self).next_tag() == tag,
            final(self).high_water() == old(self).high_water(),
    {
        slab_remove(&mut self.0, tag as usize);
        assert(self.live() =~= old(self).live().remove(tag));
    }

    /// Gives `r` the next tag, as `allocate` does, and returns it. Gives
    /// `None`, changing neither, only when all 2^32 tags are live.
    pub fn assign_tag<T>(&mut self, r: &mut Tagged<T>) -> (res: Option<u32>)
        requires
            old(self).wf(),
        ensures
            final(self).wf(),
            allocation(*old(self), *final(self), res),
            final(r).v == old(r).v,
            final(r).tag == match res {
                Some(t) => t,
                None => old(r).tag,
            },
    {
        let res = self.allocate();
        if let Some(t) = res {
            r.tag = t;
        }
        res
    }

    /// Releases the tag that the response `r` carries, which must be live,
    /// and returns it.
    pub fn finish_tag<T>(&mut self, r: &Tagged<T>) -> (res: u32)
        requires
            old(self).wf(),
            old(self).live().contains(r.tag),
        ensures
            final(self).wf(),
            res == r.tag,
            releases(old(self).live(), final(self).live(), r.tag),
            final(self).next_tag() == r.tag,
            final(self).high_water() == old(self).high_water(),
    {
        self.release(r.tag);
        r.tag
    }
}

impl Default for Tagger {
    /// A tagger with no live tag.
    fn default() -> (r: Tagger)
        ensures
            r.wf(),
            r.live() == Set::<u32>::empty(),
            r.next_tag() == 0,
            r.high_water() == 0,
    {
        Tagger::new()
    }
}

} // verus!
