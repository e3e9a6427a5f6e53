use vstd::prelude::*;

verus! {

/// A ball. `S` is the type of a number, `V` that of a vector.
pub struct Sphere<S, V> {
    pub center: V,
    pub radius: S,
}

/// A parallelogram around `center`, spanned by `u` and `v` to either side.
pub struct Plane<V> {
    pub center: V,
    pub u: V,
    pub v: V,
}

/// A shape that a ray can hit.
pub enum Geometry<S, V> {
    Plane(Plane<V>),
    Sphere(Sphere<S, V>),
}

/// The frame of a point on a surface: tangent, bitangent and normal.
#[derive(Clone, Debug, PartialEq)]
pub struct Tbn3<V> {
    pub t: V,
    pub b: V,
    pub n: V,
}

/// Where a ray met a shape: the ray parameter `t`, the surface coordinates
/// `u` and `v`, the point and its frame.
#[derive(Clone, Debug, PartialEq)]
pub struct HitInfo<S, V> {
    pub t: S,
    pub u: S,
    pub v: S,
    pub pos: V,
    pub tbn: Tbn3<V>,
}

/// The sign-and-magnitude reading of a 32-bit pattern: the top bit is the
/// sign, the other 31 are the magnitude. The bit pattern of an IEEE 754
/// single is laid out so that numbers compare as these readings do.
pub open spec fn signed_reading(bits: u32) -> int {
    if bits >= 0x8000_0000 {
        0x8000_0000 - bits
    } else {
        bits as int
    }
}

/// Turns the bit pattern of a ray parameter into an unsigned key that is
/// ordered as the parameters are: the sign-and-magnitude reading, moved up
/// by 2^31. Both zeros get the same key.
pub fn order_key(bits: u32) -> (key: u32)
    ensures
        key == signed_reading(bits) + 0x8000_0000,
{
    if bits >= 0x8000_0000 {
        0x8000_0000 - (bits - 0x8000_0000)
    } else {
        bits + 0x8000_0000
    }
}

/// Keys are ordered as the readings of their bit patterns, and equal only
/// for equal readings.
pub proof fn lemma_order_key_is_monotone(a: u32, b: u32)
    ensures
        signed_reading(a) < signed_reading(b) <==> signed_reading(a) + 0x8000_0000 < signed_reading(
            b,
        ) + 0x8000_0000,
        0 < signed_reading(a) + 0x8000_0000 <= u32::MAX,
        signed_reading(a) == signed_reading(b) <==> a == b || (signed_reading(a) == 0
            && signed_reading(b) == 0),
{
}

/// An item that a ray hits, with the key that its distance is ordered by.
#[derive(Clone, Copy, Debug, PartialEq, Eq, Structural)]
pub struct Candidate {
    pub item: usize,
    pub key: u32,
}

/// The nearer of the best hit so far and a new one. The new one wins only
/// if its key is smaller: on a tie the earlier hit stays.
pub open spec fn spec_offer(best: Option<Candidate>, item: usize, key: u32) -> Option<Candidate> {
    match best {
        Some(b) => if key < b.key {
            Some(Candidate { item, key })
        } else {
            best
        },
        None => Some(Candidate { item, key }),
    }
}

/// The nearest hit among `keys`, where `keys[i]` is the key of the hit on
/// item `i`, or `None` where the ray misses it: the hits are offered one by
/// one, from the first item to the last.
pub open spec fn nearest_of(keys: Seq<Option<u32>>) -> Option<Candidate>
    decreases keys.len(),
{
    if keys.len() == 0 {
        None
    } else {
        let before = nearest_of(keys.drop_last());
        match keys.last() {
            Some(key) => spec_offer(before, (keys.len() - 1) as usize, key),
            None => before,
        }
    }
}

/// Takes a new hit into account.
pub fn offer(best: Option<Candidate>, item: usize, key: u32) -> (r: Option<Candidate>)
    ensures
        r == spec_offer(best, item, key),
{
    match best {
        Some(b) => if key < b.key {
            Some(Candidate { item, key })
        } else {
            best
        },
        None => Some(Candidate { item, key }),
    }
}

/// The nearest hit is a hit, no hit has a smaller key, and every hit before
/// it has a larger one: the first of the nearest wins. There is none only
/// where the ray misses every item.
pub proof fn lemma_nearest_of(keys: Seq<Option<u32>>)
    requires
        keys.len() <= usize::MAX,
    ensures
        nearest_of(keys) is None <==> forall|i: int| 0 <= i < keys.len() ==> keys[i] is None,
        nearest_of(keys) matches Some(best) ==> {
            &&& best.item < keys.len()
            &&& keys[best.item as int] == Some(best.key)
            &&& forall|i: int|
                0 <= i < keys.len() && keys[i] is Some ==> best.key <= (#[trigger] keys[i])->0
            &&& forall|i: int|
                0 <= i < best.item && keys[i] is Some ==> best.key < (#[trigger] keys[i])->0
        },
    decreases keys.len(),
{
    if keys.len() > 0 {
        let front = keys.drop_last();
        lemma_nearest_of(front);
        assert forall|i: int| 0 <= i < front.len() implies front[i] == keys[i] by {}
        if nearest_of(keys) is None {
            assert forall|i: int| 0 <= i < keys.len() implies keys[i] is None by {}
        }
        if let Some(best) = nearest_of(keys) {
            assert forall|i: int| 0 <= i < keys.len() && keys[i] is Some implies best.key <= (
            #[trigger] keys[i])->0 by {}
            assert forall|i: int| 0 <= i < best.item && keys[i] is Some implies best.key < (
            #[trigger] keys[i])->0 by {}
        }
    }
}

} // verus!
