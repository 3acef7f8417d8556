use vstd::prelude::*;
use vstd::seq_lib::to_multiset_update;
use crate::math::vec3::Vec3;
use crate::random::random_below;

verus! {

/// The number of lattice gradients, and the length of each permutation table.
pub const POINT_COUNT: usize = 256;

/// The table `0, 1, .., count - 1`.
pub open spec fn identity_table(count: nat) -> Seq<i32> {
    Seq::new(count, |i: int| i as i32)
}

/// Whether `table` holds the numbers `0..count`, each once, in some order.
pub open spec fn is_shuffle(table: Seq<i32>, count: nat) -> bool {
    table.to_multiset() == identity_table(count).to_multiset()
}

/// The table with the entries at the places `i` and `j` changed over.
pub open spec fn exchanged(table: Seq<i32>, i: int, j: int) -> Seq<i32> {
    table.update(i, table[j]).update(j, table[i])
}

/// Whether `places` names, for each place of a table of `len` entries but the
/// first, a place before it.
pub open spec fn draws_before(places: Seq<int>, len: nat) -> bool {
    &&& places.len() == len
    &&& forall|i: int| 1 <= i < len ==> 0 <= #[trigger] places[i] < i
}

/// The table after each place from the last down to `from` has changed its
/// entry with that of the place `places` names for it, the last place first.
pub open spec fn shuffled_down(table: Seq<i32>, places: Seq<int>, from: int) -> Seq<i32>
    decreases table.len() - from,
{
    if from < 1 || from >= table.len() {
        table
    } else {
        exchanged(shuffled_down(table, places, from + 1), from, places[from])
    }
}

/// Whether `table` is what the shuffle makes of `0..count`, whatever is drawn.
pub open spec fn drawn_shuffle(table: Seq<i32>, count: nat) -> bool {
    exists|places: Seq<int>|
        #[trigger] draws_before(places, count) && table == shuffled_down(
            identity_table(count),
            places,
            1,
        )
}

/// What is drawn for the places before `from` does not matter to the shuffle
/// down to `from`.
pub proof fn lemma_shuffled_down_reads_above(
    table: Seq<i32>,
    places: Seq<int>,
    from: int,
    i: int,
    place: int,
)
    requires
        places.len() == table.len(),
        0 <= i < from,
    ensures
        shuffled_down(table, places.update(i, place), from) == shuffled_down(table, places, from),
    decreases table.len() - from,
{
    if from < table.len() {
        lemma_shuffled_down_reads_above(table, places, from + 1, i, place);
    }
}

/// A shuffle rearranges the table: no entry is lost or added, and the last
/// place, if there is more than one, holds an entry that stood before it.
pub proof fn lemma_shuffled_down_rearranges(table: Seq<i32>, places: Seq<int>, from: int)
    requires
        draws_before(places, table.len()),
        1 <= from,
    ensures
        shuffled_down(table, places, from).len() == table.len(),
        shuffled_down(table, places, from).to_multiset() == table.to_multiset(),
        from < table.len() ==> shuffled_down(table, places, from)[table.len() - 1]
            == table[places[table.len() - 1]],
    decreases table.len() - from,
{
    if from < table.len() {
        lemma_shuffled_down_rearranges(table, places, from + 1);
        let before = shuffled_down(table, places, from + 1);
        let j = places[from];
        broadcast use vstd::multiset::group_multiset_axioms;
        to_multiset_update(before, from, before[j]);
        to_multiset_update(before.update(from, before[j]), j, before[from]);
        before.to_multiset_ensures();
        assert(exchanged(before, from, j).to_multiset() =~= before.to_multiset());
    }
}

/// The residue of a lattice coordinate in `0..256`.
pub open spec fn wrapped(i: int) -> int {
    i % 256
}

/// A shuffle of `0..count` has `count` entries, all within `0..count`.
pub proof fn lemma_shuffle_in_range(table: Seq<i32>, count: nat)
    requires
        is_shuffle(table, count),
        count <= i32::MAX,
    ensures
        table.len() == count,
        forall|i: int| 0 <= i < table.len() ==> 0 <= #[trigger] table[i] < count,
{
    let id = identity_table(count);
    table.to_multiset_ensures();
    id.to_multiset_ensures();
    assert forall|i: int| 0 <= i < table.len() implies 0 <= #[trigger] table[i] < count by {
        // The entry occurs in the table, so it occurs in the identity table.
        assert(id.to_multiset().count(table[i]) > 0);
        let k = choose|k: int| 0 <= k < id.len() && id[k] == table[i];
        assert(id[k] == k as i32);
    }
}

/// The noise lattice: a gradient for each of 256 cells, and a shuffle of the
/// cells for each axis.
pub struct Perlin {
    pub ranvec: Vec<Vec3>,
    pub perm_x: Vec<i32>,
    pub perm_y: Vec<i32>,
    pub perm_z: Vec<i32>,
}

impl Perlin {
    /// Each of the three tables is what the shuffle makes of `0..256`.
    pub open spec fn shuffled(&self) -> bool {
        &&& drawn_shuffle(self.perm_x@, POINT_COUNT as nat)
        &&& drawn_shuffle(self.perm_y@, POINT_COUNT as nat)
        &&& drawn_shuffle(self.perm_z@, POINT_COUNT as nat)
    }

    /// There are 256 gradients, and each table is a shuffle of `0..256`.
    pub open spec fn wf(&self) -> bool {
        &&& self.ranvec@.len() == POINT_COUNT
        &&& is_shuffle(self.perm_x@, POINT_COUNT as nat)
        &&& is_shuffle(self.perm_y@, POINT_COUNT as nat)
        &&& is_shuffle(self.perm_z@, POINT_COUNT as nat)
    }

    /// The cell of the lattice point `(i, j, k)`: the three tables' entries
    /// at the wrapped coordinates, combined bit by bit.
    pub open spec fn cell(&self, i: int, j: int, k: int) -> int {
        (self.perm_x@[wrapped(i)] ^ self.perm_y@[wrapped(j)] ^ self.perm_z@[wrapped(k)]) as int
    }

    /// The gradients at the eight corners of the lattice cube whose lowest
    /// corner is `(i, j, k)`, the x offset counting slowest and the z offset
    /// fastest.
    pub open spec fn corners(&self, i: int, j: int, k: int) -> Seq<Vec3> {
        Seq::new(
            8,
            |n: int| self.ranvec@[self.cell(i + n / 4, j + (n / 2) % 2, k + n % 2)],
        )
    }

    /// The lattice with the given gradients and three fresh shuffles; none
    /// unless there are 256 gradients.
    pub fn new(ranvec: Vec<Vec3>) -> (r: Option<Self>)
        ensures
            r is Some <==> ranvec@.len() == POINT_COUNT,
            r is Some ==> r.unwrap().wf() && r.unwrap().shuffled() && r.unwrap().ranvec == ranvec,
    {
        if ranvec.len() != POINT_COUNT {
            return None;
        }
        let perm_x = Self::perlin_generate_perm();
        let perm_y = Self::perlin_generate_perm();
        let perm_z = Self::perlin_generate_perm();
        Some(Self { ranvec, perm_x, perm_y, perm_z })
    }

    /// A fresh shuffle of `0..256`: the table `0, 1, .., 255` after each place
    /// from the last down to the second has changed its entry with that of a
    /// place before it, drawn at random.
    pub fn perlin_generate_perm() -> (buf: Vec<i32>)
        ensures
            drawn_shuffle(buf@, POINT_COUNT as nat),
            is_shuffle(buf@, POINT_COUNT as nat),
    {
        let mut buf: Vec<i32> = Vec::new();
        let mut i: usize = 0;
        while i < POINT_COUNT
            invariant
                i <= POINT_COUNT,
                buf@ == identity_table(i as nat),
            decreases POINT_COUNT - i,
        {
            buf.push(i as i32);
            i = i + 1;
        }
        Self::permute(&mut buf);
        buf
    }

    /// Shuffles the table: from the last place down to the second, each place
    /// changes its entry with that of a place before it, drawn at random.
    /// Whatever is drawn, the table is rearranged, and no place but the first
    /// is left out of the changes.
    pub fn permute(buf: &mut Vec<i32>)
        ensures
            exists|places: Seq<int>|
                #[trigger] draws_before(places, old(buf)@.len()) && final(buf)@ == shuffled_down(
                    old(buf)@,
                    places,
                    1,
                ),
            final(buf)@.to_multiset() == old(buf)@.to_multiset(),
            final(buf)@.len() == old(buf)@.len(),
    {
        let ghost mut places: Seq<int> = Seq::new(buf@.len(), |i: int| 0int);
        if buf.len() < 2 {
            proof {
                assert(draws_before(places, buf@.len()));
            }
            return ;
        }
        let mut i: usize = buf.len() - 1;
        while i >= 1
            invariant
                i < buf@.len(),
                buf@.len() == old(buf)@.len(),
                places.len() == buf@.len(),
                forall|k: int| i < k < buf@.len() ==> 0 <= #[trigger] places[k] < k,
                buf@ == shuffled_down(old(buf)@, places, i + 1),
            decreases i,
        {
            let target: usize = random_below(i);
            let a: i32 = buf[i];
            let b: i32 = buf[target];
            buf[i] = b;
            buf[target] = a;
            proof {
                lemma_shuffled_down_reads_above(old(buf)@, places, i + 1, i as int, target as int);
                places = places.update(i as int, target as int);
            }
            i = i - 1;
        }
        proof {
            assert(draws_before(places, old(buf)@.len()));
            lemma_shuffled_down_rearranges(old(buf)@, places, 1);
        }
    }

    fn wrap(i: i32) -> (r: usize)
        ensures
            r == wrapped(i as int),
            r < 256,
    {
        let r: i32 = i & 255;
        assert(0 <= (i & 255i32) < 256 && (i & 255i32) == (i as int) % 256) by (bit_vector);
        r as usize
    }

    fn cell_index(&self, i: i32, j: i32, k: i32) -> (r: usize)
        requires
            self.wf(),
        ensures
            r == self.cell(i as int, j as int, k as int),
            r < POINT_COUNT,
    {
        proof {
            lemma_shuffle_in_range(self.perm_x@, POINT_COUNT as nat);
            lemma_shuffle_in_range(self.perm_y@, POINT_COUNT as nat);
            lemma_shuffle_in_range(self.perm_z@, POINT_COUNT as nat);
        }
        let a: i32 = self.perm_x[Self::wrap(i)];
        let b: i32 = self.perm_y[Self::wrap(j)];
        let c: i32 = self.perm_z[Self::wrap(k)];
        assert(0 <= (a ^ b ^ c) < 256) by (bit_vector)
            requires
                0 <= a < 256,
                0 <= b < 256,
                0 <= c < 256,
        ;
        (a ^ b ^ c) as usize
    }

    /// The gradients around a point of space whose coordinates, rounded
    /// down, are `(i, j, k)`. The coordinates must leave room for the cube.
    pub fn lattice(&self, i: i32, j: i32, k: i32) -> (c: Vec<Vec3>)
        requires
            self.wf(),
            i < i32::MAX,
            j < i32::MAX,
            k < i32::MAX,
        ensures
            c@ == self.corners(i as int, j as int, k as int),
    {
        let mut c: Vec<Vec3> = Vec::new();
        let mut n: usize = 0;
        while n < 8
            invariant
                n <= 8,
                self.wf(),
                i < i32::MAX,
                j < i32::MAX,
                k < i32::MAX,
                c@.len() == n,
                forall|m: int|
                    0 <= m < n ==> c@[m] == #[trigger] self.corners(
                        i as int,
                        j as int,
                        k as int,
                    )[m],
            decreases 8 - n,
        {
            let di: i32 = (n / 4) as i32;
            let dj: i32 = ((n / 2) % 2) as i32;
            let dk: i32 = (n % 2) as i32;
            let at = self.cell_index(i + di, j + dj, k + dk);
            c.push(self.ranvec[at]);
            n = n + 1;
        }
        c
    }
}

} // verus!
