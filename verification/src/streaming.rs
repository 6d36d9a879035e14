use vstd::prelude::*;
use crate::chunk::{Chunk, covers, world_origin, world_position};
use crate::mesh::Mesh;
use crate::surface::surface_of;

verus! {

/// Number of chunk layers, counted upwards from layer 0, that are kept
/// loaded around an observer.
pub const WORLD_HEIGHT: i16 = 16;

/// Default distance, in chunks, up to which chunks are loaded around an
/// observer on the two horizontal axes.
pub const VIEW_RANGE: i16 = 4;

/// Whether chunk position `c` is wanted by an observer in the chunk column
/// `(x, z)`: it lies in one of the loaded layers and at most `view_range`
/// chunks away on each horizontal axis.
pub open spec fn in_view(c: (i16, i16, i16), x: i16, z: i16, view_range: i16) -> bool {
    &&& 0 <= c.1 < WORLD_HEIGHT
    &&& x - view_range <= c.0 <= x + view_range
    &&& z - view_range <= c.2 <= z + view_range
}

/// Whether chunk position `a` is looked at before `b`: layer by layer from
/// the lowest, in each layer by rising `x`, and for each `x` by rising `z`.
pub open spec fn looked_at_before(a: (i16, i16, i16), b: (i16, i16, i16)) -> bool {
    a.1 < b.1 || (a.1 == b.1 && (a.0 < b.0 || (a.0 == b.0 && a.2 < b.2)))
}

/// A chunk that was loaded in one step: where it lies, its voxels, and the
/// surface to draw for it, if it has any.
pub struct Loaded {
    /// Position of the chunk, counted in chunks.
    pub position: (i16, i16, i16),
    /// World position of the chunk's first voxel.
    pub origin: (i32, i32, i32),
    /// The generated voxels.
    pub chunk: Chunk,
    /// The mesh of the chunk's open sides; none for an empty chunk.
    pub surface: Option<Mesh>,
}

/// The chunk positions that were generated so far. Positions are added and
/// never taken away.
pub struct WorldMeta {
    pub chunks: Vec<(i16, i16, i16)>,
}

impl WorldMeta {
    /// Whether a chunk position was recorded.
    pub open spec fn holds(&self, c: (i16, i16, i16)) -> bool {
        self.chunks@.contains(c)
    }

    /// Whether `c` is the first position in view, in the order of
    /// [`looked_at_before`], that was not recorded.
    pub open spec fn first_missing(&self, c: (i16, i16, i16), x: i16, z: i16, view_range: i16) -> bool {
        &&& in_view(c, x, z, view_range)
        &&& !self.holds(c)
        &&& forall|d: (i16, i16, i16)|
            in_view(d, x, z, view_range) && looked_at_before(d, c) ==> self.holds(d)
    }

    /// Whether every position in view was recorded.
    pub open spec fn holds_all_in_view(&self, x: i16, z: i16, view_range: i16) -> bool {
        forall|d: (i16, i16, i16)| in_view(d, x, z, view_range) ==> self.holds(d)
    }

    /// A registry without any chunk.
    pub fn new() -> (world: WorldMeta)
        ensures
            world.chunks@.len() == 0,
            forall|c: (i16, i16, i16)| !world.holds(c),
    {
        WorldMeta { chunks: Vec::new() }
    }

    /// Whether a chunk position was recorded.
    pub fn contains(&self, c: (i16, i16, i16)) -> (found: bool)
        ensures
            found == self.holds(c),
    {
        for i in 0..self.chunks.len()
            invariant
                forall|j: int| 0 <= j < i ==> self.chunks@[j] != c,
        {
            let d = self.chunks[i];
            if d.0 == c.0 && d.1 == c.1 && d.2 == c.2 {
                return true;
            }
        }
        false
    }

    /// Records a chunk position as generated. What was recorded before stays
    /// recorded.
    pub fn record(&mut self, c: (i16, i16, i16))
        ensures
            final(self).chunks@ == old(self).chunks@.push(c),
            final(self).holds(c),
            forall|d: (i16, i16, i16)| old(self).holds(d) ==> final(self).holds(d),
            forall|d: (i16, i16, i16)| final(self).holds(d) ==> old(self).holds(d) || d == c,
    {
        self.chunks.push(c);
        proof {
            let before = old(self).chunks@;
            let after = self.chunks@;
            assert(after[before.len() as int] == c);
            assert forall|d: (i16, i16, i16)| before.contains(d) implies after.contains(d) by {
                let i = choose|i: int| 0 <= i < before.len() && before[i] == d;
                assert(after[i] == d);
            }
        }
    }

    /// The chunk to generate next for an observer in the chunk column
    /// `(x, z)`: the first position in view, in the order of
    /// [`looked_at_before`], that was not recorded yet. `None` when every
    /// position in view was recorded.
    pub fn next_missing(&self, x: i16, z: i16, view_range: i16) -> (next: Option<(i16, i16, i16)>)
        ensures
            match next {
                Some(c) => self.first_missing(c, x, z, view_range),
                None => self.holds_all_in_view(x, z, view_range),
            },
    {
        if view_range < 0 {
            return None;
        }
        let x_from: i32 = lowest(x, view_range);
        let x_to: i32 = highest(x, view_range);
        let z_from: i32 = lowest(z, view_range);
        let z_to: i32 = highest(z, view_range);
        for cy in 0..WORLD_HEIGHT
            invariant
                view_range >= 0,
                x_from == spec_lowest(x, view_range),
                x_to == spec_highest(x, view_range),
                z_from == spec_lowest(z, view_range),
                z_to == spec_highest(z, view_range),
                forall|d: (i16, i16, i16)|
                    in_view(d, x, z, view_range) && d.1 < cy ==> self.holds(d),
        {
            for cx in x_from..x_to
                invariant
                    0 <= cy < WORLD_HEIGHT,
                    view_range >= 0,
                x_from == spec_lowest(x, view_range),
                    x_to == spec_highest(x, view_range),
                    z_from == spec_lowest(z, view_range),
                    z_to == spec_highest(z, view_range),
                    forall|d: (i16, i16, i16)|
                        in_view(d, x, z, view_range) && (d.1 < cy || (d.1 == cy && d.0 < cx))
                            ==> self.holds(d),
            {
                for cz in z_from..z_to
                    invariant
                        0 <= cy < WORLD_HEIGHT,
                        x_from <= cx < x_to,
                        view_range >= 0,
                x_from == spec_lowest(x, view_range),
                        x_to == spec_highest(x, view_range),
                        z_from == spec_lowest(z, view_range),
                        z_to == spec_highest(z, view_range),
                        forall|d: (i16, i16, i16)|
                            in_view(d, x, z, view_range) && (d.1 < cy || (d.1 == cy && (d.0 < cx
                                || (d.0 == cx && d.2 < cz)))) ==> self.holds(d),
                {
                    let c = (cx as i16, cy, cz as i16);
                    if !self.contains(c) {
                        return Some(c);
                    }
                }
            }
        }
        None
    }

    /// One step of loading for an observer in the chunk column `(x, z)`.
    ///
    /// When every position in view was recorded, nothing happens. Otherwise
    /// the first missing chunk is generated from the density, its surface is
    /// built unless the chunk is empty, and its position is recorded, whether
    /// it is empty or not.
    pub fn load_next<F: Fn(i32, i32, i32) -> bool>(
        &mut self,
        density: F,
        x: i16,
        z: i16,
        view_range: i16,
    ) -> (loaded: Option<Loaded>)
        requires
            forall|c: (i16, i16, i16)| in_view(c, x, z, view_range) ==> covers(density, c),
        ensures
            match loaded {
                Some(l) => {
                    &&& old(self).first_missing(l.position, x, z, view_range)
                    &&& final(self).chunks@ == old(self).chunks@.push(l.position)
                    &&& l.origin == world_position(0, 0, 0, l.position)
                    &&& l.chunk.generated_by(density, l.position.0, l.position.1, l.position.2)
                    &&& l.surface is None <==> l.chunk.is_empty
                    &&& l.surface matches Some(m) ==> m.depicts(l.chunk.exposed_faces())
                },
                None => {
                    &&& old(self).holds_all_in_view(x, z, view_range)
                    &&& final(self).chunks@ == old(self).chunks@
                },
            },
    {
        match self.next_missing(x, z, view_range) {
            Some(position) => {
                let chunk = Chunk::generate(density, position.0, position.1, position.2);
                let surface = surface_of(&chunk);
                let origin = world_origin(position.0, position.1, position.2);
                self.record(position);
                Some(Loaded { position, origin, chunk, surface })
            },
            None => None,
        }
    }
}

/// The lowest chunk coordinate in view on one horizontal axis, as far as
/// chunk coordinates reach.
pub open spec fn spec_lowest(at: i16, view_range: i16) -> int {
    if at - view_range < i16::MIN {
        i16::MIN as int
    } else {
        at - view_range
    }
}

/// One more than the highest chunk coordinate in view on one horizontal
/// axis, as far as chunk coordinates reach.
pub open spec fn spec_highest(at: i16, view_range: i16) -> int {
    if at + view_range > i16::MAX {
        i16::MAX + 1
    } else {
        at + view_range + 1
    }
}

fn lowest(at: i16, view_range: i16) -> (low: i32)
    ensures
        low == spec_lowest(at, view_range),
{
    let low: i32 = at as i32 - view_range as i32;
    if low < i16::MIN as i32 {
        i16::MIN as i32
    } else {
        low
    }
}

fn highest(at: i16, view_range: i16) -> (high: i32)
    ensures
        high == spec_highest(at, view_range),
{
    let high: i32 = at as i32 + view_range as i32;
    if high > i16::MAX as i32 {
        i16::MAX as i32 + 1
    } else {
        high + 1
    }
}

} // verus!
