//! The console layout: which drawing layer index the base map, the
//! world overlays and the UI each use.  The drawing itself belongs to
//! the render layer; this only owns the index arithmetic.

use vstd::prelude::*;

verus! {

/// Number of world overlay layers between the base console and the UI.
pub const LAYER_COUNT: usize = 1;

/// The console indices, lowest drawn first.
pub struct ConsoleIndex {
    pub base: usize,
    pub layers: [usize; LAYER_COUNT],
    pub ui: usize,
}

impl ConsoleIndex {
    /// Every console index: the base, the overlay layers, then the UI.
    pub fn get_all_indices(&self) -> (r: Vec<usize>)
        ensures
            r@ == seq![self.base] + self.layers@ + seq![self.ui],
    {
        let mut indices: Vec<usize> = Vec::new();
        indices.push(self.base);
        let mut i: usize = 0;
        while i < LAYER_COUNT
            invariant
                i <= LAYER_COUNT,
                indices@ == seq![self.base] + self.layers@.take(i as int),
            decreases LAYER_COUNT - i,
        {
            indices.push(self.layers[i]);
            proof {
                assert(self.layers@.take(i + 1) =~= self.layers@.take(i as int).push(
                    self.layers@[i as int],
                ));
                assert(indices@ =~= seq![self.base] + self.layers@.take(i + 1));
            }
            i = i + 1;
        }
        proof {
            assert(self.layers@.take(LAYER_COUNT as int) =~= self.layers@);
        }
        indices.push(self.ui);
        proof {
            assert(indices@ =~= seq![self.base] + self.layers@ + seq![self.ui]);
        }
        indices
    }

    /// The world-drawing indices: the overlay layers, with the base
    /// before them when asked for.
    pub fn get_world_indices(&self, include_base: bool) -> (r: Vec<usize>)
        ensures
            include_base ==> r@ == seq![self.base] + self.layers@,
            !include_base ==> r@ == self.layers@,
    {
        let mut indices: Vec<usize> = Vec::new();
        if include_base {
            indices.push(self.base);
        }
        let ghost prefix: Seq<usize> = if include_base {
            seq![self.base]
        } else {
            Seq::empty()
        };
        proof {
            assert(indices@ =~= prefix);
        }
        let mut i: usize = 0;
        while i < LAYER_COUNT
            invariant
                i <= LAYER_COUNT,
                indices@ == prefix + self.layers@.take(i as int),
            decreases LAYER_COUNT - i,
        {
            indices.push(self.layers[i]);
            proof {
                assert(self.layers@.take(i + 1) =~= self.layers@.take(i as int).push(
                    self.layers@[i as int],
                ));
                assert(indices@ =~= prefix + self.layers@.take(i + 1));
            }
            i = i + 1;
        }
        proof {
            assert(self.layers@.take(LAYER_COUNT as int) =~= self.layers@);
            if !include_base {
                assert(indices@ =~= self.layers@);
            }
        }
        indices
    }
}

/// Guards a console registration: the renderer must hand back the index
/// the layout expects; anything else is a wiring error the caller must
/// rule out.
pub fn check_console_index(expected: usize, actual: usize)
    requires
        expected == actual,
{
    assert(expected == actual);
}

} // verus!
