//! The diagnostic renderer's memory snapshot: a bounded window of the tape
//! and a line marking the pointer's column, rendered as plain characters.
//!
//! Zero-valued cells show as one placeholder glyph, control-range cells as
//! another, and every other cell as its character. The paced replay around
//! these lines — clearing the display, printing, waiting — is display
//! plumbing and stays with the caller.

use vstd::prelude::*;

use vstd::math::min;

use crate::state::Program;

verus! {

/// How many cells of the tape the diagnostic window shows at most.
pub const RENDER_WINDOW: usize = 100;

/// The glyph a cell is rendered as: a placeholder for an empty cell,
/// another for a control-range cell, and the cell's character otherwise.
pub open spec fn render_cell(b: u8) -> char {
    if b == 0 {
        '\u{bf}'
    } else if b < 31 {
        '?'
    } else {
        b as char
    }
}

/// The rendered window: the glyphs of the first `count` cells of `mem`.
pub open spec fn spec_render_cells(mem: Seq<u8>, count: int) -> Seq<char> {
    Seq::new(count as nat, |i: int| render_cell(mem[i]))
}

/// The pointer line: one space per cell left of the pointer, then a mark
/// under the pointer's column.
pub open spec fn spec_render_pointer(ptr: int) -> Seq<char> {
    Seq::new(ptr as nat, |i: int| ' ').push('\u{21a5}')
}

impl Program {
    /// Renders the memory snapshot: the glyphs of the first cells of the
    /// tape — at most [`RENDER_WINDOW`] of them — and the line marking the
    /// pointer's column.
    pub fn render_memory(&self) -> (r: (Vec<char>, Vec<char>))
        requires
            self.wf(),
        ensures
            r.0@ == spec_render_cells(self@.mem, min(RENDER_WINDOW as int, self@.mem.len() as int)),
            r.1@ == spec_render_pointer(self@.ptr),
    {
        let mem = self.memory_ref();
        let count: usize = if mem.len() < RENDER_WINDOW {
            mem.len()
        } else {
            RENDER_WINDOW
        };
        let mut cells: Vec<char> = Vec::new();
        let mut i: usize = 0;
        while i < count
            invariant
                i <= count,
                count <= mem@.len(),
                mem@ == self@.mem,
                cells@ =~= spec_render_cells(mem@, i as int),
            decreases count - i,
        {
            let b: u8 = mem[i];
            let glyph: char = if b == 0 {
                '\u{bf}'
            } else if b < 31 {
                '?'
            } else {
                b as char
            };
            cells.push(glyph);
            proof {
                assert(cells@ =~= spec_render_cells(mem@, i + 1));
            }
            i += 1;
        }

        let ptr: usize = self.pointer();
        let mut marker: Vec<char> = Vec::new();
        let mut j: usize = 0;
        while j < ptr
            invariant
                j <= ptr,
                marker@ =~= Seq::new(j as nat, |k: int| ' '),
            decreases ptr - j,
        {
            marker.push(' ');
            proof {
                assert(marker@ =~= Seq::new((j + 1) as nat, |k: int| ' '));
            }
            j += 1;
        }
        marker.push('\u{21a5}');

        (cells, marker)
    }
}

} // verus!
