# bislice

Two slices treated as one logically contiguous slice, as a ring buffer hands
out its contents after wrapping around. `BiSlice` holds two shared slices,
`BiSliceMut` two exclusive ones; `Iter` and `IterMut` walk over their
elements, front first.

Every operation is verified with Verus against a model in which a two-slice
is the concatenation of its front and its back:

- `src/immutable/` — `BiSlice`, its iterator `Iter`, and reading bytes out of
  a `BiSlice<u8>`;
- `src/mutable/` — `BiSliceMut`, its iterator `IterMut`, copying and cloning
  into it, and writing bytes into a `BiSliceMut<u8>`; contracts say both what
  the slices hold now and what they hold once the borrow ends;
- `src/slices.rs` — the single-slice operations the two-slice types are
  built from;
- `src/lib.rs` — range bounds and the alignment of two two-slices of equal
  length into pieces that do not straddle either split;
- `src/laws.rs` — properties relating several operations.

`app/` connects the verified types to the standard traits they cannot carry
inside Verus: `std::io::Read` and `Write`, `Iterator`, `Debug`, range
arguments, and taking filled `MaybeUninit` slots as initialised.

`BiSliceMut` has `Index` but not `IndexMut`. The std trait's `index_mut`
carries no precondition that Verus can see, so an out-of-range index could
only be answered by a panic, which verified code may not have; and `app/`
cannot implement a std trait for a type of the library. `get_mut` gives the
same exclusive access, with `None` for an index out of range.
