use vstd::prelude::*;

verus! {

/// Abstract cardinality of one axis: a single element, or more than one.
///
/// Shapes made of `Size` let compatibility be decided before the concrete
/// dimensions of a symbol are known.
#[derive(Clone, Copy, Debug, PartialEq, Eq, Structural)]
pub enum Size {
    One,
    Many,
}

/// The class of an axis that holds `n` elements.
pub open spec fn size_class(n: usize) -> Size {
    if n > 1 {
        Size::Many
    } else {
        Size::One
    }
}

/// The classes of the axes of a concrete shape.
pub open spec fn size_classes(shape: Seq<usize>) -> Seq<Size> {
    Seq::new(shape.len(), |k: int| size_class(shape[k]))
}

impl Size {
    /// Classifies an axis by the number of elements it holds.
    pub fn of(n: usize) -> (r: Size)
        ensures
            r == size_class(n),
    {
        if n > 1 {
            Size::Many
        } else {
            Size::One
        }
    }

    /// Whether the axis holds more than one element.
    pub fn is_many(&self) -> (r: bool)
        ensures
            r == (*self == Size::Many),
    {
        match self {
            Size::Many => true,
            Size::One => false,
        }
    }
}

/// Classifies every axis of a concrete shape.
pub fn classify_shape(shape: &Vec<usize>) -> (r: Vec<Size>)
    ensures
        r@ == size_classes(shape@),
{
    let mut out: Vec<Size> = Vec::new();
    let mut k: usize = 0;
    while k < shape.len()
        invariant
            k <= shape.len(),
            out@ == size_classes(shape@.subrange(0, k as int)),
        decreases shape.len() - k,
    {
        out.push(Size::of(shape[k]));
        proof {
            assert(out@ =~= size_classes(shape@.subrange(0, k + 1)));
        }
        k += 1;
    }
    proof {
        assert(shape@.subrange(0, shape.len() as int) =~= shape@);
    }
    out
}

/// Copies a shape.
pub fn copy_sizes(sizes: &Vec<Size>) -> (r: Vec<Size>)
    ensures
        r@ == sizes@,
{
    let mut out: Vec<Size> = Vec::new();
    let mut k: usize = 0;
    while k < sizes.len()
        invariant
            k <= sizes.len(),
            out@ == sizes@.subrange(0, k as int),
        decreases sizes.len() - k,
    {
        out.push(sizes[k]);
        proof {
            assert(out@ =~= sizes@.subrange(0, k + 1));
        }
        k += 1;
    }
    proof {
        assert(sizes@.subrange(0, sizes.len() as int) =~= sizes@);
    }
    out
}

} // verus!
