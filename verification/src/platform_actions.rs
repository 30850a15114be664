//! Repair of the main window's frame style.
use vstd::prelude::*;

verus! {

/// The window style to set so that every bit of `required` is on: `None` when
/// `style` already has them all, `style | required` otherwise.
pub fn frame_style_fix(style: i32, required: i32) -> (r: Option<i32>)
    ensures
        (style & required) == required ==> r is None,
        (style & required) != required ==> r == Some(style | required),
        r matches Some(s) ==> (s & required) == required,
{
    if style & required != required {
        let fixed = style | required;
        assert((fixed & required) == required) by (bit_vector)
            requires
                fixed == style | required,
        ;
        Some(fixed)
    } else {
        None
    }
}

} // verus!
