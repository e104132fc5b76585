//! The legacy raster protocol. Its encoder is not provided: every request
//! yields the empty sequence, which callers read as "no visual".
use vstd::prelude::*;
use vstd::string::*;

verus! {

/// Renders nothing: the legacy raster encoding is not provided.
pub fn render(x: u16, y: u16, width: u16, height: u16, image_data: &[u8]) -> (r: String)
    ensures
        r@ == Seq::<char>::empty(),
{
    String::new()
}

} // verus!
