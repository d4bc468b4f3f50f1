//! Choosing the OpenGL render driver among the ones the platform offers.

use vstd::prelude::*;

verus! {

/// The name of the OpenGL render driver.
pub open spec fn spec_gl_driver_name() -> Seq<char> {
    "opengl"@
}

/// The index of the first driver named `opengl`, if any.
pub fn find_gl_driver(names: &Vec<String>) -> (r: Option<u32>)
    requires
        names@.len() <= u32::MAX,
    ensures
        match r {
            Some(i) => {
                &&& i < names@.len()
                &&& names@[i as int]@ == spec_gl_driver_name()
                &&& forall|j: int| 0 <= j < i ==> #[trigger] names@[j]@ != spec_gl_driver_name()
            },
            None => forall|j: int|
                0 <= j < names@.len() ==> #[trigger] names@[j]@ != spec_gl_driver_name(),
        },
{
    let wanted: String = "opengl".to_owned();
    let n: usize = names.len();
    let mut i: usize = 0;
    while i < n
        invariant
            n == names@.len(),
            n <= u32::MAX,
            i <= n,
            wanted@ == spec_gl_driver_name(),
            forall|j: int| 0 <= j < i ==> #[trigger] names@[j]@ != spec_gl_driver_name(),
        decreases n - i,
    {
        if names[i] == wanted {
            return Some(i as u32);
        }
        i = i + 1;
    }
    None
}

} // verus!
