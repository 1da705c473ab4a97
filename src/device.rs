//! Checks made on the serial device before it is opened.

use vstd::prelude::*;

verus! {

/// Whether `path` is among the port names that the system lists.
pub fn device_listed(ports: &Vec<String>, path: &String) -> (r: bool)
    ensures
        r == exists|i: int| 0 <= i < ports@.len() && ports@[i]@ == path@,
{
    let mut i: usize = 0;
    while i < ports.len()
        invariant
            i <= ports@.len(),
            forall|j: int| 0 <= j < i ==> ports@[j]@ != path@,
        decreases ports@.len() - i,
    {
        if ports[i] == *path {
            return true;
        }
        i = i + 1;
    }
    false
}

} // verus!
