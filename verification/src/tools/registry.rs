//! Finding a registered tool by name.
use vstd::prelude::*;
use crate::rules::filter::strings;
use crate::traits::ToolError;

verus! {

/// Where the tool named `name` stands among the registered names: the first
/// one with that name, or a "not found" error naming it.
pub fn tool_index(names: &Vec<String>, name: &str) -> (r: Result<usize, ToolError>)
    ensures
        r matches Ok(i) ==> i < names@.len() && names@[i as int]@ == name@
            && forall|j: int| 0 <= j < i ==> names@[j]@ != name@,
        r matches Err(e) ==> (e matches ToolError::NotFound(m) && m@ == name@)
            && forall|j: int| 0 <= j < names@.len() ==> names@[j]@ != name@,
{
    let key = String::from_str(name);
    let mut i: usize = 0;
    while i < names.len()
        invariant
            i <= names.len(),
            key@ == name@,
            forall|j: int| 0 <= j < i ==> names@[j]@ != name@,
        decreases names.len() - i,
    {
        if names[i] == key {
            return Ok(i);
        }
        i = i + 1;
    }
    Err(ToolError::NotFound(key))
}

} // verus!
