use vstd::prelude::*;

verus! {

/// The prompt shown before each line of input: the custom text when one is
/// given, `"> "` otherwise.
pub fn generate_prompt(custom_prompt: Option<&str>) -> (r: String)
    ensures
        r@ == match custom_prompt {
            Some(p) => p@,
            None => "> "@,
        },
{
    match custom_prompt {
        Some(p) => p.to_string(),
        None => "> ".to_string(),
    }
}

} // verus!
