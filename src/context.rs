//! What the model is told about the machine it works on.
use vstd::prelude::*;

verus! {

pub struct ContextManager {
    pub current_dir: String,
    pub os_type: String,
    pub username: String,
}

impl ContextManager {
    pub fn new(current_dir: String, os_type: String, username: String) -> (r: Self)
        ensures
            r.current_dir@ == current_dir@,
            r.os_type@ == os_type@,
            r.username@ == username@,
    {
        ContextManager { current_dir, os_type, username }
    }

    /// Three lines: the operating system, the working directory and the user.
    pub fn get_system_context(&self) -> (r: String)
        ensures
            r@ == "Operating System: "@ + self.os_type@ + "\nCurrent Directory: "@
                + self.current_dir@ + "\nUsername: "@ + self.username@,
    {
        let mut r = "Operating System: ".to_string();
        r.append(self.os_type.as_str());
        r.append("\nCurrent Directory: ");
        r.append(self.current_dir.as_str());
        r.append("\nUsername: ");
        r.append(self.username.as_str());
        r
    }
}

} // verus!
