use vstd::prelude::*;

verus! {

/// How the terminal's shell is started.
#[derive(Clone)]
pub struct BackendSettings {
    pub shell: String,
}

impl Default for BackendSettings {
    /// The shell is `/bin/bash`.
    fn default() -> (r: BackendSettings)
        ensures
            r.shell@ == "/bin/bash"@,
    {
        BackendSettings { shell: "/bin/bash".to_owned() }
    }
}

} // verus!
