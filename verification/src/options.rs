//! Server configuration: zero or more root directories to publish and a
//! listening port, read once at startup.

use vstd::prelude::*;

verus! {

/// Configuration for a server: the directories whose files are published as
/// GET routes, and the port the listener binds to.
pub struct ServerOptions {
    public_folders: Option<Vec<String>>,
    port: u16,
}

impl ServerOptions {
    /// The configured port.
    pub closed spec fn spec_port(&self) -> u16 {
        self.port
    }

    /// The configured root directories, if any, as sequences of characters.
    pub closed spec fn spec_public_folders(&self) -> Option<Seq<Seq<char>>> {
        self.public_folders.deep_view()
    }

    pub fn new(public_folders: Option<Vec<String>>, port: u16) -> (r: Self)
        ensures
            r.spec_port() == port,
            r.spec_public_folders() == public_folders.deep_view(),
    {
        ServerOptions { public_folders, port }
    }

    pub fn get_port(&self) -> (r: u16)
        ensures
            r == self.spec_port(),
    {
        self.port
    }

    pub fn get_public_folders(&self) -> (r: Option<Vec<String>>)
        ensures
            r.deep_view() == self.spec_public_folders(),
    {
        match &self.public_folders {
            None => None,
            Some(folders) => {
                let mut out: Vec<String> = Vec::new();
                let mut i: usize = 0;
                while i < folders.len()
                    invariant
                        i <= folders.len(),
                        out@.len() == i as nat,
                        forall|j: int| 0 <= j < i ==> out@[j]@ == folders@[j]@,
                    decreases folders.len() - i,
                {
                    out.push(folders[i].clone());
                    i += 1;
                }
                proof {
                    assert(out.deep_view() =~= folders.deep_view());
                }
                Some(out)
            },
        }
    }
}

impl Default for ServerOptions {
    /// The default configuration: no folders published, port 8000.
    fn default() -> (r: Self)
        ensures
            r.spec_port() == 8000,
            r.spec_public_folders() is None,
    {
        ServerOptions { public_folders: None, port: 8000 }
    }
}

} // verus!
