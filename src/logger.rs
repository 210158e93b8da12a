use vstd::prelude::*;

verus! {

/// Where the log files of the process go.
#[derive(Debug, Clone, Copy, PartialEq, Eq, Structural)]
pub enum Scope {
    /// Under the user's local data directory.
    Local,
    /// Under the system log directory.
    Global,
}

/// The system log directory.
pub open spec fn system_log_root() -> Seq<char> {
    "/var/log"@
}

impl Scope {
    /// The directory of the log files of binary `name`: `<local data>/log/<name>`
    /// for a local scope, `/var/log/<name>` for a global one. A local scope
    /// without a local data directory has none.
    pub fn log_directory(self, local_data_dir: Option<String>, name: &str) -> (r: Option<String>)
        ensures
            self is Global ==> r is Some && r->Some_0@ == system_log_root() + seq!['/'] + name@,
            self is Local ==> (r is Some <==> local_data_dir is Some),
            self is Local && r is Some ==> r->Some_0@ == local_data_dir->Some_0@ + seq![
                '/',
                'l',
                'o',
                'g',
                '/',
            ] + name@,
    {
        proof {
            reveal_strlit("/log/");
            reveal_strlit("/");
        }
        match self {
            Scope::Global => {
                let mut dir = String::from_str("/var/log");
                dir.append("/");
                dir.append(name);
                Some(dir)
            },
            Scope::Local => match local_data_dir {
                None => None,
                Some(base) => {
                    let mut dir = base;
                    dir.append("/log/");
                    dir.append(name);
                    assert(dir@ =~= base@ + seq!['/', 'l', 'o', 'g', '/'] + name@);
                    Some(dir)
                },
            },
        }
    }
}

} // verus!
