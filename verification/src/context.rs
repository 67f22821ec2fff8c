//! What a run of a script is given from outside: the target, the built-in functions and the
//! scripts that it may include.
use crate::error::LoadError;
use crate::text::same_text;
use vstd::prelude::*;

verus! {

/// The built-in functions that the library implements.
#[derive(Clone, Copy, Debug, PartialEq, Eq, Structural)]
pub enum NativeFunction {
    /// Gives the host name of the target.
    GetHostName,
    /// Gives the host names of the target.
    GetHostNames,
    /// Gives the IP address of the target.
    GetHostIp,
}

impl NativeFunction {
    /// The name under which scripts call the function.
    pub open spec fn spec_name(self) -> Seq<char> {
        match self {
            NativeFunction::GetHostName => "get_host_name"@,
            NativeFunction::GetHostNames => "get_host_names"@,
            NativeFunction::GetHostIp => "get_host_ip"@,
        }
    }

    /// The name under which scripts call the function.
    pub fn name(self) -> (r: &'static str)
        ensures
            r@ == self.spec_name(),
    {
        match self {
            NativeFunction::GetHostName => "get_host_name",
            NativeFunction::GetHostNames => "get_host_names",
            NativeFunction::GetHostIp => "get_host_ip",
        }
    }
}

/// The table of all built-in functions of the library, each under its own name.
pub open spec fn standard_table() -> Seq<(Seq<char>, NativeFunction)> {
    seq![
        (NativeFunction::GetHostName.spec_name(), NativeFunction::GetHostName),
        (NativeFunction::GetHostNames.spec_name(), NativeFunction::GetHostNames),
        (NativeFunction::GetHostIp.spec_name(), NativeFunction::GetHostIp),
    ]
}

/// The table of all built-in functions of the library, each under its own name.
pub fn standard_functions() -> (r: Vec<(String, NativeFunction)>)
    ensures
        Seq::new(r.len() as nat, |i: int| (r[i].0@, r[i].1)) == standard_table(),
{
    let mut table: Vec<(String, NativeFunction)> = Vec::new();
    table.push((NativeFunction::GetHostName.name().to_owned(), NativeFunction::GetHostName));
    table.push((NativeFunction::GetHostNames.name().to_owned(), NativeFunction::GetHostNames));
    table.push((NativeFunction::GetHostIp.name().to_owned(), NativeFunction::GetHostIp));
    assert(Seq::new(table.len() as nat, |i: int| (table[i].0@, table[i].1)) =~= standard_table());
    table
}

/// The mathematical model of a [`Context`].
pub struct Environment {
    /// The target as it was given; it may be empty.
    pub target: Seq<char>,
    /// The socket addresses that the target stands for, where it reads as one.
    pub resolved: Option<Seq<Seq<char>>>,
    /// The target read as an IP address, or why it is none.
    pub address: Result<Seq<char>, Seq<char>>,
    /// The built-in functions by name; the first entry of a name counts.
    pub functions: Seq<(Seq<char>, NativeFunction)>,
    /// The scripts that can be included, by name; the first entry of a name counts.
    pub scripts: Seq<(Seq<char>, Result<Seq<char>, LoadError>)>,
}

/// The address that stands for a target: the target itself, or the loopback address where
/// the target is empty.
pub open spec fn spec_effective_target(target: Seq<char>) -> Seq<char> {
    if target.len() == 0 {
        "127.0.0.1"@
    } else {
        target
    }
}

/// The address that stands for a target: the target itself, or `127.0.0.1` where the target is
/// empty.
pub fn effective_target(target: &str) -> (r: String)
    ensures
        r@ == spec_effective_target(target@),
{
    if target.is_empty() {
        "127.0.0.1".to_owned()
    } else {
        target.to_owned()
    }
}

/// The index of the first entry at or behind `from` whose name is `name`.
pub open spec fn entry_from<T>(table: Seq<(Seq<char>, T)>, name: Seq<char>, from: int) -> Option<int>
    decreases table.len() - from,
{
    if from < 0 || from >= table.len() {
        None
    } else if table[from].0 == name {
        Some(from)
    } else {
        entry_from(table, name, from + 1)
    }
}

impl Environment {
    /// The address that stands for the target: the target itself, or the loopback address
    /// where no target was given.
    pub open spec fn effective_target(self) -> Seq<char> {
        spec_effective_target(self.target)
    }

    /// The built-in function of the given name.
    pub open spec fn function(self, name: Seq<char>) -> Option<NativeFunction> {
        match entry_from(self.functions, name, 0) {
            Some(i) => Some(self.functions[i].1),
            None => None,
        }
    }

    /// The text of the script of the given name.
    pub open spec fn script(self, name: Seq<char>) -> Result<Seq<char>, LoadError> {
        match entry_from(self.scripts, name, 0) {
            Some(i) => self.scripts[i].1,
            None => Err(LoadError::NotFound),
        }
    }
}

/// The text of a script that can be included, or why it could not be read.
pub type Script = Result<String, LoadError>;

/// What a run of a script is given from outside. Running a script changes nothing of it.
#[derive(Debug)]
pub struct Context {
    target: String,
    resolved: Option<Vec<String>>,
    address: Result<String, String>,
    functions: Vec<(String, NativeFunction)>,
    scripts: Vec<(String, Script)>,
}

/// The texts of a list.
pub open spec fn texts(list: &Vec<String>) -> Seq<Seq<char>> {
    Seq::new(list.len() as nat, |i: int| list[i]@)
}

/// The text of a script, or why it could not be read.
pub open spec fn script_view(script: &Script) -> Result<Seq<char>, LoadError> {
    match script {
        Ok(text) => Ok(text@),
        Err(e) => Err(*e),
    }
}

impl Context {
    /// The context as plain values.
    pub closed spec fn view(&self) -> Environment {
        Environment {
            target: self.target@,
            resolved: match self.resolved {
                Some(list) => Some(texts(&list)),
                None => None,
            },
            address: match self.address {
                Ok(ip) => Ok(ip@),
                Err(problem) => Err(problem@),
            },
            functions: Seq::new(
                self.functions.len() as nat,
                |i: int| (self.functions[i].0@, self.functions[i].1),
            ),
            scripts: Seq::new(
                self.scripts.len() as nat,
                |i: int| (self.scripts[i].0@, script_view(&self.scripts[i].1)),
            ),
        }
    }

    /// A context for the given target. `resolved` holds the socket addresses that the target
    /// stands for, or `None` where it does not read as one; `address` holds the target read
    /// as an IP address, or why it is none. Both are taken of the address that
    /// [`effective_target`] gives for the target.
    pub fn new(
        target: String,
        resolved: Option<Vec<String>>,
        address: Result<String, String>,
        functions: Vec<(String, NativeFunction)>,
        scripts: Vec<(String, Script)>,
    ) -> (r: Self)
        ensures
            r@.target == target@,
            r@.resolved == match resolved {
                Some(list) => Some(texts(&list)),
                None => None,
            },
            r@.address == match address {
                Ok(ip) => Ok::<Seq<char>, Seq<char>>(ip@),
                Err(problem) => Err::<Seq<char>, Seq<char>>(problem@),
            },
            r@.functions == Seq::new(
                functions.len() as nat,
                |i: int| (functions[i].0@, functions[i].1),
            ),
            r@.scripts == Seq::new(
                scripts.len() as nat,
                |i: int| (scripts[i].0@, script_view(&scripts[i].1)),
            ),
    {
        Context { target, resolved, address, functions, scripts }
    }

    /// The target as it was given.
    pub fn target(&self) -> (r: &str)
        ensures
            r@ == self@.target,
    {
        self.target.as_str()
    }

    /// The address that stands for the target: the target itself, or `127.0.0.1` where no
    /// target was given.
    pub fn effective_target(&self) -> (r: String)
        ensures
            r@ == self@.effective_target(),
    {
        effective_target(self.target.as_str())
    }

    /// The socket addresses that the target stands for, where it reads as one.
    pub fn resolved(&self) -> (r: &Option<Vec<String>>)
        ensures
            self@.resolved == match r {
                Some(list) => Some(texts(list)),
                None => None,
            },
    {
        &self.resolved
    }

    /// The target read as an IP address, or why it is none.
    pub fn address(&self) -> (r: &Result<String, String>)
        ensures
            self@.address == match r {
                Ok(ip) => Ok::<Seq<char>, Seq<char>>(ip@),
                Err(problem) => Err::<Seq<char>, Seq<char>>(problem@),
            },
    {
        &self.address
    }

    /// The built-in function of the given name; `None` where there is none, which by itself
    /// is no error.
    pub fn lookup(&self, name: &str) -> (r: Option<NativeFunction>)
        ensures
            r == self@.function(name@),
    {
        let mut i: usize = 0;
        while i < self.functions.len()
            invariant
                0 <= i <= self.functions.len(),
                entry_from(self@.functions, name@, 0) == entry_from(self@.functions, name@, i as int),
            decreases self.functions.len() - i,
        {
            if same_text(self.functions[i].0.as_str(), name) {
                return Some(self.functions[i].1);
            }
            i = i + 1;
        }
        None
    }

    /// The text of the script of the given name.
    pub fn load(&self, name: &str) -> (r: Result<&str, LoadError>)
        ensures
            match r {
                Ok(text) => self@.script(name@) == Ok::<Seq<char>, LoadError>(text@),
                Err(e) => self@.script(name@) == Err::<Seq<char>, LoadError>(e),
            },
    {
        let mut i: usize = 0;
        while i < self.scripts.len()
            invariant
                0 <= i <= self.scripts.len(),
                entry_from(self@.scripts, name@, 0) == entry_from(self@.scripts, name@, i as int),
            decreases self.scripts.len() - i,
        {
            if same_text(self.scripts[i].0.as_str(), name) {
                return match &self.scripts[i].1 {
                    Ok(text) => Ok(text.as_str()),
                    Err(e) => Err(*e),
                };
            }
            i = i + 1;
        }
        Err(LoadError::NotFound)
    }
}

impl Default for Context {
    /// A context without a target and without scripts, with all built-in functions of the
    /// library. The loopback address stands for the target.
    fn default() -> (r: Self)
        ensures
            r@ == (Environment {
                target: Seq::empty(),
                resolved: None,
                address: Ok("127.0.0.1"@),
                functions: standard_table(),
                scripts: Seq::empty(),
            }),
    {
        let r = Context {
            target: String::new(),
            resolved: None,
            address: Ok("127.0.0.1".to_owned()),
            functions: standard_functions(),
            scripts: Vec::new(),
        };
        assert(r@.scripts =~= Seq::empty());
        r
    }
}

} // verus!
