//! Built-in functions that tell a script about its target.
use crate::context::{Context, Environment, NativeFunction};
use crate::error::{FunctionErrorKind, FunctionFault};
use crate::register::{Frame, Register};
use crate::text::same_text;
use crate::value::{NaslValue, Value};
use vstd::prelude::*;

verus! {

/// The host name of the target: the first socket address that the target stands for, or the
/// empty text where it stands for none; where the target does not read as a socket address,
/// the target itself, which is then taken to be a host name already.
pub open spec fn hostname(environment: Environment) -> Seq<char> {
    match environment.resolved {
        Some(addresses) => if addresses.len() > 0 {
            addresses[0]
        } else {
            Seq::empty()
        },
        None => environment.effective_target(),
    }
}

/// The IP address of the target, or the error that says why the target is none.
pub open spec fn host_ip(environment: Environment) -> Result<Seq<char>, FunctionFault> {
    match environment.address {
        Ok(ip) => Ok(ip),
        Err(problem) => Err(FunctionFault::wrong("IP address"@, problem)),
    }
}

/// What a built-in function gives for the scopes and the context it is called with.
pub open spec fn native(
    function: NativeFunction,
    frames: Seq<Frame>,
    environment: Environment,
) -> Result<Value, FunctionFault> {
    match function {
        NativeFunction::GetHostName => Ok(Value::String(hostname(environment))),
        NativeFunction::GetHostNames => Ok(
            Value::Array(seq![Value::String(hostname(environment))]),
        ),
        NativeFunction::GetHostIp => match host_ip(environment) {
            Ok(ip) => Ok(Value::String(ip)),
            Err(e) => Err(e),
        },
    }
}

/// The built-in function that the module has under the name `key`.
pub open spec fn spec_lookup(key: Seq<char>) -> Option<NativeFunction> {
    if key == "get_host_name"@ {
        Some(NativeFunction::GetHostName)
    } else if key == "get_host_names"@ {
        Some(NativeFunction::GetHostNames)
    } else if key == "get_host_ip"@ {
        Some(NativeFunction::GetHostIp)
    } else {
        None
    }
}

/// Whether the result of a built-in function stands for the result of its model.
pub open spec fn gives(
    r: Result<NaslValue, FunctionErrorKind>,
    model: Result<Value, FunctionFault>,
) -> bool {
    match r {
        Ok(value) => model == Ok::<Value, FunctionFault>(value@),
        Err(e) => model == Err::<Value, FunctionFault>(e@),
    }
}

/// Resolves the target to a host name.
///
/// Where the target reads as a socket address, the first address it stands for is the name.
/// Where it does not, the target is taken to be a host name already. This never fails.
fn resolve_hostname(context: &Context) -> (r: Result<String, FunctionErrorKind>)
    ensures
        r matches Ok(name) && name@ == hostname(context@),
{
    match context.resolved() {
        Some(addresses) => {
            if addresses.len() > 0 {
                Ok(addresses[0].clone())
            } else {
                Ok(String::new())
            }
        },
        None => Ok(context.effective_target()),
    }
}

/// Built-in function to get all host names of the target.
///
/// There is no handling of virtual hosts: the list holds the one name that
/// [`get_host_name`] gives.
pub fn get_host_names(_register: &Register, context: &Context) -> (r: Result<
    NaslValue,
    FunctionErrorKind,
>)
    ensures
        r matches Ok(value) && value@ == Value::Array(seq![Value::String(hostname(context@))]),
        gives(r, native(NativeFunction::GetHostNames, _register@, context@)),
{
    match resolve_hostname(context) {
        Ok(name) => {
            let ghost text = name@;
            let mut names: Vec<NaslValue> = Vec::new();
            names.push(NaslValue::String(name));
            assert(NaslValue::views(&names) =~= seq![Value::String(text)]);
            Ok(NaslValue::Array(names))
        },
        Err(e) => Err(e),
    }
}

/// Built-in function to get the host name of the target.
pub fn get_host_name(_register: &Register, context: &Context) -> (r: Result<
    NaslValue,
    FunctionErrorKind,
>)
    ensures
        r matches Ok(value) && value@ == Value::String(hostname(context@)),
        gives(r, native(NativeFunction::GetHostName, _register@, context@)),
{
    match resolve_hostname(context) {
        Ok(name) => Ok(NaslValue::String(name)),
        Err(e) => Err(e),
    }
}

/// Return the target's IP address, or the error that says why the target is none.
pub fn get_host_ip(context: &Context) -> (r: Result<String, FunctionErrorKind>)
    ensures
        match r {
            Ok(ip) => host_ip(context@) == Ok::<Seq<char>, FunctionFault>(ip@),
            Err(e) => host_ip(context@) == Err::<Seq<char>, FunctionFault>(e@),
        },
{
    match context.address() {
        Ok(ip) => Ok(ip.clone()),
        Err(problem) => Err(FunctionErrorKind::wrong_argument("IP address", problem.as_str())),
    }
}

/// Built-in function to get the target's IP address, which is `127.0.0.1` where no target is
/// set.
pub fn nasl_get_host_ip(_register: &Register, context: &Context) -> (r: Result<
    NaslValue,
    FunctionErrorKind,
>)
    ensures
        gives(r, native(NativeFunction::GetHostIp, _register@, context@)),
{
    match get_host_ip(context) {
        Ok(ip) => Ok(NaslValue::String(ip)),
        Err(e) => Err(e),
    }
}

/// Returns found function for key or None when not found
pub fn lookup(key: &str) -> (r: Option<NativeFunction>)
    ensures
        r == spec_lookup(key@),
{
    if same_text(key, "get_host_name") {
        Some(NativeFunction::GetHostName)
    } else if same_text(key, "get_host_names") {
        Some(NativeFunction::GetHostNames)
    } else if same_text(key, "get_host_ip") {
        Some(NativeFunction::GetHostIp)
    } else {
        None
    }
}

/// Calls the built-in function with the scopes and the context of the run.
pub fn call(function: NativeFunction, register: &Register, context: &Context) -> (r: Result<
    NaslValue,
    FunctionErrorKind,
>)
    ensures
        gives(r, native(function, register@, context@)),
{
    match function {
        NativeFunction::GetHostName => get_host_name(register, context),
        NativeFunction::GetHostNames => get_host_names(register, context),
        NativeFunction::GetHostIp => nasl_get_host_ip(register, context),
    }
}

} // verus!
