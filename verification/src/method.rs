//! Request methods and their WASI encoding.

use vstd::prelude::*;

verus! {

/// An HTTP request method: one of the nine standard methods or an
/// extension method given by name.
#[derive(Debug)]
pub enum Method {
    Get,
    Post,
    Put,
    Delete,
    Head,
    Options,
    Connect,
    Patch,
    Trace,
    Extension(String),
}

/// A request method as the WASI HTTP interface names it.
#[derive(Debug)]
pub enum WasiMethod {
    Get,
    Head,
    Post,
    Put,
    Delete,
    Connect,
    Options,
    Trace,
    Patch,
    Other(String),
}

/// The WASI method for a request method: the variant of the same name,
/// or `Other` with the extension's name.
pub open spec fn wasi_method_of(method: Method) -> WasiMethod {
    match method {
        Method::Get => WasiMethod::Get,
        Method::Post => WasiMethod::Post,
        Method::Put => WasiMethod::Put,
        Method::Delete => WasiMethod::Delete,
        Method::Head => WasiMethod::Head,
        Method::Options => WasiMethod::Options,
        Method::Connect => WasiMethod::Connect,
        Method::Patch => WasiMethod::Patch,
        Method::Trace => WasiMethod::Trace,
        Method::Extension(name) => WasiMethod::Other(name),
    }
}

/// Encodes a request method for the WASI HTTP interface.
pub fn encode_method(method: Method) -> (r: WasiMethod)
    ensures
        r == wasi_method_of(method),
{
    match method {
        Method::Get => WasiMethod::Get,
        Method::Post => WasiMethod::Post,
        Method::Put => WasiMethod::Put,
        Method::Delete => WasiMethod::Delete,
        Method::Head => WasiMethod::Head,
        Method::Options => WasiMethod::Options,
        Method::Connect => WasiMethod::Connect,
        Method::Patch => WasiMethod::Patch,
        Method::Trace => WasiMethod::Trace,
        Method::Extension(name) => WasiMethod::Other(name),
    }
}

/// Distinct methods are encoded as distinct WASI methods.
pub proof fn law_encode_method_injective(a: Method, b: Method)
    ensures
        wasi_method_of(a) == wasi_method_of(b) ==> a == b,
{
}

/// Every method keeps its name on the way to the host: each standard
/// method becomes the variant of the same name, and an extension method is
/// sent by its own name.
pub proof fn law_method_names(name: String)
    ensures
        wasi_method_of(Method::Get) == WasiMethod::Get,
        wasi_method_of(Method::Post) == WasiMethod::Post,
        wasi_method_of(Method::Put) == WasiMethod::Put,
        wasi_method_of(Method::Delete) == WasiMethod::Delete,
        wasi_method_of(Method::Head) == WasiMethod::Head,
        wasi_method_of(Method::Options) == WasiMethod::Options,
        wasi_method_of(Method::Connect) == WasiMethod::Connect,
        wasi_method_of(Method::Patch) == WasiMethod::Patch,
        wasi_method_of(Method::Trace) == WasiMethod::Trace,
        wasi_method_of(Method::Extension(name)) == WasiMethod::Other(name),
{
}

} // verus!
