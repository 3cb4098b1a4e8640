//! The rule runtime: the narrow edge behind which the embedded Python
//! interpreter sits.
//!
//! Each trusted function below first makes sure the interpreter is
//! initialized (`Python::initialize` is idempotent), then acquires the
//! interpreter's own process-wide execution lock (`Python::attach`) for
//! the one call it makes, so none can abort for want of initialization
//! and every script execution runs inside the interpreter's single
//! critical section.  A compiled module starts from a fresh module slot:
//! any module an earlier compilation left under the runtime's module name
//! is dropped first, within the same critical section, so no global state
//! carries over from one compilation to the next.  Nothing is promised of
//! what a script returns: the verified callers state what holds of every
//! outcome.

use vstd::prelude::*;

use pyo3::Py;
use pyo3::PyAny;
use pyo3::Python;
use pyo3::types::PyModule;
use pyo3::types::PyAnyMethods;

verus! {

#[verifier::external_type_specification]
#[verifier::external_body]
#[verifier::reject_recursive_types(T)]
pub struct ExPy<T>(Py<T>);

#[verifier::external_type_specification]
#[verifier::external_body]
pub struct ExPyAny(PyAny);

#[verifier::external_type_specification]
#[verifier::external_body]
pub struct ExPyModule(PyModule);

/// Relies on `pyo3::Python::initialize`: starts the embedded interpreter
/// once for the process; later calls are no-ops.
#[verifier::external_body]
pub(crate) fn init_runtime() {
    Python::initialize();
}

/// Relies on `pyo3::types::PyModule::from_code`: compiles the source as a
/// fresh module, after dropping any module an earlier compilation left
/// under the same name (the interpreter would otherwise re-run the code
/// in that module's dictionary).  `Err` carries the interpreter's error
/// text; source that holds a NUL byte cannot be compiled and is an error
/// too.
#[verifier::external_body]
pub(crate) fn compile_rule(code: &str) -> (r: Result<Py<PyModule>, String>) {
    Python::initialize();
    Python::attach(|py| {
        let mut bytes = code.as_bytes().to_vec();
        bytes.push(0);
        let csource = match core::ffi::CStr::from_bytes_with_nul(&bytes) {
            Ok(c) => c,
            Err(_) => return Err("source holds a NUL byte".to_string()),
        };
        let mods = py.import("sys").and_then(|m| m.getattr("modules"));
        let _ = mods.map(|m| m.del_item("bridgekeeper"));
        match PyModule::from_code(py, csource, c"rule.py", c"bridgekeeper") {
            Ok(m) => Ok(m.unbind()),
            Err(e) => Err(format!("{:?}", e)),
        }
    })
}

/// Relies on `pyo3::types::PyAnyMethods::getattr`: looks the named
/// attribute up in the compiled module.
#[verifier::external_body]
pub(crate) fn get_attr(m: &Py<PyModule>, name: &str) -> (r: Option<Py<PyAny>>) {
    Python::initialize();
    Python::attach(|py| m.bind(py).getattr(name).ok().map(|a| a.unbind()))
}

/// Relies on `pythonize::pythonize`: turns a serialized document into the
/// interpreter's own representation.
#[verifier::external_body]
pub(crate) fn to_python(v: &serde_json::Value) -> (r: Result<Py<PyAny>, String>) {
    Python::initialize();
    Python::attach(|py| match pythonize::pythonize(py, v) {
        Ok(o) => Ok(o.unbind()),
        Err(e) => Err(format!("{}", e)),
    })
}

/// Relies on `pyo3::types::PyAnyMethods::call1`: calls the function with
/// the one argument.  `Err` carries the raised exception's display text.
#[verifier::external_body]
pub(crate) fn call_one(f: &Py<PyAny>, arg: &Py<PyAny>) -> (r: Result<Py<PyAny>, String>) {
    Python::initialize();
    Python::attach(|py| match f.bind(py).call1((arg.bind(py),)) {
        Ok(o) => Ok(o.unbind()),
        Err(e) => Err(format!("{}", e)),
    })
}

/// Relies on `pyo3::types::PyAnyMethods::extract`: reads the value as a
/// triple of a truth value, an optional text and a third value, if it has
/// that shape.
#[verifier::external_body]
pub(crate) fn extract_triple(v: &Py<PyAny>) -> (r: Option<(bool, Option<String>, Py<PyAny>)>) {
    Python::initialize();
    Python::attach(|py| v.bind(py).extract::<(bool, Option<String>, Py<PyAny>)>().ok())
}

/// Relies on `pyo3::types::PyAnyMethods::extract`: reads the value as a
/// pair of a truth value and an optional text, if it has that shape.
#[verifier::external_body]
pub(crate) fn extract_pair(v: &Py<PyAny>) -> (r: Option<(bool, Option<String>)>) {
    Python::initialize();
    Python::attach(|py| v.bind(py).extract::<(bool, Option<String>)>().ok())
}

/// Relies on `pyo3::types::PyAnyMethods::extract`: reads the value as a
/// truth value, if it is one.
#[verifier::external_body]
pub(crate) fn extract_bool(v: &Py<PyAny>) -> (r: Option<bool>) {
    Python::initialize();
    Python::attach(|py| v.bind(py).extract::<bool>().ok())
}

/// Relies on `pythonize::depythonize`: turns a value of the interpreter
/// back into a serialized document, if it is one.
#[verifier::external_body]
pub(crate) fn from_python(v: &Py<PyAny>) -> (r: Option<serde_json::Value>) {
    Python::initialize();
    Python::attach(|py| pythonize::depythonize(v.bind(py)).ok())
}

} // verus!
