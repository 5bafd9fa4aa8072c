use vstd::prelude::*;

verus! {

/// An error of the proxy while converting a body between the two APIs.
#[derive(Debug)]
pub enum ProxyError {
    TransformError(String),
}

} // verus!
