//! The bodies of the service's requests and the building of its routes.
use vstd::prelude::*;
use vstd::string::*;

use crate::pipeline::EmbeddingRequestUnit;

verus! {

/// std's `PathBuf`, a path on this machine, carried through unopened.
#[verifier::external_type_specification]
#[verifier::external_body]
pub struct ExPathBuf(std::path::PathBuf);

/// The body of a request to embed documents.
#[derive(Clone, Debug)]
pub struct EmbeddingRequest {
    pub data: Vec<EmbeddingRequestUnit>,
}

/// The body of a request to change the active model.
#[derive(Clone, Debug)]
pub struct SetModelName {
    pub model: String,
}

/// A file of a model brought by the user: a path on this machine or a URL.
#[derive(Debug)]
pub enum LocalOrRemoteFile {
    Local(std::path::PathBuf),
    Remote(String),
}

/// The route of `endpoint` under the base URL `api_base_url`: the two
/// joined.
pub fn base_api_route_builder(endpoint: &str, api_base_url: &str) -> (r: String)
    ensures
        r@ == api_base_url@ + endpoint@,
{
    let mut route = String::from_str(api_base_url);
    route.append(endpoint);
    route
}

} // verus!
