//! The shape of a method of the version two interface.

use crate::types::v2::error::RpcError;
use crate::types::v2::params::RpcParams;
use vstd::prelude::*;

verus! {

/// A method: a callable that takes the parameters and returns a result or a
/// failed response.
pub trait RpcMethod<R>: Fn(RpcParams) -> Result<R, RpcError> + Send + Sync + 'static {}

impl<R, T> RpcMethod<R> for T where T: Fn(RpcParams) -> Result<R, RpcError> + Send + Sync + 'static {}

} // verus!
