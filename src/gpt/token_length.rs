use vstd::prelude::*;

use crate::kv::Token;
use crate::service::{model_pos, Service};

verus! {

/// Why a prompt could not be measured.
#[derive(Debug, Clone, Copy, PartialEq, Eq, Structural)]
pub enum Error {
    ModelNotFound,
}


/// The length in tokens of a prompt that the model `model_id` split into `tokens`.
pub fn token_length(svc: &Service, model_id: &str, tokens: &Vec<Token>) -> (r: Result<usize, Error>)
    ensures
        model_pos(svc.models(), model_id@) < 0 ==> r == Err::<usize, Error>(Error::ModelNotFound),
        model_pos(svc.models(), model_id@) >= 0 ==> r == Ok::<usize, Error>(tokens@.len() as usize),
{
    if svc.model_loaded(model_id) {
        Ok(tokens.len())
    } else {
        Err(Error::ModelNotFound)
    }
}

} // verus!
