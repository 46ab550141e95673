//! Request data for the embeddings endpoint.

use vstd::prelude::*;

verus! {

/// The fields of an embeddings request.
#[derive(Debug, Clone)]
pub struct EmbeddingBuilder {
    pub model: String,
    pub input: String,
    pub user: Option<String>,
}

impl EmbeddingBuilder {
    /// A request for the given model and input text.
    pub fn new(model: String, input: String) -> (r: EmbeddingBuilder)
        ensures
            r.model == model,
            r.input == input,
            r.user is None,
    {
        EmbeddingBuilder { model, input, user: None }
    }

    /// Sets the end-user identifier attached to the request.
    pub fn user(self, user: String) -> (r: EmbeddingBuilder)
        ensures
            r.model == self.model,
            r.input == self.input,
            r.user == Some(user),
    {
        EmbeddingBuilder { user: Some(user), ..self }
    }
}

} // verus!
