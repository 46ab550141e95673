//! Request data for the image endpoints: generation, edits, variations.

use vstd::prelude::*;
use vstd::string::StringSliceAdditionalSpecFns;

verus! {

/// The UTF-8 byte length of a prompt string.
pub open spec fn prompt_byte_len(s: Seq<char>) -> nat {
    vstd::utf8::encode_utf8(s).len()
}

/// The byte length above which a prompt is refused.
pub const PROMPT_LIMIT: usize = 1000;

/// The size of the generated images.
#[derive(Debug, Clone, Copy, PartialEq, Eq, Structural, PartialOrd, Ord, Hash)]
pub enum Size {
    /// 256-by-256 pixels.
    P256,
    /// 512-by-512 pixels.
    P512,
    /// 1024-by-1024 pixels.
    P1024,
}

impl Default for Size {
    fn default() -> (r: Size)
        ensures
            r == Size::P1024,
    {
        Size::P1024
    }
}

/// The format in which generated images are returned.
#[derive(Debug, Clone, Copy, PartialEq, Eq, Structural, PartialOrd, Ord, Hash)]
pub enum ResponseFormat {
    /// A URL that points to a hosted image.
    Url,
    /// Base64-encoded image data.
    B64Json,
}

impl Default for ResponseFormat {
    fn default() -> (r: ResponseFormat)
        ensures
            r == ResponseFormat::Url,
    {
        ResponseFormat::Url
    }
}

/// Image data of one response entry.
#[derive(Debug, Clone)]
pub enum Data {
    /// A URL that points to a hosted image.
    Url(String),
    /// Base64-encoded image data.
    B64Json(String),
}

impl Data {
    /// The entry's value as a string slice, whichever form it has.
    pub fn as_str(&self) -> (r: &str)
        ensures
            r@ == (match self {
                Data::Url(x) => x@,
                Data::B64Json(x) => x@,
            }),
    {
        match self {
            Data::Url(x) => x.as_str(),
            Data::B64Json(x) => x.as_str(),
        }
    }
}

/// The fields of an image generation request.
#[derive(Debug, Clone)]
pub struct GenerateBuilder {
    pub prompt: String,
    pub n: Option<u64>,
    pub size: Option<Size>,
    pub response_format: Option<ResponseFormat>,
    pub user: Option<String>,
}

impl GenerateBuilder {
    /// A generation request for the given prompt; a prompt over the
    /// byte limit is refused outright.
    pub fn new(prompt: String) -> (r: Result<GenerateBuilder, crate::error::Error>)
        ensures
            match r {
                Result::Ok(b) => {
                    &&& prompt_byte_len(prompt@) <= PROMPT_LIMIT
                    &&& b == (GenerateBuilder {
                        prompt,
                        n: None,
                        size: None,
                        response_format: None,
                        user: None,
                    })
                },
                Result::Err(e) => prompt_byte_len(prompt@) > PROMPT_LIMIT && e is Msg,
            },
    {
        let nbytes = prompt.as_str().as_bytes().len();
        proof {
            assert(nbytes == prompt_byte_len(prompt@));
        }
        if nbytes > PROMPT_LIMIT {
            return Result::Err(
                crate::error::Error::msg("prompt exceeds the character limit".to_owned()),
            );
        }
        Result::Ok(
            GenerateBuilder { prompt, n: None, size: None, response_format: None, user: None },
        )
    }

    /// Sets how many images to generate; only 1 through 10 are accepted,
    /// anything else hands the builder back with an error.
    pub fn n(self, n: u64) -> (r: Result<GenerateBuilder, crate::error::BuilderError<
        GenerateBuilder,
    >>)
        ensures
            match r {
                Result::Ok(b) => 1 <= n <= 10 && b == (GenerateBuilder {
                    n: Some(n),
                    ..self
                }),
                Result::Err(e) => !(1 <= n <= 10) && e.builder == self && e.err is Msg,
            },
    {
        if 1 <= n && n <= 10 {
            Result::Ok(GenerateBuilder { n: Some(n), ..self })
        } else {
            Result::Err(
                crate::error::BuilderError::msg(self, "n out of range (1..=10)".to_owned()),
            )
        }
    }

    /// Sets the size of the generated images.
    pub fn size(self, size: Size) -> (r: GenerateBuilder)
        ensures
            r == (GenerateBuilder { size: Some(size), ..self }),
    {
        GenerateBuilder { size: Some(size), ..self }
    }

    /// Sets the format in which the images are returned.
    pub fn response_format(self, response_format: ResponseFormat) -> (r: GenerateBuilder)
        ensures
            r == (GenerateBuilder { response_format: Some(response_format), ..self }),
    {
        GenerateBuilder { response_format: Some(response_format), ..self }
    }

    /// Sets the end-user identifier attached to the request.
    pub fn user(self, user: String) -> (r: GenerateBuilder)
        ensures
            r == (GenerateBuilder { user: Some(user), ..self }),
    {
        GenerateBuilder { user: Some(user), ..self }
    }
}

/// The fields of an image edit request.
#[derive(Debug, Clone)]
pub struct ImageEditBuilder {
    pub prompt: String,
    pub n: Option<u64>,
    pub size: Option<Size>,
    pub response_format: Option<ResponseFormat>,
    pub user: Option<String>,
}

impl ImageEditBuilder {
    /// An edit request for the given prompt; a prompt over the byte
    /// limit is refused outright.
    pub fn new(prompt: String) -> (r: Result<ImageEditBuilder, crate::error::Error>)
        ensures
            match r {
                Result::Ok(b) => {
                    &&& prompt_byte_len(prompt@) <= PROMPT_LIMIT
                    &&& b == (ImageEditBuilder {
                        prompt,
                        n: None,
                        size: None,
                        response_format: None,
                        user: None,
                    })
                },
                Result::Err(e) => prompt_byte_len(prompt@) > PROMPT_LIMIT && e is Msg,
            },
    {
        let nbytes = prompt.as_str().as_bytes().len();
        proof {
            assert(nbytes == prompt_byte_len(prompt@));
        }
        if nbytes > PROMPT_LIMIT {
            return Result::Err(
                crate::error::Error::msg("prompt exceeds the character limit".to_owned()),
            );
        }
        Result::Ok(
            ImageEditBuilder { prompt, n: None, size: None, response_format: None, user: None },
        )
    }

    /// Sets how many images to generate; only 1 through 10 are accepted,
    /// anything else hands the builder back with an error.
    pub fn n(self, n: u64) -> (r: Result<ImageEditBuilder, crate::error::BuilderError<
        ImageEditBuilder,
    >>)
        ensures
            match r {
                Result::Ok(b) => 1 <= n <= 10 && b == (ImageEditBuilder {
                    n: Some(n),
                    ..self
                }),
                Result::Err(e) => !(1 <= n <= 10) && e.builder == self && e.err is Msg,
            },
    {
        if 1 <= n && n <= 10 {
            Result::Ok(ImageEditBuilder { n: Some(n), ..self })
        } else {
            Result::Err(
                crate::error::BuilderError::msg(self, "n out of range (1..=10)".to_owned()),
            )
        }
    }

    /// Sets the size of the generated images.
    pub fn size(self, size: Size) -> (r: ImageEditBuilder)
        ensures
            r == (ImageEditBuilder { size: Some(size), ..self }),
    {
        ImageEditBuilder { size: Some(size), ..self }
    }

    /// Sets the format in which the images are returned.
    pub fn response_format(self, response_format: ResponseFormat) -> (r: ImageEditBuilder)
        ensures
            r == (ImageEditBuilder { response_format: Some(response_format), ..self }),
    {
        ImageEditBuilder { response_format: Some(response_format), ..self }
    }

    /// Sets the end-user identifier attached to the request.
    pub fn user(self, user: String) -> (r: ImageEditBuilder)
        ensures
            r == (ImageEditBuilder { user: Some(user), ..self }),
    {
        ImageEditBuilder { user: Some(user), ..self }
    }
}

/// The fields of an image variation request.
#[derive(Debug, Clone)]
pub struct VariationBuilder {
    pub n: Option<u64>,
    pub size: Option<Size>,
    pub response_format: Option<ResponseFormat>,
    pub user: Option<String>,
}

impl VariationBuilder {
    /// A variation request with nothing set.
    pub fn new() -> (r: VariationBuilder)
        ensures
            r == (VariationBuilder { n: None, size: None, response_format: None, user: None }),
    {
        VariationBuilder { n: None, size: None, response_format: None, user: None }
    }

    /// Sets how many images to generate; only 1 through 10 are accepted,
    /// anything else hands the builder back with an error.
    pub fn n(self, n: u64) -> (r: Result<VariationBuilder, crate::error::BuilderError<
        VariationBuilder,
    >>)
        ensures
            match r {
                Result::Ok(b) => 1 <= n <= 10 && b == (VariationBuilder {
                    n: Some(n),
                    ..self
                }),
                Result::Err(e) => !(1 <= n <= 10) && e.builder == self && e.err is Msg,
            },
    {
        if 1 <= n && n <= 10 {
            Result::Ok(VariationBuilder { n: Some(n), ..self })
        } else {
            Result::Err(
                crate::error::BuilderError::msg(self, "n out of range (1..=10)".to_owned()),
            )
        }
    }

    /// Sets the size of the generated images.
    pub fn size(self, size: Size) -> (r: VariationBuilder)
        ensures
            r == (VariationBuilder { size: Some(size), ..self }),
    {
        VariationBuilder { size: Some(size), ..self }
    }

    /// Sets the format in which the images are returned.
    pub fn response_format(self, response_format: ResponseFormat) -> (r: VariationBuilder)
        ensures
            r == (VariationBuilder { response_format: Some(response_format), ..self }),
    {
        VariationBuilder { response_format: Some(response_format), ..self }
    }

    /// Sets the end-user identifier attached to the request.
    pub fn user(self, user: String) -> (r: VariationBuilder)
        ensures
            r == (VariationBuilder { user: Some(user), ..self }),
    {
        VariationBuilder { user: Some(user), ..self }
    }
}

impl Default for VariationBuilder {
    fn default() -> (r: VariationBuilder)
        ensures
            r == (VariationBuilder { n: None, size: None, response_format: None, user: None }),
    {
        VariationBuilder::new()
    }
}

} // verus!
