//! Training data for fine-tuning jobs.

use vstd::prelude::*;
use vstd::string::StringExecFns;

verus! {

/// One prompt/completion example of a fine-tuning data set.
#[derive(Debug, Clone)]
pub struct TrainingData {
    pub prompt: String,
    pub completion: String,
}

/// Options for writing training data out as a file: an optional file
/// name, and the affixes wrapped around each completion.
#[derive(Debug, Clone)]
pub struct TrainingDataBuilder {
    pub filename: Option<String>,
    pub prefix: Option<String>,
    pub suffix: Option<String>,
}

impl TrainingData {
    /// One example from its two texts.
    pub fn new(prompt: String, completion: String) -> (r: TrainingData)
        ensures
            r.prompt == prompt,
            r.completion == completion,
    {
        TrainingData { prompt, completion }
    }

    /// A builder with the default affixes.
    pub fn builder() -> (r: TrainingDataBuilder)
        ensures
            r.filename is None,
            r.prefix is Some && r.prefix.unwrap()@ == seq![' '],
            r.suffix is Some && r.suffix.unwrap()@ == seq!['\n'],
    {
        TrainingDataBuilder::new()
    }
}

impl TrainingDataBuilder {
    /// The defaults: no file name, one leading space before each
    /// completion and one trailing line feed after it.
    pub fn new() -> (r: TrainingDataBuilder)
        ensures
            r.filename is None,
            r.prefix is Some && r.prefix.unwrap()@ == seq![' '],
            r.suffix is Some && r.suffix.unwrap()@ == seq!['\n'],
    {
        let prefix = " ".to_owned();
        let suffix = "\n".to_owned();
        proof {
            reveal_strlit(" ");
            reveal_strlit("\n");
            assert(prefix@ =~= seq![' ']);
            assert(suffix@ =~= seq!['\n']);
        }
        TrainingDataBuilder { filename: None, prefix: Some(prefix), suffix: Some(suffix) }
    }

    /// Sets the file name to upload under.
    pub fn filename(self, filename: String) -> (r: TrainingDataBuilder)
        ensures
            r.filename == Some(filename),
            r.prefix == self.prefix,
            r.suffix == self.suffix,
    {
        TrainingDataBuilder { filename: Some(filename), ..self }
    }

    /// Sets or removes the prefix put before each completion.
    pub fn prefix(self, prefix: Option<String>) -> (r: TrainingDataBuilder)
        ensures
            r.filename == self.filename,
            r.prefix == prefix,
            r.suffix == self.suffix,
    {
        TrainingDataBuilder { prefix, ..self }
    }

    /// Sets or removes the suffix put after each completion.
    pub fn suffix(self, suffix: Option<String>) -> (r: TrainingDataBuilder)
        ensures
            r.filename == self.filename,
            r.prefix == self.prefix,
            r.suffix == suffix,
    {
        TrainingDataBuilder { suffix, ..self }
    }

    /// Wraps one example's completion in the configured affixes, as the
    /// save operations do before serialising it.
    pub fn decorate(&self, data: TrainingData) -> (r: TrainingData)
        ensures
            r.prompt == data.prompt,
            r.completion@ == (match self.prefix {
                Option::Some(p) => p@,
                Option::None => Seq::<char>::empty(),
            }) + data.completion@ + (match self.suffix {
                Option::Some(s) => s@,
                Option::None => Seq::<char>::empty(),
            }),
    {
        let mut completion = String::new();
        match &self.prefix {
            Option::Some(p) => {
                completion.append(p.as_str());
            },
            Option::None => {
            },
        }
        completion.append(data.completion.as_str());
        match &self.suffix {
            Option::Some(s) => {
                completion.append(s.as_str());
            },
            Option::None => {
            },
        }
        proof {
            let pre = match &self.prefix {
                Option::Some(p) => p@,
                Option::None => Seq::<char>::empty(),
            };
            let suf = match &self.suffix {
                Option::Some(s) => s@,
                Option::None => Seq::<char>::empty(),
            };
            assert(completion@ =~= pre + data.completion@ + suf);
        }
        TrainingData { prompt: data.prompt, completion }
    }
}

impl Default for TrainingDataBuilder {
    fn default() -> (r: TrainingDataBuilder)
        ensures
            r.filename is None,
            r.prefix is Some && r.prefix.unwrap()@ == seq![' '],
            r.suffix is Some && r.suffix.unwrap()@ == seq!['\n'],
    {
        TrainingDataBuilder::new()
    }
}

} // verus!
