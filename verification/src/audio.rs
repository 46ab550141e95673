//! Transcript and translation response data.
//!
//! Subtitle and segment times are carried as plain millisecond counts,
//! so the logic that joins, measures and projects them is verified here;
//! converting a transport's own subtitle or duration values into these
//! fields is the caller's one-line job at the edge.

use vstd::prelude::*;
use vstd::string::StringExecFns;

verus! {

/// The format of the transcript or translation output.
#[derive(Debug, Clone, Copy, PartialEq, Eq, Structural, Hash)]
pub enum AudioResponseFormat {
    Json,
    Text,
    Srt,
    VerboseJson,
}

impl Default for AudioResponseFormat {
    fn default() -> (r: AudioResponseFormat)
        ensures
            r == AudioResponseFormat::Json,
    {
        AudioResponseFormat::Json
    }
}

/// The plain-JSON response: just the text.
#[derive(Debug, Clone)]
pub struct JsonResponse {
    pub text: String,
}

/// One subtitle of an SRT response: its text and its time range, in
/// milliseconds from the start of the audio.
#[derive(Debug, Clone)]
pub struct Subtitle {
    pub text: String,
    pub start_ms: u64,
    pub end_ms: u64,
}

/// One segment of a verbose-JSON response, with times in milliseconds.
#[derive(Debug, Clone)]
pub struct VerboseJsonSegment {
    pub id: u64,
    pub seek: u64,
    pub start_ms: u64,
    pub end_ms: u64,
    pub text: String,
    pub tokens: Vec<u64>,
    pub transient: bool,
}

/// The verbose-JSON response: the whole text plus its segments.
#[derive(Debug, Clone)]
pub struct VerboseJsonResponse {
    pub task: String,
    pub language: String,
    pub duration_ms: u64,
    pub segments: Vec<VerboseJsonSegment>,
    pub text: String,
}

/// A transcript or translation response, in whichever format was asked.
#[derive(Debug, Clone)]
pub enum AudioResponse {
    Json(JsonResponse),
    Text(String),
    Srt(Vec<Subtitle>),
    VerboseJson(VerboseJsonResponse),
}

/// A segment of a transcript, independent of the response format. Both
/// timestamps count milliseconds from the start of the audio.
#[derive(Debug, Clone)]
pub struct GenericSegment<'a> {
    pub text: &'a str,
    pub start: u64,
    pub end: u64,
}

impl<'a> GenericSegment<'a> {
    /// How long the segment lasts, in milliseconds.
    pub fn duration(self) -> (r: u64)
        requires
            self.start <= self.end,
        ensures
            r == self.end - self.start,
    {
        self.end - self.start
    }
}

/// Subtitle texts joined with one space between consecutive lines.
pub open spec fn srt_joined(texts: Seq<Seq<char>>) -> Seq<char>
    decreases texts.len(),
{
    if texts.len() == 0 {
        Seq::empty()
    } else if texts.len() == 1 {
        texts[0]
    } else {
        texts[0] + seq![' '] + srt_joined(texts.skip(1))
    }
}

/// Joining one more line appends a space and that line's text.
proof fn lemma_srt_joined_snoc(texts: Seq<Seq<char>>, i: int)
    requires
        1 <= i < texts.len(),
    ensures
        srt_joined(texts.take(i + 1)) == srt_joined(texts.take(i)) + seq![' '] + texts[i],
    decreases i,
{
    let tail = texts.skip(1);
    assert(texts.take(i + 1)[0] == texts[0]);
    assert(texts.take(i + 1).skip(1) =~= tail.take(i));
    if i == 1 {
        assert(texts.take(1).len() == 1);
        assert(texts.take(1)[0] == texts[0]);
        assert(tail.take(1).len() == 1);
        assert(tail.take(1)[0] == texts[1]);
        assert(srt_joined(texts.take(1)) == texts[0]);
        assert(srt_joined(tail.take(1)) == texts[1]);
        assert(texts.take(2).len() == 2);
        assert(srt_joined(texts.take(2)) == texts.take(2)[0] + seq![' '] + srt_joined(
            texts.take(2).skip(1),
        ));
        assert(srt_joined(texts.take(2)) == texts[0] + seq![' '] + texts[1]);
    } else {
        lemma_srt_joined_snoc(tail, i - 1);
        assert(texts.take(i)[0] == texts[0]);
        assert(texts.take(i).skip(1) =~= tail.take(i - 1));
        assert(tail[i - 1] == texts[i]);
        assert(texts[0] + seq![' '] + (srt_joined(tail.take(i - 1)) + seq![' '] + texts[i])
            =~= (texts[0] + seq![' '] + srt_joined(tail.take(i - 1))) + seq![' '] + texts[i]);
    }
}

impl AudioResponse {
    /// The text of the response, whatever its format: for an SRT
    /// response, the subtitle texts joined with single spaces.
    pub open spec fn text_spec(&self) -> Seq<char> {
        match self {
            AudioResponse::Json(x) => x.text@,
            AudioResponse::Text(x) => x@,
            AudioResponse::Srt(lines) => srt_joined(lines@.map_values(|s: Subtitle| s.text@)),
            AudioResponse::VerboseJson(x) => x.text@,
        }
    }

    /// Returns the underlying text of the response.
    pub fn text(&self) -> (r: String)
        ensures
            r@ == self.text_spec(),
    {
        match self {
            AudioResponse::Json(x) => x.text.clone(),
            AudioResponse::Text(x) => x.clone(),
            AudioResponse::VerboseJson(x) => x.text.clone(),
            AudioResponse::Srt(lines) => {
                let ghost texts = lines@.map_values(|s: Subtitle| s.text@);
                let n = lines.len();
                let mut result = String::new();
                let mut i: usize = 0;
                while i < n
                    invariant
                        0 <= i <= n,
                        n == lines@.len(),
                        texts == lines@.map_values(|s: Subtitle| s.text@),
                        texts.len() == n,
                        result@ == (if i == 0 {
                            Seq::<char>::empty()
                        } else if i < n {
                            srt_joined(texts.take(i as int)) + seq![' ']
                        } else {
                            srt_joined(texts.take(i as int))
                        }),
                    decreases n - i,
                {
                    result.append(lines[i].text.as_str());
                    proof {
                        assert(texts[i as int] == lines@[i as int].text@);
                        if i == 0 {
                            assert(Seq::<char>::empty() + texts[0] =~= texts[0]);
                            assert(texts.take(1).len() == 1);
                            assert(texts.take(1)[0] == texts[0]);
                        } else {
                            lemma_srt_joined_snoc(texts, i as int);
                        }
                    }
                    if i + 1 < n {
                        result.append(" ");
                        proof {
                            reveal_strlit(" ");
                            assert(" "@ =~= seq![' ']);
                        }
                    }
                    i = i + 1;
                }
                proof {
                    if n > 0 {
                        assert(texts.take(n as int) =~= texts);
                    }
                }
                result
            },
        }
    }

    /// Returns the language of the audio, where the format carries one.
    pub fn language(&self) -> (r: Option<&str>)
        ensures
            match self {
                AudioResponse::VerboseJson(x) => r is Some && r.unwrap()@ == x.language@,
                _ => r is None,
            },
    {
        match self {
            AudioResponse::VerboseJson(x) => Some(x.language.as_str()),
            _ => None,
        }
    }

    /// Returns the duration of the audio in milliseconds: as reported by
    /// a verbose response, or measured from the first subtitle's start
    /// to the last subtitle's end for an SRT response — `None` there if
    /// the subtitles run backwards, and zero when there are none.
    pub fn duration(&self) -> (r: Option<u64>)
        ensures
            match self {
                AudioResponse::VerboseJson(x) => r == Some(x.duration_ms),
                AudioResponse::Srt(lines) => {
                    if lines@.len() == 0 {
                        r == Some(0u64)
                    } else {
                        let first = lines@[0];
                        let last = lines@[lines@.len() - 1];
                        if first.start_ms <= last.end_ms {
                            r == Some((last.end_ms - first.start_ms) as u64)
                        } else {
                            r is None
                        }
                    }
                },
                _ => r is None,
            },
    {
        match self {
            AudioResponse::VerboseJson(x) => Some(x.duration_ms),
            AudioResponse::Srt(lines) => {
                if lines.len() == 0 {
                    Some(0)
                } else {
                    let first = &lines[0];
                    let last = &lines[lines.len() - 1];
                    if first.start_ms <= last.end_ms {
                        Some(last.end_ms - first.start_ms)
                    } else {
                        None
                    }
                }
            },
            _ => None,
        }
    }

    /// Returns the segments of the response, where the format has them:
    /// each subtitle or verbose segment as a [`GenericSegment`], in
    /// order, with its text and millisecond time range.
    pub fn segments(&self) -> (r: Option<Vec<GenericSegment<'_>>>)
        ensures
            match self {
                AudioResponse::VerboseJson(x) => {
                    &&& r is Some
                    &&& r.unwrap()@.len() == x.segments@.len()
                    &&& forall|i: int| 0 <= i < x.segments@.len() ==> {
                        &&& (#[trigger] r.unwrap()@[i]).text@ == x.segments@[i].text@
                        &&& r.unwrap()@[i].start == x.segments@[i].start_ms
                        &&& r.unwrap()@[i].end == x.segments@[i].end_ms
                    }
                },
                AudioResponse::Srt(lines) => {
                    &&& r is Some
                    &&& r.unwrap()@.len() == lines@.len()
                    &&& forall|i: int| 0 <= i < lines@.len() ==> {
                        &&& (#[trigger] r.unwrap()@[i]).text@ == lines@[i].text@
                        &&& r.unwrap()@[i].start == lines@[i].start_ms
                        &&& r.unwrap()@[i].end == lines@[i].end_ms
                    }
                },
                _ => r is None,
            },
    {
        match self {
            AudioResponse::VerboseJson(x) => {
                let n = x.segments.len();
                let mut out: Vec<GenericSegment<'_>> = Vec::new();
                let mut i: usize = 0;
                while i < n
                    invariant
                        0 <= i <= n,
                        n == x.segments@.len(),
                        out@.len() == i,
                        forall|j: int| 0 <= j < i ==> {
                            &&& (#[trigger] out@[j]).text@ == x.segments@[j].text@
                            &&& out@[j].start == x.segments@[j].start_ms
                            &&& out@[j].end == x.segments@[j].end_ms
                        },
                    decreases n - i,
                {
                    let seg = &x.segments[i];
                    out.push(GenericSegment {
                        text: seg.text.as_str(),
                        start: seg.start_ms,
                        end: seg.end_ms,
                    });
                    i = i + 1;
                }
                Some(out)
            },
            AudioResponse::Srt(lines) => {
                let n = lines.len();
                let mut out: Vec<GenericSegment<'_>> = Vec::new();
                let mut i: usize = 0;
                while i < n
                    invariant
                        0 <= i <= n,
                        n == lines@.len(),
                        out@.len() == i,
                        forall|j: int| 0 <= j < i ==> {
                            &&& (#[trigger] out@[j]).text@ == lines@[j].text@
                            &&& out@[j].start == lines@[j].start_ms
                            &&& out@[j].end == lines@[j].end_ms
                        },
                    decreases n - i,
                {
                    let line = &lines[i];
                    out.push(GenericSegment {
                        text: line.text.as_str(),
                        start: line.start_ms,
                        end: line.end_ms,
                    });
                    i = i + 1;
                }
                Some(out)
            },
            _ => None,
        }
    }
}

/// The milliseconds a subtitle timestamp of hours, minutes, seconds and
/// milliseconds stands for.
pub fn timestamp_to_millis(hours: u8, minutes: u8, seconds: u8, millis: u16) -> (r: u64)
    ensures
        r == millis + 1000 * (seconds as int) + 60000 * (minutes as int) + 3600000 * (
        hours as int),
{
    (millis as u64) + 1000 * (seconds as u64) + 60000 * (minutes as u64) + 3600000 * (
    hours as u64)
}

} // verus!
