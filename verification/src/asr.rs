//! Speech recognition around the engine: where the model lives and comes
//! from, and what is made of the engine's output.

use vstd::prelude::*;
use vstd::string::StringExecFns;
use crate::config::AsrConfig;
use crate::text::{chars_of, eq_lit, string_of};

verus! {

broadcast use vstd::string::group_string_axioms;

/// File name of the model of size `model`.
pub open spec fn model_file_name(model: Seq<char>) -> Seq<char> {
    "ggml-"@ + model + ".bin"@
}

/// Where the model of size `model` is downloaded from.
pub open spec fn model_url(model: Seq<char>) -> Seq<char> {
    "https://huggingface.co/ggerganov/whisper.cpp/resolve/main/"@ + model_file_name(model)
}

/// URL of the model file that `config` selects.
pub fn model_download_url(config: &AsrConfig) -> (url: String)
    ensures
        url@ == model_url(config.model@),
{
    let mut url = "https://huggingface.co/ggerganov/whisper.cpp/resolve/main/ggml-".to_string();
    url.append(config.model.as_str());
    url.append(".bin");
    proof {
        reveal_strlit("https://huggingface.co/ggerganov/whisper.cpp/resolve/main/ggml-");
        reveal_strlit("https://huggingface.co/ggerganov/whisper.cpp/resolve/main/");
        reveal_strlit("ggml-");
        assert("https://huggingface.co/ggerganov/whisper.cpp/resolve/main/ggml-"@
            =~= "https://huggingface.co/ggerganov/whisper.cpp/resolve/main/"@ + "ggml-"@);
    }
    url
}

/// Approximate download size in MB of a model size ("?" when unknown).
pub open spec fn model_size_label(model: Seq<char>) -> Seq<char> {
    if model == "tiny"@ {
        "75"@
    } else if model == "base"@ {
        "142"@
    } else if model == "small"@ {
        "466"@
    } else if model == "medium"@ {
        "769"@
    } else if model == "large"@ {
        "1549"@
    } else {
        "?"@
    }
}

/// Approximate download size in MB of a model size ("?" when unknown).
pub fn model_size_mb(model: &str) -> (mb: &'static str)
    ensures
        mb@ == model_size_label(model@),
{
    let m = chars_of(model);
    if eq_lit(&m, "tiny") {
        "75"
    } else if eq_lit(&m, "base") {
        "142"
    } else if eq_lit(&m, "small") {
        "466"
    } else if eq_lit(&m, "medium") {
        "769"
    } else if eq_lit(&m, "large") {
        "1549"
    } else {
        "?"
    }
}

/// The model directory with a leading `~/` replaced by `home`.
pub open spec fn expand_home(dir: Seq<char>, home: Seq<char>) -> Seq<char> {
    if dir.len() >= 2 && dir[0] == '~' && dir[1] == '/' {
        home + seq!['/'] + dir.subrange(2, dir.len() as int)
    } else {
        dir
    }
}

/// `dir` joined with the relative file name `file`: a `/` goes between
/// them unless `dir` is empty or already ends with one.
pub open spec fn join_path(dir: Seq<char>, file: Seq<char>) -> Seq<char> {
    if dir.len() > 0 && dir.last() != '/' {
        dir + seq!['/'] + file
    } else {
        dir + file
    }
}

/// Path of the model file that `config` selects, `home` standing for `~`.
pub fn model_file_path(config: &AsrConfig, home: &str) -> (path: String)
    ensures
        path@ == join_path(expand_home(config.model_path@, home@), model_file_name(config.model@)),
{
    let dir = chars_of(config.model_path.as_str());
    let mut path = String::new();
    if dir.len() >= 2 && dir[0] == '~' && dir[1] == '/' {
        path.append(home);
        crate::text::push_char(&mut path, '/');
        let mut i: usize = 2;
        let ghost prefix = path@;
        while i < dir.len()
            invariant
                2 <= i <= dir@.len(),
                path@ == prefix + dir@.subrange(2, i as int),
            decreases dir@.len() - i,
        {
            crate::text::push_char(&mut path, dir[i]);
            i = i + 1;
            assert(path@ =~= prefix + dir@.subrange(2, i as int));
        }
        assert(path@ =~= expand_home(config.model_path@, home@));
    } else {
        path.append(config.model_path.as_str());
    }
    let expanded = chars_of(path.as_str());
    if expanded.len() > 0 && expanded[expanded.len() - 1] != '/' {
        crate::text::push_char(&mut path, '/');
    }
    path.append("ggml-");
    path.append(config.model.as_str());
    path.append(".bin");
    proof {
        let d = expand_home(config.model_path@, home@);
        let f = model_file_name(config.model@);
        assert(path@ =~= join_path(d, f));
    }
    path
}

/// Whether `c` is white space (the Unicode `White_Space` property, as
/// `str::trim` uses it).
pub open spec fn is_white_space(c: char) -> bool {
    ('\u{9}' <= c && c <= '\u{d}') || c == ' ' || c == '\u{85}' || c == '\u{a0}' || c == '\u{1680}'
        || ('\u{2000}' <= c && c <= '\u{200a}') || c == '\u{2028}' || c == '\u{2029}' || c == '\u{202f}'
        || c == '\u{205f}' || c == '\u{3000}'
}

/// `s` without leading white space.
pub open spec fn trim_start(s: Seq<char>) -> Seq<char>
    decreases s.len(),
{
    if s.len() > 0 && is_white_space(s[0]) {
        trim_start(s.drop_first())
    } else {
        s
    }
}

/// `s` without trailing white space.
pub open spec fn trim_end(s: Seq<char>) -> Seq<char>
    decreases s.len(),
{
    if s.len() > 0 && is_white_space(s.last()) {
        trim_end(s.drop_last())
    } else {
        s
    }
}

/// `s` without leading and trailing white space.
pub open spec fn trim(s: Seq<char>) -> Seq<char> {
    trim_end(trim_start(s))
}

/// Trimming keeps a contiguous piece of the text and drops only white
/// space around it: what is dropped in front and behind is all white
/// space, and what is kept neither begins nor ends with white space.
pub proof fn lemma_trim(s: Seq<char>)
    ensures
        ({
            let t = trim(s);
            exists|i: int, k: int|
                0 <= i <= k <= s.len() && t == #[trigger] s.subrange(i, k)
                && (forall|j: int| 0 <= j < i ==> is_white_space(#[trigger] s[j]))
                && (forall|j: int| k <= j < s.len() ==> is_white_space(#[trigger] s[j]))
        }),
        trim(s).len() > 0 ==> !is_white_space(trim(s)[0]) && !is_white_space(trim(s).last()),
{
    let a = lemma_trim_start(s);
    let u = trim_start(s);
    let e = lemma_trim_end(u);
    let t = trim(s);
    assert(t == u.subrange(0, e));
    assert(t =~= s.subrange(a, a + t.len()));
    assert forall|j: int| a + t.len() <= j < s.len() implies is_white_space(#[trigger] s[j]) by {
        assert(s[j] == u[j - a]);
    }
    if t.len() > 0 {
        assert(t[0] == u[0]);
    }
    assert(t == s.subrange(a, a + t.len()));
}

/// `trim_start(s)` is `s` from some index on, every character before it
/// white space.
proof fn lemma_trim_start(s: Seq<char>) -> (a: int)
    ensures
        0 <= a <= s.len(),
        trim_start(s) == s.subrange(a, s.len() as int),
        forall|j: int| 0 <= j < a ==> is_white_space(#[trigger] s[j]),
        trim_start(s).len() > 0 ==> !is_white_space(trim_start(s)[0]),
    decreases s.len(),
{
    if s.len() > 0 && is_white_space(s[0]) {
        let a = lemma_trim_start(s.drop_first());
        assert(s.drop_first().subrange(a, s.len() - 1) =~= s.subrange(a + 1, s.len() as int));
        assert forall|j: int| 0 <= j < a + 1 implies is_white_space(#[trigger] s[j]) by {
            if j > 0 {
                assert(s[j] == s.drop_first()[j - 1]);
            }
        }
        a + 1
    } else {
        assert(s.subrange(0, s.len() as int) =~= s);
        0
    }
}

/// `trim_end(s)` is `s` up to some index, every character after it white
/// space.
proof fn lemma_trim_end(s: Seq<char>) -> (e: int)
    ensures
        0 <= e <= s.len(),
        trim_end(s) == s.subrange(0, e),
        forall|j: int| e <= j < s.len() ==> is_white_space(#[trigger] s[j]),
        trim_end(s).len() > 0 ==> !is_white_space(trim_end(s).last()),
    decreases s.len(),
{
    if s.len() > 0 && is_white_space(s.last()) {
        let e = lemma_trim_end(s.drop_last());
        assert(s.drop_last().subrange(0, e) =~= s.subrange(0, e));
        assert forall|j: int| e <= j < s.len() implies is_white_space(#[trigger] s[j]) by {
            if j < s.len() - 1 {
                assert(s[j] == s.drop_last()[j]);
            }
        }
        e
    } else {
        assert(s.subrange(0, s.len() as int) =~= s);
        s.len() as int
    }
}

/// The white space that trimming drops includes the space, tab, line
/// feed, carriage return and no-break space; letters and digits are not
/// white space.
pub proof fn lemma_white_space(c: char)
    ensures
        is_white_space(' '),
        is_white_space('\t'),
        is_white_space('\n'),
        is_white_space('\r'),
        is_white_space('\u{a0}'),
        is_white_space('\u{3000}'),
        ('a' <= c <= 'z' || 'A' <= c <= 'Z' || '0' <= c <= '9') ==> !is_white_space(c),
{
}

/// Executable `is_white_space`.
fn white_space(c: char) -> (b: bool)
    ensures
        b == is_white_space(c),
{
    ('\u{9}' <= c && c <= '\u{d}') || c == ' ' || c == '\u{85}' || c == '\u{a0}' || c == '\u{1680}'
        || ('\u{2000}' <= c && c <= '\u{200a}') || c == '\u{2028}' || c == '\u{2029}' || c == '\u{202f}'
        || c == '\u{205f}' || c == '\u{3000}'
}

/// The texts one after the other.
pub open spec fn concat_texts(ts: Seq<Seq<char>>) -> Seq<char>
    decreases ts.len(),
{
    if ts.len() == 0 {
        Seq::empty()
    } else {
        concat_texts(ts.drop_last()) + ts.last()
    }
}

/// The transcription made of the engine's segments: their texts one after
/// the other, without leading and trailing white space.
pub fn join_segments(segments: &[String]) -> (text: String)
    ensures
        text@ == trim(concat_texts(segments@.map_values(|s: String| s@))),
{
    let ghost texts = segments@.map_values(|s: String| s@);
    let mut all: Vec<char> = Vec::new();
    let mut k: usize = 0;
    while k < segments.len()
        invariant
            k <= segments@.len(),
            texts == segments@.map_values(|s: String| s@),
            all@ == concat_texts(texts.subrange(0, k as int)),
        decreases segments@.len() - k,
    {
        let cs = chars_of(segments[k].as_str());
        let ghost before = all@;
        let mut i: usize = 0;
        while i < cs.len()
            invariant
                i <= cs@.len(),
                all@ == before + cs@.subrange(0, i as int),
            decreases cs@.len() - i,
        {
            all.push(cs[i]);
            i = i + 1;
            assert(all@ =~= before + cs@.subrange(0, i as int));
        }
        assert(texts.subrange(0, k + 1).drop_last() =~= texts.subrange(0, k as int));
        assert(cs@.subrange(0, cs@.len() as int) =~= cs@);
        k = k + 1;
    }
    assert(texts.subrange(0, segments@.len() as int) =~= texts);
    let ghost whole = all@;
    // leading white space
    let mut start: usize = 0;
    assert(whole.subrange(0, whole.len() as int) =~= whole);
    while start < all.len() && white_space(all[start])
        invariant
            all@ == whole,
            start <= whole.len(),
            trim_start(whole) == trim_start(whole.subrange(start as int, whole.len() as int)),
        decreases whole.len() - start,
    {
        assert(whole.subrange(start as int, whole.len() as int).drop_first()
            =~= whole.subrange(start + 1, whole.len() as int));
        start = start + 1;
    }
    let ghost rest = whole.subrange(start as int, whole.len() as int);
    assert(trim_start(rest) == rest);
    // trailing white space
    let mut end: usize = all.len();
    assert(rest.subrange(0, rest.len() as int) =~= rest);
    while end > start && white_space(all[end - 1])
        invariant
            all@ == whole,
            start <= end <= whole.len(),
            rest == whole.subrange(start as int, whole.len() as int),
            trim_end(rest) == trim_end(whole.subrange(start as int, end as int)),
        decreases end - start,
    {
        assert(whole.subrange(start as int, end as int).drop_last()
            =~= whole.subrange(start as int, end - 1));
        end = end - 1;
    }
    let ghost kept = whole.subrange(start as int, end as int);
    assert(trim_end(kept) == kept);
    let mut out: Vec<char> = Vec::new();
    let mut i: usize = start;
    while i < end
        invariant
            all@ == whole,
            start <= i <= end <= whole.len(),
            out@ == whole.subrange(start as int, i as int),
        decreases end - i,
    {
        out.push(all[i]);
        i = i + 1;
        assert(out@ =~= whole.subrange(start as int, i as int));
    }
    string_of(&out)
}

/// The raw little-endian bytes of the samples, two per sample.
pub open spec fn le_bytes_spec(samples: Seq<i16>) -> Seq<u8> {
    Seq::new(2 * samples.len(), |j: int| {
        let u = samples[j / 2] as u16;
        if j % 2 == 0 { (u % 256) as u8 } else { (u / 256) as u8 }
    })
}

/// The audio to keep for diagnosis after a transcription: when the text is
/// empty although more than 1000 samples were heard, the samples as raw
/// little-endian 16-bit bytes.
pub fn failed_audio_bytes(text: &str, audio: &[i16]) -> (bytes: Option<Vec<u8>>)
    ensures
        match bytes {
            Some(b) => text@.len() == 0 && audio@.len() > 1000 && b@ == le_bytes_spec(audio@),
            None => !(text@.len() == 0 && audio@.len() > 1000),
        },
{
    if !(text.is_empty() && audio.len() > 1000) {
        return None;
    }
    let mut out: Vec<u8> = Vec::new();
    let mut i: usize = 0;
    while i < audio.len()
        invariant
            i <= audio@.len(),
            out@ =~= le_bytes_spec(audio@.subrange(0, i as int)),
        decreases audio@.len() - i,
    {
        let u: u16 = audio[i] as u16;
        let lo: u8 = (u & 0xff) as u8;
        let hi: u8 = (u >> 8) as u8;
        assert(u & 0xff == u % 256) by (bit_vector);
        assert(u >> 8 == u / 256) by (bit_vector);
        out.push(lo);
        out.push(hi);
        i = i + 1;
        proof {
            let s = audio@.subrange(0, i as int);
            assert forall|j: int| 0 <= j < 2 * i implies #[trigger] out@[j] == le_bytes_spec(s)[j] by {
                assert(s[j / 2] == audio@[j / 2]);
            }
        }
    }
    assert(audio@.subrange(0, audio@.len() as int) =~= audio@);
    Some(out)
}

/// What the model download reports back: how each downloader exited,
/// and what was found at the model path afterwards.
#[derive(Clone, Copy, Debug, PartialEq, Eq, Structural)]
pub enum DownloadEvent {
    CurlExited { success: bool },
    WgetExited { success: bool },
    FileChecked { exists: bool, size: u64 },
}

/// Why a model download failed.
#[derive(Clone, Copy, Debug, PartialEq, Eq, Structural)]
pub enum DownloadError {
    /// Neither curl nor wget succeeded.
    BothDownloadersFailed,
    /// The downloader succeeded but the file is missing or empty.
    EmptyModelFile,
}

/// What to do next in a model download.
#[derive(Clone, Copy, Debug, PartialEq, Eq, Structural)]
pub enum DownloadAction {
    /// Try again with wget.
    RunWget,
    /// Look at the downloaded file.
    CheckFile,
    /// The model is in place.
    Done,
    /// Stop with this error.
    Fail(DownloadError),
}

/// The download's next step: curl first, wget when curl fails, and the
/// model is in place only when the file exists and is not empty.
pub open spec fn download_next(e: DownloadEvent) -> DownloadAction {
    match e {
        DownloadEvent::CurlExited { success } => if success {
            DownloadAction::CheckFile
        } else {
            DownloadAction::RunWget
        },
        DownloadEvent::WgetExited { success } => if success {
            DownloadAction::CheckFile
        } else {
            DownloadAction::Fail(DownloadError::BothDownloadersFailed)
        },
        DownloadEvent::FileChecked { exists, size } => if exists && size != 0 {
            DownloadAction::Done
        } else {
            DownloadAction::Fail(DownloadError::EmptyModelFile)
        },
    }
}

/// The next step of a model download after `e`.
pub fn download_step(e: DownloadEvent) -> (a: DownloadAction)
    ensures
        a == download_next(e),
{
    match e {
        DownloadEvent::CurlExited { success } => if success {
            DownloadAction::CheckFile
        } else {
            DownloadAction::RunWget
        },
        DownloadEvent::WgetExited { success } => if success {
            DownloadAction::CheckFile
        } else {
            DownloadAction::Fail(DownloadError::BothDownloadersFailed)
        },
        DownloadEvent::FileChecked { exists, size } => if exists && size != 0 {
            DownloadAction::Done
        } else {
            DownloadAction::Fail(DownloadError::EmptyModelFile)
        },
    }
}

impl DownloadError {
    /// The text of the error.
    pub fn message(&self) -> (m: &'static str)
        ensures
            m@ == match self {
                DownloadError::BothDownloadersFailed => "Failed to download model using both curl and wget"@,
                DownloadError::EmptyModelFile => "Downloaded model file is empty or missing"@,
            },
    {
        match self {
            DownloadError::BothDownloadersFailed => "Failed to download model using both curl and wget",
            DownloadError::EmptyModelFile => "Downloaded model file is empty or missing",
        }
    }
}

} // verus!
