//! Which audio streams are copied into the MP4 output, and which are skipped.

use vstd::prelude::*;
use crate::error::{Error, Result, media_with};
use crate::frame::Rational;
use crate::planner::policy::{join, join_strings, texts};
use crate::text::{cat, decimal, decimal_text};

verus! {

/// What to do with input audio.
#[derive(Clone, Copy, Debug, PartialEq, Eq, Structural)]
pub enum AudioPolicy {
    Auto,
    Copy,
    Disabled,
}

/// One probed input audio stream.
#[derive(Clone, Debug, PartialEq, Eq)]
pub struct AudioStreamInfo {
    pub input_index: usize,
    pub codec_id: i32,
    pub codec: String,
    pub profile: Option<String>,
    pub time_base: Rational,
    pub sample_rate: Option<u32>,
    pub channels: Option<u32>,
    pub bit_rate: Option<u64>,
    pub language: Option<String>,
    pub start_time: Option<i64>,
    pub default: bool,
    pub forced: bool,
    pub mp4_compatible: bool,
    pub compatibility_reason: Option<String>,
}

/// A stream that is copied.
#[derive(Clone, Debug, PartialEq, Eq)]
pub struct AudioStreamPlan {
    pub input_index: usize,
    pub codec: String,
    pub language: Option<String>,
    pub default: bool,
}

/// A stream that is left out, and why.
#[derive(Clone, Debug, PartialEq, Eq)]
pub struct SkippedAudioStream {
    pub input_index: usize,
    pub codec: String,
    pub reason: String,
}

/// The audio decision for a run.
#[derive(Clone, Debug, PartialEq, Eq)]
pub struct AudioPlan {
    pub policy: AudioPolicy,
    pub selected: Vec<AudioStreamPlan>,
    pub skipped: Vec<SkippedAudioStream>,
}

pub open spec fn opt_text(o: Option<String>) -> Option<Seq<char>> {
    match o {
        Some(s) => Some(s@),
        None => None,
    }
}

/// A selected stream as plain values: index, codec, language, default flag.
pub open spec fn selected_view(p: AudioStreamPlan) -> (usize, Seq<char>, Option<Seq<char>>, bool) {
    (p.input_index, p.codec@, opt_text(p.language), p.default)
}

/// A skipped stream as plain values: index, codec, reason.
pub open spec fn skipped_view(s: SkippedAudioStream) -> (usize, Seq<char>, Seq<char>) {
    (s.input_index, s.codec@, s.reason@)
}

pub open spec fn selected_views(v: Seq<AudioStreamPlan>) -> Seq<(usize, Seq<char>, Option<Seq<char>>, bool)> {
    v.map_values(|p: AudioStreamPlan| selected_view(p))
}

pub open spec fn skipped_views(v: Seq<SkippedAudioStream>) -> Seq<(usize, Seq<char>, Seq<char>)> {
    v.map_values(|s: SkippedAudioStream| skipped_view(s))
}

/// The reason an incompatible stream is skipped.
pub open spec fn skip_reason(s: AudioStreamInfo) -> Seq<char> {
    match s.compatibility_reason {
        Some(r) => r@,
        None => "the MP4 muxer rejected this codec"@,
    }
}

/// MP4-compatible streams among the first `n`, in input order.
pub open spec fn compatible_upto(s: Seq<AudioStreamInfo>, n: int) -> Seq<(usize, Seq<char>, Option<Seq<char>>, bool)>
    decreases n,
{
    if n <= 0 {
        Seq::empty()
    } else {
        let prev = compatible_upto(s, n - 1);
        let x = s[n - 1];
        if x.mp4_compatible { prev.push((x.input_index, x.codec@, opt_text(x.language), x.default)) } else { prev }
    }
}

/// Incompatible streams among the first `n`, with their reasons.
pub open spec fn incompatible_upto(s: Seq<AudioStreamInfo>, n: int) -> Seq<(usize, Seq<char>, Seq<char>)>
    decreases n,
{
    if n <= 0 {
        Seq::empty()
    } else {
        let prev = incompatible_upto(s, n - 1);
        let x = s[n - 1];
        if !x.mp4_compatible { prev.push((x.input_index, x.codec@, skip_reason(x))) } else { prev }
    }
}

/// Every stream, skipped because audio is disabled.
pub open spec fn disabled_upto(s: Seq<AudioStreamInfo>, n: int) -> Seq<(usize, Seq<char>, Seq<char>)>
    decreases n,
{
    if n <= 0 {
        Seq::empty()
    } else {
        disabled_upto(s, n - 1).push((s[n - 1].input_index, s[n - 1].codec@, "disabled by --audio none"@))
    }
}

/// `stream #<index> (<codec>): <reason>`.
pub open spec fn skip_detail(k: (usize, Seq<char>, Seq<char>)) -> Seq<char> {
    "stream #"@ + decimal_text(k.0 as nat) + " ("@ + k.1 + "): "@ + k.2
}

/// The error for `--audio copy` when some stream cannot be copied.
pub open spec fn copy_refusal(skipped: Seq<(usize, Seq<char>, Seq<char>)>) -> Seq<char> {
    "--audio copy requires every audio stream to be MP4-compatible; "@
        + join(skipped.map_values(|k: (usize, Seq<char>, Seq<char>)| skip_detail(k)), "; "@)
}

/// What `AudioPlan::select` returns.
pub open spec fn audio_outcome(r: Result<AudioPlan>, policy: AudioPolicy, s: Seq<AudioStreamInfo>) -> bool {
    if policy == AudioPolicy::Disabled {
        r matches Ok(p) && p.policy == policy && p.selected@.len() == 0
            && skipped_views(p.skipped@) == disabled_upto(s, s.len() as int)
    } else if policy == AudioPolicy::Copy && incompatible_upto(s, s.len() as int).len() > 0 {
        media_with(r, copy_refusal(incompatible_upto(s, s.len() as int)))
    } else {
        r matches Ok(p) && p.policy == policy
            && selected_views(p.selected@) == compatible_upto(s, s.len() as int)
            && skipped_views(p.skipped@) == incompatible_upto(s, s.len() as int)
    }
}

fn clone_opt(o: &Option<String>) -> (r: Option<String>)
    ensures
        opt_text(r) == opt_text(*o),
{
    match o {
        Some(s) => Some(s.clone()),
        None => None,
    }
}

fn refusal(skipped: &Vec<SkippedAudioStream>) -> (m: String)
    ensures
        m@ == copy_refusal(skipped_views(skipped@)),
{
    proof {
        reveal_strlit("stream #");
        reveal_strlit(" (");
        reveal_strlit("): ");
        reveal_strlit("--audio copy requires every audio stream to be MP4-compatible; ");
        reveal_strlit("; ");
    }
    let ghost ks = skipped_views(skipped@);
    let ghost details_spec = ks.map_values(|k: (usize, Seq<char>, Seq<char>)| skip_detail(k));
    let mut details: Vec<String> = Vec::new();
    let mut i: usize = 0;
    while i < skipped.len()
        invariant
            i <= skipped@.len(),
            ks == skipped_views(skipped@),
            details_spec == ks.map_values(|k: (usize, Seq<char>, Seq<char>)| skip_detail(k)),
            texts(details@) == details_spec.take(i as int),
        decreases skipped@.len() - i,
    {
        let k = &skipped[i];
        let idx = decimal(k.input_index as u64);
        let mut d = cat("stream #", idx.as_str());
        d.append(" (");
        d.append(k.codec.as_str());
        d.append("): ");
        d.append(k.reason.as_str());
        let ghost prev = details@;
        details.push(d);
        proof {
            assert(details@ =~= prev.push(d));
            assert(texts(details@) =~= texts(prev).push(d@));
            assert(details_spec.take(i + 1) =~= details_spec.take(i as int).push(details_spec[i as int]));
        }
        i = i + 1;
    }
    proof {
        assert(details_spec.take(skipped@.len() as int) =~= details_spec);
    }
    let joined = join_strings(&details, "; ");
    cat("--audio copy requires every audio stream to be MP4-compatible; ", joined.as_str())
}

impl AudioPlan {
    /// `None` skips every stream; otherwise MP4-compatible streams are
    /// copied in input order and the rest skipped with their reasons, and
    /// `Copy` refuses to run when any stream would be skipped.
    pub fn select(policy: AudioPolicy, streams: &[AudioStreamInfo]) -> (r: Result<AudioPlan>)
        ensures
            audio_outcome(r, policy, streams@),
    {
        proof {
            reveal_strlit("disabled by --audio none");
            reveal_strlit("the MP4 muxer rejected this codec");
        }
        if policy == AudioPolicy::Disabled {
            let mut skipped: Vec<SkippedAudioStream> = Vec::new();
            let mut i: usize = 0;
            while i < streams.len()
                invariant
                    i <= streams@.len(),
                    skipped_views(skipped@) == disabled_upto(streams@, i as int),
                decreases streams@.len() - i,
            {
                let s = &streams[i];
                let entry = SkippedAudioStream {
                    input_index: s.input_index,
                    codec: s.codec.clone(),
                    reason: String::from_str("disabled by --audio none"),
                };
                let ghost prev = skipped@;
                skipped.push(entry);
                proof {
                    assert(skipped@ =~= prev.push(entry));
                    assert(skipped_views(skipped@) =~= skipped_views(prev).push(skipped_view(entry)));
                }
                i = i + 1;
            }
            return Ok(AudioPlan { policy, selected: Vec::new(), skipped });
        }
        let mut selected: Vec<AudioStreamPlan> = Vec::new();
        let mut skipped: Vec<SkippedAudioStream> = Vec::new();
        let mut i: usize = 0;
        while i < streams.len()
            invariant
                i <= streams@.len(),
                selected_views(selected@) == compatible_upto(streams@, i as int),
                skipped_views(skipped@) == incompatible_upto(streams@, i as int),
            decreases streams@.len() - i,
        {
            let s = &streams[i];
            if s.mp4_compatible {
                let entry = AudioStreamPlan {
                    input_index: s.input_index,
                    codec: s.codec.clone(),
                    language: clone_opt(&s.language),
                    default: s.default,
                };
                let ghost prev = selected@;
                selected.push(entry);
                proof {
                    assert(selected@ =~= prev.push(entry));
                    assert(selected_views(selected@) =~= selected_views(prev).push(selected_view(entry)));
                }
            } else {
                let reason = match &s.compatibility_reason {
                    Some(r) => r.clone(),
                    None => String::from_str("the MP4 muxer rejected this codec"),
                };
                let entry = SkippedAudioStream { input_index: s.input_index, codec: s.codec.clone(), reason };
                let ghost prev = skipped@;
                skipped.push(entry);
                proof {
                    assert(skipped@ =~= prev.push(entry));
                    assert(skipped_views(skipped@) =~= skipped_views(prev).push(skipped_view(entry)));
                }
            }
            i = i + 1;
        }
        if policy == AudioPolicy::Copy && skipped.len() != 0 {
            return Err(Error::Media(refusal(&skipped)));
        }
        Ok(AudioPlan { policy, selected, skipped })
    }
}

/// Every input stream is accounted for exactly once: selected or skipped.
pub proof fn lemma_every_stream_accounted(s: Seq<AudioStreamInfo>, n: int)
    requires
        0 <= n <= s.len(),
    ensures
        compatible_upto(s, n).len() + incompatible_upto(s, n).len() == n,
        disabled_upto(s, n).len() == n,
    decreases n,
{
    if n > 0 {
        lemma_every_stream_accounted(s, n - 1);
    }
}

/// A copied stream as plain values.
pub open spec fn copied_as(x: AudioStreamInfo) -> (usize, Seq<char>, Option<Seq<char>>, bool) {
    (x.input_index, x.codec@, opt_text(x.language), x.default)
}

/// A stream left out for incompatibility, with the muxer's reason or the
/// generic one.
pub open spec fn left_out_as(x: AudioStreamInfo) -> (usize, Seq<char>, Seq<char>) {
    (x.input_index, x.codec@, match x.compatibility_reason {
        Some(r) => r@,
        None => "the MP4 muxer rejected this codec"@,
    })
}

proof fn lemma_upto_is_filter(s: Seq<AudioStreamInfo>, n: int)
    requires
        0 <= n <= s.len(),
    ensures
        compatible_upto(s, n) == s.take(n).filter(|x: AudioStreamInfo| x.mp4_compatible).map_values(|x: AudioStreamInfo| copied_as(x)),
        incompatible_upto(s, n) == s.take(n).filter(|x: AudioStreamInfo| !x.mp4_compatible).map_values(|x: AudioStreamInfo| left_out_as(x)),
        (incompatible_upto(s, n).len() == 0) <==> (forall|i: int| 0 <= i < n ==> (#[trigger] s[i]).mp4_compatible),
    decreases n,
{
    reveal(Seq::filter);
    let t = s.take(n);
    if n == 0 {
        assert(t =~= Seq::<AudioStreamInfo>::empty());
        assert(t.filter(|x: AudioStreamInfo| x.mp4_compatible) =~= Seq::<AudioStreamInfo>::empty());
        assert(t.filter(|x: AudioStreamInfo| !x.mp4_compatible) =~= Seq::<AudioStreamInfo>::empty());
    } else {
        lemma_upto_is_filter(s, n - 1);
        assert(t.drop_last() =~= s.take(n - 1));
        assert(t.last() == s[n - 1]);
        let fc = s.take(n - 1).filter(|x: AudioStreamInfo| x.mp4_compatible);
        let fi = s.take(n - 1).filter(|x: AudioStreamInfo| !x.mp4_compatible);
        if s[n - 1].mp4_compatible {
            assert(t.filter(|x: AudioStreamInfo| x.mp4_compatible) == fc.push(s[n - 1]));
            assert(fc.push(s[n - 1]).map_values(|x: AudioStreamInfo| copied_as(x))
                =~= fc.map_values(|x: AudioStreamInfo| copied_as(x)).push(copied_as(s[n - 1])));
            assert(t.filter(|x: AudioStreamInfo| !x.mp4_compatible) == fi);
        } else {
            assert(t.filter(|x: AudioStreamInfo| !x.mp4_compatible) == fi.push(s[n - 1]));
            assert(fi.push(s[n - 1]).map_values(|x: AudioStreamInfo| left_out_as(x))
                =~= fi.map_values(|x: AudioStreamInfo| left_out_as(x)).push(left_out_as(s[n - 1])));
            assert(t.filter(|x: AudioStreamInfo| x.mp4_compatible) == fc);
            assert(incompatible_upto(s, n).len() > 0);
        }
    }
}

/// What each audio policy does with the input streams. `Auto` never
/// refuses: it copies the MP4-compatible streams in input order and skips
/// the others with their reasons. `Copy` does the same but refuses exactly
/// when some stream is incompatible. `None` copies nothing and skips every
/// stream, in order.
pub proof fn lemma_audio_policies(r: Result<AudioPlan>, policy: AudioPolicy, s: Seq<AudioStreamInfo>)
    requires
        audio_outcome(r, policy, s),
    ensures
        policy != AudioPolicy::Copy ==> r is Ok,
        policy == AudioPolicy::Copy ==> (r is Ok <==> forall|i: int| 0 <= i < s.len() ==> (#[trigger] s[i]).mp4_compatible),
        r matches Ok(p) ==> p.policy == policy,
        policy != AudioPolicy::Disabled ==> (r matches Ok(p) ==> {
            &&& selected_views(p.selected@) == s.filter(|x: AudioStreamInfo| x.mp4_compatible).map_values(|x: AudioStreamInfo| copied_as(x))
            &&& skipped_views(p.skipped@) == s.filter(|x: AudioStreamInfo| !x.mp4_compatible).map_values(|x: AudioStreamInfo| left_out_as(x))
        }),
        policy == AudioPolicy::Disabled ==> (r matches Ok(p) ==> {
            &&& p.selected@.len() == 0
            &&& skipped_views(p.skipped@) == s.map_values(|x: AudioStreamInfo| (x.input_index, x.codec@, "disabled by --audio none"@))
        }),
{
    lemma_upto_is_filter(s, s.len() as int);
    assert(s.take(s.len() as int) =~= s);
    if policy == AudioPolicy::Disabled {
        lemma_disabled_is_map(s, s.len() as int);
    }
}

proof fn lemma_disabled_is_map(s: Seq<AudioStreamInfo>, n: int)
    requires
        0 <= n <= s.len(),
    ensures
        disabled_upto(s, n) == s.take(n).map_values(|x: AudioStreamInfo| (x.input_index, x.codec@, "disabled by --audio none"@)),
    decreases n,
{
    if n > 0 {
        lemma_disabled_is_map(s, n - 1);
        assert(s.take(n).map_values(|x: AudioStreamInfo| (x.input_index, x.codec@, "disabled by --audio none"@))
            =~= s.take(n - 1).map_values(|x: AudioStreamInfo| (x.input_index, x.codec@, "disabled by --audio none"@))
                .push((s[n - 1].input_index, s[n - 1].codec@, "disabled by --audio none"@)));
    } else {
        assert(s.take(0).map_values(|x: AudioStreamInfo| (x.input_index, x.codec@, "disabled by --audio none"@))
            =~= Seq::<(usize, Seq<char>, Seq<char>)>::empty());
    }
}

} // verus!
