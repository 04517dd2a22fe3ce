//! Planning video merges: when inputs may be joined by stream copy, the
//! concat list of a virtual merge, and the FFmpeg arguments of both modes.

use vstd::prelude::*;
use crate::clipper::{apply_quality_args, quality_args};
use crate::config::strs;
use crate::text::{chars_of, digits_of, push_digits, push_str, string_of};

verus! {

/// What a probe reports of an input that a virtual merge must agree on.
pub struct VideoFormat {
    pub video_codec: Option<String>,
    pub width: Option<u32>,
    pub height: Option<u32>,
}

pub open spec fn format_view(f: VideoFormat) -> (Option<Seq<char>>, Option<u32>, Option<u32>) {
    (crate::manifest::opt_view(f.video_codec), f.width, f.height)
}

pub open spec fn probe_view(p: Result<VideoFormat, String>) -> Result<
    (Option<Seq<char>>, Option<u32>, Option<u32>),
    Seq<char>,
> {
    match p {
        Ok(f) => Ok(format_view(f)),
        Err(e) => Err(e@),
    }
}

/// The verdict on inputs whose probes are `ps`, in input order: fewer than
/// two inputs are compatible; else the first probe failure is the error,
/// unless an input whose codec or size differs from the first comes
/// before it, which makes them incompatible.
pub open spec fn compat_from(
    first: (Option<Seq<char>>, Option<u32>, Option<u32>),
    rest: Seq<Result<(Option<Seq<char>>, Option<u32>, Option<u32>), Seq<char>>>,
) -> Result<bool, Seq<char>>
    decreases rest.len(),
{
    if rest.len() == 0 {
        Ok(true)
    } else {
        match rest[0] {
            Err(e) => Err(e),
            Ok(f) => if f != first {
                Ok(false)
            } else {
                compat_from(first, rest.skip(1))
            },
        }
    }
}

pub open spec fn merge_compat(
    ps: Seq<Result<(Option<Seq<char>>, Option<u32>, Option<u32>), Seq<char>>>,
) -> Result<bool, Seq<char>> {
    if ps.len() < 2 {
        Ok(true)
    } else {
        match ps[0] {
            Err(e) => Err(e),
            Ok(first) => compat_from(first, ps.skip(1)),
        }
    }
}

/// A successful probe reporting a format other than `first`.
pub open spec fn probe_differs(
    p: Result<(Option<Seq<char>>, Option<u32>, Option<u32>), Seq<char>>,
    first: (Option<Seq<char>>, Option<u32>, Option<u32>),
) -> bool {
    match p {
        Ok(f) => f.0 != first.0 || f.1 != first.1 || f.2 != first.2,
        Err(_) => false,
    }
}

/// A successful probe reporting the codec, width and height of `first`.
pub open spec fn probe_matches(
    p: Result<(Option<Seq<char>>, Option<u32>, Option<u32>), Seq<char>>,
    first: (Option<Seq<char>>, Option<u32>, Option<u32>),
) -> bool {
    match p {
        Ok(f) => f.0 == first.0 && f.1 == first.1 && f.2 == first.2,
        Err(_) => false,
    }
}

proof fn lemma_compat_from(
    first: (Option<Seq<char>>, Option<u32>, Option<u32>),
    rest: Seq<Result<(Option<Seq<char>>, Option<u32>, Option<u32>), Seq<char>>>,
)
    ensures
        compat_from(first, rest) == Ok::<bool, Seq<char>>(true) ==> forall|k: int|
            0 <= k < rest.len() ==> probe_matches(#[trigger] rest[k], first),
        forall|j: int|
            0 <= j < rest.len() && (forall|i: int| 0 <= i < j ==> (#[trigger] rest[i]) is Ok)
                && probe_differs(#[trigger] rest[j], first) ==> compat_from(first, rest) == Ok::<
                bool,
                Seq<char>,
            >(false),
    decreases rest.len(),
{
    if rest.len() > 0 {
        lemma_compat_from(first, rest.skip(1));
        if compat_from(first, rest) == Ok::<bool, Seq<char>>(true) {
            assert forall|k: int| 0 <= k < rest.len() implies probe_matches(#[trigger] rest[k], first) by {
                if k > 0 {
                    assert(rest[k] == rest.skip(1)[k - 1]);
                }
            }
        }
        assert forall|j: int|
            0 <= j < rest.len() && (forall|i: int| 0 <= i < j ==> (#[trigger] rest[i]) is Ok)
                && probe_differs(#[trigger] rest[j], first) implies compat_from(first, rest) == Ok::<
            bool,
            Seq<char>,
        >(false) by {
            if j > 0 {
                assert(rest[0] is Ok);
                assert(rest.skip(1)[j - 1] == rest[j]);
                assert forall|i: int| 0 <= i < j - 1 implies (#[trigger] rest.skip(1)[i]) is Ok by {
                    assert(rest.skip(1)[i] == rest[i + 1]);
                }
            }
        }
    }
}

/// Stream copy is allowed only for inputs that all match: when two or more
/// inputs are probed and the verdict is `Ok(true)`, every probe succeeded
/// and reported the first input's codec, width and height. And an input
/// whose codec, width or height differs from the first one's, with every
/// probe before it successful, makes the verdict `Ok(false)`.
pub proof fn law_merge_needs_same_format(
    ps: Seq<Result<(Option<Seq<char>>, Option<u32>, Option<u32>), Seq<char>>>,
)
    requires
        ps.len() >= 2,
    ensures
        merge_compat(ps) == Ok::<bool, Seq<char>>(true) ==> (ps[0] is Ok && forall|k: int|
            0 <= k < ps.len() ==> probe_matches(#[trigger] ps[k], ps[0]->Ok_0)),
        forall|j: int|
            0 < j < ps.len() && (forall|i: int| 0 <= i < j ==> (#[trigger] ps[i]) is Ok) && probe_differs(
                #[trigger] ps[j],
                ps[0]->Ok_0,
            ) ==> merge_compat(ps) == Ok::<bool, Seq<char>>(false),
{
    match ps[0] {
        Err(e) => {},
        Ok(first) => {
            let rest = ps.skip(1);
            lemma_compat_from(first, rest);
            if merge_compat(ps) == Ok::<bool, Seq<char>>(true) {
                assert forall|k: int| 0 <= k < ps.len() implies probe_matches(#[trigger] ps[k], ps[0]->Ok_0) by {
                    if k > 0 {
                        assert(ps[k] == rest[k - 1]);
                    }
                }
            }
            assert forall|j: int|
                0 < j < ps.len() && (forall|i: int| 0 <= i < j ==> (#[trigger] ps[i]) is Ok) && probe_differs(
                    #[trigger] ps[j],
                    ps[0]->Ok_0,
                ) implies merge_compat(ps) == Ok::<bool, Seq<char>>(false) by {
                assert(rest[j - 1] == ps[j]);
                assert forall|i: int| 0 <= i < j - 1 implies (#[trigger] rest[i]) is Ok by {
                    assert(rest[i] == ps[i + 1]);
                }
            }
        },
    }
}

pub open spec fn probe_views(ps: Seq<Result<VideoFormat, String>>) -> Seq<
    Result<(Option<Seq<char>>, Option<u32>, Option<u32>), Seq<char>>,
> {
    ps.map_values(|p: Result<VideoFormat, String>| probe_view(p))
}

pub open spec fn result_view(r: Result<bool, String>) -> Result<bool, Seq<char>> {
    match r {
        Ok(b) => Ok(b),
        Err(e) => Err(e@),
    }
}

fn opt_string_eq(a: &Option<String>, b: &Option<String>) -> (r: bool)
    ensures
        r == (crate::manifest::opt_view(*a) == crate::manifest::opt_view(*b)),
{
    match (a, b) {
        (Some(x), Some(y)) => crate::text::str_eq(x.as_str(), y.as_str()),
        (None, None) => true,
        _ => false,
    }
}

fn same_format(a: &VideoFormat, b: &VideoFormat) -> (r: bool)
    ensures
        r == (format_view(*a) == format_view(*b)),
{
    opt_string_eq(&a.video_codec, &b.video_codec) && a.width == b.width && a.height == b.height
}

fn clone_err(e: &String) -> (r: Result<bool, String>)
    ensures
        result_view(r) == Err::<bool, Seq<char>>(e@),
{
    Err(e.clone())
}

/// Whether the inputs, probed in order into `probes`, can be merged by
/// stream copy: every input has the first one's codec and size.
pub fn check_merge_compatibility(probes: &Vec<Result<VideoFormat, String>>) -> (r: Result<
    bool,
    String,
>)
    ensures
        result_view(r) == merge_compat(probe_views(probes@)),
{
    let ghost ps = probe_views(probes@);
    if probes.len() < 2 {
        return Ok(true);
    }
    let first = match &probes[0] {
        Err(e) => {
            return clone_err(e);
        },
        Ok(f) => f,
    };
    let ghost fv = format_view(*first);
    assert(ps[0] == Ok::<(Option<Seq<char>>, Option<u32>, Option<u32>), Seq<char>>(fv));
    assert(ps.skip(1).skip(0) == ps.skip(1));
    let mut i: usize = 1;
    while i < probes.len()
        invariant
            1 <= i <= probes.len(),
            ps == probe_views(probes@),
            fv == format_view(*first),
            merge_compat(ps) == compat_from(fv, ps.skip(i as int)),
        decreases probes.len() - i,
    {
        assert(ps.skip(i as int)[0] == probe_view(probes@[i as int]));
        assert(ps.skip(i as int).skip(1) == ps.skip(i + 1));
        match &probes[i] {
            Err(e) => {
                return clone_err(e);
            },
            Ok(f) => {
                if !same_format(f, first) {
                    return Ok(false);
                }
            },
        }
        i = i + 1;
    }
    assert(ps.skip(probes.len() as int).len() == 0);
    Ok(true)
}

pub open spec fn merge_input_errors(ffmpeg_path: Seq<char>, n: nat) -> Option<Seq<char>> {
    if ffmpeg_path.len() == 0 {
        Some("FFmpeg not available"@)
    } else if n < 2 {
        Some("至少需要 2 个视频才能合并"@)
    } else {
        None
    }
}

/// A path inside single quotes for FFmpeg's concat list, where each `'`
/// becomes `'\''`.
pub open spec fn quote_escape(s: Seq<char>) -> Seq<char>
    decreases s.len(),
{
    if s.len() == 0 {
        Seq::empty()
    } else {
        quote_escape(s.drop_last()) + if s.last() == '\'' {
            "'\\''"@
        } else {
            seq![s.last()]
        }
    }
}

pub open spec fn concat_list(inputs: Seq<Seq<char>>) -> Seq<char>
    decreases inputs.len(),
{
    if inputs.len() == 0 {
        Seq::empty()
    } else {
        concat_list(inputs.drop_last()) + "file '"@ + quote_escape(inputs.last()) + "'\n"@
    }
}

/// The concat demuxer's list: one `file '<path>'` line per input.
pub fn concat_list_content(inputs: &Vec<String>) -> (r: String)
    ensures
        r@ == concat_list(strs(inputs@)),
{
    let mut buf: Vec<char> = Vec::new();
    let mut i: usize = 0;
    while i < inputs.len()
        invariant
            i <= inputs.len(),
            buf@ == concat_list(strs(inputs@).take(i as int)),
        decreases inputs.len() - i,
    {
        let ghost pre = strs(inputs@).take(i as int);
        let ghost nxt = strs(inputs@).take(i + 1);
        assert(nxt.drop_last() == pre);
        push_str(&mut buf, "file '");
        let cs = chars_of(inputs[i].as_str());
        let ghost before = buf@;
        let mut j: usize = 0;
        while j < cs.len()
            invariant
                j <= cs.len(),
                buf@ == before + quote_escape(cs@.take(j as int)),
            decreases cs.len() - j,
        {
            assert(cs@.take(j + 1).drop_last() == cs@.take(j as int));
            if cs[j] == '\'' {
                push_str(&mut buf, "'\\''");
            } else {
                buf.push(cs[j]);
            }
            j = j + 1;
        }
        assert(cs@.take(cs.len() as int) == cs@);
        push_str(&mut buf, "'\n");
        i = i + 1;
    }
    assert(strs(inputs@).take(inputs.len() as int) == strs(inputs@));
    string_of(&buf)
}

/// FFmpeg's arguments for a stream-copy merge through the list file.
pub open spec fn virtual_merge_args(list_path: Seq<char>, output: Seq<char>) -> Seq<Seq<char>> {
    seq![
        "-f"@,
        "concat"@,
        "-safe"@,
        "0"@,
        "-i"@,
        list_path,
        "-c"@,
        "copy"@,
        "-y"@,
        "-progress"@,
        "pipe:1"@,
        output,
    ]
}

/// Refuses a merge without FFmpeg or with fewer than two inputs.
pub fn check_merge_inputs(ffmpeg_path: &str, n_inputs: usize) -> (r: Result<(), String>)
    ensures
        match merge_input_errors(ffmpeg_path@, n_inputs as nat) {
            Some(m) => r matches Err(e) && e@ == m,
            None => r is Ok,
        },
{
    if ffmpeg_path.is_empty() {
        return Err("FFmpeg not available".to_owned());
    }
    if n_inputs < 2 {
        return Err("至少需要 2 个视频才能合并".to_owned());
    }
    Ok(())
}

pub fn virtual_merge_arg_list(list_path: &str, output: &str) -> (r: Vec<String>)
    ensures
        strs(r@) == virtual_merge_args(list_path@, output@),
{
    let mut a: Vec<String> = Vec::new();
    a.push("-f".to_owned());
    a.push("concat".to_owned());
    a.push("-safe".to_owned());
    a.push("0".to_owned());
    a.push("-i".to_owned());
    a.push(list_path.to_owned());
    a.push("-c".to_owned());
    a.push("copy".to_owned());
    a.push("-y".to_owned());
    a.push("-progress".to_owned());
    a.push("pipe:1".to_owned());
    a.push(output.to_owned());
    assert(strs(a@) == virtual_merge_args(list_path@, output@));
    a
}

/// The `filter_complex` joining the first video and audio stream of each
/// of `n` inputs.
pub open spec fn concat_filter(n: nat) -> Seq<char> {
    concat_filter_inputs(n) + "concat=n="@ + digits_of(n) + ":v=1:a=1[outv][outa]"@
}

pub open spec fn concat_filter_inputs(n: nat) -> Seq<char>
    decreases n,
{
    if n == 0 {
        Seq::empty()
    } else {
        let i = (n - 1) as nat;
        concat_filter_inputs(i) + "["@ + digits_of(i) + ":v:0]["@ + digits_of(i) + ":a:0]"@
    }
}

pub open spec fn input_args(inputs: Seq<Seq<char>>) -> Seq<Seq<char>>
    decreases inputs.len(),
{
    if inputs.len() == 0 {
        Seq::empty()
    } else {
        input_args(inputs.drop_last()) + seq!["-i"@, inputs.last()]
    }
}

/// FFmpeg's arguments for a re-encoding merge of `inputs` with the encoder
/// `video_codec` and its quality flags.
pub open spec fn physical_merge_args(
    inputs: Seq<Seq<char>>,
    output: Seq<char>,
    video_codec: Seq<char>,
    crf: Option<u32>,
) -> Seq<Seq<char>> {
    input_args(inputs) + seq![
        "-filter_complex"@,
        concat_filter(inputs.len()),
        "-map"@,
        "[outv]"@,
        "-map"@,
        "[outa]"@,
        "-c:v"@,
        video_codec,
    ] + quality_args(video_codec, crf) + seq!["-c:a"@, "aac"@, "-y"@, "-progress"@, "pipe:1"@, output]
}

fn concat_filter_string(n: usize) -> (r: String)
    ensures
        r@ == concat_filter(n as nat),
{
    let mut buf: Vec<char> = Vec::new();
    let mut i: usize = 0;
    while i < n
        invariant
            i <= n,
            buf@ == concat_filter_inputs(i as nat),
        decreases n - i,
    {
        push_str(&mut buf, "[");
        push_digits(&mut buf, i as u64);
        push_str(&mut buf, ":v:0][");
        push_digits(&mut buf, i as u64);
        push_str(&mut buf, ":a:0]");
        i = i + 1;
    }
    push_str(&mut buf, "concat=n=");
    push_digits(&mut buf, n as u64);
    push_str(&mut buf, ":v=1:a=1[outv][outa]");
    string_of(&buf)
}

pub fn physical_merge_arg_list(inputs: &Vec<String>, output: &str, video_codec: &str, crf: Option<
    u32,
>) -> (r: Vec<String>)
    ensures
        strs(r@) == physical_merge_args(strs(inputs@), output@, video_codec@, crf),
{
    let mut a: Vec<String> = Vec::new();
    let mut i: usize = 0;
    while i < inputs.len()
        invariant
            i <= inputs.len(),
            strs(a@) == input_args(strs(inputs@).take(i as int)),
        decreases inputs.len() - i,
    {
        assert(strs(inputs@).take(i + 1).drop_last() == strs(inputs@).take(i as int));
        a.push("-i".to_owned());
        a.push(inputs[i].clone());
        i = i + 1;
    }
    assert(strs(inputs@).take(inputs.len() as int) == strs(inputs@));
    let ghost head = strs(a@);
    a.push("-filter_complex".to_owned());
    a.push(concat_filter_string(inputs.len()));
    a.push("-map".to_owned());
    a.push("[outv]".to_owned());
    a.push("-map".to_owned());
    a.push("[outa]".to_owned());
    a.push("-c:v".to_owned());
    a.push(video_codec.to_owned());
    let ghost mid = strs(a@);
    assert(mid == head + seq![
        "-filter_complex"@,
        concat_filter(inputs.len() as nat),
        "-map"@,
        "[outv]"@,
        "-map"@,
        "[outa]"@,
        "-c:v"@,
        video_codec@,
    ]);
    apply_quality_args(video_codec, crf, &mut a);
    let ghost q = strs(a@);
    a.push("-c:a".to_owned());
    a.push("aac".to_owned());
    a.push("-y".to_owned());
    a.push("-progress".to_owned());
    a.push("pipe:1".to_owned());
    a.push(output.to_owned());
    assert(strs(a@) == q + seq!["-c:a"@, "aac"@, "-y"@, "-progress"@, "pipe:1"@, output@]);
    a
}

} // verus!
