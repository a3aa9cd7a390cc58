//! ffmpeg command lines for transcoding and concatenating, and ffmpeg failure messages.
use vstd::prelude::*;
use crate::recorder::push_arg;
use crate::text::{concat, decimal, decimal_u64, from_utf8_lossy, push_char, str_equal, utf8_lossy, views};

verus! {

/// The codec arguments for a target format: VP9/Opus for `webm`; otherwise H.264 baseline,
/// yuv420p, AAC 128k, plus `+faststart` for `mp4`, `mkv` and `mov`.
pub open spec fn codec_args(format: Seq<char>) -> Seq<Seq<char>> {
    if format == "webm"@ {
        seq!["-c:v"@, "libvpx-vp9"@, "-c:a"@, "libopus"@, "-b:v"@, "0"@]
    } else {
        seq!["-c:v"@, "libx264"@, "-profile:v"@, "baseline"@, "-level"@, "3.0"@, "-pix_fmt"@, "yuv420p"@,
            "-preset"@, "ultrafast"@, "-c:a"@, "aac"@, "-b:a"@, "128k"@]
            + if format == "mp4"@ || format == "mkv"@ || format == "mov"@ { seq!["-movflags"@, "+faststart"@] } else { Seq::empty() }
    }
}

/// The ffmpeg arguments that transcode `input` into `output` in `format`.
pub fn transcode(input: &str, output: &str, format: &str) -> (res: Vec<String>)
    ensures
        views(res@) == seq!["-y"@, "-i"@, input@] + codec_args(format@) + seq![output@],
{
    let mut args: Vec<String> = Vec::new();
    push_arg(&mut args, "-y");
    push_arg(&mut args, "-i");
    push_arg(&mut args, input);
    if str_equal(format, "webm") {
        push_arg(&mut args, "-c:v");
        push_arg(&mut args, "libvpx-vp9");
        push_arg(&mut args, "-c:a");
        push_arg(&mut args, "libopus");
        push_arg(&mut args, "-b:v");
        push_arg(&mut args, "0");
    } else {
        push_arg(&mut args, "-c:v");
        push_arg(&mut args, "libx264");
        push_arg(&mut args, "-profile:v");
        push_arg(&mut args, "baseline");
        push_arg(&mut args, "-level");
        push_arg(&mut args, "3.0");
        push_arg(&mut args, "-pix_fmt");
        push_arg(&mut args, "yuv420p");
        push_arg(&mut args, "-preset");
        push_arg(&mut args, "ultrafast");
        push_arg(&mut args, "-c:a");
        push_arg(&mut args, "aac");
        push_arg(&mut args, "-b:a");
        push_arg(&mut args, "128k");
        if str_equal(format, "mp4") || str_equal(format, "mkv") || str_equal(format, "mov") {
            push_arg(&mut args, "-movflags");
            push_arg(&mut args, "+faststart");
        }
    }
    push_arg(&mut args, output);
    assert(views(args@) =~= seq!["-y"@, "-i"@, input@] + codec_args(format@) + seq![output@]);
    args
}

/// What a transcode runs, whatever the input, output and format: it overwrites (`-y`),
/// reads the input, and writes the output last. Any format but `webm` is encoded as H.264
/// baseline level 3.0, yuv420p, ultrafast, with AAC audio at 128k, and mp4, mkv and mov get
/// `+faststart`; `webm` is encoded as VP9 with Opus.
pub proof fn law_transcode_codecs(input: Seq<char>, output: Seq<char>, format: Seq<char>)
    ensures ({
        let a = seq!["-y"@, "-i"@, input] + codec_args(format) + seq![output];
        &&& a[0] == "-y"@ && a[1] == "-i"@ && a[2] == input
        &&& a.last() == output
        &&& format != "webm"@ ==> a[3] == "-c:v"@ && a[4] == "libx264"@ && a[5] == "-profile:v"@
            && a[6] == "baseline"@ && a[7] == "-level"@ && a[8] == "3.0"@ && a[9] == "-pix_fmt"@
            && a[10] == "yuv420p"@ && a[11] == "-preset"@ && a[12] == "ultrafast"@ && a[13] == "-c:a"@
            && a[14] == "aac"@ && a[15] == "-b:a"@ && a[16] == "128k"@
        &&& (format == "mp4"@ || format == "mkv"@ || format == "mov"@) ==> a.len() == 20
            && a[17] == "-movflags"@ && a[18] == "+faststart"@
        &&& (format != "webm"@ && format != "mp4"@ && format != "mkv"@ && format != "mov"@) ==> a.len() == 18
        &&& format == "webm"@ ==> a.len() == 10 && a[3] == "-c:v"@ && a[4] == "libvpx-vp9"@
            && a[5] == "-c:a"@ && a[6] == "libopus"@ && a[7] == "-b:v"@ && a[8] == "0"@
    }),
{
    let a = seq!["-y"@, "-i"@, input] + codec_args(format) + seq![output];
    reveal_strlit("webm");
    reveal_strlit("mp4");
    reveal_strlit("mkv");
    reveal_strlit("mov");
    if format == "webm"@ {
        assert(a =~= seq!["-y"@, "-i"@, input, "-c:v"@, "libvpx-vp9"@, "-c:a"@, "libopus"@, "-b:v"@, "0"@, output]);
        assert("webm"@ != "mp4"@) by { assert("webm"@.len() != "mp4"@.len()); }
        assert("webm"@ != "mkv"@) by { assert("webm"@.len() != "mkv"@.len()); }
        assert("webm"@ != "mov"@) by { assert("webm"@.len() != "mov"@.len()); }
    } else if format == "mp4"@ || format == "mkv"@ || format == "mov"@ {
        assert(a =~= seq!["-y"@, "-i"@, input, "-c:v"@, "libx264"@, "-profile:v"@, "baseline"@, "-level"@, "3.0"@,
            "-pix_fmt"@, "yuv420p"@, "-preset"@, "ultrafast"@, "-c:a"@, "aac"@, "-b:a"@, "128k"@, "-movflags"@,
            "+faststart"@, output]);
        assert(codec_args(format).len() == 16);
        assert(a.len() == 20);
    } else {
        assert(a =~= seq!["-y"@, "-i"@, input, "-c:v"@, "libx264"@, "-profile:v"@, "baseline"@, "-level"@, "3.0"@,
            "-pix_fmt"@, "yuv420p"@, "-preset"@, "ultrafast"@, "-c:a"@, "aac"@, "-b:a"@, "128k"@, output]);
    }
}

/// A path as written in a concat list: backslashes turned into slashes.
pub open spec fn slashed(p: Seq<char>) -> Seq<char> {
    p.map_values(|c: char| if c == '\\' { '/' } else { c })
}

/// The concat list for `paths`: one line `file '<path>'` per segment.
pub open spec fn concat_list(paths: Seq<Seq<char>>) -> Seq<char>
    decreases paths.len(),
{
    if paths.len() == 0 {
        Seq::empty()
    } else {
        concat_list(paths.drop_last()) + "file '"@ + slashed(paths.last()) + "'\n"@
    }
}

/// A concatenation to run: the list file's text and ffmpeg's arguments.
pub struct MergeJob {
    pub list_text: String,
    pub args: Vec<String>,
}

/// The ffmpeg arguments that concatenate the segments listed in `list_path` into `output`.
pub open spec fn concat_args(list_path: Seq<char>, output: Seq<char>) -> Seq<Seq<char>> {
    seq!["-y"@, "-f"@, "concat"@, "-safe"@, "0"@, "-i"@, list_path, "-c"@, "copy"@, "-movflags"@, "+faststart"@, output]
}

fn slash_path(p: &str) -> (res: String)
    ensures
        res@ == slashed(p@),
{
    let v = crate::text::chars_of(p);
    let mut out = String::new();
    let mut i: usize = 0;
    while i < v.len()
        invariant
            i <= v@.len(),
            v@ == p@,
            out@ == slashed(v@.take(i as int)),
        decreases v.len() - i,
    {
        let c = if v[i] == '\\' { '/' } else { v[i] };
        push_char(&mut out, c);
        assert(slashed(v@.take(i + 1)) =~= slashed(v@.take(i as int)).push(c));
        i += 1;
    }
    assert(v@.take(v@.len() as int) =~= v@);
    out
}

/// The concatenation of `segments` (already made absolute) into `output` through a list
/// file at `list_path`; no segment is an error.
pub fn merge_segments(segments: &Vec<String>, list_path: &str, output: &str) -> (res: Result<MergeJob, String>)
    ensures
        segments@.len() == 0 ==> (res matches Err(e) && e@ == "没有可合并的分片"@),
        segments@.len() > 0 ==> (res matches Ok(job) && job.list_text@ == concat_list(views(segments@))
            && views(job.args@) == concat_args(list_path@, output@)),
{
    if segments.len() == 0 {
        return Err("没有可合并的分片".to_owned());
    }
    let mut list = String::new();
    let mut i: usize = 0;
    assert(views(segments@).take(0) =~= Seq::<Seq<char>>::empty());
    while i < segments.len()
        invariant
            i <= segments@.len(),
            list@ == concat_list(views(segments@).take(i as int)),
        decreases segments.len() - i,
    {
        assert(views(segments@).take(i + 1).drop_last() =~= views(segments@).take(i as int));
        assert(views(segments@).take(i + 1).last() == segments@[i as int]@);
        let line = concat("file '", slash_path(segments[i].as_str()).as_str());
        let line = concat(line.as_str(), "'\n");
        list = concat(list.as_str(), line.as_str());
        i += 1;
    }
    assert(views(segments@).take(segments@.len() as int) =~= views(segments@));
    let mut args: Vec<String> = Vec::new();
    push_arg(&mut args, "-y");
    push_arg(&mut args, "-f");
    push_arg(&mut args, "concat");
    push_arg(&mut args, "-safe");
    push_arg(&mut args, "0");
    push_arg(&mut args, "-i");
    push_arg(&mut args, list_path);
    push_arg(&mut args, "-c");
    push_arg(&mut args, "copy");
    push_arg(&mut args, "-movflags");
    push_arg(&mut args, "+faststart");
    push_arg(&mut args, output);
    assert(views(args@) =~= concat_args(list_path@, output@));
    Ok(MergeJob { list_text: list, args })
}

/// The concatenation of existing videos into one file (the same job as for segments).
pub fn merge_videos(inputs: &Vec<String>, list_path: &str, output: &str) -> (res: Result<MergeJob, String>)
    ensures
        inputs@.len() == 0 ==> (res matches Err(e) && e@ == "没有可合并的分片"@),
        inputs@.len() > 0 ==> (res matches Ok(job) && job.list_text@ == concat_list(views(inputs@))
            && views(job.args@) == concat_args(list_path@, output@)),
{
    merge_segments(inputs, list_path, output)
}

/// What `encoding_rs::GBK.decode` returns for `bytes` (malformed sequences replaced by U+FFFD).
pub uninterp spec fn gbk_decoded(bytes: Seq<u8>) -> Seq<char>;

/// `encoding_rs::GBK.decode`, the decoded text.
#[verifier::external_body]
fn gbk_decode(bytes: &Vec<u8>) -> (res: String)
    ensures
        res@ == gbk_decoded(bytes@),
{
    encoding_rs::GBK.decode(bytes.as_slice()).0.into_owned()
}

/// What `format!("{:?}", list)` writes for a list of strings.
pub uninterp spec fn debug_list(items: Seq<Seq<char>>) -> Seq<char>;

/// `Debug` formatting of a list of strings.
#[verifier::external_body]
fn debug_strings(items: &Vec<String>) -> (res: String)
    ensures
        res@ == debug_list(views(items@)),
{
    format!("{:?}", items)
}

/// ffmpeg's stderr as text: decoded as GBK, or as lossy UTF-8 when GBK decoding needed a
/// replacement character.
pub open spec fn stderr_text(bytes: Seq<u8>) -> Seq<char> {
    if gbk_decoded(bytes).contains('\u{FFFD}') { utf8_lossy(bytes) } else { gbk_decoded(bytes) }
}

/// The first `n` characters of `s` (all of it when shorter).
pub open spec fn first_chars(s: Seq<char>, n: nat) -> Seq<char> {
    if s.len() <= n { s } else { s.take(n as int) }
}

/// The last `n` characters of `s` (all of it when shorter).
pub open spec fn last_chars(s: Seq<char>, n: nat) -> Seq<char> {
    if s.len() <= n { s } else { s.skip(s.len() - n) }
}

/// The error for a failed ffmpeg run: its arguments and the last 1500 characters of its stderr.
pub fn ffmpeg_failure_message(args: &Vec<String>, stderr: &Vec<u8>) -> (res: String)
    ensures
        res@ == "ffmpeg 执行失败。参数: "@ + debug_list(views(args@)) + "\n\nffmpeg stderr 尾部:\n"@
            + last_chars(stderr_text(stderr@), 1500),
{
    let gbk = gbk_decode(stderr);
    let gv = crate::text::chars_of(gbk.as_str());
    let text = if crate::text::find_char(&gv, '\u{FFFD}').is_some() {
        from_utf8_lossy(stderr)
    } else {
        assert(!gbk@.contains('\u{FFFD}'));
        gbk
    };
    let tv = crate::text::chars_of(text.as_str());
    let start = if tv.len() <= 1500 { 0 } else { tv.len() - 1500 };
    let tail = crate::text::string_from_range(&tv, start, tv.len());
    assert(tail@ =~= last_chars(stderr_text(stderr@), 1500));
    let m = concat("ffmpeg 执行失败。参数: ", debug_strings(args).as_str());
    let m = concat(m.as_str(), "\n\nffmpeg stderr 尾部:\n");
    concat(m.as_str(), tail.as_str())
}


/// The trim filters of the export: for segment `i` with bounds `(s, e)`, a video trim
/// labelled `v<i>` and an audio trim labelled `a<i>`.
pub open spec fn trim_filters(bounds: Seq<(Seq<char>, Seq<char>)>) -> Seq<char>
    decreases bounds.len(),
{
    if bounds.len() == 0 {
        Seq::empty()
    } else {
        let i = (bounds.len() - 1) as nat;
        let (st, en) = bounds.last();
        trim_filters(bounds.drop_last()) + "[0:v]trim=start="@ + st + ":end="@ + en + ",setpts=PTS-STARTPTS[v"@
            + decimal(i) + "];"@ + "[0:a]atrim=start="@ + st + ":end="@ + en + ",asetpts=PTS-STARTPTS[a"@
            + decimal(i) + "];"@
    }
}

/// `[t0][t1]…[t<n-1>]` for the label letter `t`.
pub open spec fn labels(t: char, n: nat) -> Seq<char>
    decreases n,
{
    if n == 0 { Seq::empty() } else { labels(t, (n - 1) as nat) + seq!['[', t] + decimal((n - 1) as nat) + seq![']'] }
}

/// The export's filter graph: the trims, then the concatenation of the video parts into
/// `[v]` and of the audio parts into `[a]`.
pub open spec fn export_filter(bounds: Seq<(Seq<char>, Seq<char>)>) -> Seq<char> {
    let n = bounds.len();
    trim_filters(bounds) + labels('v', n) + "concat=n="@ + decimal(n) + ":v=1:a=0[v];"@ + labels('a', n)
        + "concat=n="@ + decimal(n) + ":v=0:a=1[a]"@
}

pub open spec fn bounds_view(b: Seq<(String, String)>) -> Seq<(Seq<char>, Seq<char>)> {
    b.map_values(|x: (String, String)| (x.0@, x.1@))
}

fn label_text(t: char, i: usize) -> (res: String)
    ensures
        res@ == seq!['[', t] + decimal(i as nat) + seq![']'],
{
    let mut s = String::new();
    push_char(&mut s, '[');
    push_char(&mut s, t);
    let d = decimal_u64(i as u64);
    s.append(d.as_str());
    push_char(&mut s, ']');
    assert(s@ =~= seq!['[', t] + decimal(i as nat) + seq![']']);
    s
}

/// The ffmpeg arguments that cut the pieces `bounds` (start and end, as written for ffmpeg)
/// out of `input` and join them, in order, into `output`; no piece is an error.
pub fn export_segments(input: &str, bounds: &Vec<(String, String)>, output: &str) -> (res: Result<Vec<String>, String>)
    ensures
        bounds@.len() == 0 ==> (res matches Err(e) && e@ == "没有选取片段"@),
        bounds@.len() > 0 ==> (res matches Ok(args) && views(args@) == seq!["-y"@, "-i"@, input@, "-filter_complex"@,
            export_filter(bounds_view(bounds@)), "-map"@, "[v]"@, "-map"@, "[a]"@, output@]),
{
    if bounds.len() == 0 {
        return Err("没有选取片段".to_owned());
    }
    let ghost bv = bounds_view(bounds@);
    let mut filter = String::new();
    let mut vl = String::new();
    let mut al = String::new();
    let mut i: usize = 0;
    assert(bv.take(0) =~= Seq::<(Seq<char>, Seq<char>)>::empty());
    while i < bounds.len()
        invariant
            i <= bounds@.len(),
            bv == bounds_view(bounds@),
            filter@ == trim_filters(bv.take(i as int)),
            vl@ == labels('v', i as nat),
            al@ == labels('a', i as nat),
        decreases bounds.len() - i,
    {
        assert(bv.take(i + 1).drop_last() =~= bv.take(i as int));
        assert(bv.take(i + 1).last() == (bounds@[i as int].0@, bounds@[i as int].1@));
        let (st, en) = (&bounds[i].0, &bounds[i].1);
        let d = decimal_u64(i as u64);
        let f = concat("[0:v]trim=start=", st.as_str());
        let f = concat(f.as_str(), ":end=");
        let f = concat(f.as_str(), en.as_str());
        let f = concat(f.as_str(), ",setpts=PTS-STARTPTS[v");
        let f = concat(f.as_str(), d.as_str());
        let f = concat(f.as_str(), "];");
        let f = concat(f.as_str(), "[0:a]atrim=start=");
        let f = concat(f.as_str(), st.as_str());
        let f = concat(f.as_str(), ":end=");
        let f = concat(f.as_str(), en.as_str());
        let f = concat(f.as_str(), ",asetpts=PTS-STARTPTS[a");
        let f = concat(f.as_str(), d.as_str());
        let f = concat(f.as_str(), "];");
        filter = concat(filter.as_str(), f.as_str());
        vl = concat(vl.as_str(), label_text('v', i).as_str());
        al = concat(al.as_str(), label_text('a', i).as_str());
        i += 1;
    }
    assert(bv.take(bounds@.len() as int) =~= bv);
    let n = decimal_u64(bounds.len() as u64);
    let g = concat(filter.as_str(), vl.as_str());
    let g = concat(g.as_str(), "concat=n=");
    let g = concat(g.as_str(), n.as_str());
    let g = concat(g.as_str(), ":v=1:a=0[v];");
    let g = concat(g.as_str(), al.as_str());
    let g = concat(g.as_str(), "concat=n=");
    let g = concat(g.as_str(), n.as_str());
    let g = concat(g.as_str(), ":v=0:a=1[a]");
    let mut args: Vec<String> = Vec::new();
    push_arg(&mut args, "-y");
    push_arg(&mut args, "-i");
    push_arg(&mut args, input);
    push_arg(&mut args, "-filter_complex");
    push_arg(&mut args, g.as_str());
    push_arg(&mut args, "-map");
    push_arg(&mut args, "[v]");
    push_arg(&mut args, "-map");
    push_arg(&mut args, "[a]");
    push_arg(&mut args, output);
    assert(views(args@) =~= seq!["-y"@, "-i"@, input@, "-filter_complex"@,
            export_filter(bounds_view(bounds@)), "-map"@, "[v]"@, "-map"@, "[a]"@, output@]);
    Ok(args)
}

} // verus!
