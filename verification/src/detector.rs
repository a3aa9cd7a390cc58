//! The sit/stand detector: its command lines and what its decisions do to the recording.
use vstd::prelude::*;
use crate::logic::Decision;
use crate::recorder::push_arg;
use crate::text::{str_equal, trim, trim_str, views};

verus! {

/// The ffmpeg arguments that feed the detector small grey frames (320x240, 3 per second)
/// on standard output, read from the screen (`gdigrab`) or from a stream.
pub open spec fn detector_ffmpeg_args(mode: Seq<char>, source: Seq<char>) -> Seq<Seq<char>> {
    let input = if mode == "screen"@ {
        seq!["-f"@, "gdigrab"@, "-framerate"@, "3"@, "-i"@, source]
    } else {
        seq!["-i"@, source]
    };
    seq!["-y"@] + input + seq!["-vf"@, "scale=320:240"@, "-r"@, "3"@, "-pix_fmt"@, "gray"@, "-f"@, "rawvideo"@, "-"@]
}

/// The detector's ffmpeg arguments.
pub fn detector_ffmpeg_command(mode: &str, source: &str) -> (res: Vec<String>)
    ensures
        views(res@) == detector_ffmpeg_args(mode@, source@),
{
    let mut args: Vec<String> = Vec::new();
    push_arg(&mut args, "-y");
    if str_equal(mode, "screen") {
        push_arg(&mut args, "-f");
        push_arg(&mut args, "gdigrab");
        push_arg(&mut args, "-framerate");
        push_arg(&mut args, "3");
        push_arg(&mut args, "-i");
        push_arg(&mut args, source);
    } else {
        push_arg(&mut args, "-i");
        push_arg(&mut args, source);
    }
    push_arg(&mut args, "-vf");
    push_arg(&mut args, "scale=320:240");
    push_arg(&mut args, "-r");
    push_arg(&mut args, "3");
    push_arg(&mut args, "-pix_fmt");
    push_arg(&mut args, "gray");
    push_arg(&mut args, "-f");
    push_arg(&mut args, "rawvideo");
    push_arg(&mut args, "-");
    assert(views(args@) =~= detector_ffmpeg_args(mode@, source@));
    args
}

/// The detector script's arguments: the script, the frame size and the sensitivity text.
pub fn detector_script_args(script: &str, sensitivity: &str) -> (res: Vec<String>)
    ensures
        views(res@) == seq![script@, "--width"@, "320"@, "--height"@, "240"@, "--sensitivity"@, sensitivity@],
{
    let mut args: Vec<String> = Vec::new();
    push_arg(&mut args, script);
    push_arg(&mut args, "--width");
    push_arg(&mut args, "320");
    push_arg(&mut args, "--height");
    push_arg(&mut args, "240");
    push_arg(&mut args, "--sensitivity");
    push_arg(&mut args, sensitivity);
    assert(views(args@) =~= seq![script@, "--width"@, "320"@, "--height"@, "240"@, "--sensitivity"@, sensitivity@]);
    args
}

/// The interpreter configured for the detector, when one is set and not empty.
pub fn configured_python(cfg_py: &Option<String>) -> (res: Option<String>)
    ensures
        match cfg_py {
            Some(p) => if p@.len() > 0 { res matches Some(r) && r@ == p@ } else { res is None },
            None => res is None,
        },
{
    match cfg_py {
        Some(p) => if !p.as_str().is_empty() { Some(p.clone()) } else { None },
        None => None,
    }
}

/// A detector output line worth parsing: the trimmed line, unless it is empty.
pub fn detection_line(line: &str) -> (res: Option<String>)
    ensures
        trim(line@).len() == 0 ==> res is None,
        trim(line@).len() > 0 ==> (res matches Some(t) && t@ == trim(line@)),
{
    let t = trim_str(line);
    if t.as_str().is_empty() { None } else { Some(t) }
}

/// What a detector decision does to the room's recording.
#[derive(PartialEq, Eq, Structural)]
pub enum DetectorAction {
    /// Start recording (without a second detector).
    BeginRecording,
    /// Stop and finish the recording, keeping the detector, and reset the sit/stand state.
    FinishRecording,
    /// Nothing.
    Nothing,
}

/// A `Start` starts a recording only for an armed detector and when none runs; a `Stop`
/// finishes a running recording; everything else does nothing.
pub open spec fn detector_response(decision: Decision, armed_start: bool, recording: bool) -> DetectorAction {
    if decision == Decision::Start && armed_start && !recording {
        DetectorAction::BeginRecording
    } else if decision == Decision::Stop && recording {
        DetectorAction::FinishRecording
    } else {
        DetectorAction::Nothing
    }
}

/// What a detector decision does to the room's recording (see `detector_response`).
pub fn detector_action(decision: Decision, armed_start: bool, recording: bool) -> (res: DetectorAction)
    ensures
        res == detector_response(decision, armed_start, recording),
{
    let should_start = decision == Decision::Start && armed_start;
    let should_stop = decision == Decision::Stop;
    if should_start && !recording {
        DetectorAction::BeginRecording
    } else if should_stop && recording {
        DetectorAction::FinishRecording
    } else {
        DetectorAction::Nothing
    }
}

/// A detector never starts a second recording or one it was not armed for, never finishes
/// a recording on anything but `Stop`, and does nothing on `Continue`.
pub proof fn law_detector_actions(decision: Decision, armed: bool, recording: bool)
    ensures
        detector_response(decision, armed, recording) == DetectorAction::BeginRecording ==> !recording && armed,
        detector_response(decision, armed, recording) == DetectorAction::FinishRecording ==> decision == Decision::Stop && recording,
        decision == Decision::Continue ==> detector_response(decision, armed, recording) == DetectorAction::Nothing,
{
}

} // verus!
