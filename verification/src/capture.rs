//! Screen capture decisions: when to capture and read the screen, the
//! script that asks the system's text recogniser to read a screenshot, and
//! what its answer yields.

use vstd::prelude::*;
use crate::config::Settings;
use crate::processing::{trim, trim_bounds};
use crate::text::{chars_of, string_from_range};
use crate::external::push_char;

verus! {

broadcast use vstd::string::group_string_axioms;

/// What the capture loop does in one round.
#[derive(Debug, Clone, Copy, PartialEq, Eq)]
pub enum CaptureRound {
    /// Screen capture is off, or capture is paused: wait five seconds.
    Pause,
    /// Capture the screen, read it when `ocr` is set, then wait
    /// `interval_seconds`.
    Capture { ocr: bool, interval_seconds: u64 },
}

/// One round of the capture loop, from the current settings and whether
/// capture is paused.
pub fn plan_capture_round(settings: &Settings, paused: bool) -> (r: CaptureRound)
    ensures
        r == if settings.screen_capture.enabled && !paused {
            CaptureRound::Capture {
                ocr: settings.screen_capture.ocr_enabled,
                interval_seconds: settings.screen_capture.interval_seconds,
            }
        } else {
            CaptureRound::Pause
        },
{
    if settings.screen_capture.enabled && !paused {
        CaptureRound::Capture {
            ocr: settings.screen_capture.ocr_enabled,
            interval_seconds: settings.screen_capture.interval_seconds,
        }
    } else {
        CaptureRound::Pause
    }
}

/// What one char of a path becomes inside a quoted script string: a
/// backslash and a double quote are preceded by a backslash.
pub open spec fn escaped_char(c: char) -> Seq<char> {
    if c == '\\' {
        seq!['\\', '\\']
    } else if c == '"' {
        seq!['\\', '"']
    } else {
        seq![c]
    }
}

/// The first `n` chars of `s`, escaped.
pub open spec fn escaped_upto(s: Seq<char>, n: nat) -> Seq<char>
    decreases n,
{
    if n == 0 {
        seq![]
    } else {
        escaped_upto(s, (n - 1) as nat) + escaped_char(s[n - 1])
    }
}

/// `s` with every backslash doubled and every double quote escaped.
pub open spec fn escaped(s: Seq<char>) -> Seq<char> {
    escaped_upto(s, s.len())
}

/// A path escaped for a quoted script string.
pub fn escape_for_script(path: &str) -> (r: String)
    ensures
        r@ == escaped(path@),
{
    let v = chars_of(path);
    let mut r = String::new();
    let mut i: usize = 0;
    while i < v.len()
        invariant
            i <= v.len(),
            r@ == escaped_upto(v@, i as nat),
        decreases v.len() - i,
    {
        let c = v[i];
        if c == '\\' {
            push_char(&mut r, '\\');
            push_char(&mut r, '\\');
        } else if c == '"' {
            push_char(&mut r, '\\');
            push_char(&mut r, '"');
        } else {
            push_char(&mut r, c);
        }
        assert(r@ =~= escaped_upto(v@, (i + 1) as nat));
        i += 1;
    }
    r
}

/// The text recognition script, up to the quoted image path.
pub open spec fn script_head() -> Seq<char> {
    "\n        use framework \"Vision\"\n        use framework \"AppKit\"\n        \n        set imagePath to \""@
}

/// The text recognition script, after the quoted image path.
pub open spec fn script_tail() -> Seq<char> {
    "\"\n        set imageURL to current application's |NSURL|'s fileURLWithPath:imagePath\n        set image to current application's NSImage's alloc()'s initWithContentsOfURL:imageURL\n        \n        if image is missing value then return \"\"\n        \n        set request to current application's VNRecognizeTextRequest's new()\n        request's setRecognitionLevel:current application's VNRequestTextRecognitionLevelAccurate\n        request's setRecognitionLanguages:@[\"en-US\"]\n        \n        set handler to current application's VNImageRequestHandler's alloc()'s initWithImage:image options:{}\n        handler's performRequests:@[request] error:(missing value)\n        \n        set observations to request's recognizedObservations()\n        set resultText to \"\"\n        \n        repeat with observation in observations\n            set recognitionCandidates to observation's topCandidates(1)\n            set firstCandidate to recognitionCandidates's firstObject()\n            set text to firstCandidate's |string|()\n            set resultText to resultText & text & \"\n        end repeat\n        \n        return resultText\n    "@
}

/// The script that asks the system's text recogniser to read the image at
/// `image_path`: the image path, escaped, inside the fixed script.
pub fn vision_ocr_script(image_path: &str) -> (r: String)
    ensures
        r@ == script_head() + escaped(image_path@) + script_tail(),
{
    let mut script = "\n        use framework \"Vision\"\n        use framework \"AppKit\"\n        \n        set imagePath to \"".to_owned();
    let escaped_path = escape_for_script(image_path);
    script.append(escaped_path.as_str());
    script.append("\"\n        set imageURL to current application's |NSURL|'s fileURLWithPath:imagePath\n        set image to current application's NSImage's alloc()'s initWithContentsOfURL:imageURL\n        \n        if image is missing value then return \"\"\n        \n        set request to current application's VNRecognizeTextRequest's new()\n        request's setRecognitionLevel:current application's VNRequestTextRecognitionLevelAccurate\n        request's setRecognitionLanguages:@[\"en-US\"]\n        \n        set handler to current application's VNImageRequestHandler's alloc()'s initWithImage:image options:{}\n        handler's performRequests:@[request] error:(missing value)\n        \n        set observations to request's recognizedObservations()\n        set resultText to \"\"\n        \n        repeat with observation in observations\n            set recognitionCandidates to observation's topCandidates(1)\n            set firstCandidate to recognitionCandidates's firstObject()\n            set text to firstCandidate's |string|()\n            set resultText to resultText & text & \"\n        end repeat\n        \n        return resultText\n    ");
    script
}

/// The text read from an image: the recogniser's answer, trimmed, or none
/// when that is empty.
pub fn ocr_text_from_output(output: &str) -> (r: Option<String>)
    ensures
        match r {
            Some(t) => t@ == trim(output@) && t@.len() > 0,
            None => trim(output@).len() == 0,
        },
{
    let v = chars_of(output);
    let (a, b) = trim_bounds(&v);
    if a == b {
        None
    } else {
        Some(string_from_range(&v, a, b))
    }
}

} // verus!
