use vstd::prelude::*;
use crate::text::str_eq;

verus! {

/// The output resolutions on offer.
#[derive(Clone, Copy, Debug, PartialEq, Eq, Structural)]
pub enum OutputQuality {
    P720,
    P1080,
    P1440,
    P2160,
}

/// The side of the live preview square.
pub const PREVIEW_SIDE: u32 = 720;

/// The label shown for a quality, which is also how settings store it.
pub open spec fn quality_label(q: OutputQuality) -> Seq<char> {
    match q {
        OutputQuality::P720 => "720p"@,
        OutputQuality::P1080 => "1080p"@,
        OutputQuality::P1440 => "1440p"@,
        OutputQuality::P2160 => "4K"@,
    }
}

/// The quality that a stored label names; anything unknown is 1080p.
pub open spec fn quality_of_label(label: Seq<char>) -> OutputQuality {
    if label == "720p"@ {
        OutputQuality::P720
    } else if label == "1440p"@ {
        OutputQuality::P1440
    } else if label == "4K"@ || label == "2160p"@ {
        OutputQuality::P2160
    } else {
        OutputQuality::P1080
    }
}

/// The side of the recorded square: the short side of the landscape frame.
pub open spec fn quality_side(q: OutputQuality) -> u32 {
    match q {
        OutputQuality::P720 => 720,
        OutputQuality::P1080 => 1080,
        OutputQuality::P1440 => 1440,
        OutputQuality::P2160 => 2160,
    }
}

impl OutputQuality {
    /// Every quality, from lowest to highest.
    pub const ALL: [OutputQuality; 4] = [
        OutputQuality::P720,
        OutputQuality::P1080,
        OutputQuality::P1440,
        OutputQuality::P2160,
    ];

    pub fn label(self) -> (r: &'static str)
        ensures
            r@ == quality_label(self),
    {
        match self {
            OutputQuality::P720 => "720p",
            OutputQuality::P1080 => "1080p",
            OutputQuality::P1440 => "1440p",
            OutputQuality::P2160 => "4K",
        }
    }

    /// Square side for the 16:9 crops (short side of the landscape frame).
    pub fn square_side(self) -> (r: u32)
        ensures
            r == quality_side(self),
    {
        match self {
            OutputQuality::P720 => 720,
            OutputQuality::P1080 => 1080,
            OutputQuality::P1440 => 1440,
            OutputQuality::P2160 => 2160,
        }
    }

    /// The landscape camera frame to ask for: 16:9 with the square's side as its height.
    pub fn capture_size(self) -> (r: (u32, u32))
        ensures
            r.1 == quality_side(self),
            r.0 * 9 == r.1 * 16,
    {
        match self {
            OutputQuality::P720 => (1280, 720),
            OutputQuality::P1080 => (1920, 1080),
            OutputQuality::P1440 => (2560, 1440),
            OutputQuality::P2160 => (3840, 2160),
        }
    }

    pub fn from_label(label: &str) -> (r: OutputQuality)
        ensures
            r == quality_of_label(label@),
    {
        if str_eq(label, "720p") {
            OutputQuality::P720
        } else if str_eq(label, "1440p") {
            OutputQuality::P1440
        } else if str_eq(label, "4K") || str_eq(label, "2160p") {
            OutputQuality::P2160
        } else {
            OutputQuality::P1080
        }
    }
}

impl Default for OutputQuality {
    fn default() -> (r: OutputQuality)
        ensures
            r == OutputQuality::P1080,
    {
        OutputQuality::P1080
    }
}

/// A quality's label reads back as the same quality, so a saved setting survives a restart.
pub proof fn lemma_label_round_trip(q: OutputQuality)
    ensures
        quality_of_label(quality_label(q)) == q,
{
    reveal_strlit("720p");
    reveal_strlit("1080p");
    reveal_strlit("1440p");
    reveal_strlit("4K");
    reveal_strlit("2160p");
    assert("1080p"@.len() != "720p"@.len());
    assert("1080p"@[1] != "1440p"@[1]);
    assert("1080p"@.len() != "4K"@.len());
    assert("1080p"@[0] != "2160p"@[0]);
    assert("1440p"@.len() != "720p"@.len());
    assert("4K"@.len() != "720p"@.len());
    assert("4K"@.len() != "1440p"@.len());
}

} // verus!
