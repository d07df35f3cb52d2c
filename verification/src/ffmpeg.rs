use vstd::prelude::*;

verus! {

/// What to tell the user when ffmpeg cannot be found.
pub fn missing_message() -> (r: &'static str)
    ensures
        r@ == "ffmpeg not found. Install it with: brew install ffmpeg — or run scripts/package-macos.sh to bundle it."@,
{
    "ffmpeg not found. Install it with: brew install ffmpeg — or run scripts/package-macos.sh to bundle it."
}

} // verus!
