//! Alert sounds. The core decides *what* to play — which sound file, and
//! whether the caller must block until playback finishes — as a
//! [`SoundPlan`]; the audio layer around the library performs the plan.
use vstd::prelude::*;
use vstd::string::*;

verus! {

/// Ghost view of a playback request.
#[verifier::ext_equal]
pub struct SoundPlanV {
    pub path: Seq<char>,
    pub blocking: bool,
}

/// One playback request: the sound file's path, relative to the deployment
/// root, and whether playback should block the caller.
pub struct SoundPlan {
    pub path: String,
    pub blocking: bool,
}

impl View for SoundPlan {
    type V = SoundPlanV;

    open spec fn view(&self) -> SoundPlanV {
        SoundPlanV { path: self.path@, blocking: self.blocking }
    }
}

/// Where a sound file lives, relative to the deployment root.
pub open spec fn spec_sound_path(sound_name: Seq<char>) -> Seq<char> {
    "shared/assets/sounds/"@ + sound_name
}

/// The full relative path of a sound file.
pub fn get_sound_path(sound_name: &str) -> (r: String)
    ensures
        r@ == spec_sound_path(sound_name@),
{
    let mut r = String::from_str("shared/assets/sounds/");
    r.append(sound_name);
    r
}

/// The plan that plays a sound without blocking the poll loop.
pub fn play_sound(sound_name: &str) -> (r: SoundPlan)
    ensures
        r@.path == spec_sound_path(sound_name@),
        !r@.blocking,
{
    play_sound_with_options(sound_name, false)
}

/// The plan that plays a sound, blocking until it completes if asked to.
pub fn play_sound_with_options(sound_name: &str, blocking: bool) -> (r: SoundPlan)
    ensures
        r@.path == spec_sound_path(sound_name@),
        r@.blocking == blocking,
{
    SoundPlan { path: get_sound_path(sound_name), blocking }
}

/// The buy alert, played when a product is found, without blocking.
pub fn play_purchase_alert() -> (r: SoundPlan)
    ensures
        r@.path == spec_sound_path("alert_buy.mp3"@),
        !r@.blocking,
{
    play_sound("alert_buy.mp3")
}

/// The buy alert, blocking until playback completes.
pub fn play_purchase_alert_blocking() -> (r: SoundPlan)
    ensures
        r@.path == spec_sound_path("alert_buy.mp3"@),
        r@.blocking,
{
    play_sound_with_options("alert_buy.mp3", true)
}

/// The error alert, played when a cycle fails, without blocking.
pub fn play_error_alert() -> (r: SoundPlan)
    ensures
        r@.path == spec_sound_path("alert_down.mp3"@),
        !r@.blocking,
{
    play_sound("alert_down.mp3")
}

} // verus!
