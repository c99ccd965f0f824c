//! The area banner shown on a map transition: the order of its phases.
//! The phase timer itself counts seconds and is kept by the drawing side.

use vstd::prelude::*;

verus! {

/// Banner display phase.
#[derive(Clone, Copy, PartialEq, Eq, Structural, Debug)]
pub enum BannerPhase {
    Hidden,
    FadingIn,
    Holding,
    FadingOut,
}

/// How long the phase that starts lasts.
#[derive(Clone, Copy, PartialEq, Eq, Structural, Debug)]
pub enum PhaseLength {
    /// The fade-in time.
    FadeIn,
    /// The hold time.
    Hold,
    /// The fade-out time.
    FadeOut,
    /// No time: the banner is hidden.
    Zero,
}

/// The phase that follows when the timer of `p` runs out, and the length
/// of that phase; a hidden banner stays hidden and its timer is not run.
pub open spec fn after_expiry(p: BannerPhase) -> Option<(BannerPhase, PhaseLength)> {
    match p {
        BannerPhase::FadingIn => Some((BannerPhase::Holding, PhaseLength::Hold)),
        BannerPhase::Holding => Some((BannerPhase::FadingOut, PhaseLength::FadeOut)),
        BannerPhase::FadingOut => Some((BannerPhase::Hidden, PhaseLength::Zero)),
        BannerPhase::Hidden => None,
    }
}

/// The transition taken when the timer of the current phase runs out;
/// `None` for a hidden banner, whose timer does not run.
pub fn phase_after_expiry(p: BannerPhase) -> (r: Option<(BannerPhase, PhaseLength)>)
    ensures
        r == after_expiry(p),
{
    match p {
        BannerPhase::FadingIn => Some((BannerPhase::Holding, PhaseLength::Hold)),
        BannerPhase::Holding => Some((BannerPhase::FadingOut, PhaseLength::FadeOut)),
        BannerPhase::FadingOut => Some((BannerPhase::Hidden, PhaseLength::Zero)),
        BannerPhase::Hidden => None,
    }
}

/// Showing the banner (re)starts it fading in, whatever its phase.
pub fn phase_on_show() -> (r: (BannerPhase, PhaseLength))
    ensures
        r == (BannerPhase::FadingIn, PhaseLength::FadeIn),
{
    (BannerPhase::FadingIn, PhaseLength::FadeIn)
}

/// Whether the banner is drawn.
pub fn is_visible(p: BannerPhase) -> (b: bool)
    ensures
        b == (p != BannerPhase::Hidden),
{
    !matches!(p, BannerPhase::Hidden)
}

/// The phase after `n` expiries.
pub open spec fn phase_after(p: BannerPhase, n: nat) -> BannerPhase
    decreases n,
{
    if n == 0 {
        p
    } else {
        match after_expiry(p) {
            Some((q, _)) => phase_after(q, (n - 1) as nat),
            None => p,
        }
    }
}

/// A shown banner fades in, holds, fades out and hides, in that order: three
/// expiries after being shown it is hidden, and it stays hidden until shown
/// again; at no point before that is it hidden.
pub proof fn lemma_banner_cycle(n: nat)
    ensures
        phase_after(BannerPhase::FadingIn, 1) == BannerPhase::Holding,
        phase_after(BannerPhase::FadingIn, 2) == BannerPhase::FadingOut,
        phase_after(BannerPhase::FadingIn, 3) == BannerPhase::Hidden,
        phase_after(BannerPhase::Hidden, n) == BannerPhase::Hidden,
        n < 3 ==> phase_after(BannerPhase::FadingIn, n) != BannerPhase::Hidden,
    decreases n,
{
    reveal_with_fuel(phase_after, 4);
    if n > 0 {
        lemma_banner_cycle((n - 1) as nat);
    }
}

/// From any phase the banner is hidden after at most three expiries.
pub proof fn lemma_banner_ends(p: BannerPhase)
    ensures
        phase_after(p, 3) == BannerPhase::Hidden,
{
    reveal_with_fuel(phase_after, 4);
}

} // verus!
