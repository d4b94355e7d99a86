//! What the camera frames: the structure being edited, the piloted ship, or the player
//! on foot. The easing, zoom and rotation themselves are the renderer's business.
use vstd::prelude::*;

verus! {

/// What the camera follows this frame.
#[derive(PartialEq, Eq, Structural, Clone, Copy, Debug)]
pub enum CameraFocus {
    /// Build mode: frame the structure being edited, upright, pulled back.
    Structure(u64),
    /// Piloting: follow the player's ship, upright, pulled back.
    Ship,
    /// Walking the deck: follow the player, turned with them, zoomed in.
    Player,
}

/// Whether the framing is the pulled-back pilot view (building or piloting) rather than
/// the close walking view.
pub open spec fn pulled_back(f: CameraFocus) -> bool {
    !(f is Player)
}

/// Pick what the camera frames: an edited structure that still exists wins, then the
/// ship when the player is seated, else the player.
pub fn camera_focus(edited: Option<u64>, edited_exists: bool, seated: bool) -> (r: CameraFocus)
    ensures
        r == (match edited {
            Some(s) if edited_exists => CameraFocus::Structure(s),
            _ => if seated { CameraFocus::Ship } else { CameraFocus::Player },
        }),
{
    match edited {
        Some(s) if edited_exists => CameraFocus::Structure(s),
        _ => if seated {
            CameraFocus::Ship
        } else {
            CameraFocus::Player
        },
    }
}

/// Whether the framing is the pulled-back pilot view.
pub fn is_pulled_back(f: CameraFocus) -> (r: bool)
    ensures
        r == pulled_back(f),
{
    match f {
        CameraFocus::Player => false,
        _ => true,
    }
}

} // verus!
