//! The icons of the front end.
use vstd::prelude::*;

verus! {

#[derive(Clone, Copy, Debug, PartialEq, Eq, Structural)]
pub enum Icon {
    Trash,
    Play,
    Plus,
    Lock,
    Unlock,
    Check,
    ArrowLeft,
}

impl Icon {
    /// The file of the icon's image among the feather icons.
    pub fn data(&self) -> (r: &'static str)
        ensures
            r@ == match *self {
                Icon::Trash => "assets/feather/trash.svg"@,
                Icon::Play => "assets/feather/play.svg"@,
                Icon::Plus => "assets/feather/plus.svg"@,
                Icon::Lock => "assets/feather/lock.svg"@,
                Icon::Unlock => "assets/feather/unlock.svg"@,
                Icon::Check => "assets/feather/check.svg"@,
                Icon::ArrowLeft => "assets/feather/arrow-left.svg"@,
            },
    {
        match self {
            Icon::Trash => "assets/feather/trash.svg",
            Icon::Play => "assets/feather/play.svg",
            Icon::Plus => "assets/feather/plus.svg",
            Icon::Lock => "assets/feather/lock.svg",
            Icon::Unlock => "assets/feather/unlock.svg",
            Icon::Check => "assets/feather/check.svg",
            Icon::ArrowLeft => "assets/feather/arrow-left.svg",
        }
    }
}

} // verus!
