//! A drawable description of the current session state: a pure projection
//! that a renderer can consume without reading the session itself.

use vstd::prelude::*;
use crate::session::{Outcome, Session};

verus! {

/// The size every target marker is drawn at.
pub const TARGET_SIZE: u32 = 20;

/// A backdrop, one per outcome.
#[derive(Clone, Copy, Debug, PartialEq, Eq, Structural)]
pub enum Backdrop {
    Field,
    Triumph,
    Ruin,
}

/// One text marker to draw: a position and a font size.
#[derive(Clone, Copy, Debug, PartialEq, Eq, Structural)]
pub struct Marker {
    pub x: i32,
    pub y: i32,
    pub size: u32,
}

/// What one frame shows: while the session runs, the pointer marker sized
/// by the growth radius and every target at its fixed size; once Won, a
/// single centred message sized by the final radius; once Lost, a lone
/// message at the pointer sized by the final radius.
#[derive(Debug)]
pub enum Scene {
    Playing { pointer: Marker, targets: Vec<Marker> },
    Won { message_size: u32 },
    Lost { marker: Marker },
}

/// Whether `sc` is exactly the frame that session `s` presents.
pub open spec fn scene_of(s: Session, sc: Scene) -> bool {
    match s.outcome {
        Outcome::Active => {
            &&& sc matches Scene::Playing { pointer, targets }
            &&& pointer == (Marker { x: s.pointer.x, y: s.pointer.y, size: s.growth })
            &&& targets@.len() == s.targets@.len()
            &&& forall|j: int|
                0 <= j < s.targets@.len() ==> #[trigger] targets@[j] == (Marker {
                    x: s.targets@[j].x,
                    y: s.targets@[j].y,
                    size: TARGET_SIZE,
                })
        },
        Outcome::Won => sc matches Scene::Won { message_size } && message_size == s.growth,
        Outcome::Lost => sc matches Scene::Lost { marker } && marker == (Marker {
            x: s.pointer.x,
            y: s.pointer.y,
            size: s.growth,
        }),
    }
}

/// Project the session onto the frame it presents.
pub fn render(s: &Session) -> (sc: Scene)
    ensures
        scene_of(*s, sc),
{
    match s.outcome {
        Outcome::Active => {
            let pointer = Marker { x: s.pointer.x, y: s.pointer.y, size: s.growth };
            let mut targets: Vec<Marker> = Vec::new();
            let mut i: usize = 0;
            let n: usize = s.targets.len();
            while i < n
                invariant
                    i <= n,
                    n == s.targets@.len(),
                    targets@.len() == i,
                    forall|j: int|
                        0 <= j < i ==> #[trigger] targets@[j] == (Marker {
                            x: s.targets@[j].x,
                            y: s.targets@[j].y,
                            size: TARGET_SIZE,
                        }),
                decreases n - i,
            {
                let t = s.targets[i];
                targets.push(Marker { x: t.x, y: t.y, size: TARGET_SIZE });
                i = i + 1;
            }
            Scene::Playing { pointer, targets }
        },
        Outcome::Won => Scene::Won { message_size: s.growth },
        Outcome::Lost => Scene::Lost {
            marker: Marker { x: s.pointer.x, y: s.pointer.y, size: s.growth },
        },
    }
}

/// The backdrop each outcome is drawn over.
pub fn backdrop(s: &Session) -> (b: Backdrop)
    ensures
        b == (match s.outcome {
            Outcome::Active => Backdrop::Field,
            Outcome::Won => Backdrop::Triumph,
            Outcome::Lost => Backdrop::Ruin,
        }),
{
    match s.outcome {
        Outcome::Active => Backdrop::Field,
        Outcome::Won => Backdrop::Triumph,
        Outcome::Lost => Backdrop::Ruin,
    }
}

} // verus!
