//! Sprite animations: the frames of each animation and the rule by which a
//! sprite steps through them.

use vstd::prelude::*;

verus! {

/// The animations of the game.
#[derive(Clone, Copy, Debug, Hash, PartialEq, Eq, Structural)]
pub enum Animation {
    TwinkleStar,
    DespawnStar,
    DespawnDoor,
}

/// How an animation plays: the frames of its sheet in order, the number of
/// frames per second, and whether it starts over after the last frame.
#[derive(Clone, Debug)]
pub struct AnimationSetting {
    pub indices: Vec<usize>,
    pub fps: u32,
    pub looped: bool,
}

/// What happens to an animated sprite when its timer runs out.
#[derive(Clone, Copy, Debug, PartialEq, Eq, Structural)]
pub enum FrameStep {
    /// The sprite shows this frame next.
    Show(usize),
    /// The animation is over and the sprite goes away.
    Despawn,
}

/// The place of `frame` among `indices`: the first position that holds it,
/// or position 0 when none does.
pub open spec fn frame_position(indices: Seq<usize>, frame: usize) -> int
    decreases indices.len(),
{
    if indices.len() == 0 {
        0
    } else if indices.drop_last().contains(frame) {
        frame_position(indices.drop_last(), frame)
    } else if indices.last() == frame {
        indices.len() - 1
    } else {
        0
    }
}

/// The step of a sprite that shows `frame`: after the last frame an
/// animation that does not loop ends, any other goes on with the frame
/// behind the current one, the first frame following the last.
pub open spec fn frame_step(indices: Seq<usize>, looped: bool, frame: usize) -> FrameStep {
    let at = frame_position(indices, frame);
    if at == indices.len() - 1 {
        if looped {
            FrameStep::Show(indices[0])
        } else {
            FrameStep::Despawn
        }
    } else {
        FrameStep::Show(indices[at + 1])
    }
}

/// `frame_position` is the least position that holds the frame, if any.
pub proof fn lemma_frame_position(indices: Seq<usize>, frame: usize)
    ensures
        indices.contains(frame) ==> 0 <= frame_position(indices, frame) < indices.len()
            && indices[frame_position(indices, frame)] == frame && forall|k: int|
            0 <= k < frame_position(indices, frame) ==> indices[k] != frame,
        !indices.contains(frame) ==> frame_position(indices, frame) == 0,
    decreases indices.len(),
{
    if indices.len() > 0 {
        let head = indices.drop_last();
        lemma_frame_position(head, frame);
        if head.contains(frame) {
            let at = frame_position(head, frame);
            assert(indices[at] == head[at]);
            assert forall|k: int| 0 <= k < at implies indices[k] != frame by {
                assert(indices[k] == head[k]);
            }
        } else if indices.last() == frame {
            assert forall|k: int| 0 <= k < indices.len() - 1 implies indices[k] != frame by {
                assert(head[k] == indices[k]);
            }
        } else {
            if indices.contains(frame) {
                let k = choose|k: int| 0 <= k < indices.len() && indices[k] == frame;
                assert(head[k] == frame);
            }
        }
    }
}

impl Animation {
    /// The frame that a sprite of the animation starts with.
    pub fn first_frame(self) -> (frame: usize)
        ensures
            frame == (match self {
                Animation::TwinkleStar => 0int,
                Animation::DespawnStar => 1int,
                Animation::DespawnDoor => 1int,
            }),
    {
        match self {
            Animation::TwinkleStar => 0,
            Animation::DespawnStar => 1,
            Animation::DespawnDoor => 1,
        }
    }

    /// The frame with which the star of the given entity index begins to
    /// twinkle, so that the stars of a level do not twinkle in step: the
    /// index modulo the four frames.
    pub fn twinkle_start(entity_index: u32) -> (frame: usize)
        ensures
            frame == entity_index % 4,
    {
        let frame = entity_index & 3;
        assert(entity_index & 3 == entity_index % 4) by (bit_vector);
        frame as usize
    }

    /// The side of one square tile of the animation's sheet, in pixels.
    pub fn tile_size(self) -> (side: u32)
        ensures
            side == (match self {
                Animation::TwinkleStar => 16int,
                Animation::DespawnStar => 32int,
                Animation::DespawnDoor => 32int,
            }),
    {
        match self {
            Animation::TwinkleStar => 16,
            Animation::DespawnStar => 32,
            Animation::DespawnDoor => 32,
        }
    }

    /// How the animation plays.
    pub fn setting(self) -> (s: AnimationSetting)
        ensures
            s.indices@ == (match self {
                Animation::TwinkleStar => seq![0usize, 1usize, 2usize, 3usize],
                Animation::DespawnStar => seq![1usize, 2usize],
                Animation::DespawnDoor => seq![1usize, 2usize],
            }),
            s.fps == (match self {
                Animation::TwinkleStar => 12int,
                Animation::DespawnStar => 18int,
                Animation::DespawnDoor => 18int,
            }),
            s.looped == (self is TwinkleStar),
    {
        let mut indices: Vec<usize> = Vec::new();
        match self {
            Animation::TwinkleStar => {
                indices.push(0);
                indices.push(1);
                indices.push(2);
                indices.push(3);
                assert(indices@ =~= seq![0usize, 1usize, 2usize, 3usize]);
                AnimationSetting { indices, fps: 12, looped: true }
            },
            Animation::DespawnStar => {
                indices.push(1);
                indices.push(2);
                assert(indices@ =~= seq![1usize, 2usize]);
                AnimationSetting { indices, fps: 18, looped: false }
            },
            Animation::DespawnDoor => {
                indices.push(1);
                indices.push(2);
                assert(indices@ =~= seq![1usize, 2usize]);
                AnimationSetting { indices, fps: 18, looped: false }
            },
        }
    }
}

impl AnimationSetting {
    /// The place of `frame` among the frames: the first position that holds
    /// it, or position 0 when it is not a frame of the animation.
    pub fn position(&self, frame: usize) -> (at: usize)
        ensures
            at == frame_position(self.indices@, frame),
    {
        let mut i: usize = 0;
        while i < self.indices.len()
            invariant
                i <= self.indices.len(),
                forall|k: int| 0 <= k < i ==> self.indices@[k] != frame,
            decreases self.indices.len() - i,
        {
            if self.indices[i] == frame {
                proof {
                    lemma_frame_position(self.indices@, frame);
                    assert(self.indices@[i as int] == frame);
                }
                return i;
            }
            i += 1;
        }
        proof {
            lemma_frame_position(self.indices@, frame);
        }
        0
    }

    /// What a sprite that shows `frame` does when its timer runs out.
    pub fn animate_sprite(&self, frame: usize) -> (step: FrameStep)
        requires
            self.indices.len() > 0,
        ensures
            step == frame_step(self.indices@, self.looped, frame),
    {
        proof {
            lemma_frame_position(self.indices@, frame);
        }
        let at = self.position(frame);
        let count = self.indices.len();
        if at == count - 1 {
            if self.looped {
                FrameStep::Show(self.indices[0])
            } else {
                FrameStep::Despawn
            }
        } else {
            FrameStep::Show(self.indices[at + 1])
        }
    }
}

} // verus!
