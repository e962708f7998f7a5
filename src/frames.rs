use vstd::prelude::*;
use crate::animator::{lowest_offset, offset_at, offset_sequence};
use crate::raster::{band_color, build_bands, is_overlay, overlay, Raster};

verus! {

/// Settings of one clip. `directory` is where the frames are written.
#[derive(Clone, Debug)]
pub struct FrameGen {
    pub time: usize,
    pub directory: String,
    pub width: u32,
    pub height: u32,
    pub fps: u16,
    pub sweeper_height: u32,
}

/// Why a set of settings cannot produce a clip.
#[derive(Clone, Copy, Debug, PartialEq, Eq, Structural)]
pub enum ConfigError {
    /// The width leaves no room for eight bars of at least one pixel.
    WidthTooSmall,
    /// The sweeper is not shorter than the frame.
    SweeperTooTall,
    /// No frames per second.
    ZeroFrameRate,
    /// The frame count does not fit in a `usize`.
    TooManyFrames,
    /// A frame's pixel count does not fit in a `usize`.
    FrameTooLarge,
}

/// One frame to render: its 0-based index and the sweeper's row offset.
#[derive(Clone, Copy, Debug, PartialEq, Eq, Structural)]
pub struct Frame {
    pub index: usize,
    pub offset: u32,
}

/// The first problem found with `g`, checked in the order of the
/// `ConfigError` variants, or `None` when it is usable.
pub open spec fn config_error(g: FrameGen) -> Option<ConfigError> {
    if g.width < 8 {
        Some(ConfigError::WidthTooSmall)
    } else if g.sweeper_height >= g.height {
        Some(ConfigError::SweeperTooTall)
    } else if g.fps == 0 {
        Some(ConfigError::ZeroFrameRate)
    } else if g.time * g.fps > usize::MAX {
        Some(ConfigError::TooManyFrames)
    } else if g.width * g.height > usize::MAX {
        Some(ConfigError::FrameTooLarge)
    } else {
        None
    }
}

/// Number of frames in the clip: whole seconds times frames per second.
pub open spec fn frame_count(g: FrameGen) -> int {
    g.time * g.fps
}

impl FrameGen {
    /// The settings admit a clip.
    pub open spec fn valid(&self) -> bool {
        config_error(*self) is None
    }

    /// `Ok` exactly when the settings admit a clip; otherwise the first
    /// problem, in the order of the `ConfigError` variants.
    pub fn validate(&self) -> (r: Result<(), ConfigError>)
        ensures
            r matches Ok(_) <==> config_error(*self) is None,
            r matches Err(e) ==> config_error(*self) == Some(e),
    {
        if self.width < 8 {
            Err(ConfigError::WidthTooSmall)
        } else if self.sweeper_height >= self.height {
            Err(ConfigError::SweeperTooTall)
        } else if self.fps == 0 {
            Err(ConfigError::ZeroFrameRate)
        } else if self.time.checked_mul(self.fps as usize).is_none() {
            Err(ConfigError::TooManyFrames)
        } else if (self.width as usize).checked_mul(self.height as usize).is_none() {
            Err(ConfigError::FrameTooLarge)
        } else {
            Ok(())
        }
    }

    /// The full-frame pattern: eight bars, `width / 8` pixels each, white,
    /// yellow, light blue, green, purple, red, blue, black from the left,
    /// each the full height; columns past the eighth bar stay unfilled.
    pub fn create_base(&self) -> (r: Raster)
        requires
            self.valid(),
        ensures
            r.wf(),
            r.width == self.width,
            r.height == self.height,
            forall|x: int, y: int|
                0 <= x < self.width && 0 <= y < self.height ==> #[trigger] r.pixel(x, y)
                    == band_color(x, (self.width / 8) as int, false),
    {
        build_bands(self.width, self.height, false)
    }

    /// The sweeper: the same bars in reverse colour order, `sweeper_height`
    /// rows high.
    pub fn create_sweeper(&self) -> (r: Raster)
        requires
            self.valid(),
        ensures
            r.wf(),
            r.width == self.width,
            r.height == self.sweeper_height,
            forall|x: int, y: int|
                0 <= x < self.width && 0 <= y < self.sweeper_height ==> #[trigger] r.pixel(x, y)
                    == band_color(x, (self.width / 8) as int, true),
    {
        proof {
            assert(self.width * self.sweeper_height <= self.width * self.height) by (nonlinear_arith)
                requires
                    self.sweeper_height < self.height,
            ;
        }
        build_bands(self.width, self.sweeper_height, true)
    }

    /// One frame: a private copy of `base` with `sweeper` laid over it at row
    /// `position`, clipped at the bottom edge.
    pub fn draw_frame(&self, base: &Raster, sweeper: &Raster, position: u32) -> (r: Raster)
        requires
            base.wf(),
            sweeper.wf(),
        ensures
            is_overlay(r, *base, *sweeper, position as int),
    {
        overlay(base, sweeper, position)
    }

    /// The frames of the clip in order, each with the sweeper's offset from
    /// the bounce trajectory; or the first problem with the settings.
    pub fn frames(&self) -> (r: Result<Vec<Frame>, ConfigError>)
        ensures
            r matches Ok(_) <==> config_error(*self) is None,
            r matches Err(e) ==> config_error(*self) == Some(e),
            r matches Ok(v) ==> {
                &&& v@.len() == frame_count(*self)
                &&& forall|i: int|
                    0 <= i < v@.len() ==> #[trigger] v@[i] == (Frame {
                        index: i as usize,
                        offset: offset_at(self.height, self.sweeper_height, self.fps, i as nat),
                    })
                &&& forall|i: int|
                    0 <= i < v@.len() ==> #[trigger] v@[i].offset <= lowest_offset(
                        self.height,
                        self.sweeper_height,
                    )
            },
    {
        match self.validate() {
            Err(e) => Err(e),
            Ok(()) => {
                let count = self.time * self.fps as usize;
                let offsets = offset_sequence(self.height, self.sweeper_height, self.fps, count);
                let mut v: Vec<Frame> = Vec::with_capacity(count);
                let mut i: usize = 0;
                while i < count
                    invariant
                        i <= count,
                        offsets@.len() == count,
                        v@.len() == i,
                        forall|j: int|
                            0 <= j < count ==> #[trigger] offsets@[j] == offset_at(
                                self.height,
                                self.sweeper_height,
                                self.fps,
                                j as nat,
                            ),
                        forall|j: int|
                            0 <= j < count ==> #[trigger] offsets@[j] <= lowest_offset(
                                self.height,
                                self.sweeper_height,
                            ),
                        forall|j: int|
                            0 <= j < i ==> #[trigger] v@[j] == (Frame {
                                index: j as usize,
                                offset: offset_at(self.height, self.sweeper_height, self.fps, j as nat),
                            }),
                    decreases count - i,
                {
                    v.push(Frame { index: i, offset: offsets[i] });
                    i = i + 1;
                }
                assert forall|j: int| 0 <= j < v@.len() implies #[trigger] v@[j].offset
                    <= lowest_offset(self.height, self.sweeper_height) by {
                    assert(offsets@[j] <= lowest_offset(self.height, self.sweeper_height));
                }
                Ok(v)
            },
        }
    }
}

/// The indices whose outcome is a failure, in increasing order: the summary
/// of a run in which each frame reported success (`true`) or failure.
pub fn failed_frames(outcomes: &Vec<bool>) -> (r: Vec<usize>)
    ensures
        forall|k: int| 0 <= k < r@.len() ==> #[trigger] r@[k] < outcomes@.len() && !outcomes@[r@[k] as int],
        forall|k: int, l: int| 0 <= k < l < r@.len() ==> #[trigger] r@[k] < #[trigger] r@[l],
        forall|i: int| 0 <= i < outcomes@.len() && !#[trigger] outcomes@[i] ==> r@.contains(i as usize),
{
    let mut r: Vec<usize> = Vec::new();
    let mut i: usize = 0;
    while i < outcomes.len()
        invariant
            i <= outcomes@.len(),
            forall|k: int| 0 <= k < r@.len() ==> #[trigger] r@[k] < i && !outcomes@[r@[k] as int],
            forall|k: int, l: int| 0 <= k < l < r@.len() ==> #[trigger] r@[k] < #[trigger] r@[l],
            forall|j: int| 0 <= j < i && !#[trigger] outcomes@[j] ==> r@.contains(j as usize),
        decreases outcomes@.len() - i,
    {
        if !outcomes[i] {
            let ghost before = r@;
            r.push(i);
            assert(r@[r@.len() - 1] == i);
            assert forall|j: int| 0 <= j < i && !#[trigger] outcomes@[j] implies r@.contains(j as usize) by {
                let k = choose|k: int| 0 <= k < before.len() && before[k] == j as usize;
                assert(r@[k] == j as usize);
            }
        }
        i = i + 1;
    }
    r
}

} // verus!
