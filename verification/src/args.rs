use vstd::prelude::*;

verus! {

/// What to do when the program panics: exit the process, or carry on.
#[derive(Debug, Clone, Copy, PartialEq, Eq, Structural)]
pub enum PanicBehaviour {
    Exit,
    Ignore,
}

impl Default for PanicBehaviour {
    fn default() -> (r: Self)
        ensures
            r == PanicBehaviour::Exit,
    {
        PanicBehaviour::Exit
    }
}

/// The command-line configuration of a run, already parsed into plain values.
#[derive(Debug, Clone, Copy)]
pub struct Args {
    /// Number of worker threads that recompute the world each turn.
    pub threads: usize,
    /// Width of the world, in cells.
    pub image_width: usize,
    /// Height of the world, in cells.
    pub image_height: usize,
    /// Refresh rate of the on-screen window.
    pub fps: usize,
    /// Number of turns to process before the run ends.
    pub turns: usize,
    /// Run without a window.
    pub headless: bool,
    /// Print a backtrace when the program panics.
    pub backtrace: bool,
    /// What to do when the program panics.
    pub panic_behaviour: PanicBehaviour,
}

impl Default for Args {
    /// The default run: 8 workers on a 512 by 512 world at 60 frames per
    /// second, for ten million turns, with a window.
    fn default() -> (r: Self)
        ensures
            r.threads == 8,
            r.image_width == 512,
            r.image_height == 512,
            r.fps == 60,
            r.turns == 10000000,
            !r.headless,
            !r.backtrace,
            r.panic_behaviour == PanicBehaviour::Exit,
    {
        Args {
            threads: 8,
            image_width: 512,
            image_height: 512,
            fps: 60,
            turns: 10000000,
            headless: false,
            backtrace: false,
            panic_behaviour: PanicBehaviour::Exit,
        }
    }
}

} // verus!
