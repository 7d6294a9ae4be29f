use vstd::prelude::*;
use crate::args::Args;
use crate::errors::GolError;

verus! {

/// `Params` provides the details of how to run the Game of Life and which image to load.
///
/// The values are fixed when a run starts and never change afterwards.
#[derive(Debug, Clone, Copy, PartialEq, Eq, Structural)]
pub struct Params {
    pub turns: usize,
    pub threads: usize,
    pub image_width: usize,
    pub image_height: usize,
}

impl Params {
    /// A configuration the engine accepts: at least one worker and a world of
    /// at least one cell in each dimension.
    pub open spec fn valid(self) -> bool {
        &&& self.threads >= 1
        &&& self.image_width >= 1
        &&& self.image_height >= 1
    }

    /// Reject a configuration with zero workers or zero dimensions before the
    /// run starts.
    pub fn validate(&self) -> (r: Result<(), GolError>)
        ensures
            r is Ok <==> self.valid(),
            r is Err ==> r->Err_0 == GolError::ConfigurationError,
    {
        if self.threads >= 1 && self.image_width >= 1 && self.image_height >= 1 {
            Ok(())
        } else {
            Err(GolError::ConfigurationError)
        }
    }
}

impl From<Args> for Params {
    fn from(args: Args) -> (r: Self) {
        Params {
            turns: args.turns,
            threads: args.threads,
            image_width: args.image_width,
            image_height: args.image_height,
        }
    }
}

impl vstd::std_specs::convert::FromSpecImpl<Args> for Params {
    open spec fn obeys_from_spec() -> bool {
        true
    }

    open spec fn from_spec(args: Args) -> Self {
        Params {
            turns: args.turns,
            threads: args.threads,
            image_width: args.image_width,
            image_height: args.image_height,
        }
    }
}

} // verus!
