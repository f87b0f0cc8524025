//! Waiting until the media server shows what was made in it. The server is asked
//! a bounded number of times.
use crate::model::BackendError;
use vstd::prelude::*;

verus! {

/// How often the server is asked for what it has published.
pub const PUBLICATION_LOOKS: u32 = 2;

/// A wait: how often the server was asked.
#[derive(Clone, Copy, Debug, PartialEq, Eq, Structural)]
pub struct PublicationWait {
    pub looks: u32,
}

impl Default for PublicationWait {
    fn default() -> (r: PublicationWait)
        ensures
            r.looks == 0,
    {
        PublicationWait { looks: 0 }
    }
}

/// What comes after a look at the server.
#[derive(Debug, PartialEq, Eq)]
pub enum PublicationStep {
    /// Ask the server once more.
    LookAgain,
    /// The wait is over, with what it came to. That nothing has appeared is no
    /// failure of the wait.
    Settled(Result<(), BackendError>),
}

/// The next look ends the wait: what was made is there, or it was looked for
/// often enough.
pub open spec fn wait_settles(looks: u32, published: bool) -> bool {
    published || looks + 1 >= PUBLICATION_LOOKS
}

/// How many looks there were after the next.
pub open spec fn next_look(looks: u32) -> u32 {
    if looks < PUBLICATION_LOOKS {
        (looks + 1) as u32
    } else {
        looks
    }
}

/// The step is what comes after a look. A look that failed ends the wait.
pub open spec fn after_look(
    step: PublicationStep,
    looked: Result<(), BackendError>,
    looks: u32,
    published: bool,
) -> bool {
    match looked {
        Err(error) => step == PublicationStep::Settled(Err(error)),
        Ok(_) => if wait_settles(looks, published) {
            step == PublicationStep::Settled(Ok(()))
        } else {
            step is LookAgain
        },
    }
}

impl PublicationWait {
    /// The server was asked once more. `published` says whether what was made
    /// is there now.
    pub fn looked(&mut self, looked: Result<(), BackendError>, published: bool) -> (r:
        PublicationStep)
        ensures
            after_look(r, looked, old(self).looks, published),
            final(self).looks == next_look(old(self).looks),
    {
        if self.looks < PUBLICATION_LOOKS {
            self.looks = self.looks + 1;
        }
        match looked {
            Err(error) => PublicationStep::Settled(Err(error)),
            Ok(()) => if published || self.looks >= PUBLICATION_LOOKS {
                PublicationStep::Settled(Ok(()))
            } else {
                PublicationStep::LookAgain
            },
        }
    }
}

/// A wait ends with its second look at the latest, and with the first exactly
/// where that one finds what was made.
pub proof fn law_second_look_settles(published: bool)
    ensures
        wait_settles(0, published) == published,
        next_look(0) == 1,
        wait_settles(1, published),
{
}

/// Looking for what was made settles as soon as it is there, fails as soon as
/// looking fails, and is repeated else, but not for ever.
pub proof fn law_looking(step: PublicationStep, looks: u32, published: bool, error: BackendError)
    ensures
        after_look(step, Ok(()), looks, true) ==> step == PublicationStep::Settled(Ok(())),
        after_look(step, Err(error), looks, published) ==> step == PublicationStep::Settled(
            Err(error),
        ),
        after_look(step, Ok(()), looks, false) && looks + 1 < PUBLICATION_LOOKS
            ==> step is LookAgain,
        after_look(step, Ok(()), looks, false) && looks + 1 >= PUBLICATION_LOOKS ==> step
            == PublicationStep::Settled(Ok(())),
        looks < PUBLICATION_LOOKS ==> next_look(looks) == looks + 1,
{
}

} // verus!
