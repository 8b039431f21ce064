//! Choosing the driver of a runtime.

use crate::error::IoError;
use vstd::prelude::*;

verus! {

/// A kind of I/O driver.
#[derive(Clone, Copy, Debug, PartialEq, Eq, Structural)]
pub enum DriverKind {
    /// The readiness driver.
    Mio,
    /// The driver that does no I/O.
    Mock,
    /// The completion ring driver.
    IoUring,
}

/// What building a runtime does next.
#[derive(Clone, Copy, Debug, PartialEq, Eq, Structural)]
pub enum BuildStep {
    /// Try to make a driver of this kind.
    Try(DriverKind),
    /// The runtime runs on the driver of this kind, which was made.
    Run(DriverKind),
    /// No driver could be made.
    Fail(IoError),
}

/// What is known of a runtime that is to be built.
#[derive(Clone, Copy, Debug, PartialEq, Eq, Structural)]
pub struct RuntimeBuilder {
    /// The kind of driver, if one was chosen.
    pub driver_kind: Option<DriverKind>,
}

/// Whether the first driver that could be made is the one at a place.
pub open spec fn first_made(outcomes: Seq<Result<(), IoError>>, at: int) -> bool {
    &&& 0 <= at < outcomes.len()
    &&& outcomes[at] is Ok
    &&& forall|i: int| 0 <= i < at ==> (#[trigger] outcomes[i]) is Err
}

impl RuntimeBuilder {
    /// The kinds of driver that are tried, in this order.
    pub open spec fn kinds(self) -> Seq<DriverKind> {
        match self.driver_kind {
            Some(kind) => seq![kind],
            None => seq![DriverKind::IoUring, DriverKind::Mio],
        }
    }

    /// Whether this is what to do after the drivers that were tried came out like this.
    pub open spec fn follows(self, outcomes: Seq<Result<(), IoError>>, step: BuildStep) -> bool {
        match step {
            BuildStep::Run(kind) => exists|at: int| #[trigger]
                first_made(outcomes, at) && kind == self.kinds()[at],
            BuildStep::Try(kind) => {
                &&& forall|i: int| 0 <= i < outcomes.len() ==> (#[trigger] outcomes[i]) is Err
                &&& outcomes.len() < self.kinds().len()
                &&& kind == self.kinds()[outcomes.len() as int]
            },
            BuildStep::Fail(err) => {
                &&& forall|i: int| 0 <= i < outcomes.len() ==> (#[trigger] outcomes[i]) is Err
                &&& outcomes.len() == self.kinds().len()
                &&& outcomes.last() == Err::<(), IoError>(err)
            },
        }
    }

    /// The driver on which the runtime runs, or the error of building it, if making a driver of a
    /// kind comes out as `made` says. Only where no kind was chosen is a second one tried.
    pub open spec fn built(self, made: spec_fn(DriverKind) -> Result<(), IoError>) -> Result<
        DriverKind,
        IoError,
    > {
        let kind = match self.driver_kind {
            Some(kind) => kind,
            None => if made(DriverKind::IoUring) is Ok {
                DriverKind::IoUring
            } else {
                DriverKind::Mio
            },
        };
        match made(kind) {
            Ok(_) => Ok(kind),
            Err(err) => Err(err),
        }
    }

    /// A runtime with the best driver that can be had.
    pub fn new() -> (builder: RuntimeBuilder)
        ensures
            builder.driver_kind is None,
    {
        RuntimeBuilder { driver_kind: None }
    }

    /// A runtime with the driver given.
    pub fn with_driver(driver_kind: DriverKind) -> (builder: RuntimeBuilder)
        ensures
            builder.driver_kind == Some(driver_kind),
    {
        RuntimeBuilder { driver_kind: Some(driver_kind) }
    }

    /// Chooses the driver.
    pub fn driver(self, driver_kind: DriverKind) -> (builder: RuntimeBuilder)
        ensures
            builder.driver_kind == Some(driver_kind),
    {
        let mut builder = self;
        builder.driver_kind = Some(driver_kind);
        builder
    }

    /// The kinds of driver that building the runtime tries, in this order: the first that can be
    /// made is taken, and if none can, the last one's error is reported.
    ///
    /// A driver that was chosen is the only one; otherwise the completion ring is tried before the
    /// readiness driver.
    pub fn build(self) -> (kinds: Vec<DriverKind>)
        ensures
            kinds@ == self.kinds(),
    {
        let mut kinds: Vec<DriverKind> = Vec::new();
        match self.driver_kind {
            Some(kind) => {
                kinds.push(kind);
            },
            None => {
                kinds.push(DriverKind::IoUring);
                kinds.push(DriverKind::Mio);
            },
        }
        kinds
    }

    /// What to do after the drivers that were tried came out like this, in the order of the kinds:
    /// the first that could be made is taken, and if none could, the last error is reported.
    pub fn next_step(self, outcomes: &Vec<Result<(), IoError>>) -> (step: BuildStep)
        requires
            outcomes@.len() <= self.kinds().len(),
        ensures
            self.follows(outcomes@, step),
    {
        let kinds = self.build();
        let mut index: usize = 0;
        while index < outcomes.len()
            invariant
                index <= outcomes@.len() <= kinds@.len(),
                index < kinds@.len(),
                kinds@ == self.kinds(),
                forall|i: int| 0 <= i < index ==> (#[trigger] outcomes@[i]) is Err,
            decreases outcomes@.len() - index,
        {
            if let Err(err) = outcomes[index] {
                if index + 1 == kinds.len() {
                    return BuildStep::Fail(err);
                }
            } else {
                assert(first_made(outcomes@, index as int));
                return BuildStep::Run(kinds[index]);
            }
            index = index + 1;
        }
        BuildStep::Try(kinds[index])
    }
}

/// Following the steps builds the runtime on the driver that was chosen, or else on the completion
/// ring if it can be made and on the readiness driver if not. Building fails only where the chosen
/// driver, or both of these, cannot be made, with the error of the last one.
pub proof fn law_steps_build_runtime(
    builder: RuntimeBuilder,
    made: spec_fn(DriverKind) -> Result<(), IoError>,
    tried: nat,
    step: BuildStep,
)
    requires
        tried <= builder.kinds().len(),
        builder.follows(builder.kinds().take(tried as int).map_values(made), step),
    ensures
        step matches BuildStep::Run(kind) ==> builder.built(made) == Ok::<DriverKind, IoError>(
            kind,
        ),
        step matches BuildStep::Fail(err) ==> builder.built(made) == Err::<DriverKind, IoError>(
            err,
        ),
        step is Try ==> tried < builder.kinds().len(),
{
    let outcomes = builder.kinds().take(tried as int).map_values(made);
    assert forall|i: int| 0 <= i < outcomes.len() implies #[trigger] outcomes[i] == made(
        builder.kinds()[i],
    ) by {}
    if let BuildStep::Run(kind) = step {
        let at = choose|at: int| #[trigger]
            first_made(outcomes, at) && kind == builder.kinds()[at];
        if at == 1 {
            assert(outcomes[0] is Err);
        }
    }
    if step is Fail {
        assert(outcomes[0] is Err);
        if outcomes.len() == 2 {
            assert(outcomes[1] is Err);
        }
    }
}

impl Default for RuntimeBuilder {
    fn default() -> (builder: RuntimeBuilder)
        ensures
            builder.driver_kind is None,
    {
        RuntimeBuilder::new()
    }
}

/// A driver that was chosen is the only one that is tried; without a choice the completion ring is
/// tried first, and the readiness driver only if that fails.
pub proof fn law_ring_is_tried_before_readiness(builder: RuntimeBuilder, kinds: Vec<DriverKind>)
    requires
        call_ensures(RuntimeBuilder::build, (builder,), kinds),
    ensures
        builder.driver_kind matches Some(kind) ==> kinds@.len() == 1 && kinds@[0] == kind,
        builder.driver_kind is None ==> kinds@.len() == 2 && kinds@[0] == DriverKind::IoUring
            && kinds@[1] == DriverKind::Mio,
{
}

/// A choice is kept, the last one counts, and a new builder has made none.
pub proof fn law_choice_is_kept(
    fresh: RuntimeBuilder,
    chosen: RuntimeBuilder,
    changed: RuntimeBuilder,
    kind: DriverKind,
    builder: RuntimeBuilder,
)
    requires
        call_ensures(RuntimeBuilder::new, (), fresh),
        call_ensures(RuntimeBuilder::with_driver, (kind,), chosen),
        call_ensures(RuntimeBuilder::driver, (builder, kind), changed),
    ensures
        fresh.driver_kind is None,
        chosen.driver_kind == Some(kind),
        changed.driver_kind == Some(kind),
{
}

/// What follows from what was tried. With a choice: it is tried, and the runtime runs on it or
/// fails with its error. Without one: the ring is tried, and taken if it could be made; else the
/// readiness driver is tried, and taken or failed with.
pub proof fn law_building_takes_the_first_that_works(
    builder: RuntimeBuilder,
    outcomes: Vec<Result<(), IoError>>,
    step: BuildStep,
)
    requires
        call_ensures(RuntimeBuilder::next_step, (builder, &outcomes), step),
        outcomes@.len() <= (if builder.driver_kind is Some {
            1int
        } else {
            2int
        }),
    ensures
        ({
            let first = match builder.driver_kind {
                Some(kind) => kind,
                None => DriverKind::IoUring,
            };
            &&& outcomes@.len() == 0 ==> step == BuildStep::Try(first)
            &&& outcomes@.len() > 0 && outcomes@[0] is Ok ==> step == BuildStep::Run(first)
            &&& outcomes@.len() == 1 && outcomes@[0] is Err ==> step == (
            if builder.driver_kind is Some {
                BuildStep::Fail(outcomes@[0]->Err_0)
            } else {
                BuildStep::Try(DriverKind::Mio)
            })
            &&& outcomes@.len() == 2 && outcomes@[0] is Err ==> step == (match outcomes@[1] {
                Ok(_) => BuildStep::Run(DriverKind::Mio),
                Err(err) => BuildStep::Fail(err),
            })
        }),
{
    if let BuildStep::Run(kind) = step {
        let at = choose|at: int| #[trigger]
            first_made(outcomes@, at) && kind == builder.kinds()[at];
        if at == 1 {
            assert(outcomes@[0] is Err);
        }
    } else {
        if outcomes@.len() > 0 {
            assert(outcomes@[0] is Err);
        }
        if outcomes@.len() == 2 {
            assert(outcomes@[1] is Err);
        }
    }
}

/// A builder by default has made no choice.
pub proof fn law_default_builder_has_no_choice(builder: RuntimeBuilder)
    requires
        call_ensures(<RuntimeBuilder as Default>::default, (), builder),
    ensures
        builder.driver_kind is None,
{
}

} // verus!
