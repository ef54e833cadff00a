//! The order of one simulated life, and what a batch of lives reports.
//!
//! A life works month by month until the last month of the career (or until
//! death, if that comes first), retires once, then draws on its savings month
//! by month until death or until a month's draw comes up short. The money is
//! computed by the caller; `RunProgress` says which step comes next and
//! counts the months in which the assets were adequate.
use vstd::prelude::*;

use crate::period::{Lifespan, Period};
use crate::mortality::{calculate_periods, dies_at};
use crate::ratio::Ratio;
use crate::rng::{next_u64, seeded};
use crate::sampler::{bootstrap, covers, draws_in_range, generate_rates, picks, valid_block, SampleError};

verus! {

/// Where a life stands.
#[derive(Copy, Clone, Debug, PartialEq, Eq, Structural)]
pub enum Stage {
    Working,
    Retiring,
    Drawing,
    Finished,
}

/// The next step of a life.
#[derive(Copy, Clone, Debug)]
pub enum RunAction {
    /// Earn, invest and pay tax for this month.
    Work(Period),
    /// Leave the job: fix the retirement income and take over the accounts.
    Retire,
    /// Grow the accounts and draw the retirement income for this month.
    Draw(Period),
    /// Nothing is left to do.
    Finish,
}

/// The state of a life in numbers: its length and its career in months,
/// the next month to handle, and the stage it is in.
pub struct RunState {
    pub lifespan: nat,
    pub career: nat,
    pub next: nat,
    pub stage: Stage,
}

/// Progress of one life through its months.
#[derive(Copy, Clone, Debug)]
pub struct RunProgress {
    lifespan: Lifespan,
    careerspan: Lifespan,
    next: usize,
    stage: Stage,
}

impl View for RunProgress {
    type V = RunState;

    closed spec fn view(&self) -> RunState {
        RunState { lifespan: self.lifespan@, career: self.careerspan@, next: self.next as nat, stage: self.stage }
    }
}

/// The months worked: the career, cut short by an earlier death.
pub open spec fn months_worked(lifespan: nat, career: nat) -> nat {
    if career <= lifespan {
        career
    } else {
        lifespan
    }
}

impl RunState {
    /// What holds of every state a life passes through: months are handled
    /// in order and none past death, and work stops at the career's end.
    pub open spec fn wf(self) -> bool {
        &&& self.career >= 1
        &&& self.next <= self.lifespan
        &&& self.lifespan <= usize::MAX
        &&& self.stage == Stage::Working ==> self.next < self.career
        &&& self.stage == Stage::Retiring ==> self.next == months_worked(self.lifespan, self.career)
        &&& self.stage == Stage::Drawing ==> self.next >= months_worked(self.lifespan, self.career)
        &&& self.stage == Stage::Finished ==> self.next >= months_worked(self.lifespan, self.career)
    }

    /// The step that this state calls for: work while the career and the life
    /// last, then retire, then draw while the life lasts.
    pub open spec fn calls_for(self, a: RunAction) -> bool {
        match a {
            RunAction::Work(p) => self.stage == Stage::Working && self.next < self.lifespan && p@ == self.next,
            RunAction::Retire => self.is_retiring(),
            RunAction::Draw(p) => self.stage == Stage::Drawing && self.next < self.lifespan && p@ == self.next,
            RunAction::Finish => self.stage == Stage::Finished || (self.stage == Stage::Drawing && self.next
                == self.lifespan),
        }
    }

    /// The life is due to retire: its career is over, or it died while working.
    pub open spec fn is_retiring(self) -> bool {
        self.stage == Stage::Retiring || (self.stage == Stage::Working && self.next == self.lifespan)
    }

    /// Assets were adequate in every month of the life.
    pub open spec fn succeeded(self) -> bool {
        self.next >= self.lifespan
    }
}

impl RunProgress {
    /// A life of `lifespan` months with a career of `careerspan` months,
    /// before its first month.
    pub fn new(lifespan: Lifespan, careerspan: Lifespan) -> (r: RunProgress)
        requires
            careerspan@ >= 1,
        ensures
            r@ == (RunState { lifespan: lifespan@, career: careerspan@, next: 0, stage: Stage::Working }),
            r@.wf(),
    {
        proof {
            lifespan.lemma_periods_bounded();
        }
        RunProgress { lifespan, careerspan, next: 0, stage: Stage::Working }
    }

    /// The next step.
    pub fn next_action(&self) -> (r: RunAction)
        requires
            self@.wf(),
        ensures
            self@.calls_for(r),
    {
        match self.stage {
            Stage::Working => if self.next < self.lifespan.periods() {
                RunAction::Work(Period::new(self.next))
            } else {
                RunAction::Retire
            },
            Stage::Retiring => RunAction::Retire,
            Stage::Drawing => if self.next < self.lifespan.periods() {
                RunAction::Draw(Period::new(self.next))
            } else {
                RunAction::Finish
            },
            Stage::Finished => RunAction::Finish,
        }
    }

    /// A month of work is done; after the last month of the career the life
    /// is due to retire.
    pub fn worked(&mut self)
        requires
            old(self)@.wf(),
            old(self)@.stage == Stage::Working,
            old(self)@.next < old(self)@.lifespan,
        ensures
            final(self)@.wf(),
            final(self)@.next == old(self)@.next + 1,
            final(self)@.stage == (if old(self)@.next + 1 == old(self)@.career {
                Stage::Retiring
            } else {
                Stage::Working
            }),
            final(self)@.lifespan == old(self)@.lifespan,
            final(self)@.career == old(self)@.career,
    {
        self.next = self.next + 1;
        if self.next == self.careerspan.periods() {
            self.stage = Stage::Retiring;
        }
    }

    /// The life has retired; drawing starts with the next month.
    pub fn retired(&mut self)
        requires
            old(self)@.wf(),
            old(self)@.is_retiring(),
        ensures
            final(self)@ == (RunState { stage: Stage::Drawing, ..old(self)@ }),
            final(self)@.wf(),
    {
        self.stage = Stage::Drawing;
    }

    /// A month of retirement is done: when its draw was covered the month
    /// counts as adequate, else the life's savings have run out.
    pub fn drew(&mut self, covered: bool)
        requires
            old(self)@.wf(),
            old(self)@.stage == Stage::Drawing,
            old(self)@.next < old(self)@.lifespan,
        ensures
            final(self)@.wf(),
            covered ==> final(self)@ == (RunState { next: old(self)@.next + 1, ..old(self)@ }),
            !covered ==> final(self)@ == (RunState { stage: Stage::Finished, ..old(self)@ }),
    {
        if covered {
            self.next = self.next + 1;
        } else {
            self.stage = Stage::Finished;
        }
    }

    /// The months in which the assets were adequate: every month worked, and
    /// every month whose draw was covered.
    pub fn assets_adequate_periods(&self) -> (r: usize)
        ensures
            r == self@.next,
    {
        self.next
    }

    pub fn lifespan(&self) -> (r: Lifespan)
        ensures
            r@ == self@.lifespan,
    {
        self.lifespan
    }

    pub fn careerspan(&self) -> (r: Lifespan)
        ensures
            r@ == self@.career,
    {
        self.careerspan
    }

    /// The assets were adequate in every month of the life.
    pub fn is_success(&self) -> (r: bool)
        ensures
            r == self@.succeeded(),
    {
        self.next >= self.lifespan.periods()
    }
}

/// The number of lives in which the assets were adequate throughout.
pub open spec fn successes(runs: Seq<RunProgress>) -> nat
    decreases runs.len(),
{
    if runs.len() == 0 {
        0
    } else {
        successes(runs.drop_last()) + if runs.last()@.succeeded() {
            1nat
        } else {
            0nat
        }
    }
}

/// Successful lives over all lives.
pub fn success_rate(runs: &[RunProgress]) -> (r: Ratio)
    ensures
        r.num == successes(runs@),
        r.denom == runs@.len(),
{
    let mut num: usize = 0;
    let mut i: usize = 0;
    while i < runs.len()
        invariant
            i <= runs@.len(),
            num == successes(runs@.take(i as int)),
            num <= i,
        decreases runs@.len() - i,
    {
        assert(runs@.take(i + 1).drop_last() =~= runs@.take(i as int));
        if runs[i].is_success() {
            num = num + 1;
        }
        i = i + 1;
    }
    assert(runs@.take(i as int) =~= runs@);
    Ratio { num, denom: runs.len() }
}

/// What a life is made of: its length in months, one rate for each of its
/// months, and the outcome of each monthly survival trial that was drawn.
pub struct LifeSample<T> {
    pub lifespan: Lifespan,
    pub rates: Vec<T>,
    pub lived: Vec<bool>,
}

/// Draws what a life is made of from its seed: the generator seeded with
/// `seed` draws the monthly survival trials until the first death, which
/// fixes the lifespan, then the seed of a second generator, which samples one
/// rate for each month of the life from `rates_in` in blocks of `sublength`.
/// Fails, and only then, when the block length does not fit the pool.
pub fn sample_life<T: Copy>(
    seed: u64,
    life_rates: &[rand::distributions::Bernoulli],
    rates_in: &[T],
    sublength: usize,
) -> (res: Result<LifeSample<T>, SampleError>)
    requires
        life_rates@.len() >= 1,
        rates_in@.len() + sublength <= usize::MAX,
    ensures
        res is Err <==> !valid_block(rates_in@.len() as int, sublength as int),
        res is Err ==> res == Err::<LifeSample<T>, SampleError>(SampleError::PreconditionViolation),
        res matches Ok(life) ==> {
            &&& forall|j: int| 0 <= j < life.lifespan@ ==> #[trigger] life.lived@[j]
            &&& life.lifespan@ < usize::MAX ==> life.lived@.len() == life.lifespan@ + 1 && dies_at(
                life.lived@,
                life.lifespan@ as int,
            )
            &&& life.lifespan@ == usize::MAX ==> life.lived@.len() == usize::MAX
            &&& life.rates@.len() == life.lifespan@
            &&& exists|draws: Seq<usize>|
                {
                    &&& draws_in_range(draws, rates_in@.len() as int, sublength as int)
                    &&& covers(
                        draws,
                        draws.len() as int,
                        rates_in@.len() as int,
                        sublength as int,
                        life.lifespan@ as int,
                    )
                    &&& life.rates@ == picks(
                        rates_in@,
                        bootstrap(draws, rates_in@.len() as int, sublength as int).take(life.lifespan@ as int),
                    )
                }
        },
{
    let mut rng = seeded(seed);
    let (months, lived) = calculate_periods(&mut rng, life_rates);
    let lifespan = Lifespan::new(months);
    let rates_rng = seeded(next_u64(&mut rng));
    match generate_rates(rates_rng, rates_in, sublength, months) {
        Ok(rates) => Ok(LifeSample { lifespan, rates, lived }),
        Err(e) => Err(e),
    }
}

/// The seed of life `index` of a batch of `count` lives started from `seed`:
/// `seed * count + index`.
pub fn run_seed(seed: u64, count: usize, index: usize) -> (r: u64)
    requires
        seed * count + index <= u64::MAX,
    ensures
        r == seed * count + index,
{
    seed * (count as u64) + (index as u64)
}

} // verus!
