//! Random series of price changes to run the scan on.

use vstd::prelude::*;
use rand::Rng;

verus! {

/// `rand::rngs::ThreadRng`, the handle to a thread's generator. It is
/// carried from where it is made to where numbers are drawn; nothing inside
/// it is looked at.
#[verifier::external_type_specification]
#[verifier::external_body]
pub struct ExThreadRng(rand::rngs::ThreadRng);

/// `rand::thread_rng`: a handle to the generator of the calling thread.
/// Nothing is claimed of it. The first use in a thread panics where the
/// system's random source fails, which no argument decides.
#[verifier::external_body]
fn local_generator() -> rand::rngs::ThreadRng {
    rand::thread_rng()
}

/// `Rng::gen_range` over `min..max` on the thread's generator: some value of
/// the half-open range. Which one is not said, and two calls may differ. The
/// range must not be empty, for `gen_range` panics on an empty one. It also
/// panics where the generator reseeds and the system's random source fails,
/// which no argument decides.
#[verifier::external_body]
fn draw(generator: &mut rand::rngs::ThreadRng, min: i32, max: i32) -> (value: i32)
    requires
        min < max,
    ensures
        min <= value < max,
{
    generator.gen_range(min..max)
}

/// Creates `count` random price changes, each at least `min` and below
/// `max`.
pub fn create_rnd_rel_stocks(count: u32, min: i32, max: i32) -> (stocks: Vec<i32>)
    requires
        count > 0 ==> min < max,
    ensures
        stocks.len() == count,
        forall|day: int| 0 <= day < stocks.len() ==> min <= #[trigger] stocks[day] < max,
{
    let mut random = local_generator();
    let mut stocks: Vec<i32> = Vec::new();
    let mut made: u32 = 0;
    while made < count
        invariant
            made <= count,
            count > 0 ==> min < max,
            stocks.len() == made,
            forall|day: int| 0 <= day < stocks.len() ==> min <= #[trigger] stocks[day] < max,
        decreases count - made,
    {
        let change = draw(&mut random, min, max);
        stocks.push(change);
        made = made + 1;
    }
    stocks
}

} // verus!
