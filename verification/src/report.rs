//! The summary of a batch of timed runs: one row of a timing table.

use vstd::prelude::*;

verus! {

/// One row of the timing table: all runs made on series of one length.
pub struct Run {
    /// The number of elements in each series.
    pub count: u32,
    /// The time of each run in microseconds, in decimal, `", "` between them.
    pub runs_in_microseconds: String,
    /// The mean over the runs of the time that 10,000 elements took, in
    /// microseconds.
    pub avg_time_per_10_000_elem: u128,
}

/// The character of a decimal digit.
pub open spec fn digit(value: int) -> char {
    if value == 0 {
        '0'
    } else if value == 1 {
        '1'
    } else if value == 2 {
        '2'
    } else if value == 3 {
        '3'
    } else if value == 4 {
        '4'
    } else if value == 5 {
        '5'
    } else if value == 6 {
        '6'
    } else if value == 7 {
        '7'
    } else if value == 8 {
        '8'
    } else {
        '9'
    }
}

/// A number in decimal, without leading zeros.
pub open spec fn decimal(n: nat) -> Seq<char>
    decreases n,
{
    if n < 10 {
        seq![digit(n as int)]
    } else {
        decimal(n / 10).push(digit((n % 10) as int))
    }
}

/// The times in decimal, a comma and a space between each two.
pub open spec fn listed(micros: Seq<u128>) -> Seq<char>
    decreases micros.len(),
{
    if micros.len() == 0 {
        Seq::empty()
    } else if micros.len() == 1 {
        decimal(micros[0] as nat)
    } else {
        listed(micros.drop_last()) + seq![',', ' '] + decimal(micros.last() as nat)
    }
}

/// The time that 10,000 elements took in a run of `micros` microseconds on
/// `count` elements, rounded down.
pub open spec fn per_10_000(micros: u128, count: u32) -> int {
    micros * 10_000 / (count as int)
}

/// The sum of `per_10_000` over the runs.
pub open spec fn total_per_10_000(micros: Seq<u128>, count: u32) -> int
    decreases micros.len(),
{
    if micros.len() == 0 {
        0
    } else {
        total_per_10_000(micros.drop_last(), count) + per_10_000(micros.last(), count)
    }
}

/// The runs can be summarised: there are elements and runs, and neither a
/// scaled time nor the sum of them leaves 128 bits.
pub open spec fn summable(count: u32, micros: Seq<u128>) -> bool {
    &&& count > 0
    &&& micros.len() > 0
    &&& forall|run: int| 0 <= run < micros.len() ==> #[trigger] micros[run] * 10_000 <= u128::MAX
    &&& total_per_10_000(micros, count) <= u128::MAX
}

/// Decimal digits, given lowest first, written highest first.
pub open spec fn written(digits: Seq<u8>) -> Seq<char> {
    Seq::new(digits.len(), |place: int| digit(digits[digits.len() - 1 - place] as int))
}

/// The text of one decimal digit.
fn digit_text(value: u8) -> (text: &'static str)
    requires
        value < 10,
    ensures
        text@ == seq![digit(value as int)],
{
    proof {
        reveal_strlit("0");
        reveal_strlit("1");
        reveal_strlit("2");
        reveal_strlit("3");
        reveal_strlit("4");
        reveal_strlit("5");
        reveal_strlit("6");
        reveal_strlit("7");
        reveal_strlit("8");
        reveal_strlit("9");
    }
    let text = if value == 0 {
        "0"
    } else if value == 1 {
        "1"
    } else if value == 2 {
        "2"
    } else if value == 3 {
        "3"
    } else if value == 4 {
        "4"
    } else if value == 5 {
        "5"
    } else if value == 6 {
        "6"
    } else if value == 7 {
        "7"
    } else if value == 8 {
        "8"
    } else {
        "9"
    };
    assert(text@ =~= seq![digit(value as int)]);
    text
}

/// Writes a number in decimal.
pub fn decimal_text(n: u128) -> (text: String)
    ensures
        text@ == decimal(n as nat),
{
    let mut digits: Vec<u8> = Vec::new();
    digits.push((n % 10) as u8);
    let mut rest: u128 = n / 10;
    proof {
        assert(written(digits@) =~= seq![digit((n % 10) as int)]);
        if n >= 10 {
            assert(decimal(n as nat) =~= decimal(rest as nat) + written(digits@));
        } else {
            assert(decimal(n as nat) =~= Seq::<char>::empty() + written(digits@));
        }
    }
    while rest > 0
        invariant
            digits.len() > 0,
            forall|place: int| 0 <= place < digits.len() ==> #[trigger] digits[place] < 10,
            decimal(n as nat) == (if rest > 0 {
                decimal(rest as nat)
            } else {
                Seq::<char>::empty()
            }) + written(digits@),
        decreases rest,
    {
        let ghost before = digits@;
        let ghost lowest = digit((rest % 10) as int);
        digits.push((rest % 10) as u8);
        proof {
            assert(written(digits@) =~= seq![lowest] + written(before));
            if rest >= 10 {
                assert(decimal(rest as nat) =~= decimal((rest / 10) as nat) + seq![lowest]);
                assert(decimal(n as nat) =~= decimal((rest / 10) as nat) + written(digits@));
            } else {
                assert(decimal(rest as nat) =~= seq![lowest]);
                assert(decimal(n as nat) =~= Seq::<char>::empty() + written(digits@));
            }
        }
        rest = rest / 10;
    }
    let mut text = String::new();
    let mut left: usize = digits.len();
    while left > 0
        invariant
            left <= digits.len(),
            forall|place: int| 0 <= place < digits.len() ==> #[trigger] digits[place] < 10,
            text@ == written(digits@).take(digits.len() - left),
        decreases left,
    {
        left = left - 1;
        text.append(digit_text(digits[left]));
        assert(text@ =~= written(digits@).take(digits.len() - left));
    }
    assert(text@ =~= written(digits@));
    text
}

impl Run {
    /// Summarises the runs made on series of `count` elements, given the
    /// time of each in microseconds. There is no row where `count` is zero,
    /// where no run was made, or where the arithmetic leaves 128 bits.
    pub fn from_micros(count: u32, micros: &Vec<u128>) -> (row: Option<Run>)
        ensures
            row is Some <==> summable(count, micros@),
            row matches Some(run) ==> {
                &&& run.count == count
                &&& run.runs_in_microseconds@ == listed(micros@)
                &&& run.avg_time_per_10_000_elem == total_per_10_000(micros@, count)
                    / (micros.len() as int)
            },
    {
        let runs = micros.len();
        if count == 0 || runs == 0 {
            return None;
        }
        let mut total: u128 = 0;
        let mut text = String::new();
        let mut done: usize = 0;
        while done < runs
            invariant
                runs == micros.len(),
                count > 0,
                done <= runs,
                total == total_per_10_000(micros@.take(done as int), count),
                text@ == listed(micros@.take(done as int)),
                forall|run: int| 0 <= run < done ==> #[trigger] micros[run] * 10_000 <= u128::MAX,
            decreases runs - done,
        {
            let time = micros[done];
            proof {
                assert(micros@.take(done + 1).drop_last() == micros@.take(done as int));
                lemma_total_grows(micros@, count, done + 1);
            }
            if time > u128::MAX / 10_000 {
                return None;
            }
            let scaled = time * 10_000 / (count as u128);
            if scaled > u128::MAX - total {
                return None;
            }
            total = total + scaled;
            if done > 0 {
                proof {
                    reveal_strlit(", ");
                    assert(", "@ == seq![',', ' ']);
                }
                text.append(", ");
            }
            let written = decimal_text(time);
            text.append(written.as_str());
            done = done + 1;
        }
        proof {
            assert(micros@.take(runs as int) == micros@);
        }
        Some(Run {
            count,
            runs_in_microseconds: text,
            avg_time_per_10_000_elem: total / (runs as u128),
        })
    }
}

/// The sum over the first runs never exceeds the sum over all.
proof fn lemma_total_grows(micros: Seq<u128>, count: u32, first: int)
    requires
        0 <= first <= micros.len(),
        count > 0,
    ensures
        0 <= total_per_10_000(micros.take(first), count) <= total_per_10_000(micros, count),
    decreases micros.len() - first,
{
    if first == micros.len() {
        assert(micros.take(first) == micros);
        lemma_total_not_negative(micros, count);
    } else {
        lemma_total_grows(micros, count, first + 1);
        assert(micros.take(first + 1).drop_last() == micros.take(first));
        lemma_total_not_negative(micros.take(first), count);
    }
}

proof fn lemma_total_not_negative(micros: Seq<u128>, count: u32)
    requires
        count > 0,
    ensures
        0 <= total_per_10_000(micros, count),
    decreases micros.len(),
{
    if micros.len() > 0 {
        lemma_total_not_negative(micros.drop_last(), count);
        assert(per_10_000(micros.last(), count) >= 0) by (nonlinear_arith)
            requires
                count > 0,
                micros.last() >= 0,
                per_10_000(micros.last(), count) == micros.last() * 10_000 / (count as int),
        ;
    }
}

} // verus!
