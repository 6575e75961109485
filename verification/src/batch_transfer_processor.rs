//! Totals of batches of transfers, one batch at a time.
use vstd::prelude::*;

use crate::host;
use crate::host::amount_items;

verus! {

/// The greatest number of amounts in a batch.
pub const MAX_BATCH: u32 = 100;

/// Why a batch was refused.
#[derive(Copy, Clone, Debug, PartialEq, Eq, PartialOrd, Ord, Structural)]
pub enum Error {
    /// Another batch is being processed.
    ProcessorLocked,
    /// The total does not fit in a `u64`.
    CalculationOverflow,
    /// The batch holds more than `MAX_BATCH` amounts.
    BatchTooLarge,
}

/// The number under which clients see an error.
pub open spec fn error_code(error: Error) -> u32 {
    match error {
        Error::ProcessorLocked => 2001,
        Error::CalculationOverflow => 2002,
        Error::BatchTooLarge => 2003,
    }
}

impl Error {
    /// The number under which clients see this error.
    pub fn code(self) -> (code: u32)
        ensures
            code == error_code(self),
    {
        match self {
            Error::ProcessorLocked => 2001,
            Error::CalculationOverflow => 2002,
            Error::BatchTooLarge => 2003,
        }
    }
}

/// Clients can tell the errors apart by their numbers.
pub proof fn error_codes_are_distinct(a: Error, b: Error)
    ensures
        error_code(a) == error_code(b) <==> a == b,
{
}

/// The sum of the first `n` items. An item that is no amount counts for
/// nothing.
pub open spec fn total_of_first(items: Seq<Option<u64>>, n: int) -> int
    decreases n,
{
    if n <= 0 {
        0
    } else {
        total_of_first(items, n - 1) + match items[n - 1] {
            Some(amount) => amount as int,
            None => 0,
        }
    }
}

/// Every item is an amount, as far as they are looked at: none is after the
/// total has overflowed.
pub open spec fn all_amounts(items: Seq<Option<u64>>) -> bool {
    forall|i: int|
        0 <= i < items.len() && total_of_first(items, i) <= u64::MAX ==> (
        #[trigger] items[i]) is Some
}

/// The total of a list of amounts, where it fits in a `u64`.
pub open spec fn checked_total(items: Seq<Option<u64>>) -> Result<u64, Error> {
    if total_of_first(items, items.len() as int) > u64::MAX {
        Err(Error::CalculationOverflow)
    } else {
        Ok(total_of_first(items, items.len() as int) as u64)
    }
}

/// What a processor answers to a batch.
pub open spec fn batch_result(locked: bool, items: Seq<Option<u64>>) -> Result<u64, Error> {
    if locked {
        Err(Error::ProcessorLocked)
    } else if items.len() > MAX_BATCH {
        Err(Error::BatchTooLarge)
    } else {
        checked_total(items)
    }
}

/// Every item that a processor looks at is an amount: it looks at none where it
/// is locked or the batch is too large.
pub open spec fn batch_readable(locked: bool, items: Seq<Option<u64>>) -> bool {
    !locked && items.len() <= MAX_BATCH ==> all_amounts(items)
}

proof fn lemma_total_monotonic(items: Seq<Option<u64>>, m: int, n: int)
    requires
        0 <= m <= n,
    ensures
        0 <= total_of_first(items, m) <= total_of_first(items, n),
    decreases n,
{
    if m < n {
        lemma_total_monotonic(items, m, n - 1);
    } else if n > 0 {
        lemma_total_monotonic(items, m - 1, n - 1);
    }
}

/// Adds up the items of a batch, and stops where the total overflows. `None`
/// where it meets an item that is no amount.
pub fn add_up(items: &Vec<Option<u64>>) -> (r: Option<Result<u64, Error>>)
    ensures
        r == if all_amounts(items@) {
            Some(checked_total(items@))
        } else {
            None
        },
{
    let mut total: u64 = 0;
    let mut i: usize = 0;
    while i < items.len()
        invariant
            i <= items@.len(),
            forall|j: int| 0 <= j < i ==> (#[trigger] items@[j]) is Some,
            total == total_of_first(items@, i as int),
        decreases items@.len() - i,
    {
        match items[i] {
            Some(amount) => match total.checked_add(amount) {
                Some(sum) => {
                    total = sum;
                },
                None => {
                    proof {
                        lemma_total_monotonic(items@, i + 1, items@.len() as int);
                        assert forall|j: int|
                            0 <= j < items@.len() && total_of_first(items@, j)
                                <= u64::MAX implies (#[trigger] items@[j]) is Some by {
                            if j > i {
                                lemma_total_monotonic(items@, i + 1, j);
                            }
                        }
                    }
                    return Some(Err(Error::CalculationOverflow));
                },
            },
            None => {
                return None;
            },
        }
        i += 1;
    }
    Some(Ok(total))
}

/// The items of a list of amounts.
fn read_items(amounts: &soroban_sdk::Vec<u64>) -> (items: Vec<Option<u64>>)
    ensures
        items@ == amount_items(*amounts),
{
    let n: u32 = host::amounts_len(amounts);
    let mut items: Vec<Option<u64>> = Vec::new();
    let mut i: u32 = 0;
    while i < n
        invariant
            i <= n == amount_items(*amounts).len(),
            items@ == amount_items(*amounts).take(i as int),
        decreases n - i,
    {
        items.push(host::amounts_get(amounts, i));
        i += 1;
    }
    items
}

/// A processor with its lock.
#[derive(Clone, Copy, Debug, PartialEq, Eq, Structural)]
pub struct BatchTransferProcessor {
    /// Set while a batch is being processed.
    pub locked: bool,
}

impl BatchTransferProcessor {
    /// A processor that is free.
    pub fn new() -> (processor: Self)
        ensures
            !processor.locked,
    {
        BatchTransferProcessor { locked: false }
    }

    /// Returns the total of a batch. Whatever the answer, the lock is afterwards
    /// as it was before.
    pub fn process_batch(&mut self, amounts: &soroban_sdk::Vec<u64>) -> (r: Result<u64, Error>)
        requires
            batch_readable(old(self).locked, amount_items(*amounts)),
        ensures
            r == batch_result(old(self).locked, amount_items(*amounts)),
            final(self).locked == old(self).locked,
    {
        if self.locked {
            return Err(Error::ProcessorLocked);
        }
        self.locked = true;

        if host::amounts_len(amounts) > MAX_BATCH {
            self.locked = false;
            return Err(Error::BatchTooLarge);
        }
        let total: Result<u64, Error> = add_up(&read_items(amounts)).unwrap();
        self.locked = false;
        total
    }

    /// As `process_batch`, for a list whose items may be of any type: `None`
    /// where one that would be added up is no amount.
    pub fn try_process_batch(&mut self, amounts: &soroban_sdk::Vec<u64>) -> (r: Option<
        Result<u64, Error>,
    >)
        ensures
            r == if batch_readable(old(self).locked, amount_items(*amounts)) {
                Some(batch_result(old(self).locked, amount_items(*amounts)))
            } else {
                None
            },
            final(self).locked == old(self).locked,
    {
        if !self.locked && host::amounts_len(amounts) <= MAX_BATCH && add_up(
            &read_items(amounts),
        ).is_none() {
            return None;
        }
        Some(self.process_batch(amounts))
    }
}

// ─── What holds of every batch ───────────────────────────────────────

/// The first items of a longer list add up as they do alone.
proof fn lemma_total_of_prefix(a: Seq<Option<u64>>, b: Seq<Option<u64>>, n: int)
    requires
        n <= a.len(),
    ensures
        total_of_first(a + b, n) == total_of_first(a, n),
    decreases n,
{
    if n > 0 {
        lemma_total_of_prefix(a, b, n - 1);
        assert((a + b)[n - 1] == a[n - 1]);
    }
}

/// The total of two lists one after the other is the sum of their totals.
proof fn lemma_total_of_both(a: Seq<Option<u64>>, b: Seq<Option<u64>>, n: int)
    requires
        0 <= n <= b.len(),
    ensures
        total_of_first(a + b, a.len() + n) == total_of_first(a, a.len() as int) + total_of_first(
            b,
            n,
        ),
    decreases n,
{
    if n > 0 {
        lemma_total_of_both(a, b, n - 1);
        assert((a + b)[a.len() + n - 1] == b[n - 1]);
    } else {
        lemma_total_of_prefix(a, b, a.len() as int);
    }
}

/// `sums` is the running account of `amounts`: it starts at zero, and each amount
/// is added to what came before it.
pub open spec fn is_running_account(sums: Seq<int>, amounts: Seq<u64>) -> bool {
    &&& sums.len() == amounts.len() + 1
    &&& sums[0] == 0
    &&& forall|i: int, j: int|
        0 <= i < amounts.len() && j == i + 1 ==> #[trigger] sums[j] == #[trigger] sums[i]
            + amounts[i]
}

proof fn lemma_account(sums: Seq<int>, amounts: Seq<u64>, items: Seq<Option<u64>>, n: int)
    requires
        is_running_account(sums, amounts),
        items.len() == amounts.len(),
        forall|i: int| 0 <= i < items.len() ==> #[trigger] items[i] == Some(amounts[i]),
        0 <= n <= amounts.len(),
    ensures
        total_of_first(items, n) == sums[n],
    decreases n,
{
    if n > 0 {
        lemma_account(sums, amounts, items, n - 1);
        let i = n - 1;
        assert(items[i] == Some(amounts[i]));
        assert(sums[n] == sums[i] + amounts[i]);
    }
}

/// A free processor answers to up to 100 amounts with what they all come to, and
/// refuses them exactly where that is more than a `u64` holds; a larger batch it
/// refuses as too large, and a locked one refuses every batch.
pub proof fn every_amount_counts(
    locked: bool,
    amounts: Seq<u64>,
    sums: Seq<int>,
    items: Seq<Option<u64>>,
)
    requires
        items.len() == amounts.len(),
        forall|i: int| 0 <= i < items.len() ==> #[trigger] items[i] == Some(amounts[i]),
        is_running_account(sums, amounts),
    ensures
        batch_readable(locked, items),
        all_amounts(items),
        checked_total(items) == if sums[amounts.len() as int] <= u64::MAX {
            Ok(sums[amounts.len() as int] as u64)
        } else {
            Err(Error::CalculationOverflow)
        },
        match batch_result(locked, items) {
            Ok(total) => !locked && amounts.len() <= 100 && total == sums[amounts.len() as int],
            Err(Error::ProcessorLocked) => locked,
            Err(Error::BatchTooLarge) => !locked && amounts.len() > 100,
            Err(Error::CalculationOverflow) => !locked && amounts.len() <= 100
                && sums[amounts.len() as int] > u64::MAX,
        },
{
    lemma_account(sums, amounts, items, amounts.len() as int);
    lemma_total_monotonic(items, 0, items.len() as int);
    assert forall|i: int| 0 <= i < items.len() implies (#[trigger] items[i]) is Some by {
        assert(items[i] == Some(amounts[i]));
    }
}

/// A single amount is its own total, and no amounts come to nothing.
pub proof fn single_amount_is_its_own_total(amount: u64)
    ensures
        batch_result(false, seq![]) == Ok::<u64, Error>(0),
        batch_result(false, seq![Some(amount)]) == Ok::<u64, Error>(amount),
{
    let items = seq![Some(amount)];
    assert(items[0] == Some(amount));
    assert(total_of_first(items, 0) == 0);
}

/// Two batches one after the other come to the sum of what each comes to, in
/// either order.
pub proof fn totals_of_batches_add_up(a: Seq<Option<u64>>, b: Seq<Option<u64>>, x: u64, y: u64)
    requires
        batch_result(false, a) == Ok::<u64, Error>(x),
        batch_result(false, b) == Ok::<u64, Error>(y),
        a.len() + b.len() <= 100,
    ensures
        batch_result(false, a + b) == if x + y <= u64::MAX {
            Ok((x + y) as u64)
        } else {
            Err(Error::CalculationOverflow)
        },
        batch_result(false, b + a) == batch_result(false, a + b),
{
    lemma_total_of_both(a, b, b.len() as int);
    lemma_total_of_both(b, a, a.len() as int);
    lemma_total_monotonic(a, 0, a.len() as int);
    lemma_total_monotonic(b, 0, b.len() as int);
}

/// A part of a batch never overflows where the whole does not.
pub proof fn parts_fit_where_the_whole_does(a: Seq<Option<u64>>, b: Seq<Option<u64>>, total: u64)
    requires
        batch_result(false, a + b) == Ok::<u64, Error>(total),
    ensures
        batch_result(false, a) is Ok,
        batch_result(false, b) is Ok,
        batch_result(false, a)->Ok_0 + batch_result(false, b)->Ok_0 == total,
{
    lemma_total_of_both(a, b, b.len() as int);
    lemma_total_monotonic(a, 0, a.len() as int);
    lemma_total_monotonic(b, 0, b.len() as int);
}

/// A batch with an item that is no amount can be read exactly where the amounts
/// before it already come to more than a `u64` holds, and is refused for that, or
/// where the processor does not look at the items.
pub proof fn first_foreign_item_decides(
    locked: bool,
    items: Seq<Option<u64>>,
    amounts: Seq<u64>,
    sums: Seq<int>,
)
    requires
        amounts.len() < items.len(),
        forall|i: int| 0 <= i < amounts.len() ==> #[trigger] items[i] == Some(amounts[i]),
        items[amounts.len() as int] is None,
        is_running_account(sums, amounts),
    ensures
        all_amounts(items) <==> sums[amounts.len() as int] > u64::MAX,
        all_amounts(items) ==> checked_total(items) == Err::<u64, Error>(
            Error::CalculationOverflow,
        ),
        batch_readable(locked, items) <==> locked || items.len() > 100
            || sums[amounts.len() as int] > u64::MAX,
        batch_readable(locked, items) ==> match batch_result(locked, items) {
            Ok(_) => false,
            Err(Error::ProcessorLocked) => locked,
            Err(Error::BatchTooLarge) => !locked && items.len() > 100,
            Err(Error::CalculationOverflow) => !locked && items.len() <= 100
                && sums[amounts.len() as int] > u64::MAX,
        },
{
    let n = amounts.len() as int;
    let head = items.take(n);
    assert forall|i: int| 0 <= i < head.len() implies #[trigger] head[i] == Some(amounts[i]) by {
        assert(items[i] == Some(amounts[i]));
    }
    lemma_account(sums, amounts, head, n);
    lemma_total_of_prefix(head, items.skip(n), n);
    assert(head + items.skip(n) =~= items);
    lemma_total_monotonic(items, n, items.len() as int);
    assert forall|i: int|
        sums[n] > u64::MAX && 0 <= i < items.len() && total_of_first(items, i)
            <= u64::MAX implies (#[trigger] items[i]) is Some by {
        if i < n {
            assert(items[i] == Some(amounts[i]));
        } else {
            lemma_total_monotonic(items, n, i);
        }
    }
}

} // verus!
