use vstd::prelude::*;

verus! {

/// The cost of one contract operation as measured by the ledger's metering.
#[derive(Debug)]
pub struct GasBenchmark {
    pub operation: String,
    pub gas_consumed: u64,
    pub storage_cost: u64,
    pub cpu_cost: u64,
}

impl GasBenchmark {
    /// A measurement of `operation`.
    pub fn new(operation: &str, gas_consumed: u64, storage_cost: u64, cpu_cost: u64) -> (b:
        GasBenchmark)
        ensures
            b.operation@ == operation@,
            b.gas_consumed == gas_consumed,
            b.storage_cost == storage_cost,
            b.cpu_cost == cpu_cost,
    {
        GasBenchmark { operation: operation.to_owned(), gas_consumed, storage_cost, cpu_cost }
    }
}

} // verus!
