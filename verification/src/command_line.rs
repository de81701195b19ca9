//! Command lines.
use vstd::prelude::*;

use crate::fault::{Fault, FaultData};

verus! {

/// What came of reading a command line.
#[derive(Debug)]
pub enum Parsed<T> {
    Run(T),
    /// The options are to be explained.
    Help,
    /// The command line says something that cannot be done.
    Failed(Fault),
}

/// What came of reading a command line.
pub ghost enum ParsedData<T> {
    Run(T),
    Help,
    Failed(FaultData),
}

impl<T: View> View for Parsed<T> {
    type V = ParsedData<T::V>;

    open spec fn view(&self) -> ParsedData<T::V> {
        match self {
            Parsed::Run(cfg) => ParsedData::Run(cfg@),
            Parsed::Help => ParsedData::Help,
            Parsed::Failed(fault) => ParsedData::Failed(fault@),
        }
    }
}

/// What the words of a command line are.
pub open spec fn words(args: Seq<String>) -> Seq<Seq<char>> {
    args.map_values(|arg: String| arg@)
}

} // verus!
