//! Faults that are reported to people.
use vstd::prelude::*;

use crate::text;

verus! {

/// What could not be done, and why, where that is known.
#[derive(Debug)]
pub struct Fault {
    pub context: String,
    pub cause: Option<String>,
}

/// What could not be done, and why.
#[verifier::ext_equal]
pub ghost struct FaultData {
    pub context: Seq<char>,
    pub cause: Option<Seq<char>>,
}

impl View for Fault {
    type V = FaultData;

    open spec fn view(&self) -> FaultData {
        FaultData {
            context: self.context@,
            cause: match self.cause {
                Some(cause) => Some(cause@),
                None => None,
            },
        }
    }
}

impl FaultData {
    /// A fault of which no cause is known.
    pub open spec fn plain(context: Seq<char>) -> FaultData {
        FaultData { context, cause: None }
    }

    /// A fault with its cause.
    pub open spec fn caused(context: Seq<char>, cause: Seq<char>) -> FaultData {
        FaultData { context, cause: Some(cause) }
    }

    /// The fault in one line: what could not be done, then why.
    pub open spec fn text(self) -> Seq<char> {
        match self.cause {
            Some(cause) => self.context + ": "@ + cause,
            None => self.context,
        }
    }
}

impl Fault {
    pub fn plain(context: String) -> (r: Self)
        ensures
            r@ == FaultData::plain(context@),
    {
        Fault { context, cause: None }
    }

    pub fn caused(context: String, cause: &str) -> (r: Self)
        ensures
            r@ == FaultData::caused(context@, cause@),
    {
        Fault { context, cause: Some(text::owned(cause)) }
    }

    pub fn to_text(&self) -> (r: String)
        ensures
            r@ == self@.text(),
    {
        let mut r = text::owned(self.context.as_str());
        if let Some(cause) = &self.cause {
            text::push_text(&mut r, ": ");
            text::push_text(&mut r, cause.as_str());
        }
        r
    }
}

/// A fault is told by its context, and by its cause behind a colon where it has one.
pub proof fn law_fault_text(context: Seq<char>, cause: Seq<char>)
    ensures
        FaultData::plain(context).text() == context,
        FaultData::caused(context, cause).text() == context + ": "@ + cause,
{
}

} // verus!
