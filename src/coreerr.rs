//! The error a client session ends with.
use vstd::prelude::*;
use vstd::string::*;
use crate::text::{decimal, decimal_spec};

verus! {

#[derive(Debug, Clone)]
pub struct CoreErr {
    pub errmsg: String,
    pub errno: u8,
}

impl CoreErr {
    /// The error as text: `CoreErr: Errno: <errno> | Errmsg: <errmsg>`.
    pub fn describe(&self) -> (r: String)
        ensures
            r@ == "CoreErr: Errno: "@ + decimal_spec(self.errno as nat) + " | Errmsg: "@
                + self.errmsg@,
    {
        let mut r = String::from_str("CoreErr: Errno: ");
        r.append(decimal(self.errno as u64).as_str());
        r.append(" | Errmsg: ");
        r.append(self.errmsg.as_str());
        r
    }
}

} // verus!
