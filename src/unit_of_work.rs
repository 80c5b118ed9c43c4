use vstd::prelude::*;

verus! {

/// The execution context handed to every store write of one operation. It
/// models the backing connection: once its write allowance is spent, writes
/// fail as an unavailable store would.
pub struct UnitOfWork {
    /// How many more writes the connection accepts; `None` means no limit.
    pub write_allowance: Option<u64>,
}

impl UnitOfWork {
    /// A connection that accepts every write.
    pub fn reliable() -> (r: UnitOfWork)
        ensures
            r.write_allowance is None,
    {
        UnitOfWork { write_allowance: None }
    }

    /// A connection that accepts `n` writes and then fails.
    pub fn failing_after(n: u64) -> (r: UnitOfWork)
        ensures
            r.write_allowance == Some(n),
    {
        UnitOfWork { write_allowance: Some(n) }
    }

    pub open spec fn can_write(&self) -> bool {
        match self.write_allowance {
            None => true,
            Some(n) => n > 0,
        }
    }

    /// Whether the connection accepts `n` more writes.
    pub open spec fn allows(&self, n: nat) -> bool {
        match self.write_allowance {
            None => true,
            Some(k) => k >= n,
        }
    }

    pub open spec fn after_write(&self) -> UnitOfWork {
        match self.write_allowance {
            None => UnitOfWork { write_allowance: None },
            Some(n) => UnitOfWork { write_allowance: Some((n - 1) as u64) },
        }
    }

    /// Claims one write; returns whether the connection accepted it.
    pub fn claim_write(&mut self) -> (r: bool)
        ensures
            r == old(self).can_write(),
            r ==> *final(self) == old(self).after_write(),
            !r ==> *final(self) == *old(self),
    {
        match self.write_allowance {
            None => true,
            Some(n) => {
                if n == 0 {
                    false
                } else {
                    self.write_allowance = Some(n - 1);
                    true
                }
            },
        }
    }
}

} // verus!
