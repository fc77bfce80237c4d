//! A client's balance: the available and the held lane, and their total.

use crate::transaction::Amount;
use vstd::prelude::*;

verus! {

/// Why a balance operation was refused.
#[derive(Clone, Copy, Debug, PartialEq, Eq, Structural)]
pub enum UpdateError {
    /// A negative amount was provided.
    NegativeValue,
    /// The account has insufficient funds.
    InsufficientFunds,
    /// The result would not fit the balance's range.
    Overflow,
}

/// The two stored lanes of a balance, as mathematical integers.
pub struct Lanes {
    pub available: int,
    pub held: int,
}

impl Lanes {
    /// The total value of the available and the held funds.
    pub open spec fn total(self) -> int {
        self.available + self.held
    }

    /// Held funds are never negative, and every lane and the total fit an [`Amount`].
    pub open spec fn valid(self) -> bool {
        &&& 0 <= self.held <= i64::MAX
        &&& i64::MIN <= self.available <= i64::MAX
        &&& i64::MIN <= self.total() <= i64::MAX
    }

    /// What a deposit of `amount` does to these lanes.
    pub open spec fn deposit(self, amount: int) -> Result<Lanes, UpdateError> {
        if amount < 0 {
            Err(UpdateError::NegativeValue)
        } else if self.total() + amount > i64::MAX {
            Err(UpdateError::Overflow)
        } else {
            Ok(Lanes { available: self.available + amount, held: self.held })
        }
    }

    /// What a withdrawal of `amount` does to these lanes.
    pub open spec fn withdraw(self, amount: int) -> Result<Lanes, UpdateError> {
        if amount < 0 {
            Err(UpdateError::NegativeValue)
        } else if self.available - amount < 0 {
            Err(UpdateError::InsufficientFunds)
        } else {
            Ok(Lanes { available: self.available - amount, held: self.held })
        }
    }

    /// What holding `amount` does to these lanes.
    pub open spec fn hold(self, amount: int) -> Result<Lanes, UpdateError> {
        if amount < 0 {
            Err(UpdateError::NegativeValue)
        } else if self.available - amount < i64::MIN || self.held + amount > i64::MAX {
            Err(UpdateError::Overflow)
        } else {
            Ok(Lanes { available: self.available - amount, held: self.held + amount })
        }
    }

    /// These lanes after `amount` has moved from held back to available.
    pub open spec fn release(self, amount: int) -> Lanes {
        Lanes { available: self.available + amount, held: self.held - amount }
    }

    /// These lanes after `amount` has been taken out of the held funds.
    pub open spec fn charge(self, amount: int) -> Lanes {
        Lanes { available: self.available, held: self.held - amount }
    }
}

/// An account associated with a client's state.
///
/// The lanes are private so that they change only through the operations below,
/// each of which keeps them valid.
#[derive(Debug, PartialEq, Eq)]
pub struct Account {
    available: Amount,
    held: Amount,
}

impl View for Account {
    type V = Lanes;

    closed spec fn view(&self) -> Lanes {
        Lanes { available: self.available as int, held: self.held as int }
    }
}

impl Default for Account {
    fn default() -> (r: Self)
        ensures
            r@ == (Lanes { available: 0, held: 0 }),
            r.wf(),
    {
        Account { available: 0, held: 0 }
    }
}

impl Account {
    /// The account's lanes are valid. This holds of every account.
    #[verifier::type_invariant]
    pub open spec fn wf(&self) -> bool {
        self@.valid()
    }

    /// The account whose lanes are `lanes`.
    pub closed spec fn of_lanes(lanes: Lanes) -> Account {
        Account { available: lanes.available as i64, held: lanes.held as i64 }
    }

    /// The account made of valid lanes has those lanes.
    pub proof fn of_lanes_view(lanes: Lanes)
        requires
            lanes.valid(),
        ensures
            Self::of_lanes(lanes)@ == lanes,
    {
    }

    /// An account is the account made of its lanes.
    pub proof fn of_lanes_is_whole(a: Account)
        ensures
            Self::of_lanes(a@) == a,
    {
    }

    /// An account with the given lanes, or nothing where they are not valid.
    pub fn from_lanes(available: Amount, held: Amount) -> (r: Option<Account>)
        ensures
            match r {
                Some(a) => a.wf() && a@ == (Lanes { available: available as int, held: held as int }),
                None => !(Lanes { available: available as int, held: held as int }).valid(),
            },
    {
        if held < 0 {
            return None;
        }
        match available.checked_add(held) {
            Some(_) => Some(Account { available, held }),
            None => None,
        }
    }

    /// Returns the available funds in this account.
    pub fn get_available(&self) -> (r: Amount)
        ensures
            r == self@.available,
    {
        self.available
    }

    /// Returns any held funds in this account.
    pub fn get_frozen(&self) -> (r: Amount)
        ensures
            r == self@.held,
    {
        self.held
    }

    /// Returns the total value of the available and held funds.
    pub fn get_total(&self) -> (r: Amount)
        ensures
            r == self@.total(),
    {
        proof {
            use_type_invariant(self);
        }
        self.available + self.held
    }

    /// Attempts to deposit `amount` in this account. A negative amount is refused,
    /// and so is one that would take the total out of range.
    pub fn deposit(&mut self, amount: Amount) -> (r: Result<(), UpdateError>)
        ensures
            final(self).wf(),
            match old(self)@.deposit(amount as int) {
                Ok(lanes) => r is Ok && final(self)@ == lanes,
                Err(e) => r == Err::<(), UpdateError>(e) && final(self)@ == old(self)@,
            },
    {
        proof {
            use_type_invariant(&*self);
        }
        if amount < 0 {
            Err(UpdateError::NegativeValue)
        } else if (self.available + self.held).checked_add(amount).is_none() {
            Err(UpdateError::Overflow)
        } else {
            self.available = self.available + amount;
            Ok(())
        }
    }

    /// Attempts to withdraw `amount` from this account. A negative amount is refused,
    /// and so is one that exceeds the available funds.
    pub fn withdraw(&mut self, amount: Amount) -> (r: Result<(), UpdateError>)
        ensures
            final(self).wf(),
            match old(self)@.withdraw(amount as int) {
                Ok(lanes) => r is Ok && final(self)@ == lanes,
                Err(e) => r == Err::<(), UpdateError>(e) && final(self)@ == old(self)@,
            },
    {
        proof {
            use_type_invariant(&*self);
        }
        if amount < 0 {
            Err(UpdateError::NegativeValue)
        } else if self.available < amount {
            Err(UpdateError::InsufficientFunds)
        } else {
            self.available = self.available - amount;
            Ok(())
        }
    }

    /// Says whether `amount` can be held, and why not where it cannot, without
    /// touching the account.
    pub fn can_hold(&self, amount: Amount) -> (r: Result<(), UpdateError>)
        ensures
            match self@.hold(amount as int) {
                Ok(_) => r is Ok,
                Err(e) => r == Err::<(), UpdateError>(e),
            },
    {
        if amount < 0 {
            return Err(UpdateError::NegativeValue);
        }
        match (self.available.checked_sub(amount), self.held.checked_add(amount)) {
            (Some(_), Some(_)) => Ok(()),
            _ => Err(UpdateError::Overflow),
        }
    }

    /// Attempts to move `amount` from the available funds to the held funds. A
    /// negative amount is refused. The available funds may become negative.
    pub fn hold(&mut self, amount: Amount) -> (r: Result<(), UpdateError>)
        ensures
            final(self).wf(),
            match old(self)@.hold(amount as int) {
                Ok(lanes) => r is Ok && final(self)@ == lanes,
                Err(e) => r == Err::<(), UpdateError>(e) && final(self)@ == old(self)@,
            },
    {
        proof {
            use_type_invariant(&*self);
        }
        if amount < 0 {
            return Err(UpdateError::NegativeValue);
        }
        match (self.available.checked_sub(amount), self.held.checked_add(amount)) {
            (Some(available), Some(held)) => {
                *self = Account { available, held };
                Ok(())
            },
            _ => Err(UpdateError::Overflow),
        }
    }

    /// Moves `amount` from the held funds back to the available funds.
    pub fn release(&mut self, amount: Amount)
        requires
            0 <= amount <= old(self)@.held,
        ensures
            final(self).wf(),
            final(self)@ == old(self)@.release(amount as int),
    {
        proof {
            use_type_invariant(&*self);
        }
        *self = Account { available: self.available + amount, held: self.held - amount };
    }

    /// Removes `amount` from the held funds.
    pub fn charge(&mut self, amount: Amount)
        requires
            0 <= amount <= old(self)@.held,
        ensures
            final(self).wf(),
            final(self)@ == old(self)@.charge(amount as int),
    {
        proof {
            use_type_invariant(&*self);
        }
        self.held = self.held - amount;
    }
}

} // verus!
