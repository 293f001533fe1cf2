use vstd::prelude::*;

verus! {

/// Number of fixed-point units in one whole unit of currency: a `Number`
/// counts ten-thousandths.
pub const UNITS_PER_WHOLE: i64 = 10000;

/// Whether an amount of `v` ten-thousandths can be held by a `Number`.
pub open spec fn representable(v: int) -> bool {
    i64::MIN <= v <= i64::MAX
}

/// How many ten-thousandths one unit of the last digit is worth, for a
/// decimal written with `scale` fractional digits (`scale <= 4`).
pub open spec fn units_per_digit(scale: u32) -> int {
    if scale == 0 {
        10000
    } else if scale == 1 {
        1000
    } else if scale == 2 {
        100
    } else if scale == 3 {
        10
    } else {
        1
    }
}

/// A monetary amount with exactly four fractional digits, stored as a
/// whole number of ten-thousandths.
#[derive(Clone, Copy, Debug, PartialEq, Eq, Structural)]
pub struct Number {
    pub units: i64,
}

impl View for Number {
    type V = int;

    open spec fn view(&self) -> int {
        self.units as int
    }
}

impl Number {
    /// The number worth `v` ten-thousandths (meaningful when `representable(v)`).
    pub open spec fn of(v: int) -> Number {
        Number { units: v as i64 }
    }

    /// Addition that reports an unrepresentable sum as `None`.
    pub open spec fn spec_checked_add(self, other: Number) -> Option<Number> {
        if representable(self@ + other@) {
            Some(Number::of(self@ + other@))
        } else {
            None
        }
    }

    /// Subtraction that reports an unrepresentable difference as `None`.
    pub open spec fn spec_checked_sub(self, other: Number) -> Option<Number> {
        if representable(self@ - other@) {
            Some(Number::of(self@ - other@))
        } else {
            None
        }
    }

    pub fn zero() -> (r: Number)
        ensures
            r@ == 0,
    {
        Number { units: 0 }
    }

    pub fn one() -> (r: Number)
        ensures
            r@ == UNITS_PER_WHOLE,
    {
        Number { units: UNITS_PER_WHOLE }
    }

    /// The number `mantissa / 10^scale`, where it has at most four fractional
    /// digits and fits.
    pub fn with_scale(mantissa: i128, scale: u32) -> (r: Option<Number>)
        ensures
            r == (if scale <= 4 && representable(mantissa * units_per_digit(scale)) {
                Some(Number::of(mantissa * units_per_digit(scale)))
            } else {
                None
            }),
    {
        if scale > 4 {
            return None;
        }
        let factor: i128 = if scale == 0 {
            10000
        } else if scale == 1 {
            1000
        } else if scale == 2 {
            100
        } else if scale == 3 {
            10
        } else {
            1
        };
        if mantissa < i64::MIN as i128 || mantissa > i64::MAX as i128 {
            assert(!representable(mantissa * units_per_digit(scale))) by (nonlinear_arith)
                requires
                    mantissa < i64::MIN || mantissa > i64::MAX,
                    1 <= units_per_digit(scale) <= 10000,
            ;
            return None;
        }
        assert(i64::MIN * 10000 <= mantissa * factor <= i64::MAX * 10000) by (nonlinear_arith)
            requires
                i64::MIN <= mantissa <= i64::MAX,
                1 <= factor <= 10000,
        ;
        let units = mantissa * factor;
        if units < i64::MIN as i128 || units > i64::MAX as i128 {
            None
        } else {
            Some(Number { units: units as i64 })
        }
    }

    pub fn checked_add(self, other: Number) -> (r: Option<Number>)
        ensures
            r == self.spec_checked_add(other),
    {
        match self.units.checked_add(other.units) {
            Some(units) => Some(Number { units }),
            None => None,
        }
    }

    pub fn checked_sub(self, other: Number) -> (r: Option<Number>)
        ensures
            r == self.spec_checked_sub(other),
    {
        match self.units.checked_sub(other.units) {
            Some(units) => Some(Number { units }),
            None => None,
        }
    }
}

/// Identifies one client; each client has one account.
#[derive(Clone, Copy, Debug, PartialEq, Eq, Structural, Hash, PartialOrd, Ord, Default)]
pub struct ClientId(pub u16);

/// Why an account refused an operation. `Overflow` and `Underflow` carry the
/// balances before the operation and the amount it was asked to apply.
#[derive(Clone, Copy, Debug, PartialEq, Eq, Structural)]
pub enum AccountError {
    Overflow { available: Number, held: Number, transaction_amount: Number },
    Underflow { available: Number, held: Number, transaction_amount: Number },
    FrozenAccount(Account),
}

pub type AccountResult = Result<(), AccountError>;

/// One client's balances. `available` may be spent, `held` is frozen by open
/// disputes, and `locked` is set for good by a chargeback.
#[derive(Clone, Copy, Debug, PartialEq, Eq, Structural)]
pub struct Account {
    pub available: Number,
    pub held: Number,
    pub locked: bool,
}

/// The `Overflow` error for applying `amount` to `a`.
pub open spec fn overflow_of(a: Account, amount: Number) -> AccountError {
    AccountError::Overflow { available: a.available, held: a.held, transaction_amount: amount }
}

/// The `Underflow` error for applying `amount` to `a`.
pub open spec fn underflow_of(a: Account, amount: Number) -> AccountError {
    AccountError::Underflow { available: a.available, held: a.held, transaction_amount: amount }
}

/// The account with the given balances, in ten-thousandths, and lock flag.
pub open spec fn with_balances(available: int, held: int, locked: bool) -> Account {
    Account { available: Number::of(available), held: Number::of(held), locked }
}

/// What an account operation does: on success the account it leaves, and on
/// failure the error, the account staying as it was.
pub open spec fn performs(
    before: Account,
    model: Result<Account, AccountError>,
    r: AccountResult,
    after: Account,
) -> bool {
    match model {
        Ok(next) => r is Ok && after == next,
        Err(e) => r == Err::<(), AccountError>(e) && after == before,
    }
}

impl Account {
    /// The account of a client seen for the first time.
    pub open spec fn empty() -> Account {
        with_balances(0, 0, false)
    }

    pub open spec fn deposit_model(self, amount: Number) -> Result<Account, AccountError> {
        if representable(self.available@ + amount@) {
            Ok(with_balances(self.available@ + amount@, self.held@, self.locked))
        } else {
            Err(overflow_of(self, amount))
        }
    }

    pub open spec fn withdraw_model(self, amount: Number) -> Result<Account, AccountError> {
        if self.locked {
            Err(AccountError::FrozenAccount(self))
        } else if self.available@ < amount@ {
            Err(underflow_of(self, amount))
        } else if !representable(self.available@ - amount@) {
            Err(overflow_of(self, amount))
        } else {
            Ok(with_balances(self.available@ - amount@, self.held@, self.locked))
        }
    }

    pub open spec fn dispute_model(self, amount: Number) -> Result<Account, AccountError> {
        if !representable(self.available@ - amount@) {
            Err(underflow_of(self, amount))
        } else if !representable(self.held@ + amount@) {
            Err(overflow_of(self, amount))
        } else {
            Ok(with_balances(self.available@ - amount@, self.held@ + amount@, self.locked))
        }
    }

    pub open spec fn resolve_model(self, amount: Number) -> Result<Account, AccountError> {
        if !representable(self.available@ + amount@) {
            Err(overflow_of(self, amount))
        } else if !representable(self.held@ - amount@) {
            Err(underflow_of(self, amount))
        } else {
            Ok(with_balances(self.available@ + amount@, self.held@ - amount@, self.locked))
        }
    }

    pub open spec fn chargeback_model(self, amount: Number) -> Result<Account, AccountError> {
        if !representable(self.held@ - amount@) {
            Err(underflow_of(self, amount))
        } else {
            Ok(with_balances(self.available@, self.held@ - amount@, true))
        }
    }

    pub fn new() -> (r: Account)
        ensures
            r == Account::empty(),
    {
        Account { available: Number::zero(), held: Number::zero(), locked: false }
    }

    /// `available + held`, where that sum fits.
    pub fn total(&self) -> (r: Number)
        requires
            representable(self.available@ + self.held@),
        ensures
            r@ == self.available@ + self.held@,
    {
        Number { units: self.available.units + self.held.units }
    }

    pub fn available(&self) -> (r: Number)
        ensures
            r == self.available,
    {
        self.available
    }

    pub fn held(&self) -> (r: Number)
        ensures
            r == self.held,
    {
        self.held
    }

    pub fn locked(&self) -> (r: bool)
        ensures
            r == self.locked,
    {
        self.locked
    }

    /// Fails with `FrozenAccount` on a locked account.
    pub fn check_locked(&mut self) -> (r: AccountResult)
        ensures
            *final(self) == *old(self),
            r == (if old(self).locked {
                Err(AccountError::FrozenAccount(*old(self)))
            } else {
                Ok(())
            }),
    {
        if self.locked {
            Err(AccountError::FrozenAccount(*self))
        } else {
            Ok(())
        }
    }

    /// Adds `amount` to `available`; allowed on a locked account too.
    pub fn deposit(&mut self, amount: Number) -> (r: AccountResult)
        ensures
            performs(*old(self), old(self).deposit_model(amount), r, *final(self)),
    {
        match self.available.checked_add(amount) {
            Some(available) => {
                self.available = available;
                Ok(())
            },
            None => Err(
                AccountError::Overflow {
                    available: self.available,
                    held: self.held,
                    transaction_amount: amount,
                },
            ),
        }
    }

    /// Takes `amount` out of `available`, which may not go below it.
    pub fn withdraw(&mut self, amount: Number) -> (r: AccountResult)
        ensures
            performs(*old(self), old(self).withdraw_model(amount), r, *final(self)),
    {
        self.check_locked()?;
        if self.available.units < amount.units {
            return Err(
                AccountError::Underflow {
                    available: self.available,
                    held: self.held,
                    transaction_amount: amount,
                },
            );
        }
        match self.available.checked_sub(amount) {
            Some(available) => {
                self.available = available;
                Ok(())
            },
            None => Err(
                AccountError::Overflow {
                    available: self.available,
                    held: self.held,
                    transaction_amount: amount,
                },
            ),
        }
    }

    /// Moves `amount` from `available` to `held`; `available` may go
    /// negative. Both sums are checked before either changes.
    pub fn dispute(&mut self, amount: Number) -> (r: AccountResult)
        ensures
            performs(*old(self), old(self).dispute_model(amount), r, *final(self)),
    {
        let available = match self.available.checked_sub(amount) {
            Some(n) => n,
            None => {
                return Err(
                    AccountError::Underflow {
                        available: self.available,
                        held: self.held,
                        transaction_amount: amount,
                    },
                );
            },
        };
        let held = match self.held.checked_add(amount) {
            Some(n) => n,
            None => {
                return Err(
                    AccountError::Overflow {
                        available: self.available,
                        held: self.held,
                        transaction_amount: amount,
                    },
                );
            },
        };
        self.available = available;
        self.held = held;
        Ok(())
    }

    /// Moves `amount` from `held` back to `available`, all or nothing.
    pub fn resolve(&mut self, amount: Number) -> (r: AccountResult)
        ensures
            performs(*old(self), old(self).resolve_model(amount), r, *final(self)),
    {
        let available = match self.available.checked_add(amount) {
            Some(n) => n,
            None => {
                return Err(
                    AccountError::Overflow {
                        available: self.available,
                        held: self.held,
                        transaction_amount: amount,
                    },
                );
            },
        };
        let held = match self.held.checked_sub(amount) {
            Some(n) => n,
            None => {
                return Err(
                    AccountError::Underflow {
                        available: self.available,
                        held: self.held,
                        transaction_amount: amount,
                    },
                );
            },
        };
        self.available = available;
        self.held = held;
        Ok(())
    }

    /// Takes `amount` out of `held` and locks the account. A held balance
    /// that would leave the representable range is reported as `Underflow`.
    pub fn chargeback(&mut self, amount: Number) -> (r: AccountResult)
        ensures
            performs(*old(self), old(self).chargeback_model(amount), r, *final(self)),
    {
        match self.held.checked_sub(amount) {
            Some(held) => {
                self.held = held;
                self.locked = true;
                Ok(())
            },
            None => Err(
                AccountError::Underflow {
                    available: self.available,
                    held: self.held,
                    transaction_amount: amount,
                },
            ),
        }
    }
}

impl Default for Account {
    fn default() -> (r: Account)
        ensures
            r == Account::empty(),
    {
        Account::new()
    }
}

} // verus!
