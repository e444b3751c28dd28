//! Why an instruction is refused.

use vstd::prelude::*;

verus! {

/// The conditions under which an instruction aborts. An aborted instruction
/// leaves every account as it was.
#[derive(Clone, Copy, Debug, PartialEq, Eq, Structural)]
pub enum SellError {
    /// The payload is not a tagged instruction.
    MalformedInstruction,
    /// Fewer accounts were supplied than the instruction takes.
    MissingAccount,
    /// The authorizing account did not sign.
    MissingSignature,
    /// An administrator-only action by another identity.
    UnauthorizedCaller,
    /// A supplied account is not the expected derived or fixed identity.
    AccountMismatch,
    /// The vault is already owned by the program.
    AlreadyInitialized,
    /// The price account holds no price record.
    PriceNotSet,
    /// `price * amount` does not fit in 64 bits.
    ArithmeticOverflow,
    /// No bump takes a derived address off the curve.
    DerivationFailed,
    /// A debited account holds less than the transfer moves.
    InsufficientFunds,
    /// The vault's token holdings are less than the transfer moves.
    InsufficientVaultBalance,
}

} // verus!
