use vstd::prelude::*;

verus! {

/// The kinds of failure that the library reports.
#[derive(Clone, Copy, Debug, PartialEq, Eq, Structural)]
pub enum ErrorKind {
    /// A plain text outside of the range that can be encrypted.
    PlainTextRangeError,
    /// No small value matches the cipher text.
    CipherTextDecryptionError,
    /// A generic proof or transcript failure.
    VerificationError,
    /// The numbered equation of the correctness proof does not hold.
    CorrectnessFinalResponseVerificationError { check: u16 },
    /// The numbered equation of the wellformedness proof does not hold.
    WellformednessFinalResponseVerificationError { check: u16 },
    /// The numbered equation of the cipher text refreshment proof does not hold.
    CiphertextRefreshmentFinalResponseVerificationError { check: u16 },
    /// The numbered equation of the encrypting-the-same-value proof does not hold.
    EncryptingSameValueFinalResponseVerificationError { check: u16 },
    /// The numbered check of the membership proof does not hold.
    MembershipProofVerificationError { check: u16 },
    /// The committed element is not a member of the public set.
    MembershipProofInvalidAssetError,
    /// The public set of elements is empty.
    EmptyElementsSet,
    /// The exponent of a membership proof does not fit.
    InvalidExponentParameter,
    /// The range proof library failed.
    ProvingError,
    /// The operation is not available.
    NotImplemented,
    /// An asset issuance step was called in the wrong state.
    InvalidPreviousAssetTransactionState { state: crate::mercat::AssetTxState },
    /// A transfer step was called in the wrong state.
    InvalidPreviousState { state: crate::mercat::ConfidentialTxState },
    /// The receiver decrypted another amount than it expected.
    TransactionAmountMismatch { expected_amount: u32, received_amount: u32 },
    /// The public keys in the memo and the account differ.
    InputPubKeyMismatch,
    /// The sender's balance does not cover the amount.
    NotEnoughFund { balance: u32, transaction_amount: u32 },
    /// The account does not match the account of the transaction.
    AccountIdMismatch,
    /// A signature does not verify.
    SignatureValidationFailure,
    /// The CDD identifier of a claim proof does not match.
    CDDIdMismatchError,
    /// A claim sub-proof does not verify.
    ZKPVerificationError { kind: ZkpKind },
    /// The re-committed identifier is not in the verifier's set.
    MembershipProofError,
}

/// The sub-proofs of a claim proof.
#[derive(Clone, Copy, Debug, PartialEq, Eq, Structural)]
pub enum ZkpKind {
    /// Knowledge of the first half, over the CDD identifier.
    CddId,
    /// Knowledge of the second half.
    CddIdSecondHalf,
    /// Knowledge of the unique identifier in the difference of the halves.
    Uid,
}

/// An error of the library: a wrapper around its kind.
#[derive(Clone, Copy, Debug)]
pub struct Error {
    pub inner: ErrorKind,
}

impl Error {
    /// The kind of this error.
    pub fn kind(&self) -> (r: &ErrorKind)
        ensures
            *r == self.inner,
    {
        &self.inner
    }
}

impl From<ErrorKind> for Error {
    fn from(kind: ErrorKind) -> (r: Error) {
        Error { inner: kind }
    }
}

impl vstd::std_specs::convert::FromSpecImpl<ErrorKind> for Error {
    open spec fn obeys_from_spec() -> bool {
        true
    }

    open spec fn from_spec(kind: ErrorKind) -> Error {
        Error { inner: kind }
    }
}

/// The result of a fallible operation of the library.
pub type Fallible<T> = Result<T, Error>;

/// The error of the given kind.
pub fn err_of(kind: ErrorKind) -> (r: Error)
    ensures
        r.inner == kind,
{
    Error { inner: kind }
}

} // verus!
