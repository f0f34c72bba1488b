//! What a request looks like to the ledger platform: who executes it, which
//! accounts it touches and with what rights, and its data.
use vstd::prelude::*;

verus! {

/// `solana_program::program_error::ProgramError`, the platform's error type.
/// The request builders name it in their results and never produce one.
#[verifier::external_type_specification]
#[verifier::external_body]
pub struct ExProgramError(solana_program::program_error::ProgramError);

/// The address of an account: 32 bytes.
#[derive(Clone, Copy, Debug, PartialEq, Eq)]
pub struct Pubkey(pub [u8; 32]);

/// An account that a request touches, and with what rights.
#[derive(Clone, Copy, Debug, PartialEq, Eq)]
pub struct AccountMeta {
    pub pubkey: Pubkey,
    /// The request must carry this account's signature.
    pub is_signer: bool,
    /// The request may change this account.
    pub is_writable: bool,
}

/// A request to a program.
#[derive(Clone, Debug, PartialEq, Eq)]
pub struct Instruction {
    /// The program that executes the request.
    pub program_id: Pubkey,
    /// The accounts, in the order in which the program expects them.
    pub accounts: Vec<AccountMeta>,
    /// The encoded request.
    pub data: Vec<u8>,
}

/// What an [`Instruction`] holds, as mathematical values.
pub struct InstructionView {
    pub program_id: Pubkey,
    pub accounts: Seq<AccountMeta>,
    pub data: Seq<u8>,
}

impl View for Instruction {
    type V = InstructionView;

    open spec fn view(&self) -> InstructionView {
        InstructionView { program_id: self.program_id, accounts: self.accounts@, data: self.data@ }
    }
}

impl Pubkey {
    /// Whether the two addresses are one.
    pub fn same(&self, other: &Pubkey) -> (r: bool)
        ensures
            r == (*self == *other),
    {
        let mut i: usize = 0;
        while i < 32
            invariant
                i <= 32,
                forall|j: int| 0 <= j < i ==> self.0@[j] == other.0@[j],
            decreases 32 - i,
        {
            if self.0[i] != other.0[i] {
                return false;
            }
            i = i + 1;
        }
        assert(self.0 =~= other.0);
        true
    }
}

/// A writable account.
pub open spec fn writable(pubkey: Pubkey, is_signer: bool) -> AccountMeta {
    AccountMeta { pubkey, is_signer, is_writable: true }
}

/// A read-only account.
pub open spec fn readonly(pubkey: Pubkey, is_signer: bool) -> AccountMeta {
    AccountMeta { pubkey, is_signer, is_writable: false }
}

/// The address of the token program.
pub open spec fn token_program_id() -> Pubkey {
    Pubkey(
        [
            6u8, 221, 246, 225, 215, 101, 161, 147, 217, 203, 225, 70, 206, 235, 121, 172, 28, 180,
            133, 237, 95, 91, 55, 145, 58, 140, 245, 133, 126, 255, 0, 169,
        ],
    )
}

/// The address of the account in which the platform publishes its rent
/// parameters.
pub open spec fn rent_sysvar_id() -> Pubkey {
    Pubkey(
        [
            6u8, 167, 213, 23, 25, 44, 92, 81, 33, 140, 201, 76, 61, 74, 241, 127, 88, 218, 238, 8,
            155, 161, 253, 68, 227, 219, 217, 138, 0, 0, 0, 0,
        ],
    )
}

/// One read-only account for each address, none of them a signer.
pub open spec fn readonly_metas(pks: Seq<Pubkey>) -> Seq<AccountMeta> {
    Seq::new(pks.len(), |i: int| readonly(pks[i], false))
}

/// One writable account for each address, none of them a signer.
pub open spec fn writable_metas(pks: Seq<Pubkey>) -> Seq<AccountMeta> {
    Seq::new(pks.len(), |i: int| writable(pks[i], false))
}

/// One account for each address, none of them a signer, and only the one at
/// `index` writable.
pub open spec fn metas_writable_at(pks: Seq<Pubkey>, index: int) -> Seq<AccountMeta> {
    Seq::new(
        pks.len(),
        |i: int|
            if i == index {
                writable(pks[i], false)
            } else {
                readonly(pks[i], false)
            },
    )
}

/// Calls `solana_program::instruction::AccountMeta::new`, which makes the
/// entry of a writable account from its address and whether it signs.
#[verifier::external_body]
pub(crate) fn account_meta_new(pubkey: Pubkey, is_signer: bool) -> (m: AccountMeta)
    ensures
        m == writable(pubkey, is_signer),
{
    let m = solana_program::instruction::AccountMeta::new(
        solana_program::pubkey::Pubkey::new_from_array(pubkey.0),
        is_signer,
    );
    AccountMeta {
        pubkey: Pubkey(m.pubkey.to_bytes()),
        is_signer: m.is_signer,
        is_writable: m.is_writable,
    }
}

/// Calls `solana_program::instruction::AccountMeta::new_readonly`, which makes
/// the entry of a read-only account from its address and whether it signs.
#[verifier::external_body]
pub(crate) fn account_meta_new_readonly(pubkey: Pubkey, is_signer: bool) -> (m: AccountMeta)
    ensures
        m == readonly(pubkey, is_signer),
{
    let m = solana_program::instruction::AccountMeta::new_readonly(
        solana_program::pubkey::Pubkey::new_from_array(pubkey.0),
        is_signer,
    );
    AccountMeta {
        pubkey: Pubkey(m.pubkey.to_bytes()),
        is_signer: m.is_signer,
        is_writable: m.is_writable,
    }
}

/// Reads `spl_token::ID`, the address that the token program declares as its
/// own: `TokenkegQfeZyiNwAJbNbGKPFXCWuBvf9Ss623VQ5DA` in base 58.
#[verifier::external_body]
pub(crate) fn spl_token_id() -> (id: Pubkey)
    ensures
        id == token_program_id(),
{
    Pubkey(spl_token::ID.to_bytes())
}

/// Reads `solana_program::sysvar::rent::ID`, the address that the platform
/// declares for its rent account: `SysvarRent111111111111111111111111111111111`
/// in base 58.
#[verifier::external_body]
pub(crate) fn sysvar_rent_id() -> (id: Pubkey)
    ensures
        id == rent_sysvar_id(),
{
    Pubkey(solana_program::sysvar::rent::ID.to_bytes())
}

/// Appends a read-only entry for each address.
pub(crate) fn extend_readonly(accounts: &mut Vec<AccountMeta>, pks: &[Pubkey])
    ensures
        final(accounts)@ == old(accounts)@ + readonly_metas(pks@),
{
    let n: usize = pks.len();
    let mut i: usize = 0;
    while i < n
        invariant
            i <= n,
            n == pks@.len(),
            accounts@ == old(accounts)@ + readonly_metas(pks@.subrange(0, i as int)),
        decreases n - i,
    {
        accounts.push(account_meta_new_readonly(pks[i], false));
        assert(accounts@ =~= old(accounts)@ + readonly_metas(pks@.subrange(0, i + 1)));
        i = i + 1;
    }
    assert(pks@.subrange(0, n as int) =~= pks@);
}

/// Appends a writable entry for each address.
pub(crate) fn extend_writable(accounts: &mut Vec<AccountMeta>, pks: &[Pubkey])
    ensures
        final(accounts)@ == old(accounts)@ + writable_metas(pks@),
{
    let n: usize = pks.len();
    let mut i: usize = 0;
    while i < n
        invariant
            i <= n,
            n == pks@.len(),
            accounts@ == old(accounts)@ + writable_metas(pks@.subrange(0, i as int)),
        decreases n - i,
    {
        accounts.push(account_meta_new(pks[i], false));
        assert(accounts@ =~= old(accounts)@ + writable_metas(pks@.subrange(0, i + 1)));
        i = i + 1;
    }
    assert(pks@.subrange(0, n as int) =~= pks@);
}

/// Appends an entry for each address, writable at `index` and read-only
/// elsewhere.
pub(crate) fn extend_writable_at(accounts: &mut Vec<AccountMeta>, pks: &[Pubkey], index: usize)
    ensures
        final(accounts)@ == old(accounts)@ + metas_writable_at(pks@, index as int),
{
    let n: usize = pks.len();
    let mut i: usize = 0;
    while i < n
        invariant
            i <= n,
            n == pks@.len(),
            accounts@ == old(accounts)@ + metas_writable_at(
                pks@.subrange(0, i as int),
                index as int,
            ),
        decreases n - i,
    {
        if i == index {
            accounts.push(account_meta_new(pks[i], false));
        } else {
            accounts.push(account_meta_new_readonly(pks[i], false));
        }
        assert(accounts@ =~= old(accounts)@ + metas_writable_at(
            pks@.subrange(0, i + 1),
            index as int,
        ));
        i = i + 1;
    }
    assert(pks@.subrange(0, n as int) =~= pks@);
}

} // verus!
