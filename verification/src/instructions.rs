//! The operations on the registry: creating it, proposing a program, and
//! judging a pending one.
//!
//! Each operation takes the accounts it works on and either carries out its
//! whole effect or fails and leaves them as they were.

use vstd::prelude::*;
use crate::error::ErrorCode;
use crate::hooks::{
    contains, lemma_first_occurrence, position, HooksAccount, Registry, MAX_ITEMS,
};
use crate::laws::{lemma_approve_keeps_wf, lemma_register_keeps_wf, lemma_reject_keeps_wf};
use crate::pubkey::Pubkey;

verus! {

/// The accounts for creating the registry.
#[derive(Clone, Debug, PartialEq, Eq)]
pub struct InitializeHookProgramsCtx {
    /// Who asks for the registry to be created.
    pub admin: Pubkey,
    /// The freshly allocated record; what it holds before is of no account.
    pub hook_accounts: HooksAccount,
}

/// The accounts for proposing a program.
#[derive(Clone, Debug, PartialEq, Eq)]
pub struct RegisterHookProgramCtx {
    pub hook_accounts: HooksAccount,
}

/// The accounts for approving a pending program.
#[derive(Clone, Debug, PartialEq, Eq)]
pub struct ApproveHookProgramCtx {
    pub hook_accounts: HooksAccount,
    /// Who signed; must be the registry's authority.
    pub authority: Pubkey,
}

/// The accounts for rejecting a pending program.
#[derive(Clone, Debug, PartialEq, Eq)]
pub struct RejectHookProgramCtx {
    pub hook_accounts: HooksAccount,
    /// Who signed; must be the registry's authority.
    pub authority: Pubkey,
}

/// Creates the registry with `ctx.admin` as its authority and three empty
/// buckets, provided that `ctx.admin` is the configured administrator
/// `admin_id`. Otherwise fails with `UnauthorizedAdmin`.
pub fn initialize_hook_programs(ctx: &mut InitializeHookProgramsCtx, admin_id: Pubkey) -> (result:
    Result<(), ErrorCode>)
    ensures
        final(ctx).admin == old(ctx).admin,
        old(ctx).admin == admin_id ==> result == Ok::<(), ErrorCode>(())
            && final(ctx).hook_accounts@ == Registry::init(admin_id)
            && final(ctx).hook_accounts@.wf(),
        old(ctx).admin != admin_id ==> result == Err::<(), ErrorCode>(
            ErrorCode::UnauthorizedAdmin,
        ) && *final(ctx) == *old(ctx),
{
    if ctx.admin != admin_id {
        return Err(ErrorCode::UnauthorizedAdmin);
    }
    ctx.hook_accounts.authority = ctx.admin;
    ctx.hook_accounts.safe_hook_programs = Vec::new();
    ctx.hook_accounts.unsafe_hook_programs = Vec::new();
    ctx.hook_accounts.pending_hook_programs = Vec::new();
    Ok(())
}

/// Proposes `program_id`: appends it to the pending bucket. Fails with
/// `HookAlreadyExists` if any bucket holds it already, and otherwise with
/// `TooManyHooks` if the pending bucket is full.
pub fn register_hook_program(ctx: &mut RegisterHookProgramCtx, program_id: Pubkey) -> (result:
    Result<(), ErrorCode>)
    ensures
        match result {
            Ok(()) => old(ctx).hook_accounts@.register(program_id) == Ok::<Registry, ErrorCode>(
                final(ctx).hook_accounts@,
            ),
            Err(e) => old(ctx).hook_accounts@.register(program_id) == Err::<Registry, ErrorCode>(e)
                && *final(ctx) == *old(ctx),
        },
        old(ctx).hook_accounts@.wf() ==> final(ctx).hook_accounts@.wf(),
{
    let acc = &mut ctx.hook_accounts;
    if contains(&acc.safe_hook_programs, &program_id) || contains(
        &acc.unsafe_hook_programs,
        &program_id,
    ) || contains(&acc.pending_hook_programs, &program_id) {
        return Err(ErrorCode::HookAlreadyExists);
    }
    if acc.pending_hook_programs.len() >= MAX_ITEMS {
        return Err(ErrorCode::TooManyHooks);
    }
    proof {
        if acc@.wf() {
            lemma_register_keeps_wf(acc@, program_id);
        }
    }
    acc.pending_hook_programs.push(program_id);
    Ok(())
}

/// Approves `program_id`: moves it from the pending bucket to the end of the
/// safe one. Fails with `ConstraintHasOne` if `ctx.authority` is not the
/// registry's authority, otherwise with `HookNotFound` if the program is not
/// pending, otherwise with `TooManyHooks` if the safe bucket is full.
pub fn approve_hook_program(ctx: &mut ApproveHookProgramCtx, program_id: Pubkey) -> (result:
    Result<(), ErrorCode>)
    ensures
        final(ctx).authority == old(ctx).authority,
        match result {
            Ok(()) => old(ctx).hook_accounts@.approve(old(ctx).authority, program_id) == Ok::<
                Registry,
                ErrorCode,
            >(final(ctx).hook_accounts@),
            Err(e) => old(ctx).hook_accounts@.approve(old(ctx).authority, program_id) == Err::<
                Registry,
                ErrorCode,
            >(e) && *final(ctx) == *old(ctx),
        },
        old(ctx).hook_accounts@.wf() ==> final(ctx).hook_accounts@.wf(),
{
    if ctx.authority != ctx.hook_accounts.authority {
        return Err(ErrorCode::ConstraintHasOne);
    }
    let acc = &mut ctx.hook_accounts;
    match position(&acc.pending_hook_programs, &program_id) {
        Some(pos) => {
            if acc.safe_hook_programs.len() >= MAX_ITEMS {
                return Err(ErrorCode::TooManyHooks);
            }
            proof {
                lemma_first_occurrence(acc@.pending, program_id, pos as int);
                if acc@.wf() {
                    lemma_approve_keeps_wf(acc@, acc@.authority, program_id);
                }
            }
            acc.pending_hook_programs.remove(pos);
            acc.safe_hook_programs.push(program_id);
            Ok(())
        },
        None => Err(ErrorCode::HookNotFound),
    }
}

/// Rejects `program_id`: moves it from the pending bucket to the end of the
/// unsafe one. Fails with `ConstraintHasOne` if `ctx.authority` is not the
/// registry's authority, otherwise with `HookNotFound` if the program is not
/// pending, otherwise with `TooManyHooks` if the unsafe bucket is full.
pub fn reject_hook_program(ctx: &mut RejectHookProgramCtx, program_id: Pubkey) -> (result: Result<
    (),
    ErrorCode,
>)
    ensures
        final(ctx).authority == old(ctx).authority,
        match result {
            Ok(()) => old(ctx).hook_accounts@.reject(old(ctx).authority, program_id) == Ok::<
                Registry,
                ErrorCode,
            >(final(ctx).hook_accounts@),
            Err(e) => old(ctx).hook_accounts@.reject(old(ctx).authority, program_id) == Err::<
                Registry,
                ErrorCode,
            >(e) && *final(ctx) == *old(ctx),
        },
        old(ctx).hook_accounts@.wf() ==> final(ctx).hook_accounts@.wf(),
{
    if ctx.authority != ctx.hook_accounts.authority {
        return Err(ErrorCode::ConstraintHasOne);
    }
    let acc = &mut ctx.hook_accounts;
    match position(&acc.pending_hook_programs, &program_id) {
        Some(pos) => {
            if acc.unsafe_hook_programs.len() >= MAX_ITEMS {
                return Err(ErrorCode::TooManyHooks);
            }
            proof {
                lemma_first_occurrence(acc@.pending, program_id, pos as int);
                if acc@.wf() {
                    lemma_reject_keeps_wf(acc@, acc@.authority, program_id);
                }
            }
            acc.pending_hook_programs.remove(pos);
            acc.unsafe_hook_programs.push(program_id);
            Ok(())
        },
        None => Err(ErrorCode::HookNotFound),
    }
}

} // verus!
