//! The registry's record and its mathematical model.

use vstd::prelude::*;
use crate::error::ErrorCode;
use crate::pubkey::Pubkey;

verus! {

/// The most programs that one bucket holds.
pub const MAX_ITEMS: usize = 20;

/// The bytes that the stored record takes: an 8-byte tag, the authority, and
/// for each bucket a 4-byte count and room for [`MAX_ITEMS`] keys.
pub const LEN: usize = 8 + 32 + 4 + 32 * MAX_ITEMS + 4 + 32 * MAX_ITEMS + 4 + 32 * MAX_ITEMS;

/// The bucket that a program is in.
#[derive(Clone, Copy, Debug, PartialEq, Eq, Structural)]
pub enum HookStatus {
    /// In none of the buckets.
    Unknown,
    /// Proposed, and not yet judged.
    Pending,
    /// Approved by the authority.
    Safe,
    /// Rejected by the authority.
    Unsafe,
}

/// The registry as a mathematical value: the authority and the three buckets,
/// each in insertion order.
pub struct Registry {
    pub authority: Pubkey,
    pub safe: Seq<Pubkey>,
    pub unsafe_: Seq<Pubkey>,
    pub pending: Seq<Pubkey>,
}

impl Registry {
    /// The registry right after its creation by `admin`.
    pub open spec fn init(admin: Pubkey) -> Registry {
        Registry { authority: admin, safe: seq![], unsafe_: seq![], pending: seq![] }
    }

    /// The program is in at least one bucket.
    pub open spec fn knows(self, program_id: Pubkey) -> bool {
        self.safe.contains(program_id) || self.unsafe_.contains(program_id)
            || self.pending.contains(program_id)
    }

    /// The bucket that holds the program. In a well-formed registry at most one
    /// does; otherwise the safe bucket is looked at first and the pending one
    /// last.
    pub open spec fn status(self, program_id: Pubkey) -> HookStatus {
        if self.safe.contains(program_id) {
            HookStatus::Safe
        } else if self.unsafe_.contains(program_id) {
            HookStatus::Unsafe
        } else if self.pending.contains(program_id) {
            HookStatus::Pending
        } else {
            HookStatus::Unknown
        }
    }

    /// No bucket holds more than [`MAX_ITEMS`] programs.
    pub open spec fn within_capacity(self) -> bool {
        &&& self.safe.len() <= MAX_ITEMS
        &&& self.unsafe_.len() <= MAX_ITEMS
        &&& self.pending.len() <= MAX_ITEMS
    }

    /// No program occurs twice, neither within a bucket nor across buckets.
    pub open spec fn disjoint(self) -> bool {
        &&& self.safe.no_duplicates()
        &&& self.unsafe_.no_duplicates()
        &&& self.pending.no_duplicates()
        &&& self.safe.disjoint(self.unsafe_)
        &&& self.safe.disjoint(self.pending)
        &&& self.unsafe_.disjoint(self.pending)
    }

    /// The invariant of the registry.
    pub open spec fn wf(self) -> bool {
        self.within_capacity() && self.disjoint()
    }

    /// Proposing `program_id`: the registry afterwards, or why the proposal is
    /// rejected. A program that some bucket holds cannot be proposed again,
    /// and a full pending bucket takes no more. Anyone may propose.
    pub open spec fn register(self, program_id: Pubkey) -> Result<Registry, ErrorCode> {
        if self.knows(program_id) {
            Err(ErrorCode::HookAlreadyExists)
        } else if self.pending.len() >= MAX_ITEMS {
            Err(ErrorCode::TooManyHooks)
        } else {
            Ok(Registry { pending: self.pending.push(program_id), ..self })
        }
    }

    /// Approving `program_id` in the name of `signer`: the registry
    /// afterwards, or why the approval is rejected. The signer must be the
    /// authority, the program must be pending, and the safe bucket must have
    /// room. The program leaves the pending bucket, whose other entries keep
    /// their order, and goes to the end of the safe bucket.
    pub open spec fn approve(self, signer: Pubkey, program_id: Pubkey) -> Result<
        Registry,
        ErrorCode,
    > {
        if signer != self.authority {
            Err(ErrorCode::ConstraintHasOne)
        } else if !self.pending.contains(program_id) {
            Err(ErrorCode::HookNotFound)
        } else if self.safe.len() >= MAX_ITEMS {
            Err(ErrorCode::TooManyHooks)
        } else {
            Ok(
                Registry {
                    pending: self.pending.remove_value(program_id),
                    safe: self.safe.push(program_id),
                    ..self
                },
            )
        }
    }

    /// Rejecting `program_id` in the name of `signer`: as [`Self::approve`],
    /// with the unsafe bucket in place of the safe one.
    pub open spec fn reject(self, signer: Pubkey, program_id: Pubkey) -> Result<
        Registry,
        ErrorCode,
    > {
        if signer != self.authority {
            Err(ErrorCode::ConstraintHasOne)
        } else if !self.pending.contains(program_id) {
            Err(ErrorCode::HookNotFound)
        } else if self.unsafe_.len() >= MAX_ITEMS {
            Err(ErrorCode::TooManyHooks)
        } else {
            Ok(
                Registry {
                    pending: self.pending.remove_value(program_id),
                    unsafe_: self.unsafe_.push(program_id),
                    ..self
                },
            )
        }
    }
}

/// The registry's record: who may judge pending programs, and the three
/// buckets.
#[derive(Clone, Debug, PartialEq, Eq)]
pub struct HooksAccount {
    /// The only signer who may approve or reject a pending program.
    pub authority: Pubkey,
    /// The approved programs.
    pub safe_hook_programs: Vec<Pubkey>,
    /// The rejected programs.
    pub unsafe_hook_programs: Vec<Pubkey>,
    /// The proposed programs that await judgement.
    pub pending_hook_programs: Vec<Pubkey>,
}

impl View for HooksAccount {
    type V = Registry;

    open spec fn view(&self) -> Registry {
        Registry {
            authority: self.authority,
            safe: self.safe_hook_programs@,
            unsafe_: self.unsafe_hook_programs@,
            pending: self.pending_hook_programs@,
        }
    }
}

/// `index` is where `needle` first occurs in `items`.
pub open spec fn is_first_occurrence(items: Seq<Pubkey>, needle: Pubkey, index: int) -> bool {
    &&& 0 <= index < items.len()
    &&& items[index] == needle
    &&& forall|j: int| 0 <= j < index ==> items[j] != needle
}

/// The first occurrence found by scanning is the one that `index_of_first`
/// names.
pub proof fn lemma_first_occurrence(items: Seq<Pubkey>, needle: Pubkey, index: int)
    requires
        is_first_occurrence(items, needle, index),
    ensures
        items.index_of_first(needle) == Some(index),
        items.remove_value(needle) == items.remove(index),
{
    items.index_of_first_ensures(needle);
}

/// Where `needle` first occurs in `items`, if it does.
pub fn position(items: &Vec<Pubkey>, needle: &Pubkey) -> (found: Option<usize>)
    ensures
        match found {
            Some(index) => is_first_occurrence(items@, *needle, index as int),
            None => !items@.contains(*needle),
        },
{
    let mut i: usize = 0;
    while i < items.len()
        invariant
            i <= items.len(),
            forall|j: int| 0 <= j < i ==> items@[j] != *needle,
        decreases items.len() - i,
    {
        if items[i] == *needle {
            return Some(i);
        }
        i += 1;
    }
    None
}

/// Whether `needle` occurs in `items`.
pub fn contains(items: &Vec<Pubkey>, needle: &Pubkey) -> (found: bool)
    ensures
        found == items@.contains(*needle),
{
    position(items, needle).is_some()
}

impl HooksAccount {
    /// The bucket that holds the program, or `Unknown` if none does. Anyone
    /// may ask; nothing changes.
    pub fn status(&self, program_id: &Pubkey) -> (status: HookStatus)
        ensures
            status == self@.status(*program_id),
    {
        if contains(&self.safe_hook_programs, program_id) {
            HookStatus::Safe
        } else if contains(&self.unsafe_hook_programs, program_id) {
            HookStatus::Unsafe
        } else if contains(&self.pending_hook_programs, program_id) {
            HookStatus::Pending
        } else {
            HookStatus::Unknown
        }
    }
}

} // verus!
