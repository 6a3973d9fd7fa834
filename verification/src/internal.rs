//! Who may make the privileged calls.

use vstd::prelude::*;
use crate::account::AccountId;
use crate::elections::account_names;
use crate::error::ElectionError;
use crate::ext::{minimum_deposit, yocto_per_near};
use crate::{CallContext, Contract};

verus! {

/// The account that a question of privilege is about: the one named, or the
/// caller where none is named.
pub open spec fn subject(ctx: &CallContext, account_id: Option<&AccountId>) -> Seq<char> {
    match account_id {
        Some(account) => account@,
        None => ctx.predecessor_account_id@,
    }
}

impl Contract {
    /// Fails unless the call carries the minimum deposit.
    pub fn assert_at_least_one_yocto(&self, ctx: &CallContext) -> (checked: Result<(), ElectionError>)
        ensures
            checked == if ctx.attached_deposit >= yocto_per_near() {
                Ok::<(), ElectionError>(())
            } else {
                Err::<(), ElectionError>(ElectionError::InsufficientDeposit)
            },
    {
        if ctx.attached_deposit >= minimum_deposit() {
            Ok(())
        } else {
            Err(ElectionError::InsufficientDeposit)
        }
    }

    /// Whether the account, or the caller where none is named, owns the
    /// registry.
    pub fn is_owner(&self, ctx: &CallContext, account_id: Option<&AccountId>) -> (owner: bool)
        ensures
            owner == self@.is_owner(subject(ctx, account_id)),
    {
        match account_id {
            Some(account) => account.same(&self.owner),
            None => ctx.predecessor_account_id.same(&self.owner),
        }
    }

    /// Whether the account, or the caller where none is named, is an
    /// administrator.
    pub fn is_admin(&self, ctx: &CallContext, account_id: Option<&AccountId>) -> (admin: bool)
        ensures
            admin == self@.is_admin(subject(ctx, account_id)),
    {
        let account = match account_id {
            Some(account) => account,
            None => &ctx.predecessor_account_id,
        };
        let ghost names = account_names(self.admins@);
        assert(account@ == subject(ctx, account_id));
        let mut i: usize = 0;
        while i < self.admins.len()
            invariant
                i <= self.admins.len(),
                names == account_names(self.admins@),
                account@ == subject(ctx, account_id),
                forall|j: int| 0 <= j < i ==> names[j] != account@,
            decreases self.admins.len() - i,
        {
            if self.admins[i].same(account) {
                assert(names[i as int] == account@);
                assert(names.contains(account@));
                assert(names.to_set().contains(account@));
                return true;
            }
            i += 1;
        }
        assert(!names.contains(account@));
        false
    }

    /// Whether the account, or the caller where none is named, is privileged.
    pub fn is_owner_or_admin(&self, ctx: &CallContext, account_id: Option<&AccountId>) -> (privileged: bool)
        ensures
            privileged == self@.is_owner_or_admin(subject(ctx, account_id)),
    {
        self.is_owner(ctx, account_id) || self.is_admin(ctx, account_id)
    }

    /// Fails unless the caller is privileged and the call carries the minimum
    /// deposit. Privilege is looked at first.
    pub fn assert_admin_or_owner(&self, ctx: &CallContext) -> (checked: Result<(), ElectionError>)
        ensures
            checked == match self@.authorization_error(
                ctx.predecessor_account_id@,
                ctx.attached_deposit,
            ) {
                Some(error) => Err::<(), ElectionError>(error),
                None => Ok(()),
            },
    {
        if !self.is_owner_or_admin(ctx, None) {
            return Err(ElectionError::NotAdminOrOwner);
        }
        self.assert_at_least_one_yocto(ctx)
    }
}

} // verus!
