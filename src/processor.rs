//! The three transitions and the dispatcher that routes a payload to them.
//! Every check runs before any account is changed, so a failed transition
//! leaves the accounts exactly as they were.
use vstd::prelude::*;
use crate::account::{Account, AccountView, Context, views};
use crate::codec::{
    CampaignDetails, CampaignRecord, decode_campaign, decode_record, decode_withdraw,
    decode_withdraw_request, encodable, encode_campaign, encode_record,
};
use crate::error::CampaignError;

verus! {

/// `d` with its front overwritten by `e`, which is no longer than `d`.
pub open spec fn overwrite(d: Seq<u8>, e: Seq<u8>) -> Seq<u8> {
    e + d.skip(e.len() as int)
}

pub open spec fn with_lamports(a: AccountView, lamports: u64) -> AccountView {
    AccountView { key: a.key, owner: a.owner, is_signer: a.is_signer, lamports, data: a.data }
}

pub open spec fn with_data(a: AccountView, data: Seq<u8>) -> AccountView {
    AccountView { key: a.key, owner: a.owner, is_signer: a.is_signer, lamports: a.lamports, data }
}

/// The record that a creation stores: the payload's, with no donations yet.
pub open spec fn fresh(r: CampaignRecord) -> CampaignRecord {
    CampaignRecord {
        admin: r.admin,
        name: r.name,
        description: r.description,
        image_link: r.image_link,
        amount_donated: 0,
    }
}

/// The record after a donation of `v`.
pub open spec fn credited(r: CampaignRecord, v: u64) -> CampaignRecord {
    CampaignRecord {
        admin: r.admin,
        name: r.name,
        description: r.description,
        image_link: r.image_link,
        amount_donated: (r.amount_donated + v) as u64,
    }
}

/// Creation over accounts `[storage, creator, ..]`: the accounts after it,
/// or the first check that fails.
pub open spec fn create_transition(ctx: Context, a: Seq<AccountView>, payload: Seq<u8>) -> Result<
    Seq<AccountView>,
    CampaignError,
> {
    if a.len() < 2 {
        Err(CampaignError::MissingAccount)
    } else if !a[1].is_signer {
        Err(CampaignError::Unauthorized)
    } else if a[0].owner != ctx.program_id@ {
        Err(CampaignError::OwnershipMismatch)
    } else {
        match decode_record(payload) {
            None => Err(CampaignError::MalformedInput),
            Some(rec) => if rec.admin != a[1].key {
                Err(CampaignError::InvalidInstruction)
            } else if a[0].lamports < ctx.rent_minimum {
                Err(CampaignError::InsufficientFunds)
            } else if !encodable(fresh(rec)) || encode_record(fresh(rec)).len()
                > a[0].data.len() {
                Err(CampaignError::MalformedInput)
            } else {
                Ok(a.update(0, with_data(a[0], overwrite(a[0].data, encode_record(fresh(rec))))))
            },
        }
    }
}

/// Withdrawal over accounts `[storage, admin, ..]`.
pub open spec fn withdraw_transition(ctx: Context, a: Seq<AccountView>, payload: Seq<u8>) -> Result<
    Seq<AccountView>,
    CampaignError,
> {
    if a.len() < 2 {
        Err(CampaignError::MissingAccount)
    } else if a[0].owner != ctx.program_id@ {
        Err(CampaignError::OwnershipMismatch)
    } else if !a[1].is_signer {
        Err(CampaignError::Unauthorized)
    } else {
        match decode_record(a[0].data) {
            None => Err(CampaignError::MalformedInput),
            Some(rec) => if rec.admin != a[1].key {
                Err(CampaignError::Unauthorized)
            } else {
                match decode_withdraw(payload) {
                    None => Err(CampaignError::MalformedInput),
                    Some(amount) => if a[0].lamports < ctx.rent_minimum || a[0].lamports
                        - ctx.rent_minimum < amount {
                        Err(CampaignError::InsufficientFunds)
                    } else if a[0].key == a[1].key {
                        Err(CampaignError::InvalidInstruction)
                    } else if a[1].lamports + amount > u64::MAX {
                        Err(CampaignError::ArithmeticOverflow)
                    } else {
                        Ok(
                            a.update(0, with_lamports(a[0], (a[0].lamports - amount) as u64)).update(
                                1,
                                with_lamports(a[1], (a[1].lamports + amount) as u64),
                            ),
                        )
                    },
                }
            },
        }
    }
}

/// Donation over accounts `[storage, funding, donor, ..]`: the whole balance
/// of the funding account moves to the storage account and the record.
pub open spec fn donate_transition(ctx: Context, a: Seq<AccountView>) -> Result<
    Seq<AccountView>,
    CampaignError,
> {
    if a.len() < 3 {
        Err(CampaignError::MissingAccount)
    } else if a[0].owner != ctx.program_id@ {
        Err(CampaignError::OwnershipMismatch)
    } else if a[1].owner != ctx.program_id@ {
        Err(CampaignError::OwnershipMismatch)
    } else if !a[2].is_signer {
        Err(CampaignError::Unauthorized)
    } else {
        match decode_record(a[0].data) {
            None => Err(CampaignError::MalformedInput),
            Some(rec) => {
                let v = a[1].lamports;
                if a[0].key == a[1].key {
                    Err(CampaignError::InvalidInstruction)
                } else if rec.amount_donated + v > u64::MAX || a[0].lamports + v > u64::MAX {
                    Err(CampaignError::ArithmeticOverflow)
                } else if !encodable(credited(rec, v)) || encode_record(credited(rec, v)).len()
                    > a[0].data.len() {
                    Err(CampaignError::MalformedInput)
                } else {
                    Ok(
                        a.update(
                            0,
                            AccountView {
                                key: a[0].key,
                                owner: a[0].owner,
                                is_signer: a[0].is_signer,
                                lamports: (a[0].lamports + v) as u64,
                                data: overwrite(a[0].data, encode_record(credited(rec, v))),
                            },
                        ).update(1, with_lamports(a[1], 0)),
                    )
                }
            },
        }
    }
}

/// The three transitions that a payload can ask for.
#[derive(Debug, Clone, Copy, PartialEq, Eq, Structural)]
pub enum Instruction {
    CreateCampaign,
    Withdraw,
    Donate,
}

/// The transition that an opcode names, if any.
pub open spec fn opcode_instruction(opcode: u8) -> Option<Instruction> {
    if opcode == 0 {
        Some(Instruction::CreateCampaign)
    } else if opcode == 1 {
        Some(Instruction::Withdraw)
    } else if opcode == 2 {
        Some(Instruction::Donate)
    } else {
        None
    }
}

/// Decodes an opcode: `0` creates, `1` withdraws, `2` donates.
pub fn instruction_of(opcode: u8) -> (r: Option<Instruction>)
    ensures
        r == opcode_instruction(opcode),
{
    if opcode == 0 {
        Some(Instruction::CreateCampaign)
    } else if opcode == 1 {
        Some(Instruction::Withdraw)
    } else if opcode == 2 {
        Some(Instruction::Donate)
    } else {
        None
    }
}

/// Routing by the payload's first byte; the rest is the handler's argument.
pub open spec fn process_transition(ctx: Context, a: Seq<AccountView>, data: Seq<u8>) -> Result<
    Seq<AccountView>,
    CampaignError,
> {
    if data.len() == 0 {
        Err(CampaignError::InvalidInstruction)
    } else {
        match opcode_instruction(data[0]) {
            Some(Instruction::CreateCampaign) => create_transition(ctx, a, data.skip(1)),
            Some(Instruction::Withdraw) => withdraw_transition(ctx, a, data.skip(1)),
            Some(Instruction::Donate) => donate_transition(ctx, a),
            None => Err(CampaignError::InvalidInstruction),
        }
    }
}

/// A transition's result `r` and accounts `after` agree with `out`: on
/// success the accounts are the ones it gives, on failure they are untouched.
pub open spec fn applied(
    out: Result<Seq<AccountView>, CampaignError>,
    r: Result<(), CampaignError>,
    before: Seq<Account>,
    after: Seq<Account>,
) -> bool {
    match out {
        Ok(n) => r is Ok && views(after) == n,
        Err(e) => r == Err::<(), CampaignError>(e) && after == before,
    }
}

/// `d` with its front overwritten by `e`.
fn overwrite_front(d: &Vec<u8>, e: &Vec<u8>) -> (r: Vec<u8>)
    requires
        e@.len() <= d@.len(),
    ensures
        r@ == overwrite(d@, e@),
{
    let mut out: Vec<u8> = Vec::new();
    let mut i: usize = 0;
    while i < d.len()
        invariant
            i <= d@.len(),
            e@.len() <= d@.len(),
            out@.len() == i,
            forall|j: int| 0 <= j < i ==> out@[j] == overwrite(d@, e@)[j],
        decreases d@.len() - i,
    {
        if i < e.len() {
            out.push(e[i]);
        } else {
            out.push(d[i]);
        }
        i = i + 1;
    }
    assert(out@ =~= overwrite(d@, e@));
    out
}

/// Opens a campaign: checks the creator's signature, the storage account's
/// owner, the payload's record, its administrator and the rent floor, then
/// stores the record with its donation total set to zero.
pub fn create_campaign(ctx: &Context, accounts: &mut Vec<Account>, payload: &[u8]) -> (r: Result<
    (),
    CampaignError,
>)
    ensures
        applied(create_transition(*ctx, views(old(accounts)@), payload@), r, old(accounts)@, final(accounts)@),
{
    if accounts.len() < 2 {
        return Err(CampaignError::MissingAccount);
    }
    if !accounts[1].is_signer {
        return Err(CampaignError::Unauthorized);
    }
    if !accounts[0].owner.same(&ctx.program_id) {
        return Err(CampaignError::OwnershipMismatch);
    }
    let input = match decode_campaign(payload) {
        Some(c) => c,
        None => return Err(CampaignError::MalformedInput),
    };
    if !input.admin.same(&accounts[1].key) {
        return Err(CampaignError::InvalidInstruction);
    }
    if accounts[0].lamports < ctx.rent_minimum {
        return Err(CampaignError::InsufficientFunds);
    }
    let stored = CampaignDetails {
        admin: input.admin,
        name: input.name,
        description: input.description,
        image_link: input.image_link,
        amount_donated: 0,
    };
    let bytes = match encode_campaign(&stored) {
        Some(b) => b,
        None => return Err(CampaignError::MalformedInput),
    };
    if bytes.len() > accounts[0].data.len() {
        return Err(CampaignError::MalformedInput);
    }
    let data = overwrite_front(&accounts[0].data, &bytes);
    accounts[0].data = data;
    assert(views(final(accounts)@) =~= create_transition(*ctx, views(old(accounts)@), payload@)->Ok_0);
    Ok(())
}

/// Moves `amount` from the storage account to its administrator, keeping
/// the storage account at or above the rent floor.
pub fn withdraw(ctx: &Context, accounts: &mut Vec<Account>, payload: &[u8]) -> (r: Result<
    (),
    CampaignError,
>)
    ensures
        applied(withdraw_transition(*ctx, views(old(accounts)@), payload@), r, old(accounts)@, final(accounts)@),
{
    if accounts.len() < 2 {
        return Err(CampaignError::MissingAccount);
    }
    if !accounts[0].owner.same(&ctx.program_id) {
        return Err(CampaignError::OwnershipMismatch);
    }
    if !accounts[1].is_signer {
        return Err(CampaignError::Unauthorized);
    }
    let record = match decode_campaign(accounts[0].data.as_slice()) {
        Some(c) => c,
        None => return Err(CampaignError::MalformedInput),
    };
    if !record.admin.same(&accounts[1].key) {
        return Err(CampaignError::Unauthorized);
    }
    let amount = match decode_withdraw_request(payload) {
        Some(w) => w.amount,
        None => return Err(CampaignError::MalformedInput),
    };
    let balance = accounts[0].lamports;
    if balance < ctx.rent_minimum || balance - ctx.rent_minimum < amount {
        return Err(CampaignError::InsufficientFunds);
    }
    if accounts[0].key.same(&accounts[1].key) {
        return Err(CampaignError::InvalidInstruction);
    }
    if accounts[1].lamports > u64::MAX - amount {
        return Err(CampaignError::ArithmeticOverflow);
    }
    accounts[0].lamports = balance - amount;
    accounts[1].lamports = accounts[1].lamports + amount;
    assert(views(final(accounts)@) =~= withdraw_transition(*ctx, views(old(accounts)@), payload@)->Ok_0);
    Ok(())
}

/// Moves the whole balance of the funding account into the storage account
/// and adds it to the record's donation total. The payload is not read.
pub fn donate(ctx: &Context, accounts: &mut Vec<Account>, _payload: &[u8]) -> (r: Result<
    (),
    CampaignError,
>)
    ensures
        applied(donate_transition(*ctx, views(old(accounts)@)), r, old(accounts)@, final(accounts)@),
{
    if accounts.len() < 3 {
        return Err(CampaignError::MissingAccount);
    }
    if !accounts[0].owner.same(&ctx.program_id) {
        return Err(CampaignError::OwnershipMismatch);
    }
    if !accounts[1].owner.same(&ctx.program_id) {
        return Err(CampaignError::OwnershipMismatch);
    }
    if !accounts[2].is_signer {
        return Err(CampaignError::Unauthorized);
    }
    let record = match decode_campaign(accounts[0].data.as_slice()) {
        Some(c) => c,
        None => return Err(CampaignError::MalformedInput),
    };
    let v = accounts[1].lamports;
    if accounts[0].key.same(&accounts[1].key) {
        return Err(CampaignError::InvalidInstruction);
    }
    if record.amount_donated > u64::MAX - v || accounts[0].lamports > u64::MAX - v {
        return Err(CampaignError::ArithmeticOverflow);
    }
    let updated = CampaignDetails {
        admin: record.admin,
        name: record.name,
        description: record.description,
        image_link: record.image_link,
        amount_donated: record.amount_donated + v,
    };
    let bytes = match encode_campaign(&updated) {
        Some(b) => b,
        None => return Err(CampaignError::MalformedInput),
    };
    if bytes.len() > accounts[0].data.len() {
        return Err(CampaignError::MalformedInput);
    }
    let data = overwrite_front(&accounts[0].data, &bytes);
    accounts[0].data = data;
    accounts[0].lamports = accounts[0].lamports + v;
    accounts[1].lamports = 0;
    assert(views(final(accounts)@) =~= donate_transition(*ctx, views(old(accounts)@))->Ok_0);
    Ok(())
}

/// Routes a payload by its first byte: `0` creates, `1` withdraws, `2`
/// donates; an empty payload or any other byte is an invalid instruction.
pub fn process_instruction(ctx: &Context, accounts: &mut Vec<Account>, data: &[u8]) -> (r: Result<
    (),
    CampaignError,
>)
    ensures
        applied(process_transition(*ctx, views(old(accounts)@), data@), r, old(accounts)@, final(accounts)@),
{
    if data.len() == 0 {
        return Err(CampaignError::InvalidInstruction);
    }
    let rest = vstd::slice::slice_subrange(data, 1, data.len());
    assert(rest@ =~= data@.skip(1));
    match instruction_of(data[0]) {
        Some(Instruction::CreateCampaign) => create_campaign(ctx, accounts, rest),
        Some(Instruction::Withdraw) => withdraw(ctx, accounts, rest),
        Some(Instruction::Donate) => donate(ctx, accounts, rest),
        None => Err(CampaignError::InvalidInstruction),
    }
}

} // verus!
