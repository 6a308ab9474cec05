//! What holds of every transition, stated over the spec functions that the
//! handlers' contracts use and proved from them.
use vstd::prelude::*;
use crate::account::{AccountView, Context};
use crate::codec::{
    decode_record, decode_withdraw, encode_record, lemma_decoded_record, lemma_record_round_trip,
    u64_le,
};
use crate::error::CampaignError;
use crate::processor::{create_transition, credited, donate_transition, fresh, withdraw_transition};

verus! {

/// A creation whose creator did not sign fails as unauthorized, so the
/// storage account keeps its buffer.
pub proof fn lemma_unsigned_creator_rejected(ctx: Context, a: Seq<AccountView>, payload: Seq<u8>)
    requires
        a.len() >= 2,
        !a[1].is_signer,
    ensures
        create_transition(ctx, a, payload) == Err::<Seq<AccountView>, CampaignError>(
            CampaignError::Unauthorized,
        ),
{
}

/// A signed creation into a program-owned account whose payload names an
/// administrator other than the creator fails as an invalid instruction, so
/// nothing is written.
pub proof fn lemma_foreign_admin_rejected(ctx: Context, a: Seq<AccountView>, payload: Seq<u8>)
    requires
        a.len() >= 2,
        a[1].is_signer,
        a[0].owner == ctx.program_id@,
        decode_record(payload) is Some,
        decode_record(payload)->Some_0.admin != a[1].key,
    ensures
        create_transition(ctx, a, payload) == Err::<Seq<AccountView>, CampaignError>(
            CampaignError::InvalidInstruction,
        ),
{
}

proof fn lemma_record_length(r: crate::codec::CampaignRecord, v: u64)
    ensures
        encode_record(fresh(r)).len() == encode_record(r).len(),
        encode_record(credited(r, v)).len() == encode_record(r).len(),
{
    assert(u64_le(0).len() == 8 && u64_le(r.amount_donated).len() == 8);
    assert(u64_le((r.amount_donated + v) as u64).len() == 8);
}

/// A successful creation stores the payload's record with a donation total
/// of zero, whatever total the payload carried: the front of the storage
/// buffer, as long as the payload, reads back as that record.
pub proof fn lemma_created_with_zero_total(ctx: Context, a: Seq<AccountView>, payload: Seq<u8>)
    requires
        create_transition(ctx, a, payload) is Ok,
    ensures
        ({
            let n = create_transition(ctx, a, payload)->Ok_0;
            let given = decode_record(payload)->Some_0;
            let stored = decode_record(n[0].data.take(payload.len() as int));
            &&& payload.len() <= n[0].data.len()
            &&& stored is Some
            &&& stored->Some_0.amount_donated == 0
            &&& stored->Some_0.admin == given.admin
            &&& stored->Some_0.name == given.name
            &&& stored->Some_0.description == given.description
            &&& stored->Some_0.image_link == given.image_link
        }),
{
    let rec = decode_record(payload)->Some_0;
    lemma_decoded_record(payload);
    lemma_record_length(rec, 0);
    lemma_record_round_trip(fresh(rec));
    let n = create_transition(ctx, a, payload)->Ok_0;
    let e = encode_record(fresh(rec));
    assert(n[0].data.take(payload.len() as int) =~= e);
}

/// A creation that passes the earlier checks fails for want of funds when the
/// storage account holds less than the rent-exemption minimum.
pub proof fn lemma_below_rent_floor(ctx: Context, a: Seq<AccountView>, payload: Seq<u8>)
    requires
        a.len() >= 2,
        a[1].is_signer,
        a[0].owner == ctx.program_id@,
        decode_record(payload) is Some,
        decode_record(payload)->Some_0.admin == a[1].key,
        a[0].lamports < ctx.rent_minimum,
    ensures
        create_transition(ctx, a, payload) == Err::<Seq<AccountView>, CampaignError>(
            CampaignError::InsufficientFunds,
        ),
{
}

/// A creation that passes the earlier checks, into a buffer that holds the
/// record, succeeds when the storage account holds exactly the minimum.
pub proof fn lemma_at_rent_floor(ctx: Context, a: Seq<AccountView>, payload: Seq<u8>)
    requires
        a.len() >= 2,
        a[1].is_signer,
        a[0].owner == ctx.program_id@,
        decode_record(payload) is Some,
        decode_record(payload)->Some_0.admin == a[1].key,
        a[0].lamports == ctx.rent_minimum,
        payload.len() <= a[0].data.len(),
    ensures
        create_transition(ctx, a, payload) is Ok,
{
    let rec = decode_record(payload)->Some_0;
    lemma_decoded_record(payload);
    lemma_record_length(rec, 0);
}

/// After any successful withdrawal the storage account still holds at least
/// the rent-exemption minimum.
pub proof fn lemma_withdraw_keeps_floor(ctx: Context, a: Seq<AccountView>, payload: Seq<u8>)
    requires
        withdraw_transition(ctx, a, payload) is Ok,
    ensures
        withdraw_transition(ctx, a, payload)->Ok_0[0].lamports >= ctx.rent_minimum,
{
}

/// A withdrawal that passes the earlier checks and asks for one unit more
/// than the headroom above the minimum fails for want of funds, so both
/// balances stay as they were.
pub proof fn lemma_withdraw_over_headroom(ctx: Context, a: Seq<AccountView>, payload: Seq<u8>)
    requires
        a.len() >= 2,
        a[0].owner == ctx.program_id@,
        a[1].is_signer,
        decode_record(a[0].data) is Some,
        decode_record(a[0].data)->Some_0.admin == a[1].key,
        decode_withdraw(payload) is Some,
        decode_withdraw(payload)->Some_0 == a[0].lamports - ctx.rent_minimum + 1,
    ensures
        withdraw_transition(ctx, a, payload) == Err::<Seq<AccountView>, CampaignError>(
            CampaignError::InsufficientFunds,
        ),
{
}

/// A withdrawal that passes the checks and asks for exactly the headroom
/// succeeds and leaves the storage account at the minimum.
pub proof fn lemma_withdraw_exact_headroom(ctx: Context, a: Seq<AccountView>, payload: Seq<u8>)
    requires
        a.len() >= 2,
        a[0].owner == ctx.program_id@,
        a[1].is_signer,
        a[0].key != a[1].key,
        decode_record(a[0].data) is Some,
        decode_record(a[0].data)->Some_0.admin == a[1].key,
        decode_withdraw(payload) is Some,
        decode_withdraw(payload)->Some_0 == a[0].lamports - ctx.rent_minimum,
        a[1].lamports + decode_withdraw(payload)->Some_0 <= u64::MAX,
    ensures
        withdraw_transition(ctx, a, payload) is Ok,
        withdraw_transition(ctx, a, payload)->Ok_0[0].lamports == ctx.rent_minimum,
{
}

/// A donation adds the funding account's whole balance to the storage
/// account and to the record's total, and empties the funding account.
pub proof fn lemma_donation_conserves(ctx: Context, a: Seq<AccountView>)
    requires
        donate_transition(ctx, a) is Ok,
    ensures
        ({
            let n = donate_transition(ctx, a)->Ok_0;
            &&& n[0].lamports == a[0].lamports + a[1].lamports
            &&& n[1].lamports == 0
            &&& decode_record(a[0].data) is Some
            &&& decode_record(n[0].data) is Some
            &&& decode_record(n[0].data)->Some_0.amount_donated == decode_record(
                a[0].data,
            )->Some_0.amount_donated + a[1].lamports
        }),
{
    let rec = decode_record(a[0].data)->Some_0;
    let v = a[1].lamports;
    lemma_decoded_record(a[0].data);
    lemma_record_length(rec, v);
    lemma_record_round_trip(credited(rec, v));
    let n = donate_transition(ctx, a)->Ok_0;
    assert(n[0].data =~= encode_record(credited(rec, v)));
}

} // verus!
