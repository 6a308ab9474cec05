use crowdfund::account::{Account, Context, Pubkey};
use crowdfund::codec::{decode_campaign, encode_campaign, CampaignDetails};
use crowdfund::error::CampaignError;
use crowdfund::processor::{
    create_campaign, donate, instruction_of, process_instruction, withdraw, Instruction,
};

const PROGRAM: [u8; 32] = [7; 32];
const ADMIN: [u8; 32] = [1; 32];
const OTHER: [u8; 32] = [2; 32];
const STORAGE: [u8; 32] = [3; 32];
const FUNDING: [u8; 32] = [4; 32];
const MINIMUM: u64 = 500;

fn ctx() -> Context {
    Context { program_id: Pubkey(PROGRAM), rent_minimum: MINIMUM }
}

fn account(key: [u8; 32], owner: [u8; 32], is_signer: bool, lamports: u64, data: Vec<u8>) -> Account {
    Account { key: Pubkey(key), owner: Pubkey(owner), is_signer, lamports, data }
}

fn record(admin: [u8; 32], name: &str, amount_donated: u64) -> CampaignDetails {
    CampaignDetails {
        admin: Pubkey(admin),
        name: name.to_string(),
        description: "a well for the village".to_string(),
        image_link: "https://example.org/well.png".to_string(),
        amount_donated,
    }
}

fn bytes_of(r: &CampaignDetails) -> Vec<u8> {
    encode_campaign(r).expect("record encodes")
}

fn stored(accounts: &[Account]) -> CampaignDetails {
    decode_campaign(&accounts[0].data).expect("storage holds a record")
}

/// Storage holding an active record, its administrator, and a third account.
fn active(storage_lamports: u64, donated: u64) -> Vec<Account> {
    let data = bytes_of(&record(ADMIN, "well", donated));
    vec![
        account(STORAGE, PROGRAM, false, storage_lamports, data),
        account(ADMIN, [0; 32], true, 10, vec![]),
    ]
}

fn withdraw_payload(amount: u64) -> Vec<u8> {
    amount.to_le_bytes().to_vec()
}

#[test]
fn create_stores_record_with_zero_total() {
    let payload = bytes_of(&record(ADMIN, "well", 77));
    let mut accounts = vec![
        account(STORAGE, PROGRAM, false, 600, vec![0; payload.len()]),
        account(ADMIN, [0; 32], true, 10, vec![]),
    ];
    assert_eq!(create_campaign(&ctx(), &mut accounts, &payload), Ok(()));
    let r = stored(&accounts);
    assert_eq!(r.amount_donated, 0);
    assert_eq!(r.name, "well");
    assert_eq!(r.description, "a well for the village");
    assert_eq!(r.image_link, "https://example.org/well.png");
    assert!(r.admin.same(&Pubkey(ADMIN)));
    assert_eq!(accounts[0].lamports, 600);
    assert_eq!(accounts[1].lamports, 10);
}

#[test]
fn create_overwrites_front_of_larger_buffer() {
    let payload = bytes_of(&record(ADMIN, "w", 5));
    let mut accounts = vec![
        account(STORAGE, PROGRAM, false, 600, vec![0xEE; payload.len() + 3]),
        account(ADMIN, [0; 32], true, 10, vec![]),
    ];
    assert_eq!(create_campaign(&ctx(), &mut accounts, &payload), Ok(()));
    let n = payload.len();
    assert_eq!(&accounts[0].data[n..], &[0xEE, 0xEE, 0xEE]);
    let r = decode_campaign(&accounts[0].data[..n]).unwrap();
    assert_eq!(r.amount_donated, 0);
}

#[test]
fn create_unsigned_creator_is_unauthorized() {
    let payload = bytes_of(&record(ADMIN, "well", 0));
    let before = vec![9u8; payload.len()];
    let mut accounts = vec![
        account(STORAGE, PROGRAM, false, 600, before.clone()),
        account(ADMIN, [0; 32], false, 10, vec![]),
    ];
    assert_eq!(create_campaign(&ctx(), &mut accounts, &payload), Err(CampaignError::Unauthorized));
    assert_eq!(accounts[0].data, before);
}

#[test]
fn create_foreign_admin_is_invalid() {
    let payload = bytes_of(&record(OTHER, "well", 0));
    let before = vec![0u8; payload.len()];
    let mut accounts = vec![
        account(STORAGE, PROGRAM, false, 600, before.clone()),
        account(ADMIN, [0; 32], true, 10, vec![]),
    ];
    assert_eq!(
        create_campaign(&ctx(), &mut accounts, &payload),
        Err(CampaignError::InvalidInstruction)
    );
    assert_eq!(accounts[0].data, before);
}

#[test]
fn create_storage_not_owned_is_ownership_mismatch() {
    let payload = bytes_of(&record(ADMIN, "well", 0));
    let mut accounts = vec![
        account(STORAGE, OTHER, false, 600, vec![0; payload.len()]),
        account(ADMIN, [0; 32], true, 10, vec![]),
    ];
    assert_eq!(
        create_campaign(&ctx(), &mut accounts, &payload),
        Err(CampaignError::OwnershipMismatch)
    );
}

#[test]
fn create_below_rent_floor_is_insufficient() {
    let payload = bytes_of(&record(ADMIN, "well", 0));
    let mut accounts = vec![
        account(STORAGE, PROGRAM, false, MINIMUM - 1, vec![0; payload.len()]),
        account(ADMIN, [0; 32], true, 10, vec![]),
    ];
    assert_eq!(
        create_campaign(&ctx(), &mut accounts, &payload),
        Err(CampaignError::InsufficientFunds)
    );
    assert_eq!(accounts[0].data, vec![0; payload.len()]);
}

#[test]
fn create_at_rent_floor_succeeds() {
    let payload = bytes_of(&record(ADMIN, "well", 0));
    let mut accounts = vec![
        account(STORAGE, PROGRAM, false, MINIMUM, vec![0; payload.len()]),
        account(ADMIN, [0; 32], true, 10, vec![]),
    ];
    assert_eq!(create_campaign(&ctx(), &mut accounts, &payload), Ok(()));
    assert_eq!(accounts[0].data, payload);
}

#[test]
fn create_malformed_payload_fails() {
    let mut payload = bytes_of(&record(ADMIN, "well", 0));
    payload.push(0);
    let mut accounts = vec![
        account(STORAGE, PROGRAM, false, 600, vec![0; payload.len()]),
        account(ADMIN, [0; 32], true, 10, vec![]),
    ];
    assert_eq!(create_campaign(&ctx(), &mut accounts, &payload), Err(CampaignError::MalformedInput));
}

#[test]
fn create_undersized_buffer_fails() {
    let payload = bytes_of(&record(ADMIN, "well", 0));
    let mut accounts = vec![
        account(STORAGE, PROGRAM, false, 600, vec![0; payload.len() - 1]),
        account(ADMIN, [0; 32], true, 10, vec![]),
    ];
    assert_eq!(create_campaign(&ctx(), &mut accounts, &payload), Err(CampaignError::MalformedInput));
    assert_eq!(accounts[0].data, vec![0; payload.len() - 1]);
}

#[test]
fn create_with_one_account_is_missing_account() {
    let payload = bytes_of(&record(ADMIN, "well", 0));
    let mut accounts = vec![account(STORAGE, PROGRAM, false, 600, vec![0; payload.len()])];
    assert_eq!(create_campaign(&ctx(), &mut accounts, &payload), Err(CampaignError::MissingAccount));
}

#[test]
fn withdraw_exact_headroom_leaves_minimum() {
    let mut accounts = active(800, 0);
    assert_eq!(withdraw(&ctx(), &mut accounts, &withdraw_payload(300)), Ok(()));
    assert_eq!(accounts[0].lamports, MINIMUM);
    assert_eq!(accounts[1].lamports, 310);
    assert_eq!(stored(&accounts).amount_donated, 0);
}

#[test]
fn withdraw_headroom_plus_one_is_insufficient() {
    let mut accounts = active(800, 0);
    assert_eq!(
        withdraw(&ctx(), &mut accounts, &withdraw_payload(301)),
        Err(CampaignError::InsufficientFunds)
    );
    assert_eq!(accounts[0].lamports, 800);
    assert_eq!(accounts[1].lamports, 10);
}

#[test]
fn withdraw_below_floor_does_not_underflow() {
    let mut accounts = active(MINIMUM - 1, 0);
    assert_eq!(
        withdraw(&ctx(), &mut accounts, &withdraw_payload(0)),
        Err(CampaignError::InsufficientFunds)
    );
    assert_eq!(accounts[0].lamports, MINIMUM - 1);
}

#[test]
fn withdraw_by_non_admin_is_unauthorized() {
    let mut accounts = active(800, 0);
    accounts[1] = account(OTHER, [0; 32], true, 10, vec![]);
    assert_eq!(
        withdraw(&ctx(), &mut accounts, &withdraw_payload(100)),
        Err(CampaignError::Unauthorized)
    );
    assert_eq!(accounts[0].lamports, 800);
    assert_eq!(accounts[1].lamports, 10);
}

#[test]
fn withdraw_unsigned_admin_is_unauthorized() {
    let mut accounts = active(800, 0);
    accounts[1].is_signer = false;
    assert_eq!(
        withdraw(&ctx(), &mut accounts, &withdraw_payload(100)),
        Err(CampaignError::Unauthorized)
    );
}

#[test]
fn withdraw_storage_not_owned_is_ownership_mismatch() {
    let mut accounts = active(800, 0);
    accounts[0].owner = Pubkey(OTHER);
    assert_eq!(
        withdraw(&ctx(), &mut accounts, &withdraw_payload(100)),
        Err(CampaignError::OwnershipMismatch)
    );
}

#[test]
fn withdraw_short_payload_is_malformed() {
    let mut accounts = active(800, 0);
    assert_eq!(withdraw(&ctx(), &mut accounts, &[1, 0, 0]), Err(CampaignError::MalformedInput));
}

#[test]
fn withdraw_overflowing_admin_balance_fails() {
    let mut accounts = active(800, 0);
    accounts[1].lamports = u64::MAX;
    assert_eq!(
        withdraw(&ctx(), &mut accounts, &withdraw_payload(1)),
        Err(CampaignError::ArithmeticOverflow)
    );
    assert_eq!(accounts[0].lamports, 800);
}

fn donation_accounts(storage_lamports: u64, donated: u64, funding: u64) -> Vec<Account> {
    let mut accounts = active(storage_lamports, donated);
    accounts[1] = account(FUNDING, PROGRAM, false, funding, vec![]);
    accounts.push(account(OTHER, [0; 32], true, 5, vec![]));
    accounts
}

#[test]
fn donate_moves_whole_funding_balance() {
    let mut accounts = donation_accounts(1000, 40, 250);
    assert_eq!(donate(&ctx(), &mut accounts, &[]), Ok(()));
    assert_eq!(accounts[0].lamports, 1250);
    assert_eq!(accounts[1].lamports, 0);
    assert_eq!(accounts[2].lamports, 5);
    let r = stored(&accounts);
    assert_eq!(r.amount_donated, 290);
    assert_eq!(r.name, "well");
}

#[test]
fn donate_of_empty_funding_changes_nothing() {
    let mut accounts = donation_accounts(1000, 40, 0);
    let before = accounts[0].data.clone();
    assert_eq!(donate(&ctx(), &mut accounts, &[]), Ok(()));
    assert_eq!(accounts[0].lamports, 1000);
    assert_eq!(accounts[0].data, before);
}

#[test]
fn donate_funding_not_owned_is_ownership_mismatch() {
    let mut accounts = donation_accounts(1000, 40, 250);
    accounts[1].owner = Pubkey(OTHER);
    assert_eq!(donate(&ctx(), &mut accounts, &[]), Err(CampaignError::OwnershipMismatch));
    assert_eq!(accounts[1].lamports, 250);
}

#[test]
fn donate_unsigned_donor_is_unauthorized() {
    let mut accounts = donation_accounts(1000, 40, 250);
    accounts[2].is_signer = false;
    assert_eq!(donate(&ctx(), &mut accounts, &[]), Err(CampaignError::Unauthorized));
}

#[test]
fn donate_to_uninitialized_storage_is_malformed() {
    let mut accounts = donation_accounts(1000, 40, 250);
    accounts[0].data = vec![0; 10];
    assert_eq!(donate(&ctx(), &mut accounts, &[]), Err(CampaignError::MalformedInput));
    assert_eq!(accounts[0].lamports, 1000);
    assert_eq!(accounts[1].lamports, 250);
}

#[test]
fn donate_overflowing_total_fails() {
    let mut accounts = donation_accounts(1000, u64::MAX - 10, 250);
    assert_eq!(donate(&ctx(), &mut accounts, &[]), Err(CampaignError::ArithmeticOverflow));
    assert_eq!(accounts[1].lamports, 250);
}

#[test]
fn donate_with_funding_as_storage_is_invalid() {
    let mut accounts = donation_accounts(1000, 40, 250);
    accounts[1].key = Pubkey(STORAGE);
    assert_eq!(donate(&ctx(), &mut accounts, &[]), Err(CampaignError::InvalidInstruction));
}

#[test]
fn route_opcode_two_donates() {
    let mut accounts = donation_accounts(1000, 40, 250);
    assert_eq!(process_instruction(&ctx(), &mut accounts, &[2, 8, 8]), Ok(()));
    assert_eq!(accounts[0].lamports, 1250);
    assert_eq!(accounts[1].lamports, 0);
    assert_eq!(stored(&accounts).amount_donated, 290);
}

#[test]
fn route_empty_payload_is_invalid() {
    let mut accounts = donation_accounts(1000, 40, 250);
    assert_eq!(process_instruction(&ctx(), &mut accounts, &[]), Err(CampaignError::InvalidInstruction));
}

#[test]
fn route_unknown_opcode_is_invalid() {
    let mut accounts = donation_accounts(1000, 40, 250);
    assert_eq!(
        process_instruction(&ctx(), &mut accounts, &[9, 1, 2]),
        Err(CampaignError::InvalidInstruction)
    );
    assert_eq!(accounts[1].lamports, 250);
}

#[test]
fn route_opcode_zero_creates_and_one_withdraws() {
    let payload = bytes_of(&record(ADMIN, "well", 3));
    let mut data = vec![0u8];
    data.extend_from_slice(&payload);
    let mut accounts = vec![
        account(STORAGE, PROGRAM, false, 800, vec![0; payload.len()]),
        account(ADMIN, [0; 32], true, 10, vec![]),
    ];
    assert_eq!(process_instruction(&ctx(), &mut accounts, &data), Ok(()));
    assert_eq!(stored(&accounts).amount_donated, 0);
    let mut w = vec![1u8];
    w.extend_from_slice(&withdraw_payload(100));
    assert_eq!(process_instruction(&ctx(), &mut accounts, &w), Ok(()));
    assert_eq!(accounts[0].lamports, 700);
    assert_eq!(accounts[1].lamports, 110);
}

#[test]
fn opcodes_name_three_instructions() {
    assert_eq!(instruction_of(0), Some(Instruction::CreateCampaign));
    assert_eq!(instruction_of(1), Some(Instruction::Withdraw));
    assert_eq!(instruction_of(2), Some(Instruction::Donate));
    assert_eq!(instruction_of(3), None);
    assert_eq!(instruction_of(255), None);
}
