use anchor_lang::prelude::Pubkey;
use custody::address::Address;
use custody::bank::Bank;
use custody::error::CustodyError;
use custody::vault::deposit;
use custody::vault::initialize;
use custody::vault::withdraw;
use custody::vault::Initialize;
use custody::vault::InitializeBumps;
use custody::vault::Payment;
use custody::vault::VaultState;
use custody::vault::Vaults;

const RESERVE: u64 = 890_880;

fn addr(n: u8) -> Address {
    Address::new([n; 32])
}

fn world(owner_funds: u64) -> (Vaults, Bank, Address) {
    let vaults = Vaults::new(addr(9));
    let mut bank = Bank::new(RESERVE);
    let owner = addr(1);
    bank.fund(&Address::native(), &owner, owner_funds).unwrap();
    (vaults, bank, owner)
}

fn opened(owner_funds: u64) -> (Vaults, Bank, Address, Address, Address) {
    let (mut vaults, mut bank, owner) = world(owner_funds);
    initialize(&mut vaults, &mut bank, &owner).unwrap();
    let state = vaults.state_address(&owner).unwrap();
    let vault = vaults.vault_address(&state).unwrap();
    (vaults, bank, owner, state, vault)
}

#[test]
fn initialize_stores_the_record_and_pays_the_reserve() {
    let (mut vaults, mut bank, owner) = world(5_000_000);
    let native = Address::native();
    assert_eq!(vaults.program(), addr(9));
    assert_eq!(initialize(&mut vaults, &mut bank, &owner), Ok(()));
    let state = vaults.state_address(&owner).unwrap();
    let vault = vaults.vault_address(&state).unwrap();
    let program = Pubkey::new_from_array([9u8; 32]);
    let (state_key, state_bump) = Pubkey::find_program_address(&[b"state", &owner.bytes], &program);
    let (vault_key, vault_bump) = Pubkey::find_program_address(&[b"vault", &state.bytes], &program);
    assert_eq!(state.bytes, state_key.to_bytes());
    assert_eq!(vault.bytes, vault_key.to_bytes());
    assert_eq!(
        vaults.state(&state),
        Some(VaultState { vault_bump, state_bump, owner, total_deposits: 0 })
    );
    assert_eq!(bank.balance_of(&vault, &native), Some(RESERVE));
    assert_eq!(bank.balance_of(&owner, &native), Some(5_000_000 - RESERVE));
}

#[test]
fn initialize_twice_is_refused() {
    let (mut vaults, mut bank, owner, state, vault) = opened(5_000_000);
    let native = Address::native();
    assert_eq!(
        initialize(&mut vaults, &mut bank, &owner),
        Err(CustodyError::AlreadyInitialized)
    );
    assert_eq!(bank.balance_of(&vault, &native), Some(RESERVE));
    assert_eq!(bank.balance_of(&owner, &native), Some(5_000_000 - RESERVE));
    assert_eq!(vaults.state(&state).unwrap().total_deposits, 0);
}

#[test]
fn initialize_without_funds_changes_nothing() {
    let (mut vaults, mut bank, owner) = world(RESERVE - 1);
    let native = Address::native();
    assert_eq!(
        initialize(&mut vaults, &mut bank, &owner),
        Err(CustodyError::InsufficientBalance)
    );
    let state = vaults.state_address(&owner).unwrap();
    assert_eq!(vaults.state(&state), None);
    assert_eq!(vaults.vault_address(&state), None);
    assert_eq!(bank.balance_of(&owner, &native), Some(RESERVE - 1));
    let program = Pubkey::new_from_array([9u8; 32]);
    let (vault_key, _) = Pubkey::find_program_address(&[b"vault", &state.bytes], &program);
    assert_eq!(bank.balance_of(&Address::new(vault_key.to_bytes()), &native), None);
}

#[test]
fn initialize_for_an_owner_without_account_is_not_found() {
    let mut vaults = Vaults::new(addr(9));
    let mut bank = Bank::new(RESERVE);
    assert_eq!(initialize(&mut vaults, &mut bank, &addr(1)), Err(CustodyError::NotFound));
}

#[test]
fn initialize_with_zero_reserve_moves_nothing() {
    let mut vaults = Vaults::new(addr(9));
    let mut bank = Bank::new(0);
    let owner = addr(1);
    assert_eq!(initialize(&mut vaults, &mut bank, &owner), Ok(()));
    let state = vaults.state_address(&owner).unwrap();
    let vault = vaults.vault_address(&state).unwrap();
    assert_eq!(bank.balance_of(&vault, &Address::native()), Some(0));
}

#[test]
fn initialize_keeps_what_the_vault_already_held() {
    let (mut vaults, mut bank, owner) = world(5_000_000);
    let native = Address::native();
    let state = vaults.state_address(&owner).unwrap();
    let program = Pubkey::new_from_array([9u8; 32]);
    let (vault_key, _) = Pubkey::find_program_address(&[b"vault", &state.bytes], &program);
    let vault = Address::new(vault_key.to_bytes());
    bank.fund(&native, &vault, 17).unwrap();
    assert_eq!(initialize(&mut vaults, &mut bank, &owner), Ok(()));
    assert_eq!(bank.balance_of(&vault, &native), Some(RESERVE + 17));
}

#[test]
fn vaults_of_two_owners_are_apart() {
    let (mut vaults, mut bank, owner, state, vault) = opened(5_000_000);
    let native = Address::native();
    let other = addr(2);
    bank.fund(&native, &other, 3_000_000).unwrap();
    assert_eq!(initialize(&mut vaults, &mut bank, &other), Ok(()));
    let other_state = vaults.state_address(&other).unwrap();
    let other_vault = vaults.vault_address(&other_state).unwrap();
    assert!(other_state != state);
    assert!(other_vault != vault);
    assert_eq!(deposit(&mut vaults, &mut bank, &other, &other_state, 5), Ok(()));
    assert_eq!(bank.balance_of(&vault, &native), Some(RESERVE));
    assert_eq!(bank.balance_of(&other_vault, &native), Some(RESERVE + 5));
    assert_eq!(bank.balance_of(&owner, &native), Some(5_000_000 - RESERVE));
}

#[test]
fn deposit_adds_to_vault_and_to_total() {
    let (mut vaults, mut bank, owner, state, vault) = opened(5_000_000);
    let native = Address::native();
    assert_eq!(deposit(&mut vaults, &mut bank, &owner, &state, 250), Ok(()));
    assert_eq!(bank.balance_of(&vault, &native), Some(RESERVE + 250));
    assert_eq!(bank.balance_of(&owner, &native), Some(5_000_000 - RESERVE - 250));
    assert_eq!(vaults.state(&state).unwrap().total_deposits, 250);
    assert_eq!(deposit(&mut vaults, &mut bank, &owner, &state, 1), Ok(()));
    assert_eq!(bank.balance_of(&vault, &native), Some(RESERVE + 251));
    assert_eq!(vaults.state(&state).unwrap().total_deposits, 251);
    assert_eq!(vaults.state(&state).unwrap().owner, owner);
}

#[test]
fn deposit_of_zero_is_invalid() {
    let (mut vaults, mut bank, owner, state, vault) = opened(5_000_000);
    assert_eq!(
        deposit(&mut vaults, &mut bank, &owner, &state, 0),
        Err(CustodyError::InvalidAmount)
    );
    assert_eq!(bank.balance_of(&vault, &Address::native()), Some(RESERVE));
    assert_eq!(vaults.state(&state).unwrap().total_deposits, 0);
    assert_eq!(
        deposit(&mut vaults, &mut bank, &addr(2), &addr(3), 0),
        Err(CustodyError::InvalidAmount)
    );
}

#[test]
fn deposit_refusals_change_nothing() {
    let (mut vaults, mut bank, owner, state, vault) = opened(RESERVE + 100);
    let native = Address::native();
    assert_eq!(
        deposit(&mut vaults, &mut bank, &owner, &addr(3), 10),
        Err(CustodyError::NotFound)
    );
    bank.fund(&native, &addr(2), 1_000).unwrap();
    assert_eq!(
        deposit(&mut vaults, &mut bank, &addr(2), &state, 10),
        Err(CustodyError::Unauthorized)
    );
    assert_eq!(
        deposit(&mut vaults, &mut bank, &owner, &state, 101),
        Err(CustodyError::InsufficientBalance)
    );
    assert_eq!(bank.balance_of(&vault, &native), Some(RESERVE));
    assert_eq!(bank.balance_of(&owner, &native), Some(100));
    assert_eq!(bank.balance_of(&addr(2), &native), Some(1_000));
    assert_eq!(vaults.state(&state).unwrap().total_deposits, 0);
}

#[test]
fn withdraw_by_a_stranger_is_unauthorized() {
    let (mut vaults, mut bank, owner, state, vault) = opened(5_000_000);
    let native = Address::native();
    deposit(&mut vaults, &mut bank, &owner, &state, 400).unwrap();
    let stranger = addr(2);
    bank.fund(&native, &stranger, 10).unwrap();
    assert_eq!(
        withdraw(&mut vaults, &mut bank, &stranger, &state, 100),
        Err(CustodyError::Unauthorized)
    );
    assert_eq!(
        withdraw(&mut vaults, &mut bank, &stranger, &state, 0),
        Err(CustodyError::Unauthorized)
    );
    assert_eq!(bank.balance_of(&vault, &native), Some(RESERVE + 400));
    assert_eq!(bank.balance_of(&stranger, &native), Some(10));
    assert_eq!(bank.balance_of(&owner, &native), Some(5_000_000 - RESERVE - 400));
}

#[test]
fn deposit_then_withdraw_restores_the_vault() {
    let (mut vaults, mut bank, owner, state, vault) = opened(5_000_000);
    let native = Address::native();
    let before_vault = bank.balance_of(&vault, &native);
    let before_owner = bank.balance_of(&owner, &native);
    assert_eq!(deposit(&mut vaults, &mut bank, &owner, &state, 100), Ok(()));
    assert_eq!(bank.balance_of(&vault, &native), Some(RESERVE + 100));
    assert_eq!(withdraw(&mut vaults, &mut bank, &owner, &state, 100), Ok(()));
    assert_eq!(bank.balance_of(&vault, &native), before_vault);
    assert_eq!(bank.balance_of(&vault, &native), Some(RESERVE));
    assert_eq!(bank.balance_of(&owner, &native), before_owner);
    assert_eq!(vaults.state(&state).unwrap().total_deposits, 100);
}

#[test]
fn withdraw_keeps_the_reserve() {
    let (mut vaults, mut bank, owner, state, vault) = opened(5_000_000);
    let native = Address::native();
    deposit(&mut vaults, &mut bank, &owner, &state, 100).unwrap();
    assert_eq!(
        withdraw(&mut vaults, &mut bank, &owner, &state, 101),
        Err(CustodyError::InsufficientBalance)
    );
    assert_eq!(bank.balance_of(&vault, &native), Some(RESERVE + 100));
    assert_eq!(withdraw(&mut vaults, &mut bank, &owner, &state, 60), Ok(()));
    assert_eq!(withdraw(&mut vaults, &mut bank, &owner, &state, 40), Ok(()));
    assert_eq!(bank.balance_of(&vault, &native), Some(RESERVE));
    assert_eq!(
        withdraw(&mut vaults, &mut bank, &owner, &state, 1),
        Err(CustodyError::InsufficientBalance)
    );
    assert_eq!(bank.balance_of(&owner, &native), Some(5_000_000 - RESERVE));
}

#[test]
fn withdraw_refusals() {
    let (mut vaults, mut bank, owner, state, vault) = opened(5_000_000);
    assert_eq!(
        withdraw(&mut vaults, &mut bank, &owner, &addr(3), 1),
        Err(CustodyError::NotFound)
    );
    assert_eq!(
        withdraw(&mut vaults, &mut bank, &owner, &state, 0),
        Err(CustodyError::InvalidAmount)
    );
    assert_eq!(bank.balance_of(&vault, &Address::native()), Some(RESERVE));
}

#[test]
fn payment_loads_the_accounts() {
    let (vaults, _bank, owner, state, vault) = opened(5_000_000);
    let accounts = vaults.payment(&owner, &state).unwrap();
    assert_eq!(accounts.program, addr(9));
    assert_eq!(accounts.user, owner);
    assert_eq!(accounts.vault, vault);
    assert_eq!(accounts.vault_state_key, state);
    assert_eq!(Some(accounts.vault_state), vaults.state(&state));
    assert_eq!(vaults.payment(&addr(2), &state), Err(CustodyError::Unauthorized));
    assert_eq!(vaults.payment(&owner, &addr(3)), Err(CustodyError::NotFound));
}

#[test]
fn payment_withdraw_with_a_wrong_bump_is_unauthorized() {
    let (vaults, mut bank, owner, state, vault) = opened(5_000_000);
    let native = Address::native();
    bank.fund(&native, &vault, 500).unwrap();
    let good = vaults.payment(&owner, &state).unwrap();
    let mut forged = Payment {
        vault_state: VaultState { vault_bump: good.vault_state.vault_bump - 1, ..good.vault_state },
        ..good
    };
    assert_eq!(forged.withdraw(&mut bank, 100), Err(CustodyError::Unauthorized));
    let mut wrong_parent = Payment { vault_state_key: addr(3), ..good };
    assert_eq!(wrong_parent.withdraw(&mut bank, 100), Err(CustodyError::Unauthorized));
    assert_eq!(bank.balance_of(&vault, &native), Some(RESERVE + 500));
    let mut accounts = good;
    assert_eq!(accounts.withdraw(&mut bank, 100), Ok(()));
    assert_eq!(bank.balance_of(&vault, &native), Some(RESERVE + 400));
    assert_eq!(accounts, good);
}

#[test]
fn payment_deposit_counts_and_refuses_overflow_of_the_count() {
    let native = Address::native();
    let mut bank = Bank::new(0);
    bank.fund(&native, &addr(1), 100).unwrap();
    bank.fund(&native, &addr(5), 0).unwrap();
    let mut accounts = Payment {
        program: addr(9),
        user: addr(1),
        vault: addr(5),
        vault_state_key: addr(6),
        vault_state: VaultState {
            vault_bump: 255,
            state_bump: 255,
            owner: addr(1),
            total_deposits: u64::MAX - 10,
        },
    };
    assert_eq!(accounts.deposit(&mut bank, 11), Err(CustodyError::InvalidAmount));
    assert_eq!(accounts.vault_state.total_deposits, u64::MAX - 10);
    assert_eq!(bank.balance_of(&addr(5), &native), Some(0));
    assert_eq!(accounts.deposit(&mut bank, 10), Ok(()));
    assert_eq!(accounts.vault_state.total_deposits, u64::MAX);
    assert_eq!(bank.balance_of(&addr(5), &native), Some(10));
    assert_eq!(bank.balance_of(&addr(1), &native), Some(90));
}

#[test]
fn initialize_accounts_fill_the_record() {
    let native = Address::native();
    let mut bank = Bank::new(40);
    bank.fund(&native, &addr(1), 100).unwrap();
    bank.fund(&native, &addr(5), 0).unwrap();
    let blank = VaultState { vault_bump: 0, state_bump: 0, owner: native, total_deposits: 9 };
    let mut accounts = Initialize { user: addr(1), vault: addr(5), vault_state: blank };
    let bumps = InitializeBumps { vault: 254, vault_state: 253 };
    assert_eq!(accounts.initialize(&mut bank, &bumps), Ok(()));
    assert_eq!(
        accounts.vault_state,
        VaultState { vault_bump: 254, state_bump: 253, owner: addr(1), total_deposits: 0 }
    );
    assert_eq!(bank.balance_of(&addr(5), &native), Some(40));
    assert_eq!(bank.balance_of(&addr(1), &native), Some(60));
    let mut poor = Initialize { user: addr(2), vault: addr(5), vault_state: blank };
    assert_eq!(poor.initialize(&mut bank, &bumps), Err(CustodyError::NotFound));
    assert_eq!(poor.vault_state, blank);
}

#[test]
fn payment_validate_checks_owner_and_bumps() {
    let (vaults, _bank, owner, state, vault) = opened(5_000_000);
    let record = vaults.state(&state).unwrap();
    let program = addr(9);
    let accounts = Payment::validate(&program, &owner, &state, &record).unwrap();
    assert_eq!(Ok(accounts), vaults.payment(&owner, &state));
    assert_eq!(accounts.vault, vault);
    assert_eq!(
        Payment::validate(&program, &addr(2), &state, &record),
        Err(CustodyError::Unauthorized)
    );
    assert_eq!(
        Payment::validate(&program, &owner, &addr(3), &record),
        Err(CustodyError::Unauthorized)
    );
    assert_eq!(
        Payment::validate(&addr(10), &owner, &state, &record),
        Err(CustodyError::Unauthorized)
    );
    let wrong_bump = VaultState { state_bump: record.state_bump - 1, ..record };
    assert_eq!(
        Payment::validate(&program, &owner, &state, &wrong_bump),
        Err(CustodyError::Unauthorized)
    );
}

#[test]
fn payment_signer_seeds_are_tag_record_and_bump() {
    let (vaults, _bank, owner, state, _vault) = opened(5_000_000);
    let accounts = vaults.payment(&owner, &state).unwrap();
    assert_eq!(
        accounts.signer_seeds(),
        vec![b"vault".to_vec(), state.to_vec(), vec![accounts.vault_state.vault_bump]]
    );
}

#[test]
fn payment_accounts_of_a_stranger_are_unauthorized() {
    let (vaults, mut bank, owner, state, vault) = opened(5_000_000);
    let native = Address::native();
    bank.fund(&native, &vault, 500).unwrap();
    bank.fund(&native, &addr(2), 1_000).unwrap();
    let good = vaults.payment(&owner, &state).unwrap();
    let mut forged = Payment { user: addr(2), ..good };
    assert_eq!(forged.withdraw(&mut bank, 50), Err(CustodyError::Unauthorized));
    assert_eq!(forged.withdraw(&mut bank, 0), Err(CustodyError::Unauthorized));
    assert_eq!(forged.deposit(&mut bank, 50), Err(CustodyError::Unauthorized));
    assert_eq!(forged, Payment { user: addr(2), ..good });
    assert_eq!(bank.balance_of(&vault, &native), Some(RESERVE + 500));
    assert_eq!(bank.balance_of(&addr(2), &native), Some(1_000));
    assert_eq!(bank.balance_of(&owner, &native), Some(5_000_000 - RESERVE));
    let mut accounts = good;
    assert_eq!(accounts.deposit(&mut bank, 0), Err(CustodyError::InvalidAmount));
    assert_eq!(accounts.withdraw(&mut bank, 50), Ok(()));
    assert_eq!(bank.balance_of(&owner, &native), Some(5_000_000 - RESERVE + 50));
}

#[test]
fn payment_deposit_reports_the_shortfall_before_the_count() {
    let native = Address::native();
    let mut bank = Bank::new(0);
    bank.fund(&native, &addr(1), 5).unwrap();
    bank.fund(&native, &addr(5), 0).unwrap();
    let full = VaultState {
        vault_bump: 255,
        state_bump: 255,
        owner: addr(1),
        total_deposits: u64::MAX,
    };
    let mut accounts = Payment {
        program: addr(9),
        user: addr(1),
        vault: addr(5),
        vault_state_key: addr(6),
        vault_state: full,
    };
    assert_eq!(accounts.deposit(&mut bank, 10), Err(CustodyError::InsufficientBalance));
    assert_eq!(accounts.deposit(&mut bank, 5), Err(CustodyError::InvalidAmount));
    assert_eq!(accounts.vault_state, full);
    assert_eq!(bank.balance_of(&addr(1), &native), Some(5));
    assert_eq!(bank.balance_of(&addr(5), &native), Some(0));
    let mut missing = Payment { vault: addr(7), ..accounts };
    assert_eq!(missing.deposit(&mut bank, 5), Err(CustodyError::NotFound));
}

#[test]
fn deposit_reports_the_shortfall_before_the_count() {
    let (mut vaults, mut bank, owner, state, vault) = opened(RESERVE + 100);
    let native = Address::native();
    assert_eq!(
        deposit(&mut vaults, &mut bank, &owner, &state, u64::MAX),
        Err(CustodyError::InsufficientBalance)
    );
    assert_eq!(bank.balance_of(&vault, &native), Some(RESERVE));
    assert_eq!(bank.balance_of(&owner, &native), Some(100));
    assert_eq!(vaults.state(&state).unwrap().total_deposits, 0);
}
