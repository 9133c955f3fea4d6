use erc20_example::Address;
use erc20_example::Erc20Error;
use erc20_example::Erc20Example;
use erc20_example::Error;
use erc20_example::OwnableError;
use erc20_example::U256;
use erc20_example::map_mint_error;

fn addr(s: &str) -> Address {
    Address::from_hex(s).unwrap()
}

#[test]
fn initial_balance_is_zero() {
    let contract = Erc20Example::new();
    let test_address = addr("1234567891234567891234567891234567891234");
    let zero = U256::zero();

    let balance = contract.erc20.balance_of(test_address);
    assert_eq!(balance, zero);
}

#[test]
fn owner_mints_tokens() {
    let mut contract = Erc20Example::new();
    let sender = addr("1111111111111111111111111111111111111111");
    let test_address = addr("1234567891234567891234567891234567891234");
    let ten = U256::from_u64(10);

    contract.ownable._owner = sender;
    let _ = contract.mint(sender, test_address, ten);
    let balance = contract.erc20.balance_of(test_address);

    assert_eq!(balance, ten);
}

#[test]
fn owner_mints_tokens_to_address_zero() {
    let mut contract = Erc20Example::new();
    let sender = addr("1111111111111111111111111111111111111111");
    let test_address = addr("0000000000000000000000000000000000000000");
    let ten = U256::from_u64(10);

    contract.ownable._owner = sender;
    let result = contract.mint(sender, test_address, ten);

    assert!(matches!(result, Err(Error::InvalidReceiver(_))))
}

#[test]
fn not_owner_tries_to_mint_tokens() {
    let mut contract = Erc20Example::new();
    let sender = addr("1111111111111111111111111111111111111111");
    let test_address = addr("1234567891234567891234567891234567891234");
    let not_owner_address = addr("9123456789123456789123456789123456789123");
    let ten = U256::from_u64(10);

    contract.ownable._owner = not_owner_address;
    let result = contract.mint(sender, test_address, ten);

    assert!(matches!(result, Err(Error::Ownable(_))))
}

#[test]
fn mint_accumulates_and_grows_supply() {
    let mut contract = Erc20Example::new();
    let owner = addr("1111111111111111111111111111111111111111");
    let alice = addr("1234567891234567891234567891234567891234");
    let bob = addr("9123456789123456789123456789123456789123");

    contract.ownable._owner = owner;
    assert_eq!(contract.mint(owner, alice, U256::from_u64(10)), Ok(()));
    assert_eq!(contract.mint(owner, alice, U256::from_u64(10)), Ok(()));
    assert_eq!(contract.mint(owner, bob, U256::from_u64(7)), Ok(()));

    assert_eq!(contract.erc20.balance_of(alice), U256::from_u64(20));
    assert_eq!(contract.erc20.balance_of(bob), U256::from_u64(7));
    assert_eq!(contract.erc20.total_supply(), U256::from_u64(27));
}

#[test]
fn failed_mint_changes_nothing() {
    let mut contract = Erc20Example::new();
    let owner = addr("1111111111111111111111111111111111111111");
    let alice = addr("1234567891234567891234567891234567891234");
    let zero_address = addr("0000000000000000000000000000000000000000");

    contract.ownable._owner = owner;
    assert_eq!(contract.mint(owner, alice, U256::from_u64(5)), Ok(()));
    let result = contract.mint(owner, zero_address, U256::from_u64(9));

    assert_eq!(
        result,
        Err(Error::InvalidReceiver(erc20_example::MintInvalidReceiver {
            receiver: zero_address,
        }))
    );
    assert_eq!(contract.erc20.total_supply(), U256::from_u64(5));
    assert_eq!(contract.erc20.balance_of(alice), U256::from_u64(5));
}

#[test]
fn unauthorized_error_names_the_caller() {
    let mut contract = Erc20Example::new();
    let owner = addr("1111111111111111111111111111111111111111");
    let intruder = addr("9123456789123456789123456789123456789123");
    let alice = addr("1234567891234567891234567891234567891234");

    contract.ownable._owner = owner;
    let result = contract.mint(intruder, alice, U256::from_u64(1));

    assert_eq!(
        result,
        Err(Error::Ownable(OwnableError::UnauthorizedAccount {
            account: intruder,
        }))
    );
}

#[test]
fn map_mint_error_keeps_invalid_receiver() {
    let account = addr("1234567891234567891234567891234567891234");
    let value = U256::from_u64(10);
    let ledger_error = Erc20Error::InvalidReceiver {
        receiver: Address::zero(),
    };

    let mapped = map_mint_error(ledger_error, account, value);

    assert_eq!(
        mapped,
        Error::InvalidReceiver(erc20_example::MintInvalidReceiver { receiver: account })
    );
}

#[test]
fn map_mint_error_wraps_other_failures() {
    let account = addr("1234567891234567891234567891234567891234");
    let value = U256::from_u64(10);
    let ledger_error = Erc20Error::InsufficientBalance {
        sender: account,
        balance: U256::zero(),
        needed: value,
    };

    let mapped = map_mint_error(ledger_error, account, value);

    assert_eq!(
        mapped,
        Error::MintError(erc20_example::MintOperationError { account, value })
    );
}

#[test]
fn only_owner_accepts_the_owner_alone() {
    let mut contract = Erc20Example::new();
    let owner = addr("1111111111111111111111111111111111111111");
    let other = addr("9123456789123456789123456789123456789123");
    contract.ownable._owner = owner;

    assert_eq!(contract.ownable.only_owner(owner), Ok(()));
    assert_eq!(
        contract.ownable.only_owner(other),
        Err(OwnableError::UnauthorizedAccount { account: other })
    );
    assert_eq!(contract.ownable.owner(), owner);
}

#[test]
fn from_hex_reads_big_endian_digits() {
    let a = addr("0000000000000000000000000000000000000001");
    assert_eq!(a, Address { hi: 0, lo: 1 });

    let b = addr("00000000000000000000000000000000000000aB");
    assert_eq!(b, Address { hi: 0, lo: 171 });

    let c = addr("8000000000000000000000000000000000000000");
    assert_eq!(c, Address { hi: 0x8000_0000, lo: 0 });

    let d = addr("1234567891234567891234567891234567891234");
    assert_eq!(
        d,
        Address {
            hi: 0x1234_5678,
            lo: 0x9123_4567_8912_3456_7891_2345_6789_1234,
        }
    );
}

#[test]
fn from_hex_rejects_what_is_no_address() {
    assert_eq!(Address::from_hex(""), None);
    assert_eq!(Address::from_hex("123"), None);
    assert_eq!(
        Address::from_hex("123456789123456789123456789123456789123"),
        None
    );
    assert_eq!(
        Address::from_hex("12345678912345678912345678912345678912345"),
        None
    );
    assert_eq!(
        Address::from_hex("123456789123456789123456789123456789123g"),
        None
    );
    assert_eq!(
        Address::from_hex("0x34567891234567891234567891234567891234"),
        None
    );
}

#[test]
fn is_zero_tells_the_zero_address_apart() {
    assert!(Address::zero().is_zero());
    assert!(addr("0000000000000000000000000000000000000000").is_zero());
    assert!(!addr("0000000000000000000000000000000000000001").is_zero());
    assert!(!addr("1000000000000000000000000000000000000000").is_zero());
}

#[test]
fn checked_add_carries_and_overflows() {
    let one = U256::from_u64(1);
    let max_low = U256 {
        l0: u64::MAX,
        l1: 0,
        l2: 0,
        l3: 0,
    };
    let carried = max_low.checked_add(one);
    assert_eq!(
        carried,
        Some(U256 {
            l0: 0,
            l1: 1,
            l2: 0,
            l3: 0,
        })
    );

    let max = U256 {
        l0: u64::MAX,
        l1: u64::MAX,
        l2: u64::MAX,
        l3: u64::MAX,
    };
    assert_eq!(max.checked_add(one), None);
    assert_eq!(max.checked_add(U256::zero()), Some(max));
}

#[test]
fn metadata_starts_empty_with_default_decimals() {
    let contract = Erc20Example::new();
    assert_eq!(contract.metadata.name().as_str(), "");
    assert_eq!(contract.metadata.symbol().as_str(), "");
    assert_eq!(contract.metadata.decimals(), 18);
}
