use primitive_types::U256;
use wallet_balance::amount::TokenAmount;
use wallet_balance::error::Error;
use wallet_balance::native_token::{FoundryId, NativeToken, NativeTokensBuilder, TokenId};

fn token(tag: u8) -> TokenId {
    let mut bytes = [0u8; 38];
    bytes[0] = tag;
    bytes[37] = tag;
    TokenId(bytes)
}

fn max_amount() -> TokenAmount {
    TokenAmount::max()
}

#[test]
fn largest_amount_has_every_bit_set() {
    assert_eq!(TokenAmount::max(), TokenAmount([u64::MAX; 4]));
    assert_eq!(U256(TokenAmount::max().limbs()), U256::MAX);
}

#[test]
fn amount_from_u64_has_one_limb() {
    assert_eq!(TokenAmount::from_u64(7).limbs(), [7, 0, 0, 0]);
    assert_eq!(TokenAmount::zero().limbs(), [0, 0, 0, 0]);
    assert_eq!(TokenAmount::from_limbs([1, 2, 3, 4]), TokenAmount([1, 2, 3, 4]));
}

#[test]
fn checked_add_adds() {
    let sum = TokenAmount::from_u64(40).checked_add(TokenAmount::from_u64(2));
    assert_eq!(sum, Some(TokenAmount::from_u64(42)));
}

#[test]
fn checked_add_carries_between_limbs() {
    let sum = TokenAmount([u64::MAX, 0, 0, 0]).checked_add(TokenAmount::from_u64(1));
    assert_eq!(sum, Some(TokenAmount([0, 1, 0, 0])));
    let sum = TokenAmount([u64::MAX, u64::MAX, u64::MAX, 0]).checked_add(TokenAmount::from_u64(1));
    assert_eq!(sum, Some(TokenAmount([0, 0, 0, 1])));
}

#[test]
fn checked_add_agrees_with_u256() {
    let a = [0x0123_4567_89ab_cdef, u64::MAX, 17, 0x7fff_ffff_ffff_ffff];
    let b = [0xfedc_ba98_7654_3210, 1, u64::MAX, 0x7000_0000_0000_0000];
    let expected = U256(a).checked_add(U256(b)).unwrap();
    assert_eq!(TokenAmount(a).checked_add(TokenAmount(b)), Some(TokenAmount(expected.0)));
}

#[test]
fn checked_add_fails_beyond_256_bits() {
    assert_eq!(max_amount().checked_add(TokenAmount::from_u64(1)), None);
    assert_eq!(max_amount().checked_add(max_amount()), None);
    assert_eq!(max_amount().checked_add(TokenAmount::zero()), Some(max_amount()));
}

#[test]
fn saturating_sub_subtracts() {
    let difference = TokenAmount::from_u64(42).saturating_sub(TokenAmount::from_u64(2));
    assert_eq!(difference, TokenAmount::from_u64(40));
    let difference = TokenAmount([0, 1, 0, 0]).saturating_sub(TokenAmount::from_u64(1));
    assert_eq!(difference, TokenAmount([u64::MAX, 0, 0, 0]));
}

#[test]
fn saturating_sub_stops_at_zero() {
    let difference = TokenAmount::from_u64(2).saturating_sub(TokenAmount::from_u64(42));
    assert_eq!(difference, TokenAmount::zero());
    assert_eq!(TokenAmount::zero().saturating_sub(max_amount()), TokenAmount::zero());
    assert_eq!(max_amount().saturating_sub(max_amount()), TokenAmount::zero());
}

#[test]
fn foundry_of_a_token_carries_its_bytes() {
    assert_eq!(FoundryId::from_token_id(token(9)), FoundryId(token(9).0));
}

#[test]
fn native_token_getters() {
    let native_token = NativeToken::new(token(1), TokenAmount::from_u64(5));
    assert_eq!(native_token.token_id(), token(1));
    assert_eq!(native_token.amount(), TokenAmount::from_u64(5));
}

#[test]
fn builder_starts_empty() {
    let builder = NativeTokensBuilder::new();
    assert_eq!(builder.len(), 0);
    assert_eq!(builder.total_of(&token(1)), None);
    assert!(builder.finish_set().is_empty());
}

#[test]
fn adding_twice_to_one_token_sums_the_amounts() {
    let mut builder = NativeTokensBuilder::new();
    builder.add_native_token(NativeToken::new(token(1), TokenAmount::from_u64(100))).unwrap();
    builder.add_native_token(NativeToken::new(token(1), TokenAmount::from_u64(23))).unwrap();
    assert_eq!(builder.len(), 1);
    assert_eq!(builder.total_of(&token(1)), Some(TokenAmount::from_u64(123)));
    assert_eq!(
        builder.finish_set(),
        vec![NativeToken::new(token(1), TokenAmount::from_u64(123))]
    );
}

#[test]
fn tokens_come_out_in_the_order_of_first_adding() {
    let mut builder = NativeTokensBuilder::new();
    builder.add_native_token(NativeToken::new(token(3), TokenAmount::from_u64(1))).unwrap();
    builder.add_native_token(NativeToken::new(token(1), TokenAmount::from_u64(2))).unwrap();
    builder.add_native_token(NativeToken::new(token(3), TokenAmount::from_u64(4))).unwrap();
    builder.add_native_token(NativeToken::new(token(2), TokenAmount::from_u64(8))).unwrap();
    assert_eq!(
        builder.finish_set(),
        vec![
            NativeToken::new(token(3), TokenAmount::from_u64(5)),
            NativeToken::new(token(1), TokenAmount::from_u64(2)),
            NativeToken::new(token(2), TokenAmount::from_u64(8)),
        ]
    );
}

#[test]
fn overflowing_add_fails_and_changes_nothing() {
    let mut builder = NativeTokensBuilder::new();
    builder.add_native_token(NativeToken::new(token(1), max_amount())).unwrap();
    builder.add_native_token(NativeToken::new(token(2), TokenAmount::from_u64(5))).unwrap();
    assert_eq!(
        builder.add_native_token(NativeToken::new(token(1), TokenAmount::from_u64(1))),
        Err(Error::NativeTokensOverflow)
    );
    assert_eq!(builder.len(), 2);
    assert_eq!(builder.total_of(&token(1)), Some(max_amount()));
    assert_eq!(builder.total_of(&token(2)), Some(TokenAmount::from_u64(5)));
    // the builder is still usable for amounts that fit
    builder.add_native_token(NativeToken::new(token(1), TokenAmount::zero())).unwrap();
    builder.add_native_token(NativeToken::new(token(2), TokenAmount::from_u64(1))).unwrap();
    assert_eq!(
        builder.finish_set(),
        vec![
            NativeToken::new(token(1), max_amount()),
            NativeToken::new(token(2), TokenAmount::from_u64(6)),
        ]
    );
}

#[test]
fn adding_the_largest_amount_to_a_new_token_succeeds() {
    let mut builder = NativeTokensBuilder::new();
    assert_eq!(builder.add_native_token(NativeToken::new(token(1), max_amount())), Ok(()));
    assert_eq!(builder.total_of(&token(1)), Some(max_amount()));
}

#[test]
fn add_native_tokens_adds_each() {
    let mut builder = NativeTokensBuilder::new();
    let tokens = vec![
        NativeToken::new(token(1), TokenAmount::from_u64(10)),
        NativeToken::new(token(2), TokenAmount::from_u64(20)),
        NativeToken::new(token(1), TokenAmount::from_u64(30)),
    ];
    assert_eq!(builder.add_native_tokens(&tokens), Ok(()));
    assert_eq!(builder.total_of(&token(1)), Some(TokenAmount::from_u64(40)));
    assert_eq!(builder.total_of(&token(2)), Some(TokenAmount::from_u64(20)));
    assert_eq!(builder.add_native_tokens(&Vec::new()), Ok(()));
    assert_eq!(builder.len(), 2);
}

#[test]
fn add_native_tokens_stops_at_the_first_overflow() {
    let mut builder = NativeTokensBuilder::new();
    let tokens = vec![
        NativeToken::new(token(1), TokenAmount::from_u64(10)),
        NativeToken::new(token(2), max_amount()),
        NativeToken::new(token(2), TokenAmount::from_u64(1)),
        NativeToken::new(token(3), TokenAmount::from_u64(7)),
    ];
    assert_eq!(builder.add_native_tokens(&tokens), Err(Error::NativeTokensOverflow));
    assert_eq!(builder.total_of(&token(1)), Some(TokenAmount::from_u64(10)));
    assert_eq!(builder.total_of(&token(2)), Some(max_amount()));
    assert_eq!(builder.total_of(&token(3)), None);
}
