use apollo_vault::{BlockInfo, Claim, Claims, ContractError, Expiration, DEFAULT_LIMIT};

const OWNER: &str = "owner";
const NOT_OWNER: &str = "not_owner";
const BASE_TOKEN_AMOUNT: u128 = 100;
const EXPIRATION: Expiration = Expiration::AtHeight(100);

fn owner() -> String {
    OWNER.to_string()
}

fn setup_pending_claim(lock_id: Option<u64>) -> Claims {
    let mut claims = Claims::new();
    claims
        .create_pending_claim(&owner(), BASE_TOKEN_AMOUNT, EXPIRATION, lock_id)
        .unwrap();
    claims
}

fn block_at_height(height: u64) -> BlockInfo {
    BlockInfo { height, time_nanos: 1_571_797_419_879_305_533 }
}

#[test]
fn test_create_pending_claim_without_id() {
    let mut claims = setup_pending_claim(None);

    let pending_claim = claims.get_pending_claim().unwrap();
    assert_eq!(
        pending_claim,
        Claim { id: 0, owner: owner(), base_token_amount: BASE_TOKEN_AMOUNT, release_at: EXPIRATION }
    );

    let err = claims
        .create_pending_claim(&owner(), BASE_TOKEN_AMOUNT, EXPIRATION, None)
        .unwrap_err();
    assert_eq!(err, ContractError::PendingClaimExists);
}

#[test]
fn test_create_pending_claim_with_id() {
    let lock_id = 1;
    let claims = setup_pending_claim(Some(lock_id));

    let pending_claim = claims.get_pending_claim().unwrap();
    assert_eq!(
        pending_claim,
        Claim { id: lock_id, owner: owner(), base_token_amount: BASE_TOKEN_AMOUNT, release_at: EXPIRATION }
    );

    // The default id was not advanced.
    assert_eq!(claims.next_claim_id(), 0);
}

#[test]
fn test_set_pending_claim() {
    let mut claims = setup_pending_claim(None);

    let expiration = Expiration::AtHeight(200);
    let base_token_amount = 200u128;
    let owner = NOT_OWNER.to_string();
    let id = 1;
    claims.set_pending_claim(Claim {
        id,
        owner: owner.clone(),
        release_at: expiration,
        base_token_amount,
    });

    let pending_claim = claims.get_pending_claim().unwrap();
    assert_eq!(pending_claim, Claim { id, owner, base_token_amount, release_at: expiration });
}

#[test]
fn test_get_pending_claim() {
    let claims = setup_pending_claim(None);

    let pending_claim = claims.get_pending_claim().unwrap();
    assert_eq!(
        pending_claim,
        Claim { id: 0, owner: owner(), base_token_amount: BASE_TOKEN_AMOUNT, release_at: EXPIRATION }
    );
}

#[test]
fn test_commit_pending_claim() {
    let mut claims = setup_pending_claim(None);

    claims.commit_pending_claim().unwrap();

    // The pending claim is gone.
    assert!(claims.get_pending_claim().is_err());

    // The claim is in the ledger.
    let claim = claims.query_claim_by_id(0).unwrap();
    assert_eq!(
        claim,
        Claim { id: 0, owner: owner(), base_token_amount: BASE_TOKEN_AMOUNT, release_at: EXPIRATION }
    );

    // The default id was advanced.
    assert_eq!(claims.next_claim_id(), 1);

    claims
        .create_pending_claim(&owner(), BASE_TOKEN_AMOUNT, EXPIRATION, None)
        .unwrap();

    let pending_claim = claims.get_pending_claim().unwrap();
    assert_eq!(pending_claim.id, 1);
}

fn claim_tokens_case(block_height: u64, sender: &str) -> Result<u128, ContractError> {
    let mut claims = setup_pending_claim(None);
    claims.commit_pending_claim().unwrap();

    match claims.claim_tokens(&block_at_height(block_height), &sender.to_string(), 0) {
        Ok(amount) => {
            assert!(claims.query_claim_by_id(0).is_err());
            Ok(amount)
        }
        Err(err) => {
            assert!(claims.query_claim_by_id(0).is_ok());
            Err(err)
        }
    }
}

#[test]
fn test_claim_tokens_not_owned_by_sender() {
    assert_eq!(claim_tokens_case(100, NOT_OWNER), Err(ContractError::ClaimNotOwned));
}

#[test]
fn test_claim_tokens_owned_by_sender() {
    assert_eq!(claim_tokens_case(100, OWNER), Ok(BASE_TOKEN_AMOUNT));
}

#[test]
fn test_claim_tokens_not_yet_matured() {
    assert_eq!(claim_tokens_case(99, OWNER), Err(ContractError::ClaimNotMatured));
}

#[test]
fn test_claim_tokens_unknown_id() {
    let mut claims = setup_pending_claim(None);
    claims.commit_pending_claim().unwrap();
    assert_eq!(
        claims.claim_tokens(&block_at_height(100), &owner(), 7),
        Err(ContractError::ClaimNotFound)
    );
}

fn force_unlock_case(claim_amount: Option<u128>, sender: &str) -> Result<u128, ContractError> {
    let mut claims = setup_pending_claim(None);
    claims.commit_pending_claim().unwrap();

    match claims.force_claim(&sender.to_string(), 0, claim_amount) {
        Ok(amount) => {
            if amount == BASE_TOKEN_AMOUNT {
                assert!(claims.query_claim_by_id(0).is_err());
            } else {
                assert_eq!(
                    claims.query_claim_by_id(0).unwrap().base_token_amount,
                    BASE_TOKEN_AMOUNT - amount
                );
            }
            Ok(amount)
        }
        Err(err) => {
            assert!(claims.query_claim_by_id(0).is_ok());
            Err(err)
        }
    }
}

#[test]
fn test_force_unlock_sender_is_owner() {
    assert_eq!(force_unlock_case(None, OWNER), Ok(BASE_TOKEN_AMOUNT));
}

#[test]
fn test_force_unlock_sender_is_not_owner() {
    assert_eq!(force_unlock_case(None, NOT_OWNER), Err(ContractError::ClaimNotOwned));
}

#[test]
fn test_force_unlock_amount_less_than_claim() {
    assert_eq!(force_unlock_case(Some(99), OWNER), Ok(99));
}

#[test]
fn test_force_unlock_amount_above_claim() {
    assert_eq!(force_unlock_case(Some(101), OWNER), Err(ContractError::ClaimAmountExceeded));
}

#[test]
fn test_force_unlock_partial_then_rest() {
    let mut claims = setup_pending_claim(None);
    claims.commit_pending_claim().unwrap();
    assert_eq!(claims.force_claim(&owner(), 0, Some(40)), Ok(40));
    assert_eq!(claims.query_claim_by_id(0).unwrap().base_token_amount, 60);
    assert_eq!(claims.force_claim(&owner(), 0, Some(61)), Err(ContractError::ClaimAmountExceeded));
    assert_eq!(claims.force_claim(&owner(), 0, Some(60)), Ok(60));
    assert_eq!(claims.query_claim_by_id(0), Err(ContractError::ClaimNotFound));
}

#[test]
fn test_query_claim_by_id_exists() {
    let mut claims = setup_pending_claim(None);
    claims.commit_pending_claim().unwrap();
    assert_eq!(
        claims.query_claim_by_id(0),
        Ok(Claim { id: 0, owner: owner(), base_token_amount: BASE_TOKEN_AMOUNT, release_at: EXPIRATION })
    );
}

#[test]
fn test_query_claim_by_id_does_not_exist() {
    let mut claims = setup_pending_claim(None);
    claims.commit_pending_claim().unwrap();
    assert!(claims.query_claim_by_id(1).is_err());
}

fn expected_claims(start_id: u64, n: u32) -> Vec<Claim> {
    (start_id..start_id + n as u64)
        .map(|id| Claim { id, owner: owner(), base_token_amount: BASE_TOKEN_AMOUNT, release_at: EXPIRATION })
        .collect()
}

fn hundred_claims() -> Claims {
    let mut claims = Claims::new();
    for _ in 0..100 {
        claims
            .create_pending_claim(&owner(), BASE_TOKEN_AMOUNT, EXPIRATION, None)
            .unwrap();
        claims.commit_pending_claim().unwrap();
    }
    claims
}

fn page(claims: &Claims, start_after: Option<u64>, limit: Option<u32>) -> Vec<Claim> {
    claims
        .query_claims_for_owner(&owner(), start_after, limit)
        .into_iter()
        .map(|(id, c)| {
            assert_eq!(id, c.id);
            c
        })
        .collect()
}

#[test]
fn test_query_claims_for_owner_default_pagination() {
    assert_eq!(page(&hundred_claims(), None, None), expected_claims(0, DEFAULT_LIMIT));
}

#[test]
fn test_query_claims_for_owner_with_limit() {
    assert_eq!(page(&hundred_claims(), None, Some(31)), expected_claims(0, 31));
}

#[test]
fn test_query_claims_for_owner_with_start_id() {
    assert_eq!(page(&hundred_claims(), Some(1), None), expected_claims(2, DEFAULT_LIMIT));
}

#[test]
fn test_query_claims_for_owner_with_start_id_and_limit() {
    assert_eq!(page(&hundred_claims(), Some(1), Some(31)), expected_claims(2, 31));
}

#[test]
fn test_query_claims_for_owner_skips_other_owners() {
    let mut claims = Claims::new();
    for i in 0..6u64 {
        let who = if i % 2 == 0 { OWNER } else { NOT_OWNER };
        claims
            .create_pending_claim(&who.to_string(), BASE_TOKEN_AMOUNT, EXPIRATION, None)
            .unwrap();
        claims.commit_pending_claim().unwrap();
    }
    let ids: Vec<u64> = page(&claims, None, None).iter().map(|c| c.id).collect();
    assert_eq!(ids, vec![0, 2, 4]);
    let ids: Vec<u64> = page(&claims, Some(2), Some(5)).iter().map(|c| c.id).collect();
    assert_eq!(ids, vec![4]);
}

#[test]
fn commit_keeps_ids_ordered_and_rejects_duplicates() {
    let mut claims = Claims::new();
    for id in [7u64, 3, 5] {
        claims.create_pending_claim(&owner(), 1, EXPIRATION, Some(id)).unwrap();
        claims.commit_pending_claim().unwrap();
    }
    assert_eq!(claims.next_claim_id(), 8);
    let ids: Vec<u64> = page(&claims, None, None).iter().map(|c| c.id).collect();
    assert_eq!(ids, vec![3, 5, 7]);

    claims.create_pending_claim(&owner(), 1, EXPIRATION, Some(5)).unwrap();
    assert_eq!(claims.commit_pending_claim(), Err(ContractError::DuplicateClaimId));
    // The pending claim stays staged after a failed commit.
    assert_eq!(claims.get_pending_claim().unwrap().id, 5);
}

#[test]
fn default_ids_are_not_reused_after_removal() {
    let mut claims = Claims::new();
    for _ in 0..3 {
        claims.create_pending_claim(&owner(), 1, EXPIRATION, None).unwrap();
        claims.commit_pending_claim().unwrap();
    }
    assert_eq!(claims.claim_tokens(&block_at_height(100), &owner(), 2), Ok(1));
    claims.create_pending_claim(&owner(), 1, EXPIRATION, None).unwrap();
    assert_eq!(claims.get_pending_claim().unwrap().id, 3);
    claims.commit_pending_claim().unwrap();
    let ids: Vec<u64> = page(&claims, None, None).iter().map(|c| c.id).collect();
    assert_eq!(ids, vec![0, 1, 3]);
}

#[test]
fn commit_without_pending_claim_fails() {
    let mut claims = Claims::new();
    assert_eq!(claims.commit_pending_claim(), Err(ContractError::NoPendingClaim));
    assert_eq!(claims.get_pending_claim(), Err(ContractError::NoPendingClaim));
}

#[test]
fn commit_of_largest_id_overflows() {
    let mut claims = Claims::new();
    claims.create_pending_claim(&owner(), 1, EXPIRATION, Some(u64::MAX)).unwrap();
    assert_eq!(claims.commit_pending_claim(), Err(ContractError::Overflow));
}

#[test]
fn second_pending_claim_fails_whatever_its_parameters() {
    let mut claims = setup_pending_claim(Some(9));
    assert_eq!(
        claims.create_pending_claim(&NOT_OWNER.to_string(), 5, Expiration::Never, Some(10)),
        Err(ContractError::PendingClaimExists)
    );
    assert_eq!(claims.get_pending_claim().unwrap().id, 9);
}

#[test]
fn expiration_by_time_and_never() {
    let at_time = Expiration::AtTime(1_000);
    assert!(!at_time.is_expired(&BlockInfo { height: 0, time_nanos: 999 }));
    assert!(at_time.is_expired(&BlockInfo { height: 0, time_nanos: 1_000 }));
    assert!(!Expiration::Never.is_expired(&BlockInfo { height: u64::MAX, time_nanos: u64::MAX }));
}
