use echo::error::{EchoError, HostError, Rejection, NON_EMPTY_BUFFER};
use echo::processor::assert_with_msg;

#[test]
fn every_kind_has_a_text_of_its_own() {
    let kinds = [
        EchoError::InvalidInstructionData,
        EchoError::NonEmptyBuffer,
        EchoError::NotInitialized,
        EchoError::AddressMismatch,
        EchoError::MissingSigner,
        EchoError::MintMismatch,
        EchoError::OwnerMismatch,
        EchoError::InsufficientBalance,
        EchoError::NotEnoughAccountKeys,
        EchoError::InvalidAccountData,
    ];
    for (i, kind) in kinds.iter().enumerate() {
        assert!(!kind.message().is_empty());
        for other in &kinds[i + 1..] {
            assert_ne!(kind.message(), other.message());
        }
    }
}

#[test]
fn texts_of_the_kinds() {
    assert_eq!(EchoError::InvalidInstructionData.message(), "instruction data is malformed");
    assert_eq!(EchoError::NonEmptyBuffer.message(), "echo buffer already holds data");
    assert_eq!(EchoError::NotInitialized.message(), "echo buffer is not initialized");
    assert_eq!(
        EchoError::AddressMismatch.message(),
        "account address does not match the derived address"
    );
    assert_eq!(EchoError::MissingSigner.message(), "required signer did not sign");
    assert_eq!(EchoError::MintMismatch.message(), "token holding belongs to another mint");
    assert_eq!(EchoError::OwnerMismatch.message(), "token holding is not owned by the user");
    assert_eq!(EchoError::InsufficientBalance.message(), "token holding cannot cover the price");
    assert_eq!(EchoError::NotEnoughAccountKeys.message(), "instruction needs more accounts");
    assert_eq!(EchoError::InvalidAccountData.message(), "token holding cannot be read");
}

#[test]
fn rejection_of_a_kind_carries_its_text() {
    let rejection = Rejection::new(EchoError::MissingSigner);
    assert_eq!(rejection.kind, EchoError::MissingSigner);
    assert_eq!(rejection.message, "required signer did not sign");
}

#[test]
fn assert_with_msg_passes_what_holds() {
    assert_eq!(assert_with_msg(true, EchoError::MissingSigner, "Authority must sign"), Ok(()));
}

#[test]
fn assert_with_msg_rejects_what_does_not_hold() {
    assert_eq!(
        assert_with_msg(false, EchoError::MissingSigner, "Authority must sign"),
        Err(Rejection { kind: EchoError::MissingSigner, message: "Authority must sign" })
    );
    assert_eq!(
        assert_with_msg(false, EchoError::NotInitialized, "echo account not initialized"),
        Err(Rejection {
            kind: EchoError::NotInitialized,
            message: "echo account not initialized"
        })
    );
}

#[test]
fn kinds_with_a_code_of_their_own_are_reported_under_it() {
    assert_eq!(
        EchoError::InvalidInstructionData.reported_as(),
        HostError::InvalidInstructionData
    );
    assert_eq!(EchoError::NotEnoughAccountKeys.reported_as(), HostError::NotEnoughAccountKeys);
    assert_eq!(EchoError::InvalidAccountData.reported_as(), HostError::InvalidAccountData);
    assert_eq!(EchoError::NonEmptyBuffer.reported_as(), HostError::Custom(NON_EMPTY_BUFFER));
    assert_eq!(NON_EMPTY_BUFFER, 1);
}

#[test]
fn failed_authorizations_are_reported_alike() {
    let kinds = [
        EchoError::NotInitialized,
        EchoError::AddressMismatch,
        EchoError::MissingSigner,
        EchoError::MintMismatch,
        EchoError::OwnerMismatch,
        EchoError::InsufficientBalance,
    ];
    for kind in kinds {
        assert_eq!(kind.reported_as(), HostError::MissingRequiredSignature);
    }
}
