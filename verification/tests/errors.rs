//! The numbers under which errors are reported.

use allowance::Error;

#[test]
fn each_error_has_its_number() {
    assert_eq!(Error::ContractAlreadyInitialized.code(), 1);
    assert_eq!(Error::ContractNotInitialized.code(), 2);
    assert_eq!(Error::InvalidAuth.code(), 3);
    assert_eq!(Error::PartyAlreadyWithdrawn.code(), 4);
    assert_eq!(Error::InvalidInvoker.code(), 5);
    assert_eq!(Error::InvalidArguments.code(), 6);
}

#[test]
fn numbers_lead_back_to_their_errors() {
    assert_eq!(Error::from_code(0), None);
    assert_eq!(Error::from_code(1), Some(Error::ContractAlreadyInitialized));
    assert_eq!(Error::from_code(2), Some(Error::ContractNotInitialized));
    assert_eq!(Error::from_code(3), Some(Error::InvalidAuth));
    assert_eq!(Error::from_code(4), Some(Error::PartyAlreadyWithdrawn));
    assert_eq!(Error::from_code(5), Some(Error::InvalidInvoker));
    assert_eq!(Error::from_code(6), Some(Error::InvalidArguments));
    assert_eq!(Error::from_code(7), None);
    assert_eq!(Error::from_code(u32::MAX), None);
}

#[test]
fn errors_are_ordered_by_their_numbers() {
    assert!(Error::ContractAlreadyInitialized < Error::ContractNotInitialized);
    assert!(Error::InvalidInvoker < Error::InvalidArguments);
    assert_eq!(format!("{:?}", Error::PartyAlreadyWithdrawn), "PartyAlreadyWithdrawn");
}
