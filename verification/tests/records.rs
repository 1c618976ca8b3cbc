use accounts::actors::account::AccountRequests;
use accounts::domain::amount::Amount;
use accounts::domain::money::Currency::Bitcoin;
use accounts::records::parse_kind;
use accounts::records::to_request;
use accounts::records::RecordErrors;
use accounts::records::RecordKind;

#[test]
fn kinds_are_read_in_any_case() {
    assert_eq!(parse_kind("deposit"), Some(RecordKind::Deposit));
    assert_eq!(parse_kind("DEPOSIT"), Some(RecordKind::Deposit));
    assert_eq!(parse_kind("WithDrawal"), Some(RecordKind::Withdrawal));
    assert_eq!(parse_kind("dispute"), Some(RecordKind::Dispute));
    assert_eq!(parse_kind("Resolve"), Some(RecordKind::Resolve));
    assert_eq!(parse_kind("chargeBACK"), Some(RecordKind::Chargeback));
}

#[test]
fn unknown_kinds_are_refused() {
    assert_eq!(parse_kind("magic"), None);
    assert_eq!(parse_kind(""), None);
    assert_eq!(parse_kind("deposit "), None);
    assert_eq!(parse_kind("deposi"), None);
    assert_eq!(parse_kind("withdraw"), None);
    assert_eq!(parse_kind("dEPOSIT\u{212A}"), None);
    // a byte 32 below a lower-case letter is a letter only from A to Z
    assert_eq!(parse_kind("deposi\u{54}"), Some(RecordKind::Deposit));
    assert_eq!(parse_kind("d\u{45}posit"), Some(RecordKind::Deposit));
    assert_eq!(parse_kind("\u{44}eposit"), Some(RecordKind::Deposit));
    assert_eq!(parse_kind("@eposit"), None);
    assert_eq!(to_request("magic", 1, 2, None).unwrap_err(), RecordErrors::UnknownType);
}

#[test]
fn records_become_requests() {
    let amount = Amount::new(15, 1).unwrap();
    match to_request("deposit", 1, 2, Some(amount)).unwrap() {
        AccountRequests::DepositRequest(r) => {
            assert_eq!((r.account_id, r.transaction_id), (1, 2));
            assert_eq!(r.amount.currency, Bitcoin);
            assert_eq!((r.amount.amount.mantissa(), r.amount.amount.scale()), (15, 1));
        }
        other => panic!("{other:?}"),
    }
    match to_request("Withdrawal", 3, 4, Some(amount)).unwrap() {
        AccountRequests::WithdrawRequest(r) => {
            assert_eq!((r.account_id, r.transaction_id), (3, 4));
            assert_eq!(r.amount.amount.mantissa(), 15);
        }
        other => panic!("{other:?}"),
    }
    assert!(matches!(
        to_request("dispute", 5, 6, None).unwrap(),
        AccountRequests::DisputeRequest(r) if r.account_id == 5 && r.transaction_id == 6
    ));
    assert!(matches!(
        to_request("resolve", 5, 6, Some(amount)).unwrap(),
        AccountRequests::ResolveRequest(r) if r.account_id == 5 && r.transaction_id == 6
    ));
    assert!(matches!(
        to_request("chargeback", 7, 8, None).unwrap(),
        AccountRequests::ChargebackRequest(r) if r.account_id == 7 && r.transaction_id == 8
    ));
}

#[test]
fn movements_need_an_amount() {
    assert_eq!(to_request("deposit", 1, 2, None).unwrap_err(), RecordErrors::MissingAmount);
    assert_eq!(to_request("withdrawal", 1, 2, None).unwrap_err(), RecordErrors::MissingAmount);
}
