use storefront::order::{
    conclude, needs_flush, page, respond, settle_charge, Outcome, Page, Reason, Settlement,
};
use storefront::pages::Templates;
use storefront::util::{GatewayError, PaymentType};

fn declined() -> GatewayError {
    GatewayError { message: "card declined".to_string() }
}

#[test]
fn written_records_conclude_in_success() {
    assert_eq!(
        conclude(Settlement::Commit("tx-1".to_string()), true),
        Outcome::Success("tx-1".to_string())
    );
}

#[test]
fn unwritten_records_conclude_in_persistence_failed() {
    assert_eq!(
        conclude(Settlement::Commit("tx-1".to_string()), false),
        Outcome::Rejected(Reason::PersistenceFailed)
    );
}

#[test]
fn failed_charge_concludes_as_it_ended() {
    for flushed in [true, false] {
        assert_eq!(
            conclude(Settlement::Done(Outcome::GatewayFailed(declined())), flushed),
            Outcome::GatewayFailed(declined())
        );
    }
}

#[test]
fn refund_concludes_in_rejection() {
    for flushed in [true, false] {
        assert_eq!(
            conclude(Settlement::Refund("tx-1".to_string(), Reason::SoldOut), flushed),
            Outcome::Rejected(Reason::SoldOut)
        );
    }
}

#[test]
fn only_a_commit_is_written() {
    assert!(needs_flush(&Settlement::Commit("tx-1".to_string())));
    assert!(!needs_flush(&Settlement::Refund("tx-1".to_string(), Reason::UnknownTarget)));
    assert!(!needs_flush(&Settlement::Done(Outcome::GatewayFailed(declined()))));
}

#[test]
fn charge_without_records_ends_as_the_gateway_says() {
    assert_eq!(settle_charge(Ok("tx-2".to_string())), Outcome::Success("tx-2".to_string()));
    assert_eq!(settle_charge(Err(declined())), Outcome::GatewayFailed(declined()));
}

#[test]
fn only_success_is_thanked() {
    assert_eq!(page(&Outcome::Success("tx".to_string())), Page::Thanks);
    assert_eq!(page(&Outcome::Rejected(Reason::UnknownTarget)), Page::Error);
    assert_eq!(page(&Outcome::Rejected(Reason::SoldOut)), Page::Error);
    assert_eq!(page(&Outcome::Rejected(Reason::AmountOutOfRange)), Page::Error);
    assert_eq!(page(&Outcome::Rejected(Reason::PersistenceFailed)), Page::Error);
    assert_eq!(page(&Outcome::GatewayFailed(declined())), Page::Error);
}

#[test]
fn response_is_the_page_of_the_outcome() {
    let templates = Templates {
        thanks: "thanks NAME URL".to_string(),
        error: "error NAME URL".to_string(),
        store: String::new(),
        form: String::new(),
        fundraise: String::new(),
        donate: String::new(),
        invoice: String::new(),
    };
    assert_eq!(
        respond(&templates, PaymentType::Donation, &Outcome::Success("tx".to_string())),
        "thanks Donation https://donate.sbhackerspace.com"
    );
    assert_eq!(
        respond(&templates, PaymentType::Invoice, &Outcome::GatewayFailed(declined())),
        "error Invoice https://invoice.sbhackerspace.com"
    );
    assert_eq!(
        respond(
            &templates,
            PaymentType::CourseSignup,
            &Outcome::Rejected(Reason::PersistenceFailed)
        ),
        "error Course Signup https://store.sbhackerspace.com"
    );
}
