use storefront::money::format_amount;
use storefront::pages::Templates;
use storefront::util::{
    card_token, customer_request, error, process_payment, thanks, BillingAddress,
    CustomerRequest, GatewayError, Payment, PaymentType, TransactionRequest, NO_CARD,
};

fn payment() -> Payment {
    Payment {
        first_name: "Ada".to_string(),
        last_name: "Lovelace".to_string(),
        email: "ada@example.org".to_string(),
        address: "12 St James Square".to_string(),
        address2: "Flat 3".to_string(),
        city: "Goleta".to_string(),
        state: "CA".to_string(),
        payment_method_nonce: "nonce-123".to_string(),
        company_name: Some("Analytical Engines".to_string()),
    }
}

#[test]
fn payment_type_names() {
    assert_eq!(PaymentType::CourseSignup.as_str(), "Course Signup");
    assert_eq!(PaymentType::Donation.as_str(), "Donation");
    assert_eq!(PaymentType::Invoice.as_str(), "Invoice");
}

#[test]
fn payment_type_urls() {
    assert_eq!(PaymentType::CourseSignup.get_url(), "https://store.sbhackerspace.com");
    assert_eq!(PaymentType::Donation.get_url(), "https://donate.sbhackerspace.com");
    assert_eq!(PaymentType::Invoice.get_url(), "https://invoice.sbhackerspace.com");
}

#[test]
fn customer_request_copies_the_details() {
    let request = customer_request(&payment());
    assert_eq!(
        request,
        CustomerRequest {
            email: "ada@example.org".to_string(),
            first_name: "Ada".to_string(),
            last_name: "Lovelace".to_string(),
            company: Some("Analytical Engines".to_string()),
            payment_method_nonce: "nonce-123".to_string(),
            billing_address: BillingAddress {
                first_name: "Ada".to_string(),
                last_name: "Lovelace".to_string(),
                locality: "Goleta".to_string(),
                region: "CA".to_string(),
                street_address: "12 St James Square".to_string(),
            },
        }
    );
}

#[test]
fn customer_request_without_a_company() {
    let mut p = payment();
    p.company_name = None;
    assert_eq!(customer_request(&p).company, None);
}

#[test]
fn failed_customer_ends_the_charge() {
    let error = GatewayError { message: "bad nonce".to_string() };
    let r = process_payment(
        5000,
        PaymentType::CourseSignup,
        &"Welding".to_string(),
        Err(error.clone()),
    );
    assert_eq!(r, Err(error));
}

#[test]
fn customer_leads_to_the_transaction_request() {
    let r = process_payment(
        10875,
        PaymentType::Invoice,
        &"Invoice ID #77".to_string(),
        Ok(Some(Some("token-9".to_string()))),
    );
    assert_eq!(
        r,
        Ok(TransactionRequest {
            amount: "108.75".to_string(),
            payment_method_token: Some("token-9".to_string()),
            submit_for_settlement: true,
            descriptor_name: "sbhx   *   product".to_string(),
            descriptor_url: "".to_string(),
            descriptor_phone: "8052422533".to_string(),
            payment_type: "Invoice".to_string(),
            description: "Invoice ID #77".to_string(),
        })
    );
}

#[test]
fn transaction_request_without_a_token() {
    let r = process_payment(1, PaymentType::Donation, &"roof".to_string(), Ok(Some(None))).unwrap();
    assert_eq!(r.payment_method_token, None);
    assert_eq!(r.amount, "0.01");
    assert_eq!(r.payment_type, "Donation");
    assert_eq!(r.description, "roof");
}

#[test]
fn amount_crosses_the_gateway_with_two_decimal_digits() {
    for cents in [0u64, 7, 10, 100, 1999, 100000, 123456789] {
        let r =
            process_payment(cents, PaymentType::Donation, &"x".to_string(), Ok(Some(None))).unwrap();
        assert_eq!(r.amount, format_amount(cents));
        let dot = r.amount.find('.').unwrap();
        assert_eq!(r.amount.len() - dot, 3);
        assert!(r.amount.chars().all(|c| c == '.' || c.is_ascii_digit()));
    }
}

fn templates() -> Templates {
    Templates {
        thanks: "<p>Thanks for your NAME. <a href=\"URL\">Back to URL</a></p>".to_string(),
        error: "<p>Your NAME failed. <a href=\"URL\">Back</a></p>".to_string(),
        store: String::new(),
        form: String::new(),
        fundraise: String::new(),
        donate: String::new(),
        invoice: String::new(),
    }
}

#[test]
fn thanks_names_the_kind_and_the_way_back() {
    assert_eq!(
        thanks(&templates(), PaymentType::Donation),
        "<p>Thanks for your Donation. <a href=\"https://donate.sbhackerspace.com\">Back to https://donate.sbhackerspace.com</a></p>"
    );
    assert_eq!(
        thanks(&templates(), PaymentType::CourseSignup),
        "<p>Thanks for your Course Signup. <a href=\"https://store.sbhackerspace.com\">Back to https://store.sbhackerspace.com</a></p>"
    );
}

#[test]
fn error_names_the_kind_and_the_way_back() {
    assert_eq!(
        error(&templates(), PaymentType::Invoice),
        "<p>Your Invoice failed. <a href=\"https://invoice.sbhackerspace.com\">Back</a></p>"
    );
}

#[test]
fn customer_without_a_card_is_a_gateway_failure() {
    let r = process_payment(5000, PaymentType::CourseSignup, &"Welding".to_string(), Ok(None));
    assert_eq!(r, Err(GatewayError { message: NO_CARD.to_string() }));
    assert_eq!(NO_CARD, "the gateway registered the customer without a card");
}

#[test]
fn token_is_taken_from_the_card() {
    assert_eq!(card_token(Some(Some("token-9".to_string()))), Ok(Some("token-9".to_string())));
    assert_eq!(card_token(Some(None)), Ok(None));
    assert_eq!(card_token(None), Err(GatewayError { message: NO_CARD.to_string() }));
}
