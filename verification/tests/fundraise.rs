use storefront::fundraise::{
    entries, fundraiser_page, fundraisers_page, process_donation, record_donation, Donation,
    Fundraiser,
};
use storefront::pages::Templates;
use storefront::order::{conclude, Charge, Decision, Outcome, Reason, Settlement};
use storefront::records::Store;
use storefront::util::{GatewayError, Payment, PaymentType};

fn payment() -> Payment {
    Payment {
        first_name: "Ada".to_string(),
        last_name: "Lovelace".to_string(),
        email: "ada@example.org".to_string(),
        address: "12 St James Square".to_string(),
        address2: "".to_string(),
        city: "Goleta".to_string(),
        state: "CA".to_string(),
        payment_method_nonce: "nonce-123".to_string(),
        company_name: None,
    }
}

fn fundraiser(name: &str, goal: u64, raised: u64) -> Fundraiser {
    Fundraiser {
        name: name.to_string(),
        goal,
        amount_raised: raised,
        formname: "roof".to_string(),
        image: "assets/roof.png".to_string(),
        description: "A roof that does not leak".to_string(),
    }
}

fn fundraisers(raised: u64) -> Store<Fundraiser> {
    let mut funds = Store::new();
    funds.insert("roof".to_string(), fundraiser("New Roof", 500000, raised));
    funds.insert("lathe".to_string(), fundraiser("Lathe", 90000, 100));
    funds
}

fn donation(to: &str, amount: u64) -> Donation {
    Donation { amount, fundraiser_name: to.to_string(), payment: payment() }
}

fn declined() -> GatewayError {
    GatewayError { message: "card declined".to_string() }
}

fn raised(funds: &Store<Fundraiser>, key: &str) -> u64 {
    funds.get(&key.to_string()).unwrap().amount_raised
}

/// One whole donation whose charge succeeds, as a caller holding the lock
/// runs it. Returns the number of calls to the gateway.
fn give(funds: &mut Store<Fundraiser>, d: &Donation, id: &str) -> (Outcome, usize) {
    match process_donation(funds, d) {
        Decision::Reject(reason) => (Outcome::Rejected(reason), 0),
        Decision::Charge(_) => {
            let settlement = record_donation(funds, d, Ok(id.to_string()));
            (conclude(settlement, true), 1)
        }
    }
}

#[test]
fn donation_to_an_unknown_fundraiser_is_rejected() {
    let funds = fundraisers(0);
    assert_eq!(
        process_donation(&funds, &donation("pool", 1000)),
        Decision::Reject(Reason::UnknownTarget)
    );
}

#[test]
fn donation_charges_the_donated_amount() {
    let funds = fundraisers(0);
    assert_eq!(
        process_donation(&funds, &donation("roof", 2500)),
        Decision::Charge(Charge {
            amount: 2500,
            payment_type: PaymentType::Donation,
            description: "roof".to_string(),
        })
    );
}

#[test]
fn donation_beyond_the_largest_total_is_rejected() {
    let funds = fundraisers(u64::MAX - 10);
    assert_eq!(
        process_donation(&funds, &donation("roof", 11)),
        Decision::Reject(Reason::AmountOutOfRange)
    );
    assert!(matches!(process_donation(&funds, &donation("roof", 10)), Decision::Charge(_)));
}

#[test]
fn successful_charge_is_added_once() {
    let mut funds = fundraisers(7000);
    let before = funds.get(&"roof".to_string()).unwrap().clone();
    let s = record_donation(&mut funds, &donation("roof", 2500), Ok("tx-1".to_string()));
    assert_eq!(s, Settlement::Commit("tx-1".to_string()));
    let after = funds.get(&"roof".to_string()).unwrap().clone();
    assert_eq!(after, Fundraiser { amount_raised: 9500, ..before });
    assert_eq!(raised(&funds, "lathe"), 100);
    assert_eq!(funds.len(), 2);
}

#[test]
fn failed_charge_adds_nothing() {
    let mut funds = fundraisers(7000);
    let s = record_donation(&mut funds, &donation("roof", 2500), Err(declined()));
    assert_eq!(s, Settlement::Done(Outcome::GatewayFailed(declined())));
    assert_eq!(raised(&funds, "roof"), 7000);
}

#[test]
fn charge_that_no_longer_fits_is_to_be_refunded() {
    let mut funds = fundraisers(u64::MAX);
    let s = record_donation(&mut funds, &donation("roof", 1), Ok("tx-1".to_string()));
    assert_eq!(s, Settlement::Refund("tx-1".to_string(), Reason::AmountOutOfRange));
    assert_eq!(raised(&funds, "roof"), u64::MAX);
    let s = record_donation(&mut funds, &donation("pool", 1), Ok("tx-2".to_string()));
    assert_eq!(s, Settlement::Refund("tx-2".to_string(), Reason::UnknownTarget));
}

#[test]
fn donations_may_exceed_the_goal() {
    let mut funds = fundraisers(499900);
    let (outcome, _) = give(&mut funds, &donation("roof", 1000), "tx-1");
    assert_eq!(outcome, Outcome::Success("tx-1".to_string()));
    assert_eq!(raised(&funds, "roof"), 500900);
}

#[test]
fn donations_add_up_in_any_order() {
    let amounts = [2500u64, 1, 99999, 0, 42];
    let mut forward = fundraisers(7000);
    for a in amounts.iter() {
        let (outcome, calls) = give(&mut forward, &donation("roof", *a), "tx");
        assert_eq!(outcome, Outcome::Success("tx".to_string()));
        assert_eq!(calls, 1);
    }
    let mut backward = fundraisers(7000);
    for a in amounts.iter().rev() {
        give(&mut backward, &donation("roof", *a), "tx");
    }
    assert_eq!(raised(&forward, "roof"), 7000 + 2500 + 1 + 99999 + 0 + 42);
    assert_eq!(raised(&backward, "roof"), raised(&forward, "roof"));
    assert_eq!(raised(&forward, "lathe"), 100);
}

#[test]
fn raised_amount_never_falls() {
    let mut funds = fundraisers(7000);
    let mut last = raised(&funds, "roof");
    let answers = [Ok("a".to_string()), Err(declined()), Ok("b".to_string())];
    for (i, answer) in answers.iter().enumerate() {
        record_donation(&mut funds, &donation("roof", 100 * i as u64), answer.clone());
        assert!(raised(&funds, "roof") >= last);
        last = raised(&funds, "roof");
    }
    assert_eq!(last, 7000 + 0 + 200);
}

#[test]
fn gateway_is_not_called_for_a_rejected_donation() {
    let mut funds = fundraisers(7000);
    let (outcome, calls) = give(&mut funds, &donation("pool", 100), "tx");
    assert_eq!(outcome, Outcome::Rejected(Reason::UnknownTarget));
    assert_eq!(calls, 0);
    assert_eq!(raised(&funds, "roof"), 7000);
}

#[test]
fn donation_button() {
    assert_eq!(
        fundraiser("New Roof", 1, 0).get_button(),
        "<a href=\"roof\" class=\"w-50 btn btn-lg btn-success\" role=\"button\">Donate Now</a>"
    );
}

fn expected_entry(f: &Fundraiser, percent: i32, raised: i32, goal: i32) -> String {
    format!("<div class=\"col-md-6 col-lg-4 g-mb-30\"><article class=\"u-shadow-v18 g-bg-white text-center rounded g-px-20 g-py-40 g-mb-5\">
            <img class=\"d-inline-block img-fluid mb-4\" Width=\"400\" Height=\"200\" src=\"{}\" alt=\"Image Description\">
            <h4 class=\"h5 g-color-black g-font-weight-600 g-mb-10\">{}</h4>
            <p> {} </p>
            <div class=\"progress\">
              <div class=\"progress-bar bg-success\" role=\"progressbar\" style=\"width: {}%\" aria-valuenow=\"{}\" aria-valuemin=\"0\" aria-valuemax=\"{}\">${} of ${} Raised</div>
            </div>
            <p>  </p>
            {}
            </article></div>",
        f.image, f.name, f.description, percent, raised, goal, raised, goal, f.get_button())
}

#[test]
fn entry_of_a_fundraiser() {
    let f = fundraiser("New Roof", 500000, 125099);
    assert_eq!(f.get_entry(), expected_entry(&f, 25, 1250, 5000));
    let f = fundraiser("New Roof", 300, 100);
    assert_eq!(f.get_entry(), expected_entry(&f, 33, 1, 3));
    let f = fundraiser("New Roof", 10000, 25000);
    assert_eq!(f.get_entry(), expected_entry(&f, 250, 250, 100));
}

#[test]
fn entry_of_a_fundraiser_without_a_goal() {
    let f = fundraiser("New Roof", 0, 0);
    assert_eq!(f.get_entry(), expected_entry(&f, 0, 0, 0));
    let f = fundraiser("New Roof", 0, 100);
    assert_eq!(f.get_entry(), expected_entry(&f, i32::MAX, 1, 0));
}

#[test]
fn entry_of_the_largest_amounts() {
    let f = fundraiser("New Roof", 1, u64::MAX);
    assert_eq!(f.get_entry(), expected_entry(&f, i32::MAX, i32::MAX, 0));
    let f = fundraiser("New Roof", u64::MAX, u64::MAX);
    assert_eq!(f.get_entry(), expected_entry(&f, 100, i32::MAX, i32::MAX));
}

#[test]
fn listing_holds_each_fundraiser_in_order() {
    let funds = fundraisers(7000);
    let roof = funds.get(&"roof".to_string()).unwrap().get_entry();
    let lathe = funds.get(&"lathe".to_string()).unwrap().get_entry();
    // by ascending key, though the store was filled the other way round
    assert_eq!(entries(&funds), format!("{}{}", lathe, roof));
}

fn templates() -> Templates {
    Templates {
        thanks: "<p>Thanks for your NAME. <a href=\"URL\">Back</a></p>".to_string(),
        error: "<p>Your NAME failed. <a href=\"URL\">Back</a></p>".to_string(),
        store: "<html><body>ITEMS</body></html>".to_string(),
        form: "<form id=\"COURSETYPE\">PRICE - DISCOUNT = TOTAL CLIENT_TOKEN_FROM_SERVER</form>".to_string(),
        fundraise: "<html>FUNDRAISERS</html>".to_string(),
        donate: "<form id=\"FORMNAME\"><h1>NAME</h1><p>DESCRIPTION</p>CLIENT_TOKEN_FROM_SERVER</form>".to_string(),
        invoice: "#INVOICE_ID: PRICE + TAX = TOTAL [CLIENT_TOKEN_FROM_SERVER]".to_string(),
    }
}

#[test]
fn fundraisers_page_holds_the_listing() {
    let funds = fundraisers(7000);
    assert_eq!(
        fundraisers_page(&templates(), &funds),
        format!("<html>{}</html>", entries(&funds))
    );
}

#[test]
fn form_of_a_fundraiser() {
    let funds = fundraisers(7000);
    assert_eq!(
        fundraiser_page(&templates(), &funds, &"roof".to_string(), "tok-1"),
        Some(
            "<form id=\"roof\"><h1>New Roof</h1><p>A roof that does not leak</p>tok-1</form>"
                .to_string()
        )
    );
    assert_eq!(fundraiser_page(&templates(), &funds, &"pool".to_string(), "tok-1"), None);
}

#[test]
fn form_name_is_filled_in_before_the_name() {
    let mut funds = Store::new();
    let mut f = fundraiser("The NAME of things", 1, 0);
    f.formname = "form".to_string();
    f.description = "DESCRIPTION and CLIENT_TOKEN_FROM_SERVER".to_string();
    funds.insert("k".to_string(), f);
    // what was put in for NAME is not searched for NAME again, but it is
    // searched for the words that are filled in after it
    assert_eq!(
        fundraiser_page(&templates(), &funds, &"k".to_string(), "tok"),
        Some(
            "<form id=\"form\"><h1>The NAME of things</h1><p>DESCRIPTION and tok</p>tok</form>"
                .to_string()
        )
    );
}
