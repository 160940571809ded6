//! What every kind of payment shares: the customer's details, the kind of
//! payment, and the two requests that a charge sends to the payment gateway.
//!
//! A charge takes two calls to the gateway. The first registers the customer
//! with the payment method; its answer holds the card with the token under
//! which the method was stored. The second creates the transaction on that
//! token. The caller makes the calls; this module says what goes into each
//! of them and what follows from the first answer.

use vstd::prelude::*;
use vstd::string::StringExecFns;
use crate::money::{amount_text, format_amount};
use crate::pages::{fill, filled, Templates};

verus! {

/// The customer's details as the payment form submits them.
#[derive(Clone, Debug, PartialEq, Eq)]
pub struct Payment {
    pub first_name: String,
    pub last_name: String,
    pub email: String,
    pub address: String,
    pub address2: String,
    pub city: String,
    pub state: String,
    pub payment_method_nonce: String,
    pub company_name: Option<String>,
}

/// The kind of a payment.
#[derive(Clone, Copy, Debug, PartialEq, Eq)]
pub enum PaymentType {
    CourseSignup,
    Donation,
    Invoice,
}

impl PaymentType {
    /// The name of the kind, as shown to the customer and sent to the
    /// gateway.
    pub open spec fn name(self) -> Seq<char> {
        match self {
            PaymentType::CourseSignup => "Course Signup"@,
            PaymentType::Donation => "Donation"@,
            PaymentType::Invoice => "Invoice"@,
        }
    }

    /// The address of the page to which the customer returns after a
    /// payment of this kind.
    pub open spec fn url(self) -> Seq<char> {
        match self {
            PaymentType::CourseSignup => "https://store.sbhackerspace.com"@,
            PaymentType::Donation => "https://donate.sbhackerspace.com"@,
            PaymentType::Invoice => "https://invoice.sbhackerspace.com"@,
        }
    }

    /// The name of the kind.
    pub fn as_str(&self) -> (s: &'static str)
        ensures
            s@ == self.name(),
    {
        match self {
            PaymentType::CourseSignup => "Course Signup",
            PaymentType::Donation => "Donation",
            PaymentType::Invoice => "Invoice",
        }
    }

    /// The address of the page to return to.
    pub fn get_url(&self) -> (s: &'static str)
        ensures
            s@ == self.url(),
    {
        match self {
            PaymentType::CourseSignup => "https://store.sbhackerspace.com",
            PaymentType::Donation => "https://donate.sbhackerspace.com",
            PaymentType::Invoice => "https://invoice.sbhackerspace.com",
        }
    }
}

/// A failed call to the gateway: the payment method was declined, the
/// gateway could not be reached, or it refused the request.
#[derive(Clone, Debug, PartialEq, Eq)]
pub struct GatewayError {
    /// What the gateway, or the way to it, reported.
    pub message: String,
}

/// The billing address sent with a customer.
#[derive(Clone, Debug, PartialEq, Eq)]
pub struct BillingAddress {
    pub first_name: String,
    pub last_name: String,
    pub locality: String,
    pub region: String,
    pub street_address: String,
}

/// The first request of a charge: register the customer and the payment
/// method.
#[derive(Clone, Debug, PartialEq, Eq)]
pub struct CustomerRequest {
    pub email: String,
    pub first_name: String,
    pub last_name: String,
    pub company: Option<String>,
    pub payment_method_nonce: String,
    pub billing_address: BillingAddress,
}

/// The second request of a charge: create the transaction.
#[derive(Clone, Debug, PartialEq, Eq)]
pub struct TransactionRequest {
    /// The amount in dollars with exactly two decimal digits.
    pub amount: String,
    /// The token of the stored payment method, as the gateway gave it.
    pub payment_method_token: Option<String>,
    pub submit_for_settlement: bool,
    pub descriptor_name: String,
    pub descriptor_url: String,
    pub descriptor_phone: String,
    /// Custom field `payment_type`.
    pub payment_type: String,
    /// Custom field `description`.
    pub description: String,
}

/// What a customer request holds for given customer details.
pub open spec fn customer_request_for(payment: Payment, request: CustomerRequest) -> bool {
    &&& request.email == payment.email
    &&& request.first_name == payment.first_name
    &&& request.last_name == payment.last_name
    &&& request.company == payment.company_name
    &&& request.payment_method_nonce == payment.payment_method_nonce
    &&& request.billing_address.first_name == payment.first_name
    &&& request.billing_address.last_name == payment.last_name
    &&& request.billing_address.locality == payment.city
    &&& request.billing_address.region == payment.state
    &&& request.billing_address.street_address == payment.address
}

/// What a transaction request holds for a charge of `price` cents on
/// `token`.
pub open spec fn transaction_request_for(
    price: u64,
    payment_type: PaymentType,
    description: String,
    token: Option<String>,
    request: TransactionRequest,
) -> bool {
    &&& request.amount@ == amount_text(price as nat)
    &&& request.payment_method_token == token
    &&& request.submit_for_settlement
    &&& request.descriptor_name@ == "sbhx   *   product"@
    &&& request.descriptor_url@ == ""@
    &&& request.descriptor_phone@ == "8052422533"@
    &&& request.payment_type@ == payment_type.name()
    &&& request.description == description
}

/// The request that registers the customer of `payment`.
pub fn customer_request(payment: &Payment) -> (request: CustomerRequest)
    ensures
        customer_request_for(*payment, request),
{
    let company = match &payment.company_name {
        Some(c) => Some(c.clone()),
        None => None,
    };
    CustomerRequest {
        email: payment.email.clone(),
        first_name: payment.first_name.clone(),
        last_name: payment.last_name.clone(),
        company,
        payment_method_nonce: payment.payment_method_nonce.clone(),
        billing_address: BillingAddress {
            first_name: payment.first_name.clone(),
            last_name: payment.last_name.clone(),
            locality: payment.city.clone(),
            region: payment.state.clone(),
            street_address: payment.address.clone(),
        },
    }
}

/// What is reported where the gateway registered a customer without a card.
pub const NO_CARD: &'static str = "the gateway registered the customer without a card";

/// Takes the token of the stored payment method from the card of a
/// registered customer. A customer without a card is a malformed answer of
/// the gateway and counts as its failure.
pub fn card_token(card: Option<Option<String>>) -> (r: Result<Option<String>, GatewayError>)
    ensures
        card matches Some(token) ==> r == Ok::<Option<String>, GatewayError>(token),
        card is None ==> r is Err && r->Err_0.message@ == NO_CARD@,
{
    match card {
        Some(token) => Ok(token),
        None => Err(GatewayError { message: String::from_str(NO_CARD) }),
    }
}

/// Decides what follows the gateway's answer to the customer request.
/// `customer` is that answer: the failure, or the card of the registered
/// customer, which is `None` where there is no card and else the token of
/// the card, if it has one. A failure ends the charge with that failure,
/// and so does a customer without a card; no transaction is requested
/// then. Else the transaction is requested for `price` cents on the token
/// that the gateway gave.
pub fn process_payment(
    price: u64,
    payment_type: PaymentType,
    description: &String,
    customer: Result<Option<Option<String>>, GatewayError>,
) -> (r: Result<TransactionRequest, GatewayError>)
    ensures
        customer matches Err(e) ==> r == Err::<TransactionRequest, GatewayError>(e),
        customer matches Ok(None) ==> r is Err && r->Err_0.message@ == NO_CARD@,
        customer matches Ok(Some(token)) ==> r is Ok && transaction_request_for(
            price,
            payment_type,
            *description,
            token,
            r->Ok_0,
        ),
{
    let card = match customer {
        Err(e) => {
            return Err(e);
        },
        Ok(card) => card,
    };
    match card_token(card) {
        Err(e) => Err(e),
        Ok(token) => Ok(
            TransactionRequest {
                amount: format_amount(price),
                payment_method_token: token,
                submit_for_settlement: true,
                descriptor_name: String::from_str("sbhx   *   product"),
                descriptor_url: String::from_str(""),
                descriptor_phone: String::from_str("8052422533"),
                payment_type: String::from_str(payment_type.as_str()),
                description: description.clone(),
            },
        ),
    }
}

/// A page that tells the customer how a payment ended: `NAME` stands for
/// the kind of payment, `URL` for the address to return to.
pub open spec fn notice(template: Seq<char>, payment_type: PaymentType) -> Seq<char> {
    filled(filled(template, "NAME"@, payment_type.name()), "URL"@, payment_type.url())
}

/// The page of thanks for a payment of this kind.
pub fn thanks(templates: &Templates, payment_type: PaymentType) -> (page: String)
    ensures
        page@ == notice(templates.thanks@, payment_type),
{
    let named = fill(templates.thanks.as_str(), "NAME", payment_type.as_str());
    fill(named.as_str(), "URL", payment_type.get_url())
}

/// The page that tells of a failed payment of this kind.
pub fn error(templates: &Templates, payment_type: PaymentType) -> (page: String)
    ensures
        page@ == notice(templates.error@, payment_type),
{
    let named = fill(templates.error.as_str(), "NAME", payment_type.as_str());
    fill(named.as_str(), "URL", payment_type.get_url())
}

} // verus!
