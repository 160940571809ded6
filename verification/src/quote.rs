//! Invoices: what one shows and what it charges.

use vstd::prelude::*;
use vstd::string::StringExecFns;
use crate::money::{amount_text, format_amount, invoice_amounts, invoice_tax, invoice_total};
use crate::order::{Charge, Decision, Reason};
use crate::pages::{fill, filled, Templates};
use crate::util::{Payment, PaymentType};

verus! {

/// An invoice, as its page or its payment form submits it.
#[derive(Clone, Debug, PartialEq, Eq)]
pub struct Invoice {
    /// The price in cents, before tax and fees.
    pub price: u64,
    pub invoice_id: String,
    pub due_date: Option<String>,
    /// `Some(true)` where no sales tax is due.
    pub disable_sales_tax: Option<bool>,
    /// Fees in cents.
    pub fees: Option<u64>,
    pub payment: Payment,
}

impl Invoice {
    /// Whether sales tax is left out.
    pub open spec fn tax_disabled(self) -> bool {
        self.disable_sales_tax == Some(true)
    }

    /// The fees, zero where none are given.
    pub open spec fn fees_due(self) -> nat {
        match self.fees {
            Some(f) => f as nat,
            None => 0,
        }
    }

    /// Sales tax and fees, in cents.
    pub open spec fn tax(self) -> nat {
        invoice_tax(self.price as nat, self.tax_disabled(), self.fees_due())
    }

    /// The price with tax and fees, in cents.
    pub open spec fn total(self) -> nat {
        invoice_total(self.price as nat, self.tax_disabled(), self.fees_due())
    }

    /// What the charge for this invoice is described as.
    pub open spec fn description(self) -> Seq<char> {
        "Invoice ID #"@ + self.invoice_id@
    }
}

/// The page of an invoice. `PRICE` stands for its price, `INVOICE_ID` for
/// its identifier, `CLIENT_TOKEN_FROM_SERVER` for the token that the
/// gateway gave for this page, `TOTAL` for the price with tax and fees, and
/// `TAX` for tax and fees; each amount is in dollars with two decimal
/// digits. They are filled in in this order.
pub open spec fn invoice_page(template: Seq<char>, invoice: Invoice, client_token: Seq<char>) -> Seq<
    char,
> {
    let priced = filled(template, "PRICE"@, amount_text(invoice.price as nat));
    let identified = filled(priced, "INVOICE_ID"@, invoice.invoice_id@);
    let tokened = filled(identified, "CLIENT_TOKEN_FROM_SERVER"@, client_token);
    let summed = filled(tokened, "TOTAL"@, amount_text(invoice.total()));
    filled(summed, "TAX"@, amount_text(invoice.tax()))
}

/// Writes the page of an invoice; `None` exactly where price, tax and fees
/// together do not fit in 64 bits of cents.
pub fn invoice(templates: &Templates, submitted: &Invoice, client_token: &str) -> (page: Option<
    String,
>)
    ensures
        page is Some <==> submitted.total() <= u64::MAX,
        page matches Some(text) ==> text@ == invoice_page(
            templates.invoice@,
            *submitted,
            client_token@,
        ),
{
    match invoice_amounts(submitted.price, submitted.disable_sales_tax, submitted.fees) {
        None => None,
        Some(amounts) => {
            let priced = fill(
                templates.invoice.as_str(),
                "PRICE",
                format_amount(submitted.price).as_str(),
            );
            let identified = fill(priced.as_str(), "INVOICE_ID", submitted.invoice_id.as_str());
            let tokened = fill(identified.as_str(), "CLIENT_TOKEN_FROM_SERVER", client_token);
            let summed = fill(tokened.as_str(), "TOTAL", format_amount(amounts.total).as_str());
            Some(fill(summed.as_str(), "TAX", format_amount(amounts.tax).as_str()))
        },
    }
}

/// Checks the payment of an invoice. It is rejected, and the gateway not
/// called, where price, tax and fees together do not fit in 64 bits of
/// cents. Else their sum is to be charged, described by the invoice's
/// identifier.
pub fn process_invoice(invoice: &Invoice) -> (decision: Decision)
    ensures
        invoice.total() > u64::MAX ==> decision == Decision::Reject(Reason::AmountOutOfRange),
        invoice.total() <= u64::MAX ==> {
            &&& decision matches Decision::Charge(charge)
            &&& charge.amount == invoice.total()
            &&& charge.payment_type == PaymentType::Invoice
            &&& charge.description@ == invoice.description()
        },
{
    match invoice_amounts(invoice.price, invoice.disable_sales_tax, invoice.fees) {
        None => Decision::Reject(Reason::AmountOutOfRange),
        Some(amounts) => {
            let mut description = String::from_str("Invoice ID #");
            description.append(invoice.invoice_id.as_str());
            Decision::Charge(
                Charge { amount: amounts.total, payment_type: PaymentType::Invoice, description },
            )
        },
    }
}

} // verus!
