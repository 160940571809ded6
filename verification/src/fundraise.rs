//! The fundraisers, the donation to one, and their listing.

use vstd::prelude::*;
use vstd::string::StringExecFns;
use crate::money::{decimal_digits, dollars, percent, percent_raised, push_decimal, whole_dollars};
use crate::order::{conclusion, Charge, Decision, Outcome, Reason, Replies, Settlement};
use crate::pages::{fill, filled, Templates};
use crate::records::Store;
use crate::text::ascending;
use crate::util::{GatewayError, Payment, PaymentType};

verus! {

/// A donation, as the form submits it.
#[derive(Clone, Debug, PartialEq, Eq)]
pub struct Donation {
    /// The amount in cents.
    pub amount: u64,
    /// The key of the fundraiser.
    pub fundraiser_name: String,
    pub payment: Payment,
}

/// A fundraiser. What it has raised may exceed its goal.
#[derive(Clone, Debug, PartialEq, Eq)]
pub struct Fundraiser {
    pub name: String,
    /// The goal in cents.
    pub goal: u64,
    /// What was raised so far, in cents.
    pub amount_raised: u64,
    pub formname: String,
    pub image: String,
    pub description: String,
}

impl Fundraiser {
    /// The fundraiser with `amount` more raised.
    pub open spec fn credit(self, amount: u64) -> Fundraiser {
        Fundraiser { amount_raised: (self.amount_raised + amount) as u64, ..self }
    }
}

/// Why a donation of `amount` to `key` is refused on these fundraisers;
/// `None` where it is to be charged.
pub open spec fn donation_refusal(
    fundraisers: Map<Seq<char>, Fundraiser>,
    key: Seq<char>,
    amount: u64,
) -> Option<Reason> {
    if !fundraisers.contains_key(key) {
        Some(Reason::UnknownTarget)
    } else if fundraisers[key].amount_raised + amount > u64::MAX {
        Some(Reason::AmountOutOfRange)
    } else {
        None
    }
}

/// Whether the gateway's answer to a donation is entered: the charge
/// succeeded and the donation is not refused.
pub open spec fn donation_entered(
    fundraisers: Map<Seq<char>, Fundraiser>,
    key: Seq<char>,
    amount: u64,
    charged: Result<String, GatewayError>,
) -> bool {
    charged is Ok && donation_refusal(fundraisers, key, amount) is None
}

/// The fundraisers after the gateway's answer to a donation.
pub open spec fn donation_funds(
    fundraisers: Map<Seq<char>, Fundraiser>,
    key: Seq<char>,
    amount: u64,
    charged: Result<String, GatewayError>,
) -> Map<Seq<char>, Fundraiser> {
    if donation_entered(fundraisers, key, amount, charged) {
        fundraisers.insert(key, fundraisers[key].credit(amount))
    } else {
        fundraisers
    }
}

/// What follows the gateway's answer to a donation.
pub open spec fn donation_settlement(
    fundraisers: Map<Seq<char>, Fundraiser>,
    key: Seq<char>,
    amount: u64,
    charged: Result<String, GatewayError>,
) -> Settlement {
    match charged {
        Err(e) => Settlement::Done(Outcome::GatewayFailed(e)),
        Ok(id) => match donation_refusal(fundraisers, key, amount) {
            Some(reason) => Settlement::Refund(id, reason),
            None => Settlement::Commit(id),
        },
    }
}

/// Checks a donation against the fundraisers. It is rejected, and the
/// gateway not called, where no fundraiser has that key, or where the
/// amount would take what was raised beyond 64 bits of cents. Else the
/// donated amount is to be charged.
pub fn process_donation(fundraisers: &Store<Fundraiser>, donation: &Donation) -> (decision:
    Decision)
    ensures
        match donation_refusal(fundraisers@, donation.fundraiser_name@, donation.amount) {
            Some(reason) => decision == Decision::Reject(reason),
            None => decision == Decision::Charge(
                Charge {
                    amount: donation.amount,
                    payment_type: PaymentType::Donation,
                    description: donation.fundraiser_name,
                },
            ),
        },
{
    match fundraisers.get(&donation.fundraiser_name) {
        None => Decision::Reject(Reason::UnknownTarget),
        Some(fundraiser) => {
            if donation.amount > u64::MAX - fundraiser.amount_raised {
                Decision::Reject(Reason::AmountOutOfRange)
            } else {
                Decision::Charge(
                    Charge {
                        amount: donation.amount,
                        payment_type: PaymentType::Donation,
                        description: donation.fundraiser_name.clone(),
                    },
                )
            }
        },
    }
}

/// Enters the gateway's answer to a donation. A failed charge changes
/// nothing. A successful one adds the donated amount to what the fundraiser
/// has raised, once, and asks for the fundraisers to be written. Should the
/// donation be refused by now, nothing changes and the charge is to be
/// refunded.
pub fn record_donation(
    fundraisers: &mut Store<Fundraiser>,
    donation: &Donation,
    charged: Result<String, GatewayError>,
) -> (settlement: Settlement)
    ensures
        final(fundraisers).keys() == old(fundraisers).keys(),
        final(fundraisers)@ == donation_funds(
            old(fundraisers)@,
            donation.fundraiser_name@,
            donation.amount,
            charged,
        ),
        settlement == donation_settlement(
            old(fundraisers)@,
            donation.fundraiser_name@,
            donation.amount,
            charged,
        ),
{
    match charged {
        Err(e) => Settlement::Done(Outcome::GatewayFailed(e)),
        Ok(id) => match fundraisers.find(&donation.fundraiser_name) {
            None => Settlement::Refund(id, Reason::UnknownTarget),
            Some(i) => {
                let fundraiser = fundraisers.record_mut(i);
                if donation.amount > u64::MAX - fundraiser.amount_raised {
                    Settlement::Refund(id, Reason::AmountOutOfRange)
                } else {
                    fundraiser.amount_raised = fundraiser.amount_raised + donation.amount;
                    Settlement::Commit(id)
                }
            },
        },
    }
}

/// One whole donation of `amount` to `key`, given what the outside world
/// answers: the fundraisers after it, and how it ends. A refused donation
/// ends before the gateway is called, so its end does not depend on the
/// answers.
pub open spec fn donation_run(
    fundraisers: Map<Seq<char>, Fundraiser>,
    key: Seq<char>,
    amount: u64,
    replies: Replies,
) -> (Map<Seq<char>, Fundraiser>, Outcome) {
    match donation_refusal(fundraisers, key, amount) {
        Some(reason) => (fundraisers, Outcome::Rejected(reason)),
        None => (
            donation_funds(fundraisers, key, amount, replies.charged),
            conclusion(
                donation_settlement(fundraisers, key, amount, replies.charged),
                replies.flushed,
            ),
        ),
    }
}

/// A donation to a fundraiser that the store holds, whose charge succeeds
/// and whose store is written, ends in success with the identifier of the
/// charge, and adds its amount once: not zero times and not twice. This
/// holds wherever the new total fits in 64 bits of cents; beyond that the
/// donation is rejected before any charge.
pub proof fn lemma_donation_succeeds(
    fundraisers: Map<Seq<char>, Fundraiser>,
    key: Seq<char>,
    amount: u64,
    replies: Replies,
)
    requires
        fundraisers.contains_key(key),
        fundraisers[key].amount_raised + amount <= u64::MAX,
        replies.charged is Ok,
        replies.flushed,
    ensures
        donation_run(fundraisers, key, amount, replies).1 == Outcome::Success(
            replies.charged->Ok_0,
        ),
        donation_run(fundraisers, key, amount, replies).0 == fundraisers.insert(
            key,
            fundraisers[key].credit(amount),
        ),
        donation_run(fundraisers, key, amount, replies).0[key].amount_raised
            == fundraisers[key].amount_raised + amount,
{
}

/// A donation that would take the total beyond 64 bits of cents is
/// rejected, the gateway is not called for it, and nothing changes.
pub proof fn lemma_donation_out_of_range(
    fundraisers: Map<Seq<char>, Fundraiser>,
    key: Seq<char>,
    amount: u64,
    replies: Replies,
)
    requires
        fundraisers.contains_key(key),
        fundraisers[key].amount_raised + amount > u64::MAX,
    ensures
        donation_refusal(fundraisers, key, amount) == Some(Reason::AmountOutOfRange),
        donation_run(fundraisers, key, amount, replies) == (
            fundraisers,
            Outcome::Rejected(Reason::AmountOutOfRange),
        ),
{
}

/// A donation that ends in success was charged and written, and added its
/// amount exactly once. Any other end but the failure to write leaves the
/// fundraisers as they were.
pub proof fn lemma_donation_success(
    fundraisers: Map<Seq<char>, Fundraiser>,
    key: Seq<char>,
    amount: u64,
    replies: Replies,
)
    ensures
        donation_run(fundraisers, key, amount, replies).1 is Success ==> {
            &&& replies.charged is Ok
            &&& replies.flushed
            &&& donation_run(fundraisers, key, amount, replies).0 == fundraisers.insert(
                key,
                fundraisers[key].credit(amount),
            )
            &&& donation_run(fundraisers, key, amount, replies).0[key].amount_raised
                == fundraisers[key].amount_raised + amount
        },
        donation_run(fundraisers, key, amount, replies).1 !is Success && donation_run(
            fundraisers,
            key,
            amount,
            replies,
        ).1 != Outcome::Rejected(Reason::PersistenceFailed) ==> donation_run(
            fundraisers,
            key,
            amount,
            replies,
        ).0 == fundraisers,
{
}

/// One donation of a sequence: its amount and what the gateway answers.
pub struct Gift {
    pub amount: u64,
    pub charged: Result<String, GatewayError>,
}

/// The sum of a sequence of amounts.
pub open spec fn total(amounts: Seq<u64>) -> nat
    decreases amounts.len(),
{
    if amounts.len() == 0 {
        0
    } else {
        total(amounts.drop_last()) + amounts.last() as nat
    }
}

/// The amounts of a sequence of donations.
pub open spec fn amounts_of(gifts: Seq<Gift>) -> Seq<u64> {
    Seq::new(gifts.len(), |i: int| gifts[i].amount)
}

/// The fundraisers after a sequence of donations to `key`, one after the
/// other.
pub open spec fn donations_funds(
    fundraisers: Map<Seq<char>, Fundraiser>,
    key: Seq<char>,
    gifts: Seq<Gift>,
) -> Map<Seq<char>, Fundraiser>
    decreases gifts.len(),
{
    if gifts.len() == 0 {
        fundraisers
    } else {
        donation_funds(
            donations_funds(fundraisers, key, gifts.drop_last()),
            key,
            gifts.last().amount,
            gifts.last().charged,
        )
    }
}

/// The sum of the donations of a sequence that were entered.
pub open spec fn donations_credited(
    fundraisers: Map<Seq<char>, Fundraiser>,
    key: Seq<char>,
    gifts: Seq<Gift>,
) -> nat
    decreases gifts.len(),
{
    if gifts.len() == 0 {
        0
    } else {
        donations_credited(fundraisers, key, gifts.drop_last()) + if donation_entered(
            donations_funds(fundraisers, key, gifts.drop_last()),
            key,
            gifts.last().amount,
            gifts.last().charged,
        ) {
            gifts.last().amount as nat
        } else {
            0nat
        }
    }
}

/// A sequence of donations adds to what the fundraiser has raised the sum
/// of the donations that were entered, and changes nothing else. What was
/// raised never falls.
pub proof fn lemma_donations_add_up(
    fundraisers: Map<Seq<char>, Fundraiser>,
    key: Seq<char>,
    gifts: Seq<Gift>,
)
    requires
        fundraisers.contains_key(key),
    ensures
        fundraisers[key].amount_raised + donations_credited(fundraisers, key, gifts) <= u64::MAX,
        donations_funds(fundraisers, key, gifts) == fundraisers.insert(
            key,
            Fundraiser {
                amount_raised: (fundraisers[key].amount_raised + donations_credited(
                    fundraisers,
                    key,
                    gifts,
                )) as u64,
                ..fundraisers[key]
            },
        ),
        donations_funds(fundraisers, key, gifts)[key].amount_raised
            >= fundraisers[key].amount_raised,
    decreases gifts.len(),
{
    if gifts.len() > 0 {
        lemma_donations_add_up(fundraisers, key, gifts.drop_last());
    }
}

/// Where every charge of a sequence of donations succeeds and the sum fits,
/// every donation is entered: what was raised is what it was before plus
/// the sum of the donated amounts.
pub proof fn lemma_successful_donations(
    fundraisers: Map<Seq<char>, Fundraiser>,
    key: Seq<char>,
    gifts: Seq<Gift>,
)
    requires
        fundraisers.contains_key(key),
        forall|i: int| 0 <= i < gifts.len() ==> (#[trigger] gifts[i]).charged is Ok,
        fundraisers[key].amount_raised + total(amounts_of(gifts)) <= u64::MAX,
    ensures
        donations_credited(fundraisers, key, gifts) == total(amounts_of(gifts)),
        donations_funds(fundraisers, key, gifts)[key].amount_raised == fundraisers[key].amount_raised
            + total(amounts_of(gifts)),
    decreases gifts.len(),
{
    lemma_donations_add_up(fundraisers, key, gifts);
    if gifts.len() > 0 {
        let earlier = gifts.drop_last();
        assert(amounts_of(gifts).drop_last() =~= amounts_of(earlier));
        lemma_successful_donations(fundraisers, key, earlier);
        lemma_donations_add_up(fundraisers, key, earlier);
    }
}

/// Taking one amount out of a sequence takes it out of the sum.
pub proof fn lemma_total_remove(amounts: Seq<u64>, i: int)
    requires
        0 <= i < amounts.len(),
    ensures
        total(amounts) == total(amounts.remove(i)) + amounts[i],
    decreases amounts.len(),
{
    if i < amounts.len() - 1 {
        lemma_total_remove(amounts.drop_last(), i);
        assert(amounts.remove(i).drop_last() =~= amounts.drop_last().remove(i));
    }
}

/// The sum of a sequence of amounts does not depend on their order.
pub proof fn lemma_total_any_order(a: Seq<u64>, b: Seq<u64>)
    requires
        a.to_multiset() == b.to_multiset(),
    ensures
        total(a) == total(b),
    decreases a.len(),
{
    a.to_multiset_ensures();
    b.to_multiset_ensures();
    if a.len() > 0 {
        let x = a.last();
        assert(b.to_multiset().count(x) > 0);
        let i = b.index_of(x);
        b.index_of_first_ensures(x);
        assert(a.drop_last() =~= a.remove(a.len() - 1));
        lemma_total_any_order(a.drop_last(), b.remove(i));
        lemma_total_remove(b, i);
    }
}

/// Successful donations of the same amounts leave the same fundraisers
/// behind in whatever order they come.
pub proof fn lemma_donation_order(
    fundraisers: Map<Seq<char>, Fundraiser>,
    key: Seq<char>,
    first: Seq<Gift>,
    second: Seq<Gift>,
)
    requires
        fundraisers.contains_key(key),
        forall|i: int| 0 <= i < first.len() ==> (#[trigger] first[i]).charged is Ok,
        forall|i: int| 0 <= i < second.len() ==> (#[trigger] second[i]).charged is Ok,
        amounts_of(first).to_multiset() == amounts_of(second).to_multiset(),
        fundraisers[key].amount_raised + total(amounts_of(first)) <= u64::MAX,
    ensures
        donations_funds(fundraisers, key, first) == donations_funds(fundraisers, key, second),
{
    lemma_total_any_order(amounts_of(first), amounts_of(second));
    lemma_successful_donations(fundraisers, key, first);
    lemma_successful_donations(fundraisers, key, second);
    lemma_donations_add_up(fundraisers, key, first);
    lemma_donations_add_up(fundraisers, key, second);
}

/// The markup of a donation button, up to the address.
pub const DONATE_OPEN: &'static str = "<a href=\"";

/// The markup of a donation button after the address.
pub const DONATE_CLOSE: &'static str =
    "\" class=\"w-50 btn btn-lg btn-success\" role=\"button\">Donate Now</a>";

/// The markup of an entry, up to the address of the image.
pub const ENTRY_OPEN: &'static str =
    "<div class=\"col-md-6 col-lg-4 g-mb-30\"><article class=\"u-shadow-v18 g-bg-white text-center rounded g-px-20 g-py-40 g-mb-5\">\n            <img class=\"d-inline-block img-fluid mb-4\" Width=\"400\" Height=\"200\" src=\"";

/// The markup of an entry between image and name.
pub const ENTRY_NAME: &'static str =
    "\" alt=\"Image Description\">\n            <h4 class=\"h5 g-color-black g-font-weight-600 g-mb-10\">";

/// The markup of an entry between name and description.
pub const ENTRY_DESCRIPTION: &'static str = "</h4>\n            <p> ";

/// The markup of an entry between description and the width of the bar.
pub const ENTRY_BAR: &'static str =
    " </p>\n            <div class=\"progress\">\n              <div class=\"progress-bar bg-success\" role=\"progressbar\" style=\"width: ";

/// The markup of an entry between the width of the bar and its value.
pub const ENTRY_VALUE: &'static str = "%\" aria-valuenow=\"";

/// The markup of an entry between the bar's value and its largest value.
pub const ENTRY_MAX: &'static str = "\" aria-valuemin=\"0\" aria-valuemax=\"";

/// The markup of an entry before the dollars raised.
pub const ENTRY_RAISED: &'static str = "\">$";

/// The markup of an entry between the dollars raised and the goal.
pub const ENTRY_OF: &'static str = " of $";

/// The markup of an entry between goal and button.
pub const ENTRY_BUTTON: &'static str =
    " Raised</div>\n            </div>\n            <p>  </p>\n            ";

/// The markup of an entry after the button.
pub const ENTRY_CLOSE: &'static str = "\n            </article></div>";

impl Fundraiser {
    /// The markup of the donation button: a link to the fundraiser's form.
    pub open spec fn button(self) -> Seq<char> {
        DONATE_OPEN@ + self.formname@ + DONATE_CLOSE@
    }

    /// The markup of the entry of this fundraiser in the listing: image,
    /// name, description, a bar as wide as the percentage raised, the whole
    /// dollars raised and aimed at, and the button.
    pub open spec fn entry(self) -> Seq<char> {
        let raised = decimal_digits(whole_dollars(self.amount_raised as nat));
        let goal = decimal_digits(whole_dollars(self.goal as nat));
        ENTRY_OPEN@ + self.image@ + ENTRY_NAME@ + self.name@ + ENTRY_DESCRIPTION@
            + self.description@ + ENTRY_BAR@ + decimal_digits(
            percent_raised(self.amount_raised as nat, self.goal as nat),
        ) + ENTRY_VALUE@ + raised + ENTRY_MAX@ + goal + ENTRY_RAISED@ + raised + ENTRY_OF@ + goal
            + ENTRY_BUTTON@ + self.button() + ENTRY_CLOSE@
    }

    /// Writes the donation button.
    pub fn get_button(&self) -> (text: String)
        ensures
            text@ == self.button(),
    {
        let mut text = String::from_str(DONATE_OPEN);
        text.append(self.formname.as_str());
        text.append(DONATE_CLOSE);
        text
    }

    /// Writes the entry of this fundraiser in the listing.
    pub fn get_entry(&self) -> (text: String)
        ensures
            text@ == self.entry(),
    {
        let raised = dollars(self.amount_raised);
        let goal = dollars(self.goal);
        let mut text = String::from_str(ENTRY_OPEN);
        text.append(self.image.as_str());
        text.append(ENTRY_NAME);
        text.append(self.name.as_str());
        text.append(ENTRY_DESCRIPTION);
        text.append(self.description.as_str());
        text.append(ENTRY_BAR);
        push_decimal(&mut text, percent(self.amount_raised, self.goal) as u128);
        text.append(ENTRY_VALUE);
        push_decimal(&mut text, raised as u128);
        text.append(ENTRY_MAX);
        push_decimal(&mut text, goal as u128);
        text.append(ENTRY_RAISED);
        push_decimal(&mut text, raised as u128);
        text.append(ENTRY_OF);
        push_decimal(&mut text, goal as u128);
        text.append(ENTRY_BUTTON);
        text.append(self.get_button().as_str());
        text.append(ENTRY_CLOSE);
        text
    }
}

/// The entries of a sequence of fundraisers, one after the other.
pub open spec fn listing(fundraisers: Seq<Fundraiser>) -> Seq<char>
    decreases fundraisers.len(),
{
    if fundraisers.len() == 0 {
        Seq::<char>::empty()
    } else {
        listing(fundraisers.drop_last()) + fundraisers.last().entry()
    }
}

/// Writes the entry of each fundraiser, by ascending key.
pub fn entries(fundraisers: &Store<Fundraiser>) -> (text: String)
    ensures
        ascending(fundraisers.keys()),
        text@ == listing(fundraisers.records()),
{
    proof {
        use_type_invariant(fundraisers);
    }
    let mut text = String::new();
    let n = fundraisers.len();
    let mut i: usize = 0;
    while i < n
        invariant
            fundraisers.wf(),
            n == fundraisers.keys().len(),
            i <= n,
            text@ == listing(fundraisers.records().take(i as int)),
        decreases n - i,
    {
        let fundraiser = fundraisers.record_at(i);
        text.append(fundraiser.get_entry().as_str());
        proof {
            let records = fundraisers.records();
            assert(records.take(i + 1).drop_last() =~= records.take(i as int));
        }
        i += 1;
    }
    assert(fundraisers.records().take(n as int) =~= fundraisers.records());
    text
}

/// The page of the fundraisers: `FUNDRAISERS` stands for the listing, which
/// holds the entry of each fundraiser once, by ascending key.
pub fn fundraisers_page(templates: &Templates, fundraisers: &Store<Fundraiser>) -> (page: String)
    ensures
        ascending(fundraisers.keys()),
        page@ == filled(templates.fundraise@, "FUNDRAISERS"@, listing(fundraisers.records())),
{
    fill(templates.fundraise.as_str(), "FUNDRAISERS", entries(fundraisers).as_str())
}

/// The form of a fundraiser. `FORMNAME` stands for the name of its form,
/// `NAME` for its name, `DESCRIPTION` for its description, and
/// `CLIENT_TOKEN_FROM_SERVER` for the token that the gateway gave for this
/// form. They are filled in in this order, so that `FORMNAME` is not taken
/// for a `NAME`.
pub open spec fn donate_page(
    template: Seq<char>,
    fundraiser: Fundraiser,
    client_token: Seq<char>,
) -> Seq<char> {
    let formed = filled(template, "FORMNAME"@, fundraiser.formname@);
    let named = filled(formed, "NAME"@, fundraiser.name@);
    let described = filled(named, "DESCRIPTION"@, fundraiser.description@);
    filled(described, "CLIENT_TOKEN_FROM_SERVER"@, client_token)
}

/// Writes the form of the fundraiser under `name`; `None` exactly where no
/// fundraiser has that key.
pub fn fundraiser_page(
    templates: &Templates,
    fundraisers: &Store<Fundraiser>,
    name: &String,
    client_token: &str,
) -> (page: Option<String>)
    ensures
        page is Some <==> fundraisers@.contains_key(name@),
        page matches Some(text) ==> text@ == donate_page(
            templates.donate@,
            fundraisers@[name@],
            client_token@,
        ),
{
    match fundraisers.get(name) {
        None => None,
        Some(fundraiser) => {
            let formed = fill(templates.donate.as_str(), "FORMNAME", fundraiser.formname.as_str());
            let named = fill(formed.as_str(), "NAME", fundraiser.name.as_str());
            let described = fill(named.as_str(), "DESCRIPTION", fundraiser.description.as_str());
            Some(fill(described.as_str(), "CLIENT_TOKEN_FROM_SERVER", client_token))
        },
    }
}

} // verus!
