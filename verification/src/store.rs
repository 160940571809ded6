//! The inventory of courses, the signup for one, and the listing of the
//! store.

use vstd::prelude::*;
use vstd::string::StringExecFns;
use crate::money::{
    amount_text, decimal_digits, format_amount, format_plain, plain_amount_text, push_decimal,
};
use crate::order::{conclusion, Charge, Decision, Outcome, Reason, Replies, Settlement};
use crate::pages::{fill, filled, Templates};
use crate::records::Store;
use crate::text::ascending;
use crate::util::{GatewayError, Payment, PaymentType};

verus! {

/// A signup for a course, as the form submits it.
#[derive(Clone, Debug, PartialEq, Eq)]
pub struct CourseSignup {
    /// The key of the course in the inventory.
    pub course_type: String,
    pub payment: Payment,
}

/// A course on offer.
#[derive(Clone, Debug, PartialEq, Eq)]
pub struct Item {
    /// The places left; `None` where the course has no limit.
    pub number_of_items: Option<i32>,
    /// The price in cents.
    pub price: u64,
    /// The discount in cents that the price already holds.
    pub discount: u64,
    pub name: String,
    pub formname: String,
    pub image: String,
    pub dates: String,
}

impl Item {
    /// Whether a place can be sold: the course has no limit, or at least one
    /// place is left.
    pub open spec fn in_stock(self) -> bool {
        self.number_of_items matches Some(n) ==> n >= 1
    }

    /// The item with one place less. An item without a limit stays as it is.
    pub open spec fn take_one(self) -> Item {
        Item {
            number_of_items: match self.number_of_items {
                Some(n) => Some((n - 1) as i32),
                None => None,
            },
            ..self
        }
    }
}

/// Why a signup for `key` is refused on this inventory; `None` where it is
/// to be charged.
pub open spec fn signup_refusal(inventory: Map<Seq<char>, Item>, key: Seq<char>) -> Option<
    Reason,
> {
    if !inventory.contains_key(key) {
        Some(Reason::UnknownTarget)
    } else if !inventory[key].in_stock() {
        Some(Reason::SoldOut)
    } else {
        None
    }
}

/// The inventory after one place of `key` was sold.
pub open spec fn signup_commit(inventory: Map<Seq<char>, Item>, key: Seq<char>) -> Map<
    Seq<char>,
    Item,
> {
    inventory.insert(key, inventory[key].take_one())
}

/// Whether the gateway's answer to a signup for `key` is entered in this
/// inventory: the charge succeeded and the signup is not refused.
pub open spec fn signup_entered(
    inventory: Map<Seq<char>, Item>,
    key: Seq<char>,
    charged: Result<String, GatewayError>,
) -> bool {
    charged is Ok && signup_refusal(inventory, key) is None
}

/// The inventory after the gateway's answer to a signup for `key`.
pub open spec fn signup_inventory(
    inventory: Map<Seq<char>, Item>,
    key: Seq<char>,
    charged: Result<String, GatewayError>,
) -> Map<Seq<char>, Item> {
    if signup_entered(inventory, key, charged) {
        signup_commit(inventory, key)
    } else {
        inventory
    }
}

/// What follows the gateway's answer to a signup for `key`.
pub open spec fn signup_settlement(
    inventory: Map<Seq<char>, Item>,
    key: Seq<char>,
    charged: Result<String, GatewayError>,
) -> Settlement {
    match charged {
        Err(e) => Settlement::Done(Outcome::GatewayFailed(e)),
        Ok(id) => match signup_refusal(inventory, key) {
            Some(reason) => Settlement::Refund(id, reason),
            None => Settlement::Commit(id),
        },
    }
}

/// Checks a signup against the inventory. It is rejected, and the gateway
/// not called, where the inventory does not hold the course or no place is
/// left. Else the price of the course is to be charged.
pub fn course_signup(inventory: &Store<Item>, signup: &CourseSignup) -> (decision: Decision)
    ensures
        match signup_refusal(inventory@, signup.course_type@) {
            Some(reason) => decision == Decision::Reject(reason),
            None => decision == Decision::Charge(
                Charge {
                    amount: inventory@[signup.course_type@].price,
                    payment_type: PaymentType::CourseSignup,
                    description: inventory@[signup.course_type@].name,
                },
            ),
        },
{
    match inventory.get(&signup.course_type) {
        None => Decision::Reject(Reason::UnknownTarget),
        Some(item) => {
            let sold_out = match item.number_of_items {
                Some(n) => n < 1,
                None => false,
            };
            if sold_out {
                Decision::Reject(Reason::SoldOut)
            } else {
                Decision::Charge(
                    Charge {
                        amount: item.price,
                        payment_type: PaymentType::CourseSignup,
                        description: item.name.clone(),
                    },
                )
            }
        },
    }
}

/// Enters the gateway's answer to a signup in the inventory. A failed
/// charge changes nothing. A successful one takes exactly one place of the
/// course, or none where the course has no limit, and asks for the
/// inventory to be written. Should the inventory refuse the signup by now,
/// nothing changes and the charge is to be refunded.
pub fn record_signup(
    inventory: &mut Store<Item>,
    signup: &CourseSignup,
    charged: Result<String, GatewayError>,
) -> (settlement: Settlement)
    ensures
        final(inventory).keys() == old(inventory).keys(),
        final(inventory)@ == signup_inventory(old(inventory)@, signup.course_type@, charged),
        settlement == signup_settlement(old(inventory)@, signup.course_type@, charged),
{
    match charged {
        Err(e) => Settlement::Done(Outcome::GatewayFailed(e)),
        Ok(id) => match inventory.find(&signup.course_type) {
            None => Settlement::Refund(id, Reason::UnknownTarget),
            Some(i) => {
                let item = inventory.record_mut(i);
                match &mut item.number_of_items {
                    None => Settlement::Commit(id),
                    Some(n) => {
                        if *n < 1 {
                            Settlement::Refund(id, Reason::SoldOut)
                        } else {
                            *n = *n - 1;
                            Settlement::Commit(id)
                        }
                    },
                }
            },
        },
    }
}

/// One whole signup for `key` on `inventory`, given what the outside world
/// answers: the inventory after it, and how it ends. A refused signup ends
/// before the gateway is called, so its end does not depend on the answers.
pub open spec fn signup_run(inventory: Map<Seq<char>, Item>, key: Seq<char>, replies: Replies) -> (
    Map<Seq<char>, Item>,
    Outcome,
) {
    match signup_refusal(inventory, key) {
        Some(reason) => (inventory, Outcome::Rejected(reason)),
        None => (
            signup_inventory(inventory, key, replies.charged),
            conclusion(signup_settlement(inventory, key, replies.charged), replies.flushed),
        ),
    }
}

/// The inventory after a whole signup is the inventory after its second
/// step alone. So a charge that was made for a signup which the inventory
/// refuses by then takes no place: the count cannot fall below zero in
/// whatever order the steps of several signups come.
pub proof fn lemma_signup_entered_once(
    inventory: Map<Seq<char>, Item>,
    key: Seq<char>,
    replies: Replies,
)
    ensures
        signup_run(inventory, key, replies).0 == signup_inventory(inventory, key, replies.charged),
        signup_inventory(inventory, key, replies.charged) != inventory ==> signup_entered(
            inventory,
            key,
            replies.charged,
        ),
        signup_entered(inventory, key, replies.charged) ==> (signup_inventory(
            inventory,
            key,
            replies.charged,
        )[key].number_of_items matches Some(left) ==> left >= 0),
{
}

/// A signup for a course that the inventory holds with a place to sell,
/// whose charge succeeds and whose inventory is written, ends in success
/// with the identifier of the charge, and takes one place.
pub proof fn lemma_signup_succeeds(
    inventory: Map<Seq<char>, Item>,
    key: Seq<char>,
    replies: Replies,
)
    requires
        inventory.contains_key(key),
        inventory[key].in_stock(),
        replies.charged is Ok,
        replies.flushed,
    ensures
        signup_run(inventory, key, replies).1 == Outcome::Success(replies.charged->Ok_0),
        signup_run(inventory, key, replies).0 == inventory.insert(key, inventory[key].take_one()),
{
}

/// A signup that ends in success was charged and written, and took exactly
/// one place of a course with a count, leaving no fewer than none. Any
/// other end but the failure to write leaves the inventory as it was.
pub proof fn lemma_signup_success(
    inventory: Map<Seq<char>, Item>,
    key: Seq<char>,
    replies: Replies,
)
    ensures
        signup_run(inventory, key, replies).1 is Success ==> {
            &&& replies.charged is Ok
            &&& replies.flushed
            &&& signup_run(inventory, key, replies).0 == signup_commit(inventory, key)
            &&& inventory[key].number_of_items matches Some(n) ==> n >= 1 && signup_run(
                inventory,
                key,
                replies,
            ).0[key].number_of_items == Some((n - 1) as i32)
            &&& inventory[key].number_of_items is None ==> signup_run(
                inventory,
                key,
                replies,
            ).0[key].number_of_items is None
        },
        signup_run(inventory, key, replies).1 !is Success && signup_run(inventory, key, replies).1
            != Outcome::Rejected(Reason::PersistenceFailed) ==> signup_run(
            inventory,
            key,
            replies,
        ).0 == inventory,
{
}

/// The inventory after a sequence of signups for `key`, one after the
/// other.
pub open spec fn signups_inventory(
    inventory: Map<Seq<char>, Item>,
    key: Seq<char>,
    replies: Seq<Replies>,
) -> Map<Seq<char>, Item>
    decreases replies.len(),
{
    if replies.len() == 0 {
        inventory
    } else {
        signup_run(signups_inventory(inventory, key, replies.drop_last()), key, replies.last()).0
    }
}

/// How the signup in place `i` of a sequence ends.
pub open spec fn signup_outcome(
    inventory: Map<Seq<char>, Item>,
    key: Seq<char>,
    replies: Seq<Replies>,
    i: int,
) -> Outcome {
    signup_run(signups_inventory(inventory, key, replies.take(i)), key, replies[i]).1
}

/// Whether the gateway is called for the signup in place `i` of a sequence.
pub open spec fn signup_charged(
    inventory: Map<Seq<char>, Item>,
    key: Seq<char>,
    replies: Seq<Replies>,
    i: int,
) -> bool {
    signup_refusal(signups_inventory(inventory, key, replies.take(i)), key) is None
}

/// The number of successful charges in a sequence of signups.
pub open spec fn signups_entered(
    inventory: Map<Seq<char>, Item>,
    key: Seq<char>,
    replies: Seq<Replies>,
) -> nat
    decreases replies.len(),
{
    if replies.len() == 0 {
        0
    } else {
        let before = signups_inventory(inventory, key, replies.drop_last());
        signups_entered(inventory, key, replies.drop_last()) + if signup_entered(
            before,
            key,
            replies.last().charged,
        ) {
            1nat
        } else {
            0nat
        }
    }
}

/// The number of signups in a sequence that end in success.
pub open spec fn signups_succeeded(
    inventory: Map<Seq<char>, Item>,
    key: Seq<char>,
    replies: Seq<Replies>,
) -> nat
    decreases replies.len(),
{
    if replies.len() == 0 {
        0
    } else {
        let before = signups_inventory(inventory, key, replies.drop_last());
        signups_succeeded(inventory, key, replies.drop_last()) + if signup_run(
            before,
            key,
            replies.last(),
        ).1 is Success {
            1nat
        } else {
            0nat
        }
    }
}

/// A sequence of signups for a course with `n` places takes one place for
/// each successful charge and changes nothing else: no more charges
/// succeed than there were places, no more signups succeed than charges,
/// and the count never falls below zero.
pub proof fn lemma_no_oversell(
    inventory: Map<Seq<char>, Item>,
    key: Seq<char>,
    replies: Seq<Replies>,
    n: i32,
)
    requires
        inventory.contains_key(key),
        inventory[key].number_of_items == Some(n),
        n >= 0,
    ensures
        signups_succeeded(inventory, key, replies) <= signups_entered(inventory, key, replies) <= n,
        signups_inventory(inventory, key, replies) == inventory.insert(
            key,
            Item {
                number_of_items: Some((n - signups_entered(inventory, key, replies)) as i32),
                ..inventory[key]
            },
        ),
    decreases replies.len(),
{
    if replies.len() > 0 {
        lemma_no_oversell(inventory, key, replies.drop_last(), n);
    }
}

/// The number of successful charges only grows along a sequence.
pub proof fn lemma_entered_grows(
    inventory: Map<Seq<char>, Item>,
    key: Seq<char>,
    replies: Seq<Replies>,
    i: int,
    j: int,
)
    requires
        0 <= i <= j <= replies.len(),
    ensures
        signups_entered(inventory, key, replies.take(i)) <= signups_entered(
            inventory,
            key,
            replies.take(j),
        ),
    decreases j - i,
{
    if i < j {
        lemma_entered_grows(inventory, key, replies, i, j - 1);
        assert(replies.take(j).drop_last() =~= replies.take(j - 1));
    }
}

/// Once as many charges have succeeded as the course had places, a signup
/// is rejected as sold out, and the gateway is not called for it.
pub proof fn lemma_sold_out_after(
    inventory: Map<Seq<char>, Item>,
    key: Seq<char>,
    replies: Seq<Replies>,
    n: i32,
    j: int,
)
    requires
        inventory.contains_key(key),
        inventory[key].number_of_items == Some(n),
        n >= 0,
        0 <= j < replies.len(),
        signups_entered(inventory, key, replies.take(j)) == n,
    ensures
        signup_outcome(inventory, key, replies, j) == Outcome::Rejected(Reason::SoldOut),
        !signup_charged(inventory, key, replies, j),
{
    lemma_no_oversell(inventory, key, replies.take(j), n);
}

/// Of the signups for a course with one place left, at most one succeeds,
/// and each one after it is rejected as sold out without a call to the
/// gateway.
pub proof fn lemma_last_place(
    inventory: Map<Seq<char>, Item>,
    key: Seq<char>,
    replies: Seq<Replies>,
    i: int,
    j: int,
)
    requires
        inventory.contains_key(key),
        inventory[key].number_of_items == Some(1i32),
        0 <= i < j < replies.len(),
        signup_outcome(inventory, key, replies, i) is Success,
    ensures
        signups_succeeded(inventory, key, replies) <= 1,
        signup_outcome(inventory, key, replies, j) == Outcome::Rejected(Reason::SoldOut),
        !signup_charged(inventory, key, replies, j),
{
    lemma_no_oversell(inventory, key, replies, 1);
    lemma_no_oversell(inventory, key, replies.take(i), 1);
    lemma_no_oversell(inventory, key, replies.take(j), 1);
    assert(replies.take(i + 1).drop_last() =~= replies.take(i));
    lemma_entered_grows(inventory, key, replies, i + 1, j);
    lemma_sold_out_after(inventory, key, replies, 1, j);
}

/// A course without a limit never gets a count, whatever signups succeed,
/// and no signup for it is refused: each ends as the gateway and the disk
/// answer.
pub proof fn lemma_unlimited(
    inventory: Map<Seq<char>, Item>,
    key: Seq<char>,
    replies: Seq<Replies>,
)
    requires
        inventory.contains_key(key),
        inventory[key].number_of_items is None,
    ensures
        signups_inventory(inventory, key, replies) == inventory,
        forall|i: int|
            0 <= i < replies.len() ==> #[trigger] signup_outcome(inventory, key, replies, i) == (
            match replies[i].charged {
                Ok(id) => conclusion(Settlement::Commit(id), replies[i].flushed),
                Err(e) => Outcome::GatewayFailed(e),
            }),
    decreases replies.len(),
{
    if replies.len() > 0 {
        lemma_unlimited(inventory, key, replies.drop_last());
    }
    assert forall|i: int| 0 <= i < replies.len() implies #[trigger] signup_outcome(
        inventory,
        key,
        replies,
        i,
    ) == (match replies[i].charged {
        Ok(id) => conclusion(Settlement::Commit(id), replies[i].flushed),
        Err(e) => Outcome::GatewayFailed(e),
    }) by {
        lemma_unlimited(inventory, key, replies.take(i));
    }
}

/// The markup of a button, up to the number of places.
pub const PLACES_OPEN: &'static str = "<span class=\"d-block g-color-danger g-font-size-16\">";

/// The markup of a button between the number of places and the address.
pub const PLACES_CLOSE: &'static str =
    " Spaces Available</span>\n                         <a href=\"";

/// The markup of a button after the address.
pub const BUY_CLOSE: &'static str =
    "\" class=\"w-100 btn btn-lg btn-success\" role=\"button\">Buy Now</a>";

/// The markup in place of a button where no place is left.
pub const SOLD_OUT: &'static str =
    "<span class=\"d-block g-color-danger g-font-size-16\">Sold Out</span>";

/// The button of a course without a limit. Its address is the two braces
/// `{}` as they stand here: nothing puts the name of the form in their
/// place.
pub const BUY_ANY: &'static str =
    "<a href=\"{}\" class=\"w-100 btn btn-lg btn-success\" role=\"button\">Buy Now</a>";

/// The markup of an entry, up to the address of the image.
pub const ENTRY_OPEN: &'static str =
    "<div class=\"col-md-6 col-lg-4 g-mb-30\"><article class=\"u-shadow-v18 g-bg-white text-center rounded g-px-20 g-py-40 g-mb-5\">\n            <img class=\"d-inline-block img-fluid mb-4\"  src=\"";

/// The markup of an entry between image and name.
pub const ENTRY_NAME: &'static str =
    "\" Width=100 Height=100 alt=\"Image Description\">\n            <h4 class=\"h5 g-color-black g-font-weight-600 g-mb-10\">";

/// The markup of an entry between name and dates.
pub const ENTRY_DATES: &'static str =
    "</h4>\n            <p>In Person at SBHX: 5782 Thornwood Dr, Goleta, CA 93117</p>\n            <p>Dates: ";

/// The markup of an entry between dates and price.
pub const ENTRY_PRICE: &'static str =
    "</p>\n            <span class=\"d-block g-color-primary g-font-size-16\">$";

/// The markup of an entry between price and button.
pub const ENTRY_BUTTON: &'static str = "</span>\n            ";

/// The markup of an entry after the button.
pub const ENTRY_CLOSE: &'static str = "\n          </article></div>";

impl Item {
    /// The markup of the button of this course: the places left and a link
    /// to its form; a notice where none is left; where the course has no
    /// limit, a link whose address is `{}` and not the form.
    pub open spec fn button(self) -> Seq<char> {
        match self.number_of_items {
            Some(n) => if n >= 1 {
                PLACES_OPEN@ + decimal_digits(n as nat) + PLACES_CLOSE@ + self.formname@
                    + BUY_CLOSE@
            } else {
                SOLD_OUT@
            },
            None => BUY_ANY@,
        }
    }

    /// The markup of the entry of this course in the listing: image, name,
    /// dates, price in dollars with two decimal digits, and button.
    pub open spec fn entry(self) -> Seq<char> {
        ENTRY_OPEN@ + self.image@ + ENTRY_NAME@ + self.name@ + ENTRY_DATES@ + self.dates@
            + ENTRY_PRICE@ + amount_text(self.price as nat) + ENTRY_BUTTON@ + self.button()
            + ENTRY_CLOSE@
    }

    /// Writes the button of this course.
    pub fn get_button(&self) -> (text: String)
        ensures
            text@ == self.button(),
    {
        match self.number_of_items {
            Some(n) => {
                if n >= 1 {
                    let mut text = String::from_str(PLACES_OPEN);
                    push_decimal(&mut text, n as u128);
                    text.append(PLACES_CLOSE);
                    text.append(self.formname.as_str());
                    text.append(BUY_CLOSE);
                    text
                } else {
                    String::from_str(SOLD_OUT)
                }
            },
            None => String::from_str(BUY_ANY),
        }
    }

    /// Writes the entry of this course in the listing.
    pub fn get_entry(&self) -> (text: String)
        ensures
            text@ == self.entry(),
    {
        let mut text = String::from_str(ENTRY_OPEN);
        text.append(self.image.as_str());
        text.append(ENTRY_NAME);
        text.append(self.name.as_str());
        text.append(ENTRY_DATES);
        text.append(self.dates.as_str());
        text.append(ENTRY_PRICE);
        text.append(format_amount(self.price).as_str());
        text.append(ENTRY_BUTTON);
        text.append(self.get_button().as_str());
        text.append(ENTRY_CLOSE);
        text
    }
}

/// The entries of a sequence of courses, one after the other.
pub open spec fn listing(items: Seq<Item>) -> Seq<char>
    decreases items.len(),
{
    if items.len() == 0 {
        Seq::<char>::empty()
    } else {
        listing(items.drop_last()) + items.last().entry()
    }
}

/// Writes the entry of each course of the inventory, by ascending key.
pub fn entries(inventory: &Store<Item>) -> (text: String)
    ensures
        ascending(inventory.keys()),
        text@ == listing(inventory.records()),
{
    proof {
        use_type_invariant(inventory);
    }
    let mut text = String::new();
    let n = inventory.len();
    let mut i: usize = 0;
    while i < n
        invariant
            inventory.wf(),
            n == inventory.keys().len(),
            i <= n,
            text@ == listing(inventory.records().take(i as int)),
        decreases n - i,
    {
        let item = inventory.record_at(i);
        text.append(item.get_entry().as_str());
        proof {
            let records = inventory.records();
            assert(records.take(i + 1).drop_last() =~= records.take(i as int));
        }
        i += 1;
    }
    assert(inventory.records().take(n as int) =~= inventory.records());
    text
}

/// The page of the store: `ITEMS` stands for the listing, which holds the
/// entry of each course once, by ascending key.
pub fn store(templates: &Templates, inventory: &Store<Item>) -> (page: String)
    ensures
        ascending(inventory.keys()),
        page@ == filled(templates.store@, "ITEMS"@, listing(inventory.records())),
{
    fill(templates.store.as_str(), "ITEMS", entries(inventory).as_str())
}

/// The form of a course. `COURSETYPE` stands for the name of its form,
/// `PRICE` for its price before the discount, `DISCOUNT` for the discount,
/// `TOTAL` for its price, and `CLIENT_TOKEN_FROM_SERVER` for the token that
/// the gateway gave for this form. They are filled in in this order.
pub open spec fn form_page(template: Seq<char>, item: Item, client_token: Seq<char>) -> Seq<char> {
    let named = filled(template, "COURSETYPE"@, item.formname@);
    let priced = filled(named, "PRICE"@, plain_amount_text((item.price + item.discount) as nat));
    let discounted = filled(priced, "DISCOUNT"@, plain_amount_text(item.discount as nat));
    let summed = filled(discounted, "TOTAL"@, plain_amount_text(item.price as nat));
    filled(summed, "CLIENT_TOKEN_FROM_SERVER"@, client_token)
}

/// Writes the form of the course under `formname`; `None` exactly where
/// the inventory holds no such course.
pub fn item_page(
    templates: &Templates,
    inventory: &Store<Item>,
    formname: &String,
    client_token: &str,
) -> (page: Option<String>)
    ensures
        page is Some <==> inventory@.contains_key(formname@),
        page matches Some(text) ==> text@ == form_page(
            templates.form@,
            inventory@[formname@],
            client_token@,
        ),
{
    match inventory.get(formname) {
        None => None,
        Some(item) => {
            let before: u128 = item.price as u128 + item.discount as u128;
            let named = fill(templates.form.as_str(), "COURSETYPE", item.formname.as_str());
            let priced = fill(named.as_str(), "PRICE", format_plain(before).as_str());
            let discounted = fill(
                priced.as_str(),
                "DISCOUNT",
                format_plain(item.discount as u128).as_str(),
            );
            let summed = fill(
                discounted.as_str(),
                "TOTAL",
                format_plain(item.price as u128).as_str(),
            );
            Some(fill(summed.as_str(), "CLIENT_TOKEN_FROM_SERVER", client_token))
        },
    }
}

} // verus!
