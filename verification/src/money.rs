//! Amounts of money in whole cents: the sales tax on an invoice, and the
//! text of an amount as the payment gateway takes it.

use vstd::prelude::*;
use vstd::string::StringExecFns;

verus! {

/// The sales tax on `price` cents at 8.75 %, rounded to the nearest cent, a
/// half cent rounding up.
pub open spec fn sales_tax(price: nat) -> nat {
    (price * 875 + 5000) / 10000
}

/// Tax and fees on an invoice: the sales tax on the price unless it is
/// disabled, plus the fees.
pub open spec fn invoice_tax(price: nat, disable_sales_tax: bool, fees: nat) -> nat {
    (if disable_sales_tax { 0 } else { sales_tax(price) }) + fees
}

/// What an invoice charges: the price plus tax and fees.
pub open spec fn invoice_total(price: nat, disable_sales_tax: bool, fees: nat) -> nat {
    price + invoice_tax(price, disable_sales_tax, fees)
}

/// The character of one decimal digit.
pub open spec fn digit_char(d: nat) -> char {
    if d == 0 {
        '0'
    } else if d == 1 {
        '1'
    } else if d == 2 {
        '2'
    } else if d == 3 {
        '3'
    } else if d == 4 {
        '4'
    } else if d == 5 {
        '5'
    } else if d == 6 {
        '6'
    } else if d == 7 {
        '7'
    } else if d == 8 {
        '8'
    } else {
        '9'
    }
}

/// The decimal digits of `n`, most significant first, without leading zeros
/// (`0` is one digit).
pub open spec fn decimal_digits(n: nat) -> Seq<char>
    decreases n,
{
    if n < 10 {
        seq![digit_char(n)]
    } else {
        decimal_digits(n / 10).push(digit_char(n % 10))
    }
}

/// An amount of cents written in dollars with exactly two decimal digits:
/// `10875` is `108.75`, `5` is `0.05`.
pub open spec fn amount_text(cents: nat) -> Seq<char> {
    decimal_digits(cents / 100) + seq!['.', digit_char((cents % 100) / 10), digit_char(cents % 10)]
}

/// Whether `c` is a decimal digit.
pub open spec fn is_digit(c: char) -> bool {
    exists|d: nat| d < 10 && c == digit_char(d)
}

/// The digit that `c` stands for; 0 where it is none.
pub open spec fn digit_value(c: char) -> nat {
    if c == '1' {
        1
    } else if c == '2' {
        2
    } else if c == '3' {
        3
    } else if c == '4' {
        4
    } else if c == '5' {
        5
    } else if c == '6' {
        6
    } else if c == '7' {
        7
    } else if c == '8' {
        8
    } else if c == '9' {
        9
    } else {
        0
    }
}

/// The number that a sequence of decimal digits stands for.
pub open spec fn digits_value(digits: Seq<char>) -> nat
    decreases digits.len(),
{
    if digits.len() == 0 {
        0
    } else {
        digits_value(digits.drop_last()) * 10 + digit_value(digits.last())
    }
}

/// The cents that the text of an amount stands for: the digits before the
/// point are the dollars, the two after it the cents.
pub open spec fn amount_value(text: Seq<char>) -> nat {
    digits_value(text.take(text.len() - 3)) * 100 + digit_value(text[text.len() - 2]) * 10
        + digit_value(text[text.len() - 1])
}

/// An amount of cents written in dollars with no more decimal digits than
/// it needs: `12000` is `120`, `4950` is `49.5`, `4999` is `49.99`.
pub open spec fn plain_amount_text(cents: nat) -> Seq<char> {
    if cents % 100 == 0 {
        decimal_digits(cents / 100)
    } else if cents % 10 == 0 {
        decimal_digits(cents / 100) + seq!['.', digit_char((cents % 100) / 10)]
    } else {
        amount_text(cents)
    }
}

/// The whole dollars of an amount of cents as a page shows them: cut off,
/// not rounded, and no more than the largest 32-bit number.
pub open spec fn whole_dollars(cents: nat) -> nat {
    if cents / 100 > i32::MAX {
        i32::MAX as nat
    } else {
        cents / 100
    }
}

/// How many percent of `goal` the amount `raised` is: cut off, not rounded,
/// and no more than the largest 32-bit number. Of a goal of zero nothing
/// raised is 0 percent, and anything raised is that largest number.
pub open spec fn percent_raised(raised: nat, goal: nat) -> nat {
    if goal == 0 {
        if raised == 0 {
            0
        } else {
            i32::MAX as nat
        }
    } else if 100 * raised / goal > i32::MAX {
        i32::MAX as nat
    } else {
        100 * raised / goal
    }
}

/// The sales tax on `price` cents.
pub fn compute_sales_tax(price: u64) -> (tax: u64)
    ensures
        tax == sales_tax(price as nat),
        tax <= price,
{
    let scaled: u128 = (price as u128) * 875 + 5000;
    let tax: u128 = scaled / 10000;
    tax as u64
}

/// The tax line and the total of an invoice.
#[derive(Clone, Copy, Debug, PartialEq, Eq)]
pub struct InvoiceAmounts {
    /// Sales tax and fees.
    pub tax: u64,
    /// Price plus `tax`: what the invoice charges.
    pub total: u64,
}

/// Computes tax and total of an invoice. Sales tax applies unless
/// `disable_sales_tax` is `Some(true)`; absent fees are zero. Returns `None`
/// exactly when the total does not fit in 64 bits.
pub fn invoice_amounts(price: u64, disable_sales_tax: Option<bool>, fees: Option<u64>) -> (r:
    Option<InvoiceAmounts>)
    ensures
        r is Some <==> invoice_total(
            price as nat,
            disable_sales_tax == Some(true),
            (if fees is Some { fees->0 } else { 0 }) as nat,
        ) <= u64::MAX,
        r matches Some(a) ==> {
            &&& a.tax == invoice_tax(
                price as nat,
                disable_sales_tax == Some(true),
                (if fees is Some { fees->0 } else { 0 }) as nat,
            )
            &&& a.total == price + a.tax
        },
{
    let disabled = match disable_sales_tax {
        Some(b) => b,
        None => false,
    };
    let fee: u64 = match fees {
        Some(f) => f,
        None => 0,
    };
    let sales: u64 = if disabled {
        0
    } else {
        compute_sales_tax(price)
    };
    match sales.checked_add(fee) {
        None => None,
        Some(tax) => match price.checked_add(tax) {
            None => None,
            Some(total) => Some(InvoiceAmounts { tax, total }),
        },
    }
}

/// The text of one decimal digit.
fn digit_str(d: u128) -> (s: &'static str)
    requires
        d < 10,
    ensures
        s@ == seq![digit_char(d as nat)],
{
    proof {
        reveal_strlit("0");
        reveal_strlit("1");
        reveal_strlit("2");
        reveal_strlit("3");
        reveal_strlit("4");
        reveal_strlit("5");
        reveal_strlit("6");
        reveal_strlit("7");
        reveal_strlit("8");
        reveal_strlit("9");
    }
    let s = if d == 0 {
        "0"
    } else if d == 1 {
        "1"
    } else if d == 2 {
        "2"
    } else if d == 3 {
        "3"
    } else if d == 4 {
        "4"
    } else if d == 5 {
        "5"
    } else if d == 6 {
        "6"
    } else if d == 7 {
        "7"
    } else if d == 8 {
        "8"
    } else {
        "9"
    };
    s
}

/// Appends the decimal digits of `n` to `out`.
pub fn push_decimal(out: &mut String, n: u128)
    ensures
        final(out)@ == old(out)@ + decimal_digits(n as nat),
    decreases n,
{
    if n >= 10 {
        push_decimal(out, n / 10);
    }
    out.append(digit_str(n % 10));
}

/// Writes an amount of cents in dollars with exactly two decimal digits,
/// the form in which the payment gateway takes an amount.
pub fn format_amount(cents: u64) -> (text: String)
    ensures
        text@ == amount_text(cents as nat),
{
    let mut text = String::new();
    push_decimal(&mut text, (cents / 100) as u128);
    proof {
        reveal_strlit(".");
    }
    text.append(".");
    text.append(digit_str(((cents % 100) / 10) as u128));
    text.append(digit_str((cents % 10) as u128));
    text
}

/// Writes an amount of cents in dollars with no more decimal digits than it
/// needs.
pub fn format_plain(cents: u128) -> (text: String)
    ensures
        text@ == plain_amount_text(cents as nat),
{
    let mut text = String::new();
    push_decimal(&mut text, cents / 100);
    if cents % 100 != 0 {
        proof {
            reveal_strlit(".");
        }
        text.append(".");
        text.append(digit_str((cents % 100) / 10));
        if cents % 10 != 0 {
            text.append(digit_str(cents % 10));
        }
    }
    text
}

/// The whole dollars of an amount of cents.
pub fn dollars(cents: u64) -> (d: u64)
    ensures
        d == whole_dollars(cents as nat),
{
    let d: u64 = cents / 100;
    if d > 2147483647 {
        2147483647
    } else {
        d
    }
}

/// How many percent of `goal` the amount `raised` is.
pub fn percent(raised: u64, goal: u64) -> (p: u64)
    ensures
        p == percent_raised(raised as nat, goal as nat),
{
    if goal == 0 {
        if raised == 0 {
            0
        } else {
            2147483647
        }
    } else {
        let scaled: u128 = 100 * (raised as u128);
        let p: u128 = scaled / (goal as u128);
        if p > 2147483647 {
            2147483647
        } else {
            p as u64
        }
    }
}

/// The sales tax is the exact 8.75 % of the price rounded to the nearest
/// cent: the two differ by half a cent at most, and by less where the tax
/// was rounded down.
pub proof fn lemma_sales_tax_nearest(price: nat)
    ensures
        875 * price - 5000 < 10000 * sales_tax(price) <= 875 * price + 5000,
{
}

/// The character of each digit is a digit and stands for it.
pub proof fn lemma_digit_chars()
    ensures
        forall|d: nat| d < 10 ==> is_digit(#[trigger] digit_char(d)) && digit_value(digit_char(d)) == d,
{
}

/// The decimal digits of a number are digits, at least one of them, and
/// stand for that number.
pub proof fn lemma_decimal_digits(n: nat)
    ensures
        decimal_digits(n).len() >= 1,
        forall|i: int| 0 <= i < decimal_digits(n).len() ==> is_digit(#[trigger] decimal_digits(n)[i]),
        digits_value(decimal_digits(n)) == n,
    decreases n,
{
    lemma_digit_chars();
    if n < 10 {
        let digits = decimal_digits(n);
        assert(digits_value(digits.drop_last()) == 0);
    } else {
        lemma_decimal_digits(n / 10);
        let digits = decimal_digits(n);
        assert(digits.drop_last() =~= decimal_digits(n / 10));
    }
}

/// The text of an amount has a point before its last two characters and
/// digits everywhere else, and it stands for that amount: no two amounts
/// share a text.
pub proof fn lemma_amount_text(cents: nat)
    ensures
        amount_text(cents).len() >= 4,
        amount_text(cents)[amount_text(cents).len() - 3] == '.',
        forall|i: int|
            0 <= i < amount_text(cents).len() && i != amount_text(cents).len() - 3 ==> is_digit(
                #[trigger] amount_text(cents)[i],
            ),
        amount_value(amount_text(cents)) == cents,
{
    lemma_decimal_digits(cents / 100);
    let text = amount_text(cents);
    let dollars = decimal_digits(cents / 100);
    lemma_digit_chars();
    assert(text.take(text.len() - 3) =~= dollars);
}

} // verus!
