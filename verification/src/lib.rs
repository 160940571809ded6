//! Order processing for a small storefront: course signups, donations and
//! invoices are validated against the records on hand, charged through a
//! payment gateway, and recorded.
//!
//! The library decides and computes; it neither talks to the gateway nor
//! touches the disk. Whoever calls it makes the calls to the gateway,
//! holds the lock of a store while an order is under way, and writes the
//! store to disk when the library asks for it.
//!
//! All amounts of money are whole cents.
//!
//! - [`money`]: the sales tax, and amounts as text.
//! - [`text`]: the order in which keys stand.
//! - [`records`]: the store of records under their keys, in ascending order.
//! - [`util`]: the customer's details and the requests to the gateway.
//! - [`order`]: the steps of an order and how it ends.
//! - [`store`]: the inventory of courses and the signup for one.
//! - [`fundraise`]: the fundraisers and the donation to one.
//! - [`quote`]: invoices.
//! - [`pages`]: the pages and how they are filled in.

pub mod fundraise;
pub mod money;
pub mod order;
pub mod pages;
pub mod quote;
pub mod records;
pub mod store;
pub mod text;
pub mod util;
