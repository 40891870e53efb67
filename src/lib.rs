//! Data-access and domain-assembly layer of a food-ordering service: typed
//! entities, comparators and filters, the stitching of separately fetched rows
//! into nested domain objects, checkout planning and the order lifecycle rules.

pub mod access;
pub mod assembly;
pub mod catalog;
pub mod checkout;
pub mod money;
pub mod orders;
pub mod sort;
pub mod text;
pub mod types;
