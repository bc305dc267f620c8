pub mod accuracy;
pub mod arithmetic;
pub mod big;
pub mod config;
pub mod drawing;
pub mod exchange;
pub mod figures;
pub mod grid;
pub mod json;
pub mod link;
pub mod market;
pub mod num;
pub mod numeral;
pub mod order;
pub mod page;
pub mod parts;
pub mod percentages;
pub mod roster;
pub mod rounding;
pub mod routes;
pub mod scaling;
pub mod shown;
pub mod stream;
pub mod symbols;
pub mod table;
pub mod text;
pub mod time;
pub mod top;
pub mod william;
