pub mod replace;
pub mod try_err;
pub mod use_or_not;
