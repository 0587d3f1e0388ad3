//! The commands of the helper.  Each one decides which calls of git are to
//! be made; none makes them.

pub mod checkout;
pub mod commit;
pub mod ls;
pub mod new;
pub mod run_ci;
